use statuses::{
    all_codes, all_messages, code, is_valid_code, is_valid_message, load_status_maps, message,
    normalize_key, Status, StatusError, StatusMaps,
};

fn status(code: &str, message: &str) -> Status {
    Status {
        code: code.to_string(),
        message: message.to_string(),
    }
}

fn common_records() -> Vec<Status> {
    vec![
        status("100", "Continue"),
        status("200", "OK"),
        status("201", "Created"),
        status("204", "No Content"),
        status("301", "Moved Permanently"),
        status("400", "Bad Request"),
        status("403", "Forbidden"),
        status("404", "Not Found"),
        status("418", "I'm a teapot"),
        status("422", "Unprocessable Entity"),
        status("500", "Internal Server Error"),
        status("503", "Service Unavailable"),
    ]
}

fn common_maps() -> StatusMaps {
    load_status_maps(&common_records())
}

fn example_maps() -> StatusMaps {
    load_status_maps(&vec![
        status("200", "OK"),
        status("404", "Not Found"),
        status("403", "Forbidden"),
        status("422", "Unprocessable Entity"),
    ])
}

#[test]
fn test_all_status_codes() {
    let maps = common_maps();
    for status in common_records() {
        let result_message = message(&maps, &status.code).unwrap();
        assert_eq!(result_message, status.message, "Failed on code: {}", status.code);

        let result_code = code(&maps, &status.message).unwrap();
        assert_eq!(result_code, status.code, "Failed on message: {}", status.message);
    }
}

#[test]
fn message_of_422() {
    let maps = example_maps();
    assert_eq!(message(&maps, "422").unwrap(), "Unprocessable Entity");
}

#[test]
fn code_of_forbidden() {
    let maps = example_maps();
    assert_eq!(code(&maps, "Forbidden").unwrap(), "403");
    assert_eq!(code(&maps, "forbidden").unwrap(), "403");
}

#[test]
fn unknown_code_is_not_found() {
    let maps = example_maps();
    assert!(matches!(message(&maps, "999"), Err(StatusError::NotFound)));
    assert!(matches!(code(&maps, "Invalid Status"), Err(StatusError::NotFound)));
}

#[test]
fn validity_of_codes() {
    let maps = example_maps();
    assert!(is_valid_code(&maps, "200"));
    assert!(!is_valid_code(&maps, "999"));
    assert!(is_valid_message(&maps, "Not Found"));
    assert!(!is_valid_message(&maps, "Invalid Status"));
}

#[test]
fn code_ignores_case_and_surrounding_whitespace() {
    let maps = common_maps();
    let spaced = code(&maps, " ok ").unwrap();
    let upper = code(&maps, "OK").unwrap();
    let lower = code(&maps, "ok").unwrap();
    assert_eq!(spaced, "200");
    assert_eq!(upper, "200");
    assert_eq!(lower, "200");
    assert_eq!(message(&maps, " 200 ").unwrap(), "OK");
    assert_eq!(code(&maps, "\tnot FOUND\n").unwrap(), "404");
}

#[test]
fn valid_exactly_when_found() {
    let maps = common_maps();
    for q in ["200", " 404", "999", "", "OK", "abc"] {
        assert_eq!(is_valid_code(&maps, q), message(&maps, q).is_ok());
    }
    for q in ["OK", "not found ", "Nope", "", "200"] {
        assert_eq!(is_valid_message(&maps, q), code(&maps, q).is_ok());
    }
}

#[test]
fn normalize_lowercases_and_trims() {
    assert_eq!(normalize_key("  Not FOUND \t"), "not found");
    assert_eq!(normalize_key("OK"), "ok");
    assert_eq!(normalize_key(""), "");
    assert_eq!(normalize_key("   "), "");
    assert_eq!(normalize_key("ÄRGER"), "ärger");
}

#[test]
fn normalize_twice_is_normalize_once() {
    for s in ["  Not FOUND \t", "OK", "", "   ", "a b  C", "\u{a0}X\u{a0}", "ΣΑΣ"] {
        let once = normalize_key(s);
        assert_eq!(normalize_key(&once), once);
    }
}

#[test]
fn stored_values_keep_their_case_and_spaces() {
    let maps = load_status_maps(&vec![status(" 200 ", " Okay Then ")]);
    assert_eq!(message(&maps, "200").unwrap(), " Okay Then ");
    assert_eq!(code(&maps, "okay then").unwrap(), " 200 ");
}

#[test]
fn later_record_wins_on_equal_keys() {
    let maps = load_status_maps(&vec![
        status("200", "OK"),
        status("404", "Not Found"),
        status(" 200", "Fine"),
        status("201", "ok"),
    ]);
    assert_eq!(message(&maps, "200").unwrap(), "Fine");
    assert_eq!(code(&maps, "OK").unwrap(), "201");
    assert_eq!(code(&maps, "Fine").unwrap(), " 200");
    let mut codes = all_codes(&maps);
    codes.sort();
    assert_eq!(codes, vec![" 200", "201", "404"]);
    let mut messages = all_messages(&maps);
    messages.sort();
    assert_eq!(messages, vec!["Fine", "Not Found", "ok"]);
}

#[test]
fn empty_records_give_empty_tables() {
    let maps = load_status_maps(&Vec::new());
    assert!(all_codes(&maps).is_empty());
    assert!(all_messages(&maps).is_empty());
    assert!(!is_valid_code(&maps, "200"));
    assert!(matches!(message(&maps, "200"), Err(StatusError::NotFound)));
}

#[test]
fn all_codes_and_messages_list_every_record() {
    let maps = common_maps();
    let codes = all_codes(&maps);
    let messages = all_messages(&maps);
    assert_eq!(codes.len(), common_records().len());
    assert_eq!(messages.len(), common_records().len());
    for status in common_records() {
        assert!(codes.contains(&status.code));
        assert!(messages.contains(&status.message));
    }
}

#[test]
fn all_messages_repeats_a_message_shared_by_two_codes() {
    let maps = load_status_maps(&vec![status("200", "OK"), status("299", "OK")]);
    let mut messages = all_messages(&maps);
    messages.sort();
    assert_eq!(messages, vec!["OK", "OK"]);
    assert_eq!(all_codes(&maps), vec!["299"]);
}
