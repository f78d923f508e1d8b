//! Status records, the two lookup tables built from them, and the queries
//! that translate between codes and messages.

use vstd::prelude::*;

use crate::key::{normalize_key, normalized};
use crate::table::KeyTable;

verus! {

#[verifier::external_type_specification]
#[verifier::external_body]
pub struct ExIoError(std::io::Error);

#[verifier::external_type_specification]
#[verifier::external_body]
pub struct ExJsonError(serde_json::Error);

/// Why a status could not be translated, or the records could not be had.
#[derive(Debug)]
pub enum StatusError {
    /// No record has the code or message asked for.
    NotFound,
    /// The file that holds the records could not be read.
    FileError(std::io::Error),
    /// The records could not be parsed.
    JsonError(serde_json::Error),
}

/// One HTTP status: its code (such as "200") and its reason phrase (such as "OK").
#[derive(Debug, Clone)]
pub struct Status {
    pub code: String,
    pub message: String,
}

/// The map from normalized codes to messages that the records give, each
/// record inserted in turn: a later record overrides an earlier one whose
/// code normalizes alike.
pub open spec fn code_map(records: Seq<Status>) -> Map<Seq<char>, Seq<char>>
    decreases records.len(),
{
    if records.len() == 0 {
        Map::empty()
    } else {
        code_map(records.drop_last()).insert(
            normalized(records.last().code@),
            records.last().message@,
        )
    }
}

/// The map from normalized messages to codes that the records give, a later
/// record overriding an earlier one whose message normalizes alike.
pub open spec fn message_map(records: Seq<Status>) -> Map<Seq<char>, Seq<char>>
    decreases records.len(),
{
    if records.len() == 0 {
        Map::empty()
    } else {
        message_map(records.drop_last()).insert(
            normalized(records.last().message@),
            records.last().code@,
        )
    }
}

/// What a query for `q` finds in `m`: the entry under the normalized `q`.
pub open spec fn lookup(m: Map<Seq<char>, Seq<char>>, q: Seq<char>) -> Option<Seq<char>> {
    if m.contains_key(normalized(q)) {
        Some(m[normalized(q)])
    } else {
        None
    }
}

/// The two lookup tables, built together from one list of records.
pub struct StatusMaps {
    code_to_message: KeyTable,
    message_to_code: KeyTable,
}

impl StatusMaps {
    /// Both tables are well formed.
    pub closed spec fn wf(&self) -> bool {
        self.code_to_message.wf() && self.message_to_code.wf()
    }

    /// The table from normalized codes to messages.
    pub closed spec fn code_to_message_map(&self) -> Map<Seq<char>, Seq<char>> {
        self.code_to_message@
    }

    /// The table from normalized messages to codes.
    pub closed spec fn message_to_code_map(&self) -> Map<Seq<char>, Seq<char>> {
        self.message_to_code@
    }
}

/// Builds both lookup tables from the records in one pass. Each code and
/// each message is normalized into a key; the value kept is the other field
/// as the record has it. Where two records give the same key, the later wins.
pub fn load_status_maps(records: &Vec<Status>) -> (r: StatusMaps)
    ensures
        r.wf(),
        r.code_to_message_map() == code_map(records@),
        r.message_to_code_map() == message_map(records@),
{
    let mut code_to_message = KeyTable::new();
    let mut message_to_code = KeyTable::new();
    let mut i: usize = 0;
    while i < records.len()
        invariant
            i <= records@.len(),
            code_to_message.wf(),
            message_to_code.wf(),
            code_to_message@ == code_map(records@.subrange(0, i as int)),
            message_to_code@ == message_map(records@.subrange(0, i as int)),
        decreases records@.len() - i,
    {
        let status = &records[i];
        let normalized_code = normalize_key(status.code.as_str());
        let normalized_message = normalize_key(status.message.as_str());
        code_to_message.insert(normalized_code, status.message.clone());
        message_to_code.insert(normalized_message, status.code.clone());
        assert(records@.subrange(0, i + 1).drop_last() =~= records@.subrange(0, i as int));
        i = i + 1;
    }
    assert(records@.subrange(0, records@.len() as int) =~= records@);
    StatusMaps { code_to_message, message_to_code }
}

/// The code whose message normalizes as `message` does.
pub fn code(maps: &StatusMaps, message: &str) -> (r: Result<String, StatusError>)
    requires
        maps.wf(),
    ensures
        match r {
            Ok(c) => lookup(maps.message_to_code_map(), message@) == Some(c@),
            Err(e) => lookup(maps.message_to_code_map(), message@) is None && e is NotFound,
        },
{
    match maps.message_to_code.get(&normalize_key(message)) {
        Some(c) => Ok(c),
        None => Err(StatusError::NotFound),
    }
}

/// The message whose code normalizes as `code` does.
pub fn message(maps: &StatusMaps, code: &str) -> (r: Result<String, StatusError>)
    requires
        maps.wf(),
    ensures
        match r {
            Ok(m) => lookup(maps.code_to_message_map(), code@) == Some(m@),
            Err(e) => lookup(maps.code_to_message_map(), code@) is None && e is NotFound,
        },
{
    match maps.code_to_message.get(&normalize_key(code)) {
        Some(m) => Ok(m),
        None => Err(StatusError::NotFound),
    }
}

/// Whether some record has a code that normalizes as `code` does.
pub fn is_valid_code(maps: &StatusMaps, code: &str) -> (r: bool)
    requires
        maps.wf(),
    ensures
        r == maps.code_to_message_map().contains_key(normalized(code@)),
{
    maps.code_to_message.contains_key(&normalize_key(code))
}

/// Whether some record has a message that normalizes as `message` does.
pub fn is_valid_message(maps: &StatusMaps, message: &str) -> (r: bool)
    requires
        maps.wf(),
    ensures
        r == maps.message_to_code_map().contains_key(normalized(message@)),
{
    maps.message_to_code.contains_key(&normalize_key(message))
}

/// Every code that a message leads to, once for each distinct message.
pub fn all_codes(maps: &StatusMaps) -> (r: Vec<String>)
    requires
        maps.wf(),
    ensures
        r@.len() == maps.message_to_code_map().dom().len(),
        forall|c: Seq<char>|
            maps.message_to_code_map().values().contains(c) <==> exists|i: int|
                0 <= i < r@.len() && #[trigger] r@[i]@ == c,
{
    maps.message_to_code.values()
}

/// Every message that a code leads to, once for each distinct code.
pub fn all_messages(maps: &StatusMaps) -> (r: Vec<String>)
    requires
        maps.wf(),
    ensures
        r@.len() == maps.code_to_message_map().dom().len(),
        forall|m: Seq<char>|
            maps.code_to_message_map().values().contains(m) <==> exists|i: int|
                0 <= i < r@.len() && #[trigger] r@[i]@ == m,
{
    maps.code_to_message.values()
}

} // verus!
