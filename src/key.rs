//! The normalized form of a code or a message, under which both are looked up.

use vstd::prelude::*;

verus! {

/// What `str::to_lowercase` makes of a string: the Unicode lowercase mapping
/// of its characters.
pub uninterp spec fn lower_of(s: Seq<char>) -> Seq<char>;

/// Whether `char::is_whitespace` holds of a character (the Unicode
/// `White_Space` property).
pub uninterp spec fn white_space(c: char) -> bool;

/// `s` without the whitespace characters it starts with.
pub open spec fn trim_start_of(s: Seq<char>) -> Seq<char>
    decreases s.len(),
{
    if s.len() > 0 && white_space(s[0]) {
        trim_start_of(s.drop_first())
    } else {
        s
    }
}

/// `s` without the whitespace characters it ends with.
pub open spec fn trim_end_of(s: Seq<char>) -> Seq<char>
    decreases s.len(),
{
    if s.len() > 0 && white_space(s.last()) {
        trim_end_of(s.drop_last())
    } else {
        s
    }
}

/// `s` without leading and trailing whitespace.
pub open spec fn trim_of(s: Seq<char>) -> Seq<char> {
    trim_end_of(trim_start_of(s))
}

/// The lookup key of a code or a message: lowercased, then trimmed.
pub open spec fn normalized(s: Seq<char>) -> Seq<char> {
    trim_of(lower_of(s))
}

/// Relies on `str::to_lowercase`: the result depends on the characters alone,
/// and the empty string stays empty.
#[verifier::external_body]
fn lowercase(s: &str) -> (r: String)
    ensures
        r@ == lower_of(s@),
        s@.len() == 0 ==> r@.len() == 0,
{
    s.to_lowercase()
}

/// Relies on `str::trim`: the slice without the leading and trailing
/// characters for which `char::is_whitespace` holds.
#[verifier::external_body]
fn trim_whitespace(s: &str) -> (r: &str)
    ensures
        r@ == trim_of(s@),
        r@.len() > 0 ==> !white_space(r@[0]) && !white_space(r@.last()),
{
    s.trim()
}

/// Normalizes a code or a message for lookup: lowercases it, then removes
/// leading and trailing whitespace.
pub fn normalize_key(s: &str) -> (r: String)
    ensures
        r@ == normalized(s@),
{
    let lower = lowercase(s);
    let trimmed = trim_whitespace(lower.as_str());
    trimmed.to_owned()
}

/// Removing the whitespace at the end keeps `s` a prefix of itself, and keeps
/// the first character when anything is left.
proof fn lemma_trim_end_prefix(s: Seq<char>)
    ensures
        trim_end_of(s).len() <= s.len(),
        trim_end_of(s) == s.subrange(0, trim_end_of(s).len() as int),
    decreases s.len(),
{
    if s.len() > 0 && white_space(s.last()) {
        lemma_trim_end_prefix(s.drop_last());
        assert(s.drop_last().subrange(0, trim_end_of(s).len() as int) =~= s.subrange(
            0,
            trim_end_of(s).len() as int,
        ));
    } else {
        assert(s.subrange(0, s.len() as int) =~= s);
    }
}

/// Trimming is idempotent: a trimmed string has no surrounding whitespace
/// left to remove.
pub proof fn lemma_trim_idempotent(s: Seq<char>)
    ensures
        trim_of(trim_of(s)) == trim_of(s),
{
    let t = trim_of(s);
    lemma_trim_start_stops(s);
    lemma_trim_end_prefix(trim_start_of(s));
    lemma_trim_end_stops(trim_start_of(s));
    // `t` starts where `trim_start_of(s)` starts, and that is no whitespace.
    assert(trim_start_of(t) == t);
    assert(trim_end_of(t) == t);
}

/// What remains after removing leading whitespace does not start with it.
proof fn lemma_trim_start_stops(s: Seq<char>)
    ensures
        trim_start_of(s).len() > 0 ==> !white_space(trim_start_of(s)[0]),
    decreases s.len(),
{
    if s.len() > 0 && white_space(s[0]) {
        lemma_trim_start_stops(s.drop_first());
    }
}

/// What remains after removing trailing whitespace does not end with it.
proof fn lemma_trim_end_stops(s: Seq<char>)
    ensures
        trim_end_of(s).len() > 0 ==> !white_space(trim_end_of(s).last()),
    decreases s.len(),
{
    if s.len() > 0 && white_space(s.last()) {
        lemma_trim_end_stops(s.drop_last());
    }
}

} // verus!
