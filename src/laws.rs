//! Facts about the lookup tables that relate several records or several
//! queries.

use vstd::prelude::*;

use crate::key::normalized;
use crate::status::{code_map, lookup, message_map, Status, StatusMaps};

verus! {

/// A record's code leads to that record's message when no later record has
/// a code that normalizes alike: the last write wins.
pub proof fn lemma_last_code_wins(records: Seq<Status>, i: int)
    requires
        0 <= i < records.len(),
        forall|j: int|
            i < j < records.len() ==> normalized(#[trigger] records[j].code@) != normalized(
                records[i].code@,
            ),
    ensures
        lookup(code_map(records), records[i].code@) == Some(records[i].message@),
    decreases records.len(),
{
    if i < records.len() - 1 {
        let s = records.drop_last();
        assert forall|j: int| i < j < s.len() implies normalized(#[trigger] s[j].code@)
            != normalized(s[i].code@) by {
            assert(s[j] == records[j]);
        }
        lemma_last_code_wins(s, i);
        assert(records[records.len() - 1] == records.last());
    }
}

/// A record's message leads to that record's code when no later record has
/// a message that normalizes alike: the last write wins.
pub proof fn lemma_last_message_wins(records: Seq<Status>, i: int)
    requires
        0 <= i < records.len(),
        forall|j: int|
            i < j < records.len() ==> normalized(#[trigger] records[j].message@) != normalized(
                records[i].message@,
            ),
    ensures
        lookup(message_map(records), records[i].message@) == Some(records[i].code@),
    decreases records.len(),
{
    if i < records.len() - 1 {
        let s = records.drop_last();
        assert forall|j: int| i < j < s.len() implies normalized(#[trigger] s[j].message@)
            != normalized(s[i].message@) by {
            assert(s[j] == records[j]);
        }
        lemma_last_message_wins(s, i);
        assert(records[records.len() - 1] == records.last());
    }
}

/// In a data set where no two codes and no two messages normalize alike,
/// every record's code leads to its message and its message to its code.
pub proof fn lemma_collision_free_round_trip(records: Seq<Status>, i: int)
    requires
        0 <= i < records.len(),
        forall|a: int, b: int|
            0 <= a < b < records.len() ==> normalized(#[trigger] records[a].code@) != normalized(
                #[trigger] records[b].code@,
            ),
        forall|a: int, b: int|
            0 <= a < b < records.len() ==> normalized(#[trigger] records[a].message@)
                != normalized(#[trigger] records[b].message@),
    ensures
        lookup(code_map(records), records[i].code@) == Some(records[i].message@),
        lookup(message_map(records), records[i].message@) == Some(records[i].code@),
{
    assert forall|j: int| i < j < records.len() implies normalized(#[trigger] records[j].code@)
        != normalized(records[i].code@) by {
        assert(normalized(records[i].code@) != normalized(records[j].code@));
    }
    assert forall|j: int| i < j < records.len() implies normalized(
        #[trigger] records[j].message@,
    ) != normalized(records[i].message@) by {
        assert(normalized(records[i].message@) != normalized(records[j].message@));
    }
    lemma_last_code_wins(records, i);
    lemma_last_message_wins(records, i);
}

/// A code is valid exactly when looking up its message succeeds, and a
/// message is valid exactly when looking up its code succeeds.
pub proof fn lemma_valid_iff_found(maps: &StatusMaps, q: Seq<char>)
    ensures
        maps.code_to_message_map().contains_key(normalized(q)) <==> lookup(
            maps.code_to_message_map(),
            q,
        ) is Some,
        maps.message_to_code_map().contains_key(normalized(q)) <==> lookup(
            maps.message_to_code_map(),
            q,
        ) is Some,
{
}

} // verus!
