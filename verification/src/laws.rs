//! Library-wide laws, stated and proved once over the specification
//! functions that the public contracts use.

use crate::domain::{
    ClockView, TaskView, spec_contains_id, spec_insert_all, spec_insert_one, spec_total_secs,
};
use crate::service::{
    lemma_normalize_idempotent, normalize_spec, spec_parse_duration, spec_timechart,
};
use crate::text::is_ascii_alnum_char;
use vstd::prelude::*;

verus! {

/// Recomputing the total elapsed time from the same start/end pair gives
/// the same value: the calculation is a pure function of the pair, with
/// no hidden state.
pub proof fn lemma_total_time_pure(s1: ClockView, e1: ClockView, s2: ClockView, e2: ClockView)
    requires
        s1 == s2,
        e1 == e2,
    ensures
        spec_total_secs(s1, e1) == spec_total_secs(s2, e2),
{
}

/// A duration token using the non-ASCII division separator parses
/// exactly as the same token written with ASCII colons: parsing is
/// invariant under separator normalization.
pub proof fn lemma_separator_normalization(s: Seq<char>)
    ensures
        spec_parse_duration(s) == spec_parse_duration(normalize_spec(s)),
{
    lemma_normalize_idempotent(s);
}

/// The whole composite date/time field extracts identically whether its
/// time tokens use the non-ASCII division separator or ASCII colons.
pub proof fn lemma_timechart_separator_normalization(s: Seq<char>)
    ensures
        spec_timechart(s) == spec_timechart(normalize_spec(s)),
{
    let n = normalize_spec(s);
    lemma_normalize_idempotent(s);
    assert((exists|i: int| 0 <= i < s.len() && is_ascii_alnum_char(s[i])) <==> (exists|i: int|
        0 <= i < n.len() && is_ascii_alnum_char(n[i]))) by {
        if exists|i: int| 0 <= i < s.len() && is_ascii_alnum_char(s[i]) {
            let i = choose|i: int| 0 <= i < s.len() && is_ascii_alnum_char(s[i]);
            assert(is_ascii_alnum_char(n[i]));
        }
        if exists|i: int| 0 <= i < n.len() && is_ascii_alnum_char(n[i]) {
            let i = choose|i: int| 0 <= i < n.len() && is_ascii_alnum_char(n[i]);
            assert(is_ascii_alnum_char(s[i]));
        }
    }
}

/// Inserting two tasks that carry the same identifier into an empty
/// catalog keeps only the first: the catalog holds one entry, the
/// first-inserted one.
pub proof fn lemma_first_write_wins(t1: TaskView, t2: TaskView)
    requires
        t1.id == t2.id,
    ensures
        spec_insert_all(Seq::empty(), seq![t1, t2]) == seq![t1],
{
    let e = Seq::<TaskView>::empty();
    let ts = seq![t1, t2];
    assert(ts[0] == t1);
    assert(ts.drop_first() =~= seq![t2]);
    assert(spec_insert_one(e, t1) =~= seq![t1]);
    assert(spec_contains_id(seq![t1], t2.id)) by {
        assert(seq![t1][0].id == t2.id);
    }
    assert(seq![t2].drop_first() =~= Seq::<TaskView>::empty());
    assert(spec_insert_all(e, ts) == spec_insert_all(seq![t1], seq![t2]));
    assert(spec_insert_all(seq![t1], seq![t2]) == spec_insert_all(
        spec_insert_one(seq![t1], t2),
        Seq::<TaskView>::empty(),
    ));
    assert(spec_insert_one(seq![t1], t2) == seq![t1]);
}

} // verus!
