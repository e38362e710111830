use vstd::prelude::*;

verus! {

/// Mathematical model of a JSON document, one constructor per JSON shape.
/// A number is modelled only by how it reads as a `u64` (`None` when it is
/// negative, fractional or too large), which is all this library consumes
/// of numbers.
pub enum JVal {
    Null,
    Bool(bool),
    Num { as_u64: Option<u64> },
    Str(Seq<char>),
    Arr(Seq<JVal>),
    Obj(Map<Seq<char>, JVal>),
}

/// Looking a key up in a JSON value: the named member when the value is an
/// object that has the key, nothing otherwise.
pub open spec fn spec_field(j: JVal, key: Seq<char>) -> Option<JVal> {
    match j {
        JVal::Obj(m) => if m.dom().contains(key) {
            Some(m[key])
        } else {
            None
        },
        _ => None,
    }
}

/// How the named member of a JSON value reads as a `u64`: nothing when the
/// member is absent, not a number, or not representable as a `u64`.
pub open spec fn spec_read_u64(j: JVal, key: Seq<char>) -> Option<u64> {
    match spec_field(j, key) {
        Some(JVal::Num { as_u64 }) => as_u64,
        _ => None,
    }
}

/// The `byeWeek` member of the response, read as a number.
pub open spec fn spec_bye_of(j: JVal) -> Option<u64> {
    spec_read_u64(j, "byeWeek"@)
}

/// The `events` member of the response, read as an array.
pub open spec fn spec_events_of(j: JVal) -> Option<Seq<JVal>> {
    match spec_field(j, "events"@) {
        Some(JVal::Arr(s)) => Some(s),
        _ => None,
    }
}

/// The matchup text of one event: the `shortName` member when it is present
/// and textual, nothing otherwise.
pub open spec fn short_name_opt(e: JVal) -> Option<Seq<char>> {
    match spec_field(e, "shortName"@) {
        Some(JVal::Str(s)) => Some(s),
        _ => None,
    }
}

/// The matchup texts of a sequence of events, in order: an event without a
/// textual `shortName` contributes nothing.
pub open spec fn spec_short_names(events: Seq<JVal>) -> Seq<Seq<char>> {
    events.filter_map(|e: JVal| short_name_opt(e))
}

/// Events without a textual `shortName` never influence the matchup texts:
/// dropping them first changes nothing.
pub proof fn lemma_short_names_ignore_unnamed(events: Seq<JVal>)
    ensures
        spec_short_names(events) == spec_short_names(
            events.filter(|e: JVal| short_name_opt(e) is Some),
        ),
    decreases events.len(),
{
    reveal(Seq::filter);
    let p = |e: JVal| short_name_opt(e) is Some;
    let f = |e: JVal| short_name_opt(e);
    if events.len() > 0 {
        let rest = events.drop_last();
        let last = events.last();
        lemma_short_names_ignore_unnamed(rest);
        if p(last) {
            let fr = rest.filter(p);
            assert(events.filter(p) == fr.push(last));
            assert(fr.push(last).drop_last() =~= fr);
            assert(fr.push(last).filter_map(f) == fr.filter_map(f) + seq![
                short_name_opt(last)->0,
            ]);
        }
    }
}

} // verus!
