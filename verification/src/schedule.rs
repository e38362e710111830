use vstd::prelude::*;

use crate::json_model::JVal;
use crate::json_model::short_name_opt;
use crate::json_model::spec_bye_of;
use crate::json_model::spec_events_of;
use crate::json_model::spec_short_names;
use crate::json_read::as_array_of;
use crate::json_read::as_str_of;
use crate::json_read::as_u64_of;
use crate::json_read::get_field;
use crate::json_read::parse_json;
use crate::json_read::spec_parse_json;
use crate::json_read::value_model;

verus! {

/// An NFL franchise, identified by its uppercase abbreviation.
#[derive(Debug)]
pub struct Team(pub String);

impl Team {
    /// The abbreviation the team was built from.
    pub fn abbreviation(&self) -> (r: &str)
        ensures
            r@ == self.0@,
    {
        self.0.as_str()
    }
}

/// A single scheduled game, described by free text such as "vs BUF",
/// taken verbatim from the upstream data.
#[derive(Debug)]
pub struct TeamMatchUp {
    pub matchup: String,
}

impl TeamMatchUp {
    pub fn from_str(matchup: &str) -> (r: Self)
        ensures
            r.matchup@ == matchup@,
    {
        Self { matchup: matchup.to_owned() }
    }

    /// The matchup's text.
    pub fn text(&self) -> (r: &str)
        ensures
            r@ == self.matchup@,
    {
        self.matchup.as_str()
    }
}

/// Why a response text yields no schedule. Malformed JSON is told apart from
/// a response whose JSON lacks a required member.
#[derive(Clone, Copy, Debug, PartialEq, Eq, Structural)]
pub enum ScheduleError {
    /// The response text is not well-formed JSON.
    MalformedJson,
    /// The response has no `byeWeek` member that reads as a number.
    MissingByeWeek,
    /// The `byeWeek` number does not fit the machine's word size.
    ByeWeekOutOfRange,
    /// The response has no `events` member that is an array.
    MissingEvents,
}

impl ScheduleError {
    /// A message describing the failure to the user.
    pub fn message(&self) -> (r: String)
        ensures
            r@ == match self {
                ScheduleError::MalformedJson => "Could not parse the response as JSON."@,
                ScheduleError::MissingByeWeek => "Could not determine the NFL team's bye week."@,
                ScheduleError::ByeWeekOutOfRange => "The NFL team's bye week is out of range."@,
                ScheduleError::MissingEvents => "Could not determine the NFL team's schedule."@,
            },
    {
        match self {
            ScheduleError::MalformedJson => "Could not parse the response as JSON.".to_owned(),
            ScheduleError::MissingByeWeek => "Could not determine the NFL team's bye week.".to_owned(),
            ScheduleError::ByeWeekOutOfRange => "The NFL team's bye week is out of range.".to_owned(),
            ScheduleError::MissingEvents => "Could not determine the NFL team's schedule.".to_owned(),
        }
    }
}

/// The one week of the season in which the team plays no game.
#[derive(Debug)]
pub struct ByeWeek {
    pub week: usize,
}

/// What reading the bye week out of a parsed response yields: the `byeWeek`
/// number when it is present and fits a `usize`, the exact error otherwise.
pub open spec fn spec_bye_week_of(j: JVal) -> Result<usize, ScheduleError> {
    match spec_bye_of(j) {
        None => Err(ScheduleError::MissingByeWeek),
        Some(w) => if w <= usize::MAX {
            Ok(w as usize)
        } else {
            Err(ScheduleError::ByeWeekOutOfRange)
        },
    }
}

impl ByeWeek {
    /// Whether the given display week is the bye week.
    pub fn is_bye_week(&self, week: usize) -> (r: bool)
        ensures
            r == (self.week == week),
    {
        self.week == week
    }

    /// Reads the bye week out of the raw response text: a parse failure when
    /// the text is not JSON, a missing-member failure when the JSON has no
    /// numeric `byeWeek`, the bye week otherwise.
    pub fn from_unstructed_json(data: &str) -> (r: Result<ByeWeek, ScheduleError>)
        ensures
            match spec_parse_json(data@) {
                None => r == Err::<ByeWeek, ScheduleError>(ScheduleError::MalformedJson),
                Some(j) => match spec_bye_week_of(j) {
                    Err(e) => r == Err::<ByeWeek, ScheduleError>(e),
                    Ok(w) => r is Ok && r->Ok_0.week == w,
                },
            },
    {
        let json = match parse_json(data) {
            Ok(j) => j,
            Err(_) => return Err(ScheduleError::MalformedJson),
        };
        match get_field(&json, "byeWeek") {
            Some(field) => match as_u64_of(field) {
                Some(w) => if w <= usize::MAX as u64 {
                    Ok(ByeWeek { week: w as usize })
                } else {
                    Err(ScheduleError::ByeWeekOutOfRange)
                },
                None => Err(ScheduleError::MissingByeWeek),
            },
            None => Err(ScheduleError::MissingByeWeek),
        }
    }
}

/// A team's season: its games in order, and its bye week.
#[derive(Debug)]
pub struct Schedule {
    pub matchups: Vec<TeamMatchUp>,
    pub bye: ByeWeek,
}

impl Schedule {
    /// The matchup texts, in schedule order.
    pub open spec fn texts(&self) -> Seq<Seq<char>> {
        self.matchups@.map_values(|m: TeamMatchUp| m.matchup@)
    }

    /// Reads a whole schedule out of the raw response text. Malformed JSON,
    /// a missing numeric `byeWeek` and a missing `events` array each yield
    /// their own error, in that order; otherwise the matchup texts are the
    /// `shortName` members of the events, in order, events without one
    /// silently skipped.
    pub fn from_unstructed_json(data: &str) -> (r: Result<Schedule, ScheduleError>)
        ensures
            match spec_parse_json(data@) {
                None => r is Err && r->Err_0 == ScheduleError::MalformedJson,
                Some(j) => match spec_bye_week_of(j) {
                    Err(e) => r is Err && r->Err_0 == e,
                    Ok(w) => match spec_events_of(j) {
                        None => r is Err && r->Err_0 == ScheduleError::MissingEvents,
                        Some(evs) => r is Ok && r->Ok_0.bye.week == w && r->Ok_0.texts()
                            == spec_short_names(evs),
                    },
                },
            },
    {
        let json = match parse_json(data) {
            Ok(j) => j,
            Err(_) => return Err(ScheduleError::MalformedJson),
        };
        let bye = match ByeWeek::from_unstructed_json(data) {
            Ok(b) => b,
            Err(e) => return Err(e),
        };
        let events = match get_field(&json, "events") {
            Some(e) => e,
            None => return Err(ScheduleError::MissingEvents),
        };
        let arr = match as_array_of(events) {
            Some(a) => a,
            None => return Err(ScheduleError::MissingEvents),
        };
        let ghost evs = spec_events_of(value_model(json))->0;
        let mut matchups: Vec<TeamMatchUp> = Vec::new();
        let mut i: usize = 0;
        while i < arr.len()
            invariant
                i <= arr.len(),
                arr@.len() == evs.len(),
                forall|k: int| 0 <= k < evs.len() ==> #[trigger] value_model(arr@[k]) == evs[k],
                matchups@.map_values(|m: TeamMatchUp| m.matchup@) == evs.take(i as int).filter_map(
                    |e: JVal| short_name_opt(e),
                ),
            decreases arr.len() - i,
        {
            let event = &arr[i];
            let ghost before = matchups@;
            match get_field(event, "shortName") {
                Some(field) => match as_str_of(field) {
                    Some(text) => {
                        matchups.push(TeamMatchUp::from_str(text));
                    },
                    None => {},
                },
                None => {},
            }
            proof {
                evs.lemma_filter_map_take_succ(|e: JVal| short_name_opt(e), i as int);
                assert(matchups@.map_values(|m: TeamMatchUp| m.matchup@) =~= evs.take(
                    i + 1,
                ).filter_map(|e: JVal| short_name_opt(e)));
            }
            i = i + 1;
        }
        proof {
            assert(evs.take(evs.len() as int) =~= evs);
        }
        Ok(Schedule { matchups, bye })
    }
}

} // verus!
