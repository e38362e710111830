use nfl_schedule::registry::team_id;
use nfl_schedule::registry::team_id_ci;
use nfl_schedule::url::schedule_url;
use nfl_schedule::ByeWeek;
use nfl_schedule::Schedule;
use nfl_schedule::ScheduleError;
use nfl_schedule::Team;
use nfl_schedule::TeamMatchUp;

#[test]
fn registry_returns_documented_ids() {
    let table = [
        ("ATL", 1),
        ("BUF", 2),
        ("CHI", 3),
        ("CIN", 4),
        ("CLE", 5),
        ("DAL", 6),
        ("DEN", 7),
        ("DET", 8),
        ("GB", 9),
        ("TEN", 10),
        ("IND", 11),
        ("KC", 12),
        ("LV", 13),
        ("LAR", 14),
        ("MIA", 15),
        ("MIN", 16),
        ("NE", 17),
        ("NO", 18),
        ("NYG", 19),
        ("NYJ", 20),
        ("PHI", 21),
        ("ARI", 22),
        ("PIT", 23),
        ("LAC", 24),
        ("SF", 25),
        ("SEA", 26),
        ("TB", 28),
        ("WSH", 29),
        ("CAR", 30),
        ("JAX", 31),
    ];
    for (abbr, id) in table {
        assert_eq!(team_id(abbr), Some(id));
        assert_eq!(team_id_ci(abbr), Some(id));
        assert_eq!(team_id_ci(&abbr.to_lowercase()), Some(id));
    }
}

#[test]
fn registry_is_case_insensitive() {
    assert_eq!(team_id_ci("jax"), Some(31));
    assert_eq!(team_id_ci("Jax"), Some(31));
    assert_eq!(team_id_ci("jAx"), Some(31));
    assert_eq!(team_id("jax"), None);
}

#[test]
fn registry_rejects_unrecognized() {
    assert_eq!(team_id("XYZ"), None);
    assert_eq!(team_id(""), None);
    assert_eq!(team_id("ATLX"), None);
    assert_eq!(team_id("AT"), None);
    assert_eq!(team_id_ci("xyz"), None);
}

#[test]
fn registry_has_no_team_for_the_gap() {
    let table = [
        "ATL", "BUF", "CHI", "CIN", "CLE", "DAL", "DEN", "DET", "GB", "TEN", "IND", "KC", "LV",
        "LAR", "MIA", "MIN", "NE", "NO", "NYG", "NYJ", "PHI", "ARI", "PIT", "LAC", "SF", "SEA",
        "TB", "WSH", "CAR", "JAX",
    ];
    for abbr in table {
        assert_ne!(team_id(abbr), Some(27));
    }
}

#[test]
fn matchup_keeps_its_text() {
    let m = TeamMatchUp::from_str("vs BUF");
    assert_eq!(m.text(), "vs BUF");
    assert_eq!(m.matchup, "vs BUF");
}

#[test]
fn team_keeps_its_abbreviation() {
    let t = Team(String::from("JAX"));
    assert_eq!(t.abbreviation(), "JAX");
}

#[test]
fn bye_week_matches_its_week_only() {
    let b = ByeWeek { week: 7 };
    assert!(b.is_bye_week(7));
    assert!(!b.is_bye_week(6));
    assert!(!b.is_bye_week(8));
    assert!(!b.is_bye_week(0));
}

#[test]
fn bye_week_read_from_json() {
    let b = ByeWeek::from_unstructed_json("{\"byeWeek\": 7, \"events\": []}").unwrap();
    assert_eq!(b.week, 7);
}

#[test]
fn bye_week_missing_is_an_error() {
    let r = ByeWeek::from_unstructed_json("{\"events\": []}");
    assert_eq!(r.unwrap_err(), ScheduleError::MissingByeWeek);
}

#[test]
fn bye_week_of_wrong_type_is_an_error() {
    assert_eq!(
        ByeWeek::from_unstructed_json("{\"byeWeek\": \"five\"}").unwrap_err(),
        ScheduleError::MissingByeWeek
    );
    assert_eq!(
        ByeWeek::from_unstructed_json("{\"byeWeek\": -3}").unwrap_err(),
        ScheduleError::MissingByeWeek
    );
    assert_eq!(
        ByeWeek::from_unstructed_json("{\"byeWeek\": 5.5}").unwrap_err(),
        ScheduleError::MissingByeWeek
    );
}

#[test]
fn bye_week_from_malformed_text_is_a_parse_error() {
    let r = ByeWeek::from_unstructed_json("not json at all");
    assert_eq!(r.unwrap_err(), ScheduleError::MalformedJson);
}

#[test]
fn schedule_reads_events_in_order() {
    let s = Schedule::from_unstructed_json(
        "{\"byeWeek\": 0, \"events\": [{\"shortName\": \"vs BUF\"}, {\"shortName\": \"@ NYJ\"}]}",
    )
    .unwrap();
    assert_eq!(s.matchups.len(), 2);
    assert_eq!(s.matchups[0].text(), "vs BUF");
    assert_eq!(s.matchups[1].text(), "@ NYJ");
    assert_eq!(s.bye.week, 0);
}

#[test]
fn events_without_short_name_are_skipped() {
    let s = Schedule::from_unstructed_json(
        "{\"byeWeek\": 0, \"events\": [{\"shortName\": \"a\"}, {\"name\": \"x\"}, {\"shortName\": 3}, 7, {\"shortName\": \"b\"}]}",
    )
    .unwrap();
    assert_eq!(s.matchups.len(), 2);
    assert_eq!(s.matchups[0].text(), "a");
    assert_eq!(s.matchups[1].text(), "b");
}

#[test]
fn missing_events_is_a_fatal_error_not_an_empty_schedule() {
    let r = Schedule::from_unstructed_json("{\"byeWeek\": 4}");
    assert_eq!(r.unwrap_err(), ScheduleError::MissingEvents);
    let r = Schedule::from_unstructed_json("{\"byeWeek\": 4, \"events\": {\"a\": 1}}");
    assert_eq!(r.unwrap_err(), ScheduleError::MissingEvents);
}

#[test]
fn malformed_text_differs_from_missing_member() {
    let malformed = Schedule::from_unstructed_json("{{{").unwrap_err();
    let missing_events = Schedule::from_unstructed_json("{\"byeWeek\": 1}").unwrap_err();
    let missing_bye = Schedule::from_unstructed_json("{\"events\": []}").unwrap_err();
    assert_eq!(malformed, ScheduleError::MalformedJson);
    assert_ne!(malformed, missing_events);
    assert_ne!(malformed, missing_bye);
    assert_ne!(missing_events, missing_bye);
}

#[test]
fn top_level_array_has_no_members() {
    let r = Schedule::from_unstructed_json("[1, 2, 3]");
    assert_eq!(r.unwrap_err(), ScheduleError::MissingByeWeek);
}

#[test]
fn error_messages_name_the_failure() {
    assert_eq!(
        ScheduleError::MissingByeWeek.message(),
        "Could not determine the NFL team's bye week."
    );
    assert_eq!(
        ScheduleError::MissingEvents.message(),
        "Could not determine the NFL team's schedule."
    );
    assert_eq!(
        ScheduleError::MalformedJson.message(),
        "Could not parse the response as JSON."
    );
    assert_eq!(
        ScheduleError::ByeWeekOutOfRange.message(),
        "The NFL team's bye week is out of range."
    );
}

#[test]
fn formatter_without_reachable_bye_numbers_weeks_in_order() {
    let s = Schedule {
        matchups: vec![
            TeamMatchUp::from_str("a"),
            TeamMatchUp::from_str("b"),
            TeamMatchUp::from_str("c"),
        ],
        bye: ByeWeek { week: 0 },
    };
    let lines = s.render_lines();
    assert_eq!(lines, vec!["Week 1: a", "Week 2: b", "Week 3: c"]);
}

#[test]
fn formatter_inserts_the_bye_and_shifts_later_weeks() {
    let s = Schedule {
        matchups: vec![
            TeamMatchUp::from_str("a"),
            TeamMatchUp::from_str("b"),
            TeamMatchUp::from_str("c"),
            TeamMatchUp::from_str("d"),
        ],
        bye: ByeWeek { week: 2 },
    };
    let lines = s.render_lines();
    assert_eq!(
        lines,
        vec![
            "Week 1: a",
            "Week 2: Bye",
            "Week 3: b",
            "Week 4: c",
            "Week 5: d",
        ]
    );
}

#[test]
fn formatter_places_a_first_week_bye() {
    let s = Schedule {
        matchups: vec![TeamMatchUp::from_str("a"), TeamMatchUp::from_str("b")],
        bye: ByeWeek { week: 1 },
    };
    assert_eq!(
        s.render_lines(),
        vec!["Week 1: Bye", "Week 2: a", "Week 3: b"]
    );
}

#[test]
fn formatter_places_a_bye_at_the_last_game() {
    let s = Schedule {
        matchups: vec![TeamMatchUp::from_str("a"), TeamMatchUp::from_str("b")],
        bye: ByeWeek { week: 2 },
    };
    assert_eq!(
        s.render_lines(),
        vec!["Week 1: a", "Week 2: Bye", "Week 3: b"]
    );
}

#[test]
fn formatter_never_shows_a_bye_past_the_games() {
    let s = Schedule {
        matchups: vec![TeamMatchUp::from_str("a"), TeamMatchUp::from_str("b")],
        bye: ByeWeek { week: 3 },
    };
    assert_eq!(s.render_lines(), vec!["Week 1: a", "Week 2: b"]);
}

#[test]
fn formatter_renders_two_digit_weeks() {
    let matchups: Vec<TeamMatchUp> = (0..12)
        .map(|i| TeamMatchUp::from_str(&format!("m{}", i)))
        .collect();
    let s = Schedule {
        matchups,
        bye: ByeWeek { week: 11 },
    };
    let lines = s.render_lines();
    assert_eq!(lines.len(), 13);
    assert_eq!(lines[9], "Week 10: m9");
    assert_eq!(lines[10], "Week 11: Bye");
    assert_eq!(lines[11], "Week 12: m10");
    assert_eq!(lines[12], "Week 13: m11");
}

#[test]
fn formatter_of_an_empty_schedule_is_empty() {
    let s = Schedule {
        matchups: vec![],
        bye: ByeWeek { week: 1 },
    };
    assert_eq!(s.render_lines(), Vec::<String>::new());
    assert_eq!(s.render(), "");
}

#[test]
fn end_to_end_four_games_with_an_unreached_bye() {
    let data = "{\"byeWeek\":5,\"events\":[{\"shortName\":\"vs BUF\"},{\"shortName\":\"@ NYJ\"},{\"shortName\":\"vs MIA\"},{\"shortName\":\"@ NE\"}]}";
    let s = Schedule::from_unstructed_json(data).unwrap();
    assert_eq!(
        s.render(),
        "Week 1: vs BUF\nWeek 2: @ NYJ\nWeek 3: vs MIA\nWeek 4: @ NE\n"
    );
}

#[test]
fn schedule_url_holds_the_identifier() {
    assert_eq!(
        schedule_url(31),
        "https://site.api.espn.com/apis/site/v2/sports/football/nfl/teams/31/schedule"
    );
    assert_eq!(
        schedule_url(1),
        "https://site.api.espn.com/apis/site/v2/sports/football/nfl/teams/1/schedule"
    );
}
