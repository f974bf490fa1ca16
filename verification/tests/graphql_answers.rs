use amd::graphql::is_success_status;
use amd::graphql::models::{Member, Streak};
use amd::graphql::mutations::{
    apply_streak_response, read_streak_counts, set_streak, streak_mutation, StreakError,
    StreakMutation,
};
use amd::graphql::queries::{
    attendance_in_response, attendance_query, attendance_query_on, members_in_response, streaks_in_response,
    MEMBERS_QUERY, STREAKS_QUERY,
};
use amd::json::JsonValue;

fn obj(entries: Vec<(&str, JsonValue)>) -> JsonValue {
    JsonValue::Object(entries.into_iter().map(|(k, v)| (k.to_string(), v)).collect())
}

fn member(streak: Vec<Streak>) -> Member {
    Member {
        member_id: 12,
        name: "Ada".to_string(),
        discord_id: "998877".to_string(),
        group_id: 3,
        streak,
        track: Some("systems".to_string()),
    }
}

fn answer(field: &str, current: JsonValue, max: JsonValue) -> JsonValue {
    obj(vec![(
        "data",
        obj(vec![(field, obj(vec![("currentStreak", current), ("maxStreak", max)]))]),
    )])
}

#[test]
fn mutation_text_matches_the_backend_format() {
    let id = 42;
    let expected = format!(
        r#"
        mutation {{
            incrementStreak(input: {{ memberId: {} }}) {{
                currentStreak
                maxStreak
            }}
        }}"#,
        id
    );
    assert_eq!(streak_mutation(StreakMutation::Increment, id), expected);
    let expected_reset = format!(
        r#"
        mutation {{
            resetStreak(input: {{ memberId: {} }}) {{
                currentStreak
                maxStreak
            }}
        }}"#,
        -7
    );
    assert_eq!(streak_mutation(StreakMutation::Reset, -7), expected_reset);
}

#[test]
fn query_texts() {
    let today = "2024-09-01";
    let expected = format!(
        r#"
        query {{
            attendanceByDate(date: "{today}") {{
                name,
                year,
                isPresent,
                timeIn,
            }}
        }}"#
    );
    assert_eq!(attendance_query(today), expected);
    assert!(MEMBERS_QUERY.contains("members {"));
    assert!(MEMBERS_QUERY.starts_with("\n        {\n          members {\n            memberId\n"));
    assert!(STREAKS_QUERY.contains("streaks {"));
    assert!(STREAKS_QUERY.ends_with("}\n    "));
}

#[test]
fn success_statuses() {
    assert!(is_success_status(200));
    assert!(is_success_status(204));
    assert!(is_success_status(299));
    assert!(!is_success_status(199));
    assert!(!is_success_status(300));
    assert!(!is_success_status(404));
    assert!(!is_success_status(500));
}

#[test]
fn json_get_and_conversions() {
    let v = obj(vec![
        ("a", JsonValue::Int(5)),
        ("b", JsonValue::Array(vec![JsonValue::Null, JsonValue::Bool(true)])),
        ("c", JsonValue::OtherNumber("1.5".to_string())),
    ]);
    assert!(matches!(v.get("a"), Some(JsonValue::Int(5))));
    assert_eq!(v.get("a").unwrap().as_i64(), Some(5));
    assert_eq!(v.get("b").unwrap().as_array().map(|a| a.len()), Some(2));
    assert_eq!(v.get("c").unwrap().as_i64(), None);
    assert!(v.get("zz").is_none());
    assert!(JsonValue::Int(1).get("a").is_none());
    assert!(JsonValue::Str("x".to_string()).as_array().is_none());
}

#[test]
fn empty_streaks_get_one_record() {
    let mut m = member(vec![]);
    let r = apply_streak_response(&mut m, &answer("incrementStreak", JsonValue::Int(3), JsonValue::Int(9)), StreakMutation::Increment);
    assert_eq!(r, Ok(()));
    assert_eq!(m.streak, vec![Streak { current_streak: 3, max_streak: 9 }]);
    assert_eq!(m.member_id, 12);
    assert_eq!(m.name, "Ada");
}

#[test]
fn every_streak_record_is_overwritten() {
    let old = vec![
        Streak { current_streak: 1, max_streak: 1 },
        Streak { current_streak: 2, max_streak: 5 },
    ];
    let mut m = member(old);
    let r = apply_streak_response(&mut m, &answer("resetStreak", JsonValue::Int(0), JsonValue::Int(5)), StreakMutation::Reset);
    assert_eq!(r, Ok(()));
    assert_eq!(m.streak, vec![Streak { current_streak: 0, max_streak: 5 }; 2]);
}

#[test]
fn streak_counts_are_cut_like_as_i32() {
    let big: i64 = 4_294_967_297;
    let a = answer("incrementStreak", JsonValue::Int(big), JsonValue::Int(-1));
    assert_eq!(read_streak_counts(&a, StreakMutation::Increment), Ok((big as i32, -1)));
    assert_eq!(big as i32, 1);
}

#[test]
fn streak_errors_leave_member_unchanged() {
    let start = vec![Streak { current_streak: 4, max_streak: 6 }];
    let mut m = member(start.clone());
    let wrong_field = answer("resetStreak", JsonValue::Int(1), JsonValue::Int(1));
    assert_eq!(apply_streak_response(&mut m, &wrong_field, StreakMutation::Increment), Err(StreakError::MissingData));
    let no_data = obj(vec![("errors", JsonValue::Array(vec![]))]);
    assert_eq!(apply_streak_response(&mut m, &no_data, StreakMutation::Increment), Err(StreakError::MissingData));
    let float_current = answer("incrementStreak", JsonValue::OtherNumber("1.5".to_string()), JsonValue::Int(1));
    assert_eq!(apply_streak_response(&mut m, &float_current, StreakMutation::Increment), Err(StreakError::MissingCurrentStreak));
    let missing_max = obj(vec![("data", obj(vec![("incrementStreak", obj(vec![("currentStreak", JsonValue::Int(1))]))]))]);
    assert_eq!(apply_streak_response(&mut m, &missing_max, StreakMutation::Increment), Err(StreakError::MissingMaxStreak));
    assert_eq!(m.streak, start);
}

#[test]
fn same_answer_twice_is_same_as_once() {
    let a = answer("incrementStreak", JsonValue::Int(2), JsonValue::Int(8));
    let mut once = member(vec![Streak { current_streak: 1, max_streak: 8 }; 3]);
    apply_streak_response(&mut once, &a, StreakMutation::Increment).unwrap();
    let mut twice = once.clone();
    apply_streak_response(&mut twice, &a, StreakMutation::Increment).unwrap();
    assert_eq!(once.streak, twice.streak);
    let mut direct = member(vec![]);
    set_streak(&mut direct, 2, 8);
    set_streak(&mut direct, 2, 8);
    assert_eq!(direct.streak, vec![Streak { current_streak: 2, max_streak: 8 }]);
}

#[test]
fn payloads_of_query_answers() {
    let members = obj(vec![("data", obj(vec![("members", JsonValue::Array(vec![JsonValue::Null, JsonValue::Null]))]))]);
    assert_eq!(members_in_response(&members).map(|m| m.len()), Some(2));
    let malformed = obj(vec![("data", obj(vec![("members", JsonValue::Null)]))]);
    assert!(members_in_response(&malformed).is_none());
    assert!(members_in_response(&JsonValue::Null).is_none());

    let streaks = obj(vec![("data", obj(vec![("streaks", JsonValue::Int(1))]))]);
    assert!(matches!(streaks_in_response(&streaks), Some(JsonValue::Int(1))));
    assert!(streaks_in_response(&members).is_none());

    let attendance = obj(vec![("data", obj(vec![("attendanceByDate", JsonValue::Array(vec![]))]))]);
    assert_eq!(attendance_in_response(&attendance).map(|a| a.len()), Some(0));
    assert!(attendance_in_response(&members).is_none());
}

#[test]
fn attendance_query_for_a_calendar_day() {
    assert_eq!(attendance_query_on(2024, 3, 7), attendance_query("2024-03-07"));
    assert!(attendance_query_on(2024, 3, 7).contains("attendanceByDate(date: \"2024-03-07\")"));
    let day = chrono::NaiveDate::from_ymd_opt(987, 12, 31).unwrap();
    assert_eq!(
        attendance_query_on(987, 12, 31),
        attendance_query(&day.format("%Y-%m-%d").to_string())
    );
}
