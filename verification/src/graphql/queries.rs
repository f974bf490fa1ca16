//! The queries: their text and where their answers hold what was asked.

use vstd::prelude::*;
use crate::json::{JsonValue, opt_as_array, opt_get};
use crate::date::{iso_day, iso_day_text};

verus! {

/// The query for every member with their streaks.
pub const MEMBERS_QUERY: &'static str = "\n        {\n          members {\n            memberId\n            name\n            discordId\n            groupId\n            streak {\n              currentStreak\n              maxStreak\n            }\n            track\n        }\n    }";

/// The query for every member's streak counts.
pub const STREAKS_QUERY: &'static str = "\n        {\n          streaks {\n            memberId\n            currentStreak\n            maxStreak\n          }\n        }\n    ";

/// The text of the attendance query up to the date.
pub const ATTENDANCE_HEAD: &'static str = "\n        query {\n            attendanceByDate(date: \"";

/// The text of the attendance query after the date.
pub const ATTENDANCE_TAIL: &'static str = "\") {\n                name,\n                year,\n                isPresent,\n                timeIn,\n            }\n        }";

/// Builds the query for the attendance records of the day `date` (`YYYY-MM-DD`).
pub fn attendance_query(date: &str) -> (text: String)
    ensures
        text@ == ATTENDANCE_HEAD@ + date@ + ATTENDANCE_TAIL@,
{
    let mut text = String::from_str(ATTENDANCE_HEAD);
    text.append(date);
    text.append(ATTENDANCE_TAIL);
    text
}

/// Builds the attendance query for the records of the calendar day
/// `year`-`month`-`day`, written `YYYY-MM-DD`.
pub fn attendance_query_on(year: i32, month: u32, day: u32) -> (text: String)
    requires
        1 <= month <= 12,
        1 <= day <= 31,
    ensures
        text@ == ATTENDANCE_HEAD@ + iso_day_text(year as int, month as nat, day as nat) + ATTENDANCE_TAIL@,
{
    let date = iso_day(year, month, day);
    attendance_query(date.as_str())
}

/// The member records of an answer to the members query: the array under `data.members`.
pub fn members_in_response(answer: &JsonValue) -> (members: Option<&Vec<JsonValue>>)
    ensures
        members matches Some(items) ==> opt_as_array(opt_get(answer.spec_get("data"@), "members"@)) == Some(items@),
        members is None ==> opt_as_array(opt_get(answer.spec_get("data"@), "members"@)) is None,
{
    match answer.get("data") {
        Some(data) => match data.get("members") {
            Some(members) => members.as_array(),
            None => None,
        },
        None => None,
    }
}

/// The streak records of an answer to the streaks query: the value under `data.streaks`.
pub fn streaks_in_response(answer: &JsonValue) -> (streaks: Option<&JsonValue>)
    ensures
        crate::json::deref_value(streaks) == opt_get(answer.spec_get("data"@), "streaks"@),
{
    match answer.get("data") {
        Some(data) => data.get("streaks"),
        None => None,
    }
}

/// The attendance records of an answer to the attendance query: the array
/// under `data.attendanceByDate`.
pub fn attendance_in_response(answer: &JsonValue) -> (records: Option<&Vec<JsonValue>>)
    ensures
        records matches Some(items) ==> opt_as_array(opt_get(answer.spec_get("data"@), "attendanceByDate"@)) == Some(items@),
        records is None ==> opt_as_array(opt_get(answer.spec_get("data"@), "attendanceByDate"@)) is None,
{
    match answer.get("data") {
        Some(data) => match data.get("attendanceByDate") {
            Some(records) => records.as_array(),
            None => None,
        },
        None => None,
    }
}

} // verus!
