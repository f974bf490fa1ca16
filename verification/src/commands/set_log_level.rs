//! The `set_log_level` command: which levels it takes, which filter it
//! reloads, and what it answers.

use vstd::prelude::*;
use crate::CRATE_NAME;
use crate::trace::{directives_text, env_filter, env_filter_text, lemma_crate_name_ascii};
use tracing_subscriber::EnvFilter;

verus! {

/// The answer to a level that is not one of the five.
pub const INVALID_LEVEL_REPLY: &'static str = "Invalid log level! Use: trace, debug, info, warn, error";

/// The answer when the filter could not be reloaded.
pub const RELOAD_FAILED_REPLY: &'static str = "Failed to update log level.";

/// The text of a successful answer before the filter.
pub const RELOADED_REPLY_HEAD: &'static str = "Log level changed to **";

/// The text of a successful answer after the filter.
pub const RELOADED_REPLY_TAIL: &'static str = "**";

/// Whether `level` is one of the five filter levels of `tracing`.
pub open spec fn is_valid_level(level: Seq<char>) -> bool {
    level == "trace"@ || level == "debug"@ || level == "info"@ || level == "warn"@ || level == "error"@
}

/// The filter directive for `level`: for every crate with
/// `enable_debug_libraries`, else for this crate only.
pub open spec fn level_filter(level: Seq<char>, enable_debug_libraries: bool) -> Seq<char> {
    if enable_debug_libraries {
        level
    } else {
        CRATE_NAME@ + "="@ + level
    }
}

/// The filter of a valid level is ASCII text.
proof fn lemma_level_filter_ascii(level: Seq<char>, enable_debug_libraries: bool)
    requires
        is_valid_level(level),
    ensures
        vstd::utf8::is_ascii_chars(level_filter(level, enable_debug_libraries)),
{
    lemma_crate_name_ascii();
    reveal_strlit("trace");
    reveal_strlit("debug");
    reveal_strlit("info");
    reveal_strlit("warn");
    reveal_strlit("error");
    reveal_strlit("=");
    let f = level_filter(level, enable_debug_libraries);
    let n = CRATE_NAME@;
    assert forall|i: int| 0 <= i < f.len() implies '\0' <= #[trigger] f[i] <= '\u{7f}' by {
        if !enable_debug_libraries {
            if i < n.len() {
                assert(f[i] == n[i]);
            } else if i > n.len() {
                assert(f[i] == level[i - n.len() - 1]);
            }
        } else {
            assert(f[i] == level[i]);
        }
    }
}

/// Returns whether the provided `level` is a valid filter level for tracing.
pub fn validate_level(level: &String) -> (valid: bool)
    ensures
        valid == is_valid_level(level@),
{
    *level == String::from_str("trace") || *level == String::from_str("debug") || *level
        == String::from_str("info") || *level == String::from_str("warn") || *level == String::from_str(
        "error",
    )
}

/// Builds the filter directive that sets `level` for this crate, or for
/// every crate with `enable_debug_libraries`.
pub fn build_filter_string(level: String, enable_debug_libraries: bool) -> (filter: String)
    ensures
        filter@ == level_filter(level@, enable_debug_libraries),
{
    if enable_debug_libraries {
        level
    } else {
        let mut filter = String::from_str(CRATE_NAME);
        filter.append("=");
        filter.append(level.as_str());
        filter
    }
}

/// What the command does with its arguments: answer that the level is
/// invalid, or reload the log filter with `env_filter`, built from the
/// directives `filter`.
pub enum LogLevelChange {
    Reject { reply: String },
    Reload { filter: String, env_filter: EnvFilter },
}

/// Decides what `set_log_level level [enable_debug_libraries]` does: an
/// invalid level is answered with the list of levels; a valid one reloads
/// the filter for it, for this crate only unless debug libraries are enabled.
pub fn plan_log_level_change(level: String, enable_debug_libraries: Option<bool>) -> (change: LogLevelChange)
    ensures
        is_valid_level(level@) ==> (change matches LogLevelChange::Reload { filter, env_filter } && filter@
            == level_filter(level@, enable_debug_libraries == Some(true)) && env_filter_text(env_filter)
            == directives_text(filter@)),
        !is_valid_level(level@) ==> (change matches LogLevelChange::Reject { reply } && reply@
            == INVALID_LEVEL_REPLY@),
{
    if !validate_level(&level) {
        return LogLevelChange::Reject { reply: String::from_str(INVALID_LEVEL_REPLY) };
    }
    let enable = match enable_debug_libraries {
        Some(b) => b,
        None => false,
    };
    let ghost lv = level@;
    let filter = build_filter_string(level, enable);
    proof {
        lemma_level_filter_ascii(lv, enable);
    }
    let (env_filter, _text) = env_filter(filter.as_str());
    LogLevelChange::Reload { filter, env_filter }
}

/// The answer after trying to reload the log filter with `filter`.
pub fn reload_reply(filter: &str, reloaded: bool) -> (reply: String)
    ensures
        reloaded ==> reply@ == RELOADED_REPLY_HEAD@ + filter@ + RELOADED_REPLY_TAIL@,
        !reloaded ==> reply@ == RELOAD_FAILED_REPLY@,
{
    if reloaded {
        let mut reply = String::from_str(RELOADED_REPLY_HEAD);
        reply.append(filter);
        reply.append(RELOADED_REPLY_TAIL);
        reply
    } else {
        String::from_str(RELOAD_FAILED_REPLY)
    }
}

/// The filter of a level always ends with the level itself, and names no
/// other crate than this one unless debug libraries are enabled.
pub proof fn law_filter_ends_with_level(level: Seq<char>, enable_debug_libraries: bool)
    ensures
        level_filter(level, enable_debug_libraries).len() >= level.len(),
        level_filter(level, enable_debug_libraries).subrange(
            level_filter(level, enable_debug_libraries).len() - level.len(),
            level_filter(level, enable_debug_libraries).len() as int,
        ) == level,
        !enable_debug_libraries ==> level_filter(level, enable_debug_libraries).subrange(0, CRATE_NAME@.len() as int)
            == CRATE_NAME@,
{
    let f = level_filter(level, enable_debug_libraries);
    assert(f.subrange(f.len() - level.len(), f.len() as int) =~= level);
    if !enable_debug_libraries {
        assert(f.subrange(0, CRATE_NAME@.len() as int) =~= CRATE_NAME@);
    }
}


/// The command takes exactly the five levels of `tracing`, written in lower case.
pub proof fn law_valid_levels_exact(level: Seq<char>)
    ensures
        is_valid_level(level) <==> (level == "trace"@ || level == "debug"@ || level == "info"@ || level
            == "warn"@ || level == "error"@),
{
}

/// With debug libraries enabled the filter is the bare level, for every level;
/// without them it is the level for this crate only, `<crate>=<level>`.
pub proof fn law_level_filter_shape(level: Seq<char>)
    ensures
        level_filter(level, true) == level,
        level_filter(level, false) == CRATE_NAME@ + "="@ + level,
{
}

/// The filter the subscriber starts with is the filter the command builds for
/// `info` in development (`debug`) and for `trace` otherwise, with the same
/// switch for debug libraries.
pub proof fn law_startup_filter_is_level_filter(debug: bool, enable_debug_libraries: bool)
    ensures
        crate::trace::startup_filter(debug, enable_debug_libraries) == level_filter(
            if debug { "info"@ } else { "trace"@ },
            enable_debug_libraries,
        ),
{
    assert(CRATE_NAME@ + "=info"@ =~= CRATE_NAME@ + "="@ + "info"@) by {
        reveal_strlit("=info");
        reveal_strlit("=");
        reveal_strlit("info");
    }
    assert(CRATE_NAME@ + "=trace"@ =~= CRATE_NAME@ + "="@ + "trace"@) by {
        reveal_strlit("=trace");
        reveal_strlit("=");
        reveal_strlit("trace");
    }
}

} // verus!
