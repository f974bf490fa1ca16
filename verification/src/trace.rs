//! The filter that the log subscriber starts with.

use vstd::prelude::*;
use crate::CRATE_NAME;
use tracing_subscriber::EnvFilter;

verus! {

#[verifier::external_type_specification]
#[verifier::external_body]
pub struct ExEnvFilter(tracing_subscriber::EnvFilter);

/// The text that an `EnvFilter` writes through `Display`: its directives,
/// in the order it keeps them.
pub uninterp spec fn env_filter_text(filter: EnvFilter) -> Seq<char>;

/// The text that the filter `tracing_subscriber::EnvFilter::new` builds from
/// `directives` writes through `Display`. The filter also holds caches with
/// hashers seeded anew for each filter, so only this text is named.
pub uninterp spec fn directives_text(directives: Seq<char>) -> Seq<char>;

/// Calls `tracing_subscriber::EnvFilter::new`, which builds the filter of the
/// directives in `directives` and skips those that do not parse, and returns
/// it with the text it writes through `Display`. The contract says that this
/// text is the filter's and is a function of the directives alone; nothing
/// else is stated of the filter. The directives are ASCII: the parser cuts
/// each directive at character positions that it counts in the directive with
/// leading whitespace trimmed, which is not a character boundary when
/// whitespace precedes a multi-byte character.
#[verifier::external_body]
pub(crate) fn env_filter(directives: &str) -> (r: (EnvFilter, String))
    requires
        vstd::utf8::is_ascii_chars(directives@),
    ensures
        env_filter_text(r.0) == r.1@,
        r.1@ == directives_text(directives@),
{
    let filter = EnvFilter::new(directives);
    let text = filter.to_string();
    (filter, text)
}

/// The name of this crate is ASCII text.
pub(crate) proof fn lemma_crate_name_ascii()
    ensures
        vstd::utf8::is_ascii_chars(CRATE_NAME@),
{
    reveal_strlit("amd");
    assert(CRATE_NAME@ == "amd"@);
}

/// Every startup directive is ASCII text.
proof fn lemma_startup_filter_ascii(debug: bool, enable_debug_libraries: bool)
    ensures
        vstd::utf8::is_ascii_chars(startup_filter(debug, enable_debug_libraries)),
{
    lemma_crate_name_ascii();
    reveal_strlit("info");
    reveal_strlit("=info");
    reveal_strlit("trace");
    reveal_strlit("=trace");
    let f = startup_filter(debug, enable_debug_libraries);
    let n = CRATE_NAME@;
    assert forall|i: int| 0 <= i < f.len() implies '\0' <= #[trigger] f[i] <= '\u{7f}' by {
        if !enable_debug_libraries && i < n.len() {
            assert(f[i] == n[i]);
        }
    }
}

/// The directive that `build_filter_string` produces for each pair of switches.
pub open spec fn startup_filter(debug: bool, enable_debug_libraries: bool) -> Seq<char> {
    match (debug, enable_debug_libraries) {
        (true, true) => "info"@,
        (true, false) => CRATE_NAME@ + "=info"@,
        (false, true) => "trace"@,
        (false, false) => CRATE_NAME@ + "=trace"@,
    }
}

/// Returns the filter directive that sets the level and breadth of the logs:
/// with `enable_debug_libraries` the level holds for every crate, without it
/// only for this one.
pub fn build_filter_string(debug: bool, enable_debug_libraries: bool) -> (filter: String)
    ensures
        filter@ == startup_filter(debug, enable_debug_libraries),
{
    if debug {
        if enable_debug_libraries {
            String::from_str("info")
        } else {
            String::from_str(CRATE_NAME).concat("=info")
        }
    } else {
        if enable_debug_libraries {
            String::from_str("trace")
        } else {
            String::from_str(CRATE_NAME).concat("=trace")
        }
    }
}


/// The log filter the subscriber starts with: the filter of the directives
/// `build_filter_string(debug, enable_debug_libraries)` gives, which it returns
/// too; the filter writes the text that the filter of those directives writes.
pub fn startup_env_filter(debug: bool, enable_debug_libraries: bool) -> (r: (EnvFilter, String))
    ensures
        r.1@ == startup_filter(debug, enable_debug_libraries),
        env_filter_text(r.0) == directives_text(startup_filter(debug, enable_debug_libraries)),
{
    let directives = build_filter_string(debug, enable_debug_libraries);
    proof {
        lemma_startup_filter_ascii(debug, enable_debug_libraries);
    }
    let (filter, _text) = env_filter(directives.as_str());
    (filter, directives)
}

} // verus!
