//! The log filter.
use crate::daemon::config::ConfigError;
use crate::text::{chars_of, is_white, is_whitespace, same_text, str_option};
use tracing_subscriber::filter::ParseError;
use tracing_subscriber::EnvFilter;
use vstd::prelude::*;
use vstd::string::*;

verus! {

/// A log filter.
#[verifier::external_type_specification]
#[verifier::external_body]
pub struct ExEnvFilter(tracing_subscriber::EnvFilter);

/// Why directives make no log filter.
#[verifier::external_type_specification]
#[verifier::external_body]
pub struct ExParseError(tracing_subscriber::filter::ParseError);

/// The filter that `EnvFilter::try_new` makes of directives, if it accepts them.
pub uninterp spec fn filter_of(directives: Seq<char>) -> Option<EnvFilter>;

/// Whether a text is one of the five level words.
pub open spec fn level_word(s: Seq<char>) -> bool {
    s == "error"@ || s == "warn"@ || s == "info"@ || s == "debug"@ || s == "trace"@
}

/// Whether a text is one of the five level words.
pub fn is_level_word(s: &str) -> (r: bool)
    ensures
        r == level_word(s@),
{
    same_text(s, "error") || same_text(s, "warn") || same_text(s, "info") || same_text(s, "debug")
        || same_text(s, "trace")
}

/// Whether each part between commas that begins with white space is ASCII, from the
/// character `at` on, where `fresh` says that a part begins there and `padded` that
/// the current part began with white space.
pub open spec fn parts_plain(s: Seq<char>, at: int, fresh: bool, padded: bool) -> bool
    decreases s.len() - at,
{
    if at < 0 || at >= s.len() {
        true
    } else if s[at] == ',' {
        parts_plain(s, at + 1, true, false)
    } else {
        let p = if fresh {
            is_white(s[at])
        } else {
            padded
        };
        (!p || s[at] <= '\u{7f}') && parts_plain(s, at + 1, false, p)
    }
}

/// Whether directives can be handed to the filter: their parser cuts texts at
/// places that it counts without leading white space, which only goes well where
/// such a part is ASCII.
pub open spec fn plain_directives(s: Seq<char>) -> bool {
    parts_plain(s, 0, true, false)
}

/// Whether directives can be handed to the filter.
pub fn is_plain_directives(s: &str) -> (r: bool)
    ensures
        r == plain_directives(s@),
{
    let chars = chars_of(s);
    let mut at: usize = 0;
    let mut fresh = true;
    let mut padded = false;
    while at < chars.len()
        invariant
            at <= chars@.len(),
            chars@ == s@,
            plain_directives(s@) == parts_plain(s@, at as int, fresh, padded),
        decreases chars@.len() - at,
    {
        let c = chars[at];
        if c == ',' {
            fresh = true;
            padded = false;
        } else {
            if fresh {
                padded = is_whitespace(c);
            }
            fresh = false;
            if padded && c > '\u{7f}' {
                return false;
            }
        }
        at = at + 1;
    }
    true
}

/// Calls `EnvFilter::try_new`: whether it makes a filter of the directives, and
/// which one, depends on their text alone, which the name [`filter_of`] stands for,
/// and no directives, as well as each level word, are accepted. What the filter lets
/// through is left open.
#[verifier::external_body]
fn try_filter(directives: &str) -> (r: Result<EnvFilter, ParseError>)
    requires
        plain_directives(directives@),
    ensures
        match r {
            Ok(filter) => filter_of(directives@) == Some(filter),
            Err(_) => filter_of(directives@) is None,
        },
        directives@.len() == 0 || level_word(directives@) ==> r is Ok,
{
    EnvFilter::try_new(directives)
}

/// Calls `ToString` of `ParseError`. Nothing is claimed of the text.
#[verifier::external_body]
fn parse_error_text(e: &ParseError) -> (text: String) {
    e.to_string()
}

/// The directives that count: those of `RUST_LOG` where it is set, else the log
/// level.
pub open spec fn chosen(log_level: Seq<char>, rust_log: Option<Seq<char>>) -> Seq<char> {
    match rust_log {
        Some(directives) => directives,
        None => log_level,
    }
}

/// What is said of directives that make no filter.
pub open spec fn filter_fault(log_level: Seq<char>, rust_log: Option<Seq<char>>) -> Seq<char> {
    match rust_log {
        Some(_) => "parse RUST_LOG"@,
        None => "invalid log_level `"@ + log_level + "`"@,
    }
}

/// The filter, or what is said where the directives made none.
pub fn filter_outcome(
    made: Result<EnvFilter, ParseError>,
    log_level: &str,
    rust_log: Option<&str>,
) -> (r: Result<EnvFilter, ConfigError>)
    ensures
        match made {
            Ok(filter) => r == Ok::<EnvFilter, ConfigError>(filter),
            Err(_) => r matches Err(e) && e@.text == filter_fault(
                log_level@,
                str_option(rust_log),
            ) && e@.cause is Some,
        },
{
    match made {
        Ok(filter) => Ok(filter),
        Err(e) => {
            let text = match rust_log {
                Some(_) => "parse RUST_LOG".to_owned(),
                None => {
                    let mut text = "invalid log_level `".to_owned();
                    text.append(log_level);
                    text.append("`");
                    text
                },
            };
            Err(ConfigError { text, cause: Some(parse_error_text(&e)) })
        },
    }
}

/// Makes the log filter of the directives of `RUST_LOG` where it is set, whatever the
/// log level, else of the log level.
pub fn build_env_filter_inner(log_level: &str, rust_log: Option<&str>) -> (r: Result<
    EnvFilter,
    ConfigError,
>)
    requires
        plain_directives(chosen(log_level@, str_option(rust_log))),
    ensures
        match r {
            Ok(filter) => filter_of(chosen(log_level@, str_option(rust_log))) == Some(filter),
            Err(e) => filter_of(chosen(log_level@, str_option(rust_log))) is None && e@.text
                == filter_fault(log_level@, str_option(rust_log)) && e@.cause is Some,
        },
        level_word(chosen(log_level@, str_option(rust_log))) ==> r is Ok,
{
    let made = match rust_log {
        Some(directives) => try_filter(directives),
        None => try_filter(log_level),
    };
    filter_outcome(made, log_level, rust_log)
}

/// Whether the characters from `j` to `i` are one part, from its beginning on.
pub open spec fn same_part(s: Seq<char>, j: int, i: int) -> bool {
    &&& j == 0 || s[j - 1] == ','
    &&& forall|k: int| j <= k <= i ==> #[trigger] s[k] != ','
}

proof fn lemma_parts_plain(s: Seq<char>, at: int, start: int, padded: bool)
    requires
        0 <= start <= at <= s.len(),
        start == 0 || s[start - 1] == ',',
        forall|k: int| start <= k < at ==> #[trigger] s[k] != ',',
        start < at ==> padded == is_white(s[start]),
    ensures
        parts_plain(s, at, at == start, padded) <==> forall|i: int, j: int|
            #![trigger same_part(s, j, i)]
            at <= i < s.len() && 0 <= j <= i && same_part(s, j, i) && s[i] > '\u{7f}'
                ==> !is_white(s[j]),
    decreases s.len() - at,
{
    if at < s.len() {
        if s[at] == ',' {
            lemma_parts_plain(s, at + 1, at + 1, false);
            if parts_plain(s, at + 1, true, false) {
                assert forall|i: int, j: int|
                    #![trigger same_part(s, j, i)]
                    at <= i < s.len() && 0 <= j <= i && same_part(s, j, i) && s[i]
                        > '\u{7f}' implies !is_white(s[j]) by {
                    assert(s[i] != ',');
                }
            }
        } else {
            let p = is_white(s[start]);
            lemma_parts_plain(s, at + 1, start, p);
            assert(parts_plain(s, at, at == start, padded) <==> (!p || s[at] <= '\u{7f}')
                && parts_plain(s, at + 1, false, p));
            assert(same_part(s, start, at));
            if (!p || s[at] <= '\u{7f}') && parts_plain(s, at + 1, false, p) {
                assert forall|i: int, j: int|
                    #![trigger same_part(s, j, i)]
                    at <= i < s.len() && 0 <= j <= i && same_part(s, j, i) && s[i]
                        > '\u{7f}' implies !is_white(s[j]) by {
                    if i == at {
                        if j < start {
                            assert(s[start - 1] != ',');
                        }
                        if j > start {
                            assert(s[j - 1] != ',');
                        }
                    }
                }
            }
        }
    }
}

/// Directives are plain exactly when no part that begins with white space has a
/// character beyond ASCII.
pub proof fn law_plain_directives(s: Seq<char>)
    ensures
        plain_directives(s) <==> forall|i: int, j: int|
            #![trigger same_part(s, j, i)]
            0 <= j <= i < s.len() && same_part(s, j, i) && s[i] > '\u{7f}' ==> !is_white(s[j]),
{
    lemma_parts_plain(s, 0, 0, false);
}

} // verus!
