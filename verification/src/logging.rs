//! Logging set-up: which filter applies and whether it parses.

use vstd::prelude::*;
use tracing_subscriber::EnvFilter;
use crate::error::JacqueError;
use crate::text::{chars_of, is_white_space, is_whitespace, owned, push_str, string_from_chars};

verus! {

#[verifier::external_type_specification]
#[verifier::external_body]
pub struct ExEnvFilter(tracing_subscriber::EnvFilter);

/// What `EnvFilter::try_new` makes of a directive string: `None` when it
/// parses, otherwise the parse error's message.
pub uninterp spec fn env_filter_outcome(dirs: Seq<char>) -> Option<Seq<char>>;

/// The directive parser can read `s` without slicing inside a character:
/// it reads each directive trimmed but slices the untrimmed text at the
/// trimmed offsets, which stay on character boundaries when the text is
/// ASCII or when no directive (a piece between commas) starts with white
/// space.
pub open spec fn directives_readable(s: Seq<char>) -> bool {
    (forall|i: int| 0 <= i < s.len() ==> (s[i] as u32) < 0x80)
        || (forall|i: int| 0 <= i < s.len() ==> !#[trigger] blank_lead(s, i))
}

/// Position `i` of `s` starts a directive (it is first, or follows a comma)
/// and holds white space.
pub open spec fn blank_lead(s: Seq<char>, i: int) -> bool {
    (i == 0 || s[i - 1] == ',') && is_white_space(s[i])
}

/// Whether the directive parser can read `s` (see [`directives_readable`]).
pub fn filter_is_readable(s: &str) -> (r: bool)
    ensures
        r == directives_readable(s@),
{
    let v = chars_of(s);
    let mut i: usize = 0;
    while i < v.len() && (v[i] as u32) < 0x80
        invariant
            i <= v@.len(),
            v@ == s@,
            forall|k: int| 0 <= k < i ==> (v@[k] as u32) < 0x80,
        decreases v@.len() - i,
    {
        i += 1;
    }
    if i == v.len() {
        return true;
    }
    let mut j: usize = 0;
    while j < v.len()
        invariant
            j <= v@.len(),
            v@ == s@,
            forall|k: int| 0 <= k < j ==> !#[trigger] blank_lead(v@, k),
            i < v@.len(),
            !((v@[i as int] as u32) < 0x80),
        decreases v@.len() - j,
    {
        let starts: bool = j == 0 || v[j - 1] == ',';
        if starts && is_whitespace(v[j]) {
            proof {
                assert(!((v@[i as int] as u32) < 0x80));
                assert(blank_lead(v@, j as int));
            }
            return false;
        }
        assert(!blank_lead(v@, j as int));
        j += 1;
    }
    proof {
        assert(forall|k: int| 0 <= k < v@.len() ==> !#[trigger] blank_lead(s@, k));
    }
    true
}

/// `tracing_subscriber::EnvFilter::try_new`: parse comma-separated filter
/// directives. Claimed: the outcome depends on the text alone (it is
/// named, not described), the error's message is handed back as written,
/// and an empty string always parses. The filter built is opaque. The
/// parser slices inside a character, and panics, on text that is not
/// [`directives_readable`], so such text is not admitted.
#[verifier::external_body]
fn env_filter_try_new(dirs: &str) -> (r: Result<EnvFilter, String>)
    requires
        directives_readable(dirs@),
    ensures
        match r {
            Ok(_) => env_filter_outcome(dirs@) is None,
            Err(m) => env_filter_outcome(dirs@) == Some(m@),
        },
        dirs@.len() == 0 ==> r is Ok,
{
    match EnvFilter::try_new(dirs) {
        Ok(f) => Ok(f),
        Err(e) => Err(format!("{e}")),
    }
}

/// The filter that applies: the configured one, or when it is empty the
/// `RUST_LOG` value, or the default `jacquewm=info`.
pub open spec fn resolved_filter(filter: Seq<char>, rust_log: Option<Seq<char>>) -> Seq<char> {
    if filter.len() == 0 {
        match rust_log {
            Some(v) => v,
            None => "jacquewm=info"@,
        }
    } else {
        filter
    }
}

/// The filter that applies (see [`resolved_filter`]).
pub fn resolve_filter(filter: &str, rust_log: Option<String>) -> (r: String)
    ensures
        r@ == resolved_filter(filter@, match rust_log {
            Some(v) => Some(v@),
            None => None,
        }),
{
    if filter.unicode_len() == 0 {
        match rust_log {
            Some(v) => v,
            None => owned(crate::config::Config::default_log_filter()),
        }
    } else {
        owned(filter)
    }
}

/// The message of a filter that does not parse.
pub open spec fn filter_message(filter: Seq<char>, detail: Seq<char>) -> Seq<char> {
    "invalid log filter '"@ + filter + "': "@ + detail
}

/// The error for a configured filter whose resolved text did not parse,
/// with the parser's message.
pub fn filter_error(filter: &str, detail: &str) -> (e: JacqueError)
    ensures
        e matches JacqueError::Logging(m) && m@ == filter_message(filter@, detail@),
{
    let mut out: Vec<char> = Vec::new();
    push_str(&mut out, "invalid log filter '");
    push_str(&mut out, filter);
    push_str(&mut out, "': ");
    push_str(&mut out, detail);
    assert(out@ =~= filter_message(filter@, detail@));
    JacqueError::Logging(string_from_chars(out.as_slice()))
}

/// The tracing filter for a configured filter string and the `RUST_LOG`
/// value: the resolved filter when it parses, otherwise
/// [`JacqueError::Logging`] naming the configured filter. The resolved
/// filter must be [`directives_readable`] (test it with
/// [`filter_is_readable`] on [`resolve_filter`]'s result).
pub fn parse_filter(filter: &str, rust_log: Option<String>) -> (r: Result<EnvFilter, JacqueError>)
    requires
        directives_readable(resolved_filter(filter@, match rust_log {
            Some(v) => Some(v@),
            None => None,
        })),
    ensures
        ({
            let resolved = resolved_filter(filter@, match rust_log {
                Some(v) => Some(v@),
                None => None,
            });
            match env_filter_outcome(resolved) {
                None => r is Ok,
                Some(d) => r matches Err(e) && e matches JacqueError::Logging(m) && m@ == filter_message(filter@, d),
            }
        }),
{
    let resolved = resolve_filter(filter, rust_log);
    match env_filter_try_new(resolved.as_str()) {
        Ok(f) => Ok(f),
        Err(detail) => Err(filter_error(filter, detail.as_str())),
    }
}

} // verus!
