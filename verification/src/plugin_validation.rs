//! Validation of plugin error reports: plugin ids, actions and messages.

use crate::text::{lemma_trim_fixed, same_text, trim_chars};
use vstd::prelude::*;
use vstd::string::{StrSliceExecFns, StringSliceAdditionalSpecFns};
use vstd::utf8::encode_utf8;

verus! {

/// Longest plugin id, in UTF-8 bytes.
pub const MAX_PLUGIN_ID_BYTES: usize = 214;

/// Longest error message, in characters.
pub const MAX_PLUGIN_ERROR_MESSAGE_CHARS: usize = 2000;

/// Longest error message, in UTF-8 bytes.
pub const MAX_PLUGIN_ERROR_MESSAGE_BYTES: usize = 8192;

/// Longest action, in UTF-8 bytes.
pub const MAX_PLUGIN_ERROR_ACTION_BYTES: usize = 32;

// ---------------------------------------------------------------------------
// Package names
// ---------------------------------------------------------------------------

/// Characters allowed in a package name component: lower-case ASCII letters,
/// digits, and `-` `.` `_` `~`.
pub open spec fn name_char(c: char) -> bool {
    ||| 'a' <= c <= 'z'
    ||| '0' <= c <= '9'
    ||| c == '-'
    ||| c == '.'
    ||| c == '_'
    ||| c == '~'
}

/// A component of a package name: non-empty, made of name characters, and
/// not starting with `.` or `_`.
pub open spec fn name_part(p: Seq<char>) -> bool {
    &&& p.len() > 0
    &&& p[0] != '.'
    &&& p[0] != '_'
    &&& forall|i: int| 0 <= i < p.len() ==> name_char(#[trigger] p[i])
}

/// A package name: either one component, or `@scope/name` with two.
pub open spec fn package_name(s: Seq<char>) -> bool {
    if s.len() > 0 && s[0] == '@' {
        exists|k: int|
            1 <= k < s.len() && #[trigger] s[k] == '/' && name_part(s.subrange(1, k)) && name_part(
                s.subrange(k + 1, s.len() as int),
            )
    } else {
        name_part(s)
    }
}

fn is_name_char(c: char) -> (ok: bool)
    ensures
        ok == name_char(c),
{
    ('a' <= c && c <= 'z') || ('0' <= c && c <= '9') || c == '-' || c == '.' || c == '_' || c
        == '~'
}

/// Whether the characters of `s` in `[from, to)` form a name component.
fn is_name_part(s: &str, from: usize, to: usize) -> (ok: bool)
    requires
        from <= to <= s@.len(),
    ensures
        ok == name_part(s@.subrange(from as int, to as int)),
{
    let ghost p = s@.subrange(from as int, to as int);
    if from == to {
        return false;
    }
    let first = s.get_char(from);
    if first == '.' || first == '_' {
        assert(p[0] == first);
        return false;
    }
    let mut i = from;
    while i < to
        invariant
            from <= i <= to <= s@.len(),
            p == s@.subrange(from as int, to as int),
            forall|k: int| from <= k < i ==> name_char(#[trigger] s@[k]),
        decreases to - i,
    {
        if !is_name_char(s.get_char(i)) {
            assert(p[i - from] == s@[i as int]);
            return false;
        }
        i = i + 1;
    }
    assert forall|k: int| 0 <= k < p.len() implies name_char(#[trigger] p[k]) by {
        assert(p[k] == s@[k + from]);
    }
    assert(p[0] == first);
    true
}

/// Whether `name` is a package name (see `package_name`).
pub fn is_package_name(name: &str) -> (ok: bool)
    ensures
        ok == package_name(name@),
{
    let n = name.unicode_len();
    if n > 0 && name.get_char(0) == '@' {
        let mut k: usize = 1;
        while k < n && name.get_char(k) != '/'
            invariant
                n == name@.len(),
                1 <= k <= n,
                forall|m: int| 1 <= m < k ==> #[trigger] name@[m] != '/',
            decreases n - k,
        {
            k = k + 1;
        }
        if k == n {
            assert(!package_name(name@));
            return false;
        }
        let ok = is_name_part(name, 1, k) && is_name_part(name, k + 1, n);
        proof {
            if ok {
                assert(name@[k as int] == '/');
                assert(1 <= k < name@.len() && name_part(name@.subrange(1, k as int)) && name_part(
                    name@.subrange(k + 1, name@.len() as int),
                ));
            }
            if !ok && package_name(name@) {
                let j = choose|j: int|
                    1 <= j < name@.len() && #[trigger] name@[j] == '/' && name_part(
                        name@.subrange(1, j),
                    ) && name_part(name@.subrange(j + 1, name@.len() as int));
                if j > k {
                    let p = name@.subrange(1, j);
                    assert(p[k - 1] == '/');
                    assert(!name_char(p[k - 1]));
                }
            }
        }
        ok
    } else {
        assert(name@.subrange(0, n as int) =~= name@);
        is_name_part(name, 0, n)
    }
}

/// The npm package names are package names: a name, or `@scope/name`, whose
/// parts are non-empty, made of lower-case ASCII letters, digits, `-`, `.`,
/// `_` and `~`, and do not start with `.` or `_`.
pub proof fn lemma_npm_names_accepted(scope: Seq<char>, name: Seq<char>)
    requires
        scope.len() > 0,
        scope[0] != '.' && scope[0] != '_',
        forall|i: int|
            0 <= i < scope.len() ==> ('a' <= #[trigger] scope[i] <= 'z' || '0' <= scope[i] <= '9'
                || scope[i] == '-' || scope[i] == '.' || scope[i] == '_' || scope[i] == '~'),
        name.len() > 0,
        name[0] != '.' && name[0] != '_',
        forall|i: int|
            0 <= i < name.len() ==> ('a' <= #[trigger] name[i] <= 'z' || '0' <= name[i] <= '9'
                || name[i] == '-' || name[i] == '.' || name[i] == '_' || name[i] == '~'),
    ensures
        package_name(name),
        package_name(seq!['@'] + scope + seq!['/'] + name),
{
    assert(name_part(name));
    assert(name_part(scope));
    let s = seq!['@'] + scope + seq!['/'] + name;
    let k: int = scope.len() as int + 1;
    assert(s[k] == '/');
    assert(s.subrange(1, k) =~= scope);
    assert(s.subrange(k + 1, s.len() as int) =~= name);
    assert(s[0] == '@');
}

// ---------------------------------------------------------------------------
// Report fields
// ---------------------------------------------------------------------------

/// A plugin id: non-empty, not padded with white space, at most 214 bytes of
/// UTF-8, and a package name.
pub open spec fn valid_plugin_id(id: Seq<char>) -> bool {
    &&& id.len() > 0
    &&& trim_chars(id) == id
    &&& encode_utf8(id).len() <= MAX_PLUGIN_ID_BYTES
    &&& package_name(id)
}

/// The actions a report may record.
pub open spec fn known_action(action: Seq<char>) -> bool {
    ||| action == "install"@
    ||| action == "update"@
    ||| action == "remove"@
    ||| action == "runtime"@
}

/// An action: at most 32 bytes and one of the known actions.
pub open spec fn valid_action(action: Seq<char>) -> bool {
    encode_utf8(action).len() <= MAX_PLUGIN_ERROR_ACTION_BYTES && known_action(action)
}

/// A message: at most 8192 bytes of UTF-8 and at most 2000 characters.
pub open spec fn valid_message(message: Seq<char>) -> bool {
    encode_utf8(message).len() <= MAX_PLUGIN_ERROR_MESSAGE_BYTES && message.len()
        <= MAX_PLUGIN_ERROR_MESSAGE_CHARS
}

/// Error text for an invalid plugin id.
pub open spec fn invalid_id_message() -> Seq<char> {
    "PLUGIN_ERROR_INVALID_ID: invalid plugin id"@
}

/// Error text for an unsupported action.
pub open spec fn invalid_action_message() -> Seq<char> {
    "PLUGIN_ERROR_INVALID_ACTION: unsupported action"@
}

/// Error text for an oversized message.
pub open spec fn too_large_message() -> Seq<char> {
    "PLUGIN_ERROR_TOO_LARGE: error message exceeds the limit"@
}

/// The first problem with a report, checked in order: id, action, message.
pub open spec fn record_input_error(id: Seq<char>, action: Seq<char>, message: Seq<char>) -> Option<
    Seq<char>,
> {
    if !valid_plugin_id(id) {
        Some(invalid_id_message())
    } else if !valid_action(action) {
        Some(invalid_action_message())
    } else if !valid_message(message) {
        Some(too_large_message())
    } else {
        None
    }
}

/// Checks a plugin id.
pub fn validate_plugin_id(id: &str) -> (r: Result<(), String>)
    ensures
        r is Ok <==> valid_plugin_id(id@),
        r matches Err(e) ==> e@ == invalid_id_message(),
{
    let n = id.unicode_len();
    let bytes = id.as_bytes().len();
    if n == 0 || is_edge_space(id, n) || bytes > MAX_PLUGIN_ID_BYTES {
        proof {
            if n > 0 {
                lemma_trim_fixed(id@);
            }
        }
        return Err(String::from_str("PLUGIN_ERROR_INVALID_ID: invalid plugin id"));
    }
    proof {
        lemma_trim_fixed(id@);
    }
    if !is_package_name(id) {
        return Err(String::from_str("PLUGIN_ERROR_INVALID_ID: invalid plugin id"));
    }
    Ok(())
}

/// Whether a non-empty text starts or ends with white space.
fn is_edge_space(s: &str, n: usize) -> (edge: bool)
    requires
        n == s@.len(),
        n > 0,
    ensures
        edge == (crate::text::unicode_whitespace(s@[0]) || crate::text::unicode_whitespace(
            s@.last(),
        )),
{
    crate::text::is_whitespace(s.get_char(0)) || crate::text::is_whitespace(s.get_char(n - 1))
}

/// Checks a report action.
pub fn validate_action(action: &str) -> (r: Result<(), String>)
    ensures
        r is Ok <==> valid_action(action@),
        r matches Err(e) ==> e@ == invalid_action_message(),
{
    let known = same_text(action, "install") || same_text(action, "update") || same_text(
        action,
        "remove",
    ) || same_text(action, "runtime");
    if action.as_bytes().len() > MAX_PLUGIN_ERROR_ACTION_BYTES || !known {
        return Err(String::from_str("PLUGIN_ERROR_INVALID_ACTION: unsupported action"));
    }
    Ok(())
}

/// Checks a report message.
pub fn validate_message(message: &str) -> (r: Result<(), String>)
    ensures
        r is Ok <==> valid_message(message@),
        r matches Err(e) ==> e@ == too_large_message(),
{
    if message.as_bytes().len() > MAX_PLUGIN_ERROR_MESSAGE_BYTES || message.unicode_len()
        > MAX_PLUGIN_ERROR_MESSAGE_CHARS {
        return Err(String::from_str("PLUGIN_ERROR_TOO_LARGE: error message exceeds the limit"));
    }
    Ok(())
}

/// Checks a whole report: id, then action, then message.
pub fn validate_record_input(id: &str, action: &str, message: &str) -> (r: Result<(), String>)
    ensures
        match r {
            Ok(()) => record_input_error(id@, action@, message@) is None,
            Err(e) => record_input_error(id@, action@, message@) == Some(e@),
        },
{
    validate_plugin_id(id)?;
    validate_action(action)?;
    validate_message(message)
}

} // verus!
