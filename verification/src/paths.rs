//! Path text helpers shared by the Python front end and the Wine launcher.
use vstd::prelude::*;

use crate::text::{chars_of, push_char, vec_contains_char};

verus! {

/// Whether the last character of `p` is a forward or a backward slash.
pub open spec fn ends_with_slash(p: Seq<char>) -> bool {
    p.len() > 0 && (p.last() == '/' || p.last() == '\\')
}

/// `p` with a slash added at its end unless it already ends with one; the
/// slash added is `/` when `forward` holds, `\` otherwise.
pub open spec fn with_trailing_slash(p: Seq<char>, forward: bool) -> Seq<char> {
    if ends_with_slash(p) {
        p
    } else if forward {
        p.push('/')
    } else {
        p.push('\\')
    }
}

/// The slash a path uses: forward (`true`) exactly when it holds a `/`.
pub open spec fn uses_forward_slash(p: Seq<char>) -> bool {
    p.contains('/')
}

/// `p` with a slash of its own kind at its end, followed by `name`.
pub open spec fn joined_path(p: Seq<char>, name: Seq<char>) -> Seq<char> {
    with_trailing_slash(p, uses_forward_slash(p)) + name
}

/// Adds a slash at the end of `path` unless it already ends with `/` or `\`;
/// a forward slash when `forward_slash` holds, a backward slash otherwise.
pub fn check_then_add_slash_to_path(path: &str, forward_slash: bool) -> (r: String)
    requires
        path@.len() > 0,
    ensures
        r@ == with_trailing_slash(path@, forward_slash),
{
    let chars = chars_of(path);
    let last = chars[chars.len() - 1];
    let mut new_path = path.to_owned();
    if last == '/' || last == '\\' {
        return new_path;
    }
    if forward_slash {
        push_char(&mut new_path, '/');
    } else {
        push_char(&mut new_path, '\\');
    }
    new_path
}

/// Whether `path` uses forward slashes: `true` exactly when it holds a `/`.
pub fn check_for_slash_type(path: &str) -> (r: bool)
    ensures
        r == uses_forward_slash(path@),
{
    let chars = chars_of(path);
    vec_contains_char(&chars, '/')
}

/// `path` followed by a slash of its own kind (unless it ends with one) and `name`.
pub fn join_path(path: &str, name: &str) -> (r: String)
    requires
        path@.len() > 0,
    ensures
        r@ == joined_path(path@, name@),
{
    let mut joined = check_then_add_slash_to_path(path, check_for_slash_type(path));
    joined.append(name);
    joined
}

/// Adding a trailing slash twice is the same as adding it once, whichever
/// kind of slash either call asks for.
pub proof fn lemma_trailing_slash_idempotent(p: Seq<char>, first: bool, second: bool)
    ensures
        ends_with_slash(with_trailing_slash(p, first)),
        with_trailing_slash(with_trailing_slash(p, first), second) == with_trailing_slash(p, first),
{
}

/// A path that already ends with a slash is left as it is.
pub proof fn lemma_trailing_slash_kept(p: Seq<char>, forward: bool)
    requires
        ends_with_slash(p),
    ensures
        with_trailing_slash(p, forward) == p,
{
}

} // verus!
