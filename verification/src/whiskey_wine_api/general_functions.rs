//! The small functions the launcher is built from: paths of its files, the
//! start script, file names, and the text the system gives back.
use vstd::prelude::*;

use vstd::string::StringSliceAdditionalSpecFns;

use crate::paths::{join_path, joined_path};
use crate::decimal::{decimal_value, is_decimal, is_digit, parse_decimal};
use crate::text::{chars_of, find_char_from, first_pos, lemma_first_pos, push_char, str_eq, string_from_range};
use super::{
    BASH_FORMAT, FIND_PID, RUN_USER, WHISKEY_JSON_PATHS_FILE_NAME, WHISKEY_WINE_DIR_NAME,
    WHISKEY_WINE_SHELL_START_FILE_NAME, WINE_RUN_COMMAND_END_PART, WINE_RUN_COMMAND_FIRST,
    WINE_RUN_COMMAND_ROOT, WINE_RUN_COMMAND_SECOND, WineError,
};

pub use crate::paths::{check_then_add_slash_to_path, check_for_slash_type};

verus! {

// ---------------------------------------------------------------------------
// Paths of the launcher's files
// ---------------------------------------------------------------------------

/// `path` joined with the Whiskey Wine directory name.
pub fn add_whiskey_files_dir_to_path(path: &str) -> (r: String)
    requires
        path@.len() > 0,
    ensures
        r@ == joined_path(path@, WHISKEY_WINE_DIR_NAME@),
{
    join_path(path, WHISKEY_WINE_DIR_NAME)
}

/// `path` joined with the name of the paths json file.
pub fn add_whiskey_json_file_to_path(path: &str) -> (r: String)
    requires
        path@.len() > 0,
    ensures
        r@ == joined_path(path@, WHISKEY_JSON_PATHS_FILE_NAME@),
{
    join_path(path, WHISKEY_JSON_PATHS_FILE_NAME)
}

/// `path` joined with the Whiskey Wine directory name.
pub fn add_whiskey_wine_dir_to_path(path: &str) -> (r: String)
    requires
        path@.len() > 0,
    ensures
        r@ == joined_path(path@, WHISKEY_WINE_DIR_NAME@),
{
    join_path(path, WHISKEY_WINE_DIR_NAME)
}

/// `path` joined with the name of the start shell script.
pub fn add_whiskey_wine_shell_start_file(path: &str) -> (r: String)
    requires
        path@.len() > 0,
    ensures
        r@ == joined_path(path@, WHISKEY_WINE_SHELL_START_FILE_NAME@),
{
    join_path(path, WHISKEY_WINE_SHELL_START_FILE_NAME)
}

// ---------------------------------------------------------------------------
// The start script
// ---------------------------------------------------------------------------

/// The start shell script for the exe at `path`, run as `user`: as root it
/// sets up the display and starts the exe with Wine; as another user it
/// starts the exe with Wine through `runuser`, in that user's environment.
pub open spec fn shell_wine_start_script(path: Seq<char>, user: Seq<char>) -> Seq<char> {
    if user == "root"@ {
        BASH_FORMAT@ + WINE_RUN_COMMAND_ROOT@ + path + FIND_PID@
    } else {
        BASH_FORMAT@ + RUN_USER@ + user + WINE_RUN_COMMAND_FIRST@ + user + WINE_RUN_COMMAND_SECOND@
            + path + WINE_RUN_COMMAND_END_PART@
    }
}

/// Builds the start shell script that runs the exe at `path` as `user`.
pub fn construct_shell_wine_start_file(path: &str, user: &str) -> (r: String)
    ensures
        r@ == shell_wine_start_script(path@, user@),
{
    let mut script = BASH_FORMAT.to_owned();
    if str_eq(user, "root") {
        script.append(WINE_RUN_COMMAND_ROOT);
        script.append(path);
        script.append(FIND_PID);
        return script;
    }
    script.append(RUN_USER);
    script.append(user);
    script.append(WINE_RUN_COMMAND_FIRST);
    script.append(user);
    script.append(WINE_RUN_COMMAND_SECOND);
    script.append(path);
    script.append(WINE_RUN_COMMAND_END_PART);
    script
}

// ---------------------------------------------------------------------------
// File names
// ---------------------------------------------------------------------------

/// The characters of `s` after its last `c` (all of `s` when there is none).
pub open spec fn after_last(s: Seq<char>, c: char) -> Seq<char>
    decreases s.len(),
{
    if s.len() == 0 {
        s
    } else if s.last() == c {
        seq![]
    } else {
        after_last(s.drop_last(), c).push(s.last())
    }
}

/// The characters of `s` after its last slash, forward or backward (all of
/// `s` when it has none).
pub open spec fn after_last_slash(s: Seq<char>) -> Seq<char>
    decreases s.len(),
{
    if s.len() == 0 {
        s
    } else if s.last() == '/' || s.last() == '\\' {
        seq![]
    } else {
        after_last_slash(s.drop_last()).push(s.last())
    }
}

proof fn lemma_after_last(s: Seq<char>, c: char, k: int)
    requires
        0 <= k < s.len(),
        s[k] == c,
        forall|j: int| k < j < s.len() ==> s[j] != c,
    ensures
        after_last(s, c) == s.subrange(k + 1, s.len() as int),
    decreases s.len(),
{
    if k == s.len() - 1 {
        assert(s.subrange(k + 1, s.len() as int) =~= Seq::<char>::empty());
    } else {
        let shorter = s.drop_last();
        lemma_after_last(shorter, c, k);
        assert(shorter.subrange(k + 1, shorter.len() as int).push(s.last()) =~= s.subrange(
            k + 1,
            s.len() as int,
        ));
    }
}

proof fn lemma_after_last_slash(s: Seq<char>, k: int)
    requires
        -1 <= k < s.len(),
        k >= 0 ==> (s[k] == '/' || s[k] == '\\'),
        forall|j: int| k < j < s.len() ==> s[j] != '/' && s[j] != '\\',
    ensures
        after_last_slash(s) == s.subrange(k + 1, s.len() as int),
    decreases s.len(),
{
    if s.len() == 0 {
    } else if k == s.len() - 1 {
        assert(s.subrange(k + 1, s.len() as int) =~= Seq::<char>::empty());
    } else {
        let shorter = s.drop_last();
        lemma_after_last_slash(shorter, k);
        assert(shorter.subrange(k + 1, shorter.len() as int).push(s.last()) =~= s.subrange(
            k + 1,
            s.len() as int,
        ));
    }
}

/// The position of the last `.` in `v`; `v` holds one.
fn last_dot(v: &Vec<char>) -> (k: usize)
    requires
        v@.contains('.'),
    ensures
        k < v@.len(),
        v@[k as int] == '.',
        forall|j: int| k < j < v@.len() ==> v@[j] != '.',
        after_last(v@, '.') == v@.subrange(k + 1, v@.len() as int),
{
    let mut k = v.len();
    while k > 0 && v[k - 1] != '.'
        invariant
            k <= v@.len(),
            forall|j: int| k <= j < v@.len() ==> v@[j] != '.',
            v@.contains('.'),
        decreases k,
    {
        k = k - 1;
    }
    if k == 0 {
        proof {
            let w = choose|w: int| 0 <= w < v@.len() && v@[w] == '.';
            assert(v@[w] != '.');
        }
    }
    proof {
        lemma_after_last(v@, '.', k - 1);
    }
    k - 1
}

/// The extension of a file name: the characters after its last dot.
/// The name is one byte per character, not empty, and holds a dot.
pub fn get_file_extension(text: &str) -> (r: Result<String, WineError>)
    requires
        text@.len() > 0,
        text.spec_bytes().len() == text@.len(),
        text@.contains('.'),
    ensures
        match r {
            Ok(ext) => ext@ == after_last(text@, '.') && ext@.len() > 0,
            Err(e) => e == WineError::NoFileExtension && after_last(text@, '.').len() == 0,
        },
{
    let v = chars_of(text);
    let k = last_dot(&v);
    if k == v.len() - 1 {
        return Err(WineError::NoFileExtension);
    }
    Ok(string_from_range(&v, k + 1, v.len()))
}

/// A new `String` holding `v[from..to]` in reverse order.
fn reversed_string_from_range(v: &Vec<char>, from: usize, to: usize) -> (s: String)
    requires
        from <= to <= v@.len(),
    ensures
        s@ == v@.subrange(from as int, to as int).reverse(),
{
    let mut s = String::new();
    let mut i = to;
    while i > from
        invariant
            from <= i <= to <= v@.len(),
            s@ == v@.subrange(i as int, to as int).reverse(),
        decreases i,
    {
        i = i - 1;
        push_char(&mut s, v[i]);
        assert(s@ =~= v@.subrange(i as int, to as int).reverse());
    }
    s
}

/// The extension of a file name with its characters in reverse order (the
/// same as the extension for a palindrome such as `exe`). The name is one
/// byte per character, not empty, and holds a dot.
pub fn get_file_extension_notflipped(text: &str) -> (r: Result<String, WineError>)
    requires
        text@.len() > 0,
        text.spec_bytes().len() == text@.len(),
        text@.contains('.'),
    ensures
        match r {
            Ok(ext) => ext@ == after_last(text@, '.').reverse() && ext@.len() > 0,
            Err(e) => e == WineError::NoFileExtension && after_last(text@, '.').len() == 0,
        },
{
    let v = chars_of(text);
    let k = last_dot(&v);
    if k == v.len() - 1 {
        return Err(WineError::NoFileExtension);
    }
    Ok(reversed_string_from_range(&v, k + 1, v.len()))
}

/// What a path points to: the characters after its last slash, forward or
/// backward (all of it when it has none).
pub fn get_end_of_path(path: &str) -> (r: String)
    requires
        path@.len() > 0,
    ensures
        r@ == after_last_slash(path@),
{
    let v = chars_of(path);
    let mut k = v.len();
    while k > 0 && v[k - 1] != '/' && v[k - 1] != '\\'
        invariant
            k <= v@.len(),
            forall|j: int| k <= j < v@.len() ==> v@[j] != '/' && v@[j] != '\\',
        decreases k,
    {
        k = k - 1;
    }
    proof {
        lemma_after_last_slash(v@, k - 1);
    }
    string_from_range(&v, k, v.len())
}

// ---------------------------------------------------------------------------
// The pid in a text
// ---------------------------------------------------------------------------

/// What `char::is_numeric` answers for `c`.
pub uninterp spec fn char_is_numeric(c: char) -> bool;

/// Whether `c` is numeric: among the ASCII characters exactly the digits
/// are; beyond ASCII, what `char::is_numeric` answers.
pub open spec fn is_numeric_char(c: char) -> bool {
    if (c as u32) < 128 {
        is_digit(c)
    } else {
        char_is_numeric(c)
    }
}

/// `char::is_numeric`: whether `c` is in one of Unicode's number categories
/// (`Nd`, `Nl`, `No`). Of the ASCII characters only the digits `0` to `9`
/// are in them; which other characters are is not stated here.
#[verifier::external_body]
fn is_numeric(c: char) -> (r: bool)
    ensures
        r == char_is_numeric(c),
        r == is_numeric_char(c),
{
    c.is_numeric()
}

/// The position of the first `c` in `s` at or after `from`, or the length of
/// `s` when there is none.
pub open spec fn pos_from(s: Seq<char>, c: char, from: int) -> int {
    if from >= s.len() {
        s.len() as int
    } else {
        from + first_pos(s.skip(from), c)
    }
}

/// Where the pid key `PID{` ends in `s`: the position of the `{` that
/// completes the first `P` followed, not necessarily at once, by an `I`, a
/// `D` and a `{`; the length of `s` when the key does not complete.
pub open spec fn pid_key_end(s: Seq<char>) -> int {
    let p = first_pos(s, 'P');
    let i = pos_from(s, 'I', p + 1);
    let d = pos_from(s, 'D', i + 1);
    pos_from(s, '{', d + 1)
}

/// The length of the run of numeric characters that `t` starts with.
pub open spec fn numeric_run(t: Seq<char>) -> int
    decreases t.len(),
{
    if t.len() == 0 || !is_numeric_char(t[0]) {
        0
    } else {
        1 + numeric_run(t.drop_first())
    }
}

/// The run of numeric characters after the pid key of `s` (empty when the
/// key does not complete).
pub open spec fn pid_digits(s: Seq<char>) -> Seq<char> {
    let b = pid_key_end(s);
    if b >= s.len() {
        seq![]
    } else {
        let t = s.skip(b + 1);
        t.take(numeric_run(t))
    }
}

/// Whether `s` holds one of the characters of the pid key.
pub open spec fn has_pid_key_char(s: Seq<char>) -> bool {
    s.contains('P') || s.contains('I') || s.contains('D') || s.contains('{')
}

/// Whether the digits after the pid key of `s` are a non-empty run of ASCII
/// digits whose value fits in a `usize`.
pub open spec fn pid_digits_readable(s: Seq<char>) -> bool {
    is_decimal(pid_digits(s)) && decimal_value(pid_digits(s)) <= usize::MAX
}

/// The first position after `at` where `v` holds `c` (as `pos_from`).
fn find_after(v: &Vec<char>, c: char, at: usize) -> (r: usize)
    requires
        at <= v@.len(),
    ensures
        r == pos_from(v@, c, at + 1),
        r <= v@.len(),
{
    if v.len() == 0 || at >= v.len() - 1 {
        v.len()
    } else {
        find_char_from(v, c, at + 1)
    }
}

proof fn lemma_numeric_run(t: Seq<char>, k: int)
    requires
        0 <= k <= t.len(),
        forall|j: int| 0 <= j < k ==> is_numeric_char(#[trigger] t[j]),
        k < t.len() ==> !is_numeric_char(t[k]),
    ensures
        numeric_run(t) == k,
    decreases t.len(),
{
    if k > 0 {
        assert forall|j: int| 0 <= j < k - 1 implies is_numeric_char(#[trigger] t.drop_first()[j]) by {
            assert(t.drop_first()[j] == t[j + 1]);
        }
        if k < t.len() {
            assert(t.drop_first()[k - 1] == t[k]);
        }
        lemma_numeric_run(t.drop_first(), k - 1);
    }
}

/// Where the digits after the pid key of `v` lie: `v[from..to]`.
fn pid_digit_range(v: &Vec<char>) -> (range: (usize, usize))
    ensures
        range.0 <= range.1 <= v@.len(),
        v@.subrange(range.0 as int, range.1 as int) == pid_digits(v@),
{
    let p = find_char_from(v, 'P', 0);
    proof {
        assert(v@.skip(0) =~= v@);
    }
    let i = find_after(v, 'I', p);
    let d = find_after(v, 'D', i);
    let b = find_after(v, '{', d);
    if b >= v.len() {
        proof {
            assert(v@.subrange(0, 0) =~= Seq::<char>::empty());
        }
        return (0, 0);
    }
    let mut k = b + 1;
    while k < v.len() && is_numeric(v[k])
        invariant
            b < k <= v@.len(),
            forall|j: int| b < j < k ==> is_numeric_char(#[trigger] v@[j]),
        decreases v@.len() - k,
    {
        k = k + 1;
    }
    proof {
        let t = v@.skip(b + 1);
        assert forall|j: int| 0 <= j < k - (b + 1) implies is_numeric_char(#[trigger] t[j]) by {
            assert(t[j] == v@[b + 1 + j]);
        }
        if k < v@.len() {
            assert(t[k - (b + 1)] == v@[k as int]);
        }
        lemma_numeric_run(t, k - (b + 1));
        assert(t.take(k - (b + 1)) =~= v@.subrange(b + 1, k as int));
    }
    (b + 1, k)
}

/// Whether `v` holds one of the characters of the pid key.
fn holds_pid_key_char(v: &Vec<char>) -> (r: bool)
    ensures
        r == has_pid_key_char(v@),
{
    let mut i: usize = 0;
    while i < v.len()
        invariant
            i <= v@.len(),
            forall|j: int| 0 <= j < i ==> v@[j] != 'P' && v@[j] != 'I' && v@[j] != 'D' && v@[j] != '{',
        decreases v@.len() - i,
    {
        let c = v[i];
        if c == 'P' || c == 'I' || c == 'D' || c == '{' {
            assert(v@[i as int] == c);
            return true;
        }
        i = i + 1;
    }
    false
}

/// Gets the pid written after the pid key `PID{` in `string`. The text
/// holds the key and a number after it, unless it holds none of the key's
/// characters, which is an error.
pub fn get_pid_from_string(string: &str) -> (r: Result<usize, WineError>)
    requires
        has_pid_key_char(string@) ==> pid_digits_readable(string@),
    ensures
        r == if has_pid_key_char(string@) {
            Ok::<usize, WineError>(decimal_value(pid_digits(string@)) as usize)
        } else {
            Err(WineError::PidKeyNotFound)
        },
{
    let v = chars_of(string);
    if !holds_pid_key_char(&v) {
        return Err(WineError::PidKeyNotFound);
    }
    let (from, to) = pid_digit_range(&v);
    match parse_decimal(&v, from, to) {
        Some(pid) => Ok(pid),
        None => Err(WineError::PidKeyNotFound),
    }
}

/// `get_pid_from_string` on any text: `None` where it does not apply, that
/// is where the text holds a character of the pid key but no readable pid
/// after the key.
pub fn try_get_pid_from_string(string: &str) -> (r: Option<Result<usize, WineError>>)
    ensures
        match r {
            None => has_pid_key_char(string@) && !pid_digits_readable(string@),
            Some(found) => (has_pid_key_char(string@) ==> pid_digits_readable(string@))
                && found == if has_pid_key_char(string@) {
                Ok::<usize, WineError>(decimal_value(pid_digits(string@)) as usize)
            } else {
                Err(WineError::PidKeyNotFound)
            },
        },
{
    let v = chars_of(string);
    if holds_pid_key_char(&v) {
        let (from, to) = pid_digit_range(&v);
        if parse_decimal(&v, from, to).is_none() {
            return None;
        }
    }
    Some(get_pid_from_string(string))
}

// ---------------------------------------------------------------------------
// What holds of these functions
// ---------------------------------------------------------------------------

/// An extension holds no dot.
pub proof fn lemma_extension_has_no_dot(s: Seq<char>)
    ensures
        !after_last(s, '.').contains('.'),
    decreases s.len(),
{
    if s.len() > 0 && s.last() != '.' {
        lemma_extension_has_no_dot(s.drop_last());
        let shorter = after_last(s.drop_last(), '.');
        assert forall|k: int| 0 <= k < shorter.len() + 1 implies shorter.push(s.last())[k] != '.' by {
            if k < shorter.len() {
                if shorter[k] == '.' {
                    assert(shorter.contains('.'));
                }
            }
        }
    }
}

/// The reversed extension, reversed, is the extension.
pub proof fn lemma_flipped_extension(s: Seq<char>)
    ensures
        after_last(s, '.').reverse().reverse() == after_last(s, '.'),
{
    assert(after_last(s, '.').reverse().reverse() =~= after_last(s, '.'));
}

/// What a path points to holds no slash, and is a suffix of the path.
pub proof fn lemma_end_of_path(s: Seq<char>)
    ensures
        !after_last_slash(s).contains('/'),
        !after_last_slash(s).contains('\\'),
        after_last_slash(s).len() <= s.len(),
        after_last_slash(s) == s.skip(s.len() - after_last_slash(s).len()),
    decreases s.len(),
{
    if s.len() > 0 {
        if s.last() == '/' || s.last() == '\\' {
            assert(s.skip(s.len() as int) =~= Seq::<char>::empty());
        } else {
            let d = s.drop_last();
            lemma_end_of_path(d);
            let e = after_last_slash(d);
            assert forall|k: int| 0 <= k < e.len() + 1 implies e.push(s.last())[k] != '/' && e.push(s.last())[k] != '\\' by {
                if k < e.len() {
                    if e[k] == '/' {
                        assert(e.contains('/'));
                    }
                    if e[k] == '\\' {
                        assert(e.contains('\\'));
                    }
                }
            }
            assert(e.push(s.last()) =~= s.skip(s.len() - (e.len() + 1)));
        }
    } else {
        assert(s.skip(0) =~= s);
    }
}

/// A text made of a lead-in without `P`, the pid key `PID{`, a run of ASCII
/// digits, and then nothing or an ASCII character that is not a digit, gives
/// that run as its pid digits.
pub proof fn lemma_pid_after_key(lead: Seq<char>, digits: Seq<char>, rest: Seq<char>)
    requires
        !lead.contains('P'),
        forall|k: int| 0 <= k < digits.len() ==> is_digit(#[trigger] digits[k]),
        rest.len() > 0 ==> (rest[0] as u32) < 128 && !is_digit(rest[0]),
    ensures
        has_pid_key_char(lead + seq!['P', 'I', 'D', '{'] + digits + rest),
        pid_digits(lead + seq!['P', 'I', 'D', '{'] + digits + rest) == digits,
{
    let key = seq!['P', 'I', 'D', '{'];
    let s = lead + key + digits + rest;
    let at = lead.len() as int;
    assert(s[at] == 'P');
    assert(s.contains('P'));
    assert forall|j: int| 0 <= j < at implies s[j] != 'P' by {
        assert(s[j] == lead[j]);
        if lead[j] == 'P' {
            assert(lead.contains('P'));
        }
    }
    lemma_first_pos(s, 'P', at);
    let after_p = s.skip(at + 1);
    assert(after_p[0] == 'I');
    lemma_first_pos(after_p, 'I', 0);
    let after_i = s.skip(at + 2);
    assert(after_i[0] == 'D');
    lemma_first_pos(after_i, 'D', 0);
    let after_d = s.skip(at + 3);
    assert(after_d[0] == '{');
    lemma_first_pos(after_d, '{', 0);
    assert(pid_key_end(s) == at + 3);
    let t = s.skip(at + 4);
    assert(t =~= digits + rest);
    assert forall|j: int| 0 <= j < digits.len() implies is_numeric_char(#[trigger] t[j]) by {
        assert(t[j] == digits[j]);
        assert(is_digit(digits[j]));
    }
    if digits.len() < t.len() {
        assert(t[digits.len() as int] == rest[0]);
    }
    lemma_numeric_run(t, digits.len() as int);
    assert(t.take(digits.len() as int) =~= digits);
}

/// What a path points to starts right after the path's last `/` or `\`,
/// or at the path's start when it holds neither.
pub proof fn lemma_end_of_path_boundary(s: Seq<char>)
    ensures
        after_last_slash(s).len() < s.len() ==> (s[s.len() - after_last_slash(s).len() - 1] == '/'
            || s[s.len() - after_last_slash(s).len() - 1] == '\\'),
    decreases s.len(),
{
    if s.len() > 0 && s.last() != '/' && s.last() != '\\' {
        let d = s.drop_last();
        lemma_end_of_path_boundary(d);
        if after_last_slash(s).len() < s.len() {
            assert(s[s.len() - after_last_slash(s).len() - 1] == d[d.len() - after_last_slash(d).len() - 1]);
        }
    }
}

/// The start script runs the exe through `runuser`, as the given user, for
/// every user but `root`; only for `root` is it the plain Wine command.
pub proof fn lemma_start_script_user(path: Seq<char>, user: Seq<char>)
    ensures
        user != "root"@ ==> shell_wine_start_script(path, user) == BASH_FORMAT@ + RUN_USER@ + user
            + WINE_RUN_COMMAND_FIRST@ + user + WINE_RUN_COMMAND_SECOND@ + path
            + WINE_RUN_COMMAND_END_PART@,
        shell_wine_start_script(path, "root"@) == BASH_FORMAT@ + WINE_RUN_COMMAND_ROOT@ + path
            + FIND_PID@,
{
}

} // verus!
