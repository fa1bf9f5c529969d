//! Whiskey commands: reading them out of a script and looking them up.
//!
//! A parsed script is a flat list of strings, three per command: the command
//! type, the command name and the command parameters (the script of a
//! `{ ... }` block).
use vstd::prelude::*;

use crate::text::{
    chars_of, find_char_from, first_pos, range_contains_char, str_eq, string_from_range,
    string_views, lemma_string_views_push,
};
use super::CommandError;
use super::python_code::STARTING_PYTHON_CODE;
use crate::whiskey_manipulator::byteorder::{BIG_ENDIAN, LITTLE_ENDIAN};
use super::whiskey_command_types::{
    SET_BYTE_ORDER, SET_EXE_PATH, SET_EXTERNAL_SCRIPT, SET_PROCESS_NAME, SET_PROCESS_TIMEOUT,
    SET_USER,
};

verus! {

// ---------------------------------------------------------------------------
// Looking commands up
// ---------------------------------------------------------------------------

/// The entries that follow each command type equal to `ty`, reading `cmds`
/// in groups of three from position `start` on: for every group whose first
/// entry is `ty`, the (at most two) entries after it.
pub open spec fn matching_from(cmds: Seq<Seq<char>>, ty: Seq<char>, start: int) -> Seq<Seq<char>>
    decreases cmds.len() - start,
{
    if start < 0 || start >= cmds.len() {
        seq![]
    } else {
        let end = if start + 3 <= cmds.len() {
            start + 3
        } else {
            cmds.len() as int
        };
        (if cmds[start] == ty {
            cmds.subrange(start + 1, end)
        } else {
            seq![]
        }) + if start + 3 < cmds.len() {
            matching_from(cmds, ty, start + 3)
        } else {
            seq![]
        }
    }
}

/// The names and parameters of all commands of type `ty` in `cmds`, in order.
pub open spec fn commands_of_type(cmds: Seq<Seq<char>>, ty: Seq<char>) -> Seq<Seq<char>> {
    matching_from(cmds, ty, 0)
}

/// Gets the names and parameters (in that order, flattened) of every command
/// of type `command_type`; fails when there is none.
pub fn get_whiskey_commands(whiskey_commands: &Vec<String>, command_type: &str) -> (r: Result<
    Vec<String>,
    CommandError,
>)
    ensures
        match r {
            Ok(found) => string_views(found@) == commands_of_type(
                string_views(whiskey_commands@),
                command_type@,
            ) && found@.len() > 0,
            Err(e) => e == CommandError::NoMatchingCommands && commands_of_type(
                string_views(whiskey_commands@),
                command_type@,
            ).len() == 0,
        },
{
    let ghost cmds = string_views(whiskey_commands@);
    let ghost ty = command_type@;
    let n = whiskey_commands.len();
    let mut parsed: Vec<String> = Vec::new();
    let mut start: usize = 0;
    while start < n
        invariant
            n == whiskey_commands@.len(),
            cmds == string_views(whiskey_commands@),
            ty == command_type@,
            start <= n,
            string_views(parsed@) + matching_from(cmds, ty, start as int) == matching_from(
                cmds,
                ty,
                0,
            ),
        decreases n - start,
    {
        let ghost before = string_views(parsed@);
        let ghost end: int = if start + 3 <= n {
            start + 3
        } else {
            n as int
        };
        assert(cmds[start as int] == whiskey_commands@[start as int]@);
        if str_eq(whiskey_commands[start].as_str(), command_type) {
            if n - start > 1 {
                let entry = whiskey_commands[start + 1].clone();
                proof {
                    lemma_string_views_push(parsed@, entry);
                }
                parsed.push(entry);
            }
            if n - start > 2 {
                let entry = whiskey_commands[start + 2].clone();
                proof {
                    lemma_string_views_push(parsed@, entry);
                }
                parsed.push(entry);
            }
            assert(string_views(parsed@) =~= before + cmds.subrange(start + 1, end));
        }
        if n - start > 3 {
            start = start + 3;
        } else {
            start = n;
        }
        assert(matching_from(cmds, ty, n as int) == Seq::<Seq<char>>::empty());
    }
    assert(matching_from(cmds, ty, n as int) == Seq::<Seq<char>>::empty());
    assert(string_views(parsed@) =~= matching_from(cmds, ty, 0));
    if parsed.len() == 0 {
        return Err(CommandError::NoMatchingCommands);
    }
    Ok(parsed)
}

/// The name and parameters of the last command in a list found by
/// `commands_of_type`.
pub open spec fn last_pair(found: Seq<Seq<char>>) -> (Seq<char>, Seq<char>) {
    (found[found.len() - 2], found[found.len() - 1])
}

/// The view of a looked-up command: its name and its parameters.
pub open spec fn pair_view(pair: [String; 2]) -> (Seq<char>, Seq<char>) {
    (pair@[0]@, pair@[1]@)
}

/// Gets the name and parameters of the last command of type `command_type`.
pub fn get_last_command_used(whiskey_commands: &Vec<String>, command_type: &str) -> (r: Result<
    [String; 2],
    CommandError,
>)
    ensures
        ({
            let found = commands_of_type(string_views(whiskey_commands@), command_type@);
            match r {
                Ok(pair) => found.len() >= 2 && pair_view(pair) == last_pair(found),
                Err(CommandError::NoMatchingCommands) => found.len() == 0,
                Err(CommandError::CommandPointerOutOfRange) => found.len() == 1,
                Err(_) => false,
            }
        }),
{
    let parsed_commands = get_whiskey_commands(whiskey_commands, command_type)?;
    if parsed_commands.len() < 2 {
        return Err(CommandError::CommandPointerOutOfRange);
    }
    let buffer_point = parsed_commands.len() - 2;
    let first = parsed_commands[buffer_point].clone();
    let second = parsed_commands[buffer_point + 1].clone();
    proof {
        assert(string_views(parsed_commands@)[buffer_point as int] == parsed_commands@[buffer_point as int]@);
        assert(string_views(parsed_commands@)[buffer_point + 1] == parsed_commands@[buffer_point + 1]@);
    }
    let pair = [first, second];
    assert(pair@[0] == first && pair@[1] == second);
    Ok(pair)
}

/// Gets the name and parameters of a command of type `command_type`: the
/// one at position `command_pointer` (counting from 0) among the commands of
/// that type, which `get_whiskey_commands` lists as name, parameters pairs.
pub fn get_whiskey_command(
    whiskey_commands: &Vec<String>,
    command_type: &str,
    command_pointer: usize,
) -> (r: Result<[String; 2], CommandError>)
    ensures
        ({
            let found = commands_of_type(string_views(whiskey_commands@), command_type@);
            let at = 2 * command_pointer;
            match r {
                Ok(pair) => at + 1 < found.len() && pair_view(pair) == (found[at], found[at + 1]),
                Err(CommandError::NoMatchingCommands) => found.len() == 0,
                Err(CommandError::CommandPointerOutOfRange) => found.len() > 0 && at + 1
                    >= found.len(),
                Err(_) => false,
            }
        }),
{
    let parsed_commands = get_whiskey_commands(whiskey_commands, command_type)?;
    if command_pointer >= parsed_commands.len() / 2 {
        return Err(CommandError::CommandPointerOutOfRange);
    }
    let buffer_point = 2 * command_pointer;
    let first = parsed_commands[buffer_point].clone();
    let second = parsed_commands[buffer_point + 1].clone();
    proof {
        assert(string_views(parsed_commands@)[buffer_point as int] == parsed_commands@[buffer_point as int]@);
        assert(string_views(parsed_commands@)[buffer_point + 1] == parsed_commands@[buffer_point + 1]@);
    }
    let pair = [first, second];
    assert(pair@[0] == first && pair@[1] == second);
    Ok(pair)
}

/// The name of the last command of type `ty`, or why there is none.
pub open spec fn last_name_of_type(cmds: Seq<Seq<char>>, ty: Seq<char>) -> Result<Seq<char>, CommandError> {
    let found = commands_of_type(cmds, ty);
    if found.len() == 0 {
        Err(CommandError::NoMatchingCommands)
    } else if found.len() == 1 {
        Err(CommandError::CommandPointerOutOfRange)
    } else {
        Ok(last_pair(found).0)
    }
}

/// The view of a looked-up string.
pub open spec fn string_result_view(r: Result<String, CommandError>) -> Result<Seq<char>, CommandError> {
    match r {
        Ok(s) => Ok(s@),
        Err(e) => Err(e),
    }
}

/// The name of the last command of type `command_type`.
fn last_command_name(whiskey_commands: &Vec<String>, command_type: &str) -> (r: Result<String, CommandError>)
    ensures
        string_result_view(r) == last_name_of_type(string_views(whiskey_commands@), command_type@),
{
    let pair = get_last_command_used(whiskey_commands, command_type)?;
    Ok(pair[0].clone())
}

/// The byte order named by the last `set_byte_order` command.
pub fn get_byte_order(whiskey_commands: &Vec<String>) -> (r: Result<String, CommandError>)
    ensures
        string_result_view(r) == last_name_of_type(string_views(whiskey_commands@), SET_BYTE_ORDER@),
{
    last_command_name(whiskey_commands, SET_BYTE_ORDER)
}

/// The exe path named by the last `set_exe_path` command.
pub fn get_exe_path(whiskey_commands: &Vec<String>) -> (r: Result<String, CommandError>)
    ensures
        string_result_view(r) == last_name_of_type(string_views(whiskey_commands@), SET_EXE_PATH@),
{
    last_command_name(whiskey_commands, SET_EXE_PATH)
}

/// The process timeout named by the last `set_process_timeout` command.
pub fn get_process_timeout(whiskey_commands: &Vec<String>) -> (r: Result<String, CommandError>)
    ensures
        string_result_view(r) == last_name_of_type(
            string_views(whiskey_commands@),
            SET_PROCESS_TIMEOUT@,
        ),
{
    last_command_name(whiskey_commands, SET_PROCESS_TIMEOUT)
}

/// The user named by the last `set_user` command.
pub fn get_user(whiskey_commands: &Vec<String>) -> (r: Result<String, CommandError>)
    ensures
        string_result_view(r) == last_name_of_type(string_views(whiskey_commands@), SET_USER@),
{
    last_command_name(whiskey_commands, SET_USER)
}

/// The process name named by the last `set_process_name` command.
pub fn get_process_name(whiskey_commands: &Vec<String>) -> (r: Result<String, CommandError>)
    ensures
        string_result_view(r) == last_name_of_type(string_views(whiskey_commands@), SET_PROCESS_NAME@),
{
    last_command_name(whiskey_commands, SET_PROCESS_NAME)
}

/// The script (the parameters) of the last `set_external_script` command.
pub fn get_external_script(whiskey_commands: &Vec<String>) -> (r: Result<String, CommandError>)
    ensures
        ({
            let found = commands_of_type(string_views(whiskey_commands@), SET_EXTERNAL_SCRIPT@);
            string_result_view(r) == if found.len() == 0 {
                Err(CommandError::NoMatchingCommands)
            } else if found.len() == 1 {
                Err(CommandError::CommandPointerOutOfRange)
            } else {
                Ok(last_pair(found).1)
            }
        }),
{
    let pair = get_last_command_used(whiskey_commands, SET_EXTERNAL_SCRIPT)?;
    Ok(pair[1].clone())
}

// ---------------------------------------------------------------------------
// Reading one command
// ---------------------------------------------------------------------------

/// The parts of one whiskey command `t` (the text after its `$`): the type is
/// everything before the first space, the name runs from there to the next
/// space, and the parameters are all that follows that second space (empty
/// when there is none). A command without a space has no name; a `$` in the
/// name is refused.
pub open spec fn single_command_parts(t: Seq<char>) -> Result<
    (Seq<char>, Seq<char>, Seq<char>),
    CommandError,
> {
    let i = first_pos(t, ' ');
    if i == t.len() {
        Err(CommandError::NoCommandName)
    } else {
        let rest = t.skip(i + 1);
        let j = first_pos(rest, ' ');
        let name = rest.take(j);
        if name.contains('$') {
            Err(CommandError::InvalidSymbol)
        } else {
            Ok((t.take(i), name, if j == rest.len() { seq![] } else { rest.skip(j + 1) }))
        }
    }
}

/// The view of a parsed command: its type, name and parameters.
pub open spec fn triple_view(r: Result<[String; 3], CommandError>) -> Result<
    (Seq<char>, Seq<char>, Seq<char>),
    CommandError,
> {
    match r {
        Ok(parts) => Ok((parts@[0]@, parts@[1]@, parts@[2]@)),
        Err(e) => Err(e),
    }
}

/// Parses one whiskey command into its type, name and parameters.
pub fn parse_single_whiskey_command(text: &str) -> (r: Result<[String; 3], CommandError>)
    ensures
        triple_view(r) == single_command_parts(text@),
{
    let v = chars_of(text);
    let n = v.len();
    let i = find_char_from(&v, ' ', 0);
    proof {
        assert(v@.skip(0) =~= v@);
    }
    if i == n {
        return Err(CommandError::NoCommandName);
    }
    let j = find_char_from(&v, ' ', i + 1);
    let ghost rest = v@.skip(i + 1);
    proof {
        assert(rest.take(j - (i + 1)) =~= v@.subrange(i + 1, j as int));
    }
    if range_contains_char(&v, i + 1, j, '$') {
        return Err(CommandError::InvalidSymbol);
    }
    let command_type = string_from_range(&v, 0, i);
    let command_name = string_from_range(&v, i + 1, j);
    let command_parameters = if j == n {
        String::new()
    } else {
        string_from_range(&v, j + 1, n)
    };
    proof {
        assert(v@.take(i as int) =~= v@.subrange(0, i as int));
        if j < n {
            assert(rest.skip(j - (i + 1) + 1) =~= v@.subrange(j + 1, n as int));
        }
    }
    let parts = [command_type, command_name, command_parameters];
    assert(parts@[0] == command_type && parts@[1] == command_name && parts@[2] == command_parameters);
    Ok(parts)
}

// ---------------------------------------------------------------------------
// Reading the commands of a script
// ---------------------------------------------------------------------------

/// Where the scan of a script stands after some of its characters.
pub struct ScanState {
    /// The commands read so far, three entries each.
    pub parsed: Seq<Seq<char>>,
    /// The text of the command being read.
    pub current: Seq<char>,
    /// The text of the script block being read.
    pub script: Seq<char>,
    /// Reading a command line, after its `$`.
    pub reading_line: bool,
    /// The last command read was completed by a newline or a closing bracket.
    pub finished_line: bool,
    /// Reading a `{ ... }` script block.
    pub reading_script: bool,
    /// A `}` ends the script block: no quote is open.
    pub bracket_ends_script: bool,
}

/// The scan before the first character.
pub open spec fn initial_scan() -> ScanState {
    ScanState {
        parsed: seq![],
        current: seq![],
        script: seq![],
        reading_line: false,
        finished_line: false,
        reading_script: false,
        bracket_ends_script: true,
    }
}

/// One character of the scan. Outside a command, a `$` starts one. In a
/// command line, `{` starts its script block, a newline ends it (and the
/// command is read), any other character is part of it. In a script block, a
/// `}` outside quotes ends the block (and the command is read, with the
/// script as its parameters, after which both texts start again empty); any
/// other character is script, and a quote opens or closes a quoted part.
pub open spec fn scan_step(st: ScanState, c: char) -> Result<ScanState, CommandError> {
    if !st.reading_line && !st.reading_script {
        Ok(ScanState { reading_line: st.reading_line || c == '$', ..st })
    } else if !st.reading_script {
        if c == '{' {
            Ok(ScanState { reading_line: false, reading_script: true, ..st })
        } else if c != '\n' {
            Ok(ScanState { finished_line: false, current: st.current.push(c), ..st })
        } else {
            match single_command_parts(st.current) {
                Ok((a, b, p)) => Ok(
                    ScanState {
                        parsed: st.parsed + seq![a, b, p],
                        current: seq![],
                        reading_line: false,
                        finished_line: true,
                        ..st
                    },
                ),
                Err(e) => Err(e),
            }
        }
    } else if c == '}' && st.bracket_ends_script {
        match single_command_parts(st.current) {
            Ok((a, b, p)) => Ok(
                ScanState {
                    parsed: st.parsed + seq![a, b, st.script],
                    current: seq![],
                    script: seq![],
                    reading_script: false,
                    finished_line: true,
                    ..st
                },
            ),
            Err(e) => Err(e),
        }
    } else {
        Ok(
            ScanState {
                script: st.script.push(c),
                bracket_ends_script: if c == '"' || c == '\'' {
                    !st.bracket_ends_script
                } else {
                    st.bracket_ends_script
                },
                ..st
            },
        )
    }
}

/// The scan of `text`, from `st`, one character after the other; it stops
/// at the first command that cannot be read.
pub open spec fn scan_from(st: ScanState, text: Seq<char>) -> Result<ScanState, CommandError>
    decreases text.len(),
{
    if text.len() == 0 {
        Ok(st)
    } else {
        match scan_from(st, text.drop_last()) {
            Ok(before) => scan_step(before, text.last()),
            Err(e) => Err(e),
        }
    }
}

/// The commands of a script: the commands the scan reads, and then, unless
/// the scan ended right after a command, the command still being read.
pub open spec fn script_commands(text: Seq<char>) -> Result<Seq<Seq<char>>, CommandError> {
    match scan_from(initial_scan(), text) {
        Ok(st) => if st.finished_line {
            Ok(st.parsed)
        } else {
            match single_command_parts(st.current) {
                Ok((a, b, p)) => Ok(st.parsed + seq![a, b, p]),
                Err(e) => Err(e),
            }
        },
        Err(e) => Err(e),
    }
}

/// The view of parsed commands.
pub open spec fn strings_result_view(r: Result<Vec<String>, CommandError>) -> Result<
    Seq<Seq<char>>,
    CommandError,
> {
    match r {
        Ok(v) => Ok(string_views(v@)),
        Err(e) => Err(e),
    }
}

/// Once the scan of a prefix fails, the scan of the whole text fails the same way.
proof fn lemma_scan_error_persists(st: ScanState, text: Seq<char>, i: int, e: CommandError)
    requires
        0 <= i <= text.len(),
        scan_from(st, text.take(i)) == Err::<ScanState, CommandError>(e),
    ensures
        scan_from(st, text) == Err::<ScanState, CommandError>(e),
    decreases text.len() - i,
{
    if i == text.len() {
        assert(text.take(i) =~= text);
    } else {
        assert(text.take(i + 1).drop_last() =~= text.take(i));
        lemma_scan_error_persists(st, text, i + 1, e);
    }
}

/// Appends the type, name and parameters of a command to `parsed`.
fn push_command(parsed: &mut Vec<String>, parts: &[String; 3])
    ensures
        string_views(final(parsed)@) == string_views(old(parsed)@) + seq![
            parts@[0]@,
            parts@[1]@,
            parts@[2]@,
        ],
{
    let ghost start = parsed@;
    let a = parts[0].clone();
    let b = parts[1].clone();
    let c = parts[2].clone();
    proof {
        lemma_string_views_push(parsed@, a);
    }
    parsed.push(a);
    proof {
        lemma_string_views_push(parsed@, b);
    }
    parsed.push(b);
    proof {
        lemma_string_views_push(parsed@, c);
    }
    parsed.push(c);
    assert(string_views(parsed@) =~= string_views(start) + seq![
        parts@[0]@,
        parts@[1]@,
        parts@[2]@,
    ]);
}

/// Reads the whiskey commands out of a script: three entries per command,
/// its type, its name and its parameters (the script of a `{ ... }` block).
pub fn parse_whiskey_commands(text: &str) -> (r: Result<Vec<String>, CommandError>)
    ensures
        strings_result_view(r) == script_commands(text@),
{
    let chars = chars_of(text);
    let n = chars.len();
    let mut parsed: Vec<String> = Vec::new();
    let mut current_whiskey_command = String::new();
    let mut script = String::new();
    let mut read_until_new_line = false;
    let mut finished_with_new_line = false;
    let mut read_script = false;
    let mut read_for_end_bracket = true;
    let mut i: usize = 0;
    proof {
        assert(chars@.take(0) =~= Seq::<char>::empty());
        assert(string_views(parsed@) =~= Seq::<Seq<char>>::empty());
    }
    while i < n
        invariant
            n == chars@.len(),
            chars@ == text@,
            i <= n,
            scan_from(initial_scan(), chars@.take(i as int)) == Ok::<ScanState, CommandError>(
                ScanState {
                    parsed: string_views(parsed@),
                    current: current_whiskey_command@,
                    script: script@,
                    reading_line: read_until_new_line,
                    finished_line: finished_with_new_line,
                    reading_script: read_script,
                    bracket_ends_script: read_for_end_bracket,
                },
            ),
        decreases n - i,
    {
        let character = chars[i];
        let ghost before = ScanState {
            parsed: string_views(parsed@),
            current: current_whiskey_command@,
            script: script@,
            reading_line: read_until_new_line,
            finished_line: finished_with_new_line,
            reading_script: read_script,
            bracket_ends_script: read_for_end_bracket,
        };
        proof {
            assert(chars@.take(i + 1).drop_last() =~= chars@.take(i as int));
            assert(chars@.take(i + 1).last() == character);
        }
        if !read_until_new_line && !read_script {
            if character == '$' {
                read_until_new_line = true;
            }
        } else if !read_script {
            if character == '{' {
                read_until_new_line = false;
                read_script = true;
            } else if character != '\n' {
                finished_with_new_line = false;
                crate::text::push_char(&mut current_whiskey_command, character);
            } else {
                let single = parse_single_whiskey_command(current_whiskey_command.as_str());
                match single {
                    Ok(parts) => {
                        push_command(&mut parsed, &parts);
                        read_until_new_line = false;
                        finished_with_new_line = true;
                        current_whiskey_command = String::new();
                    },
                    Err(e) => {
                        proof {
                            lemma_scan_error_persists(initial_scan(), chars@, i + 1, e);
                        }
                        return Err(e);
                    },
                }
            }
        } else if character == '}' && read_for_end_bracket {
            let single = parse_single_whiskey_command(current_whiskey_command.as_str());
            match single {
                Ok(parts) => {
                    let with_script = [parts[0].clone(), parts[1].clone(), script.clone()];
                    assert(with_script@[0] == parts@[0] && with_script@[1] == parts@[1]
                        && with_script@[2] == script);
                    push_command(&mut parsed, &with_script);
                    current_whiskey_command = String::new();
                    script = String::new();
                    read_script = false;
                    finished_with_new_line = true;
                },
                Err(e) => {
                    proof {
                        lemma_scan_error_persists(initial_scan(), chars@, i + 1, e);
                    }
                    return Err(e);
                },
            }
        } else {
            crate::text::push_char(&mut script, character);
            if character == '"' || character == '\'' {
                read_for_end_bracket = !read_for_end_bracket;
            }
        }
        i = i + 1;
    }
    proof {
        assert(chars@.take(n as int) =~= chars@);
    }
    if !finished_with_new_line {
        let single = parse_single_whiskey_command(current_whiskey_command.as_str());
        match single {
            Ok(parts) => {
                push_command(&mut parsed, &parts);
            },
            Err(e) => {
                return Err(e);
            },
        }
    }
    Ok(parsed)
}

// ---------------------------------------------------------------------------
// Building the internal script
// ---------------------------------------------------------------------------

/// The line that separates the Python prelude from the user's script.
pub const SCRIPT_SEPARATOR: &'static str = "\n#-----\n";

/// The Python prelude, the separator line, then `script`.
pub fn combine_starting_script_with(script: &str) -> (r: String)
    ensures
        r@ == STARTING_PYTHON_CODE@ + SCRIPT_SEPARATOR@ + script@,
{
    let mut combined = STARTING_PYTHON_CODE.to_owned();
    combined.append(SCRIPT_SEPARATOR);
    combined.append(script);
    combined
}

/// The byte order called `little_endian` or `big_endian`.
pub fn convert_byte_order(byte_order: &str) -> (r: Result<u8, CommandError>)
    ensures
        r == if byte_order@ == "little_endian"@ {
            Ok::<u8, CommandError>(LITTLE_ENDIAN)
        } else if byte_order@ == "big_endian"@ {
            Ok(BIG_ENDIAN)
        } else {
            Err(CommandError::InvalidByteOrder)
        },
{
    if str_eq(byte_order, "little_endian") {
        return Ok(LITTLE_ENDIAN);
    }
    if str_eq(byte_order, "big_endian") {
        return Ok(BIG_ENDIAN);
    }
    Err(CommandError::InvalidByteOrder)
}

} // verus!
