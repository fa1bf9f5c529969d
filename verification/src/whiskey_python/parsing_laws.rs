//! What holds of whiskey commands across reading and looking them up.
use vstd::prelude::*;

use crate::text::{first_pos, lemma_first_pos};
use super::CommandError;
use super::whiskey_python_parsing::{
    ScanState, commands_of_type, initial_scan, last_name_of_type, last_pair, matching_from, scan_from,
    scan_step, script_commands, single_command_parts,
};

verus! {

/// Whether `s` is free of the characters that end or split a command part.
pub open spec fn plain_part(s: Seq<char>) -> bool {
    !s.contains(' ') && !s.contains('\n') && !s.contains('{')
}

proof fn lemma_first_space_after(head: Seq<char>, tail: Seq<char>)
    requires
        !head.contains(' '),
    ensures
        first_pos(head + seq![' '] + tail, ' ') == head.len(),
{
    let s = head + seq![' '] + tail;
    assert forall|k: int| 0 <= k < head.len() implies s[k] != ' ' by {
        assert(s[k] == head[k]);
        if s[k] == ' ' {
            assert(head.contains(' '));
        }
    }
    lemma_first_pos(s, ' ', head.len() as int);
}

proof fn lemma_no_space(s: Seq<char>)
    requires
        !s.contains(' '),
    ensures
        first_pos(s, ' ') == s.len(),
{
    assert forall|k: int| 0 <= k < s.len() implies s[k] != ' ' by {
        if s[k] == ' ' {
            assert(s.contains(' '));
        }
    }
    lemma_first_pos(s, ' ', s.len() as int);
}

/// A command written as its type, a space, its name, a space and its
/// parameters reads back as that type, name and parameters, when the type
/// and name hold no space and the name no `$`.
pub proof fn lemma_single_command_roundtrip(ty: Seq<char>, name: Seq<char>, params: Seq<char>)
    requires
        !ty.contains(' '),
        !name.contains(' '),
        !name.contains('$'),
    ensures
        single_command_parts(ty + seq![' '] + name + seq![' '] + params) == Ok::<
            (Seq<char>, Seq<char>, Seq<char>),
            CommandError,
        >((ty, name, params)),
{
    let t = ty + seq![' '] + name + seq![' '] + params;
    assert(t =~= ty + seq![' '] + (name + seq![' '] + params));
    lemma_first_space_after(ty, name + seq![' '] + params);
    let rest = t.skip(ty.len() as int + 1);
    assert(rest =~= name + seq![' '] + params);
    lemma_first_space_after(name, params);
    assert(rest.take(name.len() as int) =~= name);
    assert(t.take(ty.len() as int) =~= ty);
    assert(rest.skip(name.len() as int + 1) =~= params);
}

/// A command written as its type, a space and its name reads back as that
/// type and name with no parameters, when the type and name hold no space
/// and the name no `$`.
pub proof fn lemma_single_command_without_parameters(ty: Seq<char>, name: Seq<char>)
    requires
        !ty.contains(' '),
        !name.contains(' '),
        !name.contains('$'),
    ensures
        single_command_parts(ty + seq![' '] + name) == Ok::<
            (Seq<char>, Seq<char>, Seq<char>),
            CommandError,
        >((ty, name, seq![])),
{
    let t = ty + seq![' '] + name;
    lemma_first_space_after(ty, name);
    let rest = t.skip(ty.len() as int + 1);
    assert(rest =~= name);
    lemma_no_space(name);
    assert(rest.take(name.len() as int) =~= name);
    assert(t.take(ty.len() as int) =~= ty);
}

/// Whatever a command reads as, its type and name hold no space and its
/// name no `$`, and the command is its type, a space and its name, followed
/// (when there are parameters, and perhaps when there are none) by a space
/// and the parameters.
pub proof fn lemma_single_command_parts_sound(t: Seq<char>)
    ensures
        single_command_parts(t) matches Ok((ty, name, params)) ==> {
            &&& !ty.contains(' ')
            &&& !name.contains(' ')
            &&& !name.contains('$')
            &&& (t == ty + seq![' '] + name + seq![' '] + params || (params.len() == 0 && t == ty
                + seq![' '] + name))
        },
{
    if let Ok((ty, name, params)) = single_command_parts(t) {
        let i = first_pos(t, ' ');
        lemma_first_pos_facts(t, ' ');
        let rest = t.skip(i + 1);
        let j = first_pos(rest, ' ');
        lemma_first_pos_facts(rest, ' ');
        assert(ty == t.take(i));
        assert forall|k: int| 0 <= k < ty.len() implies ty[k] != ' ' by {}
        assert(!ty.contains(' '));
        assert(name == rest.take(j));
        assert forall|k: int| 0 <= k < name.len() implies name[k] != ' ' by {}
        assert(!name.contains(' '));
        if j == rest.len() {
            assert(t =~= ty + seq![' '] + name);
        } else {
            assert(t =~= ty + seq![' '] + name + seq![' '] + params);
        }
    }
}

/// What `first_pos` finds: a position within the text, holding the
/// character when it is not the end, with no earlier occurrence.
pub proof fn lemma_first_pos_facts(s: Seq<char>, c: char)
    ensures
        0 <= first_pos(s, c) <= s.len(),
        first_pos(s, c) < s.len() ==> s[first_pos(s, c)] == c,
        forall|k: int| 0 <= k < first_pos(s, c) ==> s[k] != c,
    decreases s.len(),
{
    if s.len() > 0 && s[0] != c {
        lemma_first_pos_facts(s.drop_first(), c);
        assert forall|k: int| 0 <= k < first_pos(s, c) implies s[k] != c by {
            if k > 0 {
                assert(s[k] == s.drop_first()[k - 1]);
            }
        }
    }
}

// ---------------------------------------------------------------------------
// Scanning scripts
// ---------------------------------------------------------------------------

/// Scanning two texts one after the other is scanning the first, then
/// scanning the second from where the first left off.
pub proof fn lemma_scan_append(st: ScanState, a: Seq<char>, b: Seq<char>)
    ensures
        scan_from(st, a + b) == match scan_from(st, a) {
            Ok(mid) => scan_from(mid, b),
            Err(e) => Err(e),
        },
    decreases b.len(),
{
    if b.len() == 0 {
        assert(a + b =~= a);
    } else {
        assert((a + b).drop_last() =~= a + b.drop_last());
        assert((a + b).last() == b.last());
        lemma_scan_append(st, a, b.drop_last());
    }
}

/// In a command line, characters other than `{` and a newline are taken
/// into the command being read.
proof fn lemma_scan_line_chars(st: ScanState, t: Seq<char>)
    requires
        st.reading_line,
        !st.reading_script,
        !t.contains('\n'),
        !t.contains('{'),
    ensures
        scan_from(st, t) == Ok::<ScanState, CommandError>(
            ScanState {
                current: st.current + t,
                finished_line: if t.len() > 0 {
                    false
                } else {
                    st.finished_line
                },
                ..st
            },
        ),
    decreases t.len(),
{
    if t.len() == 0 {
        assert(st.current + t =~= st.current);
    } else {
        let shorter = t.drop_last();
        assert forall|k: int| 0 <= k < shorter.len() implies shorter[k] != '\n' && shorter[k] != '{' by {
            assert(shorter[k] == t[k]);
            if shorter[k] == '\n' {
                assert(t.contains('\n'));
            }
            if shorter[k] == '{' {
                assert(t.contains('{'));
            }
        }
        assert(!shorter.contains('\n'));
        assert(!shorter.contains('{'));
        lemma_scan_line_chars(st, shorter);
        assert(t.last() == t[t.len() - 1]);
        if t.last() == '\n' {
            assert(t.contains('\n'));
        }
        if t.last() == '{' {
            assert(t.contains('{'));
        }
        assert(st.current + shorter + seq![t.last()] =~= st.current + t);
        assert((st.current + shorter).push(t.last()) =~= st.current + t);
    }
}

/// The command written on a command line: its type, a space and its name,
/// then, when there are parameters, a space and the parameters.
pub open spec fn command_text(ty: Seq<char>, name: Seq<char>, params: Seq<char>) -> Seq<char> {
    if params.len() == 0 {
        ty + seq![' '] + name
    } else {
        ty + seq![' '] + name + seq![' '] + params
    }
}

/// The text of a command line: `$`, the command, a newline.
pub open spec fn command_line(ty: Seq<char>, name: Seq<char>, params: Seq<char>) -> Seq<char> {
    seq!['$'] + command_text(ty, name, params) + seq!['\n']
}

/// Whether a command with these parts can be written on a command line: a
/// type and a name free of spaces, newlines and `{`, a name free of `$`, and
/// parameters free of newlines and `{`.
pub open spec fn plain_command(ty: Seq<char>, name: Seq<char>, params: Seq<char>) -> bool {
    plain_part(ty) && plain_part(name) && !name.contains('$') && !params.contains('\n')
        && !params.contains('{')
}

/// Whether every command of `cmds` can be written on a command line.
pub open spec fn plain_commands(cmds: Seq<(Seq<char>, Seq<char>, Seq<char>)>) -> bool {
    forall|k: int| 0 <= k < cmds.len() ==> plain_command(#[trigger] cmds[k].0, cmds[k].1, cmds[k].2)
}

/// The script made of one command line per command of `cmds`.
pub open spec fn command_lines(cmds: Seq<(Seq<char>, Seq<char>, Seq<char>)>) -> Seq<char>
    decreases cmds.len(),
{
    if cmds.len() == 0 {
        seq![]
    } else {
        command_lines(cmds.drop_last()) + command_line(cmds.last().0, cmds.last().1, cmds.last().2)
    }
}

/// The commands of `cmds` as a parsed script holds them: type, name and
/// parameters, one after the other.
pub open spec fn parsed_command_lines(cmds: Seq<(Seq<char>, Seq<char>, Seq<char>)>) -> Seq<Seq<char>>
    decreases cmds.len(),
{
    if cmds.len() == 0 {
        seq![]
    } else {
        parsed_command_lines(cmds.drop_last()) + seq![cmds.last().0, cmds.last().1, cmds.last().2]
    }
}

/// Where the scan stands between command lines: the commands read so far,
/// no command being read, and the last line completed when there was one.
pub open spec fn between_lines(parsed: Seq<Seq<char>>, finished: bool) -> ScanState {
    ScanState { parsed, finished_line: finished, ..initial_scan() }
}

/// A text free of newlines and `{` that is made of parts free of them.
proof fn lemma_line_plain(ty: Seq<char>, name: Seq<char>, params: Seq<char>)
    requires
        plain_command(ty, name, params),
    ensures
        !command_text(ty, name, params).contains('\n'),
        !command_text(ty, name, params).contains('{'),
{
    let line = command_text(ty, name, params);
    assert forall|k: int| 0 <= k < line.len() implies line[k] != '\n' && line[k] != '{' by {
        let n = ty.len() + 1 + name.len();
        if k < ty.len() {
            assert(line[k] == ty[k]);
            if line[k] == '\n' {
                assert(ty.contains('\n'));
            }
            if line[k] == '{' {
                assert(ty.contains('{'));
            }
        } else if ty.len() < k < n {
            assert(line[k] == name[k - ty.len() - 1]);
            if line[k] == '\n' {
                assert(name.contains('\n'));
            }
            if line[k] == '{' {
                assert(name.contains('{'));
            }
        } else if k > n {
            assert(line[k] == params[k - n - 1]);
            if line[k] == '\n' {
                assert(params.contains('\n'));
            }
            if line[k] == '{' {
                assert(params.contains('{'));
            }
        }
    }
}

/// Scanning one line `$` + `c` + newline between lines, where `c` holds no
/// newline and no `{`, reads the command `c`, or fails as reading it fails.
proof fn lemma_scan_raw_line(parsed: Seq<Seq<char>>, finished: bool, c: Seq<char>)
    requires
        !c.contains('\n'),
        !c.contains('{'),
    ensures
        scan_from(between_lines(parsed, finished), seq!['$'] + c + seq!['\n']) == match single_command_parts(
            c,
        ) {
            Ok((a, b, p)) => Ok::<ScanState, CommandError>(between_lines(parsed + seq![a, b, p], true)),
            Err(e) => Err(e),
        },
{
    let start = between_lines(parsed, finished);
    lemma_scan_append(start, seq!['$'] + c, seq!['\n']);
    lemma_scan_append(start, seq!['$'], c);
    assert(seq!['$'].drop_last() =~= Seq::<char>::empty());
    assert(scan_from(start, Seq::<char>::empty()) == Ok::<ScanState, CommandError>(start));
    let after_dollar = ScanState { reading_line: true, ..start };
    assert(scan_from(start, seq!['$']) == Ok::<ScanState, CommandError>(after_dollar));
    lemma_scan_line_chars(after_dollar, c);
    let before_newline = ScanState { current: after_dollar.current + c, finished_line: false, ..after_dollar };
    assert(after_dollar.current + c =~= c);
    assert(seq!['\n'].drop_last() =~= Seq::<char>::empty());
    assert(scan_from(before_newline, Seq::<char>::empty()) == Ok::<ScanState, CommandError>(before_newline));
    assert(scan_from(before_newline, seq!['\n']) == scan_step(before_newline, '\n'));
}

/// Scanning one command line between lines reads its command.
proof fn lemma_scan_command_line(
    parsed: Seq<Seq<char>>,
    finished: bool,
    ty: Seq<char>,
    name: Seq<char>,
    params: Seq<char>,
)
    requires
        plain_command(ty, name, params),
    ensures
        scan_from(between_lines(parsed, finished), command_line(ty, name, params)) == Ok::<
            ScanState,
            CommandError,
        >(between_lines(parsed + seq![ty, name, params], true)),
{
    let line = command_text(ty, name, params);
    lemma_line_plain(ty, name, params);
    if params.len() == 0 {
        assert(line == ty + seq![' '] + name);
        assert(params =~= Seq::<char>::empty());
        lemma_single_command_without_parameters(ty, name);
    } else {
        assert(line == ty + seq![' '] + name + seq![' '] + params);
        lemma_single_command_roundtrip(ty, name, params);
    }
    lemma_scan_raw_line(parsed, finished, line);
}

proof fn lemma_scan_command_lines(cmds: Seq<(Seq<char>, Seq<char>, Seq<char>)>)
    requires
        plain_commands(cmds),
    ensures
        scan_from(initial_scan(), command_lines(cmds)) == Ok::<ScanState, CommandError>(
            between_lines(parsed_command_lines(cmds), cmds.len() > 0),
        ),
    decreases cmds.len(),
{
    if cmds.len() == 0 {
        assert(initial_scan() == between_lines(seq![], false));
    } else {
        let before = cmds.drop_last();
        assert forall|k: int| 0 <= k < before.len() implies plain_command(
            #[trigger] before[k].0,
            before[k].1,
            before[k].2,
        ) by {
            assert(before[k] == cmds[k]);
        }
        lemma_scan_command_lines(before);
        let last = cmds[cmds.len() - 1];
        assert(last == cmds.last());
        lemma_scan_append(initial_scan(), command_lines(before), command_line(last.0, last.1, last.2));
        lemma_scan_command_line(parsed_command_lines(before), before.len() > 0, last.0, last.1, last.2);
    }
}

/// A script made of command lines — each `$`, a type, a space, a name, then
/// (when there are parameters) a space and the parameters, and a newline —
/// holds exactly those commands, in order, with their parameters, when every
/// type and name is free of spaces, newlines and `{`, every name of `$`, and
/// all parameters of newlines and `{`.
pub proof fn lemma_command_lines_script(cmds: Seq<(Seq<char>, Seq<char>, Seq<char>)>)
    requires
        cmds.len() > 0,
        plain_commands(cmds),
    ensures
        script_commands(command_lines(cmds)) == Ok::<Seq<Seq<char>>, CommandError>(
            parsed_command_lines(cmds),
        ),
{
    lemma_scan_command_lines(cmds);
}

/// A script that is a single command line holds that one command, with no
/// parameters, when its type and name are free of spaces, newlines and `{`
/// and its name of `$`; looking up the commands of that type finds its name.
pub proof fn lemma_single_line_script(ty: Seq<char>, name: Seq<char>)
    requires
        plain_part(ty),
        plain_part(name),
        !name.contains('$'),
    ensures
        script_commands(command_line(ty, name, seq![])) == Ok::<Seq<Seq<char>>, CommandError>(
            seq![ty, name, seq![]],
        ),
        last_name_of_type(seq![ty, name, seq![]], ty) == Ok::<Seq<char>, CommandError>(name),
{
    let cmds = seq![(ty, name, Seq::<char>::empty())];
    assert(plain_commands(cmds));
    lemma_command_lines_script(cmds);
    assert(cmds.drop_last() =~= Seq::<(Seq<char>, Seq<char>, Seq<char>)>::empty());
    assert(cmds.last() == (ty, name, Seq::<char>::empty()));
    assert(command_lines(cmds.drop_last()) == Seq::<char>::empty());
    assert(parsed_command_lines(cmds.drop_last()) == Seq::<Seq<char>>::empty());
    assert(command_lines(cmds) =~= command_line(ty, name, seq![]));
    assert(parsed_command_lines(cmds) =~= seq![ty, name, seq![]]);
    let found = seq![ty, name, Seq::<char>::empty()];
    assert(matching_from(found, ty, 0) =~= seq![name, Seq::<char>::empty()]);
}

/// The scan only ever adds whole commands.
proof fn lemma_scan_threes(st: ScanState, t: Seq<char>)
    requires
        st.parsed.len() % 3 == 0,
    ensures
        scan_from(st, t) matches Ok(end) ==> end.parsed.len() % 3 == 0,
    decreases t.len(),
{
    if t.len() > 0 {
        lemma_scan_threes(st, t.drop_last());
    }
}

/// The commands read out of a script come in threes: type, name and
/// parameters.
pub proof fn lemma_script_commands_in_threes(text: Seq<char>)
    ensures
        script_commands(text) matches Ok(cmds) ==> cmds.len() % 3 == 0,
{
    lemma_scan_threes(initial_scan(), text);
}

// ---------------------------------------------------------------------------
// Looking commands up
// ---------------------------------------------------------------------------

proof fn lemma_matching_shift(a: Seq<Seq<char>>, b: Seq<Seq<char>>, ty: Seq<char>, k: int)
    requires
        0 <= k,
    ensures
        matching_from(a + b, ty, a.len() + k) == matching_from(b, ty, k),
    decreases b.len() - k,
{
    let ab = a + b;
    if k < b.len() {
        let end = if k + 3 <= b.len() {
            k + 3
        } else {
            b.len() as int
        };
        assert(ab[a.len() + k] == b[k]);
        assert(ab.subrange(a.len() + k + 1, a.len() + end) =~= b.subrange(k + 1, end));
        if k + 3 < b.len() {
            lemma_matching_shift(a, b, ty, k + 3);
        }
    }
}

proof fn lemma_matching_split(a: Seq<Seq<char>>, b: Seq<Seq<char>>, ty: Seq<char>, s: int)
    requires
        0 <= s <= a.len(),
        s % 3 == 0,
        a.len() % 3 == 0,
    ensures
        matching_from(a + b, ty, s) == matching_from(a, ty, s) + matching_from(b, ty, 0),
    decreases a.len() - s,
{
    let ab = a + b;
    if s == a.len() {
        lemma_matching_shift(a, b, ty, 0);
        assert(matching_from(a, ty, s) =~= Seq::<Seq<char>>::empty());
        assert(matching_from(a, ty, s) + matching_from(b, ty, 0) =~= matching_from(b, ty, 0));
    } else {
        assert(s + 3 <= a.len());
        assert(ab[s] == a[s]);
        assert(ab.subrange(s + 1, s + 3) =~= a.subrange(s + 1, s + 3));
        lemma_matching_split(a, b, ty, s + 3);
        if s + 3 < a.len() {
        } else {
            lemma_matching_shift(a, b, ty, 0);
            if b.len() == 0 {
                assert(matching_from(b, ty, 0) =~= Seq::<Seq<char>>::empty());
            }
        }
        let g = if a[s] == ty {
            a.subrange(s + 1, s + 3)
        } else {
            seq![]
        };
        assert(g + matching_from(a, ty, s + 3) + matching_from(b, ty, 0) =~= g + (matching_from(a, ty, s + 3)
            + matching_from(b, ty, 0)));
        if s + 3 == a.len() && b.len() == 0 {
            assert(matching_from(a, ty, s + 3) =~= Seq::<Seq<char>>::empty());
        }
    }
}

/// Looking commands up in two lists of whole commands, one after the other,
/// finds what each lookup finds, in order.
pub proof fn lemma_commands_of_type_append(a: Seq<Seq<char>>, b: Seq<Seq<char>>, ty: Seq<char>)
    requires
        a.len() % 3 == 0,
    ensures
        commands_of_type(a + b, ty) == commands_of_type(a, ty) + commands_of_type(b, ty),
{
    lemma_matching_split(a, b, ty, 0);
}

/// The names and parameters of the commands of `cmds` whose type is `ty`.
pub open spec fn lines_of_type(cmds: Seq<(Seq<char>, Seq<char>, Seq<char>)>, ty: Seq<char>) -> Seq<
    Seq<char>,
>
    decreases cmds.len(),
{
    if cmds.len() == 0 {
        seq![]
    } else {
        lines_of_type(cmds.drop_last(), ty) + if cmds.last().0 == ty {
            seq![cmds.last().1, cmds.last().2]
        } else {
            seq![]
        }
    }
}

/// The name of the last command of `cmds` whose type is `ty`.
pub open spec fn last_name_in_lines(cmds: Seq<(Seq<char>, Seq<char>, Seq<char>)>, ty: Seq<char>) -> Option<
    Seq<char>,
>
    decreases cmds.len(),
{
    if cmds.len() == 0 {
        None
    } else if cmds.last().0 == ty {
        Some(cmds.last().1)
    } else {
        last_name_in_lines(cmds.drop_last(), ty)
    }
}

proof fn lemma_lookup_command_lines(cmds: Seq<(Seq<char>, Seq<char>, Seq<char>)>, ty: Seq<char>)
    ensures
        parsed_command_lines(cmds).len() == 3 * cmds.len(),
        commands_of_type(parsed_command_lines(cmds), ty) == lines_of_type(cmds, ty),
        lines_of_type(cmds, ty).len() % 2 == 0,
        match last_name_in_lines(cmds, ty) {
            Some(n) => lines_of_type(cmds, ty).len() >= 2 && lines_of_type(cmds, ty)[lines_of_type(cmds, ty).len() - 2] == n,
            None => lines_of_type(cmds, ty).len() == 0,
        },
    decreases cmds.len(),
{
    if cmds.len() > 0 {
        let before = cmds.drop_last();
        lemma_lookup_command_lines(before, ty);
        let line = seq![cmds.last().0, cmds.last().1, cmds.last().2];
        lemma_commands_of_type_append(parsed_command_lines(before), line, ty);
        assert(line.subrange(1, 3) =~= seq![cmds.last().1, cmds.last().2]);
        assert(matching_from(line, ty, 0) =~= if cmds.last().0 == ty {
            seq![cmds.last().1, cmds.last().2]
        } else {
            seq![]
        });
    } else {
        assert(matching_from(Seq::<Seq<char>>::empty(), ty, 0) =~= Seq::<Seq<char>>::empty());
    }
}

/// In a script made of command lines (as `lemma_command_lines_script`
/// describes), the name that a getter looks up for a command type is the
/// name of the last command line of that type; with no line of that type,
/// the lookup fails with `NoMatchingCommands`.
pub proof fn lemma_command_lines_lookup(cmds: Seq<(Seq<char>, Seq<char>, Seq<char>)>, ty: Seq<char>)
    requires
        cmds.len() > 0,
        plain_commands(cmds),
    ensures
        script_commands(command_lines(cmds)) == Ok::<Seq<Seq<char>>, CommandError>(
            parsed_command_lines(cmds),
        ),
        commands_of_type(parsed_command_lines(cmds), ty).len() != 1,
        last_name_of_type(parsed_command_lines(cmds), ty) == match last_name_in_lines(cmds, ty) {
            Some(n) => Ok::<Seq<char>, CommandError>(n),
            None => Err(CommandError::NoMatchingCommands),
        },
{
    lemma_command_lines_script(cmds);
    lemma_lookup_command_lines(cmds, ty);
}

// ---------------------------------------------------------------------------
// Scripts of any command lines
// ---------------------------------------------------------------------------

/// Whether every line text of `cs` is free of newlines and `{`.
pub open spec fn line_texts(cs: Seq<Seq<char>>) -> bool {
    forall|k: int| 0 <= k < cs.len() ==> !(#[trigger] cs[k]).contains('\n') && !cs[k].contains('{')
}

/// The script made of one line per text `c` of `cs`: `$`, `c`, a newline.
pub open spec fn raw_lines(cs: Seq<Seq<char>>) -> Seq<char>
    decreases cs.len(),
{
    if cs.len() == 0 {
        seq![]
    } else {
        raw_lines(cs.drop_last()) + (seq!['$'] + cs.last() + seq!['\n'])
    }
}

/// The commands that the line texts `cs` read as, in order, or the error of
/// the first that cannot be read.
pub open spec fn raw_lines_commands(cs: Seq<Seq<char>>) -> Result<Seq<Seq<char>>, CommandError>
    decreases cs.len(),
{
    if cs.len() == 0 {
        Ok(seq![])
    } else {
        match raw_lines_commands(cs.drop_last()) {
            Ok(p) => match single_command_parts(cs.last()) {
                Ok((a, b, q)) => Ok(p + seq![a, b, q]),
                Err(e) => Err(e),
            },
            Err(e) => Err(e),
        }
    }
}

proof fn lemma_scan_raw_lines(cs: Seq<Seq<char>>)
    requires
        line_texts(cs),
    ensures
        scan_from(initial_scan(), raw_lines(cs)) == match raw_lines_commands(cs) {
            Ok(p) => Ok::<ScanState, CommandError>(between_lines(p, cs.len() > 0)),
            Err(e) => Err(e),
        },
    decreases cs.len(),
{
    if cs.len() == 0 {
        assert(initial_scan() == between_lines(seq![], false));
    } else {
        let before = cs.drop_last();
        assert forall|k: int| 0 <= k < before.len() implies !(#[trigger] before[k]).contains('\n')
            && !before[k].contains('{') by {
            assert(before[k] == cs[k]);
        }
        lemma_scan_raw_lines(before);
        let c = cs.last();
        assert(c == cs[cs.len() - 1]);
        lemma_scan_append(initial_scan(), raw_lines(before), seq!['$'] + c + seq!['\n']);
        match raw_lines_commands(before) {
            Ok(p) => {
                lemma_scan_raw_line(p, before.len() > 0, c);
            },
            Err(e) => {},
        }
    }
}

/// A script made of lines `$` + `c` + newline, each `c` free of newlines and
/// `{`, holds the commands that its lines read as, in order; it fails as
/// the first line that cannot be read fails.
pub proof fn lemma_raw_lines_script(cs: Seq<Seq<char>>)
    requires
        cs.len() > 0,
        line_texts(cs),
    ensures
        script_commands(raw_lines(cs)) == raw_lines_commands(cs),
{
    lemma_scan_raw_lines(cs);
}

proof fn lemma_raw_lines_append(cs1: Seq<Seq<char>>, cs2: Seq<Seq<char>>)
    ensures
        raw_lines(cs1 + cs2) == raw_lines(cs1) + raw_lines(cs2),
        raw_lines_commands(cs1 + cs2) == match raw_lines_commands(cs1) {
            Ok(x) => match raw_lines_commands(cs2) {
                Ok(y) => Ok(x + y),
                Err(e) => Err(e),
            },
            Err(e) => Err(e),
        },
    decreases cs2.len(),
{
    if cs2.len() == 0 {
        assert(cs1 + cs2 =~= cs1);
        assert(raw_lines(cs1) + raw_lines(cs2) =~= raw_lines(cs1));
        if let Ok(x) = raw_lines_commands(cs1) {
            assert(x + Seq::<Seq<char>>::empty() =~= x);
        }
    } else {
        let both = cs1 + cs2;
        assert(both.drop_last() =~= cs1 + cs2.drop_last());
        assert(both.last() == cs2.last());
        lemma_raw_lines_append(cs1, cs2.drop_last());
        let c = cs2.last();
        assert(raw_lines(cs1) + raw_lines(cs2.drop_last()) + (seq!['$'] + c + seq!['\n']) =~= raw_lines(
            cs1,
        ) + (raw_lines(cs2.drop_last()) + (seq!['$'] + c + seq!['\n'])));
        if let Ok(x) = raw_lines_commands(cs1) {
            if let Ok(y) = raw_lines_commands(cs2.drop_last()) {
                if let Ok((a, b, q)) = single_command_parts(c) {
                    assert(x + y + seq![a, b, q] =~= x + (y + seq![a, b, q]));
                }
            }
        }
    }
}

/// Two scripts, each made of one or more lines `$` + `c` + newline with
/// every `c` free of newlines and `{`, read one after the other: the
/// commands of the first, then those of the second; or the error of the
/// first script that fails.
pub proof fn lemma_script_concatenation(cs1: Seq<Seq<char>>, cs2: Seq<Seq<char>>)
    requires
        cs1.len() > 0,
        cs2.len() > 0,
        line_texts(cs1),
        line_texts(cs2),
    ensures
        script_commands(raw_lines(cs1) + raw_lines(cs2)) == match script_commands(raw_lines(cs1)) {
            Ok(x) => match script_commands(raw_lines(cs2)) {
                Ok(y) => Ok(x + y),
                Err(e) => Err(e),
            },
            Err(e) => Err(e),
        },
{
    lemma_raw_lines_append(cs1, cs2);
    let both = cs1 + cs2;
    assert forall|k: int| 0 <= k < both.len() implies !(#[trigger] both[k]).contains('\n')
        && !both[k].contains('{') by {
        if k < cs1.len() {
            assert(both[k] == cs1[k]);
        } else {
            assert(both[k] == cs2[k - cs1.len()]);
        }
    }
    lemma_raw_lines_script(cs1);
    lemma_raw_lines_script(cs2);
    lemma_raw_lines_script(both);
}

// ---------------------------------------------------------------------------
// Script blocks
// ---------------------------------------------------------------------------

/// In a script block, characters free of quotes are taken into the script
/// as they are, newlines and `{` included; so is `}`, while a quote is open.
proof fn lemma_scan_script_chars(st: ScanState, t: Seq<char>)
    requires
        st.reading_script,
        !t.contains('"'),
        !t.contains('\''),
        st.bracket_ends_script ==> !t.contains('}'),
    ensures
        scan_from(st, t) == Ok::<ScanState, CommandError>(ScanState { script: st.script + t, ..st }),
    decreases t.len(),
{
    if t.len() == 0 {
        assert(st.script + t =~= st.script);
    } else {
        let shorter = t.drop_last();
        assert forall|k: int| 0 <= k < shorter.len() implies shorter[k] != '"' && shorter[k] != '\''
            && (st.bracket_ends_script ==> shorter[k] != '}') by {
            assert(shorter[k] == t[k]);
            if shorter[k] == '"' {
                assert(t.contains('"'));
            }
            if shorter[k] == '\'' {
                assert(t.contains('\''));
            }
            if shorter[k] == '}' {
                assert(t.contains('}'));
            }
        }
        assert(!shorter.contains('"'));
        assert(!shorter.contains('\''));
        assert(st.bracket_ends_script ==> !shorter.contains('}'));
        lemma_scan_script_chars(st, shorter);
        let c = t.last();
        assert(c == t[t.len() - 1]);
        if c == '"' {
            assert(t.contains('"'));
        }
        if c == '\'' {
            assert(t.contains('\''));
        }
        if c == '}' {
            assert(t.contains('}'));
        }
        assert((st.script + shorter).push(c) =~= st.script + t);
    }
}

/// The scan after `$`, the type, a space, the name, a space and `{`: the
/// command text is read, and a script block is open.
proof fn lemma_scan_block_open(ty: Seq<char>, name: Seq<char>)
    requires
        plain_part(ty),
        plain_part(name),
        !name.contains('$'),
    ensures
        scan_from(initial_scan(), seq!['$'] + ty + seq![' '] + name + seq![' ', '{']) == Ok::<
            ScanState,
            CommandError,
        >(
            ScanState {
                current: ty + seq![' '] + name + seq![' '],
                reading_script: true,
                ..initial_scan()
            },
        ),
{
    let head = ty + seq![' '] + name + seq![' '];
    assert(plain_command(ty, name, seq![]));
    lemma_line_plain(ty, name, seq![]);
    let line = command_text(ty, name, seq![]);
    assert(line == ty + seq![' '] + name);
    assert(!head.contains('\n') && !head.contains('{')) by {
        assert forall|k: int| 0 <= k < head.len() implies head[k] != '\n' && head[k] != '{' by {
            if k < line.len() {
                assert(head[k] == line[k]);
                if head[k] == '\n' {
                    assert(line.contains('\n'));
                }
                if head[k] == '{' {
                    assert(line.contains('{'));
                }
            }
        }
    }
    let start = initial_scan();
    assert(seq!['$'] + ty + seq![' '] + name + seq![' ', '{'] =~= seq!['$'] + head + seq!['{']);
    lemma_scan_append(start, seq!['$'] + head, seq!['{']);
    lemma_scan_append(start, seq!['$'], head);
    assert(seq!['$'].drop_last() =~= Seq::<char>::empty());
    assert(scan_from(start, Seq::<char>::empty()) == Ok::<ScanState, CommandError>(start));
    let after_dollar = ScanState { reading_line: true, ..start };
    assert(scan_from(start, seq!['$']) == Ok::<ScanState, CommandError>(after_dollar));
    lemma_scan_line_chars(after_dollar, head);
    let before_bracket = ScanState { current: after_dollar.current + head, finished_line: head.len() == 0 && after_dollar.finished_line, ..after_dollar };
    assert(after_dollar.current + head =~= head);
    assert(seq!['{'].drop_last() =~= Seq::<char>::empty());
    assert(scan_from(before_bracket, Seq::<char>::empty()) == Ok::<ScanState, CommandError>(before_bracket));
    assert(scan_from(before_bracket, seq!['{']) == scan_step(before_bracket, '{'));
}

/// The scan of a whole script block `$ty name {s}` whose script `s` the
/// block scan takes in as it is.
proof fn lemma_scan_block(ty: Seq<char>, name: Seq<char>, s: Seq<char>)
    requires
        plain_part(ty),
        plain_part(name),
        !name.contains('$'),
        ({
            let open = ScanState {
                current: ty + seq![' '] + name + seq![' '],
                reading_script: true,
                ..initial_scan()
            };
            scan_from(open, s) == Ok::<ScanState, CommandError>(ScanState { script: s, ..open })
        }),
    ensures
        script_commands(seq!['$'] + ty + seq![' '] + name + seq![' ', '{'] + s + seq!['}']) == Ok::<
            Seq<Seq<char>>,
            CommandError,
        >(seq![ty, name, s]),
{
    let open_text = seq!['$'] + ty + seq![' '] + name + seq![' ', '{'];
    let head = ty + seq![' '] + name + seq![' '];
    let open = ScanState { current: head, reading_script: true, ..initial_scan() };
    lemma_scan_block_open(ty, name);
    lemma_scan_append(initial_scan(), open_text + s, seq!['}']);
    lemma_scan_append(initial_scan(), open_text, s);
    let closing = ScanState { script: s, ..open };
    assert(seq!['}'].drop_last() =~= Seq::<char>::empty());
    assert(scan_from(closing, Seq::<char>::empty()) == Ok::<ScanState, CommandError>(closing));
    assert(scan_from(closing, seq!['}']) == scan_step(closing, '}'));
    lemma_single_command_roundtrip(ty, name, seq![]);
    assert(ty + seq![' '] + name + seq![' '] + Seq::<char>::empty() =~= head);
    assert(Seq::<Seq<char>>::empty() + seq![ty, name, s] =~= seq![ty, name, s]);
}

/// Inside a `{ ... }` script block every character up to the closing `}` is
/// kept, in order, newlines and `{` included: `$ty name {s}`, with a type and
/// name free of spaces, newlines and `{`, a name free of `$`, and a script
/// free of `}` and of quotes, reads as the one command `[ty, name, s]`.
pub proof fn lemma_script_block_kept(ty: Seq<char>, name: Seq<char>, s: Seq<char>)
    requires
        plain_part(ty),
        plain_part(name),
        !name.contains('$'),
        !s.contains('}'),
        !s.contains('"'),
        !s.contains('\''),
    ensures
        script_commands(seq!['$'] + ty + seq![' '] + name + seq![' ', '{'] + s + seq!['}']) == Ok::<
            Seq<Seq<char>>,
            CommandError,
        >(seq![ty, name, s]),
{
    let open = ScanState {
        current: ty + seq![' '] + name + seq![' '],
        reading_script: true,
        ..initial_scan()
    };
    lemma_scan_script_chars(open, s);
    assert(open.script + s =~= s);
    lemma_scan_block(ty, name, s);
}

/// Inside a script block a `}` between quotes, double or single, is part of
/// the script and does not end the block: `$ty name {a q m q b}`, with `q` a
/// quote, `m` free of quotes, and `a` and `b` free of quotes and of `}`,
/// reads as the one command `[ty, name, a q m q b]`.
pub proof fn lemma_quoted_bracket_kept(
    ty: Seq<char>,
    name: Seq<char>,
    a: Seq<char>,
    q: char,
    m: Seq<char>,
    b: Seq<char>,
)
    requires
        plain_part(ty),
        plain_part(name),
        !name.contains('$'),
        q == '"' || q == '\'',
        !a.contains('}') && !a.contains('"') && !a.contains('\''),
        !m.contains('"') && !m.contains('\''),
        !b.contains('}') && !b.contains('"') && !b.contains('\''),
    ensures
        script_commands(
            seq!['$'] + ty + seq![' '] + name + seq![' ', '{'] + (a + seq![q] + m + seq![q] + b)
                + seq!['}'],
        ) == Ok::<Seq<Seq<char>>, CommandError>(seq![ty, name, a + seq![q] + m + seq![q] + b]),
{
    let s = a + seq![q] + m + seq![q] + b;
    let open = ScanState {
        current: ty + seq![' '] + name + seq![' '],
        reading_script: true,
        ..initial_scan()
    };
    // a
    lemma_scan_script_chars(open, a);
    let st1 = ScanState { script: open.script + a, ..open };
    // the opening quote
    assert(seq![q].drop_last() =~= Seq::<char>::empty());
    assert(scan_from(st1, Seq::<char>::empty()) == Ok::<ScanState, CommandError>(st1));
    assert(scan_from(st1, seq![q]) == scan_step(st1, q));
    let st2 = ScanState { script: st1.script.push(q), bracket_ends_script: false, ..st1 };
    assert(scan_from(st1, seq![q]) == Ok::<ScanState, CommandError>(st2));
    // m
    lemma_scan_script_chars(st2, m);
    let st3 = ScanState { script: st2.script + m, ..st2 };
    // the closing quote
    assert(scan_from(st3, Seq::<char>::empty()) == Ok::<ScanState, CommandError>(st3));
    assert(scan_from(st3, seq![q]) == scan_step(st3, q));
    let st4 = ScanState { script: st3.script.push(q), bracket_ends_script: true, ..st3 };
    assert(scan_from(st3, seq![q]) == Ok::<ScanState, CommandError>(st4));
    // b
    lemma_scan_script_chars(st4, b);
    let st5 = ScanState { script: st4.script + b, ..st4 };
    lemma_scan_append(open, a, seq![q]);
    lemma_scan_append(open, a + seq![q], m);
    lemma_scan_append(open, a + seq![q] + m, seq![q]);
    lemma_scan_append(open, a + seq![q] + m + seq![q], b);
    assert(st5.script =~= s);
    assert(st5 == ScanState { script: s, ..open });
    lemma_scan_block(ty, name, s);
}

// ---------------------------------------------------------------------------
// The last command of a type
// ---------------------------------------------------------------------------

/// The last command of a type, in a list of whole commands that ends with
/// one of that type, is the name and the parameters stored for that one, as
/// they are: its name is what the getters give, and its parameters (a
/// script's whole text, lines and all) what `get_external_script` gives.
pub proof fn lemma_last_command_is_stored(
    c: Seq<Seq<char>>,
    ty: Seq<char>,
    name: Seq<char>,
    params: Seq<char>,
)
    requires
        c.len() % 3 == 0,
    ensures
        commands_of_type(c + seq![ty, name, params], ty).len() >= 2,
        last_pair(commands_of_type(c + seq![ty, name, params], ty)) == (name, params),
        last_name_of_type(c + seq![ty, name, params], ty) == Ok::<Seq<char>, CommandError>(name),
{
    let line = seq![ty, name, params];
    lemma_commands_of_type_append(c, line, ty);
    assert(line.subrange(1, 3) =~= seq![name, params]);
    assert(matching_from(line, ty, 0) =~= seq![name, params]);
    let found = commands_of_type(c + line, ty);
    assert(found == commands_of_type(c, ty) + seq![name, params]);
    assert(found[found.len() - 2] == name);
    assert(found[found.len() - 1] == params);
}

} // verus!
