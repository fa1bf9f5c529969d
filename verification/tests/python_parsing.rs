use whiskey::whiskey_python::python_code::STARTING_PYTHON_CODE;
use whiskey::whiskey_python::whiskey_python_parsing::{
    combine_starting_script_with, convert_byte_order, get_byte_order, get_exe_path,
    get_external_script, get_last_command_used, get_process_name, get_process_timeout, get_user,
    get_whiskey_command, get_whiskey_commands, parse_single_whiskey_command,
    parse_whiskey_commands,
};
use whiskey::whiskey_python::init_whiskey_python::define_compiled_files_struct;
use whiskey::whiskey_python::CommandError;
use whiskey::error_kind::ErrorKind;

fn strings(items: &[&str]) -> Vec<String> {
    items.iter().map(|s| s.to_string()).collect()
}

#[test]
fn single_command_with_name() {
    let parts = parse_single_whiskey_command("set_user tony").unwrap();
    assert_eq!(parts, ["set_user".to_string(), "tony".to_string(), String::new()]);
}

#[test]
fn single_command_with_parameters() {
    let parts = parse_single_whiskey_command("set_user tony and more").unwrap();
    assert_eq!(parts, ["set_user".to_string(), "tony".to_string(), "and more".to_string()]);
}

#[test]
fn single_command_trailing_space() {
    let parts = parse_single_whiskey_command("set_user tony ").unwrap();
    assert_eq!(parts, ["set_user".to_string(), "tony".to_string(), String::new()]);
}

#[test]
fn single_command_without_space_has_no_name() {
    let err = parse_single_whiskey_command("set_user").unwrap_err();
    assert_eq!(err, CommandError::NoCommandName);
    assert_eq!(err.message(), "whiskey command not properly structured (no command name)");
    assert_eq!(err.kind(), ErrorKind::InvalidData);
}

#[test]
fn single_command_dollar_in_name_is_refused() {
    assert_eq!(parse_single_whiskey_command("set_user to$ny x"), Err(CommandError::InvalidSymbol));
    assert_eq!(CommandError::InvalidSymbol.message(), "invalid symbol in whiskey command");
}

#[test]
fn single_command_dollar_in_type_or_parameters_is_kept() {
    let parts = parse_single_whiskey_command("a$ b c$d").unwrap();
    assert_eq!(parts, ["a$".to_string(), "b".to_string(), "c$d".to_string()]);
}

#[test]
fn script_single_line() {
    let parsed = parse_whiskey_commands("$set_user tony\n").unwrap();
    assert_eq!(parsed, strings(&["set_user", "tony", ""]));
}

#[test]
fn script_text_before_commands_is_ignored() {
    let parsed = parse_whiskey_commands("hello there\n$set_user tony\nprint(1)").unwrap();
    assert_eq!(parsed, strings(&["set_user", "tony", ""]));
}

#[test]
fn script_last_line_without_newline() {
    let parsed = parse_whiskey_commands("$set_byte_order little_endian").unwrap();
    assert_eq!(parsed, strings(&["set_byte_order", "little_endian", ""]));
}

#[test]
fn script_several_lines() {
    let parsed = parse_whiskey_commands("$set_user tony\n$set_exe_path /home/tony/game.exe\n").unwrap();
    assert_eq!(
        parsed,
        strings(&["set_user", "tony", "", "set_exe_path", "/home/tony/game.exe", ""])
    );
}

#[test]
fn script_block_with_quoted_bracket() {
    let parsed = parse_whiskey_commands("$set_external_script main {print('}')}").unwrap();
    assert_eq!(parsed, strings(&["set_external_script", "main", "print('}')"]));
}

#[test]
fn script_block_then_next_line() {
    let parsed = parse_whiskey_commands("$set_external_script s {x}\n$set_user tony\n").unwrap();
    assert_eq!(parsed, strings(&["set_external_script", "s", "x", "set_user", "tony", ""]));
    let parsed = parse_whiskey_commands("$set_external_script s {x=1}\n$set_user bob\n").unwrap();
    assert_eq!(parsed, strings(&["set_external_script", "s", "x=1", "set_user", "bob", ""]));
}

#[test]
fn script_empty_text_is_refused() {
    assert_eq!(parse_whiskey_commands(""), Err(CommandError::NoCommandName));
}

#[test]
fn script_invalid_symbol_is_refused() {
    assert_eq!(parse_whiskey_commands("$set_user to$ny\n"), Err(CommandError::InvalidSymbol));
}

#[test]
fn script_commands_come_in_threes() {
    let parsed = parse_whiskey_commands("$a b\n$c d e f\n$g h {i}").unwrap();
    assert_eq!(parsed.len() % 3, 0);
    assert_eq!(parsed, strings(&["a", "b", "", "c", "d", "e f", "g", "h", "i"]));
}

#[test]
fn commands_of_a_type() {
    let cmds = strings(&["set_user", "tony", "", "set_exe_path", "/x.exe", "", "set_user", "alice", ""]);
    let found = get_whiskey_commands(&cmds, "set_user").unwrap();
    assert_eq!(found, strings(&["tony", "", "alice", ""]));
}

#[test]
fn commands_of_a_missing_type() {
    let cmds = strings(&["set_user", "tony", ""]);
    let err = get_whiskey_commands(&cmds, "set_exe_path").unwrap_err();
    assert_eq!(err, CommandError::NoMatchingCommands);
    assert_eq!(err.message(), "couldnt find any matching commands");
}

#[test]
fn commands_of_a_type_in_a_short_last_group() {
    let cmds = strings(&["set_user", "tony", "", "set_user", "alice"]);
    let found = get_whiskey_commands(&cmds, "set_user").unwrap();
    assert_eq!(found, strings(&["tony", "", "alice"]));
}

#[test]
fn last_command_used() {
    let cmds = strings(&["set_user", "tony", "", "set_user", "alice", "p"]);
    let last = get_last_command_used(&cmds, "set_user").unwrap();
    assert_eq!(last, ["alice".to_string(), "p".to_string()]);
}

#[test]
fn command_by_pointer() {
    let cmds = strings(&["t", "a", "1", "t", "b", "2", "t", "c", "3"]);
    assert_eq!(get_whiskey_command(&cmds, "t", 0).unwrap(), ["a".to_string(), "1".to_string()]);
    assert_eq!(get_whiskey_command(&cmds, "t", 1).unwrap(), ["b".to_string(), "2".to_string()]);
    assert_eq!(get_whiskey_command(&cmds, "t", 2).unwrap(), ["c".to_string(), "3".to_string()]);
    let err = get_whiskey_command(&cmds, "t", 3).unwrap_err();
    assert_eq!(err, CommandError::CommandPointerOutOfRange);
    assert_eq!(err.kind(), ErrorKind::InvalidInput);
    assert_eq!(get_whiskey_command(&cmds, "u", 0), Err(CommandError::NoMatchingCommands));
    let users = strings(&["set_user", "a", "1", "set_user", "b", "2"]);
    assert_eq!(get_whiskey_command(&users, "set_user", 1).unwrap(), ["b".to_string(), "2".to_string()]);
    assert_eq!(
        get_whiskey_command(&users, "set_user", usize::MAX),
        Err(CommandError::CommandPointerOutOfRange)
    );
}

#[test]
fn getters_take_the_last_name() {
    let script = "$set_user tony\n$set_byte_order big_endian\n$set_exe_path /a/b.exe\n\
$set_process_name b.exe\n$set_process_timeout 30\n$set_user alice\n\
$set_external_script s {print(1)}";
    let cmds = parse_whiskey_commands(script).unwrap();
    assert_eq!(get_user(&cmds).unwrap(), "alice");
    assert_eq!(get_byte_order(&cmds).unwrap(), "big_endian");
    assert_eq!(get_exe_path(&cmds).unwrap(), "/a/b.exe");
    assert_eq!(get_process_name(&cmds).unwrap(), "b.exe");
    assert_eq!(get_process_timeout(&cmds).unwrap(), "30");
    assert_eq!(get_external_script(&cmds).unwrap(), "print(1)");
}

#[test]
fn getter_without_command() {
    let cmds = parse_whiskey_commands("$set_user tony\n").unwrap();
    assert_eq!(get_exe_path(&cmds), Err(CommandError::NoMatchingCommands));
}

#[test]
fn byte_order_names() {
    assert_eq!(convert_byte_order("little_endian"), Ok(0));
    assert_eq!(convert_byte_order("big_endian"), Ok(1));
    let err = convert_byte_order("middle_endian").unwrap_err();
    assert_eq!(err, CommandError::InvalidByteOrder);
    assert_eq!(err.message(), "invalid byte order");
}

#[test]
fn starting_script_is_prepended() {
    let combined = combine_starting_script_with("print(1)");
    assert_eq!(combined, format!("{}\n#-----\n{}", STARTING_PYTHON_CODE, "print(1)"));
    assert!(combined.starts_with("\nglobal handle_possible_error"));
}

#[test]
fn compiled_files_struct() {
    let compiled = define_compiled_files_struct("/tmp/x", "print(2)");
    assert_eq!(compiled.path, "/tmp/x");
    assert_eq!(compiled.internal_script, format!("{}\n#-----\nprint(2)", STARTING_PYTHON_CODE));
}

#[test]
fn lookups_of_joined_scripts_join() {
    let first = parse_whiskey_commands("$set_user tony\n$set_exe_path /a.exe\n").unwrap();
    let second = parse_whiskey_commands("$set_user alice\n").unwrap();
    let mut joined = first.clone();
    joined.extend(second.clone());
    let mut expected = get_whiskey_commands(&first, "set_user").unwrap();
    expected.extend(get_whiskey_commands(&second, "set_user").unwrap());
    assert_eq!(get_whiskey_commands(&joined, "set_user").unwrap(), expected);
}

#[test]
fn single_command_round_trip() {
    let parts = parse_single_whiskey_command("set_exe_path /g/a.exe extra words").unwrap();
    assert_eq!(format!("{} {} {}", parts[0], parts[1], parts[2]), "set_exe_path /g/a.exe extra words");
}

#[test]
fn command_lines_with_parameters_read_back() {
    let script = "$set_user tony\n$set_process_timeout 30 extra $words\n$set_user alice p\n";
    let parsed = parse_whiskey_commands(script).unwrap();
    assert_eq!(
        parsed,
        strings(&[
            "set_user", "tony", "",
            "set_process_timeout", "30", "extra $words",
            "set_user", "alice", "p",
        ])
    );
    assert_eq!(get_user(&parsed).unwrap(), "alice");
}

#[test]
fn last_command_with_one_entry_is_out_of_range() {
    let cmds = strings(&["set_user", "tony"]);
    let err = get_last_command_used(&cmds, "set_user").unwrap_err();
    assert_eq!(err, CommandError::CommandPointerOutOfRange);
    assert_eq!(err.kind(), ErrorKind::InvalidInput);
    assert_eq!(get_user(&cmds), Err(CommandError::CommandPointerOutOfRange));
    let scripts = strings(&["set_external_script", "s"]);
    assert_eq!(get_external_script(&scripts), Err(CommandError::CommandPointerOutOfRange));
}

#[test]
fn joined_scripts_read_as_joined_commands() {
    let a = "$set_user tony \n$set_external_script s x = $y\n";
    let b = "$set_process_name b.exe\n$set_user bob\n";
    let mut expected = parse_whiskey_commands(a).unwrap();
    expected.extend(parse_whiskey_commands(b).unwrap());
    let joined = format!("{}{}", a, b);
    assert_eq!(parse_whiskey_commands(&joined).unwrap(), expected);
    assert_eq!(
        expected,
        strings(&[
            "set_user", "tony", "",
            "set_external_script", "s", "x = $y",
            "set_process_name", "b.exe", "",
            "set_user", "bob", "",
        ])
    );
    let bad = "$set_user\n";
    assert_eq!(parse_whiskey_commands(&format!("{}{}", a, bad)), parse_whiskey_commands(bad));
}
