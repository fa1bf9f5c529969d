use whiskey::whiskey_wine_api::general_functions::{
    construct_shell_wine_start_file, get_end_of_path, get_file_extension,
    get_file_extension_notflipped, get_pid_from_string, try_get_pid_from_string,
};
use whiskey::whiskey_wine_api::paths_json::{
    check_if_exe_path_in_json_text, check_if_key_in_json_text,
    check_if_process_timeout_in_json_text, exe_path_json_text,
    get_exe_path_from_paths_json_text, get_process_timeout_from_paths_json_text,
    get_user_from_paths_json_text, json_field, paths_json_text, process_timeout_json_text,
    updated_paths_json_text, user_json_text, JsonField,
};
use whiskey::decimal::usize_to_decimal_text;
use whiskey::whiskey_wine_api::processes::{
    check_exe_extension, check_exe_path_status, check_reusable_dir, defined_process,
    find_pid_by_name, name_is_running, pid_is_running, process_files_reusable,
    reusable_process_from_paths_json,
};
use whiskey::whiskey_wine_api::{WindowsProcess, WineError};
use whiskey::error_kind::ErrorKind;

#[test]
fn shell_script_for_root() {
    let script = construct_shell_wine_start_file("/g/a.exe", "root");
    assert_eq!(
        script,
        "#!/bin/bash\nVK_ICD_FILENAMES=/usr/share/vulkan/icd.d/intel_icd.x86_64.json\necho $USER\n export DISPLAY=:0\necho $DISPLAY \nwine start /unix /g/a.exe"
    );
}

#[test]
fn shell_script_for_user() {
    let script = construct_shell_wine_start_file("/g/a.exe", "bob");
    assert_eq!(
        script,
        "#!/bin/bash\nrunuser -u bob -- bash -c 'source /home/bob/.bashrc;source /home/tony/.profile printenv; wine start /unix /g/a.exe'"
    );
}

#[test]
fn file_extension() {
    assert_eq!(get_file_extension("game.exe").unwrap(), "exe");
    assert_eq!(get_file_extension("archive.tar.gz").unwrap(), "gz");
    let err = get_file_extension("name.").unwrap_err();
    assert_eq!(err, WineError::NoFileExtension);
    assert_eq!(err.kind(), ErrorKind::InvalidData);
}

#[test]
fn file_extension_not_flipped() {
    assert_eq!(get_file_extension_notflipped("a.abc").unwrap(), "cba");
    assert_eq!(get_file_extension_notflipped("/g/game.exe").unwrap(), "exe");
    assert_eq!(get_file_extension_notflipped("a."), Err(WineError::NoFileExtension));
}

#[test]
fn end_of_path() {
    assert_eq!(get_end_of_path("/a/b/game.exe"), "game.exe");
    assert_eq!(get_end_of_path("C:\\x\\y.exe"), "y.exe");
    assert_eq!(get_end_of_path("game.exe"), "game.exe");
    assert_eq!(get_end_of_path("/a/"), "");
}

#[test]
fn pid_after_key() {
    assert_eq!(get_pid_from_string("PID{1234}"), Ok(1234));
    assert_eq!(get_pid_from_string("xxPxxIxxDxx{42 rest"), Ok(42));
    assert_eq!(get_pid_from_string("PID{007"), Ok(7));
    assert_eq!(get_pid_from_string("wine: PID{4242} started"), Ok(4242));
}

#[test]
fn pid_key_missing() {
    let err = get_pid_from_string("no key here").unwrap_err();
    assert_eq!(err, WineError::PidKeyNotFound);
    assert_eq!(err.kind(), ErrorKind::NotFound);
    assert_eq!(err.message(), "pid key not inside string");
}

#[test]
fn pid_unreadable() {
    assert_eq!(try_get_pid_from_string("PID{}"), None);
    assert_eq!(try_get_pid_from_string("PID{\u{0661}\u{0662}}"), None);
    assert_eq!(try_get_pid_from_string("I only"), None);
    assert_eq!(try_get_pid_from_string("PID{5}"), Some(Ok(5)));
    assert_eq!(try_get_pid_from_string("none"), Some(Err(WineError::PidKeyNotFound)));
}

#[test]
fn json_fields() {
    let text = r#"{"EXE_PATH":"/g/a.exe","USER":5}"#;
    assert_eq!(json_field(text, "EXE_PATH"), Ok(JsonField::Text("/g/a.exe".to_string())));
    assert_eq!(json_field(text, "USER"), Ok(JsonField::NotText));
    assert_eq!(json_field(text, "PROCESS_TIMEOUT"), Ok(JsonField::Missing));
    assert_eq!(json_field("not json", "USER"), Err(WineError::InvalidJson));
    assert_eq!(json_field("[1, 2]", "USER"), Ok(JsonField::Missing));
}

#[test]
fn json_keys_present() {
    let text = r#"{"USER":"tony"}"#;
    assert_eq!(check_if_exe_path_in_json_text(text), Ok(false));
    assert_eq!(check_if_key_in_json_text(text, "USER"), Ok(true));
    assert_eq!(check_if_process_timeout_in_json_text(r#"{"PROCESS_TIMEOUT":1}"#), Ok(true));
}

#[test]
fn json_strings() {
    let text = r#"{"EXE_PATH":"/g/a.exe","USER":["x"]}"#;
    assert_eq!(get_exe_path_from_paths_json_text(text).unwrap(), "/g/a.exe");
    let err = get_user_from_paths_json_text(text).unwrap_err();
    assert_eq!(err, WineError::UserNotString);
    assert_eq!(err.message(), "USER is not a valid string");
    assert_eq!(get_exe_path_from_paths_json_text("{"), Err(WineError::JsonEnded));
    assert_eq!(get_exe_path_from_paths_json_text("{]"), Err(WineError::InvalidJson));
}

#[test]
fn json_timeout() {
    assert_eq!(get_process_timeout_from_paths_json_text(r#"{"PROCESS_TIMEOUT":"60"}"#), Some(Ok(60)));
    assert_eq!(get_process_timeout_from_paths_json_text(r#"{"PROCESS_TIMEOUT":"+7"}"#), Some(Ok(7)));
    assert_eq!(get_process_timeout_from_paths_json_text(r#"{"PROCESS_TIMEOUT":"sixty"}"#), None);
    assert_eq!(
        get_process_timeout_from_paths_json_text(r#"{"PROCESS_TIMEOUT":60}"#),
        Some(Err(WineError::ProcessTimeoutNotString))
    );
}

#[test]
fn json_written_text() {
    assert_eq!(exe_path_json_text("/g/a.exe").unwrap(), r#"{"EXE_PATH":"/g/a.exe"}"#);
    assert_eq!(user_json_text("to\"ny").unwrap(), r#"{"USER":"to\"ny"}"#);
    let written = exe_path_json_text("C:\\a \"b\".exe").unwrap();
    assert_eq!(get_exe_path_from_paths_json_text(&written).unwrap(), "C:\\a \"b\".exe");
}

#[test]
fn exe_checks() {
    assert_eq!(check_exe_path_status(true, false), Ok(()));
    assert_eq!(check_exe_path_status(false, false), Err(WineError::ExeNotFound));
    assert_eq!(check_exe_path_status(true, true), Err(WineError::ExeIsDirectory));
    assert_eq!(check_exe_extension("/g/a.exe"), Ok(()));
    assert_eq!(check_exe_extension("/g/a.txt"), Err(WineError::NotExeExtension));
    assert_eq!(check_exe_extension("/g/a."), Err(WineError::NoFileExtension));
}

#[test]
fn reusable_dir_checks() {
    assert_eq!(check_reusable_dir(true, false, true, true), Ok(()));
    assert_eq!(check_reusable_dir(false, false, true, true), Err(WineError::WineDirMissing));
    assert_eq!(check_reusable_dir(true, true, true, true), Err(WineError::WineDirIsFile));
    assert_eq!(check_reusable_dir(true, false, false, true), Err(WineError::StartScriptMissing));
    assert_eq!(check_reusable_dir(true, false, true, false), Err(WineError::StartScriptMissing));
}

#[test]
fn reusable_process_from_json() {
    let text = r#"{"EXE_PATH":"/g/a.exe","USER":"tony","PROCESS_TIMEOUT":"60"}"#;
    let process = reusable_process_from_paths_json("/w/WHISKEY_WINE_DONOTEDIT", text, Some("a.exe"))
        .unwrap()
        .unwrap();
    assert_eq!(process.path, "/g/a.exe");
    assert_eq!(process.whiskey_files_path, "/w/WHISKEY_WINE_DONOTEDIT");
    assert_eq!(process.user, "tony");
    assert_eq!(process.process_timeout, 60);
    assert_eq!(process.process_name, Some("a.exe".to_string()));
    assert_eq!(process.pid, 0);
    assert!(!process.running);
}

#[test]
fn reusable_process_from_written_file() {
    let text = user_json_text("tony").unwrap();
    let err = reusable_process_from_paths_json("/w", &text, None).unwrap().unwrap_err();
    assert_eq!(err, WineError::ExePathKeyMissing);
    assert_eq!(err.message(), "exe path key not in json file");
    let stored = paths_json_text("/g/a \"b\".exe", "tony", 60).unwrap();
    let process = reusable_process_from_paths_json("/w", &stored, Some("a.exe")).unwrap().unwrap();
    assert_eq!(process.path, "/g/a \"b\".exe");
    assert_eq!(process.user, "tony");
    assert_eq!(process.process_timeout, 60);
    assert_eq!(process.process_name, Some("a.exe".to_string()));
}

#[test]
fn paths_file_written_whole() {
    let stored = paths_json_text("/g/a.exe", "tony", 60).unwrap();
    assert_eq!(stored, r#"{"EXE_PATH":"/g/a.exe","PROCESS_TIMEOUT":"60","USER":"tony"}"#);
    assert_eq!(get_exe_path_from_paths_json_text(&stored).unwrap(), "/g/a.exe");
    assert_eq!(get_user_from_paths_json_text(&stored).unwrap(), "tony");
    assert_eq!(get_process_timeout_from_paths_json_text(&stored), Some(Ok(60)));
}

#[test]
fn process_timeout_written_as_text() {
    assert_eq!(process_timeout_json_text(60).unwrap(), r#"{"PROCESS_TIMEOUT":"60"}"#);
    let written = process_timeout_json_text(usize::MAX).unwrap();
    assert_eq!(get_process_timeout_from_paths_json_text(&written), Some(Ok(usize::MAX)));
    assert_eq!(get_process_timeout_from_paths_json_text(&process_timeout_json_text(0).unwrap()), Some(Ok(0)));
}

#[test]
fn decimal_text_of_numbers() {
    assert_eq!(usize_to_decimal_text(0), "0");
    assert_eq!(usize_to_decimal_text(7), "7");
    assert_eq!(usize_to_decimal_text(10), "10");
    assert_eq!(usize_to_decimal_text(4242), "4242");
    assert_eq!(usize_to_decimal_text(usize::MAX), usize::MAX.to_string());
}

#[test]
fn paths_file_updated_field_by_field() {
    let mut text = String::new();
    text = updated_paths_json_text(&text, "EXE_PATH", "/g/a.exe").unwrap();
    text = updated_paths_json_text(&text, "USER", "tony").unwrap();
    text = updated_paths_json_text(&text, "PROCESS_TIMEOUT", &usize_to_decimal_text(30)).unwrap();
    let process = reusable_process_from_paths_json("/w", &text, None).unwrap().unwrap();
    assert_eq!((process.path.as_str(), process.user.as_str(), process.process_timeout), ("/g/a.exe", "tony", 30));
    text = updated_paths_json_text(&text, "EXE_PATH", "/g/b.exe").unwrap();
    let process = reusable_process_from_paths_json("/w", &text, None).unwrap().unwrap();
    assert_eq!((process.path.as_str(), process.user.as_str(), process.process_timeout), ("/g/b.exe", "tony", 30));
}

#[test]
fn paths_file_update_drops_other_values() {
    let existing = r#"{"EXE_PATH":5,"USER":"tony","OTHER":"x"}"#;
    let text = updated_paths_json_text(existing, "PROCESS_TIMEOUT", "9").unwrap();
    assert_eq!(text, r#"{"PROCESS_TIMEOUT":"9","USER":"tony"}"#);
    let text = updated_paths_json_text("not json", "USER", "bob").unwrap();
    assert_eq!(text, r#"{"USER":"bob"}"#);
}

#[test]
fn reusable_process_without_timeout() {
    let text = r#"{"EXE_PATH":"/g/a.exe","USER":"tony"}"#;
    let err = reusable_process_from_paths_json("/w", text, None).unwrap().unwrap_err();
    assert_eq!(err, WineError::ProcessTimeoutNotString);
    assert!(reusable_process_from_paths_json("/w", r#"{"EXE_PATH":"a","USER":"b","PROCESS_TIMEOUT":"x"}"#, None).is_none());
}

fn sample_process(name: Option<&str>) -> WindowsProcess {
    defined_process("/g/a.exe", "/w/WHISKEY_WINE_DONOTEDIT", "tony", name, 60)
}

#[test]
fn defined_process_fields() {
    let process = sample_process(None);
    assert_eq!(process.path, "/g/a.exe");
    assert_eq!(process.user, "tony");
    assert_eq!(process.process_name, None);
    assert_eq!(process.process_timeout, 60);
}

#[test]
fn prepare_run_decisions() {
    let process = sample_process(None);
    assert_eq!(process.prepare_run(&vec!["bash".to_string()]).unwrap(), "a.exe");
    assert_eq!(process.prepare_run(&vec!["a.exe".to_string()]), Err(WineError::AlreadyRunning));
    let named = sample_process(Some("game"));
    assert_eq!(named.prepare_run(&vec!["a.exe".to_string()]).unwrap(), "game");
    let mut running = sample_process(None);
    running.running = true;
    let err = running.prepare_run(&vec![]).unwrap_err();
    assert_eq!(err, WineError::AlreadyRunning);
    assert_eq!(err.kind(), ErrorKind::AlreadyExists);
}

#[test]
fn record_alive() {
    let mut process = sample_process(None);
    process.pid = 42;
    assert!(process.record_alive(&vec![1, 42, 7]));
    assert!(process.running);
    assert!(!process.record_alive(&vec![1, 7]));
    assert!(!process.running);
}

#[test]
fn process_lists() {
    assert!(pid_is_running(&vec![3, 4], 4));
    assert!(!pid_is_running(&vec![], 4));
    assert!(name_is_running(&vec!["wine".to_string(), "a.exe".to_string()], "a.exe"));
    assert!(!name_is_running(&vec!["a.exe2".to_string()], "a.exe"));
    let processes = vec![(10, "x".to_string()), (11, "a.exe".to_string()), (12, "a.exe".to_string())];
    assert_eq!(find_pid_by_name(&processes, "a.exe"), Some(11));
    assert_eq!(find_pid_by_name(&processes, "b.exe"), None);
}

#[test]
fn error_messages() {
    assert_eq!(WineError::ProcessDidNotStart.kind(), ErrorKind::Other);
    assert_eq!(WineError::ProcessDidNotStart.message(), "the windows process did not start correctly");
    assert_eq!(WineError::ExeNotFound.message(), "the path to the exe file is not found");
}

#[test]
fn flipped_extension_is_reversed_extension() {
    let ext = get_file_extension("movie.mkv").unwrap();
    let flipped = get_file_extension_notflipped("movie.mkv").unwrap();
    assert_eq!(flipped.chars().rev().collect::<String>(), ext);
    assert!(!ext.contains('.'));
}

#[test]
fn json_ending_early() {
    let err = json_field("", "USER").unwrap_err();
    assert_eq!(err, WineError::JsonEnded);
    assert_eq!(err.kind(), ErrorKind::UnexpectedEof);
    assert_eq!(json_field(r#"{"USER":"#, "USER"), Err(WineError::JsonEnded));
    assert_eq!(json_field("nul", "USER"), Err(WineError::JsonEnded));
    assert_eq!(json_field("not json", "USER").unwrap_err().kind(), ErrorKind::InvalidData);
    assert_eq!(get_process_timeout_from_paths_json_text(""), Some(Err(WineError::JsonEnded)));
}

#[test]
fn paths_file_update_replaces_the_key_set() {
    let existing = r#"{"EXE_PATH":"/g/a.exe","PROCESS_TIMEOUT":"30","USER":"tony"}"#;
    let text = updated_paths_json_text(existing, "EXE_PATH", "/g/b.exe").unwrap();
    assert_eq!(text, r#"{"EXE_PATH":"/g/b.exe","PROCESS_TIMEOUT":"30","USER":"tony"}"#);
    let text = updated_paths_json_text(&text, "USER", "bob").unwrap();
    assert_eq!(get_user_from_paths_json_text(&text).unwrap(), "bob");
    assert_eq!(get_exe_path_from_paths_json_text(&text).unwrap(), "/g/b.exe");
    let text = updated_paths_json_text(&text, "OTHER", "x").unwrap();
    assert_eq!(text, r#"{"EXE_PATH":"/g/b.exe","OTHER":"x","PROCESS_TIMEOUT":"30","USER":"bob"}"#);
}

#[test]
fn files_reusable_decisions() {
    let stored = paths_json_text("/g/a.exe", "tony", 60).unwrap();
    assert!(process_files_reusable(true, false, true, true, Some(&stored)));
    assert!(!process_files_reusable(false, false, true, true, Some(&stored)));
    assert!(!process_files_reusable(true, true, true, true, Some(&stored)));
    assert!(!process_files_reusable(true, false, false, true, Some(&stored)));
    assert!(!process_files_reusable(true, false, true, false, Some(&stored)));
    assert!(!process_files_reusable(true, false, true, true, None));
    assert!(!process_files_reusable(true, false, true, true, Some(r#"{"USER":"tony"}"#)));
    assert!(!process_files_reusable(true, false, true, true, Some(r#"{"EXE_PATH":"a","USER":"b","PROCESS_TIMEOUT":"x"}"#)));
}
