use whiskey::whiskey_python::general_functions::{
    add_whiskey_files_dir_to_path, add_whiskey_internal_script_name_to_path,
    check_for_slash_type, check_then_add_slash_to_path, whiskey_python_internal_file_path,
};
use whiskey::whiskey_wine_api::general_functions as wine;

#[test]
fn slash_added_when_missing() {
    assert_eq!(check_then_add_slash_to_path("a/b", true), "a/b/");
    assert_eq!(check_then_add_slash_to_path("a\\b", false), "a\\b\\");
    assert_eq!(check_then_add_slash_to_path("a\\b", true), "a\\b/");
}

#[test]
fn slash_kept_when_present() {
    assert_eq!(check_then_add_slash_to_path("a/", false), "a/");
    assert_eq!(check_then_add_slash_to_path("a\\", true), "a\\");
}

#[test]
fn slash_added_once() {
    let once = check_then_add_slash_to_path("dir", true);
    assert_eq!(check_then_add_slash_to_path(&once, false), once);
}

#[test]
fn slash_type() {
    assert!(check_for_slash_type("/home/tony"));
    assert!(!check_for_slash_type("C:\\Users\\tony"));
    assert!(!check_for_slash_type("plain"));
}

#[test]
fn python_directory_paths() {
    assert_eq!(add_whiskey_files_dir_to_path("/tmp"), "/tmp/WHISKEY_PYTHON_DONOTEDIT");
    assert_eq!(add_whiskey_files_dir_to_path("C:\\tmp\\"), "C:\\tmp\\WHISKEY_PYTHON_DONOTEDIT");
    assert_eq!(
        add_whiskey_internal_script_name_to_path("/tmp/"),
        "/tmp/internal_whiskey_python_script.py"
    );
    assert_eq!(
        whiskey_python_internal_file_path("/tmp"),
        "/tmp/WHISKEY_PYTHON_DONOTEDIT/internal_whiskey_python_script.py"
    );
}

#[test]
fn wine_directory_paths() {
    assert_eq!(wine::add_whiskey_wine_dir_to_path("/home/u/"), "/home/u/WHISKEY_WINE_DONOTEDIT");
    assert_eq!(wine::add_whiskey_files_dir_to_path("/home/u"), "/home/u/WHISKEY_WINE_DONOTEDIT");
    assert_eq!(wine::add_whiskey_json_file_to_path("/w"), "/w/path_data.json");
    assert_eq!(wine::add_whiskey_wine_shell_start_file("C:\\w"), "C:\\w\\start_main_exe.sh");
    assert_eq!(wine::check_then_add_slash_to_path("x", true), "x/");
    assert!(wine::check_for_slash_type("a/b"));
}
