//! The Whiskey Wine launcher: the files it spawns to start a Windows program
//! under Wine, the shell script that starts it, and the process it tracks.
use vstd::prelude::*;

use crate::error_kind::ErrorKind;

pub mod general_functions;
pub mod paths_json;
pub mod processes;

verus! {

pub const EXE_PATH_JSON_KEY: &'static str = "EXE_PATH";

pub const USER_JSON_KEY: &'static str = "USER";

pub const PROCESS_TIMEOUT_JSON_KEY: &'static str = "PROCESS_TIMEOUT";

pub const WHISKEY_WINE_DIR_NAME: &'static str = "WHISKEY_WINE_DONOTEDIT";

pub const WHISKEY_JSON_PATHS_FILE_NAME: &'static str = "path_data.json";

pub const WHISKEY_WINE_SHELL_START_FILE_NAME: &'static str = "start_main_exe.sh";

pub const FIND_PID: &'static str = "";

pub const BASH_FORMAT: &'static str = "#!/bin/bash\n";

pub const RUN_USER: &'static str = "runuser -u ";

pub const WINE_RUN_COMMAND_FIRST: &'static str = " -- bash -c 'source /home/";

pub const WINE_RUN_COMMAND_SECOND: &'static str = "/.bashrc;source /home/tony/.profile printenv; wine start /unix ";

pub const WINE_RUN_COMMAND_ROOT: &'static str = "VK_ICD_FILENAMES=/usr/share/vulkan/icd.d/intel_icd.x86_64.json\necho $USER\n export DISPLAY=:0\necho $DISPLAY \nwine start /unix ";

pub const WINE_RUN_COMMAND_END_PART: &'static str = "'";

pub const FIND_PROCESS_TIMEOUT: usize = 5000;

/// A Windows program that the launcher starts under Wine.
#[derive(Debug)]
pub struct WindowsProcess {
    /// The path of the exe.
    pub path: String,
    /// The Whiskey Wine directory that holds the start script and paths file.
    pub whiskey_files_path: String,
    /// The pid of the running program (0 before it is run).
    pub pid: usize,
    /// Whether the program was running when last looked at.
    pub running: bool,
    /// The user the program runs as.
    pub user: String,
    /// The name the program runs under, when it differs from the exe's file name.
    pub process_name: Option<String>,
    /// How many times to look for the started program before giving up.
    pub process_timeout: usize,
}

/// Why launching or tracking a Windows program failed.
#[derive(Debug, Clone, Copy, PartialEq, Eq, Structural)]
pub enum WineError {
    /// The process is already running.
    AlreadyRunning,
    /// The text holds none of the characters of the pid key.
    PidKeyNotFound,
    /// The file name has no extension after its last dot.
    NoFileExtension,
    /// The paths file is not a JSON document.
    InvalidJson,
    /// The paths file ends before its JSON document does.
    JsonEnded,
    /// The paths file could not be written as JSON.
    JsonNotWritten,
    /// The exe path in the paths file is missing or not a string.
    ExePathNotString,
    /// The user in the paths file is missing or not a string.
    UserNotString,
    /// The process timeout in the paths file is missing or not a string.
    ProcessTimeoutNotString,
    /// The exe path does not exist.
    ExeNotFound,
    /// The exe path is a directory.
    ExeIsDirectory,
    /// The exe file does not end in `.exe`.
    NotExeExtension,
    /// The user does not exist.
    UserDoesNotExist,
    /// The Whiskey Wine directory does not exist.
    WineDirMissing,
    /// The Whiskey Wine directory is a file.
    WineDirIsFile,
    /// A file of the Whiskey Wine directory is missing.
    StartScriptMissing,
    /// The paths file has no exe path.
    ExePathKeyMissing,
    /// The Windows process did not show up in time.
    ProcessDidNotStart,
}

impl WineError {
    /// The standard I/O error kind of this failure.
    pub fn kind(&self) -> (k: ErrorKind)
        ensures
            k == (match self {
                WineError::AlreadyRunning => ErrorKind::AlreadyExists,
                WineError::PidKeyNotFound => ErrorKind::NotFound,
                WineError::ExeNotFound => ErrorKind::NotFound,
                WineError::StartScriptMissing => ErrorKind::NotFound,
                WineError::ExePathKeyMissing => ErrorKind::NotFound,
                WineError::ProcessDidNotStart => ErrorKind::Other,
                WineError::JsonEnded => ErrorKind::UnexpectedEof,
                _ => ErrorKind::InvalidData,
            }),
    {
        match self {
            WineError::AlreadyRunning => ErrorKind::AlreadyExists,
            WineError::PidKeyNotFound => ErrorKind::NotFound,
            WineError::ExeNotFound => ErrorKind::NotFound,
            WineError::StartScriptMissing => ErrorKind::NotFound,
            WineError::ExePathKeyMissing => ErrorKind::NotFound,
            WineError::ProcessDidNotStart => ErrorKind::Other,
            WineError::JsonEnded => ErrorKind::UnexpectedEof,
            _ => ErrorKind::InvalidData,
        }
    }

    /// The message that goes with this failure.
    pub fn message(&self) -> (m: &'static str)
        ensures
            m@ == match self {
                WineError::AlreadyRunning => "process is already running"@,
                WineError::PidKeyNotFound => "pid key not inside string"@,
                WineError::NoFileExtension => "file or path text not properly structured and couldnt find file extension"@,
                WineError::InvalidJson => "the paths json file is not valid json"@,
                WineError::JsonEnded => "the paths json file ended before its json document"@,
                WineError::JsonNotWritten => "the paths json file could not be written"@,
                WineError::ExePathNotString => "EXE_PATH is not a valid string"@,
                WineError::UserNotString => "USER is not a valid string"@,
                WineError::ProcessTimeoutNotString => "PROCESS_TIMEOUT is not a valid string"@,
                WineError::ExeNotFound => "the path to the exe file is not found"@,
                WineError::ExeIsDirectory => "the path to the exe is not a exe file, but the path to the file is a directory"@,
                WineError::NotExeExtension => "the provided file does not have the .exe extension, this is to make sure you dont try to run the wrong program. if it is an windows execution file please give it the .exe file extension. "@,
                WineError::UserDoesNotExist => "user doesnt exist"@,
                WineError::WineDirMissing => "the whiskey wine api compiled directory with its files does not exist"@,
                WineError::WineDirIsFile => "the whiskey wine api compiled directory is a file."@,
                WineError::StartScriptMissing => "could not find the start wine shell script"@,
                WineError::ExePathKeyMissing => "exe path key not in json file"@,
                WineError::ProcessDidNotStart => "the windows process did not start correctly"@,
            },
    {
        match self {
            WineError::AlreadyRunning => "process is already running",
            WineError::PidKeyNotFound => "pid key not inside string",
            WineError::NoFileExtension => "file or path text not properly structured and couldnt find file extension",
            WineError::InvalidJson => "the paths json file is not valid json",
            WineError::JsonEnded => "the paths json file ended before its json document",
            WineError::JsonNotWritten => "the paths json file could not be written",
            WineError::ExePathNotString => "EXE_PATH is not a valid string",
            WineError::UserNotString => "USER is not a valid string",
            WineError::ProcessTimeoutNotString => "PROCESS_TIMEOUT is not a valid string",
            WineError::ExeNotFound => "the path to the exe file is not found",
            WineError::ExeIsDirectory => "the path to the exe is not a exe file, but the path to the file is a directory",
            WineError::NotExeExtension => "the provided file does not have the .exe extension, this is to make sure you dont try to run the wrong program. if it is an windows execution file please give it the .exe file extension. ",
            WineError::UserDoesNotExist => "user doesnt exist",
            WineError::WineDirMissing => "the whiskey wine api compiled directory with its files does not exist",
            WineError::WineDirIsFile => "the whiskey wine api compiled directory is a file.",
            WineError::StartScriptMissing => "could not find the start wine shell script",
            WineError::ExePathKeyMissing => "exe path key not in json file",
            WineError::ProcessDidNotStart => "the windows process did not start correctly",
        }
    }
}

} // verus!
