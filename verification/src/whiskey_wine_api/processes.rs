//! Deciding about the launched program: which processes match it, whether it
//! may be run, and what the launcher's directory and paths file say of it.
use vstd::prelude::*;

use crate::text::str_eq;
use crate::decimal::usize_text_value;
use super::{EXE_PATH_JSON_KEY, PROCESS_TIMEOUT_JSON_KEY, USER_JSON_KEY, WindowsProcess, WineError};
use super::general_functions::{
    after_last, after_last_slash, get_end_of_path, get_file_extension_notflipped, lemma_end_of_path,
    lemma_end_of_path_boundary,
};
use super::paths_json::{
    check_if_exe_path_in_json_text, get_exe_path_from_paths_json_text,
    get_process_timeout_from_paths_json_text, get_user_from_paths_json_text, json_field_result,
    json_string,
};
use vstd::string::StringSliceAdditionalSpecFns;

verus! {

// ---------------------------------------------------------------------------
// The system's processes
// ---------------------------------------------------------------------------

/// Whether a process with pid `pid` is among the running `pids`.
pub fn pid_is_running(pids: &Vec<usize>, pid: usize) -> (r: bool)
    ensures
        r == pids@.contains(pid),
{
    let mut i: usize = 0;
    while i < pids.len()
        invariant
            i <= pids@.len(),
            forall|k: int| 0 <= k < i ==> pids@[k] != pid,
        decreases pids@.len() - i,
    {
        if pids[i] == pid {
            assert(pids@[i as int] == pid);
            return true;
        }
        i = i + 1;
    }
    false
}

/// Whether some running process is called exactly `process_name`.
pub open spec fn name_among(names: Seq<String>, process_name: Seq<char>) -> bool {
    exists|k: int| 0 <= k < names.len() && #[trigger] names[k]@ == process_name
}

/// Whether a process called exactly `process_name` is among the running `names`.
pub fn name_is_running(names: &Vec<String>, process_name: &str) -> (r: bool)
    ensures
        r == name_among(names@, process_name@),
{
    let mut i: usize = 0;
    while i < names.len()
        invariant
            i <= names@.len(),
            forall|k: int| 0 <= k < i ==> #[trigger] names@[k]@ != process_name@,
        decreases names@.len() - i,
    {
        if str_eq(names[i].as_str(), process_name) {
            return true;
        }
        i = i + 1;
    }
    false
}

/// The pid of the first of the running `processes` (pid and name) called
/// `process_name`, if any.
pub fn find_pid_by_name(processes: &Vec<(usize, String)>, process_name: &str) -> (r: Option<usize>)
    ensures
        match r {
            Some(pid) => exists|k: int|
                0 <= k < processes@.len() && #[trigger] processes@[k].1@ == process_name@
                    && processes@[k].0 == pid && forall|j: int|
                    0 <= j < k ==> processes@[j].1@ != process_name@,
            None => forall|k: int|
                0 <= k < processes@.len() ==> #[trigger] processes@[k].1@ != process_name@,
        },
{
    let mut i: usize = 0;
    while i < processes.len()
        invariant
            i <= processes@.len(),
            forall|k: int| 0 <= k < i ==> #[trigger] processes@[k].1@ != process_name@,
        decreases processes@.len() - i,
    {
        if str_eq(processes[i].1.as_str(), process_name) {
            return Some(processes[i].0);
        }
        i = i + 1;
    }
    None
}

// ---------------------------------------------------------------------------
// Running the program
// ---------------------------------------------------------------------------

/// The name the program runs under: the one it was given, or else the file
/// name of its exe.
pub open spec fn name_to_run(p: WindowsProcess) -> Seq<char> {
    match p.process_name {
        Some(name) => name@,
        None => after_last_slash(p.path@),
    }
}

impl WindowsProcess {
    /// Decides whether the program may be started, given the names of the
    /// running processes: not while it is running or while a process of its
    /// name runs. Gives the name to look for once it is started.
    pub fn prepare_run(&self, running_names: &Vec<String>) -> (r: Result<String, WineError>)
        requires
            !self.running && self.process_name is None ==> self.path@.len() > 0,
        ensures
            match r {
                Ok(name) => !self.running && name@ == name_to_run(*self) && !name_among(
                    running_names@,
                    name@,
                ),
                Err(e) => e == WineError::AlreadyRunning && (self.running || name_among(
                    running_names@,
                    name_to_run(*self),
                )),
            },
    {
        if self.running {
            return Err(WineError::AlreadyRunning);
        }
        let process_name = match &self.process_name {
            Some(name) => name.clone(),
            None => get_end_of_path(self.path.as_str()),
        };
        if name_is_running(running_names, process_name.as_str()) {
            return Err(WineError::AlreadyRunning);
        }
        Ok(process_name)
    }

    /// Records whether the program is alive, given the pids of the running
    /// processes, and answers it.
    pub fn record_alive(&mut self, running_pids: &Vec<usize>) -> (alive: bool)
        ensures
            alive == running_pids@.contains(old(self).pid),
            final(self).running == alive,
            final(self).pid == old(self).pid,
            final(self).path == old(self).path,
            final(self).whiskey_files_path == old(self).whiskey_files_path,
            final(self).user == old(self).user,
            final(self).process_name == old(self).process_name,
            final(self).process_timeout == old(self).process_timeout,
    {
        self.running = pid_is_running(running_pids, self.pid);
        self.running
    }
}

// ---------------------------------------------------------------------------
// Defining the program
// ---------------------------------------------------------------------------

/// The checks on the exe path: it must exist and must not be a directory.
pub fn check_exe_path_status(exe_exists: bool, exe_is_dir: bool) -> (r: Result<(), WineError>)
    ensures
        r == if !exe_exists {
            Err::<(), WineError>(WineError::ExeNotFound)
        } else if exe_is_dir {
            Err(WineError::ExeIsDirectory)
        } else {
            Ok(())
        },
{
    if !exe_exists {
        return Err(WineError::ExeNotFound);
    }
    if exe_is_dir {
        return Err(WineError::ExeIsDirectory);
    }
    Ok(())
}

/// Checks that the exe path (one byte per character, holding a dot) ends
/// in an `exe` extension.
pub fn check_exe_extension(path: &str) -> (r: Result<(), WineError>)
    requires
        path@.len() > 0,
        path.spec_bytes().len() == path@.len(),
        path@.contains('.'),
    ensures
        r == if after_last(path@, '.').len() == 0 {
            Err::<(), WineError>(WineError::NoFileExtension)
        } else if after_last(path@, '.').reverse() != "exe"@ {
            Err(WineError::NotExeExtension)
        } else {
            Ok(())
        },
{
    let extension = get_file_extension_notflipped(path)?;
    if !str_eq(extension.as_str(), "exe") {
        return Err(WineError::NotExeExtension);
    }
    Ok(())
}

/// The process name as an owned string.
fn owned_process_name(process_name: Option<&str>) -> (r: Option<String>)
    ensures
        match process_name {
            Some(name) => r matches Some(owned) && owned@ == name@,
            None => r is None,
        },
{
    match process_name {
        Some(name) => Some(name.to_owned()),
        None => None,
    }
}

/// The program defined by its exe path, its Whiskey Wine directory, its
/// user, its name and its timeout; not running yet, with pid 0.
pub fn defined_process(
    exe_path: &str,
    whiskey_files_path: &str,
    user: &str,
    process_name: Option<&str>,
    process_timeout: usize,
) -> (r: WindowsProcess)
    ensures
        r.path@ == exe_path@,
        r.whiskey_files_path@ == whiskey_files_path@,
        r.pid == 0,
        !r.running,
        r.user@ == user@,
        match process_name {
            Some(name) => r.process_name matches Some(owned) && owned@ == name@,
            None => r.process_name is None,
        },
        r.process_timeout == process_timeout,
{
    WindowsProcess {
        path: exe_path.to_owned(),
        whiskey_files_path: whiskey_files_path.to_owned(),
        pid: 0,
        running: false,
        user: user.to_owned(),
        process_name: owned_process_name(process_name),
        process_timeout,
    }
}

// ---------------------------------------------------------------------------
// Reusing the files of an earlier run
// ---------------------------------------------------------------------------

/// The checks on a Whiskey Wine directory before its files are reused, in
/// the order they are made: the directory exists, is not a file, and holds
/// the paths file and the start script.
pub fn check_reusable_dir(
    dir_exists: bool,
    dir_is_file: bool,
    json_file_present: bool,
    shell_file_present: bool,
) -> (r: Result<(), WineError>)
    ensures
        r == if !dir_exists {
            Err::<(), WineError>(WineError::WineDirMissing)
        } else if dir_is_file {
            Err(WineError::WineDirIsFile)
        } else if !json_file_present || !shell_file_present {
            Err(WineError::StartScriptMissing)
        } else {
            Ok(())
        },
{
    if !dir_exists {
        return Err(WineError::WineDirMissing);
    }
    if dir_is_file {
        return Err(WineError::WineDirIsFile);
    }
    if !json_file_present {
        return Err(WineError::StartScriptMissing);
    }
    if !shell_file_present {
        return Err(WineError::StartScriptMissing);
    }
    Ok(())
}

/// What the paths json document `text` gives of the program to reuse: its
/// exe path, user and timeout, each checked in turn; `None` where the
/// stored timeout is a string that is not a number.
pub open spec fn reused_fields(text: Seq<char>) -> Option<
    Result<(Seq<char>, Seq<char>, usize), WineError>,
> {
    match json_field_result(text, EXE_PATH_JSON_KEY@) {
        Err(e) => Some(Err(e)),
        Ok(None) => Some(Err(WineError::ExePathKeyMissing)),
        Ok(_) => match json_string(text, EXE_PATH_JSON_KEY@, WineError::ExePathNotString) {
            Err(e) => Some(Err(e)),
            Ok(exe) => match json_string(text, USER_JSON_KEY@, WineError::UserNotString) {
                Err(e) => Some(Err(e)),
                Ok(user) => match json_string(
                    text,
                    PROCESS_TIMEOUT_JSON_KEY@,
                    WineError::ProcessTimeoutNotString,
                ) {
                    Err(e) => Some(Err(e)),
                    Ok(t) => match usize_text_value(t) {
                        Some(timeout) => Some(Ok((exe, user, timeout))),
                        None => None,
                    },
                },
            },
        },
    }
}

/// The exe path, user and timeout that the paths json document `json_text`
/// gives of the program to reuse, as `reused_fields` describes them.
fn reused_fields_from_paths_json(json_text: &str) -> (r: Option<Result<(String, String, usize), WineError>>)
    ensures
        match reused_fields(json_text@) {
            None => r is None,
            Some(Err(e)) => r == Some(Err::<(String, String, usize), WineError>(e)),
            Some(Ok((exe, user, timeout))) => r matches Some(Ok((e, u, t))) && e@ == exe && u@ == user
                && t == timeout,
        },
{
    match check_if_exe_path_in_json_text(json_text) {
        Err(e) => return Some(Err(e)),
        Ok(false) => return Some(Err(WineError::ExePathKeyMissing)),
        Ok(true) => {},
    }
    let exe_path = match get_exe_path_from_paths_json_text(json_text) {
        Ok(s) => s,
        Err(e) => return Some(Err(e)),
    };
    let user = match get_user_from_paths_json_text(json_text) {
        Ok(s) => s,
        Err(e) => return Some(Err(e)),
    };
    match get_process_timeout_from_paths_json_text(json_text) {
        None => None,
        Some(Err(e)) => Some(Err(e)),
        Some(Ok(t)) => Some(Ok((exe_path, user, t))),
    }
}

/// The program whose files an earlier run left in the Whiskey Wine
/// directory `whiskey_wine_dir`, from the text of its paths json file;
/// `None` where the stored timeout is not a number.
pub fn reusable_process_from_paths_json(
    whiskey_wine_dir: &str,
    json_text: &str,
    process_name: Option<&str>,
) -> (r: Option<Result<WindowsProcess, WineError>>)
    ensures
        match reused_fields(json_text@) {
            None => r is None,
            Some(Err(e)) => r == Some(Err::<WindowsProcess, WineError>(e)),
            Some(Ok((exe, user, timeout))) => r matches Some(Ok(p)) && p.path@ == exe
                && p.whiskey_files_path@ == whiskey_wine_dir@ && p.pid == 0 && !p.running
                && p.user@ == user && p.process_timeout == timeout && match process_name {
                Some(name) => p.process_name matches Some(owned) && owned@ == name@,
                None => p.process_name is None,
            },
        },
{
    match reused_fields_from_paths_json(json_text) {
        None => None,
        Some(Err(e)) => Some(Err(e)),
        Some(Ok((exe_path, user, process_timeout))) => Some(
            Ok(defined_process(exe_path.as_str(), whiskey_wine_dir, user.as_str(), process_name, process_timeout)),
        ),
    }
}

/// Whether the files an earlier run left in a Whiskey Wine directory can be
/// reused: the directory checks of `check_reusable_dir` pass, the paths json
/// file could be read (its text is `json_text`), and it gives an exe path, a
/// user and a timeout.
pub fn process_files_reusable(
    dir_exists: bool,
    dir_is_file: bool,
    json_file_present: bool,
    shell_file_present: bool,
    json_text: Option<&str>,
) -> (r: bool)
    ensures
        r == (dir_exists && !dir_is_file && json_file_present && shell_file_present && match json_text {
            Some(t) => reused_fields(t@) matches Some(Ok(_)),
            None => false,
        }),
{
    if check_reusable_dir(dir_exists, dir_is_file, json_file_present, shell_file_present).is_err() {
        return false;
    }
    match json_text {
        Some(t) => match reused_fields_from_paths_json(t) {
            Some(Ok(_)) => true,
            _ => false,
        },
        None => false,
    }
}

/// With no process name given, the program runs under the file name of its
/// exe, unchanged: the end of the exe path that holds no `/` or `\`, right
/// after the path's last `/` or `\` (the whole path when it holds neither).
pub proof fn lemma_name_to_run_is_file_name(p: WindowsProcess)
    requires
        p.process_name is None,
    ensures
        name_to_run(p).len() <= p.path@.len(),
        name_to_run(p) == p.path@.skip(p.path@.len() - name_to_run(p).len()),
        !name_to_run(p).contains('/'),
        !name_to_run(p).contains('\\'),
        name_to_run(p).len() < p.path@.len() ==> (p.path@[p.path@.len() - name_to_run(p).len() - 1]
            == '/' || p.path@[p.path@.len() - name_to_run(p).len() - 1] == '\\'),
{
    lemma_end_of_path(p.path@);
    lemma_end_of_path_boundary(p.path@);
}

} // verus!
