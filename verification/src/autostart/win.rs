//! Autostart through the current user's `Run` registry value, on Windows.

use vstd::prelude::*;
use vstd::string::*;
use crate::autostart::{AutostartError, AutostartPlan, AutostartStep, PidMarker};
use crate::text::{contains_char, owned};
use crate::utf16::utf16_encode;

verus! {

/// The GUI executable that autostart launches, inside the installation root.
pub const GUI_EXECUTABLE: &'static str = "Codex-Router.exe";

/// The registry key, under `HKEY_CURRENT_USER`, that holds the autostart value.
pub const RUN_KEY: &'static str = "Software\\Microsoft\\Windows\\CurrentVersion\\Run";

/// The name of the autostart value.
pub const RUN_VALUE: &'static str = "Codex Router";

/// The scheduled task that earlier versions registered.
pub const LEGACY_TASK: &'static str = "Codex Router Health Monitor";

/// The registry status of a call that succeeded.
pub const ERROR_SUCCESS: u32 = 0;

/// The registry status for a value or key that does not exist.
pub const ERROR_FILE_NOT_FOUND: u32 = 2;

/// The registry status for a key path that does not exist.
pub const ERROR_PATH_NOT_FOUND: u32 = 3;

/// The command line that starts the executable at `path` in background mode.
pub open spec fn run_command_text(path: Seq<char>) -> Seq<char> {
    "\""@ + path + "\" --background"@
}

/// For every path, the autostart command is a double quote, the path, a
/// double quote, and ` --background`: the GUI always starts in background
/// mode, whatever the path holds.
pub proof fn law_run_command_quotes_the_path_and_runs_in_background(path: Seq<char>)
    ensures
        run_command_text(path) == seq!['"'] + path
            + seq!['"', ' ', '-', '-', 'b', 'a', 'c', 'k', 'g', 'r', 'o', 'u', 'n', 'd'],
        run_command_text(path).len() == path.len() + 15,
        run_command_text(path)[0] == '"',
        run_command_text(path)[path.len() as int + 1] == '"',
        forall|i: int| 0 <= i < path.len() ==> run_command_text(path)[i + 1] == path[i],
{
    reveal_strlit("\"");
    reveal_strlit("\" --background");
    assert(run_command_text(path) =~= seq!['"'] + path
        + seq!['"', ' ', '-', '-', 'b', 'a', 'c', 'k', 'g', 'r', 'o', 'u', 'n', 'd']);
}

/// The autostart command for the executable at `executable`: the path in
/// double quotes, then `--background`. A path holding a double quote is
/// refused, so that it cannot end the quoted path early.
pub fn run_command(executable: &str) -> (command: Result<String, AutostartError>)
    ensures
        executable@.contains('"') ==> command == Err::<String, AutostartError>(AutostartError::QuoteInExecutable),
        !executable@.contains('"') ==> (command matches Ok(c) && c@ == run_command_text(executable@)),
{
    if contains_char(executable, '"') {
        return Err(AutostartError::QuoteInExecutable);
    }
    let mut command = owned("\"");
    command.append(executable);
    command.append("\" --background");
    Ok(command)
}

/// The byte size of a registry string of `units` UTF-16 units, where it fits
/// in 32 bits.
pub fn registry_value_size(units: usize) -> (size: Option<u32>)
    ensures
        2 * units <= u32::MAX ==> size == Some((2 * units) as u32),
        2 * units > u32::MAX ==> size is None,
{
    if units > 0x7FFF_FFFF {
        None
    } else {
        Some((units * 2) as u32)
    }
}

/// Whether a registry read found the autostart value: it succeeded and the
/// value holds at least one UTF-16 unit.
pub open spec fn run_value_found(status: u32, byte_len: u32) -> bool {
    status == ERROR_SUCCESS && byte_len >= 2
}

/// Whether the autostart value exists, from the status and byte size that
/// reading it gave.
pub fn run_value_exists(status: u32, byte_len: u32) -> (exists: bool)
    ensures
        exists == run_value_found(status, byte_len),
{
    status == ERROR_SUCCESS && byte_len >= 2
}

/// The autostart value as it is written, the command's UTF-16 units and a
/// terminating NUL, is found by the existence check once read back.
pub proof fn law_written_run_value_is_found(command: Seq<char>)
    requires
        2 * utf16_encode(command).push(0).len() <= u32::MAX,
    ensures
        run_value_found(ERROR_SUCCESS, (2 * utf16_encode(command).push(0).len()) as u32),
{
}

/// What removing the autostart value does once the key was opened.
#[derive(Clone, Copy, PartialEq, Eq, Structural, Debug)]
pub enum RunValueRemoval {
    /// The key does not exist: there is nothing to remove.
    AlreadyAbsent,
    /// The key could not be opened, with this status.
    OpenFailed(u32),
    /// The key is open: delete the value.
    DeleteValue,
}

/// A status that says the key or value does not exist.
pub open spec fn is_not_found(status: u32) -> bool {
    status == ERROR_FILE_NOT_FOUND || status == ERROR_PATH_NOT_FOUND
}

/// The next move after opening the autostart key with `status`.
pub fn removal_after_open(status: u32) -> (next: RunValueRemoval)
    ensures
        next == (if is_not_found(status) {
            RunValueRemoval::AlreadyAbsent
        } else if status != ERROR_SUCCESS {
            RunValueRemoval::OpenFailed(status)
        } else {
            RunValueRemoval::DeleteValue
        }),
{
    if status == ERROR_FILE_NOT_FOUND || status == ERROR_PATH_NOT_FOUND {
        RunValueRemoval::AlreadyAbsent
    } else if status != ERROR_SUCCESS {
        RunValueRemoval::OpenFailed(status)
    } else {
        RunValueRemoval::DeleteValue
    }
}

/// The result of deleting the autostart value with `status`: a value that was
/// already gone counts as removed.
pub fn removal_after_delete(status: u32) -> (result: Result<(), u32>)
    ensures
        result == (if status == ERROR_SUCCESS || is_not_found(status) {
            Ok::<(), u32>(())
        } else {
            Err(status)
        }),
{
    if status == ERROR_SUCCESS || status == ERROR_FILE_NOT_FOUND || status == ERROR_PATH_NOT_FOUND {
        Ok(())
    } else {
        Err(status)
    }
}

/// The steps that always run first: clear the health-monitor markers and
/// prepare the local state directory.
pub open spec fn common_steps() -> Seq<AutostartStep> {
    seq![
        AutostartStep::RemovePidMarker(PidMarker::HealthMonitorEnabled),
        AutostartStep::RemovePidMarker(PidMarker::HealthMonitorPaused),
        AutostartStep::PrepareStateRoot,
    ]
}

/// The steps that remove what earlier versions registered.
pub open spec fn legacy_cleanup_steps() -> Seq<AutostartStep> {
    seq![AutostartStep::RemoveLegacyShortcut, AutostartStep::RemoveLegacyTask]
}

/// The steps of enabling or disabling autostart on Windows, and what it
/// returns once they have run.
pub open spec fn plan_of(enabled: bool, executable_present: bool, executable: Option<Seq<char>>) -> (Seq<AutostartStep>, Result<(), AutostartError>) {
    if enabled && !executable_present {
        (Seq::empty(), Err(AutostartError::MissingExecutable))
    } else if enabled {
        match executable {
            None => (common_steps(), Err(AutostartError::NonUnicodeExecutable)),
            Some(path) => if path.contains('"') {
                (common_steps(), Err(AutostartError::QuoteInExecutable))
            } else {
                (common_steps() + seq![AutostartStep::WriteRunValue, AutostartStep::WriteInstallRoot] + legacy_cleanup_steps(), Ok(()))
            },
        }
    } else {
        (common_steps() + seq![AutostartStep::RemoveRunValue, AutostartStep::RemoveInstallRoot] + legacy_cleanup_steps(), Ok(()))
    }
}

/// Registers or unregisters autostart on Windows: the steps to run in order,
/// stopping at the first that fails, and the result once all have run.
/// `executable` is the path of `GUI_EXECUTABLE` in the installation root, or
/// `None` where it is not valid Unicode.
pub fn set_enabled(enabled: bool, executable_present: bool, executable: Option<&str>) -> (plan: AutostartPlan)
    ensures
        plan.steps@ == plan_of(enabled, executable_present, match executable { Some(e) => Some(e@), None => None }).0,
        plan.outcome == plan_of(enabled, executable_present, match executable { Some(e) => Some(e@), None => None }).1,
{
    let mut steps: Vec<AutostartStep> = Vec::new();
    if enabled && !executable_present {
        return AutostartPlan { steps, outcome: Err(AutostartError::MissingExecutable) };
    }
    steps.push(AutostartStep::RemovePidMarker(PidMarker::HealthMonitorEnabled));
    steps.push(AutostartStep::RemovePidMarker(PidMarker::HealthMonitorPaused));
    steps.push(AutostartStep::PrepareStateRoot);
    assert(steps@ =~= common_steps());
    if enabled {
        match executable {
            None => { return AutostartPlan { steps, outcome: Err(AutostartError::NonUnicodeExecutable) }; },
            Some(path) => {
                if let Err(e) = run_command(path) {
                    return AutostartPlan { steps, outcome: Err(e) };
                }
                steps.push(AutostartStep::WriteRunValue);
                steps.push(AutostartStep::WriteInstallRoot);
            },
        }
    } else {
        steps.push(AutostartStep::RemoveRunValue);
        steps.push(AutostartStep::RemoveInstallRoot);
    }
    steps.push(AutostartStep::RemoveLegacyShortcut);
    steps.push(AutostartStep::RemoveLegacyTask);
    proof {
        let exe = match executable { Some(e) => Some(e@), None => None };
        assert(steps@ =~= plan_of(enabled, executable_present, exe).0);
    }
    AutostartPlan { steps, outcome: Ok(()) }
}

} // verus!
