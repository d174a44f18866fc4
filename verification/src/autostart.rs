//! Autostart registration: what enabling and disabling it does, and when it
//! counts as registered.

pub mod mac;
pub mod win;

use vstd::prelude::*;
use crate::autostart::mac::{plist_text};
use crate::autostart::win::{run_command_text};

verus! {

/// The autostart mechanism: the `Run` registry value on Windows, a
/// LaunchAgents plist elsewhere.
#[derive(Clone, Copy, PartialEq, Eq, Structural, Debug)]
pub enum Platform {
    Windows,
    Launchd,
}

/// A health-monitor marker file that enabling or disabling autostart clears.
#[derive(Clone, Copy, PartialEq, Eq, Structural, Debug)]
pub enum PidMarker {
    /// `pids/health-monitor.enabled` under the user data root.
    HealthMonitorEnabled,
    /// `pids/health-monitor.paused` under the user data root.
    HealthMonitorPaused,
}

/// One piece of outside work that enabling or disabling autostart performs.
#[derive(Clone, Copy, PartialEq, Eq, Structural, Debug)]
pub enum AutostartStep {
    /// Remove a health-monitor marker file, if present.
    RemovePidMarker(PidMarker),
    /// Create `%LOCALAPPDATA%\Codex-Router`; fails where `LOCALAPPDATA` is unset.
    PrepareStateRoot,
    /// Write the `Run` value with the autostart command.
    WriteRunValue,
    /// Record the installation root in `install-root.txt`.
    WriteInstallRoot,
    /// Remove the `Run` value.
    RemoveRunValue,
    /// Remove `install-root.txt`, if present.
    RemoveInstallRoot,
    /// Remove the Startup-folder shortcut of earlier versions, if present.
    RemoveLegacyShortcut,
    /// Delete the scheduled task of earlier versions, ignoring the outcome.
    RemoveLegacyTask,
    /// Create the LaunchAgents directory.
    CreateAgentsDir,
    /// Write the plist, through a temporary file renamed into place.
    InstallPlist,
    /// Load the agent with `launchctl bootstrap`, ignoring the outcome.
    BootstrapService,
    /// Unload the agent with `launchctl bootout`, ignoring the outcome.
    BootoutService,
    /// Remove the plist, if present.
    RemovePlist,
}

/// Why enabling autostart is refused.
#[derive(Clone, Copy, PartialEq, Eq, Structural, Debug)]
pub enum AutostartError {
    /// The GUI executable is missing from the installation root.
    MissingExecutable,
    /// The executable's path is not valid Unicode.
    NonUnicodeExecutable,
    /// The executable's path holds a double quote.
    QuoteInExecutable,
}

/// What enabling or disabling autostart does: the steps to run in order,
/// stopping at the first that fails, and the result once all have run.
pub struct AutostartPlan {
    pub steps: Vec<AutostartStep>,
    pub outcome: Result<(), AutostartError>,
}

/// What enabling or disabling autostart is asked to do.
pub struct AutostartRequest {
    /// Enable (`true`) or disable autostart.
    pub enabled: bool,
    /// Whether the GUI executable is a file in the installation root.
    pub executable_present: bool,
    /// The path of the GUI executable, or `None` where it is not valid Unicode.
    pub executable: Option<String>,
    /// Whether launchctl is driven (LaunchAgents only).
    pub manage_service: bool,
}

/// The characters of the executable's path, where it has them.
pub open spec fn executable_of(request: AutostartRequest) -> Option<Seq<char>> {
    match request.executable {
        Some(e) => Some(e@),
        None => None,
    }
}

/// The steps and result that `set_enabled` plans for `request`.
pub open spec fn plan_for(platform: Platform, request: AutostartRequest) -> (Seq<AutostartStep>, Result<(), AutostartError>) {
    match platform {
        Platform::Windows => win::plan_of(request.enabled, request.executable_present, executable_of(request)),
        Platform::Launchd => mac::plan_of(request.enabled, request.executable_present, request.manage_service),
    }
}

/// Enables or disables autostart on `platform`: the steps to run in order,
/// stopping at the first that fails, and the result once all have run.
pub fn set_enabled(platform: Platform, request: &AutostartRequest) -> (plan: AutostartPlan)
    ensures
        plan.steps@ == plan_for(platform, *request).0,
        plan.outcome == plan_for(platform, *request).1,
{
    match platform {
        Platform::Windows => {
            let executable = match &request.executable {
                Some(e) => Some(e.as_str()),
                None => None,
            };
            win::set_enabled(request.enabled, request.executable_present, executable)
        },
        Platform::Launchd => mac::set_enabled(request.enabled, request.executable_present, request.manage_service),
    }
}

/// What the system shows of the autostart registration.
pub struct RegistrationFacts {
    /// The `Run` value exists and holds text (Windows).
    pub run_value_exists: bool,
    /// The Startup-folder shortcut of earlier versions is a file (Windows).
    pub legacy_shortcut_exists: bool,
    /// The LaunchAgents plist is a file.
    pub plist_exists: bool,
}

/// Whether autostart counts as registered, from what the system shows.
pub open spec fn registered_by(platform: Platform, facts: RegistrationFacts) -> bool {
    match platform {
        Platform::Windows => facts.run_value_exists || facts.legacy_shortcut_exists,
        Platform::Launchd => facts.plist_exists,
    }
}

/// Whether autostart is registered: on Windows the `Run` value or the legacy
/// shortcut exists; elsewhere the plist exists.
pub fn is_registered(platform: Platform, facts: &RegistrationFacts) -> (registered: bool)
    ensures
        registered == registered_by(platform, *facts),
{
    match platform {
        Platform::Windows => facts.run_value_exists || facts.legacy_shortcut_exists,
        Platform::Launchd => facts.plist_exists,
    }
}

/// The state that autostart steps act on.
pub ghost struct AutostartState {
    /// The command in the `Run` value, if it exists.
    pub run_value: Option<Seq<char>>,
    /// Whether `install-root.txt` records the installation root.
    pub install_root_recorded: bool,
    /// Whether the legacy Startup-folder shortcut exists.
    pub legacy_shortcut: bool,
    /// The text of the LaunchAgents plist, if it exists.
    pub plist: Option<Seq<char>>,
    /// Whether launchd has the agent loaded.
    pub service_loaded: bool,
}

/// The state after `step` succeeds, for the executable at `executable`.
pub open spec fn apply_step(state: AutostartState, step: AutostartStep, executable: Seq<char>) -> AutostartState {
    match step {
        AutostartStep::WriteRunValue => AutostartState { run_value: Some(run_command_text(executable)), ..state },
        AutostartStep::WriteInstallRoot => AutostartState { install_root_recorded: true, ..state },
        AutostartStep::RemoveRunValue => AutostartState { run_value: None, ..state },
        AutostartStep::RemoveInstallRoot => AutostartState { install_root_recorded: false, ..state },
        AutostartStep::RemoveLegacyShortcut => AutostartState { legacy_shortcut: false, ..state },
        AutostartStep::InstallPlist => AutostartState { plist: Some(plist_text(executable)), ..state },
        AutostartStep::BootstrapService => AutostartState { service_loaded: true, ..state },
        AutostartStep::BootoutService => AutostartState { service_loaded: false, ..state },
        AutostartStep::RemovePlist => AutostartState { plist: None, ..state },
        _ => state,
    }
}

/// The state after all of `steps` succeed in order.
pub open spec fn apply_steps(state: AutostartState, steps: Seq<AutostartStep>, executable: Seq<char>) -> AutostartState
    decreases steps.len(),
{
    if steps.len() == 0 {
        state
    } else {
        apply_steps(apply_step(state, steps[0], executable), steps.drop_first(), executable)
    }
}

/// What the system shows of a state.
pub open spec fn facts_of(state: AutostartState) -> RegistrationFacts {
    RegistrationFacts {
        run_value_exists: state.run_value is Some,
        legacy_shortcut_exists: state.legacy_shortcut,
        plist_exists: state.plist is Some,
    }
}

/// Whether a state counts as registered.
pub open spec fn registered_in(platform: Platform, state: AutostartState) -> bool {
    registered_by(platform, facts_of(state))
}

/// The executable's path as the steps record it.
pub open spec fn executable_text(request: AutostartRequest) -> Seq<char> {
    match executable_of(request) {
        Some(e) => e,
        None => Seq::empty(),
    }
}

/// The state that the planned steps leave, where all of them succeed.
pub open spec fn state_after(platform: Platform, request: AutostartRequest, state: AutostartState) -> AutostartState {
    apply_steps(state, plan_for(platform, request).0, executable_text(request))
}

/// Enabling or disabling twice in a row leaves what doing it once leaves.
pub proof fn law_set_enabled_is_idempotent(platform: Platform, request: AutostartRequest, state: AutostartState)
    ensures
        state_after(platform, request, state_after(platform, request, state)) == state_after(platform, request, state),
{
    reveal_with_fuel(apply_steps, 8);
}

/// Enabling with the executable present, and on Windows with a Unicode path
/// free of double quotes, succeeds and leaves autostart registered, whatever
/// was registered before.
pub proof fn law_enable_registers(platform: Platform, request: AutostartRequest, state: AutostartState)
    requires
        request.enabled,
        request.executable_present,
        platform == Platform::Windows ==> (executable_of(request) matches Some(e) && !e.contains('"')),
    ensures
        plan_for(platform, request).1 == Ok::<(), AutostartError>(()),
        registered_in(platform, state_after(platform, request, state)),
{
    reveal_with_fuel(apply_steps, 8);
}

/// Enabling writes the command for the executable (Windows) or the plist
/// naming it (LaunchAgents).
pub proof fn law_enable_records_executable(platform: Platform, request: AutostartRequest, state: AutostartState)
    requires
        request.enabled,
        plan_for(platform, request).1 is Ok,
    ensures
        platform == Platform::Windows ==> state_after(platform, request, state).run_value == Some(run_command_text(executable_text(request))),
        platform == Platform::Launchd ==> state_after(platform, request, state).plist == Some(plist_text(executable_text(request))),
{
    reveal_with_fuel(apply_steps, 8);
}

/// Disabling always succeeds and leaves autostart unregistered, whatever was
/// registered before; disabling again is a no-op success.
pub proof fn law_disable_unregisters(platform: Platform, request: AutostartRequest, state: AutostartState)
    requires
        !request.enabled,
    ensures
        plan_for(platform, request).1 == Ok::<(), AutostartError>(()),
        !registered_in(platform, state_after(platform, request, state)),
{
    reveal_with_fuel(apply_steps, 8);
}

/// Disabling the LaunchAgents plist, whatever the executable and its path,
/// boots the agent out of launchd first where launchctl is driven, then
/// removes the plist: the agent is neither loaded nor installed afterwards.
pub proof fn law_launchd_disable_unloads_the_agent(request: AutostartRequest, state: AutostartState)
    requires
        !request.enabled,
    ensures
        plan_for(Platform::Launchd, request).0 == (if request.manage_service {
            seq![AutostartStep::BootoutService, AutostartStep::RemovePlist]
        } else {
            seq![AutostartStep::RemovePlist]
        }),
        request.manage_service ==> !state_after(Platform::Launchd, request, state).service_loaded,
        !request.manage_service ==> state_after(Platform::Launchd, request, state).service_loaded == state.service_loaded,
        state_after(Platform::Launchd, request, state).plist is None,
{
    reveal_with_fuel(apply_steps, 3);
    assert(plan_for(Platform::Launchd, request).0 =~= (if request.manage_service {
        seq![AutostartStep::BootoutService, AutostartStep::RemovePlist]
    } else {
        seq![AutostartStep::RemovePlist]
    }));
}

/// Enabling the LaunchAgents plist with the executable present installs the
/// plist and, where launchctl is driven, loads the agent.
pub proof fn law_launchd_enable_loads_the_agent(request: AutostartRequest, state: AutostartState)
    requires
        request.enabled,
        request.executable_present,
    ensures
        plan_for(Platform::Launchd, request).0 == (if request.manage_service {
            seq![AutostartStep::CreateAgentsDir, AutostartStep::InstallPlist, AutostartStep::BootstrapService]
        } else {
            seq![AutostartStep::CreateAgentsDir, AutostartStep::InstallPlist]
        }),
        request.manage_service ==> state_after(Platform::Launchd, request, state).service_loaded,
        state_after(Platform::Launchd, request, state).plist is Some,
{
    reveal_with_fuel(apply_steps, 4);
    assert(plan_for(Platform::Launchd, request).0 =~= (if request.manage_service {
        seq![AutostartStep::CreateAgentsDir, AutostartStep::InstallPlist, AutostartStep::BootstrapService]
    } else {
        seq![AutostartStep::CreateAgentsDir, AutostartStep::InstallPlist]
    }));
}

/// Enabling without the executable is refused before anything is touched.
pub proof fn law_missing_executable_changes_nothing(platform: Platform, request: AutostartRequest, state: AutostartState)
    requires
        request.enabled,
        !request.executable_present,
    ensures
        plan_for(platform, request).1 == Err::<(), AutostartError>(AutostartError::MissingExecutable),
        plan_for(platform, request).0.len() == 0,
        state_after(platform, request, state) == state,
{
}

/// On Windows, a path with a double quote is refused before the `Run` value or
/// the installation record is written.
pub proof fn law_quoted_path_writes_nothing(request: AutostartRequest, state: AutostartState)
    requires
        request.enabled,
        request.executable_present,
        executable_of(request) matches Some(e) && e.contains('"'),
    ensures
        plan_for(Platform::Windows, request).1 == Err::<(), AutostartError>(AutostartError::QuoteInExecutable),
        state_after(Platform::Windows, request, state).run_value == state.run_value,
        state_after(Platform::Windows, request, state).install_root_recorded == state.install_root_recorded,
{
    reveal_with_fuel(apply_steps, 8);
}

} // verus!
