use codex_router_gui::autostart::mac::{
    bootout_args, bootstrap_args, gui_domain, plist_document, xml_escape, LAUNCHD_LABEL,
};
use codex_router_gui::autostart::win::{
    registry_value_size, removal_after_delete, removal_after_open, run_command, run_value_exists,
    RunValueRemoval, ERROR_FILE_NOT_FOUND, ERROR_PATH_NOT_FOUND, ERROR_SUCCESS,
};
use codex_router_gui::autostart::{
    is_registered, set_enabled, AutostartError, AutostartRequest, AutostartStep, PidMarker,
    Platform, RegistrationFacts,
};

#[test]
fn native_autostart_command_quotes_the_executable_and_uses_background_mode() {
    let executable = r"D:\Program Files\Codex Router\Codex-Router.exe";
    assert_eq!(
        run_command(executable).unwrap(),
        r#""D:\Program Files\Codex Router\Codex-Router.exe" --background"#
    );
}

#[test]
fn native_autostart_command_rejects_quote_injection() {
    assert!(run_command("D:\\bad\"path\\Codex-Router.exe").is_err());
}

#[test]
fn run_command_reports_the_quote() {
    assert_eq!(
        run_command("a\"b").unwrap_err(),
        AutostartError::QuoteInExecutable
    );
    assert_eq!(run_command("").unwrap(), "\"\" --background");
}

fn request(enabled: bool, present: bool, executable: Option<&str>, manage: bool) -> AutostartRequest {
    AutostartRequest {
        enabled,
        executable_present: present,
        executable: executable.map(|e| e.to_string()),
        manage_service: manage,
    }
}

#[test]
fn windows_enable_writes_the_run_value_after_clearing_markers() {
    let plan = set_enabled(Platform::Windows, &request(true, true, Some(r"C:\R\Codex-Router.exe"), true));
    assert_eq!(plan.outcome, Ok(()));
    assert_eq!(
        plan.steps,
        vec![
            AutostartStep::RemovePidMarker(PidMarker::HealthMonitorEnabled),
            AutostartStep::RemovePidMarker(PidMarker::HealthMonitorPaused),
            AutostartStep::PrepareStateRoot,
            AutostartStep::WriteRunValue,
            AutostartStep::WriteInstallRoot,
            AutostartStep::RemoveLegacyShortcut,
            AutostartStep::RemoveLegacyTask,
        ]
    );
}

#[test]
fn windows_disable_removes_the_run_value() {
    let plan = set_enabled(Platform::Windows, &request(false, false, None, true));
    assert_eq!(plan.outcome, Ok(()));
    assert_eq!(
        plan.steps,
        vec![
            AutostartStep::RemovePidMarker(PidMarker::HealthMonitorEnabled),
            AutostartStep::RemovePidMarker(PidMarker::HealthMonitorPaused),
            AutostartStep::PrepareStateRoot,
            AutostartStep::RemoveRunValue,
            AutostartStep::RemoveInstallRoot,
            AutostartStep::RemoveLegacyShortcut,
            AutostartStep::RemoveLegacyTask,
        ]
    );
}

#[test]
fn windows_enable_without_executable_touches_nothing() {
    let plan = set_enabled(Platform::Windows, &request(true, false, Some(r"C:\R\Codex-Router.exe"), true));
    assert_eq!(plan.outcome, Err(AutostartError::MissingExecutable));
    assert!(plan.steps.is_empty());
}

#[test]
fn windows_enable_stops_at_a_bad_path_after_the_common_steps() {
    let quoted = set_enabled(Platform::Windows, &request(true, true, Some("C:\\a\"b.exe"), true));
    assert_eq!(quoted.outcome, Err(AutostartError::QuoteInExecutable));
    assert_eq!(quoted.steps.len(), 3);
    assert_eq!(quoted.steps[2], AutostartStep::PrepareStateRoot);
    let non_unicode = set_enabled(Platform::Windows, &request(true, true, None, true));
    assert_eq!(non_unicode.outcome, Err(AutostartError::NonUnicodeExecutable));
    assert_eq!(non_unicode.steps.len(), 3);
}

#[test]
fn launchd_enable_installs_the_plist_and_bootstraps() {
    let plan = set_enabled(Platform::Launchd, &request(true, true, Some("/Apps/Codex-Router"), true));
    assert_eq!(plan.outcome, Ok(()));
    assert_eq!(
        plan.steps,
        vec![
            AutostartStep::CreateAgentsDir,
            AutostartStep::InstallPlist,
            AutostartStep::BootstrapService,
        ]
    );
    let unmanaged = set_enabled(Platform::Launchd, &request(true, true, Some("/Apps/Codex-Router"), false));
    assert_eq!(unmanaged.steps, vec![AutostartStep::CreateAgentsDir, AutostartStep::InstallPlist]);
}

#[test]
fn launchd_disable_boots_out_and_removes_the_plist() {
    let plan = set_enabled(Platform::Launchd, &request(false, false, None, true));
    assert_eq!(plan.outcome, Ok(()));
    assert_eq!(plan.steps, vec![AutostartStep::BootoutService, AutostartStep::RemovePlist]);
    let unmanaged = set_enabled(Platform::Launchd, &request(false, true, None, false));
    assert_eq!(unmanaged.steps, vec![AutostartStep::RemovePlist]);
}

#[test]
fn enable_refuses_a_root_without_the_gui_binary() {
    let plan = set_enabled(Platform::Launchd, &request(true, false, Some("/Empty/Codex-Router"), true));
    assert_eq!(plan.outcome, Err(AutostartError::MissingExecutable));
    assert!(plan.steps.is_empty());
}

#[test]
fn registration_follows_what_the_system_shows() {
    let none = RegistrationFacts { run_value_exists: false, legacy_shortcut_exists: false, plist_exists: false };
    assert!(!is_registered(Platform::Windows, &none));
    assert!(!is_registered(Platform::Launchd, &none));
    let run = RegistrationFacts { run_value_exists: true, legacy_shortcut_exists: false, plist_exists: false };
    assert!(is_registered(Platform::Windows, &run));
    assert!(!is_registered(Platform::Launchd, &run));
    let shortcut = RegistrationFacts { run_value_exists: false, legacy_shortcut_exists: true, plist_exists: false };
    assert!(is_registered(Platform::Windows, &shortcut));
    let plist = RegistrationFacts { run_value_exists: false, legacy_shortcut_exists: false, plist_exists: true };
    assert!(is_registered(Platform::Launchd, &plist));
    assert!(!is_registered(Platform::Windows, &plist));
}

#[test]
fn registry_statuses_decide_the_run_value() {
    assert!(run_value_exists(ERROR_SUCCESS, 2));
    assert!(!run_value_exists(ERROR_SUCCESS, 0));
    assert!(!run_value_exists(ERROR_FILE_NOT_FOUND, 40));
    assert_eq!(registry_value_size(21), Some(42));
    assert_eq!(registry_value_size(0x7FFF_FFFF), Some(0xFFFF_FFFE));
    assert_eq!(registry_value_size(0x8000_0000), None);
    assert_eq!(removal_after_open(ERROR_FILE_NOT_FOUND), RunValueRemoval::AlreadyAbsent);
    assert_eq!(removal_after_open(ERROR_PATH_NOT_FOUND), RunValueRemoval::AlreadyAbsent);
    assert_eq!(removal_after_open(5), RunValueRemoval::OpenFailed(5));
    assert_eq!(removal_after_open(ERROR_SUCCESS), RunValueRemoval::DeleteValue);
    assert_eq!(removal_after_delete(ERROR_SUCCESS), Ok(()));
    assert_eq!(removal_after_delete(ERROR_FILE_NOT_FOUND), Ok(()));
    assert_eq!(removal_after_delete(5), Err(5));
}

#[test]
fn xml_escape_writes_entities() {
    assert_eq!(xml_escape("a&b<c>d\"e'f"), "a&amp;b&lt;c&gt;d&quot;e'f");
    assert_eq!(xml_escape("/Users/a b/Codex-Router"), "/Users/a b/Codex-Router");
    assert_eq!(xml_escape("&amp;"), "&amp;amp;");
    assert_eq!(xml_escape(""), "");
    assert_eq!(xml_escape("黑<风>"), "黑&lt;风&gt;");
}

#[test]
fn plist_names_the_label_the_executable_and_background_mode() {
    let plist = plist_document("/Apps/R&D/Codex-Router");
    assert!(plist.starts_with("<?xml version=\"1.0\" encoding=\"UTF-8\"?>\n"));
    assert!(plist.contains(LAUNCHD_LABEL));
    assert!(plist.contains("--background"));
    assert!(plist.contains("\t\t<string>/Apps/R&amp;D/Codex-Router</string>\n"));
    assert!(plist.contains("\t<key>RunAtLoad</key>\n\t<true/>\n"));
    assert!(plist.ends_with("</dict>\n</plist>\n"));
    let expected = [
        "<?xml version=\"1.0\" encoding=\"UTF-8\"?>\n",
        "<!DOCTYPE plist PUBLIC \"-//Apple//DTD PLIST 1.0//EN\" ",
        "\"http://www.apple.com/DTDs/PropertyList-1.0.dtd\">\n",
        "<plist version=\"1.0\">\n",
        "<dict>\n",
        "\t<key>Label</key>\n",
        "\t<string>com.github.hernanjiang.codexrouter</string>\n",
        "\t<key>ProgramArguments</key>\n",
        "\t<array>\n",
        "\t\t<string>/x</string>\n",
        "\t\t<string>--background</string>\n",
        "\t</array>\n",
        "\t<key>RunAtLoad</key>\n",
        "\t<true/>\n",
        "</dict>\n",
        "</plist>\n",
    ]
    .join("");
    assert_eq!(plist_document("/x"), expected);
}

#[test]
fn launchctl_arguments_name_the_user_domain() {
    assert_eq!(gui_domain(501), "gui/501");
    assert_eq!(gui_domain(0), "gui/0");
    assert_eq!(gui_domain(u32::MAX), "gui/4294967295");
    assert_eq!(
        bootstrap_args(501, "/Users/u/Library/LaunchAgents/x.plist"),
        vec!["bootstrap", "gui/501", "/Users/u/Library/LaunchAgents/x.plist"]
    );
    assert_eq!(
        bootout_args(501),
        vec!["bootout", "gui/501/com.github.hernanjiang.codexrouter"]
    );
}
