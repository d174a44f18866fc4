# codex_router_gui

Autostart registration and credential storage for the Codex Router GUI, as a
Verus-verified library (`src/`) with the operating-system work in `app/`.

- `src/autostart.rs`, `src/autostart/win.rs`, `src/autostart/mac.rs`: what
  enabling and disabling autostart does (the `Run` registry value on Windows,
  a LaunchAgents plist elsewhere) as a plan of steps, the autostart command,
  the XML-escaped plist, the launchctl arguments, and the laws that the plans
  keep (idempotence, enable registers, disable unregisters).
- `src/credentials.rs`: credential targets and scopes, environment overrides,
  the UTF-16 form in which the Windows Credential Manager stores a secret and
  the Keychain's output, with the laws that a stored secret reads back.
- `src/utf16.rs`, `src/text.rs`: UTF-16 encoding and decoding, and character
  helpers.
- `app/`: the registry, Credential Manager, Keychain, launchctl and file-system
  calls, which run the library's plans.
