use codex_keep_warm::startup::{
    check_update, is_enabled, registry_arguments, startup_command, startup_notice, RegistryRequest,
};

#[test]
fn startup_launch_is_quoted_and_hidden() {
    assert_eq!(
        startup_command(r"C:\Program Files\Codex Keep Warm\codex-keep-warm.exe"),
        r#""C:\Program Files\Codex Keep Warm\codex-keep-warm.exe" --hidden"#
    );
}

#[test]
fn asks_the_registry() {
    let key = r"HKCU\Software\Microsoft\Windows\CurrentVersion\Run";
    assert_eq!(
        registry_arguments(&RegistryRequest::Query),
        ["query", key, "/v", "CodexKeepWarm"]
    );
    assert_eq!(
        registry_arguments(&RegistryRequest::Enable("app.exe".into())),
        [
            "add",
            key,
            "/v",
            "CodexKeepWarm",
            "/t",
            "REG_SZ",
            "/d",
            "\"app.exe\" --hidden",
            "/f"
        ]
    );
    assert_eq!(
        registry_arguments(&RegistryRequest::Disable),
        ["delete", key, "/v", "CodexKeepWarm", "/f"]
    );
    assert!(is_enabled(Some(true)));
    assert!(!is_enabled(Some(false)));
    assert!(!is_enabled(None));
}

#[test]
fn describes_registry_failures() {
    assert_eq!(check_update(true, &b"ignored".to_vec()), Ok(()));
    assert_eq!(
        check_update(false, &b"\r\n".to_vec()).unwrap_err(),
        "Could not update Windows startup."
    );
    assert_eq!(
        check_update(false, &vec![b' ', b'n', 0xff, b'\n']).unwrap_err(),
        "Could not update Windows startup: n\u{fffd}"
    );
    assert_eq!(startup_notice(false), "Windows startup disabled.");
    assert!(startup_notice(true).starts_with("Windows startup enabled."));
}
