use codex_keep_warm::account::{Account, AppConfig};
use codex_keep_warm::claude::Provider;
use codex_keep_warm::storage::{
    account_home, account_id, area_parts, check_removal, check_settings, choose_root,
    choose_settings_file, home_config, new_account_id, next_save_step, provider_home, settle_times,
    validate_account_id, verify_directory, warmup_workspace, Area, Platform, RootVariable,
    RootVariables, SaveReport, SaveStep, SettingsFile,
};
use codex_keep_warm::time::DailyTime;

fn config(ids: &[&str]) -> AppConfig {
    AppConfig {
        accounts: ids
            .iter()
            .map(|id| Account::new((*id).into(), "Personal".into()))
            .collect(),
        ..AppConfig::default()
    }
}

#[test]
fn account_names_are_hexadecimal() {
    assert_eq!(validate_account_id("abc001"), Ok(()));
    assert!(validate_account_id("../../target").is_err());
    for bad in ["", "G", "AB", "a b", "ä", &"a".repeat(33)] {
        assert_eq!(
            validate_account_id(bad).unwrap_err(),
            "Settings contain an invalid account ID"
        );
    }
    assert_eq!(validate_account_id(&"f".repeat(32)), Ok(()));
}

#[test]
fn new_accounts_are_named_after_the_moment() {
    assert_eq!(account_id(0), "0");
    assert_eq!(account_id(255), "ff");
    assert_eq!(account_id(0x1234_abcd), "1234abcd");
    assert_eq!(account_id(u128::MAX), "f".repeat(32));
    assert_ne!(account_id(16), account_id(17));
    let id = new_account_id();
    assert_eq!(validate_account_id(&id), Ok(()));
    assert!(id.len() > 10, "{id}");
}

#[test]
fn accounts_have_directories_of_their_own() {
    assert_eq!(account_home("ab"), ["accounts", "ab", "codex-home"]);
    assert_eq!(warmup_workspace("ab"), ["accounts", "ab", "warmup"]);
    assert_eq!(area_parts(Area::Account, "ab"), ["accounts", "ab"]);
    assert_ne!(account_home("ab"), account_home("cd"));
    assert_eq!(
        home_config(),
        "cli_auth_credentials_store = \"keyring\"\n"
    );
}

#[test]
fn logins_with_other_providers_have_homes_of_their_own() {
    let provider = |program: &str| Provider {
        name: "Provider".into(),
        program: program.into(),
        web_login: "provider.example".into(),
    };
    let tool = provider("tool");
    assert_eq!(provider_home(&tool, "ab"), ["accounts", "ab", "tool-home"]);
    assert_ne!(provider_home(&tool, "ab"), provider_home(&tool, "cd"));
    assert_ne!(provider_home(&tool, "ab"), provider_home(&provider("other"), "ab"));
    assert_ne!(provider_home(&tool, "ab"), account_home("ab"));
}

#[test]
fn settings_are_made_fit_for_use() {
    let mut stored = config(&["a", "b"]);
    stored.refresh_interval_secs = 45;
    stored.accounts[1].warmup_times = vec![
        DailyTime(60),
        DailyTime(5),
        DailyTime(60),
        DailyTime(5),
        DailyTime(7),
    ];
    let settings = check_settings(stored).unwrap();
    assert_eq!(settings.refresh_interval_secs, 45);
    assert_eq!(settings.accounts[0].label, "Personal");
    assert_eq!(
        settings.accounts[1].warmup_times,
        [DailyTime(5), DailyTime(7), DailyTime(60)]
    );

    let mut eager = config(&[]);
    eager.refresh_interval_secs = 0;
    assert_eq!(check_settings(eager).unwrap().refresh_interval_secs, 5);
    let mut lazy = config(&[]);
    lazy.refresh_interval_secs = 90_000;
    assert_eq!(check_settings(lazy).unwrap().refresh_interval_secs, 3_600);
}

#[test]
fn settings_are_read_back_as_saved() {
    let mut account = Account::new("abc001".into(), "Personal".into());
    account.add_time(DailyTime(480));
    account.add_time(DailyTime(60));
    account.usage_history.weekly.show_workweek_lines = true;
    let saved = AppConfig {
        accounts: vec![account.clone()],
        refresh_interval_secs: 45,
        ..AppConfig::default()
    };
    let once = check_settings(saved).unwrap();
    assert_eq!(once.accounts[0].warmup_times, account.warmup_times);
    assert!(once.accounts[0].usage_history.weekly.show_workweek_lines);
    let twice = check_settings(once).unwrap();
    assert_eq!(twice.accounts[0].warmup_times, account.warmup_times);
    assert_eq!(twice.refresh_interval_secs, 45);
}

#[test]
fn settings_with_bad_names_are_refused() {
    assert_eq!(
        check_settings(config(&["a", "a", "G"])).err().as_deref(),
        Some("Settings contain a duplicate account ID")
    );
    assert_eq!(
        check_settings(config(&["a", "G", "a"])).err().as_deref(),
        Some("Settings contain an invalid account ID")
    );
}

#[test]
fn schedules_are_settled() {
    let mut times = vec![DailyTime(9), DailyTime(9), DailyTime(1)];
    settle_times(&mut times);
    assert_eq!(times, [DailyTime(1), DailyTime(9)]);
    let mut none = Vec::new();
    settle_times(&mut none);
    assert!(none.is_empty());
}

#[test]
fn the_directory_of_the_app_depends_on_the_platform() {
    let none = RootVariables {
        profile: false,
        local_app_data: false,
        config_home: false,
        home: false,
    };
    let home = RootVariables { home: true, ..none };
    let all = RootVariables {
        profile: false,
        local_app_data: true,
        config_home: true,
        home: true,
    };
    assert_eq!(
        choose_root(Platform::Windows, all),
        Ok((RootVariable::LocalAppData, "CodexKeepWarm"))
    );
    assert_eq!(
        choose_root(Platform::MacOs, all),
        Ok((
            RootVariable::Home,
            "Library/Application Support/CodexKeepWarm"
        ))
    );
    assert_eq!(
        choose_root(Platform::Other, all),
        Ok((RootVariable::ConfigHome, "codex-keep-warm"))
    );
    assert_eq!(
        choose_root(Platform::Other, home),
        Ok((RootVariable::Home, ".config/codex-keep-warm"))
    );
    assert_eq!(
        choose_root(
            Platform::Windows,
            RootVariables {
                profile: true,
                ..all
            }
        ),
        Ok((RootVariable::Profile, ""))
    );
    for platform in [Platform::Windows, Platform::MacOs, Platform::Other] {
        assert_eq!(
            choose_root(platform, none).unwrap_err(),
            "Could not find the local app-data directory"
        );
    }
    assert_eq!(RootVariable::Profile.name(), "CODEX_KEEP_WARM_HOME");
}

#[test]
fn directories_that_lead_elsewhere_are_refused() {
    let gone = || Err("gone".to_string());
    assert_eq!(verify_directory(Ok(true), Ok(false)), Ok(()));
    for (resolved, link) in [(false, false), (true, true), (false, true)] {
        assert_eq!(
            verify_directory(Ok(resolved), Ok(link)).unwrap_err(),
            "Refusing to use aliased app storage"
        );
    }
    assert_eq!(
        verify_directory(gone(), Ok(false)).unwrap_err(),
        "Could not verify app storage: gone"
    );
    assert_eq!(
        verify_directory(Ok(true), gone()).unwrap_err(),
        "Could not verify app storage: gone"
    );
    assert_eq!(check_removal(Ok(true), Ok(false)), Ok(()));
    assert_eq!(
        check_removal(Ok(true), Ok(true)).unwrap_err(),
        "Refusing to remove account storage outside the app directory"
    );
    assert_eq!(
        check_removal(Ok(false), gone()).unwrap_err(),
        "Refusing to remove account storage outside the app directory"
    );
    assert_eq!(
        check_removal(gone(), Ok(false)).unwrap_err(),
        "Could not verify account storage: gone"
    );
    assert_eq!(
        check_removal(Ok(true), gone()).unwrap_err(),
        "Could not verify account storage: gone"
    );
}

#[test]
fn settings_are_read_from_the_best_file() {
    assert_eq!(
        choose_settings_file(true, true, true),
        Some(SettingsFile::Settings)
    );
    assert_eq!(
        choose_settings_file(false, true, true),
        Some(SettingsFile::Temporary)
    );
    assert_eq!(
        choose_settings_file(false, false, true),
        Some(SettingsFile::Backup)
    );
    assert_eq!(choose_settings_file(false, false, false), None);
    assert_eq!(SettingsFile::Settings.name(), "settings.json");
    assert_eq!(SettingsFile::Temporary.name(), "settings.json.tmp");
    assert_eq!(SettingsFile::Backup.name(), "settings.json.bak");
}

#[derive(Clone, Debug, Default)]
struct Files {
    settings: Option<&'static str>,
    temporary: Option<&'static str>,
    backup: Option<&'static str>,
}

impl Files {
    fn read(&self) -> Option<&'static str> {
        match choose_settings_file(
            self.settings.is_some(),
            self.temporary.is_some(),
            self.backup.is_some(),
        )? {
            SettingsFile::Settings => self.settings,
            SettingsFile::Temporary => self.temporary,
            SettingsFile::Backup => self.backup,
        }
    }

    fn perform(&mut self, step: &SaveStep) {
        match step {
            SaveStep::Write => self.temporary = Some("new"),
            SaveStep::RemoveBackup | SaveStep::Discard => self.backup = None,
            SaveStep::BackUp => self.backup = self.settings.take(),
            SaveStep::Replace => self.settings = self.temporary.take(),
            SaveStep::Restore(_) => self.settings = self.backup.take(),
            SaveStep::Finished(_) => {}
        }
    }
}

fn save(files: &mut Files, failing: Option<usize>) -> (usize, Result<(), String>) {
    let mut step = SaveStep::Write;
    let mut steps = 0;
    loop {
        if let SaveStep::Finished(result) = step {
            return (steps, result);
        }
        let failed = failing == Some(steps);
        if failed {
            if let SaveStep::Write = step {
                files.temporary = Some("ne");
            }
        } else {
            files.perform(&step);
        }
        steps += 1;
        let read = files.read();
        assert!(
            read == Some("old") || read == Some("new"),
            "{files:?} after {step:?}"
        );
        step = next_save_step(
            step,
            SaveReport {
                problem: failed.then(|| "full".to_string()),
                settings_exists: files.settings.is_some(),
                backup_exists: files.backup.is_some(),
            },
        );
    }
}

#[test]
fn saving_never_loses_settings() {
    let before = Files {
        settings: Some("old"),
        temporary: None,
        backup: Some("older"),
    };
    let mut files = before.clone();
    let (steps, result) = save(&mut files, None);
    assert_eq!(result, Ok(()));
    assert_eq!(steps, 5);
    assert_eq!(files.read(), Some("new"));
    assert_eq!(files.backup, None);

    let expected = [
        Err("Could not save settings: full"),
        Err("Could not rotate settings: full"),
        Err("Could not rotate settings: full"),
        Err("Could not replace settings: full"),
        Ok(()),
    ];
    for (failing, expected) in expected.into_iter().enumerate() {
        let mut files = before.clone();
        let (_, result) = save(&mut files, Some(failing));
        assert_eq!(result, expected.map_err(str::to_owned));
    }
}

#[test]
fn first_settings_are_saved_without_a_backup() {
    let mut files = Files {
        temporary: Some("new"),
        ..Files::default()
    };
    let (steps, result) = save(&mut files, None);
    assert_eq!((steps, result), (2, Ok(())));
    assert_eq!(files.settings, Some("new"));
    assert_eq!(files.backup, None);
}
