use sd_rust::prompt::confirm_overwrite;
use sd_rust::service::{
    check_path_for_unit_file, generate_service_file, install, remove, service_dir, service_path,
    systemctl_args, ServiceStep,
};
use sd_rust::udev::{create_udev_rules, UdevStep};

#[test]
fn accepts_normal_paths() {
    assert!(check_path_for_unit_file("/home/wil/.local/bin/sd_rust").is_ok());
    assert!(check_path_for_unit_file("/usr/bin/sd_rust").is_ok());
    assert!(check_path_for_unit_file("/home/My User/bin/sd_rust").is_ok());
}

#[test]
fn rejects_systemd_quoting_specials() {
    for p in ["/tmp/a\"b", "/tmp/a\\b", "/tmp/a$b", "/tmp/a%b"] {
        assert!(check_path_for_unit_file(p).is_err(), "{p:?} should be rejected");
    }
}

#[test]
fn rejects_control_chars() {
    assert!(check_path_for_unit_file("/tmp/x\nExecStartPre=/evil").is_err());
    assert!(check_path_for_unit_file("/tmp/x\ty").is_err());
    assert!(check_path_for_unit_file("/tmp/x\0y").is_err());
}

#[test]
fn the_first_bad_character_is_named() {
    assert_eq!(check_path_for_unit_file("/a%b$c"), Err('%'));
    assert_eq!(check_path_for_unit_file("/a\u{85}"), Err('\u{85}'));
}

#[test]
fn unit_file_has_expected_directives() {
    let unit = generate_service_file("/home/me/.local/bin/sd_rust");
    assert!(unit.contains("ExecStart=\"/home/me/.local/bin/sd_rust\""));
    assert!(unit.contains("Restart=on-failure"));
    assert!(unit.contains("RestartSec=5"));
    assert!(unit.contains("WantedBy=default.target"));
    // A few hardening directives that must survive edits.
    assert!(unit.contains("NoNewPrivileges=yes"));
    assert!(unit.contains("ProtectSystem=strict"));
    assert!(unit.contains("RestrictAddressFamilies=AF_UNIX AF_INET AF_INET6"));
}

#[test]
fn a_safe_path_stays_on_its_line() {
    let a = generate_service_file("/a");
    let b = generate_service_file("/some/other path/b");
    let differ: Vec<(&str, &str)> =
        a.lines().zip(b.lines()).filter(|(x, y)| x != y).collect();
    assert_eq!(differ, vec![("ExecStart=\"/a\"", "ExecStart=\"/some/other path/b\"")]);
    assert_eq!(a.lines().count(), b.lines().count());
    assert!(a.starts_with("[Unit]\n"));
}

#[test]
fn unit_paths() {
    assert_eq!(service_dir(Some("/c")).as_deref(), Some("/c/systemd/user"));
    assert_eq!(service_path(Some("/c")).as_deref(), Some("/c/systemd/user/sd_rust.service"));
    assert_eq!(service_path(None), None);
}

#[test]
fn install_and_remove_steps() {
    assert_eq!(install(false, false), vec![ServiceStep::CreateDir, ServiceStep::WriteUnit, ServiceStep::Reload, ServiceStep::Enable, ServiceStep::Start]);
    assert_eq!(install(true, false), vec![]);
    assert_eq!(
        install(true, true),
        vec![ServiceStep::TryStop, ServiceStep::TryDisable, ServiceStep::CreateDir, ServiceStep::WriteUnit, ServiceStep::Reload, ServiceStep::Enable, ServiceStep::Start]
    );
    assert_eq!(remove(false), vec![]);
    assert_eq!(remove(true), vec![ServiceStep::TryStop, ServiceStep::TryDisable, ServiceStep::RemoveUnit, ServiceStep::Reload]);
    assert_eq!(systemctl_args(ServiceStep::Reload), vec!["--user", "daemon-reload"]);
    assert_eq!(systemctl_args(ServiceStep::TryStop), vec!["--user", "stop", "sd_rust"]);
    assert!(systemctl_args(ServiceStep::WriteUnit).is_empty());
}

#[test]
fn overwriting_takes_a_yes() {
    assert!(confirm_overwrite(Some("y\n")));
    assert!(confirm_overwrite(Some(" Yes \n")));
    assert!(!confirm_overwrite(Some("YES\n")));
    assert!(!confirm_overwrite(Some("\n")));
    assert!(!confirm_overwrite(None));
}

#[test]
fn udev_rules_need_root_and_consent() {
    assert_eq!(create_udev_rules(false, false, None), UdevStep::NeedsRoot);
    assert_eq!(create_udev_rules(true, false, None), UdevStep::Write);
    assert_eq!(create_udev_rules(true, true, None), UdevStep::Ask);
    assert_eq!(create_udev_rules(true, true, Some(true)), UdevStep::Write);
    assert_eq!(create_udev_rules(true, true, Some(false)), UdevStep::Keep);
}
