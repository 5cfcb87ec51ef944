use sd_rust::launch::{
    after_raise, application_dirs, exec_argv, exec_name, find_desktop_file, forward_env,
    icon_source, is_decodable, is_running, launch, launch_or_raise, parse_desktop_entry,
    raise_plan, raise_script, raise_script_path, resolve_icon_path, runtime_dir, sanitize_class, wanted_file,
    window_class_candidates, AppDir, DesktopEntry, IconSource, LaunchError, LaunchStep, Process,
};

fn process(dir: &str, cmdline: &[u8]) -> Process {
    Process { dir: dir.to_string(), cmdline: cmdline.to_vec() }
}

fn app_dir(path: &str, has_wanted: bool, files: &[&str]) -> AppDir {
    AppDir {
        path: path.to_string(),
        has_wanted,
        files: files.iter().map(|f| f.to_string()).collect(),
    }
}

#[test]
fn strips_field_codes_and_splits() {
    assert_eq!(exec_argv("/usr/bin/firefox %u"), vec!["/usr/bin/firefox"]);
    assert_eq!(
        exec_argv("flatpak run --branch=stable org.mozilla.firefox @@u %U @@"),
        vec!["flatpak", "run", "--branch=stable", "org.mozilla.firefox", "@@u", "@@"]
    );
    assert_eq!(exec_argv("foo %% bar"), vec!["foo", "%", "bar"]);
}

#[test]
fn honors_double_quotes() {
    assert_eq!(
        exec_argv(r#"/opt/My App/run --flag "two words" %f"#),
        vec!["/opt/My", "App/run", "--flag", "two words"]
    );
}

#[test]
fn odd_exec_lines() {
    assert_eq!(exec_argv(""), Vec::<String>::new());
    assert_eq!(exec_argv("  %u %F "), Vec::<String>::new());
    assert_eq!(exec_argv("a \"\" b"), vec!["a", "", "b"]);
    assert_eq!(exec_argv("trailing %"), vec!["trailing"]);
    assert_eq!(exec_argv("a\"b c\"d"), vec!["ab cd"]);
}

#[test]
fn sanitizes_window_classes() {
    assert_eq!(sanitize_class("com.obsproject.Studio"), "com.obsproject.studio");
    assert_eq!(sanitize_class("Emacs"), "emacs");
    // Strips anything that could break out of a JS string literal.
    assert_eq!(sanitize_class(r#"a"; evil()//"#), "aevil");
    assert_eq!(sanitize_class("dev.zed.Zed"), "dev.zed.zed");
}

#[test]
fn builds_deduped_class_candidates() {
    let mut entry = DesktopEntry::new();
    entry.insert("StartupWMClass".to_string(), "obs".to_string());
    let c = window_class_candidates("com.obsproject.Studio", Some(&entry), "obs", None);
    assert!(c.contains(&"com.obsproject.studio".to_string()));
    assert!(c.contains(&"obs".to_string()));
    // `obs` from both StartupWMClass and exec name appears once.
    assert_eq!(c.iter().filter(|x| *x == "obs").count(), 1);

    // Explicit override is included and comes first.
    let c2 = window_class_candidates("firefox", None, "firefox", Some("MyClass"));
    assert_eq!(c2.first().unwrap(), "myclass");
}

#[test]
fn candidates_are_distinct_and_not_empty() {
    let c = window_class_candidates("A.desktop", None, "\u{e9}", Some("???"));
    assert_eq!(c, vec!["a.desktop", "a"]);
}

#[test]
fn is_running_false_for_bogus_name() {
    let processes = vec![
        process("1", b"/sbin/init\0splash\0"),
        process("77", b""),
        process("self", b"sd_rust_no_such_process_xyzzy\0"),
    ];
    assert!(!is_running("sd_rust_no_such_process_xyzzy", &processes));
}

#[test]
fn is_running_goes_by_the_first_argument() {
    let processes = vec![
        process("10", b"/usr/bin/firefox\0--new-window\0"),
        process("11", b"\xff\xfe/broken\0"),
    ];
    assert!(is_running("firefox", &processes));
    assert!(!is_running("broken", &processes));
    assert!(!is_running("--new-window", &processes));
}

#[test]
fn decodable_detection() {
    assert!(is_decodable("/x/icon.png"));
    assert!(is_decodable("/x/icon.JPEG"));
    assert!(is_decodable("/x/icon.svg")); // SVG now supported
    assert!(!is_decodable("/x/icon.xpm"));
    assert!(!is_decodable("/x/icon"));
}

#[test]
fn only_decodable_icons_resolve() {
    assert_eq!(resolve_icon_path(Some("/x/a.svgz".to_string())).as_deref(), Some("/x/a.svgz"));
    assert_eq!(resolve_icon_path(Some("/x/a.xpm".to_string())), None);
    assert_eq!(resolve_icon_path(None), None);
}

#[test]
fn parses_the_main_group_of_an_entry() {
    let entry = parse_desktop_entry(
        "# comment\n[Desktop Entry]\r\nName = Fire fox\nExec=/usr/bin/firefox %u\nExec=other\n\n[Desktop Action x]\nIcon=y\n",
    );
    assert_eq!(entry.get("Name").map(|s| s.as_str()), Some("Fire fox"));
    assert_eq!(entry.get("Exec").map(|s| s.as_str()), Some("/usr/bin/firefox %u"));
    assert!(entry.get("Icon").is_none());
    assert_eq!(exec_name("ff", Some(&entry)), "firefox");
    assert_eq!(exec_name("ff", None), "ff");
}

#[test]
fn reading_an_entry_stops_at_the_next_header() {
    let entry = parse_desktop_entry(
        "[X]\nExec=z\n[Desktop Entry]\nName=A\nName=B\n[X]\nExec=x\n[Desktop Entry]\nExec=y\n",
    );
    assert_eq!(entry.pairs, vec![("Name".to_string(), "A".to_string())]);
    let twice = parse_desktop_entry("[Desktop Entry]\nName=A\n[Desktop Entry]\nExec=y\n");
    assert!(twice.get("Exec").is_none());
    assert!(parse_desktop_entry("Name=A\n").pairs.is_empty());
}

#[test]
fn icon_sources() {
    let path = parse_desktop_entry("[Desktop Entry]\nIcon=/x/y.png\n");
    let named = parse_desktop_entry("[Desktop Entry]\nIcon=firefox\n");
    let none = parse_desktop_entry("[Desktop Entry]\n");
    assert!(matches!(icon_source(Some(&path)), IconSource::File(p) if p == "/x/y.png"));
    assert!(matches!(icon_source(Some(&named)), IconSource::Themed(n) if n == "firefox"));
    assert!(matches!(icon_source(Some(&none)), IconSource::Missing));
    assert!(matches!(icon_source(None), IconSource::Missing));
}

#[test]
fn running_apps_are_raised() {
    let entry = parse_desktop_entry("[Desktop Entry]\nExec=/usr/bin/obs\nStartupWMClass=obs\n");
    let running = vec![process("5", b"/usr/bin/obs\0")];
    match launch_or_raise("com.obsproject.Studio", Some(&entry), None, &running) {
        LaunchStep::Raise(classes) => {
            assert_eq!(classes, vec!["com.obsproject.studio", "obs"]);
        }
        LaunchStep::Launch => panic!("expected a raise"),
    }
    assert!(matches!(
        launch_or_raise("com.obsproject.Studio", Some(&entry), None, &Vec::new()),
        LaunchStep::Launch
    ));
    assert!(after_raise(true).is_none());
    assert!(matches!(after_raise(false), Some(LaunchStep::Launch)));
}

#[test]
fn launch_commands_and_their_errors() {
    let entry = parse_desktop_entry("[Desktop Entry]\nExec=/usr/bin/firefox %u\n");
    let env = vec![("DISPLAY".to_string(), ":0".to_string())];
    assert_eq!(
        launch("firefox", Some(&entry), &env).unwrap(),
        vec![
            "--user",
            "--collect",
            "--quiet",
            "--description=sd_rust launch: firefox",
            "--setenv=DISPLAY=:0",
            "--",
            "/usr/bin/firefox"
        ]
    );
    assert_eq!(launch("x", None, &env), Err(LaunchError::NoEntry));
    let no_exec = parse_desktop_entry("[Desktop Entry]\nName=x\n");
    assert_eq!(launch("x", Some(&no_exec), &env), Err(LaunchError::NoExec));
    let empty = parse_desktop_entry("[Desktop Entry]\nExec=%u\n");
    assert_eq!(launch("x", Some(&empty), &env), Err(LaunchError::EmptyExec));
    assert_eq!(forward_env().len(), 6);
    assert_eq!(forward_env()[5], "XDG_RUNTIME_DIR");
}

#[test]
fn raise_script_lists_its_targets() {
    let script = raise_script(&vec!["obs".to_string(), "a-b".to_string()]);
    assert!(script.starts_with("const targets = [\"obs\", \"a-b\"];\nconst wins = workspace.windowList ?"));
    assert!(script.contains("    const cls = (w.resourceClass || \"\").toString().toLowerCase();\n"));
    assert!(script.ends_with("        break;\n    }\n}\n"));
    assert!(raise_script(&Vec::new()).starts_with("const targets = [];\n"));
    assert_eq!(raise_plan(&vec!["obs".to_string(), "a-b".to_string()]), Some(script));
    assert_eq!(raise_plan(&Vec::new()), None);
    assert_eq!(raise_script_path("/run/user/1000"), "/run/user/1000/sd_rust/raise.js");
}

#[test]
fn runtime_directories() {
    assert_eq!(runtime_dir(Some("/run/x"), 1000), "/run/x");
    assert_eq!(runtime_dir(Some(""), 1000), "/run/user/1000");
    assert_eq!(runtime_dir(None, 0), "/run/user/0");
}

#[test]
fn application_directories_in_order() {
    assert_eq!(
        application_dirs(Some("/home/me/.local/share"), Some("/a::/b")),
        vec!["/home/me/.local/share/applications", "/a/applications", "/b/applications"]
    );
    assert_eq!(
        application_dirs(None, None),
        vec!["/usr/local/share/applications", "/usr/share/applications"]
    );
}

#[test]
fn exact_entries_win_over_near_ones() {
    let dirs = vec![
        app_dir("/a", false, &["Firefox.desktop", "readme.txt"]),
        app_dir("/b", true, &["firefox.desktop"]),
    ];
    assert_eq!(find_desktop_file("firefox", &dirs).as_deref(), Some("/b/firefox.desktop"));
    let dirs = vec![
        app_dir("/a", false, &["firefox.txt", "Firefox.desktop"]),
        app_dir("/b", false, &["firefox.desktop"]),
    ];
    assert_eq!(find_desktop_file("firefox", &dirs).as_deref(), Some("/a/Firefox.desktop"));
    let dirs = vec![app_dir("/a", false, &["org.mozilla.Firefox.desktop"])];
    assert_eq!(
        find_desktop_file("firefox.desktop", &dirs).as_deref(),
        Some("/a/org.mozilla.Firefox.desktop")
    );
    assert_eq!(find_desktop_file("chromium", &dirs), None);
    assert_eq!(wanted_file("a"), "a.desktop");
    assert_eq!(wanted_file("a.desktop"), "a.desktop");
}
