use sd_rust::config::{
    default_brightness, default_config_path, default_dim_brightness, default_idle_timeout,
    default_obs_host, default_obs_port, load_config, obs_password_world_readable,
    resolve_obs_password, Config, CoordError, KeyConfig, KeyCoord, KeyEntry, KeyMapError,
    ObsConfig, Screensaver,
};

fn plain() -> Config {
    Config {
        idle_timeout_secs: default_idle_timeout(),
        brightness: default_brightness(),
        dim_timeout_secs: 0,
        dim_brightness: default_dim_brightness(),
        screensaver: Screensaver::Off,
        screensaver_timeout_secs: 0,
        error_icon: None,
        obs: None,
        key: Vec::new(),
    }
}

fn sleep_at(coord: &str) -> KeyEntry {
    KeyEntry { coord: coord.to_string(), key: KeyConfig::Sleep { icon: None } }
}

fn obs(password: Option<&str>) -> ObsConfig {
    ObsConfig {
        host: default_obs_host(),
        port: default_obs_port(),
        password: password.map(|p| p.to_string()),
        show_capture_status: false,
        icon_not_capturing: None,
    }
}

#[test]
fn coord_parses_and_indexes_row_major() {
    assert_eq!(KeyCoord::parse("r1c1").unwrap().index(), 0);
    assert_eq!(KeyCoord::parse("r1c5").unwrap().index(), 4);
    assert_eq!(KeyCoord::parse("r2c1").unwrap().index(), 5);
    assert_eq!(KeyCoord::parse("r3c5").unwrap().index(), 14);
}

#[test]
fn coord_rejects_off_grid_and_malformed() {
    assert!(KeyCoord::parse("r0c1").is_err());
    assert!(KeyCoord::parse("r4c1").is_err());
    assert!(KeyCoord::parse("r1c6").is_err());
    assert!(KeyCoord::parse("x1c1").is_err());
    assert!(KeyCoord::parse("r1").is_err());
    assert!(KeyCoord::parse("rc").is_err());
}

#[test]
fn coord_errors_say_what_is_wrong() {
    assert_eq!(KeyCoord::parse(""), Err(CoordError::NoRow));
    assert_eq!(KeyCoord::parse("x1c1"), Err(CoordError::NoRow));
    assert_eq!(KeyCoord::parse("r1"), Err(CoordError::NoColumn));
    assert_eq!(KeyCoord::parse("rc1"), Err(CoordError::BadRow));
    assert_eq!(KeyCoord::parse("r256c1"), Err(CoordError::BadRow));
    assert_eq!(KeyCoord::parse("r1c"), Err(CoordError::BadColumn));
    assert_eq!(KeyCoord::parse("r1c1c"), Err(CoordError::BadColumn));
    assert_eq!(KeyCoord::parse("r4c1"), Err(CoordError::OffGrid));
    assert_eq!(KeyCoord::parse("r+2c03"), Ok(KeyCoord { row: 2, col: 3 }));
}

#[test]
fn every_index_has_one_coordinate() {
    let mut seen = vec![false; 15];
    for row in 1..=3u8 {
        for col in 1..=5u8 {
            let i = KeyCoord { row, col }.index();
            assert!(!seen[i]);
            seen[i] = true;
        }
    }
    assert!(seen.iter().all(|s| *s));
}

#[test]
fn env_password_overrides_file() {
    let cfg = obs(Some("from-file"));
    assert_eq!(resolve_obs_password(&cfg, Some("from-env".to_string())).as_deref(), Some("from-env"));
    assert_eq!(resolve_obs_password(&cfg, Some(String::new())).as_deref(), Some("from-file"));
    assert_eq!(resolve_obs_password(&cfg, None).as_deref(), Some("from-file"));
}

#[test]
fn no_password_anywhere_is_none() {
    assert_eq!(resolve_obs_password(&obs(None), None), None);
    assert_eq!(resolve_obs_password(&obs(None), Some(String::new())), None);
}

#[test]
fn screensaver_timeout_needs_both_a_kind_and_a_nonzero_timeout() {
    // Kind defaults to none → no screensaver even with a timeout set.
    let only_timeout = Config { screensaver_timeout_secs: 60, ..plain() };
    assert_eq!(only_timeout.screensaver_timeout(), None);
    // Kind set but timeout 0 (default) → disabled.
    let only_kind = Config { screensaver: Screensaver::Matrix, ..plain() };
    assert_eq!(only_kind.screensaver_timeout(), None);
    // Both set → enabled.
    let both =
        Config { screensaver: Screensaver::Matrix, screensaver_timeout_secs: 60, ..plain() };
    assert_eq!(both.screensaver_timeout(), Some(60));
}

#[test]
fn defaults_and_limits() {
    let c = plain();
    assert_eq!(c.idle_timeout(), Some(300));
    assert_eq!(c.dim_timeout(), None);
    assert_eq!(c.brightness(), 100);
    assert_eq!(c.dim_brightness(), 30);
    let c = Config { idle_timeout_secs: 0, dim_timeout_secs: 7, brightness: 250, dim_brightness: 101, ..plain() };
    assert_eq!(c.idle_timeout(), None);
    assert_eq!(c.dim_timeout(), Some(7));
    assert_eq!(c.brightness(), 100);
    assert_eq!(c.dim_brightness(), 100);
    assert_eq!(default_obs_host(), "localhost");
    assert_eq!(default_obs_port(), 4455);
}

#[test]
fn config_path_is_below_the_config_directory() {
    assert_eq!(
        default_config_path(Some("/home/me/.config")).as_deref(),
        Some("/home/me/.config/sd_rust/config.toml")
    );
    assert_eq!(default_config_path(None), None);
}

#[test]
fn duplicate_and_bad_keys_are_refused() {
    let good = Config { key: vec![sleep_at("r1c1"), sleep_at("r1c2")], ..plain() };
    assert_eq!(load_config(good).unwrap().key.len(), 2);
    let twice = Config { key: vec![sleep_at("r01c1"), sleep_at("r1c1")], ..plain() };
    match load_config(twice) {
        Err(KeyMapError::Duplicate { entry: 1, index: 0 }) => {}
        other => panic!("expected a duplicate, got {other:?}"),
    }
    let off = Config { key: vec![sleep_at("r9c9")], ..plain() };
    match load_config(off) {
        Err(KeyMapError::Coordinate { entry: 0, error: CoordError::OffGrid }) => {}
        other => panic!("expected a bad coordinate, got {other:?}"),
    }
}

#[test]
fn readable_password_is_noticed() {
    let with = Config { obs: Some(obs(Some("p"))), ..plain() };
    let without = Config { obs: Some(obs(None)), ..plain() };
    assert!(obs_password_world_readable(&with, 0o644));
    assert!(obs_password_world_readable(&with, 0o640));
    assert!(obs_password_world_readable(&with, 0o604));
    assert!(!obs_password_world_readable(&with, 0o620));
    assert!(!obs_password_world_readable(&with, 0o711));
    assert!(!obs_password_world_readable(&with, 0o600));
    assert!(!obs_password_world_readable(&without, 0o644));
}
