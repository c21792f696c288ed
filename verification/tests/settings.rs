use cb_daemon::daemon::config::{
    apply_cli, apply_env, apply_file, effective_device_path, merge_config, parse_backend,
    parse_number, parse_unit_id_hint, resolve_config_path_with, validate, Backend, BindText,
    CliArgs, Config, ConfigFiles, EnvOverrides, FileConfig, NumberFault, CWD_CONFIG,
    DEFAULT_AOA_CHUNK_DELAY_MS, DEFAULT_AOA_CHUNK_SIZE, DEFAULT_LOG_LEVEL, DEFAULT_TTY_BAUD,
    ETC_CONFIG,
};
use cb_daemon::daemon::filter::{build_env_filter_inner, is_plain_directives};
use cb_daemon::link::{AOA_INTER_CHUNK_DELAY_MS, AOA_MAX_CHUNK, TTY_BAUD};
use cb_daemon::registers::ids::UnitId;

fn bind(text: &str) -> BindText {
    BindText {
        text: text.to_owned(),
        valid: true,
    }
}

fn no_files() -> ConfigFiles {
    ConfigFiles {
        named: false,
        etc: false,
        cwd: false,
    }
}

#[test]
fn defaults_are_mock_and_local_bind() {
    let cfg = Config::default();
    assert_eq!(cfg.backend, Backend::Mock);
    assert_eq!(cfg.bind, "127.0.0.1:2026");
    assert!(cfg.device.is_none());
    assert!(cfg.unit_id_hint.is_none());
    assert_eq!(cfg.log_level, DEFAULT_LOG_LEVEL);
    assert_eq!(cfg.aoa_chunk_size, DEFAULT_AOA_CHUNK_SIZE);
    assert_eq!(cfg.aoa_chunk_delay_ms, DEFAULT_AOA_CHUNK_DELAY_MS);
    assert_eq!(cfg.tty_baud, DEFAULT_TTY_BAUD);
    assert_eq!(DEFAULT_AOA_CHUNK_SIZE, AOA_MAX_CHUNK);
    assert_eq!(DEFAULT_AOA_CHUNK_DELAY_MS, AOA_INTER_CHUNK_DELAY_MS);
    assert_eq!(DEFAULT_TTY_BAUD, TTY_BAUD);
}

#[test]
fn timer_defaults() {
    let cfg = Config::default();
    assert_eq!(cfg.ws_idle_timeout_minutes, 0);
    assert_eq!(cfg.ws_idle_retry_seconds, 60);
    assert_eq!(cfg.keepalive_interval_seconds, 30);
    assert_eq!(cfg.keepalive_pong_timeout_seconds, 75);
    assert_eq!(cfg.snapshot_timeout_seconds, 15);
}

#[test]
fn mock_is_not_aoa_backend() {
    assert_ne!(Backend::Mock, Backend::Aoa);
    assert_ne!(Backend::Mock, Backend::Tty);
}

#[test]
fn merge_precedence_file_env_cli() {
    let file = FileConfig {
        backend: Some("aoa".into()),
        device: Some("/dev/from-file".into()),
        bind: Some(bind("127.0.0.1:1111")),
        log_level: Some("warn".into()),
        aoa_chunk_size: Some(10),
        aoa_chunk_delay_ms: Some(2),
        tty_baud: Some(9600),
        unit_id_hint: Some("abcde".into()),
        ..FileConfig::default()
    };
    let cfg = apply_file(Config::default(), &file).unwrap();

    let env = EnvOverrides {
        backend: Some("tty".into()),
        device: Some("/dev/from-env".into()),
        bind: Some(bind("127.0.0.1:2222")),
        log_level: Some("debug".into()),
        unit_id_hint: Some("00001".into()),
        aoa_chunk_size: Some("20".into()),
        aoa_chunk_delay_ms: Some("3".into()),
        tty_baud: Some("19200".into()),
        config: None,
        ..EnvOverrides::default()
    };
    let cfg = apply_env(cfg, &env).unwrap();
    assert_eq!(cfg.backend, Backend::Tty);
    assert_eq!(cfg.device.as_deref(), Some("/dev/from-env"));
    assert_eq!(cfg.bind, "127.0.0.1:2222");
    assert_eq!(cfg.aoa_chunk_size, 20);
    assert_eq!(cfg.aoa_chunk_delay_ms, 3);
    assert_eq!(cfg.tty_baud, 19200);

    let cli = CliArgs {
        backend: Some(Backend::Mock),
        device: Some("/dev/from-cli".into()),
        bind: Some("127.0.0.1:3333".into()),
        log_level: Some("trace".into()),
        unit_id_hint: Some("fffff".into()),
        aoa_chunk_size: Some(30),
        aoa_chunk_delay_ms: Some(4),
        tty_baud: Some(38400),
        config: None,
        ..CliArgs::default()
    };
    let cfg = apply_cli(cfg, &cli).unwrap();
    validate(&cfg).unwrap();

    assert_eq!(cfg.backend, Backend::Mock);
    assert_eq!(cfg.device.as_deref(), Some("/dev/from-cli"));
    assert_eq!(cfg.bind, "127.0.0.1:3333");
    assert_eq!(cfg.log_level, "trace");
    assert_eq!(cfg.unit_id_hint, Some(UnitId::from_hex("fffff").unwrap()));
    assert_eq!(cfg.aoa_chunk_size, 30);
    assert_eq!(cfg.aoa_chunk_delay_ms, 4);
    assert_eq!(cfg.tty_baud, 38400);

    let merged = merge_config(Some(&file), &env, &cli).unwrap();
    assert_eq!(merged, cfg);
}

#[test]
fn optional_search_miss_uses_defaults() {
    let path = resolve_config_path_with(None, None, no_files()).unwrap();
    assert!(path.is_none());
    let cfg = merge_config(None, &EnvOverrides::default(), &CliArgs::default()).unwrap();
    assert_eq!(cfg, Config::default());
}

#[test]
fn explicit_missing_config_errors() {
    let missing = "/no/such/cb-daemon-config-xyz.toml";
    let err = resolve_config_path_with(Some(missing), None, no_files()).unwrap_err();
    assert!(
        err.describe().contains("config file not found"),
        "unexpected: {err:?}"
    );
}

#[test]
fn search_prefers_etc_then_cwd() {
    let files = |etc: bool, cwd: bool| ConfigFiles {
        named: false,
        etc,
        cwd,
    };
    let chosen = resolve_config_path_with(None, None, files(true, false)).unwrap();
    assert_eq!(chosen.as_deref(), Some(ETC_CONFIG));

    let chosen = resolve_config_path_with(None, None, files(false, true)).unwrap();
    assert_eq!(chosen.as_deref(), Some(CWD_CONFIG));

    let chosen = resolve_config_path_with(None, None, files(true, true)).unwrap();
    assert_eq!(chosen.as_deref(), Some(ETC_CONFIG));
}

#[test]
fn command_line_names_the_file_before_the_environment() {
    let there = ConfigFiles {
        named: true,
        etc: true,
        cwd: true,
    };
    let chosen = resolve_config_path_with(Some("/a"), Some("/b"), there).unwrap();
    assert_eq!(chosen.as_deref(), Some("/a"));
    let chosen = resolve_config_path_with(None, Some("/b"), there).unwrap();
    assert_eq!(chosen.as_deref(), Some("/b"));
}

#[test]
fn unknown_backend_from_file_fails() {
    let file = FileConfig {
        backend: Some("usb".into()),
        ..FileConfig::default()
    };
    let err = apply_file(Config::default(), &file).unwrap_err();
    let full = err.describe();
    assert!(
        full.contains("unknown backend") || full.contains("usb"),
        "{full}"
    );
    assert_eq!(
        full,
        "config file backend `usb`: unknown backend `usb`; expected mock, aoa, or tty"
    );
}

#[test]
fn relative_device_for_aoa_fails() {
    let cfg = Config {
        backend: Backend::Aoa,
        device: Some("relative/dev".into()),
        ..Config::default()
    };
    let err = validate(&cfg).unwrap_err();
    assert!(err.describe().contains("absolute"), "{err:?}");
}

#[test]
fn bad_unit_id_hint_fails() {
    let err = parse_unit_id_hint("abcd").unwrap_err();
    assert!(err.contains("5 hex"), "{err}");
}

#[test]
fn zero_chunk_size_fails() {
    let cfg = Config {
        aoa_chunk_size: 0,
        ..Config::default()
    };
    let err = validate(&cfg).unwrap_err();
    assert!(err.describe().contains("aoa_chunk_size"), "{err:?}");
}

#[test]
fn zero_tty_baud_fails() {
    let cfg = Config {
        tty_baud: 0,
        ..Config::default()
    };
    let err = validate(&cfg).unwrap_err();
    assert!(err.describe().contains("tty_baud"), "{err:?}");
}

#[test]
fn aoa_default_device_path_is_absolute() {
    let cfg = Config {
        backend: Backend::Aoa,
        device: None,
        ..Config::default()
    };
    validate(&cfg).unwrap();
    assert_eq!(effective_device_path(&cfg), "/dev/usb_accessory");
}

#[test]
fn rust_log_overrides_log_level_filter() {
    let from_rust = build_env_filter_inner("info", Some("cb_daemon=trace")).unwrap();
    let rendered = from_rust.to_string();
    assert!(
        rendered.contains("trace") || rendered.contains("cb_daemon"),
        "expected RUST_LOG-driven filter, got {rendered}"
    );

    let from_level = build_env_filter_inner("warn", None).unwrap();
    let rendered = from_level.to_string();
    assert!(
        rendered.contains("warn"),
        "expected log_level warn when RUST_LOG unset, got {rendered}"
    );
}

#[test]
fn cli_absent_leaves_file_value() {
    let cfg = apply_file(
        Config::default(),
        &FileConfig {
            log_level: Some("debug".into()),
            backend: Some("aoa".into()),
            device: Some("/dev/usb_accessory".into()),
            ..FileConfig::default()
        },
    )
    .unwrap();
    let cfg = apply_cli(cfg, &CliArgs::default()).unwrap();
    validate(&cfg).unwrap();
    assert_eq!(cfg.log_level, "debug");
    assert_eq!(cfg.backend, Backend::Aoa);
}

#[test]
fn filters_that_make_no_sense_are_refused() {
    for level in ["error", "warn", "info", "debug", "trace", ""] {
        assert!(build_env_filter_inner(level, None).is_ok(), "{level}");
    }
    let err = build_env_filter_inner("a=b=c=nonsense", None).unwrap_err();
    assert_eq!(err.text, "invalid log_level `a=b=c=nonsense`");
    assert!(err.cause.is_some());
    let err = build_env_filter_inner("info", Some("a=b=c=nonsense")).unwrap_err();
    assert_eq!(err.text, "parse RUST_LOG");
}

#[test]
fn padded_parts_of_directives_must_be_ascii() {
    assert!(is_plain_directives("info, warn"));
    assert!(is_plain_directives("zäh=info"));
    assert!(!is_plain_directives("info, zäh=info"));
    assert!(!is_plain_directives("\u{a0}info"));
}

#[test]
fn backends_are_words() {
    assert_eq!(parse_backend(" Mock\n"), Ok(Backend::Mock));
    assert_eq!(parse_backend("AOA"), Ok(Backend::Aoa));
    assert_eq!(parse_backend("tty"), Ok(Backend::Tty));
    assert_eq!(
        parse_backend(" USB "),
        Err("unknown backend `usb`; expected mock, aoa, or tty".to_owned())
    );
    assert_eq!(Backend::Tty.as_str(), "tty");
}

#[test]
fn numbers_are_read_like_integers() {
    for text in ["0", "7", "+42", "0042", "255", "18446744073709551615"] {
        assert_eq!(parse_number(text, u64::MAX), Ok(text.parse::<u64>().unwrap()));
    }
    assert_eq!(parse_number("", 255), Err(NumberFault::Empty));
    for text in ["+", "-", "-1", "1x", " 1", "0x1"] {
        assert_eq!(parse_number(text, 255), Err(NumberFault::Digit), "{text}");
        assert_eq!(
            text.parse::<u8>().unwrap_err().to_string(),
            NumberFault::Digit.describe()
        );
    }
    for text in ["256", "300", "9999x"] {
        assert_eq!(parse_number(text, 255), Err(NumberFault::Large), "{text}");
        assert_eq!(
            text.parse::<u8>().unwrap_err().to_string(),
            NumberFault::Large.describe()
        );
    }
    assert_eq!(
        "".parse::<u8>().unwrap_err().to_string(),
        NumberFault::Empty.describe()
    );
}

#[test]
fn environment_faults_name_the_variable() {
    let env = |baud: &str| EnvOverrides {
        tty_baud: Some(baud.into()),
        ..EnvOverrides::default()
    };
    assert_eq!(
        apply_env(Config::default(), &env("4294967296"))
            .unwrap_err()
            .describe(),
        "CB_DAEMON_TTY_BAUD `4294967296`: number too large to fit in target type"
    );
    let bad_bind = EnvOverrides {
        bind: Some(BindText {
            text: "nowhere".into(),
            valid: false,
        }),
        tty_baud: Some("x".into()),
        ..EnvOverrides::default()
    };
    assert_eq!(
        apply_env(Config::default(), &bad_bind).unwrap_err().describe(),
        "CB_DAEMON_BIND `nowhere`: invalid socket address syntax"
    );
    let bad_hint = EnvOverrides {
        unit_id_hint: Some("abcdeX".into()),
        ..EnvOverrides::default()
    };
    assert_eq!(
        apply_env(Config::default(), &bad_hint).unwrap_err().text,
        "CB_DAEMON_UNIT_ID_HINT"
    );
}

#[test]
fn timers_have_bounds() {
    let refused = |cfg: Config, name: &str| {
        let err = validate(&cfg).unwrap_err();
        assert!(err.text.starts_with(name), "{err:?}");
    };
    refused(
        Config {
            ws_idle_timeout_minutes: 525_601,
            ..Config::default()
        },
        "ws_idle_timeout_minutes",
    );
    refused(
        Config {
            ws_idle_retry_seconds: 0,
            ..Config::default()
        },
        "ws_idle_retry_seconds",
    );
    refused(
        Config {
            keepalive_interval_seconds: 0,
            ..Config::default()
        },
        "keepalive_interval_seconds",
    );
    refused(
        Config {
            keepalive_interval_seconds: 76,
            ..Config::default()
        },
        "keepalive_pong_timeout_seconds",
    );
    refused(
        Config {
            snapshot_timeout_seconds: 0,
            ..Config::default()
        },
        "snapshot_timeout_seconds",
    );
    refused(
        Config {
            snapshot_timeout_seconds: 31_536_001,
            ..Config::default()
        },
        "snapshot_timeout_seconds",
    );
}

#[test]
fn unsupported_tty_baud_fails() {
    for tty_baud in [1, 49, 12_345, 57_601, 4_000_001, u32::MAX] {
        let cfg = Config {
            tty_baud,
            ..Config::default()
        };
        let err = validate(&cfg).unwrap_err();
        assert_eq!(
            err.describe(),
            format!("tty_baud must be a supported termios rate, got {tty_baud}")
        );
    }
    for tty_baud in [50, 9_600, 57_600, 115_200, 921_600, 4_000_000] {
        let cfg = Config {
            tty_baud,
            ..Config::default()
        };
        validate(&cfg).unwrap();
    }
}

#[test]
fn unknown_log_level_fails() {
    for level in ["", "loud", "INFO", "cb_daemon=trace"] {
        let cfg = Config {
            log_level: level.to_owned(),
            ..Config::default()
        };
        let err = validate(&cfg).unwrap_err();
        assert!(err.describe().contains("log_level"), "{err:?}");
    }
    for level in ["error", "warn", "info", "debug", "trace"] {
        let cfg = Config {
            log_level: level.to_owned(),
            ..Config::default()
        };
        validate(&cfg).unwrap();
    }
}

#[test]
fn rust_log_makes_the_same_filter_at_every_level() {
    let made: Vec<String> = ["error", "trace"]
        .iter()
        .map(|level| {
            build_env_filter_inner(level, Some("cb_daemon=warn"))
                .unwrap()
                .to_string()
        })
        .collect();
    assert_eq!(made, ["cb_daemon=warn", "cb_daemon=warn"]);
}
