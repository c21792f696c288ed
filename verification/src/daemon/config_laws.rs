//! What configurations are made of, setting by setting.
use crate::daemon::config::{
    backend_of, cli_layer, config_fault, config_path, default_config, digits_value,
    effective_device, env_layer, file_layer, first_fault, hint_of, laid, merged_config,
    number_of, small_text, source_backend, source_bind, source_hint, source_number, Backend,
    CliModel, ConfigFault, ConfigFiles, ConfigModel, EnvModel, FileModel, LayerModel,
    NumberFault,
};
use crate::daemon::filter::{chosen, filter_fault, level_word};
use crate::registers::ids::{id_from_hex, UnitId};
use crate::text::{decimal, trim};
use vstd::prelude::*;

verus! {

/// Numbers are read digit by digit. What is no digit is refused, and so is what is too
/// large; what was refused stays refused, for the same reason.
pub proof fn law_numbers_go_on(s: Seq<char>, c: char, max: nat)
    ensures
        number_of(seq![], max) == Err::<nat, NumberFault>(NumberFault::Empty),
        number_of(seq!['+'], max) == Err::<nat, NumberFault>(NumberFault::Digit),
        c != '+' && !('0' <= c <= '9') ==> number_of(seq![c], max) == Err::<nat, NumberFault>(
            NumberFault::Digit,
        ),
        '0' <= c <= '9' ==> number_of(seq![c], max) == (if c as int - '0' as int > max {
            Err::<nat, NumberFault>(NumberFault::Large)
        } else {
            Ok::<nat, NumberFault>((c as int - '0' as int) as nat)
        }),
        number_of(s, max) matches Ok(n) ==> {
            &&& '0' <= c <= '9' ==> number_of(s.push(c), max) == (if 10 * n + (c as int
                - '0' as int) > max {
                Err::<nat, NumberFault>(NumberFault::Large)
            } else {
                Ok::<nat, NumberFault>((10 * n + (c as int - '0' as int)) as nat)
            })
            &&& !('0' <= c <= '9') ==> number_of(s.push(c), max) == Err::<nat, NumberFault>(
                NumberFault::Digit,
            )
        },
        s.len() > 0 && s != seq!['+'] && number_of(s, max) is Err ==> number_of(s.push(c), max)
            == number_of(s, max),
{
    assert(seq![c].drop_last() =~= Seq::<char>::empty());
    reveal_with_fuel(digits_value, 2);
    let t = s.push(c);
    assert(t.drop_last() =~= s);
    if s.len() > 0 && s[0] == '+' {
        assert(t.skip(1).drop_last() =~= s.skip(1));
        assert(t.skip(1).len() == s.len());
        if s.len() > 1 || s.skip(1).len() == 0 {
            if s.len() == 1 {
                assert(s =~= seq!['+']);
            }
        }
        assert(t[0] == '+');
        assert(t.len() >= 2);
        assert(t != seq!['+']) by {
            assert(seq!['+'].len() == 1);
        }
    } else if s.len() > 0 {
        assert(t[0] == s[0]);
        assert(t != seq!['+']) by {
            assert(seq!['+'].len() == 1);
        }
    }
}

/// A sign in front of digits changes nothing.
pub proof fn law_sign_in_front(s: Seq<char>, max: nat)
    requires
        s.len() > 0,
        s[0] != '+',
    ensures
        number_of(seq!['+'] + s, max) == number_of(s, max),
{
    let t = seq!['+'] + s;
    assert(t.skip(1) =~= s);
    assert(t != seq!['+']) by {
        assert(t.len() > 1);
    }
}

/// Capital letters count as small ones, and every other character as it is.
pub proof fn law_small_letters(s: Seq<char>, i: int)
    requires
        0 <= i < s.len(),
    ensures
        small_text(s).len() == s.len(),
        'A' <= s[i] <= 'Z' ==> small_text(s)[i] == (s[i] as u8 + 32) as char,
        !('A' <= s[i] <= 'Z') ==> small_text(s)[i] == s[i],
{
}

/// Which texts name which link.
pub proof fn law_names_of_links(s: Seq<char>)
    ensures
        backend_of(s) == Ok::<Backend, Seq<char>>(Backend::Mock) <==> small_text(trim(s))
            == "mock"@,
        backend_of(s) == Ok::<Backend, Seq<char>>(Backend::Aoa) <==> small_text(trim(s)) == "aoa"@,
        backend_of(s) == Ok::<Backend, Seq<char>>(Backend::Tty) <==> small_text(trim(s)) == "tty"@,
        backend_of(s) matches Err(text) ==> text == "unknown backend `"@ + small_text(trim(s))
            + "`; expected mock, aoa, or tty"@,
{
    reveal_strlit("mock");
    reveal_strlit("aoa");
    reveal_strlit("tty");
    assert("mock"@.len() == 4 && "aoa"@.len() == 3 && "tty"@.len() == 3);
    assert("aoa"@[0] != "tty"@[0]);
}

/// A preferred unit is five hexadecimal digits, with white space around them or not.
pub proof fn law_preferred_units(s: Seq<char>)
    ensures
        match id_from_hex(trim(s)) {
            Some(id) => hint_of(s) == Ok::<UnitId, Seq<char>>(id),
            None => hint_of(s) == Err::<UnitId, Seq<char>>(
                "unit_id_hint `"@ + s
                    + "` must be exactly 5 hex digits (aa-registers UnitId): BadHex"@,
            ),
        },
{
}

/// Which configurations are accepted: an absolute device path, or none; chunks of at
/// least a byte; a rate that serial lines have; and times within their limits.
pub proof fn law_accepted_configurations(c: ConfigModel)
    ensures
        config_fault(c) is None <==> {
            &&& c.device matches Some(d) ==> d.len() > 0 && d[0] == '/'
            &&& c.aoa_chunk_size >= 1
            &&& c.tty_baud == 50 || c.tty_baud == 75 || c.tty_baud == 110
                || c.tty_baud == 134 || c.tty_baud == 150 || c.tty_baud == 200
                || c.tty_baud == 300 || c.tty_baud == 600 || c.tty_baud == 1_200
                || c.tty_baud == 1_800 || c.tty_baud == 2_400 || c.tty_baud == 4_800
                || c.tty_baud == 9_600 || c.tty_baud == 19_200 || c.tty_baud == 38_400
                || c.tty_baud == 57_600 || c.tty_baud == 115_200 || c.tty_baud == 230_400
                || c.tty_baud == 460_800 || c.tty_baud == 500_000
                || c.tty_baud == 576_000 || c.tty_baud == 921_600
                || c.tty_baud == 1_000_000 || c.tty_baud == 1_152_000
                || c.tty_baud == 1_500_000 || c.tty_baud == 2_000_000
                || c.tty_baud == 2_500_000 || c.tty_baud == 3_000_000
                || c.tty_baud == 3_500_000 || c.tty_baud == 4_000_000
            &&& c.ws_idle_timeout_minutes <= 525_600
            &&& c.ws_idle_retry_seconds >= 1
            &&& 1 <= c.keepalive_interval_seconds <= 31_536_000
            &&& c.keepalive_interval_seconds <= c.keepalive_pong_timeout_seconds <= 31_536_000
            &&& 1 <= c.snapshot_timeout_seconds <= 31_536_000
            &&& c.log_level == "error"@ || c.log_level == "warn"@ || c.log_level == "info"@
                || c.log_level == "debug"@ || c.log_level == "trace"@
        },
{
    reveal_strlit("/dev/usb_accessory");
    reveal_strlit("/dev/ttyUSB0");
    assert("/dev/usb_accessory"@[0] == '/' && "/dev/ttyUSB0"@[0] == '/');
}

/// The device that is used: the one that is set, or that of the link.
pub proof fn law_device_of_the_link(c: ConfigModel)
    ensures
        c.device matches Some(d) ==> effective_device(c) == d,
        c.device is None && c.backend is Aoa ==> effective_device(c) == "/dev/usb_accessory"@,
        c.device is None && c.backend is Tty ==> effective_device(c) == "/dev/ttyUSB0"@,
        c.device is None && c.backend is Mock ==> effective_device(c) == ""@,
{
}

/// A setting of a later source takes the place of the earlier one, and what it does
/// not set stays.
pub proof fn law_settings_win(c: ConfigModel, l: LayerModel)
    ensures
        l.backend matches Some(v) ==> laid(c, l).backend == v,
        l.backend is None ==> laid(c, l).backend == c.backend,
        l.device is Some ==> laid(c, l).device == l.device,
        l.device is None ==> laid(c, l).device == c.device,
        l.bind matches Some(v) ==> laid(c, l).bind == v,
        l.bind is None ==> laid(c, l).bind == c.bind,
        l.unit_id_hint is Some ==> laid(c, l).unit_id_hint == l.unit_id_hint,
        l.unit_id_hint is None ==> laid(c, l).unit_id_hint == c.unit_id_hint,
        l.log_level matches Some(v) ==> laid(c, l).log_level == v,
        l.log_level is None ==> laid(c, l).log_level == c.log_level,
        l.aoa_chunk_size matches Some(v) ==> laid(c, l).aoa_chunk_size == v,
        l.aoa_chunk_size is None ==> laid(c, l).aoa_chunk_size == c.aoa_chunk_size,
        l.aoa_chunk_delay_ms matches Some(v) ==> laid(c, l).aoa_chunk_delay_ms == v,
        l.aoa_chunk_delay_ms is None ==> laid(c, l).aoa_chunk_delay_ms == c.aoa_chunk_delay_ms,
        l.tty_baud matches Some(v) ==> laid(c, l).tty_baud == v,
        l.tty_baud is None ==> laid(c, l).tty_baud == c.tty_baud,
        l.ws_idle_timeout_minutes matches Some(v) ==> laid(c, l).ws_idle_timeout_minutes == v,
        l.ws_idle_timeout_minutes is None
            ==> laid(c, l).ws_idle_timeout_minutes == c.ws_idle_timeout_minutes,
        l.ws_idle_retry_seconds matches Some(v) ==> laid(c, l).ws_idle_retry_seconds == v,
        l.ws_idle_retry_seconds is None
            ==> laid(c, l).ws_idle_retry_seconds == c.ws_idle_retry_seconds,
        l.keepalive_interval_seconds matches Some(v) ==> laid(c, l).keepalive_interval_seconds == v,
        l.keepalive_interval_seconds is None
            ==> laid(c, l).keepalive_interval_seconds == c.keepalive_interval_seconds,
        l.keepalive_pong_timeout_seconds matches Some(v)
            ==> laid(c, l).keepalive_pong_timeout_seconds == v,
        l.keepalive_pong_timeout_seconds is None
            ==> laid(c, l).keepalive_pong_timeout_seconds == c.keepalive_pong_timeout_seconds,
        l.snapshot_timeout_seconds matches Some(v) ==> laid(c, l).snapshot_timeout_seconds == v,
        l.snapshot_timeout_seconds is None
            ==> laid(c, l).snapshot_timeout_seconds == c.snapshot_timeout_seconds,
{
}

/// What is set where no source sets anything.
pub proof fn law_settings_without_sources()
    ensures
        default_config().backend is Mock,
        default_config().device is None,
        default_config().bind == "127.0.0.1:2026"@,
        default_config().unit_id_hint is None,
        default_config().log_level == "info"@,
        default_config().aoa_chunk_size == 63,
        default_config().aoa_chunk_delay_ms == 1,
        default_config().tty_baud == 57_600,
        default_config().ws_idle_timeout_minutes == 0,
        default_config().ws_idle_retry_seconds == 60,
        default_config().keepalive_interval_seconds == 30,
        default_config().keepalive_pong_timeout_seconds == 75,
        default_config().snapshot_timeout_seconds == 15,
{
}

/// What a configuration file sets.
pub proof fn law_settings_of_a_file(f: FileModel)
    ensures
        file_layer(f) is Ok <==> {
            &&& f.backend matches Some(s) ==> backend_of(s) is Ok
            &&& f.bind matches Some(b) ==> b.1
            &&& f.unit_id_hint matches Some(s) ==> hint_of(s) is Ok
        },
        file_layer(f) matches Ok(l) ==> {
            &&& f.backend is None ==> l.backend is None
            &&& f.backend matches Some(s) ==> l.backend == Some(backend_of(s)->Ok_0)
            &&& f.bind is None ==> l.bind is None
            &&& f.bind matches Some(b) ==> l.bind == Some(b.0)
            &&& f.unit_id_hint is None ==> l.unit_id_hint is None
            &&& f.unit_id_hint matches Some(s) ==> l.unit_id_hint == Some(hint_of(s)->Ok_0)
            &&& l.device == f.device
            &&& l.log_level == f.log_level
            &&& l.aoa_chunk_size == f.aoa_chunk_size
            &&& l.aoa_chunk_delay_ms == f.aoa_chunk_delay_ms
            &&& l.tty_baud == f.tty_baud
            &&& l.ws_idle_timeout_minutes == f.ws_idle_timeout_minutes
            &&& l.ws_idle_retry_seconds == f.ws_idle_retry_seconds
            &&& l.keepalive_interval_seconds == f.keepalive_interval_seconds
            &&& l.keepalive_pong_timeout_seconds == f.keepalive_pong_timeout_seconds
            &&& l.snapshot_timeout_seconds == f.snapshot_timeout_seconds
        },
{
}

/// What the command line sets.
pub proof fn law_settings_of_the_command_line(c: CliModel)
    ensures
        cli_layer(c) is Ok <==> (c.unit_id_hint matches Some(s) ==> hint_of(s) is Ok),
        cli_layer(c) matches Ok(l) ==> {
            &&& c.unit_id_hint is None ==> l.unit_id_hint is None
            &&& c.unit_id_hint matches Some(s) ==> l.unit_id_hint == Some(hint_of(s)->Ok_0)
            &&& l.backend == c.backend
            &&& l.device == c.device
            &&& l.bind == c.bind
            &&& l.log_level == c.log_level
            &&& l.aoa_chunk_size == c.aoa_chunk_size
            &&& l.aoa_chunk_delay_ms == c.aoa_chunk_delay_ms
            &&& l.tty_baud == c.tty_baud
            &&& l.ws_idle_timeout_minutes == c.ws_idle_timeout_minutes
            &&& l.ws_idle_retry_seconds == c.ws_idle_retry_seconds
            &&& l.keepalive_interval_seconds == c.keepalive_interval_seconds
            &&& l.keepalive_pong_timeout_seconds == c.keepalive_pong_timeout_seconds
            &&& l.snapshot_timeout_seconds == c.snapshot_timeout_seconds
        },
{
}

/// What the environment sets.
pub proof fn law_settings_of_the_environment(e: EnvModel)
    ensures
        env_layer(e) is Ok <==> {
            &&& e.backend matches Some(s) ==> backend_of(s) is Ok
            &&& e.bind matches Some(b) ==> b.1
            &&& e.unit_id_hint matches Some(s) ==> hint_of(s) is Ok
            &&& e.aoa_chunk_size matches Some(s) ==> number_of(s, usize::MAX as nat) is Ok
            &&& e.aoa_chunk_delay_ms matches Some(s) ==> number_of(s, u64::MAX as nat) is Ok
            &&& e.tty_baud matches Some(s) ==> number_of(s, u32::MAX as nat) is Ok
            &&& e.ws_idle_timeout_minutes matches Some(s) ==> number_of(s, u64::MAX as nat) is Ok
            &&& e.ws_idle_retry_seconds matches Some(s) ==> number_of(s, u64::MAX as nat) is Ok
            &&& e.keepalive_interval_seconds matches Some(s) ==> number_of(s, u64::MAX as nat) is Ok
            &&& e.keepalive_pong_timeout_seconds matches Some(s)
                ==> number_of(s, u64::MAX as nat) is Ok
            &&& e.snapshot_timeout_seconds matches Some(s) ==> number_of(s, u64::MAX as nat) is Ok
        },
        env_layer(e) matches Ok(l) ==> {
            &&& e.backend is None ==> l.backend is None
            &&& e.backend matches Some(s) ==> l.backend == Some(backend_of(s)->Ok_0)
            &&& e.bind is None ==> l.bind is None
            &&& e.bind matches Some(b) ==> l.bind == Some(b.0)
            &&& e.unit_id_hint is None ==> l.unit_id_hint is None
            &&& e.unit_id_hint matches Some(s) ==> l.unit_id_hint == Some(hint_of(s)->Ok_0)
            &&& l.device == e.device
            &&& l.log_level == e.log_level
            &&& e.aoa_chunk_size is None ==> l.aoa_chunk_size is None
            &&& e.aoa_chunk_size matches Some(s) ==> l.aoa_chunk_size == Some(
                number_of(s, usize::MAX as nat)->Ok_0 as usize,
            )
            &&& e.aoa_chunk_delay_ms is None ==> l.aoa_chunk_delay_ms is None
            &&& e.aoa_chunk_delay_ms matches Some(s) ==> l.aoa_chunk_delay_ms == Some(
                number_of(s, u64::MAX as nat)->Ok_0 as u64,
            )
            &&& e.tty_baud is None ==> l.tty_baud is None
            &&& e.tty_baud matches Some(s) ==> l.tty_baud == Some(
                number_of(s, u32::MAX as nat)->Ok_0 as u32,
            )
            &&& e.ws_idle_timeout_minutes is None ==> l.ws_idle_timeout_minutes is None
            &&& e.ws_idle_timeout_minutes matches Some(s) ==> l.ws_idle_timeout_minutes == Some(
                number_of(s, u64::MAX as nat)->Ok_0 as u64,
            )
            &&& e.ws_idle_retry_seconds is None ==> l.ws_idle_retry_seconds is None
            &&& e.ws_idle_retry_seconds matches Some(s) ==> l.ws_idle_retry_seconds == Some(
                number_of(s, u64::MAX as nat)->Ok_0 as u64,
            )
            &&& e.keepalive_interval_seconds is None ==> l.keepalive_interval_seconds is None
            &&& e.keepalive_interval_seconds matches Some(s)
                ==> l.keepalive_interval_seconds == Some(
                number_of(s, u64::MAX as nat)->Ok_0 as u64,
            )
            &&& e.keepalive_pong_timeout_seconds is None
                ==> l.keepalive_pong_timeout_seconds is None
            &&& e.keepalive_pong_timeout_seconds matches Some(s)
                ==> l.keepalive_pong_timeout_seconds == Some(
                number_of(s, u64::MAX as nat)->Ok_0 as u64,
            )
            &&& e.snapshot_timeout_seconds is None ==> l.snapshot_timeout_seconds is None
            &&& e.snapshot_timeout_seconds matches Some(s) ==> l.snapshot_timeout_seconds == Some(
                number_of(s, u64::MAX as nat)->Ok_0 as u64,
            )
        },
{
    reveal_with_fuel(first_fault, 9);
}

/// A configuration is made where all sources can be read and what comes out is
/// accepted; nothing else keeps it from being made.
pub proof fn law_configurations_that_are_made(
    file: Option<FileModel>,
    env: EnvModel,
    cli: CliModel,
)
    ensures
        merged_config(file, env, cli) matches Ok(c) ==> config_fault(c) is None && env_layer(env)
            is Ok && cli_layer(cli) is Ok && (file matches Some(f) ==> file_layer(f) is Ok),
        file is None && env_layer(env) is Ok && cli_layer(cli) is Ok ==> {
            let c = laid(laid(default_config(), env_layer(env)->Ok_0), cli_layer(cli)->Ok_0);
            match config_fault(c) {
                None => merged_config(file, env, cli) == Ok::<ConfigModel, ConfigFault>(c),
                Some(text) => merged_config(file, env, cli) == Err::<ConfigModel, ConfigFault>(
                    ConfigFault { text, cause: None },
                ),
            }
        },
        file is Some && file_layer(file->0) is Ok && env_layer(env) is Ok && cli_layer(cli) is Ok
            ==> {
            let c = laid(
                laid(laid(default_config(), file_layer(file->0)->Ok_0), env_layer(env)->Ok_0),
                cli_layer(cli)->Ok_0,
            );
            match config_fault(c) {
                None => merged_config(file, env, cli) == Ok::<ConfigModel, ConfigFault>(c),
                Some(text) => merged_config(file, env, cli) == Err::<ConfigModel, ConfigFault>(
                    ConfigFault { text, cause: None },
                ),
            }
        },
{
}

/// Which file is read: the one that is named, by the command line before the
/// environment, and it has to be there; else the one under `/etc`, else the one in the
/// working directory, else none.
pub proof fn law_which_file_is_read(
    cli: Option<Seq<char>>,
    env: Option<Seq<char>>,
    files: ConfigFiles,
)
    ensures
        cli matches Some(p) ==> {
            &&& files.named ==> config_path(cli, env, files) == Ok::<
                Option<Seq<char>>,
                ConfigFault,
            >(Some(p))
            &&& !files.named ==> config_path(cli, env, files) is Err
        },
        cli is None && env is Some ==> {
            &&& files.named ==> config_path(cli, env, files) == Ok::<
                Option<Seq<char>>,
                ConfigFault,
            >(env)
            &&& !files.named ==> config_path(cli, env, files) is Err
        },
        cli is None && env is None ==> config_path(cli, env, files) == Ok::<
            Option<Seq<char>>,
            ConfigFault,
        >(
            if files.etc {
                Some("/etc/cb-daemon/config.toml"@)
            } else if files.cwd {
                Some("./config.toml"@)
            } else {
                None
            },
        ),
{
}

/// What is told of settings that cannot be read: the place, the text and the reason.
pub proof fn law_settings_that_cannot_be_read(place: Seq<char>, s: Seq<char>, max: nat)
    ensures
        backend_of(s) matches Err(cause) ==> source_backend(place, Some(s)) == Err::<
            Option<Backend>,
            ConfigFault,
        >(ConfigFault { text: place + " `"@ + s + "`"@, cause: Some(cause) }),
        source_bind(place, Some((s, false))) == Err::<Option<Seq<char>>, ConfigFault>(
            ConfigFault {
                text: place + " `"@ + s + "`"@,
                cause: Some("invalid socket address syntax"@),
            },
        ),
        hint_of(s) matches Err(cause) ==> source_hint(place, Some(s)) == Err::<
            Option<UnitId>,
            ConfigFault,
        >(ConfigFault { text: place, cause: Some(cause) }),
        number_of(s, max) matches Err(fault) ==> source_number(place, Some(s), max) == Err::<
            Option<nat>,
            ConfigFault,
        >(ConfigFault { text: place + " `"@ + s + "`"@, cause: Some(fault.text()) }),
        NumberFault::Empty.text() == "cannot parse integer from empty string"@,
        NumberFault::Digit.text() == "invalid digit found in string"@,
        NumberFault::Large.text() == "number too large to fit in target type"@,
{
}

/// What is told of a setting beyond its limits, where all that are checked before it are
/// within theirs.
pub proof fn law_settings_beyond_limits(c: ConfigModel)
    requires
        c.device matches Some(d) ==> d.len() > 0 && d[0] == '/',
    ensures
        c.aoa_chunk_size == 0 ==> config_fault(c) == Some(
            "aoa_chunk_size must be >= 1"@ + ", got "@ + decimal(0),
        ),
        c.aoa_chunk_size >= 1 && c.tty_baud == 0 ==> config_fault(c) == Some(
            "tty_baud must be > 0"@,
        ),
        c.aoa_chunk_size >= 1 && c.tty_baud == 57_600 ==> {
            &&& c.ws_idle_timeout_minutes > 525_600 ==> config_fault(c) == Some(
                "ws_idle_timeout_minutes must be <= 525600"@ + ", got "@ + decimal(
                    c.ws_idle_timeout_minutes as nat,
                ),
            )
            &&& c.ws_idle_timeout_minutes <= 525_600 ==> {
                &&& c.ws_idle_retry_seconds == 0 ==> config_fault(c) == Some(
                    "ws_idle_retry_seconds must be >= 1"@ + ", got "@ + decimal(0),
                )
                &&& c.ws_idle_retry_seconds >= 1 && !(1 <= c.keepalive_interval_seconds
                    <= 31_536_000) ==> config_fault(c) == Some(
                    "keepalive_interval_seconds must be in 1..=31536000"@ + ", got "@ + decimal(
                        c.keepalive_interval_seconds as nat,
                    ),
                )
            }
        },
{
    reveal_strlit("/dev/usb_accessory");
    reveal_strlit("/dev/ttyUSB0");
    assert("/dev/usb_accessory"@[0] == '/' && "/dev/ttyUSB0"@[0] == '/');
}

/// The filter that counts is that of `RUST_LOG` where it is set, else the log level, and
/// what is told of one that makes no filter says which of them it was.
pub proof fn law_filter_that_counts(log_level: Seq<char>, directives: Seq<char>)
    ensures
        chosen(log_level, Some(directives)) == directives,
        chosen(log_level, None) == log_level,
        filter_fault(log_level, Some(directives)) == "parse RUST_LOG"@,
        filter_fault(log_level, None) == "invalid log_level `"@ + log_level + "`"@,
        level_word(log_level) <==> log_level == "error"@ || log_level == "warn"@ || log_level
            == "info"@ || log_level == "debug"@ || log_level == "trace"@,
{
}

} // verus!
