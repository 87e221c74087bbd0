use std::str::FromStr;

use trace4rs::config::{
    Appender, AppenderId, Config, Format, LevelFilter, Logger, Policy, Severity, Target,
    UnknownLevel,
};

fn levels() -> Vec<LevelFilter> {
    vec![
        LevelFilter::off(),
        LevelFilter::error(),
        LevelFilter::warn(),
        LevelFilter::info(),
        LevelFilter::debug(),
        LevelFilter::trace(),
    ]
}

#[test]
fn target_holds_its_text() {
    let t = Target::from("trace4rs::config");
    assert_eq!(t.as_str(), "trace4rs::config");
    assert_eq!(t.to_string(), "trace4rs::config".to_string());
    assert_eq!(t.clone(), t);
    assert_eq!(Target("a".to_string()), Target::from("a"));
    assert_ne!(Target::from("a"), Target::from("A"));
}

#[test]
fn targets_are_ordered_as_their_text() {
    assert!(Target::from("a") < Target::from("b"));
    assert!(Target::from("a") < Target::from("ab"));
    assert!(Target::from("B") < Target::from("a"));
    assert!(AppenderId::from("file") < AppenderId::from("stdout"));
}

#[test]
fn appender_id_holds_its_text() {
    let id = AppenderId::from("stdout");
    assert_eq!(id.0, "stdout");
    assert_eq!(id.clone(), id);
    assert_ne!(AppenderId::from("stdout"), AppenderId::from("stderr"));
}

#[test]
fn format_is_normal_by_default() {
    assert_eq!(Format::default(), Format::Normal);
    assert!(Format::default().is_normal());
    assert!(!Format::MessageOnly.is_normal());
    assert!(!Format::Custom("{m}".to_string()).is_normal());
}

#[test]
fn formats_are_equal_by_kind_and_text() {
    assert_eq!(Format::Custom("{m}".to_string()), Format::Custom("{m}".to_string()));
    assert_ne!(Format::Custom("{m}".to_string()), Format::Custom("{t}".to_string()));
    assert_ne!(Format::Normal, Format::MessageOnly);
    assert_ne!(Format::MessageOnly, Format::Custom(String::new()));
    let f = Format::Custom("{l} {m}".to_string());
    assert_eq!(f.clone(), f);
}

#[test]
fn maximum_level_is_trace() {
    assert_eq!(LevelFilter::maximum(), LevelFilter::trace());
    assert_eq!(LevelFilter::maximum(), LevelFilter(Severity::Trace));
}

#[test]
fn levels_are_ordered_by_rank() {
    let all = levels();
    for i in 0..all.len() {
        assert_eq!(all[i].index() as usize, i);
        for j in 0..all.len() {
            assert_eq!(all[i] < all[j], i < j);
            assert_eq!(all[i] == all[j], i == j);
        }
    }
    assert!(LevelFilter::error() < LevelFilter::warn());
    assert!(LevelFilter::debug() < LevelFilter::trace());
    assert!(LevelFilter::off() < LevelFilter::error());
}

#[test]
fn level_test_goes_by_rank() {
    let all = levels();
    for f in 0..all.len() {
        for l in 0..all.len() {
            let expected = l != 0 && l <= f;
            assert_eq!(all[f].is_enabled(all[l]), expected, "{:?} {:?}", all[f], all[l]);
        }
    }
}

#[test]
fn off_lets_nothing_through() {
    for level in levels() {
        assert!(!LevelFilter::off().is_enabled(level));
        assert!(!level.is_enabled(LevelFilter::off()));
    }
}

#[test]
fn level_names_are_capitals() {
    assert_eq!(LevelFilter::off().as_str(), "OFF");
    assert_eq!(LevelFilter::error().as_str(), "ERROR");
    assert_eq!(LevelFilter::warn().as_str(), "WARN");
    assert_eq!(LevelFilter::info().as_str(), "INFO");
    assert_eq!(LevelFilter::debug().as_str(), "DEBUG");
    assert_eq!(LevelFilter::trace().as_str(), "TRACE");
}

#[test]
fn level_is_read_from_its_name() {
    assert_eq!(LevelFilter::from_str("TRACE"), Ok(LevelFilter::trace()));
    assert_eq!(LevelFilter::from_str("debug"), Ok(LevelFilter::debug()));
    assert_eq!(LevelFilter::from_str("Info"), Ok(LevelFilter::info()));
    assert_eq!(LevelFilter::from_str("wArN"), Ok(LevelFilter::warn()));
    assert_eq!(LevelFilter::from_str("error"), Ok(LevelFilter::error()));
    assert_eq!(LevelFilter::from_str("OFF"), Ok(LevelFilter::off()));
    assert_eq!("info".parse::<LevelFilter>(), Ok(LevelFilter::info()));
    assert_eq!(<LevelFilter as FromStr>::from_str("off"), Ok(LevelFilter::off()));
}

#[test]
fn level_names_are_read_back() {
    for level in levels() {
        assert_eq!(LevelFilter::from_str(level.as_str()), Ok(level));
    }
}

#[test]
fn unknown_level_is_refused() {
    assert_eq!(LevelFilter::from_str("verbose"), Err(UnknownLevel));
    assert_eq!(LevelFilter::from_str(" info"), Err(UnknownLevel));
    assert_eq!(LevelFilter::from_str("6"), Err(UnknownLevel));
    assert_eq!("inf".parse::<LevelFilter>(), Err(UnknownLevel));
}

#[test]
fn appender_builders() {
    assert_eq!(Appender::console(), Appender::Console);
    assert_eq!(Appender::file("/var/log/app.log"), Appender::File { path: "/var/log/app.log".to_string() });
}

fn policy(size: &str, backups: u32, pattern: Option<&str>) -> Policy {
    Policy {
        maximum_file_size: size.to_string(),
        max_size_roll_backups: backups,
        pattern: pattern.map(|p| p.to_string()),
    }
}

#[test]
fn appenders_are_equal_by_kind_and_fields() {
    assert_eq!(Appender::Null, Appender::Null);
    assert_ne!(Appender::Null, Appender::Console);
    assert_ne!(Appender::file("a"), Appender::file("b"));
    assert_ne!(
        Appender::file("a"),
        Appender::RollingFile { path: "a".to_string(), policy: policy("1kb", 1, None) }
    );
    let rolling = Appender::RollingFile { path: "a".to_string(), policy: policy("1kb", 1, None) };
    assert_eq!(rolling.clone(), rolling);
    assert_ne!(
        rolling,
        Appender::RollingFile { path: "a".to_string(), policy: policy("1kb", 2, None) }
    );
}

#[test]
fn policies_are_equal_by_fields() {
    assert_eq!(policy("10mb", 3, Some("log.{}")), policy("10mb", 3, Some("log.{}")));
    assert_ne!(policy("10mb", 3, Some("log.{}")), policy("10mb", 3, None));
    assert_ne!(policy("10mb", 3, None), policy("10 mb", 3, None));
    assert_ne!(policy("10mb", 3, Some("a")), policy("10mb", 3, Some("b")));
    let p = policy("10mb", 3, Some("log.{}"));
    assert_eq!(p.clone(), p);
}

#[test]
fn policy_size_is_read_when_asked() {
    let p = policy("10mb", 3, None);
    assert_eq!(Policy::calculate_maximum_file_size(&p.maximum_file_size), Ok(10 * 1024 * 1024));
}

#[test]
fn default_config_logs_info_to_the_console() {
    let config = Config::default();
    assert_eq!(config.default.level, LevelFilter::info());
    assert_eq!(config.default.format, Format::Normal);
    assert_eq!(config.default.appenders, vec![AppenderId::from("stdout")]);
    assert!(config.loggers.is_empty());
    assert_eq!(config.appenders, vec![(AppenderId::from("stdout"), Appender::Console)]);
    assert!(config.default.is_valid());
    let again = Config::console_config();
    assert_eq!(again.appenders, config.appenders);
    assert_eq!(again.default.level, config.default.level);
}

#[test]
fn logger_names_no_appender_twice() {
    let mut logger = Logger {
        appenders: vec![AppenderId::from("a"), AppenderId::from("b")],
        level: LevelFilter::warn(),
        format: Format::MessageOnly,
    };
    assert!(logger.is_valid());
    logger.appenders.push(AppenderId::from("a"));
    assert!(!logger.is_valid());
    logger.appenders.clear();
    assert!(logger.is_valid());
}

#[test]
fn order_of_targets_is_that_of_their_strings() {
    let samples = ["", "a", "ab", "b", "B", "a::b", "a:", "\u{e9}", "e\u{301}", "z", "\u{1f600}", "\u{ffff}", "~"];
    for a in samples {
        for b in samples {
            let (x, y) = (Target::from(a), Target::from(b));
            assert_eq!(x.partial_cmp(&y), Some(a.cmp(b)), "{:?} {:?}", a, b);
            assert_eq!(x.partial_cmp(&y), Some(x.cmp(&y)));
            assert_eq!(x < y, a < b);
            assert_eq!(x >= y, a >= b);
            let (i, j) = (AppenderId::from(a), AppenderId::from(b));
            assert_eq!(i.partial_cmp(&j), Some(a.cmp(b)));
            assert_eq!(i.partial_cmp(&j), Some(i.cmp(&j)));
        }
    }
}

fn rule(appenders: &[&str], level: LevelFilter, format: Format) -> Logger {
    Logger { appenders: appenders.iter().map(|a| AppenderId::from(*a)).collect(), level, format }
}

#[test]
fn loggers_are_equal_whatever_the_order_of_their_appenders() {
    let a = rule(&["x", "y"], LevelFilter::info(), Format::Normal);
    assert_eq!(a, rule(&["y", "x"], LevelFilter::info(), Format::Normal));
    assert_eq!(a.clone(), a);
    assert_ne!(a, rule(&["x"], LevelFilter::info(), Format::Normal));
    assert_ne!(a, rule(&["x", "y", "z"], LevelFilter::info(), Format::Normal));
    assert_ne!(a, rule(&["x", "y"], LevelFilter::warn(), Format::Normal));
    assert_ne!(a, rule(&["x", "y"], LevelFilter::info(), Format::MessageOnly));
    assert_eq!(
        rule(&[], LevelFilter::off(), Format::Custom("{m}".to_string())),
        rule(&[], LevelFilter::off(), Format::Custom("{m}".to_string()))
    );
}

fn sample_config() -> Config {
    Config {
        default: rule(&["stdout"], LevelFilter::info(), Format::Normal),
        appenders: vec![
            (AppenderId::from("stdout"), Appender::Console),
            (AppenderId::from("file"), Appender::file("app.log")),
        ],
        loggers: vec![
            (Target::from("db"), rule(&["file"], LevelFilter::debug(), Format::MessageOnly)),
            (Target::from("web"), rule(&["file", "stdout"], LevelFilter::warn(), Format::Normal)),
        ],
    }
}

#[test]
fn configs_are_equal_whatever_the_order_of_their_entries() {
    let a = sample_config();
    let mut b = sample_config();
    b.appenders.reverse();
    b.loggers.reverse();
    b.loggers[0].1.appenders.reverse();
    assert_eq!(a, b);
    assert_eq!(a.clone(), a);
    assert_eq!(Config::default(), Config::console_config());
    assert_ne!(a, Config::default());

    let mut other_appender = sample_config();
    other_appender.appenders[1].1 = Appender::file("other.log");
    assert_ne!(a, other_appender);

    let mut other_id = sample_config();
    other_id.appenders[1].0 = AppenderId::from("log");
    assert_ne!(a, other_id);

    let mut fewer = sample_config();
    fewer.loggers.pop();
    assert_ne!(a, fewer);
    assert_ne!(fewer, a);

    let mut other_level = sample_config();
    other_level.loggers[0].1.level = LevelFilter::trace();
    assert_ne!(a, other_level);

    let mut other_default = sample_config();
    other_default.default.format = Format::MessageOnly;
    assert_ne!(a, other_default);
}

#[test]
fn config_holds_no_key_twice() {
    assert!(sample_config().is_valid());
    assert!(Config::default().is_valid());

    let mut twice_appender = sample_config();
    twice_appender.appenders.push((AppenderId::from("stdout"), Appender::Null));
    assert!(!twice_appender.is_valid());

    let mut twice_target = sample_config();
    twice_target.loggers.push((Target::from("db"), rule(&[], LevelFilter::off(), Format::Normal)));
    assert!(!twice_target.is_valid());

    let mut twice_in_logger = sample_config();
    twice_in_logger.loggers[1].1.appenders.push(AppenderId::from("file"));
    assert!(!twice_in_logger.is_valid());

    let mut twice_in_default = sample_config();
    twice_in_default.default.appenders.push(AppenderId::from("stdout"));
    assert!(!twice_in_default.is_valid());
}
