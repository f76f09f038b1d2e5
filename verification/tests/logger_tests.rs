use qubit::logger::common_logger::{CommonLogger, Level, LogTime};
use qubit::logger::console_logger::logging;
use qubit::logger::console_logger::{ConsoleAction, ConsoleColor, ConsoleLogger};
use qubit::logger::file_logger::{self, StreamLogger};

fn at(h: u32, m: u32, s: u32, nano: u32) -> LogTime {
    LogTime::new(2024, 1, 2, h, m, s, nano).unwrap()
}

#[test]
fn default_pattern_makes_the_header() {
    let logger = CommonLogger::new(Level::Info);
    let line = logger.log("main", Level::Info, at(3, 4, 5, 0), "This is a log message.");
    assert_eq!(
        line,
        Some("2024-01-02 03:04:05 INFO    [main] This is a log message.".to_string())
    );
}

#[test]
fn levels_above_the_logger_level_are_dropped() {
    let logger = CommonLogger::new(Level::Warn);
    assert!(logger.log("c", Level::Debug, at(0, 0, 0, 0), "x").is_some());
    assert!(logger.log("c", Level::Warn, at(0, 0, 0, 0), "x").is_some());
    assert!(logger.log("c", Level::Error, at(0, 0, 0, 0), "x").is_none());
    assert!(logger.log("c", Level::Fatal, at(0, 0, 0, 0), "x").is_none());
}

#[test]
fn debug_logger_drops_info() {
    let logger = CommonLogger::new(Level::Debug);
    assert_eq!(logger.log("main", Level::Info, at(1, 2, 3, 0), "This is a log message."), None);
}

#[test]
fn disabled_categories_are_dropped_until_enabled() {
    let mut logger = CommonLogger::new(Level::Fatal);
    logger.disable_category("net");
    logger.disable_category("net");
    assert!(logger.is_disabled("net"));
    assert!(logger.log("net", Level::Info, at(0, 0, 0, 0), "x").is_none());
    assert!(logger.log("db", Level::Info, at(0, 0, 0, 0), "x").is_some());
    logger.enable_category("net");
    assert!(!logger.is_disabled("net"));
    assert!(logger.log("net", Level::Info, at(0, 0, 0, 0), "x").is_some());
    logger.enable_category("never-disabled");
    assert!(!logger.is_disabled("never-disabled"));
}

#[test]
fn set_max_level_changes_the_filter() {
    let mut logger = CommonLogger::new(Level::Debug);
    assert!(logger.log("c", Level::Error, at(0, 0, 0, 0), "x").is_none());
    logger.set_max_level(Level::Fatal);
    assert!(logger.log("c", Level::Error, at(0, 0, 0, 0), "x").is_some());
}

#[test]
fn pattern_directives() {
    let mut logger = CommonLogger::new(Level::Fatal);
    logger.set_pattern("<%L|%C|%%|%x|%T|%D>%");
    let line = logger.log("cat", Level::Warn, at(23, 59, 59, 1_500_000_000), "!");
    assert_eq!(line, Some("<WARN   |cat|%|x|23:59:60.500|2024-01-02>!".to_string()));
}

#[test]
fn empty_pattern_writes_the_body_alone() {
    let mut logger = CommonLogger::new(Level::Fatal);
    logger.set_pattern("");
    assert_eq!(logger.log("c", Level::Info, at(0, 0, 0, 0), "body"), Some("body".to_string()));
}

#[test]
fn header_goes_before_an_escape_at_the_start() {
    let mut logger = CommonLogger::new(Level::Fatal);
    logger.set_pattern("[%C] ");
    let line = logger.log("c", Level::Info, at(0, 0, 0, 0), "\u{1b}RED\u{1b}hi");
    assert_eq!(line, Some("[c] \u{1b}RED\u{1b}hi".to_string()));
}

#[test]
fn time_fractions() {
    let mut logger = CommonLogger::new(Level::Fatal);
    logger.set_pattern("%T");
    let cases = [
        (0, "12:00:00"),
        (7_000_000, "12:00:00.007"),
        (7_000, "12:00:00.000007"),
        (7, "12:00:00.000000007"),
    ];
    for (nano, text) in cases {
        let line = logger.log("c", Level::Info, at(12, 0, 0, nano), "").unwrap();
        assert_eq!(line, text);
    }
}

#[test]
fn dates_far_from_now() {
    let mut logger = CommonLogger::new(Level::Fatal);
    logger.set_pattern("%D");
    let t = LogTime::new(-44, 3, 15, 0, 0, 0, 0).unwrap();
    assert_eq!(logger.log("c", Level::Info, t, "").unwrap(), "-0044-03-15");
    let t = LogTime::new(12345, 12, 31, 0, 0, 0, 0).unwrap();
    assert_eq!(logger.log("c", Level::Info, t, "").unwrap(), "+12345-12-31");
    let t = LogTime::new(7, 1, 1, 0, 0, 0, 0).unwrap();
    assert_eq!(logger.log("c", Level::Info, t, "").unwrap(), "0007-01-01");
}

#[test]
fn invalid_times_are_refused() {
    assert!(LogTime::new(2023, 2, 29, 0, 0, 0, 0).is_none());
    assert!(LogTime::new(2024, 2, 29, 0, 0, 0, 0).is_some());
    assert!(LogTime::new(2024, 13, 1, 0, 0, 0, 0).is_none());
    assert!(LogTime::new(2024, 4, 31, 0, 0, 0, 0).is_none());
    assert!(LogTime::new(2024, 1, 1, 24, 0, 0, 0).is_none());
    assert!(LogTime::new(2024, 1, 1, 0, 0, 58, 1_000_000_000).is_none());
    assert!(LogTime::new(400000, 1, 1, 0, 0, 0, 0).is_none());
    let t = LogTime::new(2024, 5, 6, 7, 8, 9, 10).unwrap();
    assert_eq!(
        (t.year(), t.month(), t.day(), t.hour(), t.minute(), t.second(), t.nanosecond()),
        (2024, 5, 6, 7, 8, 9, 10)
    );
    assert_eq!(t.date_string(), "2024-05-06");
    assert_eq!(t.time_string(), "07:08:09.000000010");
}

#[test]
fn level_names() {
    assert_eq!(Level::LEVEL_NAMES, ["DEBUG", "INFO", "WARN", "ERROR", "FATAL"]);
    assert_eq!(Level::Error.level_name(), "ERROR");
    assert_eq!(Level::Fatal.index(), 4);
}

#[test]
fn console_writes_text_and_sets_colors() {
    let logger = ConsoleLogger::new(logging::Level::Info);
    assert_eq!(
        logger.do_log_string("ab"),
        vec![ConsoleAction::Write('a'), ConsoleAction::Write('b')]
    );
    // A colour token keeps its escape characters, so the whole token names no colour.
    assert_eq!(
        logger.do_log_string("a\u{1b}RED\u{1b}b"),
        vec![
            ConsoleAction::Write('a'),
            ConsoleAction::SetColor(ConsoleColor::Reset),
            ConsoleAction::Write('b'),
        ]
    );
    assert_eq!(logger.do_log_string("\u{1b}unclosed"), Vec::<ConsoleAction>::new());
    assert_eq!(logger.common_logger().log_level(), logging::Level::Info);
}

#[test]
fn stream_logger_levels() {
    let mut logger = StreamLogger::new(file_logger::Level::Warn);
    assert_eq!(logger.log_level(), file_logger::Level::Warn);
    logger.set_log_level(file_logger::Level::Debug);
    assert_eq!(logger.log_level(), file_logger::Level::Debug);
}

#[test]
fn disable_then_enable_restores() {
    let mut logger = CommonLogger::new(Level::Fatal);
    logger.disable_category("a");
    logger.disable_category("b");
    logger.enable_category("b");
    assert!(logger.is_disabled("a"));
    assert!(!logger.is_disabled("b"));
    logger.enable_category("a");
    logger.disable_category("a");
    assert!(logger.is_disabled("a"));
}

#[test]
fn plain_text_is_written_as_is() {
    let logger = ConsoleLogger::new(logging::Level::Debug);
    let actions = logger.do_log_string("hi there");
    let expected: Vec<ConsoleAction> = "hi there".chars().map(ConsoleAction::Write).collect();
    assert_eq!(actions, expected);
}

#[test]
fn written_text_is_what_lies_outside_tokens() {
    let logger = ConsoleLogger::new(logging::Level::Debug);
    let message = "ab\u{1b}GREEN\u{1b}cd\u{1b}x\u{1b}e\u{1b}open";
    let actions = logger.do_log_string(message);
    let written: String = actions
        .iter()
        .filter_map(|a| match a {
            ConsoleAction::Write(c) => Some(*c),
            ConsoleAction::SetColor(_) => None,
        })
        .collect();
    assert_eq!(written, "abcde");
    let settings = actions.iter().filter(|a| matches!(a, ConsoleAction::SetColor(_))).count();
    // five escape characters close two tokens
    assert_eq!(settings, 2);
    assert_eq!(
        actions,
        vec![
            ConsoleAction::Write('a'),
            ConsoleAction::Write('b'),
            ConsoleAction::SetColor(ConsoleColor::Reset),
            ConsoleAction::Write('c'),
            ConsoleAction::Write('d'),
            ConsoleAction::SetColor(ConsoleColor::Reset),
            ConsoleAction::Write('e'),
        ]
    );
}

#[test]
fn joined_patterns_expand_to_joined_headers() {
    let time = at(10, 20, 30, 0);
    let mut first = CommonLogger::new(Level::Debug);
    first.set_pattern("[%C] 100%%");
    let mut second = CommonLogger::new(Level::Debug);
    second.set_pattern("%L|%T");
    let mut joined = CommonLogger::new(Level::Debug);
    joined.set_pattern("[%C] 100%%%L|%T");
    assert_eq!(
        joined.format_pattern("net", Level::Warn, &time),
        first.format_pattern("net", Level::Warn, &time) + &second.format_pattern("net", Level::Warn, &time)
    );
    assert_eq!(joined.format_pattern("net", Level::Warn, &time), "[net] 100%WARN   |10:20:30");
    // A first pattern that ends in an unpaired `%` pairs it with the second's first character.
    first.set_pattern("a%");
    second.set_pattern("C");
    joined.set_pattern("a%C");
    assert_eq!(joined.format_pattern("net", Level::Warn, &time), "anet");
    assert_eq!(
        first.format_pattern("net", Level::Warn, &time) + &second.format_pattern("net", Level::Warn, &time),
        "aC"
    );
}
