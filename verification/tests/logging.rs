use spores::log::{set_level, Level, Logger};
use spores::logger::{
    format_time, generate_temp_file_name, holds_thread_number, temp_file_name, thread_label,
    LogInfo, LogLevel, TIME_FORMAT,
};

const LEVELS: [Level; 7] = [
    Level::Error,
    Level::Warning,
    Level::Notice,
    Level::Info,
    Level::Debug,
    Level::Trace,
    Level::NoLevel,
];

#[test]
fn levels_are_ordered() {
    for (i, level) in LEVELS.iter().enumerate() {
        assert_eq!(level.ordinal() as usize, i);
        for (j, other) in LEVELS.iter().enumerate() {
            assert_eq!(level < other, i < j);
            assert_eq!(level >= other, i >= j);
            assert_eq!(level == other, i == j);
            assert_eq!(level.partial_cmp(other), i.partial_cmp(&j));
        }
    }
}

#[test]
fn a_new_logger_is_at_info() {
    let logger = Logger::new();
    assert_eq!(logger.level(), Level::Info);
    assert_eq!(logger.log(Level::Info, "shown"), Some("shown\n".to_string()));
    assert_eq!(logger.log(Level::Error, "shown"), Some("shown\n".to_string()));
    assert_eq!(logger.log(Level::Debug, "hidden"), None);
    assert_eq!(logger.log(Level::NoLevel, "hidden"), None);
}

#[test]
fn a_logger_lets_through_its_level_and_those_before_it() {
    let mut logger = Logger::new();
    for (i, set) in LEVELS.iter().enumerate() {
        set_level(&mut logger, *set);
        assert_eq!(logger.level(), *set);
        for (j, level) in LEVELS.iter().enumerate() {
            let line = logger.log(*level, "m\u{e9}ssage");
            if j <= i {
                assert_eq!(line, Some("m\u{e9}ssage\n".to_string()));
            } else {
                assert_eq!(line, None);
            }
        }
    }
}

#[test]
fn an_empty_message_is_a_bare_line_break() {
    let logger = Logger::new();
    assert_eq!(logger.log(Level::Warning, ""), Some("\n".to_string()));
}

#[test]
fn log_levels_have_names() {
    assert_eq!(LogLevel::Debug.to_string(), "DEBUG");
    assert_eq!(LogLevel::Info.to_string(), "INFO");
    assert_eq!(LogLevel::Warning.to_string(), "WARNING");
    assert_eq!(LogLevel::Error.to_string(), "ERROR");
    assert_eq!(LogLevel::Trace.to_string(), "TRACE");
    assert_eq!(LogLevel::Off.to_string(), "OFF");
    assert_eq!(LogLevel::Off.as_str(), "OFF");
}

#[test]
fn time_is_written_after_the_format() {
    assert_eq!(format_time(0, 0, TIME_FORMAT), "0000-00-00 00:00:00.3f UTC");
    assert_eq!(format_time(1_700_000_000, 123_456_789, TIME_FORMAT), "0053-11-25 22:13:20.3f UTC");
    assert_eq!(format_time(1_700_000_000, 123_456_789, "%f"), "123");
    assert_eq!(format_time(1_700_000_000, 7_000_000, "%H h %M min %S s %f ms"), "22 h 13 min 20 s 007 ms");
    assert_eq!(format_time(59, 999_999_999, "%S.%f"), "59.999");
    assert_eq!(format_time(86_399, 0, "%H:%M:%S"), "23:59:59");
}

#[test]
fn time_format_edge_cases() {
    assert_eq!(format_time(5, 0, ""), "");
    assert_eq!(format_time(5, 0, "plain text"), "plain text");
    assert_eq!(format_time(5, 0, "%"), "%");
    assert_eq!(format_time(5, 0, "100%"), "100%");
    assert_eq!(format_time(5, 0, "%%"), "%");
    assert_eq!(format_time(5, 0, "%%S"), "%S");
    assert_eq!(format_time(5, 0, "%q%Z%\u{e9}"), "qUTC\u{e9}");
    assert_eq!(format_time(5, 0, "\u{1f600}%S"), "\u{1f600}05");
    // Years are not cut off at four digits.
    assert_eq!(format_time(u64::MAX, u32::MAX, "%Y %f"), "584942417355 4294");
}

#[test]
fn temp_file_names_are_32_characters() {
    assert_eq!(temp_file_name(0), "temp-00000000000000000000000.log");
    assert_eq!(temp_file_name(8444741687653642537), "temp-00008444741687653642537.log");
    assert_eq!(temp_file_name(u64::MAX), "temp-00018446744073709551615.log");
    for hash in [1u64, 9, 10, 99, 12345678901234567890] {
        assert_eq!(temp_file_name(hash).len(), 32);
    }
}

#[test]
fn generated_temp_file_names_have_the_shape() {
    for (secs, nanos) in [(0u64, 0u32), (1_700_000_000, 5), (u64::MAX, u32::MAX)] {
        let name = generate_temp_file_name(secs, nanos);
        assert_eq!(name.len(), 32);
        assert!(name.starts_with("temp-"));
        assert!(name.ends_with(".log"));
        let digits = &name[5..28];
        assert!(digits.chars().all(|c| c.is_ascii_digit()));
        let hash: u64 = digits.parse().unwrap();
        assert_eq!(name, temp_file_name(hash));
    }
}

#[test]
fn thread_labels() {
    assert_eq!(thread_label(Some("main"), "ThreadId(1)"), "main");
    assert_eq!(thread_label(Some(""), "no number"), "");
    assert_eq!(thread_label(None, "ThreadId(2)"), "unnamed-2");
    assert_eq!(thread_label(None, "ThreadId(417)"), "unnamed-417");
    assert_eq!(thread_label(None, "a(b(c)d)"), "unnamed-b");
    assert_eq!(thread_label(None, "a(b)c)d"), "unnamed-b");
    assert_eq!(thread_label(None, "a(bcd"), "unnamed-bcd");
    assert_eq!(thread_label(None, "("), "unnamed-");
    assert_eq!(thread_label(None, ")x("), "unnamed-");
    assert!(holds_thread_number("ThreadId(2)"));
    assert!(holds_thread_number("("));
    assert!(!holds_thread_number("ThreadId 2)"));
    assert!(!holds_thread_number(""));
}

#[test]
fn a_log_line_holds_time_level_thread_place_and_message() {
    let logger = spores::logger::Logger::new("debug.log".to_string());
    assert_eq!(logger.level(), LogLevel::Info);
    assert_eq!(logger.filename(), "debug.log");
    let mut info = LogInfo {
        level: LogLevel::Warning,
        message: "disk almost full".to_string(),
        filepath: "src/main.rs",
        line_number: 42,
        thread: None,
    };
    assert_eq!(
        logger.log(&info, 1_700_000_000, 123_456_789, "worker-1"),
        "[0053-11-25 22:13:20.3f UTC] [WARNING] [worker-1] [src/main.rs:42] disk almost full\n"
    );
    info.thread = Some("named".to_string());
    info.level = LogLevel::Off;
    info.line_number = u32::MAX;
    info.message = String::new();
    assert_eq!(
        logger.log(&info, 0, 0, "worker-1"),
        "[0000-00-00 00:00:00.3f UTC] [OFF] [named] [src/main.rs:4294967295] \n"
    );
}

#[test]
fn the_structured_logger_logs_whatever_its_level() {
    let mut logger = spores::logger::Logger::new("x.log".to_string());
    logger.set_level(LogLevel::Off);
    assert_eq!(logger.level(), LogLevel::Off);
    assert_eq!(logger.filename(), "x.log");
    let info = LogInfo {
        level: LogLevel::Trace,
        message: "m".to_string(),
        filepath: "f",
        line_number: 0,
        thread: Some("t".to_string()),
    };
    assert_eq!(logger.log(&info, 60, 0, ""), "[0000-00-00 00:01:00.3f UTC] [TRACE] [t] [f:0] m\n");
    let copy = info.clone();
    assert_eq!(copy.message, "m");
    assert_eq!(copy.level, LogLevel::Trace);
}
