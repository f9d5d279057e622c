use event_assembly::breadcrumb::{breadcrumb_of, extract_breadcrumbs, Breadcrumb, MAX_BREADCRUMBS};
use event_assembly::level::Level;
use event_assembly::timestamp::Timestamp;

const STAMP: Timestamp = Timestamp { secs: 1_500_000_000, nanos: 7 };

fn crumb(level: Option<Level>, message: &str) -> Breadcrumb {
    Breadcrumb { timestamp: STAMP, level, message: message.to_string() }
}

fn numbered(count: usize) -> Vec<String> {
    (0..count).map(|i| format!("line {}", i)).collect()
}

#[test]
fn logfile_keeps_the_last_hundred_lines() {
    let mut lines = numbered(150);
    lines[60] = "ERROR: disk full".to_string();
    lines[149] = "random text".to_string();
    let crumbs = extract_breadcrumbs(&lines, true, STAMP);
    assert_eq!(crumbs.len(), 100);
    assert_eq!(crumbs[0], crumb(None, "line 50"));
    assert_eq!(crumbs[1], crumb(None, "line 51"));
    assert_eq!(crumbs[10], crumb(Some(Level::Error), "disk full"));
    assert_eq!(crumbs[98], crumb(None, "line 148"));
    assert_eq!(crumbs[99], crumb(None, "random text"));
    for (i, c) in crumbs.iter().enumerate() {
        if i != 10 && i != 99 {
            assert_eq!(c.message, format!("line {}", i + 50));
        }
    }
}

#[test]
fn short_logfile_is_kept_whole() {
    assert_eq!(MAX_BREADCRUMBS, 100);
    assert_eq!(extract_breadcrumbs(&Vec::new(), true, STAMP), Vec::new());
    let three = extract_breadcrumbs(&numbered(3), false, STAMP);
    assert_eq!(three, vec![crumb(None, "line 0"), crumb(None, "line 1"), crumb(None, "line 2")]);
    assert_eq!(extract_breadcrumbs(&numbered(100), false, STAMP).len(), 100);
    let most = extract_breadcrumbs(&numbered(101), false, STAMP);
    assert_eq!(most.len(), 100);
    assert_eq!(most[0].message, "line 1");
    assert_eq!(most[99].message, "line 100");
}

#[test]
fn without_categories_the_line_stays_as_it_is() {
    assert_eq!(breadcrumb_of("ERROR: disk full", false, STAMP), crumb(None, "ERROR: disk full"));
    assert_eq!(breadcrumb_of("", false, STAMP), crumb(None, ""));
}

#[test]
fn category_gives_the_level() {
    assert_eq!(breadcrumb_of("ERROR: disk full", true, STAMP), crumb(Some(Level::Error), "disk full"));
    assert_eq!(breadcrumb_of("INFO: Something broke", true, STAMP), crumb(Some(Level::Info), "Something broke"));
    assert_eq!(breadcrumb_of("warning: a: b", true, STAMP), crumb(Some(Level::Warning), "a: b"));
    assert_eq!(breadcrumb_of("Debug: ", true, STAMP), crumb(Some(Level::Debug), ""));
    assert_eq!(breadcrumb_of("FATAL:  two", true, STAMP), crumb(Some(Level::Fatal), " two"));
}

#[test]
fn unknown_category_leaves_the_line_whole() {
    assert_eq!(breadcrumb_of("random text", true, STAMP), crumb(None, "random text"));
    assert_eq!(breadcrumb_of("TRACE: detail", true, STAMP), crumb(None, "TRACE: detail"));
    assert_eq!(breadcrumb_of("LOG: detail", true, STAMP), crumb(None, "LOG: detail"));
    assert_eq!(breadcrumb_of("ERROR:disk full", true, STAMP), crumb(None, "ERROR:disk full"));
    assert_eq!(breadcrumb_of(": nothing", true, STAMP), crumb(None, ": nothing"));
    assert_eq!(breadcrumb_of(" ERROR: padded", true, STAMP), crumb(None, " ERROR: padded"));
    assert_eq!(breadcrumb_of("at 12:30: ERROR: late", true, STAMP), crumb(None, "at 12:30: ERROR: late"));
}

#[test]
fn first_boundary_decides() {
    assert_eq!(breadcrumb_of("x:y: ERROR: z", true, STAMP), crumb(None, "x:y: ERROR: z"));
    assert_eq!(breadcrumb_of("error: info: z", true, STAMP), crumb(Some(Level::Error), "info: z"));
}
