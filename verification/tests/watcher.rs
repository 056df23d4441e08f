use pself::lines::{bytes_value, line_value, line_values};
use pself::numbers::{parse_i32, parse_usize};
use pself::watcher::{
    parse_liner_street, pass_recovery_gate, values_eq, watch_from, FileEntry, LineWatch,
    WatchAction, WatchManager, TAMPER_EXIT_CODE,
};

fn std_line_values(content: &str) -> Vec<u64> {
    content.lines().map(|l| l.bytes().map(|b| b as u64).sum()).collect()
}

#[test]
fn line_value_is_the_sum_of_the_bytes() {
    assert_eq!(line_value(""), 0);
    assert_eq!(line_value("a"), 97);
    assert_eq!(line_value("abc"), 97 + 98 + 99);
    assert_eq!(line_value("é"), 0xc3 + 0xa9);
    assert_eq!(FileEntry::line_value("abc"), 294);
    assert_eq!(bytes_value(&[255, 255, 1]), 511);
}

#[test]
fn lines_end_at_line_feeds() {
    assert_eq!(line_values(b""), Vec::<u64>::new());
    assert_eq!(line_values(b"a"), vec![97]);
    assert_eq!(line_values(b"a\n"), vec![97]);
    assert_eq!(line_values(b"a\nb"), vec![97, 98]);
    assert_eq!(line_values(b"a\n\nb\n"), vec![97, 0, 98]);
    assert_eq!(line_values(b"\n"), vec![0]);
    assert_eq!(line_values(b"\n\n"), vec![0, 0]);
}

#[test]
fn carriage_return_before_line_feed_is_dropped() {
    assert_eq!(line_values(b"a\r\nb\r\n"), vec![97, 98]);
    assert_eq!(line_values(b"\r\n"), vec![0]);
    // a carriage return elsewhere belongs to the line
    assert_eq!(line_values(b"a\rb\n"), vec![97 + 13 + 98]);
    assert_eq!(line_values(b"a\r"), vec![97 + 13]);
    assert_eq!(line_values(b"a\r\r\n"), vec![97 + 13]);
}

#[test]
fn lines_agree_with_the_standard_library() {
    for content in [
        "", "one", "one\n", "one\ntwo", "one\r\ntwo\r\n", "\n", "\r", "\r\n", "\n\r", "a\rb",
        "a\n\n\nb", "tab\there\n  spaces  \n", "ünï\ncödé\r\n", "x\r", "x\r\r\n\r",
    ] {
        assert_eq!(line_values(content.as_bytes()), std_line_values(content), "{:?}", content);
    }
}

#[test]
fn entry_from_a_reading() {
    let e = FileEntry::from_path("/tmp/f", "ab\ncd\n");
    assert_eq!(e.path, "/tmp/f");
    assert_eq!(e.line_values, vec![97 + 98, 99 + 100]);
    assert_eq!(e.liner_watch, None);
}

#[test]
fn plain_entry_takes_over_a_changed_reading() {
    let mut e = FileEntry::from_path("f", "a\n");
    assert!(!e.update("a\n"));
    assert!(!e.update("a"));
    assert!(e.update("b\n"));
    assert_eq!(e.line_values, vec![98]);
    assert!(!e.update("b\n"));
    assert!(e.update("b\nc\n"));
    assert!(e.update(""));
    assert_eq!(e.line_values, Vec::<u64>::new());
}

#[test]
fn swapped_letters_in_a_line_go_unseen() {
    let mut e = FileEntry::from_path("f", "ab\n");
    assert!(!e.update("ba\n"));
}

#[test]
fn counted_entry_reports_until_its_count_runs_out() {
    let mut e = FileEntry::from_path("f", "a\n");
    e.set_liner_watch(LineWatch::Count(3));
    assert!(!e.update("a\n"));
    assert_eq!(e.liner_watch, Some(LineWatch::Count(3)));
    assert!(e.update("b\n"));
    assert_eq!(e.liner_watch, Some(LineWatch::Count(2)));
    // the checksums are kept, so the same reading counts again
    assert_eq!(e.line_values, vec![97]);
    assert!(e.update("b\n"));
    assert_eq!(e.liner_watch, Some(LineWatch::Count(1)));
    assert!(!e.update("b\n"));
    assert_eq!(e.liner_watch, Some(LineWatch::Count(0)));
    assert!(!e.update("c\n"));
    assert_eq!(e.liner_watch, Some(LineWatch::Count(0)));
}

#[test]
fn entry_watched_forever_reports_every_difference() {
    let mut e = FileEntry::from_path("f", "a\n");
    e.set_liner_watch(LineWatch::Forever);
    for _ in 0..5 {
        assert!(e.update("b\n"));
        assert!(!e.update("a\n"));
    }
    assert_eq!(e.line_values, vec![97]);
    assert_eq!(e.liner_watch, Some(LineWatch::Forever));
}

#[test]
fn checksum_lists_compare_by_content() {
    assert!(values_eq(&[], &[]));
    assert!(values_eq(&[1, 2], &[1, 2]));
    assert!(!values_eq(&[1, 2], &[2, 1]));
    assert!(!values_eq(&[1], &[1, 0]));
}

#[test]
fn counts_are_read_as_the_standard_library_reads_them() {
    assert_eq!(parse_usize("0"), Some(0));
    assert_eq!(parse_usize("7"), Some(7));
    assert_eq!(parse_usize("0042"), Some(42));
    assert_eq!(parse_usize("+5"), Some(5));
    assert_eq!(parse_usize(""), None);
    assert_eq!(parse_usize("+"), None);
    assert_eq!(parse_usize("-1"), None);
    assert_eq!(parse_usize("++1"), None);
    assert_eq!(parse_usize("1+"), None);
    assert_eq!(parse_usize(" 1"), None);
    assert_eq!(parse_usize("1 "), None);
    assert_eq!(parse_usize("12a"), None);
    assert_eq!(parse_usize("١٢"), None);
    assert_eq!(parse_usize(&usize::MAX.to_string()), Some(usize::MAX));
    assert_eq!(parse_usize("18446744073709551616"), None);
    assert_eq!(parse_usize("99999999999999999999999999"), None);
    for s in ["0", "+5", "", "+", "-1", "12a", "0042", "18446744073709551615", "18446744073709551616"] {
        assert_eq!(parse_usize(s), s.parse::<usize>().ok(), "{:?}", s);
    }
}

#[test]
fn watch_values() {
    assert_eq!(watch_from("forever-all-day"), LineWatch::Forever);
    assert_eq!(watch_from("3"), LineWatch::Count(3));
    assert_eq!(watch_from("0"), LineWatch::Count(0));
    assert_eq!(watch_from("forever"), LineWatch::Count(1));
    assert_eq!(watch_from("Forever-All-Day"), LineWatch::Count(1));
    assert_eq!(watch_from(""), LineWatch::Count(1));
    assert_eq!(watch_from("-3"), LineWatch::Count(1));
}

#[test]
fn line_watch_arguments() {
    assert_eq!(parse_liner_street("a.txt"), ("a.txt".to_string(), LineWatch::Count(1)));
    assert_eq!(parse_liner_street("a.txt:5"), ("a.txt".to_string(), LineWatch::Count(5)));
    assert_eq!(
        parse_liner_street("a.txt:forever-all-day"),
        ("a.txt".to_string(), LineWatch::Forever)
    );
    assert_eq!(parse_liner_street("a.txt:"), ("a.txt".to_string(), LineWatch::Count(1)));
    assert_eq!(parse_liner_street(":7"), ("".to_string(), LineWatch::Count(7)));
    assert_eq!(parse_liner_street(""), ("".to_string(), LineWatch::Count(1)));
    // only the first colon splits
    assert_eq!(parse_liner_street("a:b:3"), ("a".to_string(), LineWatch::Count(1)));
    assert_eq!(parse_liner_street("dir/é.txt:2"), ("dir/é.txt".to_string(), LineWatch::Count(2)));
}

#[test]
fn recovery_gate() {
    assert!(pass_recovery_gate("AUTHORIZED"));
    assert!(!pass_recovery_gate(""));
    assert!(!pass_recovery_gate("authorized"));
    assert!(!pass_recovery_gate("AUTHORIZED "));
    assert_eq!(TAMPER_EXIT_CODE, 1337);
}

#[test]
fn manager_adds_each_path_once() {
    let mut wm = WatchManager::new();
    assert!(wm.is_empty());
    assert!(wm.add_file("a", "x\n", None));
    assert!(!wm.is_empty());
    assert!(!wm.add_file("a", "y\n", Some(LineWatch::Forever)));
    assert!(wm.add_file("b", "", Some(LineWatch::Count(2))));
    let a = wm.files.get("a").unwrap();
    assert_eq!(a.line_values, vec![120]);
    assert_eq!(a.liner_watch, None);
    let b = wm.files.get("b").unwrap();
    assert_eq!(b.path, "b");
    assert_eq!(b.liner_watch, Some(LineWatch::Count(2)));
    let mut paths = wm.export_pself();
    paths.sort();
    assert_eq!(paths, vec!["a".to_string(), "b".to_string()]);
}

#[test]
fn manager_decides_what_follows_an_event() {
    let mut wm = WatchManager::new();
    wm.add_file("a", "x\n", None);
    assert_eq!(wm.update_if_needed("a", "x\n", ""), WatchAction::Export);
    assert_eq!(wm.update_if_needed("zzz", "anything", ""), WatchAction::Export);
    assert_eq!(wm.update_if_needed("a", "y\n", "AUTHORIZED"), WatchAction::AlertAndExport);
    assert_eq!(wm.files.get("a").unwrap().line_values, vec![121]);
    assert_eq!(wm.update_if_needed("a", "y\n", "AUTHORIZED"), WatchAction::Export);
    assert_eq!(wm.update_if_needed("a", "z\n", "wrong"), WatchAction::AlertAndExit);
    assert_eq!(wm.update_if_needed("a", "z\n", "wrong"), WatchAction::Export);
    let mut paths = wm.export_pself();
    paths.sort();
    assert_eq!(paths, vec!["a".to_string()]);
}

#[test]
fn manager_counts_down_a_counted_file() {
    let mut wm = WatchManager::new();
    wm.add_file("a", "x\n", Some(LineWatch::Count(2)));
    wm.add_file("b", "x\n", None);
    assert_eq!(wm.update_if_needed("a", "y\n", "AUTHORIZED"), WatchAction::AlertAndExport);
    assert_eq!(wm.update_if_needed("a", "y\n", "AUTHORIZED"), WatchAction::Export);
    assert_eq!(wm.files.get("a").unwrap().liner_watch, Some(LineWatch::Count(0)));
    assert_eq!(wm.update_if_needed("a", "y\n", ""), WatchAction::Export);
    assert_eq!(wm.files.get("b").unwrap().line_values, vec![120]);
}

#[test]
fn signed_numbers_are_read_as_the_standard_library_reads_them() {
    assert_eq!(parse_i32("0"), Some(0));
    assert_eq!(parse_i32("-0"), Some(0));
    assert_eq!(parse_i32("+17"), Some(17));
    assert_eq!(parse_i32("-17"), Some(-17));
    assert_eq!(parse_i32("2147483647"), Some(i32::MAX));
    assert_eq!(parse_i32("2147483648"), None);
    assert_eq!(parse_i32("-2147483648"), Some(i32::MIN));
    assert_eq!(parse_i32("-2147483649"), None);
    for s in [
        "", "-", "+", "--1", "+-1", "1-", "12", "007", "-007", " 1", "1.0", "0x10", "2147483647",
        "2147483648", "-2147483648", "-2147483649", "99999999999999999999",
    ] {
        assert_eq!(parse_i32(s), s.parse::<i32>().ok(), "{:?}", s);
    }
}
