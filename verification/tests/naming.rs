use tboard::global_uid;
use tboard::log_file_name;
use tboard::EventWriter;
use tboard::UidCounter;

#[test]
fn file_name_format_is_exact() {
    let name = log_file_name(42, "myhost", 7, 1);
    assert_eq!(name, "events.out.tfevents.0000000042.myhost.7.1");
}

#[test]
fn file_name_pads_seconds_to_ten_digits() {
    assert_eq!(log_file_name(0, "h", 0, 0), "events.out.tfevents.0000000000.h.0.0");
    assert_eq!(
        log_file_name(1700000000, "box", 4242, 17),
        "events.out.tfevents.1700000000.box.4242.17"
    );
    // Eleven digits: wider than the pad, kept whole.
    assert_eq!(
        log_file_name(10000000000, "h", 1, 1),
        "events.out.tfevents.10000000000.h.1.1"
    );
}

#[test]
fn uid_counter_starts_at_one_and_advances() {
    let mut counter = UidCounter::new();
    assert_eq!(global_uid(&mut counter), 1);
    assert_eq!(global_uid(&mut counter), 2);
    assert_eq!(global_uid(&mut counter), 3);
}

// The uniqueness scenario: two writers created against the same directory in
// the same second, on the same host and in the same process, get distinct
// file names that differ only in the trailing counter component.
#[test]
fn two_writers_same_second_get_distinct_names() {
    let mut counter = UidCounter::new();
    let secs = 1700000123;
    let host = "samehost";
    let pid = 999;
    let wt = (secs as f64).to_bits();
    let name1 = log_file_name(secs, host, pid, global_uid(&mut counter));
    let name2 = log_file_name(secs, host, pid, global_uid(&mut counter));
    assert_ne!(name1, name2);
    let prefix = format!("events.out.tfevents.{secs}.{host}.{pid}.");
    assert_eq!(name1, format!("{prefix}1"));
    assert_eq!(name2, format!("{prefix}2"));
    let w1 = EventWriter::from_writer(Some(name1.clone()), wt);
    let w2 = EventWriter::from_writer(Some(name2.clone()), wt);
    assert_eq!(w1.filename(), Some(&name1));
    assert_eq!(w2.filename(), Some(&name2));
    assert_ne!(w1.filename(), w2.filename());
}

#[test]
fn writer_without_file_has_no_name() {
    let w = EventWriter::from_writer(None, 0);
    assert!(w.filename().is_none());
}
