use rolling_appender::rotation::Rotation;
use rolling_appender::time::Timestamp;
use rolling_appender::writer::{current_timestamp, WriterCore};

fn ts(year: i32, month: u8, day: u8, hour: u8, minute: u8, second: u8) -> Timestamp {
    Timestamp::new(year, month, day, hour, minute, second)
}

/// A tiny in-memory stand-in for the filesystem side: files by name, in
/// creation order, each with the bytes appended while it was current.
struct Harness {
    core: WriterCore,
    files: Vec<(String, Vec<u8>)>,
    symlink: Option<String>,
    current: usize,
}

impl Harness {
    fn new(directory: &str, prefix: &str, rotation: Rotation, now: &Timestamp) -> Harness {
        let core = WriterCore::new(directory.to_string(), prefix.to_string(), rotation, now);
        let files = vec![(core.current_filename().to_string(), Vec::new())];
        Harness { core, files, symlink: None, current: 0 }
    }

    /// One write call: rotation check first (honouring `create_ok`, the
    /// simulated outcome of opening the new file), then the bytes go to
    /// whichever file is current afterwards.
    fn write(&mut self, bytes: &[u8], now: &Timestamp, create_ok: bool) {
        if let Some(filename) = self.core.plan_write(now) {
            if create_ok {
                self.files.push((filename, Vec::new()));
                self.current = self.files.len() - 1;
                self.core.on_rotation_success(now);
                assert_eq!(self.core.current_filename(), self.files[self.current].0);
                self.symlink = Some(self.core.current_filename().to_string());
            }
        }
        self.files[self.current].1.extend_from_slice(bytes);
    }
}

#[test]
fn writes_within_one_period_fill_one_file() {
    let t0 = ts(2024, 1, 1, 8, 0, 0);
    let mut h = Harness::new("logs", "app.log", Rotation::Daily, &t0);
    h.write(b"one ", &ts(2024, 1, 1, 8, 0, 0), true);
    h.write(b"two ", &ts(2024, 1, 1, 12, 30, 0), true);
    h.write(b"three", &ts(2024, 1, 1, 23, 59, 59), true);
    assert_eq!(h.files.len(), 1);
    assert_eq!(h.files[0].0, "app.log.2024-01-01");
    assert_eq!(h.files[0].1, b"one two three".to_vec());
    assert_eq!(h.symlink, None);
}

#[test]
fn crossing_one_boundary_makes_two_files() {
    let t0 = ts(2024, 1, 1, 23, 59, 59);
    let mut h = Harness::new("logs", "app.log", Rotation::Daily, &t0);
    h.write(b"a", &t0, true);
    assert_eq!(h.files.len(), 1);
    assert_eq!(h.files[0].0, "app.log.2024-01-01");
    assert_eq!(h.files[0].1, b"a".to_vec());

    let t1 = ts(2024, 1, 2, 0, 0, 1);
    h.write(b"b", &t1, true);
    assert_eq!(h.files.len(), 2);
    assert_eq!(h.files[1].0, "app.log.2024-01-02");
    assert_eq!(h.files[1].1, b"b".to_vec());
    // The first file keeps exactly what was written while it was current.
    assert_eq!(h.files[0].1, b"a".to_vec());
    // The symlink was repointed at the new file.
    assert_eq!(h.symlink.as_deref(), Some("app.log.2024-01-02"));
}

#[test]
fn failed_rotation_keeps_writing_old_file_then_recovers() {
    let t0 = ts(2024, 1, 1, 23, 0, 0);
    let mut h = Harness::new("logs", "app.log", Rotation::Daily, &t0);
    h.write(b"before", &t0, true);

    // Boundary crossed but the new file cannot be created: the in-flight
    // write still succeeds and lands in the previous file.
    let t1 = ts(2024, 1, 2, 0, 0, 5);
    h.write(b" during", &t1, false);
    assert_eq!(h.files.len(), 1);
    assert_eq!(h.files[0].1, b"before during".to_vec());

    // The boundary was not advanced, so the next write retries and, once
    // creation succeeds, lands in the new file.
    let t2 = ts(2024, 1, 2, 0, 0, 10);
    h.write(b"after", &t2, true);
    assert_eq!(h.files.len(), 2);
    assert_eq!(h.files[1].0, "app.log.2024-01-02");
    assert_eq!(h.files[1].1, b"after".to_vec());
    assert_eq!(h.files[0].1, b"before during".to_vec());
    assert_eq!(h.symlink.as_deref(), Some("app.log.2024-01-02"));
}

#[test]
fn never_rotation_never_rotates() {
    let t0 = ts(2024, 1, 1, 0, 0, 0);
    let mut h = Harness::new("logs", "app.log", Rotation::Never, &t0);
    assert_eq!(h.core.current_filename(), "app.log");
    h.write(b"a", &ts(2024, 6, 1, 0, 0, 0), true);
    h.write(b"b", &ts(2030, 1, 1, 0, 0, 0), true);
    h.write(b"c", &ts(262143, 12, 31, 23, 59, 59), true);
    assert_eq!(h.files.len(), 1);
    assert_eq!(h.files[0].1, b"abc".to_vec());
}

#[test]
fn rollover_triggers_exactly_at_boundary() {
    let t0 = ts(2024, 1, 1, 10, 20, 30);
    let core = WriterCore::new("logs".to_string(), "app.log".to_string(), Rotation::Hourly, &t0);
    assert_eq!(core.next_boundary(), ts(2024, 1, 1, 11, 0, 0));
    assert!(!core.should_rollover(&ts(2024, 1, 1, 10, 59, 59)));
    assert!(core.should_rollover(&ts(2024, 1, 1, 11, 0, 0)));
    assert!(core.should_rollover(&ts(2024, 1, 1, 11, 0, 1)));
}

#[test]
fn same_instant_never_reopens() {
    let t0 = ts(2024, 1, 2, 0, 0, 1);
    let mut h = Harness::new("logs", "app.log", Rotation::Daily, &t0);
    // Several writes at one instant, right after construction: one file.
    h.write(b"x", &t0, true);
    h.write(b"y", &t0, true);
    h.write(b"z", &t0, true);
    assert_eq!(h.files.len(), 1);
    assert_eq!(h.files[0].1, b"xyz".to_vec());
}

#[test]
fn construction_state_matches_policy() {
    let t0 = ts(2024, 1, 1, 23, 59, 59);
    let core = WriterCore::new("d".to_string(), "p".to_string(), Rotation::Daily, &t0);
    assert_eq!(core.directory(), "d");
    assert_eq!(core.filename_prefix(), "p");
    assert_eq!(core.rotation(), Rotation::Daily);
    assert_eq!(core.current_filename(), "p.2024-01-01");
    assert_eq!(core.next_boundary(), ts(2024, 1, 2, 0, 0, 0));
}

#[test]
fn clock_reading_is_well_formed_and_plan_matches_it() {
    let now = current_timestamp();
    assert!(now.is_wf());

    // Whatever instant the clock returns, the planned decision must agree
    // with the boundary comparison for that very instant.
    let core = WriterCore::new("logs".to_string(), "app.log".to_string(), Rotation::Daily, &now);
    let (later, plan) = core.plan_write_now();
    assert!(later.is_wf());
    match plan {
        Some(f) => {
            assert!(later.at_or_after(&core.next_boundary()));
            assert_eq!(f, core.rotation().file_suffix(core.filename_prefix(), &later));
        }
        None => assert!(later.before(&core.next_boundary())),
    }

    // A writer that never rotates plans no rotation at any clock reading.
    let never = WriterCore::new("logs".to_string(), "app.log".to_string(), Rotation::Never, &now);
    let (_, plan) = never.plan_write_now();
    assert!(plan.is_none());
}

#[test]
fn minutely_rotation_over_three_minutes() {
    let t0 = ts(2024, 1, 1, 10, 0, 50);
    let mut h = Harness::new("logs", "m.log", Rotation::Minutely, &t0);
    h.write(b"1", &t0, true);
    h.write(b"2", &ts(2024, 1, 1, 10, 1, 10), true);
    h.write(b"3", &ts(2024, 1, 1, 10, 2, 0), true);
    assert_eq!(h.files.len(), 3);
    assert_eq!(h.files[0].0, "m.log.2024-01-01-10-00");
    assert_eq!(h.files[1].0, "m.log.2024-01-01-10-01");
    assert_eq!(h.files[2].0, "m.log.2024-01-01-10-02");
    assert_eq!(h.files[0].1, b"1".to_vec());
    assert_eq!(h.files[1].1, b"2".to_vec());
    assert_eq!(h.files[2].1, b"3".to_vec());
}
