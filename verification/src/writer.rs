//! The rolling-writer core: the state a time-rolling appender carries between
//! writes, and the rotation decision taken on every write.
//!
//! The core owns no file handle.  The surrounding process keeps the handle,
//! asks the core on every write whether rotation is due and for the file name
//! to open, and reports back whether the open succeeded; only then does the
//! core move to the new file and advance its boundary.  A failed attempt
//! leaves the state unchanged, so rotation is retried on every subsequent
//! write until it succeeds.

use vstd::prelude::*;

use crate::names::{lemma_file_name_differs, spec_file_name};
use crate::rotation::{
    lemma_boundary_crossed, lemma_never_boundary_unreachable, lemma_next_boundary_after,
    lemma_next_boundary_in_range, spec_never_boundary, spec_next_boundary, Rotation,
};
use crate::time::{ts_le, ts_lt, Timestamp};

verus! {

/// Abstract state of a rolling writer: where files live, how they are named,
/// which file is current, and when it becomes stale.
pub struct WriterModel {
    pub directory: Seq<char>,
    pub prefix: Seq<char>,
    pub current_filename: Seq<char>,
    pub next_boundary: Timestamp,
    pub rotation: Rotation,
}

impl WriterModel {
    /// The boundary stays within the representable field ranges.
    pub open spec fn wf(self) -> bool {
        self.next_boundary.in_range()
    }
}

/// Rotation is due: the current instant has reached the boundary.
pub open spec fn spec_should_rotate(m: WriterModel, now: Timestamp) -> bool {
    ts_le(m.next_boundary, now)
}

/// The state after a successful rotation at `now`: the fresh file named
/// after `now` becomes current and the boundary is recomputed from `now`.
pub open spec fn spec_rotated(m: WriterModel, now: Timestamp) -> WriterModel {
    WriterModel {
        current_filename: spec_file_name(m.rotation, m.prefix, now),
        next_boundary: spec_next_boundary(m.rotation, now),
        ..m
    }
}

/// The state after one write at `now`, where `created` tells whether the
/// file open of a rotation attempt (if one was due) succeeded.  On failure
/// nothing changes — in particular the boundary is not advanced, so the next
/// write attempts rotation again.
pub open spec fn spec_step(m: WriterModel, now: Timestamp, created: bool) -> WriterModel {
    if spec_should_rotate(m, now) && created {
        spec_rotated(m, now)
    } else {
        m
    }
}

/// The file that receives the bytes of a write at `now`: always the file
/// that is current after the rotation check, so the write succeeds against
/// some open file whatever became of the rotation attempt.
pub open spec fn spec_write_target(m: WriterModel, now: Timestamp, created: bool) -> Seq<char> {
    spec_step(m, now, created).current_filename
}

/// The state after a whole progression of writes, with the instants and the
/// rotation-attempt outcomes given pointwise.
pub open spec fn spec_run(m: WriterModel, times: Seq<Timestamp>, created: Seq<bool>) -> WriterModel
    decreases times.len(),
{
    if times.len() == 0 || created.len() == 0 {
        m
    } else {
        spec_run(spec_step(m, times[0], created[0]), times.drop_first(), created.drop_first())
    }
}

/// Exclusively owned state of a rolling writer, without the file handle.
pub struct WriterCore {
    directory: String,
    prefix: String,
    current_filename: String,
    next_boundary: Timestamp,
    rotation: Rotation,
}

impl View for WriterCore {
    type V = WriterModel;

    closed spec fn view(&self) -> WriterModel {
        WriterModel {
            directory: self.directory@,
            prefix: self.prefix@,
            current_filename: self.current_filename@,
            next_boundary: self.next_boundary,
            rotation: self.rotation,
        }
    }
}

impl WriterCore {
    /// The state is well-formed.
    pub open spec fn wf(self) -> bool {
        self@.wf()
    }

    /// Builds the writer state for a writer created at `now`: the first file
    /// is named after `now` and the boundary is computed from `now`.
    ///
    /// The caller opens the returned current file; opening is the caller's
    /// side, and its failure fails construction before any state is kept.
    pub fn new(directory: String, prefix: String, rotation: Rotation, now: &Timestamp) -> (w:
        WriterCore)
        requires
            now.wf(),
        ensures
            w@ == (WriterModel {
                directory: directory@,
                prefix: prefix@,
                current_filename: spec_file_name(rotation, prefix@, *now),
                next_boundary: spec_next_boundary(rotation, *now),
                rotation,
            }),
            w.wf(),
    {
        let current_filename = rotation.file_suffix(prefix.as_str(), now);
        let next_boundary = rotation.next_boundary(now);
        WriterCore { directory, prefix, current_filename, next_boundary, rotation }
    }

    /// Rotation is due at `now`.
    pub fn should_rollover(&self, now: &Timestamp) -> (r: bool)
        requires
            self.wf(),
            now.in_range(),
        ensures
            r == spec_should_rotate(self@, *now),
    {
        now.at_or_after(&self.next_boundary)
    }

    /// The write-path decision at `now`: the name of the file to open when
    /// rotation is due, and nothing otherwise.
    pub fn plan_write(&self, now: &Timestamp) -> (r: Option<String>)
        requires
            self.wf(),
            now.wf(),
        ensures
            match r {
                Some(f) => spec_should_rotate(self@, *now) && f@ == spec_file_name(
                    self@.rotation,
                    self@.prefix,
                    *now,
                ),
                None => !spec_should_rotate(self@, *now),
            },
    {
        if self.should_rollover(now) {
            Some(self.rotation.file_suffix(self.prefix.as_str(), now))
        } else {
            None
        }
    }

    /// Reads the clock and takes the write-path decision for the instant
    /// read.  Whatever instant the clock returned, the decision matches it.
    pub fn plan_write_now(&self) -> (r: (Timestamp, Option<String>))
        requires
            self.wf(),
        ensures
            r.0.wf(),
            match r.1 {
                Some(f) => spec_should_rotate(self@, r.0) && f@ == spec_file_name(
                    self@.rotation,
                    self@.prefix,
                    r.0,
                ),
                None => !spec_should_rotate(self@, r.0),
            },
    {
        let now = now_local();
        let plan = self.plan_write(&now);
        (now, plan)
    }

    /// Commits a rotation whose file open succeeded: the file named after
    /// `now` becomes current and the boundary moves to the one computed from
    /// `now`.  Must only be called once the new file is really open, so that
    /// a failed attempt leaves the old boundary in place and rotation is
    /// retried on the next write.
    pub fn on_rotation_success(&mut self, now: &Timestamp)
        requires
            old(self).wf(),
            now.wf(),
            spec_should_rotate(old(self)@, *now),
        ensures
            final(self)@ == spec_rotated(old(self)@, *now),
            final(self).wf(),
    {
        proof {
            lemma_next_boundary_in_range(self.rotation, *now);
        }
        self.current_filename = self.rotation.file_suffix(self.prefix.as_str(), now);
        self.next_boundary = self.rotation.next_boundary(now);
    }

    /// Directory the log files live in.
    pub fn directory(&self) -> (r: &str)
        ensures
            r@ == self@.directory,
    {
        self.directory.as_str()
    }

    /// The prefix files are named after; also the symlink's name.
    pub fn filename_prefix(&self) -> (r: &str)
        ensures
            r@ == self@.prefix,
    {
        self.prefix.as_str()
    }

    /// Name of the file currently written to; after a successful rotation
    /// this is the file the symlink should point at.
    pub fn current_filename(&self) -> (r: &str)
        ensures
            r@ == self@.current_filename,
    {
        self.current_filename.as_str()
    }

    /// The configured rotation period.
    pub fn rotation(&self) -> (r: Rotation)
        ensures
            r == self@.rotation,
    {
        self.rotation
    }

    /// The instant at which the current file becomes stale.
    pub fn next_boundary(&self) -> (r: Timestamp)
        ensures
            r == self@.next_boundary,
    {
        self.next_boundary
    }
}

/// Relies on `chrono::Local::now` for the current local civil time, read
/// through chrono's `Datelike` and `Timelike` accessors: they return a valid
/// proleptic Gregorian date (month `1..=12`, day valid for that month, year
/// within chrono's documented `±262143` range) with a valid time of day
/// (hour `0..=23`, minute and second `0..=59`).
#[verifier::external_body]
fn now_local() -> (t: Timestamp)
    ensures
        t.wf(),
{
    let now = chrono::Local::now();
    Timestamp {
        year: chrono::Datelike::year(&now),
        month: chrono::Datelike::month(&now) as u8,
        day: chrono::Datelike::day(&now) as u8,
        hour: chrono::Timelike::hour(&now) as u8,
        minute: chrono::Timelike::minute(&now) as u8,
        second: chrono::Timelike::second(&now) as u8,
    }
}

/// The current local civil time, as read from the system clock: the
/// writer's default time source.  Whatever the clock returns is a
/// well-formed timestamp.
pub fn current_timestamp() -> (t: Timestamp)
    ensures
        t.wf(),
{
    now_local()
}

/// Writes within one period write one file: as long as no write's instant
/// has reached the boundary, no rotation happens, the state never changes,
/// and every write lands in the one current file — so their bytes end up
/// concatenated there in call order.
pub proof fn lemma_one_file_within_period(
    m: WriterModel,
    times: Seq<Timestamp>,
    created: Seq<bool>,
)
    requires
        times.len() == created.len(),
        forall|i: int| 0 <= i < times.len() ==> ts_lt(#[trigger] times[i], m.next_boundary),
    ensures
        spec_run(m, times, created) == m,
        forall|i: int|
            0 <= i < times.len() ==> spec_write_target(m, #[trigger] times[i], created[i])
                == m.current_filename,
    decreases times.len(),
{
    if times.len() > 0 {
        assert(!spec_should_rotate(m, times[0]));
        assert(spec_step(m, times[0], created[0]) == m);
        assert forall|i: int|
            0 <= i < times.drop_first().len() implies ts_lt(
            #[trigger] times.drop_first()[i],
            m.next_boundary,
        ) by {
            assert(times.drop_first()[i] == times[i + 1]);
        }
        lemma_one_file_within_period(m, times.drop_first(), created.drop_first());
    }
}

/// Under rotation `Never` the boundary is unreachable: any progression of
/// well-formed write instants, however long, never rotates and keeps
/// writing the one original file.
pub proof fn lemma_never_rotates(m: WriterModel, times: Seq<Timestamp>, created: Seq<bool>)
    requires
        m.next_boundary == spec_never_boundary(),
        times.len() == created.len(),
        forall|i: int| 0 <= i < times.len() ==> (#[trigger] times[i]).wf(),
    ensures
        spec_run(m, times, created) == m,
        forall|i: int|
            0 <= i < times.len() ==> spec_write_target(m, #[trigger] times[i], created[i])
                == m.current_filename,
{
    assert forall|i: int| 0 <= i < times.len() implies ts_lt(
        #[trigger] times[i],
        m.next_boundary,
    ) by {
        lemma_never_boundary_unreachable(times[i]);
    }
    lemma_one_file_within_period(m, times, created);
}

/// Crossing exactly one boundary between two writes makes exactly two
/// files: the first write lands in the file that was current, the second
/// rotates to a file with a genuinely different name, writes there, and
/// that new file is the one the symlink gets pointed at.
pub proof fn lemma_one_boundary_two_files(
    m: WriterModel,
    open_t: Timestamp,
    t1: Timestamp,
    t2: Timestamp,
)
    requires
        m.rotation != Rotation::Never,
        open_t.wf(),
        t1.wf(),
        t2.wf(),
        m.current_filename == spec_file_name(m.rotation, m.prefix, open_t),
        m.next_boundary == spec_next_boundary(m.rotation, open_t),
        ts_lt(t1, m.next_boundary),
        ts_le(m.next_boundary, t2),
    ensures
        spec_step(m, t1, true) == m,
        spec_write_target(m, t1, true) == m.current_filename,
        spec_step(m, t2, true) == spec_rotated(m, t2),
        spec_write_target(m, t2, true) == spec_file_name(m.rotation, m.prefix, t2),
        spec_file_name(m.rotation, m.prefix, t2) != m.current_filename,
{
    assert(!spec_should_rotate(m, t1));
    lemma_boundary_crossed(m.rotation, open_t, t2);
    lemma_file_name_differs(m.rotation, m.prefix, open_t, t2);
}

/// A failed rotation attempt loses nothing: the in-flight write lands in
/// the previous file, the boundary stays, and a later successful attempt
/// rotates exactly as if the failure had not happened.
pub proof fn lemma_failed_rotation_retries(m: WriterModel, t1: Timestamp, t2: Timestamp)
    requires
        spec_should_rotate(m, t1),
        spec_should_rotate(m, t2),
    ensures
        spec_step(m, t1, false) == m,
        spec_write_target(m, t1, false) == m.current_filename,
        spec_step(spec_step(m, t1, false), t2, true) == spec_rotated(m, t2),
        spec_write_target(m, t2, true) == spec_file_name(m.rotation, m.prefix, t2),
{
}

/// Writes within the same instant never re-open the file: immediately after
/// a rotation at `now`, rotation is no longer due at `now`.
pub proof fn lemma_no_reopen_within_instant(m: WriterModel, now: Timestamp)
    requires
        now.wf(),
    ensures
        !spec_should_rotate(spec_rotated(m, now), now),
{
    lemma_next_boundary_after(m.rotation, now);
}

} // verus!
