//! Frame records: the raw form read from an input file and the validated
//! form whose timestamps are known to be representable.

use vstd::prelude::*;

verus! {

/// Smallest epoch-second value representable as a `chrono::DateTime<Utc>`:
/// 00:00:00 on the first day of year -262143 of the proleptic Gregorian
/// calendar.
pub const MIN_EPOCH_SECS: i64 = -8_334_601_228_800;

/// Largest epoch-second value representable as a `chrono::DateTime<Utc>`:
/// 23:59:59 on the last day of year 262142 of the proleptic Gregorian
/// calendar.
pub const MAX_EPOCH_SECS: i64 = 8_210_266_876_799;

/// An epoch-second value is valid exactly when it lies in the representable
/// range of timestamps.
pub open spec fn ts_in_range(secs: int) -> bool {
    MIN_EPOCH_SECS <= secs <= MAX_EPOCH_SECS
}

/// One record as it appears in an input file's JSON array, before any
/// validation.
#[derive(Debug)]
pub struct FrameRaw {
    pub start: i64,
    pub end: i64,
    pub project: String,
    pub id: String,
    pub tags: Vec<String>,
    pub last_updated: i64,
}

impl FrameRaw {
    /// A raw frame is valid when both of its timestamps are representable.
    pub open spec fn valid(self) -> bool {
        ts_in_range(self.start as int) && ts_in_range(self.end as int)
    }

    /// The signed duration of the frame in whole seconds. A frame whose
    /// `end` precedes its `start` contributes a negative duration.
    pub open spec fn spec_duration(self) -> int {
        self.end - self.start
    }

    /// True exactly when both of the frame's timestamps are representable.
    pub fn check_valid(&self) -> (r: bool)
        ensures
            r == self.valid(),
    {
        MIN_EPOCH_SECS <= self.start && self.start <= MAX_EPOCH_SECS && MIN_EPOCH_SECS <= self.end
            && self.end <= MAX_EPOCH_SECS
    }
}

/// A validated frame: both timestamps are known to be representable.
#[derive(Debug)]
pub struct FrameClean {
    pub id: String,
    pub start: i64,
    pub end: i64,
    pub project: String,
    pub tags: Vec<String>,
}

impl FrameClean {
    /// Invariant established by [`FrameClean::from_raw`]: both timestamps lie
    /// in the representable range.
    pub open spec fn wf(self) -> bool {
        ts_in_range(self.start as int) && ts_in_range(self.end as int)
    }

    /// The signed duration of the frame in whole seconds.
    pub open spec fn spec_duration(self) -> int {
        self.end - self.start
    }

    /// Validates a raw frame, copying its fields through. Returns `None`
    /// exactly when `start` or `end` is outside the representable range.
    pub fn from_raw(raw: &FrameRaw) -> (r: Option<FrameClean>)
        ensures
            r is Some <==> raw.valid(),
            r matches Some(c) ==> {
                &&& c.wf()
                &&& c.start == raw.start
                &&& c.end == raw.end
                &&& c.id@ == raw.id@
                &&& c.project@ == raw.project@
                &&& c.tags.deep_view() == raw.tags.deep_view()
                &&& c.spec_duration() == raw.spec_duration()
            },
    {
        if !timestamp_representable(raw.start) {
            return None;
        }
        if !timestamp_representable(raw.end) {
            return None;
        }
        let tags = clone_tags(&raw.tags);
        Some(FrameClean {
            id: raw.id.clone(),
            start: raw.start,
            end: raw.end,
            project: raw.project.clone(),
            tags,
        })
    }

    /// The frame's elapsed time in whole seconds, `end - start`. For a frame
    /// with `end >= start` the result is non-negative.
    pub fn duration_seconds(&self) -> (r: i64)
        requires
            self.wf(),
        ensures
            r == self.spec_duration(),
            self.end >= self.start ==> r >= 0,
    {
        self.end - self.start
    }
}

/// Relies on `chrono::DateTime::<Utc>::from_timestamp` with a zero nanosecond
/// part: it returns `Some` exactly when the epoch-second value maps to a day
/// inside `chrono::NaiveDate`'s range, that is when it lies between
/// `MIN_EPOCH_SECS` and `MAX_EPOCH_SECS` inclusive.
#[verifier::external_body]
fn timestamp_representable(secs: i64) -> (r: bool)
    ensures
        r == ts_in_range(secs as int),
{
    chrono::DateTime::<chrono::Utc>::from_timestamp(secs, 0).is_some()
}

/// Clones a list of tag strings, preserving every element's characters.
fn clone_tags(tags: &Vec<String>) -> (r: Vec<String>)
    ensures
        r.deep_view() == tags.deep_view(),
{
    let copy: Vec<String> = tags.clone();
    proof {
        assert forall|i: int| 0 <= i < tags.len() implies copy@[i]@ == tags@[i]@ by {
            assert(cloned::<String>(tags@[i], copy@[i]));
        }
        assert(copy.deep_view() =~= tags.deep_view());
    }
    copy
}

} // verus!
