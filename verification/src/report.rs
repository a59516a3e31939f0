//! Building the report: validating every file's frames, summing durations
//! per identifier, and forming the grand total.

use vstd::prelude::*;
use vstd::seq_lib::commutative_foldr;
use vstd::seq_lib::lemma_fold_right_permutation;
use crate::ReportError;
use crate::frames::FrameClean;
use crate::frames::FrameRaw;

verus! {

/// Upper bound on the magnitude of a single valid frame's duration:
/// `MAX_EPOCH_SECS - MIN_EPOCH_SECS + 1`, used to bound running sums.
pub const FRAME_SPAN_BOUND: i128 = 16_544_868_105_600;

/// The summed duration, in seconds, of a list of raw frames.
pub open spec fn frames_total(frames: Seq<FrameRaw>) -> int
    decreases frames.len(),
{
    if frames.len() == 0 {
        0
    } else {
        frames_total(frames.drop_last()) + frames.last().spec_duration()
    }
}

/// The summed duration, in seconds, of a list of validated frames.
pub open spec fn clean_total(frames: Seq<FrameClean>) -> int
    decreases frames.len(),
{
    if frames.len() == 0 {
        0
    } else {
        clean_total(frames.drop_last()) + frames.last().spec_duration()
    }
}

/// Every frame of the list has representable timestamps.
pub open spec fn all_valid(frames: Seq<FrameRaw>) -> bool {
    forall|k: int| 0 <= k < frames.len() ==> (#[trigger] frames[k]).valid()
}

/// Every frame of every file has representable timestamps.
pub open spec fn all_files_valid(files: Seq<(String, Vec<FrameRaw>)>) -> bool {
    forall|j: int| 0 <= j < files.len() ==> all_valid((#[trigger] files[j]).1@)
}

/// No identifier appears twice among the files.
pub open spec fn keys_unique(files: Seq<(String, Vec<FrameRaw>)>) -> bool {
    forall|i: int, j: int|
        0 <= i < j < files.len() ==> (#[trigger] files[i]).0@ != (#[trigger] files[j]).0@
}

/// The summed duration of all files together, in seconds.
pub open spec fn files_grand_total(files: Seq<(String, Vec<FrameRaw>)>) -> int
    decreases files.len(),
{
    if files.len() == 0 {
        0
    } else {
        files_grand_total(files.drop_last()) + frames_total(files.last().1@)
    }
}

/// The input is within machine limits: identifiers are unique, and — when
/// every frame is valid, so that totals are formed at all — every per-file
/// total and the grand total fit in an `i64`. An input with an invalid
/// frame is within limits whenever its identifiers are unique, since the
/// run aborts before any total is formed.
pub open spec fn input_within_limits(files: Seq<(String, Vec<FrameRaw>)>) -> bool {
    &&& keys_unique(files)
    &&& all_files_valid(files) ==> {
        &&& forall|j: int|
            0 <= j < files.len() ==> i64::MIN <= frames_total(
                (#[trigger] files[j]).1@,
            ) <= i64::MAX
        &&& i64::MIN <= files_grand_total(files) <= i64::MAX
    }
}

/// The summed seconds of a report's entries, in entry order.
pub open spec fn entries_total(entries: Seq<(String, i64)>) -> int
    decreases entries.len(),
{
    if entries.len() == 0 {
        0
    } else {
        entries_total(entries.drop_last()) + entries.last().1
    }
}

/// The report: one entry per identifier, carrying that identifier's total
/// tracked duration in seconds.
#[derive(Debug)]
pub struct Report {
    pub entries: Vec<(String, i64)>,
}

impl Report {
    /// Identifiers are not repeated among the entries.
    pub open spec fn wf(self) -> bool {
        forall|i: int, j: int|
            0 <= i < j < self.entries@.len() ==> (#[trigger] self.entries@[i]).0@ != (
            #[trigger] self.entries@[j]).0@
    }

    /// The grand total: the sum of every entry's seconds. Returns `None`
    /// exactly when that sum does not fit in an `i64`.
    pub fn grand_total(&self) -> (r: Option<i64>)
        ensures
            r is Some <==> i64::MIN <= entries_total(self.entries@) <= i64::MAX,
            r matches Some(t) ==> t == entries_total(self.entries@),
    {
        let n = self.entries.len();
        let mut acc: i128 = 0;
        let mut k: usize = 0;
        while k < n
            invariant
                n == self.entries@.len(),
                k <= n,
                acc == entries_total(self.entries@.take(k as int)),
                -(k as int) * 9_223_372_036_854_775_808 <= acc <= (k as int)
                    * 9_223_372_036_854_775_808,
            decreases n - k,
        {
            let d = self.entries[k].1;
            proof {
                assert(self.entries@.take(k + 1).drop_last() =~= self.entries@.take(k as int));
                assert(self.entries@.take(k + 1).last() == self.entries@[k as int]);
            }
            acc = acc + d as i128;
            k += 1;
        }
        proof {
            assert(self.entries@.take(n as int) =~= self.entries@);
        }
        if i64::MIN as i128 <= acc && acc <= i64::MAX as i128 {
            Some(acc as i64)
        } else {
            None
        }
    }
}

/// Validates one file's frames in order, stopping at the first frame whose
/// timestamps are not representable.
pub fn clean_file(frames: &Vec<FrameRaw>) -> (r: Result<Vec<FrameClean>, ReportError>)
    ensures
        r is Ok <==> all_valid(frames@),
        r is Err ==> r == Err::<Vec<FrameClean>, ReportError>(ReportError::DateConversionError),
        r matches Ok(cleans) ==> {
            &&& cleans@.len() == frames@.len()
            &&& forall|k: int|
                0 <= k < frames@.len() ==> {
                    &&& (#[trigger] cleans@[k]).wf()
                    &&& cleans@[k].start == frames@[k].start
                    &&& cleans@[k].end == frames@[k].end
                }
        },
{
    let n = frames.len();
    let mut cleans: Vec<FrameClean> = Vec::new();
    let mut k: usize = 0;
    while k < n
        invariant
            n == frames@.len(),
            k <= n,
            cleans@.len() == k,
            forall|i: int| 0 <= i < k ==> (#[trigger] frames@[i]).valid(),
            forall|i: int|
                0 <= i < k ==> {
                    &&& (#[trigger] cleans@[i]).wf()
                    &&& cleans@[i].start == frames@[i].start
                    &&& cleans@[i].end == frames@[i].end
                },
        decreases n - k,
    {
        match FrameClean::from_raw(&frames[k]) {
            Some(c) => {
                cleans.push(c);
            },
            None => {
                return Err(ReportError::DateConversionError);
            },
        }
        k += 1;
    }
    Ok(cleans)
}

/// Sums the durations of one file's validated frames. The caller owes that
/// the total fits in an `i64`; a run is abandoned past that point.
pub fn file_total(frames: &Vec<FrameClean>) -> (r: i64)
    requires
        forall|k: int| 0 <= k < frames@.len() ==> (#[trigger] frames@[k]).wf(),
        i64::MIN <= clean_total(frames@) <= i64::MAX,
    ensures
        r == clean_total(frames@),
{
    let n = frames.len();
    let mut acc: i128 = 0;
    let mut k: usize = 0;
    while k < n
        invariant
            n == frames@.len(),
            k <= n,
            forall|i: int| 0 <= i < n ==> (#[trigger] frames@[i]).wf(),
            acc == clean_total(frames@.take(k as int)),
            -(k as int) * FRAME_SPAN_BOUND <= acc <= (k as int) * FRAME_SPAN_BOUND,
        decreases n - k,
    {
        let d = frames[k].duration_seconds();
        proof {
            assert(frames@.take(k + 1).drop_last() =~= frames@.take(k as int));
            assert(frames@.take(k + 1).last() == frames@[k as int]);
        }
        acc = acc + d as i128;
        k += 1;
    }
    proof {
        assert(frames@.take(n as int) =~= frames@);
    }
    acc as i64
}

/// A validated file and a raw file with the same timestamps have the same
/// total duration.
proof fn lemma_totals_agree(cleans: Seq<FrameClean>, raws: Seq<FrameRaw>)
    requires
        cleans.len() == raws.len(),
        forall|k: int|
            0 <= k < raws.len() ==> (#[trigger] cleans[k]).start == raws[k].start && cleans[k].end
                == raws[k].end,
    ensures
        clean_total(cleans) == frames_total(raws),
    decreases raws.len(),
{
    if raws.len() > 0 {
        lemma_totals_agree(cleans.drop_last(), raws.drop_last());
    }
}

/// Builds the report for a list of `(identifier, frames)` files: validates
/// every frame, then records each identifier with its summed duration, in
/// the order the files were given. Fails with `DateConversionError`, and
/// produces no report, exactly when some frame's `start` or `end` is outside
/// the representable range.
pub fn build_report(files: &Vec<(String, Vec<FrameRaw>)>) -> (r: Result<Report, ReportError>)
    requires
        input_within_limits(files@),
    ensures
        r is Err <==> !all_files_valid(files@),
        r is Err ==> r == Err::<Report, ReportError>(ReportError::DateConversionError),
        r matches Ok(rep) ==> {
            &&& rep.wf()
            &&& rep.entries@.len() == files@.len()
            &&& forall|j: int|
                0 <= j < files@.len() ==> {
                    &&& (#[trigger] rep.entries@[j]).0@ == files@[j].0@
                    &&& rep.entries@[j].1 == frames_total(files@[j].1@)
                }
            &&& entries_total(rep.entries@) == files_grand_total(files@)
        },
{
    let n = files.len();
    let mut cleaned: Vec<Vec<FrameClean>> = Vec::new();
    let mut j: usize = 0;
    while j < n
        invariant
            n == files@.len(),
            j <= n,
            cleaned@.len() == j,
            forall|i: int| 0 <= i < j ==> all_valid((#[trigger] files@[i]).1@),
            forall|i: int|
                0 <= i < j ==> {
                    &&& (#[trigger] cleaned@[i])@.len() == files@[i].1@.len()
                    &&& forall|k: int|
                        0 <= k < cleaned@[i]@.len() ==> {
                            &&& (#[trigger] cleaned@[i]@[k]).wf()
                            &&& cleaned@[i]@[k].start == files@[i].1@[k].start
                            &&& cleaned@[i]@[k].end == files@[i].1@[k].end
                        }
                },
        decreases n - j,
    {
        match clean_file(&files[j].1) {
            Ok(c) => {
                cleaned.push(c);
            },
            Err(_) => {
                return Err(ReportError::DateConversionError);
            },
        }
        j += 1;
    }
    let mut entries: Vec<(String, i64)> = Vec::new();
    let mut j: usize = 0;
    while j < n
        invariant
            n == files@.len(),
            j <= n,
            input_within_limits(files@),
            all_files_valid(files@),
            cleaned@.len() == n,
            forall|i: int|
                0 <= i < n ==> {
                    &&& (#[trigger] cleaned@[i])@.len() == files@[i].1@.len()
                    &&& forall|k: int|
                        0 <= k < cleaned@[i]@.len() ==> {
                            &&& (#[trigger] cleaned@[i]@[k]).wf()
                            &&& cleaned@[i]@[k].start == files@[i].1@[k].start
                            &&& cleaned@[i]@[k].end == files@[i].1@[k].end
                        }
                },
            entries@.len() == j,
            forall|i: int|
                0 <= i < j ==> {
                    &&& (#[trigger] entries@[i]).0@ == files@[i].0@
                    &&& entries@[i].1 == frames_total(files@[i].1@)
                },
        decreases n - j,
    {
        proof {
            lemma_totals_agree(cleaned@[j as int]@, files@[j as int].1@);
        }
        let t = file_total(&cleaned[j]);
        let id = files[j].0.clone();
        entries.push((id, t));
        j += 1;
    }
    proof {
        lemma_report_total_is_grand_total(entries@, files@);
    }
    Ok(Report { entries })
}

/// Sums one file's raw frame durations exactly, in a wide accumulator that
/// cannot overflow for valid frames.
fn raw_file_total(frames: &Vec<FrameRaw>) -> (r: i128)
    requires
        all_valid(frames@),
    ensures
        r == frames_total(frames@),
{
    let n = frames.len();
    let mut acc: i128 = 0;
    let mut k: usize = 0;
    while k < n
        invariant
            n == frames@.len(),
            all_valid(frames@),
            k <= n,
            acc == frames_total(frames@.take(k as int)),
            -(k as int) * FRAME_SPAN_BOUND <= acc <= (k as int) * FRAME_SPAN_BOUND,
        decreases n - k,
    {
        assert(frames@[k as int].valid());
        let d: i128 = frames[k].end as i128 - frames[k].start as i128;
        proof {
            assert(frames@.take(k + 1).drop_last() =~= frames@.take(k as int));
            assert(frames@.take(k + 1).last() == frames@[k as int]);
        }
        acc = acc + d;
        k += 1;
    }
    proof {
        assert(frames@.take(n as int) =~= frames@);
    }
    acc
}

/// Decides whether a list of files is within machine limits, so that
/// `build_report` may be run on it and `Report::grand_total` will succeed.
/// A caller that cannot discharge `build_report`'s precondition itself calls
/// this first and abandons the run on `false` rather than let a sum
/// overflow.
pub fn report_input_ok(files: &Vec<(String, Vec<FrameRaw>)>) -> (r: bool)
    ensures
        r == input_within_limits(files@),
{
    let n = files.len();
    let mut i: usize = 0;
    while i < n
        invariant
            n == files@.len(),
            i <= n,
            forall|a: int, b: int|
                0 <= a < b < n && a < i ==> (#[trigger] files@[a]).0@ != (#[trigger] files@[b]).0@,
        decreases n - i,
    {
        let mut j: usize = i + 1;
        while j < n
            invariant
                n == files@.len(),
                i < n,
                i < j <= n,
                forall|a: int, b: int|
                    0 <= a < b < n && a < i ==> (#[trigger] files@[a]).0@ != (
                    #[trigger] files@[b]).0@,
                forall|b: int| i < b < j ==> files@[i as int].0@ != (#[trigger] files@[b]).0@,
            decreases n - j,
        {
            if files[i].0 == files[j].0 {
                return false;
            }
            j += 1;
        }
        i += 1;
    }
    let mut j: usize = 0;
    while j < n
        invariant
            n == files@.len(),
            j <= n,
            keys_unique(files@),
            forall|i: int| 0 <= i < j ==> all_valid((#[trigger] files@[i]).1@),
        decreases n - j,
    {
        let frames = &files[j].1;
        let mut k: usize = 0;
        while k < frames.len()
            invariant
                keys_unique(files@),
                0 <= j < files@.len(),
                frames == &files@[j as int].1,
                k <= frames@.len(),
                forall|kk: int| 0 <= kk < k ==> (#[trigger] frames@[kk]).valid(),
            decreases frames@.len() - k,
        {
            if !frames[k].check_valid() {
                proof {
                    assert(!all_valid(files@[j as int].1@));
                    assert(!all_files_valid(files@));
                }
                return true;
            }
            k += 1;
        }
        j += 1;
    }
    assert(all_files_valid(files@));
    let mut grand: i128 = 0;
    let mut j: usize = 0;
    while j < n
        invariant
            n == files@.len(),
            j <= n,
            keys_unique(files@),
            all_files_valid(files@),
            grand == files_grand_total(files@.take(j as int)),
            -(j as int) * 9_223_372_036_854_775_808 <= grand <= (j as int)
                * 9_223_372_036_854_775_808,
            forall|i: int|
                0 <= i < j ==> i64::MIN <= frames_total((#[trigger] files@[i]).1@) <= i64::MAX,
        decreases n - j,
    {
        let t = raw_file_total(&files[j].1);
        if t < i64::MIN as i128 || t > i64::MAX as i128 {
            return false;
        }
        proof {
            assert(files@.take(j + 1).drop_last() =~= files@.take(j as int));
            assert(files@.take(j + 1).last() == files@[j as int]);
        }
        grand = grand + t;
        j += 1;
    }
    proof {
        assert(files@.take(n as int) =~= files@);
    }
    if grand < i64::MIN as i128 || grand > i64::MAX as i128 {
        return false;
    }
    true
}

/// Law: a report whose entries carry, file by file, the summed duration of
/// that file — as `build_report` ensures — has as its grand total the
/// summed duration of all files together.
pub proof fn lemma_report_total_is_grand_total(
    entries: Seq<(String, i64)>,
    files: Seq<(String, Vec<FrameRaw>)>,
)
    requires
        entries.len() == files.len(),
        forall|j: int|
            0 <= j < files.len() ==> (#[trigger] entries[j]).1 == frames_total(files[j].1@),
    ensures
        entries_total(entries) == files_grand_total(files),
    decreases files.len(),
{
    if files.len() > 0 {
        lemma_report_total_is_grand_total(entries.drop_last(), files.drop_last());
    }
}

/// Law: the summed seconds of a report's entries do not depend on the order
/// in which the entries are listed. Any two entry lists holding the same
/// entries — the same multiset — have the same grand total.
pub proof fn lemma_entries_total_permutation(e1: Seq<(String, i64)>, e2: Seq<(String, i64)>)
    requires
        e1.to_multiset() == e2.to_multiset(),
    ensures
        entries_total(e1) == entries_total(e2),
{
    let f = |e: (String, i64), acc: int| e.1 + acc;
    assert(commutative_foldr(f));
    lemma_entries_total_fold(e1, f, 0);
    lemma_entries_total_fold(e2, f, 0);
    lemma_fold_right_permutation(e1, e2, f, 0);
}

/// Folding the addition of entry seconds from the right computes
/// `entries_total`.
proof fn lemma_entries_total_fold(e: Seq<(String, i64)>, f: spec_fn((String, i64), int) -> int, b: int)
    requires
        forall|x: (String, i64), acc: int| #[trigger] f(x, acc) == x.1 + acc,
    ensures
        e.fold_right(f, b) == entries_total(e) + b,
    decreases e.len(),
{
    if e.len() > 0 {
        lemma_entries_total_fold(e.drop_last(), f, f(e.last(), b));
    }
}

} // verus!
