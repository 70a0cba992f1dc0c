//! The report engine: what the cached rows of one course add up to.
//!
//! Two reports are made from the cache. The student report has one line for
//! each student of the course who has a submission that counts; the
//! assignment report has one line for each assignment of the course that has
//! one. A submission counts if its student and its assignment are both
//! cached for the course and the assignment has positive points possible;
//! any other submission is passed over in silence.
//!
//! Scores and points are fixed-point numbers in one unit. A mean is given as
//! an exact fraction, so that nothing is rounded here.

use crate::data::assignment::AssignmentRow;
use crate::data::student::StudentRow;
use crate::data::submission::SubmissionRow;
use crate::modules::order::{
    arranged, is_arrangement, is_ordered, key_views, sorted_order, SortKey,
};
use vstd::prelude::*;

verus! {

/// The letter that a score earns, or `Zero` for the score 0.
#[derive(Clone, Copy, Debug, PartialEq, Eq, Structural)]
pub enum Bucket {
    A,
    B,
    C,
    D,
    F,
    Zero,
}

/// The scores that `bucket` holds, for an assignment with the given points
/// possible: `A` from nine tenths of the points, `B` from eight tenths up to
/// nine, `C` from seven up to eight, `D` from six up to seven, `F` above 0
/// and below six tenths, `Zero` the score 0 itself.
pub open spec fn in_bucket(bucket: Bucket, score: int, points: int) -> bool {
    match bucket {
        Bucket::A => 10 * score >= 9 * points,
        Bucket::B => 8 * points <= 10 * score < 9 * points,
        Bucket::C => 7 * points <= 10 * score < 8 * points,
        Bucket::D => 6 * points <= 10 * score < 7 * points,
        Bucket::F => 0 < score && 10 * score < 6 * points,
        Bucket::Zero => score == 0,
    }
}

/// For an assignment with positive points possible, every score that is not
/// negative lies in one of the six buckets and in no other.
pub proof fn lemma_buckets_partition(score: int, points: int)
    requires
        points > 0,
        score >= 0,
    ensures
        exists|b: Bucket| in_bucket(b, score, points),
        forall|b: Bucket, c: Bucket|
            in_bucket(b, score, points) && in_bucket(c, score, points) ==> b == c,
{
    if score == 0 {
        assert(in_bucket(Bucket::Zero, score, points));
    } else if 10 * score < 6 * points {
        assert(in_bucket(Bucket::F, score, points));
    } else if 10 * score < 7 * points {
        assert(in_bucket(Bucket::D, score, points));
    } else if 10 * score < 8 * points {
        assert(in_bucket(Bucket::C, score, points));
    } else if 10 * score < 9 * points {
        assert(in_bucket(Bucket::B, score, points));
    } else {
        assert(in_bucket(Bucket::A, score, points));
    }
}

/// The bucket of a score, for an assignment with positive points possible.
/// A negative score has none.
pub fn grade_bucket(score: i32, points: i32) -> (bucket: Option<Bucket>)
    requires
        points > 0,
    ensures
        match bucket {
            Some(b) => in_bucket(b, score as int, points as int),
            None => score < 0,
        },
{
    let tenfold: i64 = 10 * (score as i64);
    let points: i64 = points as i64;
    if score < 0 {
        None
    } else if score == 0 {
        Some(Bucket::Zero)
    } else if tenfold < 6 * points {
        Some(Bucket::F)
    } else if tenfold < 7 * points {
        Some(Bucket::D)
    } else if tenfold < 8 * points {
        Some(Bucket::C)
    } else if tenfold < 9 * points {
        Some(Bucket::B)
    } else {
        Some(Bucket::A)
    }
}

/// A fraction: `num / den`, with `den` not 0.
#[derive(Clone, Copy, Debug, PartialEq, Eq, Structural)]
pub struct Ratio {
    pub num: i128,
    pub den: i128,
}

/// The mathematical value of a [`Ratio`].
pub struct Fraction {
    pub num: int,
    pub den: int,
}

impl View for Ratio {
    type V = Fraction;

    open spec fn view(&self) -> Fraction {
        Fraction { num: self.num as int, den: self.den as int }
    }
}

/// The view of a mean that may be missing.
pub open spec fn mean_view(mean: Option<Ratio>) -> Option<Fraction> {
    match mean {
        Some(ratio) => Some(ratio@),
        None => None,
    }
}

/// The mean of `count` scores that add up to `total`. No scores have no
/// mean.
pub open spec fn mean(total: int, count: nat) -> Option<Fraction> {
    if count > 0 {
        Some(Fraction { num: total, den: count as int })
    } else {
        None
    }
}

/// The mean of `count` scores that add up to `total`, as a percentage of the
/// points possible: the mean, divided by the points, times 100. It is 0
/// where the points possible are 0.
pub open spec fn mean_percent(total: int, count: nat, points: int) -> Option<Fraction> {
    if points == 0 {
        Some(Fraction { num: 0, den: 1 })
    } else if count > 0 {
        Some(Fraction { num: 100 * total, den: count * points })
    } else {
        None
    }
}

/// The mean of `count` scores that add up to `total`.
fn mean_of(total: i128, count: u64) -> (result: Option<Ratio>)
    ensures
        mean_view(result) == mean(total as int, count as nat),
{
    if count > 0 {
        Some(Ratio { num: total, den: count as i128 })
    } else {
        None
    }
}

/// The mean of `count` scores that add up to `total`, as a percentage of the
/// points possible.
fn mean_percent_of(total: i128, count: u64, points: i32) -> (result: Option<Ratio>)
    requires
        -0x8000_0000 * count <= total <= 0x7fff_ffff * count,
    ensures
        mean_view(result) == mean_percent(total as int, count as nat, points as int),
{
    if points == 0 {
        Some(Ratio { num: 0, den: 1 })
    } else if count > 0 {
        assert(-0x8000_0000 * 0x1_0000_0000_0000_0000 <= total <= 0x7fff_ffff
            * 0x1_0000_0000_0000_0000) by (nonlinear_arith)
            requires
                -0x8000_0000 * count <= total <= 0x7fff_ffff * count,
                0 <= count < 0x1_0000_0000_0000_0000,
        ;
        assert(-0x8000_0000 * 0x1_0000_0000_0000_0000 <= count * points <= 0x8000_0000
            * 0x1_0000_0000_0000_0000) by (nonlinear_arith)
            requires
                -0x8000_0000 <= points <= 0x7fff_ffff,
                0 <= count < 0x1_0000_0000_0000_0000,
        ;
        Some(Ratio { num: 100 * total, den: (count as i128) * (points as i128) })
    } else {
        None
    }
}

/// How often each state occurs among the submissions that count.
#[derive(Clone, Copy, Debug, PartialEq, Eq, Structural)]
pub struct Counts {
    /// The submissions that count.
    pub rows: u64,
    /// Those that were submitted at least once.
    pub submitted: u64,
    pub missing: u64,
    pub excused: u64,
    /// Those that were submitted and have no score yet.
    pub ungraded_init: u64,
    /// Those whose grade does not belong to what was submitted last.
    pub ungraded_resubmit: u64,
}

/// The scores of the submissions that count, by bucket, and their sum.
#[derive(Clone, Copy, Debug, PartialEq, Eq, Structural)]
pub struct GradeCounts {
    pub grade_a: u64,
    pub grade_b: u64,
    pub grade_c: u64,
    pub grade_d: u64,
    pub grade_f: u64,
    pub grade_zero: u64,
    /// The submissions that have a score.
    pub graded: u64,
    /// The submissions that have a score other than 0.
    pub nonzero: u64,
    /// The sum of the scores.
    pub score_total: i128,
}

/// The mathematical value of [`Counts`].
pub struct CountsView {
    pub rows: nat,
    pub submitted: nat,
    pub missing: nat,
    pub excused: nat,
    pub ungraded_init: nat,
    pub ungraded_resubmit: nat,
}

/// The mathematical value of [`GradeCounts`].
pub struct GradeCountsView {
    pub grade_a: nat,
    pub grade_b: nat,
    pub grade_c: nat,
    pub grade_d: nat,
    pub grade_f: nat,
    pub grade_zero: nat,
    pub graded: nat,
    pub nonzero: nat,
    pub score_total: int,
}

impl View for Counts {
    type V = CountsView;

    open spec fn view(&self) -> CountsView {
        CountsView {
            rows: self.rows as nat,
            submitted: self.submitted as nat,
            missing: self.missing as nat,
            excused: self.excused as nat,
            ungraded_init: self.ungraded_init as nat,
            ungraded_resubmit: self.ungraded_resubmit as nat,
        }
    }
}

impl View for GradeCounts {
    type V = GradeCountsView;

    open spec fn view(&self) -> GradeCountsView {
        GradeCountsView {
            grade_a: self.grade_a as nat,
            grade_b: self.grade_b as nat,
            grade_c: self.grade_c as nat,
            grade_d: self.grade_d as nat,
            grade_f: self.grade_f as nat,
            grade_zero: self.grade_zero as nat,
            graded: self.graded as nat,
            nonzero: self.nonzero as nat,
            score_total: self.score_total as int,
        }
    }
}

/// Submitted at least once.
pub open spec fn is_submitted() -> spec_fn(SubmissionRow) -> bool {
    |s: SubmissionRow| s.attempt > 0
}

/// Marked as missing.
pub open spec fn is_missing() -> spec_fn(SubmissionRow) -> bool {
    |s: SubmissionRow| s.missing
}

/// Marked as excused.
pub open spec fn is_excused() -> spec_fn(SubmissionRow) -> bool {
    |s: SubmissionRow| s.excused
}

/// Submitted and without a score.
pub open spec fn is_ungraded_init() -> spec_fn(SubmissionRow) -> bool {
    |s: SubmissionRow| s.score is None && s.attempt > 0
}

/// Graded before what was submitted last.
pub open spec fn is_ungraded_resubmit() -> spec_fn(SubmissionRow) -> bool {
    |s: SubmissionRow| !s.current_submission
}

/// With a score.
pub open spec fn is_graded() -> spec_fn(SubmissionRow) -> bool {
    |s: SubmissionRow| s.score is Some
}

/// With a score other than 0.
pub open spec fn is_nonzero() -> spec_fn(SubmissionRow) -> bool {
    |s: SubmissionRow| s.score is Some && s.score->0 != 0
}

/// With a score in the given bucket.
pub open spec fn is_in_bucket(bucket: Bucket, points: int) -> spec_fn(SubmissionRow) -> bool {
    |s: SubmissionRow| s.score is Some && in_bucket(bucket, s.score->0 as int, points)
}

/// The sum of the scores of the rows that have one.
pub open spec fn score_total(rows: Seq<SubmissionRow>) -> int
    decreases rows.len(),
{
    if rows.len() == 0 {
        0
    } else {
        score_total(rows.drop_last()) + match rows.last().score {
            Some(score) => score as int,
            None => 0,
        }
    }
}

/// The counts of the given rows.
pub open spec fn counts_of(rows: Seq<SubmissionRow>) -> CountsView {
    CountsView {
        rows: rows.len(),
        submitted: rows.filter(is_submitted()).len(),
        missing: rows.filter(is_missing()).len(),
        excused: rows.filter(is_excused()).len(),
        ungraded_init: rows.filter(is_ungraded_init()).len(),
        ungraded_resubmit: rows.filter(is_ungraded_resubmit()).len(),
    }
}

/// The grade counts of the given rows, for an assignment with the given
/// points possible.
pub open spec fn grade_counts_of(rows: Seq<SubmissionRow>, points: int) -> GradeCountsView {
    GradeCountsView {
        grade_a: rows.filter(is_in_bucket(Bucket::A, points)).len(),
        grade_b: rows.filter(is_in_bucket(Bucket::B, points)).len(),
        grade_c: rows.filter(is_in_bucket(Bucket::C, points)).len(),
        grade_d: rows.filter(is_in_bucket(Bucket::D, points)).len(),
        grade_f: rows.filter(is_in_bucket(Bucket::F, points)).len(),
        grade_zero: rows.filter(is_in_bucket(Bucket::Zero, points)).len(),
        graded: rows.filter(is_graded()).len(),
        nonzero: rows.filter(is_nonzero()).len(),
        score_total: score_total(rows),
    }
}

/// 1 where the row meets the condition, else 0.
pub open spec fn one_if(keep: spec_fn(SubmissionRow) -> bool, row: SubmissionRow) -> nat {
    if keep(row) {
        1
    } else {
        0
    }
}

/// What one more row adds to the counts.
proof fn lemma_counts_push(rows: Seq<SubmissionRow>, row: SubmissionRow)
    ensures
        counts_of(rows.push(row)) == (CountsView {
            rows: rows.len() + 1,
            submitted: counts_of(rows).submitted + one_if(is_submitted(), row),
            missing: counts_of(rows).missing + one_if(is_missing(), row),
            excused: counts_of(rows).excused + one_if(is_excused(), row),
            ungraded_init: counts_of(rows).ungraded_init + one_if(is_ungraded_init(), row),
            ungraded_resubmit: counts_of(rows).ungraded_resubmit + one_if(
                is_ungraded_resubmit(),
                row,
            ),
        }),
        counts_of(rows).submitted <= rows.len(),
        counts_of(rows).missing <= rows.len(),
        counts_of(rows).excused <= rows.len(),
        counts_of(rows).ungraded_init <= rows.len(),
        counts_of(rows).ungraded_resubmit <= rows.len(),
{
    rows.lemma_filter_len_push(is_submitted(), row);
    rows.lemma_filter_len_push(is_missing(), row);
    rows.lemma_filter_len_push(is_excused(), row);
    rows.lemma_filter_len_push(is_ungraded_init(), row);
    rows.lemma_filter_len_push(is_ungraded_resubmit(), row);
    rows.lemma_filter_len(is_submitted());
    rows.lemma_filter_len(is_missing());
    rows.lemma_filter_len(is_excused());
    rows.lemma_filter_len(is_ungraded_init());
    rows.lemma_filter_len(is_ungraded_resubmit());
}

/// The sum of the scores lies within the number of scores other than 0
/// times the range of a score.
proof fn lemma_score_total_bound(rows: Seq<SubmissionRow>)
    ensures
        -0x8000_0000 * rows.filter(is_nonzero()).len() <= score_total(rows) <= 0x7fff_ffff
            * rows.filter(is_nonzero()).len(),
        -0x8000_0000 * rows.filter(is_graded()).len() <= score_total(rows) <= 0x7fff_ffff
            * rows.filter(is_graded()).len(),
        rows.filter(is_graded()).len() <= rows.len(),
        rows.filter(is_nonzero()).len() <= rows.filter(is_graded()).len(),
    decreases rows.len(),
{
    if rows.len() > 0 {
        let earlier = rows.drop_last();
        lemma_score_total_bound(earlier);
        assert(rows =~= earlier.push(rows.last()));
        earlier.lemma_filter_len_push(is_graded(), rows.last());
        earlier.lemma_filter_len_push(is_nonzero(), rows.last());
    } else {
        reveal(Seq::filter);
    }
}

/// Where the points possible are positive and no score is negative, the six
/// buckets share out the scores: their counts add up to the number of
/// submissions that have a score.
pub proof fn lemma_bucket_counts_add_up(rows: Seq<SubmissionRow>, points: int)
    requires
        points > 0,
        forall|i: int| 0 <= i < rows.len() ==> match (#[trigger] rows[i]).score {
            Some(score) => score >= 0,
            None => true,
        },
    ensures
        ({
            let g = grade_counts_of(rows, points);
            g.grade_a + g.grade_b + g.grade_c + g.grade_d + g.grade_f + g.grade_zero == g.graded
        }),
    decreases rows.len(),
{
    if rows.len() > 0 {
        let earlier = rows.drop_last();
        let last = rows.last();
        assert(rows =~= earlier.push(last));
        lemma_bucket_counts_add_up(earlier, points);
        lemma_grade_counts_push(earlier, last, points);
        if last.score is Some {
            lemma_buckets_partition(last.score->0 as int, points);
        }
    } else {
        reveal(Seq::filter);
    }
}

/// What one more row adds to the grade counts.
proof fn lemma_grade_counts_push(rows: Seq<SubmissionRow>, row: SubmissionRow, points: int)
    ensures
        grade_counts_of(rows.push(row), points) == (GradeCountsView {
            grade_a: grade_counts_of(rows, points).grade_a + one_if(
                is_in_bucket(Bucket::A, points),
                row,
            ),
            grade_b: grade_counts_of(rows, points).grade_b + one_if(
                is_in_bucket(Bucket::B, points),
                row,
            ),
            grade_c: grade_counts_of(rows, points).grade_c + one_if(
                is_in_bucket(Bucket::C, points),
                row,
            ),
            grade_d: grade_counts_of(rows, points).grade_d + one_if(
                is_in_bucket(Bucket::D, points),
                row,
            ),
            grade_f: grade_counts_of(rows, points).grade_f + one_if(
                is_in_bucket(Bucket::F, points),
                row,
            ),
            grade_zero: grade_counts_of(rows, points).grade_zero + one_if(
                is_in_bucket(Bucket::Zero, points),
                row,
            ),
            graded: grade_counts_of(rows, points).graded + one_if(is_graded(), row),
            nonzero: grade_counts_of(rows, points).nonzero + one_if(is_nonzero(), row),
            score_total: score_total(rows) + match row.score {
                Some(score) => score as int,
                None => 0,
            },
        }),
        grade_counts_of(rows, points).grade_a <= rows.len(),
        grade_counts_of(rows, points).grade_b <= rows.len(),
        grade_counts_of(rows, points).grade_c <= rows.len(),
        grade_counts_of(rows, points).grade_d <= rows.len(),
        grade_counts_of(rows, points).grade_f <= rows.len(),
        grade_counts_of(rows, points).grade_zero <= rows.len(),
        grade_counts_of(rows, points).graded <= rows.len(),
        grade_counts_of(rows, points).nonzero <= rows.len(),
{
    rows.lemma_filter_len_push(is_in_bucket(Bucket::A, points), row);
    rows.lemma_filter_len_push(is_in_bucket(Bucket::B, points), row);
    rows.lemma_filter_len_push(is_in_bucket(Bucket::C, points), row);
    rows.lemma_filter_len_push(is_in_bucket(Bucket::D, points), row);
    rows.lemma_filter_len_push(is_in_bucket(Bucket::F, points), row);
    rows.lemma_filter_len_push(is_in_bucket(Bucket::Zero, points), row);
    rows.lemma_filter_len_push(is_graded(), row);
    rows.lemma_filter_len_push(is_nonzero(), row);
    rows.lemma_filter_len(is_in_bucket(Bucket::A, points));
    rows.lemma_filter_len(is_in_bucket(Bucket::B, points));
    rows.lemma_filter_len(is_in_bucket(Bucket::C, points));
    rows.lemma_filter_len(is_in_bucket(Bucket::D, points));
    rows.lemma_filter_len(is_in_bucket(Bucket::F, points));
    rows.lemma_filter_len(is_in_bucket(Bucket::Zero, points));
    rows.lemma_filter_len(is_graded());
    rows.lemma_filter_len(is_nonzero());
    assert(rows.push(row).drop_last() =~= rows);
}

impl Counts {
    /// The counts of no rows.
    pub fn new() -> (counts: Self)
        ensures
            counts@ == counts_of(Seq::empty()),
    {
        proof {
            reveal(Seq::filter);
        }
        Counts {
            rows: 0,
            submitted: 0,
            missing: 0,
            excused: 0,
            ungraded_init: 0,
            ungraded_resubmit: 0,
        }
    }

    /// The counts with one more row.
    fn with(self, row: &SubmissionRow, Ghost(rows): Ghost<Seq<SubmissionRow>>) -> (counts: Self)
        requires
            self@ == counts_of(rows),
            rows.len() < u64::MAX,
        ensures
            counts@ == counts_of(rows.push(*row)),
    {
        proof {
            lemma_counts_push(rows, *row);
        }
        Counts {
            rows: self.rows + 1,
            submitted: if row.attempt > 0 {
                self.submitted + 1
            } else {
                self.submitted
            },
            missing: if row.missing {
                self.missing + 1
            } else {
                self.missing
            },
            excused: if row.excused {
                self.excused + 1
            } else {
                self.excused
            },
            ungraded_init: if row.score.is_none() && row.attempt > 0 {
                self.ungraded_init + 1
            } else {
                self.ungraded_init
            },
            ungraded_resubmit: if !row.current_submission {
                self.ungraded_resubmit + 1
            } else {
                self.ungraded_resubmit
            },
        }
    }
}

impl GradeCounts {
    /// The grade counts of no rows.
    pub fn new() -> (grades: Self)
        ensures
            forall|points: int| grades@ == #[trigger] grade_counts_of(Seq::empty(), points),
    {
        proof {
            reveal(Seq::filter);
        }
        GradeCounts {
            grade_a: 0,
            grade_b: 0,
            grade_c: 0,
            grade_d: 0,
            grade_f: 0,
            grade_zero: 0,
            graded: 0,
            nonzero: 0,
            score_total: 0,
        }
    }

    /// The grade counts with one more row.
    fn with(
        self,
        row: &SubmissionRow,
        points: i32,
        Ghost(rows): Ghost<Seq<SubmissionRow>>,
    ) -> (grades: Self)
        requires
            points > 0,
            self@ == grade_counts_of(rows, points as int),
            rows.len() < u64::MAX,
        ensures
            grades@ == grade_counts_of(rows.push(*row), points as int),
    {
        proof {
            lemma_grade_counts_push(rows, *row, points as int);
            lemma_score_total_bound(rows);
        }
        let bucket = match row.score {
            Some(score) => grade_bucket(score, points),
            None => None,
        };
        proof {
            if row.score is Some {
                let score = row.score->0 as int;
                if score >= 0 {
                    lemma_buckets_partition(score, points as int);
                }
            }
        }
        GradeCounts {
            grade_a: if bucket == Some(Bucket::A) {
                self.grade_a + 1
            } else {
                self.grade_a
            },
            grade_b: if bucket == Some(Bucket::B) {
                self.grade_b + 1
            } else {
                self.grade_b
            },
            grade_c: if bucket == Some(Bucket::C) {
                self.grade_c + 1
            } else {
                self.grade_c
            },
            grade_d: if bucket == Some(Bucket::D) {
                self.grade_d + 1
            } else {
                self.grade_d
            },
            grade_f: if bucket == Some(Bucket::F) {
                self.grade_f + 1
            } else {
                self.grade_f
            },
            grade_zero: if bucket == Some(Bucket::Zero) {
                self.grade_zero + 1
            } else {
                self.grade_zero
            },
            graded: if row.score.is_some() {
                self.graded + 1
            } else {
                self.graded
            },
            nonzero: match row.score {
                Some(score) => if score != 0 {
                    self.nonzero + 1
                } else {
                    self.nonzero
                },
                None => self.nonzero,
            },
            score_total: match row.score {
                Some(score) => self.score_total + score as i128,
                None => self.score_total,
            },
        }
    }
}

/// A student with this identifier is cached for the course.
pub open spec fn has_student(students: Seq<StudentRow>, course: i32, user_id: i32) -> bool {
    exists|k: int|
        0 <= k < students.len() && (#[trigger] students[k]).id == user_id && students[k].course_id
            == course
}

/// An assignment with this identifier and with positive points possible is
/// cached for the course.
pub open spec fn has_assignment(
    assignments: Seq<AssignmentRow>,
    course: i32,
    assignment_id: i32,
) -> bool {
    exists|k: int|
        0 <= k < assignments.len() && (#[trigger] assignments[k]).id == assignment_id
            && assignments[k].course_id == course && assignments[k].points_possible > 0
}

/// The submissions that count for an assignment: those made for it by a
/// student who is cached for the course.
pub open spec fn counts_for_assignment(
    assignment_id: i32,
    students: Seq<StudentRow>,
    course: i32,
) -> spec_fn(SubmissionRow) -> bool {
    |s: SubmissionRow| s.assignment_id == assignment_id && has_student(students, course, s.user_id)
}

/// The submissions that count for a student: those made by the student for
/// an assignment of the course that has positive points possible.
pub open spec fn counts_for_student(
    user_id: i32,
    assignments: Seq<AssignmentRow>,
    course: i32,
) -> spec_fn(SubmissionRow) -> bool {
    |s: SubmissionRow| s.user_id == user_id && has_assignment(assignments, course, s.assignment_id)
}

/// For each submission, whether its student is cached for the course.
fn student_flags(
    students: &Vec<StudentRow>,
    submissions: &Vec<SubmissionRow>,
    course: i32,
) -> (flags: Vec<bool>)
    ensures
        flags@.len() == submissions@.len(),
        forall|i: int|
            0 <= i < submissions@.len() ==> #[trigger] flags@[i] == has_student(
                students@,
                course,
                submissions@[i].user_id,
            ),
{
    let mut flags: Vec<bool> = Vec::new();
    let mut i: usize = 0;
    while i < submissions.len()
        invariant
            i <= submissions.len(),
            flags@.len() == i,
            forall|j: int|
                0 <= j < i ==> #[trigger] flags@[j] == has_student(
                    students@,
                    course,
                    submissions@[j].user_id,
                ),
        decreases submissions.len() - i,
    {
        let user_id = submissions[i].user_id;
        let mut found = false;
        let mut k: usize = 0;
        while k < students.len() && !found
            invariant
                k <= students.len(),
                found ==> has_student(students@, course, user_id),
                !found ==> forall|q: int|
                    0 <= q < k ==> !((#[trigger] students@[q]).id == user_id
                        && students@[q].course_id == course),
            decreases students.len() - k,
        {
            if students[k].id == user_id && students[k].course_id == course {
                found = true;
            }
            k = k + 1;
        }
        flags.push(found);
        i = i + 1;
    }
    flags
}

/// For each submission, whether its assignment is cached for the course
/// with positive points possible.
fn assignment_flags(
    assignments: &Vec<AssignmentRow>,
    submissions: &Vec<SubmissionRow>,
    course: i32,
) -> (flags: Vec<bool>)
    ensures
        flags@.len() == submissions@.len(),
        forall|i: int|
            0 <= i < submissions@.len() ==> #[trigger] flags@[i] == has_assignment(
                assignments@,
                course,
                submissions@[i].assignment_id,
            ),
{
    let mut flags: Vec<bool> = Vec::new();
    let mut i: usize = 0;
    while i < submissions.len()
        invariant
            i <= submissions.len(),
            flags@.len() == i,
            forall|j: int|
                0 <= j < i ==> #[trigger] flags@[j] == has_assignment(
                    assignments@,
                    course,
                    submissions@[j].assignment_id,
                ),
        decreases submissions.len() - i,
    {
        let assignment_id = submissions[i].assignment_id;
        let mut found = false;
        let mut k: usize = 0;
        while k < assignments.len() && !found
            invariant
                k <= assignments.len(),
                found ==> has_assignment(assignments@, course, assignment_id),
                !found ==> forall|q: int|
                    0 <= q < k ==> !((#[trigger] assignments@[q]).id == assignment_id
                        && assignments@[q].course_id == course && assignments@[q].points_possible
                        > 0),
            decreases assignments.len() - k,
        {
            if assignments[k].id == assignment_id && assignments[k].course_id == course
                && assignments[k].points_possible > 0 {
                found = true;
            }
            k = k + 1;
        }
        flags.push(found);
        i = i + 1;
    }
    flags
}

/// The counts of the submissions that `keep` selects. A submission is
/// selected if its flag is set and its student (`by_student`) or else its
/// assignment has the identifier `key`.
fn tally_counts(
    submissions: &Vec<SubmissionRow>,
    flags: &Vec<bool>,
    key: i32,
    by_student: bool,
    Ghost(keep): Ghost<spec_fn(SubmissionRow) -> bool>,
) -> (counts: Counts)
    requires
        flags@.len() == submissions@.len(),
        forall|i: int|
            0 <= i < submissions@.len() ==> keep(#[trigger] submissions@[i]) == (flags@[i] && key
                == if by_student {
                submissions@[i].user_id
            } else {
                submissions@[i].assignment_id
            }),
    ensures
        counts@ == counts_of(submissions@.filter(keep)),
{
    let mut counts = Counts::new();
    let mut i: usize = 0;
    proof {
        reveal(Seq::filter);
    }
    while i < submissions.len()
        invariant
            i <= submissions.len(),
            flags@.len() == submissions@.len(),
            forall|j: int|
                0 <= j < submissions@.len() ==> keep(#[trigger] submissions@[j]) == (flags@[j]
                    && key == if by_student {
                    submissions@[j].user_id
                } else {
                    submissions@[j].assignment_id
                }),
            counts@ == counts_of(submissions@.take(i as int).filter(keep)),
            submissions@.take(i as int).filter(keep).len() <= i,
        decreases submissions.len() - i,
    {
        let row = &submissions[i];
        let ghost seen = submissions@.take(i as int);
        proof {
            seen.lemma_filter_push(*row, keep);
            assert(submissions@.take(i + 1) =~= seen.push(*row));
        }
        let id = if by_student {
            row.user_id
        } else {
            row.assignment_id
        };
        if flags[i] && id == key {
            counts = counts.with(row, Ghost(seen.filter(keep)));
        }
        i = i + 1;
    }
    assert(submissions@.take(i as int) =~= submissions@);
    counts
}

/// The grade counts of the submissions that `keep` selects: those whose
/// flag is set and whose assignment has the identifier `assignment_id`.
fn tally_grades(
    submissions: &Vec<SubmissionRow>,
    flags: &Vec<bool>,
    assignment_id: i32,
    points: i32,
    Ghost(keep): Ghost<spec_fn(SubmissionRow) -> bool>,
) -> (grades: GradeCounts)
    requires
        points > 0,
        flags@.len() == submissions@.len(),
        forall|i: int|
            0 <= i < submissions@.len() ==> keep(#[trigger] submissions@[i]) == (flags@[i]
                && assignment_id == submissions@[i].assignment_id),
    ensures
        grades@ == grade_counts_of(submissions@.filter(keep), points as int),
{
    let mut grades = GradeCounts::new();
    let mut i: usize = 0;
    proof {
        reveal(Seq::filter);
        assert(submissions@.take(0).filter(keep) =~= Seq::empty());
    }
    while i < submissions.len()
        invariant
            i <= submissions.len(),
            points > 0,
            flags@.len() == submissions@.len(),
            forall|j: int|
                0 <= j < submissions@.len() ==> keep(#[trigger] submissions@[j]) == (flags@[j]
                    && assignment_id == submissions@[j].assignment_id),
            grades@ == grade_counts_of(submissions@.take(i as int).filter(keep), points as int),
            submissions@.take(i as int).filter(keep).len() <= i,
        decreases submissions.len() - i,
    {
        let row = &submissions[i];
        let ghost seen = submissions@.take(i as int);
        proof {
            seen.lemma_filter_push(*row, keep);
            assert(submissions@.take(i + 1) =~= seen.push(*row));
        }
        if flags[i] && row.assignment_id == assignment_id {
            grades = grades.with(row, points, Ghost(seen.filter(keep)));
        }
        i = i + 1;
    }
    assert(submissions@.take(i as int) =~= submissions@);
    grades
}

/// One line of the assignment report.
#[derive(Debug)]
pub struct AssignmentSummary {
    pub name: String,
    /// The assignment group.
    pub group: i32,
    pub points_possible: i32,
    pub counts: Counts,
    pub grades: GradeCounts,
    /// The mean score.
    pub avg_score: Option<Ratio>,
    /// The mean score as a percentage of the points possible.
    pub avg_grade: Option<Ratio>,
    /// The mean of the scores other than 0, as a percentage of the points
    /// possible.
    pub avg_grade_nonzero: Option<Ratio>,
}

/// The mathematical value of an [`AssignmentSummary`].
pub struct AssignmentSummaryView {
    pub name: Seq<char>,
    pub group: i32,
    pub points_possible: i32,
    pub counts: CountsView,
    pub grades: GradeCountsView,
    pub avg_score: Option<Fraction>,
    pub avg_grade: Option<Fraction>,
    pub avg_grade_nonzero: Option<Fraction>,
}

impl View for AssignmentSummary {
    type V = AssignmentSummaryView;

    open spec fn view(&self) -> AssignmentSummaryView {
        AssignmentSummaryView {
            name: self.name@,
            group: self.group,
            points_possible: self.points_possible,
            counts: self.counts@,
            grades: self.grades@,
            avg_score: mean_view(self.avg_score),
            avg_grade: mean_view(self.avg_grade),
            avg_grade_nonzero: mean_view(self.avg_grade_nonzero),
        }
    }
}

/// One line of the student report.
#[derive(Debug)]
pub struct StudentSummary {
    pub name: String,
    pub counts: Counts,
    pub curr_grade: String,
    pub curr_score: i32,
}

/// The mathematical value of a [`StudentSummary`].
pub struct StudentSummaryView {
    pub name: Seq<char>,
    pub counts: CountsView,
    pub curr_grade: Seq<char>,
    pub curr_score: i32,
}

impl View for StudentSummary {
    type V = StudentSummaryView;

    open spec fn view(&self) -> StudentSummaryView {
        StudentSummaryView {
            name: self.name@,
            counts: self.counts@,
            curr_grade: self.curr_grade@,
            curr_score: self.curr_score,
        }
    }
}

/// The views of the lines of an assignment report.
pub open spec fn assignment_summary_views(report: Seq<AssignmentSummary>) -> Seq<
    AssignmentSummaryView,
> {
    report.map_values(|line: AssignmentSummary| line@)
}

/// The views of the lines of a student report.
pub open spec fn student_summary_views(report: Seq<StudentSummary>) -> Seq<StudentSummaryView> {
    report.map_values(|line: StudentSummary| line@)
}

/// The line of an assignment.
pub open spec fn assignment_summary(
    assignment: AssignmentRow,
    students: Seq<StudentRow>,
    submissions: Seq<SubmissionRow>,
    course: i32,
) -> AssignmentSummaryView {
    let rows = submissions.filter(counts_for_assignment(assignment.id, students, course));
    AssignmentSummaryView {
        name: assignment.name@,
        group: assignment.assignment_group_id,
        points_possible: assignment.points_possible,
        counts: counts_of(rows),
        grades: grade_counts_of(rows, assignment.points_possible as int),
        avg_score: mean(score_total(rows), rows.filter(is_graded()).len()),
        avg_grade: mean_percent(
            score_total(rows),
            rows.filter(is_graded()).len(),
            assignment.points_possible as int,
        ),
        avg_grade_nonzero: mean_percent(
            score_total(rows),
            rows.filter(is_nonzero()).len(),
            assignment.points_possible as int,
        ),
    }
}

/// The assignments that have a line: those of the course with positive
/// points possible for which a submission counts.
pub open spec fn is_reported_assignment(
    students: Seq<StudentRow>,
    submissions: Seq<SubmissionRow>,
    course: i32,
) -> spec_fn(AssignmentRow) -> bool {
    |a: AssignmentRow|
        a.course_id == course && a.points_possible > 0 && submissions.filter(
            counts_for_assignment(a.id, students, course),
        ).len() > 0
}

/// The lines of the assignment report, in the order of the cached
/// assignments.
pub open spec fn assignment_summaries(
    assignments: Seq<AssignmentRow>,
    students: Seq<StudentRow>,
    submissions: Seq<SubmissionRow>,
    course: i32,
) -> Seq<AssignmentSummaryView> {
    assignments.filter(is_reported_assignment(students, submissions, course)).map_values(
        |a: AssignmentRow| assignment_summary(a, students, submissions, course),
    )
}

/// The line of a student.
pub open spec fn student_summary(
    student: StudentRow,
    assignments: Seq<AssignmentRow>,
    submissions: Seq<SubmissionRow>,
    course: i32,
) -> StudentSummaryView {
    StudentSummaryView {
        name: student.name@,
        counts: counts_of(submissions.filter(counts_for_student(student.id, assignments, course))),
        curr_grade: student.curr_grade@,
        curr_score: student.curr_score,
    }
}

/// The students that have a line: those of the course for whom a submission
/// counts.
pub open spec fn is_reported_student(
    assignments: Seq<AssignmentRow>,
    submissions: Seq<SubmissionRow>,
    course: i32,
) -> spec_fn(StudentRow) -> bool {
    |s: StudentRow|
        s.course_id == course && submissions.filter(
            counts_for_student(s.id, assignments, course),
        ).len() > 0
}

/// The lines of the student report, in the order of the cached students.
pub open spec fn student_summaries(
    students: Seq<StudentRow>,
    assignments: Seq<AssignmentRow>,
    submissions: Seq<SubmissionRow>,
    course: i32,
) -> Seq<StudentSummaryView> {
    students.filter(is_reported_student(assignments, submissions, course)).map_values(
        |s: StudentRow| student_summary(s, assignments, submissions, course),
    )
}

/// What the lines of an assignment report are ordered by: the assignment
/// group, then the name.
pub open spec fn assignment_keys(lines: Seq<AssignmentSummaryView>) -> Seq<(int, Seq<char>)> {
    Seq::new(lines.len(), |i: int| (lines[i].group as int, lines[i].name))
}

/// What the lines of a student report are ordered by: the score, the
/// highest first, then the name.
pub open spec fn student_keys(lines: Seq<StudentSummaryView>) -> Seq<(int, Seq<char>)> {
    Seq::new(lines.len(), |i: int| (-(lines[i].curr_score as int), lines[i].name))
}

impl AssignmentSummary {
    /// A copy of this line.
    pub fn duplicate(&self) -> (line: Self)
        ensures
            line@ == self@,
    {
        AssignmentSummary {
            name: self.name.clone(),
            group: self.group,
            points_possible: self.points_possible,
            counts: self.counts,
            grades: self.grades,
            avg_score: self.avg_score,
            avg_grade: self.avg_grade,
            avg_grade_nonzero: self.avg_grade_nonzero,
        }
    }
}

impl StudentSummary {
    /// A copy of this line.
    pub fn duplicate(&self) -> (line: Self)
        ensures
            line@ == self@,
    {
        StudentSummary {
            name: self.name.clone(),
            counts: self.counts,
            curr_grade: self.curr_grade.clone(),
            curr_score: self.curr_score,
        }
    }
}

/// The lines of the assignment report before they are ordered.
fn collect_assignment_lines(
    assignments: &Vec<AssignmentRow>,
    students: &Vec<StudentRow>,
    submissions: &Vec<SubmissionRow>,
    course: i32,
) -> (lines: Vec<AssignmentSummary>)
    ensures
        assignment_summary_views(lines@) == assignment_summaries(
            assignments@,
            students@,
            submissions@,
            course,
        ),
{
    let flags = student_flags(students, submissions, course);
    let ghost reported = is_reported_assignment(students@, submissions@, course);
    let ghost line_of = |a: AssignmentRow| assignment_summary(a, students@, submissions@, course);
    let mut lines: Vec<AssignmentSummary> = Vec::new();
    let mut i: usize = 0;
    proof {
        reveal(Seq::filter);
    }
    while i < assignments.len()
        invariant
            i <= assignments.len(),
            reported == is_reported_assignment(students@, submissions@, course),
            line_of == |a: AssignmentRow| assignment_summary(a, students@, submissions@, course),
            flags@.len() == submissions@.len(),
            forall|j: int|
                0 <= j < submissions@.len() ==> #[trigger] flags@[j] == has_student(
                    students@,
                    course,
                    submissions@[j].user_id,
                ),
            assignment_summary_views(lines@) == assignments@.take(i as int).filter(
                reported,
            ).map_values(line_of),
        decreases assignments.len() - i,
    {
        let assignment = &assignments[i];
        let ghost keep = counts_for_assignment(assignment.id, students@, course);
        let ghost seen = assignments@.take(i as int);
        proof {
            seen.lemma_filter_push(*assignment, reported);
            assert(assignments@.take(i + 1) =~= seen.push(*assignment));
        }
        if assignment.course_id == course && assignment.points_possible > 0 {
            let counts = tally_counts(submissions, &flags, assignment.id, false, Ghost(keep));
            if counts.rows > 0 {
                let grades = tally_grades(
                    submissions,
                    &flags,
                    assignment.id,
                    assignment.points_possible,
                    Ghost(keep),
                );
                proof {
                    lemma_score_total_bound(submissions@.filter(keep));
                }
                let line = AssignmentSummary {
                    name: assignment.name.clone(),
                    group: assignment.assignment_group_id,
                    points_possible: assignment.points_possible,
                    counts,
                    grades,
                    avg_score: mean_of(grades.score_total, grades.graded),
                    avg_grade: mean_percent_of(
                        grades.score_total,
                        grades.graded,
                        assignment.points_possible,
                    ),
                    avg_grade_nonzero: mean_percent_of(
                        grades.score_total,
                        grades.nonzero,
                        assignment.points_possible,
                    ),
                };
                lines.push(line);
                proof {
                    assert(seen.push(*assignment).filter(reported).map_values(line_of)
                        =~= seen.filter(reported).map_values(line_of).push(line_of(*assignment)));
                }
            }
        }
        i = i + 1;
    }
    assert(assignments@.take(i as int) =~= assignments@);
    lines
}

/// The lines of the student report before they are ordered.
fn collect_student_lines(
    students: &Vec<StudentRow>,
    assignments: &Vec<AssignmentRow>,
    submissions: &Vec<SubmissionRow>,
    course: i32,
) -> (lines: Vec<StudentSummary>)
    ensures
        student_summary_views(lines@) == student_summaries(
            students@,
            assignments@,
            submissions@,
            course,
        ),
{
    let flags = assignment_flags(assignments, submissions, course);
    let ghost reported = is_reported_student(assignments@, submissions@, course);
    let ghost line_of = |s: StudentRow| student_summary(s, assignments@, submissions@, course);
    let mut lines: Vec<StudentSummary> = Vec::new();
    let mut i: usize = 0;
    proof {
        reveal(Seq::filter);
    }
    while i < students.len()
        invariant
            i <= students.len(),
            reported == is_reported_student(assignments@, submissions@, course),
            line_of == |s: StudentRow| student_summary(s, assignments@, submissions@, course),
            flags@.len() == submissions@.len(),
            forall|j: int|
                0 <= j < submissions@.len() ==> #[trigger] flags@[j] == has_assignment(
                    assignments@,
                    course,
                    submissions@[j].assignment_id,
                ),
            student_summary_views(lines@) == students@.take(i as int).filter(reported).map_values(
                line_of,
            ),
        decreases students.len() - i,
    {
        let student = &students[i];
        let ghost keep = counts_for_student(student.id, assignments@, course);
        let ghost seen = students@.take(i as int);
        proof {
            seen.lemma_filter_push(*student, reported);
            assert(students@.take(i + 1) =~= seen.push(*student));
        }
        if student.course_id == course {
            let counts = tally_counts(submissions, &flags, student.id, true, Ghost(keep));
            if counts.rows > 0 {
                let line = StudentSummary {
                    name: student.name.clone(),
                    counts,
                    curr_grade: student.curr_grade.clone(),
                    curr_score: student.curr_score,
                };
                lines.push(line);
                proof {
                    assert(seen.push(*student).filter(reported).map_values(line_of)
                        =~= seen.filter(reported).map_values(line_of).push(line_of(*student)));
                }
            }
        }
        i = i + 1;
    }
    assert(students@.take(i as int) =~= students@);
    lines
}

/// The assignment report of a course: one line for each assignment of the
/// course that has positive points possible and a submission that counts,
/// ordered by assignment group and then by name.
pub fn assignment_report(
    assignments: &Vec<AssignmentRow>,
    students: &Vec<StudentRow>,
    submissions: &Vec<SubmissionRow>,
    course: i32,
) -> (report: Vec<AssignmentSummary>)
    ensures
        is_ordered(
            assignment_summary_views(report@),
            assignment_summaries(assignments@, students@, submissions@, course),
            assignment_keys(assignment_summaries(assignments@, students@, submissions@, course)),
        ),
{
    let lines = collect_assignment_lines(assignments, students, submissions, course);
    let ghost views = assignment_summaries(assignments@, students@, submissions@, course);
    let mut keys: Vec<SortKey> = Vec::new();
    let mut i: usize = 0;
    while i < lines.len()
        invariant
            i <= lines.len(),
            views == assignment_summary_views(lines@),
            keys@.len() == i,
            key_views(keys@) == assignment_keys(views.take(i as int)),
        decreases lines.len() - i,
    {
        let ghost earlier = keys@;
        keys.push(SortKey { rank: lines[i].group as i64, text: lines[i].name.clone() });
        i = i + 1;
        assert forall|j: int| 0 <= j < i implies key_views(keys@)[j] == assignment_keys(
            views.take(i as int),
        )[j] by {
            if j < i - 1 {
                assert(key_views(earlier)[j] == assignment_keys(views.take(i - 1))[j]);
            }
        }
    }
    let order = sorted_order(&keys);
    let mut report: Vec<AssignmentSummary> = Vec::new();
    let mut k: usize = 0;
    while k < order.len()
        invariant
            k <= order.len(),
            views == assignment_summary_views(lines@),
            is_arrangement(order@, lines@.len()),
            report@.len() == k,
            assignment_summary_views(report@) == arranged(views, order@.take(k as int)),
        decreases order.len() - k,
    {
        let ghost before = report@;
        report.push(lines[order[k]].duplicate());
        k = k + 1;
        assert forall|j: int| 0 <= j < k implies assignment_summary_views(report@)[j] == arranged(
            views,
            order@.take(k as int),
        )[j] by {
            if j < k - 1 {
                assert(assignment_summary_views(before)[j] == arranged(views, order@.take(k - 1))[j]);
            }
        }
    }
    report
}

/// The student report of a course: one line for each student of the course
/// for whom a submission counts, ordered by score, the highest first, and
/// then by name.
pub fn student_report(
    students: &Vec<StudentRow>,
    assignments: &Vec<AssignmentRow>,
    submissions: &Vec<SubmissionRow>,
    course: i32,
) -> (report: Vec<StudentSummary>)
    ensures
        is_ordered(
            student_summary_views(report@),
            student_summaries(students@, assignments@, submissions@, course),
            student_keys(student_summaries(students@, assignments@, submissions@, course)),
        ),
{
    let lines = collect_student_lines(students, assignments, submissions, course);
    let ghost views = student_summaries(students@, assignments@, submissions@, course);
    let mut keys: Vec<SortKey> = Vec::new();
    let mut i: usize = 0;
    while i < lines.len()
        invariant
            i <= lines.len(),
            views == student_summary_views(lines@),
            keys@.len() == i,
            key_views(keys@) == student_keys(views.take(i as int)),
        decreases lines.len() - i,
    {
        let ghost earlier = keys@;
        keys.push(SortKey { rank: -(lines[i].curr_score as i64), text: lines[i].name.clone() });
        i = i + 1;
        assert forall|j: int| 0 <= j < i implies key_views(keys@)[j] == student_keys(
            views.take(i as int),
        )[j] by {
            if j < i - 1 {
                assert(key_views(earlier)[j] == student_keys(views.take(i - 1))[j]);
            }
        }
    }
    let order = sorted_order(&keys);
    let mut report: Vec<StudentSummary> = Vec::new();
    let mut k: usize = 0;
    while k < order.len()
        invariant
            k <= order.len(),
            views == student_summary_views(lines@),
            is_arrangement(order@, lines@.len()),
            report@.len() == k,
            student_summary_views(report@) == arranged(views, order@.take(k as int)),
        decreases order.len() - k,
    {
        let ghost before = report@;
        report.push(lines[order[k]].duplicate());
        k = k + 1;
        assert forall|j: int| 0 <= j < k implies student_summary_views(report@)[j] == arranged(
            views,
            order@.take(k as int),
        )[j] by {
            if j < k - 1 {
                assert(student_summary_views(before)[j] == arranged(views, order@.take(k - 1))[j]);
            }
        }
    }
    report
}

} // verus!
