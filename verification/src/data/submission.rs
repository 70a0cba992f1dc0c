//! Submissions: the record that the API returns and the row that is cached.

use crate::data::course::{course_path, course_resource_path};
use vstd::prelude::*;

verus! {

/// A submission as the API returns it. What the API leaves out is `None`.
#[derive(Debug)]
pub struct Submission {
    pub id: i32,
    pub assignment_id: i32,
    pub user_id: i32,
    /// The score in the unit of the points; `None` while it is not graded.
    pub score: Option<i32>,
    pub excused: Option<bool>,
    pub missing: Option<bool>,
    pub late: Option<bool>,
    pub attempt: Option<i32>,
    pub grade_matches_current_submission: Option<bool>,
}

/// A submission as it is cached.
#[derive(Clone, Copy, Debug, PartialEq, Eq, Structural)]
pub struct SubmissionRow {
    pub id: i32,
    pub assignment_id: i32,
    pub user_id: i32,
    /// `None` while the submission is not graded.
    pub score: Option<i32>,
    pub excused: bool,
    pub missing: bool,
    pub late: bool,
    /// How often the student has submitted; 0 if never.
    pub attempt: i32,
    /// Whether the grade belongs to what was submitted last.
    pub current_submission: bool,
}

/// A flag that the API left out is not set.
pub open spec fn flag(value: Option<bool>) -> bool {
    match value {
        Some(b) => b,
        None => false,
    }
}

/// The row that caches a submission: a flag that is left out is not set,
/// and a submission without an attempt count was never submitted.
pub open spec fn submission_row(submission: Submission) -> SubmissionRow {
    SubmissionRow {
        id: submission.id,
        assignment_id: submission.assignment_id,
        user_id: submission.user_id,
        score: submission.score,
        excused: flag(submission.excused),
        missing: flag(submission.missing),
        late: flag(submission.late),
        attempt: match submission.attempt {
            Some(n) => n,
            None => 0,
        },
        current_submission: flag(submission.grade_matches_current_submission),
    }
}

/// The rows of a sequence of submissions.
pub open spec fn submission_rows(submissions: Seq<Submission>) -> Seq<SubmissionRow> {
    Seq::new(submissions.len(), |i: int| submission_row(submissions[i]))
}

fn flag_of(value: Option<bool>) -> (b: bool)
    ensures
        b == flag(value),
{
    match value {
        Some(b) => b,
        None => false,
    }
}

impl Submission {
    /// The statement that defines the submission table.
    pub fn create_table() -> (statement: &'static str)
        ensures
            statement@
                == "CREATE TABLE curr_submissions(id INT, assignment_id INT, user_id INT, score INT, excused BOOL, missing BOOL, late BOOL, attempt INT, current_submission BOOL);"@,
    {
        "CREATE TABLE curr_submissions(id INT, assignment_id INT, user_id INT, score INT, excused BOOL, missing BOOL, late BOOL, attempt INT, current_submission BOOL);"
    }

    /// The statement that removes the submission table if it is there.
    pub fn drop_table() -> (statement: &'static str)
        ensures
            statement@ == "DROP TABLE IF EXISTS curr_submissions;"@,
    {
        "DROP TABLE IF EXISTS curr_submissions;"
    }

    /// The statement that appends one row; its parameters are the fields of
    /// a [`SubmissionRow`] in their order.
    pub fn insert_row() -> (statement: &'static str)
        ensures
            statement@
                == "INSERT INTO curr_submissions (id, assignment_id, user_id, score, excused, missing, late, attempt, current_submission) VALUES ($1, $2, $3, $4, $5, $6, $7, $8, $9);"@,
    {
        "INSERT INTO curr_submissions (id, assignment_id, user_id, score, excused, missing, late, attempt, current_submission) VALUES ($1, $2, $3, $4, $5, $6, $7, $8, $9);"
    }

    /// The statement that reads every row; its columns are the fields of a
    /// [`SubmissionRow`] in their order.
    pub fn select_rows() -> (statement: &'static str)
        ensures
            statement@
                == "SELECT id, assignment_id, user_id, score, excused, missing, late, attempt, current_submission FROM curr_submissions;"@,
    {
        "SELECT id, assignment_id, user_id, score, excused, missing, late, attempt, current_submission FROM curr_submissions;"
    }

    /// The paged resource from which the submissions of a course are fetched.
    pub fn resource(course_id: i32) -> (path: String)
        ensures
            path@ == course_path(
                course_id as int,
                "/students/submissions?student_ids[]=all&enrollment_state=active"@,
            ),
    {
        course_resource_path(
            course_id,
            "/students/submissions?student_ids[]=all&enrollment_state=active",
        )
    }

    /// The row that caches this submission.
    pub fn row(&self) -> (row: SubmissionRow)
        ensures
            row == submission_row(*self),
    {
        SubmissionRow {
            id: self.id,
            assignment_id: self.assignment_id,
            user_id: self.user_id,
            score: self.score,
            excused: flag_of(self.excused),
            missing: flag_of(self.missing),
            late: flag_of(self.late),
            attempt: match self.attempt {
                Some(n) => n,
                None => 0,
            },
            current_submission: flag_of(self.grade_matches_current_submission),
        }
    }

    /// The rows that cache the fetched submissions, one for each, in their
    /// order.
    pub fn load(submissions: &Vec<Submission>) -> (rows: Vec<SubmissionRow>)
        ensures
            rows@ == submission_rows(submissions@),
    {
        let mut rows: Vec<SubmissionRow> = Vec::new();
        let mut i: usize = 0;
        while i < submissions.len()
            invariant
                i <= submissions.len(),
                rows@ == submission_rows(submissions@.take(i as int)),
            decreases submissions.len() - i,
        {
            rows.push(submissions[i].row());
            i = i + 1;
        }
        rows
    }
}

} // verus!
