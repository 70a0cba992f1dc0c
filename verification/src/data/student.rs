//! Students: the record that the API returns and the row that is cached.
//!
//! Every course has one preview student, a synthetic enrolment through
//! which a teacher sees the course as a student does. It is no student: it
//! is left out of the cache.

use crate::data::course::{course_path, course_resource_path};
use vstd::prelude::*;

verus! {

/// The standing of a student in a course.
#[derive(Debug)]
pub struct Grades {
    pub current_grade: Option<String>,
    /// The current score, a percentage, in the unit of the points.
    pub current_score: Option<i32>,
}

/// One enrolment of a student.
#[derive(Debug)]
pub struct Enrollment {
    pub grades: Grades,
}

/// A student as the API returns it.
#[derive(Debug)]
pub struct Student {
    pub id: i32,
    pub name: String,
    pub enrollments: Option<Vec<Enrollment>>,
}

/// A student as it is cached.
#[derive(Debug)]
pub struct StudentRow {
    pub id: i32,
    pub course_id: i32,
    pub name: String,
    pub curr_grade: String,
    pub curr_score: i32,
}

/// The mathematical value of a [`StudentRow`].
pub struct StudentRowView {
    pub id: i32,
    pub course_id: i32,
    pub name: Seq<char>,
    pub curr_grade: Seq<char>,
    pub curr_score: i32,
}

impl View for StudentRow {
    type V = StudentRowView;

    open spec fn view(&self) -> StudentRowView {
        StudentRowView {
            id: self.id,
            course_id: self.course_id,
            name: self.name@,
            curr_grade: self.curr_grade@,
            curr_score: self.curr_score,
        }
    }
}

/// The views of a sequence of student rows.
pub open spec fn student_row_views(rows: Seq<StudentRow>) -> Seq<StudentRowView> {
    rows.map_values(|row: StudentRow| row@)
}

/// The grades that count for a student: those of the first enrolment that
/// the API returned, if it returned one.
pub open spec fn first_grades(student: Student) -> Option<Grades> {
    match student.enrollments {
        Some(list) => if list@.len() > 0 {
            Some(list@[0].grades)
        } else {
            None
        },
        None => None,
    }
}

/// The row that caches a student of the given course. A student without an
/// enrolment, or without a grade or a score in the first one, has the empty
/// grade and the score 0.
pub open spec fn student_row(course_id: i32, student: Student) -> StudentRowView {
    StudentRowView {
        id: student.id,
        course_id,
        name: student.name@,
        curr_grade: match first_grades(student) {
            Some(Grades { current_grade: Some(grade), .. }) => grade@,
            _ => Seq::empty(),
        },
        curr_score: match first_grades(student) {
            Some(Grades { current_score: Some(score), .. }) => score,
            _ => 0,
        },
    }
}

/// The students that are cached: all but those with the identifier of the
/// preview student, in their order.
pub open spec fn real_students(students: Seq<Student>, preview_id: i32) -> Seq<Student> {
    students.filter(|s: Student| s.id != preview_id)
}

/// The rows that cache the students of a course.
pub open spec fn student_rows(
    course_id: i32,
    students: Seq<Student>,
    preview_id: i32,
) -> Seq<StudentRowView> {
    real_students(students, preview_id).map_values(|s: Student| student_row(course_id, s))
}

/// What one more fetched student adds to the rows.
proof fn lemma_student_rows_push(
    course_id: i32,
    students: Seq<Student>,
    student: Student,
    preview_id: i32,
)
    ensures
        student_rows(course_id, students.push(student), preview_id) == if student.id
            != preview_id {
            student_rows(course_id, students, preview_id).push(student_row(course_id, student))
        } else {
            student_rows(course_id, students, preview_id)
        },
{
    students.lemma_filter_push(student, |s: Student| s.id != preview_id);
}

/// The preview student is left out of the cache and every other student is
/// kept: no row has the identifier of the preview student, and every fetched
/// student with another identifier has its row, in the order of the fetch.
pub proof fn lemma_preview_student_excluded(
    course_id: i32,
    students: Seq<Student>,
    preview_id: i32,
)
    ensures
        forall|k: int|
            0 <= k < student_rows(course_id, students, preview_id).len()
                ==> #[trigger] student_rows(course_id, students, preview_id)[k].id != preview_id,
        forall|i: int|
            0 <= i < students.len() && students[i].id != preview_id ==> student_rows(
                course_id,
                students,
                preview_id,
            ).contains(#[trigger] student_row(course_id, students[i])),
        student_rows(course_id, students, preview_id).len() <= students.len(),
        (forall|i: int| 0 <= i < students.len() ==> (#[trigger] students[i]).id != preview_id)
            ==> student_rows(course_id, students, preview_id).len() == students.len(),
    decreases students.len(),
{
    let rows = student_rows(course_id, students, preview_id);
    if students.len() == 0 {
        reveal(Seq::filter);
    } else {
        let earlier = students.drop_last();
        let last = students.last();
        assert(students =~= earlier.push(last));
        lemma_preview_student_excluded(course_id, earlier, preview_id);
        lemma_student_rows_push(course_id, earlier, last, preview_id);
        let before = student_rows(course_id, earlier, preview_id);
        assert forall|i: int|
            0 <= i < students.len() && students[i].id != preview_id implies rows.contains(
            #[trigger] student_row(course_id, students[i]),
        ) by {
            if i < earlier.len() {
                let row = student_row(course_id, students[i]);
                let k = choose|k: int| 0 <= k < before.len() && before[k] == row;
                assert(rows[k] == row);
            } else {
                assert(rows[rows.len() - 1] == student_row(course_id, last));
            }
        }
    }
}

impl Student {
    /// The statement that defines the student table.
    pub fn create_table() -> (statement: &'static str)
        ensures
            statement@
                == "CREATE TABLE curr_students(id INT, course_id INT, name TEXT, curr_grade TEXT, curr_score INT);"@,
    {
        "CREATE TABLE curr_students(id INT, course_id INT, name TEXT, curr_grade TEXT, curr_score INT);"
    }

    /// The statement that removes the student table if it is there.
    pub fn drop_table() -> (statement: &'static str)
        ensures
            statement@ == "DROP TABLE IF EXISTS curr_students;"@,
    {
        "DROP TABLE IF EXISTS curr_students;"
    }

    /// The statement that appends one row; its parameters are the fields of
    /// a [`StudentRow`] in their order.
    pub fn insert_row() -> (statement: &'static str)
        ensures
            statement@
                == "INSERT INTO curr_students (id, course_id, name, curr_grade, curr_score) VALUES ($1, $2, $3, $4, $5);"@,
    {
        "INSERT INTO curr_students (id, course_id, name, curr_grade, curr_score) VALUES ($1, $2, $3, $4, $5);"
    }

    /// The statement that reads every row; its columns are the fields of a
    /// [`StudentRow`] in their order.
    pub fn select_rows() -> (statement: &'static str)
        ensures
            statement@ == "SELECT id, course_id, name, curr_grade, curr_score FROM curr_students;"@,
    {
        "SELECT id, course_id, name, curr_grade, curr_score FROM curr_students;"
    }

    /// The paged resource from which the students of a course are fetched,
    /// with their enrolments and scores.
    pub fn resource(course_id: i32) -> (path: String)
        ensures
            path@ == course_path(
                course_id as int,
                "/users?enrollment_type[]=student&include[]=total_scores&include[]=enrollments&enrollment_state[]=active&enrollment_state[]=invited&enrollment_state[]=completed"@,
            ),
    {
        course_resource_path(
            course_id,
            "/users?enrollment_type[]=student&include[]=total_scores&include[]=enrollments&enrollment_state[]=active&enrollment_state[]=invited&enrollment_state[]=completed",
        )
    }

    /// The resource from which the preview student of a course is fetched.
    pub fn preview_resource(course_id: i32) -> (path: String)
        ensures
            path@ == course_path(course_id as int, "/student_view_student?"@),
    {
        course_resource_path(course_id, "/student_view_student?")
    }

    /// The row that caches this student of the given course.
    pub fn row(&self, course_id: i32) -> (row: StudentRow)
        ensures
            row@ == student_row(course_id, *self),
    {
        let mut curr_grade = String::new();
        let mut curr_score: i32 = 0;
        if let Some(enrollments) = &self.enrollments {
            if enrollments.len() > 0 {
                let grades = &enrollments[0].grades;
                if let Some(grade) = &grades.current_grade {
                    curr_grade = grade.clone();
                }
                if let Some(score) = grades.current_score {
                    curr_score = score;
                }
            }
        }
        StudentRow { id: self.id, course_id, name: self.name.clone(), curr_grade, curr_score }
    }

    /// The rows that cache the fetched students of a course: one for each
    /// student but the preview student, in the order of the fetch.
    pub fn load(course_id: i32, students: &Vec<Student>, test_student: &Student) -> (rows: Vec<
        StudentRow,
    >)
        ensures
            student_row_views(rows@) == student_rows(course_id, students@, test_student.id),
    {
        let mut rows: Vec<StudentRow> = Vec::new();
        let mut i: usize = 0;
        proof {
            reveal(Seq::filter);
        }
        while i < students.len()
            invariant
                i <= students.len(),
                student_row_views(rows@) == student_rows(
                    course_id,
                    students@.take(i as int),
                    test_student.id,
                ),
            decreases students.len() - i,
        {
            let student = &students[i];
            proof {
                lemma_student_rows_push(
                    course_id,
                    students@.take(i as int),
                    *student,
                    test_student.id,
                );
                assert(students@.take(i + 1) =~= students@.take(i as int).push(*student));
            }
            if student.id != test_student.id {
                rows.push(student.row(course_id));
            }
            i = i + 1;
        }
        assert(students@.take(i as int) =~= students@);
        rows
    }
}

} // verus!
