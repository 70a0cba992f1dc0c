//! Courses: the record that the API returns and the row that is cached.

use crate::data::text::{
    after_first_word, decimal_string, decimal_text, first_two_words, first_word, text_equal,
};
use vstd::prelude::*;
use vstd::string::StringExecFns;

verus! {

/// The term of a course as the API names it, such as `Fall 2024`.
#[derive(Debug)]
pub struct CourseTerm {
    pub name: String,
}

/// A course as the API returns it.
#[derive(Debug)]
pub struct Course {
    pub id: i32,
    pub course_code: String,
    pub concluded: bool,
    pub term: CourseTerm,
    pub total_students: Option<i32>,
}

/// A course as it is cached.
#[derive(Debug)]
pub struct CourseRow {
    pub id: i32,
    pub code: String,
    pub concluded: bool,
    /// The term label: year, hyphen, period.
    pub term: String,
    pub students: i32,
}

/// The mathematical value of a [`CourseRow`].
pub struct CourseRowView {
    pub id: i32,
    pub code: Seq<char>,
    pub concluded: bool,
    pub term: Seq<char>,
    pub students: i32,
}

impl View for CourseRow {
    type V = CourseRowView;

    open spec fn view(&self) -> CourseRowView {
        CourseRowView {
            id: self.id,
            code: self.code@,
            concluded: self.concluded,
            term: self.term@,
            students: self.students,
        }
    }
}

/// The views of a sequence of course rows.
pub open spec fn course_row_views(rows: Seq<CourseRow>) -> Seq<CourseRowView> {
    Seq::new(rows.len(), |i: int| rows[i]@)
}

/// The period of a season: a digit that orders the seasons within a year
/// and a letter that names the season. A word that names no season has none.
pub open spec fn season_period(season: Seq<char>) -> Option<Seq<char>> {
    if season == "Winter"@ {
        Some("1W"@)
    } else if season == "Spring"@ {
        Some("2S"@)
    } else if season == "Summer"@ {
        Some("3M"@)
    } else if season == "Fall"@ {
        Some("4F"@)
    } else {
        None
    }
}

/// The label of a term named `Season Year`: the year, a hyphen and the
/// period of the season. The season is the first word of the name and the
/// year the second; what follows them is not read. The label is empty where
/// the first word names no season.
pub open spec fn term_label(name: Seq<char>) -> Seq<char> {
    match season_period(first_word(name)) {
        Some(period) => first_word(after_first_word(name)) + seq!['-'] + period,
        None => Seq::empty(),
    }
}

/// The row that caches a course: the term is replaced by its label, and a
/// course without a student count has none enrolled.
pub open spec fn course_row(course: Course) -> CourseRowView {
    CourseRowView {
        id: course.id,
        code: course.course_code@,
        concluded: course.concluded,
        term: term_label(course.term.name@),
        students: match course.total_students {
            Some(n) => n,
            None => 0,
        },
    }
}

/// The resource of a course, with its term, its state and its size.
pub open spec fn course_resource(course_id: int) -> Seq<char> {
    "/api/v1/courses/"@ + decimal_text(course_id)
        + "?include[]=term&include[]=concluded&include[]=total_students"@
}

/// The resource below a course: the course, then `rest`.
pub open spec fn course_path(course_id: int, rest: Seq<char>) -> Seq<char> {
    "/api/v1/courses/"@ + decimal_text(course_id) + rest
}

/// The path of a resource below a course.
pub fn course_resource_path(course_id: i32, rest: &str) -> (path: String)
    ensures
        path@ == course_path(course_id as int, rest@),
{
    let mut path = String::from_str("/api/v1/courses/");
    let id = decimal_string(course_id);
    path.append(id.as_str());
    path.append(rest);
    path
}

/// The period of a season.
fn period_of(season: &str) -> (period: Option<&'static str>)
    ensures
        match period {
            Some(p) => season_period(season@) == Some(p@),
            None => season_period(season@) is None,
        },
{
    if text_equal(season, "Winter") {
        Some("1W")
    } else if text_equal(season, "Spring") {
        Some("2S")
    } else if text_equal(season, "Summer") {
        Some("3M")
    } else if text_equal(season, "Fall") {
        Some("4F")
    } else {
        None
    }
}

impl Course {
    /// The statement that defines the course table.
    pub fn create_table() -> (statement: &'static str)
        ensures
            statement@
                == "CREATE TABLE curr_courses(id INT, code TEXT, concluded BOOLEAN, term TEXT, students INT);"@,
    {
        "CREATE TABLE curr_courses(id INT, code TEXT, concluded BOOLEAN, term TEXT, students INT);"
    }

    /// The statement that removes the course table if it is there.
    pub fn drop_table() -> (statement: &'static str)
        ensures
            statement@ == "DROP TABLE IF EXISTS curr_courses;"@,
    {
        "DROP TABLE IF EXISTS curr_courses;"
    }

    /// The statement that appends one row; its parameters are the fields of
    /// a [`CourseRow`] in their order.
    pub fn insert_row() -> (statement: &'static str)
        ensures
            statement@
                == "INSERT INTO curr_courses (id, code, concluded, term, students) VALUES ($1, $2, $3, $4, $5);"@,
    {
        "INSERT INTO curr_courses (id, code, concluded, term, students) VALUES ($1, $2, $3, $4, $5);"
    }

    /// The statement that reads every row; its columns are the fields of a
    /// [`CourseRow`] in their order.
    pub fn select_rows() -> (statement: &'static str)
        ensures
            statement@ == "SELECT id, code, concluded, term, students FROM curr_courses;"@,
    {
        "SELECT id, code, concluded, term, students FROM curr_courses;"
    }

    /// The resource from which a course is fetched.
    pub fn resource(course_id: i32) -> (path: String)
        ensures
            path@ == course_resource(course_id as int),
    {
        course_resource_path(
            course_id,
            "?include[]=term&include[]=concluded&include[]=total_students",
        )
    }

    /// The label of a term: `Fall 2024` becomes `2024-4F`.
    pub fn convert_term(term: &str) -> (label: String)
        ensures
            label@ == term_label(term@),
    {
        let (season, year) = first_two_words(term);
        match period_of(season.as_str()) {
            Some(period) => {
                proof {
                    reveal_strlit("-");
                }
                let mut label = year;
                label.append("-");
                label.append(period);
                label
            },
            None => String::new(),
        }
    }

    /// The row that caches this course.
    pub fn row(&self) -> (row: CourseRow)
        ensures
            row@ == course_row(*self),
    {
        CourseRow {
            id: self.id,
            code: self.course_code.clone(),
            concluded: self.concluded,
            term: Course::convert_term(self.term.name.as_str()),
            students: match self.total_students {
                Some(n) => n,
                None => 0,
            },
        }
    }

    /// The rows that cache the fetched courses, one for each, in their order.
    pub fn load(courses: &Vec<Course>) -> (rows: Vec<CourseRow>)
        ensures
            rows@.len() == courses@.len(),
            forall|i: int| 0 <= i < courses@.len() ==> (#[trigger] rows@[i])@ == course_row(courses@[i]),
    {
        let mut rows: Vec<CourseRow> = Vec::new();
        let mut i: usize = 0;
        while i < courses.len()
            invariant
                i <= courses.len(),
                rows@.len() == i,
                forall|k: int| 0 <= k < i ==> (#[trigger] rows@[k])@ == course_row(courses@[k]),
            decreases courses.len() - i,
        {
            rows.push(courses[i].row());
            i = i + 1;
        }
        rows
    }
}

} // verus!
