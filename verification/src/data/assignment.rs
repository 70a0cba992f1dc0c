//! Assignments: the record that the API returns and the row that is cached.
//!
//! Points are fixed-point numbers: integers that count a unit which the
//! caller chooses, the same for every score and every assignment.

use crate::data::course::{course_path, course_resource_path};
use vstd::prelude::*;

verus! {

/// An assignment as the API returns it.
#[derive(Debug)]
pub struct Assignment {
    pub id: i32,
    pub name: String,
    pub quiz_id: Option<u32>,
    pub points_possible: i32,
    pub assignment_group_id: i32,
}

/// An assignment as it is cached. One whose points possible are not positive
/// takes no part in any report.
#[derive(Debug)]
pub struct AssignmentRow {
    pub id: i32,
    pub course_id: i32,
    pub name: String,
    pub points_possible: i32,
    pub assignment_group_id: i32,
}

/// The mathematical value of an [`AssignmentRow`].
pub struct AssignmentRowView {
    pub id: i32,
    pub course_id: i32,
    pub name: Seq<char>,
    pub points_possible: i32,
    pub assignment_group_id: i32,
}

impl View for AssignmentRow {
    type V = AssignmentRowView;

    open spec fn view(&self) -> AssignmentRowView {
        AssignmentRowView {
            id: self.id,
            course_id: self.course_id,
            name: self.name@,
            points_possible: self.points_possible,
            assignment_group_id: self.assignment_group_id,
        }
    }
}

/// The row that caches an assignment of the given course.
pub open spec fn assignment_row(course_id: i32, assignment: Assignment) -> AssignmentRowView {
    AssignmentRowView {
        id: assignment.id,
        course_id,
        name: assignment.name@,
        points_possible: assignment.points_possible,
        assignment_group_id: assignment.assignment_group_id,
    }
}

impl Assignment {
    /// The statement that defines the assignment table.
    pub fn create_table() -> (statement: &'static str)
        ensures
            statement@
                == "CREATE TABLE curr_assignments(id INT, course_id INT, name TEXT, points_possible INT, assignment_group_id INT);"@,
    {
        "CREATE TABLE curr_assignments(id INT, course_id INT, name TEXT, points_possible INT, assignment_group_id INT);"
    }

    /// The statement that removes the assignment table if it is there.
    pub fn drop_table() -> (statement: &'static str)
        ensures
            statement@ == "DROP TABLE IF EXISTS curr_assignments;"@,
    {
        "DROP TABLE IF EXISTS curr_assignments;"
    }

    /// The statement that appends one row; its parameters are the fields of
    /// an [`AssignmentRow`] in their order.
    pub fn insert_row() -> (statement: &'static str)
        ensures
            statement@
                == "INSERT INTO curr_assignments (id, course_id, name, points_possible, assignment_group_id) VALUES ($1, $2, $3, $4, $5);"@,
    {
        "INSERT INTO curr_assignments (id, course_id, name, points_possible, assignment_group_id) VALUES ($1, $2, $3, $4, $5);"
    }

    /// The statement that reads every row; its columns are the fields of an
    /// [`AssignmentRow`] in their order.
    pub fn select_rows() -> (statement: &'static str)
        ensures
            statement@
                == "SELECT id, course_id, name, points_possible, assignment_group_id FROM curr_assignments;"@,
    {
        "SELECT id, course_id, name, points_possible, assignment_group_id FROM curr_assignments;"
    }

    /// The paged resource from which the assignments of a course are fetched.
    pub fn resource(course_id: i32) -> (path: String)
        ensures
            path@ == course_path(course_id as int, "/assignments?"@),
    {
        course_resource_path(course_id, "/assignments?")
    }

    /// The row that caches this assignment of the given course.
    pub fn row(&self, course_id: i32) -> (row: AssignmentRow)
        ensures
            row@ == assignment_row(course_id, *self),
    {
        AssignmentRow {
            id: self.id,
            course_id,
            name: self.name.clone(),
            points_possible: self.points_possible,
            assignment_group_id: self.assignment_group_id,
        }
    }

    /// The rows that cache the fetched assignments of a course, one for
    /// each, in their order.
    pub fn load(course_id: i32, assignments: &Vec<Assignment>) -> (rows: Vec<AssignmentRow>)
        ensures
            rows@.len() == assignments@.len(),
            forall|i: int|
                0 <= i < assignments@.len() ==> (#[trigger] rows@[i])@ == assignment_row(
                    course_id,
                    assignments@[i],
                ),
    {
        let mut rows: Vec<AssignmentRow> = Vec::new();
        let mut i: usize = 0;
        while i < assignments.len()
            invariant
                i <= assignments.len(),
                rows@.len() == i,
                forall|k: int|
                    0 <= k < i ==> (#[trigger] rows@[k])@ == assignment_row(
                        course_id,
                        assignments@[k],
                    ),
            decreases assignments.len() - i,
        {
            rows.push(assignments[i].row(course_id));
            i = i + 1;
        }
        rows
    }
}

} // verus!
