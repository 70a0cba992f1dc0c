//! The module of the current courses: its commands, its refresh and its
//! reports.

use crate::data::assignment::AssignmentRow;
use crate::data::config::{configured_ids, Config};
use crate::data::course::CourseRow;
use crate::data::student::StudentRow;
use crate::data::submission::SubmissionRow;
use crate::data::text::{text_equal, text_le, text_views};
use crate::modules::module::{Command, ModuleTrait};
use crate::modules::order::{
    arranged, is_arrangement, is_ordered, key_views, sorted_order, SortKey,
};
use crate::modules::refresh::{Refresh, RefreshView};
use crate::modules::report::{
    assignment_keys, assignment_report, assignment_summaries, assignment_summary_views,
    student_keys, student_report, student_summaries, student_summary_views, AssignmentSummary,
    StudentSummary,
};
use vstd::prelude::*;
use vstd::string::StringExecFns;

verus! {

/// The module of the current courses.
#[derive(Debug)]
pub struct CurrentMod {
    config: Config,
}

/// The course that a short name stands for: the identifier of the last
/// configured course with that name.
pub open spec fn lookup_course(courses: Seq<(String, i32)>, name: Seq<char>) -> Option<i32>
    decreases courses.len(),
{
    if courses.len() == 0 {
        None
    } else if courses.last().0@ == name {
        Some(courses.last().1)
    } else {
        lookup_course(courses.drop_last(), name)
    }
}

/// Whether a report command asks for the student report or for the
/// assignment report.
pub open spec fn report_command(students: bool, course_id: i32) -> Command {
    if students {
        Command::Students(course_id)
    } else {
        Command::Grades(course_id)
    }
}

/// The command that asks for a report of the course that the second word
/// names.
pub open spec fn course_command(
    words: Seq<Seq<char>>,
    courses: Seq<(String, i32)>,
    students: bool,
) -> Command {
    if words.len() < 2 {
        Command::MissingCourse
    } else {
        match lookup_course(courses, words[1]) {
            Some(course_id) => report_command(students, course_id),
            None => Command::InvalidCourse,
        }
    }
}

/// The command that the given words ask for: `courses`, `students` with a
/// course, or `grades` with a course. Words after these are not read.
pub open spec fn current_command(words: Seq<Seq<char>>, courses: Seq<(String, i32)>) -> Command {
    if words.len() == 0 {
        Command::Unknown
    } else if words[0] == "courses"@ {
        Command::Courses
    } else if words[0] == "students"@ {
        course_command(words, courses, true)
    } else if words[0] == "grades"@ {
        course_command(words, courses, false)
    } else {
        Command::Unknown
    }
}

/// The line that lists the short names of the configured courses.
pub open spec fn course_names_line(courses: Seq<(String, i32)>) -> Seq<char>
    decreases courses.len(),
{
    if courses.len() == 0 {
        "     <course id> ="@
    } else {
        course_names_line(courses.drop_last()) + seq![' '] + courses.last().0@
    }
}

/// The lines that explain the commands of the module.
pub open spec fn current_help(courses: Seq<(String, i32)>) -> Seq<Seq<char>> {
    seq![
        "courses"@,
        "students <course id>"@,
        "grades <course id>"@,
        course_names_line(courses),
    ]
}

/// One line of the course list.
#[derive(Debug)]
pub struct CourseLine {
    pub code: String,
    pub term: String,
    pub students: i32,
}

/// The mathematical value of a [`CourseLine`].
pub struct CourseLineView {
    pub code: Seq<char>,
    pub term: Seq<char>,
    pub students: i32,
}

impl View for CourseLine {
    type V = CourseLineView;

    open spec fn view(&self) -> CourseLineView {
        CourseLineView { code: self.code@, term: self.term@, students: self.students }
    }
}

/// The views of the lines of a course list.
pub open spec fn course_line_views(lines: Seq<CourseLine>) -> Seq<CourseLineView> {
    lines.map_values(|line: CourseLine| line@)
}

/// The lines of the course list, in the order of the cached courses.
pub open spec fn course_lines(courses: Seq<CourseRow>) -> Seq<CourseLineView> {
    courses.map_values(
        |c: CourseRow| CourseLineView { code: c.code@, term: c.term@, students: c.students },
    )
}

/// What the lines of the course list are ordered by: the course code.
pub open spec fn course_keys(lines: Seq<CourseLineView>) -> Seq<(int, Seq<char>)> {
    Seq::new(lines.len(), |i: int| (0int, lines[i].code))
}

/// Whether a separator stands before each line of an assignment report: it
/// does where the assignment group differs from that of the line before.
/// The first line is taken to follow the group -1.
pub open spec fn group_starts(groups: Seq<i32>) -> Seq<bool> {
    Seq::new(
        groups.len(),
        |i: int|
            if i == 0 {
                groups[0] != -1
            } else {
                groups[i] != groups[i - 1]
            },
    )
}

/// The assignment groups of the lines of a report.
pub open spec fn line_groups(report: Seq<AssignmentSummary>) -> Seq<i32> {
    report.map_values(|line: AssignmentSummary| line.group)
}

impl CurrentMod {
    /// The module for the given configuration.
    pub fn new(config: Config) -> (module: Self)
        ensures
            module.config() == config,
    {
        CurrentMod { config }
    }

    /// The configuration of the module.
    pub closed spec fn config(&self) -> Config {
        self.config
    }

    /// The course that a short name stands for.
    pub fn course_id(&self, name: &str) -> (found: Option<i32>)
        ensures
            found == lookup_course(self.config().current_config.courses@, name@),
    {
        let courses = &self.config.current_config.courses;
        let mut i: usize = courses.len();
        assert(courses@.take(i as int) =~= courses@);
        while i > 0
            invariant
                i <= courses@.len(),
                courses@ == self.config().current_config.courses@,
                lookup_course(courses@, name@) == lookup_course(courses@.take(i as int), name@),
            decreases i,
        {
            let ghost seen = courses@.take(i as int);
            assert(seen.drop_last() =~= courses@.take(i - 1));
            if text_equal(courses[i - 1].0.as_str(), name) {
                return Some(courses[i - 1].1);
            }
            i = i - 1;
        }
        None
    }

    /// The command that asks for a report of the course that the second
    /// word names.
    fn course_cmd(&self, cmd: &Vec<String>, students: bool) -> (command: Command)
        ensures
            command == course_command(
                text_views(cmd@),
                self.config().current_config.courses@,
                students,
            ),
    {
        if cmd.len() < 2 {
            Command::MissingCourse
        } else {
            match self.course_id(cmd[1].as_str()) {
                Some(course_id) => if students {
                    Command::Students(course_id)
                } else {
                    Command::Grades(course_id)
                },
                None => Command::InvalidCourse,
            }
        }
    }

    /// The course list: one line for each cached course, ordered by course
    /// code.
    pub fn course_list(courses: &Vec<CourseRow>) -> (list: Vec<CourseLine>)
        ensures
            is_ordered(
                course_line_views(list@),
                course_lines(courses@),
                course_keys(course_lines(courses@)),
            ),
    {
        let ghost lines = course_lines(courses@);
        let mut keys: Vec<SortKey> = Vec::new();
        let mut i: usize = 0;
        while i < courses.len()
            invariant
                i <= courses.len(),
                lines == course_lines(courses@),
                keys@.len() == i,
                key_views(keys@) == course_keys(lines.take(i as int)),
            decreases courses.len() - i,
        {
            let ghost earlier = keys@;
            keys.push(SortKey { rank: 0, text: courses[i].code.clone() });
            i = i + 1;
            assert forall|j: int| 0 <= j < i implies key_views(keys@)[j] == course_keys(
                lines.take(i as int),
            )[j] by {
                if j < i - 1 {
                    assert(key_views(earlier)[j] == course_keys(lines.take(i - 1))[j]);
                }
            }
        }
        let order = sorted_order(&keys);
        let mut list: Vec<CourseLine> = Vec::new();
        let mut k: usize = 0;
        while k < order.len()
            invariant
                k <= order.len(),
                lines == course_lines(courses@),
                is_arrangement(order@, courses@.len()),
                list@.len() == k,
                course_line_views(list@) == arranged(lines, order@.take(k as int)),
            decreases order.len() - k,
        {
            let ghost before = list@;
            let course = &courses[order[k]];
            list.push(
                CourseLine {
                    code: course.code.clone(),
                    term: course.term.clone(),
                    students: course.students,
                },
            );
            k = k + 1;
            assert forall|j: int| 0 <= j < k implies course_line_views(list@)[j] == arranged(
                lines,
                order@.take(k as int),
            )[j] by {
                if j < k - 1 {
                    assert(course_line_views(before)[j] == arranged(lines, order@.take(k - 1))[j]);
                }
            }
        }
        list
    }

    /// The student report of a course, from the cached rows.
    pub fn students(
        students: &Vec<StudentRow>,
        assignments: &Vec<AssignmentRow>,
        submissions: &Vec<SubmissionRow>,
        course: i32,
    ) -> (report: Vec<StudentSummary>)
        ensures
            is_ordered(
                student_summary_views(report@),
                student_summaries(students@, assignments@, submissions@, course),
                student_keys(student_summaries(students@, assignments@, submissions@, course)),
            ),
    {
        student_report(students, assignments, submissions, course)
    }

    /// The assignment report of a course, from the cached rows.
    pub fn grades(
        assignments: &Vec<AssignmentRow>,
        students: &Vec<StudentRow>,
        submissions: &Vec<SubmissionRow>,
        course: i32,
    ) -> (report: Vec<AssignmentSummary>)
        ensures
            is_ordered(
                assignment_summary_views(report@),
                assignment_summaries(assignments@, students@, submissions@, course),
                assignment_keys(
                    assignment_summaries(assignments@, students@, submissions@, course),
                ),
            ),
    {
        assignment_report(assignments, students, submissions, course)
    }

    /// For each line of an assignment report, whether a separator stands
    /// before it.
    pub fn group_breaks(report: &Vec<AssignmentSummary>) -> (breaks: Vec<bool>)
        ensures
            breaks@ == group_starts(line_groups(report@)),
    {
        let mut breaks: Vec<bool> = Vec::new();
        let mut prev_group: i32 = -1;
        let mut i: usize = 0;
        while i < report.len()
            invariant
                i <= report.len(),
                breaks@ == group_starts(line_groups(report@)).take(i as int),
                prev_group == if i == 0 {
                    -1i32
                } else {
                    report@[i - 1].group
                },
            decreases report.len() - i,
        {
            breaks.push(prev_group != report[i].group);
            prev_group = report[i].group;
            i = i + 1;
        }
        breaks
    }
}

impl ModuleTrait for CurrentMod {
    open spec fn name(&self) -> Seq<char> {
        "Current"@
    }

    open spec fn command(&self, words: Seq<Seq<char>>) -> Command {
        current_command(words, self.config().current_config.courses@)
    }

    open spec fn course_ids(&self) -> Seq<i32> {
        configured_ids(self.config().current_config.courses@)
    }

    open spec fn help_lines(&self) -> Seq<Seq<char>> {
        current_help(self.config().current_config.courses@)
    }

    fn get_name(&self) -> (name: String) {
        String::from_str("Current")
    }

    fn process_cmd(&self, cmd: &Vec<String>) -> (command: Command) {
        if cmd.len() == 0 {
            return Command::Unknown;
        }
        let first = cmd[0].as_str();
        if text_equal(first, "courses") {
            Command::Courses
        } else if text_equal(first, "students") {
            self.course_cmd(cmd, true)
        } else if text_equal(first, "grades") {
            self.course_cmd(cmd, false)
        } else {
            Command::Unknown
        }
    }

    fn refresh(&self) -> (refresh: Refresh) {
        let course_ids = self.config.current_config.course_ids();
        Refresh::new(&course_ids)
    }

    fn help(&self) -> (lines: Vec<String>) {
        let courses = &self.config.current_config.courses;
        let mut names = String::from_str("     <course id> =");
        let mut i: usize = 0;
        while i < courses.len()
            invariant
                i <= courses.len(),
                names@ == course_names_line(courses@.take(i as int)),
            decreases courses.len() - i,
        {
            proof {
                reveal_strlit(" ");
                let seen = courses@.take(i + 1);
                assert(seen.drop_last() =~= courses@.take(i as int));
            }
            names.append(" ");
            names.append(courses[i].0.as_str());
            i = i + 1;
        }
        assert(courses@.take(i as int) =~= courses@);
        let mut lines: Vec<String> = Vec::new();
        lines.push(String::from_str("courses"));
        lines.push(String::from_str("students <course id>"));
        lines.push(String::from_str("grades <course id>"));
        lines.push(names);
        lines
    }
}

} // verus!
