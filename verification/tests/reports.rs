use horizons::data::assignment::AssignmentRow;
use horizons::data::course::CourseRow;
use horizons::data::student::StudentRow;
use horizons::data::submission::SubmissionRow;
use horizons::modules::current_mod::CurrentMod;
use horizons::modules::report::{
    assignment_report, grade_bucket, student_report, Bucket, Ratio,
};

fn assignment(id: i32, course_id: i32, name: &str, points: i32, group: i32) -> AssignmentRow {
    AssignmentRow {
        id,
        course_id,
        name: name.to_string(),
        points_possible: points,
        assignment_group_id: group,
    }
}

fn student(id: i32, course_id: i32, name: &str, grade: &str, score: i32) -> StudentRow {
    StudentRow {
        id,
        course_id,
        name: name.to_string(),
        curr_grade: grade.to_string(),
        curr_score: score,
    }
}

fn submission(id: i32, assignment_id: i32, user_id: i32, score: Option<i32>) -> SubmissionRow {
    SubmissionRow {
        id,
        assignment_id,
        user_id,
        score,
        excused: false,
        missing: false,
        late: false,
        attempt: 1,
        current_submission: true,
    }
}

fn value(ratio: Option<Ratio>) -> f64 {
    let r = ratio.unwrap();
    r.num as f64 / r.den as f64
}

#[test]
fn end_to_end_assignment_summary() {
    let students = vec![student(1, 101, "Ada", "A", 95), student(2, 101, "Bob", "F", 40)];
    let assignments = vec![assignment(10, 101, "Quiz 1", 100, 1)];
    let submissions = vec![submission(1, 10, 1, Some(95)), submission(2, 10, 2, Some(40))];
    let report = assignment_report(&assignments, &students, &submissions, 101);
    assert_eq!(report.len(), 1);
    let line = &report[0];
    assert_eq!(line.name, "Quiz 1");
    assert_eq!(line.counts.submitted, 2);
    assert_eq!(line.grades.grade_a, 1);
    assert_eq!(line.grades.grade_b, 0);
    assert_eq!(line.grades.grade_c, 0);
    assert_eq!(line.grades.grade_d, 0);
    assert_eq!(line.grades.grade_f, 1);
    assert_eq!(line.grades.grade_zero, 0);
    assert_eq!(value(line.avg_score), 67.5);
    assert_eq!(value(line.avg_grade), 67.5);
    assert_eq!(value(line.avg_grade_nonzero), 67.5);
    assert_eq!(line.avg_score, Some(Ratio { num: 135, den: 2 }));
    assert_eq!(line.avg_grade, Some(Ratio { num: 13500, den: 200 }));
}

#[test]
fn bucket_boundaries() {
    let p = 100;
    assert_eq!(grade_bucket(100, p), Some(Bucket::A));
    assert_eq!(grade_bucket(90, p), Some(Bucket::A));
    assert_eq!(grade_bucket(89, p), Some(Bucket::B));
    assert_eq!(grade_bucket(80, p), Some(Bucket::B));
    assert_eq!(grade_bucket(79, p), Some(Bucket::C));
    assert_eq!(grade_bucket(70, p), Some(Bucket::C));
    assert_eq!(grade_bucket(69, p), Some(Bucket::D));
    assert_eq!(grade_bucket(60, p), Some(Bucket::D));
    assert_eq!(grade_bucket(59, p), Some(Bucket::F));
    assert_eq!(grade_bucket(1, p), Some(Bucket::F));
    assert_eq!(grade_bucket(0, p), Some(Bucket::Zero));
    assert_eq!(grade_bucket(-1, p), None);
    assert_eq!(grade_bucket(250, p), Some(Bucket::A));
}

#[test]
fn bucket_boundaries_that_are_no_whole_numbers() {
    // With 15 points possible the letters begin at 13.5, 12, 10.5 and 9.
    assert_eq!(grade_bucket(14, 15), Some(Bucket::A));
    assert_eq!(grade_bucket(13, 15), Some(Bucket::B));
    assert_eq!(grade_bucket(12, 15), Some(Bucket::B));
    assert_eq!(grade_bucket(11, 15), Some(Bucket::C));
    assert_eq!(grade_bucket(10, 15), Some(Bucket::D));
    assert_eq!(grade_bucket(9, 15), Some(Bucket::D));
    assert_eq!(grade_bucket(8, 15), Some(Bucket::F));
    assert_eq!(grade_bucket(i32::MAX, i32::MAX), Some(Bucket::A));
    assert_eq!(grade_bucket(1, i32::MAX), Some(Bucket::F));
}

#[test]
fn every_score_has_exactly_one_bucket() {
    for points in [1, 3, 10, 15, 100, 997] {
        for score in 0..=(2 * points) {
            let in_a = 10 * score >= 9 * points;
            let in_b = 10 * score >= 8 * points && 10 * score < 9 * points;
            let in_c = 10 * score >= 7 * points && 10 * score < 8 * points;
            let in_d = 10 * score >= 6 * points && 10 * score < 7 * points;
            let in_f = score > 0 && 10 * score < 6 * points;
            let zero = score == 0;
            let hits = [in_a, in_b, in_c, in_d, in_f, zero].iter().filter(|b| **b).count();
            assert_eq!(hits, 1);
            let expected = if in_a {
                Bucket::A
            } else if in_b {
                Bucket::B
            } else if in_c {
                Bucket::C
            } else if in_d {
                Bucket::D
            } else if in_f {
                Bucket::F
            } else {
                Bucket::Zero
            };
            assert_eq!(grade_bucket(score, points), Some(expected));
        }
    }
}

#[test]
fn assignment_counts_and_means() {
    let students = vec![
        student(1, 7, "Ada", "A", 9500),
        student(2, 7, "Bob", "B", 8000),
        student(3, 7, "Cy", "C", 7000),
        student(4, 7, "Dee", "D", 6000),
        student(5, 7, "Eve", "F", 1000),
    ];
    let assignments = vec![assignment(10, 7, "Essay", 50, 3)];
    let mut submissions = vec![
        submission(1, 10, 1, Some(50)),
        submission(2, 10, 2, Some(42)),
        submission(3, 10, 3, Some(0)),
        submission(4, 10, 4, None),
        submission(5, 10, 5, None),
    ];
    submissions[2].missing = true;
    submissions[3].attempt = 0;
    submissions[3].excused = true;
    submissions[4].attempt = 2;
    submissions[4].current_submission = false;
    let report = assignment_report(&assignments, &students, &submissions, 7);
    assert_eq!(report.len(), 1);
    let line = &report[0];
    assert_eq!(line.group, 3);
    assert_eq!(line.points_possible, 50);
    assert_eq!(line.counts.rows, 5);
    assert_eq!(line.counts.submitted, 4);
    assert_eq!(line.counts.missing, 1);
    assert_eq!(line.counts.excused, 1);
    assert_eq!(line.counts.ungraded_init, 1);
    assert_eq!(line.counts.ungraded_resubmit, 1);
    assert_eq!(line.grades.grade_a, 1);
    assert_eq!(line.grades.grade_b, 1);
    assert_eq!(line.grades.grade_zero, 1);
    assert_eq!(line.grades.grade_f, 0);
    assert_eq!(line.grades.graded, 3);
    assert_eq!(line.grades.nonzero, 2);
    assert_eq!(line.grades.score_total, 92);
    assert_eq!(line.avg_score, Some(Ratio { num: 92, den: 3 }));
    assert_eq!(line.avg_grade, Some(Ratio { num: 9200, den: 150 }));
    assert_eq!(line.avg_grade_nonzero, Some(Ratio { num: 9200, den: 100 }));
    assert_eq!(value(line.avg_grade_nonzero), 92.0);
}

#[test]
fn assignment_without_scores_has_no_means() {
    let students = vec![student(1, 7, "Ada", "", 0)];
    let assignments = vec![assignment(10, 7, "Essay", 50, 3)];
    let submissions = vec![submission(1, 10, 1, None)];
    let report = assignment_report(&assignments, &students, &submissions, 7);
    assert_eq!(report.len(), 1);
    assert_eq!(report[0].avg_score, None);
    assert_eq!(report[0].avg_grade, None);
    assert_eq!(report[0].avg_grade_nonzero, None);
}

#[test]
fn only_zero_scores_have_no_nonzero_mean() {
    let students = vec![student(1, 7, "Ada", "", 0)];
    let assignments = vec![assignment(10, 7, "Essay", 50, 3)];
    let submissions = vec![submission(1, 10, 1, Some(0))];
    let report = assignment_report(&assignments, &students, &submissions, 7);
    assert_eq!(report[0].avg_score, Some(Ratio { num: 0, den: 1 }));
    assert_eq!(report[0].avg_grade, Some(Ratio { num: 0, den: 50 }));
    assert_eq!(report[0].avg_grade_nonzero, None);
    assert_eq!(report[0].grades.grade_zero, 1);
}

#[test]
fn assignments_without_positive_points_are_left_out() {
    let students = vec![student(1, 7, "Ada", "", 0)];
    let assignments = vec![
        assignment(10, 7, "Practice", 0, 1),
        assignment(11, 7, "Penalty", -5, 1),
        assignment(12, 7, "Real", 10, 1),
    ];
    let submissions = vec![
        submission(1, 10, 1, Some(3)),
        submission(2, 11, 1, Some(3)),
        submission(3, 12, 1, Some(3)),
    ];
    let report = assignment_report(&assignments, &students, &submissions, 7);
    assert_eq!(report.len(), 1);
    assert_eq!(report[0].name, "Real");
    let by_student = student_report(&students, &assignments, &submissions, 7);
    assert_eq!(by_student.len(), 1);
    assert_eq!(by_student[0].counts.rows, 1);
    assert_eq!(by_student[0].counts.submitted, 1);
}

#[test]
fn orphans_and_other_courses_are_passed_over() {
    let students = vec![student(1, 7, "Ada", "A", 90), student(2, 8, "Bob", "B", 80)];
    let assignments = vec![
        assignment(10, 7, "Essay", 50, 3),
        assignment(20, 8, "Other", 50, 3),
        assignment(30, 7, "Unsubmitted", 50, 3),
    ];
    let submissions = vec![
        submission(1, 10, 1, Some(50)),
        // a student who is not cached
        submission(2, 10, 77, Some(10)),
        // a student of another course
        submission(3, 10, 2, Some(10)),
        // an assignment that is not cached
        submission(4, 99, 1, Some(10)),
        // an assignment of another course
        submission(5, 20, 1, Some(10)),
    ];
    let report = assignment_report(&assignments, &students, &submissions, 7);
    assert_eq!(report.len(), 1);
    assert_eq!(report[0].name, "Essay");
    assert_eq!(report[0].counts.rows, 1);
    assert_eq!(report[0].grades.score_total, 50);
    let by_student = student_report(&students, &assignments, &submissions, 7);
    assert_eq!(by_student.len(), 1);
    assert_eq!(by_student[0].name, "Ada");
    assert_eq!(by_student[0].counts.rows, 1);
    let other = assignment_report(&assignments, &students, &submissions, 8);
    assert_eq!(other.len(), 0);
}

#[test]
fn assignment_report_is_ordered_by_group_then_name() {
    let students = vec![student(1, 7, "Ada", "A", 90)];
    let assignments = vec![
        assignment(1, 7, "Zeta", 10, 2),
        assignment(2, 7, "Alpha", 10, 2),
        assignment(3, 7, "Quiz 10", 10, 1),
        assignment(4, 7, "Quiz 2", 10, 1),
        assignment(5, 7, "Final", 10, -3),
        assignment(6, 7, "alpha", 10, 2),
    ];
    let submissions: Vec<SubmissionRow> =
        (1..=6).map(|a| submission(a, a, 1, Some(5))).collect();
    let report = assignment_report(&assignments, &students, &submissions, 7);
    let order: Vec<(i32, &str)> = report.iter().map(|l| (l.group, l.name.as_str())).collect();
    assert_eq!(
        order,
        vec![(-3, "Final"), (1, "Quiz 10"), (1, "Quiz 2"), (2, "Alpha"), (2, "Zeta"), (2, "alpha")]
    );
    assert_eq!(
        CurrentMod::group_breaks(&report),
        vec![true, true, false, true, false, false]
    );
    assert_eq!(CurrentMod::grades(&assignments, &students, &submissions, 7).len(), 6);
}

#[test]
fn first_line_of_group_minus_one_has_no_separator() {
    let students = vec![student(1, 7, "Ada", "A", 90)];
    let assignments = vec![assignment(1, 7, "Odd", 10, -1), assignment(2, 7, "Even", 10, 4)];
    let submissions = vec![submission(1, 1, 1, Some(5)), submission(2, 2, 1, Some(5))];
    let report = assignment_report(&assignments, &students, &submissions, 7);
    assert_eq!(CurrentMod::group_breaks(&report), vec![false, true]);
    assert_eq!(CurrentMod::group_breaks(&vec![]), Vec::<bool>::new());
}

#[test]
fn student_report_counts_and_order() {
    let students = vec![
        student(1, 7, "Cy", "B", 8000),
        student(2, 7, "Ada", "B", 8000),
        student(3, 7, "Bob", "A", 9500),
        student(4, 7, "Idle", "A", 9900),
        student(5, 7, "Low", "F", -100),
    ];
    let assignments = vec![assignment(10, 7, "Essay", 50, 3), assignment(11, 7, "Quiz", 10, 3)];
    let mut submissions = vec![
        submission(1, 10, 1, Some(40)),
        submission(2, 11, 1, None),
        submission(3, 10, 2, Some(40)),
        submission(4, 10, 3, Some(48)),
        submission(5, 11, 3, Some(9)),
        submission(6, 11, 5, None),
    ];
    submissions[1].missing = true;
    submissions[1].attempt = 0;
    submissions[4].excused = true;
    submissions[4].current_submission = false;
    let report = student_report(&students, &assignments, &submissions, 7);
    let names: Vec<&str> = report.iter().map(|l| l.name.as_str()).collect();
    assert_eq!(names, vec!["Bob", "Ada", "Cy", "Low"]);
    let bob = &report[0];
    assert_eq!((bob.curr_grade.as_str(), bob.curr_score), ("A", 9500));
    assert_eq!(bob.counts.rows, 2);
    assert_eq!(bob.counts.submitted, 2);
    assert_eq!(bob.counts.excused, 1);
    assert_eq!(bob.counts.ungraded_resubmit, 1);
    assert_eq!(bob.counts.ungraded_init, 0);
    let cy = &report[2];
    assert_eq!(cy.counts.rows, 2);
    assert_eq!(cy.counts.submitted, 1);
    assert_eq!(cy.counts.missing, 1);
    assert_eq!(cy.counts.ungraded_init, 0);
    let low = &report[3];
    assert_eq!(low.counts.ungraded_init, 1);
    assert_eq!(CurrentMod::students(&students, &assignments, &submissions, 7).len(), 4);
}

#[test]
fn equal_keys_keep_the_given_order() {
    let students = vec![
        student(1, 7, "Sam", "first", 50),
        student(2, 7, "Sam", "second", 50),
        student(3, 7, "Sam", "third", 50),
    ];
    let assignments = vec![assignment(10, 7, "Essay", 50, 3)];
    let submissions =
        vec![submission(1, 10, 3, None), submission(2, 10, 2, None), submission(3, 10, 1, None)];
    let report = student_report(&students, &assignments, &submissions, 7);
    let grades: Vec<&str> = report.iter().map(|l| l.curr_grade.as_str()).collect();
    assert_eq!(grades, vec!["first", "second", "third"]);
}

#[test]
fn negative_scores_count_for_the_mean_and_for_no_bucket() {
    let students = vec![student(1, 7, "Ada", "", 0), student(2, 7, "Bob", "", 0)];
    let assignments = vec![assignment(10, 7, "Essay", 10, 3)];
    let submissions = vec![submission(1, 10, 1, Some(-4)), submission(2, 10, 2, Some(10))];
    let report = assignment_report(&assignments, &students, &submissions, 7);
    let g = report[0].grades;
    assert_eq!(g.graded, 2);
    assert_eq!(g.grade_a + g.grade_b + g.grade_c + g.grade_d + g.grade_f + g.grade_zero, 1);
    assert_eq!(report[0].avg_score, Some(Ratio { num: 6, den: 2 }));
    assert_eq!(report[0].avg_grade_nonzero, Some(Ratio { num: 600, den: 20 }));
}

#[test]
fn empty_cache_gives_empty_reports() {
    assert!(assignment_report(&vec![], &vec![], &vec![], 1).is_empty());
    assert!(student_report(&vec![], &vec![], &vec![], 1).is_empty());
    assert!(CurrentMod::course_list(&vec![]).is_empty());
}

#[test]
fn course_list_is_ordered_by_code() {
    let row = |id: i32, code: &str, term: &str, students: i32| CourseRow {
        id,
        code: code.to_string(),
        concluded: false,
        term: term.to_string(),
        students,
    };
    let courses = vec![
        row(1, "MATH-201", "2024-4F", 30),
        row(2, "ART-100", "2024-4F", 12),
        row(3, "MATH-101", "2024-2S", 25),
    ];
    let list = CurrentMod::course_list(&courses);
    let shown: Vec<(&str, &str, i32)> =
        list.iter().map(|l| (l.code.as_str(), l.term.as_str(), l.students)).collect();
    assert_eq!(
        shown,
        vec![("ART-100", "2024-4F", 12), ("MATH-101", "2024-2S", 25), ("MATH-201", "2024-4F", 30)]
    );
}
