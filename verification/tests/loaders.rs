use horizons::data::assignment::Assignment;
use horizons::data::student::{Enrollment, Grades, Student};
use horizons::data::submission::Submission;

fn student(id: i32, name: &str, grades: Option<Vec<(Option<&str>, Option<i32>)>>) -> Student {
    Student {
        id,
        name: name.to_string(),
        enrollments: grades.map(|list| {
            list.into_iter()
                .map(|(grade, score)| Enrollment {
                    grades: Grades {
                        current_grade: grade.map(|g| g.to_string()),
                        current_score: score,
                    },
                })
                .collect()
        }),
    }
}

#[test]
fn preview_student_is_left_out() {
    let fetched = vec![
        student(1, "Ada", Some(vec![(Some("A"), Some(9500))])),
        student(99, "Test Student", Some(vec![(None, None)])),
        student(2, "Bob", Some(vec![(Some("C"), Some(7100))])),
    ];
    let preview = student(99, "Test Student", None);
    let rows = Student::load(101, &fetched, &preview);
    assert_eq!(rows.len(), 2);
    assert_eq!(rows[0].id, 1);
    assert_eq!(rows[0].name, "Ada");
    assert_eq!(rows[1].id, 2);
    assert_eq!(rows[1].name, "Bob");
    assert!(rows.iter().all(|r| r.id != 99 && r.course_id == 101));
}

#[test]
fn every_student_is_kept_where_the_preview_student_is_absent() {
    let fetched = vec![student(1, "Ada", None), student(2, "Bob", None), student(3, "Cy", None)];
    let preview = student(99, "Test Student", None);
    let rows = Student::load(5, &fetched, &preview);
    assert_eq!(rows.iter().map(|r| r.id).collect::<Vec<i32>>(), vec![1, 2, 3]);
}

#[test]
fn every_record_with_the_preview_id_is_left_out() {
    let fetched = vec![student(99, "x", None), student(1, "Ada", None), student(99, "y", None)];
    let preview = student(99, "Test Student", None);
    let rows = Student::load(5, &fetched, &preview);
    assert_eq!(rows.len(), 1);
    assert_eq!(rows[0].id, 1);
}

#[test]
fn first_enrollment_gives_grade_and_score() {
    let s = student(4, "Dee", Some(vec![(Some("B+"), Some(8850)), (Some("F"), Some(100))]));
    let row = s.row(12);
    assert_eq!(row.id, 4);
    assert_eq!(row.course_id, 12);
    assert_eq!(row.name, "Dee");
    assert_eq!(row.curr_grade, "B+");
    assert_eq!(row.curr_score, 8850);
}

#[test]
fn student_without_enrollment_has_empty_grade_and_zero_score() {
    for s in [student(4, "Dee", None), student(4, "Dee", Some(vec![]))] {
        let row = s.row(12);
        assert_eq!(row.curr_grade, "");
        assert_eq!(row.curr_score, 0);
    }
}

#[test]
fn missing_grade_or_score_of_the_first_enrollment_is_defaulted() {
    let row = student(4, "Dee", Some(vec![(None, Some(500))])).row(1);
    assert_eq!(row.curr_grade, "");
    assert_eq!(row.curr_score, 500);
    let row = student(4, "Dee", Some(vec![(Some("A"), None), (Some("B"), Some(3))])).row(1);
    assert_eq!(row.curr_grade, "A");
    assert_eq!(row.curr_score, 0);
}

#[test]
fn student_resources_name_the_course() {
    assert_eq!(
        Student::resource(101),
        "/api/v1/courses/101/users?enrollment_type[]=student&include[]=total_scores&include[]=enrollments&enrollment_state[]=active&enrollment_state[]=invited&enrollment_state[]=completed"
    );
    assert_eq!(Student::preview_resource(101), "/api/v1/courses/101/student_view_student?");
}

#[test]
fn assignment_rows_carry_the_course() {
    let fetched = vec![
        Assignment {
            id: 10,
            name: "Quiz 1".to_string(),
            quiz_id: Some(3),
            points_possible: 100,
            assignment_group_id: 2,
        },
        Assignment {
            id: 11,
            name: "Essay".to_string(),
            quiz_id: None,
            points_possible: 0,
            assignment_group_id: 1,
        },
    ];
    let rows = Assignment::load(101, &fetched);
    assert_eq!(rows.len(), 2);
    assert_eq!(
        (rows[0].id, rows[0].course_id, rows[0].name.as_str(), rows[0].points_possible, rows[0].assignment_group_id),
        (10, 101, "Quiz 1", 100, 2)
    );
    assert_eq!(
        (rows[1].id, rows[1].course_id, rows[1].name.as_str(), rows[1].points_possible, rows[1].assignment_group_id),
        (11, 101, "Essay", 0, 1)
    );
    assert_eq!(Assignment::resource(101), "/api/v1/courses/101/assignments?");
}

#[test]
fn submission_rows_default_what_is_left_out() {
    let bare = Submission {
        id: 1,
        assignment_id: 10,
        user_id: 2,
        score: None,
        excused: None,
        missing: None,
        late: None,
        attempt: None,
        grade_matches_current_submission: None,
    };
    let row = bare.row();
    assert_eq!(row.id, 1);
    assert_eq!(row.assignment_id, 10);
    assert_eq!(row.user_id, 2);
    assert_eq!(row.score, None);
    assert!(!row.excused && !row.missing && !row.late && !row.current_submission);
    assert_eq!(row.attempt, 0);
}

#[test]
fn submission_rows_keep_what_is_given() {
    let full = Submission {
        id: 1,
        assignment_id: 10,
        user_id: 2,
        score: Some(95),
        excused: Some(true),
        missing: Some(false),
        late: Some(true),
        attempt: Some(3),
        grade_matches_current_submission: Some(true),
    };
    let rows = Submission::load(&vec![full]);
    assert_eq!(rows.len(), 1);
    let row = rows[0];
    assert_eq!(row.score, Some(95));
    assert!(row.excused && !row.missing && row.late && row.current_submission);
    assert_eq!(row.attempt, 3);
    assert_eq!(
        Submission::resource(101),
        "/api/v1/courses/101/students/submissions?student_ids[]=all&enrollment_state=active"
    );
}
