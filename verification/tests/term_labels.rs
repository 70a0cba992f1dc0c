use horizons::data::course::{Course, CourseTerm};

#[test]
fn fall_term_is_encoded() {
    assert_eq!(Course::convert_term("Fall 2024"), "2024-4F");
}

#[test]
fn spring_term_is_encoded() {
    assert_eq!(Course::convert_term("Spring 2023"), "2023-2S");
}

#[test]
fn winter_and_summer_terms_are_encoded() {
    assert_eq!(Course::convert_term("Winter 2025"), "2025-1W");
    assert_eq!(Course::convert_term("Summer 2022"), "2022-3M");
}

#[test]
fn unknown_season_gives_empty_label() {
    assert_eq!(Course::convert_term("Bogus 2024"), "");
}

#[test]
fn empty_term_gives_empty_label() {
    assert_eq!(Course::convert_term(""), "");
    assert_eq!(Course::convert_term("   \t "), "");
}

#[test]
fn season_without_year_keeps_the_period() {
    assert_eq!(Course::convert_term("Fall"), "-4F");
}

#[test]
fn white_space_around_the_words_is_skipped() {
    assert_eq!(Course::convert_term("  Fall \u{00A0}\t 2024  (Semester)"), "2024-4F");
}

#[test]
fn season_is_case_sensitive() {
    assert_eq!(Course::convert_term("fall 2024"), "");
    assert_eq!(Course::convert_term("Fall2024"), "");
}

#[test]
fn course_row_carries_the_label_and_the_size() {
    let course = Course {
        id: 101,
        course_code: "MATH-101".to_string(),
        concluded: false,
        term: CourseTerm { name: "Fall 2024".to_string() },
        total_students: Some(27),
    };
    let row = course.row();
    assert_eq!(row.id, 101);
    assert_eq!(row.code, "MATH-101");
    assert!(!row.concluded);
    assert_eq!(row.term, "2024-4F");
    assert_eq!(row.students, 27);
}

#[test]
fn course_without_size_has_no_students() {
    let course = Course {
        id: 7,
        course_code: "ART-7".to_string(),
        concluded: true,
        term: CourseTerm { name: "Nonsense".to_string() },
        total_students: None,
    };
    let rows = Course::load(&vec![course]);
    assert_eq!(rows.len(), 1);
    assert_eq!(rows[0].students, 0);
    assert_eq!(rows[0].term, "");
    assert!(rows[0].concluded);
}

#[test]
fn course_resource_names_the_course_and_its_includes() {
    assert_eq!(
        Course::resource(101),
        "/api/v1/courses/101?include[]=term&include[]=concluded&include[]=total_students"
    );
    assert_eq!(
        Course::resource(-5),
        "/api/v1/courses/-5?include[]=term&include[]=concluded&include[]=total_students"
    );
}
