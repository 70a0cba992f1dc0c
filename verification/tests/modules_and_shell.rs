use horizons::data::assignment::Assignment;
use horizons::data::config::{Config, CurrentConfig, GeneralConfig};
use horizons::data::course::Course;
use horizons::data::error::{ErrorKind, SyncError};
use horizons::data::student::Student;
use horizons::data::submission::Submission;
use horizons::modules::current_mod::CurrentMod;
use horizons::modules::module::{Command, ModuleInfo, ModuleTrait, ModuleType};
use horizons::modules::order::{key_precedes, sorted_order, SortKey};
use horizons::modules::refresh::{Action, EntityKind, Step};
use horizons::shell::{ModuleChoice, Shell, ShellCommand};

fn module() -> CurrentMod {
    CurrentMod::new(Config {
        general: GeneralConfig {
            server: "https://school.example".to_string(),
            token: "SECRET-REDACTED".to_string(),
            postgres: "postgres://localhost/cache".to_string(),
            postgres_pool: 5,
        },
        current_config: CurrentConfig {
            exclude_zero_grades: true,
            courses: vec![
                ("math".to_string(), 101),
                ("bio".to_string(), 202),
                ("math".to_string(), 303),
            ],
        },
    })
}

fn words(line: &str) -> Vec<String> {
    horizons::data::text::split_words(line)
}

#[test]
fn module_commands_are_recognised() {
    let m = module();
    assert_eq!(m.process_cmd(&words("courses")), Command::Courses);
    assert_eq!(m.process_cmd(&words("students bio")), Command::Students(202));
    assert_eq!(m.process_cmd(&words("grades bio extra words")), Command::Grades(202));
    assert_eq!(m.process_cmd(&words("students")), Command::MissingCourse);
    assert_eq!(m.process_cmd(&words("grades")), Command::MissingCourse);
    assert_eq!(m.process_cmd(&words("grades chem")), Command::InvalidCourse);
    assert_eq!(m.process_cmd(&words("refresh")), Command::Unknown);
    assert_eq!(m.process_cmd(&words("")), Command::Unknown);
    assert_eq!(m.process_cmd(&words("Courses")), Command::Unknown);
}

#[test]
fn last_configured_course_of_a_name_is_found() {
    let m = module();
    assert_eq!(m.course_id("math"), Some(303));
    assert_eq!(m.course_id("bio"), Some(202));
    assert_eq!(m.course_id("chem"), None);
    assert_eq!(m.process_cmd(&words("students math")), Command::Students(303));
}

#[test]
fn only_unknown_commands_are_left_to_the_shell() {
    assert!(Command::Courses.handled());
    assert!(Command::Students(1).handled());
    assert!(Command::Grades(1).handled());
    assert!(Command::InvalidCourse.handled());
    assert!(Command::MissingCourse.handled());
    assert!(!Command::Unknown.handled());
}

#[test]
fn module_name_and_help() {
    let m = module();
    assert_eq!(m.get_name(), "Current");
    assert_eq!(
        m.help(),
        vec![
            "courses".to_string(),
            "students <course id>".to_string(),
            "grades <course id>".to_string(),
            "     <course id> = math bio math".to_string(),
        ]
    );
}

#[test]
fn module_refresh_covers_every_configured_course() {
    let m = module();
    let mut refresh = m.refresh();
    let mut steps = Vec::new();
    while let Action::Run(step) = refresh.action() {
        steps.push(step);
        refresh.report(horizons::modules::refresh::Outcome::Succeeded);
    }
    assert_eq!(steps.len(), 8 + 7 * 3);
    assert_eq!(steps[0], Step::DropTable(EntityKind::Course));
    assert_eq!(&steps[8..11], &[Step::LoadCourse(101), Step::LoadCourse(202), Step::LoadCourse(303)]);
}

#[test]
fn shell_commands_are_recognised() {
    assert_eq!(Shell::interpret(&words("refresh")), ShellCommand::Refresh);
    assert_eq!(Shell::interpret(&words("help me")), ShellCommand::Help);
    assert_eq!(Shell::interpret(&words("exit")), ShellCommand::Exit);
    assert_eq!(Shell::interpret(&words("module")), ShellCommand::Module(ModuleChoice::List));
    assert_eq!(
        Shell::interpret(&words("module current")),
        ShellCommand::Module(ModuleChoice::Switch(ModuleType::Current))
    );
    assert_eq!(
        Shell::interpret(&words("module past")),
        ShellCommand::Module(ModuleChoice::Invalid)
    );
    assert_eq!(Shell::interpret(&words("quit")), ShellCommand::Invalid);
    assert_eq!(Shell::interpret(&words("  ")), ShellCommand::Nothing);
    assert_eq!(Shell::module_cmd(&words("module current")), ModuleChoice::Switch(ModuleType::Current));
}

#[test]
fn shell_texts() {
    assert_eq!(Shell::prompt("Current"), "Current> ");
    assert_eq!(
        Shell::help(),
        vec![
            "refresh : reload data for current module".to_string(),
            "help : show module specific and general command".to_string(),
            "exit : close the program".to_string(),
        ]
    );
    let (info, _) = ModuleInfo::new(None);
    let mut shell = Shell::new(info);
    assert_eq!(shell.selected, ModuleType::Current);
    assert_eq!(shell.module_line("Current", &ModuleType::Current), "Current - Not Refreshed");
    shell.module_info.mark_refreshed(&ModuleType::Current, "02/04/2017 12:50".to_string());
    assert_eq!(shell.module_line("Current", &ModuleType::Current), "Current - 02/04/2017 12:50");
    shell.select(ModuleType::Current);
    assert_eq!(shell.selected, ModuleType::Current);
}

#[test]
fn new_record_is_to_be_stored_and_a_stored_one_is_kept() {
    let (fresh, store) = ModuleInfo::new(None);
    assert!(store);
    assert_eq!(fresh.current_mod_refresh, None);
    assert_eq!(fresh.get_module_refresh(&ModuleType::Current), None);
    let stored = ModuleInfo { current_mod_refresh: Some("01/01/2024 08:00".to_string()) };
    let (kept, store) = ModuleInfo::new(Some(stored));
    assert!(!store);
    assert_eq!(kept.get_module_refresh(&ModuleType::Current), Some("01/01/2024 08:00".to_string()));
}

fn looks_like_a_stamp(stamp: &str) -> bool {
    let bytes = stamp.as_bytes();
    bytes.len() == 16
        && bytes.iter().enumerate().all(|(i, b)| match i {
            2 | 5 => *b == b'/',
            10 => *b == b' ',
            13 => *b == b':',
            _ => b.is_ascii_digit(),
        })
}

#[test]
fn update_refresh_records_the_time_of_now() {
    let (mut info, _) = ModuleInfo::new(None);
    info.update_refresh(&ModuleType::Current);
    let stamp = info.get_module_refresh(&ModuleType::Current).unwrap();
    assert!(looks_like_a_stamp(&stamp), "unexpected stamp {:?}", stamp);
    assert_ne!(stamp, "%d/%m/%Y %H:%M");
}

#[test]
fn failed_refresh_leaves_the_record_as_it_is() {
    let failure: Result<(), SyncError> =
        Err(SyncError::new(ErrorKind::Store, "Student SQL Failure", "boom"));
    let (mut info, _) = ModuleInfo::new(None);
    assert!(!info.refresh_ended(&ModuleType::Current, &failure));
    assert_eq!(info.current_mod_refresh, None);
    info.mark_refreshed(&ModuleType::Current, "01/01/2024 08:00".to_string());
    assert!(!info.refresh_ended(&ModuleType::Current, &failure));
    assert_eq!(info.current_mod_refresh, Some("01/01/2024 08:00".to_string()));
    let mut shell = Shell::new(info);
    assert!(!shell.refresh_ended(&failure));
    assert_eq!(shell.module_info.current_mod_refresh, Some("01/01/2024 08:00".to_string()));
}

#[test]
fn successful_refresh_is_recorded() {
    let (info, _) = ModuleInfo::new(None);
    let mut shell = Shell::new(info);
    assert!(shell.refresh_ended(&Ok(())));
    let stamp = shell.module_info.get_module_refresh(&ModuleType::Current).unwrap();
    assert!(looks_like_a_stamp(&stamp));
}

fn key(rank: i64, text: &str) -> SortKey {
    SortKey { rank, text: text.to_string() }
}

#[test]
fn keys_are_ordered_by_rank_then_text() {
    assert!(key_precedes(&key(1, "z"), &key(2, "a")));
    assert!(!key_precedes(&key(2, "a"), &key(1, "z")));
    assert!(key_precedes(&key(1, "a"), &key(1, "b")));
    assert!(key_precedes(&key(1, "a"), &key(1, "a")));
    assert!(!key_precedes(&key(1, "b"), &key(1, "a")));
}

#[test]
fn sorted_order_is_stable() {
    let keys = vec![key(2, "b"), key(1, "x"), key(2, "a"), key(1, "x"), key(0, ""), key(2, "a")];
    assert_eq!(sorted_order(&keys), vec![4, 1, 3, 2, 5, 0]);
    assert_eq!(sorted_order(&vec![]), Vec::<usize>::new());
}

#[test]
fn table_statements_name_the_tables() {
    assert_eq!(Course::drop_table(), "DROP TABLE IF EXISTS curr_courses;");
    assert_eq!(Assignment::drop_table(), "DROP TABLE IF EXISTS curr_assignments;");
    assert_eq!(Student::drop_table(), "DROP TABLE IF EXISTS curr_students;");
    assert_eq!(Submission::drop_table(), "DROP TABLE IF EXISTS curr_submissions;");
    assert_eq!(
        Course::create_table(),
        "CREATE TABLE curr_courses(id INT, code TEXT, concluded BOOLEAN, term TEXT, students INT);"
    );
    assert!(Assignment::create_table().starts_with("CREATE TABLE curr_assignments("));
    assert!(Student::create_table().starts_with("CREATE TABLE curr_students("));
    assert!(Submission::create_table().starts_with("CREATE TABLE curr_submissions("));
    assert!(Course::insert_row().starts_with("INSERT INTO curr_courses "));
    assert!(Assignment::insert_row().starts_with("INSERT INTO curr_assignments "));
    assert!(Student::insert_row().starts_with("INSERT INTO curr_students "));
    assert!(Submission::insert_row().ends_with("VALUES ($1, $2, $3, $4, $5, $6, $7, $8, $9);"));
    assert!(Course::select_rows().ends_with("FROM curr_courses;"));
    assert!(Assignment::select_rows().ends_with("FROM curr_assignments;"));
    assert!(Student::select_rows().ends_with("FROM curr_students;"));
    assert!(Submission::select_rows().ends_with("FROM curr_submissions;"));
}
