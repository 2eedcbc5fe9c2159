use taskwire::tasks::{add_new_task, show_tasks, Task};

const FMT_ERR: &str = "Invalid argument format. Use YYYY-MM-DD:HH:MM:Task Name.";
const DT_ERR: &str = "Invalid date/time format. Ensure date is YYYY-MM-DD and time is HH:MM.";

#[test]
fn builds_task_from_well_formed_args() {
    let t = add_new_task("2025-11-19:08:00:Wake up").unwrap();
    assert_eq!(t.datetime, "2025-11-19:08:00");
    assert_eq!(t.name, "Wake up");
    assert!(!t.notified);
}

#[test]
fn name_keeps_its_own_colons() {
    let t = add_new_task("2025-01-02:23:59:a:b:c").unwrap();
    assert_eq!(t.datetime, "2025-01-02:23:59");
    assert_eq!(t.name, "a:b:c");
}

#[test]
fn name_is_trimmed() {
    let t = add_new_task("2025-01-02:10:30:  spaced out \t ").unwrap();
    assert_eq!(t.name, "spaced out");
    let t = add_new_task("2025-01-02:10:30:   ").unwrap();
    assert_eq!(t.name, "");
}

#[test]
fn too_few_fields_is_a_format_error() {
    assert_eq!(add_new_task("2025-11-19:08").unwrap_err(), FMT_ERR);
    assert_eq!(add_new_task("").unwrap_err(), FMT_ERR);
    assert_eq!(add_new_task("no colons here").unwrap_err(), FMT_ERR);
}

#[test]
fn bad_dates_are_rejected() {
    assert_eq!(add_new_task("2025-02-30:08:00:x").unwrap_err(), DT_ERR);
    assert_eq!(add_new_task("2025-13-01:08:00:x").unwrap_err(), DT_ERR);
    assert_eq!(add_new_task("2025-00-10:08:00:x").unwrap_err(), DT_ERR);
    assert_eq!(add_new_task("2025-04-31:08:00:x").unwrap_err(), DT_ERR);
    assert_eq!(add_new_task("25-04-30:08:00:x").unwrap_err(), DT_ERR);
    assert_eq!(add_new_task("2025/04/30:08:00:x").unwrap_err(), DT_ERR);
}

#[test]
fn leap_years_are_honoured() {
    assert!(add_new_task("2024-02-29:00:00:x").is_ok());
    assert_eq!(add_new_task("2025-02-29:00:00:x").unwrap_err(), DT_ERR);
    assert_eq!(add_new_task("1900-02-29:00:00:x").unwrap_err(), DT_ERR);
    assert!(add_new_task("2000-02-29:00:00:x").is_ok());
}

#[test]
fn bad_times_are_rejected() {
    assert_eq!(add_new_task("2025-11-19:24:00:x").unwrap_err(), DT_ERR);
    assert_eq!(add_new_task("2025-11-19:08:60:x").unwrap_err(), DT_ERR);
    assert_eq!(add_new_task("2025-11-19:8:00:x").unwrap_err(), DT_ERR);
    assert_eq!(add_new_task("2025-11-19:ab:00:x").unwrap_err(), DT_ERR);
    assert!(add_new_task("2025-11-19:23:59:x").is_ok());
    assert!(add_new_task("2025-11-19:00:00:x").is_ok());
}

#[test]
fn empty_list_has_fixed_display() {
    assert_eq!(show_tasks(Vec::new()), "No scheduled tasks.");
}

#[test]
fn list_display_numbers_and_marks_tasks() {
    let tasks = vec![
        Task {
            datetime: String::from("2025-11-19:08:00"),
            name: String::from("Wake up"),
            notified: false,
        },
        Task {
            datetime: String::from("2025-11-20:12:30"),
            name: String::from("Lunch"),
            notified: true,
        },
    ];
    let shown = show_tasks(tasks);
    let expected = "--- Scheduled Tasks ---\n\
                    1. 2025-11-19:08:00 | Wake up [PENDING]\n\
                    2. 2025-11-20:12:30 | Lunch [DONE]\n\
                    -----------------------";
    assert_eq!(shown, expected);
}
