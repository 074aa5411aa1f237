use slurm_harray::{
    creation_succeeded, join, output_path, parameter_dir, prefixed_path, resolve_location,
    should_write_parameter_file, DirCreation,
};

#[test]
fn join_adds_one_separator() {
    assert_eq!(join("/data/logs", "abc"), "/data/logs/abc");
    assert_eq!(join("/data/logs/", "abc"), "/data/logs/abc");
    assert_eq!(join("", "abc"), "abc");
    assert_eq!(join("/data/logs", "/abs"), "/abs");
}

#[test]
fn parameter_directory() {
    assert_eq!(parameter_dir("/data/logs/", "QMCICVx"), "/data/logs/QMCICVx");
}

#[test]
fn output_paths() {
    assert_eq!(output_path("/data/logs/P", None, "parameters.json"), "/data/logs/P/parameters.json");
    assert_eq!(output_path("/data/logs/P", Some("IDX001"), "index.json"), "/data/logs/P/IDX001-index.json");
    assert_eq!(prefixed_path("/data/logs/P", "IDX001", ".err"), "/data/logs/P/IDX001.err");
}

#[test]
fn directory_already_existing_is_success() {
    assert!(creation_succeeded(DirCreation::Created));
    assert!(creation_succeeded(DirCreation::AlreadyExists));
    assert!(!creation_succeeded(DirCreation::Failed));
}

#[test]
fn resolving_twice_succeeds_both_times() {
    let first = resolve_location(DirCreation::Created, "/data/logs/P", Some("I"), "out.csv");
    let second = resolve_location(DirCreation::AlreadyExists, "/data/logs/P", Some("I"), "out.csv");
    assert_eq!(first, Some(String::from("/data/logs/P/I-out.csv")));
    assert_eq!(first, second);
}

#[test]
fn resolving_fails_on_other_errors() {
    assert_eq!(resolve_location(DirCreation::Failed, "/data/logs/P", None, "out.csv"), None);
}

#[test]
fn parameter_file_written_once() {
    assert!(should_write_parameter_file(false));
    assert!(!should_write_parameter_file(true));
}
