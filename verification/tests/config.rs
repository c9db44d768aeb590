use meilisearch_cli::config::{
    current_project_line, entered_api_key, remote_project, Config, ConfigErrorKind, Project,
};

#[test]
fn test_default_config() {
    let config = Config::default();
    assert_eq!(config.default, "local");
    assert!(config.projects.contains_key("local"));
    let local = config.projects.get("local").unwrap();
    assert_eq!(local.url, "http://127.0.0.1:7700");
    assert_eq!(local.project_type.as_deref(), Some("local"));
}

#[test]
fn test_add_project() {
    let mut config = Config::default();
    let project = Project {
        project_type: None,
        url: "https://prod.example.com".to_string(),
        api_key: Some("key123".to_string()),
        data_dir: None,
        binary: None,
    };
    config
        .projects
        .insert("production".to_string(), project.clone());
    assert!(config.projects.contains_key("production"));
    assert_eq!(
        config.projects.get("production").unwrap().url,
        "https://prod.example.com"
    );
}

#[test]
fn test_get_project_default() {
    let config = Config::default();
    let (name, project) = config.get_project(None).unwrap();
    assert_eq!(name, "local");
    assert_eq!(project.url, "http://127.0.0.1:7700");
}

#[test]
fn test_get_project_not_found() {
    let config = Config::default();
    assert!(config.get_project(Some("nonexistent")).is_err());
}

#[test]
fn test_set_default_nonexistent() {
    let mut config = Config::default();
    assert!(config.set_default("nonexistent").is_err());
}

fn staging() -> Project {
    remote_project("http://staging.example.com".to_string(), None)
}

#[test]
fn added_project_is_found_by_name() {
    let mut config = Config::default();
    config.add_project("staging".to_string(), staging()).unwrap();
    let (name, p) = config.get_project(Some("staging")).unwrap();
    assert_eq!(name, "staging");
    assert_eq!(p.url, "http://staging.example.com");
    assert_eq!(config.projects.len(), 2);
}

#[test]
fn adding_a_taken_name_is_refused() {
    let mut config = Config::default();
    let err = config.add_project("local".to_string(), staging()).unwrap_err();
    assert_eq!(err.kind, ConfigErrorKind::AlreadyExists);
    assert_eq!(err.message(), "Project 'local' already exists. Remove it first.");
    assert_eq!(config.projects.len(), 1);
}

#[test]
fn removed_project_is_gone() {
    let mut config = Config::default();
    config.add_project("staging".to_string(), staging()).unwrap();
    config.remove_project("staging").unwrap();
    assert!(!config.projects.contains_key("staging"));
    let err = config.get_project(Some("staging")).unwrap_err();
    assert_eq!(
        err.message(),
        "Project 'staging' not found. Run `msc project list` to see available projects."
    );
}

#[test]
fn removing_the_default_is_refused() {
    let mut config = Config::default();
    let err = config.remove_project("local").unwrap_err();
    assert_eq!(err.kind, ConfigErrorKind::RemovingDefault);
    assert_eq!(
        err.message(),
        "Cannot remove the default project 'local'. Set a different default first."
    );
    assert!(config.projects.contains_key("local"));
}

#[test]
fn removing_an_unknown_project_is_refused() {
    let mut config = Config::default();
    let err = config.remove_project("ghost").unwrap_err();
    assert_eq!(err.kind, ConfigErrorKind::NotFound);
    assert_eq!(err.message(), "Project 'ghost' not found.");
}

#[test]
fn set_default_switches_the_default() {
    let mut config = Config::default();
    config.add_project("staging".to_string(), staging()).unwrap();
    config.set_default("staging").unwrap();
    assert_eq!(config.default, "staging");
    let (name, _) = config.get_project(None).unwrap();
    assert_eq!(name, "staging");
    // the former default can now be removed
    config.remove_project("local").unwrap();
    assert_eq!(config.projects.len(), 1);
}

#[test]
fn project_list_lines_mark_default_and_keys() {
    let mut config = Config::default();
    let keyed = remote_project("https://a.example".to_string(), Some("k".to_string()));
    config.add_project("alpha".to_string(), keyed).unwrap();
    let lines = config.project_list_lines();
    assert_eq!(
        lines,
        vec![
            "  alpha — https://a.example [api key set]".to_string(),
            "  local (default) — http://127.0.0.1:7700".to_string(),
        ]
    );
}

#[test]
fn current_project_line_names_project_and_url() {
    let config = Config::default();
    let (name, p) = config.get_project(None).unwrap();
    assert_eq!(current_project_line(name, p), "local — http://127.0.0.1:7700");
}

#[test]
fn empty_api_key_prompt_means_none() {
    assert_eq!(entered_api_key(String::new()), None);
    assert_eq!(entered_api_key("abc".to_string()), Some("abc".to_string()));
}
