use prawjector::config::{
    add_project_to_config_with_home, capitalize_word, compress_path, compress_path_with_home,
    config_path_from_arg, config_path_from_arg_with_home, default_config_path, is_confirmed,
    matching_projects_with_home, name_from_path, project_from_add_options,
    project_path_from_add_options, remove_confirmation_prompt_with_home,
    remove_projects_for_path, remove_projects_for_path_with_home, removal_message_with_home, validate_config, AddOutcome,
    AddProjectOptions, Config, ConfigPathError, Project, Tab,
};
use prawjector::config::{expand_path, expand_path_with_home, removal_decision, RemovalDecision};
use prawjector::paths::{file_name, paths_equal};

fn test_project(name: &str, path: &str) -> Project {
    Project {
        name: name.to_string(),
        path: path.to_string(),
        tabs: vec![Tab { launch: None }],
    }
}

#[test]
fn test_expand_path_with_tilde() {
    let expanded = expand_path("~/some/path");
    assert!(!expanded.contains('~'));
    assert!(expanded.ends_with("/some/path"));
}

#[test]
fn test_expand_path_without_tilde() {
    let expanded = expand_path("/absolute/path");
    assert_eq!(expanded, "/absolute/path".to_string());
}

#[test]
fn test_default_config_path() {
    let path = default_config_path().unwrap();

    assert!(std::path::Path::new(&path).ends_with(".prawjector/prawjector.json"));
}

#[test]
fn test_config_path_from_arg_uses_override() {
    let path = config_path_from_arg(Some("/tmp/custom-prawjector.json")).unwrap();

    assert_eq!(path, "/tmp/custom-prawjector.json".to_string());
}

#[test]
fn test_config_path_from_arg_expands_tilde() {
    let path = config_path_from_arg(Some("~/custom-prawjector.json")).unwrap();

    assert!(!path.contains('~'));
    assert!(std::path::Path::new(&path).ends_with("custom-prawjector.json"));
}

#[test]
fn test_validate_config_empty_name() {
    let config = Config {
        projects: vec![Project {
            name: "".to_string(),
            path: "/tmp".to_string(),
            tabs: vec![Tab { launch: None }],
        }],
    };
    let errors = validate_config(&config);
    assert!(errors.iter().any(|e| e.contains("name is empty")));
}

#[test]
fn test_validate_config_empty_path() {
    let config = Config {
        projects: vec![Project {
            name: "Test".to_string(),
            path: "".to_string(),
            tabs: vec![Tab { launch: None }],
        }],
    };
    let errors = validate_config(&config);
    assert!(errors.iter().any(|e| e.contains("path is empty")));
}

#[test]
fn test_validate_config_no_tabs() {
    let config = Config {
        projects: vec![Project {
            name: "Test".to_string(),
            path: "/tmp".to_string(),
            tabs: vec![],
        }],
    };
    let errors = validate_config(&config);
    assert!(errors.iter().any(|e| e.contains("has no tabs")));
}

#[test]
fn test_validate_config_nonexistent_path() {
    let config = Config {
        projects: vec![Project {
            name: "Test".to_string(),
            path: "/nonexistent/path/that/does/not/exist".to_string(),
            tabs: vec![Tab { launch: None }],
        }],
    };
    let errors = validate_config(&config);
    assert!(errors.iter().any(|e| e.contains("path does not exist")));
}

#[test]
fn test_validate_config_valid() {
    let config = Config {
        projects: vec![Project {
            name: "Test".to_string(),
            path: "/tmp".to_string(),
            tabs: vec![Tab { launch: None }],
        }],
    };
    let errors = validate_config(&config);
    assert!(errors.is_empty());
}

#[test]
fn test_validate_config_empty_projects() {
    let config = Config { projects: vec![] };
    let errors = validate_config(&config);
    assert!(errors.is_empty());
}

#[test]
fn test_project_expanded_path() {
    let project = Project {
        name: "Test".to_string(),
        path: "~/work".to_string(),
        tabs: vec![],
    };
    let expanded = project.expanded_path();
    assert!(!expanded.contains('~'));
}

#[test]
fn test_compress_path_with_home() {
    let home = dirs::home_dir().unwrap();
    let path = home.join("projects").join("foo");
    let compressed = compress_path(path.to_str().unwrap());
    assert_eq!(compressed, "~/projects/foo");
}

#[test]
fn test_compress_path_without_home() {
    let path = "/tmp/something";
    let compressed = compress_path(path);
    assert_eq!(compressed, "/tmp/something");
}

#[test]
fn test_name_from_path_hyphenated() {
    assert_eq!(name_from_path("/home/user/my-cool-project"), "My Cool Project");
}

#[test]
fn test_name_from_path_underscored() {
    assert_eq!(name_from_path("/home/user/my_cool_project"), "My Cool Project");
}

#[test]
fn test_name_from_path_mixed() {
    assert_eq!(name_from_path("/home/user/my-cool_project"), "My Cool Project");
}

#[test]
fn test_name_from_path_single_word() {
    assert_eq!(name_from_path("/home/user/prawjector"), "Prawjector");
}

#[test]
fn test_name_from_path_already_capitalized() {
    assert_eq!(name_from_path("/home/user/MyProject"), "MyProject");
}

#[test]
fn test_project_from_add_options_defaults() {
    let options = AddProjectOptions::default();
    let path = "/tmp/my-cool-project";

    let project = project_from_add_options(&options, path);

    assert_eq!(project.name, "My Cool Project");
    assert_eq!(project.path, "/tmp/my-cool-project");
    assert_eq!(project.tabs.len(), 1);
    assert_eq!(project.tabs[0].launch, None);
}

#[test]
fn test_project_from_add_options_name_override() {
    let options = AddProjectOptions {
        name: Some("Custom Name".to_string()),
        path: None,
        tabs: vec![],
    };
    let path = "/tmp/my-cool-project";

    let project = project_from_add_options(&options, path);

    assert_eq!(project.name, "Custom Name");
    assert_eq!(project.path, "/tmp/my-cool-project");
}

#[test]
fn test_project_path_from_add_options_uses_path_override() {
    let options = AddProjectOptions {
        name: None,
        path: Some("/tmp/custom-project".to_string()),
        tabs: vec![],
    };
    let cwd = "/tmp/current-project";

    let path = project_path_from_add_options(&options, cwd);
    let project = project_from_add_options(&options, &path);

    assert_eq!(path, "/tmp/custom-project".to_string());
    assert_eq!(project.name, "Custom Project");
    assert_eq!(project.path, "/tmp/custom-project");
}

#[test]
fn test_project_path_from_add_options_defaults_to_cwd() {
    let options = AddProjectOptions::default();
    let cwd = "/tmp/current-project";

    let path = project_path_from_add_options(&options, cwd);

    assert_eq!(path, "/tmp/current-project".to_string());
}

#[test]
fn test_project_from_add_options_preserves_tab_order() {
    let options = AddProjectOptions {
        name: None,
        path: None,
        tabs: vec!["nvim".to_string(), "-".to_string(), "cargo test".to_string()],
    };
    let path = "/tmp/my-cool-project";

    let project = project_from_add_options(&options, path);

    assert_eq!(project.tabs.len(), 3);
    assert_eq!(project.tabs[0].launch, Some("nvim".to_string()));
    assert_eq!(project.tabs[1].launch, None);
    assert_eq!(project.tabs[2].launch, Some("cargo test".to_string()));
}

#[test]
fn test_remove_projects_for_path_removes_matching_project() {
    let target = "/tmp/current-project";
    let mut config = Config {
        projects: vec![
            test_project("Current Project", "/tmp/current-project"),
            test_project("Other Project", "/tmp/other-project"),
        ],
    };

    let removed = remove_projects_for_path(&mut config, target);

    assert_eq!(removed.len(), 1);
    assert_eq!(removed[0].name, "Current Project");
    assert_eq!(config.projects.len(), 1);
    assert_eq!(config.projects[0].name, "Other Project");
}

#[test]
fn test_remove_projects_for_path_leaves_config_when_no_match() {
    let target = "/tmp/current-project";
    let mut config = Config {
        projects: vec![
            test_project("First Project", "/tmp/first-project"),
            test_project("Second Project", "/tmp/second-project"),
        ],
    };

    let removed = remove_projects_for_path(&mut config, target);

    assert!(removed.is_empty());
    assert_eq!(config.projects.len(), 2);
    assert_eq!(config.projects[0].name, "First Project");
    assert_eq!(config.projects[1].name, "Second Project");
}

#[test]
fn test_remove_projects_for_path_removes_duplicate_matches() {
    let target = "/tmp/current-project";
    let mut config = Config {
        projects: vec![
            test_project("First Match", "/tmp/current-project"),
            test_project("Second Match", "/tmp/current-project"),
        ],
    };

    let removed = remove_projects_for_path(&mut config, target);

    assert_eq!(removed.len(), 2);
    assert_eq!(removed[0].name, "First Match");
    assert_eq!(removed[1].name, "Second Match");
    assert!(config.projects.is_empty());
}

#[test]
fn test_remove_projects_for_path_preserves_non_matching_order() {
    let target = "/tmp/current-project";
    let mut config = Config {
        projects: vec![
            test_project("First Project", "/tmp/first-project"),
            test_project("Current Project", "/tmp/current-project"),
            test_project("Second Project", "/tmp/second-project"),
            test_project("Third Project", "/tmp/third-project"),
        ],
    };

    let removed = remove_projects_for_path(&mut config, target);

    assert_eq!(removed.len(), 1);
    assert_eq!(
        config
            .projects
            .iter()
            .map(|project| project.name.as_str())
            .collect::<Vec<_>>(),
        vec!["First Project", "Second Project", "Third Project"]
    );
}

#[test]
fn test_capitalize_word() {
    assert_eq!(capitalize_word("hello"), "Hello");
    assert_eq!(capitalize_word("HELLO"), "HELLO");
    assert_eq!(capitalize_word(""), "");
    assert_eq!(capitalize_word("a"), "A");
}

// ---------------------------------------------------------------------------
// Further cases.
// ---------------------------------------------------------------------------

#[test]
fn validate_reports_every_problem_in_order() {
    let config = Config {
        projects: vec![
            Project { name: "  ".to_string(), path: "\t".to_string(), tabs: vec![] },
            test_project("Fine", "/tmp"),
        ],
    };
    let errors = validate_config(&config);
    assert_eq!(
        errors,
        vec![
            "Project 0: name is empty".to_string(),
            "Project 0: path is empty".to_string(),
            "Project 0 (  ): has no tabs".to_string(),
            "Project 0 (  ): path does not exist: \t".to_string(),
        ]
    );
}

#[test]
fn validate_numbers_projects_from_zero() {
    let config = Config {
        projects: vec![
            test_project("A", "/tmp"),
            test_project("B", "/tmp"),
            test_project("C", "/nonexistent/prawjector/dir"),
        ],
    };
    let errors = validate_config(&config);
    assert_eq!(
        errors,
        vec!["Project 2 (C): path does not exist: /nonexistent/prawjector/dir".to_string()]
    );
}

#[test]
fn compress_with_explicit_home() {
    assert_eq!(compress_path_with_home("/home/u/code/x", Some("/home/u")), "~/code/x");
    assert_eq!(compress_path_with_home("/home/u", Some("/home/u")), "~");
    assert_eq!(compress_path_with_home("/srv/x", Some("/home/u")), "/srv/x");
    assert_eq!(compress_path_with_home("/srv/x", None), "/srv/x");
}

#[test]
fn expand_with_explicit_home() {
    assert_eq!(expand_path_with_home("~/code", Some("/home/u")), "/home/u/code");
    assert_eq!(expand_path_with_home("~", Some("/home/u")), "/home/u");
    assert_eq!(expand_path_with_home("~bob/code", Some("/home/u")), "~bob/code");
    assert_eq!(expand_path_with_home("~/code", None), "~/code");
    assert_eq!(expand_path_with_home("/a/~/b", Some("/home/u")), "/a/~/b");
}

#[test]
fn config_path_with_explicit_home() {
    assert_eq!(
        config_path_from_arg_with_home(None, Some("/home/u")),
        Ok("/home/u/.prawjector/prawjector.json".to_string())
    );
    assert_eq!(
        config_path_from_arg_with_home(None, Some("/home/u/")),
        Ok("/home/u/.prawjector/prawjector.json".to_string())
    );
    assert_eq!(
        config_path_from_arg_with_home(Some("~/x.json"), Some("/home/u")),
        Ok("/home/u/x.json".to_string())
    );
    assert_eq!(config_path_from_arg_with_home(None, None), Err(ConfigPathError::NoHomeDirectory));
}

#[test]
fn path_equality_is_by_components() {
    assert!(paths_equal("/tmp/a", "/tmp/a/"));
    assert!(paths_equal("/tmp//a", "/tmp/a"));
    assert!(paths_equal("/tmp/./a", "/tmp/a"));
    assert!(!paths_equal("./a", "a"));
    assert!(!paths_equal("/tmp/a", "tmp/a"));
    assert!(!paths_equal("/tmp/a/..", "/tmp"));
}

#[test]
fn file_names() {
    assert_eq!(file_name("/home/user/proj"), Some("proj".to_string()));
    assert_eq!(file_name("/home/user/proj/"), Some("proj".to_string()));
    assert_eq!(file_name("/home/user/proj/."), Some("proj".to_string()));
    assert_eq!(file_name("/"), None);
    assert_eq!(file_name("/a/.."), None);
    assert_eq!(name_from_path("/"), "Project");
    assert_eq!(name_from_path("/x/--a__b--"), "A B");
}

#[test]
fn confirmation_answers() {
    assert!(is_confirmed("y\n"));
    assert!(is_confirmed("  YES \n"));
    assert!(is_confirmed("Yes"));
    assert!(!is_confirmed("n\n"));
    assert!(!is_confirmed(""));
    assert!(!is_confirmed("yess"));
    assert!(!is_confirmed("y e s"));
}

#[test]
fn prompts_and_reports() {
    let config = Config {
        projects: vec![
            test_project("One", "/srv/p"),
            test_project("Two", "/srv/p/"),
            test_project("Three", "/srv/q"),
        ],
    };
    let matches = matching_projects_with_home(&config, "/srv/p", Some("/home/u"));
    assert_eq!(matches.len(), 2);
    assert_eq!(
        remove_confirmation_prompt_with_home(&matches, "/srv/p", Some("/home/u")),
        "Remove projects \"One\", \"Two\" (/srv/p) from config? [y/N] "
    );
    let single = matching_projects_with_home(&config, "/srv/q", Some("/home/u"));
    assert_eq!(
        remove_confirmation_prompt_with_home(&single, "/srv/q", Some("/srv")),
        "Remove project \"Three\" (~/q) from config? [y/N] "
    );
    assert_eq!(
        removal_message_with_home(&[test_project("One", "/srv/p")], "/srv/p", None),
        "Removed project \"One\" (/srv/p)"
    );
    assert_eq!(
        removal_message_with_home(
            &[test_project("One", "/srv/p"), test_project("Two", "/srv/p")],
            "/srv/p",
            None
        ),
        "Removed 2 projects (/srv/p)"
    );
}

#[test]
fn add_then_add_again_is_a_no_op() {
    let mut config = Config { projects: vec![] };
    let options = AddProjectOptions::default();
    let first = add_project_to_config_with_home(&mut config, &options, "/home/u/my-app", Some("/home/u"));
    match first {
        AddOutcome::Added { name, path } => {
            assert_eq!(name, "My App");
            assert_eq!(path, "~/my-app");
        }
        AddOutcome::AlreadyExists { .. } => panic!("expected the project to be added"),
    }
    assert_eq!(config.projects.len(), 1);
    assert_eq!(config.projects[0].path, "~/my-app");
    let second = add_project_to_config_with_home(&mut config, &options, "/home/u/my-app/", Some("/home/u"));
    match second {
        AddOutcome::AlreadyExists { path } => assert_eq!(path, "~/my-app/"),
        AddOutcome::Added { .. } => panic!("expected the project to exist already"),
    }
    assert_eq!(config.projects.len(), 1);
}

#[test]
fn remove_undoes_add() {
    let mut config = Config {
        projects: vec![test_project("Other", "~/other"), test_project("Third", "/srv/third")],
    };
    let options = AddProjectOptions {
        name: None,
        path: Some("~/work/new-thing".to_string()),
        tabs: vec!["nvim".to_string()],
    };
    let added = add_project_to_config_with_home(&mut config, &options, "/somewhere", Some("/home/u"));
    assert!(matches!(added, AddOutcome::Added { .. }));
    assert_eq!(config.projects.len(), 3);
    let removed = remove_projects_for_path_with_home(&mut config, "/home/u/work/new-thing", Some("/home/u"));
    assert_eq!(removed.len(), 1);
    assert_eq!(removed[0].name, "New Thing");
    assert_eq!(removed[0].path, "~/work/new-thing");
    assert_eq!(removed[0].tabs[0].launch, Some("nvim".to_string()));
    assert_eq!(config.projects.len(), 2);
    assert_eq!(config.projects[0].name, "Other");
    assert_eq!(config.projects[1].name, "Third");
}

#[test]
fn compress_only_at_a_path_boundary() {
    assert_eq!(compress_path_with_home("/home/u2/x", Some("/home/u")), "/home/u2/x");
    assert_eq!(compress_path_with_home("/home/user", Some("/home/u")), "/home/user");
    assert_eq!(compress_path_with_home("/home/u/x", Some("/home/u/")), "~/x");
    assert_eq!(compress_path_with_home("/home/u", Some("/home/u/")), "~");
    assert_eq!(compress_path_with_home("/tmp/x", Some("/")), "~/tmp/x");
    let home = Some("/home/u");
    let sibling = compress_path_with_home("/home/u2/x", home);
    assert_eq!(expand_path_with_home(&sibling, home), "/home/u2/x");
    let slashed = Some("/home/u/");
    let stored = compress_path_with_home("/home/u/x", slashed);
    assert!(paths_equal(&expand_path_with_home(&stored, slashed), "/home/u/x"));
    let rooted = compress_path_with_home("/tmp/x", Some("/"));
    assert!(paths_equal(&expand_path_with_home(&rooted, Some("/")), "/tmp/x"));
}

#[test]
fn sibling_of_home_can_be_added_and_removed() {
    let mut config = Config { projects: vec![] };
    let options = AddProjectOptions::default();
    let added = add_project_to_config_with_home(&mut config, &options, "/home/u2/x", Some("/home/u"));
    match added {
        AddOutcome::Added { path, .. } => assert_eq!(path, "/home/u2/x"),
        AddOutcome::AlreadyExists { .. } => panic!("expected the project to be added"),
    }
    assert_eq!(config.projects[0].path, "/home/u2/x");
    let removed = remove_projects_for_path_with_home(&mut config, "/home/u2/x", Some("/home/u"));
    assert_eq!(removed.len(), 1);
    assert!(config.projects.is_empty());
}

#[test]
fn removal_asks_unless_forced() {
    assert_eq!(removal_decision(0, false, None), RemovalDecision::NothingToRemove);
    assert_eq!(removal_decision(0, true, Some("yes")), RemovalDecision::NothingToRemove);
    assert_eq!(removal_decision(2, true, None), RemovalDecision::Remove);
    assert_eq!(removal_decision(1, false, None), RemovalDecision::Ask);
    assert_eq!(removal_decision(1, false, Some(" YES\n")), RemovalDecision::Remove);
    assert_eq!(removal_decision(1, false, Some("y")), RemovalDecision::Remove);
    assert_eq!(removal_decision(1, false, Some("\n")), RemovalDecision::Cancel);
    assert_eq!(removal_decision(1, false, Some("no")), RemovalDecision::Cancel);
}
