use prawjector::config::{Project, Tab};
use prawjector::zellij::{
    attach_args, build_setup_script, build_setup_script_with_home, build_tab_commands,
    build_tab_commands_with_home, classify_saved_layout_document, KdlNodeOutline, classify_saved_layout_read,
    classify_saved_layout_text, create_background_args, decide_launch, expand_launch_command,
    expand_launch_command_with_home, needs_saved_layout, parse_session_state,
    plan_outside_launch, removal_step, sanitize_session_name, saved_layout_path_in,
    session_cleanup_args, shell_escape, all_tab_commands_with_home, LaunchDecision, LaunchPlan,
    LayoutRead, RemovalStep, SavedLayoutState, SessionState,
};

#[test]
fn test_build_tab_commands_with_commands() {
    let project = Project {
        name: "Test".to_string(),
        path: "/tmp/test".to_string(),
        tabs: vec![
            Tab { launch: Some("/usr/bin/nvim".to_string()) },
            Tab { launch: Some("/usr/bin/cargo watch -x check".to_string()) },
            Tab { launch: None },
        ],
    };

    let commands = build_tab_commands("test", &project);
    assert_eq!(commands.len(), 2);
    assert_eq!(
        commands[0],
        vec![
            "action",
            "new-tab",
            "--cwd",
            "/tmp/test",
            "--",
            "/usr/bin/cargo",
            "watch",
            "-x",
            "check"
        ]
    );
    assert_eq!(commands[1], vec!["action", "new-tab", "--cwd", "/tmp/test"]);
}

#[test]
fn test_build_tab_commands_empty_tabs() {
    let project = Project {
        name: "Test".to_string(),
        path: "/tmp/test".to_string(),
        tabs: vec![],
    };

    let commands = build_tab_commands("test", &project);
    assert!(commands.is_empty());
}

#[test]
fn test_build_tab_commands_null_launch() {
    let project = Project {
        name: "Test".to_string(),
        path: "/tmp/test".to_string(),
        tabs: vec![Tab { launch: None }, Tab { launch: None }],
    };

    let commands = build_tab_commands("test", &project);
    assert_eq!(commands.len(), 1);
    assert_eq!(commands[0], vec!["action", "new-tab", "--cwd", "/tmp/test"]);
    assert!(!commands[0].contains(&"--".to_string()));
}

#[test]
fn test_sanitize_session_name() {
    assert_eq!(sanitize_session_name("My Project"), "my-project");
    assert_eq!(sanitize_session_name("hello world!"), "hello-world");
    assert_eq!(sanitize_session_name("Test_123"), "test123");
}

#[test]
fn test_shell_escape() {
    assert_eq!(shell_escape("hello"), "'hello'");
    assert_eq!(shell_escape("it's"), "'it'\\''s'");
    assert_eq!(shell_escape("path/to dir"), "'path/to dir'");
}

#[test]
fn test_create_background_args() {
    assert_eq!(
        create_background_args("my-project"),
        vec!["attach", "--create-background", "my-project"]
    );
}

#[test]
fn test_build_setup_script_with_commands() {
    let project = Project {
        name: "Test".to_string(),
        path: "/tmp/test".to_string(),
        tabs: vec![
            Tab { launch: Some("nvim".to_string()) },
            Tab { launch: Some("cargo watch".to_string()) },
            Tab { launch: None },
        ],
    };

    let script = build_setup_script("test", &project).unwrap();
    assert!(script.contains("zellij -s 'test' action list-clients"));
    assert!(!script.contains("list-sessions"));
    assert!(script.contains("write-chars"));
    assert!(script.contains("action go-to-tab 1"));
    assert!(script.contains("'action' 'new-tab'"));
}

#[test]
fn test_build_setup_script_no_initial_command() {
    let project = Project {
        name: "Test".to_string(),
        path: "/tmp/test".to_string(),
        tabs: vec![Tab { launch: None }, Tab { launch: Some("nvim".to_string()) }],
    };

    let script = build_setup_script("test", &project).unwrap();
    assert!(!script.contains("write-chars"));
    assert!(script.contains("'action' 'new-tab'"));
}

#[test]
fn test_build_setup_script_single_tab_without_launch_is_none() {
    let project = Project {
        name: "Test".to_string(),
        path: "/tmp/test".to_string(),
        tabs: vec![Tab { launch: None }],
    };

    assert_eq!(build_setup_script("test", &project), None);
}

#[test]
fn test_build_setup_script_single_tab_with_launch_skips_go_to_tab() {
    let project = Project {
        name: "Test".to_string(),
        path: "/tmp/test".to_string(),
        tabs: vec![Tab { launch: Some("nvim".to_string()) }],
    };

    let script = build_setup_script("test", &project).unwrap();
    assert!(script.contains("write-chars"));
    assert!(!script.contains("go-to-tab"));
    assert!(!script.contains("new-tab"));
}

fn node(name: &str, children: Option<Vec<&str>>) -> KdlNodeOutline {
    KdlNodeOutline {
        name: name.to_string(),
        children: children.map(|c| c.into_iter().map(|n| n.to_string()).collect()),
    }
}

#[test]
fn test_classify_saved_layout_with_direct_tab() {
    let document = vec![node("layout", Some(vec!["tab"]))];

    assert_eq!(
        classify_saved_layout_document(&document),
        SavedLayoutState::HasTabs
    );
}

#[test]
fn test_classify_saved_layout_ignores_templates_and_nested_tabs() {
    let document = vec![node(
        "layout",
        Some(vec!["new_tab_template", "swap_tiled_layout", "plugin_template"]),
    )];

    assert_eq!(
        classify_saved_layout_document(&document),
        SavedLayoutState::Empty
    );
}

#[test]
fn saved_layout_text_with_direct_tab() {
    let text = r#"
            layout {
                tab name="main"
            }
        "#;
    assert_eq!(classify_saved_layout_text(text), SavedLayoutState::HasTabs);
}

#[test]
fn saved_layout_text_ignores_templates_and_nested_tabs() {
    let text = r#"
            layout {
                new_tab_template {
                    pane
                }
                swap_tiled_layout name="stacked" {
                    tab
                }
                plugin_template name="status" {
                    tab
                }
            }
        "#;
    assert_eq!(classify_saved_layout_text(text), SavedLayoutState::Empty);
}

#[test]
fn saved_layout_tab_outside_layout_does_not_count() {
    let document = vec![node("tab", None), node("layout", None), node("other", Some(vec!["tab"]))];
    assert_eq!(classify_saved_layout_document(&document), SavedLayoutState::Empty);
}

#[test]
fn test_exited_with_saved_tabs_attaches_without_force_run_commands() {
    let args = attach_args("my-project");

    assert_eq!(
        decide_launch(SessionState::Exited, SavedLayoutState::HasTabs),
        LaunchDecision::Attach
    );
    assert_eq!(args, vec!["attach", "my-project"]);
    assert!(!args.contains(&"--force-run-commands".to_string()));
}

#[test]
fn test_exited_with_unknown_saved_layout_attaches_without_deleting() {
    let args = attach_args("my-project");

    assert_eq!(
        decide_launch(SessionState::Exited, SavedLayoutState::Unknown),
        LaunchDecision::Attach
    );
    assert_eq!(args, vec!["attach", "my-project"]);
    assert!(!args.contains(&"--force-run-commands".to_string()));
}

#[test]
fn test_exited_with_empty_saved_layout_deletes_and_creates() {
    assert_eq!(
        decide_launch(SessionState::Exited, SavedLayoutState::Empty),
        LaunchDecision::DeleteAndCreateSession
    );
}

#[test]
fn test_running_session_attaches() {
    assert_eq!(
        decide_launch(SessionState::Running, SavedLayoutState::Empty),
        LaunchDecision::Attach
    );
    assert_eq!(attach_args("my-project"), vec!["attach", "my-project"]);
}

#[test]
fn test_not_found_session_creates_new_session() {
    assert_eq!(
        decide_launch(SessionState::NotFound, SavedLayoutState::HasTabs),
        LaunchDecision::CreateNewSession
    );
}

#[test]
fn test_session_cleanup_args_running_force_deletes() {
    assert_eq!(
        session_cleanup_args(SessionState::Running, "my-project"),
        Some(vec![
            "delete-session".to_string(),
            "--force".to_string(),
            "my-project".to_string()
        ])
    );
}

#[test]
fn test_session_cleanup_args_exited_deletes_without_force() {
    assert_eq!(
        session_cleanup_args(SessionState::Exited, "my-project"),
        Some(vec!["delete-session".to_string(), "my-project".to_string()])
    );
}

#[test]
fn test_session_cleanup_args_not_found_is_none() {
    assert_eq!(session_cleanup_args(SessionState::NotFound, "my-project"), None);
}

#[test]
fn test_parse_session_state_running() {
    let output = "my-project [Created 2h ago]\n";
    assert_eq!(parse_session_state(output, "my-project"), SessionState::Running);
}

#[test]
fn test_parse_session_state_exited() {
    let output = "my-project [Created 2h ago] (EXITED - attach to resurrect)\n";
    assert_eq!(parse_session_state(output, "my-project"), SessionState::Exited);
}

#[test]
fn test_parse_session_state_not_found() {
    let output = "other-project [Created 1h ago]\n";
    assert_eq!(parse_session_state(output, "my-project"), SessionState::NotFound);
}

#[test]
fn test_parse_session_state_empty() {
    assert_eq!(parse_session_state("", "my-project"), SessionState::NotFound);
}

#[test]
fn test_parse_session_state_exact_match_no_substring() {
    let output = "foobar [Created 1h ago]\n";
    assert_eq!(parse_session_state(output, "foo"), SessionState::NotFound);
}

#[test]
fn test_parse_session_state_exact_match_no_superstring() {
    let output = "foo [Created 1h ago]\n";
    assert_eq!(parse_session_state(output, "foobar"), SessionState::NotFound);
}

#[test]
fn test_parse_session_state_multiple_sessions() {
    let output = "alpha [Created 3h ago]\nbeta [Created 1h ago] (EXITED - attach to resurrect)\ngamma [Created 30m ago]\n";
    assert_eq!(parse_session_state(output, "beta"), SessionState::Exited);
    assert_eq!(parse_session_state(output, "gamma"), SessionState::Running);
    assert_eq!(parse_session_state(output, "delta"), SessionState::NotFound);
}

#[test]
fn test_parse_session_state_current_session() {
    let output = "my-project [Created 5m ago] (current)\n";
    assert_eq!(parse_session_state(output, "my-project"), SessionState::Running);
}

#[test]
fn test_expand_launch_command_with_tilde() {
    let parts = expand_launch_command("~/.local/bin/launcher --flag ~/some/path");
    assert_eq!(parts.len(), 3);
    assert!(!parts[0].contains('~'));
    assert!(parts[0].ends_with("/.local/bin/launcher"));
    assert_eq!(parts[1], "--flag");
    assert!(!parts[2].contains('~'));
    assert!(parts[2].ends_with("/some/path"));
}

#[test]
fn test_expand_launch_command_bare_command() {
    let parts = expand_launch_command("ls -la");
    assert_eq!(parts.len(), 2);
    assert_eq!(parts[0], "ls");
    assert_eq!(parts[1], "-la");
}

// ---------------------------------------------------------------------------
// Further cases.
// ---------------------------------------------------------------------------

#[test]
fn missing_saved_layout_reads_as_empty() {
    assert_eq!(classify_saved_layout_read(&LayoutRead::Missing), SavedLayoutState::Empty);
    assert_eq!(classify_saved_layout_read(&LayoutRead::Unreadable), SavedLayoutState::Unknown);
    assert_eq!(
        classify_saved_layout_read(&LayoutRead::Contents("layout {\n tab\n}\n".to_string())),
        SavedLayoutState::HasTabs
    );
}

#[test]
fn unparsable_saved_layout_is_unknown() {
    assert_eq!(classify_saved_layout_text("layout {"), SavedLayoutState::Unknown);
    assert_eq!(classify_saved_layout_text(""), SavedLayoutState::Empty);
    assert_eq!(classify_saved_layout_text("tab\n"), SavedLayoutState::Empty);
}

#[test]
fn saved_layout_location() {
    assert_eq!(
        saved_layout_path_in("/home/u/.cache", "my-project"),
        "/home/u/.cache/zellij/contract_version_1/session_info/my-project/session-layout.kdl"
    );
}

#[test]
fn launch_plans() {
    assert_eq!(
        plan_outside_launch(SessionState::Running, true, SavedLayoutState::Unknown),
        LaunchPlan::RemoveThenCreate(SessionState::Running)
    );
    assert_eq!(
        plan_outside_launch(SessionState::Exited, false, SavedLayoutState::Empty),
        LaunchPlan::RemoveThenCreate(SessionState::Exited)
    );
    assert_eq!(
        plan_outside_launch(SessionState::NotFound, false, SavedLayoutState::Unknown),
        LaunchPlan::Create
    );
    assert_eq!(
        plan_outside_launch(SessionState::Exited, false, SavedLayoutState::HasTabs),
        LaunchPlan::Attach
    );
    assert!(needs_saved_layout(SessionState::Exited, false));
    assert!(!needs_saved_layout(SessionState::Exited, true));
    assert!(!needs_saved_layout(SessionState::Running, false));
}

#[test]
fn removal_steps() {
    assert_eq!(removal_step(SessionState::NotFound, true), RemovalStep::Done);
    assert_eq!(removal_step(SessionState::Running, true), RemovalStep::TimedOut);
    assert_eq!(removal_step(SessionState::Exited, false), RemovalStep::DeleteAgain);
    assert_eq!(removal_step(SessionState::Running, false), RemovalStep::Wait);
}

#[test]
fn setup_script_exact_text() {
    let project = Project {
        name: "Test".to_string(),
        path: "~/p".to_string(),
        tabs: vec![
            Tab { launch: Some("nvim ~/notes".to_string()) },
            Tab { launch: Some("it's".to_string()) },
        ],
    };
    let script = build_setup_script_with_home("my proj", &project, Some("/home/u")).unwrap();
    let expected = "tries=0\nwhile ! zellij -s 'my proj' action list-clients 2>/dev/null | tail -n +2 | grep -q .; do\n  tries=$((tries + 1))\n  if [ \"$tries\" -ge 50 ]; then exit 1; fi\n  sleep 0.1\ndone\nsleep 0.2\n\
zellij -s 'my proj' action write-chars 'nvim /home/u/notes\n'\n\
zellij -s 'my proj' 'action' 'new-tab' '--cwd' '/home/u/p' '--' 'it'\\''s'\n\
zellij -s 'my proj' action go-to-tab 1\n";
    assert_eq!(script, expected);
}

#[test]
fn tab_commands_with_home() {
    let project = Project {
        name: "Test".to_string(),
        path: "~/p".to_string(),
        tabs: vec![Tab { launch: None }, Tab { launch: Some("ls ~".to_string()) }],
    };
    assert_eq!(
        build_tab_commands_with_home("x", &project, Some("/h")),
        vec![vec!["action", "new-tab", "--cwd", "/h/p", "--", "ls", "/h"]]
    );
    assert_eq!(
        all_tab_commands_with_home(&project, Some("/h")),
        vec![
            vec!["action", "new-tab", "--cwd", "/h/p"],
            vec!["action", "new-tab", "--cwd", "/h/p", "--", "ls", "/h"],
        ]
    );
    assert_eq!(expand_launch_command_with_home("  a\t~/b  ", None), vec!["a", "~/b"]);
}

#[test]
fn session_lines_with_carriage_returns_and_spaces() {
    assert_eq!(parse_session_state("  alpha  \r\n", "alpha"), SessionState::Running);
    assert_eq!(parse_session_state("alpha", "alpha"), SessionState::Running);
    assert_eq!(parse_session_state("alpha [x] (EXITED\nalpha [y]\n", "alpha"), SessionState::Exited);
}
