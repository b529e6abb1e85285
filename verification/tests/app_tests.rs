use prawjector::app::{
    action_for_choice, parse_u32, parse_usize, started_from_shell, App, Key, LaunchAction,
};
use prawjector::config::{Config, Project, Tab};
use prawjector::git_info::{NonGitInfo, ProjectInfo};

fn fresh() -> App {
    let config = Config { projects: vec![] };
    App::new(&config, Vec::new())
}

#[test]
fn test_handle_key_quit_q() {
    let mut app = fresh();
    app.handle_key(Key::Char('q'), 1);
    assert!(app.should_quit);
}

#[test]
fn test_handle_key_quit_esc() {
    let mut app = fresh();
    app.handle_key(Key::Esc, 1);
    assert!(app.should_quit);
}

#[test]
fn test_handle_key_navigate_down() {
    let mut app = fresh();
    app.handle_key(Key::Down, 3);
    assert_eq!(app.selected_index, 1);
}

#[test]
fn test_handle_key_navigate_up() {
    let mut app = fresh();
    app.selected_index = 2;
    app.handle_key(Key::Up, 3);
    assert_eq!(app.selected_index, 1);
}

#[test]
fn test_handle_key_navigate_up_at_zero() {
    let mut app = fresh();
    app.handle_key(Key::Up, 3);
    assert_eq!(app.selected_index, 0);
}

#[test]
fn test_handle_key_ignores_j_and_k() {
    let mut app = fresh();
    app.selected_index = 1;
    app.input_buffer = "2".to_string();

    let j_result = app.handle_key(Key::Char('j'), 3);
    assert_eq!(j_result, None);
    assert_eq!(app.selected_index, 1);
    assert_eq!(app.input_buffer, "2");

    let k_result = app.handle_key(Key::Char('k'), 3);
    assert_eq!(k_result, None);
    assert_eq!(app.selected_index, 1);
    assert_eq!(app.input_buffer, "2");
}

#[test]
fn test_handle_key_enter_selects() {
    let mut app = fresh();
    app.selected_index = 1;
    let result = app.handle_key(Key::Enter, 3);
    assert_eq!(result, Some((1, false)));
}

#[test]
fn test_handle_key_number_input() {
    let mut app = fresh();
    app.handle_key(Key::Char('2'), 5);
    assert_eq!(app.input_buffer, "2");
    assert_eq!(app.selected_index, 2);
}

#[test]
fn test_handle_key_number_then_enter() {
    let mut app = fresh();
    app.handle_key(Key::Char('1'), 5);
    let result = app.handle_key(Key::Enter, 5);
    assert_eq!(result, Some((1, false)));
}

#[test]
fn test_spacebar_toggles_new_session() {
    let mut app = fresh();
    assert!(!app.new_session);
    app.handle_key(Key::Char(' '), 3);
    assert!(app.new_session);
    app.handle_key(Key::Char(' '), 3);
    assert!(!app.new_session);
}

#[test]
fn test_spacebar_then_enter_returns_new_session() {
    let mut app = fresh();
    app.selected_index = 1;
    app.handle_key(Key::Char(' '), 3);
    let result = app.handle_key(Key::Enter, 3);
    assert_eq!(result, Some((1, true)));
}

#[test]
fn test_tick_increments() {
    let mut app = fresh();
    assert_eq!(app.tick, 0);
    app.tick();
    assert_eq!(app.tick, 1);
    app.tick();
    assert_eq!(app.tick, 2);
}

// ---------------------------------------------------------------------------
// Further cases.
// ---------------------------------------------------------------------------

#[test]
fn tick_wraps_around() {
    let mut app = fresh();
    app.tick = u64::MAX;
    app.tick();
    assert_eq!(app.tick, 0);
}

#[test]
fn down_stops_at_last_entry() {
    let mut app = fresh();
    app.handle_key(Key::Down, 2);
    app.handle_key(Key::Down, 2);
    assert_eq!(app.selected_index, 1);
    app.handle_key(Key::Down, 0);
    assert_eq!(app.selected_index, 1);
}

#[test]
fn typed_number_out_of_range_is_refused() {
    let mut app = fresh();
    app.handle_key(Key::Char('7'), 3);
    assert_eq!(app.selected_index, 0);
    assert_eq!(app.handle_key(Key::Enter, 3), None);
    assert_eq!(app.input_buffer, "");
}

#[test]
fn backspace_edits_typed_number() {
    let mut app = fresh();
    app.handle_key(Key::Char('1'), 20);
    app.handle_key(Key::Char('2'), 20);
    assert_eq!(app.selected_index, 12);
    app.handle_key(Key::Backspace, 20);
    assert_eq!(app.input_buffer, "1");
    app.handle_key(Key::Backspace, 20);
    app.handle_key(Key::Backspace, 20);
    assert_eq!(app.input_buffer, "");
    assert_eq!(app.handle_key(Key::Enter, 20), Some((12, false)));
}

#[test]
fn navigation_clears_typed_number() {
    let mut app = fresh();
    app.handle_key(Key::Char('2'), 5);
    app.handle_key(Key::Up, 5);
    assert_eq!(app.input_buffer, "");
    assert_eq!(app.selected_index, 1);
}

#[test]
fn other_keys_change_nothing() {
    let mut app = fresh();
    assert_eq!(app.handle_key(Key::Other, 5), None);
    assert!(!app.should_quit);
    assert_eq!(app.selected_index, 0);
}

#[test]
fn parsing_numbers_like_std() {
    assert_eq!(parse_usize("42"), Some(42));
    assert_eq!(parse_usize("+7"), Some(7));
    assert_eq!(parse_usize("007"), Some(7));
    assert_eq!(parse_usize(""), None);
    assert_eq!(parse_usize("+"), None);
    assert_eq!(parse_usize("-1"), None);
    assert_eq!(parse_usize("1a"), None);
    assert_eq!(parse_usize("18446744073709551615"), Some(usize::MAX));
    assert_eq!(parse_usize("18446744073709551616"), None);
    assert_eq!(parse_usize("99999999999999999999x"), None);
}

#[test]
fn project_infos_are_keyed_by_position() {
    let config = Config {
        projects: vec![
            Project { name: "a".to_string(), path: "/a".to_string(), tabs: vec![Tab { launch: None }] },
            Project { name: "b".to_string(), path: "/b".to_string(), tabs: vec![Tab { launch: None }] },
        ],
    };
    let app = App::new(
        &config,
        vec![None, Some(ProjectInfo::NonGit(NonGitInfo { file_count: 3 })), Some(ProjectInfo::NonGit(NonGitInfo { file_count: 9 }))],
    );
    assert_eq!(app.project_infos.len(), 1);
    match app.project_infos.get(&1) {
        Some(ProjectInfo::NonGit(n)) => assert_eq!(n.file_count, 3),
        _ => panic!("expected the second project's facts"),
    }
}

#[test]
fn typing_zero_selects_the_empty_session() {
    let mut app = fresh();
    app.handle_key(Key::Down, 3);
    app.handle_key(Key::Down, 3);
    assert_eq!(app.selected_index, 2);
    assert_eq!(app.handle_key(Key::Char('0'), 3), None);
    assert_eq!(app.selected_index, 0);
    assert_eq!(app.input_buffer, "0");
    assert_eq!(app.handle_key(Key::Enter, 3), Some((0, false)));
}

#[test]
fn up_stops_at_first_entry_and_keys_answer_simply() {
    let mut app = fresh();
    app.handle_key(Key::Up, 4);
    assert_eq!(app.selected_index, 0);
    assert_eq!(app.handle_key(Key::Char(' '), 4), None);
    assert!(app.new_session);
    assert!(!app.should_quit);
    assert_eq!(app.handle_key(Key::Esc, 4), None);
    assert!(app.should_quit);
    assert!(app.new_session);
}

#[test]
fn choices_become_launches() {
    assert_eq!(action_for_choice((0, true)), LaunchAction::LaunchEmpty);
    assert_eq!(action_for_choice((3, false)), LaunchAction::LaunchProject(2, false));
    assert_eq!(action_for_choice((1, true)), LaunchAction::LaunchProject(0, true));
}

#[test]
fn a_round_answers_the_key_then_animates() {
    let mut app = fresh();
    assert_eq!(app.step(None, 3), None);
    assert_eq!(app.tick, 1);
    assert_eq!(app.step(Some(Key::Down), 3), None);
    assert_eq!(app.selected_index, 1);
    assert_eq!(app.tick, 2);
    assert_eq!(app.step(Some(Key::Char(' ')), 3), None);
    assert_eq!(app.step(Some(Key::Enter), 3), Some(LaunchAction::LaunchProject(0, true)));
    assert_eq!(app.tick, 3);
}

#[test]
fn a_round_ends_the_picker_on_quit() {
    let mut app = fresh();
    assert_eq!(app.step(Some(Key::Char('q')), 3), Some(LaunchAction::Quit));
    assert_eq!(app.tick, 1);
    let mut app = fresh();
    assert_eq!(app.step(Some(Key::Enter), 3), Some(LaunchAction::LaunchEmpty));
    assert_eq!(app.tick, 0);
}

#[test]
fn shell_level_decides_whether_the_picker_starts() {
    assert!(started_from_shell(Some("1")));
    assert!(started_from_shell(Some("3")));
    assert!(!started_from_shell(Some("0")));
    assert!(!started_from_shell(Some("")));
    assert!(!started_from_shell(Some("two")));
    assert!(!started_from_shell(Some("4294967296")));
    assert!(!started_from_shell(None));
}

#[test]
fn parsing_u32_like_std() {
    assert_eq!(parse_u32("4294967295"), Some(u32::MAX));
    assert_eq!(parse_u32("4294967296"), None);
    assert_eq!(parse_u32("+12"), Some(12));
    assert_eq!(parse_u32(" 1"), None);
}
