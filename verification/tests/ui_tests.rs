use prawjector::git_info::format_git_time;
use prawjector::app::App;
use prawjector::config::{Config, Project, Tab};
use prawjector::git_info::{git_info_from_parts, NonGitInfo, ProjectInfo};
use prawjector::ui::{
    banner_animation_offsets, border_cells, border_perimeter, checked_frame_layout,
    detail_text_with_home, frame_layout, project_list_entries, BorderCell, DetailKind,
    build_large_header_rows, compute_content_box, compute_header_area, inner_padding,
    large_header_width, list_pane_layout, padding_mode_for_window, use_large_header, PaddingMode,
    Rect,
};

#[test]
fn test_compute_content_box_small() {
    let terminal = Rect::new(0, 0, 80, 24);
    let cb = compute_content_box(terminal);
    assert_eq!(cb.width, 76);
    assert_eq!(cb.height, 18);
    assert_eq!(cb.x, 2);
    assert_eq!(cb.y, 4);
}

#[test]
fn test_compute_content_box_large() {
    let terminal = Rect::new(0, 0, 160, 50);
    let cb = compute_content_box(terminal);
    assert_eq!(cb.width, 128);
    assert_eq!(cb.height, 34);
    assert_eq!(cb.x, 16);
    assert_eq!(cb.y, 14);
}

#[test]
fn test_compute_header_area_large() {
    let terminal = Rect::new(0, 0, 160, 50);
    let cb = compute_content_box(terminal);
    let header = compute_header_area(terminal, cb);
    assert_eq!(header.x, 16);
    assert_eq!(header.y, 2);
    assert_eq!(header.width, 128);
    assert_eq!(header.height, 10);
}

#[test]
fn test_inner_padding_normal() {
    let cb = Rect::new(0, 0, 80, 24);
    assert_eq!(inner_padding(cb, PaddingMode::Normal), (10, 6));
}

#[test]
fn test_inner_padding_small_halves() {
    let cb = Rect::new(0, 0, 80, 24);
    let (h_normal, v_normal) = inner_padding(cb, PaddingMode::Normal);
    let (h_small, v_small) = inner_padding(cb, PaddingMode::Small);
    assert_eq!(h_small, h_normal / 2);
    assert_eq!(v_small, v_normal / 2);
}

#[test]
fn test_inner_padding_small_min_clamp() {
    let cb = Rect::new(0, 0, 20, 8);
    assert_eq!(inner_padding(cb, PaddingMode::Normal), (4, 2));
    assert_eq!(inner_padding(cb, PaddingMode::Small), (2, 1));
}

#[test]
fn test_inner_padding_tiny_is_fixed_minimal() {
    let large = Rect::new(0, 0, 160, 50);
    let small = Rect::new(0, 0, 20, 8);
    assert_eq!(inner_padding(large, PaddingMode::Tiny), (2, 1));
    assert_eq!(inner_padding(small, PaddingMode::Tiny), (2, 1));
}

#[test]
fn test_large_header_switches_on_for_roomy_terminal() {
    assert!(use_large_header(Rect::new(0, 0, 160, 50)));
    assert!(!use_large_header(Rect::new(0, 0, 80, 50)));
    assert!(!use_large_header(Rect::new(0, 0, 120, 30)));
    assert!(!use_large_header(Rect::new(0, 0, 80, 24)));
}

#[test]
fn test_format_git_time() {
    let formatted = format_git_time(1700000000);
    assert!(formatted.contains("2023"));
    assert!(formatted.contains("-"));
}

// ---------------------------------------------------------------------------
// Further cases.
// ---------------------------------------------------------------------------

#[test]
fn git_time_exact_text() {
    assert_eq!(format_git_time(0), "1970-01-01 00:00");
    assert_eq!(format_git_time(1700000000), "2023-11-14 22:13");
    assert_eq!(format_git_time(i64::MAX), "9223372036854775807");
}

#[test]
fn banner_rows_and_width() {
    let rows = build_large_header_rows("PRAWJECTOR");
    assert_eq!(rows.len(), 10);
    assert_eq!(large_header_width(), 77);
    assert!(rows.iter().all(|r| r.chars().count() == 77));
    assert_eq!(rows[0], rows[1]);
    assert_eq!(build_large_header_rows("")[0], "");
    assert_eq!(build_large_header_rows("AZ")[0], " ███         ");
}

#[test]
fn rect_new_clamps_to_coordinate_range() {
    let r = Rect::new(65530, 10, 100, 5);
    assert_eq!(r.width, 5);
    assert_eq!(r.height, 5);
}

#[test]
fn padding_modes_by_window_size() {
    assert_eq!(padding_mode_for_window(None), PaddingMode::Normal);
    assert_eq!(padding_mode_for_window(Some((0, 0))), PaddingMode::Normal);
    assert_eq!(padding_mode_for_window(Some((1000, 2000))), PaddingMode::Tiny);
    assert_eq!(padding_mode_for_window(Some((1400, 2000))), PaddingMode::Small);
    assert_eq!(padding_mode_for_window(Some((1920, 1080))), PaddingMode::Normal);
}

#[test]
fn frame_layout_for_a_roomy_terminal() {
    let f = frame_layout(Rect::new(0, 0, 160, 50), PaddingMode::Normal);
    assert!(f.large_header);
    assert_eq!(f.content, Rect::new(16, 14, 128, 34));
    assert_eq!(f.header, Rect::new(16, 2, 128, 10));
    assert_eq!(f.divider_x, 16 + 1 + 62);
    assert_eq!(f.left, Rect::new(16 + 1 + 12, 14 + 1 + 6, 62 - 24, 34 - 14));
    assert_eq!(f.right, Rect::new(79 + 1 + 12, 21, 63 - 24, 20));
    assert_eq!(checked_frame_layout(Rect::new(0, 0, 160, 50), PaddingMode::Normal), Some(f));
    assert_eq!(checked_frame_layout(Rect::new(0, 0, 900, 50), PaddingMode::Normal), None);
    assert_eq!(checked_frame_layout(Rect::new(65535, 0, 0, 0), PaddingMode::Normal), None);
}

#[test]
fn border_of_a_small_box() {
    let cells = border_cells(Rect::new(0, 0, 4, 3), 2);
    let symbols: String = cells.iter().map(|c| c.symbol).collect();
    assert_eq!(symbols, "┌─┬┐│┘┴─└││");
    assert_eq!(cells[0], BorderCell { x: 0, y: 0, symbol: '┌', position: 0 });
    assert_eq!(cells[4], BorderCell { x: 3, y: 1, symbol: '│', position: 4 });
    assert_eq!(cells[9], BorderCell { x: 0, y: 1, symbol: '│', position: 9 });
    assert_eq!(cells[10], BorderCell { x: 2, y: 1, symbol: '│', position: 11 });
    assert_eq!(border_perimeter(Rect::new(0, 0, 4, 3)), 10);
}

#[test]
fn banner_offsets() {
    let rows = vec!["ab".to_string(), "".to_string(), "cde".to_string()];
    assert_eq!(banner_animation_offsets(&rows), (vec![0, 2, 2], 5));
    assert_eq!(banner_animation_offsets(&vec![]), (vec![], 1));
}

fn sample_config() -> Config {
    Config {
        projects: vec![
            Project { name: "Alpha".to_string(), path: "/srv/alpha".to_string(), tabs: vec![Tab { launch: None }] },
            Project { name: "Beta".to_string(), path: "~/beta".to_string(), tabs: vec![Tab { launch: None }] },
        ],
    }
}

#[test]
fn list_rows_mark_the_new_session() {
    let config = sample_config();
    let mut app = App::new(&config, Vec::new());
    app.selected_index = 2;
    app.new_session = true;
    let rows = project_list_entries(&app, &config);
    assert_eq!(rows.len(), 3);
    assert_eq!(rows[0].number, "  0   ");
    assert_eq!(rows[0].name, "Empty Session");
    assert_eq!(rows[1].name, "Alpha");
    assert_eq!(rows[2].name, "Beta (NEW)");
    assert_eq!(rows[2].number, "  2   ");
}

#[test]
fn detail_pane_text() {
    let config = sample_config();
    let mut app = App::new(
        &config,
        vec![
            Some(ProjectInfo::NonGit(NonGitInfo { file_count: 4 })),
            Some(ProjectInfo::Git(git_info_from_parts(
                10,
                3,
                Some("Ann".to_string()),
                None,
                0,
                "0123456789abcdef",
                Some("fix\nthings in a rather long commit message".to_string()),
            ))),
        ],
    );
    let empty = detail_text_with_home(&app, &config, Some("/home/u"));
    assert_eq!(empty.len(), 1);
    assert_eq!(empty[0].label, "Start an empty Zellij session.");
    app.selected_index = 1;
    let alpha = detail_text_with_home(&app, &config, Some("/home/u"));
    assert_eq!(alpha.len(), 4);
    assert_eq!((alpha[0].label.as_str(), alpha[0].value.as_str()), ("Path", "/srv/alpha"));
    assert_eq!(alpha[2].kind, DetailKind::NotGitHeading);
    assert_eq!(alpha[3].value, "4");
    app.selected_index = 2;
    let beta = detail_text_with_home(&app, &config, Some("/home/u"));
    assert_eq!(beta[0].value, "/home/u/beta");
    assert_eq!(beta.len(), 11);
    assert_eq!(beta[7].value, "Ann <unknown>");
    assert_eq!(beta[8].value, "1970-01-01 00:00");
    assert_eq!(beta[9].value, "0123456");
    assert_eq!(beta[10].value, "fix things in a rather l");
    app.selected_index = 3;
    let unknown = detail_text_with_home(&app, &config, None);
    assert_eq!(unknown[0].label, "Unknown project.");
}

#[test]
fn list_pane_rows() {
    let area = Rect { x: 5, y: 3, width: 30, height: 10 };
    let typing = list_pane_layout(area, true);
    assert_eq!(typing.list, Rect { x: 5, y: 3, width: 30, height: 9 });
    assert_eq!(typing.input, Some(Rect { x: 5, y: 11, width: 30, height: 1 }));
    assert_eq!(typing.help, Rect { x: 5, y: 12, width: 30, height: 1 });
    let idle = list_pane_layout(area, false);
    assert_eq!(idle.input, None);
    assert_eq!(idle.help, typing.help);
    let flat = list_pane_layout(Rect { x: 0, y: 7, width: 4, height: 0 }, true);
    assert_eq!(flat.list.height, 0);
    assert_eq!(flat.input, Some(Rect { x: 0, y: 7, width: 4, height: 1 }));
    assert_eq!(flat.help, Rect { x: 0, y: 7, width: 4, height: 1 });
}

#[test]
fn large_banner_threshold() {
    assert_eq!(large_header_width(), 77);
    assert!(use_large_header(Rect { x: 0, y: 0, width: 81, height: 34 }));
    assert!(!use_large_header(Rect { x: 0, y: 0, width: 80, height: 34 }));
    assert!(!use_large_header(Rect { x: 0, y: 0, width: 81, height: 33 }));
    assert!(use_large_header(Rect { x: 0, y: 0, width: 121, height: 34 }));
}
