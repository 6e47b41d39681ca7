use tchat::tui::layout::{columns, compute_areas, place, rows, Area, LayoutMode, Limit};

fn rect(w: u16, h: u16) -> Area {
    Area { x: 0, y: 0, width: w, height: h }
}

#[test]
fn standard_layout_allocates_sidebar_and_messages() {
    let areas = compute_areas(LayoutMode::Standard, rect(120, 40));
    assert!(areas.space_list.is_some());
    assert_eq!(areas.space_list.unwrap().width, 24);
    // Status and input span full width
    assert_eq!(areas.status.width, 120);
    assert_eq!(areas.input.width, 120);
}

#[test]
fn focused_layout_has_no_sidebar() {
    let areas = compute_areas(LayoutMode::Focused, rect(120, 40));
    assert!(areas.space_list.is_none());
    assert!(areas.members.is_none());
    assert!(areas.thread.is_none());
    assert_eq!(areas.messages.width, 120);
}

#[test]
fn thread_layout_splits_message_area() {
    let areas = compute_areas(LayoutMode::ThreadView, rect(120, 40));
    assert!(areas.space_list.is_some());
    assert!(areas.thread.is_some());
    assert!(areas.members.is_none());
}

#[test]
fn small_terminal_hides_sidebar() {
    let areas = compute_areas(LayoutMode::Standard, rect(50, 20));
    assert!(areas.space_list.is_none());
}

#[test]
fn status_and_input_always_full_width() {
    for mode in [
        LayoutMode::Standard,
        LayoutMode::Focused,
        LayoutMode::ThreadView,
    ] {
        let areas = compute_areas(mode, rect(100, 30));
        assert_eq!(areas.status.width, 100, "status width for {mode:?}");
        assert_eq!(areas.input.width, 100, "input width for {mode:?}");
    }
}

#[test]
fn standard_layout_sidebar_width_is_24() {
    let areas = compute_areas(LayoutMode::Standard, rect(80, 24));
    let sidebar = areas.space_list.unwrap();
    assert_eq!(sidebar.width, 24);
}

#[test]
fn standard_layout_messages_fill_remaining() {
    let areas = compute_areas(LayoutMode::Standard, rect(80, 24));
    let sidebar = areas.space_list.unwrap();
    assert_eq!(sidebar.width + areas.messages.width, 80);
}

#[test]
fn thread_layout_hides_sidebar_on_narrow() {
    let areas = compute_areas(LayoutMode::ThreadView, rect(70, 24));
    assert!(areas.space_list.is_none());
    assert!(areas.thread.is_some());
}

#[test]
fn thread_layout_shows_sidebar_on_wide() {
    let areas = compute_areas(LayoutMode::ThreadView, rect(120, 40));
    assert!(areas.space_list.is_some());
    assert!(areas.thread.is_some());
    assert_eq!(areas.space_list.unwrap().width, 24);
}

#[test]
fn split_mode_falls_back_to_standard() {
    let areas_split = compute_areas(LayoutMode::Split, rect(100, 30));
    let areas_std = compute_areas(LayoutMode::Standard, rect(100, 30));
    assert_eq!(areas_split.messages.width, areas_std.messages.width);
    assert_eq!(
        areas_split.space_list.map(|r| r.width),
        areas_std.space_list.map(|r| r.width)
    );
}

#[test]
fn status_bar_is_one_row() {
    let areas = compute_areas(LayoutMode::Standard, rect(80, 24));
    assert_eq!(areas.status.height, 1);
}

#[test]
fn input_area_is_two_rows() {
    let areas = compute_areas(LayoutMode::Standard, rect(80, 24));
    assert_eq!(areas.input.height, 2);
}

#[test]
fn minimum_content_height() {
    // Even with tiny terminal, content area should have at least min height
    let areas = compute_areas(LayoutMode::Standard, rect(80, 7));
    assert!(areas.messages.height >= 4);
}

#[test]
fn members_always_none_for_now() {
    for mode in [
        LayoutMode::Standard,
        LayoutMode::Focused,
        LayoutMode::ThreadView,
        LayoutMode::Split,
    ] {
        let areas = compute_areas(mode, rect(120, 40));
        assert!(
            areas.members.is_none(),
            "members should be None for {mode:?}"
        );
    }
}

#[test]
fn thread_panel_absent_in_standard_and_focused() {
    let std = compute_areas(LayoutMode::Standard, rect(100, 30));
    let foc = compute_areas(LayoutMode::Focused, rect(100, 30));
    assert!(std.thread.is_none());
    assert!(foc.thread.is_none());
}

#[test]
fn exact_boundary_60_shows_sidebar() {
    let areas = compute_areas(LayoutMode::Standard, rect(60, 20));
    assert!(areas.space_list.is_some());
}

#[test]
fn just_below_boundary_59_hides_sidebar() {
    let areas = compute_areas(LayoutMode::Standard, rect(59, 20));
    assert!(areas.space_list.is_none());
}

#[test]
fn the_rows_of_a_window() {
    assert_eq!(rows(), vec![Limit::Min(4), Limit::Length(1), Limit::Length(2)]);
    let areas = compute_areas(LayoutMode::Focused, rect(100, 30));
    assert_eq!(areas.messages, Area { x: 0, y: 0, width: 100, height: 27 });
    assert_eq!(areas.status, Area { x: 0, y: 27, width: 100, height: 1 });
    assert_eq!(areas.input, Area { x: 0, y: 28, width: 100, height: 2 });
}

#[test]
fn the_rows_of_a_low_window() {
    for y in [0u16, 1, 2, 7, 30] {
        for height in 0..12u16 {
            for mode in [LayoutMode::Standard, LayoutMode::Focused, LayoutMode::ThreadView] {
                let area = Area { x: 0, y, width: 70, height };
                let areas = compute_areas(mode, area);
                assert_eq!(areas.messages.y, y);
                assert_eq!(areas.status.y, y + areas.messages.height, "{area:?}");
                assert_eq!(areas.input.y, areas.status.y + areas.status.height, "{area:?}");
                assert_eq!(areas.input.y + areas.input.height, y + height, "{area:?}");
                if height < 7 {
                    assert_eq!(areas.messages.height, height.min(4), "{area:?}");
                    assert!(areas.status.height <= 1 && areas.input.height <= 2, "{area:?}");
                } else {
                    assert_eq!((areas.status.height, areas.input.height), (1, 2), "{area:?}");
                }
            }
        }
    }
}

#[test]
fn the_columns_of_a_window() {
    assert!(columns(LayoutMode::Focused, 200).is_empty());
    assert!(columns(LayoutMode::Standard, 59).is_empty());
    assert_eq!(columns(LayoutMode::Standard, 60), vec![Limit::Length(24), Limit::Min(30)]);
    assert_eq!(
        columns(LayoutMode::ThreadView, 79),
        vec![Limit::Percentage(50), Limit::Percentage(50)]
    );
    assert_eq!(
        columns(LayoutMode::ThreadView, 80),
        vec![Limit::Length(24), Limit::Percentage(50), Limit::Percentage(50)]
    );
}

#[test]
fn a_thread_takes_the_half_of_a_narrow_window() {
    for x in [0u16, 1, 2, 7, 30] {
        for width in 0..80u16 {
            let area = Area { x, y: 3, width, height: 20 };
            let areas = compute_areas(LayoutMode::ThreadView, area);
            let first = (width + 1) / 2;
            assert_eq!(areas.messages, Area { x, y: 3, width: first, height: 17 });
            let second = Area { x: x + first, y: 3, width: width - first, height: 17 };
            assert_eq!(areas.thread, Some(second), "{area:?}");
        }
    }
}

#[test]
fn a_thread_stands_beside_the_list_of_a_wide_window() {
    for x in [0u16, 1, 30] {
        for width in [80u16, 81, 99, 100, 120, 121, 200, 255] {
            let area = Area { x, y: 0, width, height: 30 };
            let areas = compute_areas(LayoutMode::ThreadView, area);
            assert_eq!(areas.space_list, Some(Area { x, y: 0, width: 24, height: 27 }));
            let thread = areas.thread.unwrap();
            assert_eq!(areas.messages.x, x + 24, "{area:?}");
            assert_eq!(thread.x, areas.messages.x + areas.messages.width, "{area:?}");
            assert_eq!(thread.x + thread.width, x + width, "{area:?}");
            let half = (width + 1) / 2;
            assert!(areas.messages.width <= half && thread.width <= half, "{area:?}");
        }
    }
}

#[test]
fn columns_have_their_places() {
    let content = rect(100, 27);
    let status = Area { x: 0, y: 27, width: 100, height: 1 };
    let input = Area { x: 0, y: 28, width: 100, height: 2 };
    let left = Area { x: 0, y: 0, width: 24, height: 27 };
    let right = Area { x: 24, y: 0, width: 76, height: 27 };
    let areas = place(LayoutMode::Standard, content, &vec![left, right], status, input);
    assert_eq!(areas.space_list, Some(left));
    assert_eq!(areas.messages, right);
    assert_eq!((areas.status, areas.input), (status, input));
    let whole = compute_areas(LayoutMode::Standard, rect(100, 30));
    assert_eq!((whole.space_list, whole.messages), (Some(left), right));
}
