use gofi::fonts::{
    cjk_family_name, font_setting_value, next_font_request, split_font_size, FontRequest, FontStage,
};
use gofi::input::{handle_key_action, repeat_period_ms, repeat_step, KeyInput, RepeatEvent};
use gofi::layout::{
    max_visible_items, output_base_size, search_text, visible_rows, visible_rows_defined, OutputMode,
};
use gofi::rendering::{blend_channel, blend_pixel, glyph_plan, pick_font, pixel_offset};
use gofi::window_switcher::{GnomeWindow, WindowSwitcherState};

fn state_with(n: usize) -> WindowSwitcherState {
    let mut state = WindowSwitcherState::new();
    let windows = (0..n)
        .map(|i| GnomeWindow {
            id: i as i64 + 100,
            title: format!("Title {}", i),
            wm_class: format!("Class{}", i),
            pid: 1,
        })
        .collect();
    state.refresh(windows, 0);
    state
}

#[test]
fn max_visible_items_by_height() {
    assert_eq!(max_visible_items(0), 0);
    assert_eq!(max_visible_items(79), 0);
    assert_eq!(max_visible_items(80), 0);
    assert_eq!(max_visible_items(108), 1);
    assert_eq!(max_visible_items(600), 18);
}

#[test]
fn visible_rows_from_scroll_offset() {
    let mut state = state_with(10);
    state.selection_index = 4;
    state.scroll_offset = 2;
    // 80 + 28 * 5 = 220: rows 0..=5 start above the bottom margin.
    let rows = visible_rows(&state, 220);
    assert_eq!(rows.len(), 6);
    for (k, row) in rows.iter().enumerate() {
        assert_eq!(row.position, 2 + k);
        assert_eq!(row.window, 2 + k);
        assert_eq!(row.y, 50 + 28 * k as u32);
        assert_eq!(row.selected, 2 + k == 4);
        assert_eq!(row.label, format!("Class{} - Title {}", 2 + k, 2 + k));
    }
    // Fewer items than rows.
    state.scroll_offset = 8;
    assert_eq!(visible_rows(&state, 220).len(), 2);
    // Too short for any row.
    assert_eq!(visible_rows(&state, 79).len(), 0);
}

#[test]
fn search_bar_text() {
    assert_eq!(search_text(""), "Search: ");
    assert_eq!(search_text("fir"), "Search: fir");
}

#[test]
fn output_size_prefers_logical_then_active_mode() {
    let modes = vec![
        OutputMode { dimensions: (640, 480), current: false, preferred: false },
        OutputMode { dimensions: (1920, 1080), current: false, preferred: true },
        OutputMode { dimensions: (1280, 720), current: true, preferred: false },
    ];
    assert_eq!(output_base_size(Some((2560, 1440)), &modes), Some((2560, 1440)));
    assert_eq!(output_base_size(None, &modes), Some((1920, 1080)));
    let idle = vec![OutputMode { dimensions: (640, 480), current: false, preferred: false }];
    assert_eq!(output_base_size(None, &idle), None);
    assert_eq!(output_base_size(None, &Vec::new()), None);
}

#[test]
fn keys_move_type_and_exit() {
    let mut state = state_with(3);
    let out = handle_key_action(&mut state, KeyInput::Down, None);
    assert!(!out.exit && out.activation.is_none());
    assert_eq!(state.selection_index, 1);
    handle_key_action(&mut state, KeyInput::Up, None);
    handle_key_action(&mut state, KeyInput::Up, None);
    assert_eq!(state.selection_index, 2);

    let out = handle_key_action(&mut state, KeyInput::Other, Some("Class1".to_string()));
    assert!(!out.exit);
    assert_eq!(state.query, "Class1");
    assert_eq!(state.selection_index, 0);
    assert_eq!(state.filtered_windows[0].0, 1);

    // Text with a control character is ignored.
    handle_key_action(&mut state, KeyInput::Other, Some("\u{7}".to_string()));
    assert_eq!(state.query, "Class1");
    handle_key_action(&mut state, KeyInput::Other, None);
    assert_eq!(state.query, "Class1");

    handle_key_action(&mut state, KeyInput::BackSpace, None);
    assert_eq!(state.query, "Class");

    let out = handle_key_action(&mut state, KeyInput::Return, None);
    assert!(out.exit);
    let call = out.activation.unwrap();
    assert_eq!(call.arg.as_deref(), Some("100"));

    let out = handle_key_action(&mut state, KeyInput::Escape, None);
    assert!(out.exit && out.activation.is_none());
    assert_eq!(state.query, "Class");
}

#[test]
fn return_on_empty_list_only_exits() {
    let mut state = WindowSwitcherState::new();
    let out = handle_key_action(&mut state, KeyInput::Return, None);
    assert!(out.exit);
    assert!(out.activation.is_none());
}

#[test]
fn repeat_period() {
    assert_eq!(repeat_period_ms(25), 40);
    assert_eq!(repeat_period_ms(3), 333);
    assert_eq!(repeat_period_ms(0), 200);
    assert_eq!(repeat_period_ms(5000), 0);
}

#[test]
fn glyph_plan_skips_controls_and_marks_highlights() {
    let plan = glyph_plan("a\tb\u{1}c", &[0, 2, 3]);
    assert_eq!(plan, vec![(0, 'a', true), (2, 'b', true), (4, 'c', false)]);
    assert!(glyph_plan("", &[]).is_empty());
}

#[test]
fn font_choice_falls_back_in_order() {
    assert_eq!(pick_font(&[5, 6]), (0, 5));
    assert_eq!(pick_font(&[0, 0, 9, 4]), (2, 9));
    assert_eq!(pick_font(&[0, 0]), (0, 0));
    assert_eq!(pick_font(&[0]), (0, 0));
}

#[test]
fn pixel_offsets() {
    assert_eq!(pixel_offset(0, 0, 10, 5), Some(0));
    assert_eq!(pixel_offset(3, 2, 10, 5), Some((2 * 10 + 3) * 4));
    assert_eq!(pixel_offset(9, 4, 10, 5), Some(196));
    assert_eq!(pixel_offset(10, 0, 10, 5), None);
    assert_eq!(pixel_offset(0, 5, 10, 5), None);
    assert_eq!(pixel_offset(-1, 0, 10, 5), None);
    assert_eq!(pixel_offset(0, -1, 10, 5), None);
}

#[test]
fn blending() {
    assert_eq!(blend_channel(200, 100, 0), 100);
    assert_eq!(blend_channel(200, 100, 255), 200);
    assert_eq!(blend_channel(255, 0, 128), 128);
    assert_eq!(blend_channel(0, 255, 128), 127);
    // Stored blue, green, red, alpha; colour given red, green, blue.
    assert_eq!(blend_pixel((0, 0, 0, 0), (0, 255, 255), 255), (255, 255, 0, 255));
    assert_eq!(blend_pixel((10, 20, 30, 40), (0, 0, 0), 0), (10, 20, 30, 40));
}

#[test]
fn font_setting_parsing() {
    assert_eq!(font_setting_value("'Cantarell 11'\n"), "Cantarell 11");
    assert_eq!(font_setting_value("''Noto Sans''"), "Noto Sans");
    assert_eq!(font_setting_value(" ''' "), "");
    assert_eq!(
        split_font_size("Noto Sans CJK JP 10.5"),
        Some(("Noto Sans CJK JP".to_string(), "10.5".to_string()))
    );
    assert_eq!(split_font_size("Cantarell"), None);
}

#[test]
fn guards_for_scrolling_and_rows() {
    let mut state = state_with(4);
    assert!(!state.ensure_visible_overflows(5));
    state.selection_index = usize::MAX - 1;
    state.scroll_offset = usize::MAX - 2;
    assert!(state.ensure_visible_overflows(5));
    state.scroll_offset = usize::MAX;
    assert!(!state.ensure_visible_overflows(1));
    state.scroll_offset = 0;
    state.selection_index = usize::MAX;
    assert!(state.ensure_visible_overflows(0));
    let empty = WindowSwitcherState::new();
    assert!(!empty.ensure_visible_overflows(usize::MAX));

    state.selection_index = 0;
    assert!(visible_rows_defined(&state, 600));
    state.filtered_windows.push((9, vec![]));
    assert!(!visible_rows_defined(&state, 600));
    // The dangling item lies below the rows that fit.
    assert!(visible_rows_defined(&state, 80 + 28 * 3));
}

fn named(req: &Option<FontRequest>) -> Option<Option<String>> {
    match req {
        Some(FontRequest::Named(n)) => Some(Some(n.clone())),
        Some(FontRequest::SansSerif) => Some(None),
        None => None,
    }
}

#[test]
fn font_search_order() {
    let de = Some("Cantarell".to_string());
    let (stage, req) = next_font_request(&FontStage::Primary, &de, 0, false);
    assert_eq!(named(&req), Some(Some("Cantarell".to_string())));
    let (stage, req) = next_font_request(&stage, &de, 1, true);
    assert_eq!(named(&req), Some(Some("Noto Sans CJK JP".to_string())));
    // The first CJK family loads: the search ends, as a font is loaded.
    let (stage, req) = next_font_request(&stage, &de, 2, true);
    assert!(req.is_none());
    assert!(matches!(stage, FontStage::Finished));

    // Nothing loads anywhere: every CJK family, then sans-serif, then stop.
    let mut stage = FontStage::Primary;
    let (next, req) = next_font_request(&stage, &None, 0, false);
    assert_eq!(named(&req), Some(None));
    stage = next;
    for k in 0..6 {
        let (next, req) = next_font_request(&stage, &None, 0, false);
        assert_eq!(named(&req), Some(Some(cjk_family_name(k))));
        stage = next;
    }
    assert_eq!(cjk_family_name(5), "Droid Sans Fallback");
    let (next, req) = next_font_request(&stage, &None, 0, false);
    assert_eq!(named(&req), Some(None));
    let (_, req) = next_font_request(&next, &None, 0, false);
    assert!(req.is_none());
}

#[test]
fn key_repeat_bookkeeping() {
    let s = repeat_step(None, RepeatEvent::Start(65));
    assert_eq!((s.running, s.cancel_running, s.start_new), (Some(65), false, true));
    let s = repeat_step(Some(65), RepeatEvent::Start(66));
    assert_eq!((s.running, s.cancel_running, s.start_new), (Some(66), true, true));
    let s = repeat_step(Some(66), RepeatEvent::Stop(65));
    assert_eq!((s.running, s.cancel_running, s.start_new), (Some(66), false, false));
    let s = repeat_step(Some(66), RepeatEvent::Stop(66));
    assert_eq!((s.running, s.cancel_running, s.start_new), (None, true, false));
    let s = repeat_step(None, RepeatEvent::Stop(66));
    assert_eq!((s.running, s.cancel_running, s.start_new), (None, false, false));
}
