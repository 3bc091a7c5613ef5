use fuzzy_matcher::clangd::ClangdMatcher;
use fuzzy_matcher::FuzzyMatcher;
use gofi::window_switcher::{item_label, windows_fit_matcher, GnomeWindow, WindowSwitcherState};

fn window(id: i64, title: &str, wm_class: &str, pid: i32) -> GnomeWindow {
    GnomeWindow {
        id,
        title: title.to_string(),
        wm_class: wm_class.to_string(),
        pid,
    }
}

#[test]
fn test_filter_self_pid() {
    let mut state = WindowSwitcherState::new();
    let my_pid: i32 = 4242;
    let other_pid = if my_pid == 0 { 1 } else { my_pid - 1 };

    let listed = vec![
        GnomeWindow {
            id: 1,
            title: "Window 1".to_string(),
            wm_class: "App1".to_string(),
            pid: my_pid,
        },
        GnomeWindow {
            id: 2,
            title: "Window 2".to_string(),
            wm_class: "App2".to_string(),
            pid: other_pid,
        },
    ];

    state.refresh(listed, my_pid);

    assert_eq!(state.windows.len(), 1);
    assert_eq!(state.windows[0].pid, other_pid);
}

#[test]
fn test_ensure_visible() {
    let mut state = WindowSwitcherState::new();
    state.filtered_windows = (0..10).map(|i| (i, vec![])).collect();

    let max_items = 5;

    state.selection_index = 0;
    state.ensure_visible(max_items);
    assert_eq!(state.scroll_offset, 0);

    state.selection_index = 4;
    state.ensure_visible(max_items);
    assert_eq!(state.scroll_offset, 0);

    state.selection_index = 5;
    state.ensure_visible(max_items);
    assert_eq!(state.scroll_offset, 1);

    state.selection_index = 9;
    state.ensure_visible(max_items);
    assert_eq!(state.scroll_offset, 5);

    state.selection_index = 4;
    state.ensure_visible(max_items);
    assert_eq!(state.scroll_offset, 4);

    state.selection_index = 0;
    state.ensure_visible(max_items);
    assert_eq!(state.scroll_offset, 0);
}

#[test]
fn test_switcher_logic() {
    let mut state = WindowSwitcherState::new();
    println!("Initial windows: {}", state.windows.len());

    state.query = "a".to_string();
    state.filter();
    println!("Filtered 'a': {}", state.filtered_windows.len());

    assert_eq!(state.selection_index, 0);
}

#[test]
fn new_state_is_empty() {
    let state = WindowSwitcherState::new();
    assert!(state.windows.is_empty());
    assert!(state.filtered_windows.is_empty());
    assert_eq!(state.selection_index, 0);
    assert_eq!(state.scroll_offset, 0);
    assert_eq!(state.query, "");
    assert!(state.current().is_none());
    assert!(state.activate().is_none());
}

#[test]
fn ensure_visible_empty_list_resets_offset() {
    let mut state = WindowSwitcherState::new();
    state.scroll_offset = 7;
    state.ensure_visible(5);
    assert_eq!(state.scroll_offset, 0);
}

#[test]
fn ensure_visible_offset_past_end_resets() {
    let mut state = WindowSwitcherState::new();
    state.filtered_windows = (0..3).map(|i| (i, vec![])).collect();
    state.selection_index = 2;
    state.scroll_offset = 1;
    // No items in view: the offset moves past the selection and then past the end.
    state.ensure_visible(0);
    assert_eq!(state.scroll_offset, 3);
    state.selection_index = 3;
    state.ensure_visible(0);
    assert_eq!(state.scroll_offset, 0);
}

#[test]
fn ensure_visible_twice_changes_nothing() {
    let mut state = WindowSwitcherState::new();
    state.filtered_windows = (0..20).map(|i| (i, vec![])).collect();
    state.selection_index = 13;
    state.scroll_offset = 2;
    state.ensure_visible(4);
    let once = state.scroll_offset;
    assert!(once <= 13 && 13 < once + 4);
    state.ensure_visible(4);
    assert_eq!(state.scroll_offset, once);
}

#[test]
fn empty_query_lists_every_window_in_order() {
    let mut state = WindowSwitcherState::new();
    state.refresh(
        vec![window(10, "Mail", "Thunderbird", 1), window(11, "Term", "Alacritty", 2)],
        99,
    );
    assert_eq!(state.filtered_windows, vec![(0, vec![]), (1, vec![])]);
}

#[test]
fn refresh_keeps_order_and_drops_own_windows() {
    let mut state = WindowSwitcherState::new();
    state.refresh(
        vec![
            window(1, "a", "A", 7),
            window(2, "b", "B", 3),
            window(3, "c", "C", 7),
            window(4, "d", "D", 5),
        ],
        7,
    );
    let ids: Vec<i64> = state.windows.iter().map(|w| w.id).collect();
    assert_eq!(ids, vec![2, 4]);
    assert_eq!(state.filtered_windows.len(), 2);
}

#[test]
fn filter_ranks_by_score_then_list_order() {
    let windows = vec![
        window(1, "notes.txt - Text Editor", "gedit", 1),
        window(2, "Firefox Web Browser", "firefox", 2),
        window(3, "Terminal", "gnome-terminal", 3),
        window(4, "Files", "nautilus", 4),
        window(5, "Firefox Private", "firefox", 5),
    ];
    let mut state = WindowSwitcherState::new();
    state.refresh(windows.clone(), 0);
    state.input_text("fi");

    let matcher = ClangdMatcher::default();
    let mut expected: Vec<(i64, usize, Vec<usize>)> = Vec::new();
    for (i, w) in windows.iter().enumerate() {
        let text = format!("{} - {}", w.wm_class, w.title);
        if let Some((score, idx)) = matcher.fuzzy_indices(&text, "fi") {
            expected.push((score, i, idx));
        }
    }
    expected.sort_by(|a, b| b.0.cmp(&a.0));
    let expected: Vec<(usize, Vec<usize>)> =
        expected.into_iter().map(|(_, i, idx)| (i, idx)).collect();

    assert!(!expected.is_empty());
    assert_eq!(state.filtered_windows, expected);
    assert_eq!(state.selection_index, 0);
    assert_eq!(state.scroll_offset, 0);
}

#[test]
fn filter_keeps_only_matching_windows_with_highlights() {
    let mut state = WindowSwitcherState::new();
    state.refresh(
        vec![window(1, "Inbox", "Thunderbird", 1), window(2, "bash", "Alacritty", 2)],
        0,
    );
    state.input_text("alac");
    assert_eq!(state.filtered_windows.len(), 1);
    assert_eq!(state.filtered_windows[0].0, 1);
    // "Alacritty - bash": the four characters of "Alac" are highlighted.
    assert_eq!(state.filtered_windows[0].1, vec![0, 1, 2, 3]);
    assert_eq!(state.current().unwrap().id, 2);
}

#[test]
fn filter_with_no_match_is_empty() {
    let mut state = WindowSwitcherState::new();
    state.refresh(vec![window(1, "Inbox", "Thunderbird", 1)], 0);
    state.input_text("zzzz");
    assert!(state.filtered_windows.is_empty());
    assert!(state.current().is_none());
}

#[test]
fn typing_then_backspace_restores_list() {
    let mut state = WindowSwitcherState::new();
    state.refresh(
        vec![
            window(1, "Inbox", "Thunderbird", 1),
            window(2, "bash", "Alacritty", 2),
            window(3, "Browser", "firefox", 3),
        ],
        0,
    );
    state.input_text("b");
    let before = state.filtered_windows.clone();
    state.input_text("r");
    assert_eq!(state.query, "br");
    state.backspace();
    assert_eq!(state.query, "b");
    assert_eq!(state.filtered_windows, before);
}

#[test]
fn backspace_on_empty_query_keeps_it_empty() {
    let mut state = WindowSwitcherState::new();
    state.refresh(vec![window(1, "Inbox", "Thunderbird", 1)], 0);
    state.selection_index = 0;
    state.backspace();
    assert_eq!(state.query, "");
    assert_eq!(state.filtered_windows, vec![(0, vec![])]);
}

#[test]
fn next_and_prev_wrap_around() {
    let mut state = WindowSwitcherState::new();
    state.refresh(
        vec![window(1, "a", "A", 1), window(2, "b", "B", 2), window(3, "c", "C", 3)],
        0,
    );
    assert_eq!(state.selection_index, 0);
    state.next();
    assert_eq!(state.selection_index, 1);
    state.next();
    state.next();
    assert_eq!(state.selection_index, 0);
    state.prev();
    assert_eq!(state.selection_index, 2);
    state.next();
    assert_eq!(state.selection_index, 0);
}

#[test]
fn prev_undoes_next() {
    let mut state = WindowSwitcherState::new();
    state.refresh(
        vec![window(1, "a", "A", 1), window(2, "b", "B", 2), window(3, "c", "C", 3)],
        0,
    );
    for sel in 0..3 {
        state.selection_index = sel;
        state.next();
        state.prev();
        assert_eq!(state.selection_index, sel);
        state.prev();
        state.next();
        assert_eq!(state.selection_index, sel);
    }
}

#[test]
fn next_and_prev_on_empty_list_do_nothing() {
    let mut state = WindowSwitcherState::new();
    state.next();
    assert_eq!(state.selection_index, 0);
    state.prev();
    assert_eq!(state.selection_index, 0);
}

#[test]
fn current_and_activate_follow_the_selection() {
    let mut state = WindowSwitcherState::new();
    state.refresh(
        vec![window(41, "a", "A", 1), window(-7, "b", "B", 2)],
        0,
    );
    state.next();
    assert_eq!(state.current().unwrap().id, -7);
    let call = state.activate().unwrap();
    assert_eq!(call.method, "org.gnome.Shell.Extensions.Windows.Activate");
    assert_eq!(call.arg.as_deref(), Some("-7"));
}

#[test]
fn current_with_dangling_index_is_none() {
    let mut state = WindowSwitcherState::new();
    state.filtered_windows = vec![(3, vec![])];
    assert!(state.current().is_none());
}

#[test]
fn item_label_joins_class_and_title() {
    let w = window(1, "notes.txt", "gedit", 1);
    assert_eq!(item_label(&w), "gedit - notes.txt");
}

#[test]
fn matching_ignores_case() {
    let mut state = WindowSwitcherState::new();
    state.refresh(vec![window(1, "qux", "baz", 1)], 0);
    state.input_text("Q");
    assert_eq!(state.filtered_windows, vec![(0, vec![6])]);
}

#[test]
fn typing_only_narrows() {
    let mut state = WindowSwitcherState::new();
    state.refresh(
        vec![
            window(1, "Inbox", "Thunderbird", 1),
            window(2, "bash", "Alacritty", 2),
            window(3, "Browser", "firefox", 3),
        ],
        0,
    );
    state.input_text("b");
    let before: Vec<usize> = state.filtered_windows.iter().map(|e| e.0).collect();
    state.input_text("a");
    for (i, _) in &state.filtered_windows {
        assert!(before.contains(i));
    }
}

#[test]
fn highlights_rise_inside_labels() {
    let mut state = WindowSwitcherState::new();
    state.refresh(
        vec![window(1, "Terminal", "gnome-terminal", 1), window(2, "Files", "nautilus", 2)],
        0,
    );
    state.input_text("ter");
    assert!(!state.filtered_windows.is_empty());
    for (i, positions) in &state.filtered_windows {
        let len = item_label(&state.windows[*i]).chars().count();
        assert!(positions.iter().all(|p| *p < len));
        assert!(positions.windows(2).all(|w| w[0] < w[1]));
    }
}

#[test]
fn labels_fit_the_matcher() {
    assert!(windows_fit_matcher(&vec![window(1, "a", "b", 1)]));
    assert!(windows_fit_matcher(&Vec::new()));
}

#[test]
fn ensure_visible_selection_above_huge_offset() {
    let mut state = WindowSwitcherState::new();
    state.filtered_windows = vec![(0, vec![])];
    state.selection_index = 0;
    state.scroll_offset = usize::MAX;
    assert!(!state.ensure_visible_overflows(1));
    state.ensure_visible(1);
    assert_eq!(state.scroll_offset, 0);
}
