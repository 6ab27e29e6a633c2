use ember_term::selection::{
    click_selection_should_clear, parse_selection_mode, Point, Selection, SelectionMode,
};
use ember_term::titles::{
    match_tab_title, match_tab_title_across, step_selectable_row, tab_display_title,
    url_is_openable, RowKind,
};

#[test]
fn only_http_and_https_pass_the_open_guard() {
    assert!(url_is_openable("http://example.com"));
    assert!(url_is_openable("https://example.com/a?b#c"));
    assert!(!url_is_openable("file:///etc/passwd"));
    assert!(!url_is_openable("javascript:alert(1)"));
    assert!(!url_is_openable("ftp://example.com"));
    assert!(!url_is_openable("httpss://example.com"));
    assert!(url_is_openable("HTTP://EXAMPLE.COM"));
    assert!(url_is_openable("HtTpS://example.com"));
}

#[test]
fn tab_display_title_falls_back_to_the_tab_number() {
    assert_eq!(tab_display_title("build", 0), "build");
    assert_eq!(tab_display_title("", 0), "1");
    assert_eq!(tab_display_title("", 4), "5");
}

#[test]
fn plain_click_clears_but_drag_word_and_line_selections_survive() {
    let should_clear = |s: Option<&Selection>| click_selection_should_clear(s);
    let sel = |anchor: (u16, u16), active: (u16, u16), mode| Selection {
        anchor: Point::new(anchor.0, anchor.1),
        active: Point::new(active.0, active.1),
        mode,
    };
    assert!(should_clear(Some(&sel((2, 3), (2, 3), SelectionMode::Simple))));
    assert!(!should_clear(Some(&sel((2, 3), (2, 4), SelectionMode::Simple))));
    assert!(!should_clear(Some(&sel((2, 3), (5, 1), SelectionMode::Simple))));
    assert!(!should_clear(Some(&sel((2, 3), (2, 3), SelectionMode::Word))));
    assert!(!should_clear(Some(&sel((2, 3), (2, 3), SelectionMode::Line))));
    assert!(!should_clear(None));
}

#[test]
fn selection_modes_are_read() {
    assert_eq!(parse_selection_mode("word"), SelectionMode::Word);
    assert_eq!(parse_selection_mode("line"), SelectionMode::Line);
    assert_eq!(parse_selection_mode("anything"), SelectionMode::Simple);
}

#[test]
fn tab_title_matching_is_case_insensitive_substring_first_match() {
    let titles: Vec<String> =
        ["Agent Alpha", "build", "agent beta"].iter().map(|s| s.to_string()).collect();
    assert_eq!(match_tab_title(&titles, "agent"), Some(0), "first match wins");
    assert_eq!(match_tab_title(&titles, "BETA"), Some(2));
    assert_eq!(match_tab_title(&titles, "uild"), Some(1), "substring");
    assert_eq!(match_tab_title(&titles, "gamma"), None);
}

#[test]
fn tab_title_matching_across_windows_first_window_wins_ties() {
    let windows = vec![
        vec!["alpha".to_string(), "shared".to_string()],
        vec!["shared".to_string(), "beta".to_string()],
    ];
    assert_eq!(
        match_tab_title_across(&windows, "shared"),
        Some((0, 1)),
        "first window wins the tie"
    );
}

#[test]
fn tab_title_matching_across_windows_is_case_insensitive_substring() {
    let windows = vec![vec!["Agent Alpha".to_string()], vec!["agent beta".to_string()]];
    assert_eq!(match_tab_title_across(&windows, "BETA"), Some((1, 0)));
    assert_eq!(
        match_tab_title_across(&windows, "gent"),
        Some((0, 0)),
        "substring, first window wins"
    );
}

#[test]
fn tab_title_matching_across_windows_miss_returns_none() {
    let windows = vec![vec!["alpha".to_string()], vec!["beta".to_string()]];
    assert_eq!(match_tab_title_across(&windows, "gamma"), None);
}

#[test]
fn stepping_passes_headings_and_stays_at_the_ends() {
    let rows = [
        RowKind::SectionHeader,
        RowKind::Setting,
        RowKind::SectionHeader,
        RowKind::Setting,
    ];
    assert_eq!(step_selectable_row(&rows, 1, true), 3);
    assert_eq!(step_selectable_row(&rows, 3, true), 3);
    assert_eq!(step_selectable_row(&rows, 3, false), 1);
    assert_eq!(step_selectable_row(&rows, 1, false), 1);
    assert_eq!(step_selectable_row(&rows, 9, false), 9);
}
