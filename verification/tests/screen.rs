use gitu::git::CommandSpec;
use gitu::items::{Item, Style, TargetData};
use gitu::screen::{is_same_target, items_for, Screen, ScreenKind};
use gitu::tree::{file_item, ref_items, section, text_item};

fn args(words: &[&str]) -> Vec<Vec<u8>> {
    words.iter().map(|w| w.as_bytes().to_vec()).collect()
}

fn git(words: &[&str]) -> CommandSpec {
    CommandSpec { program: b"git".to_vec(), args: args(words) }
}

fn files(names: &[&str]) -> Vec<Item> {
    names.iter().map(|n| file_item(n.as_bytes(), 1)).collect()
}

fn screen_of(roots: Vec<Item>) -> Screen {
    Screen::new(ScreenKind::Status, Vec::new(), roots, 80, 10)
}

fn five() -> Screen {
    screen_of(vec![section(b"s", files(&["a", "b"])), section(b"t", files(&["c"]))])
}

#[test]
fn a_new_screen_selects_the_first_row() {
    let screen = five();
    assert_eq!(screen.selected(), 0);
    assert_eq!(screen.scroll(), 0);
    assert_eq!(screen.size(), (80, 10));
    assert_eq!(screen.title(), &b"Status".to_vec());
    assert_eq!(screen.kind(), ScreenKind::Status);
    assert_eq!(screen.lines().len(), 5);
    assert_eq!(screen.roots().len(), 2);
    assert_eq!(Screen::open(ScreenKind::Refs, Vec::new(), 1, 2).title(), &b"Refs".to_vec());
    assert_eq!(Screen::open(ScreenKind::Log, args(&["-n", "5"]), 1, 2).args(), &args(&["-n", "5"]));
}

#[test]
fn select_next_stops_at_the_last_row() {
    let mut screen = five();
    for expected in [1, 2, 3, 4, 4, 4] {
        screen.select_next();
        assert_eq!(screen.selected(), expected);
    }
}

#[test]
fn select_previous_stops_at_the_first_row() {
    let mut screen = five();
    screen.select_previous();
    assert_eq!(screen.selected(), 0);
    screen.select_next();
    screen.select_next();
    screen.select_previous();
    assert_eq!(screen.selected(), 1);
    screen.select_previous();
    screen.select_previous();
    assert_eq!(screen.selected(), 0);
}

#[test]
fn an_empty_screen_keeps_the_selection_at_zero() {
    let mut screen = screen_of(Vec::new());
    screen.select_next();
    assert_eq!(screen.selected(), 0);
    screen.select_previous();
    assert_eq!(screen.selected(), 0);
    screen.clamp_cursor();
    assert_eq!(screen.selected(), 0);
    screen.toggle_section();
    assert_eq!(screen.selected(), 0);
    screen.scroll_half_page_down();
    assert_eq!(screen.scroll(), 0);
    screen.scroll_half_page_up();
    assert_eq!(screen.scroll(), 0);
    let item = screen.get_selected_item();
    assert_eq!(item.display, Vec::<u8>::new());
    assert_eq!(item.target_data, None);
    assert!(item.children.is_empty());
}

#[test]
fn scrolling_moves_by_half_the_rows_and_leaves_the_selection() {
    let names: Vec<String> = (0..20).map(|i| format!("f{}", i)).collect();
    let names: Vec<&str> = names.iter().map(|s| s.as_str()).collect();
    let mut screen = Screen::new(ScreenKind::Status, Vec::new(), files(&names), 80, 9);
    screen.select_next();
    screen.scroll_half_page_down();
    assert_eq!(screen.scroll(), 4);
    screen.scroll_half_page_down();
    assert_eq!(screen.scroll(), 8);
    screen.scroll_half_page_up();
    assert_eq!(screen.scroll(), 4);
    screen.scroll_half_page_up();
    screen.scroll_half_page_up();
    assert_eq!(screen.scroll(), 0);
    for _ in 0..10 {
        screen.scroll_half_page_down();
    }
    assert_eq!(screen.scroll(), 19);
    assert_eq!(screen.selected(), 1);
}

#[test]
fn folding_brings_the_selection_back_among_the_rows() {
    let mut screen = screen_of(vec![section(b"s", files(&["a", "b", "c"]))]);
    screen.select_next();
    screen.select_next();
    screen.select_next();
    assert_eq!(screen.selected(), 3);
    assert_eq!(screen.get_selected_item().display, b"c".to_vec());
    screen.toggle_section();
    assert_eq!(screen.selected(), 3);
    assert_eq!(screen.lines().len(), 4);
    screen.select_previous();
    screen.select_previous();
    screen.select_previous();
    screen.toggle_section();
    assert_eq!(screen.lines().len(), 1);
    assert_eq!(screen.selected(), 0);
    screen.toggle_section();
    assert_eq!(screen.lines().len(), 4);
}

#[test]
fn resize_sets_the_size_and_clamps() {
    let mut screen = five();
    screen.resize(40, 5);
    assert_eq!(screen.size(), (40, 5));
    assert_eq!(screen.selected(), 0);
}

#[test]
fn update_selects_what_was_selected_where_it_moved() {
    let mut screen = screen_of(vec![section(b"s", files(&["a", "b", "c"]))]);
    screen.select_next();
    screen.select_next();
    assert_eq!(screen.get_selected_item().display, b"b".to_vec());
    screen.update(vec![section(b"s", files(&["x", "y", "a", "b"]))]);
    assert_eq!(screen.selected(), 4);
    assert_eq!(screen.get_selected_item().display, b"b".to_vec());
    screen.update(vec![section(b"s", files(&["x"]))]);
    assert_eq!(screen.selected(), 1);
    screen.update(Vec::new());
    assert_eq!(screen.selected(), 0);
}

#[test]
fn update_keeps_the_index_of_a_row_without_target() {
    let mut screen = screen_of(vec![section(b"s", files(&["a", "b", "c"]))]);
    screen.update(vec![text_item(b"t", Style::Plain, 0), section(b"s", files(&["a"]))]);
    assert_eq!(screen.selected(), 0);
}

#[test]
fn update_keeps_the_fold_states() {
    let mut screen = screen_of(vec![section(b"s", files(&["a", "b"])), section(b"t", files(&["c"]))]);
    screen.toggle_section();
    assert_eq!(screen.lines().len(), 3);
    screen.update(vec![section(b"s", files(&["a", "b", "z"])), section(b"t", files(&["c", "d"]))]);
    assert_eq!(screen.lines().len(), 4);
    assert!(screen.roots()[0].collapsed);
}

#[test]
fn targets_are_the_same_by_what_they_name() {
    let a = TargetData::File(b"a".to_vec());
    assert!(is_same_target(&a, &TargetData::File(b"a".to_vec())));
    assert!(!is_same_target(&a, &TargetData::File(b"b".to_vec())));
    assert!(!is_same_target(&a, &TargetData::Ref(b"a".to_vec())));
    assert!(is_same_target(&TargetData::Ref(b"r".to_vec()), &TargetData::Ref(b"r".to_vec())));
}

#[test]
fn each_kind_of_screen_has_its_queries() {
    let status = Screen::open(ScreenKind::Status, Vec::new(), 80, 24);
    assert_eq!(
        status.queries(),
        vec![git(&["status", "--porcelain", "--branch"]), git(&["diff"]), git(&["diff", "--staged"])]
    );
    let diff = Screen::open(ScreenKind::Diff, args(&["HEAD~1"]), 80, 24);
    assert_eq!(diff.queries(), vec![git(&["diff", "HEAD~1"])]);
    let log = Screen::open(ScreenKind::Log, args(&["-n", "3"]), 80, 24);
    assert_eq!(log.queries(), vec![git(&["log", "--oneline", "-n", "3"])]);
    let show = Screen::open(ScreenKind::Show, args(&["abc"]), 80, 24);
    assert_eq!(show.queries(), vec![git(&["show", "abc"])]);
    let refs = Screen::open(ScreenKind::Refs, Vec::new(), 80, 24);
    assert_eq!(
        refs.queries(),
        vec![git(&["for-each-ref", "--format=%(refname:short)", "refs/heads", "refs/tags"])]
    );
}

#[test]
fn refresh_fills_the_screen_from_the_output_of_its_queries() {
    let mut screen = Screen::open(ScreenKind::Status, Vec::new(), 80, 24);
    screen.refresh(&vec![
        b"?? new-file\n".to_vec(),
        b"diff --git a/f b/f\n--- a/f\n+++ b/f\n@@ -1 +1 @@\n-a\n+b\n".to_vec(),
    ]);
    let shown: Vec<Vec<u8>> = screen.lines().iter().map(|i| i.display.clone()).collect();
    let expected: Vec<Vec<u8>> = [
        &b"Untracked files"[..],
        b"new-file",
        b"Unstaged changes",
        b"f",
        b"@@ -1,1 +1,1 @@",
        b"-a",
        b"+b",
        b"Staged changes",
    ]
    .iter()
    .map(|s| s.to_vec())
    .collect();
    assert_eq!(shown, expected);
    let mut log = Screen::open(ScreenKind::Log, Vec::new(), 80, 24);
    log.refresh(&vec![b"abc one\ndef two\n".to_vec()]);
    assert_eq!(log.roots(), &ref_items(b"abc one\ndef two\n"));
    assert_eq!(items_for(ScreenKind::Refs, &Vec::new()), Vec::<Item>::new());
    assert_eq!(items_for(ScreenKind::Show, &vec![b"".to_vec()]), Vec::<Item>::new());
}

#[test]
fn the_window_follows_the_selection() {
    let names: Vec<String> = (0..20).map(|i| format!("f{}", i)).collect();
    let names: Vec<&str> = names.iter().map(|s| s.as_str()).collect();
    let mut screen = Screen::new(ScreenKind::Status, Vec::new(), files(&names), 80, 4);
    assert_eq!(screen.window_start(), 0);
    for _ in 0..3 {
        screen.select_next();
    }
    assert_eq!(screen.window_start(), 0);
    screen.select_next();
    assert_eq!(screen.window_start(), 1);
    assert_eq!(screen.scroll(), 0);
    screen.scroll_half_page_down();
    screen.scroll_half_page_down();
    screen.scroll_half_page_down();
    assert_eq!(screen.scroll(), 6);
    assert_eq!(screen.window_start(), 4);
    screen.select_next();
    screen.select_next();
    screen.select_next();
    assert_eq!(screen.selected(), 7);
    assert_eq!(screen.window_start(), 6);
    screen.update(files(&["a", "b"]));
    assert_eq!(screen.selected(), 1);
    assert_eq!(screen.scroll(), 6);
    assert_eq!(screen.window_start(), 1);
    screen.resize(80, 0);
    assert_eq!(screen.window_start(), 1);
    assert_eq!(screen_of(Vec::new()).window_start(), 0);
}
