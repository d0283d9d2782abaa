use hunter_core::builder::{population_range, BuildError, FileListBuilder};
use hunter_core::files::{FileEntry, Files, Meta, SortBy};
use hunter_core::listview::{matches_lowered, FileListAction, ListError, ListView};
use hunter_core::text::{contains_str, name_le, sized_string};

fn entry(name: &str, is_dir: bool, mtime: u64) -> FileEntry {
    FileEntry {
        name: name.to_string(),
        is_dir,
        hidden: name.starts_with('.'),
        selected: false,
        tagged: false,
        meta: Some(Meta { size: mtime * 10, mtime }),
    }
}

fn names(v: &ListView) -> Vec<String> {
    (0..v.len()).map(|i| v.content.get(i).name.clone()).collect()
}

fn selected_name(v: &ListView) -> String {
    v.clone_selected_file().unwrap().name
}

fn sample() -> ListView {
    let files = Files::new(vec![
        entry("delta", false, 4),
        entry("alpha", false, 9),
        entry(".hidden", false, 1),
        entry("Charlie", false, 2),
        entry("bin", true, 7),
        entry("beta", false, 5),
    ]);
    ListView::new(3, files)
}

#[test]
fn listing_sorts_dirs_first_and_hides_dotfiles() {
    let v = sample();
    assert_eq!(names(&v), vec!["bin", "Charlie", "alpha", "beta", "delta"]);
    assert_eq!(v.content.files.len(), 6);
    assert_eq!(selected_name(&v), "bin");
}

#[test]
fn sorting_keeps_the_selected_entry() {
    let mut v = sample();
    v.set_selection(3);
    assert_eq!(selected_name(&v), "beta");
    v.cycle_sort();
    assert_eq!(v.content.sort, SortBy::Size);
    assert_eq!(names(&v), vec!["bin", "Charlie", "delta", "beta", "alpha"]);
    assert_eq!(selected_name(&v), "beta");
    assert_eq!(v.get_selection(), 3);
    v.reverse_sort();
    assert_eq!(names(&v), vec!["bin", "alpha", "beta", "delta", "Charlie"]);
    assert_eq!(selected_name(&v), "beta");
    assert_eq!(v.get_selection(), 2);
    v.toggle_dirs_first();
    assert_eq!(names(&v), vec!["alpha", "bin", "beta", "delta", "Charlie"]);
    assert_eq!(selected_name(&v), "beta");
}

#[test]
fn filtering_keeps_or_resets_the_selection() {
    let mut v = sample();
    v.set_selection(4);
    assert_eq!(selected_name(&v), "delta");
    v.filter(Some("e".to_string()));
    assert_eq!(names(&v), vec!["Charlie", "beta", "delta"]);
    assert_eq!(selected_name(&v), "delta");
    v.filter(Some("a".to_string()));
    assert_eq!(names(&v), vec!["Charlie", "alpha", "beta", "delta"]);
    assert_eq!(selected_name(&v), "delta");
    v.filter(Some("ph".to_string()));
    assert_eq!(names(&v), vec!["alpha"]);
    assert_eq!(v.get_selection(), 0);
    v.filter(None);
    assert_eq!(v.len(), 5);
    assert_eq!(selected_name(&v), "alpha");
}

#[test]
fn hidden_toggle_keeps_the_selection() {
    let mut v = sample();
    v.set_selection(2);
    v.toggle_hidden();
    assert_eq!(names(&v), vec!["bin", ".hidden", "Charlie", "alpha", "beta", "delta"]);
    assert_eq!(selected_name(&v), "alpha");
    v.set_selection(1);
    v.toggle_hidden();
    assert_eq!(v.get_selection(), 0);
}

#[test]
fn marks_and_selection_filter() {
    let mut v = sample();
    v.multi_select_file();
    assert_eq!(v.get_selection(), 1);
    v.multi_select_file();
    assert!(v.content.get(0).selected);
    assert!(v.content.get(1).selected);
    v.toggle_filter_selected();
    assert_eq!(names(&v), vec!["bin", "Charlie"]);
    v.toggle_filter_selected();
    v.invert_selection();
    let marked: Vec<bool> = (0..v.len()).map(|i| v.content.get(i).selected).collect();
    assert_eq!(marked, vec![false, false, true, true, true]);
    v.clear_selections();
    assert!((0..v.len()).all(|i| !v.content.get(i).selected));
    v.toggle_filter_selected();
    assert!(!v.content.filter_selected);
    assert_eq!(v.len(), 5);
}

#[test]
fn tagging_moves_down() {
    let mut v = sample();
    v.toggle_tag();
    assert!(v.content.get(0).tagged);
    assert_eq!(v.get_selection(), 1);
}

#[test]
fn search_ignores_case_and_does_not_wrap() {
    let mut v = sample();
    assert_eq!(v.search_next(), Err(ListError::NoSearchPattern));
    assert_eq!(v.search_file("CH".to_string()), Ok(()));
    assert_eq!(selected_name(&v), "Charlie");
    assert_eq!(v.search_next(), Err(ListError::NoMoreMatches));
    assert_eq!(selected_name(&v), "Charlie");
    assert_eq!(v.search_file("TA".to_string()), Ok(()));
    assert_eq!(selected_name(&v), "beta");
    assert_eq!(v.search_next(), Ok(()));
    assert_eq!(selected_name(&v), "delta");
    assert_eq!(v.search_next(), Err(ListError::NoMoreMatches));
    assert_eq!(v.search_prev(), Ok(()));
    assert_eq!(selected_name(&v), "beta");
    assert_eq!(v.search_prev(), Err(ListError::NoMoreMatches));
    assert_eq!(v.search_file("zzz".to_string()), Err(ListError::NoMoreMatches));
}

#[test]
fn mtime_walk_steps_through_modification_order() {
    let mut v = sample();
    v.select_next_mtime();
    assert_eq!(selected_name(&v), "Charlie");
    v.select_next_mtime();
    assert_eq!(selected_name(&v), "delta");
    v.select_next_mtime();
    assert_eq!(selected_name(&v), "beta");
    assert_eq!(names(&v), vec!["bin", "Charlie", "alpha", "beta", "delta"]);
    v.move_down();
    v.select_prev_mtime();
    assert_eq!(selected_name(&v), "alpha");
    v.select_prev_mtime();
    assert_eq!(selected_name(&v), "bin");
}

#[test]
fn text_helpers() {
    assert!(contains_str("hello", "ll"));
    assert!(contains_str("hello", ""));
    assert!(!contains_str("hello", "lo!"));
    assert!(!contains_str("", "a"));
    assert!(name_le("abc", "abd"));
    assert!(name_le("ab", "abc"));
    assert!(!name_le("b", "abc"));
    assert!(name_le("B", "a"));
    assert!(matches_lowered("readme", "adm"));
}

#[test]
fn population_covers_window_and_one_more() {
    assert_eq!(population_range(100, 10, 20, false), (10, 31));
    assert_eq!(population_range(100, 10, 20, true), (0, 100));
    assert_eq!(population_range(15, 10, 20, false), (10, 15));
    assert_eq!(population_range(0, 0, 5, false), (0, 0));
}

fn big_listing(n: usize) -> Files {
    let mut v = Vec::new();
    for i in 0..n {
        v.push(FileEntry {
            name: format!("f{:03}", i),
            is_dir: false,
            hidden: false,
            selected: false,
            tagged: false,
            meta: None,
        });
    }
    Files::new(v)
}

#[test]
fn builder_populates_the_visible_window() {
    let files = big_listing(100);
    let target = files.get(10).clone();
    let build = FileListBuilder::new(20, files).select(Some(target)).build();
    assert_eq!(build.view.get_selection(), 10);
    assert_eq!(build.view.view.offset, 0);
    assert_eq!((build.from, build.upto), (0, 21));
    assert_eq!(build.view.content.meta_upto, Some(21));
    let files = big_listing(100);
    let target = files.get(30).clone();
    let build = FileListBuilder::new(20, files).select(Some(target)).meta_upto(Some(3)).build();
    assert_eq!(build.view.view.offset, 20);
    assert_eq!((build.from, build.upto), (20, 41));
    let results: Vec<(usize, Meta)> = (build.from..build.upto)
        .map(|i| (i, Meta { size: i as u64, mtime: 1 }))
        .chain(std::iter::once((500, Meta { size: 0, mtime: 0 })))
        .collect();
    let view = build.finish(&results).unwrap();
    assert_eq!(view.content.get(20).meta, Some(Meta { size: 20, mtime: 1 }));
    assert_eq!(view.content.get(40).meta, Some(Meta { size: 40, mtime: 1 }));
    assert_eq!(view.content.get(41).meta, None);
    assert_eq!(view.content.get(19).meta, None);
}

#[test]
fn builder_all_rows() {
    let build = FileListBuilder::new(5, big_listing(12)).meta_all().build();
    assert_eq!((build.from, build.upto), (0, 12));
}

#[test]
fn builder_without_selection_starts_at_top() {
    let mut files = big_listing(4);
    files.toggle_hidden();
    let build = FileListBuilder::new(2, files).select(None).prerender().build();
    assert_eq!(build.view.get_selection(), 0);
    assert!(!build.view.content.dirty);
}

#[test]
fn stale_build_is_discarded() {
    let build = FileListBuilder::new(5, big_listing(8)).build();
    let results = vec![(0usize, Meta { size: 1, mtime: 1 })];
    assert!(matches!(build.finish_with(&results, true), Err(BuildError::Stale)));
    let token = async_value::Stale::new();
    let build = FileListBuilder::new(5, big_listing(8)).with_stale(Some(token.clone())).build();
    token.set_stale().unwrap();
    assert!(matches!(build.finish(&results), Err(BuildError::Stale)));
    let token = async_value::Stale::new();
    let build = FileListBuilder::new(5, big_listing(8)).with_stale(Some(token)).build();
    let view = build.finish(&results).unwrap();
    assert_eq!(view.content.get(0).meta, Some(Meta { size: 1, mtime: 1 }));
}

#[test]
fn goto_new_listing_resets_cursor() {
    let mut v = sample();
    v.move_bottom();
    assert_eq!(v.get_selection(), 4);
    v.set_content(big_listing(3));
    assert_eq!(v.get_selection(), 0);
    assert_eq!(selected_name(&v), "f000");
    v.page_down();
    assert_eq!(v.get_selection(), 2);
    v.page_up();
    v.move_top();
    assert_eq!(v.get_selection(), 0);
    assert_eq!(v.selected_file().unwrap().name, "f000");
}

#[test]
fn actions_dispatch() {
    let mut v = sample();
    v.set_selection(3);
    assert_eq!(v.do_action(FileListAction::SearchNext), Err(ListError::NoSearchPattern));
    assert_eq!(v.do_action(FileListAction::CycleSort), Ok(()));
    assert_eq!(selected_name(&v), "beta");
    assert_eq!(v.do_action(FileListAction::ToggleHidden), Ok(()));
    assert_eq!(v.len(), 6);
    assert_eq!(selected_name(&v), "beta");
    assert_eq!(v.do_action(FileListAction::Select), Ok(()));
    assert_eq!(v.do_action(FileListAction::FilterSelection), Ok(()));
    assert_eq!(names(&v), vec!["beta"]);
    assert_eq!(v.current_item.as_ref().unwrap().name, "beta");
    assert_eq!(v.do_action(FileListAction::ClearSelection), Ok(()));
    assert_eq!(v.do_action(FileListAction::ToggleTag), Ok(()));
}

#[test]
fn names_cut_to_display_width() {
    assert_eq!(sized_string("hello", 3), "hel");
    assert_eq!(sized_string("hello", 10), "hello");
    assert_eq!(sized_string("日本語", 4), "日本");
    assert_eq!(sized_string("日本語", 5), "日本");
    assert_eq!(sized_string("ab", 0), "");
    assert_eq!(sized_string("", 3), "");
}

#[test]
fn filter_session_restores_start() {
    let mut v = sample();
    v.set_selection(4);
    let start = v.clone_selected_file();
    v.filter_from(Some("ph".to_string()), &start);
    assert_eq!(names(&v), vec!["alpha"]);
    assert_eq!(v.get_selection(), 0);
    v.filter_from(Some("e".to_string()), &start);
    assert_eq!(selected_name(&v), "delta");
    v.filter_from(Some("ph".to_string()), &start);
    v.filter_from(None, &start);
    assert_eq!(selected_name(&v), "delta");
}

#[test]
fn cancelled_search_returns_to_start() {
    let mut v = sample();
    v.set_selection(2);
    let start = v.clone_selected_file();
    assert_eq!(v.search_file("del".to_string()), Ok(()));
    assert_eq!(selected_name(&v), "delta");
    v.cancel_search(&start);
    assert_eq!(selected_name(&v), "alpha");
}

#[test]
fn marked_only_toggle_needs_marks() {
    let mut v = sample();
    v.toggle_filter_selected();
    assert!(!v.content.filter_selected);
    v.multi_select_file();
    v.toggle_filter_selected();
    assert!(v.content.filter_selected);
    assert_eq!(names(&v), vec!["bin"]);
}

#[test]
fn empty_directory_gets_placeholder() {
    let mut v = sample();
    v.set_content(Files::new(Vec::new()));
    assert_eq!(v.len(), 1);
    assert_eq!(selected_name(&v), "<empty>");
}

#[test]
fn directory_rows_get_sizes() {
    let files = Files::new(vec![
        entry("a", true, 1),
        entry("b", true, 1),
        entry("c", false, 1),
        entry("d", false, 1),
    ]);
    let build = FileListBuilder::new(1, files).build();
    assert_eq!((build.from, build.upto), (0, 2));
    assert_eq!(build.dirsize_rows(), vec![0, 1]);
    let build = FileListBuilder::new(5, Files::new(vec![entry("x", false, 1), entry("y", true, 1)])).build();
    assert_eq!(build.dirsize_rows(), vec![0]);
    let view = build.finish(&Vec::new()).unwrap();
    assert!(!view.content.dirty);
    assert_eq!(view.current_item.unwrap().name, "y");
}
