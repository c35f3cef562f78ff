use ddc::browse_tui::app::{Message, Modal, UiError, UiMode, PROJECTS_TAB, TOOLING_TAB};
use ddc::browse_tui::helpers::clamp_percent;
use ddc::browse_tui::model::{list_directory, move_selection, DirItem, Navigation};
use ddc::browse_tui::widgets::{PopUp, PopUpState};
use ddc::browse_tui::App;
use ddc::discovery::{ParentInfo, ProjectResult, ToolingResult};
use ddc::display_tools::{size_label, size_text_or, ColorCode};
use ddc::file_info::FileMeta;
use ddc::files_db::FilesDB;
use ddc::path::EntryPath;
use ddc::types::Language;

fn path(text: &str) -> EntryPath {
    EntryPath::from_str(text)
}

fn index() -> FilesDB {
    let mut db = FilesDB::new();
    let dir = FileMeta { is_dir: true, size: Some(100), touched: None };
    let file = |size| FileMeta { is_dir: false, size: Some(size), touched: None };
    db.add(path("/p"), dir);
    db.add(path("/p/one"), dir);
    db.add(path("/p/one/target"), dir);
    db.add(path("/p/one/target/a.bin"), file(1));
    db.add(path("/p/one/target/deep"), dir);
    db.add(path("/p/one/target/deep/b.bin"), file(2));
    db.add(path("/p/one/target/empty"), dir);
    db.add(path("/p/one/target/z.bin"), FileMeta { is_dir: false, size: None, touched: None });
    db.add(path("/p/two"), dir);
    db.add(path("/cache"), dir);
    db.add(path("/cache/tool"), dir);
    db.add(path("/cache/tool/blob"), file(7));
    db
}

fn app() -> App {
    let projects = vec![
        ProjectResult {
            path: path("/p/one/target"),
            lang: Language::Rust,
            size: 303,
            last_update: None,
            parent: Some(ParentInfo { path: path("/p/one"), size: 403 }),
        },
        ProjectResult { path: path("/p/two"), lang: Language::Python, size: 100, last_update: None, parent: None },
        ProjectResult { path: path("/gone"), lang: Language::JS, size: 0, last_update: None, parent: None },
    ];
    let tools = vec![
        ToolingResult { description: "Tool".to_string(), path: path("/cache/tool"), lang: None, size: 107, last_update: None },
        ToolingResult { description: "Root".to_string(), path: path("/"), lang: None, size: 0, last_update: None },
    ];
    App::new(projects, tools, index())
}

fn names(app: &App) -> Vec<String> {
    app.current_frame()
        .unwrap()
        .directory_list
        .iter()
        .map(|item| String::from_utf8(item.name.clone()).unwrap())
        .collect()
}

#[test]
fn selection_moves_within_the_list() {
    assert_eq!(move_selection(Some(0), 5, Navigation::Down), Some(1));
    assert_eq!(move_selection(Some(4), 5, Navigation::Down), Some(4));
    assert_eq!(move_selection(Some(0), 5, Navigation::Up), Some(0));
    assert_eq!(move_selection(Some(3), 5, Navigation::Up), Some(2));
    assert_eq!(move_selection(Some(1), 5, Navigation::PageDown(2)), Some(3));
    assert_eq!(move_selection(Some(1), 5, Navigation::PageDown(10)), Some(4));
    assert_eq!(move_selection(Some(1), 5, Navigation::PageDown(usize::MAX)), Some(4));
    assert_eq!(move_selection(Some(4), 5, Navigation::PageUp(3)), Some(1));
    assert_eq!(move_selection(Some(4), 5, Navigation::PageUp(30)), Some(0));
    assert_eq!(move_selection(Some(2), 5, Navigation::Home), Some(0));
    assert_eq!(move_selection(Some(2), 5, Navigation::End), Some(4));
    assert_eq!(move_selection(Some(9), 5, Navigation::Up), Some(4));
}

#[test]
fn selection_of_an_empty_list_is_none() {
    for nav in [Navigation::Up, Navigation::Down, Navigation::Home, Navigation::End, Navigation::PageUp(1), Navigation::PageDown(1)] {
        assert_eq!(move_selection(Some(0), 0, nav), None);
        assert_eq!(move_selection(None, 0, nav), None);
    }
}

#[test]
fn selection_starts_where_the_step_leads() {
    assert_eq!(move_selection(None, 5, Navigation::Down), Some(0));
    assert_eq!(move_selection(None, 5, Navigation::Up), Some(4));
    assert_eq!(move_selection(None, 5, Navigation::PageDown(2)), Some(2));
    assert_eq!(move_selection(None, 5, Navigation::PageUp(2)), Some(0));
    assert_eq!(move_selection(None, 5, Navigation::Home), Some(0));
    assert_eq!(move_selection(None, 5, Navigation::End), Some(4));
}

#[test]
fn a_listing_shows_one_level_with_what_directories_add_up_to() {
    let db = index();
    let items = list_directory(&db, &path("/p/one/target"));
    let shown: Vec<(String, bool, Option<u64>)> = items
        .iter()
        .map(|i| (String::from_utf8(i.name.clone()).unwrap(), i.is_directory, i.size))
        .collect();
    assert_eq!(
        shown,
        vec![
            ("a.bin".to_string(), false, Some(1)),
            ("deep".to_string(), true, Some(102)),
            ("empty".to_string(), true, Some(100)),
            ("z.bin".to_string(), false, None),
        ]
    );
    assert_eq!(items[1].path, path("/p/one/target/deep"));
    assert!(list_directory(&db, &path("/p/one/target/empty")).is_empty());
    assert!(list_directory(&db, &path("/nowhere")).is_empty());
}

#[test]
fn a_line_for_an_entry_without_a_name() {
    let mut db = FilesDB::new();
    db.add(path("/"), FileMeta { is_dir: true, size: Some(5), touched: None });
    db.add(path("/x"), FileMeta { is_dir: false, size: Some(6), touched: None });
    let root = path("/");
    let mut it = db.iter_dir(&root);
    let info = it.next().unwrap();
    let item = DirItem::from_file_info(&info, &db);
    assert_eq!(item.name, b"?".to_vec());
    assert_eq!(item.size, Some(11));
    assert!(item.is_directory);
    let copy = item.clone();
    assert_eq!(copy.name, item.name);
    assert_eq!(copy.path, item.path);
}

#[test]
fn the_browser_starts_on_the_projects() {
    let app = app();
    assert!(app.is_running());
    assert_eq!(app.mode(), UiMode::Normal);
    assert_eq!(app.selected_tab(), PROJECTS_TAB);
    assert_eq!(app.projects().1, Some(0));
    assert_eq!(app.projects().0.len(), 3);
    assert_eq!(app.tools().1, Some(0));
    assert!(app.current_frame().is_none());
    assert_eq!(app.error_message(), None);

    let empty = App::new(Vec::new(), Vec::new(), FilesDB::new());
    assert_eq!(empty.projects().1, None);
    assert_eq!(empty.tools().1, None);
}

#[test]
fn messages_move_the_selection_of_the_tab() {
    let mut app = app();
    app.update(Message::MoveDown);
    assert_eq!(app.projects().1, Some(1));
    app.update(Message::End);
    assert_eq!(app.projects().1, Some(2));
    app.update(Message::MoveDown);
    assert_eq!(app.projects().1, Some(2));
    app.update(Message::Home);
    assert_eq!(app.projects().1, Some(0));
    app.set_page_size(2);
    app.update(Message::PageDown);
    assert_eq!(app.projects().1, Some(2));
    app.update(Message::PageUp);
    assert_eq!(app.projects().1, Some(0));
    app.update(Message::MoveUp);
    assert_eq!(app.projects().1, Some(0));
    assert_eq!(app.tools().1, Some(0));

    app.update(Message::SelectTab(TOOLING_TAB));
    assert_eq!(app.selected_tab(), TOOLING_TAB);
    app.update(Message::MoveDown);
    assert_eq!(app.tools().1, Some(1));
    assert_eq!(app.projects().1, Some(0));
}

#[test]
fn enter_opens_the_selected_project() {
    let mut app = app();
    app.update(Message::Enter);
    assert_eq!(app.error_message(), None);
    assert_eq!(app.current_frame().unwrap().cwd, path("/p/one/target"));
    assert_eq!(app.current_frame().unwrap().selected, Some(0));
    assert_eq!(names(&app), vec!["a.bin", "deep", "empty", "z.bin"]);

    // a file is not entered
    app.update(Message::Enter);
    assert_eq!(app.error_message(), Some(UiError::NotADirectory));
    assert_eq!(app.current_frame().unwrap().cwd, path("/p/one/target"));

    // the next message forgets the error
    app.update(Message::MoveDown);
    assert_eq!(app.error_message(), None);
    assert_eq!(app.current_frame().unwrap().selected, Some(1));
    assert_eq!(app.projects().1, Some(0));

    app.update(Message::Enter);
    assert_eq!(app.current_frame().unwrap().cwd, path("/p/one/target/deep"));
    assert_eq!(names(&app), vec!["b.bin"]);

    app.update(Message::GoBack);
    assert_eq!(app.current_frame().unwrap().cwd, path("/p/one/target"));
    assert_eq!(app.current_frame().unwrap().selected, Some(1));

    // a directory without content is not entered
    app.update(Message::MoveDown);
    app.update(Message::Enter);
    assert_eq!(app.error_message(), Some(UiError::EmptyDirectory));
    assert_eq!(app.current_frame().unwrap().cwd, path("/p/one/target"));

    app.update(Message::GoBack);
    assert!(app.current_frame().is_none());
    app.update(Message::GoBack);
    assert!(app.current_frame().is_none());
}

#[test]
fn enter_needs_something_to_open() {
    let mut app = app();
    app.update(Message::End);
    app.update(Message::Enter);
    assert_eq!(app.error_message(), Some(UiError::EmptyDirectory));

    let mut empty = App::new(Vec::new(), Vec::new(), FilesDB::new());
    empty.update(Message::Enter);
    assert_eq!(empty.error_message(), Some(UiError::NoItemSelected));
    empty.update(Message::SelectTab(TOOLING_TAB));
    empty.update(Message::Enter);
    assert_eq!(empty.error_message(), Some(UiError::NoItemSelected));
}

#[test]
fn enter_parent_opens_what_holds_the_result() {
    let mut app = app();
    app.update(Message::EnterParent);
    assert_eq!(app.current_frame().unwrap().cwd, path("/p/one"));
    assert_eq!(names(&app), vec!["target"]);

    // only the tabs know parents
    app.update(Message::EnterParent);
    assert_eq!(app.error_message(), Some(UiError::ParentOnlyInOverview));
    assert_eq!(app.current_frame().unwrap().cwd, path("/p/one"));

    app.update(Message::GoBack);
    app.update(Message::MoveDown);
    app.update(Message::EnterParent);
    assert_eq!(app.error_message(), Some(UiError::NoParent));
    assert!(app.current_frame().is_none());

    app.update(Message::SelectTab(TOOLING_TAB));
    app.update(Message::EnterParent);
    assert_eq!(app.current_frame().unwrap().cwd, path("/cache"));
    app.update(Message::SelectTab(TOOLING_TAB));
    assert!(app.current_frame().is_none());
    app.update(Message::MoveDown);
    app.update(Message::EnterParent);
    assert_eq!(app.error_message(), Some(UiError::NoParent));
}

#[test]
fn choosing_a_tab_closes_the_directories() {
    let mut app = app();
    app.update(Message::Enter);
    app.update(Message::MoveDown);
    app.update(Message::Enter);
    assert!(app.current_frame().is_some());
    app.update(Message::SelectTab(PROJECTS_TAB));
    assert!(app.current_frame().is_none());
    assert_eq!(app.selected_tab(), PROJECTS_TAB);

    app.update(Message::Enter);
    app.update(Message::SelectTab(7));
    assert!(app.current_frame().is_some());
    assert_eq!(app.selected_tab(), PROJECTS_TAB);
}

#[test]
fn a_window_over_the_browser_hears_little() {
    let mut app = app();
    app.update(Message::Close);
    assert_eq!(app.mode(), UiMode::Normal);
    app.update(Message::Help);
    assert_eq!(app.mode(), UiMode::Modal(Modal::Help));
    app.update(Message::MoveDown);
    app.update(Message::Enter);
    app.update(Message::SelectTab(TOOLING_TAB));
    app.update(Message::Help);
    app.update(Message::Refresh);
    assert_eq!(app.projects().1, Some(0));
    assert!(app.current_frame().is_none());
    assert_eq!(app.selected_tab(), PROJECTS_TAB);
    assert_eq!(app.mode(), UiMode::Modal(Modal::Help));
    assert!(app.is_running());
    app.update(Message::Close);
    assert_eq!(app.mode(), UiMode::Normal);
    app.update(Message::Help);
    app.update(Message::Quit);
    assert!(!app.is_running());
}

#[test]
fn quit_ends_the_browser() {
    let mut app = app();
    app.update(Message::Refresh);
    assert!(app.is_running());
    app.update(Message::Quit);
    assert!(!app.is_running());
}

#[test]
fn errors_in_words() {
    assert_eq!(UiError::NoItemSelected.message(), "No item selected.");
    assert_eq!(UiError::NotADirectory.message(), "Item is not a directory.");
    assert_eq!(
        UiError::ParentOnlyInOverview.message(),
        "Parent traversal is implemented only for projects and tools views."
    );
    assert_eq!(UiError::NoParent.message(), "Unable to detect parent directory.");
    assert_eq!(UiError::EmptyDirectory.message(), "Directory is empty.");
}

#[test]
fn a_window_takes_its_share_within_bounds() {
    assert_eq!(clamp_percent(0, 80, 70, 150), 0);
    assert_eq!(clamp_percent(100, 80, 70, 150), 80);
    assert_eq!(clamp_percent(80, 80, 70, 150), 70);
    assert_eq!(clamp_percent(60, 80, 70, 150), 60);
    assert_eq!(clamp_percent(200, 80, 70, 150), 150);
    assert_eq!(clamp_percent(50, 60, 22, 40), 30);
    assert_eq!(clamp_percent(30, 60, 22, 40), 22);
    assert_eq!(clamp_percent(10, 60, 22, 40), 10);
    // the product stops at the largest number: 65535 / 100
    assert_eq!(clamp_percent(1000, 80, 0, 1000), 655);
    assert_eq!(clamp_percent(1000, 80, 0, 500), 500);
    assert_eq!(clamp_percent(5, 100, 5, 5), 5);
}

#[test]
fn sizes_in_words() {
    assert_eq!(size_label(0), ("0 B".to_string(), ColorCode::Low));
    assert_eq!(size_label(1000), ("1 kB".to_string(), ColorCode::Low));
    assert_eq!(size_label(1500), ("1.50 kB".to_string(), ColorCode::Low));
    assert_eq!(size_label(90_000_000), ("90 MB".to_string(), ColorCode::Medium));
    assert_eq!(size_label(2_500_000_000), ("2.50 GB".to_string(), ColorCode::High));
    assert_eq!(size_text_or(Some(2_000), "?"), "2 kB");
    assert_eq!(size_text_or(None, "?"), "?");
    assert_eq!(size_text_or(None, ""), "");
}

const TEXT: &str = "one two three four five six seven eight nine ten eleven twelve";

#[test]
fn a_pop_up_wraps_its_text_to_the_window() {
    let pop_up = PopUp::new(" Title ", TEXT);
    assert_eq!(pop_up.get_title(), " Title ");
    assert_eq!(pop_up.width(26), 20);
    assert_eq!(pop_up.width(3), 0);
    assert_eq!(pop_up.height(10), 6);
    assert_eq!(pop_up.height(2), 0);

    let mut state = PopUpState::new();
    assert!(state.lines().is_none());
    pop_up.layout(&mut state, 26, 6);
    let lines = state.lines().unwrap().clone();
    assert_eq!(lines, vec!["one two three four", "five six seven eight", "nine ten eleven", "twelve"]);
    assert_eq!(state.scroll_range(), Some(2));

    // the same width: the height alone is noted
    pop_up.layout(&mut state, 26, 10);
    assert_eq!(state.lines().unwrap(), &lines);
    assert_eq!(state.scroll_range(), None);

    // another width: the text is wrapped anew
    pop_up.layout(&mut state, 76, 10);
    assert_eq!(state.lines().unwrap(), &vec![TEXT.to_string()]);
}

#[test]
fn a_pop_up_scrolls_as_far_as_there_is_text() {
    let pop_up = PopUp::new("t", TEXT);
    let mut state = PopUpState::new();
    pop_up.layout(&mut state, 12, 6);
    // twelve lines of one word each, two of them in the window
    assert_eq!(state.lines().unwrap().len(), 12);
    assert_eq!(state.scroll_range(), Some(10));
    assert_eq!(state.scroll(), 0);
    state.up();
    assert_eq!(state.scroll(), 0);
    state.down();
    assert_eq!(state.scroll(), 1);
    state.page_down();
    assert_eq!(state.scroll(), 3);
    state.end();
    assert_eq!(state.scroll(), 10);
    state.down();
    assert_eq!(state.scroll(), 10);
    state.page_down();
    assert_eq!(state.scroll(), 10);
    state.page_up();
    assert_eq!(state.scroll(), 8);
    state.up();
    assert_eq!(state.scroll(), 7);
    state.home();
    assert_eq!(state.scroll(), 0);
    state.page_up();
    assert_eq!(state.scroll(), 0);
}

#[test]
fn a_pop_up_with_room_for_all_does_not_scroll() {
    let pop_up = PopUp::new("t", "short");
    let mut state = PopUpState::default();
    pop_up.layout(&mut state, 40, 20);
    assert_eq!(state.scroll_range(), None);
    state.down();
    state.page_down();
    state.end();
    assert_eq!(state.scroll(), 0);
}
