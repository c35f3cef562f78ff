//! The browser as a machine: what it shows, and how each message changes it.
//! Drawing and reading keys are left to whoever runs it.

use vstd::prelude::*;
use crate::browse_tui::model::{
    frame_views, list_directory, listing_of, move_selection, moved, DirectoryBrowserFrame,
    FrameView, Navigation,
};
use crate::discovery::results::{
    project_views, tool_views, ProjectResult, ProjectView, ToolView, ToolingResult,
};
use crate::files_db::{FilesDB, IndexView};
use crate::path::{parent_of, EntryPath, PathView};

verus! {

/// The number of the tab that lists the projects.
pub const PROJECTS_TAB: usize = 0;

/// The number of the tab that lists the tools.
pub const TOOLING_TAB: usize = 1;

/// Whether the browser goes on.
#[derive(Debug, Default, Clone, Copy, PartialEq, Eq, Structural)]
pub enum RunningState {
    #[default]
    Running,
    Done,
}

/// A window that lies over the browser.
#[derive(Debug, Clone, Copy, PartialEq, Eq, Structural)]
pub enum Modal {
    Help,
}

/// What the browser listens to.
#[derive(Debug, Default, Clone, Copy, PartialEq, Eq, Structural)]
pub enum UiMode {
    #[default]
    Normal,
    Modal(Modal),
}

/// What the user can ask of the browser.
#[derive(Debug, Clone, Copy, PartialEq, Eq, Structural)]
pub enum Message {
    MoveUp,
    MoveDown,
    PageUp,
    PageDown,
    Home,
    End,
    Enter,
    GoBack,
    Refresh,
    Quit,
    SelectTab(usize),
    EnterParent,
    Help,
    Close,
}

/// Why the browser could not do what it was asked.
#[derive(Debug, Clone, Copy, PartialEq, Eq, Structural)]
pub enum UiError {
    NoItemSelected,
    NotADirectory,
    ParentOnlyInOverview,
    NoParent,
    EmptyDirectory,
}

impl UiError {
    /// The error in words.
    pub fn message(&self) -> (text: &'static str)
        ensures
            text@ == match self {
                UiError::NoItemSelected => "No item selected."@,
                UiError::NotADirectory => "Item is not a directory."@,
                UiError::ParentOnlyInOverview =>
                    "Parent traversal is implemented only for projects and tools views."@,
                UiError::NoParent => "Unable to detect parent directory."@,
                UiError::EmptyDirectory => "Directory is empty."@,
            },
    {
        match self {
            UiError::NoItemSelected => "No item selected.",
            UiError::NotADirectory => "Item is not a directory.",
            UiError::ParentOnlyInOverview =>
                "Parent traversal is implemented only for projects and tools views.",
            UiError::NoParent => "Unable to detect parent directory.",
            UiError::EmptyDirectory => "Directory is empty.",
        }
    }
}

/// The browser: the results of a run in two tabs, and on top of them the directories that
/// the user has opened, the last opened last.
#[derive(Debug)]
pub struct App {
    db: FilesDB,
    running_state: RunningState,
    mode: UiMode,
    projects: Vec<ProjectResult>,
    project_selected: Option<usize>,
    tools: Vec<ToolingResult>,
    tool_selected: Option<usize>,
    selected_tab: usize,
    frames: Vec<DirectoryBrowserFrame>,
    error_message: Option<UiError>,
    page_size: usize,
}

/// The model of the browser.
pub struct AppView {
    pub index: IndexView,
    pub running_state: RunningState,
    pub mode: UiMode,
    pub projects: Seq<ProjectView>,
    pub project_selected: Option<usize>,
    pub tools: Seq<ToolView>,
    pub tool_selected: Option<usize>,
    pub selected_tab: usize,
    pub frames: Seq<FrameView>,
    pub error_message: Option<UiError>,
    pub page_size: usize,
}

impl View for App {
    type V = AppView;

    closed spec fn view(&self) -> AppView {
        AppView {
            index: self.db@,
            running_state: self.running_state,
            mode: self.mode,
            projects: project_views(self.projects@),
            project_selected: self.project_selected,
            tools: tool_views(self.tools@),
            tool_selected: self.tool_selected,
            selected_tab: self.selected_tab,
            frames: frame_views(self.frames@),
            error_message: self.error_message,
            page_size: self.page_size,
        }
    }
}

/// The browser as it starts: the first line of either tab selected, no directory opened.
pub open spec fn started(projects: Seq<ProjectView>, tools: Seq<ToolView>, index: IndexView) -> AppView {
    AppView {
        index,
        running_state: RunningState::Running,
        mode: UiMode::Normal,
        projects,
        project_selected: if projects.len() > 0 {
            Some(0usize)
        } else {
            None
        },
        tools,
        tool_selected: if tools.len() > 0 {
            Some(0usize)
        } else {
            None
        },
        selected_tab: PROJECTS_TAB,
        frames: Seq::empty(),
        error_message: None,
        page_size: 0,
    }
}

/// The browser after a step through the list that it shows: the directory opened last,
/// or else the tab that is selected.
pub open spec fn navigated(v: AppView, nav: Navigation) -> AppView {
    if v.frames.len() > 0 {
        let frame = v.frames.last();
        let stepped = FrameView {
            selected: moved(frame.selected, frame.items.len(), nav),
            cwd: frame.cwd,
            items: frame.items,
        };
        AppView { frames: v.frames.drop_last().push(stepped), ..v }
    } else if v.selected_tab == PROJECTS_TAB {
        AppView { project_selected: moved(v.project_selected, v.projects.len(), nav), ..v }
    } else {
        AppView { tool_selected: moved(v.tool_selected, v.tools.len(), nav), ..v }
    }
}

/// The browser after it was asked to open `path`: an empty directory is not opened.
pub open spec fn opened(v: AppView, path: PathView) -> AppView {
    let items = listing_of(v.index, path);
    if items.len() == 0 {
        AppView { error_message: Some(UiError::EmptyDirectory), ..v }
    } else {
        AppView {
            frames: v.frames.push(FrameView { selected: Some(0usize), cwd: path, items }),
            ..v
        }
    }
}

/// The path that the selected line stands for, to be opened: in a directory a directory
/// only, in a tab the path of the result.
pub open spec fn selected_path(v: AppView) -> Result<PathView, UiError> {
    if v.frames.len() > 0 {
        let frame = v.frames.last();
        match frame.selected {
            Some(at) => if at < frame.items.len() {
                if frame.items[at as int].is_directory {
                    Ok(frame.items[at as int].path)
                } else {
                    Err(UiError::NotADirectory)
                }
            } else {
                Err(UiError::NoItemSelected)
            },
            None => Err(UiError::NoItemSelected),
        }
    } else if v.selected_tab == PROJECTS_TAB {
        match v.project_selected {
            Some(at) => if at < v.projects.len() {
                Ok(v.projects[at as int].path)
            } else {
                Err(UiError::NoItemSelected)
            },
            None => Err(UiError::NoItemSelected),
        }
    } else {
        match v.tool_selected {
            Some(at) => if at < v.tools.len() {
                Ok(v.tools[at as int].path)
            } else {
                Err(UiError::NoItemSelected)
            },
            None => Err(UiError::NoItemSelected),
        }
    }
}

/// The directory that holds the selected result: for a project the one that discovery
/// has noted, for a tool the parent of its path. It is asked for in the tabs only.
pub open spec fn selected_parent(v: AppView) -> Result<PathView, UiError> {
    if v.frames.len() > 0 {
        Err(UiError::ParentOnlyInOverview)
    } else if v.selected_tab == PROJECTS_TAB {
        match v.project_selected {
            Some(at) => if at < v.projects.len() {
                match v.projects[at as int].parent {
                    Some(parent) => Ok(parent.path),
                    None => Err(UiError::NoParent),
                }
            } else {
                Err(UiError::NoParent)
            },
            None => Err(UiError::NoParent),
        }
    } else {
        match v.tool_selected {
            Some(at) => if at < v.tools.len() {
                match parent_of(v.tools[at as int].path) {
                    Some(dir) => Ok(dir),
                    None => Err(UiError::NoParent),
                }
            } else {
                Err(UiError::NoParent)
            },
            None => Err(UiError::NoParent),
        }
    }
}

/// The browser after it was asked to open what `wanted` names, or told why it cannot.
pub open spec fn opened_or_refused(v: AppView, wanted: Result<PathView, UiError>) -> AppView {
    match wanted {
        Ok(path) => opened(v, path),
        Err(error) => AppView { error_message: Some(error), ..v },
    }
}

/// The browser after the user has chosen the tab `tab`: the opened directories are closed.
/// A number that names no tab changes nothing.
pub open spec fn tab_selected(v: AppView, tab: usize) -> AppView {
    if tab <= TOOLING_TAB {
        AppView { selected_tab: tab, frames: Seq::empty(), ..v }
    } else {
        v
    }
}

/// The browser after it has left the directory that was opened last.
pub open spec fn gone_back(v: AppView) -> AppView {
    if v.frames.len() > 0 {
        AppView { frames: v.frames.drop_last(), ..v }
    } else {
        v
    }
}

/// The browser after the message `msg`. What was said of the message before is forgotten.
/// While a window lies over the browser, it hears only that it is to close the window,
/// to draw again, or to end.
pub open spec fn updated(v: AppView, msg: Message) -> AppView {
    let v = AppView { error_message: None, ..v };
    match v.mode {
        UiMode::Normal => match msg {
            Message::Refresh => v,
            Message::Quit => AppView { running_state: RunningState::Done, ..v },
            Message::MoveUp => navigated(v, Navigation::Up),
            Message::MoveDown => navigated(v, Navigation::Down),
            Message::PageUp => navigated(v, Navigation::PageUp(v.page_size)),
            Message::PageDown => navigated(v, Navigation::PageDown(v.page_size)),
            Message::Home => navigated(v, Navigation::Home),
            Message::End => navigated(v, Navigation::End),
            Message::Enter => opened_or_refused(v, selected_path(v)),
            Message::GoBack => gone_back(v),
            Message::EnterParent => opened_or_refused(v, selected_parent(v)),
            Message::SelectTab(tab) => tab_selected(v, tab),
            Message::Help => AppView { mode: UiMode::Modal(Modal::Help), ..v },
            Message::Close => v,
        },
        UiMode::Modal(_) => match msg {
            Message::Quit => AppView { running_state: RunningState::Done, ..v },
            Message::Close => AppView { mode: UiMode::Normal, ..v },
            _ => v,
        },
    }
}

impl App {
    /// A browser for the results of a run and the index in which they were found.
    pub fn new(projects_data: Vec<ProjectResult>, tooling_data: Vec<ToolingResult>, db: FilesDB) -> (app:
        App)
        ensures
            app@ == started(project_views(projects_data@), tool_views(tooling_data@), db@),
    {
        let project_selected = if projects_data.len() > 0 {
            Some(0)
        } else {
            None
        };
        let tool_selected = if tooling_data.len() > 0 {
            Some(0)
        } else {
            None
        };
        let app = App {
            db,
            running_state: RunningState::Running,
            mode: UiMode::Normal,
            projects: projects_data,
            project_selected,
            tools: tooling_data,
            tool_selected,
            selected_tab: PROJECTS_TAB,
            frames: Vec::new(),
            error_message: None,
            page_size: 0,
        };
        assert(app@.frames =~= Seq::<FrameView>::empty());
        app
    }

    /// Whether the browser goes on.
    pub fn is_running(&self) -> (r: bool)
        ensures
            r == (self@.running_state == RunningState::Running),
    {
        self.running_state == RunningState::Running
    }

    /// What the browser listens to.
    pub fn mode(&self) -> (mode: UiMode)
        ensures
            mode == self@.mode,
    {
        self.mode
    }

    /// The number of the tab that is selected.
    pub fn selected_tab(&self) -> (tab: usize)
        ensures
            tab == self@.selected_tab,
    {
        self.selected_tab
    }

    /// The projects, and which of them is selected.
    pub fn projects(&self) -> (tab: (&Vec<ProjectResult>, Option<usize>))
        ensures
            project_views(tab.0@) == self@.projects,
            tab.1 == self@.project_selected,
    {
        (&self.projects, self.project_selected)
    }

    /// The tools, and which of them is selected.
    pub fn tools(&self) -> (tab: (&Vec<ToolingResult>, Option<usize>))
        ensures
            tool_views(tab.0@) == self@.tools,
            tab.1 == self@.tool_selected,
    {
        (&self.tools, self.tool_selected)
    }

    /// The directory that was opened last, if one is open.
    pub fn current_frame(&self) -> (frame: Option<&DirectoryBrowserFrame>)
        ensures
            match frame {
                Some(frame) => self@.frames.len() > 0 && frame@ == self@.frames.last(),
                None => self@.frames.len() == 0,
            },
    {
        let n = self.frames.len();
        if n > 0 {
            Some(&self.frames[n - 1])
        } else {
            None
        }
    }

    /// What the browser has to say of the last message.
    pub fn error_message(&self) -> (error: Option<UiError>)
        ensures
            error == self@.error_message,
    {
        self.error_message
    }

    /// Tells the browser how many lines a page has.
    pub fn set_page_size(&mut self, lines: usize)
        ensures
            final(self)@ == (AppView { page_size: lines, ..old(self)@ }),
    {
        self.page_size = lines;
    }

    /// Steps through the list that the browser shows.
    fn navigate(&mut self, nav: Navigation)
        ensures
            final(self)@ == navigated(old(self)@, nav),
    {
        let open = self.frames.len();
        if open > 0 {
            let ghost before = frame_views(self.frames@);
            let mut frame = self.frames.pop().unwrap();
            frame.selected = move_selection(frame.selected, frame.directory_list.len(), nav);
            self.frames.push(frame);
            assert(frame_views(self.frames@) =~= before.drop_last().push(frame@));
        } else if self.selected_tab == PROJECTS_TAB {
            self.project_selected = move_selection(self.project_selected, self.projects.len(), nav);
        } else {
            self.tool_selected = move_selection(self.tool_selected, self.tools.len(), nav);
        }
    }

    /// The path that the selected line stands for, to be opened.
    fn selected_path(&self) -> (wanted: Result<EntryPath, UiError>)
        ensures
            match wanted {
                Ok(path) => selected_path(self@) == Ok::<PathView, UiError>(path@),
                Err(error) => selected_path(self@) == Err::<PathView, UiError>(error),
            },
    {
        let open = self.frames.len();
        if open > 0 {
            let frame = &self.frames[open - 1];
            match frame.selected {
                Some(at) => {
                    if at < frame.directory_list.len() {
                        let item = &frame.directory_list[at];
                        if item.is_directory {
                            Ok(item.path.clone())
                        } else {
                            Err(UiError::NotADirectory)
                        }
                    } else {
                        Err(UiError::NoItemSelected)
                    }
                },
                None => Err(UiError::NoItemSelected),
            }
        } else if self.selected_tab == PROJECTS_TAB {
            match self.project_selected {
                Some(at) => {
                    if at < self.projects.len() {
                        Ok(self.projects[at].path.clone())
                    } else {
                        Err(UiError::NoItemSelected)
                    }
                },
                None => Err(UiError::NoItemSelected),
            }
        } else {
            match self.tool_selected {
                Some(at) => {
                    if at < self.tools.len() {
                        Ok(self.tools[at].path.clone())
                    } else {
                        Err(UiError::NoItemSelected)
                    }
                },
                None => Err(UiError::NoItemSelected),
            }
        }
    }

    /// The directory that holds the selected result.
    fn selected_parent(&self) -> (wanted: Result<EntryPath, UiError>)
        ensures
            match wanted {
                Ok(path) => selected_parent(self@) == Ok::<PathView, UiError>(path@),
                Err(error) => selected_parent(self@) == Err::<PathView, UiError>(error),
            },
    {
        if self.frames.len() > 0 {
            Err(UiError::ParentOnlyInOverview)
        } else if self.selected_tab == PROJECTS_TAB {
            match self.project_selected {
                Some(at) => {
                    if at < self.projects.len() {
                        match &self.projects[at].parent {
                            Some(parent) => Ok(parent.path.clone()),
                            None => Err(UiError::NoParent),
                        }
                    } else {
                        Err(UiError::NoParent)
                    }
                },
                None => Err(UiError::NoParent),
            }
        } else {
            match self.tool_selected {
                Some(at) => {
                    if at < self.tools.len() {
                        match self.tools[at].path.parent() {
                            Some(dir) => Ok(dir),
                            None => Err(UiError::NoParent),
                        }
                    } else {
                        Err(UiError::NoParent)
                    }
                },
                None => Err(UiError::NoParent),
            }
        }
    }

    /// Opens the directory `path`, unless the index holds nothing in it.
    fn open_directory(&mut self, path: EntryPath)
        ensures
            final(self)@ == opened(old(self)@, path@),
    {
        let directory_list = list_directory(&self.db, &path);
        if directory_list.len() == 0 {
            self.error_message = Some(UiError::EmptyDirectory);
            return ;
        }
        let ghost before = frame_views(self.frames@);
        let frame = DirectoryBrowserFrame { selected: Some(0), cwd: path, directory_list };
        self.frames.push(frame);
        assert(frame_views(self.frames@) =~= before.push(frame@));
    }

    /// Opens what `wanted` names, or notes why it cannot be opened.
    fn open_or_refuse(&mut self, wanted: Result<EntryPath, UiError>)
        ensures
            final(self)@ == opened_or_refused(
                old(self)@,
                match wanted {
                    Ok(path) => Ok(path@),
                    Err(error) => Err(error),
                },
            ),
    {
        match wanted {
            Ok(path) => self.open_directory(path),
            Err(error) => {
                self.error_message = Some(error);
            },
        }
    }

    /// Opens the directory that the selected line stands for.
    fn enter(&mut self)
        ensures
            final(self)@ == opened_or_refused(old(self)@, selected_path(old(self)@)),
    {
        let wanted = self.selected_path();
        self.open_or_refuse(wanted);
    }

    /// Opens the directory that holds the selected result.
    fn enter_parent(&mut self)
        ensures
            final(self)@ == opened_or_refused(old(self)@, selected_parent(old(self)@)),
    {
        let wanted = self.selected_parent();
        self.open_or_refuse(wanted);
    }

    /// Leaves the directory that was opened last.
    fn go_back(&mut self)
        ensures
            final(self)@ == gone_back(old(self)@),
    {
        let ghost before = frame_views(self.frames@);
        if self.frames.len() > 0 {
            self.frames.pop();
            assert(frame_views(self.frames@) =~= before.drop_last());
        }
    }

    /// Shows the tab `tab`, out of every opened directory.
    fn select_tab(&mut self, tab: usize)
        ensures
            final(self)@ == tab_selected(old(self)@, tab),
    {
        if tab <= TOOLING_TAB {
            self.selected_tab = tab;
            self.frames = Vec::new();
            assert(frame_views(self.frames@) =~= Seq::<FrameView>::empty());
        }
    }

    /// Takes one message and changes accordingly.
    pub fn update(&mut self, msg: Message)
        ensures
            final(self)@ == updated(old(self)@, msg),
    {
        self.error_message = None;
        match self.mode {
            UiMode::Normal => match msg {
                Message::Refresh => {},
                Message::Quit => {
                    self.running_state = RunningState::Done;
                },
                Message::MoveUp => self.navigate(Navigation::Up),
                Message::MoveDown => self.navigate(Navigation::Down),
                Message::PageUp => self.navigate(Navigation::PageUp(self.page_size)),
                Message::PageDown => self.navigate(Navigation::PageDown(self.page_size)),
                Message::Home => self.navigate(Navigation::Home),
                Message::End => self.navigate(Navigation::End),
                Message::Enter => self.enter(),
                Message::GoBack => self.go_back(),
                Message::EnterParent => self.enter_parent(),
                Message::SelectTab(tab) => self.select_tab(tab),
                Message::Help => {
                    self.mode = UiMode::Modal(Modal::Help);
                },
                Message::Close => {},
            },
            UiMode::Modal(_) => match msg {
                Message::Quit => {
                    self.running_state = RunningState::Done;
                },
                Message::Close => {
                    self.mode = UiMode::Normal;
                },
                _ => {},
            },
        }
    }
}

} // verus!
