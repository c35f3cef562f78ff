//! What a browser shows: lists with one item selected, and the content of directories.

use vstd::prelude::*;
use crate::aggregate::subtree_size;
use crate::discovery::discovery_manager::size_of;
use crate::file_info::{EntryView, FileInfo};
use crate::files_db::{level, FilesDB, IndexView};
use crate::path::{has_parent, EntryPath, PathView};

verus! {

/// The byte that stands for a name that cannot be told.
pub const UNKNOWN_NAME: u8 = 63;

/// A step through a list.
#[derive(Debug, Clone, Copy, PartialEq, Eq, Structural)]
pub enum Navigation {
    Up,
    Down,
    PageUp(usize),
    PageDown(usize),
    Home,
    End,
}

/// Where the selection of a list of `len` items stands after the step `nav`. An empty list
/// has no selection; in any other the selection stays within the list.
pub open spec fn moved(selected: Option<usize>, len: nat, nav: Navigation) -> Option<usize> {
    if len == 0 {
        None
    } else {
        let last = (len - 1) as usize;
        let to: int = match (nav, selected) {
            (Navigation::Up, Some(at)) => at - 1,
            (Navigation::Up, None) => last as int,
            (Navigation::Down, Some(at)) => at + 1,
            (Navigation::Down, None) => 0,
            (Navigation::PageUp(by), Some(at)) => at - by,
            (Navigation::PageUp(by), None) => 0,
            (Navigation::PageDown(by), Some(at)) => at + by,
            (Navigation::PageDown(by), None) => by as int,
            (Navigation::Home, _) => 0,
            (Navigation::End, _) => last as int,
        };
        Some(
            if to < 0 {
                0usize
            } else if to > last {
                last
            } else {
                to as usize
            },
        )
    }
}

/// Moves the selection of a list of `len` items by the step `nav`.
pub fn move_selection(selected: Option<usize>, len: usize, nav: Navigation) -> (to: Option<usize>)
    ensures
        to == moved(selected, len as nat, nav),
        to is Some ==> to->0 < len,
        to is None <==> len == 0,
{
    if len == 0 {
        return None;
    }
    let last = len - 1;
    let to = match (nav, selected) {
        (Navigation::Up, Some(at)) => at.saturating_sub(1),
        (Navigation::Up, None) => last,
        (Navigation::Down, Some(at)) => at.saturating_add(1),
        (Navigation::Down, None) => 0,
        (Navigation::PageUp(by), Some(at)) => at.saturating_sub(by),
        (Navigation::PageUp(_), None) => 0,
        (Navigation::PageDown(by), Some(at)) => at.saturating_add(by),
        (Navigation::PageDown(by), None) => by,
        (Navigation::Home, _) => 0,
        (Navigation::End, _) => last,
    };
    if to > last {
        Some(last)
    } else {
        Some(to)
    }
}

/// One line of a directory listing.
#[derive(Debug)]
pub struct DirItem {
    /// The last component of the path; `?` where the path has none.
    pub name: Vec<u8>,
    pub path: EntryPath,
    pub is_directory: bool,
    /// For a file its own size; for a directory all that it adds up to.
    pub size: Option<u64>,
}

/// The model of a `DirItem`.
pub struct DirItemView {
    pub name: Seq<u8>,
    pub path: PathView,
    pub is_directory: bool,
    pub size: Option<u64>,
}

impl View for DirItem {
    type V = DirItemView;

    open spec fn view(&self) -> DirItemView {
        DirItemView {
            name: self.name@,
            path: self.path@,
            is_directory: self.is_directory,
            size: self.size,
        }
    }
}

/// The line that a listing shows for the entry `e` of `index`.
pub open spec fn dir_item_of(index: IndexView, e: EntryView) -> DirItemView {
    DirItemView {
        name: if has_parent(e.path) {
            e.path.last()
        } else {
            seq![UNKNOWN_NAME]
        },
        path: e.path,
        is_directory: e.meta.is_dir,
        size: if e.meta.is_dir {
            Some(size_of(index, e.path))
        } else {
            e.meta.size
        },
    }
}

/// What a listing of the directory `dir` shows: one line for each entry directly in it.
pub open spec fn listing_of(index: IndexView, dir: PathView) -> Seq<DirItemView> {
    level(index, dir).map_values(|e: EntryView| dir_item_of(index, e))
}

/// The models of the lines of a listing.
pub open spec fn item_views(items: Seq<DirItem>) -> Seq<DirItemView> {
    items.map_values(|item: DirItem| item@)
}

impl DirItem {
    /// The line that a listing shows for `file_info`, an entry of `db`.
    pub fn from_file_info(file_info: &FileInfo, db: &FilesDB) -> (item: DirItem)
        ensures
            item@ == dir_item_of(db@, file_info@),
    {
        let name = match file_info.path.file_name() {
            Some(name) => {
                let copy = name.clone();
                copy
            },
            None => {
                let mut unknown: Vec<u8> = Vec::new();
                unknown.push(UNKNOWN_NAME);
                unknown
            },
        };
        let size = if file_info.is_dir {
            Some(subtree_size(db, file_info.path))
        } else {
            file_info.size
        };
        DirItem { name, path: file_info.path.clone(), is_directory: file_info.is_dir, size }
    }
}

impl Clone for DirItem {
    fn clone(&self) -> (copy: Self)
        ensures
            copy@ == self@,
    {
        let name = self.name.clone();
        DirItem { name, path: self.path.clone(), is_directory: self.is_directory, size: self.size }
    }
}

/// The listing of the directory `dir`: one line for each entry of `db` directly in it.
pub fn list_directory(db: &FilesDB, dir: &EntryPath) -> (items: Vec<DirItem>)
    ensures
        item_views(items@) == listing_of(db@, dir@),
{
    let mut items: Vec<DirItem> = Vec::new();
    let mut it = db.iter_level(dir);
    let ghost index = db@;
    let ghost all = it.remaining();
    let ghost seen: IndexView = Seq::empty();
    let ghost line = |e: EntryView| dir_item_of(index, e);
    loop
        invariant
            index == db@,
            line == |e: EntryView| dir_item_of(index, e),
            seen + it.remaining() == all,
            item_views(items@) == seen.map_values(line),
        ensures
            item_views(items@) == all.map_values(line),
        decreases it.remaining().len(),
    {
        let ghost so_far = item_views(items@);
        match it.next() {
            None => {
                break ;
            },
            Some(info) => {
                let item = DirItem::from_file_info(&info, db);
                items.push(item);
                proof {
                    let grown = seen.push(info@);
                    assert(item_views(items@) =~= so_far.push(item@));
                    seen = grown;
                }
            },
        }
    }
    items
}

/// A directory that the browser has opened.
#[derive(Debug)]
pub struct DirectoryBrowserFrame {
    /// The line that is selected, where the listing has lines.
    pub selected: Option<usize>,
    /// The directory that is listed.
    pub cwd: EntryPath,
    pub directory_list: Vec<DirItem>,
}

/// The model of a `DirectoryBrowserFrame`.
pub struct FrameView {
    pub selected: Option<usize>,
    pub cwd: PathView,
    pub items: Seq<DirItemView>,
}

impl View for DirectoryBrowserFrame {
    type V = FrameView;

    open spec fn view(&self) -> FrameView {
        FrameView {
            selected: self.selected,
            cwd: self.cwd@,
            items: item_views(self.directory_list@),
        }
    }
}

/// The models of the frames of a browser.
pub open spec fn frame_views(frames: Seq<DirectoryBrowserFrame>) -> Seq<FrameView> {
    frames.map_values(|frame: DirectoryBrowserFrame| frame@)
}

} // verus!
