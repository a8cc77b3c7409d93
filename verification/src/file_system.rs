//! The project panel's file tree: how a folder's entries are ordered, which
//! entry is left out, when the cached tree is read again, which files the
//! search shows, and what selecting or deleting a file does to the editor's
//! selection. Reading the folder is the caller's part.
use vstd::prelude::*;
use crate::gui_state::{GuiState, SelectedItem};
use crate::order::{key_views, sorts_stably, stable_sort, SortKey};
use crate::paths::{components, file_name, file_name_of, join_path, join_paths, paths_equal};
use crate::project::{extension, extension_of, lowercase_text, unicode_lowercase};
use crate::text::{occurs_in, text_contains, text_eq};

verus! {

/// How long (in milliseconds) a cached tree is used before the folder is
/// read again; imports, builds and outside edits show up after at most this.
pub const TREE_REFRESH_INTERVAL_MS: u64 = 2000;

/// An entry of the file tree.
#[derive(Debug)]
pub struct FileNode {
    pub path: String,
    pub name: String,
    /// A directory's entries: directories first, each group by name.
    pub children: Vec<FileNode>,
    pub is_dir: bool,
}

/// The name an entry shows: its path's file name, or nothing.
pub open spec fn name_of_path(p: Seq<char>) -> Seq<char> {
    match file_name(p) {
        Some(n) => n,
        None => Seq::empty(),
    }
}

/// The key a folder's entries are ordered by: directories (rank 0) before
/// files (rank 1), then the name.
pub open spec fn entry_key(n: FileNode) -> (u8, Seq<char>) {
    (if n.is_dir { 0u8 } else { 1u8 }, n.name@)
}

/// The keys of a list of entries.
pub open spec fn entry_keys(s: Seq<FileNode>) -> Seq<(u8, Seq<char>)> {
    s.map_values(|n: FileNode| entry_key(n))
}

/// The name an entry of this path shows.
pub(crate) fn name_of(path: &str) -> (r: String)
    ensures
        r@ == name_of_path(path@),
{
    match file_name_of(path) {
        Some(n) => n,
        None => String::new(),
    }
}

impl FileNode {
    /// A file entry.
    pub fn file(path: String) -> (r: FileNode)
        ensures
            r.path@ == path@,
            r.name@ == name_of_path(path@),
            r.children@.len() == 0,
            !r.is_dir,
    {
        let name = name_of(path.as_str());
        FileNode { path, name, children: Vec::new(), is_dir: false }
    }

    /// A directory entry holding `entries`, ordered directories first and
    /// each group by name (a stable sort).
    pub fn directory(path: String, entries: Vec<FileNode>) -> (r: FileNode)
        ensures
            r.path@ == path@,
            r.name@ == name_of_path(path@),
            r.is_dir,
            exists|perm: Seq<usize>| sorts_stably(entries@, entry_keys(entries@), r.children@, perm),
    {
        let name = name_of(path.as_str());
        let mut keys: Vec<SortKey> = Vec::new();
        let n = entries.len();
        let mut i: usize = 0;
        while i < n
            invariant
                n == entries.len(),
                i <= n,
                key_views(keys@) == entry_keys(entries@.take(i as int)),
            decreases n - i,
        {
            let rank: u8 = if entries[i].is_dir { 0 } else { 1 };
            let key = SortKey { rank, text: entries[i].name.clone() };
            let ghost k0 = keys@;
            keys.push(key);
            proof {
                assert(entries@.take(i + 1) =~= entries@.take(i as int).push(entries@[i as int]));
                assert(key_views(keys@) =~= key_views(k0).push(key@));
                assert(key_views(keys@) =~= entry_keys(entries@.take(i + 1)));
            }
            i = i + 1;
        }
        proof {
            assert(entries@.take(n as int) =~= entries@);
        }
        let ghost e0 = entries@;
        let children = stable_sort(entries, &keys);
        let ghost perm = choose|perm: Seq<usize>| sorts_stably(e0, key_views(keys@), children@, perm);
        let r = FileNode { path, name, children, is_dir: true };
        assert(sorts_stably(e0, entry_keys(e0), r.children@, perm));
        r
    }
}

/// The panel's state.
#[derive(Debug)]
pub struct FileSystem {
    pub search_query: String,
    pub selected_file: Option<String>,
    pub show_search: bool,
    /// The tree last read, so the folder is not walked every frame.
    pub cached_tree: Option<FileNode>,
    /// The folder the cached tree was read from.
    pub cached_root: String,
    /// When the tree was last read, in milliseconds of the caller's clock.
    pub last_scan: Option<u64>,
    /// A code file just selected, to open in the editor once.
    pub pending_open: Option<String>,
}

/// The cached tree must be read again: another folder is shown, there is no
/// tree, it was never read, or the refresh interval has passed.
pub open spec fn tree_stale(fs: FileSystem, project: Seq<char>, now: u64) -> bool {
    ||| components(fs.cached_root@) != components(project)
    ||| fs.cached_tree is None
    ||| match fs.last_scan {
        None => true,
        Some(t) => now >= t + TREE_REFRESH_INTERVAL_MS,
    }
}

/// The search shows a file of this name: the lower-cased query is empty or
/// occurs in the lower-cased name.
pub open spec fn shows_file(query: Seq<char>, name: Seq<char>) -> bool {
    let q = unicode_lowercase(query);
    q.len() == 0 || occurs_in(unicode_lowercase(name), q)
}

/// Selecting a file of this path opens it in the code editor: its
/// extension is `rs` or `lua`.
pub open spec fn opens_in_editor(path: Seq<char>) -> bool {
    match file_name(path) {
        Some(n) => extension_of(n) == Some("rs"@) || extension_of(n) == Some("lua"@),
        None => false,
    }
}

/// The optional path names the same path as `path`.
pub open spec fn same_path_opt(p: Option<String>, path: Seq<char>) -> bool {
    match p {
        Some(s) => components(s@) == components(path),
        None => false,
    }
}

/// The editor's selection is this file.
pub open spec fn selects_file(item: SelectedItem, path: Seq<char>) -> bool {
    match item {
        SelectedItem::File(s) => components(s@) == components(path),
        _ => false,
    }
}

impl Default for FileSystem {
    fn default() -> (r: Self)
        ensures
            r.search_query@.len() == 0,
            r.selected_file is None,
            !r.show_search,
            r.cached_tree is None,
            r.cached_root@.len() == 0,
            r.last_scan is None,
            r.pending_open is None,
    {
        Self::new()
    }
}

impl FileSystem {
    /// An empty panel: no search, no selection, nothing read yet.
    pub fn new() -> (r: Self)
        ensures
            r.search_query@.len() == 0,
            r.selected_file is None,
            !r.show_search,
            r.cached_tree is None,
            r.cached_root@.len() == 0,
            r.last_scan is None,
            r.pending_open is None,
    {
        FileSystem {
            search_query: String::new(),
            selected_file: None,
            show_search: false,
            cached_tree: None,
            cached_root: String::new(),
            last_scan: None,
            pending_open: None,
        }
    }

    /// Drop the cached tree; it is read again on the next frame.
    pub fn refresh(&mut self)
        ensures
            *final(self) == (FileSystem { cached_tree: None, last_scan: None, ..*old(self) }),
    {
        self.cached_tree = None;
        self.last_scan = None;
    }

    /// Must the tree of `project_path` be read again at time `now_ms`?
    pub fn tree_is_stale(&self, project_path: &str, now_ms: u64) -> (r: bool)
        ensures
            r == tree_stale(*self, project_path@, now_ms),
    {
        if !paths_equal(self.cached_root.as_str(), project_path) {
            return true;
        }
        if self.cached_tree.is_none() {
            return true;
        }
        match self.last_scan {
            None => true,
            Some(t) => now_ms >= t && now_ms - t >= TREE_REFRESH_INTERVAL_MS,
        }
    }

    /// Read the tree again when it is stale (see `tree_stale`), with `scan`
    /// reading the folder; otherwise keep the cached one.
    pub fn ensure_tree<F: FnOnce() -> Option<FileNode>>(&mut self, project_path: &str, now_ms: u64, scan: F)
        requires
            call_requires(scan, ()),
        ensures
            tree_stale(*old(self), project_path@, now_ms) ==> {
                &&& call_ensures(scan, (), final(self).cached_tree)
                &&& final(self).cached_root@ == project_path@
                &&& final(self).last_scan == Some(now_ms)
                &&& *final(self) == (FileSystem {
                    cached_tree: final(self).cached_tree,
                    cached_root: final(self).cached_root,
                    last_scan: final(self).last_scan,
                    ..*old(self)
                })
            },
            !tree_stale(*old(self), project_path@, now_ms) ==> *final(self) == *old(self),
    {
        if self.tree_is_stale(project_path, now_ms) {
            self.cached_tree = scan();
            self.cached_root = project_path.to_string();
            self.last_scan = Some(now_ms);
        }
    }

    /// Is `entry_path` the build output folder (`target`) of the project
    /// at `project_root`, which the tree leaves out?
    pub fn is_build_output(entry_path: &str, project_root: &str) -> (r: bool)
        ensures
            r == (components(entry_path@) == components(join_path(project_root@, "target"@))),
    {
        let target = join_paths(project_root, "target");
        paths_equal(entry_path, target.as_str())
    }

    /// The search button: show or hide the search field; hiding it clears
    /// the query.
    pub fn toggle_search(&mut self)
        ensures
            final(self).show_search == !old(self).show_search,
            final(self).show_search ==> final(self).search_query == old(self).search_query,
            !final(self).show_search ==> final(self).search_query@.len() == 0,
            *final(self) == (FileSystem {
                show_search: final(self).show_search,
                search_query: final(self).search_query,
                ..*old(self)
            }),
    {
        self.show_search = !self.show_search;
        if !self.show_search {
            self.search_query = String::new();
        }
    }

    /// Does the search show a file named `name` (see `shows_file`)?
    pub fn file_visible(&self, name: &str) -> (r: bool)
        ensures
            r == shows_file(self.search_query@, name@),
    {
        let q = lowercase_text(self.search_query.as_str());
        if q.unicode_len() == 0 {
            return true;
        }
        let lower = lowercase_text(name);
        text_contains(lower.as_str(), q.as_str())
    }

    /// Is the file at `path` the panel's selected file?
    pub fn is_selected(&self, path: &str) -> (r: bool)
        ensures
            r == same_path_opt(self.selected_file, path@),
    {
        match &self.selected_file {
            Some(s) => paths_equal(s.as_str(), path),
            None => false,
        }
    }

    /// A click on the file at `path`: when it is not already selected, it
    /// becomes the panel's and the editor's selection, and a code file
    /// (see `opens_in_editor`) is queued to open in the editor.
    pub fn select_file(&mut self, path: &str, gui_state: &mut GuiState)
        ensures
            same_path_opt(old(self).selected_file, path@) ==> {
                &&& *final(self) == *old(self)
                &&& *final(gui_state) == *old(gui_state)
            },
            !same_path_opt(old(self).selected_file, path@) ==> {
                &&& final(self).selected_file matches Some(s) && s@ == path@
                &&& opens_in_editor(path@) ==> (final(self).pending_open matches Some(s) && s@ == path@)
                &&& !opens_in_editor(path@) ==> final(self).pending_open == old(self).pending_open
                &&& *final(self) == (FileSystem {
                    selected_file: final(self).selected_file,
                    pending_open: final(self).pending_open,
                    ..*old(self)
                })
                &&& final(gui_state).selected_item matches SelectedItem::File(s) && s@ == path@
                &&& *final(gui_state) == (GuiState {
                    selected_item: final(gui_state).selected_item,
                    ..*old(gui_state)
                })
            },
    {
        if self.is_selected(path) {
            return;
        }
        self.selected_file = Some(path.to_string());
        gui_state.selected_item = SelectedItem::File(path.to_string());
        if Self::opens_in_editor(path) {
            self.pending_open = Some(path.to_string());
        }
    }

    /// Does selecting the file at `path` open it in the editor?
    fn opens_in_editor(path: &str) -> (r: bool)
        ensures
            r == opens_in_editor(path@),
    {
        match file_name_of(path) {
            Some(n) => match extension(n.as_str()) {
                Some(e) => text_eq(e.as_str(), "rs") || text_eq(e.as_str(), "lua"),
                None => false,
            },
            None => false,
        }
    }

    /// The file at `path` was deleted: it is no longer selected in the panel
    /// or the editor, and the tree is read again.
    pub fn file_deleted(&mut self, path: &str, gui_state: &mut GuiState)
        ensures
            selects_file(old(gui_state).selected_item, path@) ==> *final(gui_state) == (GuiState {
                selected_item: SelectedItem::Nothing,
                ..*old(gui_state)
            }),
            !selects_file(old(gui_state).selected_item, path@) ==> *final(gui_state) == *old(gui_state),
            *final(self) == (FileSystem {
                selected_file: if same_path_opt(old(self).selected_file, path@) {
                    None
                } else {
                    old(self).selected_file
                },
                cached_tree: None,
                last_scan: None,
                ..*old(self)
            }),
    {
        let selected = match &gui_state.selected_item {
            SelectedItem::File(s) => paths_equal(s.as_str(), path),
            _ => false,
        };
        if selected {
            gui_state.selected_item = SelectedItem::Nothing;
        }
        if self.is_selected(path) {
            self.selected_file = None;
        }
        self.refresh();
    }

    /// The code file queued to open, once.
    pub fn take_pending_open(&mut self) -> (r: Option<String>)
        ensures
            r == old(self).pending_open,
            *final(self) == (FileSystem { pending_open: None, ..*old(self) }),
    {
        self.pending_open.take()
    }
}

/// A tree read at time `t` for a project is used, without reading the
/// folder again, until the refresh interval has passed; from then on it is
/// read again, so changes on disk show up after at most that interval.
pub proof fn law_tree_refresh_interval(fs: FileSystem, project: Seq<char>, t: u64, now: u64)
    requires
        fs.cached_tree is Some,
        components(fs.cached_root@) == components(project),
        fs.last_scan == Some(t),
        t <= now,
    ensures
        tree_stale(fs, project, now) <==> now >= t + TREE_REFRESH_INTERVAL_MS,
{
}

} // verus!
