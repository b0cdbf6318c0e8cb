//! Where the file tree is rooted: moving up a folder, following a file opened
//! from outside, and switching between this machine and a remote one.
use vstd::prelude::*;
use crate::paths::{path_parent, path_file_name, parent_of, file_name_of};
use crate::remote::Status;

verus! {

/// What the tree's rooting remembers.
pub struct BrowseView {
    pub tree_root: Seq<char>,
    pub local_root: Seq<char>,
    pub remote_ready: bool,
    pub dialog_open: bool,
}

/// The rooting of the file tree.
pub struct Browse {
    /// Folder the tree shows.
    pub tree_root: String,
    /// Local tree root, restored on disconnect.
    pub local_root: String,
    /// Whether the tree has already jumped to the remote home folder.
    pub remote_ready: bool,
    /// Whether the connect dialog is showing.
    pub dialog_open: bool,
}

impl View for Browse {
    type V = BrowseView;

    open spec fn view(&self) -> BrowseView {
        BrowseView {
            tree_root: self.tree_root@,
            local_root: self.local_root@,
            remote_ready: self.remote_ready,
            dialog_open: self.dialog_open,
        }
    }
}

/// Roots the tree at `root` (the parent of a folder, a file's folder, a
/// folder picked in the tree), when there is one.
pub open spec fn rooted_at(s: BrowseView, root: Option<Seq<char>>) -> BrowseView {
    match root {
        Some(r) => BrowseView { tree_root: r, ..s },
        None => s,
    }
}

/// Starting a connection remembers the local root to come back to.
pub open spec fn after_connect(s: BrowseView) -> BrowseView {
    BrowseView { local_root: s.tree_root, ..s }
}

/// Disconnecting goes back to the local root.
pub open spec fn after_disconnect(s: BrowseView) -> BrowseView {
    BrowseView { tree_root: s.local_root, ..s }
}

/// What the connection's state does to the rooting: without a connection
/// the next one starts afresh; the first time a connection is seen ready,
/// the tree jumps to the remote home folder and the dialog closes; after
/// that the user's own moves are left alone.
pub open spec fn after_status(s: BrowseView, status: Option<Status>) -> BrowseView {
    match status {
        None => BrowseView { remote_ready: false, ..s },
        Some(Status::Connected { home }) => if !s.remote_ready {
            BrowseView { remote_ready: true, tree_root: home@, dialog_open: false, ..s }
        } else {
            s
        },
        Some(_) => s,
    }
}

impl Browse {
    /// A tree rooted at `root`, browsing this machine.
    pub fn new(root: &str) -> (b: Self)
        ensures
            b@ == (BrowseView { tree_root: root@, local_root: root@, remote_ready: false, dialog_open: false }),
    {
        Browse {
            tree_root: root.to_string(),
            local_root: root.to_string(),
            remote_ready: false,
            dialog_open: false,
        }
    }

    /// Moves the tree up to the parent folder; at the top it stays.
    pub fn go_up(&mut self)
        ensures
            final(self)@ == rooted_at(old(self)@, path_parent(old(self)@.tree_root)),
    {
        if let Some(parent) = parent_of(self.tree_root.as_str()) {
            self.tree_root = parent;
        }
    }

    /// A file opened from outside (the command line, the desktop, a drop):
    /// the tree is rooted at its folder, so its siblings are one click away.
    pub fn follow_opened(&mut self, path: &str)
        ensures
            final(self)@ == rooted_at(old(self)@, path_parent(path@)),
    {
        if let Some(parent) = parent_of(path) {
            self.tree_root = parent;
        }
    }

    /// Roots the tree at a folder picked in it.
    pub fn root_at(&mut self, root: String)
        ensures
            final(self)@ == rooted_at(old(self)@, Some(root@)),
    {
        self.tree_root = root;
    }

    /// A connection is being started: the local root is remembered.
    pub fn start_connect(&mut self)
        ensures
            final(self)@ == after_connect(old(self)@),
    {
        self.local_root = self.tree_root.clone();
    }

    /// The connection was dropped: back to the local root.
    pub fn disconnect(&mut self)
        ensures
            final(self)@ == after_disconnect(old(self)@),
    {
        self.tree_root = self.local_root.clone();
    }

    /// Takes note of the connection's state on this frame (`None` when there
    /// is no connection).
    pub fn observe(&mut self, status: Option<Status>)
        ensures
            final(self)@ == after_status(old(self)@, status),
    {
        match status {
            None => {
                self.remote_ready = false;
            },
            Some(Status::Connected { home }) => {
                if !self.remote_ready {
                    self.remote_ready = true;
                    self.tree_root = home;
                    self.dialog_open = false;
                }
            },
            Some(_) => {},
        }
    }

    /// The heading over the tree: the root folder's name, or the whole path
    /// when it has none (`/`).
    pub fn root_label(&self) -> (label: String)
        ensures
            label@ == (match path_file_name(self.tree_root@) {
                Some(n) => n,
                None => self.tree_root@,
            }),
    {
        match file_name_of(self.tree_root.as_str()) {
            Some(n) => n,
            None => self.tree_root.clone(),
        }
    }
}

/// Rooting the tree at each of `roots` in turn.
pub open spec fn browsed(s: BrowseView, roots: Seq<Option<Seq<char>>>) -> BrowseView
    decreases roots.len(),
{
    if roots.len() == 0 {
        s
    } else {
        rooted_at(browsed(s, roots.drop_last()), roots.last())
    }
}

proof fn lemma_browsed_keeps_local_root(s: BrowseView, roots: Seq<Option<Seq<char>>>)
    ensures
        browsed(s, roots).local_root == s.local_root,
    decreases roots.len(),
{
    if roots.len() > 0 {
        lemma_browsed_keeps_local_root(s, roots.drop_last());
    }
}

/// However far the remote tree was browsed, disconnecting comes back to the
/// folder the local tree showed when the connection was started.
pub proof fn lemma_disconnect_restores_local_root(s: BrowseView, roots: Seq<Option<Seq<char>>>)
    ensures
        after_disconnect(browsed(after_connect(s), roots)).tree_root == s.tree_root,
{
    lemma_browsed_keeps_local_root(after_connect(s), roots);
}

/// The jump to the remote home folder happens once per connection: after
/// it, the user's own moves stand on every later frame.
pub proof fn lemma_home_jump_once(s: BrowseView, home: String, root: Option<Seq<char>>)
    ensures
        after_status(
            rooted_at(after_status(s, Some(Status::Connected { home })), root),
            Some(Status::Connected { home }),
        ) == rooted_at(after_status(s, Some(Status::Connected { home })), root),
        after_status(s, Some(Status::Connected { home })).remote_ready,
{
}

} // verus!
