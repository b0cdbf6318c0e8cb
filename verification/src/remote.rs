//! The state of browsing a remote machine over SFTP.
//!
//! The network lives on a worker that the application runs; the UI never
//! waits on it. Asking for a folder listing or a file records it as loading
//! and queues one request for the worker; what the worker gets back is
//! recorded here, and the UI reads it on a later frame.
use vstd::prelude::*;
use std::sync::Arc;
use crate::text::push_text;
use crate::text_map::TextMap;

verus! {

/// One entry in a remote directory.
#[derive(Clone, Debug)]
pub struct RemoteEntry {
    pub path: String,
    pub is_dir: bool,
}

impl RemoteEntry {
    /// A copy of this entry.
    pub fn duplicate(&self) -> (r: Self)
        ensures
            r == *self,
    {
        RemoteEntry { path: self.path.clone(), is_dir: self.is_dir }
    }
}

/// A copy of a list of entries.
fn duplicate_entries(entries: &Vec<RemoteEntry>) -> (r: Vec<RemoteEntry>)
    ensures
        r@ == entries@,
{
    let mut r: Vec<RemoteEntry> = Vec::new();
    let mut i: usize = 0;
    while i < entries.len()
        invariant
            i <= entries.len(),
            r@ == entries@.take(i as int),
        decreases entries.len() - i,
    {
        r.push(entries[i].duplicate());
        proof {
            assert(entries@.take(i + 1) =~= entries@.take(i as int).push(entries@[i as int]));
        }
        i = i + 1;
    }
    proof {
        assert(entries@.take(entries.len() as int) =~= entries@);
    }
    r
}

/// State of a directory listing the UI has asked for.
#[derive(Clone, Debug)]
pub enum ListState {
    Loading,
    Ready(Vec<RemoteEntry>),
    Failed(String),
}

/// What a listing state holds.
pub enum ListView {
    Loading,
    Ready(Seq<RemoteEntry>),
    Failed(Seq<char>),
}

impl View for ListState {
    type V = ListView;

    open spec fn view(&self) -> ListView {
        match self {
            ListState::Loading => ListView::Loading,
            ListState::Ready(entries) => ListView::Ready(entries@),
            ListState::Failed(e) => ListView::Failed(e@),
        }
    }
}

impl ListState {
    /// A copy of this state.
    pub fn duplicate(&self) -> (r: Self)
        ensures
            r@ == self@,
    {
        match self {
            ListState::Loading => ListState::Loading,
            ListState::Ready(entries) => ListState::Ready(duplicate_entries(entries)),
            ListState::Failed(e) => ListState::Failed(e.clone()),
        }
    }
}

/// A second handle on the same bytes (`Arc::clone`).
#[verifier::external_body]
fn share_bytes(bytes: &Arc<Vec<u8>>) -> (r: Arc<Vec<u8>>)
    ensures
        r == *bytes,
{
    Arc::clone(bytes)
}

/// State of a file the UI has asked for.
#[derive(Clone, Debug)]
pub enum FileState {
    Loading,
    Ready(Arc<Vec<u8>>),
    Failed(String),
}

/// What a file state holds.
pub enum FileView {
    Loading,
    Ready(Seq<u8>),
    Failed(Seq<char>),
}

impl View for FileState {
    type V = FileView;

    open spec fn view(&self) -> FileView {
        match self {
            FileState::Loading => FileView::Loading,
            FileState::Ready(bytes) => FileView::Ready(bytes@),
            FileState::Failed(e) => FileView::Failed(e@),
        }
    }
}

impl FileState {
    /// A copy of this state; the bytes are shared, not copied.
    pub fn duplicate(&self) -> (r: Self)
        ensures
            r == *self,
    {
        match self {
            FileState::Loading => FileState::Loading,
            FileState::Ready(bytes) => FileState::Ready(share_bytes(bytes)),
            FileState::Failed(e) => FileState::Failed(e.clone()),
        }
    }
}

/// State of the connection.
#[derive(Clone, Debug, PartialEq)]
pub enum Status {
    Connecting,
    Connected { home: String },
    Failed(String),
}

impl Status {
    /// A copy of this status.
    pub fn duplicate(&self) -> (r: Self)
        ensures
            r == *self,
    {
        match self {
            Status::Connecting => Status::Connecting,
            Status::Connected { home } => Status::Connected { home: home.clone() },
            Status::Failed(e) => Status::Failed(e.clone()),
        }
    }
}

/// Work for the worker: list a folder, or fetch a file.
#[derive(Debug)]
pub enum Request {
    List(String),
    Fetch(String),
}

/// What a request asks for.
pub enum RequestView {
    List(Seq<char>),
    Fetch(Seq<char>),
}

impl View for Request {
    type V = RequestView;

    open spec fn view(&self) -> RequestView {
        match self {
            Request::List(p) => RequestView::List(p@),
            Request::Fetch(p) => RequestView::Fetch(p@),
        }
    }
}

/// The whole state of a remote connection, as the UI sees it.
pub struct RemoteView {
    pub listings: Map<Seq<char>, ListView>,
    pub files: Map<Seq<char>, FileView>,
    pub status: Status,
    /// Requests not yet handed to the worker, oldest first.
    pub requests: Seq<RequestView>,
    pub label: Seq<char>,
}

/// How connecting ends: while still connecting, the state becomes
/// `status`; afterwards it stays.
pub open spec fn settled(s: RemoteView, status: Status) -> RemoteView {
    if s.status is Connecting {
        RemoteView { status, ..s }
    } else {
        s
    }
}

/// Asking for the listing of `dir`: a listing already known is left alone;
/// otherwise it is recorded as loading and one request is queued.
pub open spec fn after_list(s: RemoteView, dir: Seq<char>) -> RemoteView {
    if s.listings.contains_key(dir) {
        s
    } else {
        RemoteView {
            listings: s.listings.insert(dir, ListView::Loading),
            requests: s.requests.push(RequestView::List(dir)),
            ..s
        }
    }
}

/// What asking for the listing of `dir` answers.
pub open spec fn list_answer(s: RemoteView, dir: Seq<char>) -> ListView {
    if s.listings.contains_key(dir) {
        s.listings[dir]
    } else {
        ListView::Loading
    }
}

/// Asking for the bytes of `path`, in the same way as [`after_list`].
pub open spec fn after_file(s: RemoteView, path: Seq<char>) -> RemoteView {
    if s.files.contains_key(path) {
        s
    } else {
        RemoteView {
            files: s.files.insert(path, FileView::Loading),
            requests: s.requests.push(RequestView::Fetch(path)),
            ..s
        }
    }
}

/// What asking for the bytes of `path` answers.
pub open spec fn file_answer(s: RemoteView, path: Seq<char>) -> FileView {
    if s.files.contains_key(path) {
        s.files[path]
    } else {
        FileView::Loading
    }
}

/// A live (or failed) connection to a remote machine.
pub struct RemoteFs {
    listings: TextMap<ListState>,
    files: TextMap<FileState>,
    status: Status,
    outbox: Vec<Request>,
    label: String,
}

impl View for RemoteFs {
    type V = RemoteView;

    closed spec fn view(&self) -> RemoteView {
        RemoteView {
            listings: self.listings.view().map_values(|s: ListState| s@),
            files: self.files.view().map_values(|s: FileState| s@),
            status: self.status,
            requests: self.outbox@.map_values(|r: Request| r@),
            label: self.label@,
        }
    }
}

impl RemoteFs {
    /// A connection to `user@host` that has not been made yet: nothing
    /// listed, nothing fetched, nothing asked for.
    pub fn new(host: &str, user: &str) -> (r: Self)
        ensures
            r@.listings == Map::<Seq<char>, ListView>::empty(),
            r@.files == Map::<Seq<char>, FileView>::empty(),
            r@.status == Status::Connecting,
            r@.requests == Seq::<RequestView>::empty(),
            r@.label == user@ + seq!['@'] + host@,
    {
        let mut label_chars: Vec<char> = Vec::new();
        push_text(&mut label_chars, user);
        push_text(&mut label_chars, "@");
        push_text(&mut label_chars, host);
        proof {
            reveal_strlit("@");
        }
        let r = RemoteFs {
            listings: TextMap::new(),
            files: TextMap::new(),
            status: Status::Connecting,
            outbox: Vec::new(),
            label: crate::text::string_from_chars(&label_chars),
        };
        proof {
            assert(r@.listings =~= Map::<Seq<char>, ListView>::empty());
            assert(r@.files =~= Map::<Seq<char>, FileView>::empty());
            assert(r@.requests =~= Seq::<RequestView>::empty());
        }
        r
    }

    /// What the connection is shown as: `user@host`.
    pub fn label(&self) -> (l: &str)
        ensures
            l@ == self@.label,
    {
        self.label.as_str()
    }

    /// The state of the connection.
    pub fn status(&self) -> (s: Status)
        ensures
            s == self@.status,
    {
        self.status.duplicate()
    }

    /// Records how connecting ended (reported by the worker): a connection
    /// that is still connecting becomes connected or failed; once it has
    /// ended, its state stays as it is.
    pub fn settle_status(&mut self, status: Status)
        ensures
            final(self)@ == settled(old(self)@, status),
    {
        if let Status::Connecting = self.status {
            self.status = status;
        }
    }

    /// The listing for `dir`, requesting it if this is the first time it is
    /// asked for.
    pub fn list(&mut self, dir: &str) -> (state: ListState)
        ensures
            state@ == list_answer(old(self)@, dir@),
            final(self)@ == after_list(old(self)@, dir@),
    {
        match self.listings.get(dir) {
            Some(state) => state.duplicate(),
            None => {
                let ghost before = self@;
                self.listings.insert(dir.to_string(), ListState::Loading);
                self.outbox.push(Request::List(dir.to_string()));
                proof {
                    assert(self@.listings =~= before.listings.insert(dir@, ListView::Loading));
                    assert(self@.requests =~= before.requests.push(RequestView::List(dir@)));
                }
                ListState::Loading
            },
        }
    }

    /// The bytes of `path`, requesting them if this is the first time.
    pub fn file(&mut self, path: &str) -> (state: FileState)
        ensures
            state@ == file_answer(old(self)@, path@),
            final(self)@ == after_file(old(self)@, path@),
    {
        match self.files.get(path) {
            Some(state) => state.duplicate(),
            None => {
                let ghost before = self@;
                self.files.insert(path.to_string(), FileState::Loading);
                self.outbox.push(Request::Fetch(path.to_string()));
                proof {
                    assert(self@.files =~= before.files.insert(path@, FileView::Loading));
                    assert(self@.requests =~= before.requests.push(RequestView::Fetch(path@)));
                }
                FileState::Loading
            },
        }
    }

    /// Forgets fetched bytes, keeping directory listings. Remote files are
    /// decoded into the image cache, so holding the raw bytes too would
    /// double the memory for no gain.
    pub fn forget_file(&mut self, path: &str)
        ensures
            final(self)@ == (RemoteView { files: old(self)@.files.remove(path@), ..old(self)@ }),
    {
        let ghost before = self@;
        self.files.remove(path);
        proof {
            assert(self@.files =~= before.files.remove(path@));
        }
    }

    /// Records the listing of `dir` that the worker got back.
    pub fn record_listing(&mut self, dir: String, state: ListState)
        ensures
            final(self)@ == (RemoteView {
                listings: old(self)@.listings.insert(dir@, state@),
                ..old(self)@
            }),
    {
        let ghost before = self@;
        let ghost k = dir@;
        let ghost v = state@;
        self.listings.insert(dir, state);
        proof {
            assert(self@.listings =~= before.listings.insert(k, v));
        }
    }

    /// Records the outcome of fetching `path` that the worker got back.
    pub fn record_file(&mut self, path: String, state: FileState)
        ensures
            final(self)@ == (RemoteView { files: old(self)@.files.insert(path@, state@), ..old(self)@ }),
    {
        let ghost before = self@;
        let ghost k = path@;
        let ghost v = state@;
        self.files.insert(path, state);
        proof {
            assert(self@.files =~= before.files.insert(k, v));
        }
    }

    /// Hands over the queued requests, oldest first, for the worker.
    pub fn take_requests(&mut self) -> (requests: Vec<Request>)
        ensures
            requests@.map_values(|r: Request| r@) == old(self)@.requests,
            final(self)@ == (RemoteView { requests: Seq::empty(), ..old(self)@ }),
    {
        let mut requests: Vec<Request> = Vec::new();
        std::mem::swap(&mut requests, &mut self.outbox);
        proof {
            assert(self@.requests =~= Seq::<RequestView>::empty());
        }
        requests
    }
}


/// Asking for a listing twice sends one request: the second ask finds the
/// first one's entry (loading, or whatever arrived since) and changes
/// nothing.
pub proof fn lemma_list_requests_once(s: RemoteView, dir: Seq<char>)
    ensures
        after_list(after_list(s, dir), dir) == after_list(s, dir),
        after_list(s, dir).listings.contains_key(dir),
        after_list(s, dir).requests.len() <= s.requests.len() + 1,
{
}

/// The state of a connection leaves `Connecting` at most once: whatever is
/// reported after it has become connected or failed leaves it unchanged.
pub proof fn lemma_status_settles_once(s: RemoteView, first: Status, later: Status)
    ensures
        !(settled(s, first).status is Connecting) ==> settled(settled(s, first), later) == settled(s, first),
        s.status is Connecting ==> settled(s, first).status == first,
{
}

/// The same holds for files.
pub proof fn lemma_file_requests_once(s: RemoteView, path: Seq<char>)
    ensures
        after_file(after_file(s, path), path) == after_file(s, path),
        after_file(s, path).files.contains_key(path),
        after_file(s, path).requests.len() <= s.requests.len() + 1,
{
}

/// What the worker records is what the next ask answers: a listing or a
/// file, once recorded, is read back unchanged.
pub proof fn lemma_recorded_is_answered(s: RemoteView, dir: Seq<char>, state: ListView, path: Seq<char>, file: FileView)
    ensures
        list_answer(RemoteView { listings: s.listings.insert(dir, state), ..s }, dir) == state,
        file_answer(RemoteView { files: s.files.insert(path, file), ..s }, path) == file,
{
}

} // verus!
