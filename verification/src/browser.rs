//! The directory-navigation and file-selection state machine.
//!
//! `Browser` owns the current directory, the address text, the directory
//! index snapshot, and the global selection. Each command either changes
//! that state directly or hands back a request — read a directory, remove
//! a file — for the caller to perform; the outcome then comes back through
//! `apply_listing` or `apply_delete`. The decisions all live here; the
//! filesystem work does not.

use vstd::prelude::*;
use crate::listing::{
    build_index, build_model, lemma_index_invariant, DirectoryEntry, EntryKind, EntryModel,
    RawEntry, RawModel,
};
use crate::pathtext::{parent_dir, parent_path};

verus! {

/// A command for the navigation state machine.
#[derive(Clone, Debug)]
pub enum BrowserEvent {
    AddrSubmit,
    AddrChanged(String),
    ContentClicked(usize),
    DelSelected,
    DirUp,
    FocusAddrBar,
}

/// Navigation errors: the directory could not be read, or the selected
/// file could not be removed.
#[derive(Clone, Copy, Debug, PartialEq, Eq, Structural)]
pub enum NavError {
    ListingFailed,
    DeleteFailed,
}

/// What a caller found when asked to read a directory: the path named no
/// directory, the directory was unreadable, or here are its children.
pub enum Listing {
    NotADirectory,
    Unreadable,
    Entries(Vec<RawEntry>),
}

/// The mathematical model of a listing outcome.
pub enum ListingModel {
    NotADirectory,
    Unreadable,
    Entries(Seq<RawModel>),
}

impl View for Listing {
    type V = ListingModel;

    open spec fn view(&self) -> ListingModel {
        match self {
            Listing::NotADirectory => ListingModel::NotADirectory,
            Listing::Unreadable => ListingModel::Unreadable,
            Listing::Entries(v) => ListingModel::Entries(v.deep_view()),
        }
    }
}

/// What a command asks its caller to do next.
pub enum NavAction {
    Idle,
    FocusAddress,
    ReadDir(String),
    RemoveFile(String),
}

/// The mathematical model of a requested action.
pub enum NavActionModel {
    Idle,
    FocusAddress,
    ReadDir(Seq<char>),
    RemoveFile(Seq<char>),
}

impl View for NavAction {
    type V = NavActionModel;

    open spec fn view(&self) -> NavActionModel {
        match self {
            NavAction::Idle => NavActionModel::Idle,
            NavAction::FocusAddress => NavActionModel::FocusAddress,
            NavAction::ReadDir(s) => NavActionModel::ReadDir(s@),
            NavAction::RemoveFile(s) => NavActionModel::RemoveFile(s@),
        }
    }
}

/// What became of a requested file removal: the file was already gone (or
/// could not be removed), or it was removed and the current directory was
/// read again.
pub enum DeleteOutcome {
    Missing,
    Removed(Listing),
}

/// The mathematical model of a delete outcome.
pub enum DeleteOutcomeModel {
    Missing,
    Removed(ListingModel),
}

impl View for DeleteOutcome {
    type V = DeleteOutcomeModel;

    open spec fn view(&self) -> DeleteOutcomeModel {
        match self {
            DeleteOutcome::Missing => DeleteOutcomeModel::Missing,
            DeleteOutcome::Removed(l) => DeleteOutcomeModel::Removed(l@),
        }
    }
}

/// The navigation state: where we are, what the address bar shows, the
/// rendered index, and the one globally selected image, if any. The
/// selection may point outside the listed directory and persists across
/// navigation until changed or cleared.
pub struct Browser {
    pub current_dir: String,
    pub address_text: String,
    pub index: Vec<DirectoryEntry>,
    pub global_selection: Option<String>,
}

/// The mathematical model of the navigation state.
pub struct NavModel {
    pub current_dir: Seq<char>,
    pub address_text: Seq<char>,
    pub index: Seq<EntryModel>,
    pub selection: Option<Seq<char>>,
}

impl View for Browser {
    type V = NavModel;

    open spec fn view(&self) -> NavModel {
        NavModel {
            current_dir: self.current_dir@,
            address_text: self.address_text@,
            index: self.index.deep_view(),
            selection: match self.global_selection {
                Some(ref s) => Some(s@),
                None => None,
            },
        }
    }
}

impl NavModel {
    /// Well-formedness: ordinals are the positions, at most one entry is
    /// selected, and a selected entry's path is the global selection.
    pub open spec fn wf(self) -> bool {
        &&& forall|i: int| 0 <= i < self.index.len() ==> (#[trigger] self.index[i]).ordinal == i
        &&& forall|i: int, j: int|
            0 <= i < self.index.len() && 0 <= j < self.index.len() && (
            #[trigger] self.index[i]).selected && (#[trigger] self.index[j]).selected ==> i == j
        &&& forall|i: int|
            0 <= i < self.index.len() && (#[trigger] self.index[i]).selected ==> self.selection
                == Some(self.index[i].full_path)
    }
}

/// The index with exactly the entry at `i` selected.
pub open spec fn select_at(index: Seq<EntryModel>, i: int) -> Seq<EntryModel> {
    Seq::new(
        index.len(),
        |j: int|
            EntryModel {
                name: index[j].name,
                full_path: index[j].full_path,
                kind: index[j].kind,
                ordinal: index[j].ordinal,
                selected: j == i,
            },
    )
}

/// The index with no entry selected.
pub open spec fn clear_flags(index: Seq<EntryModel>) -> Seq<EntryModel> {
    Seq::new(
        index.len(),
        |j: int|
            EntryModel {
                name: index[j].name,
                full_path: index[j].full_path,
                kind: index[j].kind,
                ordinal: index[j].ordinal,
                selected: false,
            },
    )
}

/// What a click at ordinal `i` does: out-of-range and `Generic` clicks do
/// nothing; a `Directory` click requests that directory's listing; an
/// `Image` click moves the selection to that entry.
pub open spec fn click_model(m: NavModel, i: int) -> (NavModel, NavActionModel) {
    if !(0 <= i < m.index.len()) {
        (m, NavActionModel::Idle)
    } else {
        match m.index[i].kind {
            EntryKind::Directory => (m, NavActionModel::ReadDir(m.index[i].full_path)),
            EntryKind::Image => (
                NavModel {
                    current_dir: m.current_dir,
                    address_text: m.address_text,
                    index: select_at(m.index, i),
                    selection: Some(m.index[i].full_path),
                },
                NavActionModel::Idle,
            ),
            EntryKind::Generic => (m, NavActionModel::Idle),
        }
    }
}

/// What each command does to the state, and what it asks the caller to do.
pub open spec fn update_model(m: NavModel, e: BrowserEvent) -> (NavModel, NavActionModel) {
    match e {
        BrowserEvent::AddrChanged(v) => (
            NavModel {
                current_dir: m.current_dir,
                address_text: v@,
                index: m.index,
                selection: m.selection,
            },
            NavActionModel::Idle,
        ),
        BrowserEvent::AddrSubmit => (m, NavActionModel::ReadDir(m.address_text)),
        BrowserEvent::ContentClicked(i) => click_model(m, i as int),
        BrowserEvent::DirUp => match parent_path(m.current_dir) {
            Some(p) => (m, NavActionModel::ReadDir(p)),
            None => (m, NavActionModel::Idle),
        },
        BrowserEvent::DelSelected => match m.selection {
            Some(p) => (m, NavActionModel::RemoveFile(p)),
            None => (m, NavActionModel::Idle),
        },
        BrowserEvent::FocusAddrBar => (m, NavActionModel::FocusAddress),
    }
}

/// What a listing outcome does to the state: no directory means a silent
/// no-op, an unreadable directory means an error with the state kept, and
/// children mean moving there and rebuilding the index. The selection
/// persists.
pub open spec fn apply_listing_model(m: NavModel, dir: Seq<char>, l: ListingModel) -> (
    NavModel,
    Result<(), NavError>,
) {
    match l {
        ListingModel::NotADirectory => (m, Ok(())),
        ListingModel::Unreadable => (m, Err(NavError::ListingFailed)),
        ListingModel::Entries(children) => (
            NavModel {
                current_dir: dir,
                address_text: dir,
                index: build_model(children),
                selection: m.selection,
            },
            Ok(()),
        ),
    }
}

/// What a delete outcome does to the state: a missing file is an error
/// with the state kept; after a removal the selection is cleared and the
/// fresh listing of the current directory is applied.
pub open spec fn apply_delete_model(m: NavModel, o: DeleteOutcomeModel) -> (
    NavModel,
    Result<(), NavError>,
) {
    match o {
        DeleteOutcomeModel::Missing => (m, Err(NavError::DeleteFailed)),
        DeleteOutcomeModel::Removed(l) => match l {
            ListingModel::Entries(children) => (
                NavModel {
                    current_dir: m.current_dir,
                    address_text: m.address_text,
                    index: build_model(children),
                    selection: None,
                },
                Ok(()),
            ),
            _ => (
                NavModel {
                    current_dir: m.current_dir,
                    address_text: m.address_text,
                    index: clear_flags(m.index),
                    selection: None,
                },
                Err(NavError::ListingFailed),
            ),
        },
    }
}

/// Relies on dirs::home_dir for the OS-reported user-home directory. The
/// result depends on the environment, so nothing is promised of it.
#[verifier::external_body]
fn os_home_dir() -> Option<String> {
    dirs::home_dir().map(|p| p.to_string_lossy().to_string())
}

impl DirectoryEntry {
    /// A copy of the entry with the given selection flag.
    fn with_selected(&self, sel: bool) -> (r: DirectoryEntry)
        ensures
            r@ == (EntryModel {
                name: self@.name,
                full_path: self@.full_path,
                kind: self@.kind,
                ordinal: self@.ordinal,
                selected: sel,
            }),
    {
        DirectoryEntry {
            name: self.name.clone(),
            full_path: self.full_path.clone(),
            kind: self.kind,
            ordinal: self.ordinal,
            selected: sel,
        }
    }
}

impl Browser {
    /// A fresh state rooted at the given directory, with an empty index
    /// and no selection.
    pub fn new(start_dir: String) -> (r: Browser)
        ensures
            r@.current_dir == start_dir@,
            r@.address_text == start_dir@,
            r@.index =~= Seq::<EntryModel>::empty(),
            r@.selection is None,
            r@.wf(),
    {
        let b = Browser {
            current_dir: start_dir.clone(),
            address_text: start_dir,
            index: Vec::new(),
            global_selection: None,
        };
        proof {
            assert(b@.index =~= Seq::<EntryModel>::empty());
        }
        b
    }

    /// The startup state: rooted at the user-home directory, or at the
    /// filesystem root when the environment reports none.
    pub fn startup() -> (r: Browser)
        ensures
            r@.current_dir == r@.address_text,
            r@.index =~= Seq::<EntryModel>::empty(),
            r@.selection is None,
            r@.wf(),
    {
        match os_home_dir() {
            Some(home) => Browser::new(home),
            None => Browser::new("/".to_owned()),
        }
    }

    /// Replaces the whole index with the given rows.
    fn set_index(&mut self, rows: Vec<DirectoryEntry>)
        ensures
            final(self)@ == (NavModel {
                current_dir: old(self)@.current_dir,
                address_text: old(self)@.address_text,
                index: rows.deep_view(),
                selection: old(self)@.selection,
            }),
    {
        self.index = rows;
    }

    /// Runs one command: mutates the owned state and reports what the
    /// caller must do next, exactly as `update_model` says.
    pub fn update(&mut self, event: BrowserEvent) -> (a: NavAction)
        requires
            old(self)@.wf(),
        ensures
            (final(self)@, a@) == update_model(old(self)@, event),
            final(self)@.wf(),
    {
        match event {
            BrowserEvent::AddrChanged(v) => {
                self.address_text = v;
                NavAction::Idle
            },
            BrowserEvent::AddrSubmit => NavAction::ReadDir(self.address_text.clone()),
            BrowserEvent::ContentClicked(i) => self.click(i),
            BrowserEvent::DirUp => match parent_dir(self.current_dir.as_str()) {
                Some(p) => NavAction::ReadDir(p),
                None => NavAction::Idle,
            },
            BrowserEvent::DelSelected => match &self.global_selection {
                Some(p) => NavAction::RemoveFile(p.clone()),
                None => NavAction::Idle,
            },
            BrowserEvent::FocusAddrBar => NavAction::FocusAddress,
        }
    }

    /// Resolves a click against the current index snapshot.
    fn click(&mut self, i: usize) -> (a: NavAction)
        requires
            old(self)@.wf(),
        ensures
            (final(self)@, a@) == click_model(old(self)@, i as int),
            final(self)@.wf(),
    {
        if i >= self.index.len() {
            return NavAction::Idle;
        }
        match self.index[i].kind {
            EntryKind::Directory => NavAction::ReadDir(self.index[i].full_path.clone()),
            EntryKind::Generic => NavAction::Idle,
            EntryKind::Image => {
                let ghost m = self@;
                let path = self.index[i].full_path.clone();
                let mut rows: Vec<DirectoryEntry> = Vec::new();
                let mut j: usize = 0;
                proof {
                    assert(rows.deep_view() =~= select_at(m.index, i as int).subrange(0, 0));
                }
                while j < self.index.len()
                    invariant
                        j <= self.index.len(),
                        self@ == m,
                        i < m.index.len(),
                        rows.deep_view() =~= select_at(m.index, i as int).subrange(0, j as int),
                    decreases self.index.len() - j,
                {
                    let ghost prevrows = rows.deep_view();
                    let e = self.index[j].with_selected(j == i);
                    rows.push(e);
                    proof {
                        assert(rows.deep_view() =~= prevrows.push(e@));
                        assert(rows.deep_view() =~= select_at(m.index, i as int).subrange(
                            0,
                            j + 1,
                        ));
                    }
                    j = j + 1;
                }
                proof {
                    assert(select_at(m.index, i as int).subrange(
                        0,
                        select_at(m.index, i as int).len() as int,
                    ) =~= select_at(m.index, i as int));
                }
                self.set_index(rows);
                self.global_selection = Some(path);
                NavAction::Idle
            },
        }
    }

    /// Applies what came of a requested directory read.
    pub fn apply_listing(&mut self, dir: String, l: Listing) -> (r: Result<(), NavError>)
        requires
            old(self)@.wf(),
        ensures
            (final(self)@, r) == apply_listing_model(old(self)@, dir@, l@),
            final(self)@.wf(),
    {
        match l {
            Listing::NotADirectory => Ok(()),
            Listing::Unreadable => Err(NavError::ListingFailed),
            Listing::Entries(children) => {
                let rows = build_index(&children);
                proof {
                    lemma_index_invariant(children.deep_view());
                }
                self.set_index(rows);
                self.address_text = dir.clone();
                self.current_dir = dir;
                Ok(())
            },
        }
    }

    /// Applies what came of a requested file removal.
    pub fn apply_delete(&mut self, outcome: DeleteOutcome) -> (r: Result<(), NavError>)
        requires
            old(self)@.wf(),
        ensures
            (final(self)@, r) == apply_delete_model(old(self)@, outcome@),
            final(self)@.wf(),
    {
        match outcome {
            DeleteOutcome::Missing => Err(NavError::DeleteFailed),
            DeleteOutcome::Removed(l) => {
                self.global_selection = None;
                match l {
                    Listing::Entries(children) => {
                        let rows = build_index(&children);
                        proof {
                            lemma_index_invariant(children.deep_view());
                        }
                        self.set_index(rows);
                        Ok(())
                    },
                    _ => {
                        let ghost m = old(self)@;
                        let mut rows: Vec<DirectoryEntry> = Vec::new();
                        let mut j: usize = 0;
                        proof {
                            assert(rows.deep_view() =~= clear_flags(m.index).subrange(0, 0));
                        }
                        while j < self.index.len()
                            invariant
                                j <= self.index.len(),
                                self.index.deep_view() == m.index,
                                rows.deep_view() =~= clear_flags(m.index).subrange(0, j as int),
                            decreases self.index.len() - j,
                        {
                            let ghost prevrows = rows.deep_view();
                            let e = self.index[j].with_selected(false);
                            rows.push(e);
                            proof {
                                assert(rows.deep_view() =~= prevrows.push(e@));
                                assert(rows.deep_view() =~= clear_flags(m.index).subrange(
                                    0,
                                    j + 1,
                                ));
                            }
                            j = j + 1;
                        }
                        proof {
                            assert(clear_flags(m.index).subrange(
                                0,
                                clear_flags(m.index).len() as int,
                            ) =~= clear_flags(m.index));
                        }
                        self.set_index(rows);
                        Err(NavError::ListingFailed)
                    },
                }
            },
        }
    }
}


/// Law: submitting address text that names no directory leaves the whole
/// state — current directory, address text, index and selection — as it
/// was, and reports success (a silent no-op).
pub proof fn lemma_submit_rejects_non_directory(m: NavModel, text: Seq<char>)
    ensures
        apply_listing_model(m, text, ListingModel::NotADirectory) == (m, Ok::<(), NavError>(())),
{
}

/// Law: going up from a directory with no parent changes nothing and asks
/// for nothing; from anywhere else the parent is listed again and both the
/// current directory and the address text become the parent's text.
pub proof fn lemma_dir_up(m: NavModel, children: Seq<RawModel>)
    ensures
        parent_path(m.current_dir) is None ==> update_model(m, BrowserEvent::DirUp) == (
            m,
            NavActionModel::Idle,
        ),
        parent_path(m.current_dir) matches Some(p) ==> update_model(m, BrowserEvent::DirUp) == (
            m,
            NavActionModel::ReadDir(p),
        ) && apply_listing_model(m, p, ListingModel::Entries(children)) == (
            NavModel {
                current_dir: p,
                address_text: p,
                index: build_model(children),
                selection: m.selection,
            },
            Ok::<(), NavError>(()),
        ),
{
}

/// Law: a click on a `Directory` entry behaves identically to submitting
/// that entry's full path — the click itself changes nothing and requests
/// the same listing, and the listing outcome then applies to the very same
/// state.
pub proof fn lemma_click_directory_is_submit(m: NavModel, i: usize, l: ListingModel)
    requires
        i < m.index.len(),
        m.index[i as int].kind == EntryKind::Directory,
    ensures
        click_model(m, i as int) == (m, NavActionModel::ReadDir(m.index[i as int].full_path)),
        apply_listing_model(click_model(m, i as int).0, m.index[i as int].full_path, l)
            == apply_listing_model(m, m.index[i as int].full_path, l),
{
}

/// Law: a click on an `Image` entry records that entry's path as the
/// global selection, marks exactly that entry selected, clears every other
/// selection flag, and touches nothing else — no listing is rebuilt.
pub proof fn lemma_click_image_selects(m: NavModel, i: usize)
    requires
        i < m.index.len(),
        m.index[i as int].kind == EntryKind::Image,
    ensures
        click_model(m, i as int).1 == NavActionModel::Idle,
        click_model(m, i as int).0.selection == Some(m.index[i as int].full_path),
        click_model(m, i as int).0.current_dir == m.current_dir,
        click_model(m, i as int).0.address_text == m.address_text,
        click_model(m, i as int).0.index.len() == m.index.len(),
        click_model(m, i as int).0.index[i as int].selected,
        forall|j: int|
            0 <= j < m.index.len() && j != i ==> !(#[trigger] click_model(
                m,
                i as int,
            ).0.index[j]).selected,
        forall|j: int|
            0 <= j < m.index.len() ==> {
                let e = #[trigger] click_model(m, i as int).0.index[j];
                e.name == m.index[j].name && e.full_path == m.index[j].full_path && e.kind
                    == m.index[j].kind && e.ordinal == m.index[j].ordinal
            },
{
}

} // verus!
