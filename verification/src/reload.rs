//! The reload orchestrator as a state machine. Whoever drives it watches the
//! file system and reads the source; the machine decides what follows from
//! each event and owns the published table.

use vstd::prelude::*;
use crate::composer::{parse_css, stylesheet_table};
use crate::table::{StyleMap, StyleMapView};
use crate::text::{chars_of, rscan, scan_back, CharClass};

verus! {

/// What the file system reports of the watched path.
#[derive(Clone, Copy, Debug, PartialEq, Eq, Structural)]
pub enum WatchEvent {
    Create,
    Modify,
    Rename,
    Remove,
    /// The path was read or opened, and nothing changed.
    Access,
    /// Anything else.
    Other,
}

/// Whether an event means that the source may have changed: something was
/// created, modified, renamed or removed.
pub open spec fn triggers_reload(event: WatchEvent) -> bool {
    event == WatchEvent::Create || event == WatchEvent::Modify || event == WatchEvent::Rename
        || event == WatchEvent::Remove
}

/// Whether `event` asks for a reload. Each event is judged by itself: a burst
/// of events asks for as many reloads.
pub fn handle_event(event: WatchEvent) -> (reload: bool)
    ensures
        reload == triggers_reload(event),
{
    match event {
        WatchEvent::Create | WatchEvent::Modify | WatchEvent::Rename | WatchEvent::Remove => true,
        WatchEvent::Access | WatchEvent::Other => false,
    }
}

/// Whether the watch goes into the folders below the path: only where that
/// was asked for and the path is a folder.
pub fn watch_recursively(path_is_dir: bool, recursive: bool) -> (r: bool)
    ensures
        r == (path_is_dir && recursive),
{
    path_is_dir && recursive
}

/// `c` as a lower-case letter, if it is an upper-case letter of ASCII.
pub open spec fn ascii_lower(c: char) -> char {
    if 'A' <= c <= 'Z' {
        ((c as u32) + 32) as char
    } else {
        c
    }
}

/// Whether a file of this name is a stylesheet: the name has an extension,
/// after its last dot, which is not its first character, and the extension
/// is `css` in upper or lower case.
pub open spec fn is_stylesheet_name(name: Seq<char>) -> bool {
    let dot = rscan(name, name.len() as int, CharClass::Is('.'));
    &&& dot >= 2
    &&& name.len() == dot + 3
    &&& ascii_lower(name[dot]) == 'c'
    &&& ascii_lower(name[dot + 1]) == 's'
    &&& ascii_lower(name[dot + 2]) == 's'
}

/// Whether a file of this name is read as a stylesheet.
pub fn is_stylesheet(name: &str) -> (r: bool)
    ensures
        r == is_stylesheet_name(name@),
{
    let chars = chars_of(name);
    let n = chars.len();
    let dot = scan_back(chars.as_slice(), n, CharClass::Is('.'));
    if dot < 2 || n - dot != 3 {
        return false;
    }
    (chars[dot] == 'c' || chars[dot] == 'C') && (chars[dot + 1] == 's' || chars[dot + 1] == 'S')
        && (chars[dot + 2] == 's' || chars[dot + 2] == 'S')
}

/// Where a reload stands.
#[derive(Clone, Copy, Debug, PartialEq, Eq, Structural)]
pub enum ReloadState {
    /// Nothing was loaded yet.
    Idle,
    /// The source is being read.
    Loading,
    /// The last reload published its table.
    Published,
    /// The last reload could not read the source.
    Failed,
}

/// What happened.
#[derive(Debug, PartialEq, Eq)]
pub enum ReloadEvent {
    /// The program starts, or the file system reported a change.
    Changed,
    /// The source was read; this is its text.
    SourceRead(String),
    /// The source could not be read.
    SourceUnreadable,
}

/// An event as a mathematical value.
pub ghost enum ReloadEventView {
    Changed,
    SourceRead(Seq<char>),
    SourceUnreadable,
}

impl View for ReloadEvent {
    type V = ReloadEventView;

    open spec fn view(&self) -> ReloadEventView {
        match *self {
            ReloadEvent::Changed => ReloadEventView::Changed,
            ReloadEvent::SourceRead(text) => ReloadEventView::SourceRead(text@),
            ReloadEvent::SourceUnreadable => ReloadEventView::SourceUnreadable,
        }
    }
}

/// What the driver has to do next.
#[derive(Clone, Copy, Debug, PartialEq, Eq, Structural)]
pub enum ReloadAction {
    /// Read the source and report the outcome.
    ReadSource,
    /// The new table is published. `empty` says that it holds no style,
    /// which is worth a warning.
    Published { empty: bool },
    /// The source could not be read: the table stays as it was, and the
    /// failure is to be reported.
    KeepPrevious,
}

/// The state after an event. A change starts a reload, whatever went on
/// before; the outcome of a read ends one, and the last outcome counts.
pub open spec fn next_state(event: ReloadEventView) -> ReloadState {
    match event {
        ReloadEventView::Changed => ReloadState::Loading,
        ReloadEventView::SourceRead(_) => ReloadState::Published,
        ReloadEventView::SourceUnreadable => ReloadState::Failed,
    }
}

/// The published table after an event: the table of the text that was read,
/// whole, or the table as it was, whole.
pub open spec fn next_table(table: StyleMapView, event: ReloadEventView) -> StyleMapView {
    match event {
        ReloadEventView::SourceRead(text) => stylesheet_table(text),
        _ => table,
    }
}

/// What the driver has to do after an event.
pub open spec fn next_action(event: ReloadEventView) -> ReloadAction {
    match event {
        ReloadEventView::Changed => ReloadAction::ReadSource,
        ReloadEventView::SourceRead(text) => ReloadAction::Published {
            empty: stylesheet_table(text).keys.len() == 0,
        },
        ReloadEventView::SourceUnreadable => ReloadAction::KeepPrevious,
    }
}

/// A reader never sees a table that is partly old and partly new: after any
/// event the published table is the old one or the new one, entire.
pub proof fn lemma_publish_is_atomic(table: StyleMapView, event: ReloadEventView)
    ensures
        next_table(table, event) == table || (event matches ReloadEventView::SourceRead(text)
            && next_table(table, event) == stylesheet_table(text)),
        !(event is SourceRead) ==> next_table(table, event) == table,
{
}

/// The reload orchestrator: the state of the reload and the published table.
pub struct Reloader {
    state: ReloadState,
    table: StyleMap,
}

impl Reloader {
    /// Where the reload stands.
    pub closed spec fn state(&self) -> ReloadState {
        self.state
    }

    /// The published table.
    pub closed spec fn published(&self) -> StyleMapView {
        self.table@
    }

    /// An orchestrator that has loaded nothing: its table is empty.
    pub fn new() -> (r: Reloader)
        ensures
            r.state() == ReloadState::Idle,
            r.published() == StyleMapView::empty(),
    {
        Reloader { state: ReloadState::Idle, table: StyleMap::new_const() }
    }

    /// Takes an event and says what to do next. The table is replaced as a
    /// whole or not at all.
    pub fn step(&mut self, event: ReloadEvent) -> (action: ReloadAction)
        ensures
            final(self).state() == next_state(event@),
            final(self).published() == next_table(old(self).published(), event@),
            action == next_action(event@),
    {
        match event {
            ReloadEvent::Changed => {
                self.state = ReloadState::Loading;
                ReloadAction::ReadSource
            },
            ReloadEvent::SourceRead(text) => {
                let table = parse_css(text.as_str());
                let empty = table.is_empty();
                self.table = table;
                self.state = ReloadState::Published;
                ReloadAction::Published { empty }
            },
            ReloadEvent::SourceUnreadable => {
                self.state = ReloadState::Failed;
                ReloadAction::KeepPrevious
            },
        }
    }

    /// Where the reload stands.
    pub fn current_state(&self) -> (r: ReloadState)
        ensures
            r == self.state(),
    {
        self.state
    }

    /// The published table.
    pub fn table(&self) -> (r: &StyleMap)
        ensures
            r@ == self.published(),
    {
        &self.table
    }
}

} // verus!
