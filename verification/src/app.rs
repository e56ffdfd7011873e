//! The state of the viewer, and how a listing and the terminal's events
//! change it.

use vstd::prelude::*;
use crate::event::{is_exit_event, is_exit_key, Event, KeyCode, KeyEvent, KeyEventKind};
use crate::listing::{entry_views, names_of, partition, Scan};
use crate::order::sorted;
use crate::sort::sort_names;

verus! {

/// The viewer's state: the directory it shows, the names found in it, and
/// whether the user has asked to leave. Both lists of names are in ascending
/// order at all times.
#[derive(Debug)]
pub struct App {
    path: String,
    tree_dirs: Vec<String>,
    tree_files: Vec<String>,
    exit: bool,
}

/// The state of an [`App`] as plain values.
pub struct AppView {
    pub path: Seq<char>,
    pub dirs: Seq<Seq<char>>,
    pub files: Seq<Seq<char>>,
    pub exited: bool,
}

impl View for App {
    type V = AppView;

    closed spec fn view(&self) -> AppView {
        AppView {
            path: self.path@,
            dirs: self.tree_dirs.deep_view(),
            files: self.tree_files.deep_view(),
            exited: self.exit,
        }
    }
}

/// The state after a key event: ended where the key is one of the four that
/// end the viewer, else as before. What happened to the key plays no part.
pub open spec fn after_key(state: AppView, key_event: KeyEvent) -> AppView {
    if is_exit_key(key_event.code) {
        AppView { exited: true, ..state }
    } else {
        state
    }
}

/// The state after an event of the terminal: that after the key event where
/// the event is the press of a key, else as before.
pub open spec fn after_event(state: AppView, event: Event) -> AppView {
    match event {
        Event::Key(key_event) if key_event.kind == KeyEventKind::Press => after_key(
            state,
            key_event,
        ),
        _ => state,
    }
}

/// An event ends the viewer exactly where it is the press of one of the four
/// keys, and changes nothing but that.
pub proof fn lemma_event_ends_or_keeps(state: AppView, event: Event)
    ensures
        is_exit_event(event) ==> after_event(state, event) == (AppView { exited: true, ..state }),
        !is_exit_event(event) ==> after_event(state, event) == state,
{
}

/// A viewer that has ended stays as it is, whatever event follows.
pub proof fn lemma_ended_is_final(state: AppView, event: Event)
    requires
        state.exited,
    ensures
        after_event(state, event) == state,
{
}

/// The path that the viewer shows: the current directory.
pub open spec fn root_path() -> Seq<char> {
    "."@
}

impl Default for App {
    /// A viewer that runs, with no path and no names yet.
    fn default() -> (app: App)
        ensures
            app@ == (AppView {
                path: Seq::empty(),
                dirs: Seq::empty(),
                files: Seq::empty(),
                exited: false,
            }),
    {
        let app = App { path: String::new(), tree_dirs: Vec::new(), tree_files: Vec::new(), exit: false };
        assert(app.tree_dirs.deep_view() =~= Seq::<Seq<char>>::empty());
        assert(app.tree_files.deep_view() =~= Seq::<Seq<char>>::empty());
        app
    }
}

impl App {
    #[verifier::type_invariant]
    spec fn ordered(&self) -> bool {
        sorted(self.tree_dirs.deep_view()) && sorted(self.tree_files.deep_view())
    }

    /// The path of the directory that is shown.
    pub fn path(&self) -> (path: &str)
        ensures
            path@ == self@.path,
    {
        self.path.as_str()
    }

    /// The directories' names, in ascending order.
    pub fn tree_dirs(&self) -> (names: &Vec<String>)
        ensures
            names.deep_view() == self@.dirs,
            sorted(names.deep_view()),
    {
        proof {
            use_type_invariant(self);
        }
        &self.tree_dirs
    }

    /// The files' names, in ascending order.
    pub fn tree_files(&self) -> (names: &Vec<String>)
        ensures
            names.deep_view() == self@.files,
            sorted(names.deep_view()),
    {
        proof {
            use_type_invariant(self);
        }
        &self.tree_files
    }

    /// Whether the viewer has left the running state.
    pub fn should_exit(&self) -> (exited: bool)
        ensures
            exited == self@.exited,
    {
        self.exit
    }

    /// Turns to the root path, with no names yet. Whether the viewer runs
    /// does not change.
    pub fn start(&mut self)
        ensures
            final(self)@ == (AppView {
                path: root_path(),
                dirs: Seq::empty(),
                files: Seq::empty(),
                exited: old(self)@.exited,
            }),
    {
        proof {
            use_type_invariant(&*self);
        }
        self.path = ".".to_owned();
        self.tree_dirs = Vec::new();
        self.tree_files = Vec::new();
        assert(self.tree_dirs.deep_view() =~= Seq::<Seq<char>>::empty());
        assert(self.tree_files.deep_view() =~= Seq::<Seq<char>>::empty());
    }

    /// Takes in what reading the path gave. The names of the directories
    /// among the entries join the directories' names, those of the others the
    /// files' names, and both lists are sorted again. A path that is no
    /// directory changes nothing.
    pub fn generate_filetree(&mut self, scan: &Scan)
        ensures
            final(self)@.path == old(self)@.path,
            final(self)@.exited == old(self)@.exited,
            sorted(final(self)@.dirs),
            sorted(final(self)@.files),
            match scan {
                Scan::NotADirectory => final(self)@ == old(self)@,
                Scan::Entries(entries) => {
                    &&& final(self)@.dirs.to_multiset() == (old(self)@.dirs + names_of(
                        entry_views(entries@),
                        true,
                    )).to_multiset()
                    &&& final(self)@.files.to_multiset() == (old(self)@.files + names_of(
                        entry_views(entries@),
                        false,
                    )).to_multiset()
                },
            },
    {
        proof {
            use_type_invariant(&*self);
        }
        match scan {
            Scan::NotADirectory => {},
            Scan::Entries(entries) => {
                let mut dirs: Vec<String> = Vec::new();
                let mut files: Vec<String> = Vec::new();
                assert(dirs.deep_view() =~= Seq::<Seq<char>>::empty());
                assert(files.deep_view() =~= Seq::<Seq<char>>::empty());
                core::mem::swap(&mut self.tree_dirs, &mut dirs);
                core::mem::swap(&mut self.tree_files, &mut files);
                partition(entries, &mut dirs, &mut files);
                sort_names(&mut dirs);
                sort_names(&mut files);
                self.tree_dirs = dirs;
                self.tree_files = files;
            },
        }
    }

    /// Leaves the running state; nothing else changes.
    pub fn exit(&mut self)
        ensures
            final(self)@ == (AppView { exited: true, ..old(self)@ }),
    {
        proof {
            use_type_invariant(&*self);
        }
        self.exit = true;
    }

    /// Acts on a key: up, down, enter and the letter q each end the viewer,
    /// every other key changes nothing.
    pub fn handle_key_event(&mut self, key_event: KeyEvent)
        ensures
            final(self)@ == after_key(old(self)@, key_event),
    {
        match key_event.code {
            KeyCode::Up => self.exit(),
            KeyCode::Down => self.exit(),
            KeyCode::Enter => self.exit(),
            KeyCode::Char('q') => self.exit(),
            _ => {},
        }
    }

    /// Acts on one event of the terminal: the press of a key goes to
    /// `handle_key_event`, every other event changes nothing.
    pub fn handle_events(&mut self, event: Event)
        ensures
            final(self)@ == after_event(old(self)@, event),
    {
        match event {
            Event::Key(key_event) => {
                match key_event.kind {
                    KeyEventKind::Press => self.handle_key_event(key_event),
                    _ => {},
                }
            },
            _ => {},
        }
    }
}

} // verus!
