//! Watching for changes: what is watched, what an event of the file system
//! means, and how a burst of events becomes one rebuild.

use crate::pending::{path_set, PendingChangeSet};
use crate::text::{ends_with, has_suffix, push_str, same_text, to_chars};
use vstd::prelude::*;

verus! {

/// The directory of the slides, watched with all that is in it.
pub const SLIDE_DIR: &'static str = "slides";

/// The stylesheet that the author may edit, watched alone.
pub const STYLE_PATH: &'static str = "public/unveil.css";

/// The configuration file, watched alone.
pub const CONFIG_PATH: &'static str = "unveil.toml";

/// The file name of the stylesheet.
pub const STYLE_FILE: &'static str = "unveil.css";

/// The file name of the configuration file.
pub const CONFIG_FILE: &'static str = "unveil.toml";

/// How long the window lasts that the first event of a burst opens, in
/// milliseconds.
pub const DEBOUNCE_MILLIS: u64 = 50;

/// A path to watch. The watch on a single file may be lost when the file
/// is removed or renamed, and must then be registered again.
#[derive(Clone, Debug, PartialEq, Eq)]
pub struct WatchTarget {
    /// The path.
    pub path: String,
    /// Whether everything below the path is watched too.
    pub recursive: bool,
}

/// What happened to a path.
#[derive(Clone, Copy, Debug, PartialEq, Eq, Structural)]
pub enum ChangeKind {
    /// It was created.
    Create,
    /// Its content or its metadata changed.
    Modify,
    /// It was removed.
    Remove,
    /// It was given another name.
    Rename,
    /// Anything else, such as a read.
    Other,
}

/// An event of the file system.
#[derive(Clone, Debug, PartialEq, Eq)]
pub struct FsEvent {
    /// What happened.
    pub kind: ChangeKind,
    /// The paths it happened to.
    pub paths: Vec<String>,
}

/// What to do about one event.
#[derive(Clone, Copy, Debug, PartialEq, Eq, Structural)]
pub struct Reaction {
    /// Register the watch on the stylesheet again.
    pub rearm_style: bool,
    /// Register the watch on the configuration file again.
    pub rearm_config: bool,
    /// Count the event's paths as changed.
    pub record: bool,
}

/// `path` is the file `file`, in whatever directory.
pub open spec fn names_file(path: Seq<char>, file: Seq<char>) -> bool {
    path == file || ends_with(path, seq!['/'] + file)
}

/// One of `paths` is the file `file`.
pub open spec fn touches(paths: Seq<String>, file: Seq<char>) -> bool {
    exists|i: int| 0 <= i < paths.len() && names_file(#[trigger] paths[i]@, file)
}

/// The kinds of event after which the presentation is rebuilt.
pub open spec fn is_change(kind: ChangeKind) -> bool {
    kind != ChangeKind::Other
}

/// The kinds of event that may cost a single file its watch.
pub open spec fn is_removal(kind: ChangeKind) -> bool {
    kind == ChangeKind::Remove || kind == ChangeKind::Rename
}

/// What to do about an event of kind `kind` on `paths`: every change is
/// recorded, and a removal of a file that is watched alone has its watch
/// registered again.
pub open spec fn reaction_to(kind: ChangeKind, paths: Seq<String>) -> Reaction {
    Reaction {
        rearm_style: is_removal(kind) && touches(paths, STYLE_FILE@),
        rearm_config: is_removal(kind) && touches(paths, CONFIG_FILE@),
        record: is_change(kind),
    }
}

/// Whether `path` is the file `file`, in whatever directory.
pub fn is_file(path: &str, file: &str) -> (same: bool)
    ensures
        same == names_file(path@, file@),
{
    if same_text(path, file) {
        return true;
    }
    let text = to_chars(path);
    let mut suffix: Vec<char> = Vec::new();
    suffix.push('/');
    push_str(&mut suffix, file);
    has_suffix(&text, &suffix)
}

/// Whether one of `paths` is the file `file`.
pub fn any_is_file(paths: &Vec<String>, file: &str) -> (found: bool)
    ensures
        found == touches(paths@, file@),
{
    let mut i: usize = 0;
    while i < paths.len()
        invariant
            i <= paths.len(),
            forall|k: int| 0 <= k < i ==> !names_file(#[trigger] paths@[k]@, file@),
        decreases paths.len() - i,
    {
        if is_file(paths[i].as_str(), file) {
            return true;
        }
        i += 1;
    }
    false
}

/// What to do about `event`.
pub fn classify(event: &FsEvent) -> (reaction: Reaction)
    ensures
        reaction == reaction_to(event.kind, event.paths@),
{
    let removal = match event.kind {
        ChangeKind::Remove => true,
        ChangeKind::Rename => true,
        _ => false,
    };
    let change = match event.kind {
        ChangeKind::Other => false,
        _ => true,
    };
    Reaction {
        rearm_style: removal && any_is_file(&event.paths, STYLE_FILE),
        rearm_config: removal && any_is_file(&event.paths, CONFIG_FILE),
        record: change,
    }
}

/// The two states of the watcher: idle, or within the window that follows
/// the first event of a burst.
#[derive(Clone, Copy, Debug, PartialEq, Eq, Structural)]
pub enum WatchState {
    /// Waiting for an event.
    Watching,
    /// Gathering the events of a burst.
    Debouncing,
}

/// The watcher as contracts see it.
pub struct WatcherModel {
    /// The state.
    pub state: WatchState,
    /// The paths that changed since the last rebuild.
    pub pending: Set<Seq<char>>,
}

/// The paths that an event adds to the pending ones.
pub open spec fn recorded(event: FsEvent) -> Set<Seq<char>> {
    if reaction_to(event.kind, event.paths@).record {
        path_set(event.paths@)
    } else {
        Set::empty()
    }
}

/// The watcher after an event: within the window, with the event's paths
/// added to the pending ones.
pub open spec fn after_event(watcher: WatcherModel, event: FsEvent) -> WatcherModel {
    WatcherModel { state: WatchState::Debouncing, pending: watcher.pending.union(recorded(event)) }
}

/// Whether an event opens a window: it does when it finds the watcher idle.
pub open spec fn opens_window(watcher: WatcherModel) -> bool {
    watcher.state == WatchState::Watching
}

/// The idle watcher with nothing pending.
pub open spec fn idle() -> WatcherModel {
    WatcherModel { state: WatchState::Watching, pending: Set::empty() }
}

/// What the watcher does about one event.
#[derive(Clone, Debug, PartialEq, Eq)]
pub struct Step {
    /// The watches to register again.
    pub rearm: Vec<WatchTarget>,
    /// Whether to start the window at whose end `on_quiet` is called.
    pub start_window: bool,
}

/// The watches to register again after an event, as paths: the stylesheet
/// first, then the configuration file.
pub open spec fn rearmed(reaction: Reaction) -> Seq<Seq<char>> {
    (if reaction.rearm_style {
        seq![STYLE_PATH@]
    } else {
        Seq::empty()
    }) + (if reaction.rearm_config {
        seq![CONFIG_PATH@]
    } else {
        Seq::empty()
    })
}

/// The paths of `targets`.
pub open spec fn target_paths(targets: Seq<WatchTarget>) -> Seq<Seq<char>> {
    Seq::new(targets.len(), |i: int| targets[i].path@)
}

/// Gathers the changes of a burst of events into one batch.
pub struct ChangeWatcher {
    state: WatchState,
    pending: PendingChangeSet,
}

impl ChangeWatcher {
    /// The state and the pending paths.
    pub closed spec fn view(&self) -> WatcherModel {
        WatcherModel { state: self.state, pending: self.pending@ }
    }

    /// No path is pending twice.
    pub closed spec fn wf(&self) -> bool {
        self.pending.wf()
    }

    /// An idle watcher with nothing pending.
    pub fn new() -> (watcher: Self)
        ensures
            watcher.wf(),
            watcher@ == idle(),
    {
        ChangeWatcher { state: WatchState::Watching, pending: PendingChangeSet::new() }
    }

    /// What to watch from the start: the slide directory with all that is in
    /// it, then the stylesheet and the configuration file, each alone.
    pub fn targets() -> (targets: Vec<WatchTarget>)
        ensures
            target_paths(targets@) == seq![SLIDE_DIR@, STYLE_PATH@, CONFIG_PATH@],
            targets@[0].recursive,
            !targets@[1].recursive,
            !targets@[2].recursive,
    {
        let mut targets: Vec<WatchTarget> = Vec::new();
        targets.push(WatchTarget { path: SLIDE_DIR.to_owned(), recursive: true });
        targets.push(WatchTarget { path: STYLE_PATH.to_owned(), recursive: false });
        targets.push(WatchTarget { path: CONFIG_PATH.to_owned(), recursive: false });
        assert(target_paths(targets@) =~= seq![SLIDE_DIR@, STYLE_PATH@, CONFIG_PATH@]);
        targets
    }

    /// Takes in an event. Its paths become pending if it is a change; the
    /// watch on a removed or renamed single file is to be registered again;
    /// and the first event after idleness starts the window.
    pub fn on_event(&mut self, event: &FsEvent) -> (step: Step)
        requires
            old(self).wf(),
        ensures
            final(self).wf(),
            final(self)@ == after_event(old(self)@, *event),
            step.start_window == opens_window(old(self)@),
            target_paths(step.rearm@) == rearmed(reaction_to(event.kind, event.paths@)),
            forall|i: int| 0 <= i < step.rearm@.len() ==> !(#[trigger] step.rearm@[i]).recursive,
    {
        let reaction = classify(event);
        let mut rearm: Vec<WatchTarget> = Vec::new();
        if reaction.rearm_style {
            rearm.push(WatchTarget { path: STYLE_PATH.to_owned(), recursive: false });
        }
        if reaction.rearm_config {
            rearm.push(WatchTarget { path: CONFIG_PATH.to_owned(), recursive: false });
        }
        assert(target_paths(rearm@) =~= rearmed(reaction));
        if reaction.record {
            self.pending.extend(&event.paths);
        } else {
            assert(self.pending@.union(Set::<Seq<char>>::empty()) =~= self.pending@);
        }
        let start_window = match self.state {
            WatchState::Watching => true,
            WatchState::Debouncing => false,
        };
        self.state = WatchState::Debouncing;
        Step { rearm, start_window }
    }

    /// The window is over: the watcher is idle again, and what was pending
    /// is handed out as one batch. Returns `None` where nothing was pending.
    pub fn on_quiet(&mut self) -> (batch: Option<Vec<String>>)
        requires
            old(self).wf(),
        ensures
            final(self).wf(),
            final(self)@ == idle(),
            match batch {
                Some(paths) => paths@.len() > 0 && batch_of(old(self)@) == Some(path_set(paths@)),
                None => batch_of(old(self)@) is None,
            },
    {
        self.state = WatchState::Watching;
        let batch = self.pending.take();
        proof {
            if batch is Some {
                assert(path_set(batch->0@).contains(batch->0@[0]@));
            }
        }
        batch
    }
}

/// The watcher after the events of `events`, in order.
pub open spec fn after_burst(watcher: WatcherModel, events: Seq<FsEvent>) -> WatcherModel
    decreases events.len(),
{
    if events.len() == 0 {
        watcher
    } else {
        after_event(after_burst(watcher, events.drop_last()), events.last())
    }
}

/// How many of the events of `events` opened a window.
pub open spec fn windows_opened(watcher: WatcherModel, events: Seq<FsEvent>) -> nat
    decreases events.len(),
{
    if events.len() == 0 {
        0
    } else {
        windows_opened(watcher, events.drop_last()) + (if opens_window(
            after_burst(watcher, events.drop_last()),
        ) {
            1nat
        } else {
            0nat
        })
    }
}

/// The paths that the events of a burst change, all together.
pub open spec fn burst_paths(events: Seq<FsEvent>) -> Set<Seq<char>> {
    Set::new(
        |path: Seq<char>|
            exists|i: int| 0 <= i < events.len() && #[trigger] recorded(events[i]).contains(path),
    )
}

/// The batch that is handed out at the end of a window: what is pending,
/// unless that is nothing.
pub open spec fn batch_of(watcher: WatcherModel) -> Option<Set<Seq<char>>> {
    if watcher.pending == Set::<Seq<char>>::empty() {
        None
    } else {
        Some(watcher.pending)
    }
}

/// A burst of events that reaches an idle watcher opens one window and no
/// more, however many events it has, and leaves pending exactly the paths
/// that its events changed. At the end of the window these are handed out
/// as one batch, if there are any.
pub proof fn lemma_burst_is_one_batch(events: Seq<FsEvent>)
    requires
        events.len() >= 1,
    ensures
        windows_opened(idle(), events) == 1,
        after_burst(idle(), events).state == WatchState::Debouncing,
        after_burst(idle(), events).pending == burst_paths(events),
        burst_paths(events) != Set::<Seq<char>>::empty() ==> batch_of(after_burst(idle(), events))
            == Some(burst_paths(events)),
        burst_paths(events) == Set::<Seq<char>>::empty() ==> batch_of(after_burst(idle(), events))
            is None,
    decreases events.len(),
{
    let front = events.drop_last();
    if front.len() == 0 {
        assert(after_burst(idle(), front) == idle());
        assert(windows_opened(idle(), front) == 0);
    } else {
        lemma_burst_is_one_batch(front);
    }
    assert forall|path: Seq<char>| burst_paths(events).contains(path) <==> burst_paths(
        front,
    ).union(recorded(events.last())).contains(path) by {
        if burst_paths(front).contains(path) {
            let i = choose|i: int| 0 <= i < front.len() && recorded(front[i]).contains(path);
            assert(recorded(events[i]).contains(path));
        }
        if recorded(events.last()).contains(path) {
            assert(recorded(events[events.len() - 1]).contains(path));
        }
        if burst_paths(events).contains(path) {
            let i = choose|i: int| 0 <= i < events.len() && recorded(events[i]).contains(path);
            if i < front.len() {
                assert(recorded(front[i]).contains(path));
            }
        }
    }
    if front.len() == 0 {
        assert(burst_paths(front) =~= Set::<Seq<char>>::empty());
    }
    assert(burst_paths(events) =~= burst_paths(front).union(recorded(events.last())));
    assert(after_burst(idle(), events).pending =~= burst_paths(events));
}

/// When a file that is watched alone is removed or renamed, its watch is
/// registered again, and the event's paths are pending afterwards.
pub proof fn lemma_removal_rearms(watcher: WatcherModel, event: FsEvent)
    requires
        is_removal(event.kind),
    ensures
        touches(event.paths@, STYLE_FILE@) ==> rearmed(
            reaction_to(event.kind, event.paths@),
        ).contains(STYLE_PATH@),
        touches(event.paths@, CONFIG_FILE@) ==> rearmed(
            reaction_to(event.kind, event.paths@),
        ).contains(CONFIG_PATH@),
        path_set(event.paths@).subset_of(after_event(watcher, event).pending),
{
    let reaction = reaction_to(event.kind, event.paths@);
    if reaction.rearm_style {
        assert(rearmed(reaction)[0] == STYLE_PATH@);
    }
    if reaction.rearm_config {
        assert(rearmed(reaction)[rearmed(reaction).len() - 1] == CONFIG_PATH@);
    }
}

} // verus!
