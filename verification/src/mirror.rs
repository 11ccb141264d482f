//! The decisions of a workspace upload.
//!
//! The upload walks the local directories breadth first. [`WorkspaceMirror`]
//! says what to do next; its caller does it and reports how it went. An entry
//! that cannot be read, created or written is passed over. Only the remote root
//! has to succeed.

use crate::remote_workspace;
use crate::remote_workspace::WorkspaceError;
use std::collections::VecDeque;
use vstd::prelude::*;
use vstd::std_specs::vecdeque::*;

verus! {

/// What a directory entry is.
#[derive(Debug, Clone, Copy, PartialEq, Eq, Structural)]
pub enum EntryKind {
    Directory,
    File,
    /// A symbolic link or a special file.
    Other,
}

/// What is known of a directory entry. `D` stands for its local path.
pub struct EntryFacts<D> {
    /// Where the entry lies.
    pub path: D,
    /// Its file name.
    pub name: String,
    /// What it is, unless that cannot be told.
    pub kind: Option<EntryKind>,
    /// Its path below the local root, with slashes, unless it has none.
    pub relative: Option<String>,
    /// Whether a remote path can be formed from `relative`.
    pub remote_path_valid: bool,
    /// The number of bytes in it, unless that cannot be told.
    pub size: Option<u64>,
}

/// What is done with a directory entry.
#[derive(Debug, Clone, Copy, PartialEq, Eq, Structural)]
pub enum EntryDecision {
    /// It is passed over.
    Skip,
    /// A remote directory is created for it.
    Mirror,
    /// It is read and, unless it turns out too large, written to the server.
    Upload,
}

/// What is to be done with an entry: directories are mirrored unless their name
/// rules them out, files are read unless they are known to be too large, and
/// anything else, or anything without a remote path, is passed over.
pub open spec fn entry_decision<D>(facts: EntryFacts<D>) -> EntryDecision {
    if facts.relative is None || !facts.remote_path_valid {
        EntryDecision::Skip
    } else if facts.kind == Some(EntryKind::Directory) {
        if remote_workspace::skipped_dir_names().contains(facts.name@) {
            EntryDecision::Skip
        } else {
            EntryDecision::Mirror
        }
    } else if facts.kind == Some(EntryKind::File) {
        if facts.size is Some && facts.size->0 > remote_workspace::MAX_UPLOAD_FILE_BYTES {
            EntryDecision::Skip
        } else {
            EntryDecision::Upload
        }
    } else {
        EntryDecision::Skip
    }
}

/// Decides what to do with an entry.
pub fn decide_entry<D>(facts: &EntryFacts<D>) -> (decision: EntryDecision)
    ensures
        decision == entry_decision(*facts),
{
    let kind = match facts.kind {
        Some(kind) => kind,
        None => return EntryDecision::Skip,
    };
    if facts.relative.is_none() || !facts.remote_path_valid {
        return EntryDecision::Skip;
    }
    match kind {
        EntryKind::Directory => {
            if remote_workspace::is_skipped_dir_name(facts.name.as_str()) {
                EntryDecision::Skip
            } else {
                EntryDecision::Mirror
            }
        },
        EntryKind::File => match facts.size {
            Some(size) => {
                if size > remote_workspace::MAX_UPLOAD_FILE_BYTES {
                    EntryDecision::Skip
                } else {
                    EntryDecision::Upload
                }
            },
            None => EntryDecision::Upload,
        },
        EntryKind::Other => EntryDecision::Skip,
    }
}

/// What the upload is waiting for.
#[derive(Debug, Clone, Copy, PartialEq, Eq, Structural)]
pub enum MirrorPhase {
    CreatingRoot,
    OpeningDirectory,
    ListingDirectory,
    InspectingEntry,
    CreatingDirectory,
    ReadingFile,
    WritingFile,
    Finished,
}

/// What has happened.
pub enum MirrorEvent<D> {
    RootCreated,
    RootRefused,
    DirectoryOpened,
    DirectoryUnreadable,
    EntryFound,
    EntryUnreadable,
    DirectoryExhausted,
    EntryInspected(EntryFacts<D>),
    DirectoryCreated,
    DirectoryRefused,
    /// The file was read and holds this many bytes.
    FileRead(u64),
    FileUnreadable,
    FileWritten,
    FileRefused,
}

/// How an upload ends.
#[derive(Debug, Clone, Copy, PartialEq, Eq, Structural)]
pub enum MirrorOutcome {
    /// Every directory was walked.
    Complete,
    /// There were more entries than are looked at. What was uploaded stays.
    EntryLimit,
    /// The remote root could not be created.
    RootRefused,
}

/// What to do next.
#[derive(Debug)]
pub enum MirrorAction<D> {
    /// Create the remote root.
    CreateRoot,
    /// Open this local directory.
    OpenDirectory(D),
    /// Go to the next entry of the open directory.
    NextEntry,
    /// Find out what is known of the entry.
    InspectEntry,
    /// Create the remote directory for the entry.
    CreateDirectory,
    /// Read the local file.
    ReadFile,
    /// Write what was read to the server.
    WriteFile,
    /// Stop.
    Finish(MirrorOutcome),
    /// Nothing: the event is not one that the upload is waiting for.
    Unexpected,
}

/// The state of an upload as a mathematical value.
pub struct MirrorState<D> {
    pub phase: MirrorPhase,
    /// The directory whose remote directory is being created.
    pub pending: Option<D>,
    /// The directories that are still to be walked, the next one first.
    pub queue: Seq<D>,
    /// How many entries were looked at.
    pub visited: nat,
}

/// The state in which an upload of `root` begins.
pub open spec fn mirror_start<D>(root: D) -> MirrorState<D> {
    MirrorState { phase: MirrorPhase::CreatingRoot, pending: None, queue: seq![root], visited: 0 }
}

/// The upload turns to the next directory, or ends.
pub open spec fn next_directory<D>(state: MirrorState<D>) -> (MirrorState<D>, MirrorAction<D>) {
    if state.queue.len() == 0 {
        (
            MirrorState { phase: MirrorPhase::Finished, ..state },
            MirrorAction::Finish(MirrorOutcome::Complete),
        )
    } else {
        (
            MirrorState {
                phase: MirrorPhase::OpeningDirectory,
                queue: state.queue.drop_first(),
                ..state
            },
            MirrorAction::OpenDirectory(state.queue[0]),
        )
    }
}

/// The upload turns to the next entry of the open directory.
pub open spec fn next_entry<D>(state: MirrorState<D>) -> (MirrorState<D>, MirrorAction<D>) {
    (MirrorState { phase: MirrorPhase::ListingDirectory, ..state }, MirrorAction::NextEntry)
}

/// One step of an upload: the next state, and what to do in it.
pub open spec fn mirror_step<D>(state: MirrorState<D>, event: MirrorEvent<D>) -> (
    MirrorState<D>,
    MirrorAction<D>,
) {
    match (state.phase, event) {
        (MirrorPhase::CreatingRoot, MirrorEvent::RootCreated) => next_directory(state),
        (MirrorPhase::CreatingRoot, MirrorEvent::RootRefused) => (
            MirrorState { phase: MirrorPhase::Finished, ..state },
            MirrorAction::Finish(MirrorOutcome::RootRefused),
        ),
        (MirrorPhase::OpeningDirectory, MirrorEvent::DirectoryOpened) => next_entry(state),
        (MirrorPhase::OpeningDirectory, MirrorEvent::DirectoryUnreadable) => next_directory(state),
        (MirrorPhase::ListingDirectory, MirrorEvent::DirectoryExhausted) => next_directory(state),
        (MirrorPhase::ListingDirectory, MirrorEvent::EntryUnreadable) => next_entry(state),
        (MirrorPhase::ListingDirectory, MirrorEvent::EntryFound) => {
            let counted = MirrorState { visited: state.visited + 1, ..state };
            if counted.visited > remote_workspace::MAX_ENTRIES {
                (
                    MirrorState { phase: MirrorPhase::Finished, ..counted },
                    MirrorAction::Finish(MirrorOutcome::EntryLimit),
                )
            } else {
                (
                    MirrorState { phase: MirrorPhase::InspectingEntry, ..counted },
                    MirrorAction::InspectEntry,
                )
            }
        },
        (MirrorPhase::InspectingEntry, MirrorEvent::EntryInspected(facts)) => {
            match entry_decision(facts) {
                EntryDecision::Skip => next_entry(state),
                EntryDecision::Mirror => (
                    MirrorState {
                        phase: MirrorPhase::CreatingDirectory,
                        pending: Some(facts.path),
                        ..state
                    },
                    MirrorAction::CreateDirectory,
                ),
                EntryDecision::Upload => (
                    MirrorState { phase: MirrorPhase::ReadingFile, ..state },
                    MirrorAction::ReadFile,
                ),
            }
        },
        (MirrorPhase::CreatingDirectory, MirrorEvent::DirectoryCreated) => next_entry(
            MirrorState { pending: None, queue: state.queue.push(state.pending->0), ..state },
        ),
        (MirrorPhase::CreatingDirectory, MirrorEvent::DirectoryRefused) => next_entry(
            MirrorState { pending: None, ..state },
        ),
        (MirrorPhase::ReadingFile, MirrorEvent::FileRead(bytes)) => {
            if bytes <= remote_workspace::MAX_UPLOAD_FILE_BYTES {
                (
                    MirrorState { phase: MirrorPhase::WritingFile, ..state },
                    MirrorAction::WriteFile,
                )
            } else {
                next_entry(state)
            }
        },
        (MirrorPhase::ReadingFile, MirrorEvent::FileUnreadable) => next_entry(state),
        (MirrorPhase::WritingFile, MirrorEvent::FileWritten) => next_entry(state),
        (MirrorPhase::WritingFile, MirrorEvent::FileRefused) => next_entry(state),
        _ => (state, MirrorAction::Unexpected),
    }
}

/// An upload of a local directory and what lies below it.
pub struct WorkspaceMirror<D> {
    phase: MirrorPhase,
    pending: Option<D>,
    queue: VecDeque<D>,
    visited: usize,
}

impl<D> View for WorkspaceMirror<D> {
    type V = MirrorState<D>;

    closed spec fn view(&self) -> MirrorState<D> {
        MirrorState {
            phase: self.phase,
            pending: self.pending,
            queue: self.queue@,
            visited: self.visited as nat,
        }
    }
}

impl<D> MirrorState<D> {
    /// What holds of every state that an upload gets into.
    pub open spec fn wf(self) -> bool {
        &&& self.visited <= remote_workspace::MAX_ENTRIES + 1
        &&& self.phase != MirrorPhase::Finished ==> self.visited <= remote_workspace::MAX_ENTRIES
        &&& self.pending is Some <==> self.phase == MirrorPhase::CreatingDirectory
    }
}

impl<D> WorkspaceMirror<D> {
    /// An upload of `root` that is about to begin. The first thing to do is to
    /// create the remote root.
    pub fn new(root: D) -> (mirror: (WorkspaceMirror<D>, MirrorAction<D>))
        ensures
            mirror.0@ == mirror_start(root),
            mirror.0@.wf(),
            mirror.1 == MirrorAction::<D>::CreateRoot,
    {
        let mut queue: VecDeque<D> = VecDeque::new();
        queue.push_back(root);
        let mirror = WorkspaceMirror {
            phase: MirrorPhase::CreatingRoot,
            pending: None,
            queue,
            visited: 0,
        };
        assert(mirror.queue@ =~= seq![root]);
        (mirror, MirrorAction::CreateRoot)
    }

    fn next_directory(&mut self) -> (action: MirrorAction<D>)
        ensures
            (final(self)@, action) == next_directory(old(self)@),
    {
        match self.queue.pop_front() {
            Some(directory) => {
                self.phase = MirrorPhase::OpeningDirectory;
                assert(self.queue@ =~= old(self).queue@.drop_first());
                MirrorAction::OpenDirectory(directory)
            },
            None => {
                self.phase = MirrorPhase::Finished;
                MirrorAction::Finish(MirrorOutcome::Complete)
            },
        }
    }

    fn next_entry(&mut self) -> (action: MirrorAction<D>)
        ensures
            (final(self)@, action) == next_entry(old(self)@),
    {
        self.phase = MirrorPhase::ListingDirectory;
        MirrorAction::NextEntry
    }

    /// Takes in what has happened, and says what to do next.
    pub fn step(&mut self, event: MirrorEvent<D>) -> (action: MirrorAction<D>)
        requires
            old(self)@.wf(),
        ensures
            (final(self)@, action) == mirror_step(old(self)@, event),
            final(self)@.wf(),
    {
        match (self.phase, event) {
            (MirrorPhase::CreatingRoot, MirrorEvent::RootCreated) => self.next_directory(),
            (MirrorPhase::CreatingRoot, MirrorEvent::RootRefused) => {
                self.phase = MirrorPhase::Finished;
                MirrorAction::Finish(MirrorOutcome::RootRefused)
            },
            (MirrorPhase::OpeningDirectory, MirrorEvent::DirectoryOpened) => self.next_entry(),
            (
                MirrorPhase::OpeningDirectory,
                MirrorEvent::DirectoryUnreadable,
            ) => self.next_directory(),
            (
                MirrorPhase::ListingDirectory,
                MirrorEvent::DirectoryExhausted,
            ) => self.next_directory(),
            (MirrorPhase::ListingDirectory, MirrorEvent::EntryUnreadable) => self.next_entry(),
            (MirrorPhase::ListingDirectory, MirrorEvent::EntryFound) => {
                self.visited = self.visited + 1;
                if self.visited > remote_workspace::MAX_ENTRIES {
                    self.phase = MirrorPhase::Finished;
                    MirrorAction::Finish(MirrorOutcome::EntryLimit)
                } else {
                    self.phase = MirrorPhase::InspectingEntry;
                    MirrorAction::InspectEntry
                }
            },
            (MirrorPhase::InspectingEntry, MirrorEvent::EntryInspected(facts)) => {
                match decide_entry(&facts) {
                    EntryDecision::Skip => self.next_entry(),
                    EntryDecision::Mirror => {
                        self.phase = MirrorPhase::CreatingDirectory;
                        self.pending = Some(facts.path);
                        MirrorAction::CreateDirectory
                    },
                    EntryDecision::Upload => {
                        self.phase = MirrorPhase::ReadingFile;
                        MirrorAction::ReadFile
                    },
                }
            },
            (MirrorPhase::CreatingDirectory, MirrorEvent::DirectoryCreated) => {
                if let Some(directory) = self.pending.take() {
                    self.queue.push_back(directory);
                }
                self.next_entry()
            },
            (MirrorPhase::CreatingDirectory, MirrorEvent::DirectoryRefused) => {
                self.pending = None;
                self.next_entry()
            },
            (MirrorPhase::ReadingFile, MirrorEvent::FileRead(bytes)) => {
                if bytes <= remote_workspace::MAX_UPLOAD_FILE_BYTES {
                    self.phase = MirrorPhase::WritingFile;
                    MirrorAction::WriteFile
                } else {
                    self.next_entry()
                }
            },
            (MirrorPhase::ReadingFile, MirrorEvent::FileUnreadable) => self.next_entry(),
            (MirrorPhase::WritingFile, MirrorEvent::FileWritten) => self.next_entry(),
            (MirrorPhase::WritingFile, MirrorEvent::FileRefused) => self.next_entry(),
            _ => MirrorAction::Unexpected,
        }
    }
}

/// How the upload of a workspace into `remote_root` is answered: with the remote
/// root, unless that could not be created.
pub open spec fn upload_answer<P>(
    outcome: MirrorOutcome,
    remote_root: P,
    shown_root: String,
    reason: String,
) -> Result<P, WorkspaceError> {
    match outcome {
        MirrorOutcome::Complete | MirrorOutcome::EntryLimit => Ok(remote_root),
        MirrorOutcome::RootRefused => Err(
            WorkspaceError::RemoteDirectory { remote_root: shown_root, reason },
        ),
    }
}

/// Answers an upload that has ended. `shown_root` is how the remote root is
/// shown, and `reason` why it could not be created, where that is how the upload
/// ended.
pub fn conclude_upload<P>(
    outcome: MirrorOutcome,
    remote_root: P,
    shown_root: String,
    reason: String,
) -> (answer: Result<P, WorkspaceError>)
    ensures
        answer == upload_answer(outcome, remote_root, shown_root, reason),
{
    match outcome {
        MirrorOutcome::Complete | MirrorOutcome::EntryLimit => Ok(remote_root),
        MirrorOutcome::RootRefused => Err(
            WorkspaceError::RemoteDirectory { remote_root: shown_root, reason },
        ),
    }
}

/// Where an upload of `root` is after `events`, and what it was told to do on
/// the way.
pub open spec fn mirror_run<D>(root: D, events: Seq<MirrorEvent<D>>) -> (
    MirrorState<D>,
    Seq<MirrorAction<D>>,
)
    decreases events.len(),
{
    if events.len() == 0 {
        (mirror_start(root), seq![MirrorAction::CreateRoot])
    } else {
        let (state, actions) = mirror_run(root, events.drop_last());
        let (next, action) = mirror_step(state, events.last());
        (next, actions.push(action))
    }
}

/// How many of `actions` look at an entry.
pub open spec fn inspections<D>(actions: Seq<MirrorAction<D>>) -> nat
    decreases actions.len(),
{
    if actions.len() == 0 {
        0
    } else {
        inspections(actions.drop_last()) + if actions.last() is InspectEntry {
            1nat
        } else {
            0nat
        }
    }
}

/// How many of `actions` create a remote directory or upload a file.
pub open spec fn transfers<D>(actions: Seq<MirrorAction<D>>) -> nat
    decreases actions.len(),
{
    if actions.len() == 0 {
        0
    } else {
        transfers(actions.drop_last()) + if actions.last() is CreateDirectory
            || actions.last() is ReadFile {
            1nat
        } else {
            0nat
        }
    }
}

/// The local directories that `actions` open, in order.
pub open spec fn opened<D>(actions: Seq<MirrorAction<D>>) -> Seq<D>
    decreases actions.len(),
{
    if actions.len() == 0 {
        Seq::empty()
    } else {
        opened(actions.drop_last()) + match actions.last() {
            MirrorAction::OpenDirectory(directory) => seq![directory],
            _ => Seq::empty(),
        }
    }
}

/// The local directories below `root` whose remote directory was created in the
/// course of `events`, in order.
pub open spec fn mirrored<D>(root: D, events: Seq<MirrorEvent<D>>) -> Seq<D>
    decreases events.len(),
{
    if events.len() == 0 {
        Seq::empty()
    } else {
        let state = mirror_run(root, events.drop_last()).0;
        mirrored(root, events.drop_last()) + if state.phase == MirrorPhase::CreatingDirectory
            && events.last() is DirectoryCreated {
            seq![state.pending->0]
        } else {
            Seq::empty()
        }
    }
}

/// Every state of an upload is well-formed.
pub proof fn run_is_well_formed<D>(root: D, events: Seq<MirrorEvent<D>>)
    ensures
        mirror_run(root, events).0.wf(),
    decreases events.len(),
{
    if events.len() > 0 {
        run_is_well_formed(root, events.drop_last());
    }
}

proof fn run_counts<D>(root: D, events: Seq<MirrorEvent<D>>)
    ensures
        ({
            let (state, actions) = mirror_run(root, events);
            &&& inspections(actions) <= remote_workspace::MAX_ENTRIES
            &&& inspections(actions) <= state.visited
            &&& transfers(actions) + if state.phase == MirrorPhase::InspectingEntry {
                1nat
            } else {
                0nat
            } <= inspections(actions)
        }),
    decreases events.len(),
{
    if events.len() > 0 {
        run_counts(root, events.drop_last());
        run_is_well_formed(root, events.drop_last());
        let (state, actions) = mirror_run(root, events.drop_last());
        let (next, action) = mirror_step(state, events.last());
        assert(actions.push(action).drop_last() =~= actions);
    } else {
        let first = seq![MirrorAction::<D>::CreateRoot];
        assert(first.drop_last() =~= Seq::<MirrorAction<D>>::empty());
        reveal_with_fuel(inspections, 2);
        reveal_with_fuel(transfers, 2);
    }
}

/// However many entries the workspace has, an upload looks at no more than
/// [`remote_workspace::MAX_ENTRIES`] of them, and transfers no more than it
/// looks at.
pub proof fn upload_is_bounded<D>(root: D, events: Seq<MirrorEvent<D>>)
    ensures
        inspections(mirror_run(root, events).1) <= remote_workspace::MAX_ENTRIES,
        transfers(mirror_run(root, events).1) <= inspections(mirror_run(root, events).1),
{
    run_counts(root, events);
}

/// The directories are walked breadth first: those opened so far, followed by
/// those still to be opened, are the root and then every directory whose remote
/// directory was created, in the order of creation.
pub proof fn walk_is_breadth_first<D>(root: D, events: Seq<MirrorEvent<D>>)
    ensures
        opened(mirror_run(root, events).1) + mirror_run(root, events).0.queue == seq![root]
            + mirrored(root, events),
    decreases events.len(),
{
    if events.len() > 0 {
        walk_is_breadth_first(root, events.drop_last());
        run_is_well_formed(root, events.drop_last());
        let (state, actions) = mirror_run(root, events.drop_last());
        let (next, action) = mirror_step(state, events.last());
        assert(actions.push(action).drop_last() =~= actions);
        let done = opened(actions);
        if action is OpenDirectory {
            assert(next.queue == state.queue.drop_first());
            assert((done + seq![state.queue[0]]) + next.queue =~= done + state.queue);
        } else {
            assert(opened(actions.push(action)) =~= done);
        }
        if state.phase == MirrorPhase::CreatingDirectory && events.last() is DirectoryCreated {
            assert(done + next.queue =~= (done + state.queue).push(state.pending->0));
            assert((seq![root] + mirrored(root, events.drop_last())).push(state.pending->0)
                =~= seq![root] + mirrored(root, events));
        } else {
            assert(mirrored(root, events) =~= mirrored(root, events.drop_last()));
        }
    } else {
        let first = seq![MirrorAction::<D>::CreateRoot];
        assert(first.drop_last() =~= Seq::<MirrorAction<D>>::empty());
        reveal_with_fuel(opened, 2);
        assert(opened(first) + seq![root] =~= seq![root] + Seq::<D>::empty());
    }
}

/// An upload that runs to completion has opened the root and every directory
/// that it mirrored.
pub proof fn complete_upload_opens_every_directory<D>(root: D, events: Seq<MirrorEvent<D>>)
    requires
        mirror_run(root, events).1.last() == MirrorAction::<D>::Finish(MirrorOutcome::Complete),
    ensures
        opened(mirror_run(root, events).1) == seq![root] + mirrored(root, events),
{
    walk_is_breadth_first(root, events);
    let (state, actions) = mirror_run(root, events);
    assert(events.len() > 0);
    assert(opened(actions) + state.queue =~= opened(actions));
}

/// Nothing is opened, looked at or transferred before the remote root exists.
pub proof fn root_comes_first<D>(root: D, events: Seq<MirrorEvent<D>>)
    requires
        forall|i: int| 0 <= i < events.len() ==> !(#[trigger] events[i] is RootCreated),
    ensures
        ({
            let (state, actions) = mirror_run(root, events);
            &&& state.phase == MirrorPhase::CreatingRoot || state.phase == MirrorPhase::Finished
            &&& actions.len() > 0
            &&& actions[0] is CreateRoot
            &&& forall|i: int|
                1 <= i < actions.len() ==> #[trigger] actions[i] is Unexpected || actions[i]
                    == MirrorAction::<D>::Finish(MirrorOutcome::RootRefused)
        }),
    decreases events.len(),
{
    if events.len() > 0 {
        root_comes_first(root, events.drop_last());
    }
}

/// The upload fails only where the remote root is refused. No other event makes
/// it fail.
pub proof fn only_the_root_can_fail<D>(state: MirrorState<D>, event: MirrorEvent<D>)
    ensures
        mirror_step(state, event).1 == MirrorAction::<D>::Finish(MirrorOutcome::RootRefused)
            <==> state.phase == MirrorPhase::CreatingRoot && event is RootRefused,
{
}

/// An upload that is not refused ends only when there is no directory left, or
/// when one entry too many was found.
pub proof fn upload_ends_for_a_reason<D>(state: MirrorState<D>, event: MirrorEvent<D>)
    ensures
        mirror_step(state, event).1 == MirrorAction::<D>::Finish(MirrorOutcome::Complete)
            ==> state.queue.len() == 0,
        mirror_step(state, event).1 == MirrorAction::<D>::Finish(MirrorOutcome::EntryLimit)
            <==> state.phase == MirrorPhase::ListingDirectory && event is EntryFound
            && state.visited >= remote_workspace::MAX_ENTRIES,
{
}

/// An upload that has ended does nothing more.
pub proof fn finished_is_final<D>(state: MirrorState<D>, event: MirrorEvent<D>)
    requires
        state.phase == MirrorPhase::Finished,
    ensures
        mirror_step(state, event) == (state, MirrorAction::<D>::Unexpected),
{
}

/// A remote directory is created only for a local directory whose name is not
/// ruled out and that has a remote path.
pub proof fn skipped_directories_stay_local<D>(state: MirrorState<D>, event: MirrorEvent<D>)
    requires
        mirror_step(state, event).1 is CreateDirectory,
    ensures
        event matches MirrorEvent::EntryInspected(facts) && facts.kind == Some(EntryKind::Directory)
            && facts.relative is Some && facts.remote_path_valid
            && !remote_workspace::skipped_dir_names().contains(facts.name@),
{
}

/// A file is read if and only if it is a plain file that has a remote path and is
/// not known to be too large. A file of exactly the largest size is not too
/// large.
pub proof fn only_plain_files_are_read<D>(state: MirrorState<D>, event: MirrorEvent<D>)
    ensures
        mirror_step(state, event).1 is ReadFile <==> state.phase == MirrorPhase::InspectingEntry
            && (event matches MirrorEvent::EntryInspected(facts) && facts.kind == Some(
            EntryKind::File,
        ) && facts.relative is Some && facts.remote_path_valid && (facts.size matches Some(size)
            ==> size <= remote_workspace::MAX_UPLOAD_FILE_BYTES)),
{
}

/// What is written to the server is what was read just before, and it is no
/// larger than a file may be, whatever was known of its size.
pub proof fn large_files_stay_local<D>(state: MirrorState<D>, event: MirrorEvent<D>)
    ensures
        mirror_step(state, event).1 is WriteFile <==> state.phase == MirrorPhase::ReadingFile && (
        event matches MirrorEvent::FileRead(bytes) && bytes
            <= remote_workspace::MAX_UPLOAD_FILE_BYTES),
{
}

/// Once the remote root exists, an upload is never again about to create it.
proof fn created_root_stays<D>(
    root: D,
    begun: Seq<MirrorEvent<D>>,
    events: Seq<MirrorEvent<D>>,
)
    requires
        events.len() > 0,
        events[0] is RootCreated,
        begun.is_prefix_of(events),
    ensures
        begun.len() > 0 ==> mirror_run(root, begun).0.phase != MirrorPhase::CreatingRoot,
    decreases begun.len(),
{
    if begun.len() > 0 {
        created_root_stays(root, begun.drop_last(), events);
        assert(begun[0] == events[0]);
    }
}

/// An upload whose remote root was created is answered with the remote root,
/// whatever the workspace holds and whichever entries were passed over, could
/// not be read or were refused.
pub proof fn created_root_is_the_answer<P, D>(
    root: D,
    events: Seq<MirrorEvent<D>>,
    outcome: MirrorOutcome,
    remote_root: P,
    shown_root: String,
    reason: String,
)
    requires
        events.len() > 0,
        events[0] is RootCreated,
        mirror_run(root, events).1.last() == MirrorAction::<D>::Finish(outcome),
    ensures
        upload_answer(outcome, remote_root, shown_root, reason) == Ok::<P, WorkspaceError>(
            remote_root,
        ),
{
    created_root_stays(root, events.drop_last(), events);
    only_the_root_can_fail(mirror_run(root, events.drop_last()).0, events.last());
}

/// Uploads of workspaces whose paths have the same directory name, and so of one
/// workspace at two times, are answered with the same remote root, whatever
/// happens in each of them. `join` always makes the same of one name.
pub proof fn reconnecting_reuses_the_directory<P, J: Fn(&str) -> Result<P, String>>(
    join: J,
    root: std::path::PathBuf,
    other_root: std::path::PathBuf,
    remote_root: P,
    other_remote_root: P,
    answer: Result<P, WorkspaceError>,
    other_answer: Result<P, WorkspaceError>,
)
    requires
        remote_workspace::workspace_dir(&root) == remote_workspace::workspace_dir(&other_root),
        forall|one: Result<P, String>, another: Result<P, String>|
            #[trigger] remote_workspace::joined_with(
                join,
                remote_workspace::workspace_dir(&root),
                one,
            ) && #[trigger] remote_workspace::joined_with(
                join,
                remote_workspace::workspace_dir(&root),
                another,
            ) ==> one == another,
        remote_workspace::joined_with(
            join,
            remote_workspace::workspace_dir(&root),
            Ok(remote_root),
        ),
        remote_workspace::joined_with(
            join,
            remote_workspace::workspace_dir(&other_root),
            Ok(other_remote_root),
        ),
        exists|outcome: MirrorOutcome, shown: String, reason: String|
            answer == #[trigger] upload_answer(outcome, remote_root, shown, reason),
        exists|outcome: MirrorOutcome, shown: String, reason: String|
            other_answer == #[trigger] upload_answer(outcome, other_remote_root, shown, reason),
    ensures
        answer is Ok ==> answer->Ok_0 == remote_root,
        answer is Ok && other_answer is Ok ==> answer->Ok_0 == other_answer->Ok_0,
{
    assert(Ok::<P, String>(remote_root) == Ok::<P, String>(other_remote_root));
}

/// A directory is mirrored unless it has one of nine names, wherever it lies, and
/// a file is uploaded unless it is known to have more than twenty-five mebibytes,
/// as long as there is a remote path for the entry. Everything else is passed
/// over. Nothing else about an entry matters.
pub proof fn entries_are_passed_over_for_a_reason<D>(facts: EntryFacts<D>)
    ensures
        entry_decision(facts) is Mirror <==> facts.kind == Some(EntryKind::Directory)
            && facts.relative is Some && facts.remote_path_valid && !(facts.name@ == ".git"@
            || facts.name@ == "node_modules"@ || facts.name@ == "target"@ || facts.name@ == "dist"@
            || facts.name@ == "build"@ || facts.name@ == ".venv"@ || facts.name@ == "__pycache__"@
            || facts.name@ == ".mypy_cache"@ || facts.name@ == ".pytest_cache"@),
        entry_decision(facts) is Upload <==> facts.kind == Some(EntryKind::File)
            && facts.relative is Some && facts.remote_path_valid && !(facts.size is Some
            && facts.size->0 > 26_214_400),
{
    remote_workspace::nine_names_are_skipped(facts.name@);
}

/// An inspected entry gives a remote directory exactly if it is a directory that
/// has a remote path and none of the nine names that are left out; an entry gives
/// a file to read exactly if it is a plain file that has a remote path and is not
/// known to be too large.
pub proof fn inspected_entries_are_taken_up<D>(state: MirrorState<D>, event: MirrorEvent<D>)
    ensures
        mirror_step(state, event).1 is CreateDirectory <==> state.phase
            == MirrorPhase::InspectingEntry && (event matches MirrorEvent::EntryInspected(facts)
            && facts.kind == Some(EntryKind::Directory) && facts.relative is Some
            && facts.remote_path_valid && !(facts.name@ == ".git"@ || facts.name@
            == "node_modules"@ || facts.name@ == "target"@ || facts.name@ == "dist"@ || facts.name@
            == "build"@ || facts.name@ == ".venv"@ || facts.name@ == "__pycache__"@ || facts.name@
            == ".mypy_cache"@ || facts.name@ == ".pytest_cache"@)),
        mirror_step(state, event).1 is CreateDirectory ==> mirror_step(state, event).0.pending
            == Some(event->EntryInspected_0.path),
        mirror_step(state, event).1 is ReadFile <==> state.phase == MirrorPhase::InspectingEntry
            && (event matches MirrorEvent::EntryInspected(facts) && facts.kind == Some(
            EntryKind::File,
        ) && facts.relative is Some && facts.remote_path_valid && !(facts.size is Some
            && facts.size->0 > 26_214_400)),
        mirror_step(state, event).1 is WriteFile <==> state.phase == MirrorPhase::ReadingFile && (
        event matches MirrorEvent::FileRead(bytes) && bytes <= 26_214_400),
{
    if event is EntryInspected {
        entries_are_passed_over_for_a_reason(event->EntryInspected_0);
    }
}

/// A directory is left only when its listing is exhausted, it cannot be opened, or
/// one entry too many is found. Then the directory that has waited longest is
/// opened, or the upload ends if none waits.
pub proof fn listings_are_walked_to_the_end<D>(state: MirrorState<D>, event: MirrorEvent<D>)
    ensures
        mirror_step(state, event).1 is OpenDirectory <==> state.queue.len() > 0 && ((state.phase
            == MirrorPhase::CreatingRoot && event is RootCreated) || (state.phase
            == MirrorPhase::OpeningDirectory && event is DirectoryUnreadable) || (state.phase
            == MirrorPhase::ListingDirectory && event is DirectoryExhausted)),
        mirror_step(state, event).1 is OpenDirectory ==> mirror_step(state, event).1
            == MirrorAction::OpenDirectory(state.queue[0]) && seq![state.queue[0]] + mirror_step(
            state,
            event,
        ).0.queue == state.queue,
        mirror_step(state, event).1 == MirrorAction::<D>::Finish(MirrorOutcome::Complete) <==>
            state.queue.len() == 0 && ((state.phase == MirrorPhase::CreatingRoot
            && event is RootCreated) || (state.phase == MirrorPhase::OpeningDirectory
            && event is DirectoryUnreadable) || (state.phase == MirrorPhase::ListingDirectory
            && event is DirectoryExhausted)),
        mirror_step(state, event).1 == MirrorAction::<D>::Finish(MirrorOutcome::EntryLimit) <==>
            state.phase == MirrorPhase::ListingDirectory && event is EntryFound && state.visited
            >= 50_000,
        mirror_step(state, event).1 is Finish ==> mirror_step(state, event).1
            == MirrorAction::<D>::Finish(MirrorOutcome::Complete) || mirror_step(state, event).1
            == MirrorAction::<D>::Finish(MirrorOutcome::EntryLimit) || (state.phase
            == MirrorPhase::CreatingRoot && event is RootRefused),
{
    if state.queue.len() > 0 {
        assert(seq![state.queue[0]] + state.queue.drop_first() =~= state.queue);
    }
}

/// Every event that ends the work on an entry leads to the next entry of the same
/// directory: the entry cannot be read, it is passed over, its remote directory
/// was created or refused, its file could not be read, was too large, was written
/// or was refused. So does the opening of the directory, and nothing else.
pub proof fn work_on_an_entry_leads_to_the_next<D>(state: MirrorState<D>, event: MirrorEvent<D>)
    ensures
        mirror_step(state, event).1 is NextEntry <==> {
            ||| state.phase == MirrorPhase::OpeningDirectory && event is DirectoryOpened
            ||| state.phase == MirrorPhase::ListingDirectory && event is EntryUnreadable
            ||| state.phase == MirrorPhase::InspectingEntry && event is EntryInspected && !(
            mirror_step(state, event).1 is CreateDirectory) && !(mirror_step(
                state,
                event,
            ).1 is ReadFile)
            ||| state.phase == MirrorPhase::CreatingDirectory && (event is DirectoryCreated
                || event is DirectoryRefused)
            ||| state.phase == MirrorPhase::ReadingFile && (event is FileUnreadable || (
            event is FileRead && event->FileRead_0 > 26_214_400))
            ||| state.phase == MirrorPhase::WritingFile && (event is FileWritten
                || event is FileRefused)
        },
        mirror_step(state, event).1 is InspectEntry <==> state.phase
            == MirrorPhase::ListingDirectory && event is EntryFound && state.visited < 50_000,
        !(mirror_step(state, event).1 is CreateRoot),
{
}

/// An upload waits for how the thing that it asks for goes. An event that it does
/// not wait for changes nothing.
pub proof fn what_is_asked_for_is_awaited<D>(state: MirrorState<D>, event: MirrorEvent<D>)
    ensures
        ({
            let (next, action) = mirror_step(state, event);
            match action {
                MirrorAction::CreateRoot => false,
                MirrorAction::OpenDirectory(_) => next.phase == MirrorPhase::OpeningDirectory,
                MirrorAction::NextEntry => next.phase == MirrorPhase::ListingDirectory,
                MirrorAction::InspectEntry => next.phase == MirrorPhase::InspectingEntry,
                MirrorAction::CreateDirectory => next.phase == MirrorPhase::CreatingDirectory,
                MirrorAction::ReadFile => next.phase == MirrorPhase::ReadingFile,
                MirrorAction::WriteFile => next.phase == MirrorPhase::WritingFile,
                MirrorAction::Finish(_) => next.phase == MirrorPhase::Finished,
                MirrorAction::Unexpected => next == state,
            }
        }),
{
}

/// A directory joins the end of the queue exactly when its remote directory was
/// created, and leaves the front exactly when it is opened. Every entry that is
/// found is counted, and nothing else is.
pub proof fn queue_and_count_keep_track<D>(state: MirrorState<D>, event: MirrorEvent<D>)
    ensures
        ({
            let (next, action) = mirror_step(state, event);
            &&& next.queue == if state.phase == MirrorPhase::CreatingDirectory
                && event is DirectoryCreated {
                state.queue.push(state.pending->0)
            } else if action is OpenDirectory {
                state.queue.skip(1)
            } else {
                state.queue
            }
            &&& next.visited == state.visited + if state.phase == MirrorPhase::ListingDirectory
                && event is EntryFound {
                1int
            } else {
                0int
            }
            &&& next.pending == if action is CreateDirectory {
                Some(event->EntryInspected_0.path)
            } else if state.phase == MirrorPhase::CreatingDirectory && action is NextEntry {
                None
            } else {
                state.pending
            }
        }),
{
    if state.queue.len() > 0 {
        assert(state.queue.drop_first() =~= state.queue.skip(1));
    }
}

/// An upload begins with the remote root to be created, only the local root
/// waiting, and nothing counted.
pub proof fn upload_begins_with_the_root<D>(root: D)
    ensures
        mirror_start(root).phase == MirrorPhase::CreatingRoot,
        mirror_start(root).queue == seq![root],
        mirror_start(root).pending is None,
        mirror_start(root).visited == 0,
{
}

/// An upload is answered with the remote root, unless that could not be created.
/// Then the answer shows the remote root and the reason.
pub proof fn only_a_refused_root_is_an_error<P>(
    outcome: MirrorOutcome,
    remote_root: P,
    shown_root: String,
    reason: String,
)
    ensures
        outcome == MirrorOutcome::RootRefused ==> (upload_answer(
            outcome,
            remote_root,
            shown_root,
            reason,
        ) matches Err(error) && error.message_text()
            == "remote workspace: failed to create remote dir `"@ + shown_root@ + "`: "@
            + reason@),
        outcome != MirrorOutcome::RootRefused ==> (upload_answer(
            outcome,
            remote_root,
            shown_root,
            reason,
        ) matches Ok(answer) && answer == remote_root),
{
}

/// How many of the directories that an upload of `root` opened in the course of
/// `events` turned out unreadable or were listed to the end.
pub open spec fn walked_through<D>(root: D, events: Seq<MirrorEvent<D>>) -> nat
    decreases events.len(),
{
    if events.len() == 0 {
        0
    } else {
        let phase = mirror_run(root, events.drop_last()).0.phase;
        walked_through(root, events.drop_last()) + if (phase == MirrorPhase::OpeningDirectory
            && events.last() is DirectoryUnreadable) || (phase == MirrorPhase::ListingDirectory
            && events.last() is DirectoryExhausted) {
            1nat
        } else {
            0nat
        }
    }
}

proof fn run_walks_one_directory_at_a_time<D>(root: D, events: Seq<MirrorEvent<D>>)
    ensures
        ({
            let (state, actions) = mirror_run(root, events);
            let before = state.phase == MirrorPhase::CreatingRoot;
            let within = !before && state.phase != MirrorPhase::Finished;
            &&& before ==> opened(actions).len() == 0 && walked_through(root, events) == 0
                && state.queue == seq![root]
            &&& within ==> opened(actions).len() == walked_through(root, events) + 1
            &&& actions.last() == MirrorAction::<D>::Finish(MirrorOutcome::Complete) ==> opened(
                actions,
            ).len() == walked_through(root, events)
        }),
    decreases events.len(),
{
    if events.len() > 0 {
        run_walks_one_directory_at_a_time(root, events.drop_last());
        let (state, actions) = mirror_run(root, events.drop_last());
        let (next, action) = mirror_step(state, events.last());
        assert(actions.push(action).drop_last() =~= actions);
        listings_are_walked_to_the_end(state, events.last());
        what_is_asked_for_is_awaited(state, events.last());
    } else {
        let first = seq![MirrorAction::<D>::CreateRoot];
        assert(first.drop_last() =~= Seq::<MirrorAction<D>>::empty());
        reveal_with_fuel(opened, 2);
        assert(opened(first) =~= Seq::<D>::empty());
    }
}

/// An upload that runs to completion has listed every directory that it opened to
/// the end, but for those that could not be read.
pub proof fn complete_upload_lists_every_directory<D>(root: D, events: Seq<MirrorEvent<D>>)
    requires
        mirror_run(root, events).1.last() == MirrorAction::<D>::Finish(MirrorOutcome::Complete),
    ensures
        walked_through(root, events) == opened(mirror_run(root, events).1).len(),
        walked_through(root, events) == 1 + mirrored(root, events).len(),
{
    run_walks_one_directory_at_a_time(root, events);
    complete_upload_opens_every_directory(root, events);
}

/// An upload looks at every entry that it finds, up to the limit.
pub proof fn every_entry_found_is_looked_at<D>(root: D, events: Seq<MirrorEvent<D>>)
    ensures
        ({
            let (state, actions) = mirror_run(root, events);
            inspections(actions) == if state.visited > 50_000 {
                50_000
            } else {
                state.visited
            }
        }),
    decreases events.len(),
{
    if events.len() > 0 {
        every_entry_found_is_looked_at(root, events.drop_last());
        run_is_well_formed(root, events.drop_last());
        let (state, actions) = mirror_run(root, events.drop_last());
        let (next, action) = mirror_step(state, events.last());
        assert(actions.push(action).drop_last() =~= actions);
        work_on_an_entry_leads_to_the_next(state, events.last());
        queue_and_count_keep_track(state, events.last());
    } else {
        let first = seq![MirrorAction::<D>::CreateRoot];
        assert(first.drop_last() =~= Seq::<MirrorAction<D>>::empty());
        reveal_with_fuel(inspections, 2);
    }
}

} // verus!
