//! Removing a directory with all that is in it.
//!
//! The removal is a walk through the directory tree, in which the filesystem
//! is asked many times. [`RemoveDirAll`] holds the state of the walk and takes
//! the decisions. Its user performs each [`RemoveAction`] that it is handed and
//! answers with the [`RemoveEvent`] that tells how the action went.

use crate::fs::FileType;
use crate::io::{Error, Result};
use crate::path::{Path, PathBuf, SEPARATOR};
use vstd::prelude::*;

verus! {

/// What a walk has done below one directory.
#[derive(Clone, Copy, Debug, PartialEq, Eq, Structural)]
pub struct RemoveDirAllProgress {
    /// The number of files that were removed.
    pub files_removed: usize,
    /// Whether a file was kept because the predicate said so.
    pub skipped_any: bool,
}

/// A directory that is open and being read.
#[derive(Clone, Copy, Debug)]
pub struct Frame {
    /// The path of the directory.
    pub path: PathBuf,
    /// How many of its first two entries, which stand for the directory
    /// itself and for the one above it, were passed over.
    pub passed: u8,
    /// The number of files that were removed in it and below it.
    pub files_removed: usize,
    /// Whether a file in it or below it was kept.
    pub skipped_any: bool,
}

/// The answer that a walk waits for.
#[derive(Clone, Copy, Debug)]
pub enum Awaited {
    /// Whether there is an entry at the path.
    Exists(PathBuf),
    /// How opening the directory at the path went.
    Opened(PathBuf),
    /// The next entry of the directory that was opened last.
    Entry,
    /// What the predicate says of the file at the path.
    Predicate(PathBuf),
    /// How removing a file went.
    FileRemoved,
    /// How closing the directory that was opened last went, after reading
    /// it ended well or with the error given.
    Closed(Option<Error>),
    /// How removing a directory went, below which this was done.
    DirRemoved(RemoveDirAllProgress),
    /// Nothing: the walk is over.
    Nothing,
}

/// What the user of a walk is to do next.
#[derive(Clone, Copy, Debug)]
pub enum RemoveAction {
    /// Find out whether there is an entry at the path.
    Exists(PathBuf),
    /// Open the directory at the path for reading.
    OpenDir(PathBuf),
    /// Read the next entry of the directory that was opened last.
    ReadEntry,
    /// Ask the predicate about the entry that was read last.
    AskPredicate,
    /// Remove the file or the empty directory at the path.
    Remove(PathBuf),
    /// Close the directory that was opened last.
    CloseDir,
    /// Return: the walk is over, with the number of files removed or in an error.
    Finish(Result<usize>),
}

/// How an action went.
#[derive(Clone, Copy, Debug)]
pub enum RemoveEvent {
    /// There is an entry at the path, or none.
    Exists(bool),
    /// The directory was opened, or could not be.
    Opened(Result<()>),
    /// An entry was read: its type and its full path.
    Entry(FileType, PathBuf),
    /// Reading an entry failed.
    EntryError(Error),
    /// The directory has no further entry.
    End,
    /// What the predicate said.
    Predicate(bool),
    /// The file or directory was removed, or could not be.
    Removed(Result<()>),
    /// The directory was closed, or could not be.
    Closed(Result<()>),
}

/// Whether a walk that waits for `awaited` can take the event `event`.
pub open spec fn awaits(awaited: Awaited, event: RemoveEvent) -> bool {
    match awaited {
        Awaited::Exists(_) => event is Exists,
        Awaited::Opened(_) => event is Opened,
        Awaited::Entry => event is Entry || event is EntryError || event is End,
        Awaited::Predicate(_) => event is Predicate,
        Awaited::FileRemoved => event is Removed,
        Awaited::Closed(_) => event is Closed,
        Awaited::DirRemoved(_) => event is Removed,
        Awaited::Nothing => false,
    }
}

/// The sum of two counts, or the largest count where the sum is larger.
pub open spec fn saturating_sum(a: usize, b: usize) -> usize {
    if a + b <= usize::MAX {
        (a + b) as usize
    } else {
        usize::MAX
    }
}

/// The directory `top` after what was done below one of its entries is counted in.
pub open spec fn with_progress(top: Frame, below: RemoveDirAllProgress) -> Frame {
    Frame {
        path: top.path,
        passed: top.passed,
        files_removed: saturating_sum(top.files_removed, below.files_removed),
        skipped_any: top.skipped_any || below.skipped_any,
    }
}

/// Whether a directory may be removed itself after the walk through it: a
/// directory in which something was kept stays, and so does the root, whether
/// it is named by the empty path or by a separator.
pub open spec fn is_removed_itself(top: Frame) -> bool {
    !top.skipped_any && top.path@.len() != 0 && top.path@ != seq![SEPARATOR]
}

/// How a walk goes on when it is done with one path, with `result`, while
/// the directories `open` are open.
///
/// With no directory open, the walk is over. Else the result belongs to an
/// entry of the directory that was opened last: what was done is counted in
/// and its next entry is read, or, after an error, it is closed.
pub open spec fn leave(open: Seq<Frame>, result: Result<RemoveDirAllProgress>) -> (
    Seq<Frame>,
    Awaited,
    RemoveAction,
) {
    if open.len() == 0 {
        (
            open,
            Awaited::Nothing,
            RemoveAction::Finish(
                match result {
                    Ok(progress) => Ok(progress.files_removed),
                    Err(e) => Err(e),
                },
            ),
        )
    } else {
        match result {
            Ok(progress) => (
                open.drop_last().push(with_progress(open.last(), progress)),
                Awaited::Entry,
                RemoveAction::ReadEntry,
            ),
            Err(e) => (open, Awaited::Closed(Some(e)), RemoveAction::CloseDir),
        }
    }
}

/// One step of a walk: from the directories that are open, the answer that
/// is awaited and the event that came, to the directories that are open then,
/// the answer that is awaited then, and the action to perform.
///
/// A path is entered by asking whether it exists. Where it does not, nothing
/// is done for it. Else it is opened as a directory and read entry by entry.
/// The first two entries are passed over. For a file the predicate is asked,
/// and the file is removed where it agrees and kept where it does not. A
/// directory is entered in turn. At the end the directory is closed and, where
/// [`is_removed_itself`] holds of it, removed. An error ends the reading of
/// each directory that is open: each is closed, and the error of the last
/// closing that fails, or else the first error, is the result.
pub open spec fn next_step(open: Seq<Frame>, awaited: Awaited, event: RemoveEvent) -> (
    Seq<Frame>,
    Awaited,
    RemoveAction,
) {
    match (awaited, event) {
        (Awaited::Exists(path), RemoveEvent::Exists(found)) => {
            if found {
                (open, Awaited::Opened(path), RemoveAction::OpenDir(path))
            } else {
                leave(open, Ok(RemoveDirAllProgress { files_removed: 0, skipped_any: false }))
            }
        },
        (Awaited::Opened(path), RemoveEvent::Opened(opened)) => {
            match opened {
                Ok(_) => (
                    open.push(Frame { path, passed: 0, files_removed: 0, skipped_any: false }),
                    Awaited::Entry,
                    RemoveAction::ReadEntry,
                ),
                Err(e) => leave(open, Err(e)),
            }
        },
        (Awaited::Entry, RemoveEvent::End) => (open, Awaited::Closed(None), RemoveAction::CloseDir),
        (Awaited::Entry, RemoveEvent::EntryError(e)) => {
            if open.last().passed < 2 {
                (open.drop_last().push(pass(open.last())), Awaited::Entry, RemoveAction::ReadEntry)
            } else {
                (open, Awaited::Closed(Some(e)), RemoveAction::CloseDir)
            }
        },
        (Awaited::Entry, RemoveEvent::Entry(file_type, path)) => {
            if open.last().passed < 2 {
                (open.drop_last().push(pass(open.last())), Awaited::Entry, RemoveAction::ReadEntry)
            } else if file_type == FileType::File {
                (open, Awaited::Predicate(path), RemoveAction::AskPredicate)
            } else {
                (open, Awaited::Exists(path), RemoveAction::Exists(path))
            }
        },
        (Awaited::Predicate(path), RemoveEvent::Predicate(agreed)) => {
            if agreed {
                (open, Awaited::FileRemoved, RemoveAction::Remove(path))
            } else {
                leave(open, Ok(RemoveDirAllProgress { files_removed: 0, skipped_any: true }))
            }
        },
        (Awaited::FileRemoved, RemoveEvent::Removed(removed)) => {
            match removed {
                Ok(_) => leave(
                    open,
                    Ok(RemoveDirAllProgress { files_removed: 1, skipped_any: false }),
                ),
                Err(e) => leave(open, Err(e)),
            }
        },
        (Awaited::Closed(pending), RemoveEvent::Closed(closed)) => {
            let top = open.last();
            let rest = open.drop_last();
            match (closed, pending) {
                (Err(e), _) => leave(rest, Err(e)),
                (Ok(_), Some(e)) => leave(rest, Err(e)),
                (Ok(_), None) => {
                    let progress = RemoveDirAllProgress {
                        files_removed: top.files_removed,
                        skipped_any: top.skipped_any,
                    };
                    if is_removed_itself(top) {
                        (rest, Awaited::DirRemoved(progress), RemoveAction::Remove(top.path))
                    } else {
                        leave(rest, Ok(progress))
                    }
                },
            }
        },
        (Awaited::DirRemoved(progress), RemoveEvent::Removed(removed)) => {
            match removed {
                Ok(_) => leave(open, Ok(progress)),
                Err(e) => leave(open, Err(e)),
            }
        },
        _ => (open, awaited, RemoveAction::Finish(Err(Error::invalid()))),
    }
}

/// The directory `top` after one more of its first entries was passed over.
pub open spec fn pass(top: Frame) -> Frame {
    Frame {
        path: top.path,
        passed: (top.passed + 1) as u8,
        files_removed: top.files_removed,
        skipped_any: top.skipped_any,
    }
}

/// Whether an answer can be awaited while the directories `open` are open:
/// all that is asked about a directory that is read needs one that is open.
pub open spec fn is_consistent(open: Seq<Frame>, awaited: Awaited) -> bool {
    &&& (awaited is Entry || awaited is Predicate || awaited is FileRemoved || awaited is Closed)
        ==> open.len() > 0
    &&& forall|i: int| 0 <= i < open.len() ==> (#[trigger] open[i]).passed <= 2
}

/// The state of a walk that removes a directory with all that is in it.
#[derive(Debug)]
pub struct RemoveDirAll {
    open: Vec<Frame>,
    awaited: Awaited,
}

// Goes on after one path is done with.
fn leave_with(open: Vec<Frame>, result: Result<RemoveDirAllProgress>) -> (r: (
    Vec<Frame>,
    Awaited,
    RemoveAction,
))
    requires
        forall|i: int| 0 <= i < open@.len() ==> (#[trigger] open@[i]).passed <= 2,
    ensures
        (r.0@, r.1, r.2) == leave(open@, result),
        is_consistent(r.0@, r.1),
{
    let mut open = open;
    let ghost before = open@;
    match open.pop() {
        None => {
            assert(open@ =~= before);
            (
                open,
                Awaited::Nothing,
                RemoveAction::Finish(
                    match result {
                        Ok(progress) => Ok(progress.files_removed),
                        Err(e) => Err(e),
                    },
                ),
            )
        },
        Some(top) => {
            match result {
                Ok(progress) => {
                    let files_removed = if progress.files_removed <= usize::MAX
                        - top.files_removed {
                        top.files_removed + progress.files_removed
                    } else {
                        usize::MAX
                    };
                    open.push(
                        Frame {
                            path: top.path,
                            passed: top.passed,
                            files_removed,
                            skipped_any: top.skipped_any || progress.skipped_any,
                        },
                    );
                    (open, Awaited::Entry, RemoveAction::ReadEntry)
                },
                Err(e) => {
                    open.push(top);
                    assert(open@ =~= before);
                    (open, Awaited::Closed(Some(e)), RemoveAction::CloseDir)
                },
            }
        },
    }
}

// Passes over one of the first two entries of the directory that was opened last.
fn pass_one(open: Vec<Frame>) -> (r: Vec<Frame>)
    requires
        open@.len() > 0,
        open@.last().passed < 2,
        forall|i: int| 0 <= i < open@.len() ==> (#[trigger] open@[i]).passed <= 2,
    ensures
        r@ == open@.drop_last().push(pass(open@.last())),
        forall|i: int| 0 <= i < r@.len() ==> (#[trigger] r@[i]).passed <= 2,
{
    let mut open = open;
    let top = open.pop().unwrap();
    open.push(
        Frame {
            path: top.path,
            passed: top.passed + 1,
            files_removed: top.files_removed,
            skipped_any: top.skipped_any,
        },
    );
    open
}

impl RemoveDirAll {
    #[verifier::type_invariant]
    pub closed spec fn well_formed(self) -> bool {
        is_consistent(self.open@, self.awaited)
    }

    /// The directories that are open, the one that was opened last at the end.
    pub closed spec fn spec_open(&self) -> Seq<Frame> {
        self.open@
    }

    /// The answer that the walk waits for.
    pub closed spec fn spec_awaited(&self) -> Awaited {
        self.awaited
    }

    /// Starts the walk that removes what is at `path`: the first action is
    /// to find out whether there is anything.
    pub fn start(path: &Path<'_>) -> (r: (RemoveDirAll, RemoveAction))
        ensures
            r.0.spec_open() == Seq::<Frame>::empty(),
            r.0.spec_awaited() matches Awaited::Exists(p) && p@ == path@ && r.1
                == RemoveAction::Exists(p),
    {
        let start = PathBuf::from(*path);
        (
            RemoveDirAll { open: Vec::new(), awaited: Awaited::Exists(start) },
            RemoveAction::Exists(start),
        )
    }

    /// Whether the walk is over.
    pub fn is_finished(&self) -> (r: bool)
        ensures
            r == (self.spec_awaited() is Nothing),
    {
        match self.awaited {
            Awaited::Nothing => true,
            _ => false,
        }
    }

    /// Tells whether the walk can take the event.
    pub fn accepts(&self, event: &RemoveEvent) -> (r: bool)
        ensures
            r == awaits(self.spec_awaited(), *event),
    {
        match self.awaited {
            Awaited::Exists(_) => match event {
                RemoveEvent::Exists(_) => true,
                _ => false,
            },
            Awaited::Opened(_) => match event {
                RemoveEvent::Opened(_) => true,
                _ => false,
            },
            Awaited::Entry => match event {
                RemoveEvent::Entry(_, _) => true,
                RemoveEvent::EntryError(_) => true,
                RemoveEvent::End => true,
                _ => false,
            },
            Awaited::Predicate(_) => match event {
                RemoveEvent::Predicate(_) => true,
                _ => false,
            },
            Awaited::FileRemoved => match event {
                RemoveEvent::Removed(_) => true,
                _ => false,
            },
            Awaited::Closed(_) => match event {
                RemoveEvent::Closed(_) => true,
                _ => false,
            },
            Awaited::DirRemoved(_) => match event {
                RemoveEvent::Removed(_) => true,
                _ => false,
            },
            Awaited::Nothing => false,
        }
    }

    /// Takes the event that tells how the last action went, and hands out
    /// the walk as it goes on with the next action: see [`next_step`]. The
    /// event must be one that the walk waits for.
    pub fn step(self, event: RemoveEvent) -> (r: (RemoveDirAll, RemoveAction))
        requires
            awaits(self.spec_awaited(), event),
        ensures
            (r.0.spec_open(), r.0.spec_awaited(), r.1) == next_step(
                self.spec_open(),
                self.spec_awaited(),
                event,
            ),
    {
        proof {
            use_type_invariant(&self);
        }
        let RemoveDirAll { open, awaited } = self;
        let mut open = open;
        let (open, awaited, action) = match (awaited, event) {
            (Awaited::Exists(path), RemoveEvent::Exists(found)) => {
                if found {
                    (open, Awaited::Opened(path), RemoveAction::OpenDir(path))
                } else {
                    leave_with(
                        open,
                        Ok(RemoveDirAllProgress { files_removed: 0, skipped_any: false }),
                    )
                }
            },
            (Awaited::Opened(path), RemoveEvent::Opened(opened)) => {
                match opened {
                    Ok(_) => {
                        open.push(
                            Frame { path, passed: 0, files_removed: 0, skipped_any: false },
                        );
                        (open, Awaited::Entry, RemoveAction::ReadEntry)
                    },
                    Err(e) => leave_with(open, Err(e)),
                }
            },
            (Awaited::Entry, RemoveEvent::End) => (
                open,
                Awaited::Closed(None),
                RemoveAction::CloseDir,
            ),
            (Awaited::Entry, RemoveEvent::EntryError(e)) => {
                let n = open.len();
                let top = open[n - 1];
                if top.passed < 2 {
                    (pass_one(open), Awaited::Entry, RemoveAction::ReadEntry)
                } else {
                    (open, Awaited::Closed(Some(e)), RemoveAction::CloseDir)
                }
            },
            (Awaited::Entry, RemoveEvent::Entry(file_type, path)) => {
                let n = open.len();
                let top = open[n - 1];
                if top.passed < 2 {
                    (pass_one(open), Awaited::Entry, RemoveAction::ReadEntry)
                } else if file_type.is_file() {
                    (open, Awaited::Predicate(path), RemoveAction::AskPredicate)
                } else {
                    (open, Awaited::Exists(path), RemoveAction::Exists(path))
                }
            },
            (Awaited::Predicate(path), RemoveEvent::Predicate(agreed)) => {
                if agreed {
                    (open, Awaited::FileRemoved, RemoveAction::Remove(path))
                } else {
                    leave_with(
                        open,
                        Ok(RemoveDirAllProgress { files_removed: 0, skipped_any: true }),
                    )
                }
            },
            (Awaited::FileRemoved, RemoveEvent::Removed(removed)) => {
                match removed {
                    Ok(_) => leave_with(
                        open,
                        Ok(RemoveDirAllProgress { files_removed: 1, skipped_any: false }),
                    ),
                    Err(e) => leave_with(open, Err(e)),
                }
            },
            (Awaited::Closed(pending), RemoveEvent::Closed(closed)) => {
                let top = open.pop().unwrap();
                match (closed, pending) {
                    (Err(e), _) => leave_with(open, Err(e)),
                    (Ok(_), Some(e)) => leave_with(open, Err(e)),
                    (Ok(_), None) => {
                        let progress = RemoveDirAllProgress {
                            files_removed: top.files_removed,
                            skipped_any: top.skipped_any,
                        };
                        let text = top.path.as_path();
                        let is_root = text.len() == 0 || (text.len() == 1 && text.as_bytes()[0]
                            == SEPARATOR);
                        assert(is_root == (top.path@.len() == 0 || top.path@ == seq![SEPARATOR]))
                            by {
                            if top.path@.len() == 1 && top.path@[0] == SEPARATOR {
                                assert(top.path@ =~= seq![SEPARATOR]);
                            }
                        }
                        if !top.skipped_any && !is_root {
                            (open, Awaited::DirRemoved(progress), RemoveAction::Remove(top.path))
                        } else {
                            leave_with(open, Ok(progress))
                        }
                    },
                }
            },
            (Awaited::DirRemoved(progress), RemoveEvent::Removed(removed)) => {
                match removed {
                    Ok(_) => leave_with(open, Ok(progress)),
                    Err(e) => leave_with(open, Err(e)),
                }
            },
            _ => (open, awaited, RemoveAction::Finish(Err(Error::invalid()))),
        };
        (RemoveDirAll { open, awaited }, action)
    }
}

/// When a walk is over, no directory is left open.
pub proof fn lemma_finish_leaves_nothing_open(
    open: Seq<Frame>,
    awaited: Awaited,
    event: RemoveEvent,
)
    requires
        is_consistent(open, awaited),
        awaits(awaited, event),
        next_step(open, awaited, event).2 is Finish,
    ensures
        next_step(open, awaited, event).0.len() == 0,
        next_step(open, awaited, event).1 is Nothing,
{
}

/// A directory is removed only when nothing in it or below it was kept, and
/// the root is never removed.
pub proof fn lemma_kept_directories_stay(open: Seq<Frame>, pending: Option<Error>, closed: Result<()>)
    requires
        open.len() > 0,
        next_step(open, Awaited::Closed(pending), RemoveEvent::Closed(closed)).2 is Remove,
    ensures
        !open.last().skipped_any,
        open.last().path@.len() != 0,
        open.last().path@ != seq![SEPARATOR],
        closed.is_ok(),
        pending.is_none(),
{
}

/// A file is removed only after the predicate agreed to it.
pub proof fn lemma_files_are_removed_on_agreement(
    open: Seq<Frame>,
    path: PathBuf,
    agreed: bool,
)
    ensures
        next_step(open, Awaited::Predicate(path), RemoveEvent::Predicate(agreed)).2 is Remove
            <==> agreed,
{
}


/// A walk stays consistent step by step, and it waits for an answer until
/// it is over.
pub proof fn lemma_step_keeps_consistent(open: Seq<Frame>, awaited: Awaited, event: RemoveEvent)
    requires
        is_consistent(open, awaited),
        awaits(awaited, event),
    ensures
        is_consistent(next_step(open, awaited, event).0, next_step(open, awaited, event).1),
        next_step(open, awaited, event).2 is Finish <==> next_step(open, awaited, event).1
            is Nothing,
        next_step(open, awaited, event).0.len() <= open.len() + 1,
{
    let next = next_step(open, awaited, event);
    assert forall|i: int| 0 <= i < next.0.len() implies (#[trigger] next.0[i]).passed <= 2 by {
        if i < open.len() && i < next.0.len() - 1 {
            assert(next.0[i] == open[i]);
        }
    }
}


/// The walk that removes what is at `start`, after it took the events
/// `events` one by one: the directories that are open, the answer that is
/// awaited, and the action that was handed out last.
pub open spec fn walk_after(start: PathBuf, events: Seq<RemoveEvent>) -> (
    Seq<Frame>,
    Awaited,
    RemoveAction,
)
    decreases events.len(),
{
    if events.len() == 0 {
        (Seq::empty(), Awaited::Exists(start), RemoveAction::Exists(start))
    } else {
        let before = walk_after(start, events.drop_last());
        next_step(before.0, before.1, events.last())
    }
}

/// Whether each of the events `events` is one that the walk waited for
/// when it came.
pub open spec fn walk_accepts(start: PathBuf, events: Seq<RemoveEvent>) -> bool
    decreases events.len(),
{
    events.len() == 0 || (walk_accepts(start, events.drop_last()) && awaits(
        walk_after(start, events.drop_last()).1,
        events.last(),
    ))
}

/// The number of files that were removed in a walk: the events that tell
/// that a file was removed, as an answer to the action to remove one.
pub open spec fn files_removed_in(start: PathBuf, events: Seq<RemoveEvent>) -> int
    decreases events.len(),
{
    if events.len() == 0 {
        0
    } else {
        files_removed_in(start, events.drop_last()) + if walk_after(
            start,
            events.drop_last(),
        ).1 is FileRemoved && events.last() matches RemoveEvent::Removed(Ok(_)) {
            1int
        } else {
            0int
        }
    }
}

/// The number of files that the directories that are open count as removed.
pub open spec fn counted(open: Seq<Frame>) -> int
    decreases open.len(),
{
    if open.len() == 0 {
        0
    } else {
        counted(open.drop_last()) + open.last().files_removed
    }
}

/// The number of files that a walk counts as removed while it goes on: in
/// the directories that are open, and in the one that is being removed.
pub open spec fn in_hand(open: Seq<Frame>, awaited: Awaited) -> int {
    counted(open) + match awaited {
        Awaited::DirRemoved(progress) => progress.files_removed as int,
        _ => 0,
    }
}

/// Whether a walk has met no error yet.
pub open spec fn is_well(awaited: Awaited, action: RemoveAction) -> bool {
    !(awaited matches Awaited::Closed(Some(_))) && !(action matches RemoveAction::Finish(Err(_)))
}

/// The count of the directories that are open is made of counts, none of
/// which is negative.
pub proof fn lemma_counted(open: Seq<Frame>)
    ensures
        counted(open) >= 0,
        open.len() > 0 ==> counted(open) >= open.last().files_removed,
        open.len() > 0 ==> counted(open) == counted(open.drop_last()) + open.last().files_removed,
    decreases open.len(),
{
    if open.len() > 0 {
        lemma_counted(open.drop_last());
    }
}

/// Putting another directory in the place of the one that was opened last
/// changes the count by the difference of their counts.
pub proof fn lemma_counted_with(open: Seq<Frame>, top: Frame)
    requires
        open.len() > 0,
    ensures
        counted(open.drop_last().push(top)) == counted(open.drop_last()) + top.files_removed,
        counted(open.push(top)) == counted(open) + top.files_removed,
{
    assert(open.drop_last().push(top).drop_last() =~= open.drop_last());
    assert(open.push(top).drop_last() =~= open);
}

/// A walk counts the files that were removed.
///
/// Whatever events a walk takes, as long as each is one that it waits for:
/// the walk stays consistent; while it has met no error, it counts as many
/// files as were removed; when it is over, no directory is open; and when it
/// is over without an error, its result is the number of files that were
/// removed.
pub proof fn lemma_walk_counts_removed_files(start: PathBuf, events: Seq<RemoveEvent>)
    requires
        walk_accepts(start, events),
        events.len() <= usize::MAX,
    ensures
        is_consistent(walk_after(start, events).0, walk_after(start, events).1),
        walk_after(start, events).2 is Finish <==> walk_after(start, events).1 is Nothing,
        walk_after(start, events).2 is Finish ==> walk_after(start, events).0.len() == 0,
        0 <= files_removed_in(start, events) <= events.len(),
        walk_goal(walk_after(start, events), files_removed_in(start, events)),
    decreases events.len(),
{
    if events.len() > 0 {
        let earlier = events.drop_last();
        let event = events.last();
        lemma_walk_counts_removed_files(start, earlier);
        let (open, awaited, action) = walk_after(start, earlier);
        lemma_step_keeps_consistent(open, awaited, event);
        lemma_counted(open);
        let next = next_step(open, awaited, event);
        let count = files_removed_in(start, events);
        let none = RemoveDirAllProgress { files_removed: 0, skipped_any: false };
        let kept = RemoveDirAllProgress { files_removed: 0, skipped_any: true };
        let one = RemoveDirAllProgress { files_removed: 1, skipped_any: false };
        match (awaited, event) {
            (Awaited::Exists(_), RemoveEvent::Exists(_)) => {
                lemma_leave_counts(open, none);
            },
            (Awaited::Opened(path), RemoveEvent::Opened(_)) => {
                let frame = Frame { path, passed: 0, files_removed: 0, skipped_any: false };
                assert(open.push(frame).drop_last() =~= open);
            },
            (Awaited::Entry, _) => {
                lemma_counted_with(open, pass(open.last()));
            },
            (Awaited::Predicate(_), RemoveEvent::Predicate(_)) => {
                lemma_leave_counts(open, kept);
            },
            (Awaited::FileRemoved, RemoveEvent::Removed(_)) => {
                lemma_leave_counts(open, one);
            },
            (Awaited::Closed(pending), RemoveEvent::Closed(_)) => {
                let top = open.last();
                let rest = open.drop_last();
                lemma_counted(rest);
                if pending.is_none() {
                    lemma_leave_counts(
                        rest,
                        RemoveDirAllProgress {
                            files_removed: top.files_removed,
                            skipped_any: top.skipped_any,
                        },
                    );
                }
            },
            (Awaited::DirRemoved(progress), RemoveEvent::Removed(_)) => {
                lemma_leave_counts(open, progress);
            },
            _ => {},
        }
        assert(walk_goal(next, count));
    }
}

/// Going on after a path is done with, with what was done below it, adds
/// to the count what was done, as long as the sum can be counted: the walk
/// is then over with that sum as its result, or it reads on with that sum in
/// hand.
pub proof fn lemma_leave_counts(open: Seq<Frame>, progress: RemoveDirAllProgress)
    requires
        counted(open) + progress.files_removed <= usize::MAX,
    ensures
        open.len() == 0 ==> leave(open, Ok(progress)).2 == RemoveAction::Finish(
            Ok::<usize, Error>(progress.files_removed),
        ),
        open.len() > 0 ==> leave(open, Ok(progress)).2 == RemoveAction::ReadEntry && in_hand(
            leave(open, Ok(progress)).0,
            leave(open, Ok(progress)).1,
        ) == counted(open) + progress.files_removed,
{
    lemma_counted(open);
    if open.len() > 0 {
        lemma_counted(open.drop_last());
        lemma_counted_with(open, with_progress(open.last(), progress));
    }
}

/// What [`lemma_walk_counts_removed_files`] states of a walk and of the
/// number of files that were removed in it.
pub open spec fn walk_goal(walk: (Seq<Frame>, Awaited, RemoveAction), count: int) -> bool {
    &&& walk.2 matches RemoveAction::Finish(Ok(n)) ==> n == count && walk.0.len() == 0
    &&& is_well(walk.1, walk.2) && !(walk.2 is Finish) ==> in_hand(walk.0, walk.1) == count
}

} // verus!
