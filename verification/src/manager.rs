//! The registry of running book downloads and their pause and cancel flags.

use std::collections::HashMap;
use vstd::prelude::*;
use crate::models::{ResumeResult, SimpleResult};

verus! {

broadcast use vstd::std_specs::hash::group_hash_axioms;

/// The control flags of one running download.
#[derive(Debug, Clone, Copy)]
pub struct DownloadTask {
    pub paused: bool,
    pub cancelled: bool,
}

/// The running downloads, by book id.
pub struct DownloadManager {
    tasks: HashMap<i64, DownloadTask>,
}

impl View for DownloadManager {
    type V = Map<i64, DownloadTask>;

    closed spec fn view(&self) -> Map<i64, DownloadTask> {
        self.tasks@
    }
}

/// A download of `id` is registered and paused.
pub open spec fn spec_is_paused(m: Map<i64, DownloadTask>, id: i64) -> bool {
    m.contains_key(id) && m[id].paused
}

/// A download of `id` is registered and cancelled.
pub open spec fn spec_is_cancelled(m: Map<i64, DownloadTask>, id: i64) -> bool {
    m.contains_key(id) && m[id].cancelled
}

/// Registers a fresh, running download of `id` unless one is registered already.
pub open spec fn spec_register(m: Map<i64, DownloadTask>, id: i64) -> Map<i64, DownloadTask> {
    if m.contains_key(id) {
        m
    } else {
        m.insert(id, DownloadTask { paused: false, cancelled: false })
    }
}

/// Sets the pause flag of a registered download of `id`.
pub open spec fn spec_set_paused(m: Map<i64, DownloadTask>, id: i64, paused: bool) -> Map<
    i64,
    DownloadTask,
> {
    if m.contains_key(id) {
        m.insert(id, DownloadTask { paused, cancelled: m[id].cancelled })
    } else {
        m
    }
}

/// Sets the cancel flag of a registered download of `id`.
pub open spec fn spec_cancel(m: Map<i64, DownloadTask>, id: i64) -> Map<i64, DownloadTask> {
    if m.contains_key(id) {
        m.insert(id, DownloadTask { paused: m[id].paused, cancelled: true })
    } else {
        m
    }
}

impl DownloadManager {
    /// An empty registry.
    pub fn new() -> (m: Self)
        ensures
            m@ == Map::<i64, DownloadTask>::empty(),
    {
        DownloadManager { tasks: HashMap::new() }
    }

    /// Whether a download of `book_id` is registered.
    pub fn contains_task(&self, book_id: i64) -> (r: bool)
        ensures
            r == self@.contains_key(book_id),
    {
        self.tasks.contains_key(&book_id)
    }

    /// The flags of the download of `book_id`, if one is registered.
    pub fn task_flags(&self, book_id: i64) -> (r: Option<DownloadTask>)
        ensures
            r == (if self@.contains_key(book_id) {
                Some(self@[book_id])
            } else {
                None
            }),
    {
        match self.tasks.get(&book_id) {
            Some(t) => Some(*t),
            None => None,
        }
    }

    /// Registers a running download of `book_id`; refused (returns `false`, no change)
    /// when one is registered already.
    pub fn register_task(&mut self, book_id: i64) -> (r: bool)
        ensures
            r == !old(self)@.contains_key(book_id),
            final(self)@ == spec_register(old(self)@, book_id),
    {
        if self.tasks.contains_key(&book_id) {
            return false;
        }
        self.tasks.insert(book_id, DownloadTask { paused: false, cancelled: false });
        true
    }
}

/// Whether the download of the book is registered and paused.
pub fn book_is_paused(manager: &DownloadManager, book_id: i64) -> (r: bool)
    ensures
        r == spec_is_paused(manager@, book_id),
{
    match manager.tasks.get(&book_id) {
        Some(t) => t.paused,
        None => false,
    }
}

/// Whether the download of the book is registered and cancelled.
pub fn book_is_cancelled(manager: &DownloadManager, book_id: i64) -> (r: bool)
    ensures
        r == spec_is_cancelled(manager@, book_id),
{
    match manager.tasks.get(&book_id) {
        Some(t) => t.cancelled,
        None => false,
    }
}

/// Drops the registration of the book's download; always reports success.
pub fn book_finish_download(manager: &mut DownloadManager, book_id: i64) -> (r: bool)
    ensures
        r,
        final(manager)@ == old(manager)@.remove(book_id),
{
    manager.tasks.remove(&book_id);
    true
}

/// Pauses the book's download; fails, changing nothing, when none is registered.
pub fn book_pause_download(manager: &mut DownloadManager, book_id: i64) -> (r: SimpleResult)
    ensures
        r.success == old(manager)@.contains_key(book_id),
        final(manager)@ == spec_set_paused(old(manager)@, book_id, true),
{
    match manager.tasks.get(&book_id) {
        Some(t) => {
            let cancelled = t.cancelled;
            manager.tasks.insert(book_id, DownloadTask { paused: true, cancelled });
            SimpleResult { success: true }
        },
        None => SimpleResult { success: false },
    }
}

/// Resumes the book's download; fails, changing nothing, when none is registered.
pub fn book_resume_download(manager: &mut DownloadManager, book_id: i64) -> (r: ResumeResult)
    ensures
        r.success == old(manager)@.contains_key(book_id),
        r.resumed == r.success,
        r.book_id == book_id,
        final(manager)@ == spec_set_paused(old(manager)@, book_id, false),
{
    match manager.tasks.get(&book_id) {
        Some(t) => {
            let cancelled = t.cancelled;
            manager.tasks.insert(book_id, DownloadTask { paused: false, cancelled });
            ResumeResult { success: true, book_id, resumed: true }
        },
        None => ResumeResult { success: false, book_id, resumed: false },
    }
}

/// Cancels the book's download; fails, changing nothing, when none is registered.
pub fn book_cancel_download(manager: &mut DownloadManager, book_id: i64) -> (r: SimpleResult)
    ensures
        r.success == old(manager)@.contains_key(book_id),
        final(manager)@ == spec_cancel(old(manager)@, book_id),
{
    match manager.tasks.get(&book_id) {
        Some(t) => {
            let paused = t.paused;
            manager.tasks.insert(book_id, DownloadTask { paused, cancelled: true });
            SimpleResult { success: true }
        },
        None => SimpleResult { success: false },
    }
}

} // verus!

verus! {

/// Pausing a registered download makes it report paused; resuming makes it report
/// not paused; neither touches its cancel flag.
pub proof fn law_pause_resume(m: Map<i64, DownloadTask>, id: i64)
    requires
        m.contains_key(id),
    ensures
        spec_is_paused(spec_set_paused(m, id, true), id),
        !spec_is_paused(spec_set_paused(m, id, false), id),
        spec_is_cancelled(spec_set_paused(m, id, true), id) == spec_is_cancelled(m, id),
        spec_is_cancelled(spec_set_paused(m, id, false), id) == spec_is_cancelled(m, id),
{
}

/// A cancelled download stays cancelled through any later pause or resume, and keeps
/// its pause flag when cancelled.
pub proof fn law_cancel_is_sticky(m: Map<i64, DownloadTask>, id: i64, paused: bool)
    requires
        m.contains_key(id),
    ensures
        spec_is_cancelled(spec_cancel(m, id), id),
        spec_is_paused(spec_cancel(m, id), id) == spec_is_paused(m, id),
        spec_is_cancelled(spec_set_paused(spec_cancel(m, id), id, paused), id),
{
}

/// Pause, resume and cancel of a book without a registered download change nothing.
pub proof fn law_unknown_book_unchanged(m: Map<i64, DownloadTask>, id: i64, paused: bool)
    requires
        !m.contains_key(id),
    ensures
        spec_set_paused(m, id, paused) == m,
        spec_cancel(m, id) == m,
        !spec_is_paused(m, id),
        !spec_is_cancelled(m, id),
{
}

/// Registering, pausing, resuming, cancelling or finishing one book's download leaves
/// every other book's download as it was.
pub proof fn law_other_books_unaffected(
    m: Map<i64, DownloadTask>,
    id: i64,
    other: i64,
    paused: bool,
)
    requires
        id != other,
    ensures
        spec_register(m, id).contains_key(other) == m.contains_key(other),
        spec_set_paused(m, id, paused).contains_key(other) == m.contains_key(other),
        spec_cancel(m, id).contains_key(other) == m.contains_key(other),
        m.remove(id).contains_key(other) == m.contains_key(other),
        m.contains_key(other) ==> spec_register(m, id)[other] == m[other] && spec_set_paused(
            m,
            id,
            paused,
        )[other] == m[other] && spec_cancel(m, id)[other] == m[other] && m.remove(id)[other]
            == m[other],
{
}

/// A book has at most one registered download: a second registration leaves the first
/// one, with its flags, in place.
pub proof fn law_single_download_per_book(m: Map<i64, DownloadTask>, id: i64)
    ensures
        spec_register(m, id).contains_key(id),
        spec_register(spec_register(m, id), id) == spec_register(m, id),
        m.contains_key(id) ==> spec_register(m, id) == m,
        !m.contains_key(id) ==> !spec_is_paused(spec_register(m, id), id) && !spec_is_cancelled(
            spec_register(m, id),
            id,
        ),
{
}

/// Once a download is finished it reports neither paused nor cancelled, and the book
/// can be registered again as a fresh download.
pub proof fn law_finish_forgets(m: Map<i64, DownloadTask>, id: i64)
    ensures
        !spec_is_paused(m.remove(id), id),
        !spec_is_cancelled(m.remove(id), id),
        spec_register(m.remove(id), id) == m.remove(id).insert(
            id,
            DownloadTask { paused: false, cancelled: false },
        ),
{
}

} // verus!
