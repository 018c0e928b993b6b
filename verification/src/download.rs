//! Downloading a book for offline reading: starting a download, the decisions of the
//! download loop (which page next, what a server answer means, the progress to report)
//! and the store updates it makes.

use vstd::prelude::*;
use crate::clock::unix_now;
use crate::db::{batch_insert_image_records, book_progress, insert_images, progress_spec};
use crate::images::{build_cover_urls, cover_urls_spec, extract_image_urls, image_urls_spec};
use crate::manager::{
    book_is_cancelled, spec_is_cancelled, spec_register, DownloadManager,
};
use crate::models::{ContentsItem, DownloadProgressPayload, DownloadResult, PageItem};
use crate::store::{
    is_book_store, store_schema, BookRow, ImageRow, downloaded_count, downloaded_row, image_counts, is_pending_list, mark_image, new_book_row,
    pending_image_urls, placeholder_row, same_except_contents, same_except_images, same_except_pages,
    same_tables, sql_error_text, store_books, store_contents, store_images, store_pages, BookStore,
    ContentsRow, PageRow, is_contents_list,
};
use crate::text::views;

verus! {

/// What a download loop does before its next fetch.
#[derive(Debug, Clone, Copy, PartialEq, Eq)]
pub enum Gate {
    /// The download was cancelled: stop.
    Stop,
    /// The download is paused: wait and ask again.
    Wait,
    /// Go on.
    Go,
}

/// Cancellation wins over pause; a paused download waits; otherwise it goes on.
pub fn loop_gate(cancelled: bool, paused: bool) -> (g: Gate)
    ensures
        cancelled ==> g == Gate::Stop,
        !cancelled && paused ==> g == Gate::Wait,
        !cancelled && !paused ==> g == Gate::Go,
{
    if cancelled {
        Gate::Stop
    } else if paused {
        Gate::Wait
    } else {
        Gate::Go
    }
}

/// What the HTTP status of a page response means.
#[derive(Debug, Clone, Copy, PartialEq, Eq)]
pub enum StatusAction {
    /// 401 or 403: the login has expired; tell the front end and stop.
    SessionExpired,
    /// Any other non-2xx status: give up on this page and go on.
    SkipPage,
    /// A 2xx status: read the body.
    ReadBody,
}

/// Classifies the HTTP status of a page response.
pub fn classify_page_status(status: u16) -> (a: StatusAction)
    ensures
        (status == 401 || status == 403) ==> a == StatusAction::SessionExpired,
        !(status == 401 || status == 403) && 200 <= status <= 299 ==> a == StatusAction::ReadBody,
        !(status == 401 || status == 403) && !(200 <= status <= 299) ==> a
            == StatusAction::SkipPage,
{
    if status == 401 || status == 403 {
        StatusAction::SessionExpired
    } else if 200 <= status && status <= 299 {
        StatusAction::ReadBody
    } else {
        StatusAction::SkipPage
    }
}

/// The business answer of the page API.
#[derive(Debug, Clone, PartialEq, Eq)]
pub struct ApiPageResponse {
    pub code: i64,
    pub data: Option<Vec<PageItem>>,
    pub message: Option<String>,
}

/// The business answer of the contents API.
#[derive(Debug, Clone, PartialEq, Eq)]
pub struct ApiContentsResponse {
    pub code: i64,
    pub data: Option<Vec<ContentsItem>>,
    pub message: Option<String>,
}

/// What a parsed page answer means.
#[derive(Debug, Clone, PartialEq, Eq)]
pub enum ApiAction {
    /// Code 100: the login has expired; tell the front end and stop.
    SessionExpired,
    /// Code 0 with data: store these pages.
    SavePages(Vec<PageItem>),
    /// Code 0 without data: nothing to store.
    NoData,
    /// Any other code: the server refused this page; go on.
    ApiError,
}

/// Classifies a parsed page answer.
pub fn classify_page_api(resp: ApiPageResponse) -> (a: ApiAction)
    ensures
        resp.code == 100 ==> a == ApiAction::SessionExpired,
        resp.code == 0 ==> match resp.data {
            Some(items) => a == ApiAction::SavePages(items),
            None => a == ApiAction::NoData,
        },
        resp.code != 0 && resp.code != 100 ==> a == ApiAction::ApiError,
{
    if resp.code == 100 {
        ApiAction::SessionExpired
    } else if resp.code == 0 {
        match resp.data {
            Some(items) => ApiAction::SavePages(items),
            None => ApiAction::NoData,
        }
    } else {
        ApiAction::ApiError
    }
}

/// The contents to store from the contents answer: its data when the code is 0.
pub fn contents_to_save(resp: ApiContentsResponse) -> (r: Option<Vec<ContentsItem>>)
    ensures
        resp.code == 0 ==> r == resp.data,
        resp.code != 0 ==> r is None,
{
    if resp.code == 0 {
        resp.data
    } else {
        None
    }
}

/// What a download loop is waiting for.
#[derive(Debug, Clone, Copy, PartialEq, Eq)]
pub enum LoopPhase {
    /// The pause and cancel flags, before the next page is fetched.
    Gate,
    /// The HTTP status of the page request.
    AwaitStatus,
    /// The parsed page answer.
    AwaitBody,
    /// Whether every image of the current page was downloaded.
    AwaitImages,
    /// Whether the current page was stored, with the book's image counts.
    AwaitStored,
    /// The progress event was sent.
    AfterProgress,
    /// The pass over the images still waiting is done.
    Remaining,
    /// The download is over.
    Ended,
}

/// The state of one download loop, as a value.
pub struct DownloadRunView {
    pub book_id: i64,
    pub total_page: i64,
    pub pending: Seq<i64>,
    pub next: nat,
    pub base: int,
    pub done: int,
    pub last_pct: int,
    pub phase: LoopPhase,
    pub queue: Seq<PageItem>,
    pub current: Option<PageItem>,
}

/// The state of one book's download loop: the pages still to fetch, in order, how many
/// pages were stored before it started and how many it has stored, and the last
/// progress milestone it reported.
pub struct DownloadRun {
    book_id: i64,
    total_page: i64,
    pending: Vec<i64>,
    next: usize,
    downloaded_base: i64,
    done_in_task: i64,
    last_progress_pct: i64,
    phase: LoopPhase,
    /// The fetched pages still to handle, last first.
    stack: Vec<PageItem>,
    current: Option<PageItem>,
}

impl View for DownloadRun {
    type V = DownloadRunView;

    closed spec fn view(&self) -> DownloadRunView {
        DownloadRunView {
            book_id: self.book_id,
            total_page: self.total_page,
            pending: self.pending@,
            next: self.next as nat,
            base: self.downloaded_base as int,
            done: self.done_in_task as int,
            last_pct: self.last_progress_pct as int,
            phase: self.phase,
            queue: self.stack@.reverse(),
            current: self.current,
        }
    }
}

/// The stored-page count a run reports after storing one more page fits in `i64`, as
/// does the run's own count.
pub open spec fn spec_can_record(v: DownloadRunView) -> bool {
    let d = v.base + v.done + 1;
    &&& v.done + 1 <= i64::MAX
    &&& i64::MIN <= d <= i64::MAX
}

impl DownloadRun {
    /// The run's counters are consistent: the next page is within the pending list and
    /// the stored-page count fits in `i64`.
    pub closed spec fn well_formed(self) -> bool {
        &&& self.next <= self.pending@.len()
        &&& self.done_in_task >= 0
        &&& i64::MIN <= self.downloaded_base + self.done_in_task <= i64::MAX
    }

    /// A run over the pages still to fetch; the pages stored before it are the book's
    /// page count minus the pages to fetch.
    pub fn new(book_id: i64, total_page: i64, pending: Vec<i64>) -> (r: Self)
        requires
            pending@.len() <= i64::MAX,
            total_page - pending@.len() >= i64::MIN,
        ensures
            r@.book_id == book_id,
            r@.total_page == total_page,
            r@.pending == pending@,
            r@.next == 0,
            r@.base == total_page - pending@.len(),
            r@.done == 0,
            r@.last_pct == 0,
            r@.phase == LoopPhase::Gate,
            r@.queue.len() == 0,
            r@.current is None,
            r.well_formed(),
    {
        let n = pending.len() as i64;
        let stack: Vec<PageItem> = Vec::new();
        assert(stack@.reverse() =~= Seq::<PageItem>::empty());
        DownloadRun {
            book_id,
            total_page,
            pending,
            next: 0,
            downloaded_base: total_page - n,
            done_in_task: 0,
            last_progress_pct: 0,
            phase: LoopPhase::Gate,
            stack,
            current: None,
        }
    }

    /// The book being downloaded.
    pub fn book_id(&self) -> (r: i64)
        ensures
            r == self@.book_id,
    {
        self.book_id
    }

    /// The pages stored before the run started.
    pub fn downloaded_base(&self) -> (r: i64)
        ensures
            r == self@.base,
    {
        self.downloaded_base
    }

    /// The pages stored so far: those before the run plus those it stored.
    pub fn downloaded_pages(&self) -> (r: i64)
        requires
            self.well_formed(),
        ensures
            r == self@.base + self@.done,
    {
        self.downloaded_base + self.done_in_task
    }

    /// The next page to fetch, in the order given; `None` once all were handed out.
    pub fn next_page(&mut self) -> (r: Option<i64>)
        requires
            old(self).well_formed(),
        ensures
            final(self).well_formed(),
            old(self)@.next < old(self)@.pending.len() ==> r == Some(
                old(self)@.pending[old(self)@.next as int],
            ),
            old(self)@.next < old(self)@.pending.len() ==> final(self)@ == (DownloadRunView {
                next: old(self)@.next + 1,
                ..old(self)@
            }),
            old(self)@.next >= old(self)@.pending.len() ==> (r is None),
            old(self)@.next >= old(self)@.pending.len() ==> final(self)@ == old(self)@,
    {
        if self.next < self.pending.len() {
            let p = self.pending[self.next];
            self.next = self.next + 1;
            Some(p)
        } else {
            None
        }
    }

    /// Whether one more stored page can be recorded without overflow.
    pub fn can_record_page(&self) -> (r: bool)
        requires
            self.well_formed(),
        ensures
            r == spec_can_record(self@),
    {
        if self.done_in_task == i64::MAX {
            return false;
        }
        let d = self.downloaded_base as i128 + self.done_in_task as i128 + 1;
        d <= i64::MAX as i128
    }

    /// Records one more stored page. Returns the progress event to send (the pages now
    /// stored, the book's page count and the given image counts) and whether the
    /// percentage reached a new milestone (ten points above the last one), which then
    /// becomes the last milestone.
    pub fn record_saved_page(&mut self, total_images: i64, downloaded_images: i64) -> (r: (
        DownloadProgressPayload,
        bool,
    ))
        requires
            old(self).well_formed(),
            spec_can_record(old(self)@),
        ensures
            final(self).well_formed(),
            final(self)@.done == old(self)@.done + 1,
            r.0.book_id == old(self)@.book_id,
            r.0.downloaded_pages == old(self)@.base + old(self)@.done + 1,
            r.0.total_page == old(self)@.total_page,
            r.0.total_images == total_images,
            r.0.downloaded_images == downloaded_images,
            r.1 == (progress_spec(r.0.downloaded_pages, old(self)@.total_page) >= old(self)@.last_pct
                + 10),
            final(self)@.last_pct == (if r.1 {
                progress_spec(r.0.downloaded_pages, old(self)@.total_page) as int
            } else {
                old(self)@.last_pct
            }),
            final(self)@.last_pct >= old(self)@.last_pct,
            final(self)@.book_id == old(self)@.book_id,
            final(self)@.total_page == old(self)@.total_page,
            final(self)@.pending == old(self)@.pending,
            final(self)@.next == old(self)@.next,
            final(self)@.base == old(self)@.base,
            final(self)@.phase == old(self)@.phase,
            final(self)@.queue == old(self)@.queue,
            final(self)@.current == old(self)@.current,
    {
        self.done_in_task = self.done_in_task + 1;
        let downloaded_pages = self.downloaded_base + self.done_in_task;
        let pct = book_progress(downloaded_pages, self.total_page);
        let milestone = pct as i128 >= self.last_progress_pct as i128 + 10;
        if milestone {
            self.last_progress_pct = pct;
        }
        (
            DownloadProgressPayload {
                book_id: self.book_id,
                downloaded_pages,
                total_page: self.total_page,
                total_images,
                downloaded_images,
            },
            milestone,
        )
    }
}

/// A run counts pages cumulatively: it starts from the pages stored before it (the
/// book's page count minus the pages to fetch), so once it has stored every page it was
/// given it reports the whole book, which is 100 percent for a book with pages.
pub proof fn law_run_reports_whole_book(v: DownloadRunView)
    requires
        v.base == v.total_page - v.pending.len(),
        v.done == v.pending.len(),
        i64::MIN <= v.base + v.done <= i64::MAX,
        v.total_page > 0,
    ensures
        v.base + v.done == v.total_page,
        progress_spec((v.base + v.done) as i64, v.total_page) == 100,
{
    crate::db::law_progress_bounded_monotone(v.total_page, v.total_page, v.total_page);
}

/// What the outside world reports to a download loop.
#[derive(Debug, Clone, PartialEq, Eq)]
pub enum LoopEvent {
    /// The book's pause and cancel flags.
    Flags { cancelled: bool, paused: bool },
    /// The page request got no answer.
    RequestFailed,
    /// The HTTP status of the page answer.
    PageStatus(u16),
    /// The answer's body could not be read.
    BodyUnreadable,
    /// The answer parsed as the page API's envelope, or `None` when it did not parse.
    PageAnswer(Option<ApiPageResponse>),
    /// Whether every image of the current page was downloaded.
    PageImages { all_ok: bool },
    /// Whether the current page was stored, and the book's image counts afterwards.
    PageStored { ok: bool, total_images: i64, downloaded_images: i64 },
    /// The last action was carried out.
    Continue,
}

/// What a download loop asks the outside world to do next.
#[derive(Debug, Clone, PartialEq, Eq)]
pub enum LoopAction {
    /// Request this page of the book.
    FetchPage(i64),
    /// Wait this many milliseconds, then report the flags.
    Wait(u64),
    /// The download was cancelled; nothing more is requested.
    Stop,
    /// Tell the front end that the login expired; nothing more is requested.
    EmitSessionExpired,
    /// Read the answer's body and parse it.
    ReadBody,
    /// Record these image URLs of the current page and download the book's images
    /// still waiting.
    DownloadPageImages(Vec<String>),
    /// Store this page as downloaded, then report the book's image counts.
    StorePage(PageItem),
    /// Send this progress event (and whether it reached a new milestone).
    EmitProgress(DownloadProgressPayload, bool),
    /// Download every image still waiting, then continue.
    DownloadRemainingImages,
    /// The download is over.
    Done,
}

/// A loop action as a value.
pub enum LoopActionView {
    FetchPage(i64),
    Wait(u64),
    Stop,
    EmitSessionExpired,
    ReadBody,
    DownloadPageImages(Seq<Seq<char>>),
    StorePage(PageItem),
    EmitProgress(DownloadProgressPayload, bool),
    DownloadRemainingImages,
    Done,
}

/// The value of an action.
pub open spec fn action_view(a: LoopAction) -> LoopActionView {
    match a {
        LoopAction::FetchPage(p) => LoopActionView::FetchPage(p),
        LoopAction::Wait(ms) => LoopActionView::Wait(ms),
        LoopAction::Stop => LoopActionView::Stop,
        LoopAction::EmitSessionExpired => LoopActionView::EmitSessionExpired,
        LoopAction::ReadBody => LoopActionView::ReadBody,
        LoopAction::DownloadPageImages(u) => LoopActionView::DownloadPageImages(views(u@)),
        LoopAction::StorePage(p) => LoopActionView::StorePage(p),
        LoopAction::EmitProgress(p, m) => LoopActionView::EmitProgress(p, m),
        LoopAction::DownloadRemainingImages => LoopActionView::DownloadRemainingImages,
        LoopAction::Done => LoopActionView::Done,
    }
}

/// `v` in phase `phase`.
pub open spec fn in_phase(v: DownloadRunView, phase: LoopPhase) -> DownloadRunView {
    DownloadRunView { phase, ..v }
}

/// The next fetched page to handle: download its images first; with none left, wait
/// briefly before the next page.
pub open spec fn next_item_spec(v: DownloadRunView) -> (DownloadRunView, LoopActionView) {
    if v.queue.len() > 0 {
        (
            DownloadRunView {
                phase: LoopPhase::AwaitImages,
                queue: v.queue.skip(1),
                current: Some(v.queue[0]),
                ..v
            },
            LoopActionView::DownloadPageImages(image_urls_spec(v.queue[0].content@)),
        )
    } else {
        (DownloadRunView { phase: LoopPhase::Gate, current: None, ..v }, LoopActionView::Wait(100))
    }
}

/// The progress event after one more stored page, and the run afterwards.
pub open spec fn progress_step_spec(v: DownloadRunView, total_images: i64, downloaded_images: i64) -> (
    DownloadRunView,
    LoopActionView,
) {
    let d = (v.base + v.done + 1) as i64;
    let pct = progress_spec(d, v.total_page);
    let milestone = pct >= v.last_pct + 10;
    (
        DownloadRunView {
            done: v.done + 1,
            last_pct: if milestone { pct as int } else { v.last_pct },
            phase: LoopPhase::AfterProgress,
            ..v
        },
        LoopActionView::EmitProgress(
            DownloadProgressPayload {
                book_id: v.book_id,
                downloaded_pages: d,
                total_page: v.total_page,
                total_images,
                downloaded_images,
            },
            milestone,
        ),
    )
}

/// One step of a download loop: the run after the event, and what to do next. An event
/// the phase does not expect ends the download.
pub open spec fn step_spec(v: DownloadRunView, ev: LoopEvent) -> (DownloadRunView, LoopActionView) {
    let stop = (in_phase(v, LoopPhase::Ended), LoopActionView::Stop);
    match v.phase {
        LoopPhase::Ended => (v, LoopActionView::Done),
        LoopPhase::Gate => match ev {
            LoopEvent::Flags { cancelled, paused } => if cancelled {
                stop
            } else if paused {
                (v, LoopActionView::Wait(500))
            } else if v.next < v.pending.len() {
                (
                    DownloadRunView { next: v.next + 1, phase: LoopPhase::AwaitStatus, ..v },
                    LoopActionView::FetchPage(v.pending[v.next as int]),
                )
            } else {
                (in_phase(v, LoopPhase::Remaining), LoopActionView::DownloadRemainingImages)
            },
            _ => stop,
        },
        LoopPhase::AwaitStatus => match ev {
            LoopEvent::PageStatus(st) => if st == 401 || st == 403 {
                (in_phase(v, LoopPhase::Ended), LoopActionView::EmitSessionExpired)
            } else if 200 <= st <= 299 {
                (in_phase(v, LoopPhase::AwaitBody), LoopActionView::ReadBody)
            } else {
                (in_phase(v, LoopPhase::Gate), LoopActionView::Wait(1000))
            },
            LoopEvent::RequestFailed => (in_phase(v, LoopPhase::Gate), LoopActionView::Wait(1100)),
            _ => stop,
        },
        LoopPhase::AwaitBody => match ev {
            LoopEvent::BodyUnreadable => (in_phase(v, LoopPhase::Gate), LoopActionView::Wait(1000)),
            LoopEvent::PageAnswer(None) => (in_phase(v, LoopPhase::Gate), LoopActionView::Wait(100)),
            LoopEvent::PageAnswer(Some(r)) => if r.code == 100 {
                (in_phase(v, LoopPhase::Ended), LoopActionView::EmitSessionExpired)
            } else if r.code == 0 && r.data is Some {
                next_item_spec(DownloadRunView { queue: r.data->0@, ..v })
            } else {
                (in_phase(v, LoopPhase::Gate), LoopActionView::Wait(100))
            },
            _ => stop,
        },
        LoopPhase::AwaitImages => match ev {
            LoopEvent::PageImages { all_ok } => if all_ok && v.current is Some {
                (
                    DownloadRunView { phase: LoopPhase::AwaitStored, current: None, ..v },
                    LoopActionView::StorePage(v.current->0),
                )
            } else {
                next_item_spec(DownloadRunView { current: None, ..v })
            },
            _ => stop,
        },
        LoopPhase::AwaitStored => match ev {
            LoopEvent::PageStored { ok, total_images, downloaded_images } => if !ok {
                next_item_spec(v)
            } else if spec_can_record(v) {
                progress_step_spec(v, total_images, downloaded_images)
            } else {
                stop
            },
            _ => stop,
        },
        LoopPhase::AfterProgress => match ev {
            LoopEvent::Continue => next_item_spec(v),
            _ => stop,
        },
        LoopPhase::Remaining => match ev {
            LoopEvent::Continue => (in_phase(v, LoopPhase::Ended), LoopActionView::Done),
            _ => stop,
        },
    }
}

impl DownloadRun {
    fn stop_run(&mut self) -> (a: LoopAction)
        requires
            old(self).well_formed(),
        ensures
            final(self).well_formed(),
            final(self)@ == in_phase(old(self)@, LoopPhase::Ended),
            action_view(a) == LoopActionView::Stop,
    {
        self.phase = LoopPhase::Ended;
        LoopAction::Stop
    }

    fn next_item(&mut self) -> (a: LoopAction)
        requires
            old(self).well_formed(),
        ensures
            final(self).well_formed(),
            (final(self)@, action_view(a)) == next_item_spec(old(self)@),
    {
        let ghost old_stack = self.stack@;
        match self.stack.pop() {
            Some(it) => {
                assert(old_stack.reverse()[0] == it);
                assert(self.stack@.reverse() =~= old_stack.reverse().skip(1));
                let urls = extract_image_urls(it.content.as_str());
                self.current = Some(it);
                self.phase = LoopPhase::AwaitImages;
                LoopAction::DownloadPageImages(urls)
            },
            None => {
                assert(old_stack.reverse().len() == 0);
                self.current = None;
                self.phase = LoopPhase::Gate;
                LoopAction::Wait(100)
            },
        }
    }

    /// The pages of an answer, to be handled first to last.
    fn queue_pages(&mut self, items: Vec<PageItem>)
        requires
            old(self).well_formed(),
        ensures
            final(self).well_formed(),
            final(self)@ == (DownloadRunView { queue: items@, ..old(self)@ }),
    {
        let ghost orig = items@;
        let mut items = items;
        let mut stack: Vec<PageItem> = Vec::new();
        assert(orig.skip(orig.len() as int).reverse() =~= stack@);
        while items.len() > 0
            invariant
                items@ == orig.take(items@.len() as int),
                items@.len() <= orig.len(),
                stack@ == orig.skip(items@.len() as int).reverse(),
            decreases items@.len(),
        {
            let ghost k = items@.len();
            let x = items.pop().unwrap();
            stack.push(x);
            assert(items@ =~= orig.take(k - 1));
            assert(stack@ =~= orig.skip(k - 1).reverse());
        }
        assert(orig.skip(0) =~= orig);
        assert(stack@.reverse() =~= orig);
        self.stack = stack;
    }

    /// One step of the download loop: takes what the outside world reports and returns
    /// what to do next. A cancelled download stops and requests nothing more; an expired
    /// login (HTTP 401 or 403, or API code 100) is reported once and ends the download; a
    /// page is stored only after all its images were downloaded; each stored page
    /// sends the progress `record_saved_page` computes; once every page was handled the
    /// images still waiting are downloaded and the download is done.
    pub fn download_step(&mut self, ev: LoopEvent) -> (a: LoopAction)
        requires
            old(self).well_formed(),
        ensures
            final(self).well_formed(),
            (final(self)@, action_view(a)) == step_spec(old(self)@, ev),
    {
        match self.phase {
            LoopPhase::Ended => LoopAction::Done,
            LoopPhase::Gate => match ev {
                LoopEvent::Flags { cancelled, paused } => {
                    if cancelled {
                        self.stop_run()
                    } else if paused {
                        LoopAction::Wait(500)
                    } else {
                        match self.next_page() {
                            Some(p) => {
                                self.phase = LoopPhase::AwaitStatus;
                                LoopAction::FetchPage(p)
                            },
                            None => {
                                self.phase = LoopPhase::Remaining;
                                LoopAction::DownloadRemainingImages
                            },
                        }
                    }
                },
                _ => self.stop_run(),
            },
            LoopPhase::AwaitStatus => match ev {
                LoopEvent::PageStatus(st) => match classify_page_status(st) {
                    StatusAction::SessionExpired => {
                        self.phase = LoopPhase::Ended;
                        LoopAction::EmitSessionExpired
                    },
                    StatusAction::ReadBody => {
                        self.phase = LoopPhase::AwaitBody;
                        LoopAction::ReadBody
                    },
                    StatusAction::SkipPage => {
                        self.phase = LoopPhase::Gate;
                        LoopAction::Wait(1000)
                    },
                },
                LoopEvent::RequestFailed => {
                    self.phase = LoopPhase::Gate;
                    LoopAction::Wait(1100)
                },
                _ => self.stop_run(),
            },
            LoopPhase::AwaitBody => match ev {
                LoopEvent::BodyUnreadable => {
                    self.phase = LoopPhase::Gate;
                    LoopAction::Wait(1000)
                },
                LoopEvent::PageAnswer(None) => {
                    self.phase = LoopPhase::Gate;
                    LoopAction::Wait(100)
                },
                LoopEvent::PageAnswer(Some(r)) => match classify_page_api(r) {
                    ApiAction::SessionExpired => {
                        self.phase = LoopPhase::Ended;
                        LoopAction::EmitSessionExpired
                    },
                    ApiAction::SavePages(items) => {
                        self.queue_pages(items);
                        self.next_item()
                    },
                    _ => {
                        self.phase = LoopPhase::Gate;
                        LoopAction::Wait(100)
                    },
                },
                _ => self.stop_run(),
            },
            LoopPhase::AwaitImages => match ev {
                LoopEvent::PageImages { all_ok } => {
                    if all_ok && self.current.is_some() {
                        let it = self.current.take().unwrap();
                        self.phase = LoopPhase::AwaitStored;
                        LoopAction::StorePage(it)
                    } else {
                        self.current = None;
                        self.next_item()
                    }
                },
                _ => self.stop_run(),
            },
            LoopPhase::AwaitStored => match ev {
                LoopEvent::PageStored { ok, total_images, downloaded_images } => {
                    if !ok {
                        self.next_item()
                    } else if self.can_record_page() {
                        let (payload, milestone) = self.record_saved_page(total_images, downloaded_images);
                        self.phase = LoopPhase::AfterProgress;
                        LoopAction::EmitProgress(payload, milestone)
                    } else {
                        self.stop_run()
                    }
                },
                _ => self.stop_run(),
            },
            LoopPhase::AfterProgress => match ev {
                LoopEvent::Continue => self.next_item(),
                _ => self.stop_run(),
            },
            LoopPhase::Remaining => match ev {
                LoopEvent::Continue => {
                    self.phase = LoopPhase::Ended;
                    LoopAction::Done
                },
                _ => self.stop_run(),
            },
        }
    }
}

/// A cancelled download stops and, once over, a download requests nothing more: every
/// later step answers `Done` and changes nothing.
pub proof fn law_cancel_ends_download(v: DownloadRunView, paused: bool, ev: LoopEvent)
    ensures
        v.phase == LoopPhase::Gate ==> step_spec(v, (LoopEvent::Flags { cancelled: true, paused }))
            == (in_phase(v, LoopPhase::Ended), LoopActionView::Stop),
        v.phase == LoopPhase::Ended ==> step_spec(v, ev) == (v, LoopActionView::Done),
{
}

/// An expired login (HTTP 401 or 403, or API code 100) is reported and ends the
/// download; only an expired login is reported.
pub proof fn law_session_expiry_ends_download(v: DownloadRunView, ev: LoopEvent)
    ensures
        v.phase == LoopPhase::AwaitStatus && (ev == LoopEvent::PageStatus(401) || ev
            == LoopEvent::PageStatus(403)) ==> step_spec(v, ev) == (
            in_phase(v, LoopPhase::Ended),
            LoopActionView::EmitSessionExpired,
        ),
        v.phase == LoopPhase::AwaitBody ==> (ev matches LoopEvent::PageAnswer(Some(r)) && r.code == 100
            ==> step_spec(v, ev) == (in_phase(v, LoopPhase::Ended), LoopActionView::EmitSessionExpired)),
        step_spec(v, ev).1 == LoopActionView::EmitSessionExpired ==> step_spec(v, ev).0.phase
            == LoopPhase::Ended,
{
}

/// Requests follow the flags: a page is fetched only right after flags that are neither
/// cancelled nor paused, and it is the next pending page.
pub proof fn law_fetch_only_when_running(v: DownloadRunView, ev: LoopEvent)
    ensures
        step_spec(v, ev).1 matches LoopActionView::FetchPage(p) ==> v.phase == LoopPhase::Gate
            && ev == (LoopEvent::Flags { cancelled: false, paused: false }) && v.next < v.pending.len()
            && p == v.pending[v.next as int] && step_spec(v, ev).0.next == v.next + 1,
{
}

/// A page request that gets no answer does not end the download: after a pause of 1.1 s
/// (1 s, then the loop's 100 ms) it waits for the flags again, with the same pages to fetch
/// and the same position, so the next flags that are neither cancelled nor paused fetch
/// the next pending page (or, with none left, start the pass over the images still
/// waiting).
pub proof fn law_request_failure_goes_on(v: DownloadRunView)
    requires
        v.phase == LoopPhase::AwaitStatus,
    ensures
        step_spec(v, LoopEvent::RequestFailed).1 == LoopActionView::Wait(1100),
        step_spec(v, LoopEvent::RequestFailed).0.phase == LoopPhase::Gate,
        step_spec(v, LoopEvent::RequestFailed).0.pending == v.pending,
        step_spec(v, LoopEvent::RequestFailed).0.next == v.next,
        step_spec(v, LoopEvent::RequestFailed).0.done == v.done,
        step_spec(v, LoopEvent::RequestFailed).0.book_id == v.book_id,
        v.next < v.pending.len() ==> step_spec(
            step_spec(v, LoopEvent::RequestFailed).0,
            (LoopEvent::Flags { cancelled: false, paused: false }),
        ).1 == LoopActionView::FetchPage(v.pending[v.next as int]),
        v.next >= v.pending.len() ==> step_spec(
            step_spec(v, LoopEvent::RequestFailed).0,
            (LoopEvent::Flags { cancelled: false, paused: false }),
        ).1 == LoopActionView::DownloadRemainingImages,
{
}

/// After a skipped page: waiting for the flags, with pages, position and count unchanged.
pub open spec fn skipped_to_gate(v: DownloadRunView, w: DownloadRunView) -> bool {
    &&& w.phase == LoopPhase::Gate
    &&& w.book_id == v.book_id
    &&& w.pending == v.pending
    &&& w.next == v.next
    &&& w.done == v.done
    &&& (v.next < v.pending.len() ==> step_spec(w, (LoopEvent::Flags { cancelled: false, paused: false })).1
        == LoopActionView::FetchPage(v.pending[v.next as int]))
}

/// A page answered with an HTTP error other than an expired login (neither 2xx, 401 nor
/// 403) or whose body cannot be read is skipped after 1 s; one whose body does not parse,
/// or whose API code is an error other than an expired login (neither 0 with data nor
/// 100), is skipped after 100 ms. Either way the run waits for the flags again with the same
/// pages to fetch and the same position, and the next uncancelled, unpaused flags fetch
/// the next pending page.
pub proof fn law_failed_page_is_skipped(v: DownloadRunView, status: u16, answer: ApiPageResponse)
    requires
        v.phase == LoopPhase::AwaitStatus || v.phase == LoopPhase::AwaitBody,
    ensures
        v.phase == LoopPhase::AwaitStatus && !(200 <= status <= 299) && status != 401 && status != 403
            ==> step_spec(v, LoopEvent::PageStatus(status)).1 == LoopActionView::Wait(1000)
            && skipped_to_gate(v, step_spec(v, LoopEvent::PageStatus(status)).0),
        v.phase == LoopPhase::AwaitBody ==> step_spec(v, LoopEvent::BodyUnreadable).1
            == LoopActionView::Wait(1000) && skipped_to_gate(v, step_spec(v, LoopEvent::BodyUnreadable).0),
        v.phase == LoopPhase::AwaitBody ==> step_spec(v, LoopEvent::PageAnswer(None)).1
            == LoopActionView::Wait(100) && skipped_to_gate(v, step_spec(v, LoopEvent::PageAnswer(None)).0),
        v.phase == LoopPhase::AwaitBody && answer.code != 100 && !(answer.code == 0 && answer.data is Some)
            ==> step_spec(v, LoopEvent::PageAnswer(Some(answer))).1 == LoopActionView::Wait(100)
            && skipped_to_gate(v, step_spec(v, LoopEvent::PageAnswer(Some(answer))).0),
{
}

/// Paused flags hold the run where it is: it waits 500 ms and changes nothing, so the
/// page it would fetch next stays the same.
pub proof fn law_pause_holds_the_run(v: DownloadRunView)
    requires
        v.phase == LoopPhase::Gate,
    ensures
        step_spec(v, (LoopEvent::Flags { cancelled: false, paused: true })) == (v, LoopActionView::Wait(500)),
{
}

/// A page is stored only after every image of it was downloaded, and it is the page whose
/// images were downloaded.
pub proof fn law_store_after_images(v: DownloadRunView, ev: LoopEvent)
    ensures
        step_spec(v, ev).1 matches LoopActionView::StorePage(p) ==> v.phase == LoopPhase::AwaitImages
            && ev == (LoopEvent::PageImages { all_ok: true }) && v.current == Some(p),
{
}

/// A progress event is sent only after a page was stored, and it counts that page: the
/// pages stored before the run plus those the run stored, and the image counts reported.
pub proof fn law_progress_counts_stored_pages(v: DownloadRunView, ev: LoopEvent)
    ensures
        step_spec(v, ev).1 matches LoopActionView::EmitProgress(p, _) ==> {
            &&& v.phase == LoopPhase::AwaitStored
            &&& ev is PageStored
            &&& ev->ok
            &&& p.total_images == ev->total_images
            &&& p.downloaded_images == ev->downloaded_images
            &&& p.book_id == v.book_id && p.total_page == v.total_page
            &&& p.downloaded_pages == v.base + v.done + 1
            &&& step_spec(v, ev).0.done == v.done + 1
        },
{
}

/// The pages of one answer are handled in the order given: the first page's images are
/// downloaded first; once they all are, the first page is stored, its progress sent, and
/// then the second page's images are downloaded. A first page whose images could not all
/// be downloaded is not stored, and the second page comes next.
pub proof fn law_pages_handled_in_order(
    v: DownloadRunView,
    r: ApiPageResponse,
    total_images: i64,
    downloaded_images: i64,
)
    requires
        v.phase == LoopPhase::AwaitBody,
        r.code == 0,
        r.data is Some,
        r.data->0@.len() >= 2,
        spec_can_record(v),
    ensures
        ({
            let items = r.data->0@;
            let s1 = step_spec(v, LoopEvent::PageAnswer(Some(r)));
            let s2 = step_spec(s1.0, LoopEvent::PageImages { all_ok: true });
            let s3 = step_spec(
                s2.0,
                LoopEvent::PageStored { ok: true, total_images, downloaded_images },
            );
            let s4 = step_spec(s3.0, LoopEvent::Continue);
            let f2 = step_spec(s1.0, LoopEvent::PageImages { all_ok: false });
            &&& s1.1 == LoopActionView::DownloadPageImages(image_urls_spec(items[0].content@))
            &&& s2.1 == LoopActionView::StorePage(items[0])
            &&& s3.1 is EmitProgress
            &&& s4.1 == LoopActionView::DownloadPageImages(image_urls_spec(items[1].content@))
            &&& s4.0.current == Some(items[1])
            &&& f2.1 == LoopActionView::DownloadPageImages(image_urls_spec(items[1].content@))
            &&& f2.0.current == Some(items[1])
            &&& f2.0.done == v.done
        }),
{
    let items = r.data->0@;
    assert(items.skip(1)[0] == items[1]);
}

/// Progress milestones come in steps of at least ten percent: a progress event is marked
/// as a milestone exactly when the book's percentage after the stored page is at least
/// ten above the last milestone, which then becomes that percentage; otherwise the last
/// milestone stays. The milestone never goes down and never passes 100.
pub proof fn law_milestones_every_ten_percent(v: DownloadRunView, ev: LoopEvent)
    ensures
        step_spec(v, ev).1 matches LoopActionView::EmitProgress(p, m) ==> {
            let pct = progress_spec(p.downloaded_pages, p.total_page) as int;
            &&& m <==> pct >= v.last_pct + 10
            &&& step_spec(v, ev).0.last_pct == (if m { pct } else { v.last_pct })
            &&& v.last_pct <= step_spec(v, ev).0.last_pct
            &&& v.last_pct <= 100 ==> step_spec(v, ev).0.last_pct <= 100
        },
{
    if step_spec(v, ev).1 is EmitProgress {
        let d = (v.base + v.done + 1) as i64;
        crate::db::law_progress_bounded_monotone(d, d, v.total_page);
    }
}

/// How a download request ends up.
#[derive(Debug, Clone, Copy, PartialEq, Eq)]
pub enum StartOutcome {
    /// Every page is stored: send this progress event and start nothing.
    AllDownloaded(DownloadProgressPayload),
    /// The book is downloading already.
    AlreadyRunning,
    /// A download was registered; the loop may start.
    Started,
}

/// Decides a download request once the pages still to fetch are known: nothing to fetch
/// means the book is complete; a book already downloading is left alone; otherwise a
/// fresh download is registered. Only a started download reports success.
pub fn start_book_download(
    manager: &mut DownloadManager,
    book_id: i64,
    total_page: i64,
    pending_count: usize,
) -> (r: (StartOutcome, DownloadResult))
    ensures
        r.1.book_id == book_id,
        r.1.success == (r.0 == StartOutcome::Started),
        pending_count == 0 ==> r.0 == StartOutcome::AllDownloaded(
            DownloadProgressPayload {
                book_id,
                downloaded_pages: total_page,
                total_page,
                total_images: 0,
                downloaded_images: 0,
            },
        ) && final(manager)@ == old(manager)@,
        pending_count > 0 && old(manager)@.contains_key(book_id) ==> r.0
            == StartOutcome::AlreadyRunning && final(manager)@ == old(manager)@,
        pending_count > 0 && !old(manager)@.contains_key(book_id) ==> r.0 == StartOutcome::Started
            && final(manager)@ == spec_register(old(manager)@, book_id),
{
    if pending_count == 0 {
        let payload = DownloadProgressPayload {
            book_id,
            downloaded_pages: total_page,
            total_page,
            total_images: 0,
            downloaded_images: 0,
        };
        return (StartOutcome::AllDownloaded(payload), DownloadResult { success: false, book_id });
    }
    if manager.register_task(book_id) {
        (StartOutcome::Started, DownloadResult { success: true, book_id })
    } else {
        (StartOutcome::AlreadyRunning, DownloadResult { success: false, book_id })
    }
}

} // verus!

verus! {

fn err_text(e: rusqlite::Error) -> String {
    sql_error_text(&e)
}

/// `pages` after adding a waiting row for each page `1..=total_page` of book `b` that has
/// none; rows already there are kept.
pub open spec fn with_placeholders(pages: Map<(i64, i64), PageRow>, b: i64, total_page: int) -> Map<
    (i64, i64),
    PageRow,
> {
    Map::new(
        |k: (i64, i64)| pages.contains_key(k) || (k.0 == b && 1 <= k.1 <= total_page),
        |k: (i64, i64)| if pages.contains_key(k) { pages[k] } else { placeholder_row() },
    )
}

/// `books` before or after storing book `b` as a new row.
pub open spec fn book_stored_or_not(
    old: Map<i64, BookRow>,
    books: Map<i64, BookRow>,
    b: i64,
    name: Seq<char>,
    total_page: i64,
    cover: Seq<char>,
    big_cover: Seq<char>,
    tag_id: i64,
) -> bool {
    books == old || exists|now: i64|
        books == old.insert(b, #[trigger] new_book_row(name, total_page, cover, big_cover, tag_id, now))
}

/// `pages` holds the waiting rows for the first `j` pages of book `b`, for some `j` up to
/// the book's page count.
pub open spec fn placeholders_done(
    old: Map<(i64, i64), PageRow>,
    pages: Map<(i64, i64), PageRow>,
    b: i64,
    total_page: i64,
) -> bool {
    exists|j: int| 0 <= j && (j <= total_page || j == 0) && pages == #[trigger] with_placeholders(old, b, j)
}

/// `images` holds the first `j` of the given URLs recorded, for some `j`.
pub open spec fn images_recorded_prefix(
    old: Seq<ImageRow>,
    images: Seq<ImageRow>,
    b: i64,
    urls: Seq<Seq<char>>,
    paths: Seq<Seq<char>>,
) -> bool {
    exists|now: i64, j: int|
        0 <= j <= urls.len() && images == #[trigger] insert_images(old, b, urls.take(j), paths.take(j), now)
}

/// Stores the book (replacing an earlier row for it, created now), adds a waiting row for
/// each of its pages `1..=total_page` that has none (rows already stored keep their
/// content), records its cover images for download (the `i`-th cover URL under the
/// `i`-th path; images recorded already keep their rows) and returns the pages still
/// waiting, by page number. On an error the statements run before it have taken effect:
/// each table is as before or partly or wholly updated, and the contents are untouched.
pub fn register_book_download(
    store: &mut BookStore,
    book_id: i64,
    book_name: &str,
    total_page: i64,
    cover_pic: &str,
    big_cover_pic: &str,
    tag_id: i64,
    cover_local_paths: &[String],
) -> (r: Result<Vec<i64>, String>)
    requires
        is_book_store(*old(store)),
        cover_local_paths@.len() == cover_urls_spec(cover_pic@, big_cover_pic@).len(),
    ensures
        is_book_store(*final(store)),
        store_contents(*final(store)) == store_contents(*old(store)),
        book_stored_or_not(
            store_books(*old(store)),
            store_books(*final(store)),
            book_id,
            book_name@,
            total_page,
            cover_pic@,
            big_cover_pic@,
            tag_id,
        ),
        placeholders_done(store_pages(*old(store)), store_pages(*final(store)), book_id, total_page),
        images_recorded_prefix(
            store_images(*old(store)),
            store_images(*final(store)),
            book_id,
            cover_urls_spec(cover_pic@, big_cover_pic@),
            views(cover_local_paths@),
        ),
        r matches Ok(pending) ==> {
            &&& exists|now: i64|
                store_books(*final(store)) == store_books(*old(store)).insert(
                    book_id,
                    #[trigger] new_book_row(book_name@, total_page, cover_pic@, big_cover_pic@, tag_id, now),
                )
            &&& store_pages(*final(store)) == with_placeholders(store_pages(*old(store)), book_id, total_page as int)
            &&& exists|now: i64|
                store_images(*final(store)) == #[trigger] insert_images(
                    store_images(*old(store)),
                    book_id,
                    cover_urls_spec(cover_pic@, big_cover_pic@),
                    views(cover_local_paths@),
                    now,
                )
            &&& is_pending_list(store_pages(*final(store)), book_id, pending@)
        },
{
    let ghost books0 = store_books(*old(store));
    let ghost pages0 = store_pages(*old(store));
    let ghost images0 = store_images(*old(store));
    let ghost urls_spec = cover_urls_spec(cover_pic@, big_cover_pic@);
    let ghost paths_spec = views(cover_local_paths@);
    assert(with_placeholders(pages0, book_id, 0) =~= pages0);
    assert(urls_spec.take(0).len() == 0);
    assert(insert_images(images0, book_id, urls_spec.take(0), paths_spec.take(0), 0) == images0);
    let now = unix_now();
    if let Err(e) = store.insert_book(book_id, book_name, total_page, cover_pic, big_cover_pic, tag_id, now) {
        return Err(err_text(e));
    }
    assert(store_books(*store) == books0.insert(
        book_id,
        new_book_row(book_name@, total_page, cover_pic@, big_cover_pic@, tag_id, now),
    ));
    let ghost books1 = store_books(*store);
    let mut i: i64 = 1;
    if total_page >= 1 {
        loop
            invariant_except_break
                store_pages(*store) == with_placeholders(pages0, book_id, i - 1),
            invariant
                1 <= i <= total_page,
                store_schema(*store) == store_schema(*old(store)),
                is_book_store(*old(store)),
                store_books(*store) == books1,
                books1 == books0.insert(
                    book_id,
                    new_book_row(book_name@, total_page, cover_pic@, big_cover_pic@, tag_id, now),
                ),
                store_contents(*store) == store_contents(*old(store)),
                store_images(*store) == images0,
                images0 == store_images(*old(store)),
                pages0 == store_pages(*old(store)),
                books0 == store_books(*old(store)),
                urls_spec == cover_urls_spec(cover_pic@, big_cover_pic@),
                paths_spec == views(cover_local_paths@),
                insert_images(images0, book_id, urls_spec.take(0), paths_spec.take(0), 0) == images0,
            ensures
                store_pages(*store) == with_placeholders(pages0, book_id, total_page as int),
            decreases total_page - i,
        {
            if let Err(e) = store.insert_placeholder(book_id, i, now) {
                assert(store_pages(*store) == with_placeholders(pages0, book_id, (i - 1) as int));
                return Err(err_text(e));
            }
            assert(store_pages(*store) =~= with_placeholders(pages0, book_id, i as int));
            if i == total_page {
                break;
            }
            i = i + 1;
        }
    } else {
        assert(with_placeholders(pages0, book_id, total_page as int) =~= pages0);
    }
    assert(store_pages(*store) == with_placeholders(pages0, book_id, total_page as int));
    let cover_urls = build_cover_urls(cover_pic, big_cover_pic);
    assert(views(cover_urls@) == urls_spec);
    if cover_urls.len() > 0 {
        batch_insert_image_records(store, book_id, &cover_urls, cover_local_paths)?;
    } else {
        assert(urls_spec.len() == 0);
        assert(insert_images(images0, book_id, urls_spec, paths_spec, 0) == images0);
    }
    let ghost now2 = choose|n: i64| store_images(*store) == #[trigger] insert_images(images0, book_id, urls_spec, paths_spec, n);
    assert(urls_spec.take(urls_spec.len() as int) =~= urls_spec);
    assert(paths_spec.take(urls_spec.len() as int) =~= paths_spec);
    assert(store_images(*store) == insert_images(
        images0,
        book_id,
        urls_spec.take(urls_spec.len() as int),
        paths_spec.take(urls_spec.len() as int),
        now2,
    ));
    match store.select_pending_pages(book_id) {
        Ok(pending) => Ok(pending),
        Err(e) => Err(err_text(e)),
    }
}

/// The book's images still waiting for download, in the order they were recorded.
pub fn get_pending_urls_from_db(store: &BookStore, book_id: i64) -> (r: Result<Vec<String>, String>)
    requires
        is_book_store(*store),
    ensures
        r matches Ok(v) ==> views(v@) == pending_image_urls(store_images(*store), book_id),
{
    match store.select_pending_image_urls(book_id) {
        Ok(v) => Ok(v),
        Err(e) => Err(err_text(e)),
    }
}

/// The number of the book's recorded images and of those downloaded.
pub fn get_image_stats(store: &BookStore, book_id: i64) -> (r: Result<(i64, i64), String>)
    requires
        is_book_store(*store),
    ensures
        r matches Ok((total, done)) ==> (total as int, done as int) == image_counts(
            store_images(*store),
            book_id,
        ),
{
    match store.count_images(book_id) {
        Ok(c) => Ok(c),
        Err(e) => Err(err_text(e)),
    }
}

/// `contents` after storing each entry of book `b` in order (an entry replaces one with
/// the same start page).
pub open spec fn insert_contents(
    contents: Map<(i64, i64), ContentsRow>,
    b: i64,
    items: Seq<ContentsItem>,
) -> Map<(i64, i64), ContentsRow>
    decreases items.len(),
{
    if items.len() == 0 {
        contents
    } else {
        insert_contents(contents, b, items.drop_last()).insert(
            (b, items.last().start_page),
            ContentsRow { level: items.last().level, label: items.last().label@ },
        )
    }
}

/// `p` is the start page of one of the entries.
pub open spec fn is_start_page_of(p: i64, items: Seq<ContentsItem>) -> bool {
    exists|j: int| 0 <= j < items.len() && #[trigger] items[j].start_page == p
}

/// Only the given entries' rows of book `b` may differ between `old` and `new`; every
/// other contents row is kept.
pub open spec fn contents_kept_outside(
    old: Map<(i64, i64), ContentsRow>,
    new: Map<(i64, i64), ContentsRow>,
    b: i64,
    items: Seq<ContentsItem>,
) -> bool {
    forall|k: (i64, i64)|
        #![trigger new.contains_key(k)]
        #![trigger old.contains_key(k)]
        !(k.0 == b && is_start_page_of(k.1, items)) ==> new.contains_key(k) == old.contains_key(k) && (
        old.contains_key(k) ==> new[k] == old[k])
}

/// Stores the book's table of contents, replacing entries with the same start page.
/// Returns the start pages of the entries that could not be stored; when there are
/// none, every entry is stored.
pub fn save_contents_to_db(store: &mut BookStore, book_id: i64, items: &[ContentsItem]) -> (failed:
    Vec<i64>)
    requires
        is_book_store(*old(store)),
    ensures
        is_book_store(*final(store)),
        failed@.len() <= items@.len(),
        forall|k: int| 0 <= k < failed@.len() ==> is_start_page_of(#[trigger] failed@[k], items@),
        failed@.len() == 0 ==> store_contents(*final(store)) == insert_contents(
            store_contents(*old(store)),
            book_id,
            items@,
        ),
        contents_kept_outside(store_contents(*old(store)), store_contents(*final(store)), book_id, items@),
        same_except_contents(*final(store), *old(store)),
{
    let mut failed: Vec<i64> = Vec::new();
    let mut i: usize = 0;
    while i < items.len()
        invariant
            i <= items@.len(),
            failed@.len() <= i,
            forall|k: int| 0 <= k < failed@.len() ==> is_start_page_of(#[trigger] failed@[k], items@),
            failed@.len() == 0 ==> store_contents(*store) == insert_contents(
                store_contents(*old(store)),
                book_id,
                items@.take(i as int),
            ),
            same_except_contents(*store, *old(store)),
            store_schema(*store) == store_schema(*old(store)),
            is_book_store(*old(store)),
            contents_kept_outside(store_contents(*old(store)), store_contents(*store), book_id, items@),
        decreases items@.len() - i,
    {
        let item = &items[i];
        assert(items@.take(i + 1).drop_last() =~= items@.take(i as int));
        assert(items@[i as int].start_page == item.start_page);
        assert(is_start_page_of(item.start_page, items@));
        match store.save_contents_item(book_id, item.level, item.start_page, item.label.as_str()) {
            Ok(_) => {},
            Err(_) => {
                assert(items@[i as int].start_page == item.start_page);
                failed.push(item.start_page);
            },
        }
        i = i + 1;
    }
    assert(items@.take(items@.len() as int) =~= items@);
    failed
}

/// Storing a table of contents keeps each entry as it was given: the row of book `b` at
/// an entry's start page holds that entry's level and label, for the last entry with
/// that start page.
pub proof fn law_contents_saved_as_given(
    contents: Map<(i64, i64), ContentsRow>,
    b: i64,
    items: Seq<ContentsItem>,
    i: int,
)
    requires
        0 <= i < items.len(),
        forall|j: int| i < j < items.len() ==> #[trigger] items[j].start_page != items[i].start_page,
    ensures
        insert_contents(contents, b, items).contains_key((b, items[i].start_page)),
        insert_contents(contents, b, items)[(b, items[i].start_page)].level == items[i].level,
        insert_contents(contents, b, items)[(b, items[i].start_page)].label == items[i].label@,
    decreases items.len(),
{
    if i < items.len() - 1 {
        let rest = items.drop_last();
        assert forall|j: int| i < j < rest.len() implies #[trigger] rest[j].start_page
            != rest[i].start_page by {
            assert(rest[j] == items[j]);
        }
        law_contents_saved_as_given(contents, b, rest, i);
        assert(items.last() == items[items.len() - 1]);
    }
}

/// A table of contents stored without failures reads back with every entry as it was
/// given: for each entry (the last one with its start page) the listing of book `b`
/// holds an entry with the same start page, level and label.
pub proof fn law_saved_contents_read_back(
    contents: Map<(i64, i64), ContentsRow>,
    b: i64,
    items: Seq<ContentsItem>,
    listed: Seq<ContentsItem>,
    i: int,
)
    requires
        0 <= i < items.len(),
        forall|j: int| i < j < items.len() ==> #[trigger] items[j].start_page != items[i].start_page,
        is_contents_list(insert_contents(contents, b, items), b, listed),
    ensures
        exists|k: int|
            0 <= k < listed.len() && #[trigger] listed[k].start_page == items[i].start_page
                && listed[k].level == items[i].level && listed[k].label@ == items[i].label@,
{
    law_contents_saved_as_given(contents, b, items, i);
    let m = insert_contents(contents, b, items);
    assert(m.contains_key((b, items[i].start_page)));
    let k = choose|k: int| 0 <= k < listed.len() && listed[k].start_page == items[i].start_page;
    assert(m[(b, listed[k].start_page)] == (ContentsRow { level: listed[k].level, label: listed[k].label@ }));
}

/// Stores a fetched page with its content, marked as downloaded; `false` when the store
/// refuses it (then nothing changes).
pub fn save_page_to_db(store: &mut BookStore, book_id: i64, item: &PageItem) -> (ok: bool)
    requires
        is_book_store(*old(store)),
    ensures
        is_book_store(*final(store)),
        ok ==> store_pages(*final(store)) == store_pages(*old(store)).insert(
            (book_id, item.page),
            downloaded_row(item.content@, item.title@, item.top_chapter),
        ),
        !ok ==> same_tables(*final(store), *old(store)),
        same_except_pages(*final(store), *old(store)),
{
    let now = unix_now();
    match store.save_page(book_id, item.page, item.content.as_str(), item.title.as_str(), item.top_chapter, now) {
        Ok(_) => true,
        Err(_) => false,
    }
}

/// Records the images a page refers to for download (the `i`-th URL stored under the
/// `i`-th path; images recorded already are left as they are); `false` when the store
/// refuses one.
pub fn record_image_urls(
    store: &mut BookStore,
    book_id: i64,
    urls: &[String],
    local_paths: &[String],
) -> (ok: bool)
    requires
        is_book_store(*old(store)),
        urls@.len() == local_paths@.len(),
    ensures
        is_book_store(*final(store)),
        ok ==> exists|now: i64|
            store_images(*final(store)) == #[trigger] insert_images(
                store_images(*old(store)),
                book_id,
                views(urls@),
                views(local_paths@),
                now,
            ),
        images_recorded_prefix(
            store_images(*old(store)),
            store_images(*final(store)),
            book_id,
            views(urls@),
            views(local_paths@),
        ),
        same_except_images(*final(store), *old(store)),
{
    match batch_insert_image_records(store, book_id, urls, local_paths) {
        Ok(()) => true,
        Err(_) => false,
    }
}

/// Marks a downloaded image as stored at `local_path`; `false` when the store refuses
/// (then nothing changes).
pub fn mark_image_done(store: &mut BookStore, book_id: i64, image_url: &str, local_path: &str) -> (ok:
    bool)
    requires
        is_book_store(*old(store)),
    ensures
        is_book_store(*final(store)),
        ok ==> exists|now: i64|
            store_images(*final(store)) == #[trigger] mark_image(
                store_images(*old(store)),
                book_id,
                image_url@,
                local_path@,
                now,
            ),
        !ok ==> same_tables(*final(store), *old(store)),
        same_except_images(*final(store), *old(store)),
{
    let now = unix_now();
    match store.mark_image(book_id, image_url, local_path, now) {
        Ok(_) => {
            assert(store_images(*store) == mark_image(store_images(*old(store)), book_id, image_url@, local_path@, now));
            true
        },
        Err(_) => false,
    }
}

/// The book's pages still waiting for download, by page number.
pub fn book_get_pending_pages(store: &BookStore, book_id: i64) -> (r: Result<Vec<i64>, String>)
    requires
        is_book_store(*store),
    ensures
        r matches Ok(v) ==> is_pending_list(store_pages(*store), book_id, v@),
{
    match store.select_pending_pages(book_id) {
        Ok(v) => Ok(v),
        Err(e) => Err(err_text(e)),
    }
}

/// Stores a page fetched by the front end, unless the book's download was cancelled
/// (then nothing is stored and no success is reported). On success returns the
/// progress event to send: the pages of the book now stored with content and the given
/// page count.
pub fn book_save_downloaded_page(
    store: &mut BookStore,
    manager: &DownloadManager,
    book_id: i64,
    page_idx: i64,
    total_page: i64,
    content: &str,
    title: &str,
    top_chapter: i64,
) -> (r: Result<(DownloadResult, Option<DownloadProgressPayload>), String>)
    requires
        is_book_store(*old(store)),
    ensures
        is_book_store(*final(store)),
        spec_is_cancelled(manager@, book_id) ==> r == Ok::<
            (DownloadResult, Option<DownloadProgressPayload>),
            String,
        >((DownloadResult { success: false, book_id }, None)) && same_tables(*final(store), *old(store)),
        !spec_is_cancelled(manager@, book_id) ==> (r matches Ok((res, ev)) ==> {
            &&& res == (DownloadResult { success: true, book_id })
            &&& store_pages(*final(store)) == store_pages(*old(store)).insert(
                (book_id, page_idx),
                downloaded_row(content@, title@, top_chapter),
            )
            &&& ev == Some(
                DownloadProgressPayload {
                    book_id,
                    downloaded_pages: downloaded_count(store_pages(*final(store)), book_id) as i64,
                    total_page,
                    total_images: 0,
                    downloaded_images: 0,
                },
            )
        }),
        same_except_pages(*final(store), *old(store)),
{
    if book_is_cancelled(manager, book_id) {
        return Ok((DownloadResult { success: false, book_id }, None));
    }
    let now = unix_now();
    if let Err(e) = store.save_page(book_id, page_idx, content, title, top_chapter, now) {
        return Err(err_text(e));
    }
    let downloaded_pages = match store.count_downloaded_pages(book_id) {
        Ok(n) => n,
        Err(e) => return Err(err_text(e)),
    };
    let payload = DownloadProgressPayload {
        book_id,
        downloaded_pages,
        total_page,
        total_images: 0,
        downloaded_images: 0,
    };
    Ok((DownloadResult { success: true, book_id }, Some(payload)))
}

/// Adding waiting rows never touches a row already stored: a downloaded page keeps its
/// content and status.
pub proof fn law_placeholders_keep_stored_pages(pages: Map<(i64, i64), PageRow>, b: i64, total_page: int)
    ensures
        forall|k: (i64, i64)|
            pages.contains_key(k) ==> #[trigger] with_placeholders(pages, b, total_page).contains_key(k)
                && with_placeholders(pages, b, total_page)[k] == pages[k],
        forall|p: int|
            1 <= p <= total_page && i64::MIN <= p <= i64::MAX ==> #[trigger] with_placeholders(
                pages,
                b,
                total_page,
            ).contains_key((b, p as i64)),
{
}

} // verus!

verus! {

/// After a book is registered, the pages it waits for are those of `1..=total_page` that
/// had no row yet, plus those whose row was already waiting; a page stored with content
/// is never fetched again, and no page outside the book is waited for unless its row was
/// there already.
pub proof fn law_registered_book_waits_for_missing_pages(
    pages: Map<(i64, i64), PageRow>,
    b: i64,
    total_page: i64,
    pending: Seq<i64>,
    x: i64,
)
    requires
        is_pending_list(with_placeholders(pages, b, total_page as int), b, pending),
    ensures
        !pages.contains_key((b, x)) && 1 <= x <= total_page ==> pending.contains(x),
        pages.contains_key((b, x)) && pages[(b, x)].status == 1 ==> !pending.contains(x),
        pages.contains_key((b, x)) && pages[(b, x)].status == 0 ==> pending.contains(x),
        !pages.contains_key((b, x)) && !(1 <= x <= total_page) ==> !pending.contains(x),
{
}

} // verus!
