use reader_lib::download::{
    classify_page_api, classify_page_status, contents_to_save, loop_gate, start_book_download,
    ApiAction, ApiContentsResponse, ApiPageResponse, DownloadRun, Gate, StartOutcome,
    StatusAction,
};
use reader_lib::download::{LoopAction, LoopEvent};
use reader_lib::manager::{
    book_cancel_download, book_finish_download, book_is_cancelled, book_is_paused,
    book_pause_download, book_resume_download, DownloadManager,
};
use reader_lib::models::{ContentsItem, DownloadProgressPayload, PageItem};

#[test]
fn pause_resume_cancel_finish() {
    let mut m = DownloadManager::new();
    assert!(!book_is_paused(&m, 7));
    assert!(!book_pause_download(&mut m, 7).success);
    assert!(!book_is_paused(&m, 7));
    assert!(m.register_task(7));
    assert!(!m.register_task(7));
    assert!(book_pause_download(&mut m, 7).success);
    assert!(book_is_paused(&m, 7));
    assert!(!book_is_cancelled(&m, 7));
    let r = book_resume_download(&mut m, 7);
    assert!(r.success && r.resumed && r.book_id == 7);
    assert!(!book_is_paused(&m, 7));
    assert!(book_cancel_download(&mut m, 7).success);
    assert!(book_is_cancelled(&m, 7));
    book_resume_download(&mut m, 7);
    assert!(book_is_cancelled(&m, 7));
    assert!(book_finish_download(&mut m, 7));
    assert!(!book_is_cancelled(&m, 7));
    assert!(!m.contains_task(7));
    assert!(m.register_task(7));
    assert!(!book_is_cancelled(&m, 7));
}

#[test]
fn resume_unknown_book_fails() {
    let mut m = DownloadManager::new();
    let r = book_resume_download(&mut m, 3);
    assert!(!r.success && !r.resumed && r.book_id == 3);
    assert!(!book_cancel_download(&mut m, 3).success);
    assert!(m.task_flags(3).is_none());
}

#[test]
fn other_books_unaffected() {
    let mut m = DownloadManager::new();
    m.register_task(1);
    m.register_task(2);
    book_pause_download(&mut m, 1);
    book_cancel_download(&mut m, 1);
    assert!(!book_is_paused(&m, 2) && !book_is_cancelled(&m, 2));
    book_finish_download(&mut m, 1);
    assert!(m.contains_task(2));
}

#[test]
fn gate_decisions() {
    assert_eq!(loop_gate(true, true), Gate::Stop);
    assert_eq!(loop_gate(true, false), Gate::Stop);
    assert_eq!(loop_gate(false, true), Gate::Wait);
    assert_eq!(loop_gate(false, false), Gate::Go);
}

#[test]
fn status_decisions() {
    assert_eq!(classify_page_status(401), StatusAction::SessionExpired);
    assert_eq!(classify_page_status(403), StatusAction::SessionExpired);
    assert_eq!(classify_page_status(200), StatusAction::ReadBody);
    assert_eq!(classify_page_status(299), StatusAction::ReadBody);
    assert_eq!(classify_page_status(500), StatusAction::SkipPage);
    assert_eq!(classify_page_status(302), StatusAction::SkipPage);
}

fn item(p: i64) -> PageItem {
    PageItem { content: "c".to_string(), title: "t".to_string(), page: p, top_chapter: 1 }
}

#[test]
fn api_decisions() {
    let expired = ApiPageResponse { code: 100, data: Some(vec![item(1)]), message: None };
    assert_eq!(classify_page_api(expired), ApiAction::SessionExpired);
    let ok = ApiPageResponse { code: 0, data: Some(vec![item(2)]), message: None };
    assert_eq!(classify_page_api(ok), ApiAction::SavePages(vec![item(2)]));
    let empty = ApiPageResponse { code: 0, data: None, message: None };
    assert_eq!(classify_page_api(empty), ApiAction::NoData);
    let err = ApiPageResponse { code: 5, data: None, message: Some("x".to_string()) };
    assert_eq!(classify_page_api(err), ApiAction::ApiError);
    let c = ContentsItem { level: 1, start_page: 3, label: "ch".to_string() };
    assert_eq!(
        contents_to_save(ApiContentsResponse { code: 0, data: Some(vec![c.clone()]), message: None }),
        Some(vec![c.clone()])
    );
    assert_eq!(contents_to_save(ApiContentsResponse { code: 1, data: Some(vec![c]), message: None }), None);
}

#[test]
fn run_hands_out_pages_in_order_and_counts_progress() {
    let mut run = DownloadRun::new(9, 10, vec![3, 5, 8]);
    assert_eq!(run.downloaded_base(), 7);
    assert_eq!(run.next_page(), Some(3));
    assert!(run.can_record_page());
    let (p, milestone) = run.record_saved_page(4, 2);
    assert_eq!(
        p,
        DownloadProgressPayload { book_id: 9, downloaded_pages: 8, total_page: 10, total_images: 4, downloaded_images: 2 }
    );
    assert!(milestone);
    assert_eq!(run.next_page(), Some(5));
    let (p2, m2) = run.record_saved_page(4, 3);
    assert_eq!(p2.downloaded_pages, 9);
    assert!(m2);
    assert_eq!(run.next_page(), Some(8));
    assert_eq!(run.next_page(), None);
    assert_eq!(run.downloaded_pages(), 9);
}

#[test]
fn run_milestones_need_ten_points() {
    let mut run = DownloadRun::new(1, 100, (1..=100).collect());
    let mut milestones = Vec::new();
    for _ in 0..25 {
        let (p, m) = run.record_saved_page(0, 0);
        if m {
            milestones.push(p.downloaded_pages);
        }
    }
    assert_eq!(milestones, vec![10, 20]);
}

#[test]
fn start_decisions() {
    let mut m = DownloadManager::new();
    let (o, r) = start_book_download(&mut m, 4, 12, 0);
    assert_eq!(
        o,
        StartOutcome::AllDownloaded(DownloadProgressPayload {
            book_id: 4,
            downloaded_pages: 12,
            total_page: 12,
            total_images: 0,
            downloaded_images: 0
        })
    );
    assert!(!r.success);
    assert!(!m.contains_task(4));
    let (o, r) = start_book_download(&mut m, 4, 12, 3);
    assert_eq!(o, StartOutcome::Started);
    assert!(r.success && r.book_id == 4);
    let (o, r) = start_book_download(&mut m, 4, 12, 3);
    assert_eq!(o, StartOutcome::AlreadyRunning);
    assert!(!r.success);
}

#[test]
fn run_reports_whole_book_when_done() {
    let mut run = DownloadRun::new(2, 4, vec![2, 4]);
    assert_eq!(run.downloaded_base(), 2);
    let mut last = None;
    while let Some(_page) = run.next_page() {
        let (p, _) = run.record_saved_page(0, 0);
        last = Some(p);
    }
    let p = last.unwrap();
    assert_eq!(p.downloaded_pages, 4);
    assert_eq!(reader_lib::db::book_progress(p.downloaded_pages, p.total_page), 100);
}

#[test]
fn download_step_runs_a_book() {
    let go = || LoopEvent::Flags { cancelled: false, paused: false };
    let mut run = DownloadRun::new(7, 2, vec![2]);
    assert_eq!(run.download_step(LoopEvent::Flags { cancelled: false, paused: true }), LoopAction::Wait(500));
    assert_eq!(run.download_step(go()), LoopAction::FetchPage(2));
    assert_eq!(run.download_step(LoopEvent::PageStatus(500)), LoopAction::Wait(1000));
    // The page was skipped; the pending list is exhausted.
    assert_eq!(run.download_step(go()), LoopAction::DownloadRemainingImages);
    assert_eq!(run.download_step(LoopEvent::Continue), LoopAction::Done);
    assert_eq!(run.download_step(go()), LoopAction::Done);

    let mut run = DownloadRun::new(7, 2, vec![2]);
    assert_eq!(run.download_step(go()), LoopAction::FetchPage(2));
    assert_eq!(run.download_step(LoopEvent::PageStatus(200)), LoopAction::ReadBody);
    let page = PageItem { content: "<img src=\"/r/x.png\">".to_string(), title: "t".to_string(), page: 2, top_chapter: 0 };
    let answer = ApiPageResponse { code: 0, data: Some(vec![page.clone()]), message: None };
    assert_eq!(
        run.download_step(LoopEvent::PageAnswer(Some(answer))),
        LoopAction::DownloadPageImages(vec!["/r/x.png".to_string()])
    );
    assert_eq!(run.download_step(LoopEvent::PageImages { all_ok: true }), LoopAction::StorePage(page));
    assert_eq!(
        run.download_step(LoopEvent::PageStored { ok: true, total_images: 3, downloaded_images: 3 }),
        LoopAction::EmitProgress(
            DownloadProgressPayload { book_id: 7, downloaded_pages: 2, total_page: 2, total_images: 3, downloaded_images: 3 },
            true
        )
    );
    assert_eq!(run.download_step(LoopEvent::Continue), LoopAction::Wait(100));
}

#[test]
fn download_step_stops_on_cancel_and_session_expiry() {
    let mut run = DownloadRun::new(1, 3, vec![1, 2, 3]);
    assert_eq!(run.download_step(LoopEvent::Flags { cancelled: true, paused: true }), LoopAction::Stop);
    assert_eq!(run.download_step(LoopEvent::Flags { cancelled: false, paused: false }), LoopAction::Done);

    let mut run = DownloadRun::new(1, 3, vec![1, 2, 3]);
    run.download_step(LoopEvent::Flags { cancelled: false, paused: false });
    assert_eq!(run.download_step(LoopEvent::PageStatus(401)), LoopAction::EmitSessionExpired);
    assert_eq!(run.download_step(LoopEvent::Continue), LoopAction::Done);

    let mut run = DownloadRun::new(1, 3, vec![1, 2, 3]);
    run.download_step(LoopEvent::Flags { cancelled: false, paused: false });
    run.download_step(LoopEvent::PageStatus(200));
    let expired = ApiPageResponse { code: 100, data: None, message: None };
    assert_eq!(run.download_step(LoopEvent::PageAnswer(Some(expired))), LoopAction::EmitSessionExpired);
    assert_eq!(run.download_step(LoopEvent::Continue), LoopAction::Done);

    let mut run = DownloadRun::new(1, 3, vec![1, 2, 3]);
    run.download_step(LoopEvent::Flags { cancelled: false, paused: false });
    run.download_step(LoopEvent::PageStatus(200));
    let page = PageItem { content: String::new(), title: String::new(), page: 1, top_chapter: 0 };
    let answer = ApiPageResponse { code: 0, data: Some(vec![page]), message: None };
    assert_eq!(run.download_step(LoopEvent::PageAnswer(Some(answer))), LoopAction::DownloadPageImages(vec![]));
    // An image failed: the page is not stored; the loop goes on to the next page.
    assert_eq!(run.download_step(LoopEvent::PageImages { all_ok: false }), LoopAction::Wait(100));
}
