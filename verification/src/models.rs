//! The records the library hands back to the reader's front end.

use vstd::prelude::*;

verus! {

/// A downloaded book with its reading state and download progress.
#[derive(Debug, Clone, PartialEq, Eq)]
pub struct BookInfo {
    pub book_id: i64,
    pub book_name: String,
    pub total_page: i64,
    pub cover_pic: Option<String>,
    pub big_cover_pic: Option<String>,
    pub tag_id: Option<i64>,
    pub read_page: Option<i64>,
    pub last_read_time: Option<i64>,
    pub reading_cost: Option<i64>,
    pub create_time: Option<i64>,
    /// Pages stored with their content.
    pub downloaded_pages: Option<i64>,
    /// Whole percentage of the pages stored.
    pub progress: Option<i64>,
}

/// One stored page row.
#[derive(Debug, Clone, PartialEq, Eq)]
pub struct BookPage {
    pub id: i64,
    pub book_id: i64,
    pub page_idx: i64,
    pub content: Option<String>,
    pub title: Option<String>,
    pub top_chapter: Option<i64>,
    pub status: i64,
    pub create_time: Option<i64>,
}

/// One entry of a book's table of contents.
#[derive(Debug, Clone, PartialEq, Eq)]
pub struct ContentsItem {
    pub level: i64,
    pub start_page: i64,
    pub label: String,
}

/// How far the download of a book has got.
#[derive(Debug, Clone, PartialEq, Eq)]
pub struct DownloadProgress {
    pub exists: bool,
    pub downloaded_pages: i64,
    pub total_page: i64,
}

/// A page as the reader shows it.
#[derive(Debug, Clone, PartialEq, Eq)]
pub struct PageItem {
    pub content: String,
    pub title: String,
    pub page: i64,
    pub top_chapter: i64,
}

/// Outcome of an operation on one book.
#[derive(Debug, Clone, Copy, PartialEq, Eq)]
pub struct DownloadResult {
    pub success: bool,
    pub book_id: i64,
}

/// One page of the list of downloaded books.
#[derive(Debug, Clone, PartialEq, Eq)]
pub struct BookListResult {
    pub content: Vec<BookInfo>,
    pub total: i64,
    pub total_page: i64,
}

/// The progress event sent while a book downloads.
#[derive(Debug, Clone, Copy, PartialEq, Eq)]
pub struct DownloadProgressPayload {
    pub book_id: i64,
    pub downloaded_pages: i64,
    pub total_page: i64,
    pub total_images: i64,
    pub downloaded_images: i64,
}

/// Outcome of resuming a download.
#[derive(Debug, Clone, Copy, PartialEq, Eq)]
pub struct ResumeResult {
    pub success: bool,
    pub book_id: i64,
    pub resumed: bool,
}

/// Outcome of pausing or cancelling a download.
#[derive(Debug, Clone, Copy, PartialEq, Eq)]
pub struct SimpleResult {
    pub success: bool,
}

/// An HTTP response handed to the front end: status and body text.
#[derive(Debug, Clone, PartialEq, Eq)]
pub struct NetResponse {
    pub status: u16,
    pub body: String,
}

} // verus!
