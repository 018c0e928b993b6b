//! The book store's commands: what each reads from or writes to the store, and the
//! records the front end receives.

use vstd::prelude::*;
use crate::clock::unix_now;
use crate::images::{cover_url_spec, local_scheme, url_path_spec, replace_cover_url, replace_image_urls, replace_image_urls_spec};
use crate::models::{
    BookInfo, BookListResult, ContentsItem, DownloadProgress, DownloadResult, PageItem,
};
use crate::store::{
    book_row_of, downloaded_count, downloaded_image_urls, downloaded_row, image_paths,
    insert_image, is_contents_list, is_newest_first, mark_image, open_store, opt_view,
    pending_image_urls, same_except_books, same_except_images, same_except_pages, sql_error_text,
    store_books, store_contents, store_images, store_pages, time_key, window, without_book_images,
    without_book_pages, BookRow, BookStore, ImageRow, PageRow, StoredBook, BOOK_SCHEMA, is_book_store,
    is_empty_store, same_tables, store_schema, has_image,
};
use crate::text::views;

verus! {

/// Rust's `/` on integers: the quotient rounded toward zero.
pub open spec fn trunc_div(x: int, d: int) -> int {
    let q = (if x >= 0 { x } else { -x }) / (if d >= 0 { d } else { -d });
    if (x >= 0) == (d > 0) || x == 0 {
        q
    } else {
        -q
    }
}

/// The download percentage, a whole number from 0 to 100: the share of `total` pages
/// that `downloaded` pages make, rounded down, 0 when the book has no pages or none is
/// stored and 100 when every page is.
pub open spec fn progress_spec(downloaded: i64, total: i64) -> i64 {
    if total <= 0 || downloaded <= 0 {
        0
    } else if downloaded >= total {
        100
    } else {
        ((downloaded as int * 100) / (total as int)) as i64
    }
}

/// The download percentage shown for a book.
pub fn book_progress(downloaded: i64, total: i64) -> (p: i64)
    ensures
        p == progress_spec(downloaded, total),
        0 <= p <= 100,
{
    if total <= 0 || downloaded <= 0 {
        0
    } else if downloaded >= total {
        100
    } else {
        let q = (downloaded as i128 * 100) / (total as i128);
        assert(0 <= q <= 100) by (nonlinear_arith)
            requires
                0 < downloaded < total,
                q == (downloaded as int * 100) / (total as int),
        ;
        q as i64
    }
}

/// The percentage is the share of stored pages, rounded down: `p` percent means that
/// `p / 100` of the book is stored and `(p + 1) / 100` is not yet. No page stored, or a
/// book without pages, shows 0; more pages than the book has shows 100.
pub proof fn law_progress_is_rounded_down_share(downloaded: i64, total: i64)
    ensures
        total > 0 && 0 <= downloaded <= total ==> {
            let p = progress_spec(downloaded, total) as int;
            &&& p * total <= downloaded * 100
            &&& downloaded * 100 < (p + 1) * total
        },
        total <= 0 || downloaded <= 0 ==> progress_spec(downloaded, total) == 0,
        total > 0 && downloaded >= total ==> progress_spec(downloaded, total) == 100,
{
    if total > 0 && 0 < downloaded && downloaded < total {
        let q = (downloaded as int * 100) / (total as int);
        assert(0 <= q <= 100 && q * total <= downloaded * 100 && downloaded * 100 < (q + 1) * total)
            by (nonlinear_arith)
            requires
                0 < downloaded < total,
                q == (downloaded as int * 100) / (total as int),
        ;
        assert(progress_spec(downloaded, total) as int == q);
    } else if total > 0 && downloaded == total {
        let p = progress_spec(downloaded, total) as int;
        assert(p == 100);
        assert(p * total <= downloaded * 100 && downloaded * 100 < (p + 1) * total) by (nonlinear_arith)
            requires
                total > 0,
                downloaded == total,
                p == 100,
        ;
    } else if total > 0 && downloaded == 0 {
        let p = progress_spec(downloaded, total) as int;
        assert(p == 0);
        assert(p * total <= downloaded * 100 && downloaded * 100 < (p + 1) * total) by (nonlinear_arith)
            requires
                total > 0,
                downloaded == 0,
                p == 0,
        ;
    }
}

/// A percentage is a real one: between 0 and 100, growing with the number of pages
/// stored, and 100 once every page is stored.
pub proof fn law_progress_bounded_monotone(d1: i64, d2: i64, total: i64)
    requires
        d1 <= d2,
    ensures
        0 <= progress_spec(d1, total) <= 100,
        progress_spec(d1, total) <= progress_spec(d2, total),
        total > 0 ==> progress_spec(total, total) == 100,
{
    if total > 0 && 0 < d1 && d1 < total {
        assert(0 <= (d1 as int * 100) / (total as int) <= 100) by (nonlinear_arith)
            requires
                0 < d1 < total,
        ;
    }
    if total > 0 && 0 < d1 && d2 < total {
        assert((d1 as int * 100) / (total as int) <= (d2 as int * 100) / (total as int)) by (nonlinear_arith)
            requires
                0 < d1 <= d2,
                total > 0,
        ;
    }
    if total > 0 && 0 < d2 && d2 < total {
        assert(0 <= (d2 as int * 100) / (total as int) <= 100) by (nonlinear_arith)
            requires
                0 < d2 < total,
        ;
    }
}

/// A cover picture as shown: rewritten to the local scheme when local images are used.
pub open spec fn shown_cover(o: Option<Seq<char>>, use_local: bool) -> Option<Seq<char>> {
    match o {
        Some(c) => if use_local {
            Some(cover_url_spec(c))
        } else {
            Some(c)
        },
        None => None,
    }
}

fn shown_cover_exec(o: Option<String>, use_local: bool) -> (r: Option<String>)
    ensures
        opt_view(r) == shown_cover(opt_view(o), use_local),
{
    match o {
        Some(c) => if use_local {
            Some(replace_cover_url(c.as_str()))
        } else {
            Some(c)
        },
        None => None,
    }
}

/// `info` is the record of book `b`, stored as `row` with `downloaded` pages stored with
/// content; covers are shown locally when `use_local`.
pub open spec fn book_info_is(info: BookInfo, b: i64, row: BookRow, downloaded: int, use_local: bool) -> bool {
    &&& info.book_id == b
    &&& info.book_name@ == row.name
    &&& info.total_page == row.total_page
    &&& opt_view(info.cover_pic) == shown_cover(row.cover_pic, use_local)
    &&& opt_view(info.big_cover_pic) == shown_cover(row.big_cover_pic, use_local)
    &&& info.tag_id == row.tag_id
    &&& info.read_page == row.read_page
    &&& info.last_read_time == row.last_read_time
    &&& info.reading_cost == row.reading_cost
    &&& info.create_time == row.create_time
    &&& info.downloaded_pages == Some(downloaded as i64)
    &&& info.progress == Some(progress_spec(downloaded as i64, row.total_page))
}

/// `info` is the record of stored book `b` in `s`.
pub open spec fn is_stored_book_info(s: BookStore, info: BookInfo, b: i64, use_local: bool) -> bool {
    store_books(s).contains_key(b) && book_info_is(
        info,
        b,
        store_books(s)[b],
        downloaded_count(store_pages(s), b),
        use_local,
    )
}

/// `v` holds the records of the books listed in `ids`, in that order.
pub open spec fn infos_of(s: BookStore, v: Seq<BookInfo>, ids: Seq<i64>) -> bool {
    v.len() == ids.len() && forall|i: int|
        0 <= i < v.len() ==> #[trigger] is_stored_book_info(s, v[i], ids[i], false)
}

/// `v` holds the records of the books that `LIMIT limit OFFSET offset` keeps of the
/// stored books listed newest first.
pub open spec fn is_list_window(s: BookStore, v: Seq<BookInfo>, limit: i64, offset: i64) -> bool {
    exists|all: Seq<i64>|
        is_newest_first(store_books(s), all) && #[trigger] infos_of(s, v, window(all, limit, offset))
}

/// Page `p` of book `b`, if it is stored with content.
pub open spec fn downloaded_page(pages: Map<(i64, i64), PageRow>, b: i64, p: i64) -> Option<PageRow> {
    if pages.contains_key((b, p)) && pages[(b, p)].status == 1 {
        Some(pages[(b, p)])
    } else {
        None
    }
}

/// `item` is page `p` read from `row`: missing content and title read as empty, a
/// missing top chapter as 0, the content's image URLs rewritten for the given URLs.
pub open spec fn page_item_is(item: PageItem, p: i64, row: PageRow, urls: Seq<Seq<char>>) -> bool {
    &&& item.content@ == replace_image_urls_spec(text_or_empty(row.content), urls)
    &&& item.title@ == text_or_empty(row.title)
    &&& item.page == p
    &&& item.top_chapter == match row.top_chapter {
        Some(v) => v,
        None => 0,
    }
}

/// `images` after recording, at time `now`, each URL of book `b` under the path at the
/// same position, in order.
pub open spec fn insert_images(
    images: Seq<ImageRow>,
    b: i64,
    urls: Seq<Seq<char>>,
    paths: Seq<Seq<char>>,
    now: i64,
) -> Seq<ImageRow>
    decreases urls.len(),
{
    if urls.len() == 0 || paths.len() == 0 {
        images
    } else {
        insert_image(
            insert_images(images, b, urls.drop_last(), paths.drop_last(), now),
            b,
            urls.last(),
            paths.last(),
            now,
        )
    }
}

/// `books` after recording the reading state of book `b` (no change when it is not
/// stored).
pub open spec fn update_reading(books: Map<i64, BookRow>, b: i64, read_page: i64, now: i64, cost: i64) -> Map<
    i64,
    BookRow,
> {
    if books.contains_key(b) {
        books.insert(
            b,
            BookRow {
                read_page: Some(read_page),
                last_read_time: Some(now),
                reading_cost: Some(cost),
                ..books[b]
            },
        )
    } else {
        books
    }
}

} // verus!

verus! {

/// The number of list pages for `total` books, `page_size` to a page:
/// `(total + page_size - 1) / page_size`, the sum wrapping on overflow.
pub open spec fn page_count_spec(total: i64, page_size: i64) -> int {
    trunc_div(total.wrapping_add(page_size).wrapping_sub(1) as int, page_size as int)
}

/// The number of list pages; refused (`None`) only where the division itself overflows.
pub fn list_page_count(total: i64, page_size: i64) -> (r: Option<i64>)
    requires
        page_size != 0,
    ensures
        match r {
            Some(n) => n == page_count_spec(total, page_size),
            None => page_size == -1 && total.wrapping_add(page_size).wrapping_sub(1) == i64::MIN,
        },
{
    let num = total.wrapping_add(page_size).wrapping_sub(1);
    if page_size == -1 && num == i64::MIN {
        return None;
    }
    let x = num as i128;
    let d = page_size as i128;
    let ax: i128 = if x >= 0 { x } else { -x };
    let ad: i128 = if d >= 0 { d } else { -d };
    let q: i128 = ax / ad;
    assert(q <= ax) by (nonlinear_arith)
        requires
            ax >= 0,
            ad >= 1,
            q == ax / ad,
    ;
    assert(ad == 1 ==> q == ax) by (nonlinear_arith)
        requires
            ax >= 0,
            q == ax / ad,
    ;
    assert(ad >= 2 ==> q * 2 <= ax) by (nonlinear_arith)
        requires
            ax >= 0,
            q == ax / ad,
    ;
    let r: i128 = if (x >= 0) == (d > 0) || x == 0 { q } else { -q };
    assert(i64::MIN <= r <= i64::MAX);
    Some(r as i64)
}

/// With a positive page size and no overflow, the list pages are just enough to hold
/// every book: `ceil(total / page_size)`.
pub proof fn law_page_count_covers(total: i64, page_size: i64)
    requires
        total >= 0,
        page_size > 0,
        total + page_size - 1 <= i64::MAX,
    ensures
        page_count_spec(total, page_size) * page_size >= total,
        total > 0 ==> (page_count_spec(total, page_size) - 1) * page_size < total,
        total == 0 ==> page_count_spec(total, page_size) == 0,
{
    let num = total + page_size - 1;
    if total + page_size <= i64::MAX {
        assert(total.wrapping_add(page_size) == total + page_size);
    } else {
        assert(total.wrapping_add(page_size) == i64::MIN);
    }
    assert(total.wrapping_add(page_size).wrapping_sub(1) == num);
    let q = num / (page_size as int);
    assert(page_count_spec(total, page_size) == q);
    assert(q * page_size >= total && (total > 0 ==> (q - 1) * page_size < total)) by (nonlinear_arith)
        requires
            num == total + page_size - 1,
            q == num / (page_size as int),
            total >= 0,
            page_size > 0,
    ;
    if total == 0 {
        assert((page_size - 1) / (page_size as int) == 0) by (nonlinear_arith)
            requires
                page_size > 0,
        ;
    }
}

/// The characters of an optional text, or none when it is absent.
pub open spec fn text_or_empty(o: Option<Seq<char>>) -> Seq<char> {
    match o {
        Some(s) => s,
        None => Seq::empty(),
    }
}

/// The download state of a book from whether it is stored, its page count and its
/// stored pages; a missing answer counts as `false`/0.
pub open spec fn download_progress_spec(
    exists: Option<bool>,
    total: Option<i64>,
    downloaded: Option<i64>,
) -> (bool, i64, i64) {
    if exists == Some(true) {
        (
            true,
            match downloaded {
                Some(v) => v,
                None => 0,
            },
            match total {
                Some(v) => v,
                None => 0,
            },
        )
    } else {
        (false, 0, 0)
    }
}

/// Builds the download state of a book from its query answers.
pub fn download_progress_from(
    exists: Option<bool>,
    total: Option<i64>,
    downloaded: Option<i64>,
) -> (r: DownloadProgress)
    ensures
        (r.exists, r.downloaded_pages, r.total_page) == download_progress_spec(
            exists,
            total,
            downloaded,
        ),
{
    let exists = match exists {
        Some(b) => b,
        None => false,
    };
    if !exists {
        return DownloadProgress { exists: false, downloaded_pages: 0, total_page: 0 };
    }
    let total_page = match total {
        Some(v) => v,
        None => 0,
    };
    let downloaded_pages = match downloaded {
        Some(v) => v,
        None => 0,
    };
    DownloadProgress { exists: true, downloaded_pages, total_page }
}

/// The page with its content rewritten so that every downloaded image URL points to
/// the local scheme (no change when the book has no downloaded image).
pub fn localize_page(item: PageItem, image_urls: &[String]) -> (r: PageItem)
    ensures
        r.content@ == (if image_urls@.len() == 0 {
            item.content@
        } else {
            replace_image_urls_spec(item.content@, views(image_urls@))
        }),
        r.title == item.title,
        r.page == item.page,
        r.top_chapter == item.top_chapter,
{
    if image_urls.len() == 0 {
        return item;
    }
    let content = replace_image_urls(item.content.as_str(), image_urls);
    PageItem { content, title: item.title, page: item.page, top_chapter: item.top_chapter }
}

/// The offset of list page `page` (counted from 1).
pub fn list_offset(page: i64, page_size: i64) -> (r: i64)
    requires
        page > i64::MIN,
        i64::MIN <= (page - 1) * page_size <= i64::MAX,
    ensures
        r == (page - 1) * page_size,
{
    (page - 1) * page_size
}

fn err_text(e: rusqlite::Error) -> String {
    sql_error_text(&e)
}

/// Opens the book store at `db_path` and creates its tables and indexes where missing
/// (`BOOK_SCHEMA`): `book` (one row per book id), `book_page` (one row per book and
/// page), `book_contents` (one row per book and start page) and `book_image` (one row per
/// book and image URL). The rows already in the file are kept; `:memory:` gives an empty
/// store.
pub fn init_db(db_path: &str) -> (r: Result<BookStore, String>)
    ensures
        r matches Ok(s) ==> is_book_store(s),
        db_path@ == ":memory:"@ ==> (r matches Ok(s) ==> is_empty_store(s)),
{
    match open_store(db_path, BOOK_SCHEMA) {
        Ok(s) => Ok(s),
        Err(e) => Err(err_text(e)),
    }
}

/// How far the book's download has got: whether it is stored, its page count and the
/// pages stored with content. A book not stored reports zero pages.
pub fn book_get_download_progress(store: &BookStore, book_id: i64) -> (r: Result<DownloadProgress, String>)
    requires
        is_book_store(*store),
    ensures
        r matches Ok(p) ==> (if store_books(*store).contains_key(book_id) {
            p == (DownloadProgress {
                exists: true,
                downloaded_pages: downloaded_count(store_pages(*store), book_id) as i64,
                total_page: store_books(*store)[book_id].total_page,
            })
        } else {
            p == (DownloadProgress { exists: false, downloaded_pages: 0, total_page: 0 })
        }),
{
    let book = match store.select_book(book_id) {
        Ok(b) => b,
        Err(e) => return Err(err_text(e)),
    };
    match book {
        None => Ok(download_progress_from(Some(false), None, None)),
        Some(b) => {
            let downloaded = match store.count_downloaded_pages(book_id) {
                Ok(n) => n,
                Err(e) => return Err(err_text(e)),
            };
            Ok(download_progress_from(Some(true), Some(b.total_page), Some(downloaded)))
        },
    }
}

/// The URLs of the book's downloaded images (those recorded with a local path), in the
/// order they were recorded.
pub fn get_local_image_map(store: &BookStore, book_id: i64) -> (r: Result<Vec<String>, String>)
    requires
        is_book_store(*store),
    ensures
        r matches Ok(v) ==> views(v@) == downloaded_image_urls(store_images(*store), book_id),
{
    match store.select_downloaded_image_urls(book_id) {
        Ok(v) => Ok(v),
        Err(e) => Err(err_text(e)),
    }
}

/// A downloaded page of the book, or `None` when the page is not stored with content.
/// With `use_local_images`, its image URLs point to the downloaded copies.
pub fn book_get_page(
    store: &BookStore,
    book_id: i64,
    page: i64,
    use_local_images: Option<bool>,
) -> (r: Result<Option<PageItem>, String>)
    requires
        is_book_store(*store),
    ensures
        r matches Ok(o) ==> match o {
            Some(item) => downloaded_page(store_pages(*store), book_id, page) matches Some(row)
                && page_item_is(
                item,
                page,
                row,
                if use_local_images == Some(true) {
                    downloaded_image_urls(store_images(*store), book_id)
                } else {
                    Seq::empty()
                },
            ),
            None => downloaded_page(store_pages(*store), book_id, page) is None,
        },
{
    let stored = match store.select_downloaded_page(book_id, page) {
        Ok(p) => p,
        Err(e) => return Err(err_text(e)),
    };
    match stored {
        None => Ok(None),
        Some(p) => {
            let content = match p.content {
                Some(c) => c,
                None => String::new(),
            };
            let title = match p.title {
                Some(t) => t,
                None => String::new(),
            };
            let top_chapter = match p.top_chapter {
                Some(v) => v,
                None => 0,
            };
            let item = PageItem { content, title, page, top_chapter };
            let use_local = match use_local_images {
                Some(b) => b,
                None => false,
            };
            if use_local {
                let urls = get_local_image_map(store, book_id)?;
                Ok(Some(localize_page(item, &urls)))
            } else {
                assert(replace_image_urls_spec(item.content@, Seq::empty()) == item.content@);
                Ok(Some(item))
            }
        },
    }
}

/// The record of book `book_id` (with its download progress), if it is stored.
fn book_info_of(store: &BookStore, book_id: i64, use_local: bool) -> (r: Result<Option<BookInfo>, String>)
    requires
        is_book_store(*store),
    ensures
        r matches Ok(o) ==> match o {
            Some(info) => is_stored_book_info(*store, info, book_id, use_local),
            None => !store_books(*store).contains_key(book_id),
        },
{
    let book: Option<StoredBook> = match store.select_book(book_id) {
        Ok(b) => b,
        Err(e) => return Err(err_text(e)),
    };
    match book {
        None => Ok(None),
        Some(b) => {
            let downloaded_pages = match store.count_downloaded_pages(book_id) {
                Ok(n) => n,
                Err(e) => return Err(err_text(e)),
            };
            let ghost row = book_row_of(b);
            let cover_pic = shown_cover_exec(b.cover_pic, use_local);
            let big_cover_pic = shown_cover_exec(b.big_cover_pic, use_local);
            let info = BookInfo {
                book_id,
                book_name: b.name,
                total_page: b.total_page,
                cover_pic,
                big_cover_pic,
                tag_id: b.tag_id,
                read_page: b.read_page,
                last_read_time: b.last_read_time,
                reading_cost: b.reading_cost,
                create_time: b.create_time,
                downloaded_pages: Some(downloaded_pages),
                progress: Some(book_progress(downloaded_pages, b.total_page)),
            };
            assert(book_info_is(info, book_id, row, downloaded_count(store_pages(*store), book_id), use_local));
            Ok(Some(info))
        },
    }
}

/// The book with its reading state and download progress, or `None` when it is not
/// stored; with `use_local_images`, its covers point to the downloaded copies.
pub fn book_get_info(store: &BookStore, book_id: i64, use_local_images: Option<bool>) -> (r: Result<
    Option<BookInfo>,
    String,
>)
    requires
        is_book_store(*store),
    ensures
        r matches Ok(o) ==> match o {
            Some(info) => is_stored_book_info(*store, info, book_id, use_local_images == Some(true)),
            None => !store_books(*store).contains_key(book_id),
        },
{
    let use_local = match use_local_images {
        Some(b) => b,
        None => false,
    };
    book_info_of(store, book_id, use_local)
}

/// Whether the book is stored.
pub fn book_is_downloaded(store: &BookStore, book_id: i64) -> (r: Result<bool, String>)
    requires
        is_book_store(*store),
    ensures
        r matches Ok(b) ==> b == store_books(*store).contains_key(book_id),
{
    match store.select_book(book_id) {
        Ok(b) => Ok(b.is_some()),
        Err(e) => Err(err_text(e)),
    }
}

/// Deletes the book, its pages and its image records. Returns the outcome and the local
/// paths of the book's image files, read before the records are deleted, so that the
/// caller can remove the files. The contents table is left as it is.
pub fn book_delete(store: &mut BookStore, book_id: i64) -> (r: Result<(DownloadResult, Vec<String>), String>)
    requires
        is_book_store(*old(store)),
    ensures
        is_book_store(*final(store)),
        r matches Ok((res, paths)) ==> {
            &&& res.success && res.book_id == book_id
            &&& views(paths@) == image_paths(store_images(*old(store)), book_id)
            &&& store_books(*final(store)) == store_books(*old(store)).remove(book_id)
            &&& store_pages(*final(store)) == without_book_pages(store_pages(*old(store)), book_id)
            &&& store_images(*final(store)) == without_book_images(store_images(*old(store)), book_id)
            &&& store_contents(*final(store)) == store_contents(*old(store))
        },
        r is Err ==> {
            &&& store_contents(*final(store)) == store_contents(*old(store))
            &&& store_books(*final(store)) == store_books(*old(store)) || store_books(*final(store))
                == store_books(*old(store)).remove(book_id)
            &&& store_pages(*final(store)) == store_pages(*old(store)) || store_pages(*final(store))
                == without_book_pages(store_pages(*old(store)), book_id)
            &&& store_images(*final(store)) == store_images(*old(store)) || store_images(*final(store))
                == without_book_images(store_images(*old(store)), book_id)
        },
{
    let paths = match store.select_image_paths(book_id) {
        Ok(p) => p,
        Err(e) => return Err(err_text(e)),
    };
    if let Err(e) = store.delete_pages(book_id) {
        return Err(err_text(e));
    }
    if let Err(e) = store.delete_book(book_id) {
        return Err(err_text(e));
    }
    if let Err(e) = store.delete_images(book_id) {
        return Err(err_text(e));
    }
    Ok((DownloadResult { success: true, book_id }, paths))
}

/// The records of the books listed in `ids`, in order.
fn infos_for(store: &BookStore, ids: &Vec<i64>) -> (r: Result<Vec<BookInfo>, String>)
    requires
        is_book_store(*store),
        forall|i: int| 0 <= i < ids@.len() ==> store_books(*store).contains_key(#[trigger] ids@[i]),
    ensures
        r matches Ok(v) ==> infos_of(*store, v@, ids@),
{
    let mut out: Vec<BookInfo> = Vec::new();
    let mut i: usize = 0;
    while i < ids.len()
        invariant
            i <= ids@.len(),
            infos_of(*store, out@, ids@.take(i as int)),
            is_book_store(*store),
            forall|j: int| 0 <= j < ids@.len() ==> store_books(*store).contains_key(#[trigger] ids@[j]),
        decreases ids@.len() - i,
    {
        let id = ids[i];
        let info = book_info_of(store, id, false)?;
        match info {
            Some(b) => {
                out.push(b);
            },
            None => {
                assert(store_books(*store).contains_key(ids@[i as int]));
                return Err(String::new());
            },
        }
        assert forall|j: int| 0 <= j < out@.len() implies #[trigger] is_stored_book_info(
            *store,
            out@[j],
            ids@.take(i + 1)[j],
            false,
        ) by {
            if j < i {
                assert(ids@.take(i + 1)[j] == ids@.take(i as int)[j]);
            }
        }
        i = i + 1;
    }
    assert(ids@.take(ids@.len() as int) =~= ids@);
    Ok(out)
}

/// Every stored book, newest first, with its download progress.
pub fn book_get_all_list(store: &BookStore) -> (r: Result<Vec<BookInfo>, String>)
    requires
        is_book_store(*store),
    ensures
        r matches Ok(v) ==> exists|ids: Seq<i64>|
            is_newest_first(store_books(*store), ids) && #[trigger] infos_of(*store, v@, ids),
{
    let ids = match store.select_book_ids(-1, 0) {
        Ok(ids) => ids,
        Err(e) => return Err(err_text(e)),
    };
    let ghost all = choose|all: Seq<i64>|
        is_newest_first(store_books(*store), all) && ids@ == #[trigger] window(all, -1i64, 0i64);
    assert(all.subrange(0, all.len() as int) =~= all);
    assert(ids@ == all);
    let v = infos_for(store, &ids)?;
    Ok(v)
}

/// One page of the stored books, newest first: `page_size` books from list page `page`
/// (counted from 1), the number of books and the number of list pages.
pub fn book_get_list_by_page(store: &BookStore, page: i64, page_size: i64) -> (r: Result<
    BookListResult,
    String,
>)
    requires
        is_book_store(*store),
        page_size != 0,
        page > i64::MIN,
        i64::MIN <= (page - 1) * page_size <= i64::MAX,
    ensures
        r matches Ok(res) ==> res.total == store_books(*store).dom().len(),
        r matches Ok(res) ==> res.total_page == page_count_spec(res.total, page_size),
        r matches Ok(res) ==> is_list_window(*store, res.content@, page_size, ((page - 1) * page_size) as i64),
{
    let total = match store.count_books() {
        Ok(t) => t,
        Err(e) => return Err(err_text(e)),
    };
    let offset = list_offset(page, page_size);
    let ids = match store.select_book_ids(page_size, offset) {
        Ok(ids) => ids,
        Err(e) => return Err(err_text(e)),
    };
    let ghost all = choose|all: Seq<i64>|
        is_newest_first(store_books(*store), all) && ids@ == #[trigger] window(all, page_size, offset);
    proof {
        let w = window(all, page_size, offset);
        assert forall|i: int| 0 <= i < ids@.len() implies store_books(*store).contains_key(#[trigger] ids@[i]) by {
            let start = if offset < 0 { 0 } else if offset > all.len() { all.len() as int } else { offset as int };
            assert(ids@[i] == all[start + i]);
        }
    }
    let content = infos_for(store, &ids)?;
    let total_page = match list_page_count(total, page_size) {
        Some(n) => n,
        None => {
            // A book count is never negative, so the page count cannot overflow.
            assert(total >= 0);
            assert(false);
            return Err(String::from_str("attempt to divide with overflow"));
        },
    };
    assert(offset == ((page - 1) * page_size) as i64);
    assert(total == store_books(*store).dom().len());
    assert(is_newest_first(store_books(*store), all));
    let res = BookListResult { content, total, total_page };
    assert(infos_of(*store, res.content@, window(all, page_size, ((page - 1) * page_size) as i64)));
    assert(is_list_window(*store, res.content@, page_size, ((page - 1) * page_size) as i64));
    Ok(res)
}

/// Records the reading position and reading time of the book, stamped with the current
/// time (nothing changes for a book that is not stored). Reports success for the book
/// once the update has run.
pub fn book_update_read_progress(
    store: &mut BookStore,
    book_id: i64,
    read_page: i64,
    reading_cost: i64,
) -> (r: Result<DownloadResult, String>)
    requires
        is_book_store(*old(store)),
    ensures
        is_book_store(*final(store)),
        r matches Ok(res) ==> res.success && res.book_id == book_id && exists|now: i64|
            store_books(*final(store)) == #[trigger] update_reading(
                store_books(*old(store)),
                book_id,
                read_page,
                now,
                reading_cost,
            ),
        r is Err ==> same_tables(*final(store), *old(store)),
        same_except_books(*final(store), *old(store)),
{
    let now = unix_now();
    match store.update_reading(book_id, read_page, now, reading_cost) {
        Ok(_) => {
            assert(store_books(*store) == update_reading(store_books(*old(store)), book_id, read_page, now, reading_cost));
            Ok(DownloadResult { success: true, book_id })
        },
        Err(e) => Err(err_text(e)),
    }
}

/// Stores a page with its content (replacing any row for the same page), marked as
/// downloaded.
pub fn book_save_page(
    store: &mut BookStore,
    book_id: i64,
    page_idx: i64,
    content: &str,
    title: &str,
    top_chapter: i64,
) -> (r: Result<DownloadResult, String>)
    requires
        is_book_store(*old(store)),
    ensures
        is_book_store(*final(store)),
        r matches Ok(res) ==> res.success && res.book_id == book_id,
        r is Ok ==> store_pages(*final(store)) == store_pages(*old(store)).insert(
            (book_id, page_idx),
            downloaded_row(content@, title@, top_chapter),
        ),
        r is Err ==> same_tables(*final(store), *old(store)),
        same_except_pages(*final(store), *old(store)),
{
    let now = unix_now();
    match store.save_page(book_id, page_idx, content, title, top_chapter, now) {
        Ok(_) => Ok(DownloadResult { success: true, book_id }),
        Err(e) => Err(err_text(e)),
    }
}

/// The book's table of contents, by start page.
pub fn book_get_local_contents(store: &BookStore, book_id: i64) -> (r: Result<Vec<ContentsItem>, String>)
    requires
        is_book_store(*store),
    ensures
        r matches Ok(v) ==> is_contents_list(store_contents(*store), book_id, v@),
{
    match store.select_contents(book_id) {
        Ok(v) => Ok(v),
        Err(e) => Err(err_text(e)),
    }
}

/// Records an image of the book as waiting for download, stored under `local_path`;
/// an image recorded already is left as it is.
pub fn book_save_image_record(
    store: &mut BookStore,
    book_id: i64,
    image_url: &str,
    local_path: &str,
) -> (r: Result<bool, String>)
    requires
        is_book_store(*old(store)),
    ensures
        is_book_store(*final(store)),
        r matches Ok(b) ==> b,
        r is Ok ==> exists|now: i64|
            store_images(*final(store)) == #[trigger] insert_image(
                store_images(*old(store)),
                book_id,
                image_url@,
                local_path@,
                now,
            ),
        r is Err ==> same_tables(*final(store), *old(store)),
        same_except_images(*final(store), *old(store)),
{
    let now = unix_now();
    match store.insert_image(book_id, image_url, local_path, now) {
        Ok(_) => {
            assert(store_images(*store) == insert_image(store_images(*old(store)), book_id, image_url@, local_path@, now));
            Ok(true)
        },
        Err(e) => Err(err_text(e)),
    }
}

/// Marks an image of the book as downloaded to `local_path`.
pub fn book_mark_image_downloaded(
    store: &mut BookStore,
    book_id: i64,
    image_url: &str,
    local_path: &str,
) -> (r: Result<bool, String>)
    requires
        is_book_store(*old(store)),
    ensures
        is_book_store(*final(store)),
        r matches Ok(b) ==> b,
        r is Ok ==> exists|now: i64|
            store_images(*final(store)) == #[trigger] mark_image(
                store_images(*old(store)),
                book_id,
                image_url@,
                local_path@,
                now,
            ),
        r is Err ==> same_tables(*final(store), *old(store)),
        same_except_images(*final(store), *old(store)),
{
    let now = unix_now();
    match store.mark_image(book_id, image_url, local_path, now) {
        Ok(_) => {
            assert(store_images(*store) == mark_image(store_images(*old(store)), book_id, image_url@, local_path@, now));
            Ok(true)
        },
        Err(e) => Err(err_text(e)),
    }
}

/// The book's images still waiting for download, in the order they were recorded.
pub fn book_get_pending_images(store: &BookStore, book_id: i64) -> (r: Result<Vec<String>, String>)
    requires
        is_book_store(*store),
    ensures
        r matches Ok(v) ==> views(v@) == pending_image_urls(store_images(*store), book_id),
{
    match store.select_pending_image_urls(book_id) {
        Ok(v) => Ok(v),
        Err(e) => Err(err_text(e)),
    }
}

/// Records every image URL of the book for download, the `i`-th under the `i`-th path,
/// in order; images recorded already are left as they are.
pub fn batch_insert_image_records(
    store: &mut BookStore,
    book_id: i64,
    image_urls: &[String],
    local_paths: &[String],
) -> (r: Result<(), String>)
    requires
        is_book_store(*old(store)),
        image_urls@.len() == local_paths@.len(),
    ensures
        is_book_store(*final(store)),
        r is Ok ==> exists|now: i64|
            store_images(*final(store)) == #[trigger] insert_images(
                store_images(*old(store)),
                book_id,
                views(image_urls@),
                views(local_paths@),
                now,
            ),
        exists|now: i64, j: int|
            0 <= j <= image_urls@.len() && store_images(*final(store)) == #[trigger] insert_images(
                store_images(*old(store)),
                book_id,
                views(image_urls@).take(j),
                views(local_paths@).take(j),
                now,
            ),
        same_except_images(*final(store), *old(store)),
{
    let now = unix_now();
    let mut i: usize = 0;
    while i < image_urls.len()
        invariant
            i <= image_urls@.len(),
            image_urls@.len() == local_paths@.len(),
            store_schema(*store) == store_schema(*old(store)),
            is_book_store(*old(store)),
            store_images(*store) == insert_images(
                store_images(*old(store)),
                book_id,
                views(image_urls@).take(i as int),
                views(local_paths@).take(i as int),
                now,
            ),
            same_except_images(*store, *old(store)),
        decreases image_urls@.len() - i,
    {
        let ghost before = store_images(*store);
        if let Err(e) = store.insert_image(book_id, image_urls[i].as_str(), local_paths[i].as_str(), now) {
            assert(store_images(*store) == insert_images(
                store_images(*old(store)),
                book_id,
                views(image_urls@).take(i as int),
                views(local_paths@).take(i as int),
                now,
            ));
            return Err(err_text(e));
        }
        proof {
            let u = views(image_urls@).take(i + 1);
            let p = views(local_paths@).take(i + 1);
            assert(u.drop_last() =~= views(image_urls@).take(i as int));
            assert(p.drop_last() =~= views(local_paths@).take(i as int));
            assert(u.last() == image_urls@[i as int]@);
            assert(p.last() == local_paths@[i as int]@);
        }
        i = i + 1;
    }
    assert(views(image_urls@).take(image_urls@.len() as int) =~= views(image_urls@));
    assert(views(local_paths@).take(local_paths@.len() as int) =~= views(local_paths@));
    assert(store_images(*store) == insert_images(
        store_images(*old(store)),
        book_id,
        views(image_urls@).take(image_urls@.len() as int),
        views(local_paths@).take(image_urls@.len() as int),
        now,
    ));
    Ok(())
}

/// A page saved with its content is what reading the page gives back.
pub proof fn law_saved_page_is_read_back(
    pages: Map<(i64, i64), PageRow>,
    b: i64,
    p: i64,
    content: Seq<char>,
    title: Seq<char>,
    top_chapter: i64,
)
    ensures
        downloaded_page(pages.insert((b, p), downloaded_row(content, title, top_chapter)), b, p)
            == Some(downloaded_row(content, title, top_chapter)),
{
}

/// Both cover pictures of a book are shown the same way: with local images requested,
/// the small and the large cover alike are rewritten to the local scheme followed by the
/// picture's relative path (an empty one is kept as it is); without, both are shown as
/// stored. So two equal stored covers are always shown equal.
pub proof fn law_covers_shown_alike(info: BookInfo, b: i64, row: BookRow, downloaded: int, use_local: bool)
    requires
        book_info_is(info, b, row, downloaded, use_local),
    ensures
        row.cover_pic == row.big_cover_pic ==> opt_view(info.cover_pic) == opt_view(info.big_cover_pic),
        !use_local ==> opt_view(info.cover_pic) == row.cover_pic && opt_view(info.big_cover_pic)
            == row.big_cover_pic,
        use_local && row.cover_pic is Some && row.cover_pic->0.len() > 0 ==> opt_view(info.cover_pic)
            == Some(local_scheme() + url_path_spec(row.cover_pic->0)),
        use_local && row.big_cover_pic is Some && row.big_cover_pic->0.len() > 0 ==> opt_view(
            info.big_cover_pic,
        ) == Some(local_scheme() + url_path_spec(row.big_cover_pic->0)),
        row.cover_pic is None <==> info.cover_pic is None,
        row.big_cover_pic is None <==> info.big_cover_pic is None,
{
}

/// Recording the reading state of a stored book is what its record then shows: the
/// page and reading time given, and a last-read time; everything else about the book,
/// and every other book, stays as it was. A book that is not stored is not added.
pub proof fn law_reading_state_is_read_back(
    books: Map<i64, BookRow>,
    b: i64,
    read_page: i64,
    now: i64,
    cost: i64,
    info: BookInfo,
    downloaded: int,
    use_local: bool,
)
    ensures
        books.contains_key(b) && book_info_is(info, b, update_reading(books, b, read_page, now, cost)[b], downloaded, use_local)
            ==> {
            &&& info.read_page == Some(read_page)
            &&& info.reading_cost == Some(cost)
            &&& info.last_read_time is Some
            &&& info.book_name@ == books[b].name
            &&& info.total_page == books[b].total_page
            &&& info.create_time == books[b].create_time
            &&& info.tag_id == books[b].tag_id
        },
        forall|k: i64| k != b ==> #[trigger] update_reading(books, b, read_page, now, cost).contains_key(k)
            == books.contains_key(k) && (books.contains_key(k) ==> update_reading(books, b, read_page, now, cost)[k]
            == books[k]),
        update_reading(books, b, read_page, now, cost).contains_key(b) == books.contains_key(b),
{
}

/// An image recorded for the first time waits for download: it joins the end of the
/// book's pending list. An image recorded already is left as it is.
pub proof fn law_recorded_image_is_pending(images: Seq<ImageRow>, b: i64, url: Seq<char>, path: Seq<char>, now: i64)
    ensures
        !has_image(images, b, url) ==> pending_image_urls(insert_image(images, b, url, path, now), b)
            == pending_image_urls(images, b).push(url),
        has_image(images, b, url) ==> insert_image(images, b, url, path, now) == images,
{
    broadcast use vstd::seq_lib::group_seq_properties;

    if !has_image(images, b, url) {
        let row = ImageRow { book_id: b, url, local_path: Some(path), status: 0, create_time: now };
        let pred = |r: ImageRow| r.book_id == b && r.status == 0;
        let f = |r: ImageRow| r.url;
        images.lemma_filter_push(row, pred);
        images.filter(pred).lemma_push_map_commute(f, row);
        assert(pending_image_urls(insert_image(images, b, url, path, now), b) =~= images.push(row).filter(
            pred,
        ).map_values(f));
        assert(pending_image_urls(images, b) =~= images.filter(pred).map_values(f));
    }
}

/// Marking a recorded image downloaded takes it off the book's pending list and lists it
/// among the downloaded images, under the path given.
pub proof fn law_marked_image_is_done(images: Seq<ImageRow>, b: i64, url: Seq<char>, path: Seq<char>, now: i64)
    requires
        has_image(images, b, url),
    ensures
        !pending_image_urls(mark_image(images, b, url, path, now), b).contains(url),
        downloaded_image_urls(mark_image(images, b, url, path, now), b).contains(url),
        image_paths(mark_image(images, b, url, path, now), b).contains(path),
{
    broadcast use vstd::seq_lib::group_seq_properties;

    let m = mark_image(images, b, url, path, now);
    let i = choose|i: int| 0 <= i < images.len() && images[i].book_id == b && #[trigger] images[i].url == url;
    assert(m[i].book_id == b && m[i].url == url && m[i].status == 1 && m[i].local_path == Some(path));
    let pend = |r: ImageRow| r.book_id == b && r.status == 0;
    let done = |r: ImageRow| r.book_id == b && r.status == 1 && r.local_path is Some;
    let pathed = |r: ImageRow| r.book_id == b && r.local_path is Some;
    let u = |r: ImageRow| r.url;
    let lp = |r: ImageRow| r.local_path->0;
    m.lemma_filter_contains(done, i);
    let fd = m.filter(done);
    let jd = choose|j: int| 0 <= j < fd.len() && fd[j] == m[i];
    assert(fd.map_values(u)[jd] == url);
    assert(downloaded_image_urls(m, b) =~= fd.map_values(u));
    m.lemma_filter_contains(pathed, i);
    let fp = m.filter(pathed);
    let jp = choose|j: int| 0 <= j < fp.len() && fp[j] == m[i];
    assert(fp.map_values(lp)[jp] == path);
    assert(image_paths(m, b) =~= fp.map_values(lp));
    let fq = m.filter(pend);
    assert(pending_image_urls(m, b) =~= fq.map_values(u));
    if fq.map_values(u).contains(url) {
        let j = choose|j: int| 0 <= j < fq.map_values(u).len() && fq.map_values(u)[j] == url;
        m.lemma_filter_pred(pend, j);
        assert(fq[j].url == url && fq[j].book_id == b && fq[j].status == 0);
        assert(fq.contains(fq[j]));
        m.lemma_filter_contains_rev(pend, fq[j]);
        let k = choose|k: int| 0 <= k < m.len() && m[k] == fq[j];
        assert(m[k] == (if images[k].book_id == b && images[k].url == url {
            ImageRow { local_path: Some(path), status: 1, create_time: now, ..images[k] }
        } else {
            images[k]
        }));
        assert(false);
    }
}

/// Recording image URLs keeps every image row already there as it was, status and local
/// path included; new rows only come after them.
pub proof fn law_recording_images_keeps_rows(
    images: Seq<ImageRow>,
    b: i64,
    urls: Seq<Seq<char>>,
    paths: Seq<Seq<char>>,
    now: i64,
)
    ensures
        insert_images(images, b, urls, paths, now).len() >= images.len(),
        forall|i: int|
            0 <= i < images.len() ==> #[trigger] insert_images(images, b, urls, paths, now)[i] == images[i],
    decreases urls.len(),
{
    if urls.len() > 0 && paths.len() > 0 {
        law_recording_images_keeps_rows(images, b, urls.drop_last(), paths.drop_last(), now);
        let prev = insert_images(images, b, urls.drop_last(), paths.drop_last(), now);
        assert forall|i: int| 0 <= i < images.len() implies #[trigger] insert_images(images, b, urls, paths, now)[i]
            == images[i] by {
            assert(prev[i] == images[i]);
        }
    }
}

/// No two stored books were created at the same time.
pub open spec fn distinct_times(books: Map<i64, BookRow>) -> bool {
    forall|x: i64, y: i64|
        books.contains_key(x) && books.contains_key(y) && x != y ==> time_key(#[trigger] books[x])
            != time_key(#[trigger] books[y])
}

proof fn lemma_newest_first_prefix(books: Map<i64, BookRow>, a: Seq<i64>, b: Seq<i64>, i: int)
    requires
        is_newest_first(books, a),
        is_newest_first(books, b),
        distinct_times(books),
        a.len() == b.len(),
        0 <= i <= a.len(),
    ensures
        forall|j: int| 0 <= j < i ==> a[j] == b[j],
    decreases i,
{
    if i > 0 {
        lemma_newest_first_prefix(books, a, b, i - 1);
        let k = i - 1;
        let x = a[k];
        let y = b[k];
        if x != y {
            assert(books.contains_key(x));
            assert(books.contains_key(y));
            assert(b.contains(x));
            assert(a.contains(y));
            let jx = choose|j: int| 0 <= j < b.len() && b[j] == x;
            let my = choose|j: int| 0 <= j < a.len() && a[j] == y;
            if jx < k {
                assert(a[jx] == b[jx]);
            }
            if my < k {
                assert(a[my] == b[my]);
            }
            assert(jx >= k && my >= k);
            assert(jx != k && my != k);
            assert(time_key(books[a[k]]) >= time_key(books[a[my]]));
            assert(time_key(books[b[k]]) >= time_key(books[b[jx]]));
            assert(time_key(books[x]) != time_key(books[y]));
        }
    }
}

/// With no two books created at the same time, the newest-first listing of the store is
/// unique: every listing of the same store is the same sequence.
pub proof fn law_listing_is_unique(books: Map<i64, BookRow>, a: Seq<i64>, b: Seq<i64>)
    requires
        is_newest_first(books, a),
        is_newest_first(books, b),
        distinct_times(books),
    ensures
        a == b,
{
    assert(a.to_set() =~= b.to_set());
    a.unique_seq_to_set();
    b.unique_seq_to_set();
    lemma_newest_first_prefix(books, a, b, a.len() as int);
    assert(a =~= b);
}

/// List page `k` (from 1) of `page_size` books is the part of the listing from
/// `(k - 1) * page_size` to `k * page_size`, so the list pages taken in order, up to the
/// last one, make up the whole listing.
pub proof fn law_list_page_is_slice(all: Seq<i64>, page_size: i64, k: int)
    requires
        page_size > 0,
        k >= 1,
        (k - 1) * page_size <= i64::MAX,
    ensures
        window(all, page_size, ((k - 1) * page_size) as i64) == all.subrange(
            if (k - 1) * page_size < all.len() { (k - 1) * page_size } else { all.len() as int },
            if k * page_size < all.len() { k * page_size } else { all.len() as int },
        ),
{
    assert((k - 1) * page_size >= 0) by (nonlinear_arith)
        requires
            k >= 1,
            page_size > 0,
    ;
    assert(k * page_size == (k - 1) * page_size + page_size) by (nonlinear_arith);
    let start = if (k - 1) * page_size < all.len() { (k - 1) * page_size } else { all.len() as int };
    let rest = all.subrange(start, all.len() as int);
    if page_size <= rest.len() {
        assert(rest.take(page_size as int) =~= all.subrange(start, start + page_size));
    }
    assert(window(all, page_size, ((k - 1) * page_size) as i64) =~= all.subrange(
        start,
        if k * page_size < all.len() { k * page_size } else { all.len() as int },
    ));
}

/// `v` is list page `k + 1` (of `ps` books) of some newest-first listing of `books`.
pub open spec fn is_list_page_ids(books: Map<i64, BookRow>, v: Seq<i64>, ps: i64, k: int) -> bool {
    exists|a: Seq<i64>| is_newest_first(books, a) && v == #[trigger] window(a, ps, (k * ps) as i64)
}

/// The sequences of `pages`, one after the other.
pub open spec fn concat_all(pages: Seq<Seq<i64>>) -> Seq<i64>
    decreases pages.len(),
{
    if pages.len() == 0 {
        seq![]
    } else {
        concat_all(pages.drop_last()) + pages.last()
    }
}

#[verifier::spinoff_prover]
#[verifier::rlimit(40)]
proof fn lemma_list_pages_prefix(books: Map<i64, BookRow>, all: Seq<i64>, pages: Seq<Seq<i64>>, ps: i64, m: int)
    requires
        distinct_times(books),
        is_newest_first(books, all),
        ps > 0,
        0 <= m <= pages.len(),
        pages.len() * ps <= i64::MAX,
        forall|k: int| 0 <= k < pages.len() ==> #[trigger] is_list_page_ids(books, pages[k], ps, k),
    ensures
        concat_all(pages.take(m)) == all.take(if m * ps < all.len() { m * ps } else { all.len() as int }),
    decreases m,
{
    assert(m * ps >= 0) by (nonlinear_arith)
        requires
            m >= 0,
            ps > 0,
    ;
    if m == 0 {
        assert(pages.take(0).len() == 0);
        assert(all.take(0) =~= Seq::<i64>::empty());
    } else {
        lemma_list_pages_prefix(books, all, pages, ps, m - 1);
        assert(pages.take(m).drop_last() =~= pages.take(m - 1));
        assert(pages.take(m).last() == pages[m - 1]);
        assert(is_list_page_ids(books, pages[m - 1], ps, m - 1));
        let a = choose|a: Seq<i64>|
            is_newest_first(books, a) && pages[m - 1] == #[trigger] window(a, ps, ((m - 1) * ps) as i64);
        law_listing_is_unique(books, a, all);
        assert((m - 1) * ps <= pages.len() * ps) by (nonlinear_arith)
            requires
                m <= pages.len(),
                ps > 0,
        ;
        assert(m * ps == (m - 1) * ps + ps) by (nonlinear_arith);
        assert((m - 1) * ps >= 0) by (nonlinear_arith)
            requires
                m >= 1,
                ps > 0,
        ;
        law_list_page_is_slice(all, ps, m);
        let lo = if (m - 1) * ps < all.len() { (m - 1) * ps } else { all.len() as int };
        let hi = if m * ps < all.len() { m * ps } else { all.len() as int };
        assert(pages[m - 1] == window(all, ps, ((m - 1) * ps) as i64));
        assert(pages[m - 1] == all.subrange(lo, hi));
        assert(concat_all(pages.take(m)) == concat_all(pages.take(m - 1)) + pages[m - 1]);
        assert(concat_all(pages.take(m - 1)) == all.take(lo));
        assert(all.take(lo) + all.subrange(lo, hi) =~= all.take(hi));
    }
}

/// With no two books created at the same time, the list pages of `ps` books, taken in
/// order up to the last one, make up the whole newest-first listing: whatever listing
/// each page was cut from, joining the pages gives `all`.
pub proof fn law_list_pages_make_listing(books: Map<i64, BookRow>, all: Seq<i64>, pages: Seq<Seq<i64>>, ps: i64)
    requires
        distinct_times(books),
        is_newest_first(books, all),
        ps > 0,
        pages.len() * ps >= all.len(),
        pages.len() * ps <= i64::MAX,
        forall|k: int| 0 <= k < pages.len() ==> #[trigger] is_list_page_ids(books, pages[k], ps, k),
    ensures
        concat_all(pages) == all,
{
    lemma_list_pages_prefix(books, all, pages, ps, pages.len() as int);
    assert(pages.take(pages.len() as int) =~= pages);
    assert(all.take(all.len() as int) =~= all);
}

proof fn lemma_insert_image_keeps(images: Seq<ImageRow>, b: i64, url: Seq<char>, path: Seq<char>, now: i64, u: Seq<char>)
    ensures
        has_image(images, b, u) ==> has_image(insert_image(images, b, url, path, now), b, u),
        has_image(insert_image(images, b, url, path, now), b, url),
{
    let r = insert_image(images, b, url, path, now);
    if has_image(images, b, u) {
        let i = choose|i: int| 0 <= i < images.len() && images[i].book_id == b && #[trigger] images[i].url == u;
        assert(r[i] == images[i]);
    }
    if !has_image(images, b, url) {
        assert(r[images.len() as int].url == url);
    }
}

proof fn lemma_insert_images_records_all(
    images: Seq<ImageRow>,
    b: i64,
    urls: Seq<Seq<char>>,
    paths: Seq<Seq<char>>,
    now: i64,
)
    requires
        urls.len() == paths.len(),
    ensures
        forall|j: int| 0 <= j < urls.len() ==> has_image(insert_images(images, b, urls, paths, now), b, #[trigger] urls[j]),
    decreases urls.len(),
{
    if urls.len() > 0 {
        lemma_insert_images_records_all(images, b, urls.drop_last(), paths.drop_last(), now);
        let prev = insert_images(images, b, urls.drop_last(), paths.drop_last(), now);
        assert forall|j: int| 0 <= j < urls.len() implies has_image(
            insert_images(images, b, urls, paths, now),
            b,
            #[trigger] urls[j],
        ) by {
            lemma_insert_image_keeps(prev, b, urls.last(), paths.last(), now, urls[j]);
            if j < urls.len() - 1 {
                assert(urls.drop_last()[j] == urls[j]);
            }
        }
    }
}

proof fn lemma_insert_images_noop(base: Seq<ImageRow>, b: i64, urls: Seq<Seq<char>>, paths: Seq<Seq<char>>, now: i64)
    requires
        urls.len() == paths.len(),
        forall|j: int| 0 <= j < urls.len() ==> has_image(base, b, #[trigger] urls[j]),
    ensures
        insert_images(base, b, urls, paths, now) == base,
    decreases urls.len(),
{
    if urls.len() > 0 {
        assert forall|j: int| 0 <= j < urls.drop_last().len() implies has_image(base, b, #[trigger] urls.drop_last()[j]) by {
            assert(urls.drop_last()[j] == urls[j]);
        }
        lemma_insert_images_noop(base, b, urls.drop_last(), paths.drop_last(), now);
        assert(has_image(base, b, urls[urls.len() - 1]));
    }
}

/// Recording image URLs leaves a row for each of them, and recording the same URLs
/// again (under any paths, at any time) changes nothing.
pub proof fn law_recording_images_is_idempotent(
    images: Seq<ImageRow>,
    b: i64,
    urls: Seq<Seq<char>>,
    paths: Seq<Seq<char>>,
    paths2: Seq<Seq<char>>,
    now: i64,
    now2: i64,
)
    requires
        urls.len() == paths.len(),
        urls.len() == paths2.len(),
    ensures
        forall|j: int| 0 <= j < urls.len() ==> has_image(insert_images(images, b, urls, paths, now), b, #[trigger] urls[j]),
        insert_images(insert_images(images, b, urls, paths, now), b, urls, paths2, now2) == insert_images(
            images,
            b,
            urls,
            paths,
            now,
        ),
{
    lemma_insert_images_records_all(images, b, urls, paths, now);
    lemma_insert_images_noop(insert_images(images, b, urls, paths, now), b, urls, paths2, now2);
}

/// After a book is deleted no row of it is left in `book`, `book_page` or `book_image`,
/// and the rows of every other book are kept.
pub proof fn law_delete_leaves_no_row(
    books: Map<i64, BookRow>,
    pages: Map<(i64, i64), PageRow>,
    images: Seq<ImageRow>,
    b: i64,
)
    ensures
        !books.remove(b).contains_key(b),
        forall|k: (i64, i64)| #[trigger] without_book_pages(pages, b).contains_key(k) ==> k.0 != b,
        forall|i: int|
            0 <= i < without_book_images(images, b).len() ==> (#[trigger] without_book_images(images, b)[i]).book_id
                != b,
        forall|x: i64| x != b ==> books.remove(b).contains_key(x) == books.contains_key(x),
        forall|k: (i64, i64)|
            k.0 != b ==> #[trigger] without_book_pages(pages, b).contains_key(k) == pages.contains_key(k),
{
    let f = |r: ImageRow| r.book_id != b;
    assert forall|i: int| 0 <= i < images.filter(f).len() implies (#[trigger] images.filter(f)[i]).book_id != b by {
        images.lemma_filter_pred(f, i);
    }
}

} // verus!

verus! {

/// The cache directory chosen by the user, if any.
pub struct CacheDirState(pub Option<String>);

impl CacheDirState {
    /// No directory chosen yet.
    pub fn new() -> (s: Self)
        ensures
            s.0 is None,
    {
        CacheDirState(None)
    }
}

/// The cache directory: the one chosen, or else `fallback`.
pub fn get_cache_dir(state: &CacheDirState, fallback: String) -> (r: String)
    ensures
        r == match state.0 {
            Some(d) => d,
            None => fallback,
        },
{
    match &state.0 {
        Some(d) => d.clone(),
        None => fallback,
    }
}

/// Records the chosen cache directory; always reports success.
pub fn set_cache_dir(state: &mut CacheDirState, dir: String) -> (r: bool)
    ensures
        r,
        final(state).0 == Some(dir),
{
    state.0 = Some(dir);
    true
}

} // verus!
