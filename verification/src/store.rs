//! The SQLite book store through `rusqlite`: its four tables as mathematical values, and
//! one trusted statement per read or write, each stating what SQLite does to or answers
//! from those tables.
//!
//! The tables are those `init_db` creates, and the store is written only through this
//! module (the connection is private), so the values below are what the file holds.

use rusqlite::Connection;
use rusqlite::OptionalExtension;
use vstd::prelude::*;
use crate::models::ContentsItem;
use crate::text::views;

verus! {

/// The `rusqlite` connection (opaque).
#[verifier::external_type_specification]
#[verifier::external_body]
pub struct ExConnection(Connection);

/// A `rusqlite` error (opaque).
#[verifier::external_type_specification]
#[verifier::external_body]
pub struct ExSqlError(rusqlite::Error);

/// The book store: one open SQLite connection.
#[verifier::external_body]
pub struct BookStore {
    conn: Connection,
}

/// A row of `book`.
pub struct BookRow {
    pub name: Seq<char>,
    pub total_page: i64,
    pub cover_pic: Option<Seq<char>>,
    pub big_cover_pic: Option<Seq<char>>,
    pub tag_id: Option<i64>,
    pub read_page: Option<i64>,
    pub last_read_time: Option<i64>,
    pub reading_cost: Option<i64>,
    pub create_time: Option<i64>,
}

/// A row of `book_page` (its creation time is not modelled).
pub struct PageRow {
    pub content: Option<Seq<char>>,
    pub title: Option<Seq<char>>,
    pub top_chapter: Option<i64>,
    pub status: i64,
}

/// A row of `book_contents`.
pub struct ContentsRow {
    pub level: i64,
    pub label: Seq<char>,
}

/// A row of `book_image`.
pub struct ImageRow {
    pub book_id: i64,
    pub url: Seq<char>,
    pub local_path: Option<Seq<char>>,
    pub status: i64,
    pub create_time: i64,
}

/// `book`, by book id.
pub uninterp spec fn store_books(s: BookStore) -> Map<i64, BookRow>;

/// `book_page`, by book id and page number.
pub uninterp spec fn store_pages(s: BookStore) -> Map<(i64, i64), PageRow>;

/// `book_contents`, by book id and start page.
pub uninterp spec fn store_contents(s: BookStore) -> Map<(i64, i64), ContentsRow>;

/// `book_image`, in the order the rows were inserted (one row per book and URL).
pub uninterp spec fn store_images(s: BookStore) -> Seq<ImageRow>;

/// The schema script the store was opened with.
pub uninterp spec fn store_schema(s: BookStore) -> Seq<char>;

/// The book store's schema: the tables `book` (one row per book id), `book_page` (one
/// per book and page), `book_contents` (one per book and start page) and `book_image`
/// (one per book and image URL, rows numbered in insertion order), each created only
/// where missing, with their indexes.
pub const BOOK_SCHEMA: &'static str = "CREATE TABLE IF NOT EXISTS book (
    id INTEGER PRIMARY KEY AUTOINCREMENT,
    book_id INTEGER NOT NULL UNIQUE,
    book_name TEXT NOT NULL,
    total_page INTEGER NOT NULL,
    cover_pic TEXT,
    big_cover_pic TEXT,
    tag_id INTEGER,
    read_page INTEGER DEFAULT 0,
    last_read_time INTEGER DEFAULT 0,
    reading_cost INTEGER DEFAULT 0,
    create_time INTEGER NOT NULL DEFAULT (strftime('%s', 'now'))
);
CREATE TABLE IF NOT EXISTS book_page (
    id INTEGER PRIMARY KEY AUTOINCREMENT,
    book_id INTEGER NOT NULL,
    page_idx INTEGER NOT NULL,
    content TEXT,
    title TEXT,
    top_chapter INTEGER,
    status INTEGER NOT NULL DEFAULT 0,
    create_time INTEGER NOT NULL DEFAULT (strftime('%s', 'now')),
    UNIQUE(book_id, page_idx)
);
CREATE INDEX IF NOT EXISTS idx_book_page_book_id ON book_page(book_id);
CREATE INDEX IF NOT EXISTS idx_book_page_idx ON book_page(book_id, page_idx);
CREATE TABLE IF NOT EXISTS book_contents (
    id INTEGER PRIMARY KEY AUTOINCREMENT,
    book_id INTEGER NOT NULL,
    level INTEGER NOT NULL,
    start_page INTEGER NOT NULL,
    label TEXT NOT NULL,
    UNIQUE(book_id, start_page)
);
CREATE INDEX IF NOT EXISTS idx_book_contents_book_id ON book_contents(book_id);
CREATE TABLE IF NOT EXISTS book_image (
    id INTEGER PRIMARY KEY AUTOINCREMENT,
    book_id INTEGER NOT NULL,
    image_url TEXT NOT NULL,
    local_path TEXT,
    status INTEGER NOT NULL DEFAULT 0,
    create_time INTEGER NOT NULL DEFAULT (strftime('%s', 'now')),
    UNIQUE(book_id, image_url)
);
CREATE INDEX IF NOT EXISTS idx_book_image_book_id ON book_image(book_id);";

/// The store was opened with the book store's schema, so its tables have the shapes the
/// statements below rely on.
pub open spec fn is_book_store(s: BookStore) -> bool {
    store_schema(s) == BOOK_SCHEMA@
}

/// Every table is empty.
pub open spec fn is_empty_store(s: BookStore) -> bool {
    &&& store_books(s).dom() == Set::<i64>::empty()
    &&& store_pages(s).dom() == Set::<(i64, i64)>::empty()
    &&& store_contents(s).dom() == Set::<(i64, i64)>::empty()
    &&& store_images(s).len() == 0
}

/// A book row read back.
pub struct StoredBook {
    pub name: String,
    pub total_page: i64,
    pub cover_pic: Option<String>,
    pub big_cover_pic: Option<String>,
    pub tag_id: Option<i64>,
    pub read_page: Option<i64>,
    pub last_read_time: Option<i64>,
    pub reading_cost: Option<i64>,
    pub create_time: Option<i64>,
}

/// A page row read back.
pub struct StoredPage {
    pub content: Option<String>,
    pub title: Option<String>,
    pub top_chapter: Option<i64>,
}

/// The characters of an optional string.
pub open spec fn opt_view(o: Option<String>) -> Option<Seq<char>> {
    match o {
        Some(s) => Some(s@),
        None => None,
    }
}

/// The row a stored book was read from.
pub open spec fn book_row_of(b: StoredBook) -> BookRow {
    BookRow {
        name: b.name@,
        total_page: b.total_page,
        cover_pic: opt_view(b.cover_pic),
        big_cover_pic: opt_view(b.big_cover_pic),
        tag_id: b.tag_id,
        read_page: b.read_page,
        last_read_time: b.last_read_time,
        reading_cost: b.reading_cost,
        create_time: b.create_time,
    }
}

/// The tables other than `book` are as in `t`.
pub open spec fn same_except_books(s: BookStore, t: BookStore) -> bool {
    store_pages(s) == store_pages(t) && store_contents(s) == store_contents(t) && store_images(s)
        == store_images(t)
}

/// The tables other than `book_page` are as in `t`.
pub open spec fn same_except_pages(s: BookStore, t: BookStore) -> bool {
    store_books(s) == store_books(t) && store_contents(s) == store_contents(t) && store_images(s)
        == store_images(t)
}

/// The tables other than `book_contents` are as in `t`.
pub open spec fn same_except_contents(s: BookStore, t: BookStore) -> bool {
    store_books(s) == store_books(t) && store_pages(s) == store_pages(t) && store_images(s)
        == store_images(t)
}

/// The tables other than `book_image` are as in `t`.
pub open spec fn same_except_images(s: BookStore, t: BookStore) -> bool {
    store_books(s) == store_books(t) && store_pages(s) == store_pages(t) && store_contents(s)
        == store_contents(t)
}

/// Every table is as in `t`.
pub open spec fn same_tables(s: BookStore, t: BookStore) -> bool {
    same_except_books(s, t) && store_books(s) == store_books(t)
}

/// The row a new book gets: the given columns, reading state 0, created at `now`.
pub open spec fn new_book_row(
    name: Seq<char>,
    total_page: i64,
    cover: Seq<char>,
    big_cover: Seq<char>,
    tag_id: i64,
    now: i64,
) -> BookRow {
    BookRow {
        name,
        total_page,
        cover_pic: Some(cover),
        big_cover_pic: Some(big_cover),
        tag_id: Some(tag_id),
        read_page: Some(0),
        last_read_time: Some(0),
        reading_cost: Some(0),
        create_time: Some(now),
    }
}

/// A page waiting for download: no content, status 0.
pub open spec fn placeholder_row() -> PageRow {
    PageRow { content: None, title: None, top_chapter: None, status: 0 }
}

/// A downloaded page: its content, status 1.
pub open spec fn downloaded_row(content: Seq<char>, title: Seq<char>, top_chapter: i64) -> PageRow {
    PageRow { content: Some(content), title: Some(title), top_chapter: Some(top_chapter), status: 1 }
}

/// `pages` without the rows of book `b`.
pub open spec fn without_book_pages(pages: Map<(i64, i64), PageRow>, b: i64) -> Map<
    (i64, i64),
    PageRow,
> {
    Map::new(|k: (i64, i64)| pages.contains_key(k) && k.0 != b, |k: (i64, i64)| pages[k])
}

/// `images` without the rows of book `b`.
pub open spec fn without_book_images(images: Seq<ImageRow>, b: i64) -> Seq<ImageRow> {
    images.filter(|r: ImageRow| r.book_id != b)
}

/// `images` has a row for book `b` and `url`.
pub open spec fn has_image(images: Seq<ImageRow>, b: i64, url: Seq<char>) -> bool {
    exists|i: int| 0 <= i < images.len() && images[i].book_id == b && #[trigger] images[i].url == url
}

/// `images` after recording `url` of book `b` under `path` at time `now` (`INSERT OR
/// IGNORE`): a new row waiting for download, unless the image is recorded already.
pub open spec fn insert_image(images: Seq<ImageRow>, b: i64, url: Seq<char>, path: Seq<char>, now: i64) -> Seq<
    ImageRow,
> {
    if has_image(images, b, url) {
        images
    } else {
        images.push(ImageRow { book_id: b, url, local_path: Some(path), status: 0, create_time: now })
    }
}

/// `images` after marking `url` of book `b` downloaded to `path` at time `now`.
pub open spec fn mark_image(images: Seq<ImageRow>, b: i64, url: Seq<char>, path: Seq<char>, now: i64) -> Seq<
    ImageRow,
> {
    images.map_values(
        |r: ImageRow|
            if r.book_id == b && r.url == url {
                ImageRow { local_path: Some(path), status: 1, create_time: now, ..r }
            } else {
                r
            },
    )
}

/// The number of pages of book `b` stored with content.
pub open spec fn downloaded_count(pages: Map<(i64, i64), PageRow>, b: i64) -> int {
    pages.dom().filter(|k: (i64, i64)| k.0 == b && pages[k].status == 1).len() as int
}

/// `v` lists, in increasing order, the pages of book `b` waiting for download.
pub open spec fn is_pending_list(pages: Map<(i64, i64), PageRow>, b: i64, v: Seq<i64>) -> bool {
    &&& forall|i: int, j: int| 0 <= i < j < v.len() ==> v[i] < v[j]
    &&& forall|x: i64|
        v.contains(x) <==> (pages.contains_key((b, x)) && pages[(b, x)].status == 0)
}

/// `v` lists, by increasing start page, the contents entries of book `b`.
pub open spec fn is_contents_list(contents: Map<(i64, i64), ContentsRow>, b: i64, v: Seq<ContentsItem>) -> bool {
    &&& forall|i: int, j: int| 0 <= i < j < v.len() ==> v[i].start_page < v[j].start_page
    &&& forall|i: int|
        0 <= i < v.len() ==> contents.contains_key((b, #[trigger] v[i].start_page))
            && contents[(b, v[i].start_page)] == (ContentsRow { level: v[i].level, label: v[i].label@ })
    &&& forall|s: i64|
        #![trigger contents.contains_key((b, s))]
        contents.contains_key((b, s)) ==> exists|i: int| 0 <= i < v.len() && v[i].start_page == s
}

/// A book's creation time as SQLite orders it (NULL before every value).
pub open spec fn time_key(r: BookRow) -> int {
    match r.create_time {
        Some(t) => t as int,
        None => i64::MIN - 1,
    }
}

/// `v` lists every stored book once, newest first.
pub open spec fn is_newest_first(books: Map<i64, BookRow>, v: Seq<i64>) -> bool {
    &&& v.no_duplicates()
    &&& forall|i: int| 0 <= i < v.len() ==> books.contains_key(#[trigger] v[i])
    &&& forall|x: i64| books.contains_key(x) ==> v.contains(x)
    &&& forall|i: int, j: int|
        0 <= i < j < v.len() ==> time_key(books[v[i]]) >= time_key(books[v[j]])
}

/// The part of `all` that `LIMIT limit OFFSET offset` keeps: a negative offset counts
/// as 0 and a negative limit as no limit.
pub open spec fn window(all: Seq<i64>, limit: i64, offset: i64) -> Seq<i64> {
    let start = if offset < 0 { 0 } else if offset > all.len() { all.len() as int } else { offset as int };
    let rest = all.subrange(start, all.len() as int);
    if limit < 0 || limit > rest.len() {
        rest
    } else {
        rest.take(limit as int)
    }
}

/// The URLs of book `b`'s images waiting for download, in insertion order.
pub open spec fn pending_image_urls(images: Seq<ImageRow>, b: i64) -> Seq<Seq<char>> {
    images.filter(|r: ImageRow| r.book_id == b && r.status == 0).map_values(|r: ImageRow| r.url)
}

/// The URLs of book `b`'s downloaded images that have a local path, in insertion order.
pub open spec fn downloaded_image_urls(images: Seq<ImageRow>, b: i64) -> Seq<Seq<char>> {
    images.filter(|r: ImageRow| r.book_id == b && r.status == 1 && r.local_path is Some).map_values(
        |r: ImageRow| r.url,
    )
}

/// The local paths recorded for book `b`'s images, in insertion order.
pub open spec fn image_paths(images: Seq<ImageRow>, b: i64) -> Seq<Seq<char>> {
    images.filter(|r: ImageRow| r.book_id == b && r.local_path is Some).map_values(
        |r: ImageRow| r.local_path->0,
    )
}

/// The number of book `b`'s image rows, and of those downloaded.
pub open spec fn image_counts(images: Seq<ImageRow>, b: i64) -> (int, int) {
    (
        images.filter(|r: ImageRow| r.book_id == b).len() as int,
        images.filter(|r: ImageRow| r.book_id == b && r.status == 1).len() as int,
    )
}

/// `rusqlite::Connection::open` on `path`, then `Connection::execute_batch` with
/// `schema`. The store remembers the schema it was opened with. Whether opening succeeds
/// depends on the file system, and the rows of an existing file are whatever it holds
/// (`CREATE TABLE IF NOT EXISTS` keeps them); `:memory:` opens a new, empty database.
#[verifier::external_body]
pub(crate) fn open_store(path: &str, schema: &str) -> (r: Result<BookStore, rusqlite::Error>)
    ensures
        r matches Ok(s) ==> store_schema(s) == schema@,
        path@ == ":memory:"@ ==> (r matches Ok(s) ==> is_empty_store(s)),
{
    let conn = Connection::open(path)?;
    conn.execute_batch(schema)?;
    Ok(BookStore { conn })
}

/// The `Display` text of a `rusqlite` error. Nothing is claimed of the text.
#[verifier::external_body]
pub(crate) fn sql_error_text(e: &rusqlite::Error) -> (s: String) {
    e.to_string()
}

impl BookStore {
    /// `INSERT OR REPLACE INTO book (book_id, book_name, total_page, cover_pic,
    /// big_cover_pic, tag_id, create_time)`: the book's row is replaced by a new one
    /// (reading state back to its default 0). A failed statement changes nothing.
    #[verifier::external_body]
    pub(crate) fn insert_book(
        &mut self,
        book_id: i64,
        name: &str,
        total_page: i64,
        cover: &str,
        big_cover: &str,
        tag_id: i64,
        now: i64,
    ) -> (r: Result<usize, rusqlite::Error>)
        requires
            is_book_store(*old(self)),
        ensures
            store_schema(*final(self)) == store_schema(*old(self)),
            r is Ok ==> store_books(*final(self)) == store_books(*old(self)).insert(
                book_id,
                new_book_row(name@, total_page, cover@, big_cover@, tag_id, now),
            ),
            r is Err ==> store_books(*final(self)) == store_books(*old(self)),
            same_except_books(*final(self), *old(self)),
    {
        self.conn.execute(
            "INSERT OR REPLACE INTO book (book_id, book_name, total_page, cover_pic, big_cover_pic, tag_id, create_time)
             VALUES (?1, ?2, ?3, ?4, ?5, ?6, ?7)",
            (book_id, name, total_page, cover, big_cover, tag_id, now,),
        )
    }

    /// `UPDATE book SET read_page, last_read_time, reading_cost WHERE book_id`: the
    /// book's reading state, if the book is stored. A failed statement changes nothing.
    #[verifier::external_body]
    pub(crate) fn update_reading(&mut self, book_id: i64, read_page: i64, now: i64, cost: i64) -> (r:
        Result<usize, rusqlite::Error>)
        requires
            is_book_store(*old(self)),
        ensures
            store_schema(*final(self)) == store_schema(*old(self)),
            r is Ok ==> store_books(*final(self)) == (if store_books(*old(self)).contains_key(book_id) {
                store_books(*old(self)).insert(
                    book_id,
                    BookRow {
                        read_page: Some(read_page),
                        last_read_time: Some(now),
                        reading_cost: Some(cost),
                        ..store_books(*old(self))[book_id]
                    },
                )
            } else {
                store_books(*old(self))
            }),
            r is Err ==> store_books(*final(self)) == store_books(*old(self)),
            same_except_books(*final(self), *old(self)),
    {
        self.conn.execute(
            "UPDATE book SET read_page = ?1, last_read_time = ?2, reading_cost = ?3 WHERE book_id = ?4",
            (read_page, now, cost, book_id,),
        )
    }

    /// `DELETE FROM book WHERE book_id`. A failed statement changes nothing.
    #[verifier::external_body]
    pub(crate) fn delete_book(&mut self, book_id: i64) -> (r: Result<usize, rusqlite::Error>)
        requires
            is_book_store(*old(self)),
        ensures
            store_schema(*final(self)) == store_schema(*old(self)),
            r is Ok ==> store_books(*final(self)) == store_books(*old(self)).remove(book_id),
            r is Err ==> store_books(*final(self)) == store_books(*old(self)),
            same_except_books(*final(self), *old(self)),
    {
        self.conn.execute("DELETE FROM book WHERE book_id = ?1", (book_id,))
    }

    /// `SELECT … FROM book WHERE book_id`: the book's row, if stored.
    #[verifier::external_body]
    pub(crate) fn select_book(&self, book_id: i64) -> (r: Result<Option<StoredBook>, rusqlite::Error>)
        requires
            is_book_store(*self),
        ensures
            r matches Ok(o) ==> match o {
                Some(b) => store_books(*self).contains_key(book_id) && book_row_of(b)
                    == store_books(*self)[book_id],
                None => !store_books(*self).contains_key(book_id),
            },
    {
        self.conn.query_row(
            "SELECT book_name, total_page, cover_pic, big_cover_pic, tag_id, read_page, last_read_time, reading_cost, create_time FROM book WHERE book_id = ?1",
            (book_id,),
            |row| Ok(StoredBook { name: row.get(0)?, total_page: row.get(1)?, cover_pic: row.get(2)?, big_cover_pic: row.get(3)?, tag_id: row.get(4)?, read_page: row.get(5)?, last_read_time: row.get(6)?, reading_cost: row.get(7)?, create_time: row.get(8)? }),
        ).optional()
    }

    /// `SELECT COUNT(*) FROM book`.
    #[verifier::external_body]
    pub(crate) fn count_books(&self) -> (r: Result<i64, rusqlite::Error>)
        requires
            is_book_store(*self),
        ensures
            r matches Ok(n) ==> n == store_books(*self).dom().len(),
    {
        self.conn.query_row("SELECT COUNT(*) FROM book", [], |row| row.get(0))
    }

    /// `SELECT book_id FROM book ORDER BY create_time DESC LIMIT ?1 OFFSET ?2`: a window
    /// of the books listed newest first.
    #[verifier::external_body]
    pub(crate) fn select_book_ids(&self, limit: i64, offset: i64) -> (r: Result<Vec<i64>, rusqlite::Error>)
        requires
            is_book_store(*self),
        ensures
            r matches Ok(v) ==> exists|all: Seq<i64>|
                is_newest_first(store_books(*self), all) && v@ == #[trigger] window(all, limit, offset),
    {
        let mut stmt = self.conn.prepare("SELECT book_id FROM book ORDER BY create_time DESC LIMIT ?1 OFFSET ?2")?;
        let ids = stmt.query_map((limit, offset,), |row| row.get(0))?.collect();
        ids
    }

    /// `INSERT OR IGNORE INTO book_page (book_id, page_idx, status)`: a page waiting for
    /// download, unless the page has a row already. A failed statement changes nothing.
    #[verifier::external_body]
    pub(crate) fn insert_placeholder(&mut self, book_id: i64, page_idx: i64, now: i64) -> (r: Result<
        usize,
        rusqlite::Error,
    >)
        requires
            is_book_store(*old(self)),
        ensures
            store_schema(*final(self)) == store_schema(*old(self)),
            r is Ok ==> store_pages(*final(self)) == (if store_pages(*old(self)).contains_key((book_id, page_idx)) {
                store_pages(*old(self))
            } else {
                store_pages(*old(self)).insert((book_id, page_idx), placeholder_row())
            }),
            r is Err ==> store_pages(*final(self)) == store_pages(*old(self)),
            same_except_pages(*final(self), *old(self)),
    {
        self.conn.execute(
            "INSERT OR IGNORE INTO book_page (book_id, page_idx, status, create_time) VALUES (?1, ?2, 0, ?3)",
            (book_id, page_idx, now,),
        )
    }

    /// `INSERT OR REPLACE INTO book_page (…, status) VALUES (…, 1)`: the page stored with
    /// its content. A failed statement changes nothing.
    #[verifier::external_body]
    pub(crate) fn save_page(
        &mut self,
        book_id: i64,
        page_idx: i64,
        content: &str,
        title: &str,
        top_chapter: i64,
        now: i64,
    ) -> (r: Result<usize, rusqlite::Error>)
        requires
            is_book_store(*old(self)),
        ensures
            store_schema(*final(self)) == store_schema(*old(self)),
            r is Ok ==> store_pages(*final(self)) == store_pages(*old(self)).insert(
                (book_id, page_idx),
                downloaded_row(content@, title@, top_chapter),
            ),
            r is Err ==> store_pages(*final(self)) == store_pages(*old(self)),
            same_except_pages(*final(self), *old(self)),
    {
        self.conn.execute(
            "INSERT OR REPLACE INTO book_page (book_id, page_idx, content, title, top_chapter, status, create_time)
             VALUES (?1, ?2, ?3, ?4, ?5, 1, ?6)",
            (book_id, page_idx, content, title, top_chapter, now,),
        )
    }

    /// `DELETE FROM book_page WHERE book_id`. A failed statement changes nothing.
    #[verifier::external_body]
    pub(crate) fn delete_pages(&mut self, book_id: i64) -> (r: Result<usize, rusqlite::Error>)
        requires
            is_book_store(*old(self)),
        ensures
            store_schema(*final(self)) == store_schema(*old(self)),
            r is Ok ==> store_pages(*final(self)) == without_book_pages(store_pages(*old(self)), book_id),
            r is Err ==> store_pages(*final(self)) == store_pages(*old(self)),
            same_except_pages(*final(self), *old(self)),
    {
        self.conn.execute("DELETE FROM book_page WHERE book_id = ?1", (book_id,))
    }

    /// `SELECT content, title, top_chapter FROM book_page WHERE book_id AND page_idx AND
    /// status = 1`: the page, if stored with content.
    #[verifier::external_body]
    pub(crate) fn select_downloaded_page(&self, book_id: i64, page_idx: i64) -> (r: Result<
        Option<StoredPage>,
        rusqlite::Error,
    >)
        requires
            is_book_store(*self),
        ensures
            r matches Ok(o) ==> match o {
                Some(p) => store_pages(*self).contains_key((book_id, page_idx))
                    && store_pages(*self)[(book_id, page_idx)] == (PageRow {
                    content: opt_view(p.content),
                    title: opt_view(p.title),
                    top_chapter: p.top_chapter,
                    status: 1,
                }),
                None => !(store_pages(*self).contains_key((book_id, page_idx)) && store_pages(
                    *self,
                )[(book_id, page_idx)].status == 1),
            },
    {
        self.conn.query_row(
            "SELECT content, title, top_chapter FROM book_page WHERE book_id = ?1 AND page_idx = ?2 AND status = 1",
            (book_id, page_idx,),
            |row| Ok(StoredPage { content: row.get(0)?, title: row.get(1)?, top_chapter: row.get(2)? }),
        ).optional()
    }

    /// `SELECT COUNT(*) FROM book_page WHERE book_id AND status = 1`.
    #[verifier::external_body]
    pub(crate) fn count_downloaded_pages(&self, book_id: i64) -> (r: Result<i64, rusqlite::Error>)
        requires
            is_book_store(*self),
        ensures
            r matches Ok(n) ==> n == downloaded_count(store_pages(*self), book_id),
    {
        self.conn.query_row(
            "SELECT COUNT(*) FROM book_page WHERE book_id = ?1 AND status = 1",
            (book_id,),
            |row| row.get(0),
        )
    }

    /// `SELECT page_idx FROM book_page WHERE book_id AND status = 0 ORDER BY page_idx`.
    #[verifier::external_body]
    pub(crate) fn select_pending_pages(&self, book_id: i64) -> (r: Result<Vec<i64>, rusqlite::Error>)
        requires
            is_book_store(*self),
        ensures
            r matches Ok(v) ==> is_pending_list(store_pages(*self), book_id, v@),
    {
        let mut stmt = self.conn.prepare(
            "SELECT page_idx FROM book_page WHERE book_id = ?1 AND status = 0 ORDER BY page_idx",
        )?;
        let pages = stmt.query_map((book_id,), |row| row.get(0))?.collect();
        pages
    }

    /// `INSERT OR REPLACE INTO book_contents (book_id, level, start_page, label)`. A
    /// failed statement changes nothing.
    #[verifier::external_body]
    pub(crate) fn save_contents_item(&mut self, book_id: i64, level: i64, start_page: i64, label: &str) -> (r:
        Result<usize, rusqlite::Error>)
        requires
            is_book_store(*old(self)),
        ensures
            store_schema(*final(self)) == store_schema(*old(self)),
            r is Ok ==> store_contents(*final(self)) == store_contents(*old(self)).insert(
                (book_id, start_page),
                ContentsRow { level, label: label@ },
            ),
            r is Err ==> store_contents(*final(self)) == store_contents(*old(self)),
            same_except_contents(*final(self), *old(self)),
    {
        self.conn.execute(
            "INSERT OR REPLACE INTO book_contents (book_id, level, start_page, label) VALUES (?1, ?2, ?3, ?4)",
            (book_id, level, start_page, label,),
        )
    }

    /// `SELECT level, start_page, label FROM book_contents WHERE book_id ORDER BY
    /// start_page`.
    #[verifier::external_body]
    pub(crate) fn select_contents(&self, book_id: i64) -> (r: Result<Vec<ContentsItem>, rusqlite::Error>)
        requires
            is_book_store(*self),
        ensures
            r matches Ok(v) ==> is_contents_list(store_contents(*self), book_id, v@),
    {
        let mut stmt = self.conn.prepare(
            "SELECT level, start_page, label FROM book_contents WHERE book_id = ?1 ORDER BY start_page",
        )?;
        let items = stmt.query_map((book_id,), |row| {
            Ok(ContentsItem { level: row.get(0)?, start_page: row.get(1)?, label: row.get(2)? })
        })?.collect();
        items
    }

    /// `INSERT OR IGNORE INTO book_image (book_id, image_url, local_path, status)`: the
    /// image waiting for download, unless it is recorded already (then its row, status
    /// and path included, stays as it was). A failed statement changes nothing.
    #[verifier::external_body]
    pub(crate) fn insert_image(&mut self, book_id: i64, url: &str, path: &str, now: i64) -> (r: Result<
        usize,
        rusqlite::Error,
    >)
        requires
            is_book_store(*old(self)),
        ensures
            store_schema(*final(self)) == store_schema(*old(self)),
            r is Ok ==> store_images(*final(self)) == insert_image(store_images(*old(self)), book_id, url@, path@, now),
            r is Err ==> store_images(*final(self)) == store_images(*old(self)),
            same_except_images(*final(self), *old(self)),
    {
        self.conn.execute(
            "INSERT OR IGNORE INTO book_image (book_id, image_url, local_path, status, create_time) VALUES (?1, ?2, ?3, 0, ?4)",
            (book_id, url, path, now,),
        )
    }

    /// `UPDATE book_image SET status = 1, local_path WHERE book_id AND image_url`. A
    /// failed statement changes nothing.
    #[verifier::external_body]
    pub(crate) fn mark_image(&mut self, book_id: i64, url: &str, path: &str, now: i64) -> (r: Result<
        usize,
        rusqlite::Error,
    >)
        requires
            is_book_store(*old(self)),
        ensures
            store_schema(*final(self)) == store_schema(*old(self)),
            r is Ok ==> store_images(*final(self)) == mark_image(store_images(*old(self)), book_id, url@, path@, now),
            r is Err ==> store_images(*final(self)) == store_images(*old(self)),
            same_except_images(*final(self), *old(self)),
    {
        self.conn.execute(
            "UPDATE book_image SET status = 1, local_path = ?1, create_time = ?2 WHERE book_id = ?3 AND image_url = ?4",
            (path, now, book_id, url,),
        )
    }

    /// `DELETE FROM book_image WHERE book_id`. A failed statement changes nothing.
    #[verifier::external_body]
    pub(crate) fn delete_images(&mut self, book_id: i64) -> (r: Result<usize, rusqlite::Error>)
        requires
            is_book_store(*old(self)),
        ensures
            store_schema(*final(self)) == store_schema(*old(self)),
            r is Ok ==> store_images(*final(self)) == without_book_images(store_images(*old(self)), book_id),
            r is Err ==> store_images(*final(self)) == store_images(*old(self)),
            same_except_images(*final(self), *old(self)),
    {
        self.conn.execute("DELETE FROM book_image WHERE book_id = ?1", (book_id,))
    }

    /// `SELECT image_url FROM book_image WHERE book_id AND status = 0 ORDER BY id`.
    #[verifier::external_body]
    pub(crate) fn select_pending_image_urls(&self, book_id: i64) -> (r: Result<Vec<String>, rusqlite::Error>)
        requires
            is_book_store(*self),
        ensures
            r matches Ok(v) ==> views(v@) == pending_image_urls(store_images(*self), book_id),
    {
        let mut stmt = self.conn.prepare(
            "SELECT image_url FROM book_image WHERE book_id = ?1 AND status = 0 ORDER BY id",
        )?;
        let urls = stmt.query_map((book_id,), |row| row.get(0))?.collect();
        urls
    }

    /// `SELECT image_url FROM book_image WHERE book_id AND status = 1 AND local_path IS
    /// NOT NULL ORDER BY id`.
    #[verifier::external_body]
    pub(crate) fn select_downloaded_image_urls(&self, book_id: i64) -> (r: Result<Vec<String>, rusqlite::Error>)
        requires
            is_book_store(*self),
        ensures
            r matches Ok(v) ==> views(v@) == downloaded_image_urls(store_images(*self), book_id),
    {
        let mut stmt = self.conn.prepare(
            "SELECT image_url FROM book_image WHERE book_id = ?1 AND status = 1 AND local_path IS NOT NULL ORDER BY id",
        )?;
        let urls = stmt.query_map((book_id,), |row| row.get(0))?.collect();
        urls
    }

    /// `SELECT local_path FROM book_image WHERE book_id AND local_path IS NOT NULL ORDER
    /// BY id`.
    #[verifier::external_body]
    pub(crate) fn select_image_paths(&self, book_id: i64) -> (r: Result<Vec<String>, rusqlite::Error>)
        requires
            is_book_store(*self),
        ensures
            r matches Ok(v) ==> views(v@) == image_paths(store_images(*self), book_id),
    {
        let mut stmt = self.conn.prepare(
            "SELECT local_path FROM book_image WHERE book_id = ?1 AND local_path IS NOT NULL ORDER BY id",
        )?;
        let paths = stmt.query_map((book_id,), |row| row.get(0))?.collect();
        paths
    }

    /// `SELECT COUNT(*), SUM(status = 1) FROM book_image WHERE book_id`: the book's image
    /// rows and those downloaded.
    #[verifier::external_body]
    pub(crate) fn count_images(&self, book_id: i64) -> (r: Result<(i64, i64), rusqlite::Error>)
        requires
            is_book_store(*self),
        ensures
            r matches Ok((total, done)) ==> (total as int, done as int) == image_counts(
                store_images(*self),
                book_id,
            ),
    {
        self.conn.query_row(
            "SELECT COUNT(*), COALESCE(SUM(status = 1), 0) FROM book_image WHERE book_id = ?1",
            (book_id,),
            |row| Ok((row.get(0)?, row.get(1)?)),
        )
    }
}

} // verus!
