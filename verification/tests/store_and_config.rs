use reader_lib::config::{
    load_config_value, parse_i32, save_config_value, try_save_config_value, win_size_from_config,
};
use reader_lib::db::{
    book_delete, book_get_all_list, book_get_download_progress, book_get_info,
    book_get_list_by_page, book_get_local_contents, book_get_page, book_get_pending_images,
    book_is_downloaded, book_mark_image_downloaded, book_progress, book_save_page,
    book_update_read_progress, get_cache_dir, get_local_image_map, init_db, list_page_count,
    set_cache_dir, CacheDirState,
};
use reader_lib::download::{
    book_get_pending_pages, book_save_downloaded_page, get_image_stats, get_pending_urls_from_db,
    register_book_download, save_contents_to_db, save_page_to_db,
};
use reader_lib::manager::DownloadManager;
use reader_lib::models::{ContentsItem, PageItem};

#[test]
fn parse_i32_like_std() {
    for t in ["0", "42", "-17", "+8", "", "-", "+", "12a", "2147483647", "2147483648", "-2147483648", "-2147483649", "0001", " 1", "99999999999999"] {
        assert_eq!(parse_i32(t), t.parse::<i32>().ok(), "input {t:?}");
    }
}

#[test]
fn window_size_defaults() {
    assert_eq!(win_size_from_config(None, None), vec![1500, 1000]);
    assert_eq!(win_size_from_config(Some("800".to_string()), Some("x".to_string())), vec![800, 1000]);
    assert_eq!(win_size_from_config(Some("1200".to_string()), Some("700".to_string())), vec![1200, 700]);
}

#[test]
fn config_read_and_write() {
    assert_eq!(load_config_value(None, "cacheDir"), None);
    assert_eq!(load_config_value(Some("not json"), "cacheDir"), None);
    assert_eq!(load_config_value(Some("{\"winWidth\": 5}"), "winWidth"), None);
    assert_eq!(load_config_value(Some("{\"cacheDir\": \"/tmp/c\"}"), "cacheDir"), Some("/tmp/c".to_string()));
    let text = save_config_value(Some("{\"a\": 1}"), "winWidth", "900").unwrap();
    assert_eq!(load_config_value(Some(&text), "winWidth"), Some("900".to_string()));
    assert_eq!(load_config_value(Some(&text), "a"), None);
    let v: serde_json::Value = serde_json::from_str(&text).unwrap();
    assert_eq!(v["a"], serde_json::Value::from(1));
    let fresh = save_config_value(None, "k", "v").unwrap();
    assert_eq!(load_config_value(Some(&fresh), "k"), Some("v".to_string()));
    let from_bad = save_config_value(Some("garbage"), "k", "v").unwrap();
    assert_eq!(load_config_value(Some(&from_bad), "k"), Some("v".to_string()));
    let from_null = save_config_value(Some("null"), "k", "v").unwrap();
    assert_eq!(load_config_value(Some(&from_null), "k"), Some("v".to_string()));
    assert_eq!(try_save_config_value(Some("[1,2]"), "k", "v"), None);
    assert!(try_save_config_value(Some("{}"), "k", "v").is_some());
}

#[test]
fn progress_and_page_counts() {
    assert_eq!(book_progress(5, 10), 50);
    assert_eq!(book_progress(1, 3), 33);
    assert_eq!(book_progress(3, 0), 0);
    assert_eq!(book_progress(10, 10), 100);
    assert_eq!(book_progress(3, 2), 100);
    assert_eq!(book_progress(-1, 2), 0);
    assert_eq!(book_progress(i64::MAX - 1, i64::MAX), 99);
    assert_eq!(list_page_count(0, 10), Some(0));
    assert_eq!(list_page_count(21, 10), Some(3));
    assert_eq!(list_page_count(20, 10), Some(2));
    assert_eq!(list_page_count(5, -2), Some((5 - 2 - 1) / -2));
}

#[test]
fn cache_dir_state() {
    let mut st = CacheDirState::new();
    assert_eq!(get_cache_dir(&st, "/d".to_string()), "/d");
    assert!(set_cache_dir(&mut st, "/mine".to_string()));
    assert_eq!(get_cache_dir(&st, "/d".to_string()), "/mine");
}

#[test]
fn store_round_trip() {
    let mut st = init_db(":memory:").unwrap();
    assert!(!book_is_downloaded(&st, 1).unwrap());
    let p = book_get_download_progress(&st, 1).unwrap();
    assert!(!p.exists && p.downloaded_pages == 0 && p.total_page == 0);

    let pending = register_book_download(
        &mut st, 1, "Book", 3, "/resource/c.jpg", "/resource/c.jpg", 2,
        &["/data/c.jpg".to_string()],
    )
    .unwrap();
    assert_eq!(pending, vec![1, 2, 3]);
    assert!(book_is_downloaded(&st, 1).unwrap());
    assert_eq!(book_get_pending_images(&st, 1).unwrap(), vec!["/resource/c.jpg".to_string()]);
    assert_eq!(get_pending_urls_from_db(&st, 1).unwrap(), vec!["/resource/c.jpg".to_string()]);
    assert_eq!(get_image_stats(&st, 1).unwrap(), (1, 0));

    let item = PageItem {
        content: "<img src=\"/resource/p/1.png\">".to_string(),
        title: "T".to_string(),
        page: 2,
        top_chapter: 1,
    };
    assert!(save_page_to_db(&mut st, 1, &item));
    assert_eq!(book_get_pending_pages(&st, 1).unwrap(), vec![1, 3]);
    let progress = book_get_download_progress(&st, 1).unwrap();
    assert!(progress.exists && progress.downloaded_pages == 1 && progress.total_page == 3);

    // Registering again keeps the stored page and the image record.
    let pending = register_book_download(
        &mut st, 1, "Book", 3, "/resource/c.jpg", "", 2, &["/other/c.jpg".to_string()],
    )
    .unwrap();
    assert_eq!(pending, vec![1, 3]);
    assert_eq!(book_get_page(&st, 1, 2, None).unwrap().unwrap().content, item.content);

    assert!(book_mark_image_downloaded(&mut st, 1, "/resource/c.jpg", "/data/c.jpg").unwrap());
    assert_eq!(get_image_stats(&st, 1).unwrap(), (1, 1));
    assert_eq!(get_local_image_map(&st, 1).unwrap(), vec!["/resource/c.jpg".to_string()]);

    let info = book_get_info(&st, 1, Some(true)).unwrap().unwrap();
    assert_eq!(info.book_name, "Book");
    assert_eq!(info.downloaded_pages, Some(1));
    assert_eq!(info.progress, Some(33));
    assert_eq!(info.cover_pic, Some("localimg://c.jpg".to_string()));
    assert_eq!(book_get_info(&st, 1, None).unwrap().unwrap().cover_pic, Some("/resource/c.jpg".to_string()));
    assert!(book_get_info(&st, 2, None).unwrap().is_none());

    let page = book_get_page(&st, 1, 2, None).unwrap().unwrap();
    assert_eq!(page.content, item.content);
    assert!(book_get_page(&st, 1, 1, None).unwrap().is_none());

    book_save_page(&mut st, 1, 3, "x", "y", 4).unwrap();
    assert_eq!(book_get_pending_pages(&st, 1).unwrap(), vec![1]);
    let saved = book_get_page(&st, 1, 3, None).unwrap().unwrap();
    assert_eq!((saved.content.as_str(), saved.title.as_str(), saved.page, saved.top_chapter), ("x", "y", 3, 4));
    book_update_read_progress(&mut st, 1, 2, 60).unwrap();
    let info = book_get_info(&st, 1, None).unwrap().unwrap();
    assert_eq!(info.read_page, Some(2));
    assert_eq!(info.reading_cost, Some(60));

    let failed = save_contents_to_db(&mut st, 1, &[ContentsItem { level: 1, start_page: 5, label: "B".to_string() }, ContentsItem { level: 1, start_page: 1, label: "A".to_string() }]);
    assert!(failed.is_empty());
    let contents = book_get_local_contents(&st, 1).unwrap();
    assert_eq!(contents.iter().map(|c| c.start_page).collect::<Vec<_>>(), vec![1, 5]);

    let all = book_get_all_list(&st).unwrap();
    assert_eq!(all.len(), 1);
    let listed = book_get_list_by_page(&st, 1, 10).unwrap();
    assert_eq!((listed.total, listed.total_page, listed.content.len()), (1, 1, 1));
    assert_eq!(book_get_list_by_page(&st, 2, 10).unwrap().content.len(), 0);

    let (res, paths) = book_delete(&mut st, 1).unwrap();
    assert!(res.success && res.book_id == 1);
    assert_eq!(paths, vec!["/data/c.jpg".to_string()]);
    assert!(!book_is_downloaded(&st, 1).unwrap());
    assert!(book_get_pending_images(&st, 1).unwrap().is_empty());
    assert!(book_get_pending_pages(&st, 1).unwrap().is_empty());
}

#[test]
fn local_images_in_pages() {
    let mut st = init_db(":memory:").unwrap();
    register_book_download(&mut st, 5, "B", 1, "", "", 0, &[]).unwrap();
    let item = PageItem { content: "<img src=\"/resource/p/1.png\">".to_string(), title: "T".to_string(), page: 1, top_chapter: 0 };
    save_page_to_db(&mut st, 5, &item);
    reader_lib::db::book_save_image_record(&mut st, 5, "/resource/p/1.png", "/d/p/1.png").unwrap();
    let before = book_get_page(&st, 5, 1, Some(true)).unwrap().unwrap();
    assert_eq!(before.content, item.content);
    book_mark_image_downloaded(&mut st, 5, "/resource/p/1.png", "/d/p/1.png").unwrap();
    let after = book_get_page(&st, 5, 1, Some(true)).unwrap().unwrap();
    assert_eq!(after.content, "<img src=\"localimg://p/1.png\">");
}

#[test]
fn saving_a_page_of_a_cancelled_download() {
    let mut st = init_db(":memory:").unwrap();
    register_book_download(&mut st, 3, "B", 2, "", "", 0, &[]).unwrap();
    let mut m = DownloadManager::new();
    let (r, ev) = book_save_downloaded_page(&mut st, &m, 3, 1, 2, "c", "t", 0).unwrap();
    assert!(r.success);
    let ev = ev.unwrap();
    assert_eq!((ev.downloaded_pages, ev.total_page), (1, 2));
    m.register_task(3);
    reader_lib::manager::book_cancel_download(&mut m, 3);
    let (r, ev) = book_save_downloaded_page(&mut st, &m, 3, 2, 2, "c", "t", 0).unwrap();
    assert!(!r.success && ev.is_none());
    assert_eq!(book_get_pending_pages(&st, 3).unwrap(), vec![2]);
}

#[test]
fn saving_a_setting_keeps_the_others() {
    let text = save_config_value(Some("{\"cacheDir\": \"/c\", \"winWidth\": \"5\"}"), "winHeight", "7").unwrap();
    assert_eq!(load_config_value(Some(&text), "winHeight"), Some("7".to_string()));
    assert_eq!(load_config_value(Some(&text), "cacheDir"), Some("/c".to_string()));
    assert_eq!(load_config_value(Some(&text), "winWidth"), Some("5".to_string()));
    let again = save_config_value(Some(&text), "cacheDir", "/d").unwrap();
    assert_eq!(load_config_value(Some(&again), "cacheDir"), Some("/d".to_string()));
    assert_eq!(load_config_value(Some(&again), "winHeight"), Some("7".to_string()));
}

#[test]
fn list_paging_and_contents_order() {
    let mut st = init_db(":memory:").unwrap();
    for id in 1..=5 {
        register_book_download(&mut st, id, "B", 1, "", "", 0, &[]).unwrap();
    }
    let first = book_get_list_by_page(&st, 1, 2).unwrap();
    assert_eq!((first.total, first.total_page, first.content.len()), (5, 3, 2));
    let last = book_get_list_by_page(&st, 3, 2).unwrap();
    assert_eq!(last.content.len(), 1);
    for b in first.content.iter().chain(last.content.iter()) {
        assert_eq!(b.downloaded_pages, Some(0));
        assert_eq!(b.progress, Some(0));
    }
    assert_eq!(book_get_all_list(&st).unwrap().len(), 5);
}

#[test]
fn recording_image_urls_twice_changes_nothing() {
    let mut st = init_db(":memory:").unwrap();
    let urls = vec!["/r/a.png".to_string(), "/r/b.png".to_string()];
    let paths = vec!["/d/a.png".to_string(), "/d/b.png".to_string()];
    assert!(reader_lib::download::record_image_urls(&mut st, 9, &urls, &paths));
    assert!(reader_lib::download::mark_image_done(&mut st, 9, "/r/a.png", "/d/a.png"));
    let other = vec!["/x/a.png".to_string(), "/x/b.png".to_string()];
    assert!(reader_lib::download::record_image_urls(&mut st, 9, &urls, &other));
    assert_eq!(get_image_stats(&st, 9).unwrap(), (2, 1));
    assert_eq!(get_pending_urls_from_db(&st, 9).unwrap(), vec!["/r/b.png".to_string()]);
    assert_eq!(get_local_image_map(&st, 9).unwrap(), vec!["/r/a.png".to_string()]);
}
