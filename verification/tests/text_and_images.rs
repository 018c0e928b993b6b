use reader_lib::base64::base64_encode;
use reader_lib::images::{
    build_cover_urls, build_local_image_url, extract_image_urls, extract_url_path,
    image_data_url, image_download_url, mime_type_for_extension, replace_cover_url,
    replace_image_urls, trim_server_host,
};
use reader_lib::text::{chars_of, replace_all_exec, string_of};

fn s(v: &str) -> String {
    v.to_string()
}

#[test]
fn base64_known_values() {
    assert_eq!(base64_encode(b""), "");
    assert_eq!(base64_encode(b"f"), "Zg==");
    assert_eq!(base64_encode(b"fo"), "Zm8=");
    assert_eq!(base64_encode(b"foo"), "Zm9v");
    assert_eq!(base64_encode(b"foob"), "Zm9vYg==");
    assert_eq!(base64_encode(b"fooba"), "Zm9vYmE=");
    assert_eq!(base64_encode(b"foobar"), "Zm9vYmFy");
    assert_eq!(base64_encode(&[0xff, 0xfe, 0xfd]), "//79");
    assert_eq!(base64_encode(&[0, 0, 0]), "AAAA");
}

#[test]
fn base64_length_is_four_per_started_triple() {
    for n in 0..20usize {
        let data: Vec<u8> = (0..n as u8).collect();
        assert_eq!(base64_encode(&data).len(), 4 * ((n + 2) / 3));
    }
}

#[test]
fn url_path_strips_resource_prefix() {
    assert_eq!(extract_url_path("/resource/book/1/a.png"), "book/1/a.png");
    assert_eq!(extract_url_path("/resource/resource/x.png"), "x.png");
    assert_eq!(extract_url_path("http://host/static/resource/img/b.jpg"), "img/b.jpg");
    assert_eq!(extract_url_path("/img/c.gif"), "img/c.gif");
    assert_eq!(extract_url_path("///d.png"), "d.png");
    assert_eq!(extract_url_path("resourcefile.png"), "file.png");
    assert_eq!(extract_url_path(""), "");
}

#[test]
fn url_path_never_starts_with_slash() {
    for u in ["/resource//a", "//", "/resource", "x/resource///y", "/"] {
        assert!(!extract_url_path(u).starts_with('/'));
    }
}

#[test]
fn local_image_urls() {
    assert_eq!(build_local_image_url("a/b.png"), "localimg://a/b.png");
    assert_eq!(replace_cover_url(""), "");
    assert_eq!(replace_cover_url("/resource/cover/1.jpg"), "localimg://cover/1.jpg");
}

#[test]
fn replace_image_urls_rewrites_every_occurrence() {
    let html = "<img src=\"/resource/a.png\"><img src=\"/resource/a.png\"><img src=\"/x/b.png\">";
    let out = replace_image_urls(html, &[s("/resource/a.png"), s("/x/b.png")]);
    assert_eq!(
        out,
        "<img src=\"localimg://a.png\"><img src=\"localimg://a.png\"><img src=\"localimg://x/b.png\">"
    );
}

#[test]
fn replace_image_urls_without_matches_is_identity() {
    let html = "<p>no images here</p>";
    assert_eq!(replace_image_urls(html, &[s("/resource/z.png")]), html);
    assert_eq!(replace_image_urls(html, &[]), html);
}

#[test]
fn replace_all_matches_std_replace() {
    let cases = [("aaaa", "aa", "b"), ("abcabc", "bc", "X"), ("abc", "", "-"), ("", "", "x"), ("abc", "z", "y")];
    for (h, f, t) in cases {
        let r = replace_all_exec(&chars_of(h), &chars_of(f), &chars_of(t));
        assert_eq!(string_of(&r), h.replace(f, t));
    }
}

#[test]
fn extract_image_urls_reads_both_quote_styles() {
    let html = "<img src=\"/a.png\"><img src='/b.png'><img src=\"http://x/c.png\"><img src=\"\"><img src=\"/d.png\">";
    assert_eq!(extract_image_urls(html), vec![s("/a.png"), s("/d.png"), s("/b.png")]);
}

#[test]
fn extract_image_urls_stops_at_unclosed_attribute() {
    assert_eq!(extract_image_urls("<img src=\"/a.png\"><img src=\"/b.png"), vec![s("/a.png")]);
    assert_eq!(extract_image_urls("no images"), Vec::<String>::new());
}

#[test]
fn cover_urls_skip_empty_and_duplicate() {
    assert_eq!(build_cover_urls("/a.jpg", "/b.jpg"), vec![s("/a.jpg"), s("/b.jpg")]);
    assert_eq!(build_cover_urls("/a.jpg", "/a.jpg"), vec![s("/a.jpg")]);
    assert_eq!(build_cover_urls("", "/b.jpg"), vec![s("/b.jpg")]);
    assert_eq!(build_cover_urls("", ""), Vec::<String>::new());
}

#[test]
fn download_urls() {
    assert_eq!(image_download_url("/r/a.png", "http://h:8080//"), "http://h:8080/r/a.png");
    assert_eq!(image_download_url("https://cdn/a.png", "http://h"), "https://cdn/a.png");
    assert_eq!(trim_server_host("http://h/"), "http://h");
    assert_eq!(trim_server_host("http://h"), "http://h");
}

#[test]
fn mime_types_by_extension() {
    assert_eq!(mime_type_for_extension(None), "image/jpeg");
    assert_eq!(mime_type_for_extension(Some("JPG")), "image/jpeg");
    assert_eq!(mime_type_for_extension(Some("jpeg")), "image/jpeg");
    assert_eq!(mime_type_for_extension(Some("Png")), "image/png");
    assert_eq!(mime_type_for_extension(Some("gif")), "image/gif");
    assert_eq!(mime_type_for_extension(Some("webp")), "image/webp");
    assert_eq!(mime_type_for_extension(Some("SVG")), "image/svg+xml");
    assert_eq!(mime_type_for_extension(Some("bmp")), "application/octet-stream");
}

#[test]
fn data_url_of_image() {
    assert_eq!(image_data_url(Some("png"), b"foo"), "data:image/png;base64,Zm9v");
    assert_eq!(image_data_url(None, b""), "data:image/jpeg;base64,");
}

#[test]
fn extract_image_urls_takes_only_img_tags() {
    let html = r#"<script src="/app.js"></script><img src="/a.png">"#;
    assert_eq!(extract_image_urls(html), vec![s("/a.png")]);
    let html2 = r#"<p><img alt="x" src="/b.png" /> <iframe src="/f.html"></iframe><img src='/c.png'></p>"#;
    assert_eq!(extract_image_urls(html2), vec![s("/b.png"), s("/c.png")]);
}

#[test]
fn extract_image_urls_reads_values_holding_gt() {
    assert_eq!(extract_image_urls(r#"<img src="/a>">"#), vec![s("/a>")]);
    assert_eq!(extract_image_urls(r#"<img alt=">" src="/a.png">"#), vec![s("/a.png")]);
    assert_eq!(extract_image_urls(r#"<img alt="x"><script src="/s.js"></script>"#), Vec::<String>::new());
}
