//! Image URLs of book pages: where a downloaded image is kept, how remote image URLs
//! in page HTML and covers are rewritten to the local image scheme, which image
//! URLs a page refers to, and how a cached image becomes a data URL.

use vstd::prelude::*;
use crate::base64::{base64_decode_spec, base64_encode, base64_spec, law_base64_round_trip};
use crate::text::{
    append_chars, chars_of, find, find_from, find_from_exec, matches_at, lemma_find_from_some, lemma_trim_start_char,
    matches_at_exec, replace_all, replace_all_exec, starts_with, string_of, sub_chars,
    trim_prefix_all, trim_prefix_all_exec, trim_start_char, trim_start_char_exec, views,
    lemma_find_from_skip, push_string, chars_eq, trim_end_char, trim_end_char_exec, lemma_trim_end_char,
    law_replace_absent_unchanged,
};

verus! {

/// `resource`, the path segment under which the server publishes book images.
pub open spec fn resource_word() -> Seq<char> {
    seq!['r', 'e', 's', 'o', 'u', 'r', 'c', 'e']
}

/// `/resource`.
pub open spec fn slash_resource() -> Seq<char> {
    seq!['/'] + resource_word()
}

/// `localimg://`, the scheme under which the page loads downloaded images.
pub open spec fn local_scheme() -> Seq<char> {
    seq!['l', 'o', 'c', 'a', 'l', 'i', 'm', 'g', ':', '/', '/']
}

/// The relative path of an image URL: every leading `/resource` removed, or else
/// everything up to and including the first `resource`; then every leading `/`.
pub open spec fn url_path_spec(u: Seq<char>) -> Seq<char> {
    let trimmed = if starts_with(u, slash_resource()) {
        trim_prefix_all(u, slash_resource())
    } else {
        match find(u, resource_word()) {
            Some(i) => u.skip(i + 8),
            None => u,
        }
    };
    trim_start_char(trimmed, '/')
}

/// The local-scheme URL for a relative image path.
pub open spec fn local_url_spec(path: Seq<char>) -> Seq<char> {
    local_scheme() + path
}

/// A cover URL as the page loads it when local images are used.
pub open spec fn cover_url_spec(c: Seq<char>) -> Seq<char> {
    if c.len() == 0 {
        c
    } else {
        local_url_spec(url_path_spec(c))
    }
}

/// Page HTML with each listed image URL, in turn, replaced by its local-scheme URL.
pub open spec fn replace_image_urls_spec(html: Seq<char>, urls: Seq<Seq<char>>) -> Seq<char>
    decreases urls.len(),
{
    if urls.len() == 0 {
        html
    } else {
        let u = urls.last();
        replace_all(
            replace_image_urls_spec(html, urls.drop_last()),
            u,
            local_url_spec(url_path_spec(u)),
        )
    }
}

fn resource_chars() -> (v: Vec<char>)
    ensures
        v@ == resource_word(),
{
    let v = vec!['r', 'e', 's', 'o', 'u', 'r', 'c', 'e'];
    assert(v@ == resource_word());
    v
}

fn slash_resource_chars() -> (v: Vec<char>)
    ensures
        v@ == slash_resource(),
{
    let v = vec!['/', 'r', 'e', 's', 'o', 'u', 'r', 'c', 'e'];
    assert(v@ == slash_resource());
    v
}

fn url_path_chars(u: &[char]) -> (r: Vec<char>)
    ensures
        r@ == url_path_spec(u@),
{
    let n = u.len();
    let sr = slash_resource_chars();
    let start: usize = if matches_at_exec(u, &sr, 0) {
        trim_prefix_all_exec(u, &sr)
    } else {
        let rw = resource_chars();
        match find_from_exec(u, &rw, 0) {
            Some(i) => {
                proof {
                    lemma_find_from_some(u@, resource_word(), 0);
                    assert(find_from(u@, resource_word(), 0) == Some(i as int));
                    assert(matches_at(u@, resource_word(), i as int));
                    assert(resource_word().len() == 8);
                }
                i + 8
            },
            None => {
                assert(u@.skip(0) == u@);
                0
            },
        }
    };
    let trimmed = sub_chars(u, start, u.len());
    assert(trimmed@ == u@.skip(start as int));
    let k = trim_start_char_exec(&trimmed, '/');
    sub_chars(&trimmed, k, trimmed.len())
}

/// The relative path under which an image is stored and served locally.
/// The result never starts with `/`.
pub fn extract_url_path(image_url: &str) -> (res: String)
    ensures
        res@ == url_path_spec(image_url@),
        res@.len() == 0 || res@[0] != '/',
{
    let u = chars_of(image_url);
    let r = url_path_chars(&u);
    proof {
        let t = if starts_with(u@, slash_resource()) {
            trim_prefix_all(u@, slash_resource())
        } else {
            match find(u@, resource_word()) {
                Some(i) => u@.skip(i + 8),
                None => u@,
            }
        };
        lemma_trim_start_char(t, '/');
    }
    string_of(&r)
}

fn local_url_chars(path: &[char]) -> (r: Vec<char>)
    ensures
        r@ == local_url_spec(path@),
{
    let mut r = vec!['l', 'o', 'c', 'a', 'l', 'i', 'm', 'g', ':', '/', '/'];
    assert(r@ == local_scheme());
    append_chars(&mut r, path);
    r
}

/// The local-scheme URL (`localimg://` followed by the path) for a relative image path.
pub fn build_local_image_url(url_path: &str) -> (res: String)
    ensures
        res@ == local_url_spec(url_path@),
{
    let p = chars_of(url_path);
    string_of(&local_url_chars(&p))
}

/// A cover URL rewritten to the local scheme; an empty URL stays empty.
pub fn replace_cover_url(cover_url: &str) -> (res: String)
    ensures
        res@ == cover_url_spec(cover_url@),
{
    let c = chars_of(cover_url);
    if c.len() == 0 {
        return string_of(&c);
    }
    let p = url_path_chars(&c);
    string_of(&local_url_chars(&p))
}

/// Page HTML with every occurrence of each listed image URL replaced, URL after URL in
/// the given order, by that image's local-scheme URL.
pub fn replace_image_urls(html: &str, image_urls: &[String]) -> (res: String)
    ensures
        res@ == replace_image_urls_spec(html@, views(image_urls@)),
{
    let mut cur = chars_of(html);
    let mut i: usize = 0;
    assert(views(image_urls@).take(0) =~= Seq::<Seq<char>>::empty());
    while i < image_urls.len()
        invariant
            i <= image_urls@.len(),
            cur@ == replace_image_urls_spec(html@, views(image_urls@).take(i as int)),
        decreases image_urls@.len() - i,
    {
        let u = chars_of(image_urls[i].as_str());
        let local = local_url_chars(&url_path_chars(&u));
        cur = replace_all_exec(&cur, &u, &local);
        proof {
            let vs = views(image_urls@);
            assert(vs.take(i + 1).drop_last() == vs.take(i as int));
            assert(vs.take(i + 1).last() == u@);
        }
        i = i + 1;
    }
    assert(views(image_urls@).take(image_urls@.len() as int) == views(image_urls@));
    string_of(&cur)
}

} // verus!

verus! {

/// `src=` followed by the quote `q`.
pub open spec fn src_open(q: char) -> Seq<char> {
    seq!['s', 'r', 'c', '=', q]
}

/// `<img`, the start of an image tag.
pub open spec fn img_open() -> Seq<char> {
    seq!['<', 'i', 'm', 'g']
}

/// An image URL the downloader keeps: non-empty and starting with `/`.
pub open spec fn is_site_path(url: Seq<char>) -> bool {
    url.len() > 0 && url[0] == '/'
}

/// `s` has a `<` before position `k`.
pub open spec fn lt_before(s: Seq<char>, k: int) -> bool {
    match find(s, seq!['<']) {
        Some(l) => l < k,
        None => false,
    }
}

/// The `src` values quoted with `q` of the `<img` tags of `s`, in order. After each
/// `<img`, the first `src=` + `q` that comes before any further `<` opens the value,
/// which runs to the next `q` (so it may hold `>`); it is kept when it is a site path,
/// and the scan goes on after its closing quote. An `<img` with no such attribute before
/// the next tag is passed over; an unclosed value, or no `src=` + `q` at all, ends the
/// scan.
pub open spec fn scan_img_src_urls(s: Seq<char>, q: char) -> Seq<Seq<char>>
    decreases s.len(),
{
    match find(s, img_open()) {
        None => seq![],
        Some(st) => {
            proof {
                lemma_find_from_some(s, img_open(), 0);
            }
            let after = s.skip(st + 4);
            match find(after, src_open(q)) {
                None => seq![],
                Some(k) => if lt_before(after, k) {
                    scan_img_src_urls(after, q)
                } else {
                    proof {
                        lemma_find_from_some(after, src_open(q), 0);
                    }
                    let v = after.skip(k + 5);
                    match find(v, seq![q]) {
                        None => seq![],
                        Some(e) => {
                            proof {
                                lemma_find_from_some(v, seq![q], 0);
                            }
                            (if is_site_path(v.take(e)) {
                                seq![v.take(e)]
                            } else {
                                seq![]
                            }) + scan_img_src_urls(v.skip(e + 1), q)
                        },
                    }
                },
            }
        },
    }
}

/// The image URLs referenced by page HTML: the `src` values of its `<img` tags, those
/// quoted with `"` first, then those quoted with `'`.
pub open spec fn image_urls_spec(html: Seq<char>) -> Seq<Seq<char>> {
    scan_img_src_urls(html, '"') + scan_img_src_urls(html, '\'')
}

fn src_open_chars(q: char) -> (v: Vec<char>)
    ensures
        v@ == src_open(q),
{
    let v = vec!['s', 'r', 'c', '=', q];
    assert(v@ == src_open(q));
    v
}

fn scan_img_src_urls_into(s: &[char], q: char, out: &mut Vec<String>)
    ensures
        views(final(out)@) == views(old(out)@) + scan_img_src_urls(s@, q),
{
    let n = s.len();
    let img = vec!['<', 'i', 'm', 'g'];
    assert(img@ == img_open());
    let lt = vec!['<'];
    assert(lt@ == seq!['<']);
    let open = src_open_chars(q);
    let close = vec![q];
    assert(close@ == seq![q]);
    let mut pos: usize = 0;
    assert(s@.skip(0) == s@);
    assert(views(out@) == views(old(out)@) + Seq::<Seq<char>>::empty());
    loop
        invariant
            n == s@.len(),
            pos <= n,
            img@ == img_open(),
            lt@ == seq!['<'],
            open@ == src_open(q),
            close@ == seq![q],
            views(old(out)@) + scan_img_src_urls(s@, q) == views(out@) + scan_img_src_urls(
                s@.skip(pos as int),
                q,
            ),
        decreases n - pos,
    {
        let ghost rem = s@.skip(pos as int);
        proof {
            lemma_find_from_skip(s@, img_open(), pos as int, 0);
        }
        let st = match find_from_exec(s, &img, pos) {
            Some(st) => st,
            None => {
                assert(scan_img_src_urls(rem, q) == Seq::<Seq<char>>::empty());
                assert(views(out@) + Seq::<Seq<char>>::empty() == views(out@));
                return;
            },
        };
        proof {
            lemma_find_from_some(s@, img_open(), pos as int);
        }
        let a = st + 4;
        let ghost after = rem.skip(st - pos + 4);
        assert(after == s@.skip(a as int));
        proof {
            lemma_find_from_skip(s@, src_open(q), a as int, 0);
            lemma_find_from_skip(s@, seq!['<'], a as int, 0);
        }
        let k = match find_from_exec(s, &open, a) {
            Some(k) => k,
            None => {
                assert(scan_img_src_urls(rem, q) == Seq::<Seq<char>>::empty());
                assert(views(out@) + Seq::<Seq<char>>::empty() == views(out@));
                return;
            },
        };
        proof {
            lemma_find_from_some(s@, src_open(q), a as int);
            assert(src_open(q).len() == 5);
        }
        let skip_tag = match find_from_exec(s, &lt, a) {
            Some(l) => l < k,
            None => false,
        };
        assert(skip_tag == lt_before(after, k - a));
        if skip_tag {
            assert(scan_img_src_urls(rem, q) == scan_img_src_urls(s@.skip(a as int), q));
            pos = a;
        } else {
            let vs = k + 5;
            let ghost v = after.skip(k - a + 5);
            assert(v == s@.skip(vs as int));
            proof {
                lemma_find_from_skip(s@, seq![q], vs as int, 0);
            }
            let e = match find_from_exec(s, &close, vs) {
                Some(e) => e,
                None => {
                    assert(scan_img_src_urls(rem, q) == Seq::<Seq<char>>::empty());
                    assert(views(out@) + Seq::<Seq<char>>::empty() == views(out@));
                    return;
                },
            };
            proof {
                lemma_find_from_some(s@, seq![q], vs as int);
            }
            let url = sub_chars(s, vs, e);
            assert(url@ == v.take(e - vs));
            let ghost before = views(out@);
            let ghost piece: Seq<Seq<char>> = if is_site_path(url@) {
                seq![url@]
            } else {
                seq![]
            };
            if url.len() > 0 && url[0] == '/' {
                push_string(out, &url);
                assert(views(out@) == before + piece);
            } else {
                assert(views(out@) == before + piece);
            }
            assert(v.skip(e - vs + 1) == s@.skip(e + 1));
            assert(scan_img_src_urls(rem, q) == piece + scan_img_src_urls(s@.skip(e + 1), q));
            assert(before + (piece + scan_img_src_urls(s@.skip(e + 1), q)) == (before + piece)
                + scan_img_src_urls(s@.skip(e + 1), q));
            pos = e + 1;
        }
    }
}

/// The image URLs referenced by page HTML: the `src` values of its `<img` tags, those of
/// `src="..."` first, then those of `src='...'`, each in order of appearance, keeping
/// only values that start with `/`.
pub fn extract_image_urls(html: &str) -> (urls: Vec<String>)
    ensures
        views(urls@) == image_urls_spec(html@),
        forall|i: int| 0 <= i < urls@.len() ==> is_site_path(#[trigger] urls@[i]@),
{
    let s = chars_of(html);
    let mut urls: Vec<String> = Vec::new();
    assert(views(urls@) =~= Seq::<Seq<char>>::empty());
    scan_img_src_urls_into(&s, '"', &mut urls);
    scan_img_src_urls_into(&s, '\'', &mut urls);
    assert(views(urls@) == image_urls_spec(html@));
    proof {
        lemma_image_urls_are_site_paths(html@);
        assert forall|i: int| 0 <= i < urls@.len() implies is_site_path(#[trigger] urls@[i]@) by {
            assert(views(urls@)[i] == urls@[i]@);
        }
    }
    urls
}

proof fn lemma_concat_site_paths(a: Seq<Seq<char>>, b: Seq<Seq<char>>)
    requires
        forall|i: int| 0 <= i < a.len() ==> is_site_path(#[trigger] a[i]),
        forall|i: int| 0 <= i < b.len() ==> is_site_path(#[trigger] b[i]),
    ensures
        forall|i: int| 0 <= i < (a + b).len() ==> is_site_path(#[trigger] (a + b)[i]),
{
    assert forall|i: int| 0 <= i < (a + b).len() implies is_site_path(#[trigger] (a + b)[i]) by {
        if i < a.len() {
            assert((a + b)[i] == a[i]);
        } else {
            assert((a + b)[i] == b[i - a.len()]);
        }
    }
}

proof fn lemma_scan_site_paths(s: Seq<char>, q: char)
    ensures
        forall|i: int|
            0 <= i < scan_img_src_urls(s, q).len() ==> is_site_path(#[trigger] scan_img_src_urls(s, q)[i]),
    decreases s.len(),
{
    match find(s, img_open()) {
        None => {},
        Some(st) => {
            lemma_find_from_some(s, img_open(), 0);
            let after = s.skip(st + 4);
            match find(after, src_open(q)) {
                None => {},
                Some(k) => {
                    if lt_before(after, k) {
                        lemma_scan_site_paths(after, q);
                        assert(scan_img_src_urls(s, q) == scan_img_src_urls(after, q));
                    } else {
                        lemma_find_from_some(after, src_open(q), 0);
                        let v = after.skip(k + 5);
                        match find(v, seq![q]) {
                            None => {},
                            Some(e) => {
                                lemma_find_from_some(v, seq![q], 0);
                                lemma_scan_site_paths(v.skip(e + 1), q);
                                let piece: Seq<Seq<char>> = if is_site_path(v.take(e)) {
                                    seq![v.take(e)]
                                } else {
                                    seq![]
                                };
                                lemma_concat_site_paths(piece, scan_img_src_urls(v.skip(e + 1), q));
                                assert(scan_img_src_urls(s, q) == piece + scan_img_src_urls(v.skip(e + 1), q));
                            },
                        }
                    }
                },
            }
        },
    }
}

/// Every URL reported for a page is a site path.
pub proof fn lemma_image_urls_are_site_paths(html: Seq<char>)
    ensures
        forall|i: int|
            0 <= i < image_urls_spec(html).len() ==> is_site_path(#[trigger] image_urls_spec(html)[i]),
{
    lemma_scan_site_paths(html, '"');
    lemma_scan_site_paths(html, '\'');
    lemma_concat_site_paths(scan_img_src_urls(html, '"'), scan_img_src_urls(html, '\''));
}

} // verus!

verus! {

/// The cover images registered for download: the cover if it is non-empty, then the
/// large cover if it is non-empty and differs from the cover.
pub open spec fn cover_urls_spec(cover: Seq<char>, big: Seq<char>) -> Seq<Seq<char>> {
    (if cover.len() > 0 {
        seq![cover]
    } else {
        seq![]
    }) + (if big.len() > 0 && big != cover {
        seq![big]
    } else {
        seq![]
    })
}

/// The cover URLs to register for download, without empty or repeated entries.
pub fn build_cover_urls(cover_pic: &str, big_cover_pic: &str) -> (urls: Vec<String>)
    ensures
        views(urls@) == cover_urls_spec(cover_pic@, big_cover_pic@),
        urls@.len() <= 2,
        forall|i: int| 0 <= i < urls@.len() ==> (#[trigger] urls@[i])@.len() > 0,
        urls@.len() == 2 ==> urls@[0]@ != urls@[1]@,
{
    let c = chars_of(cover_pic);
    let b = chars_of(big_cover_pic);
    let mut urls: Vec<String> = Vec::new();
    assert(views(urls@) =~= Seq::<Seq<char>>::empty());
    if c.len() > 0 {
        push_string(&mut urls, &c);
    }
    let ghost first = views(urls@);
    if b.len() > 0 && !chars_eq(&b, &c) {
        push_string(&mut urls, &b);
    }
    assert(views(urls@) =~= cover_urls_spec(cover_pic@, big_cover_pic@));
    assert forall|i: int| 0 <= i < urls@.len() implies (#[trigger] urls@[i])@.len() > 0 by {
        assert(views(urls@)[i] == urls@[i]@);
    }
    if urls.len() == 2 {
        assert(views(urls@)[0] == urls@[0]@ && views(urls@)[1] == urls@[1]@);
    }
    urls
}

/// `http`.
pub open spec fn http_word() -> Seq<char> {
    seq!['h', 't', 't', 'p']
}

/// The server address with its trailing slashes removed.
pub fn trim_server_host(server_host: &str) -> (res: String)
    ensures
        res@ == trim_end_char(server_host@, '/'),
{
    let h = chars_of(server_host);
    let k = trim_end_char_exec(&h, '/');
    let t = sub_chars(&h, 0, k);
    assert(t@ == h@.take(k as int));
    string_of(&t)
}

/// The address an image is fetched from: the URL itself when it starts with `http`,
/// otherwise the server address (trailing slashes removed) followed by the URL.
pub open spec fn download_url_spec(image_url: Seq<char>, server_host: Seq<char>) -> Seq<char> {
    if starts_with(image_url, http_word()) {
        image_url
    } else {
        trim_end_char(server_host, '/') + image_url
    }
}

/// The address an image is fetched from.
pub fn image_download_url(image_url: &str, server_host: &str) -> (res: String)
    ensures
        res@ == download_url_spec(image_url@, server_host@),
{
    let u = chars_of(image_url);
    let http = vec!['h', 't', 't', 'p'];
    assert(http@ == http_word());
    if matches_at_exec(&u, &http, 0) {
        return string_of(&u);
    }
    let h = chars_of(server_host);
    let k = trim_end_char_exec(&h, '/');
    let mut r = sub_chars(&h, 0, k);
    assert(r@ == h@.take(k as int));
    append_chars(&mut r, &u);
    string_of(&r)
}

/// An image URL that begins with `http` (so `http://` and `https://` alike) is fetched
/// from itself, unchanged. Any other URL is fetched from the server address with its
/// trailing slashes removed, followed by the URL; so the address always ends with the URL.
pub proof fn law_image_address(image_url: Seq<char>, server_host: Seq<char>)
    ensures
        ({
            let u = image_url;
            u.len() >= 4 && u[0] == 'h' && u[1] == 't' && u[2] == 't' && u[3] == 'p'
        }) ==> download_url_spec(image_url, server_host) == image_url,
        !({
            let u = image_url;
            u.len() >= 4 && u[0] == 'h' && u[1] == 't' && u[2] == 't' && u[3] == 'p'
        }) ==> {
            let a = download_url_spec(image_url, server_host);
            let h = trim_end_char(server_host, '/');
            &&& a == h + image_url
            &&& h.is_prefix_of(server_host)
            &&& h.len() > 0 ==> h.last() != '/'
            &&& forall|i: int| h.len() <= i < server_host.len() ==> server_host[i] == '/'
        },
        image_url.is_suffix_of(download_url_spec(image_url, server_host)),
{
    let u = image_url;
    let starts = u.len() >= 4 && u[0] == 'h' && u[1] == 't' && u[2] == 't' && u[3] == 'p';
    if starts {
        assert(u.subrange(0, 4) =~= http_word());
    } else if u.len() >= 4 {
        assert(u.subrange(0, 4)[0] == u[0] && u.subrange(0, 4)[1] == u[1]);
        assert(u.subrange(0, 4)[2] == u[2] && u.subrange(0, 4)[3] == u[3]);
    }
    lemma_trim_end_char(server_host, '/');
    let a = download_url_spec(image_url, server_host);
    assert(a.subrange(a.len() - u.len(), a.len() as int) =~= u);
}

/// What `str::to_lowercase` returns for `s`.
pub uninterp spec fn lowercase_of(s: Seq<char>) -> Seq<char>;

/// `str::to_lowercase`: the Unicode lowercase of `s`, a function of `s` alone.
#[verifier::external_body]
fn to_lowercase(s: &str) -> (res: String)
    ensures
        res@ == lowercase_of(s@),
{
    s.to_lowercase()
}

/// The MIME type of a cached image, by its file extension compared case-insensitively;
/// a file without extension is taken for JPEG.
pub open spec fn mime_spec(ext: Option<Seq<char>>) -> Seq<char> {
    match ext {
        None => seq!['i', 'm', 'a', 'g', 'e', '/', 'j', 'p', 'e', 'g'],
        Some(e) => {
            let l = lowercase_of(e);
            if l == seq!['j', 'p', 'g'] || l == seq!['j', 'p', 'e', 'g'] {
                seq!['i', 'm', 'a', 'g', 'e', '/', 'j', 'p', 'e', 'g']
            } else if l == seq!['p', 'n', 'g'] {
                seq!['i', 'm', 'a', 'g', 'e', '/', 'p', 'n', 'g']
            } else if l == seq!['g', 'i', 'f'] {
                seq!['i', 'm', 'a', 'g', 'e', '/', 'g', 'i', 'f']
            } else if l == seq!['w', 'e', 'b', 'p'] {
                seq!['i', 'm', 'a', 'g', 'e', '/', 'w', 'e', 'b', 'p']
            } else if l == seq!['s', 'v', 'g'] {
                seq!['i', 'm', 'a', 'g', 'e', '/', 's', 'v', 'g', '+', 'x', 'm', 'l']
            } else {
                seq![
                    'a', 'p', 'p', 'l', 'i', 'c', 'a', 't', 'i', 'o', 'n', '/', 'o', 'c', 't', 'e', 't',
                    '-', 's', 't', 'r', 'e', 'a', 'm'
                ]
            }
        },
    }
}

fn mime_chars(ext: Option<&str>) -> (r: Vec<char>)
    ensures
        r@ == mime_spec(
            match ext {
                Some(e) => Some(e@),
                None => None,
            },
        ),
{
    let jpeg = vec!['i', 'm', 'a', 'g', 'e', '/', 'j', 'p', 'e', 'g'];
    match ext {
        None => jpeg,
        Some(e) => {
            let l = chars_of(to_lowercase(e).as_str());
            let (jpg, jpe, png, gif, webp, svg) = (
                vec!['j', 'p', 'g'],
                vec!['j', 'p', 'e', 'g'],
                vec!['p', 'n', 'g'],
                vec!['g', 'i', 'f'],
                vec!['w', 'e', 'b', 'p'],
                vec!['s', 'v', 'g'],
            );
            if chars_eq(&l, &jpg) || chars_eq(&l, &jpe) {
                jpeg
            } else if chars_eq(&l, &png) {
                vec!['i', 'm', 'a', 'g', 'e', '/', 'p', 'n', 'g']
            } else if chars_eq(&l, &gif) {
                vec!['i', 'm', 'a', 'g', 'e', '/', 'g', 'i', 'f']
            } else if chars_eq(&l, &webp) {
                vec!['i', 'm', 'a', 'g', 'e', '/', 'w', 'e', 'b', 'p']
            } else if chars_eq(&l, &svg) {
                vec!['i', 'm', 'a', 'g', 'e', '/', 's', 'v', 'g', '+', 'x', 'm', 'l']
            } else {
                vec![
                    'a', 'p', 'p', 'l', 'i', 'c', 'a', 't', 'i', 'o', 'n', '/', 'o', 'c', 't', 'e', 't',
                    '-', 's', 't', 'r', 'e', 'a', 'm',
                ]
            }
        },
    }
}

/// The MIME type of a cached image with the given file extension.
pub fn mime_type_for_extension(ext: Option<&str>) -> (res: String)
    ensures
        res@ == mime_spec(
            match ext {
                Some(e) => Some(e@),
                None => None,
            },
        ),
{
    string_of(&mime_chars(ext))
}

/// `data:` + MIME type + `;base64,` + the Base64 of the image bytes.
pub open spec fn data_url_spec(ext: Option<Seq<char>>, data: Seq<u8>) -> Seq<char> {
    seq!['d', 'a', 't', 'a', ':'] + mime_spec(ext) + seq![';', 'b', 'a', 's', 'e', '6', '4', ','] + base64_spec(data)
}

/// The data URL under which a cached image is handed to the page.
pub fn image_data_url(ext: Option<&str>, data: &[u8]) -> (res: String)
    ensures
        res@ == data_url_spec(
            match ext {
                Some(e) => Some(e@),
                None => None,
            },
            data@,
        ),
{
    let mut r = vec!['d', 'a', 't', 'a', ':'];
    let m = mime_chars(ext);
    append_chars(&mut r, &m);
    let sep = vec![';', 'b', 'a', 's', 'e', '6', '4', ','];
    append_chars(&mut r, &sep);
    let b = chars_of(base64_encode(data).as_str());
    append_chars(&mut r, &b);
    string_of(&r)
}

} // verus!

verus! {

/// A page that contains none of the downloaded image URLs (all non-empty) is shown
/// unchanged.
pub proof fn law_localize_without_matches(html: Seq<char>, urls: Seq<Seq<char>>)
    requires
        forall|i: int| 0 <= i < urls.len() ==> (#[trigger] urls[i]).len() > 0 && find(html, urls[i]) is None,
    ensures
        replace_image_urls_spec(html, urls) == html,
    decreases urls.len(),
{
    if urls.len() > 0 {
        let rest = urls.drop_last();
        assert forall|i: int| 0 <= i < rest.len() implies (#[trigger] rest[i]).len() > 0 && find(html, rest[i]) is None by {
            assert(rest[i] == urls[i]);
        }
        law_localize_without_matches(html, rest);
        let u = urls.last();
        assert(u == urls[urls.len() - 1]);
        law_replace_absent_unchanged(html, u, local_url_spec(url_path_spec(u)));
    }
}

/// The MIME type follows the extension, whatever its case: PNG, GIF and WebP images are
/// `image/` followed by the lowercase extension; `jpg` and `jpeg` are both
/// `image/jpeg`, as is a file without extension; `svg` is `image/svg+xml`; any other
/// extension is `application/octet-stream`.
pub proof fn law_mime_follows_extension(e: Seq<char>)
    ensures
        ({
            let l = lowercase_of(e);
            l == seq!['p', 'n', 'g'] || l == seq!['g', 'i', 'f'] || l == seq!['w', 'e', 'b', 'p']
        }) ==> mime_spec(Some(e)) == seq!['i', 'm', 'a', 'g', 'e', '/'] + lowercase_of(e),
        ({
            let l = lowercase_of(e);
            l == seq!['j', 'p', 'g'] || l == seq!['j', 'p', 'e', 'g']
        }) ==> mime_spec(Some(e)) == mime_spec(None),
        mime_spec(None) == seq!['i', 'm', 'a', 'g', 'e', '/'] + seq!['j', 'p', 'e', 'g'],
        lowercase_of(e) == seq!['s', 'v', 'g'] ==> mime_spec(Some(e)) == seq!['i', 'm', 'a', 'g', 'e', '/']
            + lowercase_of(e) + seq!['+', 'x', 'm', 'l'],
        ({
            let l = lowercase_of(e);
            !(l == seq!['p', 'n', 'g'] || l == seq!['g', 'i', 'f'] || l == seq!['w', 'e', 'b', 'p'] || l
                == seq!['j', 'p', 'g'] || l == seq!['j', 'p', 'e', 'g'] || l == seq!['s', 'v', 'g'])
        }) ==> mime_spec(Some(e)) == seq!['a', 'p', 'p', 'l', 'i', 'c', 'a', 't', 'i', 'o', 'n', '/']
            + seq!['o', 'c', 't', 'e', 't', '-', 's', 't', 'r', 'e', 'a', 'm'],
{
    let l = lowercase_of(e);
    assert(seq!['i', 'm', 'a', 'g', 'e', '/'] + seq!['j', 'p', 'e', 'g'] =~= seq![
        'i', 'm', 'a', 'g', 'e', '/', 'j', 'p', 'e', 'g'
    ]);
    assert(seq!['a', 'p', 'p', 'l', 'i', 'c', 'a', 't', 'i', 'o', 'n', '/'] + seq![
        'o', 'c', 't', 'e', 't', '-', 's', 't', 'r', 'e', 'a', 'm'
    ] =~= seq![
        'a', 'p', 'p', 'l', 'i', 'c', 'a', 't', 'i', 'o', 'n', '/', 'o', 'c', 't', 'e', 't', '-', 's',
        't', 'r', 'e', 'a', 'm'
    ]);
    if l == seq!['p', 'n', 'g'] {
        assert(seq!['i', 'm', 'a', 'g', 'e', '/'] + l =~= seq!['i', 'm', 'a', 'g', 'e', '/', 'p', 'n', 'g']);
    } else if l == seq!['g', 'i', 'f'] {
        assert(seq!['i', 'm', 'a', 'g', 'e', '/'] + l =~= seq!['i', 'm', 'a', 'g', 'e', '/', 'g', 'i', 'f']);
    } else if l == seq!['w', 'e', 'b', 'p'] {
        assert(seq!['i', 'm', 'a', 'g', 'e', '/'] + l =~= seq!['i', 'm', 'a', 'g', 'e', '/', 'w', 'e', 'b', 'p']);
    } else if l == seq!['s', 'v', 'g'] {
        assert(seq!['i', 'm', 'a', 'g', 'e', '/'] + l + seq!['+', 'x', 'm', 'l'] =~= seq![
            'i', 'm', 'a', 'g', 'e', '/', 's', 'v', 'g', '+', 'x', 'm', 'l'
        ]);
    }
}

/// A data URL is `data:`, the MIME type, `;base64,` and then a Base64 text that decodes
/// to exactly the image bytes.
pub proof fn law_data_url_carries_bytes(ext: Option<Seq<char>>, data: Seq<u8>)
    ensures
        ({
            let u = data_url_spec(ext, data);
            let head = seq!['d', 'a', 't', 'a', ':'] + mime_spec(ext) + seq![';', 'b', 'a', 's', 'e', '6', '4', ','];
            &&& head.is_prefix_of(u)
            &&& base64_decode_spec(u.skip(head.len() as int)) == data
        }),
{
    let u = data_url_spec(ext, data);
    let head = seq!['d', 'a', 't', 'a', ':'] + mime_spec(ext) + seq![';', 'b', 'a', 's', 'e', '6', '4', ','];
    assert(u == head + base64_spec(data));
    assert(u.subrange(0, head.len() as int) =~= head);
    assert(u.skip(head.len() as int) =~= base64_spec(data));
    law_base64_round_trip(data);
}

/// An empty cover stays empty; any other cover is served from the local scheme.
pub proof fn law_cover_url_shape(c: Seq<char>)
    ensures
        c.len() == 0 ==> cover_url_spec(c) == c,
        c.len() > 0 ==> starts_with(cover_url_spec(c), local_scheme()),
{
    if c.len() > 0 {
        let r = cover_url_spec(c);
        assert(r.subrange(0, local_scheme().len() as int) == local_scheme());
    }
}

} // verus!
