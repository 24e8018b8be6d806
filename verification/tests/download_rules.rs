use animus_patch_loader::download::{
    cache_path, cached_copy, check_announced_length, check_content_type, check_downloaded_hash,
    check_downloaded_size, decode_html_attribute, download_percent, extract_href_from_area,
    extract_mediafire_direct_url, follow_redirect, https_only_for, is_mediafire_landing_url,
    is_resumed, parse_download_url, partial_cache_looks_like_zip, range_header, resolve_from_page,
    refusal_text, resume_offset, validate_public_https_url, CachedCopy, UrlRefusal,
};
use animus_patch_loader::error::LoaderError;

fn parts(url: &str) -> animus_patch_loader::download::UrlParts {
    parse_download_url(url).expect("url")
}

#[test]
fn url_parts_come_from_the_url_parser() {
    let p = parts("HTTPS://Example.COM/a/b?x=1");
    assert_eq!(p.scheme, "https");
    assert_eq!(p.host.as_deref(), Some("example.com"));
    assert_eq!(p.path, "/a/b");
    assert_eq!(p.href, "https://example.com/a/b?x=1");
    assert!(parse_download_url("not a url").is_none());
}

#[test]
fn only_public_https_urls_are_fetched() {
    assert_eq!(validate_public_https_url(&parts("https://cdn.example.com/x.zip")), Ok(()));
    assert_eq!(validate_public_https_url(&parts("http://cdn.example.com/x.zip")), Err(UrlRefusal::NotHttps));
    assert_eq!(validate_public_https_url(&parts("https://localhost/x")), Err(UrlRefusal::LocalName));
    assert_eq!(validate_public_https_url(&parts("https://a.localhost/x")), Err(UrlRefusal::LocalName));
    for blocked in [
        "https://10.1.2.3/x",
        "https://172.16.0.1/x",
        "https://172.31.255.255/x",
        "https://192.168.1.1/x",
        "https://127.0.0.1/x",
        "https://169.254.10.10/x",
        "https://0.0.0.0/x",
    ] {
        assert_eq!(validate_public_https_url(&parts(blocked)), Err(UrlRefusal::PrivateAddress), "{blocked}");
    }
    assert_eq!(validate_public_https_url(&parts("https://172.32.0.1/x")), Ok(()));
    assert_eq!(validate_public_https_url(&parts("https://8.8.8.8/x")), Ok(()));
}

#[test]
fn mediafire_landing_pages_are_recognised() {
    assert!(is_mediafire_landing_url(&parts("https://www.mediafire.com/file/abc/patch.zip/file")));
    assert!(is_mediafire_landing_url(&parts("https://MediaFire.com/file/abc/x/file")));
    assert!(!is_mediafire_landing_url(&parts("https://download123.mediafire.com/abc/patch.zip")));
    assert!(!is_mediafire_landing_url(&parts("https://www.mediafire.com/folder/abc")));
}

#[test]
fn attributes_are_decoded_in_order() {
    assert_eq!(decode_html_attribute(b"a&amp;b&#38;c&#x26;d&#x2F;e&#47;f"), b"a&b&c&d/e/f".to_vec());
    assert_eq!(decode_html_attribute(b"&amp;amp;"), b"&amp;".to_vec());
}

#[test]
fn first_https_href_of_an_area() {
    let area = b"<a href=\"http://no\"></a><a href='https://x.example/a&amp;b'>";
    assert_eq!(extract_href_from_area(area), Some(b"https://x.example/a&b".to_vec()));
    assert_eq!(extract_href_from_area(b"<a href=\"https://y\">"), Some(b"https://y".to_vec()));
    assert_eq!(extract_href_from_area(b"<a href=\"https://y"), None);
}

#[test]
fn direct_link_near_the_download_button() {
    let html = b"<html><a class=\"input\" href=\"https://download1.mediafire.com/abc/patch.zip\" id=\"downloadButton\">Download</a></html>";
    assert_eq!(
        extract_mediafire_direct_url(html),
        Some(b"https://download1.mediafire.com/abc/patch.zip".to_vec())
    );
    let (link, p) = resolve_from_page(html, true).unwrap();
    assert_eq!(link, b"https://download1.mediafire.com/abc/patch.zip".to_vec());
    assert_eq!(p.host.as_deref(), Some("download1.mediafire.com"));
}

#[test]
fn escaped_cdn_link_as_last_resort() {
    let html = b"var u = \"https:\\/\\/download42.mediafire.com\\/k\\/file.zip\";";
    assert_eq!(
        extract_mediafire_direct_url(html),
        Some(b"https://download42.mediafire.com/k/file.zip".to_vec())
    );
    let other_host = b"see https://download.example.com/x.zip here";
    assert_eq!(extract_mediafire_direct_url(other_host), None);
    assert!(matches!(resolve_from_page(other_host, true), Err(LoaderError::Other(_))));
}

#[test]
fn cache_is_named_by_hash() {
    assert_eq!(cache_path(&"AB".repeat(32)).unwrap(), format!("{}.zip", "ab".repeat(32)));
    assert!(matches!(cache_path("abc"), Err(LoaderError::Integrity(_))));
    assert!(matches!(cache_path(&"g".repeat(64)), Err(LoaderError::Integrity(_))));
}

#[test]
fn zip_signatures() {
    assert!(partial_cache_looks_like_zip(b"PK\x03\x04rest"));
    assert!(partial_cache_looks_like_zip(b"PK\x05\x06"));
    assert!(partial_cache_looks_like_zip(b"PK\x07\x08"));
    assert!(!partial_cache_looks_like_zip(b"<htm"));
    assert!(!partial_cache_looks_like_zip(b"PK"));
}

#[test]
fn cache_and_resume_decisions() {
    assert_eq!(cached_copy(None, 10), CachedCopy::Absent);
    assert_eq!(cached_copy(Some(10), 10), CachedCopy::Verify);
    assert_eq!(cached_copy(Some(11), 10), CachedCopy::Discard);
    assert_eq!(cached_copy(Some(4), 10), CachedCopy::Partial(4));
    assert_eq!(resume_offset(4, 10, true), 4);
    assert_eq!(resume_offset(4, 10, false), 0);
    assert_eq!(resume_offset(0, 10, false), 0);
    assert_eq!(range_header(4, 10).as_deref(), Some("bytes=4-"));
    assert_eq!(range_header(1234567, 99999999).as_deref(), Some("bytes=1234567-"));
    assert_eq!(range_header(0, 10), None);
    assert!(is_resumed(4, 206));
    assert!(!is_resumed(4, 200));
    assert!(!is_resumed(0, 206));
}

#[test]
fn response_checks() {
    assert!(check_content_type(&Some("Text/HTML; charset=utf-8".into())).is_err());
    assert!(check_content_type(&Some("application/zip".into())).is_ok());
    assert!(check_content_type(&None).is_ok());
    match check_announced_length(false, Some(9), 10) {
        Err(LoaderError::Integrity(m)) => {
            assert_eq!(m, "İndirilen dosya boyutu uyuşmuyor. Beklenen: 10 bayt, sunucu: 9 bayt")
        }
        other => panic!("{:?}", other.map(|_| ())),
    }
    assert!(check_announced_length(true, Some(9), 10).is_ok());
    assert!(check_announced_length(false, None, 10).is_ok());
    match check_downloaded_size(1234567, 10) {
        Err(LoaderError::Integrity(m)) => {
            assert_eq!(m, "İndirilen dosya boyutu uyuşmuyor. Beklenen: 10 bayt, indirilen: 1234567 bayt")
        }
        other => panic!("{:?}", other.map(|_| ())),
    }
    assert!(check_downloaded_hash("ABC", "abc").is_ok());
    let mut h = animus_patch_loader::hashing::Sha256State::new();
    h.update(b"abc");
    assert!(animus_patch_loader::download::check_download_digest(
        h,
        "BA7816BF8F01CFEA414140DE5DAE2223B00361A396177A9CB410FF61F20015AD"
    )
    .is_ok());
    let mut h = animus_patch_loader::hashing::Sha256State::new();
    h.update(b"abd");
    assert!(matches!(
        animus_patch_loader::download::check_download_digest(
            h,
            "ba7816bf8f01cfea414140de5dae2223b00361a396177a9cb410ff61f20015ad"
        ),
        Err(LoaderError::Integrity(_))
    ));
    assert!(matches!(check_downloaded_hash("abd", "abc"), Err(LoaderError::Integrity(_))));
}

#[test]
fn progress_and_redirects() {
    assert_eq!(download_percent(5, 10), 25);
    assert_eq!(download_percent(10, 10), 50);
    assert_eq!(download_percent(20, 10), 50);
    assert_eq!(download_percent(3, 0), 50);
    assert_eq!(download_percent(u64::MAX, u64::MAX), 1);
    assert!(follow_redirect(true, true, 7));
    assert!(!follow_redirect(true, true, 8));
    assert!(!follow_redirect(true, false, 0));
    assert!(follow_redirect(false, false, 0));
    assert!(!https_only_for("http://127.0.0.1:8000/x", true));
    assert!(https_only_for("http://127.0.0.1:8000/x", false));
    assert!(https_only_for("https://example.com", true));
}

#[test]
fn refused_addresses_are_explained() {
    assert_eq!(refusal_text(UrlRefusal::NotHttps), "Yama indirme adresi HTTPS olmalıdır");
    assert_eq!(refusal_text(UrlRefusal::NoHost), "İndirme adresinde host yok");
    assert_eq!(refusal_text(UrlRefusal::LocalName), "Yerel ağ indirme adresi reddedildi");
    assert_eq!(refusal_text(UrlRefusal::PrivateAddress), "Private/yerel IP indirme adresi reddedildi");
    let page = b"<html><a class=\"input\" href=\"https://localhost/abc/patch.zip\" id=\"downloadButton\">Download</a></html>";
    assert!(extract_mediafire_direct_url(page).is_some());
    match resolve_from_page(page, true) {
        Err(LoaderError::Other(m)) => assert_eq!(m, "Yerel ağ indirme adresi reddedildi"),
        other => panic!("{:?}", other.map(|(_, p)| p.href)),
    }
}
