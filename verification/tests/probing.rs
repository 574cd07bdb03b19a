use panda_dl::http::HttpDownloader;
use panda_dl::probe::{read_reply, HttpReply, ProbeNext, ProbeResult, ProbeStrategy};

const URL: &str = "https://example.com/pub/disk.img";

fn reply(status: u16, status_text: &str) -> HttpReply {
    HttpReply {
        status,
        status_text: status_text.to_string(),
        content_disposition: None,
        content_length: None,
        content_range: None,
        accept_ranges: None,
    }
}

fn some(s: &str) -> Option<String> {
    Some(s.to_string())
}

fn found(filename: &str, total_bytes: Option<u64>, supports_ranges: bool) -> ProbeResult {
    ProbeResult { filename: filename.to_string(), total_bytes, supports_ranges }
}

#[test]
fn a_partial_reply_gives_the_size_of_the_whole() {
    for (range, total) in [
        (some("bytes 0-0/1234"), Some(1234)),
        (some("bytes 0-0/ 77 "), Some(77)),
        (some("bytes 0-0/*"), None),
        (some("1234"), Some(1234)),
        (some("bytes 0-0/"), None),
        (None, None),
    ] {
        let mut r = reply(206, "206 Partial Content");
        r.content_range = range;
        r.content_length = some("1");
        assert_eq!(
            HttpDownloader::probe_with_range(URL, &Some(r)),
            Ok(found("disk.img", total, true))
        );
    }
}

#[test]
fn a_full_reply_gives_its_length() {
    let mut r = reply(200, "200 OK");
    r.content_length = some("1048577");
    r.accept_ranges = some("Bytes");
    r.content_disposition = some("attachment; filename=named.img");
    let r = Some(r);
    assert_eq!(
        HttpDownloader::probe_with_range(URL, &r),
        Ok(found("named.img", Some(1048577), true))
    );
    assert_eq!(
        HttpDownloader::probe_with_head(URL, &r),
        Ok(found("named.img", Some(1048577), true))
    );
    assert_eq!(
        HttpDownloader::probe_with_get(URL, &r),
        Ok(found("named.img", Some(1048577), false))
    );
}

#[test]
fn only_the_range_probe_reads_the_range() {
    let mut r = reply(206, "206 Partial Content");
    r.content_range = some("bytes 0-0/1234");
    r.content_length = some("1");
    assert_eq!(
        read_reply(ProbeStrategy::Head, "n".to_string(), &r),
        Some(found("n", Some(1), false))
    );
    assert_eq!(
        read_reply(ProbeStrategy::Range, "n".to_string(), &r),
        Some(found("n", Some(1234), true))
    );
}

#[test]
fn odd_headers_say_nothing() {
    let mut r = reply(299, "299");
    r.content_length = some("12x");
    r.accept_ranges = some("none");
    assert_eq!(
        read_reply(ProbeStrategy::Head, "n".to_string(), &r),
        Some(found("n", None, false))
    );
    assert_eq!(read_reply(ProbeStrategy::Head, "n".to_string(), &reply(300, "300")), None);
    assert_eq!(read_reply(ProbeStrategy::Head, "n".to_string(), &reply(199, "199")), None);
}

#[test]
fn one_way_is_tried_after_the_other() {
    let no = Some(reply(404, "404 Not Found"));
    assert_eq!(
        HttpDownloader::probe(ProbeStrategy::Range, URL, &no),
        ProbeNext::Try(ProbeStrategy::Head)
    );
    assert_eq!(
        HttpDownloader::probe(ProbeStrategy::Range, URL, &None),
        ProbeNext::Try(ProbeStrategy::Head)
    );
    assert_eq!(
        HttpDownloader::probe(ProbeStrategy::Head, URL, &no),
        ProbeNext::Try(ProbeStrategy::Get)
    );
    assert_eq!(
        HttpDownloader::probe(ProbeStrategy::Get, URL, &no),
        ProbeNext::Failed("GET probe HTTP 404 Not Found".to_string())
    );
    assert_eq!(
        HttpDownloader::probe(ProbeStrategy::Get, URL, &None),
        ProbeNext::Failed("GET probe failed".to_string())
    );
    let yes = Some(reply(200, "200 OK"));
    for strategy in [ProbeStrategy::Range, ProbeStrategy::Head, ProbeStrategy::Get] {
        assert_eq!(
            HttpDownloader::probe(strategy, URL, &yes),
            ProbeNext::Found(found("disk.img", None, false))
        );
    }
}

#[test]
fn failures_say_which_probe_it_was() {
    let no = Some(reply(503, "503 Service Unavailable"));
    assert_eq!(
        HttpDownloader::probe_with_range(URL, &no),
        Err("Range probe HTTP 503 Service Unavailable".to_string())
    );
    assert_eq!(
        HttpDownloader::probe_with_range(URL, &None),
        Err("Range probe failed".to_string())
    );
    assert_eq!(
        HttpDownloader::probe_with_head(URL, &no),
        Err("HEAD probe HTTP 503 Service Unavailable".to_string())
    );
    assert_eq!(HttpDownloader::probe_with_head(URL, &None), Err("HEAD probe failed".to_string()));
    assert_eq!(
        HttpDownloader::probe_with_get(URL, &no),
        Err("GET probe HTTP 503 Service Unavailable".to_string())
    );
    assert_eq!(HttpDownloader::probe_with_get(URL, &None), Err("GET probe failed".to_string()));
}
