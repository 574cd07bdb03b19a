use panda_dl::http::HttpDownloader;
use panda_dl::paths::file_name;
use panda_dl::unique_path::LAST_NUMBER;

fn some(s: &str) -> Option<String> {
    Some(s.to_string())
}

#[test]
fn makes_file_names_of_texts() {
    for (text, name) in [
        ("a/b\\c\0d", "a_b_c_d"),
        ("..hidden..", "hidden"),
        (" - . ", "download.bin"),
        ("", "download.bin"),
        ("../../etc/passwd", "_.._etc_passwd"),
        ("ok name.txt", "ok name.txt"),
        ("-x-", "x"),
    ] {
        assert_eq!(HttpDownloader::sanitize_filename(text), name);
        assert_eq!(HttpDownloader::sanitize_filename(name), name);
    }
}

#[test]
fn reads_names_from_headers() {
    for (header, name) in [
        ("attachment; filename=\"report.pdf\"", some("report.pdf")),
        ("attachment; filename=plain.txt", some("plain.txt")),
        ("attachment; filename*=UTF-8''na%C3%AFve%20file.txt", some("naïve file.txt")),
        ("filename=a.txt; filename*=UTF-8''b.txt", some("a.txt")),
        ("filename*=UTF-8''b.txt; filename=a.txt", some("b.txt")),
        ("filename*=UTF-8''%FF; filename=plain.txt", some("plain.txt")),
        ("filename*=nothing; filename=plain.txt", some("plain.txt")),
        ("filename*=\"UTF-8''q.txt\"", some("q.txt")),
        ("filename=filename=x", some("x")),
        ("filename=", some("")),
        ("filename*=UTF-8''%FF", None),
        ("inline", None),
        ("", None),
        ("FILENAME=x", None),
    ] {
        assert_eq!(HttpDownloader::parse_content_disposition(header), name, "{:?}", header);
    }
}

#[test]
fn reads_names_from_paths() {
    for (path, name) in [
        ("/a/b%20c.zip", "b c.zip"),
        ("/a/", "download.bin"),
        ("/", "download.bin"),
        ("opaque", "download.bin"),
        ("", "download.bin"),
        ("/%2F", "download.bin"),
        ("/%20", "download.bin"),
        ("/%FF.bin", "%FF.bin"),
        ("/x%2Fy", "x_y"),
        ("/50%.txt", "50%.txt"),
        ("/a+b%zz%4", "a+b%zz%4"),
        ("/%e2%82%ac", "€"),
    ] {
        assert_eq!(HttpDownloader::filename_from_path(path), name, "{:?}", path);
    }
}

#[test]
fn chooses_names() {
    let url = "https://example.com/files/debian%2012.iso?mirror=1#top";
    assert_eq!(HttpDownloader::extract_filename(url, &None), "debian 12.iso");
    assert_eq!(HttpDownloader::extract_filename(url, &some("inline")), "debian 12.iso");
    assert_eq!(HttpDownloader::extract_filename(url, &some("filename=\"  \"")), "debian 12.iso");
    assert_eq!(HttpDownloader::extract_filename(url, &some("filename=other.iso")), "other.iso");
    assert_eq!(HttpDownloader::extract_filename("https://example.com", &None), "download.bin");
    assert_eq!(HttpDownloader::extract_filename("no link", &None), "download.bin");
    assert_eq!(HttpDownloader::extract_filename("mailto:a@b.c", &None), "download.bin");
    assert_eq!(
        HttpDownloader::extract_filename("no link", &some("filename=../up")),
        "_up"
    );
}

#[test]
fn numbers_names_that_are_taken() {
    let mut search = HttpDownloader::resolve_unique_path("/d", "a.tar.gz");
    assert_eq!(search.candidate(), "/d/a.tar.gz");
    assert_eq!(search.settle(true), None);
    assert_eq!(search.candidate(), "/d/a.tar (1).gz");
    assert_eq!(search.settle(true), None);
    assert_eq!(search.settle(false), some("/d/a.tar (2).gz"));

    let mut plain = HttpDownloader::resolve_unique_path("/d/", "README");
    assert_eq!(plain.settle(true), None);
    assert_eq!(plain.settle(false), some("/d/README (1)"));

    let mut odd = HttpDownloader::resolve_unique_path("/d", "..");
    assert_eq!(odd.settle(true), None);
    assert_eq!(odd.candidate(), "/d/download (1)");
}

#[test]
fn a_search_finds_the_first_free_path() {
    let taken = ["/d/x.bin", "/d/x (1).bin", "/d/x (3).bin"];
    let mut search = HttpDownloader::resolve_unique_path("/d", "x.bin");
    let found = loop {
        let exists = taken.contains(&search.candidate().as_str());
        if let Some(path) = search.settle(exists) {
            break path;
        }
    };
    assert_eq!(found, "/d/x (2).bin");
}

#[test]
fn no_candidate_comes_twice_and_all_stay_inside() {
    let mut search = HttpDownloader::resolve_unique_path("/d", "x.bin");
    let mut seen: Vec<String> = Vec::new();
    for _ in 0..200 {
        let c = search.candidate();
        assert!(c.starts_with("/d"));
        assert_eq!(format!("/d/{}", file_name(&c).unwrap()), c);
        assert!(!seen.contains(&c));
        seen.push(c);
        assert_eq!(search.settle(true), None);
    }
}

#[test]
fn a_random_name_is_the_last_resort() {
    let mut search = HttpDownloader::resolve_unique_path("/d", "a.bin");
    for _ in 0..LAST_NUMBER {
        assert_eq!(search.settle(true), None);
    }
    assert_eq!(search.candidate(), "/d/a (9999).bin");
    let path = search.settle(true).unwrap();
    assert_eq!(path.len(), "/d/".len() + 36 + "_a.bin".len());
    assert!(path.starts_with("/d/") && path.ends_with("_a.bin"));
    assert_ne!(search.settle(true).unwrap(), path);
}
