use panda_dl::capture::{listener_wait, ClipboardWatcher, DetectedKind, Silence, QUIET_MILLIS};

#[test]
fn knows_what_is_worth_fetching() {
    for (text, kind) in [
        ("magnet:?xt=urn:btih:abc", Some(DetectedKind::Magnet)),
        ("  magnet:?dn=x&xt=urn:btih:abc \n", Some(DetectedKind::Magnet)),
        ("magnet:?dn=x", None),
        ("https://example.com/a.torrent", Some(DetectedKind::TorrentUrl)),
        ("https://example.com/A.TORRENT?x=1", Some(DetectedKind::TorrentUrl)),
        ("https://example.com/disk.iso", Some(DetectedKind::DirectFile)),
        ("ftp://example.com/Disk.Tar.GZ#frag", Some(DetectedKind::DirectFile)),
        ("http://example.com/song.mp3", Some(DetectedKind::DirectFile)),
        ("file:///disk.iso", None),
        ("https://example.com/page.html", None),
        ("https://example.com/?f=disk.iso", None),
        ("disk.iso", None),
        ("", None),
    ] {
        assert_eq!(ClipboardWatcher::is_downloadable(text), kind, "{:?}", text);
    }
}

#[test]
fn knows_every_ending() {
    for ending in [
        "iso", "zip", "tar.gz", "tar.xz", "tgz", "7z", "rar", "bin", "appimage", "dmg", "pkg", "deb",
        "rpm", "exe", "msi", "mkv", "mp4", "mov", "flac", "mp3",
    ] {
        let path = format!("/x.{}", ending.to_uppercase());
        assert_eq!(
            ClipboardWatcher::detect_url("https", &path),
            Some(DetectedKind::DirectFile),
            "{:?}",
            ending
        );
    }
    assert_eq!(ClipboardWatcher::detect_url("https", "/x.gz"), None);
    assert_eq!(ClipboardWatcher::detect_url("gopher", "/x.iso"), None);
    assert_eq!(ClipboardWatcher::detect_url("ftp", "/x.torrent"), Some(DetectedKind::TorrentUrl));
}

#[test]
fn captures_and_passes_over_repeats() {
    let mut w = ClipboardWatcher::new(true);
    let link = "https://example.com/disk.iso";
    let captured = Some((link.to_string(), DetectedKind::DirectFile));
    assert_eq!(w.capture("  https://example.com/disk.iso\t", 0), captured);
    assert_eq!(w.last_captured, link);
    assert_eq!(w.capture(link, QUIET_MILLIS - 1), None);
    assert_eq!(w.capture(link, QUIET_MILLIS), captured);
    assert_eq!(
        w.capture("magnet:?xt=urn:btih:1", 1),
        Some(("magnet:?xt=urn:btih:1".to_string(), DetectedKind::Magnet))
    );
    assert_eq!(w.capture(link, 1), captured);
    assert_eq!(w.capture("nothing", 1), None);
    assert_eq!(w.last_captured, link);
}

#[test]
fn takes_what_it_is_given() {
    let mut w = ClipboardWatcher::new(true);
    let taken = w.take("a".to_string(), DetectedKind::Magnet, 5);
    assert_eq!(taken, Some(("a".to_string(), DetectedKind::Magnet)));
    assert_eq!(w.take("a".to_string(), DetectedKind::Magnet, 5), None);
}

#[test]
fn captures_nothing_when_off() {
    let mut w = ClipboardWatcher::new(false);
    assert!(!w.is_enabled());
    assert_eq!(w.capture("magnet:?xt=urn:btih:1", u64::MAX), None);
    assert_eq!(w, ClipboardWatcher::new(false));
    w.set_enabled(true);
    assert!(w.is_enabled());
    assert!(w.capture("magnet:?xt=urn:btih:1", u64::MAX).is_some());
    w.set_enabled(false);
    assert_eq!(w.capture("magnet:?xt=urn:btih:2", u64::MAX), None);
    assert_eq!(w.last_captured, "magnet:?xt=urn:btih:1");
}

#[test]
fn the_listener_waits() {
    assert_eq!(listener_wait(Silence::NotStarted), 5000);
    assert_eq!(listener_wait(Silence::Ended), 2000);
}
