use panda_dl::config::Config;
use panda_dl::engine::{
    classify, file_to_open, written_files, Engine, EngineError, Interrupt, Removal, Resume,
};
use panda_dl::launch::{
    initial_torrent_name, names_written, transfer_of, HttpPlan, NamedFile, Notice, Transfer,
};
use panda_dl::monitor::{HttpSeen, TorrentSeen, TorrentStats, VideoSeen};
use panda_dl::parts::fetched_bytes;
use panda_dl::probe::ProbeResult;
use panda_dl::registry::Registry;
use panda_dl::storage::load_tasks;
use panda_dl::transfer::{Next, PartWorker};
use panda_dl::types::{DownloadKind, DownloadStatus, DownloadTask, PartInfo, TorrentInfo};

fn engine() -> Engine {
    Engine::new(Config::initial(Some("/dl".to_string()), None), Registry::new())
}

fn some(s: &str) -> Option<String> {
    Some(s.to_string())
}

fn part(index: usize, start: u64, end: u64, downloaded: u64) -> PartInfo {
    PartInfo { index, start, end, downloaded, active: false }
}

fn task(id: &str, kind: DownloadKind, status: DownloadStatus) -> DownloadTask {
    DownloadTask {
        id: id.to_string(),
        name: format!("name of {}", id),
        uri: format!("uri of {}", id),
        kind,
        status,
        total_bytes: None,
        downloaded_bytes: 0,
        uploaded_bytes: 0,
        download_speed: 0,
        upload_speed: 0,
        eta_seconds: None,
        output_path: format!("/dl/{}", id),
        created_at: 100,
        parts: vec![],
        torrent_info: None,
        files: vec![],
    }
}

fn with(tasks: Vec<DownloadTask>) -> Engine {
    let mut e = engine();
    for t in tasks {
        e.tasks.insert(t.id.clone(), t);
    }
    e
}

fn get(e: &Engine, id: &str) -> DownloadTask {
    e.tasks.get(id).unwrap().clone()
}

#[test]
fn a_registry_is_a_map() {
    let mut r: Registry<u64> = Registry::new();
    assert_eq!(r.len(), 0);
    r.insert("a".to_string(), 1);
    r.insert("b".to_string(), 2);
    r.insert("a".to_string(), 3);
    assert_eq!(r.len(), 2);
    assert_eq!(r.get("a"), Some(&3));
    assert_eq!(r.get("c"), None);
    assert!(r.contains("b") && !r.contains("c"));
    *r.get_mut("b").unwrap() = 5;
    assert_eq!(r.get_mut("c"), None);
    assert_eq!((r.id_at(1).as_str(), *r.value_at(1)), ("b", 5));
    *r.value_at_mut(0) += 1;
    assert_eq!(r.remove("a"), Some(4));
    assert_eq!(r.remove("a"), None);
    assert_eq!(r.len(), 1);
}

#[test]
fn links_are_told_apart() {
    for (uri, kind) in [
        ("https://youtube.com/watch?v=1", DownloadKind::Youtube),
        ("https://youtu.be/1", DownloadKind::Youtube),
        ("https://youtu.be/1.torrent", DownloadKind::Youtube),
        ("magnet:?xt=urn:btih:1", DownloadKind::Torrent),
        ("https://example.com/a.torrent", DownloadKind::Torrent),
        ("/home/u/a.torrent/", DownloadKind::Torrent),
        ("https://example.com/a.torrent?x=1", DownloadKind::Http),
        ("https://example.com/a.TORRENT", DownloadKind::Http),
        ("https://youtube.com/playlist", DownloadKind::Http),
        ("", DownloadKind::Http),
    ] {
        assert_eq!(classify(uri), kind, "{:?}", uri);
    }
}

#[test]
fn a_new_download_is_planned() {
    let e = engine();
    let plan = e.plan_download("n".to_string(), "  magnet:?x \n", None);
    assert_eq!((plan.id.as_str(), plan.uri.as_str()), ("n", "magnet:?x"));
    assert_eq!((plan.kind, plan.target_dir.as_str()), (DownloadKind::Torrent, "/dl"));
    let plan = e.plan_download("n".to_string(), "http://h/x", some("/other"));
    assert_eq!((plan.kind, plan.target_dir.as_str()), (DownloadKind::Http, "/other"));
}

#[test]
fn new_downloads_get_names_of_their_own() {
    let e = engine();
    let a = e.add_download(" http://h/x ", None);
    let b = e.add_download(" http://h/x ", None);
    assert_eq!(a.uri, "http://h/x");
    assert_ne!(a.id, b.id);
    assert_eq!(a.id.len(), 36);
    for (i, c) in a.id.chars().enumerate() {
        if i == 8 || i == 13 || i == 18 || i == 23 {
            assert_eq!(c, '-');
        } else if i == 14 {
            assert_eq!(c, '4');
        } else if i == 19 {
            assert!("89ab".contains(c));
        } else {
            assert!("0123456789abcdef".contains(c));
        }
    }
}

#[test]
fn pausing_stops_the_work() {
    let mut moving = task("h", DownloadKind::Http, DownloadStatus::Downloading);
    moving.download_speed = 9;
    moving.upload_speed = 8;
    let mut e = with(vec![
        moving.clone(),
        task("y", DownloadKind::Youtube, DownloadStatus::Downloading),
        task("t", DownloadKind::Torrent, DownloadStatus::Downloading),
    ]);
    e.launch_http_download("h", 1);
    e.resume_youtube_download("y", 2);
    e.torrent_resumed("t", 3);

    assert_eq!(e.pause_download("h"), Ok(Interrupt::CancelHttp(1)));
    assert_eq!(
        get(&e, "h"),
        DownloadTask { status: DownloadStatus::Paused, download_speed: 0, ..moving }
    );
    assert!(!e.http_active.contains("h"));
    assert_eq!(e.pause_download("h"), Ok(Interrupt::Nothing));

    assert_eq!(e.pause_download("y"), Ok(Interrupt::CancelYoutube(2)));
    assert!(!e.youtube_active.contains("y"));
    assert_eq!(e.pause_download("y"), Ok(Interrupt::Nothing));

    assert_eq!(e.pause_download("t"), Ok(Interrupt::PauseTorrent(3)));
    assert!(e.torrent_active.contains("t"));
    assert_eq!(e.pause_download("t"), Ok(Interrupt::PauseTorrent(3)));

    assert_eq!(e.pause_download("?"), Err(EngineError::TaskNotFound));
    assert_eq!(EngineError::TaskNotFound.message(), "Task not found");
    assert_eq!(e.tasks.len(), 3);
}

#[test]
fn what_rests_is_taken_up_again() {
    let mut h = task("h", DownloadKind::Http, DownloadStatus::Paused);
    h.parts = vec![part(0, 0, 9, 4), part(1, 10, 19, 10)];
    let mut s = task("s", DownloadKind::Http, DownloadStatus::Error("e".to_string()));
    s.parts = vec![part(0, 0, 9, 0)];
    let mut e = with(vec![
        h.clone(),
        s.clone(),
        task("y", DownloadKind::Youtube, DownloadStatus::Paused),
        task("t", DownloadKind::Torrent, DownloadStatus::Paused),
        task("u", DownloadKind::Torrent, DownloadStatus::Paused),
    ]);
    e.torrent_resumed("t", 7);
    assert_eq!(
        e.resume_download("h"),
        Ok(Resume::Http {
            uri: "uri of h".to_string(),
            output_path: "/dl/h".to_string(),
            parts: h.parts.clone(),
            supports_ranges: true,
        })
    );
    assert_eq!(get(&e, "h"), DownloadTask { status: DownloadStatus::Downloading, ..h });
    assert_eq!(e.resume_download("h"), Ok(Resume::Nothing));
    assert_eq!(
        e.resume_download("s"),
        Ok(Resume::Http {
            uri: "uri of s".to_string(),
            output_path: "/dl/s".to_string(),
            parts: s.parts,
            supports_ranges: false,
        })
    );
    assert_eq!(
        e.resume_download("y"),
        Ok(Resume::Youtube { uri: "uri of y".to_string(), output_path: "/dl/y".to_string() })
    );
    assert_eq!(e.resume_download("t"), Ok(Resume::UnpauseTorrent(7)));
    assert_eq!(
        e.resume_download("u"),
        Ok(Resume::AddTorrent { uri: "uri of u".to_string(), output_path: "/dl/u".to_string() })
    );
    assert_eq!(e.resume_download("?"), Err(EngineError::TaskNotFound));
}

#[test]
fn what_does_not_rest_is_left_alone() {
    for status in [DownloadStatus::Queued, DownloadStatus::Downloading, DownloadStatus::Completed] {
        let t = task("a", DownloadKind::Http, status);
        let mut e = with(vec![t.clone()]);
        assert_eq!(e.resume_download("a"), Ok(Resume::Nothing));
        assert_eq!(get(&e, "a"), t);
    }
}

#[test]
fn removing_ends_everything() {
    let mut e = with(vec![
        task("a", DownloadKind::Torrent, DownloadStatus::Downloading),
        task("b", DownloadKind::Http, DownloadStatus::Completed),
    ]);
    e.launch_http_download("a", 1);
    e.resume_youtube_download("a", 2);
    e.torrent_resumed("a", 3);
    assert_eq!(
        e.remove_download("a", true),
        Removal {
            cancel_http: Some(1),
            cancel_youtube: Some(2),
            drop_torrent: Some(3),
            delete: vec![],
        }
    );
    let none = Removal { cancel_http: None, cancel_youtube: None, drop_torrent: None, delete: vec![] };
    assert_eq!(e.remove_download("a", true), none);
    assert!(!e.tasks.contains("a") && e.tasks.contains("b"));
    assert_eq!(e.remove_download("b", false), none);
    assert_eq!(e.tasks.len(), 0);
}

fn seen(id: &str, stats: TorrentStats, name: Option<String>, down: u64, up: u64) -> TorrentSeen {
    TorrentSeen { id: id.to_string(), stats, name, files: None, down, up }
}

#[test]
fn only_what_was_written_is_deleted() {
    let mut e = with(vec![
        task("h", DownloadKind::Http, DownloadStatus::Completed),
        task("y", DownloadKind::Youtube, DownloadStatus::Downloading),
        task("u", DownloadKind::Youtube, DownloadStatus::Queued),
        task("t", DownloadKind::Torrent, DownloadStatus::Paused),
        task("n", DownloadKind::Torrent, DownloadStatus::Paused),
    ]);
    e.youtube_wrote("y", "/dl/y/v.mp4".to_string());
    e.youtube_wrote("y", "/dl/y/v.mp4".to_string());
    e.youtube_wrote("?", "/x".to_string());
    assert_eq!(get(&e, "y").files, vec!["/dl/y/v.mp4"]);
    let names = Some(vec!["a".to_string(), "b/c".to_string()]);
    e.torrent_added("t", None, &[], names, 1);
    assert_eq!(get(&e, "t").files, vec!["/dl/t/a", "/dl/t/b/c"]);
    let kept = get(&e, "t");
    e.torrent_active.remove("t");

    assert_eq!(e.remove_download("h", true).delete, vec!["/dl/h"]);
    assert_eq!(
        e.remove_download("y", true).delete,
        vec!["/dl/y/v.mp4", "/dl/y/v.mp4.part", "/dl/y/v.mp4.ytdl"]
    );
    assert!(e.remove_download("u", true).delete.is_empty());
    assert_eq!(e.remove_download("t", true).delete, vec!["/dl/t/a", "/dl/t/b/c"]);
    assert!(e.remove_download("n", true).delete.is_empty());

    let mut e = with(vec![kept.clone()]);
    e.torrent_resumed("t", 1);
    let removal = e.remove_download("t", true);
    assert_eq!((removal.drop_torrent, removal.delete.len()), (Some(1), 0));
    assert!(with(vec![kept]).remove_download("t", false).delete.is_empty());
}

#[test]
fn the_file_of_a_download_is_opened() {
    let mut t = task("t", DownloadKind::Torrent, DownloadStatus::Completed);
    assert_eq!(file_to_open(&t), "/dl/t");
    t.files = vec!["/dl/t/a".to_string()];
    assert_eq!(file_to_open(&t), "/dl/t/a");
    t.files.push("/dl/t/b".to_string());
    assert_eq!(file_to_open(&t), "/dl/t");
    assert_eq!(written_files(&t), vec!["/dl/t/a", "/dl/t/b"]);
    t.kind = DownloadKind::Youtube;
    assert_eq!(file_to_open(&t), "/dl/t/b");
    t.kind = DownloadKind::Http;
    assert_eq!(file_to_open(&t), "/dl/t");
    assert_eq!(written_files(&t), vec!["/dl/t"]);
}

#[test]
fn work_does_not_bring_back_what_was_removed() {
    let mut e = with(vec![task("a", DownloadKind::Http, DownloadStatus::Downloading)]);
    e.launch_http_download("a", 1);
    e.remove_download("a", false);
    assert_eq!(e.http_finished("a", false, None, vec![]), None);
    e.http_tick(&HttpSeen { id: "a".to_string(), parts: vec![], bytes: 0, speed: 0 });
    e.youtube_finished("a", false, None, 1);
    e.torrent_failed("a", "x".to_string());
    assert_eq!(e.tasks.len(), 0);
    assert_eq!(e.last_speeds.len(), 0);
}

#[test]
fn the_report_is_in_order() {
    let mut a = task("a", DownloadKind::Http, DownloadStatus::Downloading);
    a.created_at = 1;
    a.download_speed = 10;
    a.upload_speed = 1;
    let mut b = task("b", DownloadKind::Http, DownloadStatus::Paused);
    b.created_at = 3;
    b.download_speed = 20;
    let mut c = task("c", DownloadKind::Torrent, DownloadStatus::Downloading);
    c.created_at = 2;
    c.upload_speed = 5;
    let e = with(vec![a.clone(), b.clone(), c.clone()]);
    assert!(e.speeds_fit());
    let s = e.get_status();
    assert_eq!(s.active_downloads, 2);
    assert_eq!((s.total_download_speed, s.total_upload_speed), (30, 6));
    assert_eq!(s.downloads, vec![b, c, a]);
    assert_eq!(engine().get_status().downloads, vec![]);
}

#[test]
fn speeds_that_do_not_fit_are_noticed() {
    let mut a = task("a", DownloadKind::Http, DownloadStatus::Downloading);
    a.download_speed = u64::MAX;
    let mut b = task("b", DownloadKind::Http, DownloadStatus::Downloading);
    let e = with(vec![a.clone(), b.clone()]);
    assert!(e.speeds_fit());
    assert_eq!(e.get_status().total_download_speed, u64::MAX);
    b.download_speed = 1;
    assert!(!with(vec![a, b.clone()]).speeds_fit());
    b.download_speed = 0;
    b.upload_speed = u64::MAX;
    let mut c = b.clone();
    c.id = "c".to_string();
    assert!(!with(vec![b, c]).speeds_fit());
}

#[test]
fn a_restart_pauses() {
    let mut moving = task("a", DownloadKind::Http, DownloadStatus::Downloading);
    moving.download_speed = 5;
    moving.upload_speed = 6;
    moving.parts = vec![part(0, 0, 9, 4)];
    let failed = task("b", DownloadKind::Http, DownloadStatus::Error("e".to_string()));
    let mut saved = Registry::new();
    saved.insert("a".to_string(), moving.clone());
    saved.insert("b".to_string(), failed.clone());
    let tasks = load_tasks(Some(saved));
    let paused = DownloadTask {
        status: DownloadStatus::Paused,
        download_speed: 0,
        upload_speed: 0,
        ..moving
    };
    assert_eq!(tasks.get("a"), Some(&paused));
    assert_eq!(tasks.get("b"), Some(&failed));
    let again = load_tasks(Some(tasks));
    assert_eq!(again.get("a"), Some(&paused));
    let mut e = Engine::new(Config::initial(None, None), again);
    assert!(matches!(e.resume_download("a"), Ok(Resume::Http { .. })));
    assert_eq!(load_tasks(None).len(), 0);
}

#[test]
fn torrents_have_names_before_they_are_known() {
    for (uri, name) in [
        ("magnet:?xt=urn:btih:1&dn=A%20B&tr=x", "A B"),
        ("magnet:?xt=urn:btih:1&dn=A&dn=B", "A"),
        ("magnet:?xt=urn:btih:1&dn=%FF", "%FF"),
        ("magnet:?xt=urn:btih:1&dn=", ""),
        ("magnet:?dn=A", "Magnet Download"),
        ("/home/u/a.torrent", "a.torrent"),
        ("https://h/x/a.torrent/", "a.torrent"),
        ("..", "Torrent Download"),
        ("", "Torrent Download"),
    ] {
        assert_eq!(initial_torrent_name(uri), name, "{:?}", uri);
    }
}

#[test]
fn a_torrent_begins_and_ends() {
    let mut e = engine();
    e.start_torrent_download("t".to_string(), "magnet:?x".to_string(), "/dl".to_string(), 42);
    let t = get(&e, "t");
    assert_eq!((t.name.as_str(), t.uri.as_str()), ("Magnet Download", "magnet:?x"));
    assert_eq!((t.kind, t.status.clone()), (DownloadKind::Torrent, DownloadStatus::Downloading));
    assert_eq!((t.created_at, t.output_path.as_str()), (42, "/dl"));
    assert!(!e.torrent_active.contains("t"));

    e.torrent_added("t", None, &[0xab, 0x01], None, 5);
    let t = get(&e, "t");
    assert_eq!(t.name, "Magnet Download");
    assert_eq!(
        t.torrent_info,
        Some(TorrentInfo {
            info_hash: "ab01".to_string(),
            seeds: 0,
            peers: 0,
            total_pieces: 0,
            finished_pieces: 0,
        })
    );
    assert_eq!(e.torrent_active.get("t"), Some(&5));

    let stats = TorrentStats {
        total_bytes: 100,
        progress_bytes: 40,
        uploaded_bytes: 7,
        finished: false,
    };
    assert_eq!(e.gained("t", 40), 40);
    assert_eq!(e.torrent_tick(&seen("t", stats, some("Real"), 20, 3)), None);
    let t = get(&e, "t");
    assert_eq!((t.name.as_str(), t.eta_seconds), ("Real", Some(3)));
    assert_eq!((t.total_bytes, t.downloaded_bytes, t.uploaded_bytes), (Some(100), 40, 7));
    assert_eq!((t.download_speed, t.upload_speed), (20, 3));
    assert_eq!(e.last_speeds.get("t"), Some(&(40, 7)));
    assert_eq!((e.gained("t", 45), e.gained_up("t", 9), e.gained("t", 30)), (5, 2, 0));

    let done = TorrentStats { progress_bytes: 100, finished: true, ..stats };
    assert_eq!(
        e.torrent_tick(&seen("t", done, some("Other"), 0, 0)),
        Some(Notice {
            title: "Torrent Download Complete".to_string(),
            body: "Real finished downloading!".to_string(),
        })
    );
    let t = get(&e, "t");
    assert_eq!((t.status, t.eta_seconds), (DownloadStatus::Completed, None));
    assert_eq!(e.torrent_tick(&seen("t", done, None, 0, 0)), None);
}

#[test]
fn a_torrent_with_a_stand_in_name_is_renamed() {
    let mut t = task("t", DownloadKind::Torrent, DownloadStatus::Downloading);
    t.name = "Torrent_1".to_string();
    let mut e = with(vec![t]);
    let stats = TorrentStats { total_bytes: 1, progress_bytes: 1, uploaded_bytes: 0, finished: true };
    assert_eq!(
        e.torrent_tick(&seen("t", stats, some("Real"), 0, 0)).unwrap().body,
        "Real finished downloading!"
    );
    assert_eq!(get(&e, "t").name, "Real");
    assert_eq!(e.torrent_tick(&seen("?", stats, None, 0, 0)), None);
}

#[test]
fn a_torrent_can_fail_and_be_named() {
    let mut e = engine();
    e.start_torrent_download("t".to_string(), "/a.torrent".to_string(), "/dl".to_string(), 1);
    e.torrent_failed("t", "no peers".to_string());
    assert_eq!(get(&e, "t").status, DownloadStatus::Error("no peers".to_string()));
    e.torrent_added("t", some("Named"), &[], None, 1);
    assert_eq!(get(&e, "t").name, "Named");
}

#[test]
fn files_are_fetched_in_parts_where_that_is_worth_it() {
    let e = engine();
    let probe = |total_bytes: Option<u64>, supports_ranges: bool| ProbeResult {
        filename: "f".to_string(),
        total_bytes,
        supports_ranges,
    };
    let plan = e.plan_http_download(&probe(Some(1048577), true), None);
    assert_eq!(plan.parts.len(), 16);
    assert_eq!((plan.parts[0].end, plan.parts[15].end), (65535, 1048576));
    assert_eq!(plan.preallocate, Some(1048577));
    assert_eq!(e.plan_http_download(&probe(Some(1048577), true), Some(4)).parts.len(), 4);
    assert_eq!(
        e.plan_http_download(&probe(Some(1048576), true), None),
        HttpPlan { parts: vec![part(0, 0, 1048575, 0)], preallocate: Some(1048576) }
    );
    assert_eq!(
        e.plan_http_download(&probe(Some(9000000), false), None),
        HttpPlan { parts: vec![part(0, 0, 9000000, 0)], preallocate: None }
    );
    assert_eq!(e.plan_http_download(&probe(Some(1), true), None).parts, vec![part(0, 0, 0, 0)]);
    assert_eq!(e.plan_http_download(&probe(Some(0), true), None).parts, vec![part(0, 0, 0, 0)]);
    assert_eq!(
        e.plan_http_download(&probe(None, true), None),
        HttpPlan { parts: vec![part(0, 0, 0, 0)], preallocate: None }
    );
}

#[test]
fn a_file_begins_and_ends() {
    let mut e = engine();
    let probe = ProbeResult {
        filename: "f.bin".to_string(),
        total_bytes: Some(20),
        supports_ranges: true,
    };
    let parts = vec![part(0, 0, 9, 0), part(1, 10, 19, 0)];
    e.start_http_download_new(
        "h".to_string(),
        "http://h/f.bin",
        &probe,
        "/dl/f.bin".to_string(),
        &parts,
        9,
    );
    e.launch_http_download("h", 4);
    let t = get(&e, "h");
    assert_eq!((t.name.as_str(), t.uri.as_str()), ("f.bin", "http://h/f.bin"));
    assert_eq!((t.kind, t.status), (DownloadKind::Http, DownloadStatus::Downloading));
    assert_eq!((t.total_bytes, t.created_at, t.parts), (Some(20), 9, parts));

    let live = vec![part(0, 0, 9, 6), part(1, 10, 19, 2)];
    e.http_tick(&HttpSeen { id: "h".to_string(), parts: live.clone(), bytes: 8, speed: 4 });
    let t = get(&e, "h");
    assert_eq!((t.downloaded_bytes, t.download_speed, t.eta_seconds), (8, 4, Some(3)));
    assert_eq!(t.parts, live);
    assert_eq!(e.last_speeds.get("h"), Some(&(8, 0)));

    assert!(e.can_complete("h"));
    assert_eq!(
        e.http_finished("h", false, None, live),
        Some(Notice {
            title: "Download Completed".to_string(),
            body: "f.bin finished downloading!".to_string(),
        })
    );
    let t = get(&e, "h");
    assert_eq!(t.status, DownloadStatus::Completed);
    assert_eq!((t.downloaded_bytes, t.download_speed, t.eta_seconds), (20, 0, Some(0)));
    assert_eq!(t.parts, vec![part(0, 0, 9, 10), part(1, 10, 19, 10)]);
    assert!(!e.http_active.contains("h"));
}

#[test]
fn a_pause_or_a_failure_keeps_the_progress() {
    let mut h = task("h", DownloadKind::Http, DownloadStatus::Downloading);
    h.parts = vec![part(0, 0, 9, 0), part(1, 10, 19, 0)];
    let live = vec![part(0, 0, 9, 6), part(1, 10, 19, 2)];
    for failure in [None, some("broke")] {
        let mut e = with(vec![h.clone()]);
        e.launch_http_download("h", 1);
        e.pause_download("h").unwrap();
        assert_eq!(e.http_finished("h", true, failure, live.clone()), None);
        assert_eq!(get(&e, "h").status, DownloadStatus::Paused);
        match e.resume_download("h") {
            Ok(Resume::Http { parts, .. }) => assert_eq!(parts, live),
            _ => panic!("not taken up again"),
        }
    }
    let mut e = with(vec![h]);
    assert_eq!(e.http_finished("h", false, some("broke"), live.clone()), None);
    assert_eq!(get(&e, "h").status, DownloadStatus::Error("broke".to_string()));
    assert_eq!(get(&e, "h").parts, live);
}

#[test]
fn parts_without_a_size_are_noticed() {
    let mut h = task("h", DownloadKind::Http, DownloadStatus::Downloading);
    h.parts = vec![part(0, 5, 4, 0)];
    assert!(!with(vec![h.clone()]).can_complete("h"));
    h.parts = vec![part(0, 0, u64::MAX, 0)];
    assert!(!with(vec![h.clone()]).can_complete("h"));
    h.parts = vec![part(0, 1, u64::MAX, 0)];
    assert!(with(vec![h]).can_complete("h"));
    assert!(engine().can_complete("?"));
}

#[test]
fn a_video_begins_and_ends() {
    let mut e = engine();
    let uri = "https://youtu.be/1".to_string();
    e.start_youtube_download("y".to_string(), uri.clone(), "/dl".to_string(), 3);
    let t = get(&e, "y");
    assert_eq!((t.name.as_str(), t.uri), ("YouTube Video", uri));
    assert_eq!((t.kind, t.status), (DownloadKind::Youtube, DownloadStatus::Queued));
    assert_eq!(e.youtube_titled("y", None), "YouTube Video");
    assert_eq!(e.youtube_titled("y", some("Title")), "Title");
    assert_eq!(get(&e, "y").name, "Title");
    e.youtube_started("y", 8);
    assert_eq!(get(&e, "y").status, DownloadStatus::Downloading);
    assert_eq!(e.youtube_active.get("y"), Some(&8));
    e.youtube_tick(&VideoSeen { id: "y".to_string(), bytes: 500, speed: 100 });
    let t = get(&e, "y");
    assert_eq!((t.downloaded_bytes, t.download_speed, t.eta_seconds), (500, 100, None));
    e.youtube_finished("y", false, None, 900);
    let t = get(&e, "y");
    assert_eq!((t.status, t.downloaded_bytes), (DownloadStatus::Completed, 900));
    assert!(!e.youtube_active.contains("y"));
}

#[test]
fn a_video_can_be_cancelled_or_fail() {
    let y = task("y", DownloadKind::Youtube, DownloadStatus::Downloading);
    let mut e = with(vec![y.clone()]);
    e.youtube_finished("y", true, some("x"), 900);
    assert_eq!(get(&e, "y"), DownloadTask { status: DownloadStatus::Paused, ..y.clone() });
    let mut e = with(vec![y.clone()]);
    e.youtube_finished("y", false, some("x"), 900);
    assert_eq!(
        get(&e, "y"),
        DownloadTask { status: DownloadStatus::Error("x".to_string()), ..y }
    );
}

#[test]
fn the_time_left_is_known_where_it_can_be() {
    let mut h = task("h", DownloadKind::Http, DownloadStatus::Downloading);
    h.total_bytes = Some(100);
    h.eta_seconds = Some(77);
    let other = task("o", DownloadKind::Http, DownloadStatus::Downloading);
    let mut e = with(vec![h.clone(), other.clone()]);
    for (current, speed, eta) in [
        (0, 30, Some(3)),
        (99, 30, Some(0)),
        (100, 30, None),
        (101, 30, None),
        (0, 0, None),
        (1, 1, Some(99)),
    ] {
        e.update_speed("h", current, 2, speed);
        assert_eq!((get(&e, "h").eta_seconds, get(&e, "h").download_speed), (eta, speed));
        assert_eq!(e.last_speeds.get("h"), Some(&(current, 2)));
    }
    assert_eq!(get(&e, "o"), other);
    h.total_bytes = None;
    let mut e = with(vec![h]);
    e.update_speed("h", 5, 0, 9);
    assert_eq!((get(&e, "h").eta_seconds, get(&e, "h").download_speed), (Some(77), 9));
    e.update_speed("?", 5, 0, 9);
    assert!(!e.last_speeds.contains("?"));
}

#[test]
fn a_small_file_comes_in_as_one_part() {
    let probe = ProbeResult {
        filename: "f".to_string(),
        total_bytes: Some(1000),
        supports_ranges: true,
    };
    let mut parts = engine().plan_http_download(&probe, None).parts;
    let mut w = PartWorker::begin(&mut parts, 0).unwrap();
    assert_eq!(w.go(&mut parts, false), Next::Ask { first: 0, last: 999 });
    assert_eq!(w.replied(&mut parts, 206), Next::Read);
    w.chunk(&mut parts, false);
    w.written(&mut parts, 1000);
    assert_eq!(w.ended(&mut parts), Next::Finished);
    assert_eq!(fetched_bytes(&parts), Some(1000));
}

#[test]
fn a_file_comes_in_parts_where_the_server_allows_it() {
    assert_eq!(transfer_of(true), Transfer::Parts);
    assert_eq!(transfer_of(false), Transfer::Single);
}

#[test]
fn torrents_are_asked_for_their_files() {
    let mut e = with(vec![task("t", DownloadKind::Torrent, DownloadStatus::Downloading)]);
    assert!(e.wants_file_names("t"));
    assert!(!e.wants_file_names("?"));
    let named = |name: &str, padding: bool| NamedFile { name: name.to_string(), padding };
    let names = names_written(&vec![named("a", false), named(".pad/1", true), named("b", false)]);
    assert_eq!(names, vec!["a", "b"]);
    assert!(names_written(&vec![named("p", true)]).is_empty());
    e.torrent_added("t", None, &[], Some(names), 1);
    assert!(!e.wants_file_names("t"));
}

#[test]
fn one_worked_on_in_two_ways_says_what_was_seen_last() {
    let mut e = with(vec![task("x", DownloadKind::Http, DownloadStatus::Downloading)]);
    e.launch_http_download("x", 1);
    e.resume_youtube_download("x", 2);
    let live = vec![part(0, 0, 9, 4)];
    e.tick(
        &vec![HttpSeen { id: "x".to_string(), parts: live.clone(), bytes: 4, speed: 1 }],
        &vec![VideoSeen { id: "x".to_string(), bytes: 9, speed: 2 }],
        &vec![],
    );
    assert_eq!((get(&e, "x").parts, get(&e, "x").downloaded_bytes), (live, 9));
}

#[test]
fn all_are_looked_at() {
    let rest = task("r", DownloadKind::Http, DownloadStatus::Paused);
    let mut e = with(vec![
        task("h", DownloadKind::Http, DownloadStatus::Downloading),
        task("y", DownloadKind::Youtube, DownloadStatus::Downloading),
        task("t", DownloadKind::Torrent, DownloadStatus::Downloading),
        rest.clone(),
    ]);
    e.launch_http_download("h", 1);
    e.resume_youtube_download("y", 2);
    e.torrent_resumed("t", 3);
    let live = vec![part(0, 0, 9, 4), part(1, 10, 19, 3)];
    let done = TorrentStats {
        total_bytes: 5,
        progress_bytes: 5,
        uploaded_bytes: 1,
        finished: true,
    };
    let torrent = TorrentSeen { files: Some(vec!["x".to_string()]), ..seen("t", done, None, 1, 2) };
    let notices = e.tick(
        &vec![HttpSeen { id: "h".to_string(), parts: live.clone(), bytes: 7, speed: 1 }],
        &vec![VideoSeen { id: "y".to_string(), bytes: 9, speed: 2 }],
        &vec![torrent],
    );
    assert_eq!(
        notices,
        vec![Notice {
            title: "Torrent Download Complete".to_string(),
            body: "name of t finished downloading!".to_string(),
        }]
    );
    assert_eq!((get(&e, "h").parts, get(&e, "h").downloaded_bytes), (live, 7));
    assert_eq!(get(&e, "y").downloaded_bytes, 9);
    assert_eq!((get(&e, "t").downloaded_bytes, get(&e, "t").files), (5, vec!["/dl/t/x".to_string()]));
    assert_eq!(get(&e, "r"), rest);
    assert_eq!((e.tasks.len(), e.http_active.len(), e.last_speeds.len()), (4, 1, 3));
}
