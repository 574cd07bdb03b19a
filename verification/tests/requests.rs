use panda_dl::capture::DetectedKind;
use panda_dl::config::Config;
use panda_dl::engine::{Engine, Interrupt, Removal, Resume};
use panda_dl::ipc::{line_of, Done, IpcClient, IpcServer, Request, Response, Step};
use panda_dl::launch::Notice;
use panda_dl::registry::Registry;
use panda_dl::types::{DownloadKind, DownloadStatus, DownloadTask};

fn engine() -> Engine {
    Engine::new(Config::initial(Some("/dl".to_string()), None), Registry::new())
}

fn some(s: &str) -> Option<String> {
    Some(s.to_string())
}

fn enter(e: &mut Engine, key: &str, id: &str, created_at: u64, output_path: &str) {
    let t = DownloadTask {
        id: id.to_string(),
        name: "n".to_string(),
        uri: "u".to_string(),
        kind: DownloadKind::Http,
        status: DownloadStatus::Downloading,
        total_bytes: None,
        downloaded_bytes: 0,
        uploaded_bytes: 0,
        download_speed: 3,
        upload_speed: 0,
        eta_seconds: None,
        output_path: output_path.to_string(),
        created_at,
        parts: vec![],
        torrent_info: None,
        files: vec![],
    };
    e.tasks.insert(key.to_string(), t);
}

fn ok(id: Option<String>, message: &str) -> Response {
    Response::Success { id, message: some(message) }
}

fn error(message: &str) -> Response {
    Response::Error { message: message.to_string() }
}

fn ask(e: &mut Engine, req: Request) -> Step {
    IpcServer::handle_request(req, e)
}

fn clip(e: &mut Engine, text: &str) -> Step {
    ask(e, Request::ClipboardEvent { text: text.to_string() })
}

#[test]
fn the_status_is_given() {
    let mut e = engine();
    enter(&mut e, "a", "a", 1, "/a");
    match ask(&mut e, Request::Status) {
        Step::Reply(Response::Status(s)) => {
            assert_eq!((s.active_downloads, s.total_download_speed), (1, 3));
            assert_eq!(s.downloads.len(), 1);
        }
        _ => panic!("no status"),
    }
}

#[test]
fn a_download_is_handed_on() {
    let mut e = engine();
    assert_eq!(
        ask(&mut e, Request::Add { uri: "u".to_string(), dir: some("/x"), parts: Some(3) }),
        Step::Add { uri: "u".to_string(), dir: some("/x"), parts: Some(3) }
    );
    assert_eq!(e.tasks.len(), 0);
    assert_eq!(IpcServer::added(Ok("i".to_string())), ok(some("i"), "Download added successfully"));
    assert_eq!(IpcServer::added(Err("no".to_string())), error("no"));
}

#[test]
fn downloads_are_paused_resumed_and_removed() {
    let mut e = engine();
    enter(&mut e, "a", "a", 1, "/a");
    e.launch_http_download("a", 6);
    let id = "a".to_string();
    assert_eq!(
        ask(&mut e, Request::Pause { id: id.clone() }),
        Step::Interrupt { id: id.clone(), interrupt: Interrupt::CancelHttp(6) }
    );
    assert_eq!(
        ask(&mut e, Request::Resume { id: id.clone() }),
        Step::Resume {
            id: id.clone(),
            resume: Resume::Http {
                uri: "u".to_string(),
                output_path: "/a".to_string(),
                parts: vec![],
                supports_ranges: false,
            },
        }
    );
    assert_eq!(
        ask(&mut e, Request::Remove { id: id.clone(), delete_file: true }),
        Step::Remove {
            id: id.clone(),
            delete_file: true,
            removal: Removal {
                cancel_http: None,
                cancel_youtube: None,
                drop_torrent: None,
                delete: vec!["/a".to_string()],
            },
        }
    );
    assert_eq!(e.tasks.len(), 0);
    assert_eq!(IpcServer::done(id.clone(), Done::Paused, None), ok(some("a"), "Download paused"));
    assert_eq!(IpcServer::done(id.clone(), Done::Resumed, None), ok(some("a"), "Download resumed"));
    assert_eq!(IpcServer::done(id.clone(), Done::Removed, None), ok(some("a"), "Download removed"));
    assert_eq!(IpcServer::done(id, Done::Removed, some("disk full")), error("disk full"));
}

#[test]
fn what_is_not_there_is_refused() {
    let mut e = engine();
    enter(&mut e, "b", "b", 1, "/b");
    let id = "a".to_string();
    for req in [
        Request::Pause { id: id.clone() },
        Request::Resume { id: id.clone() },
        Request::OpenFile { id: id.clone() },
        Request::OpenFolder { id: id.clone() },
    ] {
        assert_eq!(ask(&mut e, req), Step::Reply(error("Task not found")));
    }
    assert_eq!(
        ask(&mut e, Request::Remove { id: id.clone(), delete_file: true }),
        Step::Remove {
            id,
            delete_file: true,
            removal: Removal {
                cancel_http: None,
                cancel_youtube: None,
                drop_torrent: None,
                delete: vec![],
            },
        }
    );
    assert!(e.tasks.contains("b"));
}

#[test]
fn files_and_folders_are_opened() {
    let mut e = engine();
    enter(&mut e, "old", "a", 1, "/old");
    enter(&mut e, "new", "a", 2, "/new");
    let id = "a".to_string();
    assert_eq!(
        ask(&mut e, Request::OpenFile { id: id.clone() }),
        Step::OpenFile { id: id.clone(), path: "/new".to_string() }
    );
    assert_eq!(
        ask(&mut e, Request::OpenFolder { id: id.clone() }),
        Step::OpenFolder { id: id.clone(), path: "/new".to_string() }
    );
    let t = e.tasks.get_mut("new").unwrap();
    t.kind = DownloadKind::Youtube;
    t.output_path = "/d".to_string();
    assert_eq!(
        ask(&mut e, Request::OpenFile { id: id.clone() }),
        Step::OpenFile { id: id.clone(), path: "/d".to_string() }
    );
    e.youtube_wrote("new", "/d/v.f1.mp4".to_string());
    e.youtube_wrote("new", "/d/v.mp4".to_string());
    assert_eq!(
        ask(&mut e, Request::OpenFile { id: id.clone() }),
        Step::OpenFile { id: id.clone(), path: "/d/v.mp4".to_string() }
    );
    assert_eq!(
        ask(&mut e, Request::OpenFolder { id: id.clone() }),
        Step::OpenFolder { id: id.clone(), path: "/d".to_string() }
    );
    assert_eq!(IpcServer::opened_file(id.clone()), ok(some("a"), "Opened file"));
    assert_eq!(IpcServer::opened_folder(id), ok(some("a"), "Opened folder"));
    assert_eq!(IpcServer::folder_of("/d/f".to_string(), true), "/d/f");
    assert_eq!(IpcServer::folder_of("/d/f".to_string(), false), "/d");
    assert_eq!(IpcServer::folder_of("f".to_string(), false), "");
    assert_eq!(IpcServer::folder_of("/".to_string(), false), "/");
}

#[test]
fn settings_are_given_back_once_kept() {
    let mut e = engine();
    let mut c = e.config.clone();
    c.default_parts = 2;
    assert_eq!(
        ask(&mut e, Request::GetConfig),
        Step::Reply(Response::Config(e.config.clone()))
    );
    assert_eq!(
        ask(&mut e, Request::SetConfig { config: c.clone() }),
        Step::SaveConfig { config: c.clone() }
    );
    assert_eq!(e.config.default_parts, 16);
    assert_eq!(
        IpcServer::config_saved(&mut e, c.clone(), some("disk full")),
        error("Failed to save config: disk full")
    );
    assert_eq!(e.config.default_parts, 16);
    assert_eq!(IpcServer::config_saved(&mut e, c.clone(), None), Response::Config(c.clone()));
    assert_eq!(ask(&mut e, Request::GetConfig), Step::Reply(Response::Config(c)));
}

fn auto(uri: &str, kind: DetectedKind) -> Step {
    Step::AutoStart { uri: uri.to_string(), kind }
}

#[test]
fn the_clipboard_obeys_the_settings() {
    let mut e = engine();
    let magnet = auto("magnet:?x", DetectedKind::Magnet);
    let torrent = auto("http://h/a.torrent", DetectedKind::TorrentUrl);
    let queried = auto("http://h/A.TORRENT?x=1", DetectedKind::TorrentUrl);
    let file = auto("https://example.com/file.iso", DetectedKind::DirectFile);
    let checked = Step::Reply(ok(None, "Clipboard event checked"));
    assert_eq!(clip(&mut e, " magnet:?x\n"), magnet);
    assert_eq!(clip(&mut e, "http://h/a.torrent "), torrent);
    assert_eq!(clip(&mut e, "http://h/A.TORRENT?x=1"), queried);
    assert_eq!(clip(&mut e, " https://example.com/file.iso"), file);
    assert_eq!(clip(&mut e, "http://h/a.html"), checked);
    e.config.auto_start_magnets = false;
    assert_eq!(clip(&mut e, "magnet:?x"), checked);
    assert_eq!(clip(&mut e, "http://h/a.torrent"), torrent);
    assert_eq!(clip(&mut e, "magnet:?a.torrent"), auto("magnet:?a.torrent", DetectedKind::Magnet));
    e.config.auto_start_torrents = false;
    assert_eq!(clip(&mut e, "http://h/a.torrent"), checked);
    assert_eq!(clip(&mut e, "http://h/A.TORRENT?x=1"), checked);
    assert_eq!(clip(&mut e, "https://example.com/file.iso"), file);
    e.config.auto_start_magnets = true;
    e.config.auto_capture_clipboard = false;
    assert_eq!(clip(&mut e, "magnet:?x"), Step::Reply(ok(None, "Auto-capture disabled")));
    assert_eq!(
        clip(&mut e, "https://example.com/file.iso"),
        Step::Reply(ok(None, "Auto-capture disabled"))
    );
}

#[test]
fn what_is_found_decides() {
    let c = engine().config;
    assert_eq!(
        IpcServer::clipboard_event(&c, " x ", Some(DetectedKind::DirectFile)),
        auto("x", DetectedKind::DirectFile)
    );
    assert_eq!(
        IpcServer::clipboard_event(&c, "x", Some(DetectedKind::TorrentUrl)),
        auto("x", DetectedKind::TorrentUrl)
    );
    assert_eq!(
        IpcServer::clipboard_event(&c, "x", None),
        Step::Reply(ok(None, "Clipboard event checked"))
    );
}

#[test]
fn the_user_is_told_of_what_the_clipboard_started() {
    let started = ok(some("i"), "Auto-started download from clipboard");
    for (kind, what) in [
        (DetectedKind::Magnet, "Magnet link"),
        (DetectedKind::TorrentUrl, "Torrent"),
        (DetectedKind::DirectFile, "File"),
    ] {
        assert_eq!(
            IpcServer::auto_started(kind, Ok("i".to_string())),
            (
                started.clone(),
                Some(Notice {
                    title: "Panda Downloader".to_string(),
                    body: format!("Captured & started downloading: {}", what),
                })
            )
        );
    }
    assert_eq!(
        IpcServer::auto_started(DetectedKind::Magnet, Err("no".to_string())),
        (error("Failed to auto-start download: no"), None)
    );
}

#[test]
fn a_bad_line_changes_nothing() {
    let mut e = engine();
    enter(&mut e, "a", "a", 1, "/a");
    let lines = vec![
        Ok(Request::Pause { id: "a".to_string() }),
        Err("expected value".to_string()),
        Ok(Request::GetConfig),
    ];
    let steps: Vec<Step> =
        lines.into_iter().map(|line| IpcServer::take_line(line, &mut e)).collect();
    assert_eq!(steps.len(), 3);
    assert!(matches!(steps[0], Step::Interrupt { .. }));
    assert_eq!(steps[1], Step::Reply(error("Invalid JSON request: expected value")));
    assert_eq!(steps[2], Step::Reply(Response::Config(e.config.clone())));
    assert_eq!(e.tasks.get("a").unwrap().status, DownloadStatus::Paused);
}

#[test]
fn lines_and_complaints() {
    assert_eq!(line_of("{}"), "{}\n");
    assert_eq!(IpcClient::first_line(some("{}")), Ok("{}".to_string()));
    assert_eq!(
        IpcClient::first_line(None),
        Err("Connection closed without response".to_string())
    );
    assert_eq!(
        IpcServer::invalid_request("expected value"),
        error("Invalid JSON request: expected value")
    );
    assert_eq!(
        IpcClient::not_running("/s.sock"),
        "Panda-DL daemon is not running (socket not found at /s.sock)"
    );
}
