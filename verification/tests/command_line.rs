use panda_dl::cli::{
    applications_dir, applications_dir_in, cut, desktop_entry, ensure_daemon_running, handle_add,
    handle_list, handle_message, handle_set_config, mime_registrations, pad, plan, status_label, table_head, table_row,
    Cli, Commands, DaemonWait, Output, Plan, RowNumbers, Show, Startup, Waited, MAX_POLLS,
};
use panda_dl::config::{Config, ConfigChange};
use panda_dl::ipc::{Request, Response};
use panda_dl::types::{DaemonStatus, DownloadKind, DownloadStatus, DownloadTask};

fn some(s: &str) -> Option<String> {
    Some(s.to_string())
}

fn planned(command: Commands) -> Plan {
    plan(Cli { command: Some(command) })
}

fn ask(request: Request, show: Show) -> Plan {
    Plan::Ask { request, show }
}

fn task() -> DownloadTask {
    DownloadTask {
        id: "0123456789".to_string(),
        name: "short".to_string(),
        uri: "u".to_string(),
        kind: DownloadKind::Http,
        status: DownloadStatus::Paused,
        total_bytes: Some(2097152),
        downloaded_bytes: 1048576,
        uploaded_bytes: 0,
        download_speed: 0,
        upload_speed: 0,
        eta_seconds: None,
        output_path: "/p".to_string(),
        created_at: 0,
        parts: vec![],
        torrent_info: None,
        files: vec![],
    }
}

fn numbers() -> RowNumbers {
    RowNumbers {
        downloaded: "1.00 MB".to_string(),
        total: "2.00 MB".to_string(),
        percent: "50.0%".to_string(),
        speed: "3.00 MB/s".to_string(),
    }
}

#[test]
fn commands_become_requests() {
    let id = "i".to_string();
    assert_eq!(plan(Cli { command: None }), Plan::Usage);
    assert_eq!(planned(Commands::Daemon), Plan::RunDaemon);
    assert_eq!(planned(Commands::Start), Plan::StartDaemon);
    assert_eq!(planned(Commands::InstallDesktop), Plan::InstallDesktop);
    assert_eq!(
        planned(Commands::Add { uri: "u".to_string(), dir: some("/d"), parts: Some(4) }),
        ask(Request::Add { uri: "u".to_string(), dir: some("/d"), parts: Some(4) }, Show::Added)
    );
    assert_eq!(planned(Commands::List), ask(Request::Status, Show::Table));
    assert_eq!(planned(Commands::Status), ask(Request::Status, Show::StatusJson));
    assert_eq!(
        planned(Commands::Pause { id: id.clone() }),
        ask(Request::Pause { id: id.clone() }, Show::Message)
    );
    assert_eq!(
        planned(Commands::Resume { id: id.clone() }),
        ask(Request::Resume { id: id.clone() }, Show::Message)
    );
    assert_eq!(
        planned(Commands::Remove { id: id.clone(), delete_file: true }),
        ask(Request::Remove { id: id.clone(), delete_file: true }, Show::Message)
    );
    assert_eq!(
        planned(Commands::OpenFile { id: id.clone() }),
        ask(Request::OpenFile { id: id.clone() }, Show::Silence)
    );
    assert_eq!(
        planned(Commands::OpenFolder { id: id.clone() }),
        ask(Request::OpenFolder { id }, Show::Silence)
    );
    assert_eq!(planned(Commands::GetConfig), ask(Request::GetConfig, Show::ConfigJson));
    assert_eq!(
        planned(Commands::SetConfig {
            dir: None,
            parts: Some(2),
            auto_capture: Some(true),
            auto_magnets: None,
            auto_torrents: Some(false),
        }),
        Plan::Configure {
            change: ConfigChange {
                dir: None,
                parts: Some(2),
                auto_capture: Some(true),
                auto_magnets: None,
                auto_torrents: Some(false),
            },
        }
    );
}

#[test]
fn answers_are_shown() {
    let added = Response::Success { id: some("i"), message: some("Done") };
    assert_eq!(handle_add(added.clone()), Output::Print("Done (ID: i)".to_string()));
    assert_eq!(handle_message(added), Output::Print("Done".to_string()));
    let bare = Response::Success { id: None, message: None };
    assert_eq!(handle_add(bare.clone()), Output::Print(" (ID: )".to_string()));
    assert_eq!(handle_message(bare), Output::Print("".to_string()));
    let error = Response::Error { message: "no".to_string() };
    assert_eq!(handle_add(error.clone()), Output::Complain("Error: no".to_string()));
    assert_eq!(handle_message(error), Output::Complain("Error: no".to_string()));
    let other = Response::Config(Config::initial(None, None));
    assert_eq!(handle_add(other.clone()), Output::Nothing);
    assert_eq!(handle_message(other), Output::Nothing);
}

#[test]
fn settings_are_changed_and_handed_back() {
    let given = Config::initial(some("/given"), None);
    let fallback = Config::initial(some("/fallback"), None);
    let change = || ConfigChange {
        dir: None,
        parts: Some(2),
        auto_capture: None,
        auto_magnets: None,
        auto_torrents: None,
    };
    assert_eq!(
        handle_set_config(Response::Config(given.clone()), fallback.clone(), change()),
        Request::SetConfig { config: Config { default_parts: 2, ..given } }
    );
    assert_eq!(
        handle_set_config(Response::Error { message: "x".to_string() }, fallback.clone(), change()),
        Request::SetConfig { config: Config { default_parts: 2, ..fallback } }
    );
}

#[test]
fn rows_are_written() {
    assert_eq!(
        table_row(&task(), "Paused", &numbers()),
        format!(
            "[{}] {:<12} | {:<25} | {}/{} ({}) | {}",
            "01234567", "Paused", "short", "1.00 MB", "2.00 MB", "50.0%", "-"
        )
    );
    let long = "a name that is longer than a table allows";
    let t = DownloadTask {
        name: long.to_string(),
        total_bytes: None,
        download_speed: 5,
        ..task()
    };
    assert_eq!(
        table_row(&t, "Error(\"a long message\")", &numbers()),
        format!(
            "[{}] {:<12} | {:<25} | {}/{} ({}) | {}",
            "01234567",
            "Error(\"a long message\")",
            &long[..25],
            "1.00 MB",
            "Unknown",
            "---",
            "3.00 MB/s"
        )
    );
    let empty = DownloadTask { total_bytes: Some(0), ..task() };
    assert!(table_row(&empty, "Paused", &numbers()).contains("/2.00 MB (0%) | -"));
}

#[test]
fn texts_are_cut_where_a_character_ends() {
    let a24 = "a".repeat(24);
    for (text, max, part) in [
        ("abc", 3, "abc"),
        ("abc", 2, "ab"),
        ("abc", 0, ""),
        ("", 8, ""),
        ("é", 1, ""),
        ("aé", 2, "a"),
        ("aé", 3, "aé"),
        ("a€b", 3, "a"),
        ("a€b", 4, "a€"),
        ("😀😀", 7, "😀"),
    ] {
        assert_eq!(cut(text, max), part, "{:?} to {}", text, max);
    }
    assert_eq!(cut(&format!("{}é", a24), 25), a24);
}

#[test]
fn every_download_has_a_row() {
    let a24 = "a".repeat(24);
    let t = DownloadTask { name: format!("{}é", a24), id: "0123456é".to_string(), ..task() };
    assert_eq!(
        table_row(&t, "Paused", &numbers()),
        format!("[0123456] Paused       | {:<25} | 1.00 MB/2.00 MB (50.0%) | -", a24)
    );
    let t = DownloadTask { id: "short".to_string(), ..task() };
    assert!(table_row(&t, "Paused", &numbers()).starts_with("[short] Paused"));
}

#[test]
fn statuses_are_named() {
    for status in [
        DownloadStatus::Queued,
        DownloadStatus::Downloading,
        DownloadStatus::Paused,
        DownloadStatus::Completed,
        DownloadStatus::Error("plain".to_string()),
        DownloadStatus::Error("a \"quote\",\n a line\t\u{7f}".to_string()),
    ] {
        assert_eq!(status_label(&status), format!("{:?}", status));
    }
    assert_eq!(status_label(&DownloadStatus::Error("x".to_string())), "Error(\"x\")");
}

#[test]
fn texts_are_padded() {
    for s in ["", "a", "éü", "abcde", "abcdef"] {
        assert_eq!(pad(s, 5), format!("{:<5}", s));
    }
}

#[test]
fn the_head_is_written() {
    assert_eq!(
        table_head(2, "1.50 MB/s", "0.00 MB/s"),
        "Panda-DL | Active: 2 | Down: 1.50 MB/s | Up: 0.00 MB/s"
    );
}

#[test]
fn the_table_is_written() {
    let rule = "=".repeat(60);
    let head = "Panda-DL | Active: 1 | Down: 1 | Up: 2".to_string();
    let mut status = DaemonStatus {
        active_downloads: 1,
        total_download_speed: 0,
        total_upload_speed: 0,
        downloads: vec![],
    };
    assert_eq!(
        handle_list(&status, "1", "2", &vec![]),
        vec![rule.clone(), head.clone(), rule.clone(), "No downloads found.".to_string()]
    );
    let other = DownloadTask {
        id: "abcdefgh".to_string(),
        status: DownloadStatus::Queued,
        ..task()
    };
    status.downloads = vec![task(), other.clone()];
    let lines = handle_list(&status, "1", "2", &vec![numbers(), numbers()]);
    assert_eq!(
        lines,
        vec![
            rule.clone(),
            head,
            rule,
            table_row(&task(), "Paused", &numbers()),
            table_row(&other, "Queued", &numbers()),
        ]
    );
}

#[test]
fn the_desktop_learns_of_the_program() {
    assert_eq!(
        desktop_entry("/bin/panda-dl"),
        "[Desktop Entry]
Name=Panda Downloader
Comment=Multi-part and BitTorrent download manager
Exec=/bin/panda-dl add %u
Terminal=false
Type=Application
Icon=download
MimeType=x-scheme-handler/magnet;application/x-bittorrent;
Categories=Network;FileTransfer;
"
    );
    let (magnets, torrents) = mime_registrations();
    assert_eq!(magnets, vec!["default", "panda-dl.desktop", "x-scheme-handler/magnet"]);
    assert_eq!(torrents, vec!["default", "panda-dl.desktop", "application/x-bittorrent"]);
    let place = |s: &str| Some(s.as_bytes().to_vec());
    assert_eq!(applications_dir_in(place("/d"), None), place("/d/applications"));
    assert_eq!(applications_dir_in(None, place("/h")), place("/h/.local/share/applications"));
    assert_eq!(applications_dir_in(None, None), None);
    let data = dirs::data_dir().map(|p| p.into_os_string().into_encoded_bytes());
    let home = dirs::home_dir().map(|p| p.into_os_string().into_encoded_bytes());
    assert_eq!(applications_dir(), applications_dir_in(data, home));
}

#[test]
fn a_daemon_is_started_where_there_is_none() {
    assert_eq!(ensure_daemon_running(true, true), Startup::Running);
    assert_eq!(ensure_daemon_running(true, false), Startup::ClearAndSpawn);
    assert_eq!(ensure_daemon_running(false, false), Startup::Spawn);
    assert_eq!(ensure_daemon_running(false, true), Startup::Spawn);
}

#[test]
fn waiting_comes_to_an_end() {
    let mut wait = DaemonWait::new();
    for _ in 1..MAX_POLLS {
        assert_eq!(wait.polled(false), Waited::Again);
    }
    assert_eq!(wait.polled(false), Waited::TimedOut);
    let mut lucky = DaemonWait::new();
    assert_eq!(lucky.polled(false), Waited::Again);
    assert_eq!(lucky.polled(true), Waited::Ready);
    assert_eq!(lucky.polls, 2);
    assert_eq!(DaemonWait::timed_out(), "Timed out waiting for Panda-DL daemon to start");
}
