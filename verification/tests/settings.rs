use panda_dl::config::{choose_dir, Config, ConfigChange};
use panda_dl::ipc::IpcServer;
use panda_dl::places::{below, choose_place, own_file_in};
use panda_dl::storage::{storage_path, storage_path_in};

fn some(s: &str) -> Option<String> {
    Some(s.to_string())
}

fn place(s: &str) -> Option<Vec<u8>> {
    Some(s.as_bytes().to_vec())
}

fn nothing() -> ConfigChange {
    ConfigChange {
        dir: None,
        parts: None,
        auto_capture: None,
        auto_magnets: None,
        auto_torrents: None,
    }
}

#[test]
fn chooses_directories() {
    assert_eq!(choose_dir(some("/k"), some("/h"), "b", "/f"), "/k");
    assert_eq!(choose_dir(None, some("/h"), "b", "/f"), "/h/b");
    assert_eq!(choose_dir(None, None, "b", "/f"), "/f");
    assert_eq!(choose_place(place("/k"), place("/h"), "b", "/f"), b"/k");
    assert_eq!(choose_place(None, place("/h"), "b", "/f"), b"/h/b");
    assert_eq!(choose_place(None, None, "b", "/f"), b"/f");
    assert_eq!(own_file_in(b"/x".to_vec(), "y"), b"/x/panda-dl/y");
}

#[test]
fn begins_with_these_settings() {
    let c = Config::initial(some("/dl"), some("/home/u"));
    assert_eq!(
        c,
        Config {
            download_dir: "/dl".to_string(),
            default_parts: 16,
            max_concurrent_downloads: 5,
            auto_capture_clipboard: true,
            auto_start_magnets: true,
            auto_start_torrents: true,
            show_desktop_notifications: true,
        }
    );
    assert_eq!(Config::initial(None, some("/home/u")).download_dir, "/home/u/Downloads");
    assert_eq!(Config::initial(None, None).download_dir, "/tmp");
}

#[test]
fn knows_its_files() {
    assert_eq!(Config::config_path_in(place("/c"), place("/h")), b"/c/panda-dl/config.json");
    assert_eq!(Config::config_path_in(None, place("/h")), b"/h/.config/panda-dl/config.json");
    assert_eq!(Config::config_path_in(None, None), b"./panda-dl/config.json");
    assert_eq!(storage_path_in(place("/d"), place("/h")), b"/d/panda-dl/tasks.json");
    assert_eq!(storage_path_in(None, place("/h")), b"/h/.local/share/panda-dl/tasks.json");
    assert_eq!(storage_path_in(None, None), b"./panda-dl/tasks.json");
    assert_eq!(IpcServer::socket_path_in(place("/d"), place("/h")), b"/d/panda-dl/panda-dl.sock");
    assert_eq!(
        IpcServer::socket_path_in(None, place("/h")),
        b"/h/.local/share/panda-dl/panda-dl.sock"
    );
    assert_eq!(IpcServer::socket_path_in(None, None), b"./panda-dl/panda-dl.sock");
}

#[test]
fn a_directory_need_not_be_unicode() {
    let odd = vec![b'/', 0xff, 0xfe];
    assert_eq!(below(odd.clone(), "x"), vec![b'/', 0xff, 0xfe, b'/', b'x']);
    assert_eq!(
        storage_path_in(Some(odd), None),
        [&[b'/', 0xff, 0xfe][..], b"/panda-dl/tasks.json"].concat()
    );
    assert_eq!(below(b"/a/".to_vec(), "x"), b"/a/x");
    assert_eq!(below(vec![], "x"), b"x");
    assert_eq!(below(b"/a".to_vec(), "/x"), b"/x");
}

#[test]
fn finds_its_files_on_this_machine() {
    let bytes = |p: std::path::PathBuf| p.into_os_string().into_encoded_bytes();
    let config = dirs::config_dir().map(bytes);
    let data = dirs::data_dir().map(bytes);
    let home = dirs::home_dir().map(bytes);
    assert_eq!(Config::config_path(), Config::config_path_in(config, home.clone()));
    assert_eq!(storage_path(), storage_path_in(data.clone(), home.clone()));
    assert_eq!(IpcServer::socket_path(), IpcServer::socket_path_in(data, home));
}

#[test]
fn takes_what_was_found() {
    let mut c = Config::initial(some("/dl"), None);
    c.default_parts = 3;
    assert_eq!(Config::load(Some(c.clone()), some("/x"), some("/h")), (c, false));
    assert_eq!(
        Config::load(None, some("/x"), some("/h")),
        (Config::initial(some("/x"), some("/h")), true)
    );
}

#[test]
fn changes_what_is_given() {
    let before = Config::initial(some("/dl"), None);
    let mut c = before.clone();
    c.apply(nothing());
    assert_eq!(c, before);
    c.apply(ConfigChange { dir: some("/new"), auto_magnets: Some(false), ..nothing() });
    assert_eq!(
        c,
        Config { download_dir: "/new".to_string(), auto_start_magnets: false, ..before.clone() }
    );
    c.apply(ConfigChange {
        parts: Some(8),
        auto_capture: Some(false),
        auto_torrents: Some(false),
        ..nothing()
    });
    let once = c.clone();
    assert_eq!(
        once,
        Config {
            download_dir: "/new".to_string(),
            default_parts: 8,
            auto_capture_clipboard: false,
            auto_start_magnets: false,
            auto_start_torrents: false,
            ..before
        }
    );
    c.apply(ConfigChange {
        parts: Some(8),
        auto_capture: Some(false),
        auto_torrents: Some(false),
        ..nothing()
    });
    assert_eq!(c, once);
}
