//! The settings of the daemon.

use vstd::prelude::*;

use crate::outside::{config_dir, home_dir};
use crate::paths::{self, join};
use crate::places::{self, choose_place, own_file_in};
use crate::text;

verus! {

/// The settings.
#[derive(Debug, PartialEq, Eq)]
pub struct Config {
    pub download_dir: String,
    pub default_parts: usize,
    pub max_concurrent_downloads: usize,
    pub auto_capture_clipboard: bool,
    pub auto_start_magnets: bool,
    pub auto_start_torrents: bool,
    pub show_desktop_notifications: bool,
}

/// The settings, with their text as characters.
#[verifier::ext_equal]
pub struct ConfigView {
    pub download_dir: Seq<char>,
    pub default_parts: usize,
    pub max_concurrent_downloads: usize,
    pub auto_capture_clipboard: bool,
    pub auto_start_magnets: bool,
    pub auto_start_torrents: bool,
    pub show_desktop_notifications: bool,
}

impl View for Config {
    type V = ConfigView;

    open spec fn view(&self) -> ConfigView {
        ConfigView {
            download_dir: self.download_dir@,
            default_parts: self.default_parts,
            max_concurrent_downloads: self.max_concurrent_downloads,
            auto_capture_clipboard: self.auto_capture_clipboard,
            auto_start_magnets: self.auto_start_magnets,
            auto_start_torrents: self.auto_start_torrents,
            show_desktop_notifications: self.show_desktop_notifications,
        }
    }
}

impl Clone for Config {
    fn clone(&self) -> (r: Self)
        ensures
            r@ == self@,
    {
        Config {
            download_dir: self.download_dir.clone(),
            default_parts: self.default_parts,
            max_concurrent_downloads: self.max_concurrent_downloads,
            auto_capture_clipboard: self.auto_capture_clipboard,
            auto_start_magnets: self.auto_start_magnets,
            auto_start_torrents: self.auto_start_torrents,
            show_desktop_notifications: self.show_desktop_notifications,
        }
    }
}

/// A directory of the user's: the one that is known, else one below the home directory, else
/// a fixed one.
pub open spec fn user_dir(
    known: Option<Seq<char>>,
    home: Option<Seq<char>>,
    below_home: Seq<char>,
    fixed: Seq<char>,
) -> Seq<char> {
    match known {
        Some(d) => d,
        None => match home {
            Some(h) => paths::join_spec(h, below_home),
            None => fixed,
        },
    }
}

/// A directory of the user's, as `user_dir` says.
pub fn choose_dir(
    known: Option<String>,
    home: Option<String>,
    below_home: &str,
    fixed: &str,
) -> (r: String)
    ensures
        r@ == user_dir(text::opt_text(known), text::opt_text(home), below_home@, fixed@),
{
    match known {
        Some(d) => d,
        None => match home {
            Some(h) => join(&h, below_home),
            None => fixed.to_owned(),
        },
    }
}

/// The settings before anyone has changed them.
pub open spec fn initial_config(download: Option<Seq<char>>, home: Option<Seq<char>>) -> ConfigView {
    ConfigView {
        download_dir: user_dir(download, home, "Downloads"@, "/tmp"@),
        default_parts: 16,
        max_concurrent_downloads: 5,
        auto_capture_clipboard: true,
        auto_start_magnets: true,
        auto_start_torrents: true,
        show_desktop_notifications: true,
    }
}

/// Where the settings are kept.
pub open spec fn config_file(config: Option<Seq<u8>>, home: Option<Seq<u8>>) -> Seq<u8> {
    places::own_file(places::user_place(config, home, ".config"@, "."@), "config.json"@)
}

/// Changes to the settings; what is `None` stays.
#[derive(Debug, PartialEq, Eq)]
pub struct ConfigChange {
    pub dir: Option<String>,
    pub parts: Option<usize>,
    pub auto_capture: Option<bool>,
    pub auto_magnets: Option<bool>,
    pub auto_torrents: Option<bool>,
}

/// What is given, or else what was there.
pub open spec fn or_kept<T>(given: Option<T>, kept: T) -> T {
    match given {
        Some(t) => t,
        None => kept,
    }
}

/// The settings after a change.
pub open spec fn changed_config(c: ConfigView, change: ConfigChange) -> ConfigView {
    ConfigView {
        download_dir: or_kept(text::opt_text(change.dir), c.download_dir),
        default_parts: or_kept(change.parts, c.default_parts),
        auto_capture_clipboard: or_kept(change.auto_capture, c.auto_capture_clipboard),
        auto_start_magnets: or_kept(change.auto_magnets, c.auto_start_magnets),
        auto_start_torrents: or_kept(change.auto_torrents, c.auto_start_torrents),
        ..c
    }
}

/// The settings to start with, and whether they are to be kept.
pub open spec fn loaded_is(
    found: Option<Config>,
    download: Option<Seq<char>>,
    home: Option<Seq<char>>,
    r: (Config, bool),
) -> bool {
    match found {
        Some(c) => r == (c, false),
        None => r.1 && r.0@ == initial_config(download, home),
    }
}

impl Config {
    /// The settings before anyone has changed them, for a user with these directories.
    pub fn initial(download: Option<String>, home: Option<String>) -> (r: Config)
        ensures
            r@ == initial_config(text::opt_text(download), text::opt_text(home)),
    {
        Config {
            download_dir: choose_dir(download, home, "Downloads", "/tmp"),
            default_parts: 16,
            max_concurrent_downloads: 5,
            auto_capture_clipboard: true,
            auto_start_magnets: true,
            auto_start_torrents: true,
            show_desktop_notifications: true,
        }
    }

    /// Where the settings of a user with these directories are kept.
    pub fn config_path_in(config: Option<Vec<u8>>, home: Option<Vec<u8>>) -> (r: Vec<u8>)
        ensures
            r@ == config_file(places::opt_place(config), places::opt_place(home)),
    {
        own_file_in(choose_place(config, home, ".config", "."), "config.json")
    }

    /// Where the settings are kept. Where the user's directories are is up to the machine.
    pub fn config_path() -> (r: Vec<u8>)
        ensures
            exists|config: Option<Seq<u8>>, home: Option<Seq<u8>>|
                r@ == #[trigger] config_file(config, home),
    {
        Self::config_path_in(config_dir(), home_dir())
    }

    /// The settings to start with: those that were found, or else the initial ones of a user with
    /// these directories, which are then to be kept (the second value).
    pub fn load(found: Option<Config>, download: Option<String>, home: Option<String>) -> (r: (
        Config,
        bool,
    ))
        ensures
            loaded_is(found, text::opt_text(download), text::opt_text(home), r),
    {
        match found {
            Some(c) => (c, false),
            None => (Config::initial(download, home), true),
        }
    }

    /// Changes what is given and nothing else.
    pub fn apply(&mut self, change: ConfigChange)
        ensures
            final(self)@ == changed_config(old(self)@, change),
    {
        if let Some(d) = change.dir {
            self.download_dir = d;
        }
        if let Some(p) = change.parts {
            self.default_parts = p;
        }
        if let Some(b) = change.auto_capture {
            self.auto_capture_clipboard = b;
        }
        if let Some(b) = change.auto_magnets {
            self.auto_start_magnets = b;
        }
        if let Some(b) = change.auto_torrents {
            self.auto_start_torrents = b;
        }
    }
}

/// Applying a change twice is applying it once.
pub proof fn changing_is_idempotent(c: ConfigView, change: ConfigChange)
    ensures
        changed_config(changed_config(c, change), change) == changed_config(c, change),
{
}

/// The settings are kept below the directory for settings, whatever it is, else below the home
/// directory, else below the one at hand.
pub proof fn where_the_settings_are(
    base: Seq<u8>,
    home: Option<Seq<u8>>,
)
    requires
        base.len() > 0,
        base.last() != 47,
    ensures
        config_file(Some(base), home) == base + vstd::utf8::encode_utf8("/panda-dl/config.json"@),
        config_file(None, Some(base)) == base + vstd::utf8::encode_utf8("/.config/panda-dl/config.json"@),
        config_file(None, None) == vstd::utf8::encode_utf8("./panda-dl/config.json"@),
{
    reveal_strlit("config.json");
    reveal_strlit(".config");
    reveal_strlit(".");
    reveal_strlit("/panda-dl/");
    reveal_strlit("/panda-dl/config.json");
    reveal_strlit("/.config/panda-dl/config.json");
    reveal_strlit("./panda-dl/config.json");
    let name = "config.json"@;
    let below = ".config"@;
    let tail = "/panda-dl/config.json"@;
    let dot = "."@;
    let sb = seq!['/'] + below;
    assert('/' as u8 == 47 && '.' as u8 == 46);
    assert(tail =~= "/panda-dl/"@ + name);
    assert("/.config/panda-dl/config.json"@ =~= sb + tail);
    assert("./panda-dl/config.json"@ =~= dot + tail);
    places::files_lie_in_a_directory_of_their_own(base, name);
    places::taking_from_a_directory_puts_behind(base, below);
    places::plain_text_is_its_bytes(sb, tail);
    places::plain_text_is_its_bytes(dot, tail);
    vstd::utf8::is_ascii_chars_encode_utf8(sb);
    vstd::utf8::is_ascii_chars_encode_utf8(dot);
    let mid = base + vstd::utf8::encode_utf8(sb);
    assert(sb.last() == below.last());
    assert(vstd::utf8::encode_utf8(sb)[sb.len() - 1] == sb[sb.len() - 1] as u8);
    assert(mid.last() == sb.last() as u8);
    assert(below.last() == 'g');
    assert('g' as u8 != 47);
    places::files_lie_in_a_directory_of_their_own(mid, name);
    assert(mid + vstd::utf8::encode_utf8(tail) =~= base + (vstd::utf8::encode_utf8(sb)
        + vstd::utf8::encode_utf8(tail)));
    places::files_lie_in_a_directory_of_their_own(vstd::utf8::encode_utf8(dot), name);
}

/// The settings before anyone has changed them: downloads go to the directory that is known for
/// them, whatever it is, else below the home directory, else to a fixed one; and a file comes in
/// sixteen parts, all that is captured is started, and the user is told.
pub proof fn the_initial_settings(known: Seq<char>, home: Seq<char>, any: Option<Seq<char>>)
    requires
        home.len() > 0,
        home.last() != '/',
    ensures
        initial_config(Some(known), any).download_dir == known,
        initial_config(None, Some(home)).download_dir == home + "/Downloads"@,
        initial_config(None, None).download_dir == "/tmp"@,
        ({
            let c = initial_config(any, Some(home));
            &&& c.default_parts == 16
            &&& c.max_concurrent_downloads == 5
            &&& c.auto_capture_clipboard && c.auto_start_magnets && c.auto_start_torrents
            &&& c.show_desktop_notifications
        }),
        ({
            let c = initial_config(any, None);
            &&& c.default_parts == 16
            &&& c.max_concurrent_downloads == 5
            &&& c.auto_capture_clipboard && c.auto_start_magnets && c.auto_start_torrents
            &&& c.show_desktop_notifications
        }),
{
    reveal_strlit("Downloads");
    reveal_strlit("/Downloads");
    assert(home.push('/') + "Downloads"@ =~= home + "/Downloads"@);
}

/// A change sets what is given, to whatever is given, and keeps all else.
pub proof fn a_change_sets_what_is_given(c: ConfigView, change: ConfigChange)
    ensures
        ({
            let d = changed_config(c, change);
            &&& change.dir is Some ==> d.download_dir == change.dir->0@
            &&& change.dir is None ==> d.download_dir == c.download_dir
            &&& change.parts is Some ==> d.default_parts == change.parts->0
            &&& change.parts is None ==> d.default_parts == c.default_parts
            &&& change.auto_capture is Some ==> d.auto_capture_clipboard == change.auto_capture->0
            &&& change.auto_capture is None ==> d.auto_capture_clipboard
                == c.auto_capture_clipboard
            &&& change.auto_magnets is Some ==> d.auto_start_magnets == change.auto_magnets->0
            &&& change.auto_magnets is None ==> d.auto_start_magnets == c.auto_start_magnets
            &&& change.auto_torrents is Some ==> d.auto_start_torrents == change.auto_torrents->0
            &&& change.auto_torrents is None ==> d.auto_start_torrents == c.auto_start_torrents
            &&& d.max_concurrent_downloads == c.max_concurrent_downloads
            &&& d.show_desktop_notifications == c.show_desktop_notifications
        }),
{
}

/// Settings that were found are taken as they are and need not be kept; else the initial ones are
/// taken, and are to be kept.
pub proof fn found_settings_are_taken_as_they_are(
    c: Config,
    download: Option<Seq<char>>,
    home: Option<Seq<char>>,
    r: (Config, bool),
)
    ensures
        loaded_is(Some(c), download, home, r) ==> r.0 == c && !r.1,
        loaded_is(None, download, home, r) ==> r.0@ == initial_config(download, home) && r.1,
{
}

} // verus!
