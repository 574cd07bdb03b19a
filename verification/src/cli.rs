//! The command line: what a command asks of the daemon, and how the answer is shown.

use vstd::prelude::*;

use crate::config::{self, Config, ConfigChange};
use crate::ipc::{Request, Response};
use crate::number::{self, decimal_string};
use crate::outside::{self, data_dir, home_dir, quoted};
use crate::places::{self, below};
use crate::text::{self, joined};
use crate::types::{DaemonStatus, DownloadStatus, DownloadTask, StatusView, TaskView};

verus! {

/// The command line.
#[derive(Debug, PartialEq, Eq)]
pub struct Cli {
    pub command: Option<Commands>,
}

/// The commands.
#[derive(Debug, PartialEq, Eq)]
pub enum Commands {
    /// Run the background daemon.
    Daemon,
    /// Ensure that the daemon is running in the background.
    Start,
    /// Add a download.
    Add { uri: String, dir: Option<String>, parts: Option<usize> },
    /// List all downloads.
    List,
    /// Print the status of all downloads as JSON.
    Status,
    /// Pause a download.
    Pause { id: String },
    /// Resume a download.
    Resume { id: String },
    /// Remove a download.
    Remove { id: String, delete_file: bool },
    /// Open a downloaded file.
    OpenFile { id: String },
    /// Open the folder that a downloaded file is in.
    OpenFolder { id: String },
    /// Print the settings.
    GetConfig,
    /// Change settings.
    SetConfig {
        dir: Option<String>,
        parts: Option<usize>,
        auto_capture: Option<bool>,
        auto_magnets: Option<bool>,
        auto_torrents: Option<bool>,
    },
    /// Register with the desktop.
    InstallDesktop,
}

/// How the answer to a command is shown.
#[derive(Debug, Clone, Copy, PartialEq, Eq, Structural)]
pub enum Show {
    /// The message with the name of the new download.
    Added,
    /// The message alone.
    Message,
    /// A table of downloads.
    Table,
    /// The status as JSON.
    StatusJson,
    /// The settings as JSON.
    ConfigJson,
    /// Nothing.
    Silence,
}

/// What a command takes.
#[derive(Debug, PartialEq, Eq)]
pub enum Plan {
    /// Say how the program is used.
    Usage,
    RunDaemon,
    StartDaemon,
    /// Ask the daemon and show its answer.
    Ask { request: Request, show: Show },
    /// Ask the daemon for the settings, change them and hand them back.
    Configure { change: ConfigChange },
    InstallDesktop,
}

/// What is written for the user.
#[derive(Debug, PartialEq, Eq)]
pub enum Output {
    Nothing,
    Print(String),
    Complain(String),
}

/// What is written for the user, as characters.
pub enum OutputView {
    Nothing,
    Print(Seq<char>),
    Complain(Seq<char>),
}

impl View for Output {
    type V = OutputView;

    open spec fn view(&self) -> OutputView {
        match self {
            Output::Nothing => OutputView::Nothing,
            Output::Print(s) => OutputView::Print(s@),
            Output::Complain(s) => OutputView::Complain(s@),
        }
    }
}

/// What a command line takes.
pub open spec fn plan_of(cli: Cli) -> Plan {
    match cli.command {
        None => Plan::Usage,
        Some(Commands::Daemon) => Plan::RunDaemon,
        Some(Commands::Start) => Plan::StartDaemon,
        Some(Commands::Add { uri, dir, parts }) => Plan::Ask {
            request: Request::Add { uri, dir, parts },
            show: Show::Added,
        },
        Some(Commands::List) => Plan::Ask { request: Request::Status, show: Show::Table },
        Some(Commands::Status) => Plan::Ask { request: Request::Status, show: Show::StatusJson },
        Some(Commands::Pause { id }) => Plan::Ask {
            request: Request::Pause { id },
            show: Show::Message,
        },
        Some(Commands::Resume { id }) => Plan::Ask {
            request: Request::Resume { id },
            show: Show::Message,
        },
        Some(Commands::Remove { id, delete_file }) => Plan::Ask {
            request: Request::Remove { id, delete_file },
            show: Show::Message,
        },
        Some(Commands::OpenFile { id }) => Plan::Ask {
            request: Request::OpenFile { id },
            show: Show::Silence,
        },
        Some(Commands::OpenFolder { id }) => Plan::Ask {
            request: Request::OpenFolder { id },
            show: Show::Silence,
        },
        Some(Commands::GetConfig) => Plan::Ask {
            request: Request::GetConfig,
            show: Show::ConfigJson,
        },
        Some(Commands::SetConfig { dir, parts, auto_capture, auto_magnets, auto_torrents }) =>
        Plan::Configure {
            change: ConfigChange { dir, parts, auto_capture, auto_magnets, auto_torrents },
        },
        Some(Commands::InstallDesktop) => Plan::InstallDesktop,
    }
}

/// What a command line takes.
pub fn plan(cli: Cli) -> (r: Plan)
    ensures
        r == plan_of(cli),
{
    match cli.command {
        None => Plan::Usage,
        Some(command) => match command {
            Commands::Daemon => Plan::RunDaemon,
            Commands::Start => Plan::StartDaemon,
            Commands::Add { uri, dir, parts } => Plan::Ask {
                request: Request::Add { uri, dir, parts },
                show: Show::Added,
            },
            Commands::List => Plan::Ask { request: Request::Status, show: Show::Table },
            Commands::Status => Plan::Ask { request: Request::Status, show: Show::StatusJson },
            Commands::Pause { id } => Plan::Ask {
                request: Request::Pause { id },
                show: Show::Message,
            },
            Commands::Resume { id } => Plan::Ask {
                request: Request::Resume { id },
                show: Show::Message,
            },
            Commands::Remove { id, delete_file } => Plan::Ask {
                request: Request::Remove { id, delete_file },
                show: Show::Message,
            },
            Commands::OpenFile { id } => Plan::Ask {
                request: Request::OpenFile { id },
                show: Show::Silence,
            },
            Commands::OpenFolder { id } => Plan::Ask {
                request: Request::OpenFolder { id },
                show: Show::Silence,
            },
            Commands::GetConfig => Plan::Ask { request: Request::GetConfig, show: Show::ConfigJson },
            Commands::SetConfig { dir, parts, auto_capture, auto_magnets, auto_torrents } =>
            Plan::Configure {
                change: ConfigChange { dir, parts, auto_capture, auto_magnets, auto_torrents },
            },
            Commands::InstallDesktop => Plan::InstallDesktop,
        },
    }
}

/// A text, or none of it.
pub open spec fn or_empty(s: Option<String>) -> Seq<char> {
    match s {
        Some(t) => t@,
        None => seq![],
    }
}

fn text_or_empty(s: Option<String>) -> (r: String)
    ensures
        r@ == or_empty(s),
{
    match s {
        Some(t) => t,
        None => String::new(),
    }
}

/// What is shown of the answer to a download that was to be added.
pub open spec fn added_shown(response: Response) -> OutputView {
    match response {
        Response::Success { id, message } => OutputView::Print(
            or_empty(message) + " (ID: "@ + or_empty(id) + ")"@,
        ),
        Response::Error { message } => OutputView::Complain("Error: "@ + message@),
        _ => OutputView::Nothing,
    }
}

/// What is shown of the answer to a pause, to a resumption or to a removal.
pub open spec fn message_shown(response: Response) -> OutputView {
    match response {
        Response::Success { id, message } => OutputView::Print(or_empty(message)),
        Response::Error { message } => OutputView::Complain("Error: "@ + message@),
        _ => OutputView::Nothing,
    }
}

/// The settings that are handed to the daemon: those that it has given, or else `fallback`,
/// changed as the user wants.
pub open spec fn settings_sent(
    response: Response,
    fallback: Config,
    change: ConfigChange,
    r: Request,
) -> bool {
    r matches Request::SetConfig { config } && config@ == config::changed_config(
        match response {
            Response::Config(given) => given@,
            _ => fallback@,
        },
        change,
    )
}

/// Shows that a download has been added.
pub fn handle_add(response: Response) -> (r: Output)
    ensures
        r@ == added_shown(response),
{
    match response {
        Response::Success { id, message } => {
            let mut line: String = joined(&text_or_empty(message), " (ID: ");
            line.append(&text_or_empty(id));
            line.append(")");
            Output::Print(line)
        },
        Response::Error { message } => Output::Complain(joined("Error: ", &message)),
        _ => Output::Nothing,
    }
}

/// Shows what the daemon says of a pause, of a resumption or of a removal.
pub fn handle_message(response: Response) -> (r: Output)
    ensures
        r@ == message_shown(response),
{
    match response {
        Response::Success { id, message } => Output::Print(text_or_empty(message)),
        Response::Error { message } => Output::Complain(joined("Error: ", &message)),
        _ => Output::Nothing,
    }
}

/// The settings to be handed to the daemon: those that it has given, or else `fallback`,
/// changed as the user wants.
pub fn handle_set_config(response: Response, fallback: Config, change: ConfigChange) -> (r: Request)
    ensures
        settings_sent(response, fallback, change, r),
{
    let mut c = match response {
        Response::Config(given) => given,
        _ => fallback,
    };
    c.apply(change);
    Request::SetConfig { config: c }
}

/// The first `n` bytes of a text, where a character ends there.
pub open spec fn is_leading(part: Seq<char>, whole: Seq<char>, n: int) -> bool {
    vstd::utf8::encode_utf8(part) == vstd::utf8::encode_utf8(whole).subrange(0, n)
}

/// A text cut to `max` bytes at most: all of it where it is no longer, else what comes before the
/// last place, from there backwards, at which a character ends.
pub open spec fn is_cut(part: Seq<char>, whole: Seq<char>, max: int) -> bool {
    let bytes = vstd::utf8::encode_utf8(whole);
    if bytes.len() <= max {
        part == whole
    } else {
        exists|k: int|
            {
                &&& 0 <= k <= max
                &&& #[trigger] vstd::utf8::is_char_boundary(bytes, k)
                &&& is_leading(part, whole, k)
                &&& forall|j: int| k < j <= max ==> !#[trigger] vstd::utf8::is_char_boundary(bytes, j)
            }
    }
}

/// A text cut to `max` bytes at most.
pub fn cut(s: &str, max: usize) -> (r: &str)
    ensures
        is_cut(r@, s@, max as int),
{
    if s.as_bytes().len() <= max {
        return s;
    }
    let ghost bytes = vstd::utf8::encode_utf8(s@);
    proof {
        vstd::utf8::encode_utf8_valid_utf8(s@);
        vstd::utf8::is_char_boundary_start_end_of_seq(bytes);
    }
    let mut n: usize = max;
    while !s.is_char_boundary(n)
        invariant
            n <= max,
            bytes == vstd::utf8::encode_utf8(s@),
            vstd::utf8::is_char_boundary(bytes, 0),
            forall|j: int| n < j <= max ==> !#[trigger] vstd::utf8::is_char_boundary(bytes, j),
        decreases n,
    {
        n -= 1;
    }
    s.split_at(n).0
}

/// How many bytes of a name a table has room for.
pub const NAME_BYTES: usize = 25;

/// How many bytes of an identifier a table shows.
pub const ID_BYTES: usize = 8;

/// What a table says of the status of a download: its name, and after that, in quotes, why it
/// failed.
pub open spec fn label_of(status: StatusView) -> Seq<char> {
    match status {
        StatusView::Queued => "Queued"@,
        StatusView::Downloading => "Downloading"@,
        StatusView::Paused => "Paused"@,
        StatusView::Completed => "Completed"@,
        StatusView::Error(message) => "Error("@ + outside::quoted_text(message) + ")"@,
    }
}

/// What a table says of the status of a download.
pub fn status_label(status: &DownloadStatus) -> (r: String)
    ensures
        r@ == label_of(status@),
{
    match status {
        DownloadStatus::Queued => "Queued".to_owned(),
        DownloadStatus::Downloading => "Downloading".to_owned(),
        DownloadStatus::Paused => "Paused".to_owned(),
        DownloadStatus::Completed => "Completed".to_owned(),
        DownloadStatus::Error(message) => {
            let mut r: String = joined("Error(", &quoted(message));
            r.append(")");
            r
        },
    }
}

/// The numbers of a row, as text: how much is there and how much there is in all, in
/// megabytes, the percentage and the speed.
#[derive(Debug, PartialEq, Eq)]
pub struct RowNumbers {
    pub downloaded: String,
    pub total: String,
    pub percent: String,
    pub speed: String,
}

/// A text made at least `width` characters wide.
pub open spec fn padded(s: Seq<char>, width: int) -> Seq<char>
    decreases width - s.len(),
{
    if s.len() >= width {
        s
    } else {
        padded(s.push(' '), width)
    }
}

/// A text made at least `width` characters wide.
pub fn pad(s: &str, width: usize) -> (r: String)
    ensures
        r@ == padded(s@, width as int),
{
    let mut r: String = s.to_owned();
    let mut n: usize = s.unicode_len();
    while n < width
        invariant
            n == r@.len(),
            padded(r@, width as int) == padded(s@, width as int),
        decreases width - n,
    {
        r.push(' ');
        n += 1;
    }
    r
}

/// What a row says of the size of a download.
pub open spec fn total_shown(t: TaskView, numbers: RowNumbers) -> Seq<char> {
    match t.total_bytes {
        Some(_) => numbers.total@,
        None => "Unknown"@,
    }
}

/// What a row says of the share of a download that is there.
pub open spec fn percent_shown(t: TaskView, numbers: RowNumbers) -> Seq<char> {
    match t.total_bytes {
        Some(total) => if total > 0 {
            numbers.percent@
        } else {
            "0%"@
        },
        None => "---"@,
    }
}

/// What a row says of the speed of a download.
pub open spec fn speed_shown(t: TaskView, numbers: RowNumbers) -> Seq<char> {
    if t.download_speed > 0 {
        numbers.speed@
    } else {
        "-"@
    }
}

/// A row of the table: an identifier, a status, a name and numbers.
pub open spec fn row_text(
    id: Seq<char>,
    label: Seq<char>,
    name: Seq<char>,
    t: TaskView,
    numbers: RowNumbers,
) -> Seq<char> {
    "["@ + id + "] "@ + padded(label, 12) + " | "@ + padded(name, NAME_BYTES as int) + " | "@
        + numbers.downloaded@ + "/"@ + total_shown(t, numbers) + " ("@ + percent_shown(t, numbers)
        + ") | "@ + speed_shown(t, numbers)
}

/// A line is the row of a download, with as much of its identifier and of its name as a row has
/// room for.
pub open spec fn is_row(t: TaskView, label: Seq<char>, numbers: RowNumbers, line: Seq<char>) -> bool {
    exists|id: Seq<char>, name: Seq<char>|
        {
            &&& is_cut(id, t.id, ID_BYTES as int)
            &&& is_cut(name, t.name, NAME_BYTES as int)
            &&& line == #[trigger] row_text(id, label, name, t, numbers)
        }
}

/// The row of a download in the table, with its status as `label`.
pub fn table_row(task: &DownloadTask, label: &str, numbers: &RowNumbers) -> (r: String)
    ensures
        is_row(task@, label@, *numbers, r@),
{
    let id = cut(&task.id, ID_BYTES);
    let name = cut(&task.name, NAME_BYTES);
    let mut r: String = joined("[", id);
    r.append("] ");
    r.append(&pad(label, 12));
    r.append(" | ");
    r.append(&pad(name, NAME_BYTES));
    r.append(" | ");
    r.append(&numbers.downloaded);
    r.append("/");
    match task.total_bytes {
        Some(_) => r.append(&numbers.total),
        None => r.append("Unknown"),
    }
    r.append(" (");
    match task.total_bytes {
        Some(total) => if total > 0 {
            r.append(&numbers.percent)
        } else {
            r.append("0%")
        },
        None => r.append("---"),
    }
    r.append(") | ");
    if task.download_speed > 0 {
        r.append(&numbers.speed);
    } else {
        r.append("-");
    }
    assert(r@ == row_text(id@, label@, name@, task@, *numbers));
    r
}

/// The head of the table, with the total speeds as text.
pub open spec fn head_text(active: usize, down: Seq<char>, up: Seq<char>) -> Seq<char> {
    "Panda-DL | Active: "@ + number::decimal(active as nat) + " | Down: "@ + down + " | Up: "@ + up
}

/// The head of the table, with the total speeds as text.
pub fn table_head(active: usize, down: &str, up: &str) -> (r: String)
    ensures
        r@ == head_text(active, down@, up@),
{
    let mut r: String = joined("Panda-DL | Active: ", &decimal_string(active as u64));
    r.append(" | Down: ");
    r.append(down);
    r.append(" | Up: ");
    r.append(up);
    r
}

/// The line above and below the head of the table.
pub open spec fn rule_text() -> Seq<char> {
    "============================================================"@
}

fn rule() -> (r: String)
    ensures
        r@ == rule_text(),
{
    "============================================================".to_owned()
}

/// The table of all downloads, line by line.
pub open spec fn table_is(
    status: DaemonStatus,
    down: Seq<char>,
    up: Seq<char>,
    numbers: Seq<RowNumbers>,
    r: Seq<String>,
) -> bool {
    &&& r.len() == if status.downloads@.len() == 0 {
        4
    } else {
        3 + status.downloads@.len()
    }
    &&& r[0]@ == rule_text()
    &&& r[1]@ == head_text(status.active_downloads, down, up)
    &&& r[2]@ == rule_text()
    &&& status.downloads@.len() == 0 ==> r[3]@ == "No downloads found."@
    &&& forall|i: int|
        0 <= i < status.downloads@.len() ==> is_row(
            (#[trigger] status.downloads@[i])@,
            label_of(status.downloads@[i]@.status),
            numbers[i],
            r[3 + i]@,
        )
}

/// The table of all downloads, line by line: the head between two rules, then a row for each
/// download in the order of the report, or a remark where there is none.
pub fn handle_list(status: &DaemonStatus, down: &str, up: &str, numbers: &Vec<RowNumbers>) -> (r:
    Vec<String>)
    requires
        numbers@.len() == status.downloads@.len(),
    ensures
        table_is(*status, down@, up@, numbers@, r@),
{
    let mut r: Vec<String> = Vec::new();
    r.push(rule());
    r.push(table_head(status.active_downloads, down, up));
    r.push(rule());
    if status.downloads.len() == 0 {
        r.push("No downloads found.".to_owned());
        return r;
    }
    let mut i: usize = 0;
    while i < status.downloads.len()
        invariant
            i <= status.downloads@.len(),
            numbers@.len() == status.downloads@.len(),
            r@.len() == 3 + i,
            r@[0]@ == rule_text(),
            r@[1]@ == head_text(status.active_downloads, down@, up@),
            r@[2]@ == rule_text(),
            forall|j: int|
                0 <= j < i ==> is_row(
                    (#[trigger] status.downloads@[j])@,
                    label_of(status.downloads@[j]@.status),
                    numbers@[j],
                    r@[3 + j]@,
                ),
        decreases status.downloads.len() - i,
    {
        let task = &status.downloads[i];
        r.push(table_row(task, &status_label(&task.status), &numbers[i]));
        i += 1;
    }
    r
}

/// The entry that makes the program known to the desktop.
pub open spec fn desktop_text(exe_path: Seq<char>) -> Seq<char> {
    "[Desktop Entry]\nName=Panda Downloader\nComment=Multi-part and BitTorrent download manager\nExec="@
        + exe_path
        + " add %u\nTerminal=false\nType=Application\nIcon=download\nMimeType=x-scheme-handler/magnet;application/x-bittorrent;\nCategories=Network;FileTransfer;\n"@
}

/// The entry that makes the program known to the desktop.
pub fn desktop_entry(exe_path: &str) -> (r: String)
    ensures
        r@ == desktop_text(exe_path@),
{
    let mut r: String = joined(
        "[Desktop Entry]\nName=Panda Downloader\nComment=Multi-part and BitTorrent download manager\nExec=",
        exe_path,
    );
    r.append(
        " add %u\nTerminal=false\nType=Application\nIcon=download\nMimeType=x-scheme-handler/magnet;application/x-bittorrent;\nCategories=Network;FileTransfer;\n",
    );
    r
}

/// What the program is told, call by call, that makes another the one that opens a kind of link or
/// file: this one opens magnet links and torrents.
pub fn mime_registrations() -> (r: (Vec<String>, Vec<String>))
    ensures
        text::texts(r.0@) == seq!["default"@, "panda-dl.desktop"@, "x-scheme-handler/magnet"@],
        text::texts(r.1@) == seq!["default"@, "panda-dl.desktop"@, "application/x-bittorrent"@],
{
    (registration("x-scheme-handler/magnet"), registration("application/x-bittorrent"))
}

fn registration(kind: &str) -> (r: Vec<String>)
    ensures
        text::texts(r@) == seq!["default"@, "panda-dl.desktop"@, kind@],
{
    let mut r: Vec<String> = Vec::new();
    r.push("default".to_owned());
    r.push("panda-dl.desktop".to_owned());
    r.push(kind.to_owned());
    assert(text::texts(r@) =~= seq!["default"@, "panda-dl.desktop"@, kind@]);
    r
}

/// Where the desktop looks for its entries.
pub open spec fn entries_dir(data: Option<Seq<u8>>, home: Option<Seq<u8>>) -> Option<Seq<u8>> {
    match data {
        Some(d) => Some(places::below_spec(d, "applications"@)),
        None => match home {
            Some(h) => Some(
                places::below_spec(places::below_spec(h, ".local/share"@), "applications"@),
            ),
            None => None,
        },
    }
}

/// Where the desktop of a user with these directories looks for its entries.
pub fn applications_dir_in(data: Option<Vec<u8>>, home: Option<Vec<u8>>) -> (r: Option<Vec<u8>>)
    ensures
        places::opt_place(r) == entries_dir(places::opt_place(data), places::opt_place(home)),
{
    match data {
        Some(d) => Some(below(d, "applications")),
        None => match home {
            Some(h) => Some(below(below(h, ".local/share"), "applications")),
            None => None,
        },
    }
}

/// Where the desktop looks for its entries. Where the user's directories are is up to the
/// machine.
pub fn applications_dir() -> (r: Option<Vec<u8>>)
    ensures
        exists|data: Option<Seq<u8>>, home: Option<Seq<u8>>|
            places::opt_place(r) == #[trigger] entries_dir(data, home),
{
    applications_dir_in(data_dir(), home_dir())
}

/// What is to be done to have a daemon.
#[derive(Debug, Clone, Copy, PartialEq, Eq, Structural)]
pub enum Startup {
    /// Nothing: it is running.
    Running,
    /// Start it.
    Spawn,
    /// Take away the socket that an earlier one has left, then start it.
    ClearAndSpawn,
}

/// What is to be done to have a daemon: it runs if its socket is there and can be talked to.
pub open spec fn startup_for(socket_exists: bool, connects: bool) -> Startup {
    if socket_exists && connects {
        Startup::Running
    } else if socket_exists {
        Startup::ClearAndSpawn
    } else {
        Startup::Spawn
    }
}

/// What is to be done to have a daemon: it runs if its socket is there and can be talked to.
pub fn ensure_daemon_running(socket_exists: bool, connects: bool) -> (r: Startup)
    ensures
        r == startup_for(socket_exists, connects),
{
    if socket_exists {
        if connects {
            Startup::Running
        } else {
            Startup::ClearAndSpawn
        }
    } else {
        Startup::Spawn
    }
}

/// How often a daemon that was started is looked for.
pub const MAX_POLLS: u32 = 40;

/// How long to wait before looking, in milliseconds.
pub const POLL_MILLIS: u64 = 50;

/// Waiting for a daemon that was started.
#[derive(Debug, Clone, Copy, PartialEq, Eq)]
pub struct DaemonWait {
    pub polls: u32,
}

/// What comes of looking for a daemon.
#[derive(Debug, Clone, Copy, PartialEq, Eq, Structural)]
pub enum Waited {
    Ready,
    Again,
    TimedOut,
}

/// What comes of looking for a daemon once more, after it was looked for `polls` times.
pub open spec fn waited(polls: u32, reachable: bool) -> Waited {
    if reachable {
        Waited::Ready
    } else if polls + 1 < MAX_POLLS {
        Waited::Again
    } else {
        Waited::TimedOut
    }
}

impl DaemonWait {
    pub fn new() -> (r: Self)
        ensures
            r.polls == 0,
    {
        DaemonWait { polls: 0 }
    }

    /// What the user is told when the daemon does not come up.
    pub fn timed_out() -> (r: String)
        ensures
            r@ == "Timed out waiting for Panda-DL daemon to start"@,
    {
        "Timed out waiting for Panda-DL daemon to start".to_owned()
    }

    /// The daemon has been looked for once more.
    pub fn polled(&mut self, reachable: bool) -> (r: Waited)
        requires
            old(self).polls < MAX_POLLS,
        ensures
            final(self).polls == old(self).polls + 1,
            r == waited(old(self).polls, reachable),
    {
        self.polls = self.polls + 1;
        if reachable {
            Waited::Ready
        } else if self.polls < MAX_POLLS {
            Waited::Again
        } else {
            Waited::TimedOut
        }
    }
}

/// Every command about a download asks the daemon with the name that was given, whatever it is, and
/// one that adds a download with all that was given.
pub proof fn commands_ask_with_what_was_given(
    id: String,
    uri: String,
    dir: Option<String>,
    parts: Option<usize>,
    delete_file: bool,
)
    ensures
        plan_of(Cli { command: Some(Commands::Add { uri, dir, parts }) }) == (Plan::Ask {
            request: Request::Add { uri, dir, parts },
            show: Show::Added,
        }),
        plan_of(Cli { command: Some(Commands::Pause { id }) }) == (Plan::Ask {
            request: Request::Pause { id },
            show: Show::Message,
        }),
        plan_of(Cli { command: Some(Commands::Resume { id }) }) == (Plan::Ask {
            request: Request::Resume { id },
            show: Show::Message,
        }),
        plan_of(Cli { command: Some(Commands::Remove { id, delete_file }) }) == (Plan::Ask {
            request: Request::Remove { id, delete_file },
            show: Show::Message,
        }),
        plan_of(Cli { command: Some(Commands::OpenFile { id }) }) == (Plan::Ask {
            request: Request::OpenFile { id },
            show: Show::Silence,
        }),
        plan_of(Cli { command: Some(Commands::OpenFolder { id }) }) == (Plan::Ask {
            request: Request::OpenFolder { id },
            show: Show::Silence,
        }),
{
}

/// Settings are changed by all that was given; the other commands take nothing from the user.
pub proof fn other_commands_take_nothing(
    dir: Option<String>,
    parts: Option<usize>,
    auto_capture: Option<bool>,
    auto_magnets: Option<bool>,
    auto_torrents: Option<bool>,
)
    ensures
        ({
            let set = Commands::SetConfig { dir, parts, auto_capture, auto_magnets, auto_torrents };
            let p = plan_of(Cli { command: Some(set) });
            &&& p is Configure
            &&& p->change.dir == dir && p->change.parts == parts
            &&& p->change.auto_capture == auto_capture
            &&& p->change.auto_magnets == auto_magnets
            &&& p->change.auto_torrents == auto_torrents
        }),
        plan_of(Cli { command: Some(Commands::List) }) == (Plan::Ask {
            request: Request::Status,
            show: Show::Table,
        }),
        plan_of(Cli { command: Some(Commands::Status) }) == (Plan::Ask {
            request: Request::Status,
            show: Show::StatusJson,
        }),
        plan_of(Cli { command: Some(Commands::GetConfig) }) == (Plan::Ask {
            request: Request::GetConfig,
            show: Show::ConfigJson,
        }),
        plan_of(Cli { command: Some(Commands::Daemon) }) == Plan::RunDaemon,
        plan_of(Cli { command: Some(Commands::Start) }) == Plan::StartDaemon,
        plan_of(Cli { command: Some(Commands::InstallDesktop) }) == Plan::InstallDesktop,
        plan_of(Cli { command: None }) == Plan::Usage,
{
}

/// What the daemon says is shown as it is, and an error, whatever it is, as one; a new download
/// with its name.
pub proof fn what_the_daemon_says_is_shown(
    id: Option<String>,
    message: Option<String>,
    error: String,
    config: Config,
    status: DaemonStatus,
)
    ensures
        id is Some && message is Some ==> added_shown(Response::Success { id, message })
            == OutputView::Print(message->0@ + " (ID: "@ + id->0@ + ")"@),
        id is None && message is Some ==> added_shown(Response::Success { id, message })
            == OutputView::Print(message->0@ + " (ID: )"@),
        message is Some ==> message_shown(Response::Success { id, message }) == OutputView::Print(
            message->0@,
        ),
        message is None ==> message_shown(Response::Success { id, message }) == OutputView::Print(
            Seq::empty(),
        ),
        added_shown(Response::Error { message: error }) == OutputView::Complain(
            "Error: "@ + error@,
        ),
        message_shown(Response::Error { message: error }) == OutputView::Complain(
            "Error: "@ + error@,
        ),
        added_shown(Response::Config(config)) == OutputView::Nothing,
        message_shown(Response::Config(config)) == OutputView::Nothing,
        added_shown(Response::Status(status)) == OutputView::Nothing,
        message_shown(Response::Status(status)) == OutputView::Nothing,
{
    reveal_strlit(" (ID: ");
    reveal_strlit(")");
    reveal_strlit(" (ID: )");
    if message is Some {
        let m = message->0@;
        assert(m + " (ID: "@ + Seq::<char>::empty() + ")"@ =~= m + " (ID: )"@);
    }
}

/// The settings that are handed to the daemon are those that it has given, where it has, and else
/// the ones at hand, with what the user wants changed and nothing else.
pub proof fn settings_are_changed_as_the_user_wants(
    given: Config,
    other: Response,
    fallback: Config,
    change: ConfigChange,
    r: Request,
)
    requires
        !(other is Config),
    ensures
        settings_sent(Response::Config(given), fallback, change, r) ==> r is SetConfig
            && r->config@ == config::changed_config(given@, change),
        settings_sent(other, fallback, change, r) ==> r is SetConfig && r->config@
            == config::changed_config(fallback@, change),
{
}

/// A text that is no longer than there is room for is shown whole. Of a longer one in ASCII as
/// many characters are shown as there is room for.
pub proof fn a_text_is_cut_to_the_room(part: Seq<char>, whole: Seq<char>, max: int)
    requires
        is_cut(part, whole, max),
        max >= 0,
    ensures
        vstd::utf8::encode_utf8(whole).len() <= max ==> part == whole,
        vstd::utf8::is_ascii_chars(whole) && whole.len() <= max ==> part == whole,
        vstd::utf8::is_ascii_chars(whole) && whole.len() > max ==> part == whole.take(max),
        vstd::utf8::encode_utf8(part).len() <= max,
        vstd::utf8::encode_utf8(part).is_prefix_of(vstd::utf8::encode_utf8(whole)),
{
    let bytes = vstd::utf8::encode_utf8(whole);
    vstd::utf8::encode_utf8_valid_utf8(whole);
    if vstd::utf8::is_ascii_chars(whole) {
        vstd::utf8::is_ascii_chars_encode_utf8(whole);
    }
    if bytes.len() <= max {
        assert(bytes.subrange(0, bytes.len() as int) =~= bytes);
    } else {
        let k = choose|k: int|
            {
                &&& 0 <= k <= max
                &&& #[trigger] vstd::utf8::is_char_boundary(bytes, k)
                &&& is_leading(part, whole, k)
                &&& forall|j: int|
                    k < j <= max ==> !#[trigger] vstd::utf8::is_char_boundary(bytes, j)
            };
        assert(vstd::utf8::encode_utf8(part) =~= bytes.subrange(0, k));
        if vstd::utf8::is_ascii_chars(whole) {
            lemma_ascii_boundary(whole, max);
            assert(k == max);
            let lead = whole.take(max);
            assert forall|i: int| 0 <= i < lead.len() implies '\0' <= #[trigger] lead[i]
                <= '\u{7f}' by {
                assert(lead[i] == whole[i]);
            }
            vstd::utf8::is_ascii_chars_encode_utf8(lead);
            assert forall|i: int| 0 <= i < max implies vstd::utf8::encode_utf8(lead)[i]
                == bytes[i] by {
                assert(vstd::utf8::encode_utf8(lead)[i] == lead[i] as u8);
                assert(bytes[i] == whole[i] as u8);
            }
            assert(vstd::utf8::encode_utf8(lead) =~= bytes.subrange(0, max));
            vstd::utf8::encode_utf8_decode_utf8(lead);
            vstd::utf8::encode_utf8_decode_utf8(part);
        }
    }
}

proof fn lemma_ascii_boundary(s: Seq<char>, k: int)
    requires
        vstd::utf8::is_ascii_chars(s),
        0 <= k < s.len(),
    ensures
        vstd::utf8::is_char_boundary(vstd::utf8::encode_utf8(s), k),
{
    let bytes = vstd::utf8::encode_utf8(s);
    vstd::utf8::encode_utf8_valid_utf8(s);
    vstd::utf8::is_ascii_chars_encode_utf8(s);
    vstd::utf8::is_char_boundary_iff_not_is_continuation_byte(bytes, k);
    assert('\0' <= s[k] <= '\u{7f}');
    assert(bytes[k] == s[k] as u8);
    assert(bytes[k] <= 127);
    vstd::utf8::utf8_byte_ranges_bitwise(bytes[k]);
}

/// A text is made as wide as is wanted with spaces behind it; one that is wide enough stays as it
/// is.
pub proof fn a_text_is_padded_behind(s: Seq<char>, width: int, i: int)
    ensures
        s.len() >= width ==> padded(s, width) == s,
        s.len() < width ==> padded(s, width).len() == width,
        0 <= i < s.len() ==> padded(s, width)[i] == s[i],
        s.len() <= i < width ==> padded(s, width)[i] == ' ',
    decreases width - s.len(),
{
    if s.len() < width {
        a_text_is_padded_behind(s.push(' '), width, i);
        if i == s.len() {
            assert(s.push(' ')[i] == ' ');
        }
    }
}

/// A status is shown by its name, and a failure with its reason in quotes.
pub proof fn a_status_is_shown_by_its_name(message: Seq<char>)
    ensures
        label_of(StatusView::Queued) == "Queued"@,
        label_of(StatusView::Downloading) == "Downloading"@,
        label_of(StatusView::Paused) == "Paused"@,
        label_of(StatusView::Completed) == "Completed"@,
        label_of(StatusView::Error(message)) == "Error("@ + outside::quoted_text(message) + ")"@,
{
}

/// A row shows, of a download in ASCII, eight characters of the identifier and twenty-five of the
/// name, the status, how much is there and of how much; what is not known of it is said to be
/// unknown, and one that does not move has no speed.
pub proof fn a_row_shows_the_download(
    t: TaskView,
    label: Seq<char>,
    numbers: RowNumbers,
    line: Seq<char>,
)
    requires
        is_row(t, label, numbers, line),
        vstd::utf8::is_ascii_chars(t.id),
        vstd::utf8::is_ascii_chars(t.name),
    ensures
        ({
            let id = if t.id.len() > 8 {
                t.id.take(8)
            } else {
                t.id
            };
            let name = if t.name.len() > 25 {
                t.name.take(25)
            } else {
                t.name
            };
            let front = "["@ + id + "] "@ + padded(label, 12) + " | "@ + padded(name, 25) + " | "@
                + numbers.downloaded@ + "/"@;
            let speed = if t.download_speed == 0 {
                "-"@
            } else {
                numbers.speed@
            };
            &&& t.total_bytes is None ==> line == front + "Unknown"@ + " ("@ + "---"@ + ") | "@
                + speed
            &&& t.total_bytes == Some(0u64) ==> line == front + numbers.total@ + " ("@ + "0%"@
                + ") | "@ + speed
            &&& t.total_bytes is Some && t.total_bytes->0 != 0 ==> line == front + numbers.total@
                + " ("@ + numbers.percent@ + ") | "@ + speed
        }),
{
    let (id, name) = choose|id: Seq<char>, name: Seq<char>|
        {
            &&& is_cut(id, t.id, ID_BYTES as int)
            &&& is_cut(name, t.name, NAME_BYTES as int)
            &&& line == #[trigger] row_text(id, label, name, t, numbers)
        };
    a_text_is_cut_to_the_room(id, t.id, 8);
    a_text_is_cut_to_the_room(name, t.name, 25);
}

/// The head of the table says how many downloads are being fetched, however many, and the total
/// speeds; the rules above and below it are sixty characters wide.
pub proof fn the_head_says_how_many(active: usize, down: Seq<char>, up: Seq<char>, i: int)
    ensures
        head_text(active, down, up) == "Panda-DL | Active: "@ + number::decimal(active as nat)
            + " | Down: "@ + down + " | Up: "@ + up,
        rule_text().len() == 60,
        0 <= i < 60 ==> rule_text()[i] == '=',
{
    reveal_strlit("============================================================");
}

/// The table has a row for each download, however many there are, in the order of the report; and
/// says so where there is none.
pub proof fn the_table_has_a_row_for_each(
    status: DaemonStatus,
    down: Seq<char>,
    up: Seq<char>,
    numbers: Seq<RowNumbers>,
    r: Seq<String>,
    i: int,
)
    requires
        table_is(status, down, up, numbers, r),
    ensures
        status.downloads@.len() > 0 ==> r.len() == status.downloads@.len() + 3,
        status.downloads@.len() == 0 ==> r.len() == 4 && r[3]@ == "No downloads found."@,
        r[0]@ == rule_text() && r[2]@ == rule_text(),
        r[1]@ == head_text(status.active_downloads, down, up),
        0 <= i < status.downloads@.len() ==> is_row(
            status.downloads@[i]@,
            label_of(status.downloads@[i]@.status),
            numbers[i],
            r[i + 3]@,
        ),
{
}

/// The entry for the desktop names the program, runs it, wherever it lies, with the link, and lets
/// it open magnet links and torrents.
pub proof fn the_entry_runs_the_program(exe_path: Seq<char>)
    ensures
        desktop_text(exe_path) == "[Desktop Entry]\n"@
            + "Name=Panda Downloader\n"@
            + "Comment=Multi-part and BitTorrent download manager\n"@
            + ("Exec="@ + exe_path + " add %u\n"@)
            + "Terminal=false\n"@
            + "Type=Application\n"@
            + "Icon=download\n"@
            + "MimeType=x-scheme-handler/magnet;application/x-bittorrent;\n"@
            + "Categories=Network;FileTransfer;\n"@,
{
    reveal_strlit(
        "[Desktop Entry]\nName=Panda Downloader\nComment=Multi-part and BitTorrent download manager\nExec=",
    );
    reveal_strlit(
        " add %u\nTerminal=false\nType=Application\nIcon=download\nMimeType=x-scheme-handler/magnet;application/x-bittorrent;\nCategories=Network;FileTransfer;\n",
    );
    reveal_strlit("[Desktop Entry]\n");
    reveal_strlit("Name=Panda Downloader\n");
    reveal_strlit("Comment=Multi-part and BitTorrent download manager\n");
    reveal_strlit("Exec=");
    reveal_strlit(" add %u\n");
    reveal_strlit("Terminal=false\n");
    reveal_strlit("Type=Application\n");
    reveal_strlit("Icon=download\n");
    reveal_strlit("MimeType=x-scheme-handler/magnet;application/x-bittorrent;\n");
    reveal_strlit("Categories=Network;FileTransfer;\n");
    let head =
        "[Desktop Entry]\nName=Panda Downloader\nComment=Multi-part and BitTorrent download manager\nExec="@;
    let tail =
        " add %u\nTerminal=false\nType=Application\nIcon=download\nMimeType=x-scheme-handler/magnet;application/x-bittorrent;\nCategories=Network;FileTransfer;\n"@;
    let above = "[Desktop Entry]\n"@ + "Name=Panda Downloader\n"@ + "Comment=Multi-part and BitTorrent download manager\n"@;
    assert(head =~= above + "Exec="@);
    let below = "Terminal=false\n"@ + "Type=Application\n"@ + "Icon=download\n"@ + "MimeType=x-scheme-handler/magnet;application/x-bittorrent;\n"@ + "Categories=Network;FileTransfer;\n"@;
    assert(tail =~= " add %u\n"@ + below);
    assert(desktop_text(exe_path) =~= above + ("Exec="@ + exe_path + " add %u\n"@) + below);
    assert(above + ("Exec="@ + exe_path + " add %u\n"@) + below =~= above + ("Exec="@ + exe_path
        + " add %u\n"@) + "Terminal=false\n"@ + "Type=Application\n"@ + "Icon=download\n"@ + "MimeType=x-scheme-handler/magnet;application/x-bittorrent;\n"@ + "Categories=Network;FileTransfer;\n"@);
}

/// The desktop looks for its entries below the directory for data, whatever it is, else below the
/// home directory; without either it has none.
pub proof fn where_the_entries_are(base: Seq<u8>, home: Option<Seq<u8>>)
    requires
        base.len() > 0,
        base.last() != 47,
    ensures
        entries_dir(Some(base), home) == Some(base + vstd::utf8::encode_utf8("/applications"@)),
        entries_dir(None, Some(base)) == Some(
            base + vstd::utf8::encode_utf8("/.local/share/applications"@),
        ),
        entries_dir(None, None) is None,
{
    reveal_strlit("applications");
    reveal_strlit("/applications");
    reveal_strlit(".local/share");
    reveal_strlit("/.local/share/applications");
    let below = ".local/share"@;
    let sb = seq!['/'] + below;
    let sa = "/applications"@;
    assert(sa =~= seq!['/'] + "applications"@);
    assert("/.local/share/applications"@ =~= sb + sa);
    places::taking_from_a_directory_puts_behind(base, "applications"@);
    places::taking_from_a_directory_puts_behind(base, below);
    places::plain_text_is_its_bytes(sb, sa);
    vstd::utf8::is_ascii_chars_encode_utf8(sb);
    let mid = base + vstd::utf8::encode_utf8(sb);
    assert(vstd::utf8::encode_utf8(sb)[12] == sb[12] as u8);
    assert(sb[12] == 'e');
    assert('e' as u8 != 47);
    places::taking_from_a_directory_puts_behind(mid, "applications"@);
    assert(mid + vstd::utf8::encode_utf8(sa) =~= base + (vstd::utf8::encode_utf8(sb)
        + vstd::utf8::encode_utf8(sa)));
}

/// A daemon that can be talked to is left running, and any other is started, after a socket that
/// an earlier one has left has been taken away; it is looked for forty times, fifty milliseconds
/// apart, until it is there.
pub proof fn a_daemon_is_waited_for(socket_exists: bool, connects: bool, polls: u32)
    requires
        polls < 40,
    ensures
        startup_for(true, true) == Startup::Running,
        startup_for(true, false) == Startup::ClearAndSpawn,
        startup_for(false, connects) == Startup::Spawn,
        waited(polls, true) == Waited::Ready,
        polls < 39 ==> waited(polls, false) == Waited::Again,
        polls == 39 ==> waited(polls, false) == Waited::TimedOut,
        MAX_POLLS == 40,
        POLL_MILLIS == 50,
{
}

} // verus!
