//! What clients ask of the daemon, and what it answers.

use vstd::prelude::*;

use crate::capture::{self, ClipboardWatcher, DetectedKind};
use crate::config::{Config, ConfigView};
use crate::engine::{
    self, file_to_open, Engine, EngineError, EngineView, Interrupt, Removal, Resume,
};
use crate::launch::{self, Notice};
use crate::outside::{data_dir, home_dir};
use crate::paths::{self, parent};
use crate::places::{self, choose_place, own_file_in};
use crate::registry::Registry;
use crate::report;
use crate::text::{self, chars_of, ends_with, joined, same_text, starts_with, string_of, trim, Edge};
use crate::types::{DaemonStatus, DaemonView, DownloadTask, StatusView, TaskView};

verus! {

/// What a client asks.
#[derive(Debug, Clone, PartialEq, Eq)]
pub enum Request {
    Status,
    Add { uri: String, dir: Option<String>, parts: Option<usize> },
    Pause { id: String },
    Resume { id: String },
    Remove { id: String, delete_file: bool },
    OpenFile { id: String },
    OpenFolder { id: String },
    GetConfig,
    SetConfig { config: Config },
    ClipboardEvent { text: String },
}

/// What the daemon answers.
#[derive(Debug, Clone, PartialEq, Eq)]
pub enum Response {
    Success { id: Option<String>, message: Option<String> },
    Status(DaemonStatus),
    Config(Config),
    Error { message: String },
}

/// What the daemon answers, with texts as characters.
#[verifier::ext_equal]
pub enum ResponseView {
    Success { id: Option<Seq<char>>, message: Option<Seq<char>> },
    Status(DaemonView),
    Config(ConfigView),
    Error { message: Seq<char> },
}

impl View for Response {
    type V = ResponseView;

    open spec fn view(&self) -> ResponseView {
        match self {
            Response::Success { id, message } => ResponseView::Success {
                id: text::opt_text(*id),
                message: text::opt_text(*message),
            },
            Response::Status(status) => ResponseView::Status(status@),
            Response::Config(config) => ResponseView::Config(config@),
            Response::Error { message } => ResponseView::Error { message: message@ },
        }
    }
}

/// What is to be done about a request before it can be answered.
#[derive(Debug, PartialEq, Eq)]
pub enum Step {
    /// Nothing: this is the answer.
    Reply(Response),
    /// Start a download.
    Add { uri: String, dir: Option<String>, parts: Option<usize> },
    /// Stop the work on a download that has been paused, and keep the books.
    Interrupt { id: String, interrupt: Interrupt },
    /// Take the work on a download up again, and keep the books.
    Resume { id: String, resume: Resume },
    /// End the work on a download that has been removed, and keep the books.
    Remove { id: String, delete_file: bool, removal: Removal },
    /// Open a file.
    OpenFile { id: String, path: String },
    /// Open the folder that a file is in.
    OpenFolder { id: String, path: String },
    /// Keep new settings.
    SaveConfig { config: Config },
    /// Start a download that was found in the clipboard.
    AutoStart { uri: String, kind: DetectedKind },
}

/// The side of the daemon that clients talk to.
pub struct IpcServer {}

/// The side of a client that talks to the daemon.
pub struct IpcClient {}

/// Where the daemon listens.
pub open spec fn socket_file(data: Option<Seq<u8>>, home: Option<Seq<u8>>) -> Seq<u8> {
    places::own_file(places::user_place(data, home, ".local/share"@, "."@), "panda-dl.sock"@)
}

/// A plain answer of success.
pub open spec fn ok_view(id: Option<Seq<char>>, message: Seq<char>) -> ResponseView {
    ResponseView::Success { id, message: Some(message) }
}

/// The answer when there is no such download.
pub open spec fn not_found_view() -> ResponseView {
    ResponseView::Error { message: "Task not found"@ }
}

/// A download that says of itself that it has this name, and none that does is newer.
pub open spec fn is_newest_named(
    tasks: Map<Seq<char>, TaskView>,
    key: Seq<char>,
    id: Seq<char>,
) -> bool {
    &&& tasks.contains_key(key)
    &&& tasks[key].id == id
    &&& forall|k: Seq<char>| #[trigger]
        tasks.contains_key(k) && tasks[k].id == id ==> tasks[k].created_at <= tasks[key].created_at
}

/// Whether any download says of itself that it has this name.
pub open spec fn is_named(tasks: Map<Seq<char>, TaskView>, id: Seq<char>) -> bool {
    exists|k: Seq<char>| #[trigger] tasks.contains_key(k) && tasks[k].id == id
}

/// The path is where the newest download that says of itself that it has this name goes.
pub open spec fn is_path_of(
    tasks: Map<Seq<char>, TaskView>,
    id: Seq<char>,
    path: Seq<char>,
) -> bool {
    exists|k: Seq<char>| #[trigger]
        is_newest_named(tasks, k, id) && tasks[k].output_path == path
}

/// The path is that of the file of the newest download that says of itself that it has this name.
pub open spec fn is_file_of(
    tasks: Map<Seq<char>, TaskView>,
    id: Seq<char>,
    path: Seq<char>,
) -> bool {
    exists|k: Seq<char>| #[trigger]
        is_newest_named(tasks, k, id) && engine::file_of(tasks[k]) == path
}

/// Whether a text from the clipboard, which leads to `found`, is to be fetched at once, and as
/// what: magnet links and torrents where the settings say so, the links of files in any case.
pub open spec fn starts_at_once(
    c: ConfigView,
    t: Seq<char>,
    found: Option<DetectedKind>,
) -> Option<DetectedKind> {
    let magnet = "magnet:?"@.is_prefix_of(t);
    if magnet && c.auto_start_magnets {
        Some(DetectedKind::Magnet)
    } else if (".torrent"@.is_suffix_of(t) || found == Some(DetectedKind::TorrentUrl))
        && c.auto_start_torrents {
        Some(
            if magnet {
                DetectedKind::Magnet
            } else {
                DetectedKind::TorrentUrl
            },
        )
    } else if found == Some(DetectedKind::DirectFile) {
        Some(DetectedKind::DirectFile)
    } else {
        None
    }
}

/// What a text from the clipboard, which leads to `found`, comes to.
pub open spec fn clipboard_step(
    c: ConfigView,
    clip: Seq<char>,
    found: Option<DetectedKind>,
    r: Step,
) -> bool {
    let t = text::trimmed(clip, Edge::Space);
    if !c.auto_capture_clipboard {
        r matches Step::Reply(reply) && reply@ == ok_view(None, "Auto-capture disabled"@)
    } else {
        match starts_at_once(c, t, found) {
            Some(as_what) => r matches Step::AutoStart { uri, kind } && uri@ == t && kind
                == as_what,
            None => r matches Step::Reply(reply) && reply@ == ok_view(
                None,
                "Clipboard event checked"@,
            ),
        }
    }
}

/// What is to be done about a request, and the state afterwards.
pub open spec fn handled(
    before: Engine,
    req: Request,
    after: EngineView,
    r: Step,
) -> bool {
    let e = before@;
    match req {
        Request::Status => {
            &&& after == e
            &&& r matches Step::Reply(reply) && reply@ matches ResponseView::Status(status)
                && report::report_is(before.tasks, status)
        },
        Request::Add { uri, dir, parts } => {
            &&& after == e
            &&& r == (Step::Add { uri, dir, parts })
        },
        Request::Pause { id } => if e.tasks.contains_key(id@) {
            &&& after == engine::paused(e, id@)
            &&& r == (Step::Interrupt { id, interrupt: engine::interrupt_of(e, id@) })
        } else {
            &&& after == e
            &&& r matches Step::Reply(reply) && reply@ == not_found_view()
        },
        Request::Resume { id } => if e.tasks.contains_key(id@) {
            &&& after == engine::resumed(e, id@)
            &&& r matches Step::Resume { id: named, resume } && named == id && resume@
                == engine::resume_of(e, id@)
        } else {
            &&& after == e
            &&& r matches Step::Reply(reply) && reply@ == not_found_view()
        },
        Request::Remove { id, delete_file } => {
            &&& after == engine::removed(e, id@)
            &&& r matches Step::Remove { id: named, delete_file: delete, removal } && named == id
                && delete == delete_file && engine::removal_is(e, id@, delete_file, removal)
        },
        Request::OpenFile { id } => {
            &&& after == e
            &&& if is_named(e.tasks, id@) {
                r matches Step::OpenFile { id: named, path } && named == id && is_file_of(
                    e.tasks,
                    id@,
                    path@,
                )
            } else {
                r matches Step::Reply(reply) && reply@ == not_found_view()
            }
        },
        Request::OpenFolder { id } => {
            &&& after == e
            &&& if is_named(e.tasks, id@) {
                r matches Step::OpenFolder { id: named, path } && named == id && is_path_of(
                    e.tasks,
                    id@,
                    path@,
                )
            } else {
                r matches Step::Reply(reply) && reply@ == not_found_view()
            }
        },
        Request::GetConfig => {
            &&& after == e
            &&& r matches Step::Reply(reply) && reply@ == ResponseView::Config(e.config)
        },
        Request::SetConfig { config } => {
            &&& after == e
            &&& r == (Step::SaveConfig { config })
        },
        Request::ClipboardEvent { text } => {
            &&& after == e
            &&& clipboard_step(e.config, text@, capture::kind_of(text@), r)
        },
    }
}

fn ok_reply(id: Option<String>, message: &str) -> (r: Response)
    ensures
        r@ == ok_view(text::opt_text(id), message@),
{
    Response::Success { id, message: Some(message.to_owned()) }
}

fn not_found() -> (r: Response)
    ensures
        r@ == not_found_view(),
{
    Response::Error { message: EngineError::TaskNotFound.message() }
}

/// The newest download that says of itself that it has this name.
fn newest_named<'a>(tasks: &'a Registry<DownloadTask>, id: &str) -> (r: Option<&'a DownloadTask>)
    requires
        tasks.wf(),
    ensures
        match r {
            Some(task) => is_named(tasks@, id@) && exists|k: Seq<char>| #[trigger]
                is_newest_named(tasks@, k, id@) && tasks@[k] == task@,
            None => !is_named(tasks@, id@),
        },
{
    let n: usize = tasks.len();
    let mut best: Option<usize> = None;
    let mut i: usize = 0;
    while i < n
        invariant
            i <= n,
            n == tasks.listing().len(),
            match best {
                Some(b) => b < i && tasks.listing()[b as int].1.id == id@ && forall|j: int|
                    0 <= j < i && (#[trigger] tasks.listing()[j]).1.id == id@
                        ==> tasks.listing()[j].1.created_at
                        <= tasks.listing()[b as int].1.created_at,
                None => forall|j: int|
                    0 <= j < i ==> (#[trigger] tasks.listing()[j]).1.id != id@,
            },
        decreases n - i,
    {
        let t = tasks.value_at(i);
        if same_text(&t.id, id) {
            match best {
                Some(b) => {
                    if t.created_at > tasks.value_at(b).created_at {
                        best = Some(i);
                    }
                },
                None => {
                    best = Some(i);
                },
            }
        }
        i += 1;
    }
    proof {
        tasks.listing_is_the_map();
    }
    match best {
        Some(b) => {
            let ghost key = tasks.listing()[b as int].0;
            proof {
                assert(tasks@.contains_key(key));
                assert forall|k: Seq<char>| #[trigger]
                    tasks@.contains_key(k) && tasks@[k].id == id@ implies tasks@[k].created_at
                    <= tasks@[key].created_at by {
                    let j = choose|j: int|
                        0 <= j < tasks.listing().len() && (#[trigger] tasks.listing()[j]).0 == k;
                    assert(tasks.listing()[j].1.id == id@);
                }
                assert(is_newest_named(tasks@, key, id@));
            }
            Some(tasks.value_at(b))
        },
        None => {
            proof {
                if is_named(tasks@, id@) {
                    let k = choose|k: Seq<char>| #[trigger]
                        tasks@.contains_key(k) && tasks@[k].id == id@;
                    let j = choose|j: int|
                        0 <= j < tasks.listing().len() && (#[trigger] tasks.listing()[j]).0 == k;
                    assert(tasks.listing()[j].1.id == id@);
                }
            }
            None
        },
    }
}

/// What the user is told that was found in the clipboard.
pub open spec fn kind_text(kind: DetectedKind) -> Seq<char> {
    match kind {
        DetectedKind::Magnet => "Magnet link"@,
        DetectedKind::TorrentUrl => "Torrent"@,
        DetectedKind::DirectFile => "File"@,
    }
}

/// What is done with a download at a client's request.
#[derive(Debug, Clone, Copy, PartialEq, Eq, Structural)]
pub enum Done {
    Paused,
    Resumed,
    Removed,
}

impl Done {
    pub open spec fn text(self) -> Seq<char> {
        match self {
            Done::Paused => "Download paused"@,
            Done::Resumed => "Download resumed"@,
            Done::Removed => "Download removed"@,
        }
    }
}

/// The answer when a download was to be started.
pub open spec fn added_view(result: Result<String, String>) -> ResponseView {
    match result {
        Ok(id) => ok_view(Some(id@), "Download added successfully"@),
        Err(e) => ResponseView::Error { message: e@ },
    }
}

/// The answer when something was done with a download.
pub open spec fn done_view(id: Seq<char>, what: Done, failure: Option<Seq<char>>) -> ResponseView {
    match failure {
        Some(e) => ResponseView::Error { message: e },
        None => ok_view(Some(id), what.text()),
    }
}

/// The folder to be opened: the path itself if it is one, else what it is in.
pub open spec fn folder_spec(path: Seq<char>, is_dir: bool) -> Seq<char> {
    if is_dir {
        path
    } else {
        match paths::parent_spec(path) {
            Some(p) => p,
            None => path,
        }
    }
}

/// New settings hold only if they are kept, and are the answer then.
pub open spec fn settings_kept(
    e: EngineView,
    config: ConfigView,
    failure: Option<Seq<char>>,
    after: EngineView,
    answer: ResponseView,
) -> bool {
    match failure {
        Some(why) => after == e && answer == (ResponseView::Error {
            message: "Failed to save config: "@ + why,
        }),
        None => after == (EngineView { config, ..e }) && answer == ResponseView::Config(config),
    }
}

/// The answer when a download from the clipboard was to be started.
pub open spec fn auto_started_view(result: Result<String, String>) -> ResponseView {
    match result {
        Ok(id) => ok_view(Some(id@), "Auto-started download from clipboard"@),
        Err(e) => ResponseView::Error { message: "Failed to auto-start download: "@ + e@ },
    }
}

/// What the user is told when a download from the clipboard was to be started.
pub open spec fn auto_started_news(
    kind: DetectedKind,
    result: Result<String, String>,
) -> Option<(Seq<char>, Seq<char>)> {
    match result {
        Ok(_) => Some(
            ("Panda Downloader"@, "Captured & started downloading: "@ + kind_text(kind)),
        ),
        Err(_) => None,
    }
}

/// The answer to a line that is no request.
pub open spec fn invalid_view(error: Seq<char>) -> ResponseView {
    ResponseView::Error { message: "Invalid JSON request: "@ + error }
}

/// What a client says when there is no daemon.
pub open spec fn not_running_text(socket: Seq<char>) -> Seq<char> {
    "Panda-DL daemon is not running (socket not found at "@ + socket + ")"@
}

/// The line that answers a request.
pub open spec fn first_line_is(line: Option<String>, r: Result<String, String>) -> bool {
    match line {
        Some(answer) => r == Ok::<String, String>(answer),
        None => r matches Err(message) && message@ == "Connection closed without response"@,
    }
}

impl IpcServer {
    /// Where the daemon of a user with these directories listens.
    pub fn socket_path_in(data: Option<Vec<u8>>, home: Option<Vec<u8>>) -> (r: Vec<u8>)
        ensures
            r@ == socket_file(places::opt_place(data), places::opt_place(home)),
    {
        own_file_in(choose_place(data, home, ".local/share", "."), "panda-dl.sock")
    }

    /// Where the daemon listens. Where the user's directories are is up to the machine.
    pub fn socket_path() -> (r: Vec<u8>)
        ensures
            exists|data: Option<Seq<u8>>, home: Option<Seq<u8>>|
                r@ == #[trigger] socket_file(data, home),
    {
        Self::socket_path_in(data_dir(), home_dir())
    }

    /// What a text from the clipboard, which leads to `found`, comes to.
    pub fn clipboard_event(config: &Config, clip: &str, found: Option<DetectedKind>) -> (r: Step)
        ensures
            clipboard_step(config@, clip@, found, r),
    {
        if !config.auto_capture_clipboard {
            return Step::Reply(ok_reply(None, "Auto-capture disabled"));
        }
        let cs = chars_of(clip);
        let t = trim(&cs, Edge::Space);
        let magnet = starts_with(t, &chars_of("magnet:?"));
        let torrent = ends_with(t, &chars_of(".torrent")) || found == Some(
            DetectedKind::TorrentUrl,
        );
        if magnet && config.auto_start_magnets {
            Step::AutoStart { uri: string_of(t), kind: DetectedKind::Magnet }
        } else if torrent && config.auto_start_torrents {
            let kind = if magnet {
                DetectedKind::Magnet
            } else {
                DetectedKind::TorrentUrl
            };
            Step::AutoStart { uri: string_of(t), kind }
        } else if found == Some(DetectedKind::DirectFile) {
            Step::AutoStart { uri: string_of(t), kind: DetectedKind::DirectFile }
        } else {
            Step::Reply(ok_reply(None, "Clipboard event checked"))
        }
    }

    /// Takes up a request: what is to be done about it, or the answer.
    pub fn handle_request(req: Request, engine: &mut Engine) -> (r: Step)
        requires
            old(engine).wf(),
            req is Status ==> old(engine).spec_speeds_fit(),
        ensures
            final(engine).wf(),
            handled(*old(engine), req, final(engine)@, r),
    {
        match req {
            Request::Status => Step::Reply(Response::Status(engine.get_status())),
            Request::Add { uri, dir, parts } => Step::Add { uri, dir, parts },
            Request::Pause { id } => match engine.pause_download(&id) {
                Ok(interrupt) => Step::Interrupt { id, interrupt },
                Err(e) => Step::Reply(Response::Error { message: e.message() }),
            },
            Request::Resume { id } => match engine.resume_download(&id) {
                Ok(resume) => Step::Resume { id, resume },
                Err(e) => Step::Reply(Response::Error { message: e.message() }),
            },
            Request::Remove { id, delete_file } => {
                let removal = engine.remove_download(&id, delete_file);
                Step::Remove { id, delete_file, removal }
            },
            Request::OpenFile { id } => match newest_named(&engine.tasks, &id) {
                Some(task) => Step::OpenFile { id, path: file_to_open(task) },
                None => Step::Reply(not_found()),
            },
            Request::OpenFolder { id } => match newest_named(&engine.tasks, &id) {
                Some(task) => Step::OpenFolder { id, path: task.output_path.clone() },
                None => Step::Reply(not_found()),
            },
            Request::GetConfig => Step::Reply(Response::Config(engine.config.clone())),
            Request::SetConfig { config } => Step::SaveConfig { config },
            Request::ClipboardEvent { text } => {
                let found = ClipboardWatcher::is_downloadable(&text);
                Self::clipboard_event(&engine.config, &text, found)
            },
        }
    }

    /// Takes up a line of a connection: a request, or what is wrong with the line.
    pub fn take_line(line: Result<Request, String>, engine: &mut Engine) -> (r: Step)
        requires
            old(engine).wf(),
            line matches Ok(Request::Status) ==> old(engine).spec_speeds_fit(),
        ensures
            final(engine).wf(),
            line_taken(*old(engine), line, final(engine)@, r),
    {
        match line {
            Ok(req) => Self::handle_request(req, engine),
            Err(error) => Step::Reply(Self::invalid_request(&error)),
        }
    }

    /// The answer when a download was to be started.
    pub fn added(result: Result<String, String>) -> (r: Response)
        ensures
            r@ == added_view(result),
    {
        match result {
            Ok(id) => ok_reply(Some(id), "Download added successfully"),
            Err(e) => Response::Error { message: e },
        }
    }

    /// The answer when something was done with a download; `failure` is what went wrong after
    /// all.
    pub fn done(id: String, what: Done, failure: Option<String>) -> (r: Response)
        ensures
            r@ == done_view(id@, what, text::opt_text(failure)),
    {
        match failure {
            Some(e) => Response::Error { message: e },
            None => match what {
                Done::Paused => ok_reply(Some(id), "Download paused"),
                Done::Resumed => ok_reply(Some(id), "Download resumed"),
                Done::Removed => ok_reply(Some(id), "Download removed"),
            },
        }
    }

    /// The answer when a file has been opened.
    pub fn opened_file(id: String) -> (r: Response)
        ensures
            r@ == ok_view(Some(id@), "Opened file"@),
    {
        ok_reply(Some(id), "Opened file")
    }

    /// The folder to be opened: the path itself if it is one, else what it is in.
    pub fn folder_of(path: String, is_dir: bool) -> (r: String)
        ensures
            r@ == folder_spec(path@, is_dir),
    {
        if is_dir {
            return path;
        }
        match parent(&path) {
            Some(p) => p,
            None => path,
        }
    }

    /// The answer when a folder has been opened.
    pub fn opened_folder(id: String) -> (r: Response)
        ensures
            r@ == ok_view(Some(id@), "Opened folder"@),
    {
        ok_reply(Some(id), "Opened folder")
    }

    /// New settings have been kept, or could not be: they hold only if they are kept.
    pub fn config_saved(engine: &mut Engine, config: Config, failure: Option<String>) -> (r:
        Response)
        requires
            old(engine).wf(),
        ensures
            final(engine).wf(),
            settings_kept(
                old(engine)@,
                config@,
                text::opt_text(failure),
                final(engine)@,
                r@,
            ),
            failure is Some ==> *final(engine) == *old(engine),
    {
        match failure {
            Some(e) => Response::Error { message: joined("Failed to save config: ", &e) },
            None => {
                engine.config = config.clone();
                Response::Config(config)
            },
        }
    }

    /// The answer when a download from the clipboard was to be started, and what the user is
    /// told.
    pub fn auto_started(kind: DetectedKind, result: Result<String, String>) -> (r: (
        Response,
        Option<Notice>,
    ))
        ensures
            r.0@ == auto_started_view(result),
            launch::told(r.1) == auto_started_news(kind, result),
    {
        match result {
            Ok(id) => {
                let what = match kind {
                    DetectedKind::Magnet => "Magnet link",
                    DetectedKind::TorrentUrl => "Torrent",
                    DetectedKind::DirectFile => "File",
                };
                let notice = Notice {
                    title: "Panda Downloader".to_owned(),
                    body: joined("Captured & started downloading: ", what),
                };
                (ok_reply(Some(id), "Auto-started download from clipboard"), Some(notice))
            },
            Err(e) => (
                Response::Error { message: joined("Failed to auto-start download: ", &e) },
                None,
            ),
        }
    }

    /// The answer to a line that is no request.
    pub fn invalid_request(error: &str) -> (r: Response)
        ensures
            r@ == invalid_view(error@),
    {
        Response::Error { message: joined("Invalid JSON request: ", error) }
    }
}

/// What is to be done about a line of a connection, and the state afterwards: a line that is no
/// request is answered with what is wrong with it, and changes nothing.
pub open spec fn line_taken(
    before: Engine,
    line: Result<Request, String>,
    after: EngineView,
    r: Step,
) -> bool {
    match line {
        Ok(req) => handled(before, req, after, r),
        Err(error) => {
            &&& after == before@
            &&& r matches Step::Reply(reply) && reply@ == invalid_view(error@)
        },
    }
}

/// The answers that can follow a step: the one that was given, or, where something was to be done
/// first, one of success or of failure.
pub open spec fn answers(step: Step, answer: ResponseView) -> bool {
    match step {
        Step::Reply(reply) => answer == reply@,
        Step::Add { .. } => answer is Error || exists|id: Seq<char>|
            answer == #[trigger] ok_view(Some(id), "Download added successfully"@),
        Step::Interrupt { id, .. } => answer is Error || answer == ok_view(
            Some(id@),
            Done::Paused.text(),
        ),
        Step::Resume { id, .. } => answer is Error || answer == ok_view(
            Some(id@),
            Done::Resumed.text(),
        ),
        Step::Remove { id, .. } => answer is Error || answer == ok_view(
            Some(id@),
            Done::Removed.text(),
        ),
        Step::OpenFile { id, .. } => answer == ok_view(Some(id@), "Opened file"@),
        Step::OpenFolder { id, .. } => answer == ok_view(Some(id@), "Opened folder"@),
        Step::SaveConfig { config } => answer is Error || answer == ResponseView::Config(config@),
        Step::AutoStart { .. } => answer is Error || exists|id: Seq<char>|
            answer == #[trigger] ok_view(Some(id), "Auto-started download from clipboard"@),
    }
}

/// One line of a connection: the state before it, the line, the state after it was taken up, what
/// was then done, and the answer.
pub struct Exchange {
    pub before: Engine,
    pub line: Result<Request, String>,
    pub after: EngineView,
    pub step: Step,
    pub answer: ResponseView,
}

/// The line was taken up and answered.
pub open spec fn is_exchange(x: Exchange) -> bool {
    line_taken(x.before, x.line, x.after, x.step) && answers(x.step, x.answer)
}

/// The answers of a connection whose lines are taken up and answered one after the other.
pub open spec fn answers_of(lines: Seq<Exchange>) -> Seq<ResponseView>
    decreases lines.len(),
{
    if lines.len() == 0 {
        seq![]
    } else {
        answers_of(lines.drop_last()).push(lines.last().answer)
    }
}

/// A connection gives one answer for each line, in the order of the lines: that to the request
/// where the line is one, and else what is wrong with the line, which then changes nothing and
/// does not end the connection.
pub proof fn every_line_is_answered(lines: Seq<Exchange>)
    requires
        forall|i: int| 0 <= i < lines.len() ==> is_exchange(#[trigger] lines[i]),
    ensures
        answers_of(lines).len() == lines.len(),
        forall|i: int|
            0 <= i < lines.len() ==> match (#[trigger] lines[i]).line {
                Ok(req) => handled(lines[i].before, req, lines[i].after, lines[i].step) && answers(
                    lines[i].step,
                    answers_of(lines)[i],
                ),
                Err(error) => lines[i].after == lines[i].before@ && answers_of(lines)[i] == (
                ResponseView::Error { message: "Invalid JSON request: "@ + error@ }),
            },
    decreases lines.len(),
{
    if lines.len() > 0 {
        let rest = lines.drop_last();
        assert forall|i: int| 0 <= i < rest.len() implies is_exchange(#[trigger] rest[i]) by {
            assert(is_exchange(lines[i]));
        }
        every_line_is_answered(rest);
        assert forall|i: int| 0 <= i < lines.len() implies match (#[trigger] lines[i]).line {
            Ok(req) => handled(lines[i].before, req, lines[i].after, lines[i].step) && answers(
                lines[i].step,
                answers_of(lines)[i],
            ),
            Err(error) => lines[i].after == lines[i].before@ && answers_of(lines)[i] == (
            ResponseView::Error { message: "Invalid JSON request: "@ + error@ }),
        } by {
            assert(is_exchange(lines[i]));
            if i < rest.len() {
                assert(rest[i] == lines[i]);
            }
        }
    }
}

/// A message as it goes over the wire: one line.
pub fn line_of(message: &str) -> (r: String)
    ensures
        r@ == message@.push('\n'),
{
    let mut r: String = message.to_owned();
    r.push('\n');
    r
}

impl IpcClient {
    /// What a client says when there is no daemon.
    pub fn not_running(socket: &str) -> (r: String)
        ensures
            r@ == not_running_text(socket@),
    {
        let mut r: String = joined("Panda-DL daemon is not running (socket not found at ", socket);
        r.append(")");
        r
    }

    /// The line that answers a request: the first that comes. A connection that closes before
    /// that gives none.
    pub fn first_line(line: Option<String>) -> (r: Result<String, String>)
        ensures
            first_line_is(line, r),
    {
        match line {
            Some(answer) => Ok(answer),
            None => Err("Connection closed without response".to_owned()),
        }
    }
}

/// The daemon listens below the directory for data, whatever it is, else below the home directory,
/// else below the one at hand.
pub proof fn where_the_daemon_listens(
    base: Seq<u8>,
    home: Option<Seq<u8>>,
)
    requires
        base.len() > 0,
        base.last() != 47,
    ensures
        socket_file(Some(base), home) == base + vstd::utf8::encode_utf8("/panda-dl/panda-dl.sock"@),
        socket_file(None, Some(base)) == base + vstd::utf8::encode_utf8("/.local/share/panda-dl/panda-dl.sock"@),
        socket_file(None, None) == vstd::utf8::encode_utf8("./panda-dl/panda-dl.sock"@),
{
    reveal_strlit("panda-dl.sock");
    reveal_strlit(".local/share");
    reveal_strlit(".");
    reveal_strlit("/panda-dl/");
    reveal_strlit("/panda-dl/panda-dl.sock");
    reveal_strlit("/.local/share/panda-dl/panda-dl.sock");
    reveal_strlit("./panda-dl/panda-dl.sock");
    let name = "panda-dl.sock"@;
    let below = ".local/share"@;
    let tail = "/panda-dl/panda-dl.sock"@;
    let dot = "."@;
    let sb = seq!['/'] + below;
    assert('/' as u8 == 47 && '.' as u8 == 46);
    assert(tail =~= "/panda-dl/"@ + name);
    assert("/.local/share/panda-dl/panda-dl.sock"@ =~= sb + tail);
    assert("./panda-dl/panda-dl.sock"@ =~= dot + tail);
    places::files_lie_in_a_directory_of_their_own(base, name);
    places::taking_from_a_directory_puts_behind(base, below);
    places::plain_text_is_its_bytes(sb, tail);
    places::plain_text_is_its_bytes(dot, tail);
    vstd::utf8::is_ascii_chars_encode_utf8(sb);
    vstd::utf8::is_ascii_chars_encode_utf8(dot);
    let mid = base + vstd::utf8::encode_utf8(sb);
    assert(sb.last() == below.last());
    assert(vstd::utf8::encode_utf8(sb)[sb.len() - 1] == sb[sb.len() - 1] as u8);
    assert(mid.last() == sb.last() as u8);
    assert(below.last() == 'e');
    assert('e' as u8 != 47);
    places::files_lie_in_a_directory_of_their_own(mid, name);
    assert(mid + vstd::utf8::encode_utf8(tail) =~= base + (vstd::utf8::encode_utf8(sb)
        + vstd::utf8::encode_utf8(tail)));
    places::files_lie_in_a_directory_of_their_own(vstd::utf8::encode_utf8(dot), name);
}

/// A request that something be done is taken up as it is, whatever it says: a download is added
/// with its link, directory and number of parts, the work on it is stopped, taken up or ended under
/// its name, and settings are kept as they are given.
pub proof fn requests_are_taken_up_as_they_are(
    before: Engine,
    req: Request,
    after: EngineView,
    r: Step,
)
    requires
        handled(before, req, after, r),
    ensures
        match req {
            Request::Add { uri, dir, parts } => r is Add && r->Add_uri == uri && r->Add_dir == dir
                && r->Add_parts == parts,
            Request::Pause { id } => before@.tasks.contains_key(id@) ==> r is Interrupt
                && r->Interrupt_id == id && after.tasks[id@].status == StatusView::Paused
                && r->interrupt == engine::interrupt_of(before@, id@),
            Request::Resume { id } => before@.tasks.contains_key(id@) ==> r is Resume
                && r->Resume_id == id && r->resume@ == engine::resume_of(before@, id@) && (
            before@.tasks[id@].status is Error || before@.tasks[id@].status == StatusView::Paused
                ==> after.tasks[id@].status == StatusView::Downloading),
            Request::Remove { id, delete_file } => r is Remove && r->Remove_id == id
                && r->delete_file == delete_file && !after.tasks.contains_key(id@)
                && engine::removal_is(before@, id@, delete_file, r->removal),
            Request::SetConfig { config } => r is SaveConfig && r->config == config,
            Request::GetConfig => r is Reply && r->Reply_0@ == ResponseView::Config(
                before@.config,
            ),
            Request::Status => r is Reply && r->Reply_0@ is Status && report::report_is(
                before.tasks,
                r->Reply_0@->Status_0,
            ),
            Request::OpenFile { id } => is_named(before@.tasks, id@) ==> r is OpenFile
                && r->OpenFile_id == id,
            Request::OpenFolder { id } => is_named(before@.tasks, id@) ==> r is OpenFolder
                && r->OpenFolder_id == id,
            Request::ClipboardEvent { text } => r is Reply || r is AutoStart,
        },
{
}

/// The file and the folder that are opened are those of the newest download of that name: no other
/// of that name is newer.
pub proof fn the_newest_of_a_name_is_opened(
    before: Engine,
    id: String,
    after: EngineView,
    file: Step,
    folder: Step,
)
    requires
        is_named(before@.tasks, id@),
        handled(before, Request::OpenFile { id }, after, file),
        handled(before, Request::OpenFolder { id }, after, folder),
    ensures
        exists|k: Seq<char>| #[trigger]
            before@.tasks.contains_key(k) && before@.tasks[k].id == id@ && file->OpenFile_path@
                == engine::file_of(before@.tasks[k]) && (forall|j: Seq<char>| #[trigger]
                before@.tasks.contains_key(j) && before@.tasks[j].id == id@
                    ==> before@.tasks[j].created_at <= before@.tasks[k].created_at),
        exists|k: Seq<char>| #[trigger]
            before@.tasks.contains_key(k) && before@.tasks[k].id == id@ && folder->OpenFolder_path@
                == before@.tasks[k].output_path && (forall|j: Seq<char>| #[trigger]
                before@.tasks.contains_key(j) && before@.tasks[j].id == id@
                    ==> before@.tasks[j].created_at <= before@.tasks[k].created_at),
{
    let tasks = before@.tasks;
    let k = choose|k: Seq<char>| #[trigger]
        is_newest_named(tasks, k, id@) && engine::file_of(tasks[k]) == file->OpenFile_path@;
    assert(tasks.contains_key(k) && tasks[k].id == id@);
    let m = choose|k: Seq<char>| #[trigger]
        is_newest_named(tasks, k, id@) && tasks[k].output_path == folder->OpenFolder_path@;
    assert(tasks.contains_key(m) && tasks[m].id == id@);
}

/// What is fetched at once of what is found in the clipboard, as the settings say: a magnet link,
/// whatever it says, where magnet links are; a torrent, whatever its link, where torrents are; and
/// a file in any case.
pub proof fn what_is_fetched_at_once(
    c: ConfigView,
    t: Seq<char>,
    found: Option<DetectedKind>,
    a: Seq<char>,
)
    ensures
        t == "magnet:?"@ + a && c.auto_start_magnets ==> starts_at_once(c, t, found) == Some(
            DetectedKind::Magnet,
        ),
        !"magnet:?"@.is_prefix_of(t) && t == a + ".torrent"@ && c.auto_start_torrents
            ==> starts_at_once(c, t, found) == Some(DetectedKind::TorrentUrl),
        !"magnet:?"@.is_prefix_of(t) && found == Some(DetectedKind::TorrentUrl)
            && c.auto_start_torrents ==> starts_at_once(c, t, found) == Some(
            DetectedKind::TorrentUrl,
        ),
        !"magnet:?"@.is_prefix_of(t) && !".torrent"@.is_suffix_of(t) && found == Some(
            DetectedKind::DirectFile,
        ) ==> starts_at_once(c, t, found) == Some(DetectedKind::DirectFile),
        !c.auto_start_magnets && !c.auto_start_torrents && found != Some(DetectedKind::DirectFile)
            ==> starts_at_once(c, t, found) is None,
        !"magnet:?"@.is_prefix_of(t) && !".torrent"@.is_suffix_of(t) && found is None
            ==> starts_at_once(c, t, found) is None,
        !c.auto_start_magnets && "magnet:?"@.is_prefix_of(t) && !".torrent"@.is_suffix_of(t)
            && found == Some(DetectedKind::Magnet) ==> starts_at_once(c, t, found) is None,
        !c.auto_start_torrents && !"magnet:?"@.is_prefix_of(t) && found == Some(
            DetectedKind::TorrentUrl,
        ) ==> starts_at_once(c, t, found) is None,
{
    let m = "magnet:?"@;
    let e = ".torrent"@;
    assert((m + a).subrange(0, m.len() as int) =~= m);
    let n = (a + e).len() as int;
    assert((a + e).subrange(n - e.len(), n) =~= e);
}

/// A text from the clipboard is fetched as it is, but for the white space around it, where it is to
/// be fetched at once; else it is answered, and so is every text while the clipboard is not
/// watched.
pub proof fn a_text_is_fetched_as_it_is(
    c: ConfigView,
    x: Seq<char>,
    t: Seq<char>,
    y: Seq<char>,
    found: Option<DetectedKind>,
    r: Step,
)
    requires
        clipboard_step(c, x + t + y, found, r),
        forall|i: int| 0 <= i < x.len() ==> text::is_space(#[trigger] x[i]),
        forall|i: int| 0 <= i < y.len() ==> text::is_space(#[trigger] y[i]),
        t.len() > 0 ==> !text::is_space(t[0]) && !text::is_space(t.last()),
    ensures
        c.auto_capture_clipboard && starts_at_once(c, t, found) is Some ==> r is AutoStart
            && r->AutoStart_uri@ == t && r->kind == starts_at_once(c, t, found)->0,
        c.auto_capture_clipboard && starts_at_once(c, t, found) is None ==> r is Reply
            && r->Reply_0@ == (ResponseView::Success {
            id: None,
            message: Some("Clipboard event checked"@),
        }),
        !c.auto_capture_clipboard ==> r is Reply && r->Reply_0@ == (ResponseView::Success {
            id: None,
            message: Some("Auto-capture disabled"@),
        }),
{
    text::trimming_takes_off_the_edges(x, t, y, Edge::Space);
}

/// What was done is answered with the name of the download and what was done with it; a failure
/// with its reason, whatever it is.
pub proof fn what_was_done_is_answered(id: String, e: String, what: Done)
    ensures
        added_view(Ok(id)) == (ResponseView::Success {
            id: Some(id@),
            message: Some("Download added successfully"@),
        }),
        added_view(Err(e)) == (ResponseView::Error { message: e@ }),
        done_view(id@, Done::Paused, None) == (ResponseView::Success {
            id: Some(id@),
            message: Some("Download paused"@),
        }),
        done_view(id@, Done::Resumed, None) == (ResponseView::Success {
            id: Some(id@),
            message: Some("Download resumed"@),
        }),
        done_view(id@, Done::Removed, None) == (ResponseView::Success {
            id: Some(id@),
            message: Some("Download removed"@),
        }),
        done_view(id@, what, Some(e@)) == (ResponseView::Error { message: e@ }),
        auto_started_view(Ok(id)) == (ResponseView::Success {
            id: Some(id@),
            message: Some("Auto-started download from clipboard"@),
        }),
        auto_started_view(Err(e)) == (ResponseView::Error {
            message: "Failed to auto-start download: "@ + e@,
        }),
        invalid_view(e@) == (ResponseView::Error { message: "Invalid JSON request: "@ + e@ }),
        not_running_text(e@) == "Panda-DL daemon is not running (socket not found at "@ + e@
            + ")"@,
{
}

/// The user is told what was found in the clipboard where it was started, and nothing where it was
/// not.
pub proof fn what_was_captured_is_told(id: String, e: String, kind: DetectedKind)
    ensures
        auto_started_news(DetectedKind::Magnet, Ok(id)) == Some(
            ("Panda Downloader"@, "Captured & started downloading: "@ + "Magnet link"@),
        ),
        auto_started_news(DetectedKind::TorrentUrl, Ok(id)) == Some(
            ("Panda Downloader"@, "Captured & started downloading: "@ + "Torrent"@),
        ),
        auto_started_news(DetectedKind::DirectFile, Ok(id)) == Some(
            ("Panda Downloader"@, "Captured & started downloading: "@ + "File"@),
        ),
        auto_started_news(kind, Err(e)) is None,
{
}

/// Settings that are kept hold, whatever they are, and are the answer; all else stays. Those that
/// are not kept do not hold, and the answer says why.
pub proof fn settings_hold_where_they_are_kept(
    e: EngineView,
    config: ConfigView,
    failure: Option<Seq<char>>,
    after: EngineView,
    answer: ResponseView,
)
    requires
        settings_kept(e, config, failure, after, answer),
    ensures
        failure is None ==> after.config == config && answer == ResponseView::Config(config),
        failure is Some ==> after.config == e.config && answer == (ResponseView::Error {
            message: "Failed to save config: "@ + failure->0,
        }),
        after.tasks == e.tasks && after.http_active == e.http_active && after.youtube_active
            == e.youtube_active && after.torrent_active == e.torrent_active && after.last_speeds
            == e.last_speeds,
{
}

/// The folder of a file in a directory is the directory, and that of a directory is itself.
pub proof fn the_folder_of_a_file_is_its_directory(dir: Seq<char>, name: Seq<char>)
    requires
        dir.len() > 0,
        dir.last() != '/',
        dir.len() > 1 ==> !(dir.last() == '.' && dir[dir.len() - 2] == '/'),
        name.len() > 0,
        forall|i: int| 0 <= i < name.len() ==> #[trigger] name[i] != '/',
        name != seq!['.'],
    ensures
        folder_spec(dir.push('/') + name, false) == dir,
        folder_spec(dir, true) == dir,
        folder_spec(seq!['/'], false) == seq!['/'],
{
    paths::the_parent_is_the_directory(dir, name);
    let root = seq!['/'];
    assert(paths::component_before(root, 1) == paths::component_before(root, 0));
    assert(paths::parent_spec(root) is None);
}

/// The first line that comes is the answer, whatever it says; without one there is none.
pub proof fn the_first_line_is_the_answer(line: Option<String>, r: Result<String, String>)
    requires
        first_line_is(line, r),
    ensures
        line is Some ==> r is Ok && r->Ok_0 == line->0,
        line is None ==> r is Err && r->Err_0@ == "Connection closed without response"@,
{
}

} // verus!
