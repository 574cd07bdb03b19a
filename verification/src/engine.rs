//! The state of the daemon, and what its users can do with downloads.

use vstd::prelude::*;

use crate::config::{Config, ConfigView};
use crate::outside::{self, random_uuid};
use crate::paths::{self, extension};
use crate::registry::Registry;
use crate::text::{
    self, chars_of, contains, copy_texts, ends_with, joined, same_text, starts_with, string_of,
    trim, Edge,
};
use crate::types::{
    copy_parts, DownloadKind, DownloadStatus, DownloadTask, PartInfo,
    StatusView, TaskView,
};

verus! {

/// All downloads, and which of them are being worked on. The work itself is done elsewhere and
/// known here by a number, the handle.
pub struct Engine {
    pub config: Config,
    /// All downloads: those that are being fetched, those that rest and those that are done.
    pub tasks: Registry<DownloadTask>,
    pub http_active: Registry<u64>,
    pub torrent_active: Registry<u64>,
    pub youtube_active: Registry<u64>,
    /// What had been received and what had been sent when each download was last looked at.
    pub last_speeds: Registry<(u64, u64)>,
}

/// The state of the daemon, as mathematics.
#[verifier::ext_equal]
pub struct EngineView {
    pub config: ConfigView,
    pub tasks: Map<Seq<char>, TaskView>,
    pub http_active: Map<Seq<char>, u64>,
    pub torrent_active: Map<Seq<char>, u64>,
    pub youtube_active: Map<Seq<char>, u64>,
    pub last_speeds: Map<Seq<char>, (u64, u64)>,
}

impl View for Engine {
    type V = EngineView;

    open spec fn view(&self) -> EngineView {
        EngineView {
            config: self.config@,
            tasks: self.tasks@,
            http_active: self.http_active@,
            torrent_active: self.torrent_active@,
            youtube_active: self.youtube_active@,
            last_speeds: self.last_speeds@,
        }
    }
}

/// The state at the start: some downloads, none of them being worked on.
pub open spec fn at_start(config: ConfigView, tasks: Map<Seq<char>, TaskView>) -> EngineView {
    EngineView {
        config,
        tasks,
        http_active: Map::empty(),
        torrent_active: Map::empty(),
        youtube_active: Map::empty(),
        last_speeds: Map::empty(),
    }
}

/// Why a request about a download is refused.
#[derive(Debug, Clone, Copy, PartialEq, Eq, Structural)]
pub enum EngineError {
    /// There is no such download.
    TaskNotFound,
}

impl EngineError {
    pub open spec fn text(self) -> Seq<char> {
        match self {
            EngineError::TaskNotFound => "Task not found"@,
        }
    }

    /// What the user is told.
    pub fn message(&self) -> (r: String)
        ensures
            r@ == self.text(),
    {
        match self {
            EngineError::TaskNotFound => "Task not found".to_owned(),
        }
    }
}

/// A download changed by `f`, where there is one of that name.
pub open spec fn with_task(
    e: EngineView,
    id: Seq<char>,
    f: spec_fn(TaskView) -> TaskView,
) -> EngineView {
    if e.tasks.contains_key(id) {
        EngineView { tasks: e.tasks.insert(id, f(e.tasks[id])), ..e }
    } else {
        e
    }
}

/// The value of a key, where it has one.
pub open spec fn looked_up<V>(m: Map<Seq<char>, V>, id: Seq<char>) -> Option<V> {
    if m.contains_key(id) {
        Some(m[id])
    } else {
        None
    }
}

/// How a link is fetched; a video page is one even where the link looks like a torrent.
pub open spec fn classified(uri: Seq<char>) -> DownloadKind {
    if text::occurs(uri, "youtube.com/watch"@) || text::occurs(uri, "youtu.be/"@) {
        DownloadKind::Youtube
    } else if "magnet:?"@.is_prefix_of(uri) || ".torrent"@.is_suffix_of(uri)
        || paths::extension_spec(uri) == Some("torrent"@) {
        DownloadKind::Torrent
    } else {
        DownloadKind::Http
    }
}

/// How a link is fetched.
pub fn classify(uri: &str) -> (r: DownloadKind)
    ensures
        r == classified(uri@),
{
    let cs = chars_of(uri);
    if contains(&cs, &chars_of("youtube.com/watch")) || contains(&cs, &chars_of("youtu.be/")) {
        return DownloadKind::Youtube;
    }
    if starts_with(&cs, &chars_of("magnet:?")) || ends_with(&cs, &chars_of(".torrent")) {
        return DownloadKind::Torrent;
    }
    match extension(uri) {
        Some(e) => if same_text(&e, "torrent") {
            DownloadKind::Torrent
        } else {
            DownloadKind::Http
        },
        None => DownloadKind::Http,
    }
}

/// A download that is to be started.
#[derive(Debug, PartialEq, Eq)]
pub struct AddPlan {
    pub id: String,
    pub uri: String,
    pub kind: DownloadKind,
    pub target_dir: String,
}

/// How a link is to be fetched and where to: without the space around it, and into the directory
/// that is asked for, or else into that of the settings.
pub open spec fn add_plan_is(
    e: EngineView,
    uri: Seq<char>,
    custom_dir: Option<Seq<char>>,
    plan: AddPlan,
) -> bool {
    &&& plan.uri@ == text::trimmed(uri, Edge::Space)
    &&& plan.kind == classified(text::trimmed(uri, Edge::Space))
    &&& plan.target_dir@ == match custom_dir {
        Some(d) => d,
        None => e.config.download_dir,
    }
}

/// What pausing a download takes beyond the books.
#[derive(Debug, Clone, Copy, PartialEq, Eq, Structural)]
pub enum Interrupt {
    Nothing,
    CancelHttp(u64),
    CancelYoutube(u64),
    PauseTorrent(u64),
}

/// A download that has been paused.
pub open spec fn paused_task(t: TaskView) -> TaskView {
    TaskView { status: StatusView::Paused, download_speed: 0, ..t }
}

/// The state after a download has been paused: work over HTTP and on videos ends, a torrent
/// stays at hand.
pub open spec fn paused(e: EngineView, id: Seq<char>) -> EngineView {
    EngineView {
        http_active: if e.tasks[id].kind == DownloadKind::Http {
            e.http_active.remove(id)
        } else {
            e.http_active
        },
        youtube_active: if e.tasks[id].kind == DownloadKind::Youtube {
            e.youtube_active.remove(id)
        } else {
            e.youtube_active
        },
        ..with_task(e, id, |t: TaskView| paused_task(t))
    }
}

/// What is to be stopped when a download is paused.
pub open spec fn interrupt_of(e: EngineView, id: Seq<char>) -> Interrupt {
    match e.tasks[id].kind {
        DownloadKind::Http => match looked_up(e.http_active, id) {
            Some(h) => Interrupt::CancelHttp(h),
            None => Interrupt::Nothing,
        },
        DownloadKind::Youtube => match looked_up(e.youtube_active, id) {
            Some(h) => Interrupt::CancelYoutube(h),
            None => Interrupt::Nothing,
        },
        DownloadKind::Torrent => match looked_up(e.torrent_active, id) {
            Some(h) => Interrupt::PauseTorrent(h),
            None => Interrupt::Nothing,
        },
    }
}

/// What comes of pausing a download, and the state afterwards.
pub open spec fn pausing_is(
    e: EngineView,
    id: Seq<char>,
    after: EngineView,
    r: Result<Interrupt, EngineError>,
) -> bool {
    if e.tasks.contains_key(id) {
        r == Ok::<Interrupt, EngineError>(interrupt_of(e, id)) && after == paused(e, id)
    } else {
        r == Err::<Interrupt, EngineError>(EngineError::TaskNotFound) && after == e
    }
}

/// What taking a download up again takes beyond the books.
#[derive(Debug, PartialEq, Eq)]
pub enum Resume {
    Nothing,
    Http { uri: String, output_path: String, parts: Vec<PartInfo>, supports_ranges: bool },
    Youtube { uri: String, output_path: String },
    UnpauseTorrent(u64),
    AddTorrent { uri: String, output_path: String },
}

/// What taking a download up again takes, with texts as characters.
#[verifier::ext_equal]
pub enum ResumeView {
    Nothing,
    Http { uri: Seq<char>, output_path: Seq<char>, parts: Seq<PartInfo>, supports_ranges: bool },
    Youtube { uri: Seq<char>, output_path: Seq<char> },
    UnpauseTorrent(u64),
    AddTorrent { uri: Seq<char>, output_path: Seq<char> },
}

impl View for Resume {
    type V = ResumeView;

    open spec fn view(&self) -> ResumeView {
        match self {
            Resume::Nothing => ResumeView::Nothing,
            Resume::Http { uri, output_path, parts, supports_ranges } => ResumeView::Http {
                uri: uri@,
                output_path: output_path@,
                parts: parts@,
                supports_ranges: *supports_ranges,
            },
            Resume::Youtube { uri, output_path } => ResumeView::Youtube {
                uri: uri@,
                output_path: output_path@,
            },
            Resume::UnpauseTorrent(h) => ResumeView::UnpauseTorrent(*h),
            Resume::AddTorrent { uri, output_path } => ResumeView::AddTorrent {
                uri: uri@,
                output_path: output_path@,
            },
        }
    }
}

/// Whether a download can be taken up again.
pub open spec fn resumable(t: TaskView) -> bool {
    t.status == StatusView::Paused || t.status is Error
}

/// The state after a download has been taken up again. One that neither rests nor has failed
/// is left alone.
pub open spec fn resumed(e: EngineView, id: Seq<char>) -> EngineView {
    if resumable(e.tasks[id]) {
        with_task(e, id, |t: TaskView| TaskView { status: StatusView::Downloading, ..t })
    } else {
        e
    }
}

/// What is to be done when a download is taken up again.
pub open spec fn resume_of(e: EngineView, id: Seq<char>) -> ResumeView {
    let t = e.tasks[id];
    if !resumable(t) {
        ResumeView::Nothing
    } else {
        match t.kind {
            DownloadKind::Http => ResumeView::Http {
                uri: t.uri,
                output_path: t.output_path,
                parts: t.parts,
                supports_ranges: t.parts.len() > 1,
            },
            DownloadKind::Youtube => ResumeView::Youtube { uri: t.uri, output_path: t.output_path },
            DownloadKind::Torrent => match looked_up(e.torrent_active, id) {
                Some(h) => ResumeView::UnpauseTorrent(h),
                None => ResumeView::AddTorrent { uri: t.uri, output_path: t.output_path },
            },
        }
    }
}

/// What comes of taking a download up again, and the state afterwards.
pub open spec fn resuming_is(
    e: EngineView,
    id: Seq<char>,
    after: EngineView,
    r: Result<Resume, EngineError>,
) -> bool {
    if e.tasks.contains_key(id) {
        &&& r matches Ok(resume) && resume@ == resume_of(e, id)
        &&& after == resumed(e, id)
    } else {
        r == Err::<Resume, EngineError>(EngineError::TaskNotFound) && after == e
    }
}

/// What removing a download takes beyond the books.
#[derive(Debug, PartialEq, Eq)]
pub struct Removal {
    pub cancel_http: Option<u64>,
    pub cancel_youtube: Option<u64>,
    /// The torrent to be dropped, with its files if they are to be deleted.
    pub drop_torrent: Option<u64>,
    /// The files to be deleted.
    pub delete: Vec<String>,
}

/// The state after a download has been removed.
pub open spec fn removed(e: EngineView, id: Seq<char>) -> EngineView {
    EngineView {
        tasks: e.tasks.remove(id),
        http_active: e.http_active.remove(id),
        youtube_active: e.youtube_active.remove(id),
        torrent_active: if e.tasks.contains_key(id) {
            e.torrent_active.remove(id)
        } else {
            e.torrent_active
        },
        ..e
    }
}

/// The files of a video, each with those in which it is kept as long as it is not complete.
pub open spec fn with_leftovers(files: Seq<Seq<char>>) -> Seq<Seq<char>>
    decreases files.len(),
{
    if files.len() == 0 {
        seq![]
    } else {
        with_leftovers(files.drop_last()) + seq![
            files.last(),
            files.last() + ".part"@,
            files.last() + ".ytdl"@,
        ]
    }
}

/// The files that a download has written.
pub open spec fn written_by(t: TaskView) -> Seq<Seq<char>> {
    match t.kind {
        DownloadKind::Http => seq![t.output_path],
        DownloadKind::Youtube => with_leftovers(t.files),
        DownloadKind::Torrent => t.files,
    }
}

/// The file to be opened when that of a download is asked for: the one that it has written, for
/// a video the last one. Where there is no such file, what it is to be in.
pub open spec fn file_of(t: TaskView) -> Seq<char> {
    match t.kind {
        DownloadKind::Http => t.output_path,
        DownloadKind::Youtube => if t.files.len() > 0 {
            t.files.last()
        } else {
            t.output_path
        },
        DownloadKind::Torrent => if t.files.len() == 1 {
            t.files[0]
        } else {
            t.output_path
        },
    }
}

/// The files to be deleted when a download is removed: those that it has written. A torrent that
/// is at hand takes its files with it when it is dropped.
pub open spec fn deleted_with(e: EngineView, id: Seq<char>, delete_file: bool) -> Seq<Seq<char>> {
    if !delete_file || !e.tasks.contains_key(id) {
        seq![]
    } else if e.tasks[id].kind == DownloadKind::Torrent && e.torrent_active.contains_key(id) {
        seq![]
    } else {
        written_by(e.tasks[id])
    }
}

/// What is to be done when a download is removed.
pub open spec fn removal_is(e: EngineView, id: Seq<char>, delete_file: bool, r: Removal) -> bool {
    &&& r.cancel_http == looked_up(e.http_active, id)
    &&& r.cancel_youtube == looked_up(e.youtube_active, id)
    &&& r.drop_torrent == if e.tasks.contains_key(id) {
        looked_up(e.torrent_active, id)
    } else {
        None
    }
    &&& text::texts(r.delete@) == deleted_with(e, id, delete_file)
}

fn leftovers(files: &Vec<String>) -> (r: Vec<String>)
    ensures
        text::texts(r@) == with_leftovers(text::texts(files@)),
{
    let ghost all = text::texts(files@);
    let mut r: Vec<String> = Vec::new();
    let mut i: usize = 0;
    assert(text::texts(r@) =~= with_leftovers(all.take(0)));
    while i < files.len()
        invariant
            i <= files@.len(),
            all == text::texts(files@),
            text::texts(r@) == with_leftovers(all.take(i as int)),
        decreases files.len() - i,
    {
        let ghost before = text::texts(r@);
        let ghost f = all[i as int];
        r.push(files[i].clone());
        r.push(joined(&files[i], ".part"));
        r.push(joined(&files[i], ".ytdl"));
        assert(text::texts(r@) =~= before + seq![f, f + ".part"@, f + ".ytdl"@]);
        assert(all.take(i + 1).drop_last() =~= all.take(i as int));
        assert(all.take(i + 1).last() == f);
        i += 1;
    }
    assert(all.take(files@.len() as int) =~= all);
    r
}

/// The files that a download has written.
pub fn written_files(task: &DownloadTask) -> (r: Vec<String>)
    ensures
        text::texts(r@) == written_by(task@),
{
    match task.kind {
        DownloadKind::Http => {
            let mut r: Vec<String> = Vec::new();
            r.push(task.output_path.clone());
            assert(text::texts(r@) =~= seq![task@.output_path]);
            r
        },
        DownloadKind::Youtube => leftovers(&task.files),
        DownloadKind::Torrent => copy_texts(&task.files),
    }
}

/// The file to be opened when that of a download is asked for.
pub fn file_to_open(task: &DownloadTask) -> (r: String)
    ensures
        r@ == file_of(task@),
{
    let n: usize = task.files.len();
    match task.kind {
        DownloadKind::Http => task.output_path.clone(),
        DownloadKind::Youtube => if n > 0 {
            task.files[n - 1].clone()
        } else {
            task.output_path.clone()
        },
        DownloadKind::Torrent => if n == 1 {
            task.files[0].clone()
        } else {
            task.output_path.clone()
        },
    }
}

fn taken_out(r: &mut Registry<u64>, id: &str) -> (h: Option<u64>)
    requires
        old(r).wf(),
    ensures
        final(r).wf(),
        final(r)@ == old(r)@.remove(id@),
        h == looked_up(old(r)@, id@),
{
    r.remove(id)
}

fn seen(r: &Registry<u64>, id: &str) -> (h: Option<u64>)
    requires
        r.wf(),
    ensures
        h == looked_up(r@, id@),
{
    match r.get(id) {
        Some(h) => Some(*h),
        None => None,
    }
}

impl Engine {
    /// The books are in order: no name is entered twice in any of them.
    pub open spec fn wf(self) -> bool {
        &&& self.tasks.wf()
        &&& self.http_active.wf()
        &&& self.torrent_active.wf()
        &&& self.youtube_active.wf()
        &&& self.last_speeds.wf()
    }

    /// The state at the start: some downloads, none of them being worked on.
    pub fn new(config: Config, tasks: Registry<DownloadTask>) -> (r: Engine)
        requires
            tasks.wf(),
        ensures
            r.wf(),
            r@ == at_start(config@, tasks@),
            r.tasks == tasks,
    {
        Engine {
            config,
            tasks,
            http_active: Registry::new(),
            torrent_active: Registry::new(),
            youtube_active: Registry::new(),
            last_speeds: Registry::new(),
        }
    }

    /// How a link is to be fetched and where to, under a given name.
    pub fn plan_download(&self, id: String, uri: &str, custom_dir: Option<String>) -> (r: AddPlan)
        ensures
            r.id == id,
            add_plan_is(self@, uri@, text::opt_text(custom_dir), r),
    {
        let trimmed = string_of(trim(&chars_of(uri), Edge::Space));
        let kind = classify(&trimmed);
        let target_dir = match custom_dir {
            Some(d) => d,
            None => self.config.download_dir.clone(),
        };
        AddPlan { id, uri: trimmed, kind, target_dir }
    }

    /// How a link is to be fetched and where to, under a new name, which is left to chance.
    pub fn add_download(&self, uri: &str, custom_dir: Option<String>) -> (r: AddPlan)
        ensures
            outside::is_random_uuid(r.id@),
            add_plan_is(self@, uri@, text::opt_text(custom_dir), r),
    {
        self.plan_download(random_uuid(), uri, custom_dir)
    }

    /// Pauses a download.
    pub fn pause_download(&mut self, id: &str) -> (r: Result<Interrupt, EngineError>)
        requires
            old(self).wf(),
        ensures
            final(self).wf(),
            pausing_is(old(self)@, id@, final(self)@, r),
            !old(self)@.tasks.contains_key(id@) ==> *final(self) == *old(self),
    {
        let kind = match self.tasks.get_mut(id) {
            Some(task) => {
                task.status = DownloadStatus::Paused;
                task.download_speed = 0;
                task.kind
            },
            None => {
                return Err(EngineError::TaskNotFound);
            },
        };
        let r = match kind {
            DownloadKind::Http => match taken_out(&mut self.http_active, id) {
                Some(h) => Interrupt::CancelHttp(h),
                None => Interrupt::Nothing,
            },
            DownloadKind::Youtube => match taken_out(&mut self.youtube_active, id) {
                Some(h) => Interrupt::CancelYoutube(h),
                None => Interrupt::Nothing,
            },
            DownloadKind::Torrent => match seen(&self.torrent_active, id) {
                Some(h) => Interrupt::PauseTorrent(h),
                None => Interrupt::Nothing,
            },
        };
        Ok(r)
    }

    /// Takes a download up again.
    pub fn resume_download(&mut self, id: &str) -> (r: Result<Resume, EngineError>)
        requires
            old(self).wf(),
        ensures
            final(self).wf(),
            resuming_is(old(self)@, id@, final(self)@, r),
            !old(self)@.tasks.contains_key(id@) ==> *final(self) == *old(self),
    {
        let (kind, uri, output_path, parts) = match self.tasks.get_mut(id) {
            Some(task) => {
                if !task.status.is_resumable() {
                    assert(old(self)@.tasks.insert(id@, old(self)@.tasks[id@])
                        =~= old(self)@.tasks);
                    return Ok(Resume::Nothing);
                }
                task.status = DownloadStatus::Downloading;
                (task.kind, task.uri.clone(), task.output_path.clone(), copy_parts(&task.parts))
            },
            None => {
                return Err(EngineError::TaskNotFound);
            },
        };
        let r = match kind {
            DownloadKind::Http => {
                let supports_ranges = parts.len() > 1;
                Resume::Http { uri, output_path, parts, supports_ranges }
            },
            DownloadKind::Youtube => Resume::Youtube { uri, output_path },
            DownloadKind::Torrent => match seen(&self.torrent_active, id) {
                Some(h) => Resume::UnpauseTorrent(h),
                None => Resume::AddTorrent { uri, output_path },
            },
        };
        Ok(r)
    }

    /// Removes a download, and ends all work on it.
    pub fn remove_download(&mut self, id: &str, delete_file: bool) -> (r: Removal)
        requires
            old(self).wf(),
        ensures
            final(self).wf(),
            final(self)@ == removed(old(self)@, id@),
            removal_is(old(self)@, id@, delete_file, r),
    {
        let cancel_http = taken_out(&mut self.http_active, id);
        let cancel_youtube = taken_out(&mut self.youtube_active, id);
        let mut delete: Vec<String> = Vec::new();
        assert(text::texts(delete@) =~= seq![]);
        match self.tasks.remove(id) {
            Some(task) => {
                let drop_torrent = taken_out(&mut self.torrent_active, id);
                if delete_file && (task.kind != DownloadKind::Torrent || drop_torrent.is_none()) {
                    delete = written_files(&task);
                }
                Removal { cancel_http, cancel_youtube, drop_torrent, delete }
            },
            None => Removal { cancel_http, cancel_youtube, drop_torrent: None, delete },
        }
    }
}

/// A link with the address of a video page anywhere in it is that of a video, whatever stands
/// before and behind it.
pub proof fn a_video_page_is_a_video(a: Seq<char>, b: Seq<char>)
    ensures
        classified(a + "youtube.com/watch"@ + b) == DownloadKind::Youtube,
        classified(a + "youtu.be/"@ + b) == DownloadKind::Youtube,
{
    text::a_text_occurs_where_it_was_put(a, "youtube.com/watch"@, b);
    text::a_text_occurs_where_it_was_put(a, "youtu.be/"@, b);
}

/// Whether a text is made with `p` in it.
pub open spec fn is_made_with(s: Seq<char>, p: Seq<char>) -> bool {
    exists|a: Seq<char>, b: Seq<char>| s == #[trigger] (a + p + b)
}

/// A link without such an address is no video.
pub proof fn nothing_else_is_a_video(uri: Seq<char>)
    requires
        !is_made_with(uri, "youtube.com/watch"@),
        !is_made_with(uri, "youtu.be/"@),
    ensures
        classified(uri) != DownloadKind::Youtube,
{
    if text::occurs(uri, "youtube.com/watch"@) {
        let (a, b) = text::what_occurs_was_put_there(uri, "youtube.com/watch"@);
        assert(uri == (a + "youtube.com/watch"@) + b);
    }
    if text::occurs(uri, "youtu.be/"@) {
        let (a, b) = text::what_occurs_was_put_there(uri, "youtu.be/"@);
        assert(uri == (a + "youtu.be/"@) + b);
    }
}

/// A link that is no video is a torrent where it begins as a magnet link, whatever follows, where
/// it ends as a torrent, whatever stands before, or where the extension of its file name is that
/// of a torrent.
pub proof fn magnets_and_torrents_are_torrents(uri: Seq<char>, a: Seq<char>)
    requires
        classified(uri) != DownloadKind::Youtube,
    ensures
        uri == "magnet:?"@ + a ==> classified(uri) == DownloadKind::Torrent,
        uri == a + ".torrent"@ ==> classified(uri) == DownloadKind::Torrent,
        paths::extension_spec(uri) == Some("torrent"@) ==> classified(uri) == DownloadKind::Torrent,
{
    let m = "magnet:?"@;
    let t = ".torrent"@;
    assert((m + a).subrange(0, m.len() as int) =~= m);
    let n = (a + t).len() as int;
    assert((a + t).subrange(n - t.len(), n) =~= t);
}

/// Any other link is fetched over HTTP.
pub proof fn any_other_link_is_fetched_over_http(uri: Seq<char>)
    requires
        classified(uri) != DownloadKind::Youtube,
        forall|b: Seq<char>| uri != #[trigger] ("magnet:?"@ + b),
        forall|a: Seq<char>| uri != #[trigger] (a + ".torrent"@),
        paths::extension_spec(uri) != Some("torrent"@),
    ensures
        classified(uri) == DownloadKind::Http,
{
    let m = "magnet:?"@;
    let t = ".torrent"@;
    if m.is_prefix_of(uri) {
        assert(uri =~= m + uri.skip(m.len() as int));
    }
    if t.is_suffix_of(uri) {
        assert(uri =~= uri.take(uri.len() - t.len()) + t);
    }
}

/// A link is added as it was written, but for the white space around it, into the directory that
/// was asked for, or else into that of the settings; and as what it is.
pub proof fn a_link_is_added_as_it_was_written(
    e: EngineView,
    x: Seq<char>,
    uri: Seq<char>,
    y: Seq<char>,
    custom_dir: Option<Seq<char>>,
    plan: AddPlan,
)
    requires
        add_plan_is(e, x + uri + y, custom_dir, plan),
        forall|i: int| 0 <= i < x.len() ==> text::is_space(#[trigger] x[i]),
        forall|i: int| 0 <= i < y.len() ==> text::is_space(#[trigger] y[i]),
        uri.len() > 0 ==> !text::is_space(uri[0]) && !text::is_space(uri.last()),
    ensures
        plan.uri@ == uri,
        plan.kind == classified(uri),
        custom_dir is Some ==> plan.target_dir@ == custom_dir->0,
        custom_dir is None ==> plan.target_dir@ == e.config.download_dir,
{
    text::trimming_takes_off_the_edges(x, uri, y, Edge::Space);
}

/// Two downloads that are the same but for their status and their speed.
pub open spec fn same_but_status_and_speed(a: TaskView, b: TaskView) -> bool {
    &&& a.id == b.id && a.name == b.name && a.uri == b.uri && a.kind == b.kind
    &&& a.total_bytes == b.total_bytes && a.downloaded_bytes == b.downloaded_bytes
    &&& a.uploaded_bytes == b.uploaded_bytes && a.upload_speed == b.upload_speed
    &&& a.eta_seconds == b.eta_seconds && a.output_path == b.output_path
    &&& a.created_at == b.created_at && a.parts == b.parts && a.torrent_info == b.torrent_info
    &&& a.files == b.files
}

/// A download of any kind that has failed, whatever the reason, and one that is paused, is taken
/// up again: it is then being fetched, all else of it is kept, and the work of its kind is to be
/// done, from its link to its place; never nothing.
pub proof fn what_failed_or_rests_is_taken_up_again(
    e: EngineView,
    id: Seq<char>,
    message: Seq<char>,
    after: EngineView,
    r: Result<Resume, EngineError>,
)
    requires
        e.tasks.contains_key(id),
        e.tasks[id].status == StatusView::Error(message) || e.tasks[id].status
            == StatusView::Paused,
        resuming_is(e, id, after, r),
    ensures
        ({
            let t = e.tasks[id];
            let u = after.tasks[id];
            let work = r->Ok_0@;
            &&& after.tasks.contains_key(id)
            &&& u.status == StatusView::Downloading
            &&& same_but_status_and_speed(t, u) && u.download_speed == t.download_speed
            &&& after.config == e.config && after.http_active == e.http_active
                && after.youtube_active == e.youtube_active && after.torrent_active
                == e.torrent_active && after.last_speeds == e.last_speeds
            &&& r is Ok
            &&& work != ResumeView::Nothing
            &&& t.kind == DownloadKind::Http ==> work is Http && work->Http_uri == t.uri
                && work->Http_output_path == t.output_path && work->Http_parts == t.parts && (
            work->Http_supports_ranges <==> t.parts.len() >= 2)
            &&& t.kind == DownloadKind::Youtube ==> work is Youtube && work->Youtube_uri == t.uri
                && work->Youtube_output_path == t.output_path
            &&& t.kind == DownloadKind::Torrent && e.torrent_active.contains_key(id) ==> work
                == ResumeView::UnpauseTorrent(e.torrent_active[id])
            &&& t.kind == DownloadKind::Torrent && !e.torrent_active.contains_key(id) ==> work
                is AddTorrent && work->AddTorrent_uri == t.uri && work->AddTorrent_output_path
                == t.output_path
        }),
{
}

/// A download of any kind and any status is paused: it then rests and does not move, all else of
/// it is kept, and the work on it that is entered is to be stopped.
pub proof fn whatever_its_status_a_download_is_paused(
    e: EngineView,
    id: Seq<char>,
    after: EngineView,
    r: Result<Interrupt, EngineError>,
)
    requires
        e.tasks.contains_key(id),
        pausing_is(e, id, after, r),
    ensures
        ({
            let t = e.tasks[id];
            let u = after.tasks[id];
            &&& after.tasks.contains_key(id)
            &&& u.status == StatusView::Paused
            &&& u.download_speed == 0
            &&& same_but_status_and_speed(t, u)
            &&& r is Ok
            &&& t.kind == DownloadKind::Http && e.http_active.contains_key(id) ==> r->Ok_0
                == Interrupt::CancelHttp(e.http_active[id]) && !after.http_active.contains_key(id)
            &&& t.kind == DownloadKind::Youtube && e.youtube_active.contains_key(id) ==> r->Ok_0
                == Interrupt::CancelYoutube(e.youtube_active[id])
                && !after.youtube_active.contains_key(id)
            &&& t.kind == DownloadKind::Torrent && e.torrent_active.contains_key(id) ==> r->Ok_0
                == Interrupt::PauseTorrent(e.torrent_active[id])
            &&& t.kind == DownloadKind::Http && !e.http_active.contains_key(id) ==> r->Ok_0
                == Interrupt::Nothing
            &&& t.kind == DownloadKind::Youtube && !e.youtube_active.contains_key(id) ==> r->Ok_0
                == Interrupt::Nothing
            &&& t.kind == DownloadKind::Torrent && !e.torrent_active.contains_key(id) ==> r->Ok_0
                == Interrupt::Nothing
            &&& after.torrent_active == e.torrent_active
            &&& after.last_speeds == e.last_speeds
            &&& after.config == e.config
        }),
{
}

/// A download that is not there is neither paused nor taken up again, and nothing changes.
pub proof fn nothing_is_done_with_what_is_not_there(
    e: EngineView,
    id: Seq<char>,
    after: EngineView,
    p: Result<Interrupt, EngineError>,
    q: Result<Resume, EngineError>,
)
    requires
        !e.tasks.contains_key(id),
    ensures
        pausing_is(e, id, after, p) ==> p is Err && p->Err_0.text() == "Task not found"@ && after
            == e,
        resuming_is(e, id, after, q) ==> q is Err && q->Err_0.text() == "Task not found"@ && after
            == e,
{
}

proof fn lemma_every_leftover(files: Seq<Seq<char>>, i: int)
    requires
        0 <= i < files.len(),
    ensures
        with_leftovers(files).len() == 3 * files.len(),
        with_leftovers(files)[3 * i] == files[i],
        with_leftovers(files)[3 * i + 1] == files[i] + ".part"@,
        with_leftovers(files)[3 * i + 2] == files[i] + ".ytdl"@,
    decreases files.len(),
{
    let rest = files.drop_last();
    if rest.len() > 0 {
        lemma_every_leftover(rest, if i < rest.len() { i } else { 0 });
    } else {
        assert(with_leftovers(rest).len() == 0);
    }
    if i < rest.len() {
        assert(rest[i] == files[i]);
    }
}

/// Where the files of a download are to be deleted, all are: over HTTP its file, whatever its
/// status; for a video each of its files, and what each is kept in as long as it is not complete;
/// for a torrent each of its files, or the torrent itself with its files where it is at hand.
pub proof fn what_was_written_is_deleted(e: EngineView, id: Seq<char>, r: Removal, i: int)
    requires
        e.tasks.contains_key(id),
        removal_is(e, id, true, r),
    ensures
        ({
            let t = e.tasks[id];
            let deleted = text::texts(r.delete@);
            &&& t.kind == DownloadKind::Http ==> deleted.len() == 1 && deleted[0] == t.output_path
                && deleted.contains(t.output_path)
            &&& t.kind == DownloadKind::Youtube && 0 <= i < t.files.len() ==> deleted.contains(
                t.files[i],
            ) && deleted.contains(t.files[i] + ".part"@) && deleted.contains(
                t.files[i] + ".ytdl"@,
            )
            &&& t.kind == DownloadKind::Torrent && e.torrent_active.contains_key(id)
                ==> r.drop_torrent == Some(e.torrent_active[id])
            &&& t.kind == DownloadKind::Torrent && !e.torrent_active.contains_key(id) && 0 <= i
                < t.files.len() ==> deleted.contains(t.files[i])
        }),
{
    let t = e.tasks[id];
    let deleted = text::texts(r.delete@);
    if t.kind == DownloadKind::Http {
        assert(deleted[0] == t.output_path);
    }
    if t.kind == DownloadKind::Youtube && 0 <= i < t.files.len() {
        lemma_every_leftover(t.files, i);
        assert(deleted[3 * i] == t.files[i]);
        assert(deleted[3 * i + 1] == t.files[i] + ".part"@);
        assert(deleted[3 * i + 2] == t.files[i] + ".ytdl"@);
    }
    if t.kind == DownloadKind::Torrent && !e.torrent_active.contains_key(id) && 0 <= i
        < t.files.len() {
        assert(deleted[i] == t.files[i]);
    }
}

/// Where they are not to be deleted, and where there is no such download, nothing is. All work on
/// the download that is entered is ended, whatever is deleted; and every other download stays.
pub proof fn removing_ends_all_work(
    e: EngineView,
    id: Seq<char>,
    delete_file: bool,
    r: Removal,
    other: Seq<char>,
)
    requires
        removal_is(e, id, delete_file, r),
    ensures
        !delete_file || !e.tasks.contains_key(id) ==> r.delete@.len() == 0,
        e.http_active.contains_key(id) ==> r.cancel_http == Some(e.http_active[id]),
        !e.http_active.contains_key(id) ==> r.cancel_http is None,
        e.youtube_active.contains_key(id) ==> r.cancel_youtube == Some(e.youtube_active[id]),
        !e.youtube_active.contains_key(id) ==> r.cancel_youtube is None,
        e.tasks.contains_key(id) && e.torrent_active.contains_key(id) ==> r.drop_torrent == Some(
            e.torrent_active[id],
        ),
        !e.tasks.contains_key(id) || !e.torrent_active.contains_key(id) ==> r.drop_torrent is None,
        other != id && e.tasks.contains_key(other) ==> removed(e, id).tasks.contains_key(other)
            && removed(e, id).tasks[other] == e.tasks[other],
        removed(e, id).last_speeds == e.last_speeds,
{
    if !delete_file || !e.tasks.contains_key(id) {
        assert(text::texts(r.delete@).len() == 0);
    }
}

/// The file that is opened is the one over HTTP, the last of a video and the only one of a
/// torrent; a video without files and a torrent with none or several is opened as its directory.
pub proof fn the_file_of_a_download_is_opened(t: TaskView, path: Seq<char>)
    ensures
        t.kind == DownloadKind::Http ==> file_of(t) == t.output_path,
        t.kind == DownloadKind::Youtube && t.files.len() >= 1 ==> file_of(t)
            == t.files[t.files.len() - 1],
        t.kind == DownloadKind::Torrent && t.files == seq![path] ==> file_of(t) == path,
        t.kind != DownloadKind::Http && t.files.len() == 0 ==> file_of(t) == t.output_path,
        t.kind == DownloadKind::Torrent && t.files.len() > 1 ==> file_of(t) == t.output_path,
{
}

/// At the start every download is there as it was kept, whatever its kind and its status, with the
/// settings as they are; none is being worked on, and none has been looked at.
pub proof fn every_download_is_there_at_the_start(
    config: ConfigView,
    tasks: Map<Seq<char>, TaskView>,
    id: Seq<char>,
)
    ensures
        ({
            let e = at_start(config, tasks);
            &&& e.config == config
            &&& e.tasks.contains_key(id) <==> tasks.contains_key(id)
            &&& tasks.contains_key(id) ==> e.tasks[id] == tasks[id]
            &&& !e.http_active.contains_key(id) && !e.torrent_active.contains_key(id)
            &&& !e.youtube_active.contains_key(id) && !e.last_speeds.contains_key(id)
        }),
{
}

} // verus!
