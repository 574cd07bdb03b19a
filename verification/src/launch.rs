//! How downloads begin and end.

use vstd::prelude::*;

use crate::engine::{self, Engine, EngineView};
use crate::http::HttpDownloader;
use crate::number::{self, hex_string};
use crate::outside::{self, percent_decode};
use crate::parts;
use crate::paths::{self, file_name, join};
use crate::probe::ProbeResult;
use crate::text::{
    self, chars_of, count_before, find, joined, same_text, starts_with, string_of,
};
use crate::types::{
    copy_parts, DownloadKind, DownloadStatus, DownloadTask, PartInfo, StatusView, TaskView,
    TorrentInfo, TorrentView,
};

verus! {

/// Something that the user is told.
#[derive(Debug, PartialEq, Eq)]
pub struct Notice {
    pub title: String,
    pub body: String,
}

/// What the user is told, as characters: the title and the body.
pub open spec fn told(n: Option<Notice>) -> Option<(Seq<char>, Seq<char>)> {
    match n {
        Some(notice) => Some((notice.title@, notice.body@)),
        None => None,
    }
}

/// What the program is told that shows a notice on the desktop.
pub open spec fn shown_with(title: Seq<char>, body: Seq<char>) -> Seq<Seq<char>> {
    seq!["-a"@, "Panda Downloader"@, "-i"@, "download"@, title, body]
}

impl Notice {
    /// What the program is told that shows a notice on the desktop.
    pub fn send_notification(&self) -> (r: Vec<String>)
        ensures
            text::texts(r@) == shown_with(self.title@, self.body@),
    {
        let mut r: Vec<String> = Vec::new();
        r.push("-a".to_owned());
        r.push("Panda Downloader".to_owned());
        r.push("-i".to_owned());
        r.push("download".to_owned());
        r.push(self.title.clone());
        r.push(self.body.clone());
        assert(text::texts(r@) =~= seq![
            "-a"@,
            "Panda Downloader"@,
            "-i"@,
            "download"@,
            self.title@,
            self.body@,
        ]);
        r
    }
}

/// A download of which nothing is there yet.
pub open spec fn fresh_task(
    id: Seq<char>,
    name: Seq<char>,
    uri: Seq<char>,
    kind: DownloadKind,
    status: StatusView,
    total_bytes: Option<u64>,
    output_path: Seq<char>,
    created_at: u64,
    parts: Seq<PartInfo>,
) -> TaskView {
    TaskView {
        id,
        name,
        uri,
        kind,
        status,
        total_bytes,
        downloaded_bytes: 0,
        uploaded_bytes: 0,
        download_speed: 0,
        upload_speed: 0,
        eta_seconds: None,
        output_path,
        created_at,
        parts,
        torrent_info: None,
        files: seq![],
    }
}

/// The state with a new download.
pub open spec fn entered(e: EngineView, t: TaskView) -> EngineView {
    EngineView { tasks: e.tasks.insert(t.id, t), ..e }
}

/// A video that is new: it waits for its turn, and goes into a directory.
pub open spec fn new_video(
    id: Seq<char>,
    uri: Seq<char>,
    target_dir: Seq<char>,
    now: u64,
) -> TaskView {
    fresh_task(
        id,
        "YouTube Video"@,
        uri,
        DownloadKind::Youtube,
        StatusView::Queued,
        None,
        target_dir,
        now,
        seq![],
    )
}

/// A torrent that is new: it goes into a directory.
pub open spec fn new_torrent(
    id: Seq<char>,
    uri: Seq<char>,
    target_dir: Seq<char>,
    now: u64,
) -> TaskView {
    fresh_task(
        id,
        torrent_title(uri),
        uri,
        DownloadKind::Torrent,
        StatusView::Downloading,
        None,
        target_dir,
        now,
        seq![],
    )
}

/// A file that is new: it is called and as large as the server says.
pub open spec fn new_file(
    id: Seq<char>,
    uri: Seq<char>,
    probe: ProbeResult,
    output_path: Seq<char>,
    parts: Seq<PartInfo>,
    now: u64,
) -> TaskView {
    fresh_task(
        id,
        probe.filename@,
        uri,
        DownloadKind::Http,
        StatusView::Downloading,
        probe.total_bytes,
        output_path,
        now,
        parts,
    )
}

/// The state after the title of a video has been asked for.
pub open spec fn titled(e: EngineView, id: Seq<char>, title: Option<Seq<char>>) -> EngineView {
    match title {
        Some(name) => engine::with_task(e, id, |t: TaskView| TaskView { name, ..t }),
        None => e,
    }
}

/// What a video is shown as.
pub open spec fn title_shown(title: Option<Seq<char>>) -> Seq<char> {
    match title {
        Some(name) => name,
        None => "YouTube Video"@,
    }
}

/// The state after the work on a video has begun for the first time.
pub open spec fn video_begun(e: EngineView, id: Seq<char>, handle: u64) -> EngineView {
    EngineView {
        youtube_active: e.youtube_active.insert(id, handle),
        ..engine::with_task(
            e,
            id,
            |t: TaskView| TaskView { status: StatusView::Downloading, ..t },
        )
    }
}

/// The state after the work on a video has begun again.
pub open spec fn video_taken_up(e: EngineView, id: Seq<char>, handle: u64) -> EngineView {
    EngineView { youtube_active: e.youtube_active.insert(id, handle), ..e }
}

/// The state after a torrent that was not at hand is at work again.
pub open spec fn torrent_taken_up(e: EngineView, id: Seq<char>, handle: u64) -> EngineView {
    EngineView { torrent_active: e.torrent_active.insert(id, handle), ..e }
}

/// The state after the work on a file has begun, for the first time or again.
pub open spec fn file_begun(e: EngineView, id: Seq<char>, handle: u64) -> EngineView {
    EngineView { http_active: e.http_active.insert(id, handle), ..e }
}

/// The state after a torrent could not be taken on.
pub open spec fn torrent_refused(e: EngineView, id: Seq<char>, message: Seq<char>) -> EngineView {
    engine::with_task(e, id, |t: TaskView| TaskView { status: StatusView::Error(message), ..t })
}

fn new_task(
    id: String,
    name: String,
    uri: String,
    kind: DownloadKind,
    status: DownloadStatus,
    total_bytes: Option<u64>,
    output_path: String,
    created_at: u64,
    parts: Vec<PartInfo>,
) -> (r: DownloadTask)
    ensures
        r@ == fresh_task(
            id@,
            name@,
            uri@,
            kind,
            status@,
            total_bytes,
            output_path@,
            created_at,
            parts@,
        ),
{
    let files: Vec<String> = Vec::new();
    assert(text::texts(files@) =~= seq![]);
    DownloadTask {
        id,
        name,
        uri,
        kind,
        status,
        total_bytes,
        downloaded_bytes: 0,
        uploaded_bytes: 0,
        download_speed: 0,
        upload_speed: 0,
        eta_seconds: None,
        output_path,
        created_at,
        parts,
        torrent_info: None,
        files,
    }
}

/// Above this size a file is fetched in parts.
pub const SPLIT_ABOVE: u64 = 1048576;

/// The parts in which a file is fetched: several where the server allows it and the file is
/// large, else one that stands for the whole. A part that is asked for ends with the last byte of
/// the file; one that is not, because the file comes in as one stream, ends with its length.
pub open spec fn planned_parts(
    supports_ranges: bool,
    total: Option<u64>,
    wanted: usize,
) -> Seq<PartInfo> {
    if supports_ranges && total is Some && total->0 > SPLIT_ABOVE {
        parts::cut(total->0, wanted)
    } else {
        seq![
            PartInfo {
                index: 0,
                start: 0,
                end: match total {
                    Some(b) => if supports_ranges && b > 0 {
                        (b - 1) as u64
                    } else {
                        b
                    },
                    None => 0,
                },
                downloaded: 0,
                active: false,
            },
        ]
    }
}

/// The ways to fetch a file over HTTP.
#[derive(Debug, Clone, Copy, PartialEq, Eq, Structural)]
pub enum Transfer {
    /// Part by part.
    Parts,
    /// As one stream.
    Single,
}

/// How a file is fetched: part by part where the server allows it.
pub fn transfer_of(supports_ranges: bool) -> (r: Transfer)
    ensures
        r == if supports_ranges {
            Transfer::Parts
        } else {
            Transfer::Single
        },
{
    if supports_ranges {
        Transfer::Parts
    } else {
        Transfer::Single
    }
}

/// How a file is fetched over HTTP.
#[derive(Debug, PartialEq, Eq)]
pub struct HttpPlan {
    pub parts: Vec<PartInfo>,
    /// The size that the file is given before anything of it is there.
    pub preallocate: Option<u64>,
}

/// How a file is fetched of which the server has said something: in as many parts as the user
/// wants, or else as the settings say.
pub open spec fn plan_is(
    e: EngineView,
    probe: ProbeResult,
    parts_count: Option<usize>,
    plan: HttpPlan,
) -> bool {
    &&& plan.parts@ == planned_parts(
        probe.supports_ranges,
        probe.total_bytes,
        match parts_count {
            Some(n) => n,
            None => e.config.default_parts,
        },
    )
    &&& plan.preallocate == if probe.supports_ranges {
        probe.total_bytes
    } else {
        None
    }
}

/// Whether a part has a size that is a number of 64 bits.
pub open spec fn is_sound(p: PartInfo) -> bool {
    p.start <= p.end && p.end - p.start < u64::MAX
}

/// Whether all parts have a size that is a number of 64 bits.
pub open spec fn all_sound(ps: Seq<PartInfo>) -> bool {
    forall|i: int| 0 <= i < ps.len() ==> is_sound(#[trigger] ps[i])
}

/// A part of which all is there.
pub open spec fn completed_part(p: PartInfo) -> PartInfo {
    PartInfo { downloaded: (p.end - p.start + 1) as u64, active: false, ..p }
}

/// A download over HTTP whose work has ended: it rests if it was cancelled and has failed if
/// there was a failure, with the parts as the work left them; else it is complete.
pub open spec fn http_ended(
    t: TaskView,
    cancelled: bool,
    failure: Option<Seq<char>>,
    final_parts: Seq<PartInfo>,
) -> TaskView {
    if cancelled {
        TaskView { parts: final_parts, status: StatusView::Paused, ..t }
    } else {
        match failure {
            Some(message) => TaskView {
                parts: final_parts,
                status: StatusView::Error(message),
                ..t
            },
            None => TaskView {
                parts: t.parts.map_values(|p: PartInfo| completed_part(p)),
                status: StatusView::Completed,
                downloaded_bytes: match t.total_bytes {
                    Some(total) => total,
                    None => t.downloaded_bytes,
                },
                download_speed: 0,
                eta_seconds: Some(0),
                ..t
            },
        }
    }
}

/// A download of a video whose work has ended.
pub open spec fn youtube_ended(
    t: TaskView,
    cancelled: bool,
    failure: Option<Seq<char>>,
    downloaded: u64,
) -> TaskView {
    if cancelled {
        TaskView { status: StatusView::Paused, ..t }
    } else {
        match failure {
            Some(message) => TaskView { status: StatusView::Error(message), ..t },
            None => TaskView {
                status: StatusView::Completed,
                downloaded_bytes: downloaded,
                ..t
            },
        }
    }
}

/// The state after the work on a file over HTTP has ended.
pub open spec fn after_http_work(
    e: EngineView,
    id: Seq<char>,
    cancelled: bool,
    failure: Option<Seq<char>>,
    final_parts: Seq<PartInfo>,
) -> EngineView {
    EngineView {
        http_active: e.http_active.remove(id),
        ..engine::with_task(
            e,
            id,
            |t: TaskView| http_ended(t, cancelled, failure, final_parts),
        )
    }
}

/// What the user is told when the work on a file over HTTP has ended.
pub open spec fn http_news(
    e: EngineView,
    id: Seq<char>,
    cancelled: bool,
    failed: bool,
) -> Option<(Seq<char>, Seq<char>)> {
    if !cancelled && !failed && e.tasks.contains_key(id) {
        Some(("Download Completed"@, e.tasks[id].name + " finished downloading!"@))
    } else {
        None
    }
}

/// The state after the work on a video has ended.
pub open spec fn after_video_work(
    e: EngineView,
    id: Seq<char>,
    cancelled: bool,
    failure: Option<Seq<char>>,
    downloaded: u64,
) -> EngineView {
    EngineView {
        youtube_active: e.youtube_active.remove(id),
        ..engine::with_task(
            e,
            id,
            |t: TaskView| youtube_ended(t, cancelled, failure, downloaded),
        )
    }
}

/// What the user is told when the work on a video has ended for the first time.
pub open spec fn video_news(
    cancelled: bool,
    failed: bool,
    display_name: Seq<char>,
) -> Option<(Seq<char>, Seq<char>)> {
    if !cancelled && !failed {
        Some(("YouTube Download Complete"@, display_name))
    } else {
        None
    }
}

/// What a torrent is called before it is known: the name in a magnet link, decoded where that
/// can be, or the last component of a path.
pub open spec fn torrent_title(uri: Seq<char>) -> Seq<char> {
    if "magnet:?"@.is_prefix_of(uri) {
        match text::first_at(uri, "&dn="@) {
            Some(i) => {
                let rest = uri.skip(i + 4);
                let name = rest.take(text::before(rest, '&'));
                match outside::percent_decoded(name) {
                    Some(decoded) => decoded,
                    None => name,
                }
            },
            None => "Magnet Download"@,
        }
    } else {
        match paths::file_name_spec(uri) {
            Some(name) => name,
            None => "Torrent Download"@,
        }
    }
}

/// What a torrent is called before it is known.
pub fn initial_torrent_name(uri: &str) -> (r: String)
    ensures
        r@ == torrent_title(uri@),
{
    let cs = chars_of(uri);
    if starts_with(&cs, &chars_of("magnet:?")) {
        let mark = chars_of("&dn=");
        proof {
            reveal_strlit("&dn=");
            text::first_at_is_first(cs@, mark@);
        }
        let n: usize = cs.len();
        match find(&cs, &mark) {
            Some(i) => {
                assert(cs@.subrange(i + 4, n as int) == cs@.skip(i + 4));
                let rest = &cs[i + 4..n];
                let k = count_before(rest, '&');
                assert(rest@.subrange(0, k as int) == rest@.take(k as int));
                let name = string_of(&rest[0..k]);
                match percent_decode(&name) {
                    Some(decoded) => decoded,
                    None => name,
                }
            },
            None => "Magnet Download".to_owned(),
        }
    } else {
        match file_name(uri) {
            Some(name) => name,
            None => "Torrent Download".to_owned(),
        }
    }
}

/// The files of a torrent: those of these names in its directory, or those that were known.
pub open spec fn torrent_files(t: TaskView, names: Option<Seq<Seq<char>>>) -> Seq<Seq<char>> {
    match names {
        Some(ns) => ns.map_values(|n: Seq<char>| paths::join_spec(t.output_path, n)),
        None => t.files,
    }
}

/// Files of these names in a directory.
pub fn files_in(dir: &str, names: &Vec<String>) -> (r: Vec<String>)
    ensures
        text::texts(r@) == text::texts(names@).map_values(
            |n: Seq<char>| paths::join_spec(dir@, n),
        ),
{
    let ghost all = text::texts(names@).map_values(|n: Seq<char>| paths::join_spec(dir@, n));
    let mut r: Vec<String> = Vec::new();
    let mut i: usize = 0;
    while i < names.len()
        invariant
            i <= names@.len(),
            all == text::texts(names@).map_values(|n: Seq<char>| paths::join_spec(dir@, n)),
            text::texts(r@) == all.take(i as int),
        decreases names.len() - i,
    {
        let ghost before = text::texts(r@);
        r.push(join(dir, &names[i]));
        assert(text::texts(r@) =~= before.push(all[i as int]));
        assert(all.take(i + 1) =~= all.take(i as int).push(all[i as int]));
        i += 1;
    }
    assert(all.take(names@.len() as int) =~= all);
    r
}

/// A file that a torrent names. One that only fills up a piece is never written.
#[derive(Debug, PartialEq, Eq)]
pub struct NamedFile {
    pub name: String,
    pub padding: bool,
}

/// The names of the files that are written.
pub open spec fn written_names(files: Seq<NamedFile>) -> Seq<Seq<char>>
    decreases files.len(),
{
    if files.len() == 0 {
        seq![]
    } else if files.last().padding {
        written_names(files.drop_last())
    } else {
        written_names(files.drop_last()).push(files.last().name@)
    }
}

/// The names of the files that are written.
pub fn names_written(files: &Vec<NamedFile>) -> (r: Vec<String>)
    ensures
        text::texts(r@) == written_names(files@),
{
    let mut r: Vec<String> = Vec::new();
    let mut i: usize = 0;
    assert(text::texts(r@) =~= written_names(files@.take(0)));
    while i < files.len()
        invariant
            i <= files@.len(),
            text::texts(r@) == written_names(files@.take(i as int)),
        decreases files.len() - i,
    {
        let ghost before = text::texts(r@);
        assert(files@.take(i + 1).drop_last() =~= files@.take(i as int));
        if !files[i].padding {
            r.push(files[i].name.clone());
            assert(text::texts(r@) =~= before.push(files@[i as int].name@));
        }
        i += 1;
    }
    assert(files@.take(files@.len() as int) =~= files@);
    r
}

/// The files of a download with one more that it has written.
pub open spec fn with_file(files: Seq<Seq<char>>, path: Seq<char>) -> Seq<Seq<char>> {
    if files.contains(path) {
        files
    } else {
        files.push(path)
    }
}

/// The state after the download of a video has written a file.
pub open spec fn after_writing(e: EngineView, id: Seq<char>, path: Seq<char>) -> EngineView {
    engine::with_task(e, id, |t: TaskView| TaskView { files: with_file(t.files, path), ..t })
}

/// A torrent that is at work.
pub open spec fn known_torrent(
    t: TaskView,
    name: Option<Seq<char>>,
    info_hash: Seq<u8>,
    files: Option<Seq<Seq<char>>>,
) -> TaskView {
    TaskView {
        name: match name {
            Some(n) => n,
            None => t.name,
        },
        torrent_info: Some(
            TorrentView {
                info_hash: number::hex(info_hash),
                seeds: 0,
                peers: 0,
                total_pieces: 0,
                finished_pieces: 0,
            },
        ),
        files: torrent_files(t, files),
        ..t
    }
}

/// The state after a new torrent is at work.
pub open spec fn torrent_begun(
    e: EngineView,
    id: Seq<char>,
    name: Option<Seq<char>>,
    info_hash: Seq<u8>,
    files: Option<Seq<Seq<char>>>,
    handle: u64,
) -> EngineView {
    EngineView {
        torrent_active: e.torrent_active.insert(id, handle),
        ..engine::with_task(e, id, |t: TaskView| known_torrent(t, name, info_hash, files))
    }
}

/// Whether a torrent is to be asked for the names of its files: as long as none is known.
pub open spec fn names_are_wanted(e: EngineView, id: Seq<char>) -> bool {
    e.tasks.contains_key(id) && e.tasks[id].files.len() == 0
}

fn note_file(files: &mut Vec<String>, path: String)
    ensures
        text::texts(final(files)@) == with_file(text::texts(old(files)@), path@),
{
    let ghost known = text::texts(files@);
    let mut i: usize = 0;
    while i < files.len()
        invariant
            i <= files@.len(),
            known == text::texts(files@),
            files@ == old(files)@,
            forall|j: int| 0 <= j < i ==> #[trigger] known[j] != path@,
        decreases files.len() - i,
    {
        if same_text(&files[i], &path) {
            assert(known[i as int] == path@);
            return;
        }
        i += 1;
    }
    assert(!known.contains(path@));
    files.push(path);
    assert(text::texts(files@) =~= known.push(path@));
}

fn complete_parts(ps: &mut Vec<PartInfo>)
    requires
        all_sound(old(ps)@),
    ensures
        final(ps)@ == old(ps)@.map_values(|p: PartInfo| completed_part(p)),
{
    let ghost before = ps@;
    let n: usize = ps.len();
    let mut i: usize = 0;
    while i < n
        invariant
            i <= n,
            n == before.len(),
            ps@.len() == n,
            all_sound(before),
            forall|j: int| 0 <= j < i ==> ps@[j] == completed_part(#[trigger] before[j]),
            forall|j: int| i <= j < n ==> #[trigger] ps@[j] == before[j],
        decreases n - i,
    {
        let p = ps[i];
        assert(is_sound(before[i as int]));
        ps.set(i, PartInfo { downloaded: p.end - p.start + 1, active: false, ..p });
        i += 1;
    }
    assert(ps@ =~= before.map_values(|p: PartInfo| completed_part(p)));
}

impl Engine {
    /// Enters a video, which waits for its turn.
    pub fn start_youtube_download(
        &mut self,
        id: String,
        uri: String,
        target_dir: String,
        now: u64,
    )
        requires
            old(self).wf(),
        ensures
            final(self).wf(),
            final(self)@ == entered(old(self)@, new_video(id@, uri@, target_dir@, now)),
    {
        let key = id.clone();
        let parts: Vec<PartInfo> = Vec::new();
        assert(parts@ =~= seq![]);
        let task = new_task(
            id,
            "YouTube Video".to_owned(),
            uri,
            DownloadKind::Youtube,
            DownloadStatus::Queued,
            None,
            target_dir,
            now,
            parts,
        );
        self.tasks.insert(key, task);
    }

    /// The title of a video has been asked for: the download is called by it. Gives what the
    /// user is shown.
    pub fn youtube_titled(&mut self, id: &str, title: Option<String>) -> (r: String)
        requires
            old(self).wf(),
        ensures
            final(self).wf(),
            r@ == title_shown(text::opt_text(title)),
            final(self)@ == titled(old(self)@, id@, text::opt_text(title)),
            title is None ==> *final(self) == *old(self),
    {
        match title {
            Some(name) => {
                if let Some(task) = self.tasks.get_mut(id) {
                    task.name = name.clone();
                }
                name
            },
            None => "YouTube Video".to_owned(),
        }
    }

    /// The work on a video begins, for the first time.
    pub fn youtube_started(&mut self, id: &str, handle: u64)
        requires
            old(self).wf(),
        ensures
            final(self).wf(),
            final(self)@ == video_begun(old(self)@, id@, handle),
    {
        if let Some(task) = self.tasks.get_mut(id) {
            task.status = DownloadStatus::Downloading;
        }
        self.youtube_active.insert(id.to_owned(), handle);
    }

    /// The work on a video begins again.
    pub fn resume_youtube_download(&mut self, id: &str, handle: u64)
        requires
            old(self).wf(),
        ensures
            final(self).wf(),
            final(self)@ == video_taken_up(old(self)@, id@, handle),
    {
        self.youtube_active.insert(id.to_owned(), handle);
    }

    /// The work on a video has ended.
    pub fn youtube_finished(
        &mut self,
        id: &str,
        cancelled: bool,
        failure: Option<String>,
        downloaded: u64,
    )
        requires
            old(self).wf(),
        ensures
            final(self).wf(),
            final(self)@ == after_video_work(
                old(self)@,
                id@,
                cancelled,
                text::opt_text(failure),
                downloaded,
            ),
    {
        let _ = self.youtube_active.remove(id);
        if let Some(task) = self.tasks.get_mut(id) {
            if cancelled {
                task.status = DownloadStatus::Paused;
            } else {
                match failure {
                    Some(message) => {
                        task.status = DownloadStatus::Error(message);
                    },
                    None => {
                        task.status = DownloadStatus::Completed;
                        task.downloaded_bytes = downloaded;
                    },
                }
            }
        }
    }

    /// The download of a video has written a file.
    pub fn youtube_wrote(&mut self, id: &str, path: String)
        requires
            old(self).wf(),
        ensures
            final(self).wf(),
            final(self)@ == after_writing(old(self)@, id@, path@),
    {
        if let Some(task) = self.tasks.get_mut(id) {
            note_file(&mut task.files, path);
        }
    }

    /// Enters a torrent.
    pub fn start_torrent_download(
        &mut self,
        id: String,
        uri: String,
        target_dir: String,
        now: u64,
    )
        requires
            old(self).wf(),
        ensures
            final(self).wf(),
            final(self)@ == entered(old(self)@, new_torrent(id@, uri@, target_dir@, now)),
    {
        let key = id.clone();
        let name = initial_torrent_name(&uri);
        let parts: Vec<PartInfo> = Vec::new();
        assert(parts@ =~= seq![]);
        let task = new_task(
            id,
            name,
            uri,
            DownloadKind::Torrent,
            DownloadStatus::Downloading,
            None,
            target_dir,
            now,
            parts,
        );
        self.tasks.insert(key, task);
    }

    /// A new torrent is at work: it is known by its hash, and by its name and the names of its
    /// files if it has them.
    pub fn torrent_added(
        &mut self,
        id: &str,
        name: Option<String>,
        info_hash: &[u8],
        files: Option<Vec<String>>,
        handle: u64,
    )
        requires
            old(self).wf(),
        ensures
            final(self).wf(),
            final(self)@ == torrent_begun(
                old(self)@,
                id@,
                text::opt_text(name),
                info_hash@,
                text::opt_texts(files),
                handle,
            ),
    {
        if let Some(task) = self.tasks.get_mut(id) {
            if let Some(n) = name {
                task.name = n;
            }
            task.torrent_info = Some(
                TorrentInfo {
                    info_hash: hex_string(info_hash),
                    seeds: 0,
                    peers: 0,
                    total_pieces: 0,
                    finished_pieces: 0,
                },
            );
            if let Some(names) = files {
                task.files = files_in(&task.output_path, &names);
            }
        }
        self.torrent_active.insert(id.to_owned(), handle);
    }

    /// Whether a torrent is to be asked for the names of its files: as long as none is known.
    pub fn wants_file_names(&self, id: &str) -> (r: bool)
        requires
            self.wf(),
        ensures
            r == names_are_wanted(self@, id@),
    {
        match self.tasks.get(id) {
            Some(task) => task.files.len() == 0,
            None => false,
        }
    }

    /// A torrent could not be taken on.
    pub fn torrent_failed(&mut self, id: &str, message: String)
        requires
            old(self).wf(),
        ensures
            final(self).wf(),
            final(self)@ == torrent_refused(old(self)@, id@, message@),
    {
        if let Some(task) = self.tasks.get_mut(id) {
            task.status = DownloadStatus::Error(message);
        }
    }

    /// A torrent that was not at hand is at work again.
    pub fn torrent_resumed(&mut self, id: &str, handle: u64)
        requires
            old(self).wf(),
        ensures
            final(self).wf(),
            final(self)@ == torrent_taken_up(old(self)@, id@, handle),
    {
        self.torrent_active.insert(id.to_owned(), handle);
    }

    /// How a file is fetched of which the server has said something.
    pub fn plan_http_download(&self, probe: &ProbeResult, parts_count: Option<usize>) -> (r:
        HttpPlan)
        ensures
            plan_is(self@, *probe, parts_count, r),
    {
        let wanted: usize = match parts_count {
            Some(n) => n,
            None => self.config.default_parts,
        };
        let preallocate = if probe.supports_ranges {
            probe.total_bytes
        } else {
            None
        };
        if probe.supports_ranges {
            if let Some(total) = probe.total_bytes {
                if total > SPLIT_ABOVE {
                    let parts = HttpDownloader::create_parts(total, wanted);
                    return HttpPlan { parts, preallocate };
                }
            }
        }
        let end: u64 = match probe.total_bytes {
            Some(b) => if probe.supports_ranges && b > 0 {
                b - 1
            } else {
                b
            },
            None => 0,
        };
        let mut parts: Vec<PartInfo> = Vec::new();
        parts.push(PartInfo { index: 0, start: 0, end, downloaded: 0, active: false });
        assert(parts@ =~= planned_parts(probe.supports_ranges, probe.total_bytes, wanted));
        HttpPlan { parts, preallocate }
    }

    /// Enters a file that is fetched over HTTP.
    pub fn start_http_download_new(
        &mut self,
        id: String,
        uri: &str,
        probe: &ProbeResult,
        output_path: String,
        parts: &Vec<PartInfo>,
        now: u64,
    )
        requires
            old(self).wf(),
        ensures
            final(self).wf(),
            final(self)@ == entered(
                old(self)@,
                new_file(id@, uri@, *probe, output_path@, parts@, now),
            ),
    {
        let key = id.clone();
        let task = new_task(
            id,
            probe.filename.clone(),
            uri.to_owned(),
            DownloadKind::Http,
            DownloadStatus::Downloading,
            probe.total_bytes,
            output_path,
            now,
            copy_parts(parts),
        );
        self.tasks.insert(key, task);
    }

    /// The work on a file begins, for the first time or again.
    pub fn launch_http_download(&mut self, id: &str, handle: u64)
        requires
            old(self).wf(),
        ensures
            final(self).wf(),
            final(self)@ == file_begun(old(self)@, id@, handle),
    {
        self.http_active.insert(id.to_owned(), handle);
    }

    /// Whether the download can be counted as complete.
    pub open spec fn spec_can_complete(self, id: Seq<char>) -> bool {
        self@.tasks.contains_key(id) ==> all_sound(self@.tasks[id].parts)
    }

    /// Whether the download can be counted as complete: the sizes of its parts are numbers of
    /// 64 bits.
    pub fn can_complete(&self, id: &str) -> (r: bool)
        requires
            self.wf(),
        ensures
            r == self.spec_can_complete(id@),
    {
        match self.tasks.get(id) {
            Some(task) => {
                let n: usize = task.parts.len();
                let mut i: usize = 0;
                while i < n
                    invariant
                        i <= n,
                        n == task.parts@.len(),
                        self@.tasks.contains_key(id@),
                        task@ == self@.tasks[id@],
                        forall|j: int| 0 <= j < i ==> is_sound(#[trigger] task.parts@[j]),
                    decreases n - i,
                {
                    let p = task.parts[i];
                    if p.start > p.end || p.end - p.start == u64::MAX {
                        assert(!is_sound(task.parts@[i as int]));
                        return false;
                    }
                    i += 1;
                }
                true
            },
            None => true,
        }
    }

    /// The work on a file has ended. Gives what the user is told.
    pub fn http_finished(
        &mut self,
        id: &str,
        cancelled: bool,
        failure: Option<String>,
        final_parts: Vec<PartInfo>,
    ) -> (r: Option<Notice>)
        requires
            old(self).wf(),
            !cancelled && failure is None ==> old(self).spec_can_complete(id@),
        ensures
            final(self).wf(),
            final(self)@ == after_http_work(
                old(self)@,
                id@,
                cancelled,
                text::opt_text(failure),
                final_parts@,
            ),
            told(r) == http_news(old(self)@, id@, cancelled, failure is Some),
    {
        let _ = self.http_active.remove(id);
        match self.tasks.get_mut(id) {
            Some(task) => {
                if cancelled {
                    task.parts = final_parts;
                    task.status = DownloadStatus::Paused;
                    return None;
                }
                match failure {
                    Some(message) => {
                        task.parts = final_parts;
                        task.status = DownloadStatus::Error(message);
                        None
                    },
                    None => {
                        complete_parts(&mut task.parts);
                        task.status = DownloadStatus::Completed;
                        if let Some(total) = task.total_bytes {
                            task.downloaded_bytes = total;
                        }
                        task.download_speed = 0;
                        task.eta_seconds = Some(0);
                        Some(
                            Notice {
                                title: "Download Completed".to_owned(),
                                body: joined(&task.name, " finished downloading!"),
                            },
                        )
                    },
                }
            },
            None => None,
        }
    }
}

/// What the user is told when the work on a video has ended for the first time.
pub fn youtube_notice(cancelled: bool, failed: bool, display_name: String) -> (r: Option<Notice>)
    ensures
        told(r) == video_news(cancelled, failed, display_name@),
{
    if !cancelled && !failed {
        Some(Notice { title: "YouTube Download Complete".to_owned(), body: display_name })
    } else {
        None
    }
}

/// A file of more than 1048576 bytes, however large, of which the server gives parts is fetched in
/// as many parts as the user wants, or else as the settings say, but at least one and at most 64:
/// all of the same size, one behind the other, but for the last, which goes to the end.
pub proof fn a_large_file_is_fetched_in_the_wanted_parts(
    e: EngineView,
    probe: ProbeResult,
    parts_count: Option<usize>,
    plan: HttpPlan,
    total: u64,
    i: int,
)
    requires
        plan_is(e, probe, parts_count, plan),
        probe.supports_ranges,
        probe.total_bytes == Some(total),
        total > 1048576,
        0 <= i < plan.parts@.len(),
    ensures
        ({
            let wanted: int = if parts_count is Some {
                parts_count->0 as int
            } else {
                e.config.default_parts as int
            };
            let count: int = if wanted < 1 {
                1
            } else if wanted > 64 {
                64
            } else {
                wanted
            };
            let size = total as int / count;
            let p = plan.parts@[i];
            &&& plan.parts@.len() == count
            &&& p.index == i
            &&& p.start == i * size
            &&& i < count - 1 ==> p.end == i * size + size - 1
            &&& i == count - 1 ==> p.end == total - 1
            &&& p.downloaded == 0 && !p.active
            &&& plan.preallocate == Some(total)
        }),
{
    let wanted: usize = match parts_count {
        Some(n) => n,
        None => e.config.default_parts,
    };
    parts::cutting_gives_the_wanted_parts(total, wanted, i);
}

/// There is always a part, and more than one where more than one is wanted of a file of more than
/// 1048576 bytes of which the server gives parts: so work on it that was paused goes on by parts.
pub proof fn several_parts_stay_several(
    e: EngineView,
    probe: ProbeResult,
    parts_count: Option<usize>,
    plan: HttpPlan,
)
    requires
        plan_is(e, probe, parts_count, plan),
    ensures
        1 <= plan.parts@.len() <= 64,
        probe.supports_ranges && probe.total_bytes is Some && probe.total_bytes->0 > 1048576 && (if
        parts_count is Some {
            parts_count->0
        } else {
            e.config.default_parts
        }) > 1 ==> plan.parts@.len() > 1,
{
}

/// Any other file is fetched in one part from its first byte on: to its last, where the server
/// gives parts and the length is known, or else to its length.
pub proof fn any_other_file_is_one_part(
    e: EngineView,
    probe: ProbeResult,
    parts_count: Option<usize>,
    plan: HttpPlan,
)
    requires
        plan_is(e, probe, parts_count, plan),
        !probe.supports_ranges || probe.total_bytes is None || probe.total_bytes->0 <= 1048576,
    ensures
        plan.parts@.len() == 1,
        ({
            let p = plan.parts@[0];
            &&& p.index == 0 && p.start == 0 && p.downloaded == 0 && !p.active
            &&& probe.total_bytes is None ==> p.end == 0
            &&& probe.total_bytes is Some && probe.supports_ranges && probe.total_bytes->0 > 0
                ==> p.end + 1 == probe.total_bytes->0
            &&& probe.total_bytes is Some && !probe.supports_ranges ==> p.end
                == probe.total_bytes->0
            &&& probe.total_bytes == Some(0u64) ==> p.end == 0
        }),
        plan.preallocate == if probe.supports_ranges {
            probe.total_bytes
        } else {
            None
        },
{
}

/// A new download has its name, its link, its place and the time at which it was added, whatever
/// they are, and nothing of it is there: a video waits, a torrent and a file are being fetched; a
/// file is called and as large as the server says, and comes in the parts that were planned.
pub proof fn a_new_download_is_what_was_asked_for(
    id: Seq<char>,
    uri: Seq<char>,
    place: Seq<char>,
    now: u64,
    probe: ProbeResult,
    ps: Seq<PartInfo>,
)
    ensures
        ({
            let v = new_video(id, uri, place, now);
            let t = new_torrent(id, uri, place, now);
            let f = new_file(id, uri, probe, place, ps, now);
            &&& v.id == id && t.id == id && f.id == id
            &&& v.uri == uri && t.uri == uri && f.uri == uri
            &&& v.output_path == place && t.output_path == place && f.output_path == place
            &&& v.created_at == now && t.created_at == now && f.created_at == now
            &&& v.kind == DownloadKind::Youtube && t.kind == DownloadKind::Torrent && f.kind
                == DownloadKind::Http
            &&& v.status == StatusView::Queued && t.status == StatusView::Downloading && f.status
                == StatusView::Downloading
            &&& v.name == "YouTube Video"@ && t.name == torrent_title(uri) && f.name
                == probe.filename@
            &&& v.total_bytes is None && t.total_bytes is None && f.total_bytes
                == probe.total_bytes
            &&& v.parts.len() == 0 && t.parts.len() == 0 && f.parts == ps
            &&& nothing_is_there(v) && nothing_is_there(t) && nothing_is_there(f)
        }),
{
}

/// Nothing of a download is there, and it does not move.
pub open spec fn nothing_is_there(t: TaskView) -> bool {
    &&& t.downloaded_bytes == 0 && t.uploaded_bytes == 0
    &&& t.download_speed == 0 && t.upload_speed == 0
    &&& t.eta_seconds is None && t.torrent_info is None && t.files.len() == 0
}

/// Work on a file that has ended leaves its download resting where it was cancelled, failed with
/// the reason where there was one, and else complete: all its bytes counted, each part full. The
/// parts of one that is not complete are as the work left them; all else of it is kept.
pub proof fn work_on_a_file_ends_in_one_of_three_ways(
    e: EngineView,
    id: Seq<char>,
    cancelled: bool,
    failure: Option<Seq<char>>,
    final_parts: Seq<PartInfo>,
    i: int,
)
    requires
        e.tasks.contains_key(id),
    ensures
        ({
            let t = e.tasks[id];
            let after = after_http_work(e, id, cancelled, failure, final_parts);
            let u = after.tasks[id];
            let news = http_news(e, id, cancelled, failure is Some);
            &&& !after.http_active.contains_key(id)
            &&& u.id == t.id && u.name == t.name && u.uri == t.uri && u.kind == t.kind
            &&& u.total_bytes == t.total_bytes && u.output_path == t.output_path && u.created_at
                == t.created_at && u.files == t.files && u.torrent_info == t.torrent_info
            &&& u.uploaded_bytes == t.uploaded_bytes && u.upload_speed == t.upload_speed
            &&& cancelled ==> u.status == StatusView::Paused
            &&& !cancelled && failure is Some ==> u.status == StatusView::Error(failure->0)
            &&& cancelled || failure is Some ==> news is None && u.parts == final_parts
                && u.downloaded_bytes == t.downloaded_bytes && u.download_speed
                == t.download_speed && u.eta_seconds == t.eta_seconds
            &&& !cancelled && failure is None ==> {
                &&& u.status == StatusView::Completed
                &&& u.parts.len() == t.parts.len()
                &&& u.download_speed == 0
                &&& u.eta_seconds == Some(0u64)
                &&& t.total_bytes is Some ==> u.downloaded_bytes == t.total_bytes->0
                &&& t.total_bytes is None ==> u.downloaded_bytes == t.downloaded_bytes
                &&& news == Some(("Download Completed"@, t.name + " finished downloading!"@))
                &&& 0 <= i < t.parts.len() && is_sound(t.parts[i]) ==> u.parts[i].downloaded
                    == t.parts[i].end - t.parts[i].start + 1 && !u.parts[i].active
                    && u.parts[i].start == t.parts[i].start && u.parts[i].end == t.parts[i].end
                    && u.parts[i].index == t.parts[i].index
            }
        }),
{
}

/// A part has a size that can be counted unless it ends before it begins or is as large as 64 bits
/// allow.
pub proof fn every_other_size_can_be_counted(p: PartInfo)
    ensures
        is_sound(p) <==> p.start <= p.end && p.end - p.start + 1 <= 0xffff_ffff_ffff_ffff,
{
}

/// Work on a video that has ended leaves its download resting where it was cancelled, failed with
/// the reason where there was one, and else complete, with the bytes that came in; all else of it
/// is kept.
pub proof fn work_on_a_video_ends_in_one_of_three_ways(
    e: EngineView,
    id: Seq<char>,
    cancelled: bool,
    failure: Option<Seq<char>>,
    downloaded: u64,
    name: Seq<char>,
)
    requires
        e.tasks.contains_key(id),
    ensures
        ({
            let t = e.tasks[id];
            let after = after_video_work(e, id, cancelled, failure, downloaded);
            let u = after.tasks[id];
            let news = video_news(cancelled, failure is Some, name);
            &&& !after.youtube_active.contains_key(id)
            &&& engine::same_but_status_and_speed(
                TaskView { downloaded_bytes: 0, ..t },
                TaskView { downloaded_bytes: 0, ..u },
            )
            &&& u.download_speed == t.download_speed
            &&& cancelled ==> u.status == StatusView::Paused
            &&& !cancelled && failure is Some ==> u.status == StatusView::Error(failure->0)
            &&& cancelled || failure is Some ==> u.downloaded_bytes == t.downloaded_bytes
                && news is None
            &&& !cancelled && failure is None ==> u.status == StatusView::Completed
                && u.downloaded_bytes == downloaded && news == Some(
                ("YouTube Download Complete"@, name),
            )
        }),
{
}

/// Where work on a download begins, the work is entered under the handle that it has, whatever
/// handle that is, in the book of its kind, and nothing else changes but that a video which waited
/// is being fetched.
pub proof fn work_is_entered_where_it_begins(e: EngineView, id: Seq<char>, handle: u64)
    ensures
        ({
            let v = video_begun(e, id, handle);
            let w = video_taken_up(e, id, handle);
            let t = torrent_taken_up(e, id, handle);
            let f = file_begun(e, id, handle);
            &&& v.youtube_active == e.youtube_active.insert(id, handle)
            &&& w.youtube_active == e.youtube_active.insert(id, handle)
            &&& t.torrent_active == e.torrent_active.insert(id, handle)
            &&& f.http_active == e.http_active.insert(id, handle)
            &&& v.http_active == e.http_active && v.torrent_active == e.torrent_active
            &&& w.http_active == e.http_active && w.torrent_active == e.torrent_active
            &&& t.http_active == e.http_active && t.youtube_active == e.youtube_active
            &&& f.youtube_active == e.youtube_active && f.torrent_active == e.torrent_active
            &&& w.tasks == e.tasks && t.tasks == e.tasks && f.tasks == e.tasks
            &&& v.tasks.dom() == e.tasks.dom()
            &&& e.tasks.contains_key(id) ==> v.tasks[id].status == StatusView::Downloading
                && engine::same_but_status_and_speed(v.tasks[id], e.tasks[id])
                && v.tasks[id].download_speed == e.tasks[id].download_speed
        }),
{
    assert(video_begun(e, id, handle).tasks.dom() =~= e.tasks.dom());
}

/// A video is called and shown by its title, where it has one, whatever it was called before; else
/// it stays what it was called and is shown under a fixed name.
pub proof fn a_video_is_called_by_its_title(e: EngineView, id: Seq<char>, name: Seq<char>)
    requires
        e.tasks.contains_key(id),
    ensures
        titled(e, id, Some(name)).tasks[id].name == name,
        titled(e, id, Some(name)).tasks[id].status == e.tasks[id].status,
        engine::same_but_status_and_speed(
            TaskView { name: e.tasks[id].name, ..titled(e, id, Some(name)).tasks[id] },
            e.tasks[id],
        ),
        titled(e, id, None) == e,
        title_shown(Some(name)) == name,
        title_shown(None) == "YouTube Video"@,
{
}

/// A torrent that could not be taken on has failed, with the reason, whatever it is; all else of
/// it is kept.
pub proof fn a_torrent_that_is_refused_has_failed(e: EngineView, id: Seq<char>, message: Seq<char>)
    requires
        e.tasks.contains_key(id),
    ensures
        ({
            let u = torrent_refused(e, id, message).tasks[id];
            &&& u.status == StatusView::Error(message)
            &&& engine::same_but_status_and_speed(u, e.tasks[id])
            &&& u.download_speed == e.tasks[id].download_speed
        }),
{
}

/// A torrent that is at work is known by its hash, byte for byte, and by its name and its files
/// where it has them; and its work is entered. What it has not, and all else, is kept.
pub proof fn a_torrent_is_known_by_its_hash(
    e: EngineView,
    id: Seq<char>,
    name: Option<Seq<char>>,
    info_hash: Seq<u8>,
    files: Option<Seq<Seq<char>>>,
    handle: u64,
    i: int,
)
    requires
        e.tasks.contains_key(id),
    ensures
        ({
            let t = e.tasks[id];
            let after = torrent_begun(e, id, name, info_hash, files, handle);
            let u = after.tasks[id];
            &&& after.torrent_active.contains_key(id) && after.torrent_active[id] == handle
            &&& u.torrent_info is Some && u.torrent_info->0.info_hash == number::hex(info_hash)
            &&& u.torrent_info->0.seeds == 0 && u.torrent_info->0.peers == 0
            &&& u.torrent_info->0.total_pieces == 0 && u.torrent_info->0.finished_pieces == 0
            &&& name is Some ==> u.name == name->0
            &&& name is None ==> u.name == t.name
            &&& files is None ==> u.files == t.files
            &&& files is Some ==> u.files.len() == files->0.len()
            &&& files is Some && 0 <= i < files->0.len() ==> u.files[i] == paths::join_spec(
                t.output_path,
                files->0[i],
            )
            &&& u.status == t.status && u.id == t.id && u.uri == t.uri && u.kind == t.kind
            &&& u.output_path == t.output_path && u.created_at == t.created_at && u.parts
                == t.parts && u.total_bytes == t.total_bytes && u.downloaded_bytes
                == t.downloaded_bytes && u.uploaded_bytes == t.uploaded_bytes && u.download_speed
                == t.download_speed && u.upload_speed == t.upload_speed && u.eta_seconds
                == t.eta_seconds
        }),
{
}

/// The names of the files of a torrent are asked for exactly as long as no file is known.
pub proof fn names_are_wanted_until_they_are_known(e: EngineView, id: Seq<char>, f: Seq<char>)
    ensures
        e.tasks.contains_key(id) && e.tasks[id].files == Seq::<Seq<char>>::empty()
            ==> names_are_wanted(e, id),
        e.tasks.contains_key(id) && e.tasks[id].files.contains(f) ==> !names_are_wanted(e, id),
        !e.tasks.contains_key(id) ==> !names_are_wanted(e, id),
{
}

/// A magnet link is called by the name that it gives, to the next ampersand or to its end, of
/// whatever length, decoded where that can be; one without a name has a fixed one.
pub proof fn a_magnet_link_gives_its_name(a: Seq<char>, name: Seq<char>, rest: Seq<char>)
    requires
        !text::occurs("magnet:?"@ + a + "&dn="@.drop_last(), "&dn="@),
        forall|i: int| 0 <= i < name.len() ==> #[trigger] name[i] != '&',
    ensures
        ({
            let front = "magnet:?"@ + a + "&dn="@;
            let shown = if outside::percent_decoded(name) is Some {
                outside::percent_decoded(name)->0
            } else {
                name
            };
            &&& torrent_title(front + name) == shown
            &&& torrent_title(front + name.push('&') + rest) == shown
        }),
{
    reveal_strlit("magnet:?");
    reveal_strlit("&dn=");
    let m = "magnet:?"@;
    let mark = "&dn="@;
    let head = m + a;
    let front = head + mark;
    let short = front + name;
    let long = front + name.push('&') + rest;
    lemma_first_mark(head, name);
    lemma_first_mark(head, name.push('&') + rest);
    assert(short =~= head + mark + name);
    assert(long =~= head + mark + (name.push('&') + rest));
    assert(short.subrange(0, 8) =~= m);
    assert(long.subrange(0, 8) =~= m);
    let k = head.len() as int;
    assert(short.skip(k + 4) =~= name);
    assert(long.skip(k + 4) =~= name.push('&') + rest);
    text::counting_before_a_character(name, '&', rest);
    assert(name.take(name.len() as int) =~= name);
    assert((name.push('&') + rest).take(name.len() as int) =~= name);
}

proof fn lemma_first_mark(head: Seq<char>, tail: Seq<char>)
    requires
        !text::occurs(head + "&dn="@.drop_last(), "&dn="@),
    ensures
        text::first_at(head + "&dn="@ + tail, "&dn="@) == Some(head.len() as int),
{
    let mark = "&dn="@;
    let s = head + mark + tail;
    text::a_text_occurs_where_it_was_put(head, mark, tail);
    text::first_at_is_first(s, mark);
    let k = text::first_at(s, mark)->0;
    if k < head.len() {
        let shorter = head + mark.drop_last();
        text::occurring_is_having_the_characters(s, mark, k);
        assert forall|j: int| 0 <= j < mark.len() implies shorter[k + j] == #[trigger] mark[j] by {
            assert(s[k + j] == mark[j]);
        }
        text::occurring_is_having_the_characters(shorter, mark, k);
        assert(text::occurs_at(shorter, mark, k));
    }
}

/// A magnet link without a name has a fixed one. Anything else is called as its file is, or has a
/// fixed name where it names no file.
pub proof fn other_torrents_are_called_as_their_files(
    b: Seq<char>,
    dir: Seq<char>,
    name: Seq<char>,
)
    requires
        name.len() > 0,
        forall|i: int| 0 <= i < name.len() ==> #[trigger] name[i] != '/',
        name != seq!['.'],
        name != seq!['.', '.'],
    ensures
        !text::occurs("magnet:?"@ + b, "&dn="@) ==> torrent_title("magnet:?"@ + b)
            == "Magnet Download"@,
        !"magnet:?"@.is_prefix_of(dir.push('/') + name) ==> torrent_title(dir.push('/') + name)
            == name,
        !"magnet:?"@.is_prefix_of(name) ==> torrent_title(name) == name,
        paths::file_name_spec(b) is None && !"magnet:?"@.is_prefix_of(b) ==> torrent_title(b)
            == "Torrent Download"@,
{
    let m = "magnet:?"@;
    assert((m + b).subrange(0, m.len() as int) =~= m);
    text::first_at_is_first(m + b, "&dn="@);
    if !text::occurs(m + b, "&dn="@) && text::first_at(m + b, "&dn="@) is Some {
        assert(text::occurs_at(m + b, "&dn="@, text::first_at(m + b, "&dn="@)->0));
    }
    paths::the_file_name_follows_the_last_slash(dir, name);
}

/// Of the files that a torrent names all are written, in their order, but those that only fill up
/// a piece.
pub proof fn all_but_padding_is_written(files: Seq<NamedFile>, f: NamedFile)
    ensures
        written_names(Seq::<NamedFile>::empty()).len() == 0,
        f.padding ==> written_names(files.push(f)) == written_names(files),
        !f.padding ==> written_names(files.push(f)) == written_names(files).push(f.name@),
{
    assert(files.push(f).drop_last() =~= files);
}

/// A file that a video has written is noted once, behind those that are known, and all else of the
/// video is kept.
pub proof fn a_written_file_is_noted_once(e: EngineView, id: Seq<char>, path: Seq<char>)
    requires
        e.tasks.contains_key(id),
    ensures
        ({
            let t = e.tasks[id];
            let u = after_writing(e, id, path).tasks[id];
            &&& t.files.contains(path) ==> u == t
            &&& !t.files.contains(path) ==> u.files.len() == t.files.len() + 1 && u.files.last()
                == path && u.files.drop_last() == t.files
            &&& TaskView { files: t.files, ..u } == t
            &&& after_writing(after_writing(e, id, path), id, path) == after_writing(e, id, path)
        }),
{
    let t = e.tasks[id];
    let once = after_writing(e, id, path);
    let u = once.tasks[id];
    if !t.files.contains(path) {
        assert(u.files[t.files.len() as int] == path);
        assert(u.files.drop_last() =~= t.files);
    }
    assert(u.files.contains(path));
    let twice = after_writing(once, id, path);
    assert(twice.tasks =~= once.tasks);
}

/// A notice is shown in the name of the program, with its title and then its body, whatever they
/// are.
pub proof fn a_notice_is_shown_as_it_is(title: Seq<char>, body: Seq<char>)
    ensures
        ({
            let args = shown_with(title, body);
            &&& args.len() == 6
            &&& args[0] == "-a"@ && args[1] == "Panda Downloader"@
            &&& args[2] == "-i"@ && args[3] == "download"@
            &&& args[4] == title && args[5] == body
        }),
{
}

/// Parts can be counted where each of them can, however many there are; a download can be counted
/// as complete where its parts can, and one that is not there in any case.
pub proof fn parts_can_be_counted_one_by_one(e: Engine, id: Seq<char>, ps: Seq<PartInfo>, p: PartInfo)
    ensures
        all_sound(Seq::<PartInfo>::empty()),
        all_sound(ps.push(p)) <==> all_sound(ps) && is_sound(p),
        e@.tasks.contains_key(id) ==> (e.spec_can_complete(id) <==> all_sound(e@.tasks[id].parts)),
        !e@.tasks.contains_key(id) ==> e.spec_can_complete(id),
{
    let all = ps.push(p);
    if all_sound(ps) && is_sound(p) {
        assert forall|i: int| 0 <= i < all.len() implies is_sound(#[trigger] all[i]) by {
            if i < ps.len() {
                assert(is_sound(ps[i]));
            }
        }
    }
    if all_sound(all) {
        assert(is_sound(all[ps.len() as int]));
        assert forall|i: int| 0 <= i < ps.len() implies is_sound(#[trigger] ps[i]) by {
            assert(is_sound(all[i]));
        }
    }
}

} // verus!
