//! Looking at the downloads once in a while: how much is there, how fast it comes and how long
//! it will take.

use vstd::prelude::*;

use crate::engine::{self, Engine, EngineView};
use crate::launch::{self, files_in, Notice};
use crate::parts;
use crate::paths;
use crate::text::{self, chars_of, joined, same_text, starts_with};
use crate::types::{copy_parts, DownloadStatus, PartInfo, StatusView, TaskView};

verus! {

/// How many seconds `left` bytes take.
pub open spec fn eta(total: u64, current: u64, speed: u64) -> Option<u64> {
    if speed > 0 && total > current {
        Some(((total - current) as u64 / speed) as u64)
    } else {
        None
    }
}

fn seconds_left(total: u64, current: u64, speed: u64) -> (r: Option<u64>)
    ensures
        r == eta(total, current, speed),
{
    if speed > 0 && total > current {
        Some((total - current) / speed)
    } else {
        None
    }
}

/// A download that moves at a speed: the time left is known where its size is.
pub open spec fn timed(t: TaskView, current: u64, speed: u64) -> TaskView {
    TaskView {
        download_speed: speed,
        eta_seconds: match t.total_bytes {
            Some(total) => eta(total, current, speed),
            None => t.eta_seconds,
        },
        ..t
    }
}

/// What has come in since the download was last looked at.
pub open spec fn gain(last: Option<(u64, u64)>, current: u64) -> u64 {
    let before = match last {
        Some((down, _)) => down,
        None => 0,
    };
    if current > before {
        (current - before) as u64
    } else {
        0
    }
}

/// What has gone out since the download was last looked at.
pub open spec fn gain_up(last: Option<(u64, u64)>, current: u64) -> u64 {
    let before = match last {
        Some((_, up)) => up,
        None => 0,
    };
    if current > before {
        (current - before) as u64
    } else {
        0
    }
}

/// The state after a download has been looked at: it is changed by `f`, and what was seen is
/// noted. What is no download is passed over.
pub open spec fn looked_at(
    e: EngineView,
    id: Seq<char>,
    down: u64,
    up: u64,
    f: spec_fn(TaskView) -> TaskView,
) -> EngineView {
    if e.tasks.contains_key(id) {
        EngineView {
            last_speeds: e.last_speeds.insert(id, (down, up)),
            ..engine::with_task(e, id, f)
        }
    } else {
        e
    }
}

/// What is known of a torrent at work.
#[derive(Debug, Clone, Copy, PartialEq, Eq)]
pub struct TorrentStats {
    pub total_bytes: u64,
    pub progress_bytes: u64,
    pub uploaded_bytes: u64,
    pub finished: bool,
}

/// What was seen of a download over HTTP: its parts, how many bytes of them are there, and how
/// fast it moves.
#[derive(Debug, PartialEq, Eq)]
pub struct HttpSeen {
    pub id: String,
    pub parts: Vec<PartInfo>,
    pub bytes: u64,
    pub speed: u64,
}

/// What was seen of the download of a video: how many bytes are there, and how fast it moves.
#[derive(Debug, PartialEq, Eq)]
pub struct VideoSeen {
    pub id: String,
    pub bytes: u64,
    pub speed: u64,
}

/// What was seen of a torrent: what is known of it, its name and the names of its files where it
/// has them, and how fast it moves both ways.
#[derive(Debug, PartialEq, Eq)]
pub struct TorrentSeen {
    pub id: String,
    pub stats: TorrentStats,
    pub name: Option<String>,
    pub files: Option<Vec<String>>,
    pub down: u64,
    pub up: u64,
}

/// A download over HTTP after it has been looked at.
pub open spec fn http_seen(t: TaskView, s: HttpSeen) -> TaskView {
    timed(TaskView { parts: s.parts@, downloaded_bytes: s.bytes, ..t }, s.bytes, s.speed)
}

/// The download of a video after it has been looked at.
pub open spec fn video_seen(t: TaskView, s: VideoSeen) -> TaskView {
    timed(TaskView { downloaded_bytes: s.bytes, ..t }, s.bytes, s.speed)
}

/// Whether a name stands in for one that is not known yet.
pub open spec fn is_stand_in(name: Seq<char>) -> bool {
    "Torrent_"@.is_prefix_of(name) || name == "Magnet Download"@
}

/// What a torrent is called once it has a name of its own.
pub open spec fn better_name(t: TaskView, name: Option<String>) -> Seq<char> {
    match name {
        Some(n) => if is_stand_in(t.name) {
            n@
        } else {
            t.name
        },
        None => t.name,
    }
}

/// Whether a torrent has come to its end by now.
pub open spec fn comes_to_end(t: TaskView, stats: TorrentStats) -> bool {
    stats.finished && t.status == StatusView::Downloading
}

/// A torrent after it has been looked at.
pub open spec fn torrent_seen(t: TaskView, s: TorrentSeen) -> TaskView {
    TaskView {
        name: better_name(t, s.name),
        status: if comes_to_end(t, s.stats) {
            StatusView::Completed
        } else {
            t.status
        },
        total_bytes: Some(s.stats.total_bytes),
        downloaded_bytes: s.stats.progress_bytes,
        uploaded_bytes: s.stats.uploaded_bytes,
        download_speed: s.down,
        upload_speed: s.up,
        eta_seconds: eta(s.stats.total_bytes, s.stats.progress_bytes, s.down),
        files: launch::torrent_files(t, text::opt_texts(s.files)),
        ..t
    }
}

/// The state after a download over HTTP has been looked at.
pub open spec fn after_http(e: EngineView, s: HttpSeen) -> EngineView {
    looked_at(e, s.id@, s.bytes, 0, |t: TaskView| http_seen(t, s))
}

/// The state after the download of a video has been looked at.
pub open spec fn after_video(e: EngineView, s: VideoSeen) -> EngineView {
    looked_at(e, s.id@, s.bytes, 0, |t: TaskView| video_seen(t, s))
}

/// The state after a torrent has been looked at.
pub open spec fn after_torrent(e: EngineView, s: TorrentSeen) -> EngineView {
    looked_at(
        e,
        s.id@,
        s.stats.progress_bytes,
        s.stats.uploaded_bytes,
        |t: TaskView| torrent_seen(t, s),
    )
}

/// What the user is told when a torrent has been looked at.
pub open spec fn torrent_news(e: EngineView, s: TorrentSeen) -> Option<(Seq<char>, Seq<char>)> {
    if e.tasks.contains_key(s.id@) && comes_to_end(e.tasks[s.id@], s.stats) {
        Some(
            (
                "Torrent Download Complete"@,
                better_name(e.tasks[s.id@], s.name) + " finished downloading!"@,
            ),
        )
    } else {
        None
    }
}

/// The state after downloads over HTTP have been looked at one after the other.
pub open spec fn after_https(e: EngineView, seen: Seq<HttpSeen>) -> EngineView
    decreases seen.len(),
{
    if seen.len() == 0 {
        e
    } else {
        after_http(after_https(e, seen.drop_last()), seen.last())
    }
}

/// The state after downloads of videos have been looked at one after the other.
pub open spec fn after_videos(e: EngineView, seen: Seq<VideoSeen>) -> EngineView
    decreases seen.len(),
{
    if seen.len() == 0 {
        e
    } else {
        after_video(after_videos(e, seen.drop_last()), seen.last())
    }
}

/// The state after torrents have been looked at one after the other.
pub open spec fn after_torrents(e: EngineView, seen: Seq<TorrentSeen>) -> EngineView
    decreases seen.len(),
{
    if seen.len() == 0 {
        e
    } else {
        after_torrent(after_torrents(e, seen.drop_last()), seen.last())
    }
}

/// What the user is told when torrents have been looked at one after the other.
pub open spec fn news(e: EngineView, seen: Seq<TorrentSeen>) -> Seq<(Seq<char>, Seq<char>)>
    decreases seen.len(),
{
    if seen.len() == 0 {
        seq![]
    } else {
        let before = news(e, seen.drop_last());
        match torrent_news(after_torrents(e, seen.drop_last()), seen.last()) {
            Some(n) => before.push(n),
            None => before,
        }
    }
}

/// The state after all downloads have been looked at: those over HTTP, videos, torrents.
pub open spec fn ticked(
    e: EngineView,
    https: Seq<HttpSeen>,
    videos: Seq<VideoSeen>,
    torrents: Seq<TorrentSeen>,
) -> EngineView {
    after_torrents(after_videos(after_https(e, https), videos), torrents)
}

/// What the user is told, as characters.
pub open spec fn told_all(notices: Seq<Notice>) -> Seq<(Seq<char>, Seq<char>)> {
    notices.map_values(|n: Notice| (n.title@, n.body@))
}

/// The number of bytes that was seen is what is there of the parts.
pub open spec fn counts_right(s: HttpSeen) -> bool {
    s.bytes == parts::fetched(s.parts@)
}

impl Engine {
    /// What has come in of a download since it was last looked at.
    pub fn gained(&self, id: &str, current: u64) -> (r: u64)
        requires
            self.wf(),
        ensures
            r == gain(engine::looked_up(self@.last_speeds, id@), current),
    {
        let before: u64 = match self.last_speeds.get(id) {
            Some(last) => last.0,
            None => 0,
        };
        if current > before {
            current - before
        } else {
            0
        }
    }

    /// What has gone out of a download since it was last looked at.
    pub fn gained_up(&self, id: &str, current: u64) -> (r: u64)
        requires
            self.wf(),
        ensures
            r == gain_up(engine::looked_up(self@.last_speeds, id@), current),
    {
        let before: u64 = match self.last_speeds.get(id) {
            Some(last) => last.1,
            None => 0,
        };
        if current > before {
            current - before
        } else {
            0
        }
    }

    /// Notes how much of a download is there and how fast it comes.
    pub fn update_speed(
        &mut self,
        id: &str,
        current_downloaded: u64,
        current_uploaded: u64,
        speed: u64,
    )
        requires
            old(self).wf(),
        ensures
            final(self).wf(),
            final(self)@ == looked_at(
                old(self)@,
                id@,
                current_downloaded,
                current_uploaded,
                |t: TaskView| timed(t, current_downloaded, speed),
            ),
    {
        match self.tasks.get_mut(id) {
            Some(task) => {
                task.download_speed = speed;
                if let Some(total) = task.total_bytes {
                    task.eta_seconds = seconds_left(total, current_downloaded, speed);
                }
            },
            None => {
                return ;
            },
        }
        self.last_speeds.insert(id.to_owned(), (current_downloaded, current_uploaded));
    }

    /// Looks at a download over HTTP.
    pub fn http_tick(&mut self, seen: &HttpSeen)
        requires
            old(self).wf(),
            counts_right(*seen),
        ensures
            final(self).wf(),
            final(self)@ == after_http(old(self)@, *seen),
    {
        if let Some(task) = self.tasks.get_mut(&seen.id) {
            task.parts = copy_parts(&seen.parts);
            task.downloaded_bytes = seen.bytes;
        }
        self.update_speed(&seen.id, seen.bytes, 0, seen.speed);
        assert(old(self)@.tasks.contains_key(seen.id@) ==> self@.tasks =~= after_http(
            old(self)@,
            *seen,
        ).tasks);
    }

    /// Looks at the download of a video.
    pub fn youtube_tick(&mut self, seen: &VideoSeen)
        requires
            old(self).wf(),
        ensures
            final(self).wf(),
            final(self)@ == after_video(old(self)@, *seen),
    {
        if let Some(task) = self.tasks.get_mut(&seen.id) {
            task.downloaded_bytes = seen.bytes;
        }
        self.update_speed(&seen.id, seen.bytes, 0, seen.speed);
        assert(old(self)@.tasks.contains_key(seen.id@) ==> self@.tasks =~= after_video(
            old(self)@,
            *seen,
        ).tasks);
    }

    /// Looks at a torrent. Gives what the user is told.
    pub fn torrent_tick(&mut self, seen: &TorrentSeen) -> (r: Option<Notice>)
        requires
            old(self).wf(),
        ensures
            final(self).wf(),
            final(self)@ == after_torrent(old(self)@, *seen),
            launch::told(r) == torrent_news(old(self)@, *seen),
    {
        let stats = seen.stats;
        let notice = match self.tasks.get_mut(&seen.id) {
            Some(task) => {
                task.total_bytes = Some(stats.total_bytes);
                task.downloaded_bytes = stats.progress_bytes;
                task.uploaded_bytes = stats.uploaded_bytes;
                if let Some(n) = &seen.name {
                    if starts_with(&chars_of(&task.name), &chars_of("Torrent_")) || same_text(
                        &task.name,
                        "Magnet Download",
                    ) {
                        task.name = n.clone();
                    }
                }
                if let Some(names) = &seen.files {
                    task.files = files_in(&task.output_path, names);
                }
                let notice = if stats.finished && task.status.is_downloading() {
                    task.status = DownloadStatus::Completed;
                    Some(
                        Notice {
                            title: "Torrent Download Complete".to_owned(),
                            body: joined(&task.name, " finished downloading!"),
                        },
                    )
                } else {
                    None
                };
                task.download_speed = seen.down;
                task.upload_speed = seen.up;
                task.eta_seconds = seconds_left(
                    stats.total_bytes,
                    stats.progress_bytes,
                    seen.down,
                );
                notice
            },
            None => {
                return None;
            },
        };
        self.last_speeds.insert(seen.id.clone(), (stats.progress_bytes, stats.uploaded_bytes));
        notice
    }

    /// Looks at all downloads that are being worked on. Gives what the user is told.
    pub fn tick(
        &mut self,
        https: &Vec<HttpSeen>,
        videos: &Vec<VideoSeen>,
        torrents: &Vec<TorrentSeen>,
    ) -> (r: Vec<Notice>)
        requires
            old(self).wf(),
            forall|i: int| 0 <= i < https@.len() ==> counts_right(#[trigger] https@[i]),
        ensures
            final(self).wf(),
            final(self)@ == ticked(old(self)@, https@, videos@, torrents@),
            told_all(r@) == news(
                after_videos(after_https(old(self)@, https@), videos@),
                torrents@,
            ),
    {
        let ghost start = self@;
        let mut i: usize = 0;
        while i < https.len()
            invariant
                self.wf(),
                i <= https@.len(),
                forall|j: int| 0 <= j < https@.len() ==> counts_right(#[trigger] https@[j]),
                self@ == after_https(start, https@.take(i as int)),
            decreases https.len() - i,
        {
            assert(https@.take(i + 1).drop_last() =~= https@.take(i as int));
            self.http_tick(&https[i]);
            i += 1;
        }
        assert(https@.take(https@.len() as int) =~= https@);
        let ghost middle = self@;
        i = 0;
        while i < videos.len()
            invariant
                self.wf(),
                i <= videos@.len(),
                self@ == after_videos(middle, videos@.take(i as int)),
            decreases videos.len() - i,
        {
            assert(videos@.take(i + 1).drop_last() =~= videos@.take(i as int));
            self.youtube_tick(&videos[i]);
            i += 1;
        }
        assert(videos@.take(videos@.len() as int) =~= videos@);
        let ghost last = self@;
        let mut notices: Vec<Notice> = Vec::new();
        assert(told_all(notices@) =~= news(last, torrents@.take(0)));
        i = 0;
        while i < torrents.len()
            invariant
                self.wf(),
                i <= torrents@.len(),
                self@ == after_torrents(last, torrents@.take(i as int)),
                told_all(notices@) == news(last, torrents@.take(i as int)),
            decreases torrents.len() - i,
        {
            assert(torrents@.take(i + 1).drop_last() =~= torrents@.take(i as int));
            let ghost before = told_all(notices@);
            if let Some(notice) = self.torrent_tick(&torrents[i]) {
                let ghost n = (notice.title@, notice.body@);
                notices.push(notice);
                assert(told_all(notices@) =~= before.push(n));
            }
            i += 1;
        }
        assert(torrents@.take(torrents@.len() as int) =~= torrents@);
        notices
    }
}

/// Looking at a download changes no other, nor any book but that of what was seen.
pub proof fn looking_changes_nothing_else(
    e: EngineView,
    id: Seq<char>,
    down: u64,
    up: u64,
    f: spec_fn(TaskView) -> TaskView,
    other: Seq<char>,
)
    requires
        other != id,
    ensures
        ({
            let after = looked_at(e, id, down, up, f);
            &&& after.tasks.contains_key(other) == e.tasks.contains_key(other)
            &&& e.tasks.contains_key(other) ==> after.tasks[other] == e.tasks[other]
            &&& after.http_active == e.http_active
            &&& after.youtube_active == e.youtube_active
            &&& after.torrent_active == e.torrent_active
            &&& after.config == e.config
        }),
{
}

/// The identifiers of what was seen over HTTP.
pub open spec fn http_ids(seen: Seq<HttpSeen>) -> Seq<Seq<char>> {
    seen.map_values(|s: HttpSeen| s.id@)
}

/// The identifiers of the videos that were seen.
pub open spec fn video_ids(seen: Seq<VideoSeen>) -> Seq<Seq<char>> {
    seen.map_values(|s: VideoSeen| s.id@)
}

/// The identifiers of the torrents that were seen.
pub open spec fn torrent_ids(seen: Seq<TorrentSeen>) -> Seq<Seq<char>> {
    seen.map_values(|s: TorrentSeen| s.id@)
}

/// No more is seen than is entered in a book of work.
pub open spec fn within(ids: Seq<Seq<char>>, book: Map<Seq<char>, u64>) -> bool {
    forall|i: int| 0 <= i < ids.len() ==> book.contains_key(#[trigger] ids[i])
}

/// The books but that of what was seen are the same, and so are the identifiers of all downloads.
pub open spec fn same_books(a: EngineView, b: EngineView) -> bool {
    &&& a.tasks.dom() == b.tasks.dom()
    &&& a.http_active == b.http_active
    &&& a.youtube_active == b.youtube_active
    &&& a.torrent_active == b.torrent_active
    &&& a.config == b.config
}

proof fn lemma_https(e: EngineView, seen: Seq<HttpSeen>, id: Seq<char>)
    ensures
        same_books(after_https(e, seen), e),
        e.tasks.contains_key(id) && !http_ids(seen).contains(id) ==> after_https(e, seen).tasks[id]
            == e.tasks[id],
        e.tasks.contains_key(id) && http_ids(seen).contains(id) ==> exists|i: int|
            0 <= i < seen.len() && (#[trigger] seen[i]).id@ == id && after_https(
                e,
                seen,
            ).tasks[id].parts == seen[i].parts@ && after_https(e, seen).tasks[id].downloaded_bytes
                == seen[i].bytes,
    decreases seen.len(),
{
    if seen.len() > 0 {
        let rest = seen.drop_last();
        lemma_https(e, rest, id);
        let mid = after_https(e, rest);
        let end = after_https(e, seen);
        assert(end.tasks.dom() =~= mid.tasks.dom());
        assert(http_ids(seen).last() == seen.last().id@);
        assert forall|i: int| 0 <= i < rest.len() implies #[trigger] http_ids(rest)[i] == http_ids(
            seen,
        )[i] && rest[i] == seen[i] by {}
        if seen.last().id@ == id {
            assert(http_ids(seen)[seen.len() - 1] == id);
            if e.tasks.contains_key(id) {
                assert(seen[seen.len() - 1].id@ == id);
            }
        } else {
            if http_ids(seen).contains(id) {
                let k = choose|k: int| 0 <= k < http_ids(seen).len() && http_ids(seen)[k] == id;
                assert(http_ids(rest)[k] == id);
                if e.tasks.contains_key(id) {
                    let i = choose|i: int|
                        0 <= i < rest.len() && (#[trigger] rest[i]).id@ == id
                            && mid.tasks[id].parts == rest[i].parts@
                            && mid.tasks[id].downloaded_bytes == rest[i].bytes;
                    assert(seen[i].id@ == id);
                }
            } else if http_ids(rest).contains(id) {
                let k = choose|k: int| 0 <= k < http_ids(rest).len() && http_ids(rest)[k] == id;
                assert(http_ids(seen)[k] == id);
            }
        }
    }
}

proof fn lemma_videos(e: EngineView, seen: Seq<VideoSeen>, id: Seq<char>)
    ensures
        same_books(after_videos(e, seen), e),
        e.tasks.contains_key(id) && !video_ids(seen).contains(id) ==> after_videos(
            e,
            seen,
        ).tasks[id] == e.tasks[id],
        e.tasks.contains_key(id) ==> after_videos(e, seen).tasks[id].parts == e.tasks[id].parts,
        e.tasks.contains_key(id) && video_ids(seen).contains(id) ==> exists|i: int|
            0 <= i < seen.len() && (#[trigger] seen[i]).id@ == id && after_videos(
                e,
                seen,
            ).tasks[id].downloaded_bytes == seen[i].bytes,
    decreases seen.len(),
{
    if seen.len() > 0 {
        let rest = seen.drop_last();
        lemma_videos(e, rest, id);
        let mid = after_videos(e, rest);
        let end = after_videos(e, seen);
        assert(end.tasks.dom() =~= mid.tasks.dom());
        assert(video_ids(seen).last() == seen.last().id@);
        assert forall|i: int| 0 <= i < rest.len() implies #[trigger] video_ids(rest)[i]
            == video_ids(seen)[i] && rest[i] == seen[i] by {}
        if seen.last().id@ == id {
            assert(video_ids(seen)[seen.len() - 1] == id);
            if e.tasks.contains_key(id) {
                assert(seen[seen.len() - 1].id@ == id);
            }
        } else {
            if video_ids(seen).contains(id) {
                let k = choose|k: int| 0 <= k < video_ids(seen).len() && video_ids(seen)[k] == id;
                assert(video_ids(rest)[k] == id);
                if e.tasks.contains_key(id) {
                    let i = choose|i: int|
                        0 <= i < rest.len() && (#[trigger] rest[i]).id@ == id
                            && mid.tasks[id].downloaded_bytes == rest[i].bytes;
                    assert(seen[i].id@ == id);
                }
            } else if video_ids(rest).contains(id) {
                let k = choose|k: int| 0 <= k < video_ids(rest).len() && video_ids(rest)[k] == id;
                assert(video_ids(seen)[k] == id);
            }
        }
    }
}

proof fn lemma_torrents(e: EngineView, seen: Seq<TorrentSeen>, id: Seq<char>)
    ensures
        same_books(after_torrents(e, seen), e),
        e.tasks.contains_key(id) && !torrent_ids(seen).contains(id) ==> after_torrents(
            e,
            seen,
        ).tasks[id] == e.tasks[id],
        e.tasks.contains_key(id) ==> after_torrents(e, seen).tasks[id].parts == e.tasks[id].parts,
        e.tasks.contains_key(id) && torrent_ids(seen).contains(id) ==> exists|i: int|
            0 <= i < seen.len() && (#[trigger] seen[i]).id@ == id && after_torrents(
                e,
                seen,
            ).tasks[id].downloaded_bytes == seen[i].stats.progress_bytes,
    decreases seen.len(),
{
    if seen.len() > 0 {
        let rest = seen.drop_last();
        lemma_torrents(e, rest, id);
        let mid = after_torrents(e, rest);
        let end = after_torrents(e, seen);
        assert(end.tasks.dom() =~= mid.tasks.dom());
        assert(torrent_ids(seen).last() == seen.last().id@);
        assert forall|i: int| 0 <= i < rest.len() implies #[trigger] torrent_ids(rest)[i]
            == torrent_ids(seen)[i] && rest[i] == seen[i] by {}
        if seen.last().id@ == id {
            assert(torrent_ids(seen)[seen.len() - 1] == id);
            if e.tasks.contains_key(id) {
                assert(seen[seen.len() - 1].id@ == id);
            }
        } else {
            if torrent_ids(seen).contains(id) {
                let k = choose|k: int|
                    0 <= k < torrent_ids(seen).len() && torrent_ids(seen)[k] == id;
                assert(torrent_ids(rest)[k] == id);
                if e.tasks.contains_key(id) {
                    let i = choose|i: int|
                        0 <= i < rest.len() && (#[trigger] rest[i]).id@ == id
                            && mid.tasks[id].downloaded_bytes == rest[i].stats.progress_bytes;
                    assert(seen[i].id@ == id);
                }
            } else if torrent_ids(rest).contains(id) {
                let k = choose|k: int|
                    0 <= k < torrent_ids(rest).len() && torrent_ids(rest)[k] == id;
                assert(torrent_ids(seen)[k] == id);
            }
        }
    }
}

/// Looking at all downloads that are being worked on makes and loses none, changes no book of
/// work, and leaves alone each download that is in none of them.
pub proof fn a_tick_leaves_the_rest_alone(
    e: EngineView,
    https: Seq<HttpSeen>,
    videos: Seq<VideoSeen>,
    torrents: Seq<TorrentSeen>,
    id: Seq<char>,
)
    requires
        within(http_ids(https), e.http_active),
        within(video_ids(videos), e.youtube_active),
        within(torrent_ids(torrents), e.torrent_active),
    ensures
        same_books(ticked(e, https, videos, torrents), e),
        e.tasks.contains_key(id) && !e.http_active.contains_key(id)
            && !e.youtube_active.contains_key(id) && !e.torrent_active.contains_key(id)
            ==> ticked(e, https, videos, torrents).tasks[id] == e.tasks[id],
{
    lemma_https(e, https, id);
    lemma_videos(after_https(e, https), videos, id);
    lemma_torrents(after_videos(after_https(e, https), videos), torrents, id);
}

/// After all downloads that are being worked on have been looked at, each says what was seen of
/// it: one over HTTP its parts and how many bytes of them are there, a video and a torrent how
/// many bytes are there. Of one that is worked on in several ways the parts are those seen over
/// HTTP, and the bytes are those seen last: of torrents, else of videos.
pub proof fn a_tick_notes_what_was_seen(
    e: EngineView,
    https: Seq<HttpSeen>,
    videos: Seq<VideoSeen>,
    torrents: Seq<TorrentSeen>,
    id: Seq<char>,
)
    requires
        e.tasks.contains_key(id),
        forall|i: int| 0 <= i < https.len() ==> counts_right(#[trigger] https[i]),
        within(http_ids(https), e.http_active),
        within(video_ids(videos), e.youtube_active),
        within(torrent_ids(torrents), e.torrent_active),
        e.http_active.contains_key(id) ==> http_ids(https).contains(id),
        e.youtube_active.contains_key(id) ==> video_ids(videos).contains(id),
        e.torrent_active.contains_key(id) ==> torrent_ids(torrents).contains(id),
    ensures
        ({
            let after = ticked(e, https, videos, torrents).tasks[id];
            &&& e.http_active.contains_key(id) ==> exists|i: int|
                0 <= i < https.len() && (#[trigger] https[i]).id@ == id && after.parts
                    == https[i].parts@ && (!e.youtube_active.contains_key(id)
                    && !e.torrent_active.contains_key(id) ==> after.downloaded_bytes
                    == parts::fetched(https[i].parts@))
            &&& e.youtube_active.contains_key(id) ==> exists|i: int|
                0 <= i < videos.len() && (#[trigger] videos[i]).id@ == id && (
                !e.torrent_active.contains_key(id) ==> after.downloaded_bytes == videos[i].bytes)
            &&& e.torrent_active.contains_key(id) ==> exists|i: int|
                0 <= i < torrents.len() && (#[trigger] torrents[i]).id@ == id
                    && after.downloaded_bytes == torrents[i].stats.progress_bytes
        }),
{
    let first = after_https(e, https);
    let second = after_videos(first, videos);
    lemma_https(e, https, id);
    lemma_videos(first, videos, id);
    lemma_torrents(second, torrents, id);
    if e.http_active.contains_key(id) {
        let i = choose|i: int|
            0 <= i < https.len() && (#[trigger] https[i]).id@ == id && first.tasks[id].parts
                == https[i].parts@ && first.tasks[id].downloaded_bytes == https[i].bytes;
        assert(counts_right(https[i]));
    }
}

/// The time left is long enough: at that speed, in that time, no more comes in than is missing,
/// and in one second more, all of it does.
pub proof fn eta_is_the_time_left(total: u64, current: u64, speed: u64)
    requires
        eta(total, current, speed) is Some,
    ensures
        eta(total, current, speed)->0 * speed <= total - current,
        (eta(total, current, speed)->0 + 1) * speed > total - current,
{
    let left = (total - current) as int;
    let q = left / (speed as int);
    assert(q * speed <= left && (q + 1) * speed > left) by (nonlinear_arith)
        requires
            q == left / (speed as int),
            speed > 0,
            left >= 0,
    ;
}

/// The time left is known exactly where something moves and something is missing.
pub proof fn the_time_left_is_known_while_it_moves(total: u64, current: u64, speed: u64)
    ensures
        eta(total, current, speed) is Some <==> speed > 0 && current < total,
{
}

/// What was gained since a download was last looked at makes, with what had been seen then, what is
/// seen now; where that is less, nothing was gained. Of one that was never seen all is gained.
pub proof fn the_gain_is_the_difference(down: u64, up: u64, current: u64)
    ensures
        current >= down ==> down + gain(Some((down, up)), current) == current,
        current < down ==> gain(Some((down, up)), current) == 0,
        gain(None, current) == current,
        current >= up ==> up + gain_up(Some((down, up)), current) == current,
        current < up ==> gain_up(Some((down, up)), current) == 0,
        gain_up(None, current) == current,
{
}

/// A download that was looked at moves at the speed that was seen, and the time left follows from
/// it where its size is known and is kept where it is not; all else of it is kept.
pub proof fn a_download_moves_as_was_seen(t: TaskView, current: u64, speed: u64)
    ensures
        ({
            let u = timed(t, current, speed);
            &&& u.download_speed == speed
            &&& t.total_bytes is Some ==> u.eta_seconds == eta(t.total_bytes->0, current, speed)
            &&& t.total_bytes is None ==> u.eta_seconds == t.eta_seconds
            &&& u.status == t.status
            &&& engine::same_but_status_and_speed(
                t,
                TaskView { eta_seconds: t.eta_seconds, ..u },
            )
        }),
{
}

/// A file that was looked at has the parts and the bytes that were seen, a video the bytes, and
/// each moves as was seen; its status, whatever it is, and all else is kept.
pub proof fn files_and_videos_are_as_they_were_seen(t: TaskView, h: HttpSeen, v: VideoSeen)
    ensures
        ({
            let f = http_seen(t, h);
            let w = video_seen(t, v);
            &&& f.parts == h.parts@ && f.downloaded_bytes == h.bytes && f.download_speed == h.speed
            &&& w.parts == t.parts && w.downloaded_bytes == v.bytes && w.download_speed == v.speed
            &&& t.total_bytes is Some ==> f.eta_seconds == eta(t.total_bytes->0, h.bytes, h.speed)
                && w.eta_seconds == eta(t.total_bytes->0, v.bytes, v.speed)
            &&& t.total_bytes is None ==> f.eta_seconds == t.eta_seconds && w.eta_seconds
                == t.eta_seconds
            &&& f.status == t.status && w.status == t.status
            &&& engine::same_but_status_and_speed(
                t,
                TaskView {
                    parts: t.parts,
                    downloaded_bytes: t.downloaded_bytes,
                    eta_seconds: t.eta_seconds,
                    ..f
                },
            )
            &&& engine::same_but_status_and_speed(
                t,
                TaskView {
                    downloaded_bytes: t.downloaded_bytes,
                    eta_seconds: t.eta_seconds,
                    ..w
                },
            )
        }),
{
}

/// A torrent that was looked at has the size, the bytes and the speeds that were seen. It is
/// complete where it is finished and was being fetched; else it keeps its status, whatever it is.
/// All else but its name and its files is kept.
pub proof fn a_torrent_is_as_it_was_seen(t: TaskView, s: TorrentSeen, i: int)
    ensures
        ({
            let u = torrent_seen(t, s);
            &&& u.total_bytes == Some(s.stats.total_bytes)
            &&& u.downloaded_bytes == s.stats.progress_bytes
            &&& u.uploaded_bytes == s.stats.uploaded_bytes
            &&& u.download_speed == s.down && u.upload_speed == s.up
            &&& u.eta_seconds == eta(s.stats.total_bytes, s.stats.progress_bytes, s.down)
            &&& s.stats.finished && t.status == StatusView::Downloading ==> u.status
                == StatusView::Completed
            &&& !s.stats.finished || t.status != StatusView::Downloading ==> u.status == t.status
            &&& u.id == t.id && u.uri == t.uri && u.kind == t.kind && u.output_path
                == t.output_path && u.created_at == t.created_at && u.parts == t.parts
                && u.torrent_info == t.torrent_info
            &&& s.files is None ==> u.files == t.files
            &&& s.files is Some ==> u.files.len() == s.files->0@.len()
            &&& s.files is Some && 0 <= i < s.files->0@.len() ==> u.files[i] == paths::join_spec(
                t.output_path,
                s.files->0@[i]@,
            )
        }),
{
}

/// A torrent that is called by a stand-in takes the name that it turns out to have, whatever it
/// is; one with a name of its own keeps that.
pub proof fn a_stand_in_gives_way_to_a_name(t: TaskView, s: TorrentSeen, rest: Seq<char>)
    ensures
        s.name is None ==> torrent_seen(t, s).name == t.name,
        s.name is Some && t.name == "Torrent_"@ + rest ==> torrent_seen(t, s).name == s.name->0@,
        s.name is Some && t.name == "Magnet Download"@ ==> torrent_seen(t, s).name == s.name->0@,
        !"Torrent_"@.is_prefix_of(t.name) && t.name != "Magnet Download"@ ==> torrent_seen(
            t,
            s,
        ).name == t.name,
{
    let p = "Torrent_"@;
    assert((p + rest).subrange(0, p.len() as int) =~= p);
}

/// The user is told that a torrent is complete, by the name that it then has, exactly when it comes
/// to be complete.
pub proof fn completion_is_told(e: EngineView, s: TorrentSeen)
    ensures
        ({
            let before = e.tasks[s.id@];
            let after = after_torrent(e, s).tasks[s.id@];
            let comes = e.tasks.contains_key(s.id@) && before.status == StatusView::Downloading
                && s.stats.finished;
            &&& comes ==> after.status == StatusView::Completed && torrent_news(e, s) == Some(
                ("Torrent Download Complete"@, after.name + " finished downloading!"@),
            )
            &&& !comes ==> torrent_news(e, s) is None
        }),
{
}

/// A download that was looked at is as it was seen, and what was seen of it is noted for the next
/// time: over HTTP and of a video what came in, of a torrent what went out too.
pub proof fn what_was_seen_is_noted(
    e: EngineView,
    h: HttpSeen,
    v: VideoSeen,
    s: TorrentSeen,
)
    ensures
        e.tasks.contains_key(h.id@) ==> after_http(e, h).tasks[h.id@] == http_seen(
            e.tasks[h.id@],
            h,
        ) && after_http(e, h).last_speeds == e.last_speeds.insert(h.id@, (h.bytes, 0u64)),
        e.tasks.contains_key(v.id@) ==> after_video(e, v).tasks[v.id@] == video_seen(
            e.tasks[v.id@],
            v,
        ) && after_video(e, v).last_speeds == e.last_speeds.insert(v.id@, (v.bytes, 0u64)),
        e.tasks.contains_key(s.id@) ==> after_torrent(e, s).tasks[s.id@] == torrent_seen(
            e.tasks[s.id@],
            s,
        ) && after_torrent(e, s).last_speeds == e.last_speeds.insert(
            s.id@,
            (s.stats.progress_bytes, s.stats.uploaded_bytes),
        ),
        !e.tasks.contains_key(h.id@) ==> after_http(e, h) == e,
        !e.tasks.contains_key(v.id@) ==> after_video(e, v) == e,
        !e.tasks.contains_key(s.id@) ==> after_torrent(e, s) == e,
{
}

/// A download that is looked at twice has gained, the second time, what came in between.
pub proof fn the_gain_is_since_the_last_look(e: EngineView, h: HttpSeen, later: u64)
    requires
        e.tasks.contains_key(h.id@),
        later >= h.bytes,
    ensures
        h.bytes + gain(engine::looked_up(after_http(e, h).last_speeds, h.id@), later) == later,
{
}

/// Looking at all downloads is looking at each in turn: those over HTTP, then the videos, then the
/// torrents; and what the user is told of the torrents is told in their order.
pub proof fn a_tick_looks_at_each_in_turn(
    e: EngineView,
    https: Seq<HttpSeen>,
    h: HttpSeen,
    videos: Seq<VideoSeen>,
    v: VideoSeen,
    torrents: Seq<TorrentSeen>,
    s: TorrentSeen,
)
    ensures
        ticked(e, seq![], seq![], seq![]) == e,
        ticked(e, https.push(h), seq![], seq![]) == after_http(
            ticked(e, https, seq![], seq![]),
            h,
        ),
        ticked(e, https, videos.push(v), seq![]) == after_video(
            ticked(e, https, videos, seq![]),
            v,
        ),
        ticked(e, https, videos, torrents.push(s)) == after_torrent(
            ticked(e, https, videos, torrents),
            s,
        ),
        news(e, seq![]).len() == 0,
        torrent_news(after_torrents(e, torrents), s) is None ==> news(e, torrents.push(s)) == news(
            e,
            torrents,
        ),
        torrent_news(after_torrents(e, torrents), s) is Some ==> news(e, torrents.push(s)) == news(
            e,
            torrents,
        ).push(torrent_news(after_torrents(e, torrents), s)->0),
{
    assert(https.push(h).drop_last() =~= https);
    assert(videos.push(v).drop_last() =~= videos);
    assert(torrents.push(s).drop_last() =~= torrents);
}

} // verus!
