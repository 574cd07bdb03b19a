//! What holds of the downloads over several steps.

use vstd::prelude::*;

use crate::capture::{self, DetectedKind};
use crate::config::ConfigView;
use crate::engine::{self, Engine, EngineView, Interrupt, ResumeView};
use crate::ipc::{self, Request, ResponseView, Step};
use crate::launch;
use crate::monitor::{self, HttpSeen, TorrentSeen, TorrentStats, VideoSeen};
use crate::parts;
use crate::storage;
use crate::text::{self, Edge};
use crate::transfer;
use crate::types::{DownloadKind, PartInfo, StatusView, TaskView};

verus! {

/// Nothing but the download `id` differs: every other is as it was, and is worked on as it was.
pub open spec fn differs_only_in(before: EngineView, after: EngineView, id: Seq<char>) -> bool {
    &&& after.config == before.config
    &&& after.tasks.remove(id) == before.tasks.remove(id)
    &&& after.http_active.remove(id) == before.http_active.remove(id)
    &&& after.youtube_active.remove(id) == before.youtube_active.remove(id)
    &&& after.torrent_active.remove(id) == before.torrent_active.remove(id)
    &&& after.last_speeds.remove(id) == before.last_speeds.remove(id)
}

/// Pausing, resuming and removing a download touches no other.
pub proof fn users_touch_one_download(e: EngineView, id: Seq<char>)
    ensures
        e.tasks.contains_key(id) ==> differs_only_in(e, engine::paused(e, id), id),
        e.tasks.contains_key(id) ==> differs_only_in(e, engine::resumed(e, id), id),
        differs_only_in(e, engine::removed(e, id), id),
{
    let p = engine::paused(e, id);
    let r = engine::resumed(e, id);
    let x = engine::removed(e, id);
    if e.tasks.contains_key(id) {
        assert(p.tasks.remove(id) =~= e.tasks.remove(id));
        assert(p.http_active.remove(id) =~= e.http_active.remove(id));
        assert(p.youtube_active.remove(id) =~= e.youtube_active.remove(id));
        assert(r.tasks.remove(id) =~= e.tasks.remove(id));
    }
    assert(x.tasks.remove(id) =~= e.tasks.remove(id));
    assert(x.http_active.remove(id) =~= e.http_active.remove(id));
    assert(x.youtube_active.remove(id) =~= e.youtube_active.remove(id));
    assert(x.torrent_active.remove(id) =~= e.torrent_active.remove(id));
}

/// A paused download rests: it does not move, and neither a connection nor a program is at
/// work on it. All else of it is kept.
pub proof fn pausing_stops(e: EngineView, id: Seq<char>)
    requires
        e.tasks.contains_key(id),
    ensures
        ({
            let after = engine::paused(e, id);
            let t = e.tasks[id];
            &&& after.tasks[id] == (TaskView {
                status: StatusView::Paused,
                download_speed: 0,
                ..t
            })
            &&& t.kind == DownloadKind::Http ==> !after.http_active.contains_key(id)
            &&& t.kind == DownloadKind::Youtube ==> !after.youtube_active.contains_key(id)
        }),
{
}

/// Pausing twice is pausing once, and the second time there is no work left to cancel.
pub proof fn pausing_is_idempotent(e: EngineView, id: Seq<char>)
    requires
        e.tasks.contains_key(id),
    ensures
        engine::paused(engine::paused(e, id), id) == engine::paused(e, id),
        e.tasks[id].kind != DownloadKind::Torrent ==> engine::interrupt_of(
            engine::paused(e, id),
            id,
        ) == Interrupt::Nothing,
{
    let once = engine::paused(e, id);
    let twice = engine::paused(once, id);
    assert(twice.tasks =~= once.tasks);
    assert(twice.http_active =~= once.http_active);
    assert(twice.youtube_active =~= once.youtube_active);
}

/// A download that was paused can be taken up again: it is then being fetched, from the same
/// place to the same place with the same parts, and all else of it is as it was paused.
pub proof fn a_paused_download_resumes(e: EngineView, id: Seq<char>)
    requires
        e.tasks.contains_key(id),
    ensures
        ({
            let rests = engine::paused(e, id);
            let t = e.tasks[id];
            let r = engine::resume_of(rests, id);
            &&& engine::resumed(rests, id).tasks[id] == (TaskView {
                status: StatusView::Downloading,
                download_speed: 0,
                ..t
            })
            &&& t.kind == DownloadKind::Http ==> r == (ResumeView::Http {
                uri: t.uri,
                output_path: t.output_path,
                parts: t.parts,
                supports_ranges: t.parts.len() > 1,
            })
            &&& t.kind == DownloadKind::Youtube ==> r == (ResumeView::Youtube {
                uri: t.uri,
                output_path: t.output_path,
            })
            &&& t.kind == DownloadKind::Torrent ==> r == if e.torrent_active.contains_key(id) {
                ResumeView::UnpauseTorrent(e.torrent_active[id])
            } else {
                ResumeView::AddTorrent { uri: t.uri, output_path: t.output_path }
            }
        }),
{
}

/// A download that is waiting, being fetched or done is left alone when it is taken up again.
pub proof fn only_what_rests_resumes(e: EngineView, id: Seq<char>)
    requires
        e.tasks.contains_key(id),
        e.tasks[id].status == StatusView::Queued || e.tasks[id].status == StatusView::Downloading
            || e.tasks[id].status == StatusView::Completed,
    ensures
        engine::resumed(e, id) == e,
        engine::resume_of(e, id) == ResumeView::Nothing,
{
}

/// A second attempt to take a download up again does nothing.
pub proof fn resuming_is_idempotent(e: EngineView, id: Seq<char>)
    requires
        e.tasks.contains_key(id),
    ensures
        engine::resumed(engine::resumed(e, id), id) == engine::resumed(e, id),
        engine::resume_of(engine::resumed(e, id), id) == ResumeView::Nothing,
{
}

/// After a restart no download is being fetched, and each that was can be taken up again.
pub proof fn a_restart_can_be_resumed(t: TaskView)
    requires
        t.status == StatusView::Downloading,
    ensures
        engine::resumable(storage::restored(t)),
{
}

/// A removed download is gone, and no work on it is left.
pub proof fn removing_removes(e: EngineView, id: Seq<char>)
    ensures
        ({
            let after = engine::removed(e, id);
            &&& !after.tasks.contains_key(id)
            &&& !after.http_active.contains_key(id)
            &&& !after.youtube_active.contains_key(id)
            &&& e.tasks.contains_key(id) ==> !after.torrent_active.contains_key(id)
        }),
{
}

/// Removing a download twice is removing it once.
pub proof fn removing_is_idempotent(e: EngineView, id: Seq<char>)
    ensures
        engine::removed(engine::removed(e, id), id) == engine::removed(e, id),
{
    let once = engine::removed(e, id);
    let twice = engine::removed(once, id);
    assert(twice.tasks =~= once.tasks);
    assert(twice.http_active =~= once.http_active);
    assert(twice.youtube_active =~= once.youtube_active);
}

/// Work that ends after its download was removed does not bring the download back.
pub proof fn a_removed_download_stays_away(
    e: EngineView,
    id: Seq<char>,
    f: spec_fn(TaskView) -> TaskView,
    down: u64,
    up: u64,
)
    ensures
        engine::with_task(engine::removed(e, id), id, f) == engine::removed(e, id),
        monitor::looked_at(engine::removed(e, id), id, down, up, f) == engine::removed(e, id),
{
}

/// The state after the work on a file over HTTP has ended.
pub open spec fn after_http(
    e: EngineView,
    id: Seq<char>,
    cancelled: bool,
    failure: Option<Seq<char>>,
    final_parts: Seq<PartInfo>,
) -> EngineView {
    launch::after_http_work(e, id, cancelled, failure, final_parts)
}

/// What was fetched before a pause is not fetched again: when the work has ended, the download
/// rests, and taking it up again starts from the parts as the work left them.
pub proof fn a_pause_keeps_the_progress(
    e: EngineView,
    id: Seq<char>,
    failure: Option<Seq<char>>,
    final_parts: Seq<PartInfo>,
)
    requires
        e.tasks.contains_key(id),
        e.tasks[id].kind == DownloadKind::Http,
    ensures
        ({
            let rests = after_http(engine::paused(e, id), id, true, failure, final_parts);
            &&& rests.tasks[id].status == StatusView::Paused
            &&& engine::resume_of(rests, id) == (ResumeView::Http {
                uri: e.tasks[id].uri,
                output_path: e.tasks[id].output_path,
                parts: final_parts,
                supports_ranges: final_parts.len() > 1,
            })
        }),
{
}

/// So it is after a failure.
pub proof fn a_failure_keeps_the_progress(
    e: EngineView,
    id: Seq<char>,
    message: Seq<char>,
    final_parts: Seq<PartInfo>,
)
    requires
        e.tasks.contains_key(id),
        e.tasks[id].kind == DownloadKind::Http,
    ensures
        ({
            let failed = after_http(e, id, false, Some(message), final_parts);
            &&& failed.tasks[id].status == StatusView::Error(message)
            &&& engine::resume_of(failed, id) == (ResumeView::Http {
                uri: e.tasks[id].uri,
                output_path: e.tasks[id].output_path,
                parts: final_parts,
                supports_ranges: final_parts.len() > 1,
            })
        }),
{
}

proof fn lemma_completed(ps: Seq<PartInfo>)
    requires
        launch::all_sound(ps),
    ensures
        parts::fetched(ps.map_values(|p: PartInfo| launch::completed_part(p))) == parts::sizes(ps),
    decreases ps.len(),
{
    let done = ps.map_values(|p: PartInfo| launch::completed_part(p));
    if ps.len() > 0 {
        assert forall|i: int| 0 <= i < ps.drop_last().len() implies launch::is_sound(
            #[trigger] ps.drop_last()[i],
        ) by {
            assert(launch::is_sound(ps[i]));
        }
        lemma_completed(ps.drop_last());
        assert(done.drop_last() =~= ps.drop_last().map_values(
            |p: PartInfo| launch::completed_part(p),
        ));
        assert(launch::is_sound(ps.last()));
    }
}

/// A complete download has all its bytes in its count, and does not move; where its parts tile the
/// file, they have all its bytes too.
pub proof fn a_complete_download_has_all_bytes(t: TaskView, final_parts: Seq<PartInfo>, total: u64)
    requires
        t.total_bytes == Some(total),
    ensures
        ({
            let done = launch::http_ended(t, false, None, final_parts);
            &&& done.status == StatusView::Completed
            &&& done.downloaded_bytes == total
            &&& parts::tiles(t.parts, total) ==> parts::fetched(done.parts) == total
            &&& done.eta_seconds == Some(0u64)
            &&& done.download_speed == 0
        }),
{
    if parts::tiles(t.parts, total) {
        assert forall|i: int| 0 <= i < t.parts.len() implies launch::is_sound(
            #[trigger] t.parts[i],
        ) by {
            lemma_within(t.parts, total, i);
        }
        lemma_completed(t.parts);
        parts::sizes_add_up(t.parts, total);
    }
}

proof fn lemma_within(ps: Seq<PartInfo>, total: u64, i: int)
    requires
        parts::tiles(ps, total),
        0 <= i < ps.len(),
    ensures
        ps[i].end < total,
    decreases ps.len() - i,
{
    if i + 1 < ps.len() {
        lemma_within(ps, total, i + 1);
        assert(ps[i + 1].start == ps[i].end + 1);
        assert(ps[i + 1].start <= ps[i + 1].end);
    }
}

/// Where the parts tile a file and no part has work left, every byte of the file is there.
pub proof fn when_no_work_is_left_every_byte_is_there(ps: Seq<PartInfo>, total: u64, byte: u64)
    requires
        parts::tiles(ps, total),
        forall|i: int|
            0 <= i < ps.len() ==> transfer::resume_at(#[trigger] ps[i]) > ps[i].end,
        byte < total,
    ensures
        transfer::is_there(ps, byte),
{
    parts::every_byte_is_in_one_part(ps, total, byte);
}

/// Of a part that is complete nothing is fetched again.
pub proof fn what_is_complete_is_not_fetched_again(p: PartInfo)
    requires
        launch::is_sound(p),
    ensures
        transfer::resume_at(launch::completed_part(p)) > p.end,
{
}

/// The parts in which a file is fetched part by part cover it, however many they are and whatever
/// number was asked for.
pub proof fn planned_parts_tile_the_file(total: u64, wanted: usize)
    requires
        total > 0,
    ensures
        parts::tiles(launch::planned_parts(true, Some(total), wanted), total),
{
    if total > launch::SPLIT_ABOVE {
        parts::cut_tiles_the_file(total, wanted);
    }
}

/// Each download is worked on in the way of its kind.
pub open spec fn worked_on_by_kind(e: EngineView) -> bool {
    forall|id: Seq<char>| #[trigger]
        e.tasks.contains_key(id) ==> {
            &&& e.http_active.contains_key(id) ==> e.tasks[id].kind == DownloadKind::Http
            &&& e.youtube_active.contains_key(id) ==> e.tasks[id].kind == DownloadKind::Youtube
            &&& e.torrent_active.contains_key(id) ==> e.tasks[id].kind == DownloadKind::Torrent
        }
}

/// Whatever is done with the downloads, each stays worked on in the way of its kind, and so in
/// one way only: where work begins on a download of that kind, and where a new download has a
/// name under which no work is entered.
pub proof fn work_stays_of_one_kind(
    e: EngineView,
    id: Seq<char>,
    handle: u64,
    new: TaskView,
    f: spec_fn(TaskView) -> TaskView,
    down: u64,
    up: u64,
)
    requires
        worked_on_by_kind(e),
        forall|t: TaskView| (#[trigger] f(t)).kind == t.kind,
    ensures
        worked_on_by_kind(engine::with_task(e, id, f)),
        worked_on_by_kind(monitor::looked_at(e, id, down, up, f)),
        worked_on_by_kind(engine::removed(e, id)),
        e.tasks.contains_key(id) ==> worked_on_by_kind(engine::paused(e, id)) && worked_on_by_kind(
            engine::resumed(e, id),
        ),
        worked_on_by_kind(EngineView { http_active: e.http_active.remove(id), ..e }),
        worked_on_by_kind(EngineView { youtube_active: e.youtube_active.remove(id), ..e }),
        e.tasks.contains_key(id) && e.tasks[id].kind == DownloadKind::Http ==> worked_on_by_kind(
            EngineView { http_active: e.http_active.insert(id, handle), ..e },
        ),
        e.tasks.contains_key(id) && e.tasks[id].kind == DownloadKind::Youtube ==> worked_on_by_kind(
            EngineView { youtube_active: e.youtube_active.insert(id, handle), ..e },
        ),
        e.tasks.contains_key(id) && e.tasks[id].kind == DownloadKind::Torrent ==> worked_on_by_kind(
            EngineView { torrent_active: e.torrent_active.insert(id, handle), ..e },
        ),
        !e.http_active.contains_key(new.id) && !e.youtube_active.contains_key(new.id)
            && !e.torrent_active.contains_key(new.id) ==> worked_on_by_kind(
            launch::entered(e, new),
        ),
        e.tasks.contains_key(id) && e.http_active.contains_key(id)
            ==> !e.youtube_active.contains_key(id) && !e.torrent_active.contains_key(id),
        e.tasks.contains_key(id) && e.youtube_active.contains_key(id)
            ==> !e.torrent_active.contains_key(id),
{
}

/// A download that is entered under a new name is there as it was entered, and every other is as
/// it was.
pub proof fn a_new_download_touches_no_other(e: EngineView, new: TaskView)
    requires
        !e.tasks.contains_key(new.id),
    ensures
        ({
            let after = launch::entered(e, new);
            &&& differs_only_in(e, after, new.id)
            &&& after.tasks.contains_key(new.id) && after.tasks[new.id] == new
            &&& after.tasks.dom() == e.tasks.dom().insert(new.id)
        }),
{
    let after = launch::entered(e, new);
    assert(after.tasks.remove(new.id) =~= e.tasks.remove(new.id));
    assert(after.tasks.dom() =~= e.tasks.dom().insert(new.id));
}

/// Every download is entered under the name that it has itself.
pub open spec fn named_by_id(e: EngineView) -> bool {
    forall|k: Seq<char>| #[trigger] e.tasks.contains_key(k) ==> e.tasks[k].id == k
}

/// Whatever is done with the downloads, each stays entered under its own name.
pub proof fn names_are_kept(
    e: EngineView,
    id: Seq<char>,
    new: TaskView,
    f: spec_fn(TaskView) -> TaskView,
    down: u64,
    up: u64,
)
    requires
        named_by_id(e),
        forall|t: TaskView| (#[trigger] f(t)).id == t.id,
    ensures
        named_by_id(launch::entered(e, new)),
        named_by_id(engine::removed(e, id)),
        named_by_id(engine::with_task(e, id, f)),
        named_by_id(monitor::looked_at(e, id, down, up, f)),
        e.tasks.contains_key(id) ==> named_by_id(engine::paused(e, id)) && named_by_id(
            engine::resumed(e, id),
        ),
{
}

/// Where downloads are entered under their own names, the file of a download is that of the
/// download of that name.
pub proof fn the_path_is_that_of_the_name(e: EngineView, id: Seq<char>, path: Seq<char>)
    requires
        named_by_id(e),
    ensures
        ipc::is_named(e.tasks, id) == e.tasks.contains_key(id),
        ipc::is_path_of(e.tasks, id, path) == (e.tasks.contains_key(id) && e.tasks[id].output_path
            == path),
        ipc::is_file_of(e.tasks, id, path) == (e.tasks.contains_key(id) && engine::file_of(
            e.tasks[id],
        ) == path),
{
    if e.tasks.contains_key(id) {
        assert(ipc::is_newest_named(e.tasks, id, id));
    }
}

/// Every way in which work on a download ends or is looked at keeps the name of the download,
/// and where it comes from and goes to.
pub proof fn work_keeps_what_a_download_is(
    t: TaskView,
    cancelled: bool,
    failure: Option<Seq<char>>,
    ps: Seq<PartInfo>,
    http: HttpSeen,
    video: VideoSeen,
    torrent: TorrentSeen,
    n: u64,
    m: u64,
)
    ensures
        same_download(t, launch::http_ended(t, cancelled, failure, ps)),
        same_download(t, launch::youtube_ended(t, cancelled, failure, n)),
        same_download(t, monitor::timed(t, n, m)),
        same_download(t, monitor::http_seen(t, http)),
        same_download(t, monitor::video_seen(t, video)),
        same_download(t, monitor::torrent_seen(t, torrent)),
        same_download(t, engine::paused_task(t)),
        same_download(t, storage::restored(t)),
{
}

/// The files that a video has written are remembered until it is removed, whatever else becomes
/// of it; and so are those of a torrent, unless others turn out to be its files.
pub proof fn what_was_written_is_remembered(
    t: TaskView,
    cancelled: bool,
    failure: Option<Seq<char>>,
    path: Seq<char>,
    video: VideoSeen,
    torrent: TorrentSeen,
    n: u64,
)
    ensures
        launch::youtube_ended(t, cancelled, failure, n).files == t.files,
        monitor::video_seen(t, video).files == t.files,
        torrent.files is None ==> monitor::torrent_seen(t, torrent).files == t.files,
        engine::paused_task(t).files == t.files,
        storage::restored(t).files == t.files,
        launch::with_file(t.files, path).contains(path),
        forall|f: Seq<char>| #[trigger]
            t.files.contains(f) ==> launch::with_file(t.files, path).contains(f),
{
    let after = launch::with_file(t.files, path);
    if !t.files.contains(path) {
        assert(after[t.files.len() as int] == path);
        assert forall|f: Seq<char>| #[trigger] t.files.contains(f) implies after.contains(f) by {
            let i = choose|i: int| 0 <= i < t.files.len() && t.files[i] == f;
            assert(after[i] == f);
        }
    }
}

/// What is deleted with a download was written by it: over HTTP its file, for a torrent its
/// files, for a video its files and those in which they were kept.
pub proof fn only_what_was_written_is_deleted(
    e: EngineView,
    id: Seq<char>,
    delete_file: bool,
    path: Seq<char>,
)
    requires
        engine::deleted_with(e, id, delete_file).contains(path),
    ensures
        delete_file,
        e.tasks.contains_key(id),
        ({
            let t = e.tasks[id];
            match t.kind {
                DownloadKind::Http => path == t.output_path,
                DownloadKind::Torrent => t.files.contains(path) && !e.torrent_active.contains_key(
                    id,
                ),
                DownloadKind::Youtube => exists|f: Seq<char>| #[trigger]
                    t.files.contains(f) && (path == f || path == f + ".part"@ || path == f
                        + ".ytdl"@),
            }
        }),
{
    let t = e.tasks[id];
    if t.kind == DownloadKind::Youtube {
        lemma_leftovers(t.files, path);
    }
}

proof fn lemma_leftovers(files: Seq<Seq<char>>, path: Seq<char>)
    requires
        engine::with_leftovers(files).contains(path),
    ensures
        exists|f: Seq<char>| #[trigger]
            files.contains(f) && (path == f || path == f + ".part"@ || path == f + ".ytdl"@),
    decreases files.len(),
{
    let all = engine::with_leftovers(files);
    let k = choose|k: int| 0 <= k < all.len() && all[k] == path;
    let rest = files.drop_last();
    let before = engine::with_leftovers(rest);
    if k < before.len() {
        assert(before[k] == path);
        lemma_leftovers(rest, path);
        let f = choose|f: Seq<char>| #[trigger]
            rest.contains(f) && (path == f || path == f + ".part"@ || path == f + ".ytdl"@);
        let i = choose|i: int| 0 <= i < rest.len() && rest[i] == f;
        assert(files[i] == f);
        assert(files.contains(f));
    } else {
        assert(files[files.len() - 1] == files.last());
        assert(files.contains(files.last()));
    }
}

/// The same download, however far it has come.
pub open spec fn same_download(a: TaskView, b: TaskView) -> bool {
    &&& a.id == b.id
    &&& a.uri == b.uri
    &&& a.kind == b.kind
    &&& a.output_path == b.output_path
    &&& a.created_at == b.created_at
}

/// Once settings are kept, a client that asks for the settings gets them.
pub proof fn settings_are_given_back(
    e: EngineView,
    settings: ConfigView,
    before: Engine,
    after: EngineView,
    r: Step,
)
    requires
        before@ == (EngineView { config: settings, ..e }),
        ipc::handled(before, Request::GetConfig, after, r),
    ensures
        after == before@,
        r matches Step::Reply(reply) && reply@ == ResponseView::Config(settings),
{
}

/// No request changes the settings when it is taken up; they change when new ones are kept.
pub proof fn requests_keep_the_settings(before: Engine, req: Request, after: EngineView, r: Step)
    requires
        ipc::handled(before, req, after, r),
    ensures
        after.config == before@.config,
{
}

/// A request about a download that is not there is refused, and nothing changes.
pub proof fn what_is_not_there_is_refused(before: Engine, req: Request, after: EngineView, r: Step)
    requires
        ipc::handled(before, req, after, r),
        match req {
            Request::Pause { id } => !before@.tasks.contains_key(id@),
            Request::Resume { id } => !before@.tasks.contains_key(id@),
            Request::OpenFile { id } => !ipc::is_named(before@.tasks, id@),
            Request::OpenFolder { id } => !ipc::is_named(before@.tasks, id@),
            _ => false,
        },
    ensures
        after == before@,
        r matches Step::Reply(reply) && reply@ == (ResponseView::Error {
            message: "Task not found"@,
        }),
{
}

/// Taking up a request changes the books only where a download is paused, taken up again or
/// removed.
pub proof fn other_requests_change_nothing(
    before: Engine,
    req: Request,
    after: EngineView,
    r: Step,
)
    requires
        ipc::handled(before, req, after, r),
        !(req is Pause),
        !(req is Resume),
        !(req is Remove),
    ensures
        after == before@,
{
}

/// While the clipboard is not watched nothing is started from it; and what is started is a
/// magnet link or a torrent, each only where the settings say so, or the link of a file.
pub proof fn the_clipboard_obeys_the_settings(
    c: ConfigView,
    clip: Seq<char>,
    found: Option<DetectedKind>,
    r: Step,
)
    requires
        ipc::clipboard_step(c, clip, found, r),
        r is AutoStart,
    ensures
        c.auto_capture_clipboard,
        ({
            let t = text::trimmed(clip, Edge::Space);
            ||| "magnet:?"@.is_prefix_of(t) && c.auto_start_magnets
            ||| (".torrent"@.is_suffix_of(t) || found == Some(DetectedKind::TorrentUrl))
                && c.auto_start_torrents
            ||| found == Some(DetectedKind::DirectFile)
        }),
{
}

/// Every link that is detected in the clipboard is added, with the settings as they are at first.
pub proof fn detected_links_are_added(c: ConfigView, clip: Seq<char>, r: Step)
    requires
        c.auto_capture_clipboard,
        c.auto_start_magnets,
        c.auto_start_torrents,
        capture::kind_of(clip) is Some,
        ipc::clipboard_step(c, clip, capture::kind_of(clip), r),
    ensures
        r matches Step::AutoStart { uri, kind } && uri@ == text::trimmed(clip, Edge::Space),
{
}

/// A torrent counts as complete once, and then stays so however often it is looked at.
pub proof fn a_torrent_completes_once(t: TaskView, seen: TorrentSeen, later: TorrentStats)
    requires
        monitor::comes_to_end(t, seen.stats),
    ensures
        monitor::torrent_seen(t, seen).status == StatusView::Completed,
        !monitor::comes_to_end(monitor::torrent_seen(t, seen), later),
{
}

} // verus!
