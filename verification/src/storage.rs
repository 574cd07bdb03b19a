//! Downloads that were kept over a restart.

use vstd::prelude::*;

use crate::outside::{data_dir, home_dir};
use crate::places::{self, choose_place, own_file_in};
use crate::registry::Registry;
use crate::types::{DownloadStatus, DownloadTask, StatusView, TaskView};

verus! {

/// Where the downloads are kept.
pub open spec fn storage_file(data: Option<Seq<u8>>, home: Option<Seq<u8>>) -> Seq<u8> {
    places::own_file(places::user_place(data, home, ".local/share"@, "."@), "tasks.json"@)
}

/// Where the downloads of a user with these directories are kept.
pub fn storage_path_in(data: Option<Vec<u8>>, home: Option<Vec<u8>>) -> (r: Vec<u8>)
    ensures
        r@ == storage_file(places::opt_place(data), places::opt_place(home)),
{
    own_file_in(choose_place(data, home, ".local/share", "."), "tasks.json")
}

/// Where the downloads are kept. Where the user's directories are is up to the machine.
pub fn storage_path() -> (r: Vec<u8>)
    ensures
        exists|data: Option<Seq<u8>>, home: Option<Seq<u8>>|
            r@ == #[trigger] storage_file(data, home),
{
    storage_path_in(data_dir(), home_dir())
}

/// A download after a restart: it is not being fetched any more, and nothing moves.
pub open spec fn restored(t: TaskView) -> TaskView {
    TaskView {
        status: if t.status == StatusView::Downloading {
            StatusView::Paused
        } else {
            t.status
        },
        download_speed: 0,
        upload_speed: 0,
        ..t
    }
}

/// All downloads after a restart.
pub open spec fn all_restored(tasks: Map<Seq<char>, TaskView>) -> Map<Seq<char>, TaskView> {
    tasks.map_values(|t: TaskView| restored(t))
}

/// The downloads to start with: those that were kept, each as after a restart, or none.
pub fn load_tasks(saved: Option<Registry<DownloadTask>>) -> (r: Registry<DownloadTask>)
    requires
        saved matches Some(tasks) ==> tasks.wf(),
    ensures
        r.wf(),
        match saved {
            Some(tasks) => r@ == all_restored(tasks@),
            None => r@ == Map::<Seq<char>, TaskView>::empty(),
        },
{
    let mut tasks = match saved {
        Some(tasks) => tasks,
        None => {
            return Registry::new();
        },
    };
    let ghost before = tasks;
    let ghost f = |t: TaskView| restored(t);
    let n: usize = tasks.len();
    let mut i: usize = 0;
    while i < n
        invariant
            i <= n,
            tasks.wf(),
            n == before.listing().len(),
            tasks.listing().len() == n,
            f == (|t: TaskView| restored(t)),
            forall|j: int|
                0 <= j < i ==> #[trigger] tasks.listing()[j] == (
                    before.listing()[j].0,
                    f(before.listing()[j].1),
                ),
            forall|j: int| i <= j < n ==> #[trigger] tasks.listing()[j] == before.listing()[j],
        decreases n - i,
    {
        let task = tasks.value_at_mut(i);
        if task.status.is_downloading() {
            task.status = DownloadStatus::Paused;
        }
        task.download_speed = 0;
        task.upload_speed = 0;
        i += 1;
    }
    proof {
        assert(tasks.listing() =~= before.listing().map_values(
            |e: (Seq<char>, TaskView)| (e.0, f(e.1)),
        ));
        Registry::changed_throughout(before, tasks, f);
    }
    tasks
}

/// After a restart no download is being fetched and nothing moves; every other status is kept.
pub proof fn nothing_moves_after_a_restart(t: TaskView)
    ensures
        restored(t).status != StatusView::Downloading,
        restored(t).download_speed == 0 && restored(t).upload_speed == 0,
        t.status != StatusView::Downloading ==> restored(t).status == t.status,
        restored(t).id == t.id && restored(t).uri == t.uri && restored(t).output_path
            == t.output_path && restored(t).parts == t.parts && restored(t).downloaded_bytes
            == t.downloaded_bytes && restored(t).total_bytes == t.total_bytes,
{
}

/// A second restart changes nothing more.
pub proof fn restoring_is_idempotent(t: TaskView)
    ensures
        restored(restored(t)) == restored(t),
{
}

/// A restart loses no download and makes none. Each that was being fetched, of whatever kind, is
/// paused; every other keeps its status, a failure its reason; and all else of each is kept but
/// that it does not move.
pub proof fn a_restart_keeps_every_download(tasks: Map<Seq<char>, TaskView>, id: Seq<char>)
    ensures
        all_restored(tasks).contains_key(id) <==> tasks.contains_key(id),
        tasks.contains_key(id) ==> {
            let t = tasks[id];
            let u = all_restored(tasks)[id];
            &&& t.status == StatusView::Downloading ==> u.status == StatusView::Paused
            &&& t.status != StatusView::Downloading ==> u.status == t.status
            &&& u.id == t.id && u.name == t.name && u.uri == t.uri && u.kind == t.kind
            &&& u.total_bytes == t.total_bytes && u.downloaded_bytes == t.downloaded_bytes
            &&& u.uploaded_bytes == t.uploaded_bytes && u.eta_seconds == t.eta_seconds
            &&& u.output_path == t.output_path && u.created_at == t.created_at
            &&& u.parts == t.parts && u.torrent_info == t.torrent_info && u.files == t.files
            &&& u.download_speed == 0 && u.upload_speed == 0
        },
{
}

/// The downloads are kept below the directory for data, whatever it is, else below the home
/// directory, else below the one at hand.
pub proof fn where_the_downloads_are(
    base: Seq<u8>,
    home: Option<Seq<u8>>,
)
    requires
        base.len() > 0,
        base.last() != 47,
    ensures
        storage_file(Some(base), home) == base + vstd::utf8::encode_utf8("/panda-dl/tasks.json"@),
        storage_file(None, Some(base)) == base + vstd::utf8::encode_utf8("/.local/share/panda-dl/tasks.json"@),
        storage_file(None, None) == vstd::utf8::encode_utf8("./panda-dl/tasks.json"@),
{
    reveal_strlit("tasks.json");
    reveal_strlit(".local/share");
    reveal_strlit(".");
    reveal_strlit("/panda-dl/");
    reveal_strlit("/panda-dl/tasks.json");
    reveal_strlit("/.local/share/panda-dl/tasks.json");
    reveal_strlit("./panda-dl/tasks.json");
    let name = "tasks.json"@;
    let below = ".local/share"@;
    let tail = "/panda-dl/tasks.json"@;
    let dot = "."@;
    let sb = seq!['/'] + below;
    assert('/' as u8 == 47 && '.' as u8 == 46);
    assert(tail =~= "/panda-dl/"@ + name);
    assert("/.local/share/panda-dl/tasks.json"@ =~= sb + tail);
    assert("./panda-dl/tasks.json"@ =~= dot + tail);
    places::files_lie_in_a_directory_of_their_own(base, name);
    places::taking_from_a_directory_puts_behind(base, below);
    places::plain_text_is_its_bytes(sb, tail);
    places::plain_text_is_its_bytes(dot, tail);
    vstd::utf8::is_ascii_chars_encode_utf8(sb);
    vstd::utf8::is_ascii_chars_encode_utf8(dot);
    let mid = base + vstd::utf8::encode_utf8(sb);
    assert(sb.last() == below.last());
    assert(vstd::utf8::encode_utf8(sb)[sb.len() - 1] == sb[sb.len() - 1] as u8);
    assert(mid.last() == sb.last() as u8);
    assert(below.last() == 'e');
    assert('e' as u8 != 47);
    places::files_lie_in_a_directory_of_their_own(mid, name);
    assert(mid + vstd::utf8::encode_utf8(tail) =~= base + (vstd::utf8::encode_utf8(sb)
        + vstd::utf8::encode_utf8(tail)));
    places::files_lie_in_a_directory_of_their_own(vstd::utf8::encode_utf8(dot), name);
}

} // verus!
