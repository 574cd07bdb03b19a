//! What the daemon says of its downloads.

use vstd::prelude::*;

use crate::engine::Engine;
use crate::registry::Registry;
use crate::types::{self, DaemonStatus, DaemonView, DownloadTask, StatusView, TaskView};

verus! {

/// The speeds at which the downloads come in, added up.
pub open spec fn down_sum(ts: Seq<TaskView>) -> nat
    decreases ts.len(),
{
    if ts.len() == 0 {
        0
    } else {
        down_sum(ts.drop_last()) + ts.last().download_speed as nat
    }
}

/// The speeds at which the downloads are given on, added up.
pub open spec fn up_sum(ts: Seq<TaskView>) -> nat
    decreases ts.len(),
{
    if ts.len() == 0 {
        0
    } else {
        up_sum(ts.drop_last()) + ts.last().upload_speed as nat
    }
}

/// How many of the downloads are being fetched.
pub open spec fn active_count(ts: Seq<TaskView>) -> nat
    decreases ts.len(),
{
    if ts.len() == 0 {
        0
    } else {
        active_count(ts.drop_last()) + if ts.last().status == StatusView::Downloading {
            1nat
        } else {
            0nat
        }
    }
}

/// No download comes after one that is older.
pub open spec fn newest_first(ts: Seq<TaskView>) -> bool {
    forall|i: int, j: int|
        0 <= i < j < ts.len() ==> (#[trigger] ts[i]).created_at >= (#[trigger] ts[j]).created_at
}

/// The downloads of a registry, in the order in which it is walked.
pub open spec fn listed(tasks: Registry<DownloadTask>) -> Seq<TaskView> {
    tasks.listing().map_values(|e: (Seq<char>, TaskView)| e.1)
}

/// A report of the downloads of a registry: all of them, the newest first, with how many are being
/// fetched and how fast in all.
pub open spec fn report_is(tasks: Registry<DownloadTask>, r: DaemonView) -> bool {
    &&& r.downloads.to_multiset() == listed(tasks).to_multiset()
    &&& newest_first(r.downloads)
    &&& r.active_downloads == active_count(r.downloads)
    &&& r.total_download_speed == down_sum(r.downloads)
    &&& r.total_upload_speed == up_sum(r.downloads)
}

proof fn lemma_sums_of_insert(ts: Seq<TaskView>, i: int, t: TaskView)
    requires
        0 <= i <= ts.len(),
    ensures
        down_sum(ts.insert(i, t)) == down_sum(ts) + t.download_speed,
        up_sum(ts.insert(i, t)) == up_sum(ts) + t.upload_speed,
        active_count(ts.insert(i, t)) == active_count(ts) + if t.status
            == StatusView::Downloading {
            1nat
        } else {
            0nat
        },
    decreases ts.len(),
{
    if i == ts.len() {
        assert(ts.insert(i, t).drop_last() =~= ts);
        assert(ts.insert(i, t).last() == t);
    } else {
        assert(ts.insert(i, t).drop_last() =~= ts.drop_last().insert(i, t));
        assert(ts.insert(i, t).last() == ts.last());
        lemma_sums_of_insert(ts.drop_last(), i, t);
    }
}

proof fn lemma_sums_grow(ts: Seq<TaskView>, n: int)
    requires
        0 <= n <= ts.len(),
    ensures
        down_sum(ts.take(n)) <= down_sum(ts),
        up_sum(ts.take(n)) <= up_sum(ts),
        active_count(ts.take(n)) <= n,
    decreases ts.len(), n,
{
    if n < ts.len() {
        lemma_sums_grow(ts.drop_last(), n);
        assert(ts.drop_last().take(n) =~= ts.take(n));
    } else {
        assert(ts.take(n) =~= ts);
        if n > 0 {
            lemma_sums_grow(ts.drop_last(), n - 1);
            assert(ts.drop_last().take(n - 1) =~= ts.drop_last());
        }
    }
}

impl Engine {
    /// The total speeds are numbers of 64 bits.
    pub open spec fn spec_speeds_fit(self) -> bool {
        down_sum(listed(self.tasks)) <= u64::MAX && up_sum(listed(self.tasks)) <= u64::MAX
    }

    /// Whether the total speeds are numbers of 64 bits.
    pub fn speeds_fit(&self) -> (r: bool)
        ensures
            r == self.spec_speeds_fit(),
    {
        let ghost all = listed(self.tasks);
        let n: usize = self.tasks.len();
        let mut down: u64 = 0;
        let mut up: u64 = 0;
        let mut i: usize = 0;
        assert(all.take(0) =~= Seq::<TaskView>::empty());
        while i < n
            invariant
                i <= n,
                all == listed(self.tasks),
                n == all.len(),
                n == self.tasks.listing().len(),
                down == down_sum(all.take(i as int)),
                up == up_sum(all.take(i as int)),
            decreases n - i,
        {
            let t = self.tasks.value_at(i);
            assert(all[i as int] == t@);
            assert(all.take(i + 1).drop_last() =~= all.take(i as int));
            assert(all.take(i + 1).last() == t@);
            proof {
                lemma_sums_grow(all, i + 1);
            }
            if t.download_speed > u64::MAX - down || t.upload_speed > u64::MAX - up {
                return false;
            }
            down = down + t.download_speed;
            up = up + t.upload_speed;
            i += 1;
        }
        assert(all.take(n as int) =~= all);
        true
    }

    /// All downloads, the newest first, with how many are being fetched and how fast in all.
    /// Downloads of the same age come in any order.
    pub fn get_status(&self) -> (r: DaemonStatus)
        requires
            self.spec_speeds_fit(),
        ensures
            report_is(self.tasks, r@),
    {
        let ghost all = listed(self.tasks);
        let n: usize = self.tasks.len();
        let mut list: Vec<DownloadTask> = Vec::new();
        let mut active: usize = 0;
        let mut down: u64 = 0;
        let mut up: u64 = 0;
        let mut i: usize = 0;
        assert(all.take(0) =~= Seq::<TaskView>::empty());
        assert(types::task_views(list@) =~= all.take(0));
        while i < n
            invariant
                i <= n,
                all == listed(self.tasks),
                n == all.len(),
                n == self.tasks.listing().len(),
                down_sum(all) <= u64::MAX,
                up_sum(all) <= u64::MAX,
                list@.len() == i,
                types::task_views(list@).to_multiset() == all.take(i as int).to_multiset(),
                newest_first(types::task_views(list@)),
                active <= i,
                active == active_count(types::task_views(list@)),
                down == down_sum(types::task_views(list@)),
                up == up_sum(types::task_views(list@)),
                down == down_sum(all.take(i as int)),
                up == up_sum(all.take(i as int)),
            decreases n - i,
        {
            let t = self.tasks.value_at(i).clone();
            let ghost tv = t@;
            let ghost views = types::task_views(list@);
            assert(all.take(i + 1) =~= all.take(i as int).push(tv));
            assert(all.take(i + 1).drop_last() =~= all.take(i as int));
            proof {
                lemma_sums_grow(all, i + 1);
            }
            down = down + t.download_speed;
            up = up + t.upload_speed;
            if t.status.is_downloading() {
                active = active + 1;
            }
            let mut at: usize = 0;
            while at < list.len() && list[at].created_at >= t.created_at
                invariant
                    at <= list@.len(),
                    forall|j: int| 0 <= j < at ==> (#[trigger] list@[j]).created_at >= t.created_at,
                decreases list.len() - at,
            {
                at += 1;
            }
            proof {
                if at < list@.len() {
                    assert(views[at as int].created_at < tv.created_at);
                    assert forall|j: int| at <= j < views.len() implies (
                    #[trigger] views[j]).created_at < tv.created_at by {
                        if j > at {
                            assert(views[at as int].created_at >= views[j].created_at);
                        }
                    }
                }
                assert forall|j: int| 0 <= j < at implies (#[trigger] views[j]).created_at
                    >= tv.created_at by {
                    assert(list@[j].created_at >= t.created_at);
                }
                lemma_sums_of_insert(views, at as int, tv);
                vstd::seq_lib::to_multiset_insert(views, at as int, tv);
                vstd::seq_lib::to_multiset_build(all.take(i as int), tv);
            }
            list.insert(at, t);
            assert(types::task_views(list@) =~= views.insert(at as int, tv));
            proof {
                let after = types::task_views(list@);
                assert forall|a: int, b: int| 0 <= a < b < after.len() implies (
                #[trigger] after[a]).created_at >= (#[trigger] after[b]).created_at by {
                    if a < at && b > at {
                        assert(after[a] == views[a] && after[b] == views[b - 1]);
                        assert(views[a].created_at >= tv.created_at);
                    } else if a < at && b < at {
                        assert(after[a] == views[a] && after[b] == views[b]);
                    } else if a > at {
                        assert(after[a] == views[a - 1] && after[b] == views[b - 1]);
                    } else if a == at {
                        assert(after[b] == views[b - 1]);
                    } else {
                        assert(after[a] == views[a]);
                    }
                }
            }
            i += 1;
        }
        assert(all.take(n as int) =~= all);
        DaemonStatus {
            active_downloads: active,
            total_download_speed: down,
            total_upload_speed: up,
            downloads: list,
        }
    }
}

/// A report that holds what is listed holds every download, each as it is, and no other; and it
/// is as long as there are downloads.
pub proof fn report_holds_every_download(tasks: Registry<DownloadTask>, report: Seq<TaskView>)
    requires
        tasks.wf(),
        report.to_multiset() == listed(tasks).to_multiset(),
    ensures
        report.len() == tasks.listing().len(),
        forall|id: Seq<char>| #[trigger]
            tasks@.contains_key(id) ==> report.contains(tasks@[id]),
        forall|t: TaskView| #[trigger]
            report.contains(t) ==> exists|id: Seq<char>| #[trigger]
                tasks@.contains_key(id) && tasks@[id] == t,
{
    let all = listed(tasks);
    tasks.listing_is_the_map();
    vstd::seq_lib::to_multiset_len(report);
    vstd::seq_lib::to_multiset_len(all);
    assert forall|id: Seq<char>| #[trigger] tasks@.contains_key(id) implies report.contains(
        tasks@[id],
    ) by {
        let i = choose|i: int|
            0 <= i < tasks.listing().len() && (#[trigger] tasks.listing()[i]).0 == id;
        assert(all[i] == tasks@[id]);
        assert(all.contains(tasks@[id]));
        vstd::seq_lib::to_multiset_contains(all, tasks@[id]);
        vstd::seq_lib::to_multiset_contains(report, tasks@[id]);
    }
    assert forall|t: TaskView| #[trigger] report.contains(t) implies exists|id: Seq<char>|
        #[trigger] tasks@.contains_key(id) && tasks@[id] == t by {
        vstd::seq_lib::to_multiset_contains(report, t);
        vstd::seq_lib::to_multiset_contains(all, t);
        let j = choose|j: int| 0 <= j < all.len() && all[j] == t;
        assert(tasks.listing()[j].1 == t);
        assert(tasks@.contains_key(tasks.listing()[j].0));
    }
}

/// Each download counts: one that is being fetched as one, and every one, whatever its status,
/// with the speeds at which it comes in and is given on.
pub proof fn every_download_counts(ts: Seq<TaskView>, t: TaskView)
    ensures
        active_count(Seq::<TaskView>::empty()) == 0,
        down_sum(Seq::<TaskView>::empty()) == 0,
        up_sum(Seq::<TaskView>::empty()) == 0,
        t.status == StatusView::Downloading ==> active_count(ts.push(t)) == active_count(ts) + 1,
        t.status != StatusView::Downloading ==> active_count(ts.push(t)) == active_count(ts),
        down_sum(ts.push(t)) == down_sum(ts) + t.download_speed,
        up_sum(ts.push(t)) == up_sum(ts) + t.upload_speed,
{
    assert(ts.push(t).drop_last() =~= ts);
}

/// A report holds each download of the registry as it is, as often as there are downloads, and
/// none before one that is newer; it counts those that are being fetched.
pub proof fn a_report_is_complete_and_in_order(
    tasks: Registry<DownloadTask>,
    r: DaemonView,
    id: Seq<char>,
    i: int,
    j: int,
)
    requires
        tasks.wf(),
        report_is(tasks, r),
    ensures
        r.downloads.len() == tasks.listing().len(),
        tasks@.contains_key(id) ==> r.downloads.contains(tasks@[id]),
        0 <= i < j < r.downloads.len() ==> r.downloads[j].created_at <= r.downloads[i].created_at,
        r.active_downloads <= r.downloads.len(),
        r.active_downloads == r.downloads.filter(
            |t: TaskView| t.status == StatusView::Downloading,
        ).len(),
{
    report_holds_every_download(tasks, r.downloads);
    lemma_active_is_filter(r.downloads);
    lemma_sums_grow(r.downloads, r.downloads.len() as int);
    assert(r.downloads.take(r.downloads.len() as int) =~= r.downloads);
}

proof fn lemma_active_is_filter(ts: Seq<TaskView>)
    ensures
        active_count(ts) == ts.filter(|t: TaskView| t.status == StatusView::Downloading).len(),
    decreases ts.len(),
{
    reveal(Seq::filter);
    if ts.len() > 0 {
        lemma_active_is_filter(ts.drop_last());
    }
}

/// The total speeds can be given where both are numbers of 64 bits.
pub proof fn speeds_of_64_bits_fit(e: Engine)
    ensures
        e.spec_speeds_fit() <==> down_sum(listed(e.tasks)) <= 0xffff_ffff_ffff_ffff && up_sum(
            listed(e.tasks),
        ) <= 0xffff_ffff_ffff_ffff,
{
}

} // verus!
