//! The parts of a file: how it is cut, and how much of it is there.

use vstd::prelude::*;

use crate::http::HttpDownloader;
use crate::types::PartInfo;

verus! {

/// Into how many parts a file is cut when `wanted` are asked for.
pub open spec fn part_count(wanted: usize) -> int {
    if wanted < 1 {
        1
    } else if wanted > 64 {
        64
    } else {
        wanted as int
    }
}

/// Part `i` of `count` of a file: all are of the same size but the last, which takes the rest.
pub open spec fn part_at(total: u64, count: int, i: int) -> PartInfo {
    let size = total as int / count;
    PartInfo {
        index: i as usize,
        start: (i * size) as u64,
        end: (if i == count - 1 {
            total - 1
        } else {
            (i + 1) * size - 1
        }) as u64,
        downloaded: 0,
        active: false,
    }
}

/// A file cut into parts.
pub open spec fn cut(total: u64, wanted: usize) -> Seq<PartInfo> {
    Seq::new(part_count(wanted) as nat, |i: int| part_at(total, part_count(wanted), i))
}

/// How many bytes a part has.
pub open spec fn size_of_part(p: PartInfo) -> int {
    p.end - p.start + 1
}

/// How many bytes of the parts are there.
pub open spec fn fetched(parts: Seq<PartInfo>) -> nat
    decreases parts.len(),
{
    if parts.len() == 0 {
        0
    } else {
        fetched(parts.drop_last()) + parts.last().downloaded as nat
    }
}

/// How many bytes the parts have.
pub open spec fn sizes(parts: Seq<PartInfo>) -> int
    decreases parts.len(),
{
    if parts.len() == 0 {
        0
    } else {
        sizes(parts.drop_last()) + size_of_part(parts.last())
    }
}

/// The parts follow one another without a gap and without an overlap, from the first byte of a
/// file of `total` bytes to the last, and none is empty.
pub open spec fn tiles(parts: Seq<PartInfo>, total: u64) -> bool {
    &&& parts.len() > 0
    &&& parts[0].start == 0
    &&& parts.last().end == total - 1
    &&& forall|i: int| 0 <= i < parts.len() ==> (#[trigger] parts[i]).start <= parts[i].end
    &&& forall|i: int|
        0 < i < parts.len() ==> (#[trigger] parts[i]).start == parts[i - 1].end + 1
}

proof fn lemma_cut_arith(total: int, count: int, i: int)
    requires
        1 <= count <= 64,
        count <= total,
        0 <= i < count,
    ensures
        total / count >= 1,
        0 <= i * (total / count),
        (i + 1) * (total / count) == i * (total / count) + total / count,
        (i + 1) * (total / count) <= total,
{
    let size = total / count;
    assert(size >= 1 && count * size <= total) by (nonlinear_arith)
        requires
            size == total / count,
            1 <= count <= total,
    ;
    assert(0 <= i * size) by (nonlinear_arith)
        requires
            i >= 0,
            size >= 1,
    ;
    assert((i + 1) * size == i * size + size) by (nonlinear_arith);
    assert((i + 1) * size <= count * size) by (nonlinear_arith)
        requires
            i + 1 <= count,
            size >= 1,
    ;
}

/// The parts into which a file is cut lie one behind the other over the whole file.
pub proof fn cut_tiles_the_file(total: u64, wanted: usize)
    requires
        part_count(wanted) <= total,
    ensures
        tiles(cut(total, wanted), total),
{
    let count = part_count(wanted);
    let parts = cut(total, wanted);
    assert forall|i: int| 0 <= i < parts.len() implies (#[trigger] parts[i]).start
        <= parts[i].end by {
        lemma_cut_arith(total as int, count, i);
    }
    assert forall|i: int| 0 < i < parts.len() implies (#[trigger] parts[i]).start == parts[i
        - 1].end + 1 by {
        lemma_cut_arith(total as int, count, i - 1);
        lemma_cut_arith(total as int, count, i);
    }
}

proof fn lemma_ordered(parts: Seq<PartInfo>, total: u64, i: int, j: int)
    requires
        tiles(parts, total),
        0 <= i < j < parts.len(),
    ensures
        parts[i].end < parts[j].start,
    decreases j - i,
{
    if i + 1 < j {
        lemma_ordered(parts, total, i, j - 1);
        assert(parts[j - 1].start <= parts[j - 1].end);
    }
    assert(parts[j].start == parts[j - 1].end + 1);
}

proof fn lemma_some_part_holds(parts: Seq<PartInfo>, total: u64, byte: u64, n: int) -> (i: int)
    requires
        tiles(parts, total),
        0 <= n < parts.len(),
        byte <= parts[n].end,
    ensures
        0 <= i <= n,
        parts[i].start <= byte <= parts[i].end,
    decreases n,
{
    if parts[n].start <= byte {
        n
    } else {
        assert(n > 0);
        assert(parts[n].start == parts[n - 1].end + 1);
        lemma_some_part_holds(parts, total, byte, n - 1)
    }
}

/// Every byte of the file is in one part and in no other.
pub proof fn every_byte_is_in_one_part(parts: Seq<PartInfo>, total: u64, byte: u64)
    requires
        tiles(parts, total),
        byte < total,
    ensures
        exists|i: int|
            0 <= i < parts.len() && (#[trigger] parts[i]).start <= byte <= parts[i].end,
        forall|i: int, j: int|
            0 <= i < parts.len() && 0 <= j < parts.len() && (#[trigger] parts[i]).start <= byte
                <= parts[i].end && (#[trigger] parts[j]).start <= byte <= parts[j].end ==> i == j,
{
    let w = lemma_some_part_holds(parts, total, byte, parts.len() - 1);
    assert(parts[w].start <= byte <= parts[w].end);
    assert forall|i: int, j: int|
        0 <= i < parts.len() && 0 <= j < parts.len() && (#[trigger] parts[i]).start <= byte
            <= parts[i].end && (#[trigger] parts[j]).start <= byte <= parts[j].end implies i
        == j by {
        if i < j {
            lemma_ordered(parts, total, i, j);
        } else if j < i {
            lemma_ordered(parts, total, j, i);
        }
    }
}

/// The sizes of parts that tile a file add up to its size.
pub proof fn sizes_add_up(parts: Seq<PartInfo>, total: u64)
    requires
        tiles(parts, total),
    ensures
        sizes(parts) == total,
{
    lemma_sizes(parts, total, parts.len() as int);
    assert(parts.take(parts.len() as int) == parts);
}

proof fn lemma_sizes(parts: Seq<PartInfo>, total: u64, n: int)
    requires
        tiles(parts, total),
        1 <= n <= parts.len(),
    ensures
        sizes(parts.take(n)) == parts[n - 1].end + 1,
    decreases n,
{
    assert(parts.take(n).drop_last() == parts.take(n - 1));
    assert(parts.take(n).last() == parts[n - 1]);
    if n > 1 {
        lemma_sizes(parts, total, n - 1);
        assert(parts[n - 1].start == parts[n - 2].end + 1);
    } else {
        assert(parts.take(0) == Seq::<PartInfo>::empty());
        assert(sizes(parts.take(0)) == 0);
    }
}

impl HttpDownloader {
    /// Cuts a file into parts.
    pub fn create_parts(total_bytes: u64, num_parts: usize) -> (r: Vec<PartInfo>)
        requires
            part_count(num_parts) <= total_bytes,
        ensures
            r@ == cut(total_bytes, num_parts),
    {
        let count: usize = if num_parts < 1 {
            1
        } else if num_parts > 64 {
            64
        } else {
            num_parts
        };
        let part_size: u64 = total_bytes / count as u64;
        let mut parts: Vec<PartInfo> = Vec::with_capacity(count);
        let mut i: usize = 0;
        while i < count
            invariant
                i <= count,
                count == part_count(num_parts),
                1 <= count <= 64,
                count <= total_bytes,
                part_size == total_bytes as int / count as int,
                parts@ == cut(total_bytes, num_parts).take(i as int),
            decreases count - i,
        {
            proof {
                lemma_cut_arith(total_bytes as int, count as int, i as int);
            }
            let start: u64 = i as u64 * part_size;
            let end: u64 = if i == count - 1 {
                total_bytes - 1
            } else {
                (i as u64 + 1) * part_size - 1
            };
            parts.push(PartInfo { index: i, start, end, downloaded: 0, active: false });
            assert(parts@[i as int] == cut(total_bytes, num_parts)[i as int]);
            assert(parts@ =~= cut(total_bytes, num_parts).take(i + 1));
            i += 1;
        }
        assert(cut(total_bytes, num_parts).take(count as int) == cut(total_bytes, num_parts));
        parts
    }
}

proof fn lemma_fetched_grows(parts: Seq<PartInfo>, n: int)
    requires
        0 <= n <= parts.len(),
    ensures
        fetched(parts.take(n)) <= fetched(parts),
    decreases parts.len(),
{
    if n < parts.len() {
        lemma_fetched_grows(parts.drop_last(), n);
        assert(parts.drop_last().take(n) == parts.take(n));
    } else {
        assert(parts.take(n) == parts);
    }
}

/// How many bytes of the parts are there, where that is a number of 64 bits.
pub fn fetched_bytes(parts: &Vec<PartInfo>) -> (r: Option<u64>)
    ensures
        match r {
            Some(n) => n == fetched(parts@),
            None => fetched(parts@) > u64::MAX,
        },
{
    let mut sum: u64 = 0;
    let mut i: usize = 0;
    while i < parts.len()
        invariant
            i <= parts.len(),
            sum == fetched(parts@.take(i as int)),
        decreases parts.len() - i,
    {
        assert(parts@.take(i + 1).drop_last() == parts@.take(i as int));
        proof {
            lemma_fetched_grows(parts@, i + 1);
        }
        if parts[i].downloaded > u64::MAX - sum {
            return None;
        }
        sum = sum + parts[i].downloaded;
        i += 1;
    }
    assert(parts@.take(parts@.len() as int) == parts@);
    Some(sum)
}

/// A file is cut into as many parts as are wanted, but at least one and at most 64, all of the
/// same size, one behind the other, but for the last, which goes to the end.
pub proof fn cutting_gives_the_wanted_parts(total: u64, wanted: usize, i: int)
    requires
        wanted <= 1 ==> total >= 1,
        1 <= wanted <= 64 ==> total >= wanted,
        wanted > 64 ==> total >= 64,
        0 <= i < cut(total, wanted).len(),
    ensures
        ({
            let count: int = if wanted == 0 {
                1
            } else if wanted >= 64 {
                64
            } else {
                wanted as int
            };
            let size = total as int / count;
            let p = cut(total, wanted)[i];
            &&& cut(total, wanted).len() == count
            &&& p.index == i
            &&& p.start == i * size
            &&& i < count - 1 ==> p.end == i * size + size - 1
            &&& i == count - 1 ==> p.end == total - 1
            &&& p.downloaded == 0 && !p.active
        }),
{
    lemma_cut_arith(total as int, part_count(wanted), i);
}

/// What is there of parts is what is there of each, added up, in whatever order they come.
pub proof fn what_is_there_adds_up(parts: Seq<PartInfo>, p: PartInfo)
    ensures
        fetched(Seq::<PartInfo>::empty()) == 0,
        fetched(parts.push(p)) == fetched(parts) + p.downloaded,
        sizes(Seq::<PartInfo>::empty()) == 0,
        sizes(parts.push(p)) == sizes(parts) + (p.end - p.start + 1),
{
    assert(parts.push(p).drop_last() =~= parts);
}

} // verus!
