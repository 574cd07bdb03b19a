//! Fetching: how one connection brings in its part of a file, when it asks again and when it
//! gives up.

use vstd::prelude::*;

use crate::http;
use crate::number::{self, decimal_string};
use crate::text::joined;
use crate::types::PartInfo;

verus! {

/// How often a part is asked for again before it is given up.
pub const MAX_RETRIES: u32 = 5;

/// What a worker waits for.
#[derive(Debug, Clone, Copy, PartialEq, Eq, Structural)]
pub enum Stage {
    /// To be told to go on.
    Idle,
    /// The reply to its request.
    Asked,
    /// The next piece of the body.
    Reading,
    /// The piece at hand to be written to the file.
    Writing,
    /// Nothing: it is done.
    Over,
}

/// What a worker wants done.
#[derive(Debug, PartialEq, Eq)]
pub enum Next {
    /// Ask the server for the bytes `first` to `last`, both included.
    Ask { first: u64, last: u64 },
    /// Read the next piece of the body.
    Read,
    /// Write the piece at hand at this position of the file.
    Write { at: u64 },
    /// Let some time pass, then go on.
    Rest { millis: u64 },
    /// Nothing: the work has ended well.
    Finished,
    /// Nothing: the work has failed.
    Failed(String),
}

/// One connection at work on one part of a file.
#[derive(Debug, Clone, Copy, PartialEq, Eq)]
pub struct PartWorker {
    pub index: usize,
    pub start: u64,
    pub end: u64,
    /// Where the next byte goes.
    pub offset: u64,
    pub retries: u32,
    pub stage: Stage,
}

/// What a worker that gives up says.
pub open spec fn gave_up(index: usize) -> Seq<char> {
    "Max retries exceeded for part "@ + number::decimal(index as nat)
}

/// How long a worker rests before it asks for the n-th time again: twice as long each time.
pub open spec fn pause_millis(n: int) -> int
    decreases n,
{
    if n <= 0 {
        500
    } else {
        2 * pause_millis(n - 1)
    }
}

/// The value of the `Range` header that asks for the bytes `first` to `last`.
pub open spec fn range_text(first: u64, last: u64) -> Seq<char> {
    "bytes="@ + number::decimal(first as nat) + "-"@ + number::decimal(last as nat)
}

/// Where the first byte of a part goes that is not there yet.
pub open spec fn resume_at(part: PartInfo) -> int {
    part.start + part.downloaded
}

/// The parts with one of them no longer being fetched.
pub open spec fn put_down(parts: Seq<PartInfo>, index: int) -> Seq<PartInfo> {
    parts.update(index, PartInfo { active: false, ..parts[index] })
}

/// The parts with `len` bytes more of one of them there.
pub open spec fn grown(parts: Seq<PartInfo>, index: int, len: u64) -> Seq<PartInfo> {
    parts.update(
        index,
        PartInfo { downloaded: (parts[index].downloaded + len) as u64, ..parts[index] },
    )
}

/// Whether a byte of the file is there: it is in a part, before the place where the work on that
/// part goes on.
pub open spec fn is_there(parts: Seq<PartInfo>, byte: u64) -> bool {
    exists|i: int|
        0 <= i < parts.len() && (#[trigger] parts[i]).start <= byte <= parts[i].end && byte
            < resume_at(parts[i])
}

/// What comes of setting to work on a part: a worker that stands where the part goes on, unless
/// there is no such part or nothing of it is missing.
pub open spec fn begun(
    before: Seq<PartInfo>,
    index: usize,
    after: Seq<PartInfo>,
    r: Option<PartWorker>,
) -> bool {
    if index >= before.len() {
        r is None && after == before
    } else {
        let part = before[index as int];
        if resume_at(part) > part.end {
            r is None && after == put_down(before, index as int)
        } else {
            &&& after == before.update(index as int, PartInfo { active: true, ..part })
            &&& r == Some(
                PartWorker {
                    index,
                    start: part.start,
                    end: part.end,
                    offset: resume_at(part) as u64,
                    retries: 0,
                    stage: Stage::Idle,
                },
            )
        }
    }
}

/// What comes of going on.
pub open spec fn gone_on(
    before: PartWorker,
    parts_before: Seq<PartInfo>,
    cancelled: bool,
    after: PartWorker,
    parts_after: Seq<PartInfo>,
    r: Next,
) -> bool {
    if cancelled {
        &&& r == Next::Finished
        &&& after == (PartWorker { stage: Stage::Over, ..before })
        &&& parts_after == put_down(parts_before, before.index as int)
    } else {
        &&& r == (Next::Ask { first: before.offset, last: before.end })
        &&& after == (PartWorker { stage: Stage::Asked, ..before })
        &&& parts_after == parts_before
    }
}

/// What comes of a reply with this status.
pub open spec fn reply_came(
    before: PartWorker,
    parts_before: Seq<PartInfo>,
    status: u16,
    after: PartWorker,
    parts_after: Seq<PartInfo>,
    r: Next,
) -> bool {
    if http::is_success(status) {
        &&& r == Next::Read
        &&& after == (PartWorker { stage: Stage::Reading, ..before })
        &&& parts_after == parts_before
    } else {
        PartWorker::failed_attempt(before, parts_before, after, parts_after, r)
    }
}

/// What comes of a piece of the body.
pub open spec fn piece_came(
    before: PartWorker,
    parts_before: Seq<PartInfo>,
    cancelled: bool,
    after: PartWorker,
    parts_after: Seq<PartInfo>,
    r: Next,
) -> bool {
    if cancelled {
        PartWorker::failed_attempt(before, parts_before, after, parts_after, r)
    } else {
        &&& r == (Next::Write { at: before.offset })
        &&& after == (PartWorker { stage: Stage::Writing, ..before })
        &&& parts_after == parts_before
    }
}

/// What comes of a piece of `len` bytes that has been written.
pub open spec fn piece_written(
    before: PartWorker,
    parts_before: Seq<PartInfo>,
    len: u64,
    after: PartWorker,
    parts_after: Seq<PartInfo>,
    r: Next,
) -> bool {
    &&& r == Next::Read
    &&& after == (PartWorker {
        stage: Stage::Reading,
        offset: (before.offset + len) as u64,
        ..before
    })
    &&& parts_after == grown(parts_before, before.index as int, len)
}

/// What comes of the end of the body.
pub open spec fn body_ended(
    before: PartWorker,
    parts_before: Seq<PartInfo>,
    after: PartWorker,
    parts_after: Seq<PartInfo>,
    r: Next,
) -> bool {
    if before.offset > before.end {
        &&& r == Next::Finished
        &&& after == (PartWorker { stage: Stage::Over, ..before })
        &&& parts_after == parts_before.update(
            before.index as int,
            PartInfo {
                downloaded: (before.end - before.start + 1) as u64,
                active: false,
                ..parts_before[before.index as int]
            },
        )
    } else {
        PartWorker::failed_attempt(before, parts_before, after, parts_after, r)
    }
}

impl PartWorker {
    /// The worker stands where its part says: what lies between the start of the part and its
    /// position is what the part counts as there, and the part is marked as being fetched.
    pub open spec fn tracks(self, parts: Seq<PartInfo>) -> bool {
        &&& self.index < parts.len()
        &&& parts[self.index as int].start == self.start
        &&& parts[self.index as int].end == self.end
        &&& self.start <= self.end
        &&& self.retries <= MAX_RETRIES
        &&& self.stage != Stage::Over ==> {
            &&& parts[self.index as int].active
            &&& self.offset == self.start + parts[self.index as int].downloaded
        }
        &&& self.stage == Stage::Over ==> !parts[self.index as int].active
    }

    /// Sets to work on a part, from the first byte that is not there. There is no work where
    /// there is no such part, nor where all of it is there.
    pub fn begin(parts: &mut Vec<PartInfo>, index: usize) -> (r: Option<PartWorker>)
        requires
            index < old(parts)@.len() ==> resume_at(old(parts)@[index as int]) <= u64::MAX,
        ensures
            begun(old(parts)@, index, final(parts)@, r),
            r matches Some(w) ==> w.tracks(final(parts)@),
    {
        if index >= parts.len() {
            return None;
        }
        let part = parts[index];
        let offset: u64 = part.start + part.downloaded;
        if offset > part.end {
            parts.set(index, PartInfo { active: false, ..part });
            return None;
        }
        parts.set(index, PartInfo { active: true, ..part });
        Some(
            PartWorker {
                index,
                start: part.start,
                end: part.end,
                offset,
                retries: 0,
                stage: Stage::Idle,
            },
        )
    }

    fn release(&mut self, parts: &mut Vec<PartInfo>)
        requires
            old(self).tracks(old(parts)@),
            old(self).stage != Stage::Over,
        ensures
            *final(self) == (PartWorker { stage: Stage::Over, ..*old(self) }),
            final(parts)@ == put_down(old(parts)@, old(self).index as int),
            final(self).tracks(final(parts)@),
    {
        let part = parts[self.index];
        parts.set(self.index, PartInfo { active: false, ..part });
        self.stage = Stage::Over;
    }

    /// Goes on: asks for what is missing, unless the download has been cancelled.
    pub fn go(&mut self, parts: &mut Vec<PartInfo>, cancelled: bool) -> (r: Next)
        requires
            old(self).tracks(old(parts)@),
            old(self).stage == Stage::Idle,
        ensures
            final(self).tracks(final(parts)@),
            gone_on(*old(self), old(parts)@, cancelled, *final(self), final(parts)@, r),
    {
        if cancelled {
            self.release(parts);
            Next::Finished
        } else {
            self.stage = Stage::Asked;
            Next::Ask { first: self.offset, last: self.end }
        }
    }

    /// The download was cancelled while the reply was awaited.
    pub fn cancelled(&mut self, parts: &mut Vec<PartInfo>) -> (r: Next)
        requires
            old(self).tracks(old(parts)@),
            old(self).stage == Stage::Asked,
        ensures
            final(self).tracks(final(parts)@),
            r == Next::Finished,
            *final(self) == (PartWorker { stage: Stage::Over, ..*old(self) }),
            final(parts)@ == put_down(old(parts)@, old(self).index as int),
    {
        self.release(parts);
        Next::Finished
    }

    /// The server has begun to send what was asked for.
    pub fn accepted(&mut self) -> (r: Next)
        requires
            old(self).stage == Stage::Asked,
        ensures
            r == Next::Read,
            *final(self) == (PartWorker { stage: Stage::Reading, ..*old(self) }),
    {
        self.stage = Stage::Reading;
        Next::Read
    }

    /// What comes of an attempt that failed: the worker asks again after a rest, or gives up.
    pub open spec fn failed_attempt(
        before: PartWorker,
        parts_before: Seq<PartInfo>,
        after: PartWorker,
        parts_after: Seq<PartInfo>,
        r: Next,
    ) -> bool {
        if before.retries + 1 > MAX_RETRIES {
            &&& after == (PartWorker { stage: Stage::Over, ..before })
            &&& parts_after == put_down(parts_before, before.index as int)
            &&& r matches Next::Failed(message) && message@ == gave_up(before.index)
        } else {
            &&& after == (PartWorker {
                stage: Stage::Idle,
                retries: (before.retries + 1) as u32,
                ..before
            })
            &&& parts_after == parts_before
            &&& r == (Next::Rest { millis: pause_millis(before.retries + 1) as u64 })
        }
    }

    fn retry(&mut self, parts: &mut Vec<PartInfo>) -> (r: Next)
        requires
            old(self).tracks(old(parts)@),
            old(self).stage != Stage::Over,
        ensures
            final(self).tracks(final(parts)@),
            Self::failed_attempt(*old(self), old(parts)@, *final(self), final(parts)@, r),
    {
        if self.retries + 1 > MAX_RETRIES {
            self.release(parts);
            return Next::Failed(
                joined("Max retries exceeded for part ", &decimal_string(self.index as u64)),
            );
        }
        self.retries = self.retries + 1;
        self.stage = Stage::Idle;
        Next::Rest { millis: pause_after(self.retries) }
    }

    /// The server refused, or could not be reached.
    pub fn refused(&mut self, parts: &mut Vec<PartInfo>) -> (r: Next)
        requires
            old(self).tracks(old(parts)@),
            old(self).stage == Stage::Asked,
        ensures
            final(self).tracks(final(parts)@),
            Self::failed_attempt(*old(self), old(parts)@, *final(self), final(parts)@, r),
    {
        self.retry(parts)
    }

    /// The server has replied with this status: it sends what was asked for, or it refused.
    pub fn replied(&mut self, parts: &mut Vec<PartInfo>, status: u16) -> (r: Next)
        requires
            old(self).tracks(old(parts)@),
            old(self).stage == Stage::Asked,
        ensures
            final(self).tracks(final(parts)@),
            reply_came(*old(self), old(parts)@, status, *final(self), final(parts)@, r),
    {
        if 200 <= status && status <= 299 {
            self.accepted()
        } else {
            self.refused(parts)
        }
    }

    /// A piece of the body has come in. It is written, unless the download has been cancelled.
    pub fn chunk(&mut self, parts: &mut Vec<PartInfo>, cancelled: bool) -> (r: Next)
        requires
            old(self).tracks(old(parts)@),
            old(self).stage == Stage::Reading,
        ensures
            final(self).tracks(final(parts)@),
            piece_came(*old(self), old(parts)@, cancelled, *final(self), final(parts)@, r),
    {
        if cancelled {
            self.retry(parts)
        } else {
            self.stage = Stage::Writing;
            Next::Write { at: self.offset }
        }
    }

    /// The body broke off.
    pub fn broken(&mut self, parts: &mut Vec<PartInfo>) -> (r: Next)
        requires
            old(self).tracks(old(parts)@),
            old(self).stage == Stage::Reading,
        ensures
            final(self).tracks(final(parts)@),
            Self::failed_attempt(*old(self), old(parts)@, *final(self), final(parts)@, r),
    {
        self.retry(parts)
    }

    /// Whether a piece of `len` bytes can be counted.
    pub open spec fn spec_has_room(self, len: u64) -> bool {
        self.offset + len <= u64::MAX
    }

    /// Whether a piece of `len` bytes can be counted.
    pub fn has_room(&self, len: u64) -> (r: bool)
        ensures
            r == self.spec_has_room(len),
    {
        len <= u64::MAX - self.offset
    }

    /// The piece at hand, of `len` bytes, is in the file.
    pub fn written(&mut self, parts: &mut Vec<PartInfo>, len: u64) -> (r: Next)
        requires
            old(self).tracks(old(parts)@),
            old(self).stage == Stage::Writing,
            old(self).spec_has_room(len),
        ensures
            final(self).tracks(final(parts)@),
            piece_written(*old(self), old(parts)@, len, *final(self), final(parts)@, r),
    {
        let part = parts[self.index];
        parts.set(self.index, PartInfo { downloaded: part.downloaded + len, ..part });
        self.offset = self.offset + len;
        self.stage = Stage::Reading;
        Next::Read
    }

    /// The piece at hand could not be written.
    pub fn write_failed(&mut self, parts: &mut Vec<PartInfo>) -> (r: Next)
        requires
            old(self).tracks(old(parts)@),
            old(self).stage == Stage::Writing,
        ensures
            final(self).tracks(final(parts)@),
            Self::failed_attempt(*old(self), old(parts)@, *final(self), final(parts)@, r),
    {
        self.retry(parts)
    }

    /// The body has come to its end. The part is complete if nothing of it is missing; then it
    /// counts as there in its exact size.
    pub fn ended(&mut self, parts: &mut Vec<PartInfo>) -> (r: Next)
        requires
            old(self).tracks(old(parts)@),
            old(self).stage == Stage::Reading,
        ensures
            final(self).tracks(final(parts)@),
            body_ended(*old(self), old(parts)@, *final(self), final(parts)@, r),
    {
        if self.offset > self.end {
            let part = parts[self.index];
            parts.set(
                self.index,
                PartInfo { downloaded: part.end - part.start + 1, active: false, ..part },
            );
            self.stage = Stage::Over;
            Next::Finished
        } else {
            self.retry(parts)
        }
    }
}

fn pause_after(n: u32) -> (r: u64)
    requires
        n <= MAX_RETRIES,
    ensures
        r == pause_millis(n as int),
        r <= 16000,
{
    let mut millis: u64 = 500;
    let mut i: u32 = 0;
    while i < n
        invariant
            i <= n <= MAX_RETRIES,
            millis == pause_millis(i as int),
            i == 0 ==> millis == 500,
            i == 1 ==> millis == 1000,
            i == 2 ==> millis == 2000,
            i == 3 ==> millis == 4000,
            i == 4 ==> millis == 8000,
            i == 5 ==> millis == 16000,
        decreases n - i,
    {
        millis = 2 * millis;
        i += 1;
    }
    millis
}

/// The value of the `Range` header that asks for the bytes `first` to `last`.
pub fn range_header(first: u64, last: u64) -> (r: String)
    ensures
        r@ == range_text(first, last),
{
    let mut r: String = joined("bytes=", &decimal_string(first));
    r.append("-");
    r.append(&decimal_string(last));
    r
}

/// What a worker has written is not fetched again: whenever it stops, its part says that the
/// work goes on where the worker stood, and the other parts are as they were.
pub proof fn stopping_keeps_what_is_there(w: PartWorker, parts: Seq<PartInfo>)
    requires
        w.tracks(parts),
        w.stage != Stage::Over,
    ensures
        resume_at(put_down(parts, w.index as int)[w.index as int]) == w.offset,
        forall|i: int|
            0 <= i < parts.len() && i != w.index ==> put_down(parts, w.index as int)[i] == parts[i],
{
}

/// A piece that has been written, at the position where the worker stood, is there, as far as it
/// belongs to the part; and what was there still is.
pub proof fn a_written_piece_is_there(w: PartWorker, parts: Seq<PartInfo>, len: u64, byte: u64)
    requires
        w.tracks(parts),
        w.stage != Stage::Over,
        w.spec_has_room(len),
    ensures
        w.offset <= byte < w.offset + len && byte <= w.end ==> is_there(
            grown(parts, w.index as int, len),
            byte,
        ),
        is_there(parts, byte) ==> is_there(grown(parts, w.index as int, len), byte),
{
    let after = grown(parts, w.index as int, len);
    if w.offset <= byte < w.offset + len && byte <= w.end {
        assert(after[w.index as int].start <= byte);
    }
    if is_there(parts, byte) {
        let i = choose|i: int|
            0 <= i < parts.len() && (#[trigger] parts[i]).start <= byte <= parts[i].end && byte
                < resume_at(parts[i]);
        assert(after[i].start <= byte);
    }
}

/// How often a worker may still fail before it has given up.
pub open spec fn attempts_left(w: PartWorker) -> int {
    if w.stage == Stage::Over {
        0
    } else {
        MAX_RETRIES + 1 - w.retries
    }
}

/// Every attempt that fails uses up one of those that are left, so a worker that only meets
/// with failures comes to an end; what is there of its part is kept each time.
pub proof fn every_failure_uses_up_an_attempt(
    before: PartWorker,
    parts_before: Seq<PartInfo>,
    after: PartWorker,
    parts_after: Seq<PartInfo>,
    r: Next,
)
    requires
        before.tracks(parts_before),
        before.stage != Stage::Over,
        PartWorker::failed_attempt(before, parts_before, after, parts_after, r),
    ensures
        attempts_left(before) >= 1,
        attempts_left(after) == attempts_left(before) - 1,
        attempts_left(after) == 0 <==> r is Failed,
        parts_after[before.index as int].downloaded
            == parts_before[before.index as int].downloaded,
{
}

/// A file that comes in as one stream.
#[derive(Debug, Clone, Copy, PartialEq, Eq)]
pub struct SingleStream {
    /// Where the next byte goes.
    pub offset: u64,
}

/// What comes of taking up the reply of the server to a request for a whole file.
pub open spec fn opened(
    status: u16,
    status_text: Seq<char>,
    r: Result<SingleStream, String>,
) -> bool {
    if http::is_success(status) {
        r == Ok::<SingleStream, String>(SingleStream { offset: 0 })
    } else {
        r matches Err(message) && message@ == "Server returned HTTP "@ + status_text
    }
}

/// What is to be done with a piece of a file that comes in as one stream.
pub open spec fn stream_next(s: SingleStream, cancelled: bool) -> Next {
    if cancelled {
        Next::Finished
    } else {
        Next::Write { at: s.offset }
    }
}

/// What the end of one part means for the whole download.
pub open spec fn outcome_of(failure: Option<String>, cancelled: bool) -> Option<String> {
    if cancelled {
        None
    } else {
        failure
    }
}

impl SingleStream {
    /// Takes up the reply of the server, if it is one of success.
    pub fn open(status: u16, status_text: &str) -> (r: Result<SingleStream, String>)
        ensures
            opened(status, status_text@, r),
    {
        if 200 <= status && status <= 299 {
            Ok(SingleStream { offset: 0 })
        } else {
            Err(joined("Server returned HTTP ", status_text))
        }
    }

    /// A piece of the body has come in: it is written, unless the download has been cancelled.
    pub fn chunk(&self, cancelled: bool) -> (r: Next)
        ensures
            r == stream_next(*self, cancelled),
    {
        if cancelled {
            Next::Finished
        } else {
            Next::Write { at: self.offset }
        }
    }

    /// Whether a piece of `len` bytes can be counted.
    pub fn has_room(&self, len: u64) -> (r: bool)
        ensures
            r == (self.offset + len <= u64::MAX),
    {
        len <= u64::MAX - self.offset
    }

    /// The piece at hand, of `len` bytes, is in the file.
    pub fn written(&mut self, len: u64)
        requires
            old(self).offset + len <= u64::MAX,
        ensures
            final(self).offset == old(self).offset + len,
    {
        self.offset = self.offset + len;
    }
}

/// What the end of one part means for the whole download: a failure ends it, unless it has
/// been cancelled.
pub fn part_outcome(failure: Option<String>, cancelled: bool) -> (r: Option<String>)
    ensures
        r == outcome_of(failure, cancelled),
{
    if cancelled {
        None
    } else {
        failure
    }
}

/// Two parts of the same stretch of the file, of which as much is there.
pub open spec fn same_stretch(a: PartInfo, b: PartInfo) -> bool {
    a.index == b.index && a.start == b.start && a.end == b.end && a.downloaded == b.downloaded
}

/// Setting to work on any part of which something is missing gives a worker that stands behind
/// what is there, and on any other none; all other parts stay as they are, and of this one as
/// much is there as before.
pub proof fn work_begins_where_it_stopped(
    before: Seq<PartInfo>,
    index: usize,
    after: Seq<PartInfo>,
    r: Option<PartWorker>,
)
    requires
        begun(before, index, after, r),
        index < before.len(),
        before[index as int].start + before[index as int].downloaded <= u64::MAX,
    ensures
        ({
            let p = before[index as int];
            let missing = p.start + p.downloaded <= p.end;
            &&& r is Some <==> missing
            &&& missing ==> r->0.offset == p.start + p.downloaded && r->0.end == p.end
                && r->0.start == p.start && r->0.index == index && r->0.retries == 0
                && r->0.stage == Stage::Idle
            &&& after.len() == before.len()
            &&& after[index as int].active == missing
            &&& same_stretch(after[index as int], p)
            &&& forall|i: int|
                0 <= i < before.len() && i != index ==> #[trigger] after[i] == before[i]
        }),
{
}

/// Work that goes on asks for all that is missing, from where it stands to the end of the part;
/// work that has been cancelled asks for nothing and is over.
pub proof fn work_asks_for_all_that_is_missing(
    w: PartWorker,
    parts: Seq<PartInfo>,
    cancelled: bool,
    after: PartWorker,
    parts_after: Seq<PartInfo>,
    r: Next,
)
    requires
        w.tracks(parts),
        w.stage == Stage::Idle,
        gone_on(w, parts, cancelled, after, parts_after, r),
    ensures
        !cancelled ==> r == (Next::Ask {
            first: (parts[w.index as int].start + parts[w.index as int].downloaded) as u64,
            last: parts[w.index as int].end,
        }) && parts_after == parts && after.stage == Stage::Asked,
        cancelled ==> r == Next::Finished && after.stage == Stage::Over
            && !parts_after[w.index as int].active && same_stretch(
            parts_after[w.index as int],
            parts[w.index as int],
        ),
        after.offset == w.offset && after.retries == w.retries && after.index == w.index,
{
}

/// Every status from 200 to 299 lets the body be read, and every other is a failure.
pub proof fn success_lets_the_body_be_read(
    w: PartWorker,
    parts: Seq<PartInfo>,
    status: u16,
    after: PartWorker,
    parts_after: Seq<PartInfo>,
    r: Next,
)
    requires
        w.tracks(parts),
        w.stage == Stage::Asked,
        reply_came(w, parts, status, after, parts_after, r),
    ensures
        200 <= status <= 299 <==> r == Next::Read,
        200 <= status <= 299 ==> parts_after == parts && after.stage == Stage::Reading
            && after.offset == w.offset && after.retries == w.retries,
        !(200 <= status <= 299) ==> r is Rest || r is Failed,
{
}

/// A piece of any length is written where the worker stands, and then counted, to the byte, in
/// the worker and in its part and nowhere else.
pub proof fn a_piece_is_written_and_counted(
    w: PartWorker,
    parts: Seq<PartInfo>,
    writing: PartWorker,
    parts_writing: Seq<PartInfo>,
    to_write: Next,
    len: u64,
    after: PartWorker,
    parts_after: Seq<PartInfo>,
    r: Next,
)
    requires
        w.tracks(parts),
        w.stage == Stage::Reading,
        w.offset + len <= u64::MAX,
        piece_came(w, parts, false, writing, parts_writing, to_write),
        piece_written(writing, parts_writing, len, after, parts_after, r),
    ensures
        to_write == (Next::Write { at: w.offset }),
        r == Next::Read,
        after.offset == w.offset + len,
        after.stage == Stage::Reading,
        after.retries == w.retries,
        parts_after.len() == parts.len(),
        parts_after[w.index as int].downloaded == parts[w.index as int].downloaded + len,
        parts_after[w.index as int].active,
        forall|i: int| 0 <= i < parts.len() && i != w.index ==> #[trigger] parts_after[i] == parts[i],
{
}

/// The end of the body completes a part exactly where nothing of it is missing. It then counts in
/// its exact size, and else the attempt has failed.
pub proof fn a_part_is_complete_when_nothing_is_missing(
    w: PartWorker,
    parts: Seq<PartInfo>,
    after: PartWorker,
    parts_after: Seq<PartInfo>,
    r: Next,
)
    requires
        w.tracks(parts),
        w.stage == Stage::Reading,
        w.end - w.start < u64::MAX,
        body_ended(w, parts, after, parts_after, r),
    ensures
        ({
            let p = parts[w.index as int];
            let q = parts_after[w.index as int];
            let complete = p.start + p.downloaded > p.end;
            &&& r == Next::Finished <==> complete
            &&& complete ==> q.downloaded == p.end - p.start + 1 && !q.active && q.start == p.start
                && q.end == p.end && after.stage == Stage::Over
            &&& !complete ==> (r is Rest || r is Failed) && q.downloaded == p.downloaded
            &&& forall|i: int|
                0 <= i < parts.len() && i != w.index ==> #[trigger] parts_after[i] == parts[i]
        }),
{
}

/// A part is asked for again five times, after one, two, four, eight and sixteen seconds, and then
/// given up, whichever part it is; what is there of it is kept, and so is where the work goes on.
pub proof fn a_part_is_tried_six_times(
    w: PartWorker,
    parts: Seq<PartInfo>,
    after: PartWorker,
    parts_after: Seq<PartInfo>,
    r: Next,
)
    requires
        w.tracks(parts),
        w.stage != Stage::Over,
        PartWorker::failed_attempt(w, parts, after, parts_after, r),
    ensures
        w.retries == 0 ==> r == (Next::Rest { millis: 1000 }),
        w.retries == 1 ==> r == (Next::Rest { millis: 2000 }),
        w.retries == 2 ==> r == (Next::Rest { millis: 4000 }),
        w.retries == 3 ==> r == (Next::Rest { millis: 8000 }),
        w.retries == 4 ==> r == (Next::Rest { millis: 16000 }),
        w.retries < 5 ==> after.retries == w.retries + 1 && after.stage == Stage::Idle
            && parts_after == parts,
        w.retries == 5 ==> after.stage == Stage::Over && r is Failed && r->Failed_0@
            == "Max retries exceeded for part "@ + number::decimal(w.index as nat),
        w.retries <= 5,
        after.offset == w.offset,
        after.index == w.index && after.end == w.end && after.start == w.start,
        same_stretch(parts_after[w.index as int], parts[w.index as int]),
        forall|i: int| 0 <= i < parts.len() && i != w.index ==> #[trigger] parts_after[i] == parts[i],
{
    reveal_with_fuel(pause_millis, 7);
}

/// A range is asked for with its first and its last byte, whatever they are.
pub proof fn a_range_names_its_ends(first: u64, last: u64)
    ensures
        range_text(first, last) == "bytes="@ + number::decimal(first as nat) + seq!['-']
            + number::decimal(last as nat),
{
    reveal_strlit("-");
    assert("-"@ =~= seq!['-']);
}

/// A file that comes in as one stream is taken up from its first byte where the reply is one of
/// success, whichever that is, and else refused with the status; each piece is written where the
/// stream stands, unless the download has been cancelled.
pub proof fn a_stream_begins_at_the_first_byte(
    status: u16,
    status_text: Seq<char>,
    r: Result<SingleStream, String>,
    s: SingleStream,
)
    requires
        opened(status, status_text, r),
    ensures
        r is Ok <==> 200 <= status < 300,
        r is Ok ==> r->Ok_0.offset == 0,
        r is Err ==> r->Err_0@ == "Server returned HTTP "@ + status_text,
        stream_next(s, false) == (Next::Write { at: s.offset }),
        stream_next(s, true) == Next::Finished,
{
}

/// The failure of a part, whatever it says, is that of the download, unless it was cancelled.
pub proof fn a_failed_part_fails_the_download(failure: Option<String>)
    ensures
        outcome_of(failure, false) == failure,
        outcome_of(failure, true) is None,
{
}

} // verus!
