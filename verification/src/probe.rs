//! Asking a server about a file before it is fetched.

use vstd::prelude::*;

use crate::http::{self, HttpDownloader};
use crate::number::{self, parse_number};
use crate::text::{
    self, chars_of, joined, same_ignoring_case, tail_after_last, trim, Edge,
};

verus! {

/// What a server says of a file.
#[derive(Debug, Clone, PartialEq, Eq)]
pub struct ProbeResult {
    pub filename: String,
    pub total_bytes: Option<u64>,
    pub supports_ranges: bool,
}

/// What a server says of a file, with the name as characters.
#[verifier::ext_equal]
pub struct ProbeView {
    pub filename: Seq<char>,
    pub total_bytes: Option<u64>,
    pub supports_ranges: bool,
}

impl View for ProbeResult {
    type V = ProbeView;

    open spec fn view(&self) -> ProbeView {
        ProbeView {
            filename: self.filename@,
            total_bytes: self.total_bytes,
            supports_ranges: self.supports_ranges,
        }
    }
}

/// The reply to a probe: its status, as a code and as text, and the headers that matter.
#[derive(Debug, PartialEq, Eq)]
pub struct HttpReply {
    pub status: u16,
    pub status_text: String,
    pub content_disposition: Option<String>,
    pub content_length: Option<String>,
    pub content_range: Option<String>,
    pub accept_ranges: Option<String>,
}

/// The ways to ask, in the order in which they are tried.
#[derive(Debug, Clone, Copy, PartialEq, Eq, Structural)]
pub enum ProbeStrategy {
    /// For the first byte alone.
    Range,
    /// For the headers alone.
    Head,
    /// For the whole file.
    Get,
}

/// What follows from the reply to a probe.
#[derive(Debug, PartialEq, Eq)]
pub enum ProbeNext {
    Found(ProbeResult),
    Try(ProbeStrategy),
    Failed(String),
}

/// The length of the file that a `Content-Length` header gives.
pub open spec fn length_of(header: Option<String>) -> Option<u64> {
    match header {
        Some(s) => number::number(s@),
        None => None,
    }
}

/// The length of the whole file that a `Content-Range` header gives: what follows the last
/// slash.
pub open spec fn total_of(header: Option<String>) -> Option<u64> {
    match header {
        Some(s) => number::number(text::trimmed(text::after_last(s@, '/'), Edge::Space)),
        None => None,
    }
}

/// Whether an `Accept-Ranges` header says that parts can be asked for.
pub open spec fn ranges_of(header: Option<String>) -> bool {
    match header {
        Some(s) => text::same_but_case(s@, "bytes"@),
        None => false,
    }
}

/// What the reply to a probe of each kind says of a file of the given name; a reply that is no
/// success says nothing.
pub open spec fn reply_says(
    strategy: ProbeStrategy,
    filename: Seq<char>,
    reply: HttpReply,
) -> Option<ProbeView> {
    if strategy == ProbeStrategy::Range && reply.status == 206 {
        Some(
            ProbeView {
                filename,
                total_bytes: total_of(reply.content_range),
                supports_ranges: true,
            },
        )
    } else if http::is_success(reply.status) {
        Some(
            ProbeView {
                filename,
                total_bytes: length_of(reply.content_length),
                supports_ranges: strategy != ProbeStrategy::Get && ranges_of(reply.accept_ranges),
            },
        )
    } else {
        None
    }
}

/// What a probe that failed says.
pub open spec fn failure_text(strategy: ProbeStrategy, reply: Option<HttpReply>) -> Seq<char> {
    match strategy {
        ProbeStrategy::Range => match reply {
            Some(r) => "Range probe HTTP "@ + r.status_text@,
            None => "Range probe failed"@,
        },
        ProbeStrategy::Head => match reply {
            Some(r) => "HEAD probe HTTP "@ + r.status_text@,
            None => "HEAD probe failed"@,
        },
        ProbeStrategy::Get => match reply {
            Some(r) => "GET probe HTTP "@ + r.status_text@,
            None => "GET probe failed"@,
        },
    }
}

/// Whether a reply says something of the file.
pub open spec fn tells(reply: Option<HttpReply>) -> bool {
    reply matches Some(r) && http::is_success(r.status)
}

fn header_length(header: &Option<String>) -> (r: Option<u64>)
    ensures
        r == length_of(*header),
{
    match header {
        Some(s) => parse_number(&chars_of(s)),
        None => None,
    }
}

fn header_total(header: &Option<String>) -> (r: Option<u64>)
    ensures
        r == total_of(*header),
{
    match header {
        Some(s) => parse_number(trim(tail_after_last(&chars_of(s), '/'), Edge::Space)),
        None => None,
    }
}

fn header_ranges(header: &Option<String>) -> (r: bool)
    ensures
        r == ranges_of(*header),
{
    match header {
        Some(s) => same_ignoring_case(&chars_of(s), &chars_of("bytes")),
        None => false,
    }
}

/// What the reply to a probe says of a file of the given name.
pub fn read_reply(strategy: ProbeStrategy, filename: String, reply: &HttpReply) -> (r: Option<
    ProbeResult,
>)
    ensures
        match r {
            Some(found) => reply_says(strategy, filename@, *reply) == Some(found@),
            None => reply_says(strategy, filename@, *reply) is None,
        },
{
    if strategy == ProbeStrategy::Range && reply.status == 206 {
        return Some(
            ProbeResult {
                filename,
                total_bytes: header_total(&reply.content_range),
                supports_ranges: true,
            },
        );
    }
    if 200 <= reply.status && reply.status <= 299 {
        return Some(
            ProbeResult {
                filename,
                total_bytes: header_length(&reply.content_length),
                supports_ranges: strategy != ProbeStrategy::Get && header_ranges(
                    &reply.accept_ranges,
                ),
            },
        );
    }
    None
}

/// What a probe says of the file behind a URL, or why it says nothing.
pub open spec fn probe_outcome(
    strategy: ProbeStrategy,
    url: Seq<char>,
    reply: Option<HttpReply>,
    r: Result<ProbeResult, String>,
) -> bool {
    match r {
        Ok(found) => reply matches Some(rep) && reply_says(
            strategy,
            http::chosen_name(url, text::opt_text(rep.content_disposition)),
            rep,
        ) == Some(found@),
        Err(message) => !tells(reply) && message@ == failure_text(strategy, reply),
    }
}

/// What follows from the reply to a probe.
pub open spec fn probe_next(
    strategy: ProbeStrategy,
    url: Seq<char>,
    reply: Option<HttpReply>,
    r: ProbeNext,
) -> bool {
    if tells(reply) {
        r matches ProbeNext::Found(found) && reply_says(
            strategy,
            http::chosen_name(url, text::opt_text(reply->0.content_disposition)),
            reply->0,
        ) == Some(found@)
    } else {
        match strategy {
            ProbeStrategy::Range => r == ProbeNext::Try(ProbeStrategy::Head),
            ProbeStrategy::Head => r == ProbeNext::Try(ProbeStrategy::Get),
            ProbeStrategy::Get => r matches ProbeNext::Failed(message) && message@ == failure_text(
                strategy,
                reply,
            ),
        }
    }
}

fn judge(
    strategy: ProbeStrategy,
    url: &str,
    reply: &Option<HttpReply>,
    refused: &str,
    failed: &str,
) -> (r: Result<ProbeResult, String>)
    requires
        reply matches Some(rep) ==> refused@ + rep.status_text@ == failure_text(strategy, *reply),
        reply is None ==> failed@ == failure_text(strategy, *reply),
    ensures
        probe_outcome(strategy, url@, *reply, r),
{
    match reply {
        Some(rep) => {
            let filename = HttpDownloader::extract_filename(url, &rep.content_disposition);
            match read_reply(strategy, filename, rep) {
                Some(found) => Ok(found),
                None => Err(joined(refused, &rep.status_text)),
            }
        },
        None => Err(failed.to_owned()),
    }
}

impl HttpDownloader {
    /// What a request for the first byte alone says.
    pub fn probe_with_range(url: &str, reply: &Option<HttpReply>) -> (r: Result<
        ProbeResult,
        String,
    >)
        ensures
            probe_outcome(ProbeStrategy::Range, url@, *reply, r),
    {
        judge(ProbeStrategy::Range, url, reply, "Range probe HTTP ", "Range probe failed")
    }

    /// What a request for the headers alone says.
    pub fn probe_with_head(url: &str, reply: &Option<HttpReply>) -> (r: Result<
        ProbeResult,
        String,
    >)
        ensures
            probe_outcome(ProbeStrategy::Head, url@, *reply, r),
    {
        judge(ProbeStrategy::Head, url, reply, "HEAD probe HTTP ", "HEAD probe failed")
    }

    /// What a request for the whole file says.
    pub fn probe_with_get(url: &str, reply: &Option<HttpReply>) -> (r: Result<ProbeResult, String>)
        ensures
            probe_outcome(ProbeStrategy::Get, url@, *reply, r),
    {
        judge(ProbeStrategy::Get, url, reply, "GET probe HTTP ", "GET probe failed")
    }

    /// What follows from the reply to a probe (`None` where there was no reply): the first reply
    /// of success is taken, one way to ask is tried after the other, and the failure of the last
    /// is the failure of all.
    pub fn probe(strategy: ProbeStrategy, url: &str, reply: &Option<HttpReply>) -> (r: ProbeNext)
        ensures
            probe_next(strategy, url@, *reply, r),
    {
        match strategy {
            ProbeStrategy::Range => match Self::probe_with_range(url, reply) {
                Ok(found) => ProbeNext::Found(found),
                Err(_) => ProbeNext::Try(ProbeStrategy::Head),
            },
            ProbeStrategy::Head => match Self::probe_with_head(url, reply) {
                Ok(found) => ProbeNext::Found(found),
                Err(_) => ProbeNext::Try(ProbeStrategy::Get),
            },
            ProbeStrategy::Get => match Self::probe_with_get(url, reply) {
                Ok(found) => ProbeNext::Found(found),
                Err(message) => ProbeNext::Failed(message),
            },
        }
    }
}

proof fn lemma_decimal_is_plain(n: u64)
    ensures
        text::trimmed(number::decimal(n as nat), Edge::Space) == number::decimal(n as nat),
        forall|i: int|
            0 <= i < number::decimal(n as nat).len() ==> #[trigger] number::decimal(n as nat)[i]
                != '/',
        number::number(number::decimal(n as nat)) == Some(n),
{
    let d = number::decimal(n as nat);
    number::lemma_decimal(n as nat);
    number::decimal_reads_back(n as nat);
    assert('0' <= d[0] <= '9' && '0' <= d[d.len() - 1] <= '9');
    assert('0' as u32 == 48 && '9' as u32 == 57 && '/' as u32 == 47);
    text::trimmed_leaves_alone(d, Edge::Space);
}

proof fn lemma_no_slash(x: Seq<char>, d: Seq<char>, y: Seq<char>)
    requires
        forall|i: int| 0 <= i < x.len() ==> text::is_space(#[trigger] x[i]),
        forall|i: int| 0 <= i < d.len() ==> #[trigger] d[i] != '/',
        forall|i: int| 0 <= i < y.len() ==> text::is_space(#[trigger] y[i]),
    ensures
        forall|i: int| 0 <= i < (x + d + y).len() ==> #[trigger] (x + d + y)[i] != '/',
{
    let tail = x + d + y;
    assert(!text::is_space('/'));
    assert forall|i: int| 0 <= i < tail.len() implies #[trigger] tail[i] != '/' by {
        if i < x.len() {
            assert(tail[i] == x[i]);
        } else if i < x.len() + d.len() {
            assert(tail[i] == d[i - x.len()]);
        } else {
            assert(tail[i] == y[i - x.len() - d.len()]);
        }
    }
}

proof fn lemma_text_is_found(front: Seq<char>, x: Seq<char>, d: Seq<char>, y: Seq<char>)
    requires
        forall|i: int| 0 <= i < x.len() ==> text::is_space(#[trigger] x[i]),
        forall|i: int| 0 <= i < y.len() ==> text::is_space(#[trigger] y[i]),
        forall|i: int| 0 <= i < d.len() ==> #[trigger] d[i] != '/',
        text::trimmed(d, Edge::Space) == d,
    ensures
        text::trimmed(text::after_last(front.push('/') + (x + d + y), '/'), Edge::Space) == d,
{
    lemma_no_slash(x, d, y);
    text::taking_what_follows_the_last(front, '/', x + d + y);
    text::trimmed_is_a_stretch(d, Edge::Space);
    text::trimming_takes_off_the_edges(x, d, y, Edge::Space);
}

/// A request for the first byte that is answered with a part says that parts can be asked for,
/// and what stands behind the last slash of the range, but for white space around it, is the
/// length of the file, whatever length that is.
pub proof fn a_partial_reply_gives_the_length(
    filename: Seq<char>,
    reply: HttpReply,
    front: Seq<char>,
    x: Seq<char>,
    total: u64,
    y: Seq<char>,
)
    requires
        reply.status == 206,
        forall|i: int| 0 <= i < x.len() ==> text::is_space(#[trigger] x[i]),
        forall|i: int| 0 <= i < y.len() ==> text::is_space(#[trigger] y[i]),
    ensures
        reply_says(ProbeStrategy::Range, filename, reply) is Some,
        ({
            let says = reply_says(ProbeStrategy::Range, filename, reply)->0;
            &&& says.filename == filename
            &&& says.supports_ranges
            &&& reply.content_range is None ==> says.total_bytes is None
            &&& reply.content_range is Some && reply.content_range->0@ == front.push('/') + (x
                + number::decimal(total as nat) + y) ==> says.total_bytes == Some(total)
            &&& reply.content_range is Some && reply.content_range->0@ == front.push('/').push('*')
                ==> says.total_bytes is None
            &&& reply.content_range is Some && (forall|i: int|
                0 <= i < reply.content_range->0@.len() ==> #[trigger] reply.content_range->0@[i]
                    != '/') ==> says.total_bytes == number::number(
                text::trimmed(reply.content_range->0@, Edge::Space),
            )
        }),
{
    if reply.content_range is Some {
        let all = reply.content_range->0@;
        if forall|i: int| 0 <= i < all.len() ==> #[trigger] all[i] != '/' {
            text::taking_what_follows_the_last(front, '/', all);
        }
    }
    let d = number::decimal(total as nat);
    lemma_decimal_is_plain(total);
    lemma_text_is_found(front, x, d, y);
    let star = seq!['*'];
    text::taking_what_follows_the_last(front, '/', star);
    assert(front.push('/') + star =~= front.push('/').push('*'));
    text::trimmed_leaves_alone(star, Edge::Space);
    number::only_digits_say_a_number(0, star, 0);
}

/// Any other reply of success gives the length that it says, whatever length that is, and says
/// that parts can be asked for where it says so in bytes, in any case; but for one that was the
/// whole file.
pub proof fn a_full_reply_gives_the_length(
    strategy: ProbeStrategy,
    filename: Seq<char>,
    reply: HttpReply,
    total: u64,
)
    requires
        200 <= reply.status < 300,
        strategy == ProbeStrategy::Range ==> reply.status != 206,
    ensures
        reply_says(strategy, filename, reply) is Some,
        ({
            let says = reply_says(strategy, filename, reply)->0;
            &&& says.filename == filename
            &&& reply.content_length is None ==> says.total_bytes is None
            &&& reply.content_length is Some && reply.content_length->0@ == number::decimal(
                total as nat,
            ) ==> says.total_bytes == Some(total)
            &&& reply.content_length is Some ==> says.total_bytes == number::number(
                reply.content_length->0@,
            )
            &&& says.supports_ranges <==> strategy != ProbeStrategy::Get && reply.accept_ranges is Some
                && text::lowered(reply.accept_ranges->0@) == "bytes"@
        }),
{
    lemma_decimal_is_plain(total);
    reveal_strlit("bytes");
    if reply.accept_ranges is Some {
        text::same_but_case_is_same_when_lowered(reply.accept_ranges->0@, "bytes"@);
        assert(text::lowered("bytes"@) =~= "bytes"@);
    }
}

/// A reply that is no success says nothing, whatever its headers.
pub proof fn no_success_says_nothing(
    strategy: ProbeStrategy,
    filename: Seq<char>,
    reply: HttpReply,
)
    requires
        reply.status < 200 || reply.status >= 300,
    ensures
        reply_says(strategy, filename, reply) is None,
        !tells(Some(reply)),
{
}

/// A failure names the probe, and the status where there was a reply.
pub proof fn a_failure_names_the_probe(strategy: ProbeStrategy, reply: Option<HttpReply>)
    ensures
        ({
            let what = match strategy {
                ProbeStrategy::Range => "Range probe"@,
                ProbeStrategy::Head => "HEAD probe"@,
                ProbeStrategy::Get => "GET probe"@,
            };
            failure_text(strategy, reply) == match reply {
                Some(r) => what + " HTTP "@ + r.status_text@,
                None => what + " failed"@,
            }
        }),
{
    reveal_strlit("Range probe");
    reveal_strlit("HEAD probe");
    reveal_strlit("GET probe");
    reveal_strlit(" HTTP ");
    reveal_strlit(" failed");
    reveal_strlit("Range probe HTTP ");
    reveal_strlit("HEAD probe HTTP ");
    reveal_strlit("GET probe HTTP ");
    reveal_strlit("Range probe failed");
    reveal_strlit("HEAD probe failed");
    reveal_strlit("GET probe failed");
    assert("Range probe HTTP "@ =~= "Range probe"@ + " HTTP "@);
    assert("HEAD probe HTTP "@ =~= "HEAD probe"@ + " HTTP "@);
    assert("GET probe HTTP "@ =~= "GET probe"@ + " HTTP "@);
    assert("Range probe failed"@ =~= "Range probe"@ + " failed"@);
    assert("HEAD probe failed"@ =~= "HEAD probe"@ + " failed"@);
    assert("GET probe failed"@ =~= "GET probe"@ + " failed"@);
}

/// The first reply of success is taken, to whatever probe it came; else the next way to ask is
/// tried: for the first byte, for the headers, for the whole file, and then no more. What is found
/// is called as the reply and the link say.
pub proof fn one_way_to_ask_is_tried_after_the_other(
    strategy: ProbeStrategy,
    url: Seq<char>,
    reply: Option<HttpReply>,
    r: ProbeNext,
)
    requires
        probe_next(strategy, url, reply, r),
    ensures
        ({
            let success = reply is Some && 200 <= reply->0.status < 300;
            &&& success <==> r is Found
            &&& success ==> r->Found_0.filename@ == http::chosen_name(
                url,
                text::opt_text(reply->0.content_disposition),
            )
            &&& success ==> reply_says(strategy, r->Found_0.filename@, reply->0) == Some(
                r->Found_0@,
            )
            &&& !success && strategy == ProbeStrategy::Range ==> r == ProbeNext::Try(
                ProbeStrategy::Head,
            )
            &&& !success && strategy == ProbeStrategy::Head ==> r == ProbeNext::Try(
                ProbeStrategy::Get,
            )
            &&& !success && strategy == ProbeStrategy::Get ==> r is Failed && r->Failed_0@
                == failure_text(strategy, reply)
        }),
{
}

/// A probe succeeds exactly where its reply is one of success, and finds what the reply says; else
/// it fails and says why.
pub proof fn a_probe_succeeds_where_the_reply_does(
    strategy: ProbeStrategy,
    url: Seq<char>,
    reply: Option<HttpReply>,
    r: Result<ProbeResult, String>,
)
    requires
        probe_outcome(strategy, url, reply, r),
    ensures
        r is Ok <==> reply is Some && 200 <= reply->0.status < 300,
        r is Ok ==> r->Ok_0.filename@ == http::chosen_name(
            url,
            text::opt_text(reply->0.content_disposition),
        ) && reply_says(strategy, r->Ok_0.filename@, reply->0) == Some(r->Ok_0@),
        r is Err ==> r->Err_0@ == failure_text(strategy, reply),
{
}

} // verus!
