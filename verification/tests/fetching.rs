use panda_dl::http::HttpDownloader;
use panda_dl::parts::fetched_bytes;
use panda_dl::transfer::{
    part_outcome, range_header, Next, PartWorker, SingleStream, Stage, MAX_RETRIES,
};
use panda_dl::types::PartInfo;

fn part(index: usize, start: u64, end: u64, downloaded: u64) -> PartInfo {
    PartInfo { index, start, end, downloaded, active: false }
}

#[test]
fn cuts_a_file() {
    assert_eq!(
        HttpDownloader::create_parts(100, 3),
        vec![part(0, 0, 32, 0), part(1, 33, 65, 0), part(2, 66, 99, 0)]
    );
    assert_eq!(HttpDownloader::create_parts(1, 1), vec![part(0, 0, 0, 0)]);
    assert_eq!(HttpDownloader::create_parts(10, 0), vec![part(0, 0, 9, 0)]);
    assert_eq!(HttpDownloader::create_parts(1000, 1000).len(), 64);
}

#[test]
fn every_byte_is_in_one_part() {
    for (total, wanted) in [(64, 64), (65, 64), (100, 7), (1000, 16), (3, 2)] {
        let parts = HttpDownloader::create_parts(total, wanted);
        for byte in 0..total {
            assert_eq!(parts.iter().filter(|p| p.start <= byte && byte <= p.end).count(), 1);
        }
        assert_eq!(parts.iter().map(|p| p.end - p.start + 1).sum::<u64>(), total);
    }
}

#[test]
fn cuts_the_largest_file() {
    let parts = HttpDownloader::create_parts(u64::MAX, 64);
    assert_eq!(parts[63].end, u64::MAX - 1);
    for i in 1..64 {
        assert_eq!(parts[i].start, parts[i - 1].end + 1);
    }
}

#[test]
fn adds_up_what_is_there() {
    assert_eq!(fetched_bytes(&vec![]), Some(0));
    assert_eq!(fetched_bytes(&vec![part(0, 0, 9, 4), part(1, 10, 19, 5)]), Some(9));
    assert_eq!(fetched_bytes(&vec![part(0, 0, 9, u64::MAX), part(1, 10, 19, 0)]), Some(u64::MAX));
    assert_eq!(fetched_bytes(&vec![part(0, 0, 9, u64::MAX), part(1, 10, 19, 1)]), None);
}

#[test]
fn asks_for_ranges() {
    assert_eq!(range_header(0, 0), "bytes=0-0");
    assert_eq!(range_header(1024, 18446744073709551615), "bytes=1024-18446744073709551615");
}

#[test]
fn a_part_comes_in() {
    let mut parts = vec![part(0, 0, 9, 0), part(1, 10, 19, 3)];
    let mut w = PartWorker::begin(&mut parts, 1).unwrap();
    assert!(parts[1].active);
    assert_eq!(w.go(&mut parts, false), Next::Ask { first: 13, last: 19 });
    assert_eq!(w.accepted(), Next::Read);
    assert_eq!(w.chunk(&mut parts, false), Next::Write { at: 13 });
    assert!(w.has_room(4));
    assert_eq!(w.written(&mut parts, 4), Next::Read);
    assert_eq!(parts[1].downloaded, 7);
    assert_eq!(w.chunk(&mut parts, false), Next::Write { at: 17 });
    assert_eq!(w.written(&mut parts, 3), Next::Read);
    assert_eq!(w.ended(&mut parts), Next::Finished);
    assert_eq!(parts, vec![part(0, 0, 9, 0), part(1, 10, 19, 10)]);
    assert_eq!(w.stage, Stage::Over);
}

#[test]
fn what_comes_in_excess_is_not_counted() {
    let mut parts = vec![part(0, 0, 9, 0)];
    let mut w = PartWorker::begin(&mut parts, 0).unwrap();
    w.go(&mut parts, false);
    w.accepted();
    w.chunk(&mut parts, false);
    w.written(&mut parts, 25);
    assert_eq!(parts[0].downloaded, 25);
    assert_eq!(w.ended(&mut parts), Next::Finished);
    assert_eq!(parts[0], part(0, 0, 9, 10));
}

#[test]
fn there_is_no_work_on_what_is_there_or_not_there() {
    let mut parts = vec![PartInfo { active: true, ..part(0, 0, 9, 10) }];
    assert_eq!(PartWorker::begin(&mut parts, 0), None);
    assert_eq!(parts, vec![part(0, 0, 9, 10)]);
    assert_eq!(PartWorker::begin(&mut parts, 1), None);
    assert_eq!(parts, vec![part(0, 0, 9, 10)]);
}

#[test]
fn a_part_is_asked_for_again_and_given_up() {
    let mut parts = vec![part(0, 0, 9, 0), part(1, 10, 19, 0), part(2, 20, 29, 1)];
    let mut w = PartWorker::begin(&mut parts, 2).unwrap();
    for millis in [1000, 2000, 4000, 8000, 16000] {
        assert_eq!(w.go(&mut parts, false), Next::Ask { first: 21, last: 29 });
        assert_eq!(w.refused(&mut parts), Next::Rest { millis });
        assert!(parts[2].active);
    }
    assert_eq!(w.retries, MAX_RETRIES);
    w.go(&mut parts, false);
    assert_eq!(
        w.refused(&mut parts),
        Next::Failed("Max retries exceeded for part 2".to_string())
    );
    assert_eq!(parts[2], part(2, 20, 29, 1));
}

#[test]
fn the_status_of_a_reply_decides() {
    for (status, next) in [
        (200, Next::Read),
        (206, Next::Read),
        (299, Next::Read),
        (199, Next::Rest { millis: 1000 }),
        (300, Next::Rest { millis: 1000 }),
        (416, Next::Rest { millis: 1000 }),
    ] {
        let mut parts = vec![part(0, 0, 9, 0)];
        let mut w = PartWorker::begin(&mut parts, 0).unwrap();
        w.go(&mut parts, false);
        assert_eq!(w.replied(&mut parts, status), next);
    }
}

#[test]
fn every_failure_leads_to_a_rest() {
    let mut parts = vec![part(0, 0, 9, 0)];
    let mut w = PartWorker::begin(&mut parts, 0).unwrap();
    w.go(&mut parts, false);
    w.accepted();
    assert_eq!(w.broken(&mut parts), Next::Rest { millis: 1000 });
    w.go(&mut parts, false);
    w.accepted();
    w.chunk(&mut parts, false);
    assert_eq!(w.write_failed(&mut parts), Next::Rest { millis: 2000 });
    w.go(&mut parts, false);
    w.accepted();
    w.chunk(&mut parts, false);
    w.written(&mut parts, 9);
    assert_eq!(w.ended(&mut parts), Next::Rest { millis: 4000 });
    assert_eq!(w.go(&mut parts, false), Next::Ask { first: 9, last: 9 });
}

#[test]
fn a_cancelled_worker_keeps_what_is_there() {
    let mut parts = vec![part(0, 0, 9, 0), part(1, 10, 19, 0)];
    let mut w = PartWorker::begin(&mut parts, 0).unwrap();
    w.go(&mut parts, false);
    w.accepted();
    w.chunk(&mut parts, false);
    w.written(&mut parts, 6);
    assert_eq!(w.chunk(&mut parts, true), Next::Rest { millis: 1000 });
    assert_eq!(w.go(&mut parts, true), Next::Finished);
    assert_eq!(parts, vec![part(0, 0, 9, 6), part(1, 10, 19, 0)]);
    let mut again = PartWorker::begin(&mut parts, 0).unwrap();
    assert_eq!(again.go(&mut parts, false), Next::Ask { first: 6, last: 9 });
    assert_eq!(again.cancelled(&mut parts), Next::Finished);
    assert_eq!(parts[0], part(0, 0, 9, 6));
}

#[test]
fn room_ends_with_the_numbers() {
    let mut parts = vec![part(0, 0, 9, 5)];
    let w = PartWorker::begin(&mut parts, 0).unwrap();
    assert!(w.has_room(u64::MAX - 5));
    assert!(!w.has_room(u64::MAX - 4));
}

#[test]
fn a_single_stream_comes_in() {
    let mut s = SingleStream::open(200, "200 OK").unwrap();
    assert_eq!(s.chunk(false), Next::Write { at: 0 });
    assert!(s.has_room(7));
    s.written(7);
    assert_eq!(s.chunk(false), Next::Write { at: 7 });
    assert_eq!(s.chunk(true), Next::Finished);
    s.written(u64::MAX - 7);
    assert!(!s.has_room(1));
    assert!(s.has_room(0));
    assert_eq!(
        SingleStream::open(404, "404 Not Found"),
        Err("Server returned HTTP 404 Not Found".to_string())
    );
    assert!(SingleStream::open(300, "").is_err());
    assert!(SingleStream::open(299, "").is_ok());
}

#[test]
fn a_failure_counts_unless_cancelled() {
    let failure = Some("broke".to_string());
    assert_eq!(part_outcome(failure.clone(), false), failure);
    assert_eq!(part_outcome(failure, true), None);
    assert_eq!(part_outcome(None, false), None);
}
