use hls_grab::download::{Download, Reply};
use hls_grab::fetch::{FetchDecision, SegmentFetch, MAX_ATTEMPTS};
use hls_grab::playlist::{get_download_link, get_segment_count};
use hls_grab::reassemble::{append_segment, concat_segments};

/// Runs one segment fetch against outcomes; returns (requests made, failure reports, accepted).
fn run(outcomes: &[bool]) -> (usize, usize, bool) {
    let mut f = SegmentFetch::new(1, 1);
    let mut requests = 0;
    let mut reports = 0;
    for &ok in outcomes {
        requests += 1;
        match f.on_attempt(ok) {
            FetchDecision::Accept => return (requests, reports, true),
            FetchDecision::Retry { .. } => reports += 1,
            FetchDecision::Abort => return (requests, reports, false),
        }
    }
    (requests, reports, false)
}

#[test]
fn retry_succeeds_after_fewer_than_three_failures() {
    assert_eq!(run(&[true]), (1, 0, true));
    assert_eq!(run(&[false, true]), (2, 1, true));
    assert_eq!(run(&[false, false, true]), (3, 2, true));
}

#[test]
fn retry_gives_up_after_three_failures() {
    assert_eq!(run(&[false, false, false, true]), (3, 2, false));
    assert_eq!(run(&[false; 10]), (3, 2, false));
}

#[test]
fn retry_reports_attempts_left() {
    let mut f = SegmentFetch::new(2, 5);
    assert_eq!(MAX_ATTEMPTS, 3);
    assert_eq!(f.on_attempt(false), FetchDecision::Retry { attempts_left: 2 });
    assert_eq!(f.on_attempt(false), FetchDecision::Retry { attempts_left: 1 });
    assert_eq!(f.on_attempt(false), FetchDecision::Abort);
    assert_eq!(f.attempts, 3);
}

#[test]
fn messages_name_segment_and_total() {
    let f = SegmentFetch::new(2, 15);
    assert_eq!(f.progress_message(), "fetching segment 2/15");
    assert_eq!(f.failure_message(1), "error on segment 2/15, 1 attempts left");
}

#[test]
fn concatenation_keeps_every_byte_in_order() {
    let segs = vec![vec![0x47, 1, 2], vec![], vec![0x47, 3], vec![255]];
    let out = concat_segments(&segs);
    assert_eq!(out, vec![0x47, 1, 2, 0x47, 3, 255]);
    let mut at = 0;
    for s in &segs {
        assert_eq!(&out[at..at + s.len()], s.as_slice());
        at += s.len();
    }
    assert_eq!(at, out.len());
    assert_eq!(concat_segments(&vec![]), Vec::<u8>::new());
}

#[test]
fn append_segment_extends() {
    let mut out = vec![1u8, 2];
    append_segment(&mut out, &vec![3, 4]);
    assert_eq!(out, vec![1, 2, 3, 4]);
}

#[test]
fn end_to_end_with_mocked_fetches() {
    let body = "https://cdn.example.com/v/segment-1-v1-a1.ts\nhttps://cdn.example.com/v/segment-2-v1-a1.ts\nhttps://cdn.example.com/v/segment-3-v1-a1.ts\nhttps://cdn.example.com/v/stream.m3u8?x=1\n#EXT-X-ENDLIST";
    let count = get_segment_count(body).unwrap();
    assert_eq!(count, 3);
    let base = get_download_link("https://cdn.example.com/v/stream.m3u8?x=1").unwrap();
    let buffers = vec![vec![1u8, 2, 3], vec![4u8], vec![5u8, 6]];
    let mut dl = Download::new(base, count);
    let mut fetched = Vec::new();
    let mut notices = Vec::new();
    while let Some(req) = dl.next_request() {
        if let Some(n) = req.notice {
            notices.push(n);
        }
        fetched.push(req.url.clone());
        let reply = dl.on_response(Some(buffers[req.index - 1].clone()));
        assert_eq!(reply, Reply::Stored);
    }
    assert_eq!(
        fetched,
        vec![
            "https://cdn.example.com/v/stream/segment-1-v1-a1.ts",
            "https://cdn.example.com/v/stream/segment-2-v1-a1.ts",
            "https://cdn.example.com/v/stream/segment-3-v1-a1.ts",
        ]
    );
    assert_eq!(notices, vec!["fetching segment 1/3", "fetching segment 2/3", "fetching segment 3/3"]);
    assert_eq!(dl.assemble(), vec![1, 2, 3, 4, 5, 6]);
}

#[test]
fn download_retries_then_fails_without_fourth_request() {
    let mut dl = Download::new("b/".to_string(), 2);
    let req = dl.next_request().unwrap();
    assert_eq!(req.notice.as_deref(), Some("fetching segment 1/2"));
    assert_eq!(dl.on_response(Some(vec![9])), Reply::Stored);
    let mut requests = 0;
    let mut replies = Vec::new();
    while let Some(req) = dl.next_request() {
        assert_eq!(req.url, "b/segment-2-v1-a1.ts");
        requests += 1;
        replies.push(dl.on_response(None));
    }
    assert_eq!(requests, 3);
    assert_eq!(
        replies,
        vec![
            Reply::Retrying { notice: "error on segment 2/2, 2 attempts left".to_string() },
            Reply::Retrying { notice: "error on segment 2/2, 1 attempts left".to_string() },
            Reply::GaveUp,
        ]
    );
    assert!(dl.failed);
}

#[test]
fn download_recovers_after_one_failure() {
    let mut dl = Download::new("b/".to_string(), 1);
    assert!(dl.next_request().unwrap().notice.is_some());
    assert!(matches!(dl.on_response(None), Reply::Retrying { .. }));
    assert!(dl.next_request().unwrap().notice.is_none());
    assert_eq!(dl.on_response(Some(vec![7, 7])), Reply::Stored);
    assert!(dl.next_request().is_none());
    assert_eq!(dl.assemble(), vec![7, 7]);
}
