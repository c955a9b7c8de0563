//! Downloads, step by step.

use fileshare::checksum::Checksum;
use fileshare::client::{
    check_received, download_url, name_in_disposition, partial_name, range_header, shares_url,
    total_of_head, DownloadAction, DownloadControl, DownloadInput, DownloadTask, Phase,
    ResponseHead,
};

fn head(status: u16) -> ResponseHead {
    ResponseHead {
        status,
        status_text: format!("{} Text", status),
        checksum: None,
        content_range: None,
        content_length: None,
        disposition: None,
    }
}

fn sum(data: &[u8]) -> String {
    let mut c = Checksum::new();
    c.update(data);
    c.finish()
}

/// A download that has been asked for from its start.
fn requested() -> DownloadTask {
    let (mut task, first) = DownloadTask::new("out.bin".to_string());
    assert!(matches!(first, DownloadAction::MeasurePartial));
    match task.step(DownloadInput::PartialSize(0)) {
        DownloadAction::SendRequest { range: None } => {}
        other => panic!("{:?}", other),
    }
    task
}

/// A download that receives a file of `total` bytes from its start.
fn receiving(total: u64, checksum: Option<&str>) -> DownloadTask {
    let mut task = requested();
    let mut h = head(200);
    h.content_length = Some(total);
    h.checksum = checksum.map(|c| c.to_string());
    h.disposition = Some("attachment; filename=\"hello.txt\"".to_string());
    match task.step(DownloadInput::Responded(h)) {
        DownloadAction::OpenPartial { discard: true } => {}
        other => panic!("{:?}", other),
    }
    assert!(matches!(task.step(DownloadInput::Opened(vec![], 0)), DownloadAction::Receive));
    task
}

fn chunk(task: &mut DownloadTask, data: &[u8], now: u64) {
    assert!(matches!(
        task.step(DownloadInput::Chunk(data.to_vec(), now)),
        DownloadAction::Sample { .. }
    ));
    assert!(matches!(
        task.step(DownloadInput::Control(DownloadControl::Running, now)),
        DownloadAction::Receive
    ));
}

#[test]
fn full_download() {
    let data = b"Hello, fileshare!";
    let mut task = receiving(data.len() as u64, Some(&sum(data).to_uppercase()));
    chunk(&mut task, &data[..5], 1);
    chunk(&mut task, &data[5..], 2);
    assert_eq!(task.downloaded(), data.len() as u64);
    match task.step(DownloadInput::StreamEnded) {
        DownloadAction::MoveToPlace { name } => assert_eq!(name, "hello.txt"),
        other => panic!("{:?}", other),
    }
    match task.step(DownloadInput::Moved) {
        DownloadAction::Done { checksum_ok } => assert_eq!(checksum_ok, Some(true)),
        other => panic!("{:?}", other),
    }
    assert!(matches!(task.phase(), Phase::Ended));
}

#[test]
fn wrong_bytes_are_noticed() {
    let mut task = receiving(3, Some(&sum(b"abc")));
    chunk(&mut task, b"abd", 1);
    task.step(DownloadInput::StreamEnded);
    match task.step(DownloadInput::Moved) {
        DownloadAction::Done { checksum_ok } => assert_eq!(checksum_ok, Some(false)),
        other => panic!("{:?}", other),
    }
}

#[test]
fn resuming_asks_for_the_rest_and_checks_the_whole() {
    let (mut task, _) = DownloadTask::new("out.bin".to_string());
    match task.step(DownloadInput::PartialSize(512)) {
        DownloadAction::SendRequest { range } => assert_eq!(range, Some("bytes=512-".to_string())),
        other => panic!("{:?}", other),
    }
    let mut h = head(206);
    h.content_range = Some("bytes 512-1023/1024".to_string());
    h.content_length = Some(512);
    h.checksum = Some(sum(&[1u8; 1024]));
    match task.step(DownloadInput::Responded(h)) {
        DownloadAction::OpenPartial { discard: false } => {}
        other => panic!("{:?}", other),
    }
    task.step(DownloadInput::Opened(vec![1u8; 512], 0));
    match task.step(DownloadInput::Chunk(vec![1u8; 512], 5)) {
        DownloadAction::Sample { bytes, nanos, downloaded, total, report } => {
            assert_eq!((bytes, nanos, downloaded, total, report), (512, 5, 1024, 1024, false));
        }
        other => panic!("{:?}", other),
    }
    task.step(DownloadInput::Control(DownloadControl::Running, 6));
    match task.step(DownloadInput::StreamEnded) {
        DownloadAction::MoveToPlace { name } => assert_eq!(name, "out.bin"),
        other => panic!("{:?}", other),
    }
    match task.step(DownloadInput::Moved) {
        DownloadAction::Done { checksum_ok } => assert_eq!(checksum_ok, Some(true)),
        other => panic!("{:?}", other),
    }
}

#[test]
fn cancelling_while_paused_abandons() {
    let mut task = receiving(10, None);
    task.step(DownloadInput::Chunk(vec![0; 4], 1));
    assert!(matches!(
        task.step(DownloadInput::Control(DownloadControl::Paused, 2)),
        DownloadAction::AwaitControl
    ));
    assert!(matches!(
        task.step(DownloadInput::Control(DownloadControl::Paused, 3)),
        DownloadAction::AwaitControl
    ));
    assert!(matches!(
        task.step(DownloadInput::Control(DownloadControl::Cancelled, 4)),
        DownloadAction::Abandon
    ));
    assert!(matches!(task.phase(), Phase::Ended));
}

#[test]
fn cancelling_while_downloading_abandons() {
    let mut task = receiving(10, None);
    task.step(DownloadInput::Chunk(vec![0; 4], 1));
    assert!(matches!(
        task.step(DownloadInput::Control(DownloadControl::Cancelled, 2)),
        DownloadAction::Abandon
    ));
}

#[test]
fn paused_download_whose_user_is_gone_is_abandoned() {
    let mut task = receiving(10, None);
    task.step(DownloadInput::Chunk(vec![0; 4], 1));
    task.step(DownloadInput::Control(DownloadControl::Paused, 2));
    assert!(matches!(task.step(DownloadInput::ControlClosed), DownloadAction::Abandon));
}

#[test]
fn pausing_does_not_count_for_the_speed() {
    let mut task = receiving(100, None);
    task.step(DownloadInput::Chunk(vec![0; 4], 1));
    task.step(DownloadInput::Control(DownloadControl::Paused, 2));
    assert!(matches!(
        task.step(DownloadInput::Control(DownloadControl::Running, 9_000_000_000)),
        DownloadAction::Receive
    ));
    match task.step(DownloadInput::Chunk(vec![0; 6], 9_000_000_010)) {
        DownloadAction::Sample { bytes, nanos, downloaded, report, .. } => {
            assert_eq!((bytes, nanos, downloaded, report), (6, 10, 10, false));
        }
        other => panic!("{:?}", other),
    }
}

#[test]
fn progress_is_reported_twice_a_second() {
    let mut task = receiving(100, None);
    match task.step(DownloadInput::Chunk(vec![0; 4], 499_999_999)) {
        DownloadAction::Sample { report, .. } => assert!(!report),
        other => panic!("{:?}", other),
    }
    task.step(DownloadInput::Control(DownloadControl::Running, 499_999_999));
    match task.step(DownloadInput::Chunk(vec![0; 4], 500_000_000)) {
        DownloadAction::Sample { report, bytes, nanos, .. } => {
            assert!(report);
            assert_eq!((bytes, nanos), (8, 500_000_000));
        }
        other => panic!("{:?}", other),
    }
    task.step(DownloadInput::Control(DownloadControl::Running, 500_000_000));
    match task.step(DownloadInput::Chunk(vec![0; 4], 500_000_001)) {
        DownloadAction::Sample { report, bytes, nanos, .. } => {
            assert!(!report);
            assert_eq!((bytes, nanos), (4, 1));
        }
        other => panic!("{:?}", other),
    }
}

#[test]
fn broken_downloads_are_taken_up_five_times() {
    let mut task = receiving(10, None);
    let waits = [500, 1_000, 2_000, 4_000, 8_000];
    for (i, wait) in waits.iter().enumerate() {
        match task.step(DownloadInput::StreamFailed("reset".to_string())) {
            DownloadAction::Wait { millis, attempt } => {
                assert_eq!(millis, *wait);
                assert_eq!(attempt, i as u32 + 1);
            }
            other => panic!("{:?}", other),
        }
        assert!(matches!(task.step(DownloadInput::Waited), DownloadAction::MeasurePartial));
        task.step(DownloadInput::PartialSize(4));
        let mut h = head(206);
        h.content_range = Some("bytes 4-9/10".to_string());
        task.step(DownloadInput::Responded(h));
        task.step(DownloadInput::Opened(vec![0; 4], 0));
    }
    match task.step(DownloadInput::StreamEnded) {
        DownloadAction::Fail { message } => {
            assert_eq!(message, "Download failed after 5 retries: Incomplete download");
        }
        other => panic!("{:?}", other),
    }
    assert!(matches!(task.phase(), Phase::Ended));
}

#[test]
fn requests_that_fail_are_sent_again() {
    let mut task = requested();
    for i in 1..=5 {
        match task.step(DownloadInput::SendFailed("refused".to_string())) {
            DownloadAction::Wait { attempt, .. } => assert_eq!(attempt, i),
            other => panic!("{:?}", other),
        }
        task.step(DownloadInput::Waited);
        task.step(DownloadInput::PartialSize(0));
    }
    match task.step(DownloadInput::SendFailed("refused".to_string())) {
        DownloadAction::Fail { message } => {
            assert_eq!(message, "Download failed after 5 retries: refused");
        }
        other => panic!("{:?}", other),
    }
}

#[test]
fn nothing_more_to_send_ends_the_download() {
    let mut task = requested();
    match task.step(DownloadInput::Responded(head(416))) {
        DownloadAction::MoveToPlace { name } => assert_eq!(name, "out.bin"),
        other => panic!("{:?}", other),
    }
    match task.step(DownloadInput::Moved) {
        DownloadAction::Done { checksum_ok } => assert_eq!(checksum_ok, None),
        other => panic!("{:?}", other),
    }
}

#[test]
fn refusals_end_the_download() {
    let mut task = requested();
    match task.step(DownloadInput::Responded(head(410))) {
        DownloadAction::Fail { message } => assert_eq!(message, "Server returned 410 Text"),
        other => panic!("{:?}", other),
    }
}

#[test]
fn headers_of_responses() {
    let mut h = head(206);
    h.content_range = Some("bytes 0-9/10".to_string());
    h.content_length = Some(3);
    assert_eq!(total_of_head(&h), 10);
    h.content_range = Some("bytes 0-9/*".to_string());
    assert_eq!(total_of_head(&h), 0);
    h.status = 200;
    assert_eq!(total_of_head(&h), 3);
    h.content_length = None;
    assert_eq!(total_of_head(&h), 0);
    let name = |d: &str| name_in_disposition(&Some(d.to_string()));
    assert_eq!(name("attachment; filename=\"a b.txt\""), Some("a b.txt".to_string()));
    assert_eq!(name("attachment; filename=plain"), Some("plain".to_string()));
    assert_eq!(name("inline"), None);
    assert_eq!(name_in_disposition(&None), None);
}

#[test]
fn verdicts_on_received_bytes() {
    let received = || {
        let mut c = Checksum::new();
        c.update(b"abc");
        c
    };
    assert_eq!(check_received(&None, received()), None);
    assert_eq!(check_received(&Some("dir:0123".to_string()), received()), Some(true));
    assert_eq!(check_received(&Some(sum(b"abc")), received()), Some(true));
    assert_eq!(check_received(&Some("".to_string()), received()), Some(false));
}

#[test]
fn urls_and_names() {
    assert_eq!(shares_url("https://h:1"), "https://h:1/shares");
    assert_eq!(download_url("https://h:1", "ab"), "https://h:1/download/ab");
    assert_eq!(partial_name("ab"), ".dl_tmp_ab");
    assert_eq!(range_header(7), "bytes=7-");
}
