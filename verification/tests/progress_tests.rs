use resuma_core::progress::DownloadState;
use resuma_core::progress::PROGRESS_COMPLETE;

#[test]
fn known_total_reaches_exactly_one_hundred_percent() {
    let mut state = DownloadState::new(Some(200));
    assert_eq!(state.record_chunk(50), 2500);
    assert_eq!(state.record_chunk(50), 5000);
    assert_eq!(state.record_chunk(100), PROGRESS_COMPLETE);
    assert_eq!(state.bytes_downloaded, 200);
}

#[test]
fn progress_never_exceeds_one_hundred_percent() {
    let mut state = DownloadState::new(Some(100));
    assert_eq!(state.record_chunk(150), PROGRESS_COMPLETE);
    assert_eq!(state.record_chunk(1), PROGRESS_COMPLETE);
}

#[test]
fn progress_rounds_down() {
    let mut state = DownloadState::new(Some(3));
    assert_eq!(state.record_chunk(1), 3333);
    assert_eq!(state.record_chunk(1), 6666);
    assert_eq!(state.record_chunk(1), PROGRESS_COMPLETE);
}

#[test]
fn unknown_total_emits_the_placeholder() {
    let mut state = DownloadState::new(None);
    assert_eq!(state.record_chunk(1_000_000), 0);
    assert_eq!(state.record_chunk(u32::MAX as u64), 0);
    assert_eq!(state.progress(), 0);
}

#[test]
fn zero_total_emits_the_placeholder() {
    let mut state = DownloadState::new(Some(0));
    assert_eq!(state.record_chunk(10), 0);
    assert_eq!(state.progress(), 0);
}

#[test]
fn large_totals_stay_exact() {
    let total = u64::MAX;
    let mut state = DownloadState::new(Some(total));
    assert_eq!(state.record_chunk(total / 2), 4999);
    assert_eq!(state.record_chunk(total - total / 2), PROGRESS_COMPLETE);
}
