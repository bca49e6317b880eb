use control_plane::buildlog::{reduce_build_log, LogChunk};
use control_plane::errors::LifecycleError;

fn ok_chunk(text: &str) -> LogChunk {
    LogChunk { ok: true, text: Some(text.to_string()) }
}

#[test]
fn build_log_single_chunk() {
    let chunks = vec![ok_chunk("Step 1")];
    assert_eq!(reduce_build_log(7, &chunks).unwrap(), "Step 1");
}

#[test]
fn build_log_concatenates_in_emission_order() {
    let chunks = vec![
        ok_chunk("Step 1\n"),
        LogChunk { ok: true, text: None },
        ok_chunk("Step 2\n"),
        ok_chunk("Done"),
    ];
    assert_eq!(reduce_build_log(7, &chunks).unwrap(), "Step 1\nStep 2\nDone");
}

#[test]
fn build_log_empty_stream_is_empty_log() {
    let chunks: Vec<LogChunk> = Vec::new();
    assert_eq!(reduce_build_log(7, &chunks).unwrap(), "");
}

#[test]
fn build_log_failure_discards_partial_log() {
    let chunks = vec![
        ok_chunk("Step 1"),
        LogChunk { ok: false, text: Some("boom".to_string()) },
        ok_chunk("Step 2"),
    ];
    let err = reduce_build_log(7, &chunks).unwrap_err();
    assert_eq!(err, LifecycleError::Backend { id: 7 });
}

#[test]
fn build_log_failure_without_text_still_fails() {
    let chunks = vec![LogChunk { ok: false, text: None }];
    let err = reduce_build_log(3, &chunks).unwrap_err();
    assert_eq!(err, LifecycleError::Backend { id: 3 });
}
