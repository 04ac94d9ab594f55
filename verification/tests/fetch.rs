use osu_lazer_manager::errors::FetchError;
use osu_lazer_manager::fetch::{fetch_artifact, run_transfer, FetchEvent, Transfer};

#[test]
fn transfer_reports_size_once_then_cumulative_progress() {
    let transfer = Transfer {
        declared_size: 10,
        chunks: vec![vec![1, 2, 3], vec![4, 5], vec![6, 7, 8, 9, 10]],
        interrupted: false,
    };
    let (data, events) = run_transfer(&transfer);
    assert_eq!(data, Ok(vec![1, 2, 3, 4, 5, 6, 7, 8, 9, 10]));
    assert_eq!(
        events,
        vec![
            FetchEvent::TotalSize(10),
            FetchEvent::Progress(3),
            FetchEvent::Progress(5),
            FetchEvent::Progress(10),
        ]
    );
}

#[test]
fn interrupted_transfer_yields_no_bytes() {
    let transfer = Transfer {
        declared_size: 100,
        chunks: vec![vec![1, 2, 3], vec![4]],
        interrupted: true,
    };
    let (data, events) = run_transfer(&transfer);
    assert_eq!(data, Err(FetchError::Interrupted));
    assert_eq!(
        events,
        vec![
            FetchEvent::TotalSize(100),
            FetchEvent::Progress(3),
            FetchEvent::Progress(4),
        ]
    );
}

#[test]
fn existing_artifact_skips_the_transfer() {
    let transfer = Transfer {
        declared_size: 4,
        chunks: vec![vec![9, 9, 9, 9]],
        interrupted: false,
    };
    let (artifact, outcome, events) = fetch_artifact(Some(vec![1, 2]), false, &transfer);
    assert_eq!(artifact, Some(vec![1, 2]));
    assert_eq!(outcome, Ok(()));
    assert!(events.is_empty());
}

#[test]
fn forced_fetch_replaces_the_artifact() {
    let transfer = Transfer {
        declared_size: 4,
        chunks: vec![vec![9, 9], vec![9, 9]],
        interrupted: false,
    };
    let (artifact, outcome, events) = fetch_artifact(Some(vec![1, 2]), true, &transfer);
    assert_eq!(artifact, Some(vec![9, 9, 9, 9]));
    assert_eq!(outcome, Ok(()));
    assert_eq!(events.len(), 3);
}

#[test]
fn failed_fetch_leaves_prior_artifact_untouched() {
    let transfer = Transfer {
        declared_size: 4,
        chunks: vec![vec![9, 9]],
        interrupted: true,
    };
    let (artifact, outcome, _) = fetch_artifact(Some(vec![1, 2]), true, &transfer);
    assert_eq!(artifact, Some(vec![1, 2]));
    assert_eq!(outcome, Err(FetchError::Interrupted));
}

#[test]
fn failed_fetch_leaves_no_file_when_none_existed() {
    let transfer = Transfer {
        declared_size: 4,
        chunks: vec![vec![9, 9]],
        interrupted: true,
    };
    let (artifact, outcome, _) = fetch_artifact(None, false, &transfer);
    assert_eq!(artifact, None);
    assert_eq!(outcome, Err(FetchError::Interrupted));
}
