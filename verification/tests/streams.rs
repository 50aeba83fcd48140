use boardswarm::stream::{
    console_data_frame, open_upload, select_console, ConsoleInputFrame, StreamError, UploadFrame,
};
use boardswarm::upload::UploadProgress;

#[test]
fn console_input_selects_then_carries_data() {
    let first = ConsoleInputFrame::Console { console: 5 };
    assert_eq!(select_console(&first), Ok(5));
    let data = console_data_frame(ConsoleInputFrame::Data { data: vec![1, 2, 3] });
    assert_eq!(data, Ok(vec![1, 2, 3]));
}

#[test]
fn console_input_without_selection_is_invalid() {
    let first = ConsoleInputFrame::Data { data: vec![1] };
    assert_eq!(select_console(&first), Err(StreamError::NoTargetSelected));
}

#[test]
fn console_input_reselect_is_rejected() {
    let later = ConsoleInputFrame::Console { console: 9 };
    assert_eq!(
        console_data_frame(later),
        Err(StreamError::TargetAlreadySelected)
    );
}

#[test]
fn upload_without_selection_is_invalid() {
    let r = open_upload(UploadFrame::Data { data: vec![0] });
    assert!(matches!(r, Err(StreamError::NoTargetSelected)));
}

#[test]
fn upload_reselect_is_rejected() {
    let mut session = open_upload(UploadFrame::Target {
        uploader: 1,
        target: "boot".to_string(),
        length: 4,
    })
    .expect("selection frame");
    let r = session.accept_data(UploadFrame::Target {
        uploader: 2,
        target: "root".to_string(),
        length: 4,
    });
    assert_eq!(r, Err(StreamError::TargetAlreadySelected));
    assert_eq!(session.received, 0);
}

#[test]
fn upload_progress_reaches_the_total() {
    // S6: 10,000 bytes in 10 chunks of 1,000; the progress stream's
    // final value is 10,000 and every observation is non-decreasing
    let mut session = open_upload(UploadFrame::Target {
        uploader: 1,
        target: "boot".to_string(),
        length: 10_000,
    })
    .expect("selection frame");
    assert_eq!(session.uploader, 1);
    assert_eq!(session.target, "boot");
    assert_eq!(session.length, 10_000);

    let mut progress = UploadProgress::new();
    let mut observed: Vec<u64> = vec![progress.written()];
    for _ in 0..10 {
        let chunk = vec![0u8; 1_000];
        let data = session
            .accept_data(UploadFrame::Data { data: chunk })
            .expect("data frame");
        assert_eq!(data.len(), 1_000);
        // the provider reports the running total as it writes
        progress.update(session.received);
        observed.push(progress.written());
    }
    assert_eq!(session.received, 10_000);
    assert_eq!(*observed.last().unwrap(), 10_000);
    for w in observed.windows(2) {
        assert!(w[0] <= w[1]);
    }
}

#[test]
fn progress_is_a_high_water_mark() {
    let mut progress = UploadProgress::new();
    progress.update(400);
    progress.update(250);
    assert_eq!(progress.written(), 400);
    progress.update(900);
    assert_eq!(progress.written(), 900);
}
