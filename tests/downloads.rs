use mdu::downloadmanager::{
    clear_download_history, get_download_history, start_download, stop_download, DownloadState,
};

#[test]
fn downloads_are_recorded_stopped_and_cleared() {
    let mut state = DownloadState::new();
    start_download(&mut state, "https://a".to_string(), false, "/dl".to_string());
    start_download(&mut state, "https://b".to_string(), true, "/dl".to_string());
    let history = get_download_history(&state);
    assert_eq!(history.len(), 2);
    assert_eq!(history[0].status, "downloading");
    assert_eq!(history[0].progress_hundredths, 0);
    assert_eq!(history[1].url, "https://b");
    assert!(history[1].is_audio_only);
    assert_eq!(history[1].video_id.len(), 36);

    let first = history[0].video_id.clone();
    stop_download(&mut state, &first);
    assert_eq!(state.items[0].status, "stopped");
    assert_eq!(state.items[1].status, "downloading");

    stop_download(&mut state, "no-such-id");
    assert_eq!(state.items.len(), 2);

    stop_download(&mut state, "all");
    assert_eq!(state.items.len(), 1);
    assert_eq!(state.items[0].video_id, first);

    clear_download_history(&mut state);
    assert!(get_download_history(&state).is_empty());
}
