//! The history of downloads requested in this session.

use vstd::prelude::*;
use crate::directory::new_random_id;

verus! {

/// One requested download, as the interface shows it.
#[derive(Debug, Clone)]
pub struct DownloadItem {
    pub file_name: String,
    pub file_size: String,
    /// Share done, in hundredths of a percent.
    pub progress_hundredths: u64,
    pub status: String,
    pub speed: String,
    pub eta: String,
    pub error: String,
    pub title: String,
    pub url: String,
    pub completed_at: String,
    pub elapsed_time: String,
    pub video_id: String,
    pub output_path: String,
    pub is_audio_only: bool,
}

/// The downloads of this session, oldest first.
pub struct DownloadState {
    pub items: Vec<DownloadItem>,
}

fn copy_item(d: &DownloadItem) -> (r: DownloadItem)
    ensures
        r == *d,
{
    DownloadItem {
        file_name: d.file_name.clone(),
        file_size: d.file_size.clone(),
        progress_hundredths: d.progress_hundredths,
        status: d.status.clone(),
        speed: d.speed.clone(),
        eta: d.eta.clone(),
        error: d.error.clone(),
        title: d.title.clone(),
        url: d.url.clone(),
        completed_at: d.completed_at.clone(),
        elapsed_time: d.elapsed_time.clone(),
        video_id: d.video_id.clone(),
        output_path: d.output_path.clone(),
        is_audio_only: d.is_audio_only,
    }
}

/// A download that is still running.
pub open spec fn is_running(d: DownloadItem) -> bool {
    d.status@ == "downloading"@
}

impl DownloadState {
    pub fn new() -> (r: DownloadState)
        ensures
            r.items@.len() == 0,
    {
        DownloadState { items: Vec::new() }
    }
}

/// All downloads, oldest first.
pub fn get_download_history(state: &DownloadState) -> (r: Vec<DownloadItem>)
    ensures
        r@ == state.items@,
{
    let mut r: Vec<DownloadItem> = Vec::new();
    let mut i: usize = 0;
    while i < state.items.len()
        invariant
            i <= state.items@.len(),
            r@ == state.items@.take(i as int),
        decreases state.items@.len() - i,
    {
        r.push(copy_item(&state.items[i]));
        assert(state.items@.take(i + 1) =~= state.items@.take(i as int).push(state.items@[i as int]));
        i = i + 1;
    }
    assert(state.items@.take(state.items@.len() as int) =~= state.items@);
    r
}

/// Records a new running download of `url` into `output_path` (the
/// download directory, which the caller has made sure exists), under a
/// fresh identifier.
pub fn start_download(state: &mut DownloadState, url: String, is_audio_only: bool, output_path: String)
    ensures
        final(state).items@.drop_last() == old(state).items@,
        final(state).items@.len() == old(state).items@.len() + 1,
        ({
            let d = final(state).items@.last();
            &&& d.url == url
            &&& d.is_audio_only == is_audio_only
            &&& d.output_path == output_path
            &&& is_running(d)
            &&& d.progress_hundredths == 0
            &&& d.video_id@.len() == 36
        }),
{
    let d = DownloadItem {
        file_name: String::from_str("Downloading..."),
        file_size: String::from_str("Calculating..."),
        progress_hundredths: 0,
        status: String::from_str("downloading"),
        speed: String::from_str("0 MB/s"),
        eta: String::from_str("Calculating..."),
        error: String::new(),
        title: String::from_str("New Download"),
        url,
        completed_at: String::new(),
        elapsed_time: String::from_str("0:00"),
        video_id: new_random_id(),
        output_path,
        is_audio_only,
    };
    state.items.push(d);
    assert(state.items@.drop_last() =~= old(state).items@);
}

/// The index of the first download with identifier `id` at or after `i`.
pub open spec fn first_with_id(items: Seq<DownloadItem>, id: Seq<char>, i: int) -> Option<int>
    decreases items.len() - i,
{
    if i < 0 || i >= items.len() {
        None
    } else if items[i].video_id@ == id {
        Some(i)
    } else {
        first_with_id(items, id, i + 1)
    }
}

/// Stops downloads: `all` drops every running one from the history; any
/// other identifier marks the first download bearing it as stopped.
pub fn stop_download(state: &mut DownloadState, video_id: &str)
    ensures
        video_id@ == "all"@ ==> final(state).items@ == old(state).items@.filter(
            |d: DownloadItem| !is_running(d),
        ),
        video_id@ != "all"@ ==> match first_with_id(old(state).items@, video_id@, 0) {
            Some(i) => final(state).items@.len() == old(state).items@.len() && (forall|j: int|
                0 <= j < old(state).items@.len() && j != i ==> final(state).items@[j]
                    == old(state).items@[j]) && final(state).items@[i].status@ == "stopped"@
                && final(state).items@[i].video_id == old(state).items@[i].video_id,
            None => final(state).items@ == old(state).items@,
        },
{
    proof {
        reveal_strlit("downloading");
    }
    let all = String::from_str("all");
    let id = String::from_str(video_id);
    if id == all {
        let running = String::from_str("downloading");
        let ghost keep = |d: DownloadItem| !is_running(d);
        let mut kept: Vec<DownloadItem> = Vec::new();
        let mut i: usize = 0;
        assert(state.items@.take(0) =~= Seq::<DownloadItem>::empty());
        while i < state.items.len()
            invariant
                i <= state.items@.len(),
                running@ == "downloading"@,
                forall|d: DownloadItem| #[trigger] keep(d) == !is_running(d),
                kept@ == state.items@.take(i as int).filter(keep),
            decreases state.items@.len() - i,
        {
            let d = &state.items[i];
            proof {
                let t = state.items@.take(i + 1);
                assert(t =~= state.items@.take(i as int).push(*d));
                state.items@.take(i as int).lemma_filter_push(*d, keep);
            }
            if !(d.status == running) {
                kept.push(copy_item(d));
            }
            i = i + 1;
        }
        assert(state.items@.take(state.items@.len() as int) =~= state.items@);
        state.items = kept;
    } else {
        assert(video_id@ != "all"@);
        let mut i: usize = 0;
        while i < state.items.len()
            invariant
                i <= state.items@.len(),
                id@ == video_id@,
                video_id@ != "all"@,
                state.items@ == old(state).items@,
                first_with_id(state.items@, video_id@, 0) == first_with_id(state.items@, video_id@, i as int),
            decreases state.items@.len() - i,
        {
            if state.items[i].video_id == id {
                let mut d = copy_item(&state.items[i]);
                d.status = String::from_str("stopped");
                state.items.set(i, d);
                return;
            }
            i = i + 1;
        }
    }
}

/// Forgets every download.
pub fn clear_download_history(state: &mut DownloadState)
    ensures
        final(state).items@.len() == 0,
{
    state.items.clear();
}

} // verus!
