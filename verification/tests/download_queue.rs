use tg_collector::download_queue::DownloadQueue;
use tg_collector::tg_client::{download_file, make_download_file_request, on_update_file};

#[test]
fn test_download_file() {
    let mut queue = DownloadQueue::new(1);

    let request = download_file(&mut queue, 1);
    assert_eq!(request, Some(make_download_file_request(1)));
    assert_eq!(queue.queue().len(), 0);
    assert_eq!(queue.in_progress(), &vec![1]);

    download_file(&mut queue, 1);
    assert_eq!(queue.queue(), &vec![1]);
    assert_eq!(queue.in_progress(), &vec![1]);

    download_file(&mut queue, 2);
    assert_eq!(queue.queue(), &vec![1, 2]);
    assert_eq!(queue.in_progress(), &vec![1]);

    // a file whose download is not complete: no changes
    on_update_file(&mut queue, 0, false);
    assert_eq!(queue.queue(), &vec![1, 2]);
    assert_eq!(queue.in_progress(), &vec![1]);

    // no changes: file not in progress
    on_update_file(&mut queue, 10, true);
    assert_eq!(queue.queue(), &vec![1, 2]);
    assert_eq!(queue.in_progress(), &vec![1]);

    on_update_file(&mut queue, 1, true);
    assert_eq!(queue.queue(), &vec![2]);
    assert_eq!(queue.in_progress(), &vec![1]);

    on_update_file(&mut queue, 1, true);
    assert_eq!(queue.queue().len(), 0);
    assert_eq!(queue.in_progress(), &vec![2]);

    download_file(&mut queue, 3);
    download_file(&mut queue, 4);
    download_file(&mut queue, 5);

    on_update_file(&mut queue, 2, true);
    assert_eq!(queue.queue(), &vec![4, 5]);
    assert_eq!(queue.in_progress(), &vec![3]);
}

#[test]
fn new_queue_is_empty() {
    let queue = DownloadQueue::new(3);
    assert_eq!(queue.queue_size(), 3);
    assert!(queue.queue().is_empty());
    assert!(queue.in_progress().is_empty());
}

#[test]
fn may_be_download_starts_while_there_is_room() {
    let mut queue = DownloadQueue::new(2);
    assert!(queue.may_be_download(7));
    assert!(queue.may_be_download(8));
    assert!(!queue.may_be_download(9));
    assert_eq!(queue.in_progress(), &vec![7, 8]);
    assert_eq!(queue.queue(), &vec![9]);
}

#[test]
fn zero_sized_queue_starts_nothing() {
    let mut queue = DownloadQueue::new(0);
    assert!(!queue.may_be_download(1));
    assert!(!queue.may_be_download(2));
    assert_eq!(queue.queue(), &vec![1, 2]);
    assert!(queue.in_progress().is_empty());
    // a report of completion still moves the front of the queue
    assert_eq!(queue.mark_as_done_and_get_new(&1), Some(1));
    assert_eq!(queue.in_progress(), &vec![1]);
    assert_eq!(queue.queue(), &vec![2]);
}

#[test]
fn mark_as_done_removes_every_occurrence() {
    let mut queue = DownloadQueue::new(3);
    queue.may_be_download(4);
    queue.may_be_download(6);
    queue.may_be_download(4);
    queue.may_be_download(5);
    assert_eq!(queue.mark_as_done_and_get_new(&4), Some(5));
    assert_eq!(queue.in_progress(), &vec![6, 5]);
    assert!(queue.queue().is_empty());
    assert_eq!(queue.mark_as_done_and_get_new(&6), None);
    assert_eq!(queue.in_progress(), &vec![5]);
}

#[test]
fn is_in_progress_follows_the_downloads() {
    let mut queue = DownloadQueue::new(1);
    assert!(!queue.is_in_progress(&3));
    queue.may_be_download(3);
    queue.may_be_download(4);
    assert!(queue.is_in_progress(&3));
    assert!(!queue.is_in_progress(&4));
    queue.mark_as_done_and_get_new(&3);
    assert!(!queue.is_in_progress(&3));
    assert!(queue.is_in_progress(&4));
}

#[test]
fn waiting_files_start_first_come_first_served() {
    let mut queue = DownloadQueue::new(1);
    queue.may_be_download(1);
    for f in [10, 20, 30] {
        queue.may_be_download(f);
    }
    assert_eq!(queue.mark_as_done_and_get_new(&1), Some(10));
    assert_eq!(queue.mark_as_done_and_get_new(&10), Some(20));
    assert_eq!(queue.mark_as_done_and_get_new(&20), Some(30));
    assert_eq!(queue.mark_as_done_and_get_new(&30), None);
}

#[test]
fn capacity_is_kept_by_the_client_steps() {
    let mut queue = DownloadQueue::new(2);
    for f in 1..=6 {
        download_file(&mut queue, f);
        assert!(queue.in_progress().len() <= 2);
    }
    for f in [1, 99, 2, 3, 3, 4, 5, 6] {
        on_update_file(&mut queue, f, true);
        assert!(queue.in_progress().len() <= 2);
        assert!(queue.queue().is_empty() || queue.in_progress().len() == 2);
    }
    assert!(queue.in_progress().is_empty());
}

#[test]
fn held_files_are_conserved() {
    let mut queue = DownloadQueue::new(1);
    queue.may_be_download(1);
    queue.may_be_download(2);
    queue.may_be_download(1);
    // files held: 1 (running), 2, 1 (waiting)
    queue.mark_as_done_and_get_new(&1);
    // the running 1 leaves; 2 starts; the waiting 1 stays
    assert_eq!(queue.in_progress(), &vec![2]);
    assert_eq!(queue.queue(), &vec![1]);
}

#[test]
fn file_update_actions() {
    let mut queue = DownloadQueue::new(1);
    download_file(&mut queue, 1);
    download_file(&mut queue, 2);
    let action = on_update_file(&mut queue, 1, false);
    assert_eq!(action.download, None);
    assert!(!action.notify_downloaded);
    let action = on_update_file(&mut queue, 5, true);
    assert_eq!(action.download, None);
    assert!(!action.notify_downloaded);
    let action = on_update_file(&mut queue, 1, true);
    assert_eq!(action.download, Some(make_download_file_request(2)));
    assert!(action.notify_downloaded);
    let action = on_update_file(&mut queue, 2, true);
    assert_eq!(action.download, None);
    assert!(action.notify_downloaded);
}

#[test]
fn download_request_settings() {
    let r = make_download_file_request(42);
    assert_eq!(r.file_id, 42);
    assert_eq!(r.priority, 1);
    assert!(!r.synchronous);
}

#[test]
fn log_state_matches_debug() {
    let mut queue = DownloadQueue::new(1);
    assert_eq!(
        queue.log_state(),
        "download queue state: DownloadQueue { queue_size: 1, queue: [], in_progress: [] }"
    );
    queue.may_be_download(-3);
    queue.may_be_download(i64::MIN);
    queue.may_be_download(1234567890123);
    queue.may_be_download(0);
    assert_eq!(
        queue.log_state(),
        "download queue state: DownloadQueue { queue_size: 1, queue: [-9223372036854775808, 1234567890123, 0], in_progress: [-3] }"
    );
    assert_eq!(queue.log_state(), format!("download queue state: {:?}", queue));
    let big = DownloadQueue::new(usize::MAX);
    assert_eq!(big.log_state(), format!("download queue state: {:?}", big));
}

#[test]
fn started_files_follow_the_waiting_line_over_a_run() {
    // the queue starts with 5 and 6 waiting
    let mut queue = DownloadQueue::new(1);
    queue.may_be_download(1);
    queue.may_be_download(5);
    queue.may_be_download(6);
    let mut started = Vec::new();
    let mut waited = vec![5, 6];
    for (i, call) in [Some(7), None, Some(8), None, None, Some(9), None, None, None]
        .iter()
        .enumerate()
    {
        match call {
            Some(x) => {
                if !queue.may_be_download(*x) {
                    waited.push(*x);
                }
            }
            None => {
                if let Some(n) = queue.mark_as_done_and_get_new(&(i as i64)) {
                    started.push(n);
                } else {
                    assert_eq!(started, waited);
                }
            }
        }
        let mut line = started.clone();
        line.extend(queue.queue().iter().copied());
        assert_eq!(line, waited);
    }
    assert_eq!(started, vec![5, 6, 7, 8, 9]);
}
