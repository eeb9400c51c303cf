use launch_core::fetcher::{
    needs_download, plan_downloads, DownloadTask, FetchPlanner, FileState,
};

fn task(url: &str, dest: &str, digest: Option<&str>) -> DownloadTask {
    DownloadTask {
        source_url: url.to_string(),
        destination_path: dest.to_string(),
        expected_digest: digest.map(|d| d.to_string()),
        expected_size: None,
    }
}

fn state(exists: bool, digest: Option<&str>) -> FileState {
    FileState {
        exists,
        actual_digest: digest.map(|d| d.to_string()),
    }
}

#[test]
fn missing_destination_always_downloads() {
    assert!(needs_download(&state(false, None), &None));
    assert!(needs_download(
        &state(false, None),
        &Some("abc".to_string())
    ));
}

#[test]
fn existing_destination_without_digest_skips() {
    assert!(!needs_download(&state(true, None), &None));
}

#[test]
fn existing_destination_with_matching_digest_skips() {
    assert!(!needs_download(
        &state(true, Some("abc")),
        &Some("abc".to_string())
    ));
}

#[test]
fn existing_destination_with_mismatched_digest_refetches() {
    assert!(needs_download(
        &state(true, Some("abc")),
        &Some("def".to_string())
    ));
}

#[test]
fn second_run_over_written_files_plans_nothing() {
    // Every destination already exists and no task carries a digest: the
    // re-run must perform zero downloads.
    let tasks = vec![
        task("http://host/a", "a", None),
        task("http://host/b", "b", None),
        task("http://host/c", "c", None),
    ];
    let states = vec![state(true, None), state(true, None), state(true, None)];
    let plan = plan_downloads(&tasks, &states);
    assert!(plan.is_empty());
}

#[test]
fn first_run_plans_everything_missing() {
    let tasks = vec![
        task("http://host/a", "a", None),
        task("http://host/b", "b", Some("1111")),
        task("http://host/c", "c", Some("2222")),
    ];
    let states = vec![
        state(false, None),
        state(true, Some("1111")),
        state(true, Some("9999")),
    ];
    let plan = plan_downloads(&tasks, &states);
    assert_eq!(plan, vec![0, 2]);
}

#[test]
fn concurrency_never_exceeds_the_permit_bound() {
    // One hundred tasks under twenty permits, driven to completion while
    // watching the peak number of active tasks.
    let mut planner = FetchPlanner::new(100, 20);
    let mut peak: usize = 0;
    let mut running: Vec<usize> = Vec::new();
    let mut finished = 0usize;
    while !planner.is_done() {
        while let Some(idx) = planner.try_start() {
            running.push(idx);
            if planner.active() > peak {
                peak = planner.active();
            }
        }
        assert!(planner.active() <= 20);
        // Retire half of what is running, failing every seventh task.
        let retire = (running.len() + 1) / 2;
        for _ in 0..retire {
            let idx = running.pop().unwrap();
            planner.on_complete(idx % 7 != 0);
            finished += 1;
        }
    }
    assert_eq!(peak, 20);
    assert_eq!(finished, 100);
    let report = planner.report();
    assert_eq!(report.succeeded + report.failed, 100);
    // Indices 0, 7, ..., 98 failed: fifteen of them.
    assert_eq!(report.failed, 15);
    assert_eq!(report.succeeded, 85);
}

#[test]
fn failed_tasks_do_not_stop_siblings() {
    let mut planner = FetchPlanner::new(3, 2);
    let a = planner.try_start().unwrap();
    let b = planner.try_start().unwrap();
    assert_eq!((a, b), (0, 1));
    assert!(planner.try_start().is_none());
    planner.on_complete(false);
    let c = planner.try_start().unwrap();
    assert_eq!(c, 2);
    planner.on_complete(true);
    planner.on_complete(true);
    assert!(planner.is_done());
    let report = planner.report();
    assert_eq!(report.succeeded, 2);
    assert_eq!(report.failed, 1);
}
