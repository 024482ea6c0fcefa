use renderer::jobs::{Job, JobStatus, JobEvent, JobStore, uuid_string};
use renderer::progress::parse_progress_line;

fn fresh_job(id: u128) -> Job {
    Job {
        id,
        status: JobStatus::Pending,
        progress: 0,
        output_path: None,
        error: None,
        created_at_ms: 0,
        workdir: "/w".to_string(),
    }
}

#[test]
fn new_job_is_pending_at_zero() {
    let j = Job::new("/w".to_string(), 123);
    assert_eq!(j.status, JobStatus::Pending);
    assert_eq!(j.progress, 0);
    assert!(j.output_path.is_none());
    assert!(j.error.is_none());
    assert_eq!(j.created_at_ms, 123);
    assert_eq!(j.workdir, "/w");
}

#[test]
fn lifecycle_runs_forward_only() {
    let mut j = fresh_job(7);
    j.apply(JobEvent::Start);
    assert_eq!(j.status, JobStatus::Running);
    j.apply(JobEvent::Progress(30));
    assert_eq!(j.progress, 30);
    // a lower report never lowers the recorded progress
    j.apply(JobEvent::Progress(20));
    assert_eq!(j.progress, 30);
    // an oversized report is capped
    j.apply(JobEvent::Progress(250));
    assert_eq!(j.progress, 100);
    j.apply(JobEvent::Complete("/w/output.mp4".to_string()));
    assert_eq!(j.status, JobStatus::Completed);
    assert_eq!(j.progress, 100);
    assert_eq!(j.output_path.as_deref(), Some("/w/output.mp4"));
    // terminal states never change again
    j.apply(JobEvent::Fail("late".to_string()));
    assert_eq!(j.status, JobStatus::Completed);
    assert!(j.error.is_none());
}

#[test]
fn failure_records_message_and_keeps_progress() {
    let mut j = fresh_job(7);
    j.apply(JobEvent::Start);
    j.apply(JobEvent::Progress(40));
    j.apply(JobEvent::Fail("spawn failed: boom".to_string()));
    assert_eq!(j.status, JobStatus::Failed);
    assert_eq!(j.progress, 40);
    assert_eq!(j.error.as_deref(), Some("spawn failed: boom"));
    // and stays failed
    j.apply(JobEvent::Complete("/x".to_string()));
    assert_eq!(j.status, JobStatus::Failed);
}

#[test]
fn progress_ignored_before_running() {
    let mut j = fresh_job(7);
    j.apply(JobEvent::Progress(50));
    assert_eq!(j.progress, 0);
    assert_eq!(j.status, JobStatus::Pending);
}

#[test]
fn uuid_form_is_hyphenated_hex() {
    let id: u128 = 0x00112233445566778899aabbccddeeff;
    assert_eq!(uuid_string(id), "00112233-4455-6677-8899-aabbccddeeff");
    assert_eq!(uuid_string(0), "00000000-0000-0000-0000-000000000000");
}

#[test]
fn status_response_reports_state_and_reference() {
    let mut j = fresh_job(0x00112233445566778899aabbccddeeff);
    let r = j.to_status_response("http://127.0.0.1:6108");
    assert_eq!(r.status, "PENDING");
    assert_eq!(r.progress, 0);
    assert!(r.url.is_none());
    assert!(r.error.is_none());
    j.apply(JobEvent::Start);
    assert_eq!(j.to_status_response("http://h").status, "RUNNING");
    j.apply(JobEvent::Complete("/w/output.mp4".to_string()));
    let done = j.to_status_response("http://127.0.0.1:6108");
    assert_eq!(done.status, "COMPLETED");
    assert_eq!(done.progress, 100);
    assert_eq!(
        done.url.as_deref(),
        Some("http://127.0.0.1:6108/render/00112233-4455-6677-8899-aabbccddeeff/output")
    );
}

#[test]
fn failed_status_response_carries_error() {
    let mut j = fresh_job(9);
    j.apply(JobEvent::Fail("download failed: bad status 404".to_string()));
    let r = j.to_status_response("http://h");
    assert_eq!(r.status, "FAILED");
    assert_eq!(r.error.as_deref(), Some("download failed: bad status 404"));
    assert!(r.url.is_none());
}

#[test]
fn store_insert_get_update() {
    let mut store = JobStore::new();
    let a = fresh_job(1);
    let b = fresh_job(2);
    store.insert(a);
    store.insert(b);
    assert_eq!(store.get(1).unwrap().status, JobStatus::Pending);
    store.update(1, JobEvent::Start);
    assert_eq!(store.get(1).unwrap().status, JobStatus::Running);
    // the other record is untouched
    assert_eq!(store.get(2).unwrap().status, JobStatus::Pending);
    // an unknown identifier changes nothing
    store.update(42, JobEvent::Start);
    assert!(store.get(42).is_none());
}

#[test]
fn progress_line_plain_percentage() {
    assert_eq!(parse_progress_line("out_time_ms=500", 1000), Some(50));
    assert_eq!(parse_progress_line("out_time_ms=1000", 1000), Some(100));
    assert_eq!(parse_progress_line("out_time_ms=0", 1000), Some(0));
}

#[test]
fn progress_line_clamped_to_hundred() {
    assert_eq!(parse_progress_line("out_time_ms=2500", 1000), Some(100));
}

#[test]
fn progress_line_microsecond_normalization() {
    // 5,000,000 is implausible against a 2,000 ms total: taken as
    // microseconds, it is 5,000 ms, clamped to 100 percent.
    assert_eq!(parse_progress_line("out_time_ms=5000000", 2000), Some(100));
    // 1,500,000 against 1,000,000 ms is plausible and stays as is.
    assert_eq!(parse_progress_line("out_time_ms=150000", 1000000), Some(15));
}

#[test]
fn progress_line_trims_the_value() {
    assert_eq!(parse_progress_line("out_time_ms= 250 ", 1000), Some(25));
}

#[test]
fn progress_line_other_keys_ignored() {
    assert_eq!(parse_progress_line("frame=10", 1000), None);
    assert_eq!(parse_progress_line("out_time=00:00:01", 1000), None);
    assert_eq!(parse_progress_line("out_time_ms=abc", 1000), None);
    assert_eq!(parse_progress_line("", 1000), None);
}
