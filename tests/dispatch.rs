use swadloon::{
    chapter_requests, reconcile, worker_count, Chapter, ChapterMetadata, ChapterRequest,
    JobStatus, ServerKind, WorkQueue,
};

fn local(index: usize, pages: usize) -> ChapterMetadata {
    let pages = (0..pages).map(|p| format!("{}.png", p)).collect();
    ChapterMetadata::new(index, format!("Chapter {}", index), format!("/c/{}", index), pages)
}

fn remote(index: usize, id: &str) -> Chapter {
    Chapter {
        id: id.to_string(),
        idx: index,
        name: String::new(),
        manga: "m1".to_string(),
        pages: Vec::new(),
        created: String::new(),
        updated: String::new(),
        collection_id: String::new(),
        collection_name: String::new(),
    }
}

fn queue_of(n: usize) -> WorkQueue {
    WorkQueue::new(reconcile((1..=n).map(|i| local(i, 1)).collect(), &Vec::new()))
}

#[test]
fn worker_count_is_bounded_by_jobs() {
    assert_eq!(worker_count(4, 10), 4);
    assert_eq!(worker_count(4, 2), 2);
    assert_eq!(worker_count(4, 0), 0);
    assert_eq!(worker_count(1, 1), 1);
}

#[test]
fn jobs_come_out_in_plan_order_once() {
    let mut q = queue_of(3);
    assert_eq!(q.total(), 3);
    assert_eq!(q.remaining(), 3);
    let ids: Vec<usize> = (0..3).map(|_| q.take_next().unwrap().id).collect();
    assert_eq!(ids, vec![0, 1, 2]);
    assert!(q.take_next().is_none());
    assert!(q.take_next().is_none());
    assert_eq!(q.remaining(), 0);
}

#[test]
fn failed_job_does_not_stop_the_others() {
    let n = 5;
    let k = 2;
    let mut q = queue_of(n);
    while let Some(job) = q.take_next() {
        assert_eq!(q.status_of(job.id), JobStatus::InFlight);
        q.record(job.id, job.id != k);
    }
    assert!(q.all_settled());
    for i in 0..n {
        let expected = if i == k { JobStatus::Failed } else { JobStatus::Succeeded };
        assert_eq!(q.status_of(i), expected);
    }
    let report = q.report();
    assert_eq!(report.created, n - 1);
    assert_eq!(report.updated, 0);
    assert_eq!(report.failed, 1);
}

#[test]
fn empty_plan_needs_no_worker() {
    let mut q = queue_of(0);
    assert_eq!(worker_count(8, q.total()), 0);
    assert!(q.take_next().is_none());
    assert!(q.all_settled());
    let p = q.progress();
    assert_eq!((p.done, p.total), (0, 0));
    assert_eq!(p.percent(), 100);
    assert!(p.is_complete());
}

#[test]
fn progress_counts_jobs_handed_out() {
    let mut q = queue_of(4);
    assert_eq!(q.progress().percent(), 0);
    let a = q.take_next().unwrap();
    assert_eq!(q.progress().percent(), 25);
    assert!(!q.all_settled());
    q.record(a.id, true);
    let _b = q.take_next().unwrap();
    let _c = q.take_next().unwrap();
    assert_eq!(q.progress().percent(), 75);
    assert!(!q.progress().is_complete());
}

#[test]
fn example_run_with_two_workers() {
    let plan = reconcile(vec![local(1, 3), local(2, 5)], &vec![remote(1, "abc")]);
    let mut q = WorkQueue::new(plan);
    assert_eq!(worker_count(2, q.total()), 2);

    let first = q.take_next().unwrap();
    let second = q.take_next().unwrap();
    assert!(q.take_next().is_none());

    let update = chapter_requests(&first.entry, "http://db", "m1");
    assert_eq!(update.len(), 2);
    assert_eq!(update[0].kind(), ServerKind::UpdateChapter);
    match (&update[0], &update[1]) {
        (ChapterRequest::ClearPages { url: clear }, ChapterRequest::Update { url, form }) => {
            assert_eq!(clear, "http://db/api/collections/chapters/records/abc");
            assert_eq!(url, "http://db/api/collections/chapters/records/abc");
            assert_eq!(form.files.len(), 1 + 3);
        }
        other => panic!("unexpected requests {:?}", other),
    }
    let create = chapter_requests(&second.entry, "http://db", "m1");
    assert_eq!(create.len(), 1);
    assert_eq!(create[0].kind(), ServerKind::AddChapter);
    match &create[0] {
        ChapterRequest::Create { url, form } => {
            assert_eq!(url, "http://db/api/collections/chapters/records");
            assert_eq!(form.files.len(), 1 + 5);
        }
        other => panic!("unexpected request {:?}", other),
    }

    // the second job finishes first
    q.record(second.id, true);
    assert!(!q.all_settled());
    q.record(first.id, true);
    assert!(q.all_settled());
    let p = q.progress();
    assert_eq!(p.done, p.total);
    assert!(p.is_complete());
    assert_eq!(p.percent(), 100);
    let report = q.report();
    assert_eq!((report.created, report.updated, report.failed), (1, 1, 0));
}

#[test]
fn job_run_stops_at_first_failure() {
    let plan = reconcile(vec![local(1, 2)], &vec![remote(1, "abc")]);
    let mut q = WorkQueue::new(plan);
    let job = q.take_next().unwrap();
    let mut run = swadloon::JobRun::new(chapter_requests(&job.entry, "http://db", "m1"));
    let mut sent = Vec::new();
    while let Some(request) = run.next_request() {
        sent.push(request.kind());
        run.on_response(false);
    }
    assert_eq!(sent, vec![ServerKind::UpdateChapter]);
    assert!(!run.succeeded());
}

#[test]
fn job_run_succeeds_when_all_requests_go_through() {
    let plan = reconcile(vec![local(1, 2)], &vec![remote(1, "abc")]);
    let mut q = WorkQueue::new(plan);
    let job = q.take_next().unwrap();
    let mut run = swadloon::JobRun::new(chapter_requests(&job.entry, "http://db", "m1"));
    let mut count = 0;
    while let Some(_) = run.next_request() {
        count += 1;
        run.on_response(true);
    }
    assert_eq!(count, 2);
    assert!(run.succeeded());
}
