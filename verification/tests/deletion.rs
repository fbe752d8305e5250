use queuepeek::deletion::{DeleteAction, DeleteEvent, DeleteJob, DeletePhase, BATCH_SIZE};

fn job(targets: Vec<usize>) -> DeleteJob {
    DeleteJob::new(targets, "/tmp/backup.jsonl".to_string())
}

fn err_text(a: DeleteAction) -> String {
    match a {
        DeleteAction::Finish(Err(e)) => e,
        _ => panic!("expected a failure"),
    }
}

#[test]
fn delete_run_keeps_unchosen_messages() {
    let mut j = job(vec![1]);
    assert!(matches!(
        j.step(DeleteEvent::BackupCreated(Ok(()))),
        DeleteAction::Consume { count: 100, completed: 0 }
    ));
    assert_eq!(BATCH_SIZE, 100);
    // a short batch ends the consuming
    assert!(matches!(
        j.step(DeleteEvent::Consumed(Ok(3))),
        DeleteAction::OpenBackup { consumed: Some(3) }
    ));
    assert!(matches!(j.step(DeleteEvent::BackupOpened(Ok(()))), DeleteAction::ReadLine { progress: None }));
    match j.step(DeleteEvent::Line(Ok(
        "{\"body\":\"a\",\"routing_key\":\"k\",\"content_type\":\"text/plain\",\"headers\":{\"h\":\"v\",\"n\":1}}"
            .to_string(),
    ))) {
        DeleteAction::Publish { body, routing_key, content_type, headers } => {
            assert_eq!(body, "a");
            assert_eq!(routing_key, "k");
            assert_eq!(content_type, "text/plain");
            let mut h = headers.clone();
            h.sort();
            assert_eq!(h, vec![("h".to_string(), "v".to_string()), ("n".to_string(), String::new())]);
        }
        _ => panic!("expected a publish"),
    }
    assert_eq!(j.phase, DeletePhase::Publishing);
    assert!(matches!(
        j.step(DeleteEvent::Published(Ok(()))),
        DeleteAction::ReadLine { progress: Some((1, 3)) }
    ));
    // the chosen line is dropped
    assert!(matches!(
        j.step(DeleteEvent::Line(Ok("{\"body\":\"b\"}".to_string()))),
        DeleteAction::ReadLine { progress: None }
    ));
    assert_eq!(j.deleted, 1);
    // a line that is no JSON is skipped
    assert!(matches!(j.step(DeleteEvent::Line(Ok("garbage".to_string()))), DeleteAction::ReadLine { progress: None }));
    assert_eq!(j.line, 3);
    match j.step(DeleteEvent::LinesEnded) {
        DeleteAction::Finish(Ok(t)) => assert_eq!(t, "Deleted 1 messages, kept 1"),
        _ => panic!("expected success"),
    }
    assert!(matches!(j.step(DeleteEvent::LinesEnded), DeleteAction::Ignore));
}

#[test]
fn delete_full_batches_keep_consuming() {
    let mut j = job(vec![]);
    j.step(DeleteEvent::BackupCreated(Ok(())));
    assert!(matches!(
        j.step(DeleteEvent::Consumed(Ok(100))),
        DeleteAction::Consume { count: 100, completed: 100 }
    ));
    assert!(matches!(j.step(DeleteEvent::Consumed(Ok(0))), DeleteAction::OpenBackup { consumed: None }));
    assert_eq!(j.consumed, 100);
}

#[test]
fn delete_failures_name_the_backup() {
    let mut j = job(vec![0]);
    assert_eq!(err_text(j.step(DeleteEvent::BackupCreated(Err("disk full".to_string())))), "Creating backup: disk full");
    let mut j = job(vec![0]);
    j.step(DeleteEvent::BackupCreated(Ok(())));
    j.step(DeleteEvent::Consumed(Ok(100)));
    assert_eq!(
        err_text(j.step(DeleteEvent::Consumed(Err("gone".to_string())))),
        "Consume failed after 100: gone — backup at /tmp/backup.jsonl"
    );
    let mut j = job(vec![0]);
    j.step(DeleteEvent::BackupCreated(Ok(())));
    assert_eq!(err_text(j.step(DeleteEvent::Cancelled)), "Cancelled — backup at /tmp/backup.jsonl");
    let mut j = job(vec![]);
    j.step(DeleteEvent::BackupCreated(Ok(())));
    j.step(DeleteEvent::Consumed(Ok(2)));
    assert_eq!(
        err_text(j.step(DeleteEvent::BackupOpened(Err("no such file".to_string())))),
        "Reading backup: no such file — file at /tmp/backup.jsonl"
    );
    let mut j = job(vec![]);
    j.step(DeleteEvent::BackupCreated(Ok(())));
    j.step(DeleteEvent::Consumed(Ok(2)));
    j.step(DeleteEvent::BackupOpened(Ok(())));
    j.step(DeleteEvent::Line(Ok("{}".to_string())));
    assert_eq!(
        err_text(j.step(DeleteEvent::Published(Err("refused".to_string())))),
        "Re-publish failed at msg 1: refused — backup at /tmp/backup.jsonl"
    );
    let mut j = job(vec![]);
    j.step(DeleteEvent::BackupCreated(Ok(())));
    j.step(DeleteEvent::Consumed(Ok(2)));
    j.step(DeleteEvent::BackupOpened(Ok(())));
    assert_eq!(
        err_text(j.step(DeleteEvent::Line(Err("bad utf-8".to_string())))),
        "Reading line 0: bad utf-8 — backup at /tmp/backup.jsonl"
    );
    let mut j = job(vec![]);
    j.step(DeleteEvent::BackupCreated(Ok(())));
    assert_eq!(err_text(j.step(DeleteEvent::WriteFailed("io".to_string()))), "Writing backup: io");
}
