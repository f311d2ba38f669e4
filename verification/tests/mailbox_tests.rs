use sherlock::mailbox::{Job, Log, MessagesBox, Respond};

#[test]
fn clear_queues_after_read() {
    // send a job
    let mut messages_box = MessagesBox::init();
    messages_box.send_jobs(vec![Job::ListEngines]);
    // recieve a job
    let jobs = messages_box.recieve_jobs();
    assert_eq!(jobs.len(), 1);
    // make sure that the instance's jobs queue is clear
    // and that the recievied jobs vector is not.
    let emptied = messages_box.recieve_jobs();
    assert_eq!(emptied.len(), 0);
    assert_ne!(jobs.len(), emptied.len());
}

#[test]
fn jobs_come_back_in_insertion_order() {
    let mut messages_box = MessagesBox::init();
    messages_box.send_jobs(vec![Job::ListEngines]);
    messages_box.send_jobs(vec![
        Job::RunEninges {
            engines_list: vec!["facebook".to_owned(), "google".to_owned()],
            query: "user123".to_owned(),
        },
        Job::ListEngines,
    ]);
    let jobs = messages_box.recieve_jobs();
    assert_eq!(jobs.len(), 3);
    assert!(matches!(jobs[0], Job::ListEngines));
    match &jobs[1] {
        Job::RunEninges { engines_list, query } => {
            assert_eq!(engines_list, &vec!["facebook".to_owned(), "google".to_owned()]);
            assert_eq!(query, "user123");
        }
        other => panic!("unexpected job {:?}", other),
    }
    assert!(matches!(jobs[2], Job::ListEngines));
    assert_eq!(messages_box.recieve_jobs().len(), 0);
}

#[test]
fn single_sends_deliver_all_responds() {
    // one message per producer: a single receive returns exactly all of
    // them, none lost, none duplicated
    let mut messages_box = MessagesBox::init();
    for i in 1..10 {
        let msg = Respond::Message(i.to_string());
        let responds = vec![msg];
        messages_box.send_responds(responds);
    }
    messages_box.finish();
    let received = messages_box.recieve_responds();
    assert_eq!(received.len(), 9);
    for (i, respond) in received.iter().enumerate() {
        match respond {
            Respond::Message(s) => assert_eq!(s, &(i + 1).to_string()),
            other => panic!("unexpected respond {:?}", other),
        }
    }
    assert_eq!(messages_box.recieve_responds().len(), 0);
}

#[test]
fn pending_follows_sends_and_finish() {
    let mut messages_box = MessagesBox::init();
    assert!(!messages_box.is_pending());
    messages_box.send_jobs(vec![Job::ListEngines]);
    assert!(messages_box.is_pending());
    messages_box.finish();
    assert!(!messages_box.is_pending());
    messages_box.send_responds(vec![Respond::Error("boom".to_owned())]);
    assert!(messages_box.is_pending());
    // receiving does not lower the flag; only finish does
    let _ = messages_box.recieve_responds();
    assert!(messages_box.is_pending());
    messages_box.finish();
    assert!(!messages_box.is_pending());
    // a queue can still hold messages while the flag is down
    messages_box.send_log(Log::Info("loaded engines".to_owned()));
    assert!(!messages_box.is_pending());
}

#[test]
fn queues_are_independent() {
    let mut messages_box = MessagesBox::init();
    messages_box.send_jobs(vec![Job::ListEngines]);
    messages_box.send_responds(vec![Respond::Message("hi".to_owned())]);
    messages_box.send_log(Log::Warning("careful".to_owned()));
    // draining one queue leaves the others untouched
    assert_eq!(messages_box.recieve_jobs().len(), 1);
    assert_eq!(messages_box.recieve_responds().len(), 1);
    assert_eq!(messages_box.recieve_jobs().len(), 0);
}
