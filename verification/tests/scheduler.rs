use std::sync::mpsc::channel;
use web_value_tracker::row::{FetchError, FetchOutcome, ValueData};
use web_value_tracker::scheduler::{
    period_secs, Delivery, Phase, RefreshScheduler, SchedulerError, DEFAULT_CUSTOM_TIME_INTERVAL,
};
use web_value_tracker::table::apply_batch;

fn cycle_row(id: &str, name: &str, latest: &str) -> ValueData {
    ValueData::fresh(
        id.to_string(),
        name.to_string(),
        format!("https://example.org/{id}"),
        ".price".to_string(),
        latest.to_string(),
        "Jan 01 00:00:00 2024".to_string(),
    )
}

fn failed(message: &str) -> Result<String, FetchError> {
    Err(FetchError { message: message.to_string() })
}

#[test]
fn the_default_period_is_forty_minutes() {
    assert_eq!(DEFAULT_CUSTOM_TIME_INTERVAL, 40);
    assert_eq!(period_secs(DEFAULT_CUSTOM_TIME_INTERVAL), Some(2400));
}

#[test]
fn a_period_is_its_minutes_in_seconds() {
    assert_eq!(period_secs(1), Some(60));
    assert_eq!(period_secs(90), Some(5400));
    assert_eq!(period_secs(u64::MAX / 60), Some(u64::MAX / 60 * 60));
}

#[test]
fn no_minutes_and_too_many_minutes_are_no_period() {
    assert_eq!(period_secs(0), None);
    assert_eq!(period_secs(u64::MAX / 60 + 1), None);
    assert_eq!(period_secs(u64::MAX), None);
}

#[test]
fn a_new_scheduler_is_idle() {
    let (outbox, _inbox) = channel();
    let mut scheduler = RefreshScheduler::new(outbox);
    assert_eq!(scheduler.phase(), Phase::Idle);
    assert!(scheduler.table().is_empty());
    assert!(scheduler.next_request().is_none());
    assert_eq!(scheduler.fire(None), Err(SchedulerError::NotArmed));
    assert!(scheduler.record(Ok("x".to_string())).is_none());
    assert_eq!(scheduler.deliver(), Delivery::NotDue);
    assert_eq!(scheduler.phase(), Phase::Idle);
}

#[test]
fn arming_registers_the_period_once() {
    let (outbox, _inbox) = channel();
    let mut scheduler = RefreshScheduler::new(outbox);
    assert_eq!(scheduler.arm(0, Vec::new()), Err(SchedulerError::InvalidInterval));
    assert_eq!(scheduler.arm(u64::MAX, Vec::new()), Err(SchedulerError::InvalidInterval));
    assert_eq!(scheduler.phase(), Phase::Idle);

    assert_eq!(scheduler.arm(5, vec![cycle_row("1", "one", "10")]), Ok(300));
    assert_eq!(scheduler.phase(), Phase::Armed);
    assert_eq!(scheduler.period(), 300);
    assert_eq!(scheduler.table().len(), 1);

    // A new period does not take effect on a scheduler that is armed.
    assert_eq!(scheduler.arm(7, Vec::new()), Err(SchedulerError::AlreadyArmed));
    assert_eq!(scheduler.period(), 300);
    assert_eq!(scheduler.table().len(), 1);
}

#[test]
fn a_cycle_notifies_once_and_delivers_the_whole_batch() {
    let (outbox, inbox) = channel();
    let mut live = vec![cycle_row("1", "one", "10"), cycle_row("2", "two", "20")];
    let mut scheduler = RefreshScheduler::new(outbox);
    scheduler.arm(40, live.clone()).expect("armed");

    assert_eq!(scheduler.fire(None), Ok(()));
    assert_eq!(scheduler.phase(), Phase::Running);
    assert_eq!(scheduler.deliver(), Delivery::NotDue);

    let mut notices = Vec::new();
    let first = scheduler.next_request().expect("row 1 is to be fetched");
    assert_eq!(first.handle, 0);
    assert_eq!(first.id, "1");
    assert_eq!(first.link, "https://example.org/1");
    assert_eq!(first.css_selector, ".price");
    notices.extend(scheduler.record(Ok("15".to_string())));
    assert_eq!(scheduler.deliver(), Delivery::NotDue);

    let second = scheduler.next_request().expect("row 2 is to be fetched");
    assert_eq!(second.handle, 1);
    assert_eq!(second.id, "2");
    notices.extend(scheduler.record(Ok("20".to_string())));
    assert!(scheduler.next_request().is_none());

    assert_eq!(notices.len(), 1);
    assert_eq!(notices[0].name, "one");
    assert_eq!(notices[0].old_value, "10");
    assert_eq!(notices[0].new_value, "15");

    assert!(inbox.try_recv().is_err());
    assert_eq!(scheduler.deliver(), Delivery::Sent);
    assert_eq!(scheduler.phase(), Phase::Armed);
    let batch: Vec<FetchOutcome> = inbox.try_recv().expect("one batch");
    assert!(inbox.try_recv().is_err());
    assert_eq!(batch.len(), 2);
    assert_eq!((batch[0].id.as_str(), batch[0].value.as_str()), ("1", "15"));
    assert_eq!((batch[1].id.as_str(), batch[1].value.as_str()), ("2", "20"));

    apply_batch(&mut live, &batch);
    assert_eq!(live[0].previous_value, "10");
    assert_eq!(live[0].latest_value, "15");
    assert_eq!(live[1].previous_value, "20");
    assert_eq!(live[1].latest_value, "20");
}

#[test]
fn the_scheduler_keeps_its_own_table_up_to_date() {
    let (outbox, inbox) = channel();
    let mut scheduler = RefreshScheduler::new(outbox);
    scheduler.arm(1, vec![cycle_row("1", "one", "10")]).expect("armed");

    scheduler.fire(None).expect("running");
    assert!(scheduler.record(Ok("15".to_string())).is_some());
    assert_eq!(scheduler.deliver(), Delivery::Sent);
    assert_eq!(scheduler.table()[0].latest_value, "15");
    assert_eq!(scheduler.table()[0].previous_value, "10");
    assert_ne!(scheduler.table()[0].last_updated, "Jan 01 00:00:00 2024");
    inbox.try_recv().expect("first batch");

    // The next cycle compares with what the last one found.
    scheduler.fire(None).expect("running");
    assert!(scheduler.record(Ok("15".to_string())).is_none());
    assert_eq!(scheduler.deliver(), Delivery::Sent);
    assert_eq!(scheduler.table()[0].latest_value, "15");
    assert_eq!(scheduler.table()[0].previous_value, "15");
    let batch = inbox.try_recv().expect("second batch");
    assert_eq!(batch.len(), 1);
    assert_eq!(batch[0].value, "15");
}

#[test]
fn a_newer_snapshot_replaces_the_old_one() {
    let (outbox, _inbox) = channel();
    let mut scheduler = RefreshScheduler::new(outbox);
    scheduler.arm(1, vec![cycle_row("1", "one", "10")]).expect("armed");
    scheduler
        .fire(Some(vec![cycle_row("2", "two", "20"), cycle_row("3", "three", "30")]))
        .expect("running");
    assert_eq!(scheduler.table().len(), 2);
    assert_eq!(scheduler.next_request().expect("a row").id, "2");
    // While the cycle runs the timer cannot start another.
    assert_eq!(scheduler.fire(Some(Vec::new())), Err(SchedulerError::NotArmed));
    assert_eq!(scheduler.table().len(), 2);
    assert_eq!(scheduler.phase(), Phase::Running);
}

#[test]
fn a_failed_fetch_does_not_stop_the_cycle() {
    let (outbox, inbox) = channel();
    let mut scheduler = RefreshScheduler::new(outbox);
    scheduler
        .arm(
            1,
            vec![
                cycle_row("1", "one", "10"),
                cycle_row("2", "two", "20"),
                cycle_row("3", "three", ""),
            ],
        )
        .expect("armed");
    scheduler.fire(None).expect("running");
    assert!(scheduler.record(failed("no such element")).is_none());
    let notice = scheduler.record(Ok("21".to_string())).expect("row 2 changed");
    assert_eq!(notice.name, "two");
    assert_eq!(notice.old_value, "20");
    assert_eq!(notice.new_value, "21");
    // Nothing fetched where nothing was known: no news.
    assert!(scheduler.record(Ok(String::new())).is_none());
    assert_eq!(scheduler.deliver(), Delivery::Sent);
    let batch = inbox.try_recv().expect("one batch");
    assert_eq!(batch.len(), 3);
    assert_eq!((batch[0].id.as_str(), batch[0].value.as_str()), ("1", ""));
    assert_eq!((batch[1].id.as_str(), batch[1].value.as_str()), ("2", "21"));
    assert_eq!((batch[2].id.as_str(), batch[2].value.as_str()), ("3", ""));
}

#[test]
fn a_first_value_for_an_empty_row_is_news() {
    let (outbox, _inbox) = channel();
    let mut scheduler = RefreshScheduler::new(outbox);
    scheduler.arm(1, vec![cycle_row("1", "one", "")]).expect("armed");
    scheduler.fire(None).expect("running");
    let notice = scheduler.record(Ok("5".to_string())).expect("news");
    assert_eq!(notice.old_value, "");
    assert_eq!(notice.new_value, "5");
}

#[test]
fn a_result_without_a_fetch_outstanding_is_ignored() {
    let (outbox, inbox) = channel();
    let mut scheduler = RefreshScheduler::new(outbox);
    scheduler.arm(1, vec![cycle_row("1", "one", "10")]).expect("armed");
    assert!(scheduler.record(Ok("11".to_string())).is_none());
    scheduler.fire(None).expect("running");
    assert!(scheduler.record(Ok("12".to_string())).is_some());
    assert!(scheduler.record(Ok("13".to_string())).is_none());
    assert_eq!(scheduler.deliver(), Delivery::Sent);
    let batch = inbox.try_recv().expect("one batch");
    assert_eq!(batch.len(), 1);
    assert_eq!(batch[0].value, "12");
}

#[test]
fn a_cycle_over_no_rows_delivers_an_empty_batch() {
    let (outbox, inbox) = channel();
    let mut scheduler = RefreshScheduler::new(outbox);
    scheduler.arm(1, Vec::new()).expect("armed");
    scheduler.fire(None).expect("running");
    assert!(scheduler.next_request().is_none());
    assert_eq!(scheduler.deliver(), Delivery::Sent);
    assert!(inbox.try_recv().expect("one batch").is_empty());
    assert_eq!(scheduler.phase(), Phase::Armed);
}

#[test]
fn a_batch_that_nobody_receives_is_lost() {
    let (outbox, inbox) = channel();
    let mut scheduler = RefreshScheduler::new(outbox);
    scheduler.arm(1, vec![cycle_row("1", "one", "10")]).expect("armed");
    drop(inbox);
    scheduler.fire(None).expect("running");
    scheduler.record(Ok("11".to_string()));
    assert_eq!(scheduler.deliver(), Delivery::Lost);
    assert_eq!(scheduler.phase(), Phase::Armed);
    assert_eq!(scheduler.table()[0].latest_value, "11");
    assert_eq!(scheduler.fire(None), Ok(()));
}

#[test]
fn finishing_a_cycle_returns_its_batch() {
    let (outbox, inbox) = channel();
    let mut scheduler = RefreshScheduler::new(outbox);
    scheduler
        .arm(1, vec![cycle_row("1", "one", "10"), cycle_row("2", "two", "20")])
        .expect("armed");
    assert!(scheduler.finish().is_none());
    scheduler.fire(None).expect("running");
    scheduler.record(Ok("11".to_string()));
    assert!(scheduler.finish().is_none());
    assert_eq!(scheduler.phase(), Phase::Running);
    scheduler.record(Ok("21".to_string()));

    let batch = scheduler.finish().expect("the cycle is over");
    assert_eq!(batch.len(), 2);
    assert_eq!((batch[0].id.as_str(), batch[0].value.as_str()), ("1", "11"));
    assert_eq!((batch[1].id.as_str(), batch[1].value.as_str()), ("2", "21"));
    assert_eq!(scheduler.phase(), Phase::Armed);
    assert_eq!(scheduler.table()[0].latest_value, "11");
    assert_eq!(scheduler.table()[1].previous_value, "20");
    // Nothing was sent, and nothing is left to deliver.
    assert!(inbox.try_recv().is_err());
    assert_eq!(scheduler.deliver(), Delivery::NotDue);
    assert!(scheduler.finish().is_none());
}
