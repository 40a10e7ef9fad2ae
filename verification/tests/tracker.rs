use web_value_tracker::row::{FetchError, FetchOutcome, ValueData};
use web_value_tracker::scheduler::{Delivery, Phase, SchedulerError};
use web_value_tracker::tracker::{TrackerError, TrackerState};

fn stored_row(id: &str, latest: &str) -> ValueData {
    ValueData::fresh(
        id.to_string(),
        format!("name of {id}"),
        format!("https://example.org/{id}"),
        ".price".to_string(),
        latest.to_string(),
        "Jan 01 00:00:00 2024".to_string(),
    )
}

fn tracker_with(rows: &[(&str, &str)]) -> TrackerState {
    let table: Vec<ValueData> = rows.iter().map(|(id, latest)| stored_row(id, latest)).collect();
    let selected = vec![false; rows.len()];
    TrackerState::restore(table, selected, 40)
}

fn latest_values(state: &TrackerState) -> Vec<String> {
    state.table_data().iter().map(|row| row.latest_value.clone()).collect()
}

fn previous_values(state: &TrackerState) -> Vec<String> {
    state.table_data().iter().map(|row| row.previous_value.clone()).collect()
}

fn is_crockford(c: char) -> bool {
    "0123456789ABCDEFGHJKMNPQRSTVWXYZ".contains(c)
}

#[test]
fn a_new_tracker_is_empty() {
    let state = TrackerState::new();
    assert!(state.table_data().is_empty());
    assert!(state.selected_rows().is_empty());
    assert_eq!(state.custom_time_interval(), 40);
    assert_eq!(state.new_row_value(), "");
    assert!(!state.is_fetching_value());
    assert!(!state.is_fetching_latest_values());
    assert!(!state.delete_selected_rows());
}

#[test]
fn a_second_fetch_for_the_draft_is_refused() {
    let mut state = TrackerState::new();
    let request = state
        .request_fetch("https://example.org".to_string(), ".price".to_string())
        .expect("the first request is taken");
    assert_eq!(request.handle, 0);
    assert_eq!(request.id, "");
    assert_eq!(request.link, "https://example.org");
    assert_eq!(request.css_selector, ".price");
    assert!(state.is_fetching_value());
    let second = state.request_fetch("https://example.com".to_string(), "p".to_string());
    assert_eq!(second.err(), Some(TrackerError::AlreadyInProgress));
    assert!(state.is_fetching_value());
}

#[test]
fn the_fetched_value_lands_in_the_draft() {
    let mut state = TrackerState::new();
    state.request_fetch("l".to_string(), "s".to_string()).expect("taken");
    state.tick();
    assert!(state.is_fetching_value());
    assert_eq!(state.new_row_value(), "");

    assert!(state.complete_fetch(Ok("12.99".to_string())));
    assert!(!state.complete_fetch(Ok("13.99".to_string())));
    assert_eq!(state.new_row_value(), "");
    state.tick();
    assert!(!state.is_fetching_value());
    assert_eq!(state.new_row_value(), "12.99");

    // The pool is gone: a new request is taken, a late report is not.
    assert!(!state.complete_fetch(Ok("late".to_string())));
    state.request_fetch("l".to_string(), "s".to_string()).expect("taken again");
}

#[test]
fn a_failed_fetch_leaves_the_draft_without_a_value() {
    let mut state = TrackerState::new();
    state.request_fetch("l".to_string(), "s".to_string()).expect("taken");
    assert!(state.complete_fetch(Err(FetchError { message: "timeout".to_string() })));
    state.tick();
    assert!(!state.is_fetching_value());
    assert_eq!(state.new_row_value(), "");
    let added = state.add_new_row("n".to_string(), "l".to_string(), "s".to_string());
    assert_eq!(added, Err(TrackerError::NoFetchedValue));
    assert!(state.table_data().is_empty());
}

#[test]
fn a_report_without_a_fetch_in_flight_is_not_taken() {
    let mut state = tracker_with(&[("1", "10")]);
    assert!(!state.complete_fetch(Ok("x".to_string())));
    assert!(!state.complete_refresh(0, Ok("x".to_string())));
    state.tick();
    assert_eq!(state.new_row_value(), "");
    assert_eq!(latest_values(&state), ["10"]);
}

#[test]
fn a_row_is_added_from_the_draft() {
    let mut state = TrackerState::new();
    state.request_fetch("https://example.org".to_string(), ".price".to_string()).expect("taken");
    state.complete_fetch(Ok("12.99".to_string()));
    state.tick();
    let added = state.add_new_row(
        "book".to_string(),
        "https://example.org".to_string(),
        ".price".to_string(),
    );
    assert_eq!(added, Ok(()));
    assert_eq!(state.table_data().len(), 1);
    assert_eq!(state.selected_rows(), &vec![false]);
    assert_eq!(state.new_row_value(), "");
    let row = &state.table_data()[0];
    assert_eq!(row.name, "book");
    assert_eq!(row.link, "https://example.org");
    assert_eq!(row.css_selector, ".price");
    assert_eq!(row.previous_value, "12.99");
    assert_eq!(row.latest_value, "12.99");
    assert_eq!(row.last_updated.split(' ').count(), 4);
    assert_eq!(row.id.chars().count(), 26);
    assert!(row.id.chars().all(is_crockford), "{}", row.id);

    // The draft is used up.
    let again = state.add_new_row("book".to_string(), "l".to_string(), "s".to_string());
    assert_eq!(again, Err(TrackerError::NoFetchedValue));
    assert_eq!(state.table_data().len(), 1);
}

#[test]
fn each_row_gets_an_id_of_its_own() {
    let mut state = TrackerState::new();
    for k in 0..20 {
        state.request_fetch("l".to_string(), "s".to_string()).expect("taken");
        state.complete_fetch(Ok(format!("v{k}")));
        state.tick();
        state.add_new_row(format!("n{k}"), "l".to_string(), "s".to_string()).expect("added");
    }
    let rows = state.table_data();
    assert_eq!(rows.len(), 20);
    assert_eq!(state.selected_rows().len(), 20);
    for (k, row) in rows.iter().enumerate() {
        assert_eq!(row.latest_value, format!("v{k}"));
        for other in &rows[..k] {
            assert_ne!(row.id, other.id);
        }
    }
}

#[test]
fn the_draft_can_be_reset() {
    let mut state = TrackerState::new();
    state.request_fetch("l".to_string(), "s".to_string()).expect("taken");
    state.complete_fetch(Ok("1".to_string()));
    state.tick();
    assert_eq!(state.new_row_value(), "1");
    state.reset_new_row_fields();
    assert_eq!(state.new_row_value(), "");
    assert!(state.table_data().is_empty());
}

#[test]
fn a_second_refresh_is_refused_while_one_is_in_flight() {
    let mut state = tracker_with(&[("1", "10"), ("2", "20")]);
    let requests = state.start_refresh_all().expect("the first refresh is taken");
    assert_eq!(requests.len(), 2);
    for (k, request) in requests.iter().enumerate() {
        assert_eq!(request.handle, k);
        assert_eq!(request.id, state.table_data()[k].id);
        assert_eq!(request.link, state.table_data()[k].link);
        assert_eq!(request.css_selector, state.table_data()[k].css_selector);
    }
    assert!(state.is_fetching_latest_values());
    assert_eq!(state.start_refresh_all().err(), Some(TrackerError::AlreadyInProgress));
    assert!(state.is_fetching_latest_values());

    // The one pool is the first one: its two fetches, and no more.
    assert!(state.complete_refresh(0, Ok("11".to_string())));
    assert!(state.complete_refresh(1, Ok("21".to_string())));
    assert!(!state.complete_refresh(2, Ok("31".to_string())));
    state.tick();
    assert!(state.is_fetching_latest_values());
    state.tick();
    assert!(!state.is_fetching_latest_values());
    assert_eq!(latest_values(&state), ["11", "21"]);
    assert!(state.start_refresh_all().is_ok());
}

#[test]
fn a_tick_applies_one_outcome_of_the_refresh_in_submission_order() {
    let mut state = tracker_with(&[("1", "10"), ("2", "20"), ("3", "30")]);
    state.start_refresh_all().expect("taken");

    assert!(state.complete_refresh(2, Ok("31".to_string())));
    assert!(state.complete_refresh(1, Ok("21".to_string())));
    state.tick();
    state.tick();
    assert_eq!(latest_values(&state), ["10", "20", "30"]);
    assert!(state.is_fetching_latest_values());

    assert!(state.complete_refresh(0, Ok("11".to_string())));
    state.tick();
    assert_eq!(latest_values(&state), ["11", "20", "30"]);
    assert_eq!(previous_values(&state), ["10", "20", "30"]);
    state.tick();
    assert_eq!(latest_values(&state), ["11", "21", "30"]);
    assert!(state.is_fetching_latest_values());
    state.tick();
    assert_eq!(latest_values(&state), ["11", "21", "31"]);
    assert_eq!(previous_values(&state), ["10", "20", "30"]);
    assert!(!state.is_fetching_latest_values());
    for row in state.table_data() {
        assert_ne!(row.last_updated, "Jan 01 00:00:00 2024");
    }
}

#[test]
fn a_failed_fetch_of_the_refresh_empties_the_value() {
    let mut state = tracker_with(&[("1", "10")]);
    state.start_refresh_all().expect("taken");
    state.complete_refresh(0, Err(FetchError { message: "gone".to_string() }));
    state.tick();
    assert_eq!(latest_values(&state), [""]);
    assert_eq!(previous_values(&state), ["10"]);
    assert!(!state.is_fetching_latest_values());
}

#[test]
fn a_refresh_of_an_empty_table_is_over_at_the_next_tick() {
    let mut state = TrackerState::new();
    assert!(state.start_refresh_all().expect("taken").is_empty());
    assert!(state.is_fetching_latest_values());
    assert_eq!(state.start_refresh_all().err(), Some(TrackerError::AlreadyInProgress));
    state.tick();
    assert!(!state.is_fetching_latest_values());
}

#[test]
fn the_outcome_for_a_deleted_row_is_dropped() {
    let mut state = tracker_with(&[("1", "10"), ("2", "20"), ("3", "30")]);
    state.start_refresh_all().expect("taken");
    state.delete(&vec!["2".to_string()]);
    assert_eq!(state.table_data().len(), 2);
    assert!(state.is_fetching_latest_values());

    assert!(state.complete_refresh(0, Ok("11".to_string())));
    assert!(state.complete_refresh(1, Ok("21".to_string())));
    assert!(state.complete_refresh(2, Ok("31".to_string())));
    state.tick();
    assert_eq!(latest_values(&state), ["11", "30"]);
    state.tick();
    assert_eq!(latest_values(&state), ["11", "30"]);
    assert!(state.is_fetching_latest_values());
    state.tick();
    assert_eq!(latest_values(&state), ["11", "31"]);
    assert_eq!(previous_values(&state), ["10", "30"]);
    assert!(!state.is_fetching_latest_values());
    assert!(state.start_refresh_all().is_ok());
}

#[test]
fn a_refresh_ends_though_every_row_is_deleted() {
    let mut state = tracker_with(&[("1", "10"), ("2", "20")]);
    state.start_refresh_all().expect("taken");
    state.set_selected(0, true);
    state.set_selected(1, true);
    state.perform_delete();
    assert!(state.table_data().is_empty());
    state.complete_refresh(1, Ok("21".to_string()));
    state.complete_refresh(0, Ok("11".to_string()));
    state.tick();
    assert!(state.is_fetching_latest_values());
    state.tick();
    assert!(!state.is_fetching_latest_values());
    assert!(state.table_data().is_empty());
}

#[test]
fn selected_rows_are_deleted() {
    let mut state = tracker_with(&[("1", "a"), ("2", "b"), ("3", "c"), ("4", "d")]);
    assert!(!state.delete_selected_rows());
    state.perform_delete();
    assert_eq!(state.table_data().len(), 4);

    state.set_selected(1, true);
    state.set_selected(3, true);
    state.set_selected(9, true);
    assert_eq!(state.selected_rows(), &vec![false, true, false, true]);
    assert!(state.delete_selected_rows());
    state.set_selected(3, false);
    state.set_selected(2, true);
    state.perform_delete();
    assert_eq!(latest_values(&state), ["a", "d"]);
    assert_eq!(state.table_data()[0].id, "1");
    assert_eq!(state.table_data()[1].id, "4");
    assert_eq!(state.selected_rows(), &vec![false, false]);
    assert!(!state.delete_selected_rows());
}

#[test]
fn rows_are_deleted_by_id_and_the_others_keep_their_selection() {
    let mut state = tracker_with(&[("1", "a"), ("2", "b"), ("3", "c"), ("2", "d")]);
    state.set_selected(0, true);
    state.set_selected(3, true);
    state.delete(&vec!["2".to_string(), "5".to_string()]);
    assert_eq!(latest_values(&state), ["a", "c"]);
    assert_eq!(state.selected_rows(), &vec![true, false]);
    state.delete(&Vec::new());
    assert_eq!(latest_values(&state), ["a", "c"]);
}

#[test]
fn a_restored_tracker_has_a_flag_for_each_row() {
    let table = vec![stored_row("1", "a"), stored_row("2", "b")];
    let state = TrackerState::restore(table, vec![true], 15);
    assert_eq!(state.selected_rows(), &vec![false, false]);
    assert_eq!(state.custom_time_interval(), 15);
    assert_eq!(latest_values(&state), ["a", "b"]);

    let table = vec![stored_row("1", "a"), stored_row("2", "b")];
    let state = TrackerState::restore(table, vec![false, true], 15);
    assert_eq!(state.selected_rows(), &vec![false, true]);
    assert!(!state.is_fetching_value());
    assert!(!state.is_fetching_latest_values());
    assert_eq!(state.new_row_value(), "");
}

#[test]
fn a_tick_takes_one_batch_from_the_channel() {
    let mut state = tracker_with(&[("1", "10"), ("2", "20")]);
    let mut scheduler = state.arm_scheduler().expect("armed");
    state.tick();
    assert_eq!(latest_values(&state), ["10", "20"]);

    // Two cycles end before the tracker ticks again.
    scheduler.fire(None).expect("running");
    scheduler.record(Ok("15".to_string()));
    scheduler.record(Ok("20".to_string()));
    assert_eq!(scheduler.deliver(), Delivery::Sent);
    scheduler.fire(None).expect("running");
    scheduler.record(Ok("16".to_string()));
    scheduler.record(Err(FetchError { message: "timeout".to_string() }));
    assert_eq!(scheduler.deliver(), Delivery::Sent);

    state.tick();
    assert_eq!(latest_values(&state), ["15", "20"]);
    assert_eq!(previous_values(&state), ["10", "20"]);
    state.tick();
    assert_eq!(latest_values(&state), ["16", ""]);
    assert_eq!(previous_values(&state), ["15", "20"]);
    state.tick();
    assert_eq!(latest_values(&state), ["16", ""]);
}

#[test]
fn a_result_is_applied_to_its_row() {
    let mut state = tracker_with(&[("1", "10"), ("2", "20")]);
    assert!(state.apply_result(&"2".to_string(), "25".to_string()));
    assert_eq!(latest_values(&state), ["10", "25"]);
    assert_eq!(previous_values(&state), ["10", "20"]);
    assert_ne!(state.table_data()[1].last_updated, "Jan 01 00:00:00 2024");
    assert_eq!(state.table_data()[0].last_updated, "Jan 01 00:00:00 2024");

    assert!(!state.apply_result(&"3".to_string(), "35".to_string()));
    assert_eq!(latest_values(&state), ["10", "25"]);
    assert_eq!(previous_values(&state), ["10", "20"]);
    assert_eq!(state.table_data().len(), 2);
    assert_eq!(state.selected_rows().len(), 2);
}

#[test]
fn a_batch_is_applied_whole() {
    let mut state = tracker_with(&[("1", "10"), ("2", "20")]);
    state.apply_batch(&vec![
        FetchOutcome { id: "2".to_string(), value: "21".to_string() },
        FetchOutcome { id: "1".to_string(), value: "11".to_string() },
        FetchOutcome { id: "2".to_string(), value: "22".to_string() },
    ]);
    assert_eq!(latest_values(&state), ["11", "22"]);
    assert_eq!(previous_values(&state), ["10", "21"]);
    assert_eq!(state.selected_rows().len(), 2);
}

#[test]
fn the_scheduler_is_handed_out_once() {
    let mut state = tracker_with(&[("1", "10"), ("2", "20")]);
    state.set_custom_time_interval(2);
    let mut scheduler = state.arm_scheduler().expect("the first request is taken");
    assert_eq!(scheduler.phase(), Phase::Armed);
    assert_eq!(scheduler.period(), 120);
    assert_eq!(scheduler.table().len(), 2);
    assert_eq!(scheduler.table()[1].id, "2");
    assert_eq!(state.arm_scheduler().err(), Some(SchedulerError::AlreadyArmed));

    // A new period does not reach the scheduler that is out.
    state.set_custom_time_interval(3);
    assert_eq!(state.custom_time_interval(), 3);
    assert_eq!(scheduler.period(), 120);

    // What the scheduler delivers arrives at the tracker.
    scheduler.fire(None).expect("running");
    assert!(scheduler.record(Ok("15".to_string())).is_some());
    assert!(scheduler.record(Ok("20".to_string())).is_none());
    assert_eq!(scheduler.deliver(), Delivery::Sent);
    assert_eq!(latest_values(&state), ["10", "20"]);
    state.tick();
    assert_eq!(latest_values(&state), ["15", "20"]);
    assert_eq!(previous_values(&state), ["10", "20"]);
}

#[test]
fn a_scheduler_needs_a_period() {
    let mut state = TrackerState::new();
    state.set_custom_time_interval(0);
    assert_eq!(state.arm_scheduler().err(), Some(SchedulerError::InvalidInterval));
    state.set_custom_time_interval(u64::MAX);
    assert_eq!(state.arm_scheduler().err(), Some(SchedulerError::InvalidInterval));
    state.set_custom_time_interval(1);
    assert_eq!(state.arm_scheduler().expect("armed").period(), 60);
}

#[test]
fn the_draft_and_the_refresh_do_not_disturb_each_other() {
    let mut state = tracker_with(&[("1", "10")]);
    state.request_fetch("l".to_string(), "s".to_string()).expect("taken");
    state.start_refresh_all().expect("taken");
    state.complete_refresh(0, Ok("11".to_string()));
    state.complete_fetch(Ok("99".to_string()));
    state.tick();
    assert_eq!(state.new_row_value(), "99");
    assert_eq!(latest_values(&state), ["11"]);
    assert!(!state.is_fetching_value());
    assert!(!state.is_fetching_latest_values());
}

#[test]
fn a_row_is_added_under_a_given_id() {
    let mut state = tracker_with(&[("1", "10")]);
    let refused = state.add_new_row_as(
        "2".to_string(),
        "two".to_string(),
        "https://example.org/2".to_string(),
        ".cost".to_string(),
        "Feb 02 12:00:00 2024".to_string(),
    );
    assert_eq!(refused, Err(TrackerError::NoFetchedValue));
    assert_eq!(state.table_data().len(), 1);

    state.request_fetch("https://example.org/2".to_string(), ".cost".to_string()).expect("taken");
    state.complete_fetch(Ok("20".to_string()));
    state.tick();
    state.set_selected(0, true);
    let added = state.add_new_row_as(
        "2".to_string(),
        "two".to_string(),
        "https://example.org/2".to_string(),
        ".cost".to_string(),
        "Feb 02 12:00:00 2024".to_string(),
    );
    assert_eq!(added, Ok(()));
    assert_eq!(state.table_data().len(), 2);
    assert_eq!(state.selected_rows(), &vec![true, false]);
    assert_eq!(state.new_row_value(), "");
    let row = &state.table_data()[1];
    assert_eq!(row.id, "2");
    assert_eq!(row.name, "two");
    assert_eq!(row.link, "https://example.org/2");
    assert_eq!(row.css_selector, ".cost");
    assert_eq!(row.previous_value, "20");
    assert_eq!(row.latest_value, "20");
    assert_eq!(row.last_updated, "Feb 02 12:00:00 2024");
    assert_eq!(state.table_data()[0].latest_value, "10");
}

#[test]
fn the_selected_rows_are_counted() {
    let mut state = tracker_with(&[("1", "a"), ("2", "b"), ("3", "c")]);
    assert_eq!(state.selected_count(), 0);
    state.set_selected(2, true);
    state.set_selected(0, true);
    assert_eq!(state.selected_count(), 2);
    state.set_selected(0, false);
    assert_eq!(state.selected_count(), 1);
    state.perform_delete();
    assert_eq!(state.selected_count(), 0);
    assert_eq!(TrackerState::new().selected_count(), 0);
}
