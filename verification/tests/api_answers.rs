use earthquake_backend::api::earthquakes::{by_id_reply, list_reply, ReadOutcome, Reply};
use earthquake_backend::clients::usgs::Earthquake;
use earthquake_backend::clients::{updater_step, UpdaterAction, UPDATER_BATCH_SIZE};
use earthquake_backend::db::plan_list_earthquakes;

#[test]
fn list_answers() {
    assert_eq!(list_reply(ReadOutcome::Rows), Reply { status: 200, error: None });
    assert_eq!(
        list_reply(ReadOutcome::Failure),
        Reply { status: 500, error: Some("failed_to_fetch_recent_earthquakes".to_string()) }
    );
    assert_eq!(
        list_reply(ReadOutcome::NoRow),
        Reply { status: 500, error: Some("failed_to_fetch_recent_earthquakes".to_string()) }
    );
}

#[test]
fn by_id_answers() {
    assert_eq!(by_id_reply(ReadOutcome::Rows), Reply { status: 200, error: None });
    assert_eq!(
        by_id_reply(ReadOutcome::NoRow),
        Reply { status: 404, error: Some("earthquake_not_found".to_string()) }
    );
    assert_eq!(
        by_id_reply(ReadOutcome::Failure),
        Reply { status: 500, error: Some("internal_server_error".to_string()) }
    );
}

#[test]
fn updater_stores_fetched_earthquakes() {
    let quakes: Vec<Earthquake> = (0..3)
        .map(|i| Earthquake {
            id: format!("e{}", i),
            magnitude: 1.0f32.to_bits(),
            place: "p".to_string(),
            time: i,
            latitude: 0,
            longitude: 0,
            depth: 0,
        })
        .collect();
    let expected = plan_list_earthquakes(&quakes, UPDATER_BATCH_SIZE);
    assert_eq!(expected.len(), 1);
    assert_eq!(updater_step(Ok(quakes)), UpdaterAction::Store(expected));
    assert_eq!(updater_step(Ok(vec![])), UpdaterAction::Store(vec![]));
    assert_eq!(updater_step(Err(())), UpdaterAction::ReportFailure);
}
