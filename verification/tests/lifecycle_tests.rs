use rtw::activity::{Activity, OngoingActivity};
use rtw::datetimew::DateTimeW;
use rtw::errors::RtwError;
use rtw::memory::{MemoryCurrentActivityRepository, MemoryFinishedActivityRepository};
use rtw::service::Service;

fn build_memory_service() -> Service<MemoryFinishedActivityRepository, MemoryCurrentActivityRepository>
{
    Service::new(
        MemoryFinishedActivityRepository::new(),
        MemoryCurrentActivityRepository::new(),
    )
}

fn at(hours: i64, minutes: i64) -> DateTimeW {
    DateTimeW::new(hours * 3600 + minutes * 60)
}

fn tags(labels: &[&str]) -> Vec<String> {
    labels.iter().map(|l| l.to_string()).collect()
}

// 2019-12-25T19:43:00 and 2019-12-25T19:45:00 as seconds since the Unix epoch.
const DEC_25_19_43: i64 = 1577302980;
const DEC_25_19_45: i64 = 1577303100;

#[test]
fn stop_when_idle_is_noop_however_often() {
    let mut service = build_memory_service();
    for _ in 0..3 {
        let stopped = service.stop_current_activity(at(9, 0)).unwrap();
        assert!(stopped.is_none());
        assert!(service.get_current_activity().unwrap().is_none());
    }
    let all = service.filter_activities(|_| true).unwrap();
    assert!(all.is_empty());
}

#[test]
fn scenario_start_stop_records_interval() {
    let mut service = build_memory_service();
    let started = service
        .start_activity(OngoingActivity::new(
            DateTimeW::new(DEC_25_19_43),
            tags(&["foo"]),
        ))
        .unwrap();
    assert_eq!(started.start_time, DateTimeW::new(DEC_25_19_43));
    let stopped = service
        .stop_current_activity(DateTimeW::new(DEC_25_19_45))
        .unwrap()
        .expect("an activity was ongoing");
    assert_eq!(stopped.get_start_time(), DateTimeW::new(DEC_25_19_43));
    assert_eq!(stopped.get_end_time(), DateTimeW::new(DEC_25_19_45));
    assert_eq!(stopped.get_tags(), &tags(&["foo"]));
    assert!(service.get_current_activity().unwrap().is_none());
    let all = service.filter_activities(|_| true).unwrap();
    assert_eq!(all.len(), 1);
    assert_eq!(all[0].1.get_start_time(), DateTimeW::new(DEC_25_19_43));
    assert_eq!(all[0].1.get_end_time(), DateTimeW::new(DEC_25_19_45));
    assert_eq!(all[0].1.get_tags(), &tags(&["foo"]));
}

#[test]
fn scenario_second_start_closes_first() {
    let mut service = build_memory_service();
    let t0 = at(9, 0);
    let t1 = at(9, 30);
    service
        .start_activity(OngoingActivity::new(t0, tags(&["a"])))
        .unwrap();
    service
        .start_activity(OngoingActivity::new(t1, tags(&["b"])))
        .unwrap();
    let all = service.filter_activities(|_| true).unwrap();
    assert_eq!(all.len(), 1);
    assert_eq!(all[0].1.get_start_time(), t0);
    assert_eq!(all[0].1.get_end_time(), t1);
    assert_eq!(all[0].1.get_tags(), &tags(&["a"]));
    let current = service.get_current_activity().unwrap().unwrap();
    assert_eq!(current.start_time, t1);
    assert_eq!(current.tags, tags(&["b"]));
}

#[test]
fn stop_before_start_is_invalid_interval() {
    let mut service = build_memory_service();
    service
        .start_activity(OngoingActivity::new(at(10, 0), tags(&["a"])))
        .unwrap();
    let stopped = service.stop_current_activity(at(9, 59));
    assert_eq!(stopped.unwrap_err(), RtwError::InvalidInterval);
    // Nothing was recorded and the activity is still ongoing.
    assert!(service.get_current_activity().unwrap().is_some());
    assert!(service.filter_activities(|_| true).unwrap().is_empty());
}

#[test]
fn start_before_ongoing_start_is_invalid_interval() {
    let mut service = build_memory_service();
    service
        .start_activity(OngoingActivity::new(at(10, 0), tags(&["a"])))
        .unwrap();
    let second = service.start_activity(OngoingActivity::new(at(9, 0), tags(&["b"])));
    assert_eq!(second.unwrap_err(), RtwError::InvalidInterval);
    let current = service.get_current_activity().unwrap().unwrap();
    assert_eq!(current.start_time, at(10, 0));
    assert_eq!(current.tags, tags(&["a"]));
}

#[test]
fn zero_length_interval_is_tolerated() {
    let mut service = build_memory_service();
    service
        .start_activity(OngoingActivity::new(at(10, 0), tags(&["a"])))
        .unwrap();
    let stopped = service.stop_current_activity(at(10, 0)).unwrap().unwrap();
    assert_eq!(stopped.get_start_time(), at(10, 0));
    assert_eq!(stopped.get_end_time(), at(10, 0));
}

#[test]
fn track_writes_without_touching_slot() {
    let mut service = build_memory_service();
    service
        .start_activity(OngoingActivity::new(at(11, 0), tags(&["ongoing"])))
        .unwrap();
    let logged = service
        .track_activity(Activity::new(at(8, 0), at(8, 30), tags(&["logged"])).unwrap())
        .unwrap();
    assert_eq!(logged.get_start_time(), at(8, 0));
    assert_eq!(logged.get_end_time(), at(8, 30));
    let current = service.get_current_activity().unwrap().unwrap();
    assert_eq!(current.start_time, at(11, 0));
    let all = service.filter_activities(|_| true).unwrap();
    assert_eq!(all.len(), 1);
    assert_eq!(all[0].1.get_tags(), &tags(&["logged"]));
}

#[test]
fn filter_returns_exact_matches_in_store_order() {
    let mut service = build_memory_service();
    service
        .track_activity(Activity::new(at(10, 0), at(10, 30), tags(&["a"])).unwrap())
        .unwrap();
    service
        .track_activity(Activity::new(at(11, 0), at(11, 30), tags(&["b"])).unwrap())
        .unwrap();
    service
        .track_activity(Activity::new(at(12, 0), at(12, 30), tags(&["c"])).unwrap())
        .unwrap();
    let from_eleven = at(11, 0);
    let late = service
        .filter_activities(|(_id, a)| from_eleven.is_no_later_than(&a.get_start_time()))
        .unwrap();
    assert_eq!(late.len(), 2);
    assert_eq!(late[0].0, 1);
    assert_eq!(late[0].1.get_tags(), &tags(&["b"]));
    assert_eq!(late[1].0, 2);
    assert_eq!(late[1].1.get_tags(), &tags(&["c"]));
    let none = service.filter_activities(|_| false).unwrap();
    assert!(none.is_empty());
}

#[test]
fn delete_removes_exactly_the_identifier() {
    let mut service = build_memory_service();
    service
        .track_activity(Activity::new(at(10, 0), at(10, 30), tags(&["a"])).unwrap())
        .unwrap();
    service
        .track_activity(Activity::new(at(11, 0), at(11, 30), tags(&["b"])).unwrap())
        .unwrap();
    let removed = service.delete_activity(0).unwrap().expect("id 0 is present");
    assert_eq!(removed.get_tags(), &tags(&["a"]));
    let all = service.filter_activities(|_| true).unwrap();
    assert_eq!(all.len(), 1);
    assert_eq!(all[0].0, 1);
    assert_eq!(all[0].1.get_tags(), &tags(&["b"]));
    // Deleting an absent identifier is a no-op, not an error.
    let absent = service.delete_activity(42).unwrap();
    assert!(absent.is_none());
    assert_eq!(service.filter_activities(|_| true).unwrap().len(), 1);
}

#[test]
fn deleted_identifier_is_not_reused() {
    let mut service = build_memory_service();
    service
        .track_activity(Activity::new(at(10, 0), at(10, 30), tags(&["a"])).unwrap())
        .unwrap();
    service.delete_activity(0).unwrap().unwrap();
    service
        .track_activity(Activity::new(at(11, 0), at(11, 30), tags(&["b"])).unwrap())
        .unwrap();
    let all = service.filter_activities(|_| true).unwrap();
    assert_eq!(all.len(), 1);
    assert_eq!(all[0].0, 1);
}

#[test]
fn duplicate_tags_keep_their_order() {
    let mut service = build_memory_service();
    service
        .start_activity(OngoingActivity::new(
            at(9, 0),
            tags(&["b", "a", "b"]),
        ))
        .unwrap();
    let stopped = service.stop_current_activity(at(9, 30)).unwrap().unwrap();
    assert_eq!(stopped.get_tags(), &tags(&["b", "a", "b"]));
}
