use rtw::activity::OngoingActivity;
use rtw::datetimew::DateTimeW;
use rtw::memory::{MemoryCurrentActivityRepository, MemoryFinishedActivityRepository};
use rtw::service::Service;

fn build_memory_service() -> Service<MemoryFinishedActivityRepository, MemoryCurrentActivityRepository>
{
    Service::new(
        MemoryFinishedActivityRepository::new(),
        MemoryCurrentActivityRepository::new(),
    )
}

/// Seconds-since-epoch for an hour and minute on some fixed day.
fn at(hours: i64, minutes: i64) -> DateTimeW {
    DateTimeW::new(hours * 3600 + minutes * 60)
}

#[test]
fn test_no_activity() {
    let now = at(12, 0);
    let mut service = build_memory_service();
    assert!(service.stop_current_activity(now).is_ok());
    assert!(service.get_current_activity().unwrap().is_none());
}

#[test]
fn test_start_activity() {
    let now = at(12, 0);
    let mut service = build_memory_service();
    assert!(service.stop_current_activity(now).is_ok());
    let start = service.start_activity(OngoingActivity {
        start_time: now,
        tags: vec![String::from("a")],
    });
    start.unwrap();
    let current = service.get_current_activity();
    assert!(current.is_ok());
    assert!(current.unwrap().is_some());
}

#[test]
fn test_stop_activity_with_active() {
    let now = at(12, 0);
    let mut service = build_memory_service();
    let start = service.start_activity(OngoingActivity {
        start_time: now,
        tags: vec![String::from("a")],
    });
    start.unwrap();
    assert!(service.get_current_activity().unwrap().is_some());
    assert!(service.stop_current_activity(at(12, 5)).is_ok());
    assert!(service.get_current_activity().unwrap().is_none());
}

#[test]
fn test_start_stop_start() {
    let mut service = build_memory_service();
    let start_0 = service.start_activity(OngoingActivity {
        start_time: at(12, 0),
        tags: vec![String::from("a")],
    });
    assert!(start_0.is_ok());
    assert!(service.get_current_activity().unwrap().is_some());
    let stop = service.stop_current_activity(at(12, 5));
    assert!(stop.is_ok());
    assert!(service.get_current_activity().unwrap().is_none());
    let start_1 = service.start_activity(OngoingActivity {
        start_time: at(12, 10),
        tags: vec![String::from("b")],
    });
    assert!(start_1.is_ok());
    assert!(service.get_current_activity().unwrap().is_some());
}

#[test]
fn test_summary_nothing() {
    let service = build_memory_service();
    let today_start = at(0, 0);
    let today_end = at(24, 0);
    let activities = service.filter_activities(|(_id, a)| {
        today_start.is_no_later_than(&a.get_start_time())
            && a.get_start_time().is_no_later_than(&today_end)
    });
    assert!(activities.is_ok());
}

#[test]
fn test_summary_something() {
    let mut service = build_memory_service();
    let range_start = at(8, 0);
    let activity_start = at(8, 30);
    let activity_end = at(8, 45);
    let range_end = at(9, 0);
    let _start = service.start_activity(OngoingActivity::new(
        activity_start,
        vec![String::from("a")],
    ));
    let _stop = service.stop_current_activity(activity_end);
    let activities = service.filter_activities(|(_id, a)| {
        range_start.is_no_later_than(&a.get_start_time())
            && a.get_start_time().is_no_later_than(&range_end)
    });
    assert!(!activities.unwrap().is_empty());
}

#[test]
fn test_summary_not_in_range() {
    let mut service = build_memory_service();
    let range_start = at(9, 0);
    let activity_start = at(8, 30);
    let activity_end = at(8, 45);
    let range_end = at(10, 0);
    let _start = service.start_activity(OngoingActivity::new(
        activity_start,
        vec![String::from("a")],
    ));
    let _stop = service.stop_current_activity(activity_end);
    let activities = service.filter_activities(|(_id, a)| {
        range_start.is_no_later_than(&a.get_start_time())
            && a.get_start_time().is_no_later_than(&range_end)
    });
    assert!(activities.unwrap().is_empty());
}
