use rtw::activity::{Activity, OngoingActivity};
use rtw::datetimew::DateTimeW;
use rtw::errors::RtwError;

fn tags(labels: &[&str]) -> Vec<String> {
    labels.iter().map(|l| l.to_string()).collect()
}

#[test]
fn interval_with_end_before_start_is_rejected() {
    let result = Activity::new(DateTimeW::new(100), DateTimeW::new(99), tags(&["x"]));
    assert_eq!(result.unwrap_err(), RtwError::InvalidInterval);
}

#[test]
fn interval_is_never_swapped_or_clamped() {
    // A rejected interval yields no activity at all: there is nothing whose
    // bounds could have been silently reordered.
    assert!(Activity::new(DateTimeW::new(5), DateTimeW::new(-5), tags(&[])).is_err());
    // An accepted one keeps its bounds exactly.
    let a = Activity::new(DateTimeW::new(-5), DateTimeW::new(5), tags(&[])).unwrap();
    assert_eq!(a.get_start_time(), DateTimeW::new(-5));
    assert_eq!(a.get_end_time(), DateTimeW::new(5));
}

#[test]
fn zero_length_activity_is_valid() {
    let a = Activity::new(DateTimeW::new(7), DateTimeW::new(7), tags(&["x"])).unwrap();
    assert_eq!(a.get_start_time(), a.get_end_time());
}

#[test]
fn closing_an_ongoing_activity_keeps_start_and_tags() {
    let ongoing = OngoingActivity::new(DateTimeW::new(10), tags(&["a", "b"]));
    let closed = ongoing.into_activity(DateTimeW::new(25)).unwrap();
    assert_eq!(closed.get_start_time(), DateTimeW::new(10));
    assert_eq!(closed.get_end_time(), DateTimeW::new(25));
    assert_eq!(closed.get_tags(), &tags(&["a", "b"]));
}

#[test]
fn closing_before_the_start_is_rejected() {
    let ongoing = OngoingActivity::new(DateTimeW::new(10), tags(&["a"]));
    let result = ongoing.into_activity(DateTimeW::new(9));
    assert_eq!(result.unwrap_err(), RtwError::InvalidInterval);
}

#[test]
fn instants_order_by_their_seconds() {
    assert!(DateTimeW::new(-1).is_no_later_than(&DateTimeW::new(0)));
    assert!(DateTimeW::new(3).is_no_later_than(&DateTimeW::new(3)));
    assert!(!DateTimeW::new(4).is_no_later_than(&DateTimeW::new(3)));
}
