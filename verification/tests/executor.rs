use rust_notes::async_executor::{count_after_clone, count_after_release, delay_step, DelayStep};

#[test]
fn delay_waits_until_its_timer_fired() {
    assert_eq!(delay_step(false), DelayStep::StartTimer);
    assert_eq!(delay_step(true), DelayStep::Ready);
}

#[test]
fn counts_go_up_on_clone_and_down_on_release() {
    assert_eq!(count_after_clone(1), 2);
    assert_eq!(count_after_release(2), (1, false));
    assert_eq!(count_after_release(1), (0, true));
}
