use iwled_rs::actuator::{apply_result, plan_writes, DeviceState, WriteOp};
use iwled_rs::engine::EvaluationResult;

fn device() -> DeviceState {
    DeviceState { trigger: "none".to_string(), delay_on: 0, delay_off: 0 }
}

#[test]
fn applying_the_same_result_twice_is_idempotent() {
    let r = EvaluationResult {
        trigger: "timer".to_string(),
        delay_on: Some(80),
        delay_off: Some(80),
    };
    let mut once = device();
    apply_result(&mut once, &r);
    let mut twice = device();
    apply_result(&mut twice, &r);
    apply_result(&mut twice, &r);
    assert_eq!(once, twice);
    assert_eq!(once.trigger, "timer");
    assert_eq!(once.delay_on, 80);
    assert_eq!(once.delay_off, 80);
}

#[test]
fn non_timer_result_leaves_delays_untouched() {
    let r = EvaluationResult { trigger: "heartbeat".to_string(), delay_on: None, delay_off: None };
    let mut st = DeviceState { trigger: "none".to_string(), delay_on: 3, delay_off: 4 };
    apply_result(&mut st, &r);
    assert_eq!(st.trigger, "heartbeat");
    assert_eq!(st.delay_on, 3);
    assert_eq!(st.delay_off, 4);
}

#[test]
fn timer_result_plans_trigger_then_both_delays() {
    let r = EvaluationResult {
        trigger: "timer".to_string(),
        delay_on: Some(10),
        delay_off: Some(20),
    };
    let ops = plan_writes(&r);
    assert_eq!(
        ops,
        vec![
            WriteOp::Trigger("timer".to_string()),
            WriteOp::DelayOn(10),
            WriteOp::DelayOff(20),
        ]
    );
}

#[test]
fn non_timer_result_plans_only_the_trigger_write() {
    let r = EvaluationResult { trigger: "none".to_string(), delay_on: None, delay_off: None };
    let ops = plan_writes(&r);
    assert_eq!(ops, vec![WriteOp::Trigger("none".to_string())]);
}
