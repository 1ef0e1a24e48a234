use vstd::prelude::*;

use crate::engine::{is_timer, EvaluationResult};
use crate::parse::str_eq;

verus! {

/// The writable attributes of one indicator device: the current trigger
/// name and the two delay values of the timer mode.
#[derive(Debug, Clone, PartialEq, Eq)]
pub struct DeviceState {
    pub trigger: String,
    pub delay_on: u64,
    pub delay_off: u64,
}

/// One write to an indicator device attribute.
#[derive(Debug, Clone, PartialEq, Eq)]
pub enum WriteOp {
    Trigger(String),
    DelayOn(u64),
    DelayOff(u64),
}

/// View of a device state as its trigger name and delay values.
pub open spec fn device_view(s: DeviceState) -> (Seq<char>, u64, u64) {
    (s.trigger@, s.delay_on, s.delay_off)
}

/// An evaluation result is well formed: it carries both delays exactly when
/// its trigger is the timer mode.
pub open spec fn result_wf(r: EvaluationResult) -> bool {
    if is_timer(r.trigger@) {
        r.delay_on is Some && r.delay_off is Some
    } else {
        r.delay_on is None && r.delay_off is None
    }
}

/// The device state after one evaluation result is applied: the trigger is
/// written unconditionally, and the delays are written exactly when the
/// trigger is the timer mode.
pub open spec fn spec_apply(st: (Seq<char>, u64, u64), r: EvaluationResult) -> (
    Seq<char>,
    u64,
    u64,
) {
    if is_timer(r.trigger@) {
        (r.trigger@, r.delay_on->Some_0, r.delay_off->Some_0)
    } else {
        (r.trigger@, st.1, st.2)
    }
}

/// The state after one attribute write.
pub open spec fn apply_op(st: (Seq<char>, u64, u64), op: WriteOp) -> (Seq<char>, u64, u64) {
    match op {
        WriteOp::Trigger(t) => (t@, st.1, st.2),
        WriteOp::DelayOn(d) => (st.0, d, st.2),
        WriteOp::DelayOff(d) => (st.0, st.1, d),
    }
}

/// The state after a sequence of attribute writes, performed in order.
pub open spec fn apply_ops(st: (Seq<char>, u64, u64), ops: Seq<WriteOp>) -> (Seq<char>, u64, u64)
    decreases ops.len(),
{
    if ops.len() == 0 {
        st
    } else {
        apply_ops(apply_op(st, ops[0]), ops.drop_first())
    }
}

/// Applies an evaluation result to a modeled device state, exactly as the
/// attribute writes would: the trigger always, the delays only in timer
/// mode.
pub fn apply_result(state: &mut DeviceState, r: &EvaluationResult)
    requires
        result_wf(*r),
    ensures
        device_view(*final(state)) == spec_apply(device_view(*old(state)), *r),
{
    state.trigger = r.trigger.clone();
    if str_eq(r.trigger.as_str(), "timer") {
        state.delay_on = r.delay_on.unwrap();
        state.delay_off = r.delay_off.unwrap();
    }
}

/// The attribute writes the actuator performs for an evaluation result, in
/// order: the trigger first, then, exactly in timer mode, the on delay and
/// the off delay.
pub fn plan_writes(r: &EvaluationResult) -> (ops: Vec<WriteOp>)
    requires
        result_wf(*r),
    ensures
        ops@.len() == (if is_timer(r.trigger@) {
            3int
        } else {
            1int
        }),
        ops@[0] matches WriteOp::Trigger(t) && t@ == r.trigger@,
        is_timer(r.trigger@) ==> ops@[1] == WriteOp::DelayOn(r.delay_on->Some_0) && ops@[2]
            == WriteOp::DelayOff(r.delay_off->Some_0),
{
    let mut ops: Vec<WriteOp> = Vec::new();
    ops.push(WriteOp::Trigger(r.trigger.clone()));
    if str_eq(r.trigger.as_str(), "timer") {
        ops.push(WriteOp::DelayOn(r.delay_on.unwrap()));
        ops.push(WriteOp::DelayOff(r.delay_off.unwrap()));
    }
    ops
}

/// Law: performing the planned writes in order takes any device state to
/// exactly the state the result's application gives.
pub proof fn lemma_planned_writes_apply(
    st: (Seq<char>, u64, u64),
    r: EvaluationResult,
    ops: Seq<WriteOp>,
)
    requires
        result_wf(r),
        ops.len() == (if is_timer(r.trigger@) {
            3int
        } else {
            1int
        }),
        ops[0] matches WriteOp::Trigger(t) && t@ == r.trigger@,
        is_timer(r.trigger@) ==> ops[1] == WriteOp::DelayOn(r.delay_on->Some_0) && ops[2]
            == WriteOp::DelayOff(r.delay_off->Some_0),
    ensures
        apply_ops(st, ops) == spec_apply(st, r),
{
    reveal_with_fuel(apply_ops, 4);
    if is_timer(r.trigger@) {
        assert(ops.drop_first()[0] == ops[1]);
        assert(ops.drop_first().drop_first()[0] == ops[2]);
        assert(ops.drop_first().drop_first().drop_first().len() == 0);
    } else {
        assert(ops.drop_first().len() == 0);
    }
}

/// Law: whatever the engine's decision rules produce is well formed, so the
/// actuator can apply it.
pub proof fn lemma_evaluation_result_wf(
    g: crate::config::Config,
    cl: crate::config::Client,
    signal: Option<i8>,
    r: EvaluationResult,
)
    requires
        crate::engine::evaluation_ok(g, cl, signal, r),
    ensures
        result_wf(r),
{
}

/// Law: applying the same evaluation result twice in a row leaves the
/// device exactly as applying it once does.
pub proof fn lemma_apply_idempotent(st: (Seq<char>, u64, u64), r: EvaluationResult)
    ensures
        spec_apply(spec_apply(st, r), r) == spec_apply(st, r),
{
}

} // verus!
