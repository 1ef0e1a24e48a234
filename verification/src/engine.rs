use vstd::prelude::*;

use crate::config::{Client, Config};
use crate::parse::str_eq;
use crate::snapshot::{snap_lookup, Snapshot};

verus! {

/// Maps a raw station signal reading onto the roughly 0..100 positive scale
/// the classification thresholds use: `100 + raw`, clamped at zero for
/// readings below `-100`.
pub open spec fn normalized_of(raw: i8) -> u64 {
    if raw < -100 {
        0u64
    } else {
        (100 + raw) as u64
    }
}

/// Normalizes a raw signal reading (device units, typically a negative dBm
/// value) onto the positive scale the classification thresholds use.
pub fn normalize_signal(raw: i8) -> (n: u64)
    ensures
        n == normalized_of(raw),
        n <= 227,
{
    if raw < -100 {
        0
    } else {
        (100 + (raw as i64)) as u64
    }
}

/// The reserved trigger name that denotes the timer-based blink mode, the
/// one mode that takes the two delay values.
pub open spec fn is_timer(t: Seq<char>) -> bool {
    t == "timer"@
}

/// Three-way classification of a client's state for one cycle.
#[derive(Debug, Clone, Copy, PartialEq, Eq, Structural)]
pub enum SignalClass {
    NoSignal,
    LowSignal,
    NormalSignal,
}

/// The effective low-signal threshold: the client's override when present,
/// the global default otherwise.
pub open spec fn effective_low_signal_cap(g: Config, cl: Client) -> u64 {
    match cl.low_signal_cap {
        Some(v) => v,
        None => g.low_signal_cap,
    }
}

/// The effective no-signal trigger name.
pub open spec fn effective_no_signal_trigger(g: Config, cl: Client) -> Seq<char> {
    match cl.no_signal_trigger {
        Some(t) => t@,
        None => g.no_signal_trigger@,
    }
}

/// The effective no-signal delay.
pub open spec fn effective_no_signal_delay(g: Config, cl: Client) -> u64 {
    match cl.no_signal_delay {
        Some(v) => v,
        None => g.no_signal_delay,
    }
}

/// The effective normal-signal trigger name.
pub open spec fn effective_signal_trigger(g: Config, cl: Client) -> Seq<char> {
    match cl.signal_trigger {
        Some(t) => t@,
        None => g.signal_trigger@,
    }
}

/// The effective normal-signal delay.
pub open spec fn effective_signal_delay(g: Config, cl: Client) -> u64 {
    match cl.signal_delay {
        Some(v) => v,
        None => g.signal_delay,
    }
}

/// The effective low-signal trigger name.
pub open spec fn effective_low_signal_trigger(g: Config, cl: Client) -> Seq<char> {
    match cl.low_signal_trigger {
        Some(t) => t@,
        None => g.low_signal_trigger@,
    }
}

/// The effective low-signal delay.
pub open spec fn effective_low_signal_delay(g: Config, cl: Client) -> u64 {
    match cl.low_signal_delay {
        Some(v) => v,
        None => g.low_signal_delay,
    }
}

/// Classifies a cycle's reading for a client: no-signal when the station is
/// unseen, low-signal when the normalized reading is at or below the cap
/// (boundary inclusive on the low side), normal-signal above it.
pub open spec fn classify(signal: Option<i8>, cap: u64) -> SignalClass {
    match signal {
        None => SignalClass::NoSignal,
        Some(raw) => if normalized_of(raw) <= cap {
            SignalClass::LowSignal
        } else {
            SignalClass::NormalSignal
        },
    }
}

/// The trigger name the classification selects, after override resolution.
pub open spec fn spec_trigger(g: Config, cl: Client, class: SignalClass) -> Seq<char> {
    match class {
        SignalClass::NoSignal => effective_no_signal_trigger(g, cl),
        SignalClass::LowSignal => effective_low_signal_trigger(g, cl),
        SignalClass::NormalSignal => effective_signal_trigger(g, cl),
    }
}

/// The configured base delay the classification selects, after override
/// resolution.
pub open spec fn spec_base_delay(g: Config, cl: Client, class: SignalClass) -> u64 {
    match class {
        SignalClass::NoSignal => effective_no_signal_delay(g, cl),
        SignalClass::LowSignal => effective_low_signal_delay(g, cl),
        SignalClass::NormalSignal => effective_signal_delay(g, cl),
    }
}

/// The timer delay the evaluation computes: the base delay verbatim for an
/// unseen station, the base delay scaled by the normalized signal for a
/// seen one.
pub open spec fn spec_delay(g: Config, cl: Client, signal: Option<i8>) -> int {
    match signal {
        None => effective_no_signal_delay(g, cl) as int,
        Some(raw) => spec_base_delay(g, cl, classify(signal, effective_low_signal_cap(g, cl)))
            * normalized_of(raw),
    }
}

/// What the engine resolves for one client in one cycle: the trigger name
/// to apply and, exactly when that name is the timer mode, the two delays.
#[derive(Debug, Clone, PartialEq, Eq)]
pub struct EvaluationResult {
    pub trigger: String,
    pub delay_on: Option<u64>,
    pub delay_off: Option<u64>,
}

/// The evaluation result is exactly what the decision rules give for this
/// client and reading: the resolved trigger of the signal classification,
/// with both delays set to the computed timer delay when the trigger is the
/// timer mode and absent otherwise.
pub open spec fn evaluation_ok(g: Config, cl: Client, signal: Option<i8>, r: EvaluationResult) -> bool {
    let class = classify(signal, effective_low_signal_cap(g, cl));
    &&& r.trigger@ == spec_trigger(g, cl, class)
    &&& if is_timer(spec_trigger(g, cl, class)) {
        &&& r.delay_on == Some(spec_delay(g, cl, signal) as u64)
        &&& r.delay_off == Some(spec_delay(g, cl, signal) as u64)
    } else {
        &&& r.delay_on is None
        &&& r.delay_off is None
    }
}

/// The computed timer delay does not overflow the device's delay type; the
/// one precondition evaluation needs, and only when the resolved trigger is
/// the timer mode.
pub open spec fn delay_fits(g: Config, cl: Client, signal: Option<i8>) -> bool {
    is_timer(spec_trigger(g, cl, classify(signal, effective_low_signal_cap(g, cl))))
        ==> spec_delay(g, cl, signal) <= u64::MAX
}

/// Resolves a trigger name: the override when present, else the global
/// default.
fn resolve_trigger(over: &Option<String>, default: &String) -> (r: String)
    ensures
        r@ == match over {
            Some(t) => t@,
            None => default@,
        },
{
    match over {
        Some(t) => t.clone(),
        None => default.clone(),
    }
}

/// Evaluates one client against its station reading for this cycle,
/// selecting the trigger mode and computing its timing parameters.
pub fn evaluate(config: &Config, client: &Client, station_signal: Option<i8>) -> (r:
    EvaluationResult)
    requires
        delay_fits(*config, *client, station_signal),
    ensures
        evaluation_ok(*config, *client, station_signal, r),
{
    let cap = match client.low_signal_cap {
        Some(v) => v,
        None => config.low_signal_cap,
    };
    match station_signal {
        None => {
            let trigger = resolve_trigger(&client.no_signal_trigger, &config.no_signal_trigger);
            if str_eq(trigger.as_str(), "timer") {
                let d = match client.no_signal_delay {
                    Some(v) => v,
                    None => config.no_signal_delay,
                };
                EvaluationResult { trigger, delay_on: Some(d), delay_off: Some(d) }
            } else {
                EvaluationResult { trigger, delay_on: None, delay_off: None }
            }
        },
        Some(raw) => {
            let n = normalize_signal(raw);
            if n <= cap {
                let trigger = resolve_trigger(
                    &client.low_signal_trigger,
                    &config.low_signal_trigger,
                );
                if str_eq(trigger.as_str(), "timer") {
                    let base = match client.low_signal_delay {
                        Some(v) => v,
                        None => config.low_signal_delay,
                    };
                    let d = base * n;
                    EvaluationResult { trigger, delay_on: Some(d), delay_off: Some(d) }
                } else {
                    EvaluationResult { trigger, delay_on: None, delay_off: None }
                }
            } else {
                let trigger = resolve_trigger(&client.signal_trigger, &config.signal_trigger);
                if str_eq(trigger.as_str(), "timer") {
                    let base = match client.signal_delay {
                        Some(v) => v,
                        None => config.signal_delay,
                    };
                    let d = base * n;
                    EvaluationResult { trigger, delay_on: Some(d), delay_off: Some(d) }
                } else {
                    EvaluationResult { trigger, delay_on: None, delay_off: None }
                }
            }
        },
    }
}

/// The evaluation's outcome for one client: a result meeting the decision
/// rules, or nothing exactly when the computed timer delay would overflow.
pub open spec fn evaluation_of(
    g: Config,
    cl: Client,
    signal: Option<i8>,
    r: Option<EvaluationResult>,
) -> bool {
    match r {
        Some(res) => evaluation_ok(g, cl, signal, res),
        None => !delay_fits(g, cl, signal),
    }
}

/// Evaluates one client, declining instead of overflowing when the scaled
/// timer delay does not fit the device's delay type.
pub fn try_evaluate(config: &Config, client: &Client, station_signal: Option<i8>) -> (r: Option<
    EvaluationResult,
>)
    ensures
        evaluation_of(*config, *client, station_signal, r),
{
    match station_signal {
        None => Some(evaluate(config, client, None)),
        Some(raw) => {
            let n = normalize_signal(raw);
            let cap = match client.low_signal_cap {
                Some(v) => v,
                None => config.low_signal_cap,
            };
            let low = n <= cap;
            let trigger = if low {
                resolve_trigger(&client.low_signal_trigger, &config.low_signal_trigger)
            } else {
                resolve_trigger(&client.signal_trigger, &config.signal_trigger)
            };
            if str_eq(trigger.as_str(), "timer") {
                let base = if low {
                    match client.low_signal_delay {
                        Some(v) => v,
                        None => config.low_signal_delay,
                    }
                } else {
                    match client.signal_delay {
                        Some(v) => v,
                        None => config.signal_delay,
                    }
                };
                match base.checked_mul(n) {
                    Some(_) => Some(evaluate(config, client, station_signal)),
                    None => None,
                }
            } else {
                Some(evaluate(config, client, station_signal))
            }
        },
    }
}

/// Evaluates every configured client against this cycle's snapshot, in
/// order, each client's address matched by exact equality after
/// canonicalization; a client whose scaled timer delay would overflow
/// yields nothing and the cycle goes on with the rest.
pub fn evaluate_all(config: &Config, clients: &Vec<Client>, snap: &Snapshot) -> (rs: Vec<
    Option<EvaluationResult>,
>)
    ensures
        rs@.len() == clients@.len(),
        forall|i: int|
            0 <= i < clients@.len() ==> evaluation_of(
                *config,
                #[trigger] clients@[i],
                snap_lookup(snap.entries@, clients@[i].bssid@),
                rs@[i],
            ),
{
    let mut rs: Vec<Option<EvaluationResult>> = Vec::new();
    let mut i: usize = 0;
    while i < clients.len()
        invariant
            0 <= i <= clients@.len(),
            rs@.len() == i,
            forall|j: int|
                0 <= j < i ==> evaluation_of(
                    *config,
                    #[trigger] clients@[j],
                    snap_lookup(snap.entries@, clients@[j].bssid@),
                    rs@[j],
                ),
        decreases clients@.len() - i,
    {
        let client = &clients[i];
        let reading = snap.lookup(&client.bssid);
        let r = try_evaluate(config, client, reading);
        rs.push(r);
        i += 1;
    }
    rs
}

/// Law: a client with no matching station in the snapshot gets the resolved
/// no-signal trigger, and, when that trigger is the timer mode, both delays
/// equal the resolved no-signal delay, unscaled.
pub proof fn lemma_no_signal_uses_unscaled_delay(g: Config, cl: Client, r: EvaluationResult)
    requires
        evaluation_ok(g, cl, None, r),
    ensures
        r.trigger@ == effective_no_signal_trigger(g, cl),
        is_timer(r.trigger@) ==> r.delay_on == Some(effective_no_signal_delay(g, cl))
            && r.delay_off == Some(effective_no_signal_delay(g, cl)),
        !is_timer(r.trigger@) ==> r.delay_on is None && r.delay_off is None,
{
}

/// Law: a present reading classifies low-signal exactly when the normalized
/// signal is at or below the effective cap — the boundary counts as low —
/// and normal-signal exactly when it is above.
pub proof fn lemma_classification_boundary(raw: i8, cap: u64)
    ensures
        (classify(Some(raw), cap) == SignalClass::LowSignal) <==> normalized_of(raw) <= cap,
        (classify(Some(raw), cap) == SignalClass::NormalSignal) <==> normalized_of(raw) > cap,
        classify(Some(raw), cap) != SignalClass::NoSignal,
{
}

/// Law: a per-client override wins over the global default whenever it is
/// present, for each overridable field independently; without it the global
/// default is used.
pub proof fn lemma_override_wins(g: Config, cl: Client)
    ensures
        cl.low_signal_cap matches Some(v) ==> effective_low_signal_cap(g, cl) == v,
        cl.low_signal_cap is None ==> effective_low_signal_cap(g, cl) == g.low_signal_cap,
        cl.no_signal_trigger matches Some(t) ==> effective_no_signal_trigger(g, cl) == t@,
        cl.no_signal_trigger is None ==> effective_no_signal_trigger(g, cl)
            == g.no_signal_trigger@,
        cl.no_signal_delay matches Some(v) ==> effective_no_signal_delay(g, cl) == v,
        cl.no_signal_delay is None ==> effective_no_signal_delay(g, cl) == g.no_signal_delay,
        cl.signal_trigger matches Some(t) ==> effective_signal_trigger(g, cl) == t@,
        cl.signal_trigger is None ==> effective_signal_trigger(g, cl) == g.signal_trigger@,
        cl.signal_delay matches Some(v) ==> effective_signal_delay(g, cl) == v,
        cl.signal_delay is None ==> effective_signal_delay(g, cl) == g.signal_delay,
        cl.low_signal_trigger matches Some(t) ==> effective_low_signal_trigger(g, cl) == t@,
        cl.low_signal_trigger is None ==> effective_low_signal_trigger(g, cl)
            == g.low_signal_trigger@,
        cl.low_signal_delay matches Some(v) ==> effective_low_signal_delay(g, cl) == v,
        cl.low_signal_delay is None ==> effective_low_signal_delay(g, cl) == g.low_signal_delay,
{
}

/// Law: for a seen station the computed timer delay is the resolved base
/// delay of the classification times the normalized signal.
pub proof fn lemma_delay_scales_linearly(g: Config, cl: Client, raw: i8)
    ensures
        classify(Some(raw), effective_low_signal_cap(g, cl)) == SignalClass::LowSignal
            ==> spec_delay(g, cl, Some(raw)) == effective_low_signal_delay(g, cl)
            * normalized_of(raw),
        classify(Some(raw), effective_low_signal_cap(g, cl)) == SignalClass::NormalSignal
            ==> spec_delay(g, cl, Some(raw)) == effective_signal_delay(g, cl) * normalized_of(
            raw,
        ),
{
}

/// Law: doubling the normalized signal doubles the computed timer delay for
/// a fixed base delay.
pub proof fn lemma_doubling_normalized_doubles_delay(base: u64, n1: u64, n2: u64)
    requires
        n2 == 2 * n1,
    ensures
        base * n2 == 2 * (base * n1),
{
    assert(base * n2 == 2 * (base * n1)) by (nonlinear_arith)
        requires
            n2 == 2 * n1,
    ;
}


} // verus!
