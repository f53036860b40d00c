//! The per-trigger debounce state machine and the planning of edge
//! queries and fired actions.
//!
//! The state machine is pure: the surrounding process executes each
//! returned command (query, sleep, fire) and reports its outcome back as
//! the next event. One trigger's loop is strictly sequential; different
//! triggers run their own machines independently.

use vstd::prelude::*;
use vstd::string::StringExecFns;

use crate::config::{
    all_resolve, first_fault_is, fits_all, resolved_views, Action, Condition, Lookup, Method,
    MqttConfig, ParameterError,
};
use crate::interpolate::{interpolate_option_params, interpolate_params, interpolated};
use std::time::SystemTime;

verus! {

/// Why one trigger iteration failed.
#[derive(Debug, Clone)]
pub enum TriggerError {
    /// A parameter of the condition or action failed to resolve.
    Parameter(ParameterError),
    /// The edge-detection collaborator failed; carries its message.
    Edge(String),
    /// The HTTP request could not be sent; carries the client's message.
    Network(String),
    /// The broker connect or publish failed; carries the client's message.
    Mqtt(String),
    /// The action calls for a broker and none is configured.
    Configuration(String),
}

/// How long a trigger backs off after a failed query, in seconds.
pub const BACKOFF_SECONDS: u64 = 15;

/// The marching state of one trigger's loop.
#[derive(Debug, Clone, Copy, PartialEq, Eq, Structural)]
pub enum TriggerState {
    /// Looking for a fresh edge.
    Searching,
    /// The edge at `edge` was observed and the remainder of the stability
    /// window is being waited out before re-checking.
    PendingVerify { edge: u64 },
    /// The action ran; the quiet period is being waited out.
    Cooldown,
    /// The last query failed; a short fixed pause runs.
    BackingOff,
}

/// What the surrounding process reports back to the trigger's machine.
#[derive(Debug, Clone, Copy, PartialEq, Eq, Structural)]
pub enum TriggerEvent {
    /// The edge query returned the most recent edge, or none.
    Queried { edge: Option<u64> },
    /// The edge query failed.
    QueryFailed,
    /// The commanded sleep finished.
    Slept,
    /// The commanded action ran; its own failures are logged, not
    /// reported, so the machine is not told whether it succeeded.
    Fired,
}

/// What the surrounding process must do next for the trigger.
#[derive(Debug, Clone, Copy, PartialEq, Eq, Structural)]
pub enum Command {
    /// Interpolate the condition's query and ask for the latest edge.
    RunQuery,
    /// Sleep this many seconds, then report `Slept`.
    Sleep { seconds: u64 },
    /// Run the trigger's action, then report `Fired`.
    Fire,
}

/// Whole seconds from `edge` to `now`, clamped at zero.
pub open spec fn elapsed_seconds(now: u64, edge: u64) -> u64 {
    if now >= edge {
        (now - edge) as u64
    } else {
        0
    }
}

/// What remains of the stability window `delay` for an edge observed at
/// `edge` when the clock reads `now`, clamped at zero.
pub open spec fn wait_seconds(delay: u64, now: u64, edge: u64) -> u64 {
    if delay >= elapsed_seconds(now, edge) {
        (delay - elapsed_seconds(now, edge)) as u64
    } else {
        0
    }
}

/// The transition relation of one trigger's loop, evaluated once per
/// reported event. Pairs the surrounding process never produces, such as
/// a query result while cooling down, restart the search.
pub open spec fn step_spec(state: TriggerState, event: TriggerEvent, now: u64, delay: u64) -> (
    TriggerState,
    Command,
) {
    match (state, event) {
        (TriggerState::Searching, TriggerEvent::Queried { edge: Some(e) }) => (
            TriggerState::PendingVerify { edge: e },
            Command::Sleep { seconds: wait_seconds(delay, now, e) },
        ),
        (TriggerState::Searching, TriggerEvent::Queried { edge: None }) => (
            TriggerState::Searching,
            Command::Sleep { seconds: delay },
        ),
        (TriggerState::PendingVerify { edge }, TriggerEvent::Queried { edge: Some(e) }) => if e
            == edge {
            (TriggerState::Cooldown, Command::Fire)
        } else {
            (TriggerState::Searching, Command::RunQuery)
        },
        (TriggerState::PendingVerify { .. }, TriggerEvent::Queried { edge: None }) => (
            TriggerState::Searching,
            Command::RunQuery,
        ),
        (_, TriggerEvent::QueryFailed) => (
            TriggerState::BackingOff,
            Command::Sleep { seconds: BACKOFF_SECONDS },
        ),
        (TriggerState::Cooldown, TriggerEvent::Fired) => (
            TriggerState::Cooldown,
            Command::Sleep { seconds: delay },
        ),
        (TriggerState::PendingVerify { edge }, TriggerEvent::Slept) => (
            TriggerState::PendingVerify { edge },
            Command::RunQuery,
        ),
        (_, TriggerEvent::Slept) => (TriggerState::Searching, Command::RunQuery),
        _ => (TriggerState::Searching, Command::RunQuery),
    }
}

/// Where a trigger's loop begins: searching, with a first query to run.
pub fn initial() -> (r: (TriggerState, Command))
    ensures
        r == (TriggerState::Searching, Command::RunQuery),
{
    (TriggerState::Searching, Command::RunQuery)
}

/// Advances a trigger's machine by one reported event. `now` is the
/// clock reading, in whole seconds since the Unix epoch, and `delay` the
/// trigger's stability window.
pub fn step(state: &TriggerState, event: &TriggerEvent, now: u64, delay: u64) -> (r: (
    TriggerState,
    Command,
))
    ensures
        r == step_spec(*state, *event, now, delay),
{
    match (state, event) {
        (TriggerState::Searching, TriggerEvent::Queried { edge: Some(e) }) => {
            let elapsed = if now >= *e {
                now - *e
            } else {
                0
            };
            let wait = if delay >= elapsed {
                delay - elapsed
            } else {
                0
            };
            (TriggerState::PendingVerify { edge: *e }, Command::Sleep { seconds: wait })
        },
        (TriggerState::Searching, TriggerEvent::Queried { edge: None }) => (
            TriggerState::Searching,
            Command::Sleep { seconds: delay },
        ),
        (TriggerState::PendingVerify { edge }, TriggerEvent::Queried { edge: Some(e) }) => {
            if *e == *edge {
                (TriggerState::Cooldown, Command::Fire)
            } else {
                (TriggerState::Searching, Command::RunQuery)
            }
        },
        (TriggerState::PendingVerify { .. }, TriggerEvent::Queried { edge: None }) => (
            TriggerState::Searching,
            Command::RunQuery,
        ),
        (_, TriggerEvent::QueryFailed) => (
            TriggerState::BackingOff,
            Command::Sleep { seconds: BACKOFF_SECONDS },
        ),
        (TriggerState::Cooldown, TriggerEvent::Fired) => (
            TriggerState::Cooldown,
            Command::Sleep { seconds: delay },
        ),
        (TriggerState::PendingVerify { edge }, TriggerEvent::Slept) => (
            TriggerState::PendingVerify { edge: *edge },
            Command::RunQuery,
        ),
        (_, TriggerEvent::Slept) => (TriggerState::Searching, Command::RunQuery),
        _ => (TriggerState::Searching, Command::RunQuery),
    }
}

/// The action fires exactly at the transitions where a pending edge is
/// re-observed unchanged: no other state and event make the machine
/// command a fire.
pub proof fn lemma_fire_only_when_confirmed(
    state: TriggerState,
    event: TriggerEvent,
    now: u64,
    delay: u64,
)
    ensures
        step_spec(state, event, now, delay).1 == Command::Fire <==> (state
            matches TriggerState::PendingVerify { edge } && event == TriggerEvent::Queried {
            edge: Some(edge),
        }),
{
}

/// Debounce correctness. An edge `e` observed while searching puts the
/// machine in pending verification with a sleep of exactly the remaining
/// stability window; waking re-runs the same query; a re-query that
/// returns `e` again fires the action, exactly once, and enters the
/// cooldown, whose only following command is the quiet-period sleep; a
/// re-query that returns anything else, a different edge or none,
/// returns the machine to searching with an immediate new query and no
/// action.
pub proof fn lemma_debounce(e: u64, second: Option<u64>, now1: u64, now2: u64, delay: u64)
    ensures
        step_spec(
            TriggerState::Searching,
            TriggerEvent::Queried { edge: Some(e) },
            now1,
            delay,
        ) == (
            TriggerState::PendingVerify { edge: e },
            Command::Sleep { seconds: wait_seconds(delay, now1, e) },
        ),
        step_spec(TriggerState::PendingVerify { edge: e }, TriggerEvent::Slept, now2, delay) == (
            TriggerState::PendingVerify { edge: e },
            Command::RunQuery,
        ),
        second == Some(e) ==> step_spec(
            TriggerState::PendingVerify { edge: e },
            TriggerEvent::Queried { edge: second },
            now2,
            delay,
        ) == (TriggerState::Cooldown, Command::Fire),
        second != Some(e) ==> step_spec(
            TriggerState::PendingVerify { edge: e },
            TriggerEvent::Queried { edge: second },
            now2,
            delay,
        ) == (TriggerState::Searching, Command::RunQuery),
        step_spec(TriggerState::Cooldown, TriggerEvent::Fired, now2, delay) == (
            TriggerState::Cooldown,
            Command::Sleep { seconds: delay },
        ),
{
}

/// Boundary of the stability window: an edge already at least `delay`
/// seconds old at first observation waits zero seconds, so the re-check
/// happens with no intentional delay.
pub proof fn lemma_wait_boundary(delay: u64, now: u64, edge: u64)
    requires
        elapsed_seconds(now, edge) >= delay,
    ensures
        wait_seconds(delay, now, edge) == 0,
        step_spec(TriggerState::Searching, TriggerEvent::Queried { edge: Some(edge) }, now, delay)
            == (TriggerState::PendingVerify { edge }, Command::Sleep { seconds: 0 }),
{
}

/// One edge query as the edge-detection collaborator is asked it: the
/// interpolated query text, the window bounds handed through, and how
/// far back to look.
#[derive(Debug, Clone)]
pub struct EdgeQuery {
    pub query: String,
    pub from: u64,
    pub to: u64,
    pub lookback_seconds: u64,
}

/// Builds the edge query for a condition: interpolates the query
/// template with the condition's parameters and adds the fixed
/// sixty-second margin to the lookback.
pub fn prepare_edge_query(condition: &Condition, lookups: &Vec<Lookup>, delay: u64) -> (r: Result<
    EdgeQuery,
    ParameterError,
>)
    requires
        fits_all(condition.params@, lookups@),
        delay + 60 <= u64::MAX,
    ensures
        r matches Ok(q) ==> all_resolve(condition.params@, lookups@) && q.query@ == interpolated(
            condition.query@,
            resolved_views(condition.params@, lookups@),
        ) && q.from == condition.from && q.to == condition.to && q.lookback_seconds == delay + 60,
        r matches Err(e) ==> first_fault_is(condition.params@, lookups@, e),
{
    match interpolate_params(condition.query.as_str(), &condition.params, lookups) {
        Ok(query) => Ok(
            EdgeQuery {
                query,
                from: condition.from,
                to: condition.to,
                lookback_seconds: delay + 60,
            },
        ),
        Err(e) => Err(e),
    }
}

/// A dispatch the surrounding process must perform for a fired trigger.
#[derive(Debug, Clone)]
pub enum ActionPlan {
    /// Issue the HTTP request to `url`; the response body is discarded
    /// and a non-2xx status is not a failure.
    HttpRequest { method: Method, url: String },
    /// Connect to the broker, publish `payload` at `topic` at the
    /// at-most-once level, then disconnect.
    MqttMessage { topic: String, payload: String },
    /// The action's required fields are absent for its method: do
    /// nothing.
    NoOp,
}

/// The interpolation of an optional template, for stating what an
/// action's planned url, topic and payload are.
pub open spec fn opt_interpolated(
    template: Option<String>,
    pairs: Seq<(Seq<char>, Seq<char>)>,
) -> Option<Seq<char>> {
    match template {
        Some(t) => Some(interpolated(t@, pairs)),
        None => None,
    }
}

/// Plans a fired action: interpolates its url, topic and payload with
/// the action's own parameters, then decides the dispatch by method. An
/// MQTT publish without a configured broker is a configuration error; an
/// action whose required fields are absent for its method does nothing.
pub fn plan_action(action: &Action, lookups: &Vec<Lookup>, mqtt_configured: bool) -> (r: Result<
    ActionPlan,
    TriggerError,
>)
    requires
        fits_all(action.params@, lookups@),
    ensures
        (action.url is None && action.topic is None && action.payload is None) ==> (r matches Ok(
            plan,
        ) && plan is NoOp),
        (!all_resolve(action.params@, lookups@) && (action.url is Some || action.topic is Some
            || action.payload is Some)) ==> (r matches Err(te) && te
            matches TriggerError::Parameter(e) && first_fault_is(action.params@, lookups@, e)),
        all_resolve(action.params@, lookups@) ==> ({
            let pairs = resolved_views(action.params@, lookups@);
            let url = opt_interpolated(action.url, pairs);
            let topic = opt_interpolated(action.topic, pairs);
            let payload = opt_interpolated(action.payload, pairs);
            &&& action.method != Method::Mqtt ==> {
                &&& url matches Some(u) ==> (r matches Ok(plan) && plan
                    matches ActionPlan::HttpRequest { method, url: pu } && method == action.method
                    && pu@ == u)
                &&& url is None ==> (r matches Ok(plan) && plan is NoOp)
            }
            &&& action.method == Method::Mqtt ==> {
                &&& topic matches Some(t) ==> (payload matches Some(p) ==> {
                    &&& mqtt_configured ==> (r matches Ok(plan) && plan
                        matches ActionPlan::MqttMessage { topic: pt, payload: pp } && pt@ == t
                        && pp@ == p)
                    &&& !mqtt_configured ==> (r matches Err(te) && te
                        matches TriggerError::Configuration(m) && m@
                        == "mqtt trigger configured, but no mqtt server configured"@)
                })
                &&& (topic is None || payload is None) ==> (r matches Ok(plan) && plan is NoOp)
            }
        }),
{
    let url = match interpolate_option_params(&action.url, &action.params, lookups) {
        Ok(v) => v,
        Err(e) => {
            return Err(TriggerError::Parameter(e));
        },
    };
    let topic = match interpolate_option_params(&action.topic, &action.params, lookups) {
        Ok(v) => v,
        Err(e) => {
            return Err(TriggerError::Parameter(e));
        },
    };
    let payload = match interpolate_option_params(&action.payload, &action.params, lookups) {
        Ok(v) => v,
        Err(e) => {
            return Err(TriggerError::Parameter(e));
        },
    };
    match (action.method, url, topic, payload) {
        (Method::Put, Some(u), _, _) => Ok(
            ActionPlan::HttpRequest { method: Method::Put, url: u },
        ),
        (Method::Post, Some(u), _, _) => Ok(
            ActionPlan::HttpRequest { method: Method::Post, url: u },
        ),
        (Method::Get, Some(u), _, _) => Ok(
            ActionPlan::HttpRequest { method: Method::Get, url: u },
        ),
        (Method::Mqtt, _, Some(t), Some(p)) => {
            if mqtt_configured {
                Ok(ActionPlan::MqttMessage { topic: t, payload: p })
            } else {
                Err(
                    TriggerError::Configuration(
                        String::from_str("mqtt trigger configured, but no mqtt server configured"),
                    ),
                )
            }
        },
        _ => Ok(ActionPlan::NoOp),
    }
}

/// Everything needed to open the broker connection for one publish.
#[derive(Debug, Clone)]
pub struct MqttPlan {
    pub client_id: String,
    pub host: String,
    pub port: u16,
    pub credentials: Option<(String, String)>,
}

/// The client identifier for a publish: a fixed prefix plus the local
/// host name, keeping co-located instances apart on the broker.
pub fn mqtt_client_id(host_name: &str) -> (id: String)
    ensures
        id@ == "prometheus-edge-trigger-"@ + host_name@,
{
    let mut id = String::from_str("prometheus-edge-trigger-");
    id.append(host_name);
    id
}

/// Lays out the broker connection for one publish: the client identifier
/// derived from the local host name, the configured or default port, and
/// credentials exactly when both parts are configured.
pub fn mqtt_plan(config: &MqttConfig, host_name: &str) -> (r: MqttPlan)
    ensures
        r.client_id@ == "prometheus-edge-trigger-"@ + host_name@,
        r.host == config.host,
        r.port == (match config.port {
            Some(p) => p,
            None => 1883u16,
        }),
        r.credentials is Some <==> (config.username is Some && config.password is Some),
        r.credentials is Some ==> r.credentials->Some_0.0 == config.username->Some_0
            && r.credentials->Some_0.1 == config.password->Some_0,
{
    MqttPlan {
        client_id: mqtt_client_id(host_name),
        host: config.host.clone(),
        port: config.effective_port(),
        credentials: config.credentials(),
    }
}

/// Relies on std::time::SystemTime::now, read as whole seconds since the
/// Unix epoch; a clock before the epoch reads as zero. Nothing is
/// promised of a wall clock's value.
#[verifier::external_body]
pub fn now() -> u64 {
    match SystemTime::now().duration_since(SystemTime::UNIX_EPOCH) {
        Ok(d) => d.as_secs(),
        Err(_) => 0,
    }
}

/// Whole seconds elapsed since `time` by the process clock, clamped at
/// zero; nothing is promised of it, since nothing is promised of the
/// clock.
pub fn since(time: u64) -> u64 {
    let n = now();
    if n >= time {
        n - time
    } else {
        0
    }
}

} // verus!
