//! Declarative trigger configuration: parameter definitions, conditions,
//! actions, and broker settings, together with the resolution rules that
//! turn a parameter definition plus an observed lookup outcome into a value.

use vstd::prelude::*;

verus! {

/// Why resolving a single parameter failed.
#[derive(Debug, Clone)]
pub enum ParameterError {
    /// The multicast-DNS collaborator itself failed; carries its message.
    MdnsError(String),
    /// The multicast-DNS query finished without finding the requested host.
    MdnsHostNotFound,
    /// The registry file could not be read; carries the reader's message.
    FilesystemError(String),
    /// The registry file could not be parsed; carries the parser's message.
    Service(String),
    /// No registry record matched the requested label.
    ServiceNotFound,
}

/// A named value used inside query and action templates, resolved either
/// from a literal, a multicast-DNS discovery, or a service-registry file.
#[derive(Debug, Clone)]
pub enum Parameter {
    /// Resolve by multicast-DNS: the reachable address of the instance
    /// `host` announced under the service type `service`.
    Mdns { service: String, host: String },
    /// A literal value; always resolves to itself.
    Value { value: String },
    /// Resolve from the registry file at `file`: the first target of the
    /// first record whose label `key` equals `value`.
    Service { file: String, key: String, value: String },
}

/// One record of a service-registry file: a list of reachable targets and
/// a set of descriptive labels.
#[derive(Debug, Clone)]
pub struct Service {
    targets: Vec<String>,
    labels: Vec<(String, String)>,
}

impl Service {
    /// The record's targets.
    pub closed spec fn spec_targets(&self) -> Seq<String> {
        self.targets@
    }

    /// The record's labels, as key/value pairs in file order.
    pub closed spec fn spec_labels(&self) -> Seq<(String, String)> {
        self.labels@
    }

    /// Builds a record from its targets and labels.
    pub fn new(targets: Vec<String>, labels: Vec<(String, String)>) -> (s: Service)
        ensures
            s.spec_targets() == targets@,
            s.spec_labels() == labels@,
    {
        Service { targets, labels }
    }
}

/// What the surrounding process observed when it performed the outside
/// work for one parameter: nothing for a literal, the discovery's answer
/// for a multicast-DNS lookup, or the registry file's outcome for a
/// registry lookup.
#[derive(Debug, Clone)]
pub enum Lookup {
    /// A literal parameter needs no outside work.
    Static,
    /// The bounded multicast-DNS query finished; `found` is the announced
    /// address of the requested instance, or `None` when the query ended,
    /// with other instances or with none, without finding it.
    Mdns { found: Option<String> },
    /// The multicast-DNS collaborator itself failed.
    MdnsFailed { message: String },
    /// The registry file was read and parsed into its records.
    Registry { records: Vec<Service> },
    /// The registry file could not be read.
    Unreadable { message: String },
    /// The registry file was read but could not be parsed.
    Malformed { message: String },
}

/// Whether a lookup outcome is of the kind that the parameter calls for.
pub open spec fn lookup_fits(p: Parameter, l: Lookup) -> bool {
    match p {
        Parameter::Value { .. } => l is Static,
        Parameter::Mdns { .. } => l is Mdns || l is MdnsFailed,
        Parameter::Service { .. } => l is Registry || l is Unreadable || l is Malformed,
    }
}

/// The value of the first label named `key`, in record order.
pub open spec fn label_value(labels: Seq<(String, String)>, key: Seq<char>) -> Option<String>
    decreases labels.len(),
{
    if labels.len() == 0 {
        None
    } else if labels[0].0@ == key {
        Some(labels[0].1)
    } else {
        label_value(labels.drop_first(), key)
    }
}

/// Whether a record offers a target for `key == value`: its label named
/// `key` has that value, and it announces at least one target.
pub open spec fn record_matches(s: Service, key: Seq<char>, value: Seq<char>) -> bool {
    &&& label_value(s.spec_labels(), key) matches Some(v) && v@ == value
    &&& s.spec_targets().len() > 0
}

/// The first target of the first record matching `key == value`.
pub open spec fn registry_find(records: Seq<Service>, key: Seq<char>, value: Seq<char>) -> Option<
    String,
>
    decreases records.len(),
{
    if records.len() == 0 {
        None
    } else if record_matches(records[0], key, value) {
        Some(records[0].spec_targets()[0])
    } else {
        registry_find(records.drop_first(), key, value)
    }
}

/// What resolving `p` returns once its outside work came back as `l`.
/// Unconstrained when `l` is not of the kind `p` calls for.
pub open spec fn resolve_spec(p: Parameter, l: Lookup) -> Result<String, ParameterError> {
    match p {
        Parameter::Value { value } => Ok(value),
        Parameter::Mdns { .. } => match l {
            Lookup::Mdns { found: Some(address) } => Ok(address),
            Lookup::Mdns { found: None } => Err(ParameterError::MdnsHostNotFound),
            Lookup::MdnsFailed { message } => Err(ParameterError::MdnsError(message)),
            _ => arbitrary(),
        },
        Parameter::Service { key, value, .. } => match l {
            Lookup::Registry { records } => match registry_find(records@, key@, value@) {
                Some(target) => Ok(target),
                None => Err(ParameterError::ServiceNotFound),
            },
            Lookup::Unreadable { message } => Err(ParameterError::FilesystemError(message)),
            Lookup::Malformed { message } => Err(ParameterError::Service(message)),
            _ => arbitrary(),
        },
    }
}

impl Parameter {
    /// Resolves this parameter given the outcome of its outside work.
    pub fn get_value(&self, lookup: &Lookup) -> (r: Result<String, ParameterError>)
        requires
            lookup_fits(*self, *lookup),
        ensures
            r == resolve_spec(*self, *lookup),
    {
        match self {
            Parameter::Value { value } => Ok(value.clone()),
            Parameter::Mdns { .. } => match lookup {
                Lookup::Mdns { found: Some(address) } => Ok(address.clone()),
                Lookup::Mdns { found: None } => Err(ParameterError::MdnsHostNotFound),
                Lookup::MdnsFailed { message } => Err(ParameterError::MdnsError(message.clone())),
                _ => Err(ParameterError::MdnsHostNotFound),
            },
            Parameter::Service { key, value, .. } => match lookup {
                Lookup::Registry { records } => match registry_lookup(records, key, value) {
                    Some(target) => Ok(target),
                    None => Err(ParameterError::ServiceNotFound),
                },
                Lookup::Unreadable { message } => Err(
                    ParameterError::FilesystemError(message.clone()),
                ),
                Lookup::Malformed { message } => Err(ParameterError::Service(message.clone())),
                _ => Err(ParameterError::ServiceNotFound),
            },
        }
    }
}

/// Looks up the first label named `key` in a record's label list.
fn label_lookup(labels: &Vec<(String, String)>, key: &String) -> (r: Option<String>)
    ensures
        r == label_value(labels@, key@),
{
    let n = labels.len();
    let mut i: usize = 0;
    proof {
        assert(labels@.skip(0) =~= labels@);
    }
    while i < n
        invariant
            0 <= i <= n,
            n == labels@.len(),
            label_value(labels@, key@) == label_value(labels@.skip(i as int), key@),
        decreases n - i,
    {
        proof {
            assert(labels@.skip(i as int).drop_first() =~= labels@.skip(i + 1));
        }
        if labels[i].0 == *key {
            return Some(labels[i].1.clone());
        }
        i += 1;
    }
    None
}

/// Finds the first target of the first record matching `key == value`.
fn registry_lookup(records: &Vec<Service>, key: &String, value: &String) -> (r: Option<String>)
    ensures
        r == registry_find(records@, key@, value@),
{
    let n = records.len();
    let mut i: usize = 0;
    proof {
        assert(records@.skip(0) =~= records@);
    }
    while i < n
        invariant
            0 <= i <= n,
            n == records@.len(),
            registry_find(records@, key@, value@) == registry_find(
                records@.skip(i as int),
                key@,
                value@,
            ),
        decreases n - i,
    {
        proof {
            assert(records@.skip(i as int).drop_first() =~= records@.skip(i + 1));
        }
        let matched = match label_lookup(&records[i].labels, key) {
            Some(v) => v == *value,
            None => false,
        };
        if matched && records[i].targets.len() > 0 {
            return Some(records[i].targets[0].clone());
        }
        i += 1;
    }
    None
}

/// Whether `lookups` lines up with `params`: one outcome per parameter,
/// each of the kind its parameter calls for.
pub open spec fn fits_all(params: Seq<(String, Parameter)>, lookups: Seq<Lookup>) -> bool {
    &&& params.len() == lookups.len()
    &&& forall|i: int| 0 <= i < params.len() ==> lookup_fits((#[trigger] params[i]).1, lookups[i])
}

/// Whether every parameter of the set resolves successfully.
pub open spec fn all_resolve(params: Seq<(String, Parameter)>, lookups: Seq<Lookup>) -> bool {
    forall|i: int|
        0 <= i < params.len() ==> (#[trigger] resolve_spec(params[i].1, lookups[i])) is Ok
}

/// Whether `e` is the error of the first parameter, in declaration order,
/// whose resolution fails.
pub open spec fn first_fault_is(
    params: Seq<(String, Parameter)>,
    lookups: Seq<Lookup>,
    e: ParameterError,
) -> bool {
    exists|j: int|
        0 <= j < params.len() && resolve_spec((#[trigger] params[j]).1, lookups[j])
            == Result::<String, ParameterError>::Err(e) && (forall|k: int|
            0 <= k < j ==> (#[trigger] resolve_spec(params[k].1, lookups[k])) is Ok)
}

/// The names and values the parameters resolve to; meaningful only when
/// every resolution succeeds.
pub open spec fn resolved_views(params: Seq<(String, Parameter)>, lookups: Seq<Lookup>) -> Seq<
    (Seq<char>, Seq<char>),
> {
    Seq::new(params.len(), |i: int| (params[i].0@, resolve_spec(params[i].1, lookups[i])->Ok_0@))
}

/// Resolves every parameter of the set, in declaration order, whether or
/// not a template references it; the first failure wins.
pub fn resolve_params(params: &Vec<(String, Parameter)>, lookups: &Vec<Lookup>) -> (r: Result<
    Vec<(String, String)>,
    ParameterError,
>)
    requires
        fits_all(params@, lookups@),
    ensures
        r matches Ok(values) ==> all_resolve(params@, lookups@) && values@.len() == params@.len()
            && (forall|k: int|
            0 <= k < params@.len() ==> (#[trigger] values@[k]).0 == params@[k].0 && values@[k].1
                == resolve_spec(params@[k].1, lookups@[k])->Ok_0),
        r matches Err(e) ==> first_fault_is(params@, lookups@, e),
{
    let n = params.len();
    let mut values: Vec<(String, String)> = Vec::new();
    let mut i: usize = 0;
    while i < n
        invariant
            fits_all(params@, lookups@),
            n == params@.len(),
            0 <= i <= n,
            values@.len() == i,
            forall|k: int|
                0 <= k < i ==> (#[trigger] resolve_spec(params@[k].1, lookups@[k])) is Ok,
            forall|k: int|
                0 <= k < i ==> (#[trigger] values@[k]).0 == params@[k].0 && values@[k].1
                    == resolve_spec(params@[k].1, lookups@[k])->Ok_0,
        decreases n - i,
    {
        let pair = &params[i];
        match pair.1.get_value(&lookups[i]) {
            Ok(v) => {
                values.push((pair.0.clone(), v));
            },
            Err(e) => {
                return Err(e);
            },
        }
        i += 1;
    }
    Ok(values)
}

/// A watched condition: a query template with its parameters and the time
/// window handed through to the edge-detection collaborator.
#[derive(Debug, Clone)]
pub struct Condition {
    pub params: Vec<(String, Parameter)>,
    pub query: String,
    pub from: u64,
    pub to: u64,
}

/// What to do once a condition's edge is confirmed stable.
#[derive(Debug, Clone)]
pub struct Action {
    pub method: Method,
    pub params: Vec<(String, Parameter)>,
    pub url: Option<String>,
    pub topic: Option<String>,
    pub payload: Option<String>,
}

/// How an action is delivered.
#[derive(Debug, Clone, Copy, PartialEq, Eq, Structural)]
pub enum Method {
    Get,
    Put,
    Post,
    Mqtt,
}

/// One configured trigger: a named condition to watch, the stability
/// window (in seconds) an edge must survive, and the action to fire.
/// `delay` is both the minimum age an edge must reach before firing and
/// the cooldown after firing.
#[derive(Debug, Clone)]
pub struct Trigger {
    pub name: String,
    pub delay: u64,
    pub condition: Condition,
    pub action: Action,
}

/// The whole declarative input: where edges are detected, an optional
/// broker, and the set of triggers.
#[derive(Debug, Clone)]
pub struct Config {
    pub prometheus: PrometheusConfig,
    pub mqtt: Option<MqttConfig>,
    pub triggers: Vec<Trigger>,
}

/// Where the edge-detection collaborator is reached.
#[derive(Debug, Clone)]
pub struct PrometheusConfig {
    pub url: String,
}

/// Broker settings with the password already resolved to a plain value.
#[derive(Debug, Clone)]
pub struct MqttConfig {
    pub host: String,
    pub port: Option<u16>,
    pub username: Option<String>,
    pub password: Option<String>,
}

/// Broker settings as loaded, where the password may still point at a file.
#[derive(Debug, Clone)]
pub struct RawMqttConfig {
    pub host: String,
    pub port: Option<u16>,
    pub username: Option<String>,
    pub password: Option<MqttPassword>,
}

/// A broker password given either inline or as a file to read it from.
#[derive(Debug, Clone, PartialEq)]
pub enum MqttPassword {
    Raw { password: String },
    File { password_file: String },
}

impl MqttConfig {
    /// Finishes loading broker settings. When the raw settings point at a
    /// password file, the caller reads that file and passes its contents as
    /// `file_secret`; an inline password is taken as is.
    pub fn from_raw(raw: RawMqttConfig, file_secret: Option<String>) -> (c: MqttConfig)
        ensures
            c.host == raw.host,
            c.port == raw.port,
            c.username == raw.username,
            c.password == (match raw.password {
                None => None::<String>,
                Some(MqttPassword::Raw { password }) => Some(password),
                Some(MqttPassword::File { .. }) => file_secret,
            }),
    {
        let password = match raw.password {
            Some(MqttPassword::Raw { password }) => Some(password),
            Some(MqttPassword::File { .. }) => file_secret,
            None => None,
        };
        MqttConfig { host: raw.host, port: raw.port, username: raw.username, password }
    }

    /// The port to connect to: the configured one, or 1883 by default.
    pub fn effective_port(&self) -> (p: u16)
        ensures
            p == (match self.port {
                Some(q) => q,
                None => 1883u16,
            }),
    {
        match self.port {
            Some(q) => q,
            None => 1883,
        }
    }

    /// The credentials to present: only set when both a user name and a
    /// password are configured.
    pub fn credentials(&self) -> (c: Option<(String, String)>)
        ensures
            c is Some <==> (self.username is Some && self.password is Some),
            c is Some ==> c->Some_0.0 == self.username->Some_0 && c->Some_0.1
                == self.password->Some_0,
    {
        match (&self.username, &self.password) {
            (Some(u), Some(p)) => Some((u.clone(), p.clone())),
            _ => None,
        }
    }
}

} // verus!
