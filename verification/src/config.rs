use vstd::prelude::*;

use crate::parse::{parse_u64, parse_u64_spec, str_eq};

verus! {

/// A fatal configuration problem, found while loading the raw key-value
/// sections at startup.
#[derive(Debug, Clone, PartialEq, Eq)]
pub enum ConfigError {
    /// A section holds a key that no field recognizes.
    UnknownKey(String),
    /// A recognized key holds a value that does not convert to its type.
    InvalidValue(String),
    /// The global section lacks a required field, or a client section
    /// lacks its station address or indicator reference.
    MissingField(String),
    /// A client's indicator reference does not resolve to a device.
    DeviceNotFound(String),
}

/// Global defaults, one set per run: the cycle interval, the low-signal
/// threshold, and a trigger name and delay for each of the three signal
/// states.
#[derive(Debug, Clone, PartialEq, Eq)]
pub struct Config {
    pub dump_delay: u64,
    pub low_signal_cap: u64,
    pub no_signal_trigger: String,
    pub no_signal_delay: u64,
    pub signal_trigger: String,
    pub signal_delay: u64,
    pub low_signal_trigger: String,
    pub low_signal_delay: u64,
}

/// One monitored wireless client: its station address (kept as configured;
/// snapshot matching is exact equality after canonicalization, so case and
/// dash separators do not matter), the name of its indicator device, and
/// optional per-client overrides that win over the global defaults when
/// present.
#[derive(Debug, Clone, PartialEq, Eq)]
pub struct Client {
    pub bssid: String,
    pub led: String,
    pub low_signal_cap: Option<u64>,
    pub no_signal_trigger: Option<String>,
    pub no_signal_delay: Option<u64>,
    pub signal_trigger: Option<String>,
    pub signal_delay: Option<u64>,
    pub low_signal_trigger: Option<String>,
    pub low_signal_delay: Option<u64>,
}

/// View of an optional owned string as an optional character sequence.
pub open spec fn opt_string_view(o: Option<String>) -> Option<Seq<char>> {
    match o {
        Some(s) => Some(s@),
        None => None,
    }
}

/// The value bound to a key in a raw section; when the key occurs more than
/// once, the last occurrence wins.
pub open spec fn lookup_val(props: Seq<(String, String)>, key: Seq<char>) -> Option<Seq<char>>
    decreases props.len(),
{
    if props.len() == 0 {
        None
    } else if props.last().0@ == key {
        Some(props.last().1@)
    } else {
        lookup_val(props.drop_last(), key)
    }
}

/// The value bound to a key, parsed as an unsigned decimal numeral; nothing
/// when the key is absent or its value does not parse.
pub open spec fn parsed_u64_at(props: Seq<(String, String)>, key: Seq<char>) -> Option<u64> {
    match lookup_val(props, key) {
        Some(v) => parse_u64_spec(v),
        None => None,
    }
}

/// A key of the global section whose value is an unsigned integer.
pub open spec fn is_global_u64_key(k: Seq<char>) -> bool {
    ||| k == "dump_delay"@
    ||| k == "low_signal_cap"@
    ||| k == "no_signal_delay"@
    ||| k == "signal_delay"@
    ||| k == "low_signal_delay"@
}

/// A key of the global section whose value is a trigger name.
pub open spec fn is_global_str_key(k: Seq<char>) -> bool {
    ||| k == "no_signal_trigger"@
    ||| k == "signal_trigger"@
    ||| k == "low_signal_trigger"@
}

/// A key-value pair the global section must reject: an unrecognized key, or
/// a numeric key whose value does not parse.
pub open spec fn global_pair_bad(k: Seq<char>, v: Seq<char>) -> bool {
    ||| (!is_global_u64_key(k) && !is_global_str_key(k))
    ||| (is_global_u64_key(k) && parse_u64_spec(v) is None)
}

/// No pair before position `upto` is one the global section rejects.
pub open spec fn global_pairs_ok_upto(props: Seq<(String, String)>, upto: int) -> bool {
    forall|j: int| 0 <= j < upto ==> !global_pair_bad(#[trigger] props[j].0@, props[j].1@)
}

/// The eight required global keys, in the order missing ones are reported.
pub open spec fn global_keys_in_order() -> Seq<Seq<char>> {
    seq![
        "dump_delay"@,
        "low_signal_cap"@,
        "no_signal_trigger"@,
        "no_signal_delay"@,
        "signal_trigger"@,
        "signal_delay"@,
        "low_signal_trigger"@,
        "low_signal_delay"@,
    ]
}

/// The global section parses to exactly this set of defaults: every pair is
/// acceptable and each field carries the value of its key's last occurrence.
pub open spec fn config_ok(props: Seq<(String, String)>, c: Config) -> bool {
    &&& global_pairs_ok_upto(props, props.len() as int)
    &&& parsed_u64_at(props, "dump_delay"@) == Some(c.dump_delay)
    &&& parsed_u64_at(props, "low_signal_cap"@) == Some(c.low_signal_cap)
    &&& lookup_val(props, "no_signal_trigger"@) == Some(c.no_signal_trigger@)
    &&& parsed_u64_at(props, "no_signal_delay"@) == Some(c.no_signal_delay)
    &&& lookup_val(props, "signal_trigger"@) == Some(c.signal_trigger@)
    &&& parsed_u64_at(props, "signal_delay"@) == Some(c.signal_delay)
    &&& lookup_val(props, "low_signal_trigger"@) == Some(c.low_signal_trigger@)
    &&& parsed_u64_at(props, "low_signal_delay"@) == Some(c.low_signal_delay)
}

/// The global section fails to parse with exactly this error: the first
/// offending pair names an unknown key or an invalid value, and a missing
/// field is reported only when every pair is acceptable, for the first
/// absent key in reporting order.
pub open spec fn config_err(props: Seq<(String, String)>, e: ConfigError) -> bool {
    match e {
        ConfigError::UnknownKey(k) => exists|i: int|
            {
                &&& 0 <= i < props.len()
                &&& global_pairs_ok_upto(props, i)
                &&& !is_global_u64_key(#[trigger] props[i].0@)
                &&& !is_global_str_key(props[i].0@)
                &&& k@ == props[i].0@
            },
        ConfigError::InvalidValue(k) => exists|i: int|
            {
                &&& 0 <= i < props.len()
                &&& global_pairs_ok_upto(props, i)
                &&& is_global_u64_key(#[trigger] props[i].0@)
                &&& parse_u64_spec(props[i].1@) is None
                &&& k@ == props[i].0@
            },
        ConfigError::MissingField(k) => ({
            &&& global_pairs_ok_upto(props, props.len() as int)
            &&& exists|f: int|
                {
                    &&& 0 <= f < global_keys_in_order().len()
                    &&& k@ == global_keys_in_order()[f]
                    &&& lookup_val(props, #[trigger] global_keys_in_order()[f]) is None
                    &&& forall|g: int|
                        0 <= g < f ==> lookup_val(
                            props,
                            #[trigger] global_keys_in_order()[g],
                        ) is Some
                }
        }),
        ConfigError::DeviceNotFound(_) => false,
    }
}

/// The eight global keys are pairwise distinct character sequences.
proof fn lemma_global_keys_distinct()
    ensures
        "dump_delay"@ != "low_signal_cap"@,
        "dump_delay"@ != "no_signal_trigger"@,
        "dump_delay"@ != "no_signal_delay"@,
        "dump_delay"@ != "signal_trigger"@,
        "dump_delay"@ != "signal_delay"@,
        "dump_delay"@ != "low_signal_trigger"@,
        "dump_delay"@ != "low_signal_delay"@,
        "low_signal_cap"@ != "no_signal_trigger"@,
        "low_signal_cap"@ != "no_signal_delay"@,
        "low_signal_cap"@ != "signal_trigger"@,
        "low_signal_cap"@ != "signal_delay"@,
        "low_signal_cap"@ != "low_signal_trigger"@,
        "low_signal_cap"@ != "low_signal_delay"@,
        "no_signal_trigger"@ != "no_signal_delay"@,
        "no_signal_trigger"@ != "signal_trigger"@,
        "no_signal_trigger"@ != "signal_delay"@,
        "no_signal_trigger"@ != "low_signal_trigger"@,
        "no_signal_trigger"@ != "low_signal_delay"@,
        "no_signal_delay"@ != "signal_trigger"@,
        "no_signal_delay"@ != "signal_delay"@,
        "no_signal_delay"@ != "low_signal_trigger"@,
        "no_signal_delay"@ != "low_signal_delay"@,
        "signal_trigger"@ != "signal_delay"@,
        "signal_trigger"@ != "low_signal_trigger"@,
        "signal_trigger"@ != "low_signal_delay"@,
        "signal_delay"@ != "low_signal_trigger"@,
        "signal_delay"@ != "low_signal_delay"@,
        "low_signal_trigger"@ != "low_signal_delay"@,
{
    reveal_strlit("dump_delay");
    reveal_strlit("low_signal_cap");
    reveal_strlit("no_signal_trigger");
    reveal_strlit("no_signal_delay");
    reveal_strlit("signal_trigger");
    reveal_strlit("signal_delay");
    reveal_strlit("low_signal_trigger");
    reveal_strlit("low_signal_delay");
    assert("dump_delay"@.len() == 10);
    assert("low_signal_cap"@.len() == 14);
    assert("no_signal_trigger"@.len() == 17);
    assert("no_signal_delay"@.len() == 15);
    assert("signal_trigger"@.len() == 14);
    assert("signal_delay"@.len() == 12);
    assert("low_signal_trigger"@.len() == 18);
    assert("low_signal_delay"@.len() == 16);
    assert("low_signal_cap"@[0] == 'l');
    assert("signal_trigger"@[0] == 's');
}

/// A key that is bound somewhere in the section is bound to some pair.
proof fn lemma_lookup_some_exists(props: Seq<(String, String)>, key: Seq<char>)
    requires
        lookup_val(props, key) is Some,
    ensures
        exists|i: int|
            {
                &&& 0 <= i < props.len()
                &&& #[trigger] props[i].0@ == key
                &&& Some(props[i].1@) == lookup_val(props, key)
            },
    decreases props.len(),
{
    if props.last().0@ == key {
        assert(props[props.len() - 1].0@ == key);
    } else {
        lemma_lookup_some_exists(props.drop_last(), key);
        let i = choose|i: int|
            {
                &&& 0 <= i < props.drop_last().len()
                &&& #[trigger] props.drop_last()[i].0@ == key
                &&& Some(props.drop_last()[i].1@) == lookup_val(props.drop_last(), key)
            };
        assert(props[i].0@ == key);
    }
}

/// In a section whose pairs are all acceptable, a numeric key that is bound
/// has a value that parses.
proof fn lemma_bound_u64_key_parses(props: Seq<(String, String)>, key: Seq<char>)
    requires
        global_pairs_ok_upto(props, props.len() as int),
        is_global_u64_key(key),
        lookup_val(props, key) is Some,
    ensures
        parsed_u64_at(props, key) is Some,
{
    lemma_lookup_some_exists(props, key);
}

impl Config {
    /// Builds the global defaults from the raw key-value pairs of the
    /// unnamed configuration section, validating every pair and requiring
    /// all eight fields.
    pub fn from_properties(props: &Vec<(String, String)>) -> (r: Result<Config, ConfigError>)
        ensures
            match r {
                Ok(c) => config_ok(props@, c),
                Err(e) => config_err(props@, e),
            },
    {
        let mut v_dump: Option<u64> = None;
        let mut v_cap: Option<u64> = None;
        let mut t_no: Option<String> = None;
        let mut v_no: Option<u64> = None;
        let mut t_sig: Option<String> = None;
        let mut v_sig: Option<u64> = None;
        let mut t_low: Option<String> = None;
        let mut v_low: Option<u64> = None;
        let mut i: usize = 0;
        while i < props.len()
            invariant
                0 <= i <= props@.len(),
                global_pairs_ok_upto(props@, i as int),
                v_dump == parsed_u64_at(props@.subrange(0, i as int), "dump_delay"@),
                v_cap == parsed_u64_at(props@.subrange(0, i as int), "low_signal_cap"@),
                opt_string_view(t_no) == lookup_val(props@.subrange(0, i as int), "no_signal_trigger"@),
                v_no == parsed_u64_at(props@.subrange(0, i as int), "no_signal_delay"@),
                opt_string_view(t_sig) == lookup_val(props@.subrange(0, i as int), "signal_trigger"@),
                v_sig == parsed_u64_at(props@.subrange(0, i as int), "signal_delay"@),
                opt_string_view(t_low) == lookup_val(props@.subrange(0, i as int), "low_signal_trigger"@),
                v_low == parsed_u64_at(props@.subrange(0, i as int), "low_signal_delay"@),
            decreases props@.len() - i,
        {
            let key = &props[i].0;
            let val = &props[i].1;
            proof {
                lemma_global_keys_distinct();
                assert(props@.subrange(0, i + 1).drop_last() =~= props@.subrange(0, i as int));
                assert(props@.subrange(0, i + 1).last() == props@[i as int]);
            }
            if str_eq(key.as_str(), "dump_delay") {
                match parse_u64(val.as_str()) {
                    Some(x) => v_dump = Some(x),
                    None => {
                        return Err(ConfigError::InvalidValue(key.clone()));
                    },
                }
            } else if str_eq(key.as_str(), "low_signal_cap") {
                match parse_u64(val.as_str()) {
                    Some(x) => v_cap = Some(x),
                    None => {
                        return Err(ConfigError::InvalidValue(key.clone()));
                    },
                }
            } else if str_eq(key.as_str(), "no_signal_trigger") {
                t_no = Some(val.clone());
            } else if str_eq(key.as_str(), "no_signal_delay") {
                match parse_u64(val.as_str()) {
                    Some(x) => v_no = Some(x),
                    None => {
                        return Err(ConfigError::InvalidValue(key.clone()));
                    },
                }
            } else if str_eq(key.as_str(), "signal_trigger") {
                t_sig = Some(val.clone());
            } else if str_eq(key.as_str(), "signal_delay") {
                match parse_u64(val.as_str()) {
                    Some(x) => v_sig = Some(x),
                    None => {
                        return Err(ConfigError::InvalidValue(key.clone()));
                    },
                }
            } else if str_eq(key.as_str(), "low_signal_trigger") {
                t_low = Some(val.clone());
            } else if str_eq(key.as_str(), "low_signal_delay") {
                match parse_u64(val.as_str()) {
                    Some(x) => v_low = Some(x),
                    None => {
                        return Err(ConfigError::InvalidValue(key.clone()));
                    },
                }
            } else {
                return Err(ConfigError::UnknownKey(key.clone()));
            }
            i += 1;
        }
        proof {
            assert(props@.subrange(0, props@.len() as int) =~= props@);
        }
        let dump_delay = match v_dump {
            Some(x) => x,
            None => {
                proof {
                    lemma_missing_global(props@, v_dump, v_cap, opt_string_view(t_no), v_no,
                        opt_string_view(t_sig), v_sig, opt_string_view(t_low), v_low, 0);
                }
                return Err(ConfigError::MissingField("dump_delay".to_owned()));
            },
        };
        let low_signal_cap = match v_cap {
            Some(x) => x,
            None => {
                proof {
                    lemma_missing_global(props@, v_dump, v_cap, opt_string_view(t_no), v_no,
                        opt_string_view(t_sig), v_sig, opt_string_view(t_low), v_low, 1);
                }
                return Err(ConfigError::MissingField("low_signal_cap".to_owned()));
            },
        };
        let no_signal_trigger = match t_no {
            Some(x) => x,
            None => {
                proof {
                    lemma_missing_global(props@, v_dump, v_cap, opt_string_view(t_no), v_no,
                        opt_string_view(t_sig), v_sig, opt_string_view(t_low), v_low, 2);
                }
                return Err(ConfigError::MissingField("no_signal_trigger".to_owned()));
            },
        };
        let no_signal_delay = match v_no {
            Some(x) => x,
            None => {
                proof {
                    lemma_missing_global(props@, v_dump, v_cap, Some(no_signal_trigger@), v_no,
                        opt_string_view(t_sig), v_sig, opt_string_view(t_low), v_low, 3);
                }
                return Err(ConfigError::MissingField("no_signal_delay".to_owned()));
            },
        };
        let signal_trigger = match t_sig {
            Some(x) => x,
            None => {
                proof {
                    lemma_missing_global(props@, v_dump, v_cap, Some(no_signal_trigger@),
                        Some(no_signal_delay), opt_string_view(t_sig), v_sig,
                        opt_string_view(t_low), v_low, 4);
                }
                return Err(ConfigError::MissingField("signal_trigger".to_owned()));
            },
        };
        let signal_delay = match v_sig {
            Some(x) => x,
            None => {
                proof {
                    lemma_missing_global(props@, v_dump, v_cap, Some(no_signal_trigger@),
                        Some(no_signal_delay), Some(signal_trigger@), v_sig,
                        opt_string_view(t_low), v_low, 5);
                }
                return Err(ConfigError::MissingField("signal_delay".to_owned()));
            },
        };
        let low_signal_trigger = match t_low {
            Some(x) => x,
            None => {
                proof {
                    lemma_missing_global(props@, v_dump, v_cap, Some(no_signal_trigger@),
                        Some(no_signal_delay), Some(signal_trigger@), Some(signal_delay),
                        opt_string_view(t_low), v_low, 6);
                }
                return Err(ConfigError::MissingField("low_signal_trigger".to_owned()));
            },
        };
        let low_signal_delay = match v_low {
            Some(x) => x,
            None => {
                proof {
                    lemma_missing_global(props@, v_dump, v_cap, Some(no_signal_trigger@),
                        Some(no_signal_delay), Some(signal_trigger@), Some(signal_delay),
                        Some(low_signal_trigger@), v_low, 7);
                }
                return Err(ConfigError::MissingField("low_signal_delay".to_owned()));
            },
        };
        Ok(Config {
            dump_delay,
            low_signal_cap,
            no_signal_trigger,
            no_signal_delay,
            signal_trigger,
            signal_delay,
            low_signal_trigger,
            low_signal_delay,
        })
    }
}

/// A key of a client section whose value is an unsigned integer.
pub open spec fn is_client_u64_key(k: Seq<char>) -> bool {
    ||| k == "low_signal_cap"@
    ||| k == "no_signal_delay"@
    ||| k == "signal_delay"@
    ||| k == "low_signal_delay"@
}

/// A key of a client section whose value is kept as a string.
pub open spec fn is_client_str_key(k: Seq<char>) -> bool {
    ||| k == "bssid"@
    ||| k == "led"@
    ||| k == "no_signal_trigger"@
    ||| k == "signal_trigger"@
    ||| k == "low_signal_trigger"@
}

/// A key-value pair a client section must reject: an unrecognized key, or a
/// numeric key whose value does not parse.
pub open spec fn client_pair_bad(k: Seq<char>, v: Seq<char>) -> bool {
    ||| (!is_client_u64_key(k) && !is_client_str_key(k))
    ||| (is_client_u64_key(k) && parse_u64_spec(v) is None)
}

/// No pair before position `upto` is one a client section rejects.
pub open spec fn client_pairs_ok_upto(props: Seq<(String, String)>, upto: int) -> bool {
    forall|j: int| 0 <= j < upto ==> !client_pair_bad(#[trigger] props[j].0@, props[j].1@)
}

/// The client section parses to exactly this client: every pair is
/// acceptable, the station address and indicator name are present, and each
/// optional override carries the value of its key's last occurrence, or is
/// absent with the key.
pub open spec fn client_ok(props: Seq<(String, String)>, cl: Client) -> bool {
    &&& client_pairs_ok_upto(props, props.len() as int)
    &&& lookup_val(props, "bssid"@) == Some(cl.bssid@)
    &&& lookup_val(props, "led"@) == Some(cl.led@)
    &&& cl.low_signal_cap == parsed_u64_at(props, "low_signal_cap"@)
    &&& opt_string_view(cl.no_signal_trigger) == lookup_val(props, "no_signal_trigger"@)
    &&& cl.no_signal_delay == parsed_u64_at(props, "no_signal_delay"@)
    &&& opt_string_view(cl.signal_trigger) == lookup_val(props, "signal_trigger"@)
    &&& cl.signal_delay == parsed_u64_at(props, "signal_delay"@)
    &&& opt_string_view(cl.low_signal_trigger) == lookup_val(props, "low_signal_trigger"@)
    &&& cl.low_signal_delay == parsed_u64_at(props, "low_signal_delay"@)
}

/// The client section fails to parse with exactly this error: the first
/// offending pair names an unknown key or an invalid value, and a missing
/// field is reported only when every pair is acceptable, the station
/// address before the indicator name.
pub open spec fn client_err(props: Seq<(String, String)>, e: ConfigError) -> bool {
    match e {
        ConfigError::UnknownKey(k) => exists|i: int|
            {
                &&& 0 <= i < props.len()
                &&& client_pairs_ok_upto(props, i)
                &&& !is_client_u64_key(#[trigger] props[i].0@)
                &&& !is_client_str_key(props[i].0@)
                &&& k@ == props[i].0@
            },
        ConfigError::InvalidValue(k) => exists|i: int|
            {
                &&& 0 <= i < props.len()
                &&& client_pairs_ok_upto(props, i)
                &&& is_client_u64_key(#[trigger] props[i].0@)
                &&& parse_u64_spec(props[i].1@) is None
                &&& k@ == props[i].0@
            },
        ConfigError::MissingField(k) => ({
            &&& client_pairs_ok_upto(props, props.len() as int)
            &&& {
                ||| (lookup_val(props, "bssid"@) is None && k@ == "bssid"@)
                ||| (lookup_val(props, "bssid"@) is Some && lookup_val(props, "led"@) is None
                    && k@ == "led"@)
            }
        }),
        ConfigError::DeviceNotFound(_) => false,
    }
}

/// The station address and indicator keys differ from every other client
/// key.
proof fn lemma_client_keys_distinct()
    ensures
        "bssid"@ != "led"@,
        "bssid"@ != "low_signal_cap"@,
        "bssid"@ != "no_signal_trigger"@,
        "bssid"@ != "no_signal_delay"@,
        "bssid"@ != "signal_trigger"@,
        "bssid"@ != "signal_delay"@,
        "bssid"@ != "low_signal_trigger"@,
        "bssid"@ != "low_signal_delay"@,
        "led"@ != "low_signal_cap"@,
        "led"@ != "no_signal_trigger"@,
        "led"@ != "no_signal_delay"@,
        "led"@ != "signal_trigger"@,
        "led"@ != "signal_delay"@,
        "led"@ != "low_signal_trigger"@,
        "led"@ != "low_signal_delay"@,
{
    reveal_strlit("bssid");
    reveal_strlit("led");
    reveal_strlit("low_signal_cap");
    reveal_strlit("no_signal_trigger");
    reveal_strlit("no_signal_delay");
    reveal_strlit("signal_trigger");
    reveal_strlit("signal_delay");
    reveal_strlit("low_signal_trigger");
    reveal_strlit("low_signal_delay");
    assert("bssid"@.len() == 5);
    assert("led"@.len() == 3);
    assert("low_signal_cap"@.len() == 14);
    assert("no_signal_trigger"@.len() == 17);
    assert("no_signal_delay"@.len() == 15);
    assert("signal_trigger"@.len() == 14);
    assert("signal_delay"@.len() == 12);
    assert("low_signal_trigger"@.len() == 18);
    assert("low_signal_delay"@.len() == 16);
}

impl Client {
    /// Builds one monitored client from the raw key-value pairs of a named
    /// configuration section, validating every pair and requiring the
    /// station address and the indicator name.
    pub fn from_properties(props: &Vec<(String, String)>) -> (r: Result<Client, ConfigError>)
        ensures
            match r {
                Ok(cl) => client_ok(props@, cl),
                Err(e) => client_err(props@, e),
            },
    {
        let mut s_bssid: Option<String> = None;
        let mut s_led: Option<String> = None;
        let mut v_cap: Option<u64> = None;
        let mut t_no: Option<String> = None;
        let mut v_no: Option<u64> = None;
        let mut t_sig: Option<String> = None;
        let mut v_sig: Option<u64> = None;
        let mut t_low: Option<String> = None;
        let mut v_low: Option<u64> = None;
        let mut i: usize = 0;
        while i < props.len()
            invariant
                0 <= i <= props@.len(),
                client_pairs_ok_upto(props@, i as int),
                opt_string_view(s_bssid) == lookup_val(props@.subrange(0, i as int), "bssid"@),
                opt_string_view(s_led) == lookup_val(props@.subrange(0, i as int), "led"@),
                v_cap == parsed_u64_at(props@.subrange(0, i as int), "low_signal_cap"@),
                opt_string_view(t_no) == lookup_val(props@.subrange(0, i as int), "no_signal_trigger"@),
                v_no == parsed_u64_at(props@.subrange(0, i as int), "no_signal_delay"@),
                opt_string_view(t_sig) == lookup_val(props@.subrange(0, i as int), "signal_trigger"@),
                v_sig == parsed_u64_at(props@.subrange(0, i as int), "signal_delay"@),
                opt_string_view(t_low) == lookup_val(props@.subrange(0, i as int), "low_signal_trigger"@),
                v_low == parsed_u64_at(props@.subrange(0, i as int), "low_signal_delay"@),
            decreases props@.len() - i,
        {
            let key = &props[i].0;
            let val = &props[i].1;
            proof {
                lemma_global_keys_distinct();
                lemma_client_keys_distinct();
                assert(props@.subrange(0, i + 1).drop_last() =~= props@.subrange(0, i as int));
                assert(props@.subrange(0, i + 1).last() == props@[i as int]);
            }
            if str_eq(key.as_str(), "bssid") {
                s_bssid = Some(val.clone());
            } else if str_eq(key.as_str(), "led") {
                s_led = Some(val.clone());
            } else if str_eq(key.as_str(), "low_signal_cap") {
                match parse_u64(val.as_str()) {
                    Some(x) => v_cap = Some(x),
                    None => {
                        return Err(ConfigError::InvalidValue(key.clone()));
                    },
                }
            } else if str_eq(key.as_str(), "no_signal_trigger") {
                t_no = Some(val.clone());
            } else if str_eq(key.as_str(), "no_signal_delay") {
                match parse_u64(val.as_str()) {
                    Some(x) => v_no = Some(x),
                    None => {
                        return Err(ConfigError::InvalidValue(key.clone()));
                    },
                }
            } else if str_eq(key.as_str(), "signal_trigger") {
                t_sig = Some(val.clone());
            } else if str_eq(key.as_str(), "signal_delay") {
                match parse_u64(val.as_str()) {
                    Some(x) => v_sig = Some(x),
                    None => {
                        return Err(ConfigError::InvalidValue(key.clone()));
                    },
                }
            } else if str_eq(key.as_str(), "low_signal_trigger") {
                t_low = Some(val.clone());
            } else if str_eq(key.as_str(), "low_signal_delay") {
                match parse_u64(val.as_str()) {
                    Some(x) => v_low = Some(x),
                    None => {
                        return Err(ConfigError::InvalidValue(key.clone()));
                    },
                }
            } else {
                return Err(ConfigError::UnknownKey(key.clone()));
            }
            i += 1;
        }
        proof {
            assert(props@.subrange(0, props@.len() as int) =~= props@);
        }
        let bssid = match s_bssid {
            Some(x) => x,
            None => {
                return Err(ConfigError::MissingField("bssid".to_owned()));
            },
        };
        let led = match s_led {
            Some(x) => x,
            None => {
                return Err(ConfigError::MissingField("led".to_owned()));
            },
        };
        Ok(Client {
            bssid,
            led,
            low_signal_cap: v_cap,
            no_signal_trigger: t_no,
            no_signal_delay: v_no,
            signal_trigger: t_sig,
            signal_delay: v_sig,
            low_signal_trigger: t_low,
            low_signal_delay: v_low,
        })
    }
}

/// In an all-acceptable global section, when the parsed values of the keys
/// before position `f` in reporting order are present and the value at `f`
/// is absent, the key at `f` is the first missing field.
proof fn lemma_missing_global(
    props: Seq<(String, String)>,
    v_dump: Option<u64>,
    v_cap: Option<u64>,
    t_no: Option<Seq<char>>,
    v_no: Option<u64>,
    t_sig: Option<Seq<char>>,
    v_sig: Option<u64>,
    t_low: Option<Seq<char>>,
    v_low: Option<u64>,
    f: int,
)
    requires
        global_pairs_ok_upto(props, props.len() as int),
        v_dump == parsed_u64_at(props, "dump_delay"@),
        v_cap == parsed_u64_at(props, "low_signal_cap"@),
        t_no == lookup_val(props, "no_signal_trigger"@),
        v_no == parsed_u64_at(props, "no_signal_delay"@),
        t_sig == lookup_val(props, "signal_trigger"@),
        v_sig == parsed_u64_at(props, "signal_delay"@),
        t_low == lookup_val(props, "low_signal_trigger"@),
        v_low == parsed_u64_at(props, "low_signal_delay"@),
        0 <= f < 8,
        f == 0 ==> v_dump is None,
        f == 1 ==> v_dump is Some && v_cap is None,
        f == 2 ==> v_dump is Some && v_cap is Some && t_no is None,
        f == 3 ==> v_dump is Some && v_cap is Some && t_no is Some && v_no is None,
        f == 4 ==> v_dump is Some && v_cap is Some && t_no is Some && v_no is Some
            && t_sig is None,
        f == 5 ==> v_dump is Some && v_cap is Some && t_no is Some && v_no is Some
            && t_sig is Some && v_sig is None,
        f == 6 ==> v_dump is Some && v_cap is Some && t_no is Some && v_no is Some
            && t_sig is Some && v_sig is Some && t_low is None,
        f == 7 ==> v_dump is Some && v_cap is Some && t_no is Some && v_no is Some
            && t_sig is Some && v_sig is Some && t_low is Some && v_low is None,
    ensures
        lookup_val(props, global_keys_in_order()[f]) is None,
        forall|g: int| 0 <= g < f ==> lookup_val(props, #[trigger] global_keys_in_order()[g]) is Some,
{
    if lookup_val(props, global_keys_in_order()[f]) is Some {
        if f == 0 || f == 1 || f == 3 || f == 5 || f == 7 {
            lemma_bound_u64_key_parses(props, global_keys_in_order()[f]);
        }
        assert(false);
    }
}

/// The raw pairs of the last unnamed section, when one exists.
pub open spec fn last_unnamed(secs: Seq<(Option<String>, Vec<(String, String)>)>) -> Option<
    Seq<(String, String)>,
>
    decreases secs.len(),
{
    if secs.len() == 0 {
        None
    } else if secs.last().0 is None {
        Some(secs.last().1@)
    } else {
        last_unnamed(secs.drop_last())
    }
}

/// The raw pairs of the named sections, in order.
pub open spec fn named_sections(secs: Seq<(Option<String>, Vec<(String, String)>)>) -> Seq<
    Seq<(String, String)>,
>
    decreases secs.len(),
{
    if secs.len() == 0 {
        Seq::empty()
    } else if secs.last().0 is Some {
        named_sections(secs.drop_last()).push(secs.last().1@)
    } else {
        named_sections(secs.drop_last())
    }
}

/// The section parses without error, as the global section when unnamed and
/// as a client section when named.
pub open spec fn section_parses(sec: (Option<String>, Vec<(String, String)>)) -> bool {
    if sec.0 is None {
        exists|c: Config| config_ok(sec.1@, c)
    } else {
        exists|cl: Client| client_ok(sec.1@, cl)
    }
}

/// The section fails to parse with exactly this error.
pub open spec fn section_fails_with(
    sec: (Option<String>, Vec<(String, String)>),
    e: ConfigError,
) -> bool {
    if sec.0 is None {
        config_err(sec.1@, e)
    } else {
        client_err(sec.1@, e)
    }
}

/// The partially built global defaults agree with the unnamed sections seen
/// so far: absent while none was seen, parsed from the last one otherwise.
pub open spec fn global_so_far(
    cfg: Option<Config>,
    secs: Seq<(Option<String>, Vec<(String, String)>)>,
) -> bool {
    match cfg {
        Some(c) => last_unnamed(secs) is Some && config_ok(last_unnamed(secs)->Some_0, c),
        None => last_unnamed(secs) is None,
    }
}

/// Loads the configuration from its raw sections: the unnamed section gives
/// the global defaults and each named section gives one client. The first
/// section that fails to parse decides the error; when every section parses
/// but none is unnamed, the first global field is reported missing.
pub fn load(sections: &Vec<(Option<String>, Vec<(String, String)>)>) -> (r: Result<
    (Config, Vec<Client>),
    ConfigError,
>)
    ensures
        match r {
            Ok(p) => {
                &&& forall|j: int|
                    0 <= j < sections@.len() ==> section_parses(#[trigger] sections@[j])
                &&& last_unnamed(sections@) is Some
                &&& config_ok(last_unnamed(sections@)->Some_0, p.0)
                &&& p.1@.len() == named_sections(sections@).len()
                &&& forall|j: int|
                    0 <= j < p.1@.len() ==> client_ok(
                        #[trigger] named_sections(sections@)[j],
                        p.1@[j],
                    )
            },
            Err(e) => {
                ||| exists|k: int|
                    {
                        &&& 0 <= k < sections@.len()
                        &&& section_fails_with(#[trigger] sections@[k], e)
                        &&& forall|j: int| 0 <= j < k ==> section_parses(#[trigger] sections@[j])
                    }
                ||| ({
                    &&& forall|j: int|
                        0 <= j < sections@.len() ==> section_parses(#[trigger] sections@[j])
                    &&& last_unnamed(sections@) is None
                    &&& e matches ConfigError::MissingField(f) && f@ == "dump_delay"@
                })
            },
        },
{
    let mut config: Option<Config> = None;
    let mut clients: Vec<Client> = Vec::new();
    let mut i: usize = 0;
    while i < sections.len()
        invariant
            0 <= i <= sections@.len(),
            forall|j: int| 0 <= j < i ==> section_parses(#[trigger] sections@[j]),
            global_so_far(config, sections@.subrange(0, i as int)),
            clients@.len() == named_sections(sections@.subrange(0, i as int)).len(),
            forall|j: int|
                0 <= j < clients@.len() ==> client_ok(
                    #[trigger] named_sections(sections@.subrange(0, i as int))[j],
                    clients@[j],
                ),
        decreases sections@.len() - i,
    {
        let sec = &sections[i];
        proof {
            assert(sections@.subrange(0, i + 1).drop_last() =~= sections@.subrange(0, i as int));
            assert(sections@.subrange(0, i + 1).last() == sections@[i as int]);
        }
        if sec.0.is_none() {
            match Config::from_properties(&sec.1) {
                Ok(c) => {
                    config = Some(c);
                },
                Err(e) => {
                    return Err(e);
                },
            }
        } else {
            match Client::from_properties(&sec.1) {
                Ok(cl) => {
                    clients.push(cl);
                },
                Err(e) => {
                    return Err(e);
                },
            }
        }
        i += 1;
    }
    proof {
        assert(sections@.subrange(0, sections@.len() as int) =~= sections@);
    }
    match config {
        Some(c) => Ok((c, clients)),
        None => Err(ConfigError::MissingField("dump_delay".to_owned())),
    }
}

} // verus!
