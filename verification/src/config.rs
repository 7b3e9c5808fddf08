use vstd::prelude::*;
use vstd::string::StringExecFns;

verus! {

/// The listening address used when none is given.
pub open spec fn default_address() -> Seq<char> {
    "0.0.0.0"@
}

/// The listening port used when none is given.
pub const DEFAULT_PORT: u16 = 8000;

/// The configuration parameters of the server.
pub struct Config {
    /// Address or host that the server listens on.
    pub address: String,
    /// Port that the server listens on.
    pub port: u16,
    /// Directory that holds the uploaded assets.
    pub assets_dir: String,
}

/// The character of a decimal digit.
pub open spec fn digit_char(d: nat) -> char {
    if d == 0 { '0' }
    else if d == 1 { '1' }
    else if d == 2 { '2' }
    else if d == 3 { '3' }
    else if d == 4 { '4' }
    else if d == 5 { '5' }
    else if d == 6 { '6' }
    else if d == 7 { '7' }
    else if d == 8 { '8' }
    else { '9' }
}

/// The decimal notation of a natural number, without leading zeros.
pub open spec fn decimal(n: nat) -> Seq<char>
    decreases n,
{
    if n < 10 {
        seq![digit_char(n)]
    } else {
        decimal(n / 10).push(digit_char(n % 10))
    }
}

pub(crate) fn digit_str(d: u64) -> (s: &'static str)
    requires
        d < 10,
    ensures
        s@ == seq![digit_char(d as nat)],
{
    if d == 0 {
        proof { reveal_strlit("0"); }
        "0"
    } else if d == 1 {
        proof { reveal_strlit("1"); }
        "1"
    } else if d == 2 {
        proof { reveal_strlit("2"); }
        "2"
    } else if d == 3 {
        proof { reveal_strlit("3"); }
        "3"
    } else if d == 4 {
        proof { reveal_strlit("4"); }
        "4"
    } else if d == 5 {
        proof { reveal_strlit("5"); }
        "5"
    } else if d == 6 {
        proof { reveal_strlit("6"); }
        "6"
    } else if d == 7 {
        proof { reveal_strlit("7"); }
        "7"
    } else if d == 8 {
        proof { reveal_strlit("8"); }
        "8"
    } else {
        proof { reveal_strlit("9"); }
        "9"
    }
}

/// Appends the decimal notation of `n` to `s`.
pub fn append_decimal(s: &mut String, n: u64)
    ensures
        final(s)@ == old(s)@ + decimal(n as nat),
    decreases n,
{
    if n >= 10 {
        append_decimal(s, n / 10);
    }
    s.append(digit_str(n % 10));
    proof {
        if n >= 10 {
            assert(decimal(n as nat) == decimal((n / 10) as nat).push(digit_char((n % 10) as nat)));
        }
    }
}

impl Config {
    /// Builds a configuration from the values that were given, filling in the
    /// defaults (`0.0.0.0` and port 8000) for those that were not.
    pub fn from_options(address: Option<String>, port: Option<u16>, assets_dir: String) -> (c: Config)
        ensures
            c.address@ == match address {
                Some(a) => a@,
                None => default_address(),
            },
            c.port == match port {
                Some(p) => p,
                None => DEFAULT_PORT,
            },
            c.assets_dir@ == assets_dir@,
    {
        let address = match address {
            Some(a) => a,
            None => {
                proof { reveal_strlit("0.0.0.0"); }
                String::from_str("0.0.0.0")
            },
        };
        let port = match port {
            Some(p) => p,
            None => DEFAULT_PORT,
        };
        Config { address, port, assets_dir }
    }

    /// The `address:port` string the server binds to.
    pub fn listen_address(&self) -> (s: String)
        ensures
            s@ == self.address@.push(':') + decimal(self.port as nat),
    {
        let mut s = self.address.clone();
        proof { reveal_strlit(":"); }
        s.append(":");
        append_decimal(&mut s, self.port as u64);
        s
    }

    /// A copy of this configuration.
    pub fn duplicate(&self) -> (c: Config)
        ensures
            c == *self,
    {
        Config {
            address: self.address.clone(),
            port: self.port,
            assets_dir: self.assets_dir.clone(),
        }
    }
}

/// A slot that holds the configuration once it has been parsed.
pub struct ConfigCell {
    value: Option<Config>,
}

/// What a slot holds after the configuration is asked for, where `parsed` is
/// what a parse would give: a slot that is filled keeps its value.
pub open spec fn config_transition(before: Option<Config>, parsed: Config) -> Option<Config> {
    match before {
        Some(v) => Some(v),
        None => Some(parsed),
    }
}

/// The configuration handed back when it is asked for, where `parsed` is what
/// a parse would give: a filled slot's value, else what was parsed.
pub open spec fn config_result(before: Option<Config>, parsed: Config) -> Config {
    match before {
        Some(v) => v,
        None => parsed,
    }
}

impl ConfigCell {
    /// What the slot holds.
    pub closed spec fn slot(&self) -> Option<Config> {
        self.value
    }

    /// An empty slot.
    pub fn new() -> (cell: ConfigCell)
        ensures
            cell.slot() is None,
    {
        ConfigCell { value: None }
    }

    /// Whether the configuration has been parsed.
    pub fn is_initialized(&self) -> (b: bool)
        ensures
            b == self.slot() is Some,
    {
        self.value.is_some()
    }
}

/// Returns the configuration, parsing it with `init` only on the first call:
/// later calls hand back what the first one stored and do not call `init`.
pub fn config<F: FnOnce() -> Config>(cell: &mut ConfigCell, init: F) -> (c: Config)
    requires
        old(cell).slot() is None ==> call_requires(init, ()),
    ensures
        c == config_result(old(cell).slot(), c),
        old(cell).slot() matches Some(v) ==> c == v,
        old(cell).slot() is None ==> call_ensures(init, (), c),
        final(cell).slot() == config_transition(old(cell).slot(), c),
        final(cell).slot() == Some(c),
{
    match &cell.value {
        Some(v) => v.duplicate(),
        None => {
            let parsed = init();
            let c = parsed.duplicate();
            cell.value = Some(parsed);
            c
        },
    }
}

/// The configuration is parsed once: after a first request, whatever a second
/// parse would give, the second request hands back the configuration the
/// first one handed back, and leaves the slot as the first one left it.
pub proof fn lemma_config_parsed_once(before: Option<Config>, first: Config, second: Config)
    ensures
        config_result(config_transition(before, first), second) == config_result(before, first),
        config_transition(config_transition(before, first), second) == config_transition(before, first),
        config_transition(before, first) == Some(config_result(before, first)),
{
}


/// The configuration asked for is the stored one when there is one, else the
/// one parsed, and afterwards the slot holds it; missing values default to
/// address `0.0.0.0` and port 8000.
pub proof fn lemma_config_values(v: Config, parsed: Config)
    ensures
        config_result(Some(v), parsed) == v,
        config_result(None, parsed) == parsed,
        config_transition(Some(v), parsed) == Some(v),
        config_transition(None, parsed) == Some(parsed),
        default_address() == seq!['0', '.', '0', '.', '0', '.', '0'],
        DEFAULT_PORT == 8000,
{
    reveal_strlit("0.0.0.0");
}

} // verus!
