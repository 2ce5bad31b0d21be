//! Settings: what is configured, what a session starts from, and which kinds
//! of tool call ask first.

use vstd::prelude::*;
use vstd::string::*;

use crate::text::{clone_opt, same};

verus! {

/// Which kinds of tool call ask before they run.
#[derive(Debug, Clone, Copy, PartialEq, Eq, Structural)]
pub struct ApprovalSettings {
    pub read_disk: bool,
    pub write_disk: bool,
    pub terminal: bool,
}

impl Default for ApprovalSettings {
    fn default() -> (r: Self)
        ensures
            r == (ApprovalSettings { read_disk: true, write_disk: true, terminal: true }),
    {
        ApprovalSettings { read_disk: true, write_disk: true, terminal: true }
    }
}

/// The settings after one category was switched. `all` is every category, and
/// an unknown name changes nothing.
pub open spec fn category_switched(
    before: ApprovalSettings,
    category: Seq<char>,
    enabled: bool,
) -> ApprovalSettings {
    if category == "read"@ {
        ApprovalSettings { read_disk: enabled, ..before }
    } else if category == "write"@ {
        ApprovalSettings { write_disk: enabled, ..before }
    } else if category == "terminal"@ {
        ApprovalSettings { terminal: enabled, ..before }
    } else if category == "all"@ {
        ApprovalSettings { read_disk: enabled, write_disk: enabled, terminal: enabled }
    } else {
        before
    }
}

impl ApprovalSettings {
    /// These settings with one category switched on or off.
    pub fn with_category(&self, category: &str, enabled: bool) -> (r: Self)
        ensures
            r == category_switched(*self, category@, enabled),
    {
        let mut updated: ApprovalSettings = *self;
        if same(category, "read") {
            updated.read_disk = enabled;
        } else if same(category, "write") {
            updated.write_disk = enabled;
        } else if same(category, "terminal") {
            updated.terminal = enabled;
        } else if same(category, "all") {
            updated.read_disk = enabled;
            updated.write_disk = enabled;
            updated.terminal = enabled;
        }
        updated
    }
}

/// Switching a category twice leaves what the second switch says, whatever
/// the first one said.
pub proof fn switching_twice_keeps_the_second(
    before: ApprovalSettings,
    category: Seq<char>,
    first: bool,
    second: bool,
)
    ensures
        category_switched(category_switched(before, category, first), category, second)
            == category_switched(before, category, second),
{
}

/// Switching one of two different single categories leaves the other as it
/// was, so that the order of the two does not matter.
pub proof fn categories_are_independent(before: ApprovalSettings, a: bool, b: bool, c: bool)
    ensures
        category_switched(before, "read"@, a).write_disk == before.write_disk,
        category_switched(before, "read"@, a).terminal == before.terminal,
        category_switched(before, "write"@, b).read_disk == before.read_disk,
        category_switched(before, "write"@, b).terminal == before.terminal,
        category_switched(before, "terminal"@, c).read_disk == before.read_disk,
        category_switched(before, "terminal"@, c).write_disk == before.write_disk,
        category_switched(category_switched(before, "read"@, a), "write"@, b)
            == category_switched(category_switched(before, "write"@, b), "read"@, a),
        category_switched(category_switched(before, "read"@, a), "terminal"@, c)
            == category_switched(category_switched(before, "terminal"@, c), "read"@, a),
        category_switched(category_switched(before, "write"@, b), "terminal"@, c)
            == category_switched(category_switched(before, "terminal"@, c), "write"@, b),
{
    reveal_strlit("read");
    reveal_strlit("write");
    reveal_strlit("terminal");
    reveal_strlit("all");
    assert("read"@ != "write"@) by {
        assert("read"@.len() != "write"@.len());
    }
    assert("read"@ != "terminal"@ && "write"@ != "terminal"@) by {
        assert("read"@.len() != "terminal"@.len());
        assert("write"@.len() != "terminal"@.len());
    }
}

/// Switching `all` gives every category the same value.
pub proof fn all_switches_every_category(before: ApprovalSettings, enabled: bool)
    ensures
        category_switched(before, "all"@, enabled) == (ApprovalSettings {
            read_disk: enabled,
            write_disk: enabled,
            terminal: enabled,
        }),
{
    reveal_strlit("read");
    reveal_strlit("write");
    reveal_strlit("terminal");
    reveal_strlit("all");
    assert("read"@.len() == 4 && "write"@.len() == 5 && "terminal"@.len() == 8 && "all"@.len()
        == 3);
}

/// A sampling temperature: the bit pattern of an IEEE 754 single.
#[derive(Debug, Clone, Copy, PartialEq, Eq, Structural)]
pub struct Temperature {
    pub bits: u32,
}

impl Temperature {
    /// The bits without the sign.
    pub open spec fn magnitude(self) -> int {
        if self.bits >= 0x8000_0000 {
            self.bits - 0x8000_0000
        } else {
            self.bits as int
        }
    }

    /// Whether the value is no number.
    pub open spec fn nan(self) -> bool {
        self.magnitude() > 0x7F80_0000
    }

    /// Whether the value is zero or greater and not infinite.
    pub open spec fn usable(self) -> bool {
        self.bits < 0x7F80_0000 || self.bits == 0x8000_0000
    }

    /// Whether the value lies between zero and two.
    pub open spec fn in_range(self) -> bool {
        self.bits <= 0x4000_0000 || self.bits == 0x8000_0000
    }

    /// Whether the value is less than the positive number with these bits.
    pub open spec fn below(self, limit: u32) -> bool {
        !self.nan() && (self.bits >= 0x8000_0000 || self.bits < limit)
    }

    /// Whether two values compare as equal: no NaN does, and the two zeroes do.
    pub open spec fn equals(self, other: Temperature) -> bool {
        !self.nan() && !other.nan() && (self.bits == other.bits || (self.magnitude() == 0
            && other.magnitude() == 0))
    }

    pub fn is_nan(&self) -> (r: bool)
        ensures
            r == self.nan(),
    {
        let magnitude: u32 = if self.bits >= 0x8000_0000 {
            self.bits - 0x8000_0000
        } else {
            self.bits
        };
        magnitude > 0x7F80_0000
    }

    /// Whether a session accepts the value.
    pub fn is_usable(&self) -> (r: bool)
        ensures
            r == self.usable(),
    {
        self.bits < 0x7F80_0000 || self.bits == 0x8000_0000
    }

    /// Whether the persistent default accepts the value.
    pub fn is_in_range(&self) -> (r: bool)
        ensures
            r == self.in_range(),
    {
        self.bits <= 0x4000_0000 || self.bits == 0x8000_0000
    }

    pub fn is_below(&self, limit: u32) -> (r: bool)
        ensures
            r == self.below(limit),
    {
        !self.is_nan() && (self.bits >= 0x8000_0000 || self.bits < limit)
    }

    pub fn same_value(&self, other: &Temperature) -> (r: bool)
        ensures
            r == self.equals(*other),
    {
        let zero: bool = self.bits == 0 || self.bits == 0x8000_0000;
        let other_zero: bool = other.bits == 0 || other.bits == 0x8000_0000;
        !self.is_nan() && !other.is_nan() && (self.bits == other.bits || (zero && other_zero))
    }
}

/// Whether two optional temperatures compare as equal.
pub open spec fn temperatures_equal(a: Option<Temperature>, b: Option<Temperature>) -> bool {
    match (a, b) {
        (Some(x), Some(y)) => x.equals(y),
        (None, None) => true,
        _ => false,
    }
}

pub fn same_temperature(a: &Option<Temperature>, b: &Option<Temperature>) -> (r: bool)
    ensures
        r == temperatures_equal(*a, *b),
{
    match (a, b) {
        (Some(x), Some(y)) => x.same_value(y),
        (None, None) => true,
        _ => false,
    }
}

/// What the agent may do without asking, and where it may write: the values
/// in force for a running session.
#[derive(Debug, Clone, Copy, PartialEq, Eq, Structural)]
pub struct SessionGates {
    pub approval: ApprovalSettings,
    pub sandbox: bool,
}

impl SessionGates {
    pub fn new(approval: ApprovalSettings, sandbox: bool) -> (r: Self)
        ensures
            r.approval == approval,
            r.sandbox == sandbox,
    {
        SessionGates { approval, sandbox }
    }

    pub fn set_approval(&mut self, approval: ApprovalSettings)
        ensures
            *final(self) == (SessionGates { approval, ..*old(self) }),
    {
        self.approval = approval;
    }

    pub fn set_sandbox(&mut self, sandbox: bool)
        ensures
            *final(self) == (SessionGates { sandbox, ..*old(self) }),
    {
        self.sandbox = sandbox;
    }
}

/// The model for a session when neither a flag nor the configuration names
/// one.
pub const DEFAULT_MODEL: &'static str = "openrouter/auto";

/// The effort levels that every provider knows.
pub const VALID_EFFORT_LEVELS: [&'static str; 3] = ["low", "medium", "high"];

/// How an effort level is sent: as a field of its own, within a `reasoning`
/// object, or not at all.
pub const VALID_EFFORT_STYLES: [&'static str; 3] = ["flat", "nested", "none"];

/// How the reasoning effort is sent when no style is configured.
pub const DEFAULT_EFFORT_STYLE: &'static str = "nested";

/// The configuration that is kept between runs.
#[derive(Debug, Clone)]
pub struct Config {
    /// A key that an older version stored in the file; it belongs in the
    /// keychain.
    pub api_key: Option<String>,
    pub base_url: String,
    pub default_model: Option<String>,
    pub approval: ApprovalSettings,
    pub max_iterations: Option<usize>,
    pub temperature: Option<Temperature>,
    pub effort_level: Option<String>,
    pub effort_style: Option<String>,
    /// Header names and values; no name occurs twice.
    pub extra_headers: Vec<(String, String)>,
    pub stream: bool,
    pub sandbox: bool,
}

/// The base URL that is used until another is configured.
pub fn default_base_url() -> (r: String)
    ensures
        r@ == "https://openrouter.ai/api/v1"@,
{
    String::from_str("https://openrouter.ai/api/v1")
}

/// The cap on agent iterations in a fresh configuration.
pub fn default_max_iterations() -> (r: usize)
    ensures
        r == 20,
{
    20
}

/// The sampling temperature in a fresh configuration: 0.7.
pub fn default_temperature() -> (r: Temperature)
    ensures
        r.bits == 0x3F33_3333,
{
    Temperature { bits: 0x3F33_3333 }
}

impl Config {
    /// No header name occurs twice.
    pub open spec fn wf(self) -> bool {
        forall|i: int, j: int|
            0 <= i < j < self.extra_headers@.len() ==> (#[trigger] self.extra_headers@[i]).0@ != (
            #[trigger] self.extra_headers@[j]).0@
    }
}

impl Default for Config {
    fn default() -> (r: Self)
        ensures
            r.wf(),
            r.api_key is None,
            r.base_url@ == "https://openrouter.ai/api/v1"@,
            r.default_model is None,
            r.approval == (ApprovalSettings { read_disk: true, write_disk: true, terminal: true }),
            r.max_iterations == Some(20usize),
            r.temperature == Some(Temperature { bits: 0x3F33_3333 }),
            r.effort_level is None,
            r.effort_style is None,
            r.extra_headers@.len() == 0,
            r.stream,
            r.sandbox,
    {
        Config {
            api_key: None,
            base_url: default_base_url(),
            default_model: None,
            approval: ApprovalSettings::default(),
            max_iterations: Some(default_max_iterations()),
            temperature: Some(default_temperature()),
            effort_level: None,
            effort_style: None,
            extra_headers: Vec::new(),
            stream: true,
            sandbox: true,
        }
    }
}

/// What a configuration file comes to: the parsed one, or a fresh one where
/// there is none or it cannot be parsed. A key found in the file is taken out
/// of it and handed back, to be moved to the keychain.
pub fn load_config(parsed: Option<Config>) -> (r: (Config, Option<String>))
    requires
        parsed matches Some(c) ==> c.wf(),
    ensures
        r.0.wf(),
        r.0.api_key is None,
        parsed matches Some(c) ==> r.1 == c.api_key && r.0 == (Config { api_key: None, ..c }),
        parsed is None ==> r.1 is None && r.0.base_url@ == "https://openrouter.ai/api/v1"@
            && r.0.default_model is None && r.0.approval == (ApprovalSettings {
            read_disk: true,
            write_disk: true,
            terminal: true,
        }) && r.0.max_iterations == Some(20usize) && r.0.temperature == Some(
            Temperature { bits: 0x3F33_3333 },
        ) && r.0.effort_level is None && r.0.effort_style is None && r.0.extra_headers@.len() == 0
            && r.0.stream && r.0.sandbox,
{
    match parsed {
        Some(c) => {
            let mut config: Config = c;
            let key: Option<String> = config.api_key;
            config.api_key = None;
            (config, key)
        },
        None => (Config::default(), None),
    }
}

/// The model for a new session: the one given for this call, else the
/// configured one, else the built-in default.
pub fn resolve_model(config: &Config, cli_model: Option<String>) -> (r: String)
    ensures
        r@ == match (cli_model, config.default_model) {
            (Some(m), _) => m@,
            (None, Some(m)) => m@,
            (None, None) => DEFAULT_MODEL@,
        },
{
    match cli_model {
        Some(m) => m,
        None => match &config.default_model {
            Some(m) => m.clone(),
            None => String::from_str(DEFAULT_MODEL),
        },
    }
}

/// The iteration cap for this call: the one given for it, else the configured
/// one, else none at all.
pub fn resolve_max_iterations(config: &Config, cli_value: Option<usize>) -> (r: Option<usize>)
    ensures
        r == if cli_value is Some {
            cli_value
        } else {
            config.max_iterations
        },
{
    match cli_value {
        Some(n) => Some(n),
        None => config.max_iterations,
    }
}

/// The temperature for this call, found the same way.
pub fn resolve_temperature(config: &Config, cli_value: Option<Temperature>) -> (r: Option<
    Temperature,
>)
    ensures
        r == if cli_value is Some {
            cli_value
        } else {
            config.temperature
        },
{
    match cli_value {
        Some(n) => Some(n),
        None => config.temperature,
    }
}

/// The effort level for this call, found the same way.
pub fn resolve_effort_level(config: &Config, cli_value: Option<String>) -> (r: Option<String>)
    ensures
        r == if cli_value is Some {
            cli_value
        } else {
            config.effort_level
        },
{
    match cli_value {
        Some(s) => Some(s),
        None => clone_opt(&config.effort_level),
    }
}

/// A switch sets its own category to what it says, and a category that is not
/// known changes nothing.
pub proof fn a_switch_sets_its_own_category(
    before: ApprovalSettings,
    category: Seq<char>,
    enabled: bool,
)
    ensures
        category_switched(before, "read"@, enabled).read_disk == enabled,
        category_switched(before, "write"@, enabled).write_disk == enabled,
        category_switched(before, "terminal"@, enabled).terminal == enabled,
        category != "read"@ && category != "write"@ && category != "terminal"@ && category
            != "all"@ ==> category_switched(before, category, enabled) == before,
{
    reveal_strlit("read");
    reveal_strlit("write");
    reveal_strlit("terminal");
    assert("read"@.len() == 4 && "write"@.len() == 5 && "terminal"@.len() == 8);
}

/// A temperature that can be sent is a number, not negative and not infinite;
/// one of up to two is one of them, and a smaller one than that is too.
pub proof fn a_usable_temperature_is_a_finite_number(t: Temperature, larger: Temperature)
    ensures
        t.nan() ==> !t.usable() && !t.in_range(),
        t.bits == 0x7F80_0000u32 || t.bits == 0xFF80_0000u32 ==> !t.usable(),
        t.bits > 0x8000_0000u32 ==> !t.usable() && !t.in_range(),
        t.magnitude() == 0 ==> t.usable() && t.in_range(),
        t.in_range() ==> t.usable(),
        t.bits == 0x4000_0000u32 ==> t.in_range(),
        t.bits == 0x4000_0001u32 ==> !t.in_range(),
        t.bits <= larger.bits && larger.in_range() && larger.bits < 0x8000_0000u32
            ==> t.in_range(),
        t.bits <= larger.bits && larger.bits < 0x7F80_0000u32 ==> larger.usable() && t.usable(),
{
}

/// Two temperatures are the same where they are the same number, so that the
/// two zeros are, and what is no number is the same as nothing.
pub proof fn temperatures_compare_as_numbers(a: Temperature, b: Temperature)
    ensures
        a.nan() ==> !a.equals(b) && !b.equals(a),
        !a.nan() ==> a.equals(a),
        a.equals(b) == b.equals(a),
        a.magnitude() == 0 && b.magnitude() == 0 ==> a.equals(b),
        a.equals(b) && a.magnitude() != 0 ==> a == b,
        temperatures_equal(None, None),
        !temperatures_equal(Some(a), None),
        !temperatures_equal(None, Some(a)),
        temperatures_equal(Some(a), Some(b)) == a.equals(b),
{
}

/// What is below a limit stays below a higher one, every negative number is
/// below a positive limit, and the limit itself is not.
pub proof fn below_is_strict(t: Temperature, limit: u32, higher: u32)
    requires
        0 < limit <= higher <= 0x7F80_0000,
    ensures
        t.below(limit) ==> t.below(higher),
        !(Temperature { bits: limit }).below(limit),
        t.nan() ==> !t.below(limit),
        t.bits < limit ==> t.below(limit),
        0x8000_0000u32 <= t.bits <= 0xFF80_0000u32 ==> t.below(limit),
{
}

} // verus!
