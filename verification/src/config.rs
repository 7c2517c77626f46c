//! Configuration loaded from environment variables: each field of a configuration is
//! read from the variable named by the configuration's prefix and the field's name in
//! capitals; optional fields may be absent.
use vstd::prelude::*;
use crate::text::{str_eq, str_contains_char};
use std::time::Duration;

verus! {

/// Why a configuration could not be loaded.
#[derive(Clone, Debug, PartialEq, Eq)]
pub enum ConfigError {
    /// A required variable is not set; it holds the variable's name.
    Missing(String),
    /// A variable's value does not parse as its field's type; it holds the variable's name.
    Invalid(String),
}

// ---------------------------------------------------------------------------
// Variable lookup

/// The value of the first variable named `name`.
pub open spec fn lookup(vars: Seq<(String, String)>, name: Seq<char>) -> Option<Seq<char>>
    decreases vars.len(),
{
    if vars.len() == 0 {
        None
    } else if vars[0].0@ == name {
        Some(vars[0].1@)
    } else {
        lookup(vars.drop_first(), name)
    }
}

/// The value of the first variable named `name`.
pub fn lookup_var<'a>(vars: &'a Vec<(String, String)>, name: &str) -> (r: Option<&'a String>)
    ensures
        match r {
            Some(v) => lookup(vars@, name@) == Some(v@),
            None => lookup(vars@, name@) is None,
        },
{
    let n = vars.len();
    let mut k: usize = 0;
    assert(vars@.subrange(0, n as int) =~= vars@);
    while k < n
        invariant
            n == vars@.len(),
            k <= n,
            lookup(vars@, name@) == lookup(vars@.subrange(k as int, n as int), name@),
        decreases n - k,
    {
        let ghost rest = vars@.subrange(k as int, n as int);
        assert(rest[0] == vars@[k as int]);
        if str_eq(vars[k].0.as_str(), name) {
            return Some(&vars[k].1);
        }
        assert(rest.drop_first() =~= vars@.subrange(k as int + 1, n as int));
        k = k + 1;
    }
    None
}

/// The name of a field's variable: the prefix followed by the field's name.
pub fn var_name(prefix: &str, field: &str) -> (r: String)
    ensures
        r@ == prefix@ + field@,
{
    let mut r = prefix.to_owned();
    r.append(field);
    r
}

// ---------------------------------------------------------------------------
// Number parsing

/// The value of a decimal digit character.
pub open spec fn digit_value(c: char) -> nat {
    (c as nat - '0' as nat) as nat
}

/// Whether all characters are decimal digits.
pub open spec fn all_digits(s: Seq<char>) -> bool {
    forall|i: int| 0 <= i < s.len() ==> '0' <= #[trigger] s[i] <= '9'
}

/// The value of a string of decimal digits.
pub open spec fn digits_value(s: Seq<char>) -> nat
    decreases s.len(),
{
    if s.len() == 0 {
        0
    } else {
        digits_value(s.drop_last()) * 10 + digit_value(s.last())
    }
}

/// The digits of an unsigned number: the text without a leading `+`.
pub open spec fn unsigned_digits(s: Seq<char>) -> Seq<char> {
    if s.len() > 0 && s[0] == '+' {
        s.drop_first()
    } else {
        s
    }
}

/// The unsigned number a text denotes: an optional `+` and at least one decimal digit,
/// its value at most `max`.
pub open spec fn parse_unsigned(s: Seq<char>, max: nat) -> Option<nat> {
    let d = unsigned_digits(s);
    if d.len() > 0 && all_digits(d) && digits_value(d) <= max {
        Some(digits_value(d))
    } else {
        None
    }
}

proof fn lemma_digits_value_grows(s: Seq<char>, k: int)
    requires
        0 <= k <= s.len(),
        all_digits(s),
    ensures
        digits_value(s.take(k)) <= digits_value(s),
    decreases s.len() - k,
{
    if k < s.len() {
        lemma_digits_value_grows(s, k + 1);
        assert(s.take(k + 1).drop_last() =~= s.take(k));
    } else {
        assert(s.take(k) =~= s);
    }
}

/// Parses an unsigned decimal number of at most `max`.
pub fn parse_u64_max(s: &str, max: u64) -> (r: Option<u64>)
    ensures
        match r {
            Some(v) => parse_unsigned(s@, max as nat) == Some(v as nat),
            None => parse_unsigned(s@, max as nat) is None,
        },
{
    let n = s.unicode_len();
    let mut start: usize = 0;
    if n > 0 && s.get_char(0) == '+' {
        start = 1;
    }
    let ghost d = unsigned_digits(s@);
    proof {
        assert(d =~= s@.subrange(start as int, n as int));
    }
    if start >= n {
        return None;
    }
    let mut acc: u64 = 0;
    let mut k: usize = start;
    while k < n
        invariant
            n == s@.len(),
            start <= k <= n,
            d == s@.subrange(start as int, n as int),
            d == unsigned_digits(s@),
            forall|i: int| 0 <= i < k - start ==> '0' <= #[trigger] d[i] <= '9',
            acc == digits_value(d.take(k - start)),
            acc <= max,
        decreases n - k,
    {
        let c = s.get_char(k);
        assert(c == d[k - start]);
        if c < '0' || c > '9' {
            proof {
                assert(!all_digits(d)) by {
                    assert(!('0' <= d[k - start] <= '9'));
                }
                assert(parse_unsigned(s@, max as nat) is None);
            }
            return None;
        }
        let digit: u64 = (c as u64) - ('0' as u64);
        proof {
            assert(d.take(k - start + 1).drop_last() =~= d.take(k - start));
            assert(d.take(k - start + 1).last() == c);
            assert(digit == digit_value(c));
        }
        if digit > max || acc > (max - digit) / 10 {
            proof {
                if digit > max {
                    assert(digits_value(d.take(k - start + 1)) == acc * 10 + digit);
                }
                else {
                    assert(digits_value(d.take(k - start + 1)) > max) by (nonlinear_arith)
                        requires
                            digits_value(d.take(k - start + 1)) == acc * 10 + digit,
                            acc > (max - digit) / 10,
                            digit <= max,
                    ;
                }
                if all_digits(d) {
                    lemma_digits_value_grows(d, k - start + 1);
                }
                assert(parse_unsigned(s@, max as nat) is None);
            }
            return None;
        }
        proof {
            assert(acc * 10 + digit <= max) by (nonlinear_arith)
                requires
                    acc <= (max - digit) / 10,
                    digit <= max,
            ;
        }
        acc = acc * 10 + digit;
        k = k + 1;
    }
    proof {
        assert(d.take(n - start) =~= d);
    }
    Some(acc)
}

/// The boolean a text denotes: exactly `true` or `false`.
pub open spec fn parse_bool_spec(s: Seq<char>) -> Option<bool> {
    if s == "true"@ {
        Some(true)
    } else if s == "false"@ {
        Some(false)
    } else {
        None
    }
}

/// The text `true` reads as true and `false` as false, and no other text is a boolean.
pub proof fn law_bool_texts(s: Seq<char>)
    ensures
        parse_bool_spec(seq!['t', 'r', 'u', 'e']) == Some(true),
        parse_bool_spec(seq!['f', 'a', 'l', 's', 'e']) == Some(false),
        parse_bool_spec(s) is Some ==> s == seq!['t', 'r', 'u', 'e'] || s == seq!['f', 'a', 'l', 's', 'e'],
        parse_bool_spec(s) == Some(true) ==> s == seq!['t', 'r', 'u', 'e'],
{
    reveal_strlit("true");
    reveal_strlit("false");
    assert("true"@ =~= seq!['t', 'r', 'u', 'e']);
    assert("false"@ =~= seq!['f', 'a', 'l', 's', 'e']);
}

/// A required boolean field whose variable holds the text `true` loads as true, and one
/// whose variable holds `false` loads as false.
pub proof fn law_bool_field_texts(vars: Seq<(String, String)>, name: Seq<char>)
    ensures
        lookup(vars, name) == Some(seq!['t', 'r', 'u', 'e']) ==> bool_field(vars, name) == Ok::<bool, FieldIssue>(true),
        lookup(vars, name) == Some(seq!['f', 'a', 'l', 's', 'e']) ==> bool_field(vars, name) == Ok::<bool, FieldIssue>(false),
{
    law_bool_texts(seq![]);
}

/// A proof compressor configuration loaded from variables where the wrapper-proof flag
/// holds the text `true` verifies wrapper proofs; with `false` it does not.
pub proof fn law_compressor_wrapper_flag(c: FriProofCompressorConfig, vars: Seq<(String, String)>)
    requires
        fri_proof_compressor_config_values(c, vars),
    ensures
        lookup(vars, "FRI_PROOF_COMPRESSOR_VERIFY_WRAPPER_PROOF"@) == Some(seq!['t', 'r', 'u', 'e']) ==> c.verify_wrapper_proof,
        lookup(vars, "FRI_PROOF_COMPRESSOR_VERIFY_WRAPPER_PROOF"@) == Some(seq!['f', 'a', 'l', 's', 'e']) ==> !c.verify_wrapper_proof,
{
    law_bool_field_texts(vars, "FRI_PROOF_COMPRESSOR_VERIFY_WRAPPER_PROOF"@);
}

/// Parses `true` or `false`.
pub fn parse_bool(s: &str) -> (r: Option<bool>)
    ensures
        r == parse_bool_spec(s@),
{
    if str_eq(s, "true") {
        Some(true)
    } else if str_eq(s, "false") {
        Some(false)
    } else {
        None
    }
}


// ---------------------------------------------------------------------------
// Fields

/// What is wrong with a field's variable.
#[derive(Clone, Copy, Debug, PartialEq, Eq, Structural)]
pub enum FieldIssue {
    Missing,
    Invalid,
}

/// A required unsigned field: its value, or what is wrong with it.
pub open spec fn unsigned_field(vars: Seq<(String, String)>, name: Seq<char>, max: nat) -> Result<nat, FieldIssue> {
    match lookup(vars, name) {
        None => Err(FieldIssue::Missing),
        Some(v) => match parse_unsigned(v, max) {
            Some(x) => Ok(x),
            None => Err(FieldIssue::Invalid),
        },
    }
}

/// An optional unsigned field: absent, its value, or invalid.
pub open spec fn opt_unsigned_field(vars: Seq<(String, String)>, name: Seq<char>, max: nat) -> Result<Option<nat>, FieldIssue> {
    match lookup(vars, name) {
        None => Ok(None),
        Some(v) => match parse_unsigned(v, max) {
            Some(x) => Ok(Some(x)),
            None => Err(FieldIssue::Invalid),
        },
    }
}

/// A required text field.
pub open spec fn string_field(vars: Seq<(String, String)>, name: Seq<char>) -> Result<Seq<char>, FieldIssue> {
    match lookup(vars, name) {
        None => Err(FieldIssue::Missing),
        Some(v) => Ok(v),
    }
}

/// An optional text field.
pub open spec fn opt_string_field(vars: Seq<(String, String)>, name: Seq<char>) -> Option<Seq<char>> {
    lookup(vars, name)
}

/// A required boolean field.
pub open spec fn bool_field(vars: Seq<(String, String)>, name: Seq<char>) -> Result<bool, FieldIssue> {
    match lookup(vars, name) {
        None => Err(FieldIssue::Missing),
        Some(v) => match parse_bool_spec(v) {
            Some(b) => Ok(b),
            None => Err(FieldIssue::Invalid),
        },
    }
}

/// The issue of a field's outcome, if any.
pub open spec fn issue_of<T>(r: Result<T, FieldIssue>) -> Option<FieldIssue> {
    match r {
        Ok(_) => None,
        Err(i) => Some(i),
    }
}

/// `e` reports `issue` of the variable `name`.
pub open spec fn error_matches(e: ConfigError, name: Seq<char>, issue: FieldIssue) -> bool {
    match (e, issue) {
        (ConfigError::Missing(n), FieldIssue::Missing) => n@ == name,
        (ConfigError::Invalid(n), FieldIssue::Invalid) => n@ == name,
        _ => false,
    }
}

/// Loading succeeds when no field has an issue; otherwise the error reports the first
/// field, in declaration order, that has one.
pub open spec fn outcome_matches(err: Option<ConfigError>, issues: Seq<(Seq<char>, Option<FieldIssue>)>) -> bool {
    match err {
        None => forall|i: int| 0 <= i < issues.len() ==> (#[trigger] issues[i]).1 is None,
        Some(e) => exists|i: int| 0 <= i < issues.len() && (#[trigger] issues[i]).1 is Some
            && error_matches(e, issues[i].0, issues[i].1->0)
            && forall|j: int| 0 <= j < i ==> (#[trigger] issues[j]).1 is None,
    }
}

/// The error of a loading outcome, if any.
pub open spec fn err_of<T>(r: Result<T, ConfigError>) -> Option<ConfigError> {
    match r {
        Ok(_) => None,
        Err(e) => Some(e),
    }
}

fn field_error(name: &str, issue: FieldIssue) -> (e: ConfigError)
    ensures
        error_matches(e, name@, issue),
{
    match issue {
        FieldIssue::Missing => ConfigError::Missing(name.to_owned()),
        FieldIssue::Invalid => ConfigError::Invalid(name.to_owned()),
    }
}

/// A required unsigned field of at most `max`.
pub fn req_unsigned(vars: &Vec<(String, String)>, name: &str, max: u64) -> (r: Result<u64, ConfigError>)
    ensures
        match r {
            Ok(v) => unsigned_field(vars@, name@, max as nat) == Ok::<nat, FieldIssue>(v as nat),
            Err(e) => unsigned_field(vars@, name@, max as nat) is Err
                && error_matches(e, name@, unsigned_field(vars@, name@, max as nat)->Err_0),
        },
{
    match lookup_var(vars, name) {
        None => Err(field_error(name, FieldIssue::Missing)),
        Some(v) => match parse_u64_max(v.as_str(), max) {
            Some(x) => Ok(x),
            None => Err(field_error(name, FieldIssue::Invalid)),
        },
    }
}

/// An optional unsigned field of at most `max`.
pub fn opt_unsigned(vars: &Vec<(String, String)>, name: &str, max: u64) -> (r: Result<Option<u64>, ConfigError>)
    ensures
        match r {
            Ok(v) => opt_unsigned_field(vars@, name@, max as nat) == Ok::<Option<nat>, FieldIssue>(
                match v { Some(x) => Some(x as nat), None => None }),
            Err(e) => opt_unsigned_field(vars@, name@, max as nat) is Err
                && error_matches(e, name@, opt_unsigned_field(vars@, name@, max as nat)->Err_0),
        },
{
    match lookup_var(vars, name) {
        None => Ok(None),
        Some(v) => match parse_u64_max(v.as_str(), max) {
            Some(x) => Ok(Some(x)),
            None => Err(field_error(name, FieldIssue::Invalid)),
        },
    }
}

/// A required text field.
pub fn req_string(vars: &Vec<(String, String)>, name: &str) -> (r: Result<String, ConfigError>)
    ensures
        match r {
            Ok(v) => string_field(vars@, name@) == Ok::<Seq<char>, FieldIssue>(v@),
            Err(e) => string_field(vars@, name@) is Err
                && error_matches(e, name@, string_field(vars@, name@)->Err_0),
        },
{
    match lookup_var(vars, name) {
        None => Err(field_error(name, FieldIssue::Missing)),
        Some(v) => Ok(v.clone()),
    }
}

/// An optional text field.
pub fn opt_string(vars: &Vec<(String, String)>, name: &str) -> (r: Option<String>)
    ensures
        match r {
            Some(v) => opt_string_field(vars@, name@) == Some(v@),
            None => opt_string_field(vars@, name@) is None,
        },
{
    match lookup_var(vars, name) {
        None => None,
        Some(v) => Some(v.clone()),
    }
}

/// A required boolean field.
pub fn req_bool(vars: &Vec<(String, String)>, name: &str) -> (r: Result<bool, ConfigError>)
    ensures
        match r {
            Ok(v) => bool_field(vars@, name@) == Ok::<bool, FieldIssue>(v),
            Err(e) => bool_field(vars@, name@) is Err
                && error_matches(e, name@, bool_field(vars@, name@)->Err_0),
        },
{
    match lookup_var(vars, name) {
        None => Err(field_error(name, FieldIssue::Missing)),
        Some(v) => match parse_bool(v.as_str()) {
            Some(b) => Ok(b),
            None => Err(field_error(name, FieldIssue::Invalid)),
        },
    }
}

// ---------------------------------------------------------------------------
// Configurations

/// Configuration for the Ethereum gateways.
#[derive(Clone, Debug, PartialEq, Eq)]
pub struct ETHClientConfig {
    /// Numeric identifier of the L1 network (e.g. `9` for localhost).
    pub chain_id: u64,
    /// Address of the Ethereum node API.
    pub web3_url: String,
}

/// The fields of `ETHClientConfig` read from the variables, in declaration order,
/// with what is wrong with each.
pub open spec fn eth_client_config_issues(v: Seq<(String, String)>) -> Seq<(Seq<char>, Option<FieldIssue>)> {
    seq![
        ("ETH_CLIENT_CHAIN_ID"@, issue_of(unsigned_field(v, "ETH_CLIENT_CHAIN_ID"@, 18446744073709551615))),
        ("ETH_CLIENT_WEB3_URL"@, issue_of(string_field(v, "ETH_CLIENT_WEB3_URL"@))),
    ]
}

/// `c` holds the values of the variables.
pub open spec fn eth_client_config_values(c: ETHClientConfig, v: Seq<(String, String)>) -> bool {
    &&& c.chain_id as nat == unsigned_field(v, "ETH_CLIENT_CHAIN_ID"@, 18446744073709551615)->Ok_0
    &&& c.web3_url@ == string_field(v, "ETH_CLIENT_WEB3_URL"@)->Ok_0
}

impl ETHClientConfig {
    /// Reads the fields from the variables `ETH_CLIENT_*`, whatever the web3 URL holds.
    pub fn read_fields(vars: &Vec<(String, String)>) -> (r: Result<ETHClientConfig, ConfigError>)
        ensures
            outcome_matches(err_of(r), eth_client_config_issues(vars@)),
            r is Ok ==> eth_client_config_values(r->Ok_0, vars@),
    {
        let ghost iss = eth_client_config_issues(vars@);
        let chain_id = match req_unsigned(vars, "ETH_CLIENT_CHAIN_ID", 18446744073709551615) {
            Ok(x) => x,
            Err(e) => {
                proof {
                    assert(iss[0].1 is Some && error_matches(e, iss[0].0, iss[0].1->0));
                    assert forall|j: int| 0 <= j < 0 implies (#[trigger] iss[j]).1 is None by {}
                }
                return Err(e);
            },
        };
        let web3_url = match req_string(vars, "ETH_CLIENT_WEB3_URL") {
            Ok(x) => x,
            Err(e) => {
                proof {
                    assert(iss[1].1 is Some && error_matches(e, iss[1].0, iss[1].1->0));
                    assert forall|j: int| 0 <= j < 1 implies (#[trigger] iss[j]).1 is None by {}
                }
                return Err(e);
            },
        };
        let c = ETHClientConfig { chain_id, web3_url };
        proof {
            assert forall|j: int| 0 <= j < iss.len() implies (#[trigger] iss[j]).1 is None by {}
        }
        Ok(c)
    }

    /// Whether the web3 URL names a single endpoint: several URLs, separated by commas,
    /// are not supported, and a loader stops the node on them.
    pub fn has_single_web3_url(&self) -> (r: bool)
        ensures
            r == !self.web3_url@.contains(','),
    {
        !str_contains_char(self.web3_url.as_str(), ',')
    }

    /// Loads the configuration from the variables `ETH_CLIENT_*`. Several web3 URLs,
    /// separated by commas, are not supported: a loader stops the node on them before
    /// this call.
    pub fn from_env(vars: &Vec<(String, String)>) -> (r: Result<ETHClientConfig, ConfigError>)
        requires
            !(forall|i: int| 0 <= i < eth_client_config_issues(vars@).len()
                ==> (#[trigger] eth_client_config_issues(vars@)[i]).1 is None)
            || !string_field(vars@, "ETH_CLIENT_WEB3_URL"@)->Ok_0.contains(','),
        ensures
            outcome_matches(err_of(r), eth_client_config_issues(vars@)),
            r is Ok ==> eth_client_config_values(r->Ok_0, vars@),
    {
        ETHClientConfig::read_fields(vars)
    }
}

/// Configuration of the prover dashboard.
#[derive(Clone, Debug, PartialEq, Eq)]
pub struct FriProverDashboardConfig {
    pub host: String,
    pub port: u16,
    pub health_check_interval: u64,
}

/// The fields of `FriProverDashboardConfig` read from the variables, in declaration order,
/// with what is wrong with each.
pub open spec fn fri_prover_dashboard_config_issues(v: Seq<(String, String)>) -> Seq<(Seq<char>, Option<FieldIssue>)> {
    seq![
        ("FRI_PROVER_DASHBOARD_HOST"@, issue_of(string_field(v, "FRI_PROVER_DASHBOARD_HOST"@))),
        ("FRI_PROVER_DASHBOARD_PORT"@, issue_of(unsigned_field(v, "FRI_PROVER_DASHBOARD_PORT"@, 65535))),
        ("FRI_PROVER_DASHBOARD_HEALTH_CHECK_INTERVAL"@, issue_of(unsigned_field(v, "FRI_PROVER_DASHBOARD_HEALTH_CHECK_INTERVAL"@, 18446744073709551615))),
    ]
}

/// `c` holds the values of the variables.
pub open spec fn fri_prover_dashboard_config_values(c: FriProverDashboardConfig, v: Seq<(String, String)>) -> bool {
    &&& c.host@ == string_field(v, "FRI_PROVER_DASHBOARD_HOST"@)->Ok_0
    &&& c.port as nat == unsigned_field(v, "FRI_PROVER_DASHBOARD_PORT"@, 65535)->Ok_0
    &&& c.health_check_interval as nat == unsigned_field(v, "FRI_PROVER_DASHBOARD_HEALTH_CHECK_INTERVAL"@, 18446744073709551615)->Ok_0
}

impl FriProverDashboardConfig {
    /// Loads the configuration from the variables `FRI_PROVER_DASHBOARD_*`.
    pub fn from_env(vars: &Vec<(String, String)>) -> (r: Result<FriProverDashboardConfig, ConfigError>)
        ensures
            outcome_matches(err_of(r), fri_prover_dashboard_config_issues(vars@)),
            r is Ok ==> fri_prover_dashboard_config_values(r->Ok_0, vars@),
    {
        let ghost iss = fri_prover_dashboard_config_issues(vars@);
        let host = match req_string(vars, "FRI_PROVER_DASHBOARD_HOST") {
            Ok(x) => x,
            Err(e) => {
                proof {
                    assert(iss[0].1 is Some && error_matches(e, iss[0].0, iss[0].1->0));
                    assert forall|j: int| 0 <= j < 0 implies (#[trigger] iss[j]).1 is None by {}
                }
                return Err(e);
            },
        };
        let port = match req_unsigned(vars, "FRI_PROVER_DASHBOARD_PORT", 65535) {
            Ok(x) => x as u16,
            Err(e) => {
                proof {
                    assert(iss[1].1 is Some && error_matches(e, iss[1].0, iss[1].1->0));
                    assert forall|j: int| 0 <= j < 1 implies (#[trigger] iss[j]).1 is None by {}
                }
                return Err(e);
            },
        };
        let health_check_interval = match req_unsigned(vars, "FRI_PROVER_DASHBOARD_HEALTH_CHECK_INTERVAL", 18446744073709551615) {
            Ok(x) => x,
            Err(e) => {
                proof {
                    assert(iss[2].1 is Some && error_matches(e, iss[2].0, iss[2].1->0));
                    assert forall|j: int| 0 <= j < 2 implies (#[trigger] iss[j]).1 is None by {}
                }
                return Err(e);
            },
        };
        let c = FriProverDashboardConfig { host, port, health_check_interval };
        proof {
            assert forall|j: int| 0 <= j < iss.len() implies (#[trigger] iss[j]).1 is None by {}
        }
        Ok(c)
    }
}

/// Configuration of the prover task application.
#[derive(Clone, Debug, PartialEq, Eq)]
pub struct FriProverTaskApplyConfig {
    pub rpc_url: String,
    pub poll_duration_secs: u16,
    pub call_contract_duration_secs: u64,
    pub contract_apply_count: Option<u32>,
    pub confirmations_for_eth_event: u64,
    pub chain_id: u64,
    pub app_monitor_url: Option<String>,
    pub retry_interval_ms: Option<u64>,
}

/// The fields of `FriProverTaskApplyConfig` read from the variables, in declaration order,
/// with what is wrong with each.
pub open spec fn fri_prover_task_apply_config_issues(v: Seq<(String, String)>) -> Seq<(Seq<char>, Option<FieldIssue>)> {
    seq![
        ("FRI_PROVER_TASK_APPLY_RPC_URL"@, issue_of(string_field(v, "FRI_PROVER_TASK_APPLY_RPC_URL"@))),
        ("FRI_PROVER_TASK_APPLY_POLL_DURATION_SECS"@, issue_of(unsigned_field(v, "FRI_PROVER_TASK_APPLY_POLL_DURATION_SECS"@, 65535))),
        ("FRI_PROVER_TASK_APPLY_CALL_CONTRACT_DURATION_SECS"@, issue_of(unsigned_field(v, "FRI_PROVER_TASK_APPLY_CALL_CONTRACT_DURATION_SECS"@, 18446744073709551615))),
        ("FRI_PROVER_TASK_APPLY_CONTRACT_APPLY_COUNT"@, issue_of(opt_unsigned_field(v, "FRI_PROVER_TASK_APPLY_CONTRACT_APPLY_COUNT"@, 4294967295))),
        ("FRI_PROVER_TASK_APPLY_CONFIRMATIONS_FOR_ETH_EVENT"@, issue_of(unsigned_field(v, "FRI_PROVER_TASK_APPLY_CONFIRMATIONS_FOR_ETH_EVENT"@, 18446744073709551615))),
        ("FRI_PROVER_TASK_APPLY_CHAIN_ID"@, issue_of(unsigned_field(v, "FRI_PROVER_TASK_APPLY_CHAIN_ID"@, 18446744073709551615))),
        ("FRI_PROVER_TASK_APPLY_APP_MONITOR_URL"@, None),
        ("FRI_PROVER_TASK_APPLY_RETRY_INTERVAL_MS"@, issue_of(opt_unsigned_field(v, "FRI_PROVER_TASK_APPLY_RETRY_INTERVAL_MS"@, 18446744073709551615))),
    ]
}

/// `c` holds the values of the variables.
pub open spec fn fri_prover_task_apply_config_values(c: FriProverTaskApplyConfig, v: Seq<(String, String)>) -> bool {
    &&& c.rpc_url@ == string_field(v, "FRI_PROVER_TASK_APPLY_RPC_URL"@)->Ok_0
    &&& c.poll_duration_secs as nat == unsigned_field(v, "FRI_PROVER_TASK_APPLY_POLL_DURATION_SECS"@, 65535)->Ok_0
    &&& c.call_contract_duration_secs as nat == unsigned_field(v, "FRI_PROVER_TASK_APPLY_CALL_CONTRACT_DURATION_SECS"@, 18446744073709551615)->Ok_0
    &&& opt_unsigned_field(v, "FRI_PROVER_TASK_APPLY_CONTRACT_APPLY_COUNT"@, 4294967295) == Ok::<Option<nat>, FieldIssue>(match c.contract_apply_count { Some(x) => Some(x as nat), None => None })
    &&& c.confirmations_for_eth_event as nat == unsigned_field(v, "FRI_PROVER_TASK_APPLY_CONFIRMATIONS_FOR_ETH_EVENT"@, 18446744073709551615)->Ok_0
    &&& c.chain_id as nat == unsigned_field(v, "FRI_PROVER_TASK_APPLY_CHAIN_ID"@, 18446744073709551615)->Ok_0
    &&& match c.app_monitor_url { Some(x) => opt_string_field(v, "FRI_PROVER_TASK_APPLY_APP_MONITOR_URL"@) == Some(x@), None => opt_string_field(v, "FRI_PROVER_TASK_APPLY_APP_MONITOR_URL"@) is None }
    &&& opt_unsigned_field(v, "FRI_PROVER_TASK_APPLY_RETRY_INTERVAL_MS"@, 18446744073709551615) == Ok::<Option<nat>, FieldIssue>(match c.retry_interval_ms { Some(x) => Some(x as nat), None => None })
}

impl FriProverTaskApplyConfig {
    /// Loads the configuration from the variables `FRI_PROVER_TASK_APPLY_*`.
    pub fn from_env(vars: &Vec<(String, String)>) -> (r: Result<FriProverTaskApplyConfig, ConfigError>)
        ensures
            outcome_matches(err_of(r), fri_prover_task_apply_config_issues(vars@)),
            r is Ok ==> fri_prover_task_apply_config_values(r->Ok_0, vars@),
    {
        let ghost iss = fri_prover_task_apply_config_issues(vars@);
        let rpc_url = match req_string(vars, "FRI_PROVER_TASK_APPLY_RPC_URL") {
            Ok(x) => x,
            Err(e) => {
                proof {
                    assert(iss[0].1 is Some && error_matches(e, iss[0].0, iss[0].1->0));
                    assert forall|j: int| 0 <= j < 0 implies (#[trigger] iss[j]).1 is None by {}
                }
                return Err(e);
            },
        };
        let poll_duration_secs = match req_unsigned(vars, "FRI_PROVER_TASK_APPLY_POLL_DURATION_SECS", 65535) {
            Ok(x) => x as u16,
            Err(e) => {
                proof {
                    assert(iss[1].1 is Some && error_matches(e, iss[1].0, iss[1].1->0));
                    assert forall|j: int| 0 <= j < 1 implies (#[trigger] iss[j]).1 is None by {}
                }
                return Err(e);
            },
        };
        let call_contract_duration_secs = match req_unsigned(vars, "FRI_PROVER_TASK_APPLY_CALL_CONTRACT_DURATION_SECS", 18446744073709551615) {
            Ok(x) => x,
            Err(e) => {
                proof {
                    assert(iss[2].1 is Some && error_matches(e, iss[2].0, iss[2].1->0));
                    assert forall|j: int| 0 <= j < 2 implies (#[trigger] iss[j]).1 is None by {}
                }
                return Err(e);
            },
        };
        let contract_apply_count = match opt_unsigned(vars, "FRI_PROVER_TASK_APPLY_CONTRACT_APPLY_COUNT", 4294967295) {
            Ok(x) => match x { Some(y) => Some(y as u32), None => None },
            Err(e) => {
                proof {
                    assert(iss[3].1 is Some && error_matches(e, iss[3].0, iss[3].1->0));
                    assert forall|j: int| 0 <= j < 3 implies (#[trigger] iss[j]).1 is None by {}
                }
                return Err(e);
            },
        };
        let confirmations_for_eth_event = match req_unsigned(vars, "FRI_PROVER_TASK_APPLY_CONFIRMATIONS_FOR_ETH_EVENT", 18446744073709551615) {
            Ok(x) => x,
            Err(e) => {
                proof {
                    assert(iss[4].1 is Some && error_matches(e, iss[4].0, iss[4].1->0));
                    assert forall|j: int| 0 <= j < 4 implies (#[trigger] iss[j]).1 is None by {}
                }
                return Err(e);
            },
        };
        let chain_id = match req_unsigned(vars, "FRI_PROVER_TASK_APPLY_CHAIN_ID", 18446744073709551615) {
            Ok(x) => x,
            Err(e) => {
                proof {
                    assert(iss[5].1 is Some && error_matches(e, iss[5].0, iss[5].1->0));
                    assert forall|j: int| 0 <= j < 5 implies (#[trigger] iss[j]).1 is None by {}
                }
                return Err(e);
            },
        };
        let app_monitor_url = opt_string(vars, "FRI_PROVER_TASK_APPLY_APP_MONITOR_URL");
        let retry_interval_ms = match opt_unsigned(vars, "FRI_PROVER_TASK_APPLY_RETRY_INTERVAL_MS", 18446744073709551615) {
            Ok(x) => x,
            Err(e) => {
                proof {
                    assert(iss[7].1 is Some && error_matches(e, iss[7].0, iss[7].1->0));
                    assert forall|j: int| 0 <= j < 7 implies (#[trigger] iss[j]).1 is None by {}
                }
                return Err(e);
            },
        };
        let c = FriProverTaskApplyConfig { rpc_url, poll_duration_secs, call_contract_duration_secs, contract_apply_count, confirmations_for_eth_event, chain_id, app_monitor_url, retry_interval_ms };
        proof {
            assert forall|j: int| 0 <= j < iss.len() implies (#[trigger] iss[j]).1 is None by {}
        }
        Ok(c)
    }
}

/// Configuration of the transaction monitor.
#[derive(Clone, Debug, PartialEq, Eq)]
pub struct MonitorConfig {
    pub timeout_in_secs: u16,
    /// Task polling interval, in milliseconds.
    pub retry_interval_ms: u64,
}

/// The fields of `MonitorConfig` read from the variables, in declaration order,
/// with what is wrong with each.
pub open spec fn monitor_config_issues(v: Seq<(String, String)>) -> Seq<(Seq<char>, Option<FieldIssue>)> {
    seq![
        ("MONITOR_TRANSACTIONS_TIMEOUT_IN_SECS"@, issue_of(unsigned_field(v, "MONITOR_TRANSACTIONS_TIMEOUT_IN_SECS"@, 65535))),
        ("MONITOR_TRANSACTIONS_RETRY_INTERVAL_MS"@, issue_of(unsigned_field(v, "MONITOR_TRANSACTIONS_RETRY_INTERVAL_MS"@, 18446744073709551615))),
    ]
}

/// `c` holds the values of the variables.
pub open spec fn monitor_config_values(c: MonitorConfig, v: Seq<(String, String)>) -> bool {
    &&& c.timeout_in_secs as nat == unsigned_field(v, "MONITOR_TRANSACTIONS_TIMEOUT_IN_SECS"@, 65535)->Ok_0
    &&& c.retry_interval_ms as nat == unsigned_field(v, "MONITOR_TRANSACTIONS_RETRY_INTERVAL_MS"@, 18446744073709551615)->Ok_0
}

impl MonitorConfig {
    /// Loads the configuration from the variables `MONITOR_TRANSACTIONS_*`.
    pub fn from_env(vars: &Vec<(String, String)>) -> (r: Result<MonitorConfig, ConfigError>)
        ensures
            outcome_matches(err_of(r), monitor_config_issues(vars@)),
            r is Ok ==> monitor_config_values(r->Ok_0, vars@),
    {
        let ghost iss = monitor_config_issues(vars@);
        let timeout_in_secs = match req_unsigned(vars, "MONITOR_TRANSACTIONS_TIMEOUT_IN_SECS", 65535) {
            Ok(x) => x as u16,
            Err(e) => {
                proof {
                    assert(iss[0].1 is Some && error_matches(e, iss[0].0, iss[0].1->0));
                    assert forall|j: int| 0 <= j < 0 implies (#[trigger] iss[j]).1 is None by {}
                }
                return Err(e);
            },
        };
        let retry_interval_ms = match req_unsigned(vars, "MONITOR_TRANSACTIONS_RETRY_INTERVAL_MS", 18446744073709551615) {
            Ok(x) => x,
            Err(e) => {
                proof {
                    assert(iss[1].1 is Some && error_matches(e, iss[1].0, iss[1].1->0));
                    assert forall|j: int| 0 <= j < 1 implies (#[trigger] iss[j]).1 is None by {}
                }
                return Err(e);
            },
        };
        let c = MonitorConfig { timeout_in_secs, retry_interval_ms };
        proof {
            assert forall|j: int| 0 <= j < iss.len() implies (#[trigger] iss[j]).1 is None by {}
        }
        Ok(c)
    }
}

/// Configuration of the proof compressor.
#[derive(Clone, Debug, PartialEq, Eq)]
pub struct FriProofCompressorConfig {
    pub compression_mode: u8,
    pub prometheus_listener_port: u16,
    pub prometheus_pushgateway_url: String,
    pub prometheus_push_interval_ms: Option<u64>,
    pub generation_timeout_in_secs: u16,
    pub max_attempts: u32,
    pub universal_setup_path: String,
    pub universal_setup_download_url: String,
    pub verify_wrapper_proof: bool,
    pub app_monitor_url: Option<String>,
    pub retry_interval_ms: Option<u64>,
}

/// The fields of `FriProofCompressorConfig` read from the variables, in declaration order,
/// with what is wrong with each.
pub open spec fn fri_proof_compressor_config_issues(v: Seq<(String, String)>) -> Seq<(Seq<char>, Option<FieldIssue>)> {
    seq![
        ("FRI_PROOF_COMPRESSOR_COMPRESSION_MODE"@, issue_of(unsigned_field(v, "FRI_PROOF_COMPRESSOR_COMPRESSION_MODE"@, 255))),
        ("FRI_PROOF_COMPRESSOR_PROMETHEUS_LISTENER_PORT"@, issue_of(unsigned_field(v, "FRI_PROOF_COMPRESSOR_PROMETHEUS_LISTENER_PORT"@, 65535))),
        ("FRI_PROOF_COMPRESSOR_PROMETHEUS_PUSHGATEWAY_URL"@, issue_of(string_field(v, "FRI_PROOF_COMPRESSOR_PROMETHEUS_PUSHGATEWAY_URL"@))),
        ("FRI_PROOF_COMPRESSOR_PROMETHEUS_PUSH_INTERVAL_MS"@, issue_of(opt_unsigned_field(v, "FRI_PROOF_COMPRESSOR_PROMETHEUS_PUSH_INTERVAL_MS"@, 18446744073709551615))),
        ("FRI_PROOF_COMPRESSOR_GENERATION_TIMEOUT_IN_SECS"@, issue_of(unsigned_field(v, "FRI_PROOF_COMPRESSOR_GENERATION_TIMEOUT_IN_SECS"@, 65535))),
        ("FRI_PROOF_COMPRESSOR_MAX_ATTEMPTS"@, issue_of(unsigned_field(v, "FRI_PROOF_COMPRESSOR_MAX_ATTEMPTS"@, 4294967295))),
        ("FRI_PROOF_COMPRESSOR_UNIVERSAL_SETUP_PATH"@, issue_of(string_field(v, "FRI_PROOF_COMPRESSOR_UNIVERSAL_SETUP_PATH"@))),
        ("FRI_PROOF_COMPRESSOR_UNIVERSAL_SETUP_DOWNLOAD_URL"@, issue_of(string_field(v, "FRI_PROOF_COMPRESSOR_UNIVERSAL_SETUP_DOWNLOAD_URL"@))),
        ("FRI_PROOF_COMPRESSOR_VERIFY_WRAPPER_PROOF"@, issue_of(bool_field(v, "FRI_PROOF_COMPRESSOR_VERIFY_WRAPPER_PROOF"@))),
        ("FRI_PROOF_COMPRESSOR_APP_MONITOR_URL"@, None),
        ("FRI_PROOF_COMPRESSOR_RETRY_INTERVAL_MS"@, issue_of(opt_unsigned_field(v, "FRI_PROOF_COMPRESSOR_RETRY_INTERVAL_MS"@, 18446744073709551615))),
    ]
}

/// `c` holds the values of the variables.
pub open spec fn fri_proof_compressor_config_values(c: FriProofCompressorConfig, v: Seq<(String, String)>) -> bool {
    &&& c.compression_mode as nat == unsigned_field(v, "FRI_PROOF_COMPRESSOR_COMPRESSION_MODE"@, 255)->Ok_0
    &&& c.prometheus_listener_port as nat == unsigned_field(v, "FRI_PROOF_COMPRESSOR_PROMETHEUS_LISTENER_PORT"@, 65535)->Ok_0
    &&& c.prometheus_pushgateway_url@ == string_field(v, "FRI_PROOF_COMPRESSOR_PROMETHEUS_PUSHGATEWAY_URL"@)->Ok_0
    &&& opt_unsigned_field(v, "FRI_PROOF_COMPRESSOR_PROMETHEUS_PUSH_INTERVAL_MS"@, 18446744073709551615) == Ok::<Option<nat>, FieldIssue>(match c.prometheus_push_interval_ms { Some(x) => Some(x as nat), None => None })
    &&& c.generation_timeout_in_secs as nat == unsigned_field(v, "FRI_PROOF_COMPRESSOR_GENERATION_TIMEOUT_IN_SECS"@, 65535)->Ok_0
    &&& c.max_attempts as nat == unsigned_field(v, "FRI_PROOF_COMPRESSOR_MAX_ATTEMPTS"@, 4294967295)->Ok_0
    &&& c.universal_setup_path@ == string_field(v, "FRI_PROOF_COMPRESSOR_UNIVERSAL_SETUP_PATH"@)->Ok_0
    &&& c.universal_setup_download_url@ == string_field(v, "FRI_PROOF_COMPRESSOR_UNIVERSAL_SETUP_DOWNLOAD_URL"@)->Ok_0
    &&& c.verify_wrapper_proof == bool_field(v, "FRI_PROOF_COMPRESSOR_VERIFY_WRAPPER_PROOF"@)->Ok_0
    &&& match c.app_monitor_url { Some(x) => opt_string_field(v, "FRI_PROOF_COMPRESSOR_APP_MONITOR_URL"@) == Some(x@), None => opt_string_field(v, "FRI_PROOF_COMPRESSOR_APP_MONITOR_URL"@) is None }
    &&& opt_unsigned_field(v, "FRI_PROOF_COMPRESSOR_RETRY_INTERVAL_MS"@, 18446744073709551615) == Ok::<Option<nat>, FieldIssue>(match c.retry_interval_ms { Some(x) => Some(x as nat), None => None })
}

impl FriProofCompressorConfig {
    /// Loads the configuration from the variables `FRI_PROOF_COMPRESSOR_*`.
    pub fn from_env(vars: &Vec<(String, String)>) -> (r: Result<FriProofCompressorConfig, ConfigError>)
        ensures
            outcome_matches(err_of(r), fri_proof_compressor_config_issues(vars@)),
            r is Ok ==> fri_proof_compressor_config_values(r->Ok_0, vars@),
    {
        let ghost iss = fri_proof_compressor_config_issues(vars@);
        let compression_mode = match req_unsigned(vars, "FRI_PROOF_COMPRESSOR_COMPRESSION_MODE", 255) {
            Ok(x) => x as u8,
            Err(e) => {
                proof {
                    assert(iss[0].1 is Some && error_matches(e, iss[0].0, iss[0].1->0));
                    assert forall|j: int| 0 <= j < 0 implies (#[trigger] iss[j]).1 is None by {}
                }
                return Err(e);
            },
        };
        let prometheus_listener_port = match req_unsigned(vars, "FRI_PROOF_COMPRESSOR_PROMETHEUS_LISTENER_PORT", 65535) {
            Ok(x) => x as u16,
            Err(e) => {
                proof {
                    assert(iss[1].1 is Some && error_matches(e, iss[1].0, iss[1].1->0));
                    assert forall|j: int| 0 <= j < 1 implies (#[trigger] iss[j]).1 is None by {}
                }
                return Err(e);
            },
        };
        let prometheus_pushgateway_url = match req_string(vars, "FRI_PROOF_COMPRESSOR_PROMETHEUS_PUSHGATEWAY_URL") {
            Ok(x) => x,
            Err(e) => {
                proof {
                    assert(iss[2].1 is Some && error_matches(e, iss[2].0, iss[2].1->0));
                    assert forall|j: int| 0 <= j < 2 implies (#[trigger] iss[j]).1 is None by {}
                }
                return Err(e);
            },
        };
        let prometheus_push_interval_ms = match opt_unsigned(vars, "FRI_PROOF_COMPRESSOR_PROMETHEUS_PUSH_INTERVAL_MS", 18446744073709551615) {
            Ok(x) => x,
            Err(e) => {
                proof {
                    assert(iss[3].1 is Some && error_matches(e, iss[3].0, iss[3].1->0));
                    assert forall|j: int| 0 <= j < 3 implies (#[trigger] iss[j]).1 is None by {}
                }
                return Err(e);
            },
        };
        let generation_timeout_in_secs = match req_unsigned(vars, "FRI_PROOF_COMPRESSOR_GENERATION_TIMEOUT_IN_SECS", 65535) {
            Ok(x) => x as u16,
            Err(e) => {
                proof {
                    assert(iss[4].1 is Some && error_matches(e, iss[4].0, iss[4].1->0));
                    assert forall|j: int| 0 <= j < 4 implies (#[trigger] iss[j]).1 is None by {}
                }
                return Err(e);
            },
        };
        let max_attempts = match req_unsigned(vars, "FRI_PROOF_COMPRESSOR_MAX_ATTEMPTS", 4294967295) {
            Ok(x) => x as u32,
            Err(e) => {
                proof {
                    assert(iss[5].1 is Some && error_matches(e, iss[5].0, iss[5].1->0));
                    assert forall|j: int| 0 <= j < 5 implies (#[trigger] iss[j]).1 is None by {}
                }
                return Err(e);
            },
        };
        let universal_setup_path = match req_string(vars, "FRI_PROOF_COMPRESSOR_UNIVERSAL_SETUP_PATH") {
            Ok(x) => x,
            Err(e) => {
                proof {
                    assert(iss[6].1 is Some && error_matches(e, iss[6].0, iss[6].1->0));
                    assert forall|j: int| 0 <= j < 6 implies (#[trigger] iss[j]).1 is None by {}
                }
                return Err(e);
            },
        };
        let universal_setup_download_url = match req_string(vars, "FRI_PROOF_COMPRESSOR_UNIVERSAL_SETUP_DOWNLOAD_URL") {
            Ok(x) => x,
            Err(e) => {
                proof {
                    assert(iss[7].1 is Some && error_matches(e, iss[7].0, iss[7].1->0));
                    assert forall|j: int| 0 <= j < 7 implies (#[trigger] iss[j]).1 is None by {}
                }
                return Err(e);
            },
        };
        let verify_wrapper_proof = match req_bool(vars, "FRI_PROOF_COMPRESSOR_VERIFY_WRAPPER_PROOF") {
            Ok(x) => x,
            Err(e) => {
                proof {
                    assert(iss[8].1 is Some && error_matches(e, iss[8].0, iss[8].1->0));
                    assert forall|j: int| 0 <= j < 8 implies (#[trigger] iss[j]).1 is None by {}
                }
                return Err(e);
            },
        };
        let app_monitor_url = opt_string(vars, "FRI_PROOF_COMPRESSOR_APP_MONITOR_URL");
        let retry_interval_ms = match opt_unsigned(vars, "FRI_PROOF_COMPRESSOR_RETRY_INTERVAL_MS", 18446744073709551615) {
            Ok(x) => x,
            Err(e) => {
                proof {
                    assert(iss[10].1 is Some && error_matches(e, iss[10].0, iss[10].1->0));
                    assert forall|j: int| 0 <= j < 10 implies (#[trigger] iss[j]).1 is None by {}
                }
                return Err(e);
            },
        };
        let c = FriProofCompressorConfig { compression_mode, prometheus_listener_port, prometheus_pushgateway_url, prometheus_push_interval_ms, generation_timeout_in_secs, max_attempts, universal_setup_path, universal_setup_download_url, verify_wrapper_proof, app_monitor_url, retry_interval_ms };
        proof {
            assert forall|j: int| 0 <= j < iss.len() implies (#[trigger] iss[j]).1 is None by {}
        }
        Ok(c)
    }
}


// ---------------------------------------------------------------------------
// Durations

/// The duration of `secs` whole seconds, as std builds it.
pub uninterp spec fn duration_of_secs(secs: u64) -> Duration;

/// Calls `std::time::Duration::from_secs`, which depends on its argument alone.
#[verifier::external_body]
fn duration_from_secs(secs: u64) -> (d: Duration)
    ensures
        d == duration_of_secs(secs),
{
    Duration::from_secs(secs)
}

/// Configuration of the prover gateway.
#[derive(Clone, Debug, PartialEq, Eq)]
pub struct FriProverGatewayConfig {
    pub api_url: String,
    pub api_poll_duration_secs: u16,
    /// Configurations for prometheus
    pub prometheus_listener_port: u16,
    pub prometheus_pushgateway_url: String,
    pub prometheus_push_interval_ms: Option<u64>,
    pub app_monitor_url: Option<String>,
    pub retry_interval_ms: Option<u64>,
}

impl FriProverGatewayConfig {
    /// How long to wait between polls of the API.
    pub fn api_poll_duration(&self) -> (d: Duration)
        ensures
            d == duration_of_secs(self.api_poll_duration_secs as u64),
    {
        duration_from_secs(self.api_poll_duration_secs as u64)
    }
}

impl FriProverTaskApplyConfig {
    /// How long to wait between polls.
    pub fn poll_duration(&self) -> (d: Duration)
        ensures
            d == duration_of_secs(self.poll_duration_secs as u64),
    {
        duration_from_secs(self.poll_duration_secs as u64)
    }

    /// How long a contract call may take.
    pub fn call_contract_duration_secs(&self) -> (d: Duration)
        ensures
            d == duration_of_secs(self.call_contract_duration_secs),
    {
        duration_from_secs(self.call_contract_duration_secs)
    }
}

impl MonitorConfig {
    /// How long without a transaction before the monitor reports it.
    pub fn monitor_transactions_timeout(&self) -> (d: Duration)
        ensures
            d == duration_of_secs(self.timeout_in_secs as u64),
    {
        duration_from_secs(self.timeout_in_secs as u64)
    }
}

} // verus!
