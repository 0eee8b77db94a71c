//! The configuration of the service, made from the values of its
//! environment variables.

use crate::ip::{all_dec_digits, digit_value, digits_value, is_dec_digit};
use crate::text::{chars_of, copy_range, join_chars, string_of, trim_chars, trimmed};
use vstd::prelude::*;

verus! {

/// The configuration of the service.
#[derive(Debug, Clone)]
pub struct AppConfig {
    /// Connection string of the database.
    pub database_url: String,
    /// The admin's password, in plain text.
    pub admin_password: String,
    /// Host to bind the server to.
    pub host: String,
    /// Port to listen on.
    pub port: u16,
    /// Public base URL of the short links, without a slash at its end.
    pub base_url: String,
    /// How many hours a session stays valid.
    pub session_duration_hours: u64,
    /// Where visitors of the root path are sent, without a slash at its end.
    pub root_redirect_url: String,
}

/// The values of the environment variables that the configuration is made
/// from; `None` for one that is not set.
#[derive(Debug, Clone)]
pub struct EnvVars {
    pub admin_password: Option<String>,
    pub port: Option<String>,
    pub session_duration_hours: Option<String>,
    pub base_url: Option<String>,
    pub root_redirect_url: Option<String>,
    pub database_url: Option<String>,
    pub host: Option<String>,
}

/// Why no configuration can be made.
#[derive(Debug, Clone, Copy, PartialEq, Eq, Structural)]
pub enum ConfigError {
    /// `ADMIN_PASSWORD` is not set.
    MissingPassword,
    /// `ADMIN_PASSWORD` is blank.
    EmptyPassword,
    /// `PORT` is no number from 0 to 65535.
    BadPort,
}

/// `AppConfig` over character sequences.
pub struct ConfigFacts {
    pub database_url: Seq<char>,
    pub admin_password: Seq<char>,
    pub host: Seq<char>,
    pub port: u16,
    pub base_url: Seq<char>,
    pub session_duration_hours: u64,
    pub root_redirect_url: Seq<char>,
}

impl View for AppConfig {
    type V = ConfigFacts;

    open spec fn view(&self) -> ConfigFacts {
        ConfigFacts {
            database_url: self.database_url@,
            admin_password: self.admin_password@,
            host: self.host@,
            port: self.port,
            base_url: self.base_url@,
            session_duration_hours: self.session_duration_hours,
            root_redirect_url: self.root_redirect_url@,
        }
    }
}

/// The number that a decimal numeral denotes, if it is at most `max`: the
/// numeral is one or more digits, after a `+` or not.
pub open spec fn unsigned_value(s: Seq<char>, max: nat) -> Option<nat> {
    let digits = unsigned_digits(s);
    if digits.len() > 0 && all_dec_digits(digits) && digits_value(digits, 10) <= max {
        Some(digits_value(digits, 10))
    } else {
        None
    }
}

/// A numeral without the `+` that may stand before it.
pub open spec fn unsigned_digits(s: Seq<char>) -> Seq<char> {
    if s.len() > 0 && s[0] == '+' {
        s.drop_first()
    } else {
        s
    }
}


/// Whether `s` is the decimal numeral of `n`: digits only, no leading zero
/// but for zero itself.
pub open spec fn is_numeral_of(s: Seq<char>, n: nat) -> bool {
    s.len() > 0 && all_dec_digits(s) && (s.len() == 1 || s[0] != '0') && digits_value(s, 10) == n
}

/// `s` without the slashes at its end.
pub open spec fn without_slashes(s: Seq<char>) -> Seq<char>
    decreases s.len(),
{
    if s.len() > 0 && s.last() == '/' {
        without_slashes(s.drop_last())
    } else {
        s
    }
}

/// The value of a variable, or the default where it is not set.
pub open spec fn or_default(var: Option<String>, default: Seq<char>) -> Seq<char> {
    match var {
        Some(s) => s@,
        None => default,
    }
}

/// The port that the variables give: that of `PORT`, or 3000 where it is not
/// set; none where `PORT` is no number that a port can have.
pub open spec fn port_of(vars: EnvVars) -> Option<nat> {
    unsigned_value(or_default(vars.port, "3000"@), u16::MAX as nat)
}

/// The hours that the variables give: those of `SESSION_DURATION_HOURS`, or
/// 24 where it is not set or no number.
pub open spec fn hours_of(vars: EnvVars) -> nat {
    match unsigned_value(or_default(vars.session_duration_hours, "24"@), u64::MAX as nat) {
        Some(n) => n,
        None => 24,
    }
}

/// Whether `c` is the configuration that the variables give. The password
/// must be set and not blank, and the port a number. The base URL is that of
/// `BASE_URL`, or `http://localhost:` with the port; it and the root URL,
/// which is `https://secedastudios.com` unless `ROOT_REDIRECT_URL` is set,
/// lose the slashes at their end. Database and host have the defaults
/// `sqlite:./linkly.db` and `0.0.0.0`.
pub open spec fn is_config_of(c: ConfigFacts, vars: EnvVars) -> bool {
    &&& vars.admin_password is Some
    &&& c.admin_password == vars.admin_password.unwrap()@
    &&& port_of(vars) == Some(c.port as nat)
    &&& c.session_duration_hours == hours_of(vars)
    &&& match vars.base_url {
        Some(s) => c.base_url == without_slashes(s@),
        None => exists|numeral: Seq<char>|
            is_numeral_of(numeral, c.port as nat) && c.base_url == without_slashes(
                "http://localhost:"@ + numeral,
            ),
    }
    &&& c.root_redirect_url == without_slashes(
        or_default(vars.root_redirect_url, "https://secedastudios.com"@),
    )
    &&& c.database_url == or_default(vars.database_url, "sqlite:./linkly.db"@)
    &&& c.host == or_default(vars.host, "0.0.0.0"@)
}

/// Why the variables give no configuration, if they give none. The password
/// is looked at before the port.
pub open spec fn config_error(vars: EnvVars) -> Option<ConfigError> {
    match vars.admin_password {
        None => Some(ConfigError::MissingPassword),
        Some(p) => if trimmed(p@).len() == 0 {
            Some(ConfigError::EmptyPassword)
        } else if port_of(vars) is None {
            Some(ConfigError::BadPort)
        } else {
            None
        },
    }
}

proof fn lemma_digits_value_grows(s: Seq<char>, k: int)
    requires
        0 <= k <= s.len(),
    ensures
        digits_value(s.take(k), 10) <= digits_value(s, 10),
    decreases s.len() - k,
{
    if k < s.len() {
        lemma_digits_value_grows(s, k + 1);
        assert(s.take(k + 1).drop_last() =~= s.take(k));
        let a = digits_value(s.take(k), 10);
        assert(a <= a * 10) by (nonlinear_arith)
            requires
                a >= 0,
        ;
    } else {
        assert(s.take(k) =~= s);
    }
}

/// Reads a decimal numeral of at most `max`.
pub fn parse_unsigned(v: &Vec<char>, max: u64) -> (r: Option<u64>)
    ensures
        match r {
            Some(n) => unsigned_value(v@, max as nat) == Some(n as nat),
            None => unsigned_value(v@, max as nat) is None,
        },
{
    let start: usize = if v.len() > 0 && v[0] == '+' {
        1
    } else {
        0
    };
    let ghost digits = v@.skip(start as int);
    assert(digits =~= unsigned_digits(v@));
    if v.len() == start {
        return None;
    }
    let mut acc: u64 = 0;
    let mut i: usize = start;
    assert(digits.take(0) =~= Seq::empty());
    while i < v.len()
        invariant
            start <= i <= v@.len(),
            digits == v@.skip(start as int),
            digits == unsigned_digits(v@),
            acc <= max,
            acc == digits_value(digits.take(i - start), 10),
            forall|j: int| 0 <= j < i - start ==> is_dec_digit(#[trigger] digits[j]),
        decreases v.len() - i,
    {
        let c: char = v[i];
        assert(digits[i - start] == c);
        if !(c >= '0' && c <= '9') {
            assert(!is_dec_digit(digits[i - start]));
            return None;
        }
        let d: u128 = (c as u32 - '0' as u32) as u128;
        let next: u128 = acc as u128 * 10 + d;
        assert(digits.take(i - start + 1).drop_last() =~= digits.take(i - start));
        assert(next == digits_value(digits.take(i - start + 1), 10));
        if next > max as u128 {
            proof {
                lemma_digits_value_grows(digits, i - start + 1);
            }
            return None;
        }
        acc = next as u64;
        i += 1;
    }
    assert(digits.take(digits.len() as int) =~= digits);
    Some(acc)
}

/// The decimal numeral of a number.
pub fn numeral(n: u64) -> (r: Vec<char>)
    ensures
        is_numeral_of(r@, n as nat),
    decreases n,
{
    if n < 10 {
        let mut r: Vec<char> = Vec::new();
        r.push(digit_char(n));
        assert(r@.drop_last() =~= Seq::empty());
        assert(digits_value(r@.drop_last(), 10) == 0);
        return r;
    }
    let mut r: Vec<char> = numeral(n / 10);
    let ghost front = r@;
    r.push(digit_char(n % 10));
    proof {
        assert(r@.drop_last() =~= front);
        assert(r@[0] == front[0]);
        if front.len() == 1 {
            assert(front.drop_last() =~= Seq::empty());
            assert(digits_value(front.drop_last(), 10) == 0);
        }
        assert forall|i: int| 0 <= i < r@.len() implies is_dec_digit(#[trigger] r@[i]) by {
            if i < front.len() {
                assert(r@[i] == front[i]);
            }
        }
    }
    r
}

fn digit_char(d: u64) -> (c: char)
    requires
        d < 10,
    ensures
        is_dec_digit(c),
        digit_value(c) == d,
{
    if d == 0 {
        '0'
    } else if d == 1 {
        '1'
    } else if d == 2 {
        '2'
    } else if d == 3 {
        '3'
    } else if d == 4 {
        '4'
    } else if d == 5 {
        '5'
    } else if d == 6 {
        '6'
    } else if d == 7 {
        '7'
    } else if d == 8 {
        '8'
    } else {
        '9'
    }
}

/// The characters without the slashes at their end.
pub fn strip_slashes(v: &Vec<char>) -> (r: Vec<char>)
    ensures
        r@ == without_slashes(v@),
{
    let mut to: usize = v.len();
    assert(v@.subrange(0, to as int) =~= v@);
    while to > 0 && v[to - 1] == '/'
        invariant
            to <= v@.len(),
            without_slashes(v@) == without_slashes(v@.subrange(0, to as int)),
        decreases to,
    {
        assert(v@.subrange(0, to as int).drop_last() =~= v@.subrange(0, to - 1));
        to -= 1;
    }
    copy_range(v, 0, to)
}

fn value_or(var: &Option<String>, default: &str) -> (r: Vec<char>)
    ensures
        r@ == or_default(*var, default@),
{
    match var {
        Some(s) => chars_of(s.as_str()),
        None => chars_of(default),
    }
}

impl AppConfig {
    /// Makes the configuration from the values of the environment variables.
    pub fn from_vars(vars: &EnvVars) -> (r: Result<AppConfig, ConfigError>)
        ensures
            match r {
                Ok(c) => config_error(*vars) is None && is_config_of(c@, *vars),
                Err(e) => config_error(*vars) == Some(e),
            },
    {
        let admin_password: String = match &vars.admin_password {
            Some(p) => p.clone(),
            None => {
                return Err(ConfigError::MissingPassword);
            },
        };
        if trim_chars(&chars_of(admin_password.as_str())).len() == 0 {
            return Err(ConfigError::EmptyPassword);
        }
        let port: u16 = match parse_unsigned(&value_or(&vars.port, "3000"), 65535) {
            Some(n) => n as u16,
            None => {
                return Err(ConfigError::BadPort);
            },
        };
        let session_duration_hours: u64 = match parse_unsigned(
            &value_or(&vars.session_duration_hours, "24"),
            u64::MAX,
        ) {
            Some(n) => n,
            None => 24,
        };
        let base_url: Vec<char> = match &vars.base_url {
            Some(s) => strip_slashes(&chars_of(s.as_str())),
            None => {
                let digits: Vec<char> = numeral(port as u64);
                strip_slashes(&join_chars(chars_of("http://localhost:"), &digits))
            },
        };
        let root: Vec<char> = strip_slashes(
            &value_or(&vars.root_redirect_url, "https://secedastudios.com"),
        );
        let c = AppConfig {
            database_url: string_of(&value_or(&vars.database_url, "sqlite:./linkly.db")),
            admin_password,
            host: string_of(&value_or(&vars.host, "0.0.0.0")),
            port,
            base_url: string_of(&base_url),
            session_duration_hours,
            root_redirect_url: string_of(&root),
        };
        proof {
            assert(config_error(*vars) is None);
            assert(c@.admin_password == vars.admin_password.unwrap()@);
            assert(port_of(*vars) == Some(c@.port as nat));
            assert(c@.session_duration_hours == hours_of(*vars));
            assert(c@.root_redirect_url == without_slashes(
                or_default(vars.root_redirect_url, "https://secedastudios.com"@),
            ));
            assert(c@.database_url == or_default(vars.database_url, "sqlite:./linkly.db"@));
            assert(c@.host == or_default(vars.host, "0.0.0.0"@));
        }
        Ok(c)
    }
}

} // verus!
