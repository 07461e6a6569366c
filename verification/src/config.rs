//! Application configuration: the settings the core consumes, with the
//! verified parsing of the raw setting strings. Reading the process
//! environment stays outside; this module turns the raw values — or their
//! absence — into a configuration or a precise error.

use crate::numeral::{capped_value, dec_numeral, push_dec_u64};
use crate::text::{
    ascii_bytes_of_str, bytes_of_chars, chars_of_bytes, range_eq, string_of_ascii_bytes, sub_vec,
};
use vstd::prelude::*;
use vstd::utf8::is_ascii_chars;

verus! {

/// Main application configuration.
#[derive(Clone, Debug)]
pub struct AppConfig {
    /// Server host address.
    pub host: String,
    /// Server port.
    pub port: u16,
    /// Environment (development, staging, production).
    pub environment: Environment,
    /// JWT secret key.
    pub jwt_secret: String,
    /// JWT expiration time in hours.
    pub jwt_expiration_hours: i64,
}

#[derive(Clone, Copy, Debug, PartialEq, Eq, Structural)]
pub enum Environment {
    Development,
    Staging,
    Production,
}

/// Why configuration was rejected.
#[derive(Clone, Copy, Debug, PartialEq, Eq, Structural)]
pub enum ConfigError {
    /// The required secret is missing from the environment.
    MissingEnvVar,
    /// Invalid port number.
    InvalidPort,
    /// Invalid environment (use: development, staging, production).
    InvalidEnvironment,
    /// Invalid JWT expiration hours.
    InvalidJwtExpiration,
}

/// Database configuration.
#[derive(Clone, Debug)]
pub struct DatabaseConfig {
    pub url: String,
    pub max_connections: u32,
    pub min_connections: u32,
    pub acquire_timeout_secs: u64,
}

/// Why database configuration was rejected.
#[derive(Clone, Copy, Debug, PartialEq, Eq, Structural)]
pub enum DatabaseConfigError {
    /// The database URL is not set.
    MissingDatabaseUrl,
}

/// Lower-cases one ASCII byte.
pub open spec fn lower_byte(b: u8) -> u8 {
    if 65 <= b <= 90 {
        (b + 32) as u8
    } else {
        b
    }
}

/// `development` / `dev`
pub open spec fn dev_long() -> Seq<u8> {
    seq![100u8, 101u8, 118u8, 101u8, 108u8, 111u8, 112u8, 109u8, 101u8, 110u8, 116u8]
}

pub open spec fn dev_short() -> Seq<u8> {
    seq![100u8, 101u8, 118u8]
}

/// `staging` / `stg`
pub open spec fn stg_long() -> Seq<u8> {
    seq![115u8, 116u8, 97u8, 103u8, 105u8, 110u8, 103u8]
}

pub open spec fn stg_short() -> Seq<u8> {
    seq![115u8, 116u8, 103u8]
}

/// `production` / `prod`
pub open spec fn prod_long() -> Seq<u8> {
    seq![112u8, 114u8, 111u8, 100u8, 117u8, 99u8, 116u8, 105u8, 111u8, 110u8]
}

pub open spec fn prod_short() -> Seq<u8> {
    seq![112u8, 114u8, 111u8, 100u8]
}

/// Parsing an environment name, ASCII case-insensitively.
pub open spec fn spec_parse_environment(s: Seq<char>) -> Result<Environment, ConfigError> {
    if !is_ascii_chars(s) {
        Err(ConfigError::InvalidEnvironment)
    } else {
        let l = bytes_of_chars(s).map_values(|b: u8| lower_byte(b));
        if l == dev_long() || l == dev_short() {
            Ok(Environment::Development)
        } else if l == stg_long() || l == stg_short() {
            Ok(Environment::Staging)
        } else if l == prod_long() || l == prod_short() {
            Ok(Environment::Production)
        } else {
            Err(ConfigError::InvalidEnvironment)
        }
    }
}

/// Parsing a port: an optional `+`, then decimal digits — leading zeros
/// allowed — whose value fits.
pub open spec fn spec_parse_u16(s: Seq<char>) -> Option<u16> {
    if !is_ascii_chars(s) {
        None
    } else {
        let b = bytes_of_chars(s);
        let d = if b.len() > 0 && b[0] == 43 {
            b.drop_first()
        } else {
            b
        };
        match capped_value(d, 65535) {
            Some(v) => Some(v as u16),
            None => None,
        }
    }
}

/// Parsing an hour count: an optional sign, then decimal digits whose
/// value fits an `i64`.
pub open spec fn spec_parse_i64(s: Seq<char>) -> Option<i64> {
    if !is_ascii_chars(s) {
        None
    } else {
        let b = bytes_of_chars(s);
        if b.len() > 0 && b[0] == 45 {
            match capped_value(b.drop_first(), 9223372036854775808) {
                Some(v) => Some((-(v as int)) as i64),
                None => None,
            }
        } else {
            let d = if b.len() > 0 && b[0] == 43 {
                b.drop_first()
            } else {
                b
            };
            match capped_value(d, 9223372036854775807) {
                Some(v) => Some(v as i64),
                None => None,
            }
        }
    }
}

/// Parsing an unsigned setting with a cap, as `u32` and `u64` settings use.
pub open spec fn spec_parse_u64(s: Seq<char>, cap: u64) -> Option<u64> {
    if !is_ascii_chars(s) {
        None
    } else {
        let b = bytes_of_chars(s);
        let d = if b.len() > 0 && b[0] == 43 {
            b.drop_first()
        } else {
            b
        };
        capped_value(d, cap)
    }
}

/// The digits of a setting after its optional sign byte, as a vector.
fn strip_plus(s: &str) -> (r: Option<Vec<u8>>)
    ensures
        (match r {
            Some(v) => is_ascii_chars(s@) && {
                let b = bytes_of_chars(s@);
                v@ == (if b.len() > 0 && b[0] == 43 {
                    b.drop_first()
                } else {
                    b
                })
            },
            None => !is_ascii_chars(s@),
        }),
{
    let b = match ascii_bytes_of_str(s) {
        Some(b) => b,
        None => {
            return None;
        },
    };
    let n = b.len();
    if n > 0 && b[0] == 43 {
        let d = sub_vec(&b, 1, n);
        proof {
            assert(d@ =~= bytes_of_chars(s@).drop_first());
        }
        Some(d)
    } else {
        Some(b)
    }
}

/// Executable form of `spec_parse_u16`.
pub fn parse_u16_str(s: &str) -> (r: Option<u16>)
    ensures
        r == spec_parse_u16(s@),
{
    let d = match strip_plus(s) {
        Some(d) => d,
        None => {
            return None;
        },
    };
    match crate::numeral::dec_value_capped(&d, 65535) {
        Some(v) => Some(v as u16),
        None => None,
    }
}

/// Executable form of `spec_parse_u64`.
pub fn parse_u64_str(s: &str, cap: u64) -> (r: Option<u64>)
    ensures
        r == spec_parse_u64(s@, cap),
{
    let d = match strip_plus(s) {
        Some(d) => d,
        None => {
            return None;
        },
    };
    crate::numeral::dec_value_capped(&d, cap)
}

/// Executable form of `spec_parse_i64`.
pub fn parse_i64_str(s: &str) -> (r: Option<i64>)
    ensures
        r == spec_parse_i64(s@),
{
    let b = match ascii_bytes_of_str(s) {
        Some(b) => b,
        None => {
            return None;
        },
    };
    let n = b.len();
    if n > 0 && b[0] == 45 {
        let d = sub_vec(&b, 1, n);
        proof {
            assert(d@ =~= bytes_of_chars(s@).drop_first());
        }
        match crate::numeral::dec_value_capped(&d, 9223372036854775808) {
            Some(v) => {
                if v == 9223372036854775808 {
                    Some(i64::MIN)
                } else {
                    Some(-(v as i64))
                }
            },
            None => None,
        }
    } else {
        let d = if n > 0 && b[0] == 43 {
            let d = sub_vec(&b, 1, n);
            proof {
                assert(d@ =~= bytes_of_chars(s@).drop_first());
            }
            d
        } else {
            b
        };
        match crate::numeral::dec_value_capped(&d, 9223372036854775807) {
            Some(v) => Some(v as i64),
            None => None,
        }
    }
}

/// Executable form of `spec_parse_environment`.
pub fn parse_environment(s: &str) -> (r: Result<Environment, ConfigError>)
    ensures
        r == spec_parse_environment(s@),
{
    let b = match ascii_bytes_of_str(s) {
        Some(b) => b,
        None => {
            return Err(ConfigError::InvalidEnvironment);
        },
    };
    let n = b.len();
    let mut l: Vec<u8> = Vec::new();
    let mut i: usize = 0;
    while i < n
        invariant
            i <= n,
            n == b@.len(),
            l@ == b@.subrange(0, i as int).map_values(|x: u8| lower_byte(x)),
        decreases n - i,
    {
        let c = b[i];
        let low = if 65 <= c && c <= 90 {
            c + 32
        } else {
            c
        };
        l.push(low);
        proof {
            assert(l@ =~= b@.subrange(0, i + 1).map_values(|x: u8| lower_byte(x)));
        }
        i += 1;
    }
    proof {
        assert(b@.subrange(0, n as int) =~= b@);
    }
    if eq_lit(&l, &lit_vec_dev_long()) || eq_lit(&l, &lit_vec_dev_short()) {
        Ok(Environment::Development)
    } else if eq_lit(&l, &lit_vec_stg_long()) || eq_lit(&l, &lit_vec_stg_short()) {
        Ok(Environment::Staging)
    } else if eq_lit(&l, &lit_vec_prod_long()) || eq_lit(&l, &lit_vec_prod_short()) {
        Ok(Environment::Production)
    } else {
        Err(ConfigError::InvalidEnvironment)
    }
}

/// Whole-vector equality.
fn eq_lit(a: &Vec<u8>, lit: &Vec<u8>) -> (r: bool)
    ensures
        r == (a@ == lit@),
{
    if a.len() != lit.len() {
        return false;
    }
    let r = range_eq(a, 0, lit);
    proof {
        assert(a@.subrange(0, lit@.len() as int) =~= a@);
    }
    r
}

fn lit_vec_dev_long() -> (r: Vec<u8>)
    ensures
        r@ == dev_long(),
{
    let mut v: Vec<u8> = Vec::new();
    v.push(100);
    v.push(101);
    v.push(118);
    v.push(101);
    v.push(108);
    v.push(111);
    v.push(112);
    v.push(109);
    v.push(101);
    v.push(110);
    v.push(116);
    assert(v@ =~= dev_long());
    v
}

fn lit_vec_dev_short() -> (r: Vec<u8>)
    ensures
        r@ == dev_short(),
{
    let mut v: Vec<u8> = Vec::new();
    v.push(100);
    v.push(101);
    v.push(118);
    assert(v@ =~= dev_short());
    v
}

fn lit_vec_stg_long() -> (r: Vec<u8>)
    ensures
        r@ == stg_long(),
{
    let mut v: Vec<u8> = Vec::new();
    v.push(115);
    v.push(116);
    v.push(97);
    v.push(103);
    v.push(105);
    v.push(110);
    v.push(103);
    assert(v@ =~= stg_long());
    v
}

fn lit_vec_stg_short() -> (r: Vec<u8>)
    ensures
        r@ == stg_short(),
{
    let mut v: Vec<u8> = Vec::new();
    v.push(115);
    v.push(116);
    v.push(103);
    assert(v@ =~= stg_short());
    v
}

fn lit_vec_prod_long() -> (r: Vec<u8>)
    ensures
        r@ == prod_long(),
{
    let mut v: Vec<u8> = Vec::new();
    v.push(112);
    v.push(114);
    v.push(111);
    v.push(100);
    v.push(117);
    v.push(99);
    v.push(116);
    v.push(105);
    v.push(111);
    v.push(110);
    assert(v@ =~= prod_long());
    v
}

fn lit_vec_prod_short() -> (r: Vec<u8>)
    ensures
        r@ == prod_short(),
{
    let mut v: Vec<u8> = Vec::new();
    v.push(112);
    v.push(114);
    v.push(111);
    v.push(100);
    assert(v@ =~= prod_short());
    v
}

/// The mathematical view of a configuration.
pub ghost struct AppConfigView {
    pub host: Seq<char>,
    pub port: u16,
    pub environment: Environment,
    pub jwt_secret: Seq<char>,
    pub jwt_expiration_hours: i64,
}

impl View for AppConfig {
    type V = AppConfigView;

    open spec fn view(&self) -> AppConfigView {
        AppConfigView {
            host: self.host@,
            port: self.port,
            environment: self.environment,
            jwt_secret: self.jwt_secret@,
            jwt_expiration_hours: self.jwt_expiration_hours,
        }
    }
}

impl AppConfig {
    /// Build a configuration from raw setting strings, absent ones
    /// defaulted: host `0.0.0.0`, port 3000, environment development,
    /// token lifetime 24 hours. Only the secret is required.
    pub fn build(
        host: Option<String>,
        port: Option<String>,
        environment: Option<String>,
        jwt_secret: Option<String>,
        jwt_expiration_hours: Option<String>,
    ) -> (r: Result<AppConfig, ConfigError>)
        ensures
            (match r {
                Ok(c) => {
                    &&& (match host {
                        Some(h) => c@.host == h@,
                        None => c@.host == "0.0.0.0"@,
                    })
                    &&& (match port {
                        Some(p) => spec_parse_u16(p@) == Some(c@.port),
                        None => c@.port == 3000,
                    })
                    &&& (match environment {
                        Some(e) => spec_parse_environment(e@) == Ok::<Environment, ConfigError>(
                            c@.environment,
                        ),
                        None => c@.environment == Environment::Development,
                    })
                    &&& (match jwt_secret {
                        Some(s) => c@.jwt_secret == s@,
                        None => false,
                    })
                    &&& (match jwt_expiration_hours {
                        Some(h) => spec_parse_i64(h@) == Some(c@.jwt_expiration_hours),
                        None => c@.jwt_expiration_hours == 24,
                    })
                },
                Err(e) => {
                    ||| e == ConfigError::InvalidPort && (port matches Some(p) && spec_parse_u16(
                        p@,
                    ) is None)
                    ||| e == ConfigError::InvalidEnvironment && (environment matches Some(v)
                        && spec_parse_environment(v@) is Err)
                    ||| e == ConfigError::MissingEnvVar && jwt_secret is None
                    ||| e == ConfigError::InvalidJwtExpiration && (jwt_expiration_hours matches Some(
                        h,
                    ) && spec_parse_i64(h@) is None)
                },
            }),
    {
        let host_v = match host {
            Some(h) => h,
            None => "0.0.0.0".to_owned(),
        };
        let port_v: u16 = match port {
            Some(p) => match parse_u16_str(p.as_str()) {
                Some(v) => v,
                None => {
                    return Err(ConfigError::InvalidPort);
                },
            },
            None => 3000,
        };
        let env_v = match environment {
            Some(e) => match parse_environment(e.as_str()) {
                Ok(v) => v,
                Err(err) => {
                    return Err(err);
                },
            },
            None => Environment::Development,
        };
        let secret_v = match jwt_secret {
            Some(s) => s,
            None => {
                return Err(ConfigError::MissingEnvVar);
            },
        };
        let hours_v: i64 = match jwt_expiration_hours {
            Some(h) => match parse_i64_str(h.as_str()) {
                Some(v) => v,
                None => {
                    return Err(ConfigError::InvalidJwtExpiration);
                },
            },
            None => 24,
        };
        Ok(
            AppConfig {
                host: host_v,
                port: port_v,
                environment: env_v,
                jwt_secret: secret_v,
                jwt_expiration_hours: hours_v,
            },
        )
    }

    /// The full server address, `host:port`.
    pub fn server_addr(&self) -> (r: String)
        ensures
            r@ == self@.host + seq![':'] + chars_of_bytes(dec_numeral(self.port as nat)),
    {
        let mut tail: Vec<u8> = Vec::new();
        tail.push(58);
        push_dec_u64(&mut tail, self.port as u64);
        proof {
            crate::numeral::lemma_dec_numeral_digits(self.port as nat);
        }
        let tail_s = string_of_ascii_bytes(tail);
        let mut out = self.host.clone();
        out.append(tail_s.as_str());
        proof {
            assert(chars_of_bytes(seq![58u8] + dec_numeral(self.port as nat)) =~= seq![':']
                + chars_of_bytes(dec_numeral(self.port as nat)));
        }
        out
    }

    /// Check if running in production.
    pub fn is_production(&self) -> (r: bool)
        ensures
            r == (self.environment == Environment::Production),
    {
        self.environment == Environment::Production
    }
}

impl std::str::FromStr for Environment {
    type Err = ConfigError;

    fn from_str(s: &str) -> Result<Self, ConfigError> {
        parse_environment(s)
    }
}

impl DatabaseConfig {
    /// Build a database configuration from raw setting strings; the URL
    /// is required, the rest fall back to their defaults — 10 and 1
    /// connections, 30 seconds — on absence or any malformed value.
    pub fn build(
        url: Option<String>,
        max_connections: Option<String>,
        min_connections: Option<String>,
        acquire_timeout_secs: Option<String>,
    ) -> (r: Result<DatabaseConfig, DatabaseConfigError>)
        ensures
            (match r {
                Ok(c) => {
                    &&& (match url {
                        Some(u) => c.url@ == u@,
                        None => false,
                    })
                    &&& c.max_connections as u64 == (match max_connections {
                        Some(s) => (match spec_parse_u64(s@, 4294967295) {
                            Some(v) => v,
                            None => 10,
                        }),
                        None => 10,
                    })
                    &&& c.min_connections as u64 == (match min_connections {
                        Some(s) => (match spec_parse_u64(s@, 4294967295) {
                            Some(v) => v,
                            None => 1,
                        }),
                        None => 1,
                    })
                    &&& c.acquire_timeout_secs == (match acquire_timeout_secs {
                        Some(s) => (match spec_parse_u64(s@, 18446744073709551615) {
                            Some(v) => v,
                            None => 30,
                        }),
                        None => 30,
                    })
                },
                Err(_) => url is None,
            }),
    {
        let url_v = match url {
            Some(u) => u,
            None => {
                return Err(DatabaseConfigError::MissingDatabaseUrl);
            },
        };
        let max_v: u32 = match max_connections {
            Some(s) => match parse_u64_str(s.as_str(), 4294967295) {
                Some(v) => v as u32,
                None => 10,
            },
            None => 10,
        };
        let min_v: u32 = match min_connections {
            Some(s) => match parse_u64_str(s.as_str(), 4294967295) {
                Some(v) => v as u32,
                None => 1,
            },
            None => 1,
        };
        let timeout_v: u64 = match acquire_timeout_secs {
            Some(s) => match parse_u64_str(s.as_str(), 18446744073709551615) {
                Some(v) => v,
                None => 30,
            },
            None => 30,
        };
        Ok(
            DatabaseConfig {
                url: url_v,
                max_connections: max_v,
                min_connections: min_v,
                acquire_timeout_secs: timeout_v,
            },
        )
    }
}

} // verus!
