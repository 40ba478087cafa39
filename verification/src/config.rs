//! Service configuration, from the values of its environment variables.
use vstd::prelude::*;

use crate::text::{chars_of, has_prefix, owned, starts_with};

verus! {

/// The service configuration.
pub struct Config {
    pub redis_url: String,
    pub memory_ttl_seconds: u64,
    pub default_namespace: String,
    pub max_context_items: usize,
    pub port: u16,
}

/// Every character is an ASCII decimal digit, and there is at least one.
pub open spec fn all_digits(s: Seq<char>) -> bool {
    s.len() > 0 && forall|i: int| 0 <= i < s.len() ==> '0' <= #[trigger] s[i] <= '9'
}

/// The value of a string of decimal digits.
pub open spec fn digits_value(s: Seq<char>) -> int
    decreases s.len(),
{
    if s.len() == 0 {
        0
    } else {
        10 * digits_value(s.drop_last()) + (s.last() as int - '0' as int)
    }
}

/// What `str::parse` gives for an unsigned integer type whose largest value is
/// `max`: an optional `+` followed by decimal digits whose value fits.
pub open spec fn parsed_unsigned(s: Seq<char>, max: int) -> Option<int> {
    let body = if s.len() > 0 && s[0] == '+' {
        s.drop_first()
    } else {
        s
    };
    if all_digits(body) && digits_value(body) <= max {
        Some(digits_value(body))
    } else {
        None
    }
}

proof fn lemma_digits_prefix(t: Seq<char>, k: int)
    requires
        0 <= k <= t.len(),
        forall|i: int| 0 <= i < t.len() ==> '0' <= #[trigger] t[i] <= '9',
    ensures
        digits_value(t) >= digits_value(t.subrange(0, k)),
        digits_value(t) >= 0,
    decreases t.len(),
{
    if k == t.len() {
        assert(t.subrange(0, k) =~= t);
        if t.len() > 0 {
            let d = t.drop_last();
            assert forall|i: int| 0 <= i < d.len() implies '0' <= #[trigger] d[i] <= '9' by {
                assert(d[i] == t[i]);
            }
            lemma_digits_prefix(d, d.len() as int);
            assert(t.last() == t[t.len() - 1]);
        }
    } else {
        let d = t.drop_last();
        assert forall|i: int| 0 <= i < d.len() implies '0' <= #[trigger] d[i] <= '9' by {
            assert(d[i] == t[i]);
        }
        lemma_digits_prefix(d, k);
        assert(d.subrange(0, k) =~= t.subrange(0, k));
        assert(t.last() == t[t.len() - 1]);
    }
}

/// The value of a decimal digit.
fn digit_value(c: char) -> (d: u64)
    requires
        '0' <= c <= '9',
    ensures
        d == c as int - '0' as int,
{
    (c as u32 - '0' as u32) as u64
}

/// An unsigned number as `str::parse` reads it for a type whose largest value
/// is `max`: an optional `+` followed by decimal digits whose value fits.
fn parse_unsigned(s: &str, max: u64) -> (r: Option<u64>)
    requires
        max >= 9,
    ensures
        match r {
            Some(v) => parsed_unsigned(s@, max as int) == Some(v as int),
            None => parsed_unsigned(s@, max as int) is None,
        },
{
    let cs = chars_of(s);
    let start: usize = if cs.len() > 0 && cs[0] == '+' {
        1
    } else {
        0
    };
    let ghost body = if s@.len() > 0 && s@[0] == '+' {
        s@.drop_first()
    } else {
        s@
    };
    assert(body =~= cs@.subrange(start as int, cs@.len() as int));
    if start == cs.len() {
        return None;
    }
    let mut value: u64 = 0;
    let mut i: usize = start;
    assert(cs@.subrange(start as int, start as int) =~= Seq::<char>::empty());
    while i < cs.len()
        invariant
            body == cs@.subrange(start as int, cs@.len() as int),
            body == (if s@.len() > 0 && s@[0] == '+' {
                s@.drop_first()
            } else {
                s@
            }),
            start < cs@.len(),
            start <= i <= cs@.len(),
            max >= 9,
            forall|k: int| start <= k < i ==> '0' <= #[trigger] cs@[k] <= '9',
            value as int == digits_value(cs@.subrange(start as int, i as int)),
            value <= max,
        decreases cs.len() - i,
    {
        let c = cs[i];
        let ghost pre = cs@.subrange(start as int, i + 1);
        assert(pre.drop_last() =~= cs@.subrange(start as int, i as int));
        assert(pre.last() == c);
        if c < '0' || c > '9' {
            assert(!all_digits(body)) by {
                assert(body[i - start] == c);
            }
            return None;
        }
        let d = digit_value(c);
        if value > (max - d) / 10 {
            proof {
                assert(value * 10 + d > max) by (nonlinear_arith)
                    requires
                        value > (max - d) / 10,
                        d <= 9,
                        max >= 9,
                {
                }
                if all_digits(body) {
                    assert(pre =~= body.subrange(0, i + 1 - start));
                    lemma_digits_prefix(body, i + 1 - start);
                }
            }
            return None;
        }
        assert(value * 10 + d <= max) by (nonlinear_arith)
            requires
                value <= (max - d) / 10,
                d <= 9,
                max >= 9,
        {
        }
        value = value * 10 + d;
        i = i + 1;
    }
    assert(cs@.subrange(start as int, cs@.len() as int) == body);
    assert(all_digits(body)) by {
        assert forall|k: int| 0 <= k < body.len() implies '0' <= #[trigger] body[k] <= '9' by {
            assert(body[k] == cs@[start + k]);
        }
    }
    Some(value)
}

/// `str::parse::<u64>`: an optional `+` sign followed by decimal digits,
/// accepted when the value fits in `u64`.
pub(crate) fn parse_u64(s: &str) -> (r: Option<u64>)
    ensures
        match r {
            Some(v) => parsed_unsigned(s@, u64::MAX as int) == Some(v as int),
            None => parsed_unsigned(s@, u64::MAX as int) is None,
        },
{
    parse_unsigned(s, u64::MAX)
}

/// `str::parse::<usize>`: an optional `+` sign followed by decimal digits,
/// accepted when the value fits in `usize`.
pub(crate) fn parse_usize(s: &str) -> (r: Option<usize>)
    ensures
        match r {
            Some(v) => parsed_unsigned(s@, usize::MAX as int) == Some(v as int),
            None => parsed_unsigned(s@, usize::MAX as int) is None,
        },
{
    match parse_unsigned(s, usize::MAX as u64) {
        Some(v) => Some(v as usize),
        None => None,
    }
}

/// `str::parse::<u16>`: an optional `+` sign followed by decimal digits,
/// accepted when the value fits in `u16`.
pub(crate) fn parse_u16(s: &str) -> (r: Option<u16>)
    ensures
        match r {
            Some(v) => parsed_unsigned(s@, u16::MAX as int) == Some(v as int),
            None => parsed_unsigned(s@, u16::MAX as int) is None,
        },
{
    match parse_unsigned(s, u16::MAX as u64) {
        Some(v) => Some(v as u16),
        None => None,
    }
}

/// One week, the default lifetime of expiring records.
pub const DEFAULT_MEMORY_TTL_SECONDS: u64 = 604800;

/// The default number of items per kind in a response.
pub const DEFAULT_MAX_CONTEXT_ITEMS: usize = 3;

/// The default listening port.
pub const DEFAULT_PORT: u16 = 8000;

/// A number given in a variable, or the default when it is unset or does not parse.
pub open spec fn number_or(value: Option<String>, max: int, default: int) -> int {
    match value {
        Some(v) => match parsed_unsigned(v@, max) {
            Some(n) => n,
            None => default,
        },
        None => default,
    }
}

impl Config {
    /// The configuration for the values of `ITERUM_REDIS_URL`,
    /// `ITERUM_MEMORY_TTL_SECONDS`, `ITERUM_DEFAULT_NAMESPACE`,
    /// `ITERUM_MAX_CONTEXT_ITEMS` and `ITERUM_PORT` (`None` when unset): unset
    /// text takes its default, and a number that is unset or does not parse too.
    pub fn from_values(
        redis_url: Option<String>,
        memory_ttl_seconds: Option<String>,
        default_namespace: Option<String>,
        max_context_items: Option<String>,
        port: Option<String>,
    ) -> (c: Config)
        ensures
            c.redis_url@ == match redis_url {
                Some(u) => u@,
                None => "redis://localhost:6379/0"@,
            },
            c.memory_ttl_seconds == number_or(
                memory_ttl_seconds,
                u64::MAX as int,
                DEFAULT_MEMORY_TTL_SECONDS as int,
            ),
            c.default_namespace@ == match default_namespace {
                Some(n) => n@,
                None => "default"@,
            },
            c.max_context_items == number_or(
                max_context_items,
                usize::MAX as int,
                DEFAULT_MAX_CONTEXT_ITEMS as int,
            ),
            c.port == number_or(port, u16::MAX as int, DEFAULT_PORT as int),
    {
        let redis_url = match redis_url {
            Some(u) => u,
            None => owned("redis://localhost:6379/0"),
        };
        let memory_ttl_seconds = match &memory_ttl_seconds {
            Some(v) => match parse_u64(v.as_str()) {
                Some(n) => n,
                None => DEFAULT_MEMORY_TTL_SECONDS,
            },
            None => DEFAULT_MEMORY_TTL_SECONDS,
        };
        let default_namespace = match default_namespace {
            Some(n) => n,
            None => owned("default"),
        };
        let max_context_items = match &max_context_items {
            Some(v) => match parse_usize(v.as_str()) {
                Some(n) => n,
                None => DEFAULT_MAX_CONTEXT_ITEMS,
            },
            None => DEFAULT_MAX_CONTEXT_ITEMS,
        };
        let port = match &port {
            Some(v) => match parse_u16(v.as_str()) {
                Some(n) => n,
                None => DEFAULT_PORT,
            },
            None => DEFAULT_PORT,
        };
        Config { redis_url, memory_ttl_seconds, default_namespace, max_context_items, port }
    }

    /// Whether the configured store is the in-memory one (`memory://` URL).
    pub fn is_memory_store(&self) -> (b: bool)
        ensures
            b == has_prefix(self.redis_url@, "memory://"@),
    {
        starts_with(self.redis_url.as_str(), "memory://")
    }
}

} // verus!
