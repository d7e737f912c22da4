//! The server's settings, from the values of its environment variables.
use vstd::prelude::*;

use crate::text::{chars_of, digits_value, is_digit, lemma_digits_of_nat_text, nat_text};

verus! {

/// The server's settings.
#[derive(Debug)]
pub struct AppConfig {
    pub stockbit_token: String,
    pub ai_api_url: String,
    pub ai_api_key: String,
    pub ai_model: String,
    pub server_port: u16,
}

/// The text after an optional leading `+`.
pub open spec fn unsigned_digits(s: Seq<char>) -> Seq<char> {
    if s.len() > 0 && s[0] == '+' {
        s.drop_first()
    } else {
        s
    }
}

/// What `u16`'s `FromStr` reads from a text: an optional `+` followed by one
/// or more ASCII digits whose value is at most 65535; nothing else.
pub open spec fn u16_text_value(s: Seq<char>) -> Option<u16> {
    let d = unsigned_digits(s);
    if d.len() > 0 && (forall|i: int| 0 <= i < d.len() ==> is_digit(#[trigger] d[i]))
        && digits_value(d) <= 65535 {
        Some(digits_value(d) as u16)
    } else {
        None
    }
}

/// For a run of digits, the value of a prefix is at most the value of the
/// whole run.
proof fn lemma_digits_prefix_le(d: Seq<char>, j: int)
    requires
        0 <= j <= d.len(),
        forall|i: int| 0 <= i < d.len() ==> is_digit(#[trigger] d[i]),
    ensures
        digits_value(d.take(j)) <= digits_value(d),
    decreases d.len(),
{
    if j < d.len() {
        let e = d.drop_last();
        lemma_digits_prefix_le(e, j);
        assert(e.take(j) =~= d.take(j));
        assert(is_digit(d[d.len() - 1]));
    } else {
        assert(d.take(j) =~= d);
    }
}

/// Reads a port number as `str::parse::<u16>` does: an optional `+` sign
/// and one or more decimal digits, nothing around them, worth at most 65535.
fn parse_u16(s: &str) -> (r: Option<u16>)
    ensures
        r == u16_text_value(s@),
{
    let cs = chars_of(s);
    let start: usize = if cs.len() > 0 && cs[0] == '+' { 1 } else { 0 };
    let ghost d = unsigned_digits(s@);
    assert(d =~= cs@.subrange(start as int, cs@.len() as int));
    if start >= cs.len() {
        return None;
    }
    let mut v: u32 = 0;
    let mut i: usize = start;
    assert(cs@.subrange(start as int, start as int) =~= Seq::<char>::empty());
    while i < cs.len()
        invariant
            start <= i <= cs.len(),
            start < cs.len(),
            cs@ == s@,
            d == unsigned_digits(s@),
            d == cs@.subrange(start as int, cs@.len() as int),
            forall|k: int| start <= k < i ==> is_digit(#[trigger] cs@[k]),
            v == digits_value(cs@.subrange(start as int, i as int)),
            v <= 65535,
        decreases cs.len() - i,
    {
        let c = cs[i];
        if !('0' <= c && c <= '9') {
            assert(d[i - start] == cs@[i as int]);
            assert(!is_digit(d[i - start]));
            return None;
        }
        let nv: u32 = v * 10 + ((c as u32) - ('0' as u32));
        assert(cs@.subrange(start as int, i + 1).drop_last() =~= cs@.subrange(start as int, i as int));
        if nv > 65535 {
            proof {
                if forall|k: int| 0 <= k < d.len() ==> is_digit(#[trigger] d[k]) {
                    lemma_digits_prefix_le(d, i + 1 - start);
                    assert(d.take(i + 1 - start) =~= cs@.subrange(start as int, i + 1));
                }
            }
            return None;
        }
        v = nv;
        i = i + 1;
    }
    assert(d =~= cs@.subrange(start as int, i as int));
    Some(v as u16)
}

/// The text of a setting, or its default where it is not set.
pub open spec fn or_default(v: Option<String>, default: Seq<char>) -> Seq<char> {
    match v {
        Some(s) => s@,
        None => default,
    }
}

/// The port a setting names: its number where it reads as one, else 3000.
pub open spec fn port_of(v: Option<String>) -> u16 {
    match v {
        Some(s) => match u16_text_value(s@) {
            Some(n) => n,
            None => 3000,
        },
        None => 3000,
    }
}

fn value_or(v: Option<String>, default: &str) -> (r: String)
    ensures
        r@ == or_default(v, default@),
{
    match v {
        Some(s) => s,
        None => String::from_str(default),
    }
}

impl AppConfig {
    /// The settings from the values of `STOCKBIT_TOKEN`, `AI_API_URL`,
    /// `AI_API_KEY`, `AI_MODEL` and `PORT`, each where it is set: the token
    /// and the key default to empty, the AI endpoint to DeepSeek's, the model
    /// to `deepseek-chat` and the port to 3000.
    pub fn from_vars(
        stockbit_token: Option<String>,
        ai_api_url: Option<String>,
        ai_api_key: Option<String>,
        ai_model: Option<String>,
        port: Option<String>,
    ) -> (r: AppConfig)
        ensures
            r.stockbit_token@ == or_default(stockbit_token, Seq::empty()),
            r.ai_api_url@ == or_default(ai_api_url, "https://api.deepseek.com"@),
            r.ai_api_key@ == or_default(ai_api_key, Seq::empty()),
            r.ai_model@ == or_default(ai_model, "deepseek-chat"@),
            r.server_port == port_of(port),
    {
        proof {
            reveal_strlit("");
        }
        let server_port: u16 = match &port {
            Some(p) => match parse_u16(p.as_str()) {
                Some(n) => n,
                None => 3000,
            },
            None => 3000,
        };
        AppConfig {
            stockbit_token: value_or(stockbit_token, ""),
            ai_api_url: value_or(ai_api_url, "https://api.deepseek.com"),
            ai_api_key: value_or(ai_api_key, ""),
            ai_model: value_or(ai_model, "deepseek-chat"),
            server_port,
        }
    }
}

/// The decimal text of any port number configures that port.
pub proof fn law_port_text_round_trip(n: u16)
    ensures
        u16_text_value(nat_text(n as nat)) == Some(n),
{
    lemma_digits_of_nat_text(n as nat);
    let t = nat_text(n as nat);
    assert(is_digit(t[0]));
}

} // verus!
