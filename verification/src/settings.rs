//! Listen-address configuration: a host and a port parsed from a
//! `host:port` text, with built-in defaults when the configuration source
//! is missing (empty text).  A malformed text is rejected so the caller can
//! fall back to the defaults with a warning rather than fail outright.

use vstd::prelude::*;
use vstd::string::StrSliceExecFns;

verus! {

/// Fallback listen host used when no configuration is present.
pub open spec fn default_ip_text() -> Seq<char> {
    "127.0.0.1"@
}

/// Fallback listen port used when no configuration is present.
pub const DEFAULT_PORT: u16 = 3000;

/// An ASCII decimal digit.
pub open spec fn is_digit_char(c: char) -> bool {
    48 <= (c as u32) && (c as u32) <= 57
}

/// The numeric value of an ASCII decimal digit.
pub open spec fn digit_val(c: char) -> int {
    (c as u32) - 48
}

/// Every character of `s` is an ASCII decimal digit.
pub open spec fn all_digits(s: Seq<char>) -> bool {
    forall|i: int| 0 <= i < s.len() ==> is_digit_char(#[trigger] s[i])
}

/// The value of `s` read as a decimal numeral.
pub open spec fn dec_val(s: Seq<char>) -> int
    decreases s.len(),
{
    if s.len() == 0 {
        0
    } else {
        dec_val(s.drop_last()) * 10 + digit_val(s.last())
    }
}

/// `s` is a non-empty all-digit numeral whose value fits a port number.
pub open spec fn valid_port_text(s: Seq<char>) -> bool {
    s.len() > 0 && all_digits(s) && dec_val(s) <= 65535
}

/// The position of the last `':'` in `s`, or -1 when there is none.
pub open spec fn last_colon(s: Seq<char>) -> int
    decreases s.len(),
{
    if s.len() == 0 {
        -1
    } else if s.last() == ':' {
        s.len() - 1
    } else {
        last_colon(s.drop_last())
    }
}

/// What a configuration text denotes: empty text gives the defaults; a
/// `host:port` text (splitting at the last colon) gives that host and port
/// when the host is non-empty and the port is a valid numeral; anything
/// else is malformed.
pub open spec fn spec_parse_settings(s: Seq<char>) -> Option<(Seq<char>, u16)> {
    if s.len() == 0 {
        Some((default_ip_text(), DEFAULT_PORT))
    } else {
        let lc = last_colon(s);
        if lc >= 1 && valid_port_text(s.subrange(lc + 1, s.len() as int)) {
            Some((s.take(lc), dec_val(s.subrange(lc + 1, s.len() as int)) as u16))
        } else {
            None
        }
    }
}

proof fn lemma_all_digits_prefix(s: Seq<char>, i: int)
    requires
        all_digits(s),
        0 <= i <= s.len(),
    ensures
        all_digits(s.take(i)),
{
}

proof fn lemma_dec_val_nonneg(s: Seq<char>)
    requires
        all_digits(s),
    ensures
        dec_val(s) >= 0,
    decreases s.len(),
{
    if s.len() > 0 {
        lemma_all_digits_prefix(s, s.len() - 1);
        assert(s.drop_last() =~= s.take(s.len() - 1));
        lemma_dec_val_nonneg(s.drop_last());
    }
}

proof fn lemma_dec_val_step(s: Seq<char>, i: int)
    requires
        0 <= i < s.len(),
    ensures
        dec_val(s.take(i + 1)) == dec_val(s.take(i)) * 10 + digit_val(s[i]),
{
    assert(s.take(i + 1).drop_last() =~= s.take(i));
    assert(s.take(i + 1).last() == s[i]);
}

proof fn lemma_dec_val_prefix(s: Seq<char>, i: int)
    requires
        all_digits(s),
        0 <= i <= s.len(),
    ensures
        dec_val(s.take(i)) <= dec_val(s),
    decreases s.len() - i,
{
    if i < s.len() {
        lemma_dec_val_step(s, i);
        lemma_all_digits_prefix(s, i);
        lemma_dec_val_nonneg(s.take(i));
        lemma_dec_val_prefix(s, i + 1);
    } else {
        assert(s.take(i) =~= s);
    }
}

/// Parse a port number: the numeral's value if `s` is a non-empty all-digit
/// text denoting at most 65535, and nothing otherwise.
pub fn parse_port(s: &str) -> (r: Option<u16>)
    ensures
        match r {
            Some(p) => valid_port_text(s@) && p as int == dec_val(s@),
            None => !valid_port_text(s@),
        },
{
    let n = s.unicode_len();
    if n == 0 {
        return None;
    }
    let mut acc: u32 = 0;
    let mut i: usize = 0;
    while i < n
        invariant
            n == s@.len(),
            i <= n,
            acc <= 65535,
            acc as int == dec_val(s@.take(i as int)),
            all_digits(s@.take(i as int)),
        decreases n - i,
    {
        let c = s.get_char(i);
        let d = c as u32;
        if d < 48 || d > 57 {
            assert(!is_digit_char(s@[i as int]));
            return None;
        }
        let v = acc * 10 + (d - 48);
        proof {
            lemma_dec_val_step(s@, i as int);
            assert forall|j: int| 0 <= j < i as int + 1 implies is_digit_char(
                #[trigger] s@.take(i as int + 1)[j],
            ) by {
                if j < i as int {
                    assert(s@.take(i as int + 1)[j] == s@.take(i as int)[j]);
                }
            }
        }
        if v > 65535 {
            proof {
                if all_digits(s@) {
                    lemma_dec_val_prefix(s@, i as int + 1);
                }
            }
            return None;
        }
        acc = v;
        i += 1;
    }
    proof {
        assert(s@.take(n as int) =~= s@);
    }
    Some(acc as u16)
}

proof fn lemma_last_colon_none(s: Seq<char>)
    requires
        forall|j: int| 0 <= j < s.len() ==> (#[trigger] s[j]) != ':',
    ensures
        last_colon(s) == -1,
    decreases s.len(),
{
    if s.len() > 0 {
        lemma_last_colon_none(s.drop_last());
    }
}

proof fn lemma_last_colon_at(s: Seq<char>, k: int)
    requires
        0 <= k < s.len(),
        s[k] == ':',
        forall|j: int| k < j < s.len() ==> (#[trigger] s[j]) != ':',
    ensures
        last_colon(s) == k,
    decreases s.len(),
{
    if k < s.len() - 1 {
        assert(s.last() != ':');
        lemma_last_colon_at(s.drop_last(), k);
    }
}

/// Law: composing a listen address from a non-empty host and a valid port
/// numeral, then parsing it back, yields exactly that host and port —
/// whatever colons the host itself contains, since the split is at the
/// last colon and a port numeral holds none.
pub proof fn lemma_settings_round_trip(ip: Seq<char>, pt: Seq<char>, port: u16)
    requires
        ip.len() > 0,
        valid_port_text(pt),
        dec_val(pt) == port as int,
    ensures
        spec_parse_settings(ip + seq![':'] + pt) matches Some(p) && p.0 == ip && p.1 == port,
{
    let s = ip + seq![':'] + pt;
    let lc = ip.len() as int;
    assert(s[lc] == ':');
    assert forall|j: int| lc < j < s.len() implies (#[trigger] s[j]) != ':' by {
        assert(s[j] == pt[j - lc - 1]);
        assert(is_digit_char(pt[j - lc - 1]));
    }
    lemma_last_colon_at(s, lc);
    assert(s.take(lc) =~= ip);
    assert(s.subrange(lc + 1, s.len() as int) =~= pt);
}

/// The two external settings the listen address is composed from.
pub struct Settings {
    pub ip: String,
    pub port: u16,
}

impl Settings {
    /// Parse a configuration text.  Empty text (a missing configuration
    /// source) yields the built-in defaults; a well-formed `host:port`
    /// text yields that host and port; a malformed text yields nothing,
    /// letting the caller warn and fall back to `Settings::from_str("")`.
    pub fn from_str(text: &str) -> (r: Option<Settings>)
        ensures
            match r {
                Some(st) => spec_parse_settings(text@) matches Some(p) && p.0 == st.ip@ && p.1
                    == st.port,
                None => spec_parse_settings(text@) is None,
            },
    {
        let n = text.unicode_len();
        if n == 0 {
            return Some(Settings { ip: "127.0.0.1".to_owned(), port: DEFAULT_PORT });
        }
        let mut i: usize = n;
        while i > 0
            invariant
                n == text@.len(),
                i <= n,
                forall|j: int| i <= j < n ==> (#[trigger] text@[j]) != ':',
            decreases i,
        {
            let c = text.get_char(i - 1);
            if c == ':' {
                let lc = i - 1;
                proof {
                    lemma_last_colon_at(text@, lc as int);
                }
                if lc == 0 {
                    return None;
                }
                let port_str = text.substring_char(lc + 1, n);
                match parse_port(port_str) {
                    Some(p) => {
                        let ip_str = text.substring_char(0, lc);
                        return Some(Settings { ip: ip_str.to_owned(), port: p });
                    },
                    None => {
                        return None;
                    },
                }
            }
            i -= 1;
        }
        proof {
            lemma_last_colon_none(text@);
        }
        None
    }
}

} // verus!
