use vstd::prelude::*;
use vstd::string::StringExecFns;

verus! {

/// When to stop an in-progress timebox because the user is idle.
#[derive(Debug, Clone, Copy, PartialEq, Eq, Structural)]
pub struct IdleSettings {
    pub enabled: bool,
    pub timeout_minutes: i32,
}

/// The idle timeout used when none is stored or the stored text is not a number.
pub const DEFAULT_TIMEOUT_MINUTES: i32 = 5;

pub open spec fn is_digit(c: char) -> bool {
    '0' <= c && c <= '9'
}

/// Every character is a decimal digit.
pub open spec fn all_digits(s: Seq<char>) -> bool {
    forall|i: int| 0 <= i < s.len() ==> is_digit(#[trigger] s[i])
}

/// The value of a string of decimal digits.
pub open spec fn digits_value(s: Seq<char>) -> int
    decreases s.len(),
{
    if s.len() == 0 {
        0
    } else {
        digits_value(s.drop_last()) * 10 + (s.last() as int - '0' as int)
    }
}

/// The unsigned part of a decimal numeral: the text after an optional leading sign.
pub open spec fn unsigned_part(s: Seq<char>) -> Seq<char> {
    if s.len() > 0 && (s[0] == '-' || s[0] == '+') {
        s.drop_first()
    } else {
        s
    }
}

/// The integer a decimal numeral denotes: an optional sign, then one or more digits.
pub open spec fn numeral_value(s: Seq<char>) -> Option<int> {
    let ds = unsigned_part(s);
    if ds.len() > 0 && all_digits(ds) {
        Some(
            if s[0] == '-' {
                -digits_value(ds)
            } else {
                digits_value(ds)
            },
        )
    } else {
        None
    }
}

/// The `i32` that `s` denotes, if it is a decimal numeral whose value fits.
pub open spec fn decimal_i32(s: Seq<char>) -> Option<i32> {
    match numeral_value(s) {
        Some(v) => if i32::MIN <= v <= i32::MAX {
            Some(v as i32)
        } else {
            None
        },
        None => None,
    }
}

proof fn lemma_digits_value_grows(s: Seq<char>, k: int)
    requires
        0 <= k <= s.len(),
        forall|i: int| 0 <= i < s.len() ==> is_digit(#[trigger] s[i]),
    ensures
        digits_value(s.take(k)) <= digits_value(s),
        0 <= digits_value(s.take(k)),
    decreases s.len(),
{
    if s.len() > 0 {
        if k == s.len() {
            assert(s.take(k) =~= s);
            lemma_digits_value_grows(s.drop_last(), s.len() - 1);
            assert(s.drop_last().take(s.len() - 1) =~= s.drop_last());
        } else {
            lemma_digits_value_grows(s.drop_last(), k);
            assert(s.drop_last().take(k) =~= s.take(k));
            lemma_digits_value_grows(s.drop_last(), s.len() - 1);
            assert(s.drop_last().take(s.len() - 1) =~= s.drop_last());
        }
    }
}

/// Reads a decimal `i32`: an optional sign and at least one digit, nothing else, in range.
pub fn parse_i32(s: &str) -> (r: Option<i32>)
    ensures
        r == decimal_i32(s@),
{
    let n = s.unicode_len();
    if n == 0 {
        return None;
    }
    let first = s.get_char(0);
    let negative = first == '-';
    let start: usize = if first == '-' || first == '+' {
        1
    } else {
        0
    };
    if start == n {
        return None;
    }
    let ghost ds = unsigned_part(s@);
    assert(ds =~= s@.subrange(start as int, n as int));
    let mut acc: i64 = 0;
    let mut i: usize = start;
    while i < n
        invariant
            n == s@.len(),
            start <= i <= n,
            ds =~= s@.subrange(start as int, n as int),
            ds == unsigned_part(s@),
            negative == (s@[0] == '-'),
            forall|k: int| start <= k < i ==> is_digit(#[trigger] s@[k]),
            acc == digits_value(ds.take(i - start)),
            0 <= acc <= 2147483648,
        decreases n - i,
    {
        let c = s.get_char(i);
        assert(ds[i - start] == c);
        if !('0' <= c && c <= '9') {
            assert(!is_digit(ds[i - start]));
            assert(!all_digits(ds));
            return None;
        }
        proof {
            assert(ds.take(i - start + 1).drop_last() =~= ds.take(i - start));
            assert(ds.take(i - start + 1).last() == c);
        }
        let next = acc * 10 + (c as i64 - '0' as i64);
        if next > 2147483648 {
            proof {
                if all_digits(ds) {
                    lemma_digits_value_grows(ds, i - start + 1);
                }
            }
            return None;
        }
        acc = next;
        i = i + 1;
    }
    assert(ds.take(n - start) =~= ds);
    if negative {
        Some((0 - acc) as i32)
    } else if acc <= 2147483647 {
        Some(acc as i32)
    } else {
        None
    }
}

impl IdleSettings {
    /// Settings from their stored texts: enabled unless the stored flag is other than "true",
    /// and the stored timeout when it reads as a number, else the default of five minutes.
    pub fn from_stored(enabled: Option<String>, timeout_minutes: Option<String>) -> (r:
        IdleSettings)
        ensures
            r.enabled == match enabled {
                Some(e) => e@ == "true"@,
                None => true,
            },
            r.timeout_minutes == match timeout_minutes {
                Some(t) => match decimal_i32(t@) {
                    Some(v) => v,
                    None => DEFAULT_TIMEOUT_MINUTES,
                },
                None => DEFAULT_TIMEOUT_MINUTES,
            },
    {
        let on = match enabled {
            Some(e) => e == String::from_str("true"),
            None => true,
        };
        let minutes = match timeout_minutes {
            Some(t) => match parse_i32(t.as_str()) {
                Some(v) => v,
                None => DEFAULT_TIMEOUT_MINUTES,
            },
            None => DEFAULT_TIMEOUT_MINUTES,
        };
        IdleSettings { enabled: on, timeout_minutes: minutes }
    }

    /// The stored text of the enabled flag.
    pub fn enabled_text(&self) -> (r: &'static str)
        ensures
            r@ == if self.enabled {
                "true"@
            } else {
                "false"@
            },
    {
        if self.enabled {
            "true"
        } else {
            "false"
        }
    }
}

} // verus!
