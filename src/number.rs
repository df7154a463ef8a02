use vstd::prelude::*;

use crate::text::chars_of;

verus! {

pub open spec fn is_digit(c: char) -> bool {
    '0' <= c && c <= '9'
}

pub open spec fn all_digits(s: Seq<char>) -> bool {
    forall|i: int| 0 <= i < s.len() ==> is_digit(#[trigger] s[i])
}

pub open spec fn digit_value(c: char) -> int {
    (c as int) - ('0' as int)
}

/// The value of a string of decimal digits, most significant first.
pub open spec fn digits_value(s: Seq<char>) -> int
    decreases s.len(),
{
    if s.len() == 0 {
        0
    } else {
        digits_value(s.drop_last()) * 10 + digit_value(s.last())
    }
}

/// The integer that a decimal literal denotes: an optional `+` or `-` sign
/// followed by at least one ASCII digit (the syntax of Rust's integer
/// `from_str`), or `None` for any other text.
pub open spec fn decimal_value(s: Seq<char>) -> Option<int> {
    if s.len() > 0 && (s[0] == '+' || s[0] == '-') {
        let d = s.drop_first();
        if d.len() > 0 && all_digits(d) {
            Some(
                if s[0] == '-' {
                    -digits_value(d)
                } else {
                    digits_value(d)
                },
            )
        } else {
            None
        }
    } else if s.len() > 0 && all_digits(s) {
        Some(digits_value(s))
    } else {
        None
    }
}

/// The `i32` a text denotes, if it denotes one.
pub open spec fn i32_value(s: Seq<char>) -> Option<i32> {
    match decimal_value(s) {
        Some(v) => if i32::MIN <= v <= i32::MAX {
            Some(v as i32)
        } else {
            None
        },
        None => None,
    }
}

/// The `i64` a text denotes, if it denotes one.
pub open spec fn i64_value(s: Seq<char>) -> Option<i64> {
    match decimal_value(s) {
        Some(v) => if i64::MIN <= v <= i64::MAX {
            Some(v as i64)
        } else {
            None
        },
        None => None,
    }
}

/// The `u64` a text denotes, if it denotes one: Rust's unsigned `from_str`
/// takes an optional `+` but no `-`.
pub open spec fn u64_value(s: Seq<char>) -> Option<u64> {
    if s.len() > 0 && s[0] == '-' {
        None
    } else {
        match decimal_value(s) {
            Some(v) => if 0 <= v <= u64::MAX {
                Some(v as u64)
            } else {
                None
            },
            None => None,
        }
    }
}

/// The `u32` a text denotes, if it denotes one.
pub open spec fn u32_value(s: Seq<char>) -> Option<u32> {
    match u64_value(s) {
        Some(v) => if v <= u32::MAX {
            Some(v as u32)
        } else {
            None
        },
        None => None,
    }
}

proof fn lemma_digits_value_grows(s: Seq<char>, i: int)
    requires
        all_digits(s),
        0 <= i <= s.len(),
    ensures
        0 <= digits_value(s.take(i)) <= digits_value(s),
    decreases s.len() - i,
{
    if i < s.len() {
        lemma_digits_value_grows(s, i + 1);
        assert(s.take(i + 1).drop_last() =~= s.take(i));
        assert(is_digit(s[i]));
    } else {
        assert(s.take(i) =~= s);
    }
    lemma_digits_value_nonneg(s.take(i));
}

proof fn lemma_digits_value_nonneg(s: Seq<char>)
    requires
        all_digits(s),
    ensures
        digits_value(s) >= 0,
    decreases s.len(),
{
    if s.len() > 0 {
        assert(all_digits(s.drop_last())) by {
            assert forall|i: int| 0 <= i < s.drop_last().len() implies is_digit(
                #[trigger] s.drop_last()[i],
            ) by {
                assert(s.drop_last()[i] == s[i]);
            }
        }
        lemma_digits_value_nonneg(s.drop_last());
        assert(is_digit(s[s.len() - 1]));
    }
}

/// The value of `s[from..to]` read as a decimal integer, provided it is a
/// nonempty run of digits worth at most `limit`.
fn digits_upto(s: &Vec<char>, from: usize, to: usize, limit: i128) -> (r: Option<i128>)
    requires
        from <= to <= s@.len(),
        0 <= limit <= u64::MAX as i128,
    ensures
        match r {
            Some(v) => from < to && all_digits(s@.subrange(from as int, to as int)) && v
                == digits_value(s@.subrange(from as int, to as int)) && 0 <= v <= limit,
            None => !(from < to && all_digits(s@.subrange(from as int, to as int)) && digits_value(
                s@.subrange(from as int, to as int),
            ) <= limit),
        },
{
    if from == to {
        return None;
    }
    let ghost d = s@.subrange(from as int, to as int);
    let mut acc: i128 = 0;
    let mut i: usize = from;
    while i < to
        invariant
            from <= i <= to <= s@.len(),
            d == s@.subrange(from as int, to as int),
            all_digits(d.take(i - from)),
            acc == digits_value(d.take(i - from)),
            0 <= acc <= limit,
            0 <= limit <= u64::MAX as i128,
        decreases to - i,
    {
        let c = s[i];
        let ghost k = i - from;
        assert(d[k] == c);
        if !('0' <= c && c <= '9') {
            proof {
                assert(!all_digits(d));
            }
            return None;
        }
        let next: i128 = acc * 10 + (c as u32 as i128 - '0' as u32 as i128);
        proof {
            assert(d.take(k + 1).drop_last() =~= d.take(k));
            assert(all_digits(d.take(k + 1))) by {
                assert forall|j: int| 0 <= j < k + 1 implies is_digit(#[trigger] d.take(k + 1)[j]) by {
                    if j < k {
                        assert(d.take(k + 1)[j] == d.take(k)[j]);
                    }
                }
            }
        }
        if next > limit {
            proof {
                if all_digits(d) {
                    lemma_digits_value_grows(d, k + 1);
                }
            }
            return None;
        }
        acc = next;
        i = i + 1;
    }
    assert(d.take(d.len() as int) =~= d);
    Some(acc)
}

/// Reads `s[from..to]` as a signed decimal integer, as Rust's `i64::from_str`
/// does.
pub fn parse_i64_range(s: &Vec<char>, from: usize, to: usize) -> (r: Option<i64>)
    requires
        from <= to <= s@.len(),
    ensures
        r == i64_value(s@.subrange(from as int, to as int)),
{
    let ghost t = s@.subrange(from as int, to as int);
    if from < to && (s[from] == '+' || s[from] == '-') {
        let negative = s[from] == '-';
        let limit: i128 = if negative {
            i64::MAX as i128 + 1
        } else {
            i64::MAX as i128
        };
        assert(t.drop_first() =~= s@.subrange(from + 1, to as int));
        match digits_upto(s, from + 1, to, limit) {
            Some(v) => {
                if negative {
                    Some((-v) as i64)
                } else {
                    Some(v as i64)
                }
            },
            None => None,
        }
    } else {
        match digits_upto(s, from, to, i64::MAX as i128) {
            Some(v) => Some(v as i64),
            None => {
                proof {
                    if t.len() > 0 && all_digits(t) {
                        lemma_digits_value_nonneg(t);
                    }
                }
                None
            },
        }
    }
}

/// Reads `s[from..to]` as an unsigned decimal integer, as Rust's
/// `u64::from_str` does.
pub fn parse_u64_range(s: &Vec<char>, from: usize, to: usize) -> (r: Option<u64>)
    requires
        from <= to <= s@.len(),
    ensures
        r == u64_value(s@.subrange(from as int, to as int)),
{
    let ghost t = s@.subrange(from as int, to as int);
    if from < to && s[from] == '-' {
        return None;
    }
    let start = if from < to && s[from] == '+' {
        from + 1
    } else {
        from
    };
    if start > from {
        assert(t.drop_first() =~= s@.subrange(start as int, to as int));
    }
    match digits_upto(s, start, to, u64::MAX as i128) {
        Some(v) => Some(v as u64),
        None => {
            proof {
                let d = s@.subrange(start as int, to as int);
                if d.len() > 0 && all_digits(d) {
                    lemma_digits_value_nonneg(d);
                }
            }
            None
        },
    }
}

/// Reads `s[from..to]` as a signed decimal integer, as Rust's `i32::from_str`
/// does.
pub fn parse_i32_range(s: &Vec<char>, from: usize, to: usize) -> (r: Option<i32>)
    requires
        from <= to <= s@.len(),
    ensures
        r == i32_value(s@.subrange(from as int, to as int)),
{
    match parse_i64_range(s, from, to) {
        Some(v) => {
            if i32::MIN as i64 <= v && v <= i32::MAX as i64 {
                Some(v as i32)
            } else {
                None
            }
        },
        None => {
            proof {
                let t = s@.subrange(from as int, to as int);
                if t.len() > 0 && (t[0] == '+' || t[0] == '-') {
                    if t.drop_first().len() > 0 && all_digits(t.drop_first()) {
                        lemma_digits_value_nonneg(t.drop_first());
                    }
                } else if t.len() > 0 && all_digits(t) {
                    lemma_digits_value_nonneg(t);
                }
            }
            None
        },
    }
}

/// Reads `s[from..to]` as Rust's `u32::from_str` does.
pub fn parse_u32_range(s: &Vec<char>, from: usize, to: usize) -> (r: Option<u32>)
    requires
        from <= to <= s@.len(),
    ensures
        r == u32_value(s@.subrange(from as int, to as int)),
{
    match parse_u64_range(s, from, to) {
        Some(v) => if v <= u32::MAX as u64 {
            Some(v as u32)
        } else {
            None
        },
        None => None,
    }
}

/// Reads `s` as Rust's `i64::from_str` does.
pub fn parse_i64_text(s: &str) -> (r: Option<i64>)
    ensures
        r == i64_value(s@),
{
    let c = chars_of(s);
    assert(c@.subrange(0, c@.len() as int) =~= c@);
    parse_i64_range(&c, 0, c.len())
}

/// Reads `s` as Rust's `i32::from_str` does.
pub fn parse_i32_text(s: &str) -> (r: Option<i32>)
    ensures
        r == i32_value(s@),
{
    let c = chars_of(s);
    assert(c@.subrange(0, c@.len() as int) =~= c@);
    parse_i32_range(&c, 0, c.len())
}

/// Reads `s` as Rust's `u32::from_str` does.
pub fn parse_u32_text(s: &str) -> (r: Option<u32>)
    ensures
        r == u32_value(s@),
{
    let c = chars_of(s);
    assert(c@.subrange(0, c@.len() as int) =~= c@);
    parse_u32_range(&c, 0, c.len())
}

/// Reads `s` as Rust's `u64::from_str` does.
pub fn parse_u64_text(s: &str) -> (r: Option<u64>)
    ensures
        r == u64_value(s@),
{
    let c = chars_of(s);
    assert(c@.subrange(0, c@.len() as int) =~= c@);
    parse_u64_range(&c, 0, c.len())
}

} // verus!
