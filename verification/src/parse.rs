//! Parsing of a signed decimal integer, as the exit builtin reads its
//! status code: an optional sign followed by one or more digits, spanning
//! the whole string, rejected when the value does not fit the result type.

use vstd::prelude::*;

verus! {

/// True for the ten decimal digit characters.
pub open spec fn is_digit(c: char) -> bool {
    '0' as int <= c as int && c as int <= '9' as int
}

/// The numeric value of a digit character.
pub open spec fn digit_val(c: char) -> int {
    c as int - '0' as int
}

/// True when every character of `s` is a decimal digit.
pub open spec fn all_digits(s: Seq<char>) -> bool {
    forall|i: int| 0 <= i < s.len() ==> is_digit(s[i])
}

/// The value of a digit string read in base ten.
pub open spec fn digits_val(s: Seq<char>) -> int
    decreases s.len(),
{
    if s.len() == 0 {
        0
    } else {
        digits_val(s.drop_last()) * 10 + digit_val(s.last())
    }
}

/// True when `s` is a decimal integer literal: an optional leading sign,
/// then one or more digits, and nothing else.
pub open spec fn is_int_literal(s: Seq<char>) -> bool {
    if s.len() > 0 && (s[0] == '+' || s[0] == '-') {
        s.len() >= 2 && all_digits(s.drop_first())
    } else {
        s.len() >= 1 && all_digits(s)
    }
}

/// The mathematical value of an integer literal.
pub open spec fn int_literal_val(s: Seq<char>) -> int {
    if s.len() > 0 && s[0] == '-' {
        -digits_val(s.drop_first())
    } else if s.len() > 0 && s[0] == '+' {
        digits_val(s.drop_first())
    } else {
        digits_val(s)
    }
}

pub proof fn lemma_digits_val_nonneg(s: Seq<char>)
    requires
        all_digits(s),
    ensures
        digits_val(s) >= 0,
    decreases s.len(),
{
    if s.len() > 0 {
        let t = s.drop_last();
        assert(forall|i: int| 0 <= i < t.len() ==> t[i] == s[i]);
        lemma_digits_val_nonneg(t);
    }
}

/// Reading one more digit multiplies the prefix value by ten and adds the
/// digit.
pub proof fn lemma_digits_val_step(s: Seq<char>, i: int)
    requires
        0 <= i < s.len(),
    ensures
        digits_val(s.take(i + 1)) == digits_val(s.take(i)) * 10 + digit_val(s[i]),
{
    assert(s.take(i + 1).drop_last() =~= s.take(i));
    assert(s.take(i + 1).last() == s[i]);
}

/// A digit string is worth at least any of its prefixes.
pub proof fn lemma_digits_val_prefix_le(s: Seq<char>, i: int)
    requires
        all_digits(s),
        0 <= i <= s.len(),
    ensures
        digits_val(s.take(i)) <= digits_val(s),
    decreases s.len() - i,
{
    if i < s.len() {
        let p = s.take(i);
        assert(forall|j: int| 0 <= j < p.len() ==> p[j] == s[j]);
        lemma_digits_val_nonneg(p);
        lemma_digits_val_step(s, i);
        lemma_digits_val_prefix_le(s, i + 1);
    } else {
        assert(s.take(i) =~= s);
    }
}

/// Parses a signed decimal integer: an optional sign, then one or more
/// digits, the whole string. Returns the value exactly when the string is
/// such a literal and its value fits the result type.
pub fn parse_i32(s: &str) -> (r: Option<i32>)
    ensures
        match r {
            Some(v) => is_int_literal(s@) && int_literal_val(s@) == v as int,
            None => !(is_int_literal(s@) && i32::MIN <= int_literal_val(s@) <= i32::MAX),
        },
{
    let n = s.unicode_len();
    if n == 0 {
        return None;
    }
    let c0 = s.get_char(0);
    let neg = c0 == '-';
    let has_sign = neg || c0 == '+';
    let start: usize = if has_sign {
        1
    } else {
        0
    };
    let ghost ds = s@.skip(start as int);
    proof {
        if has_sign {
            assert(ds =~= s@.drop_first());
        } else {
            assert(ds =~= s@);
        }
    }
    if n == start {
        return None;
    }
    let mut acc: i32 = 0;
    let mut i: usize = start;
    proof {
        assert(ds.take(0) =~= Seq::<char>::empty());
    }
    while i < n
        invariant
            n == s@.len(),
            start <= i <= n,
            start <= 1,
            n > start,
            ds == s@.skip(start as int),
            neg == (s@[0] == '-'),
            has_sign == (s@[0] == '-' || s@[0] == '+'),
            start == if has_sign { 1int } else { 0int },
            (if has_sign { ds =~= s@.drop_first() } else { ds =~= s@ }),
            all_digits(ds.take(i - start)),
            acc <= 0,
            acc as int == -digits_val(ds.take(i - start)),
        decreases n - i,
    {
        let c = s.get_char(i);
        let cv = c as u32;
        proof {
            assert(ds[i - start] == s@[i as int]);
        }
        if cv < 48 || cv > 57 {
            proof {
                assert(!is_digit(ds[i - start]));
                assert(!all_digits(ds));
            }
            return None;
        }
        let d = (cv - 48) as i32;
        proof {
            assert(is_digit(ds[i - start]));
            assert(d as int == digit_val(ds[i - start]));
        }
        let ghost pre = digits_val(ds.take(i - start));
        let ghost post = digits_val(ds.take(i - start + 1));
        proof {
            lemma_digits_val_step(ds, i - start);
            assert(post == pre * 10 + d as int);
            assert(forall|j: int|
                0 <= j < i - start + 1 ==> ds.take(i - start + 1)[j] == ds[j]);
        }
        let next = match acc.checked_mul(10) {
            Some(a10) => a10.checked_sub(d),
            None => None,
        };
        match next {
            Some(a2) => {
                acc = a2;
            },
            None => {
                proof {
                    assert(post > 0x8000_0000);
                    if all_digits(ds) {
                        lemma_digits_val_prefix_le(ds, i - start + 1);
                        assert(digits_val(ds) >= post);
                    }
                }
                return None;
            },
        }
        i += 1;
    }
    proof {
        assert(ds.take(n - start) =~= ds);
        assert(is_int_literal(s@));
        assert(acc as int == -digits_val(ds));
    }
    if neg {
        proof {
            assert(int_literal_val(s@) == acc as int);
        }
        Some(acc)
    } else {
        proof {
            assert(int_literal_val(s@) == -(acc as int));
        }
        if acc == i32::MIN {
            return None;
        }
        Some(-acc)
    }
}

} // verus!
