//! Small verified string utilities the data model is built on: exact string
//! comparison, prefix tests, and parsing the decimal index that trails keys
//! like slot or wearable names.

use vstd::prelude::*;

verus! {

/// Exact equality of two strings, character by character.
pub fn str_eq(a: &str, b: &str) -> (r: bool)
    ensures
        r == (a@ == b@),
{
    let na = a.unicode_len();
    let nb = b.unicode_len();
    if na != nb {
        return false;
    }
    let mut i: usize = 0;
    while i < na
        invariant
            na == a@.len(),
            na == b@.len(),
            0 <= i <= na,
            forall|j: int| 0 <= j < i ==> a@[j] == b@[j],
        decreases na - i,
    {
        let ca = a.get_char(i);
        let cb = b.get_char(i);
        if ca != cb {
            return false;
        }
        i = i + 1;
    }
    proof {
        assert(a@ =~= b@);
    }
    true
}

/// `s` begins with `prefix`.
pub open spec fn spec_has_prefix(s: Seq<char>, prefix: Seq<char>) -> bool {
    s.len() >= prefix.len() && s.take(prefix.len() as int) == prefix
}

/// Whether `s` begins with `prefix`, character by character.
pub fn str_has_prefix(s: &str, prefix: &str) -> (r: bool)
    ensures
        r == spec_has_prefix(s@, prefix@),
{
    let np = prefix.unicode_len();
    let ns = s.unicode_len();
    if ns < np {
        return false;
    }
    let mut i: usize = 0;
    while i < np
        invariant
            np == prefix@.len(),
            ns == s@.len(),
            np <= ns,
            0 <= i <= np,
            forall|j: int| 0 <= j < i ==> s@[j] == prefix@[j],
        decreases np - i,
    {
        let cs = s.get_char(i);
        let cp = prefix.get_char(i);
        if cs != cp {
            proof {
                assert(s@.take(np as int)[i as int] != prefix@[i as int]);
            }
            return false;
        }
        i = i + 1;
    }
    proof {
        assert(s@.take(np as int) =~= prefix@);
    }
    true
}

/// `c` is an ASCII decimal digit.
pub open spec fn is_digit_char(c: char) -> bool {
    48 <= c as int <= 57
}

/// Every character of `s` is an ASCII decimal digit.
pub open spec fn all_digit_chars(s: Seq<char>) -> bool {
    forall|k: int| 0 <= k < s.len() ==> is_digit_char(#[trigger] s[k])
}

/// The number the decimal digits `s` denote.
pub open spec fn digits_value(s: Seq<char>) -> int
    decreases s.len(),
{
    if s.len() == 0 {
        0
    } else {
        digits_value(s.drop_last()) * 10 + (s.last() as int - 48)
    }
}

/// Digit strings denote nonnegative numbers.
pub proof fn lemma_digits_value_nonneg(s: Seq<char>)
    requires
        all_digit_chars(s),
    ensures
        digits_value(s) >= 0,
    decreases s.len(),
{
    if s.len() > 0 {
        assert(all_digit_chars(s.drop_last()));
        lemma_digits_value_nonneg(s.drop_last());
    }
}

/// A longer digit string never denotes a smaller number.
pub proof fn lemma_digits_value_monotone(s: Seq<char>, i: int)
    requires
        all_digit_chars(s),
        0 <= i <= s.len(),
    ensures
        0 <= digits_value(s.take(i)) <= digits_value(s),
        i < s.len() ==> digits_value(s.take(i + 1)) == digits_value(s.take(i)) * 10 + (s[i] as int
            - 48),
    decreases s.len() - i,
{
    if i == s.len() {
        assert(s.take(i) =~= s);
        lemma_digits_value_nonneg(s);
    } else {
        assert(s.take(i + 1).drop_last() =~= s.take(i));
        assert(s.take(i + 1).last() == s[i]);
        assert(all_digit_chars(s.take(i)));
        lemma_digits_value_nonneg(s.take(i));
        lemma_digits_value_monotone(s, i + 1);
    }
}

/// Parse `s` from position `from` on as decimal digits denoting a number up
/// to 255: the index part of keys like `slot3` or `wearable10`.
pub fn parse_digits_u8(s: &str, from: usize) -> (r: Option<u8>)
    requires
        from <= s@.len(),
    ensures
        ({
            let rest = s@.skip(from as int);
            match r {
                Some(n) => rest.len() > 0 && all_digit_chars(rest) && digits_value(rest) <= 255
                    && n as int == digits_value(rest),
                None => !(rest.len() > 0 && all_digit_chars(rest) && digits_value(rest) <= 255),
            }
        }),
{
    let n = s.unicode_len();
    if from == n {
        return None;
    }
    let ghost rest = s@.skip(from as int);
    let mut value: u32 = 0;
    let mut i: usize = from;
    while i < n
        invariant
            n == s@.len(),
            from <= i <= n,
            from < n,
            rest == s@.skip(from as int),
            all_digit_chars(rest.take(i - from)),
            value <= 255,
            value as int == digits_value(rest.take(i - from)),
        decreases n - i,
    {
        let c = s.get_char(i);
        let code = c as u32;
        if code < 48 || code > 57 {
            proof {
                assert(rest[i - from] == s@[i as int]);
                assert(!is_digit_char(rest[i - from]));
            }
            return None;
        }
        proof {
            assert(rest.take(i - from + 1).drop_last() =~= rest.take(i - from));
            assert(rest.take(i - from + 1).last() == rest[i - from]);
            assert(rest[i - from] == s@[i as int]);
        }
        let d = code - 48;
        let grown = value * 10 + d;
        if grown > 255 {
            proof {
                if all_digit_chars(rest) && digits_value(rest) <= 255 {
                    lemma_digits_value_monotone(rest, i - from + 1);
                    assert(digits_value(rest.take(i - from + 1)) <= digits_value(rest));
                    assert(false);
                }
            }
            return None;
        }
        value = grown;
        i = i + 1;
    }
    proof {
        assert(rest.take(n - from) =~= rest);
    }
    Some(value as u8)
}

} // verus!
