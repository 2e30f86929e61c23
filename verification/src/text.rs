//! Text primitives the ledger is specified over: decimal rendering and
//! parsing of unsigned numbers, and the lexicographic (code-point) order on
//! strings that the organization listing is sorted by.

use vstd::prelude::*;

verus! {

use crate::error::ContractError;

/// The character for one decimal digit.
pub open spec fn digit_char(d: int) -> char {
    if d == 0 {
        '0'
    } else if d == 1 {
        '1'
    } else if d == 2 {
        '2'
    } else if d == 3 {
        '3'
    } else if d == 4 {
        '4'
    } else if d == 5 {
        '5'
    } else if d == 6 {
        '6'
    } else if d == 7 {
        '7'
    } else if d == 8 {
        '8'
    } else {
        '9'
    }
}

/// The decimal rendering of `n`, most significant digit first, with no
/// leading zeros (except for `n == 0`, rendered as "0").
pub open spec fn dec_of(n: nat) -> Seq<char>
    decreases n,
{
    if n < 10 {
        seq![digit_char(n as int)]
    } else {
        dec_of(n / 10).push(digit_char((n % 10) as int))
    }
}

/// Whether `c` is an ASCII decimal digit.
pub open spec fn is_dec_digit(c: char) -> bool {
    48 <= c as int <= 57
}

/// The value of a digit character.
pub open spec fn digit_value(c: char) -> int {
    c as int - 48
}

/// The number denoted by an all-digit string, most significant digit first.
pub open spec fn dec_value(s: Seq<char>) -> nat
    decreases s.len(),
{
    if s.len() == 0 {
        0
    } else {
        (dec_value(s.drop_last()) * 10 + (if 0 <= digit_value(s.last()) {
            digit_value(s.last())
        } else {
            0
        })) as nat
    }
}

/// Appends the single digit `d` to `s`.
fn push_digit(s: &mut String, d: u8)
    requires
        d < 10,
    ensures
        final(s)@ == old(s)@.push(digit_char(d as int)),
{
    if d == 0 {
        proof {
            reveal_strlit("0");
        }
        s.append("0");
        assert(final(s)@ =~= old(s)@.push('0'));
    } else if d == 1 {
        proof {
            reveal_strlit("1");
        }
        s.append("1");
        assert(final(s)@ =~= old(s)@.push('1'));
    } else if d == 2 {
        proof {
            reveal_strlit("2");
        }
        s.append("2");
        assert(final(s)@ =~= old(s)@.push('2'));
    } else if d == 3 {
        proof {
            reveal_strlit("3");
        }
        s.append("3");
        assert(final(s)@ =~= old(s)@.push('3'));
    } else if d == 4 {
        proof {
            reveal_strlit("4");
        }
        s.append("4");
        assert(final(s)@ =~= old(s)@.push('4'));
    } else if d == 5 {
        proof {
            reveal_strlit("5");
        }
        s.append("5");
        assert(final(s)@ =~= old(s)@.push('5'));
    } else if d == 6 {
        proof {
            reveal_strlit("6");
        }
        s.append("6");
        assert(final(s)@ =~= old(s)@.push('6'));
    } else if d == 7 {
        proof {
            reveal_strlit("7");
        }
        s.append("7");
        assert(final(s)@ =~= old(s)@.push('7'));
    } else if d == 8 {
        proof {
            reveal_strlit("8");
        }
        s.append("8");
        assert(final(s)@ =~= old(s)@.push('8'));
    } else {
        proof {
            reveal_strlit("9");
        }
        s.append("9");
        assert(final(s)@ =~= old(s)@.push('9'));
    }
}

/// The digit characters of `ds`, read back to front.
pub open spec fn rev_digit_chars(ds: Seq<u8>) -> Seq<char>
    decreases ds.len(),
{
    if ds.len() == 0 {
        Seq::empty()
    } else {
        seq![digit_char(ds.last() as int)] + rev_digit_chars(ds.drop_last())
    }
}

proof fn lemma_rev_digit_chars_len(ds: Seq<u8>)
    ensures
        rev_digit_chars(ds).len() == ds.len(),
    decreases ds.len(),
{
    if ds.len() > 0 {
        lemma_rev_digit_chars_len(ds.drop_last());
    }
}

proof fn lemma_rev_digit_chars_index(ds: Seq<u8>, k: int)
    requires
        0 <= k < ds.len(),
    ensures
        rev_digit_chars(ds).len() == ds.len(),
        rev_digit_chars(ds)[k] == digit_char(ds[ds.len() - 1 - k] as int),
    decreases ds.len(),
{
    lemma_rev_digit_chars_len(ds);
    lemma_rev_digit_chars_len(ds.drop_last());
    if k > 0 {
        lemma_rev_digit_chars_index(ds.drop_last(), k - 1);
    }
}

/// Renders `n` in decimal, most significant digit first.
pub fn dec_string(n: u128) -> (s: String)
    ensures
        s@ == dec_of(n as nat),
{
    let mut digits: Vec<u8> = Vec::new();
    digits.push((n % 10) as u8);
    let mut m: u128 = n / 10;
    proof {
        assert(rev_digit_chars(Seq::<u8>::empty()) =~= Seq::<char>::empty());
        assert(digits@.drop_last() =~= Seq::<u8>::empty());
        assert(rev_digit_chars(digits@) =~= seq![digit_char((n % 10) as int)]);
        if n >= 10 {
            assert(dec_of(n as nat) =~= dec_of((n / 10) as nat) + rev_digit_chars(digits@));
        } else {
            assert(dec_of(n as nat) =~= rev_digit_chars(digits@));
        }
    }
    while m != 0
        invariant
            digits@.len() >= 1,
            forall|k: int| 0 <= k < digits@.len() ==> digits@[k] < 10,
            m > 0 ==> dec_of(n as nat) =~= dec_of(m as nat) + rev_digit_chars(digits@),
            m == 0 ==> dec_of(n as nat) =~= rev_digit_chars(digits@),
        decreases m,
    {
        let ghost pre = digits@;
        let ghost m0 = m as nat;
        digits.push((m % 10) as u8);
        m = m / 10;
        proof {
            assert(digits@.drop_last() =~= pre);
            assert(rev_digit_chars(digits@) =~= seq![digit_char((m0 % 10) as int)]
                + rev_digit_chars(pre));
            if m > 0 {
                assert(dec_of(m0) =~= dec_of((m0 / 10)).push(digit_char((m0 % 10) as int)));
                assert(dec_of(m0 / 10) + rev_digit_chars(digits@) =~= dec_of(m0)
                    + rev_digit_chars(pre));
            } else {
                assert(dec_of(m0) =~= seq![digit_char(m0 as int)]);
            }
        }
    }
    let n_digits = digits.len();
    let mut s = String::new();
    let mut i: usize = n_digits;
    while i > 0
        invariant
            n_digits == digits@.len(),
            i <= n_digits,
            forall|k: int| 0 <= k < digits@.len() ==> digits@[k] < 10,
            dec_of(n as nat) =~= rev_digit_chars(digits@),
            s@.len() == n_digits - i,
            forall|k: int|
                0 <= k < s@.len() ==> s@[k] == digit_char(digits@[n_digits - 1 - k] as int),
        decreases i,
    {
        i = i - 1;
        push_digit(&mut s, digits[i]);
    }
    proof {
        lemma_rev_digit_chars_len(digits@);
        assert forall|k: int| 0 <= k < digits@.len() implies rev_digit_chars(digits@)[k]
            == digit_char(digits@[digits@.len() - 1 - k] as int) by {
            lemma_rev_digit_chars_index(digits@, k);
        }
        assert(s@ =~= rev_digit_chars(digits@));
    }
    s
}

/// `dec_value` of a longer prefix never decreases.
proof fn lemma_dec_value_prefix_le(s: Seq<char>, i: int)
    requires
        0 <= i <= s.len(),
    ensures
        dec_value(s.take(i)) <= dec_value(s),
    decreases s.len() - i,
{
    if i < s.len() {
        lemma_dec_value_prefix_le(s, i + 1);
        assert(s.take(i + 1).drop_last() =~= s.take(i));
        assert(dec_value(s.take(i)) <= dec_value(s.take(i + 1)));
    } else {
        assert(s.take(i) =~= s);
    }
}

/// Parses a decimal numeral. Succeeds exactly on nonempty all-digit strings
/// whose value fits in 128 bits, and then returns that value.
pub fn parse_decimal(s: &str) -> (r: Result<u128, ContractError>)
    ensures
        match r {
            Ok(v) => s@.len() > 0 && (forall|k: int| 0 <= k < s@.len() ==> is_dec_digit(s@[k]))
                && v as nat == dec_value(s@),
            Err(e) => e == ContractError::InvalidNumericInput && (s@.len() == 0 || (exists|k: int|
                0 <= k < s@.len() && !is_dec_digit(s@[k])) || dec_value(s@) > u128::MAX),
        },
{
    let len = s.unicode_len();
    if len == 0 {
        return Err(ContractError::InvalidNumericInput);
    }
    let mut value: u128 = 0;
    let mut i: usize = 0;
    while i < len
        invariant
            len == s@.len(),
            i <= len,
            forall|k: int| 0 <= k < i ==> is_dec_digit(s@[k]),
            value as nat == dec_value(s@.take(i as int)),
        decreases len - i,
    {
        let c = s.get_char(i);
        let code = c as u32;
        if code < 48 || code > 57 {
            return Err(ContractError::InvalidNumericInput);
        }
        let d = (code - 48) as u128;
        proof {
            assert(s@.take(i + 1).drop_last() =~= s@.take(i as int));
            assert(s@.take(i + 1).last() == s@[i as int]);
        }
        if value > (u128::MAX - d) / 10 {
            proof {
                assert(dec_value(s@.take(i + 1)) == value * 10 + d);
                assert(value * 10 + d > u128::MAX) by (nonlinear_arith)
                    requires
                        value > (u128::MAX - d) / 10,
                        d <= 9,
                ;
                lemma_dec_value_prefix_le(s@, i + 1);
            }
            return Err(ContractError::InvalidNumericInput);
        }
        proof {
            assert(value * 10 + d <= u128::MAX) by (nonlinear_arith)
                requires
                    value <= (u128::MAX - d) / 10,
                    d <= 9,
            ;
        }
        value = value * 10 + d;
        i = i + 1;
    }
    proof {
        assert(s@.take(len as int) =~= s@);
    }
    Ok(value)
}

/// An ASCII uppercase letter folded to lowercase; anything else unchanged.
pub open spec fn fold_char(c: char) -> char {
    if 65 <= c as int <= 90 {
        ((c as u8) + 32) as char
    } else {
        c
    }
}

/// The string with its ASCII uppercase letters folded to lowercase. The
/// accept/deny decision words are matched against this folding.
pub open spec fn ascii_lower(s: Seq<char>) -> Seq<char> {
    s.map(|_i, c: char| fold_char(c))
}

/// Whether `s`, folded to ASCII lowercase, equals `t` exactly.
pub fn folded_equals(s: &str, t: &str) -> (b: bool)
    ensures
        b == (ascii_lower(s@) == t@),
{
    let s_len = s.unicode_len();
    let t_len = t.unicode_len();
    if s_len != t_len {
        proof {
            assert(ascii_lower(s@).len() == s@.len());
        }
        return false;
    }
    let mut i: usize = 0;
    while i < s_len
        invariant
            s_len == s@.len(),
            s_len == t@.len(),
            i <= s_len,
            forall|k: int| 0 <= k < i ==> ascii_lower(s@)[k] == t@[k],
        decreases s_len - i,
    {
        let c = s.get_char(i);
        let u = c as u32;
        let f: char = if u >= 65 && u <= 90 {
            ((c as u8) + 32) as char
        } else {
            c
        };
        if f != t.get_char(i) {
            proof {
                assert(ascii_lower(s@)[i as int] == fold_char(s@[i as int]));
                assert(ascii_lower(s@)[i as int] != t@[i as int]);
            }
            return false;
        }
        i = i + 1;
    }
    proof {
        assert(ascii_lower(s@) =~= t@);
    }
    true
}

/// The strict lexicographic order on strings, by code point. This is the
/// order the organization listing is kept and paginated in; for the usual
/// ASCII bech32 addresses it coincides with byte order.
pub open spec fn lex_lt(a: Seq<char>, b: Seq<char>) -> bool
    decreases a.len(),
{
    if b.len() == 0 {
        false
    } else if a.len() == 0 {
        true
    } else if (a[0] as int) < (b[0] as int) {
        true
    } else if a[0] == b[0] {
        lex_lt(a.skip(1), b.skip(1))
    } else {
        false
    }
}

/// Exactly one of `lex_lt(a, b)`, `lex_lt(b, a)`, `a == b` holds.
pub proof fn lemma_lex_trichotomy(a: Seq<char>, b: Seq<char>)
    ensures
        lex_lt(a, b) || lex_lt(b, a) || a == b,
        lex_lt(a, b) ==> !lex_lt(b, a) && a != b,
        lex_lt(b, a) ==> !lex_lt(a, b) && a != b,
    decreases a.len(),
{
    if a.len() == 0 && b.len() == 0 {
        assert(a =~= b);
    } else if a.len() > 0 && b.len() > 0 {
        if a[0] == b[0] {
            lemma_lex_trichotomy(a.skip(1), b.skip(1));
            if a.skip(1) == b.skip(1) {
                assert forall|k: int| 0 <= k < a.len() implies a[k] == b[k] by {
                    if k >= 1 {
                        assert(a.skip(1)[k - 1] == a[k]);
                        assert(b.skip(1)[k - 1] == b[k]);
                    }
                }
                assert(a =~= b);
            }
            if a == b {
                assert(a.skip(1) =~= b.skip(1));
            }
        } else {
            assert((a[0] as int) != (b[0] as int));
        }
    }
}

/// The lexicographic order is transitive.
pub proof fn lemma_lex_transitive(a: Seq<char>, b: Seq<char>, c: Seq<char>)
    requires
        lex_lt(a, b),
        lex_lt(b, c),
    ensures
        lex_lt(a, c),
    decreases a.len(),
{
    if a.len() > 0 && b.len() > 0 && c.len() > 0 && a[0] == b[0] && b[0] == c[0] {
        lemma_lex_transitive(a.skip(1), b.skip(1), c.skip(1));
    }
}

proof fn lemma_lex_lt_from_diff(a: Seq<char>, b: Seq<char>, i: int)
    requires
        0 <= i < a.len(),
        i < b.len(),
        forall|k: int| 0 <= k < i ==> a[k] == b[k],
        (a[i] as int) < (b[i] as int),
    ensures
        lex_lt(a, b),
    decreases i,
{
    if i > 0 {
        lemma_lex_lt_from_diff(a.skip(1), b.skip(1), i - 1);
    }
}

proof fn lemma_lex_lt_from_prefix(a: Seq<char>, b: Seq<char>)
    requires
        a.len() < b.len(),
        forall|k: int| 0 <= k < a.len() ==> a[k] == b[k],
    ensures
        lex_lt(a, b),
    decreases a.len(),
{
    if a.len() > 0 {
        lemma_lex_lt_from_prefix(a.skip(1), b.skip(1));
    }
}

/// The outcome of comparing two strings.
#[derive(Clone, Copy, Debug, PartialEq, Eq, Structural)]
pub enum StrCmp {
    Less,
    Equal,
    Greater,
}

/// Compares two strings in the lexicographic code-point order.
pub fn compare_str(a: &str, b: &str) -> (c: StrCmp)
    ensures
        c == StrCmp::Less <==> lex_lt(a@, b@),
        c == StrCmp::Greater <==> lex_lt(b@, a@),
        c == StrCmp::Equal <==> a@ == b@,
{
    let a_len = a.unicode_len();
    let b_len = b.unicode_len();
    let mut i: usize = 0;
    while i < a_len && i < b_len
        invariant
            a_len == a@.len(),
            b_len == b@.len(),
            i <= a_len,
            i <= b_len,
            forall|k: int| 0 <= k < i ==> a@[k] == b@[k],
        decreases a_len - i,
    {
        let ca = a.get_char(i);
        let cb = b.get_char(i);
        if (ca as u32) < (cb as u32) {
            proof {
                lemma_lex_lt_from_diff(a@, b@, i as int);
                lemma_lex_trichotomy(a@, b@);
            }
            return StrCmp::Less;
        }
        if (cb as u32) < (ca as u32) {
            proof {
                lemma_lex_lt_from_diff(b@, a@, i as int);
                lemma_lex_trichotomy(a@, b@);
            }
            return StrCmp::Greater;
        }
        proof {
            assert((ca as u32) == (cb as u32));
            assert(ca == cb);
        }
        i = i + 1;
    }
    if a_len < b_len {
        proof {
            lemma_lex_lt_from_prefix(a@, b@);
            lemma_lex_trichotomy(a@, b@);
        }
        StrCmp::Less
    } else if b_len < a_len {
        proof {
            lemma_lex_lt_from_prefix(b@, a@);
            lemma_lex_trichotomy(a@, b@);
        }
        StrCmp::Greater
    } else {
        proof {
            assert(a@ =~= b@);
            lemma_lex_trichotomy(a@, b@);
        }
        StrCmp::Equal
    }
}

} // verus!
