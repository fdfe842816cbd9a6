//! Character-level text helpers shared by the name decoding and the overlay
//! decisions, stated over the `Seq<char>` view of `str` and `String`.
use vstd::prelude::*;
use vstd::utf8::{
    valid_utf8, decode_utf8, encode_utf8, is_ascii_chars, is_ascii_chars_encode_utf8,
    encode_utf8_valid_utf8, encode_utf8_decode_utf8,
};
use vstd::string::StrSliceExecFns;

verus! {

/// `needle` occurs as a contiguous run of characters in `hay`.
pub open spec fn contains_text(hay: Seq<char>, needle: Seq<char>) -> bool {
    exists|i: int|
        0 <= i && i + needle.len() <= hay.len() && #[trigger] hay.subrange(i, i + needle.len())
            == needle
}

/// The position of the last occurrence of `c` in `s`, if any.
pub open spec fn last_index_of(s: Seq<char>, c: char) -> Option<int>
    decreases s.len(),
{
    if s.len() == 0 {
        None
    } else if s.last() == c {
        Some(s.len() - 1)
    } else {
        last_index_of(s.drop_last(), c)
    }
}

/// The character that shows decimal digit `d`.
pub open spec fn digit_char(d: nat) -> char {
    ((48 + d) as u32) as char
}

/// The decimal digits of `n`, most significant first, without leading zeros.
pub open spec fn decimal_chars(n: nat) -> Seq<char>
    decreases n,
{
    if n < 10 {
        seq![digit_char(n)]
    } else {
        decimal_chars(n / 10).push(digit_char(n % 10))
    }
}

pub(crate) proof fn lemma_last_index_of_bounds(s: Seq<char>, c: char)
    ensures
        last_index_of(s, c) matches Some(i) ==> 0 <= i < s.len() && s[i] == c,
        last_index_of(s, c) matches Some(i) ==> forall|j: int| i < j < s.len() ==> s[j] != c,
        last_index_of(s, c) is None ==> forall|j: int| 0 <= j < s.len() ==> s[j] != c,
    decreases s.len(),
{
    if s.len() > 0 && s.last() != c {
        lemma_last_index_of_bounds(s.drop_last(), c);
        assert forall|j: int| 0 <= j < s.len() - 1 implies s.drop_last()[j] == s[j] by {}
    }
}

pub(crate) proof fn lemma_decimal_chars_are_digits(n: nat)
    ensures
        decimal_chars(n).len() >= 1,
        forall|k: int| 0 <= k < decimal_chars(n).len() ==> '0' <= #[trigger] decimal_chars(n)[k] <= '9',
    decreases n,
{
    if n >= 10 {
        lemma_decimal_chars_are_digits(n / 10);
    }
}

/// The number that a run of decimal digit characters spells.
pub open spec fn decimal_value(s: Seq<char>) -> int
    decreases s.len(),
{
    if s.len() == 0 {
        0
    } else {
        decimal_value(s.drop_last()) * 10 + (s.last() as int - 48)
    }
}

/// The decimal digits of `n` spell `n`, and start with a zero only when `n` is 0.
pub proof fn law_decimal_chars_spell_n(n: nat)
    ensures
        decimal_value(decimal_chars(n)) == n,
        decimal_chars(n)[0] == '0' ==> n == 0,
        forall|k: int| 0 <= k < decimal_chars(n).len() ==> '0' <= #[trigger] decimal_chars(n)[k] <= '9',
    decreases n,
{
    lemma_decimal_chars_are_digits(n);
    if n >= 10 {
        law_decimal_chars_spell_n(n / 10);
        let p = decimal_chars(n / 10);
        assert(decimal_chars(n).drop_last() =~= p);
        assert(digit_char(n % 10) as int == 48 + n % 10);
        assert(decimal_chars(n).last() == digit_char(n % 10));
        assert(decimal_chars(n)[0] == p[0]);
        assert((n / 10) * 10 + n % 10 == n) by (nonlinear_arith);
        assert(decimal_value(decimal_chars(n)) == decimal_value(p) * 10 + (n % 10) as int);
    } else {
        assert(digit_char(n) as int == 48 + n);
        assert(seq![digit_char(n)].drop_last() =~= Seq::<char>::empty());
        assert(decimal_value(Seq::<char>::empty()) == 0);
        assert(decimal_value(decimal_chars(n)) == decimal_value(Seq::<char>::empty()) * 10 + (
        digit_char(n) as int - 48));
    }
}

/// Whether `needle` occurs in `hay`.
pub(crate) fn text_contains(hay: &str, needle: &str) -> (r: bool)
    ensures
        r == contains_text(hay@, needle@),
{
    let n = hay.unicode_len();
    let m = needle.unicode_len();
    if m > n {
        assert forall|i: int| 0 <= i && i + needle@.len() <= hay@.len() implies
            #[trigger] hay@.subrange(i, i + needle@.len()) != needle@ by {}
        return false;
    }
    let mut i: usize = 0;
    while i <= n - m
        invariant
            n == hay@.len(),
            m == needle@.len(),
            m <= n,
            i <= n - m + 1,
            forall|k: int| 0 <= k < i ==> #[trigger] hay@.subrange(k, k + m as int) != needle@,
        decreases n - m + 1 - i,
    {
        let mut j: usize = 0;
        let mut same = true;
        while j < m
            invariant
                n == hay@.len(),
                m == needle@.len(),
                i + m <= n,
                j <= m,
                same == (forall|t: int| 0 <= t < j ==> hay@[i + t] == needle@[t]),
            decreases m - j,
        {
            if hay.get_char(i + j) != needle.get_char(j) {
                same = false;
            }
            j = j + 1;
        }
        if same {
            assert(hay@.subrange(i as int, i + m as int) =~= needle@);
            return true;
        }
        proof {
            let t = choose|t: int| 0 <= t < m && hay@[i + t] != needle@[t];
            assert(hay@.subrange(i as int, i + m as int)[t] != needle@[t]);
        }
        i = i + 1;
    }
    false
}

/// Whether `a` and `b` hold the same characters.
pub(crate) fn text_equals(a: &str, b: &str) -> (r: bool)
    ensures
        r == (a@ == b@),
{
    let n = a.unicode_len();
    if n != b.unicode_len() {
        return false;
    }
    let mut i: usize = 0;
    while i < n
        invariant
            n == a@.len(),
            n == b@.len(),
            i <= n,
            forall|k: int| 0 <= k < i ==> a@[k] == b@[k],
        decreases n - i,
    {
        if a.get_char(i) != b.get_char(i) {
            return false;
        }
        i = i + 1;
    }
    assert(a@ =~= b@);
    true
}

/// The position of the last `c` in `s`, counted in characters.
pub(crate) fn find_last(s: &str, c: char) -> (r: Option<usize>)
    ensures
        match r {
            Some(i) => last_index_of(s@, c) == Some(i as int),
            None => last_index_of(s@, c) is None,
        },
{
    let n = s.unicode_len();
    let mut found: Option<usize> = None;
    let mut i: usize = 0;
    while i < n
        invariant
            n == s@.len(),
            i <= n,
            match found {
                Some(k) => last_index_of(s@.take(i as int), c) == Some(k as int),
                None => last_index_of(s@.take(i as int), c) is None,
            },
        decreases n - i,
    {
        assert(s@.take(i as int + 1).drop_last() =~= s@.take(i as int));
        if s.get_char(i) == c {
            found = Some(i);
        }
        i = i + 1;
    }
    assert(s@.take(n as int) =~= s@);
    found
}

/// Calls `String::from_utf8`. Claimed: it succeeds exactly when `bytes` are
/// valid UTF-8, and the string then holds the characters they encode.
#[verifier::external_body]
pub(crate) fn string_from_utf8(bytes: Vec<u8>) -> (r: Option<String>)
    ensures
        match r {
            Some(s) => valid_utf8(bytes@) && s@ == decode_utf8(bytes@),
            None => !valid_utf8(bytes@),
        },
{
    String::from_utf8(bytes).ok()
}

/// The ASCII bytes of the decimal digits of `n`.
pub open spec fn decimal_bytes(n: nat) -> Seq<u8> {
    decimal_chars(n).map_values(|c: char| c as u8)
}

proof fn lemma_decimal_bytes_ascii(n: nat)
    ensures
        valid_utf8(decimal_bytes(n)),
        decode_utf8(decimal_bytes(n)) == decimal_chars(n),
{
    let chars = decimal_chars(n);
    lemma_decimal_chars_are_digits(n);
    assert(is_ascii_chars(chars));
    is_ascii_chars_encode_utf8(chars);
    assert(encode_utf8(chars) =~= decimal_bytes(n));
    encode_utf8_valid_utf8(chars);
    encode_utf8_decode_utf8(chars);
}

/// Appends the decimal digits of `n` to `out`, as ASCII bytes.
fn push_decimal(n: u32, out: &mut Vec<u8>)
    ensures
        final(out)@ == old(out)@ + decimal_bytes(n as nat),
    decreases n,
{
    if n >= 10 {
        push_decimal(n / 10, out);
    }
    let digit = n % 10;
    out.push((48 + digit) as u8);
    proof {
        let d = digit as nat;
        assert(digit_char(d) as u8 == (48 + digit) as u8);
        if n >= 10 {
            assert(decimal_chars(n as nat) == decimal_chars((n / 10) as nat).push(digit_char(d)));
            assert(decimal_bytes(n as nat) =~= decimal_bytes((n / 10) as nat).push(digit_char(d) as u8));
        } else {
            assert(decimal_bytes(n as nat) =~= seq![digit_char(d) as u8]);
        }
        assert(out@ =~= old(out)@ + decimal_bytes(n as nat));
    }
}

/// The decimal digits of `n`, most significant first, without leading zeros.
pub(crate) fn decimal_string(n: u32) -> (r: String)
    ensures
        r@ == decimal_chars(n as nat),
{
    let mut bytes: Vec<u8> = Vec::new();
    push_decimal(n, &mut bytes);
    proof {
        assert(bytes@ =~= decimal_bytes(n as nat));
        lemma_decimal_bytes_ascii(n as nat);
    }
    match string_from_utf8(bytes) {
        Some(s) => s,
        None => {
            assert(false);
            String::new()
        },
    }
}

} // verus!
