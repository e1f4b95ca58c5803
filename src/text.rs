//! Byte-level text primitives: substring search, decimal fields and UTF-8 checks.
use vstd::prelude::*;
use vstd::string::StringSliceAdditionalSpecFns;

verus! {

/// `tok` occurs in `hay` starting at offset `p`.
pub open spec fn occurs_at(hay: Seq<u8>, tok: Seq<u8>, p: int) -> bool {
    0 <= p && p + tok.len() <= hay.len() && hay.subrange(p, p + tok.len()) == tok
}

/// The first offset at or after `i` where `tok` occurs in `hay`.
pub open spec fn first_from(hay: Seq<u8>, tok: Seq<u8>, i: int) -> Option<int>
    decreases hay.len() + 1 - i,
{
    if i < 0 || i + tok.len() > hay.len() {
        None
    } else if occurs_at(hay, tok, i) {
        Some(i)
    } else {
        first_from(hay, tok, i + 1)
    }
}

/// The first offset where `tok` occurs in `hay`.
pub open spec fn first_occurrence(hay: Seq<u8>, tok: Seq<u8>) -> Option<int> {
    first_from(hay, tok, 0)
}

/// `first_from` finds an occurrence, and none lies between `i` and it.
pub proof fn lemma_first_from(hay: Seq<u8>, tok: Seq<u8>, i: int)
    requires
        0 <= i,
    ensures
        match first_from(hay, tok, i) {
            Some(p) => i <= p && occurs_at(hay, tok, p) && forall|q: int|
                i <= q < p ==> !occurs_at(hay, tok, q),
            None => forall|q: int| i <= q ==> !occurs_at(hay, tok, q),
        },
    decreases hay.len() + 1 - i,
{
    if i + tok.len() > hay.len() {
    } else if occurs_at(hay, tok, i) {
    } else {
        lemma_first_from(hay, tok, i + 1);
    }
}

/// Whether `tok` occurs in `hay` at offset `p`.
pub fn matches_at(hay: &[u8], tok: &[u8], p: usize) -> (r: bool)
    ensures
        r == occurs_at(hay@, tok@, p as int),
{
    if p > hay.len() || tok.len() > hay.len() - p {
        return false;
    }
    let n = hay.len();
    let mut j: usize = 0;
    while j < tok.len()
        invariant
            n == hay@.len(),
            p + tok@.len() <= n,
            j <= tok@.len(),
            forall|k: int| 0 <= k < j ==> hay@[p + k] == tok@[k],
        decreases tok@.len() - j,
    {
        if hay[p + j] != tok[j] {
            assert(hay@.subrange(p as int, p + tok@.len())[j as int] != tok@[j as int]);
            return false;
        }
        j = j + 1;
    }
    assert(hay@.subrange(p as int, p + tok@.len()) =~= tok@);
    true
}

/// The first offset at or after `from` where `tok` occurs in `hay`.
pub fn find_from(hay: &[u8], tok: &[u8], from: usize) -> (r: Option<usize>)
    ensures
        r matches Some(p) ==> first_from(hay@, tok@, from as int) == Some(p as int),
        r is None ==> first_from(hay@, tok@, from as int) is None,
{
    if from > hay.len() || tok.len() > hay.len() - from {
        return None;
    }
    let last = hay.len() - tok.len();
    let mut i: usize = from;
    while i <= last
        invariant
            from <= i,
            last + tok@.len() == hay@.len(),
            first_from(hay@, tok@, from as int) == first_from(hay@, tok@, i as int),
        decreases last + 1 - i,
    {
        if matches_at(hay, tok, i) {
            return Some(i);
        }
        if i == last {
            assert(first_from(hay@, tok@, i as int + 1) is None);
            return None;
        }
        i = i + 1;
    }
    None
}

/// The first offset where `tok` occurs in `hay`.
pub fn find(hay: &[u8], tok: &[u8]) -> (r: Option<usize>)
    ensures
        r matches Some(p) ==> first_occurrence(hay@, tok@) == Some(p as int),
        r is None ==> first_occurrence(hay@, tok@) is None,
{
    find_from(hay, tok, 0)
}

/// Whether `tok` occurs anywhere in `hay`.
pub fn contains(hay: &[u8], tok: &[u8]) -> (r: bool)
    ensures
        r == first_occurrence(hay@, tok@) is Some,
        r == exists|p: int| occurs_at(hay@, tok@, p),
{
    proof {
        lemma_first_from(hay@, tok@, 0);
    }
    let r = find(hay, tok).is_some();
    proof {
        if r {
            let p = first_occurrence(hay@, tok@)->0;
            assert(occurs_at(hay@, tok@, p));
        }
    }
    r
}

pub open spec fn is_digit(b: u8) -> bool {
    48 <= b <= 57
}

/// The number of consecutive decimal digits in `s` from offset `i` on.
pub open spec fn digit_run(s: Seq<u8>, i: int) -> nat
    decreases s.len() - i,
{
    if i < 0 || i >= s.len() || !is_digit(s[i]) {
        0
    } else {
        1 + digit_run(s, i + 1)
    }
}

/// The value of the decimal digits `d`.
pub open spec fn decimal_value(d: Seq<u8>) -> nat
    decreases d.len(),
{
    if d.len() == 0 {
        0
    } else {
        decimal_value(d.drop_last()) * 10 + (d.last() - 48) as nat
    }
}

/// The longest number of digits a decimal field may have.
pub const MAX_FIELD_DIGITS: usize = 9;

/// A decimal field that starts at offset `i` of `s`: its value and where it ends.
/// It has one to nine digits.
pub open spec fn field_at(s: Seq<u8>, i: int) -> Option<(nat, int)> {
    let n = digit_run(s, i);
    if n == 0 || n > MAX_FIELD_DIGITS {
        None
    } else {
        Some((decimal_value(s.subrange(i, i + n)), i + n))
    }
}

proof fn lemma_digit_run_step(s: Seq<u8>, i: int, j: int)
    requires
        0 <= i <= j <= s.len(),
        forall|k: int| i <= k < j ==> is_digit(#[trigger] s[k]),
    ensures
        digit_run(s, i) == (j - i) + digit_run(s, j),
    decreases j - i,
{
    if i < j {
        assert(is_digit(s[i]));
        lemma_digit_run_step(s, i + 1, j);
    }
}

pub open spec fn pow10(n: nat) -> nat
    decreases n,
{
    if n == 0 {
        1
    } else {
        10 * pow10((n - 1) as nat)
    }
}

/// Reads the decimal field that starts at offset `i` of `s`.
pub fn parse_field(s: &[u8], i: usize) -> (r: Option<(u32, usize)>)
    ensures
        match field_at(s@, i as int) {
            Some((v, e)) => r matches Some((x, y)) && x as nat == v && y as int == e && v
                < 1_000_000_000,
            None => r is None,
        },
{
    if i >= s.len() {
        return None;
    }
    let mut j: usize = i;
    let mut v: u32 = 0;
    proof {
        reveal_with_fuel(pow10, 10);
    }
    while j < s.len() && 48 <= s[j] && s[j] <= 57 && j - i < MAX_FIELD_DIGITS
        invariant
            i <= j <= s@.len(),
            j - i <= MAX_FIELD_DIGITS,
            forall|k: int| i <= k < j ==> is_digit(#[trigger] s@[k]),
            v as nat == decimal_value(s@.subrange(i as int, j as int)),
            v < pow10((j - i) as nat),
            pow10(8) == 100_000_000,
            pow10(9) == 1_000_000_000,
        decreases s@.len() - j,
    {
        let ghost k = (j - i) as nat;
        proof {
            let d = s@.subrange(i as int, j as int + 1);
            assert(d.drop_last() =~= s@.subrange(i as int, j as int));
            assert(pow10(k + 1) == 10 * pow10(k));
            lemma_pow10_mono(k, 8);
            let p = pow10(k);
            let x = s@[j as int] - 48;
            assert(v * 10 + x < 10 * p) by (nonlinear_arith)
                requires
                    v < p,
                    x < 10,
            ;
        }
        v = v * 10 + (s[j] - 48) as u32;
        j = j + 1;
    }
    proof {
        lemma_digit_run_step(s@, i as int, j as int);
        lemma_pow10_mono((j - i) as nat, 9);
    }
    if j == i {
        return None;
    }
    if j - i == MAX_FIELD_DIGITS && j < s.len() && 48 <= s[j] && s[j] <= 57 {
        proof {
            lemma_digit_run_step(s@, i as int, j as int + 1);
        }
        return None;
    }
    Some((v, j))
}

proof fn lemma_pow10_mono(a: nat, b: nat)
    requires
        a <= b,
    ensures
        pow10(a) <= pow10(b),
    decreases b,
{
    if a < b {
        lemma_pow10_mono(a, (b - 1) as nat);
    }
}

/// The decimal digits of `n`, most significant first, without leading zeros.
pub open spec fn decimal_digits(n: nat) -> Seq<u8>
    decreases n,
{
    if n < 10 {
        seq![(n + 48) as u8]
    } else {
        decimal_digits(n / 10).push((n % 10 + 48) as u8)
    }
}

/// Writes `n` in decimal.
pub fn format_decimal(n: usize) -> (r: Vec<u8>)
    ensures
        r@ == decimal_digits(n as nat),
{
    let mut rev: Vec<u8> = Vec::new();
    let mut m: usize = n;
    while m >= 10
        invariant
            decimal_digits(n as nat) == decimal_digits(m as nat) + rev@.reverse(),
        decreases m,
    {
        let d = (m % 10 + 48) as u8;
        let ghost before = rev@;
        rev.push(d);
        proof {
            assert(rev@.reverse() =~= seq![d] + before.reverse());
            assert(decimal_digits(m as nat) == decimal_digits((m / 10) as nat).push(d));
            assert(decimal_digits(m as nat) + before.reverse() =~= decimal_digits((m / 10) as nat)
                + rev@.reverse());
        }
        m = m / 10;
    }
    let ghost before = rev@;
    rev.push((m + 48) as u8);
    proof {
        assert(rev@.reverse() =~= seq![(m + 48) as u8] + before.reverse());
        assert(decimal_digits(m as nat) == seq![(m + 48) as u8]);
    }
    let mut out: Vec<u8> = Vec::new();
    let mut k: usize = rev.len();
    while k > 0
        invariant
            k <= rev@.len(),
            out@ =~= rev@.subrange(k as int, rev@.len() as int).reverse(),
        decreases k,
    {
        k = k - 1;
        out.push(rev[k]);
        proof {
            assert(out@ =~= rev@.subrange(k as int, rev@.len() as int).reverse());
        }
    }
    proof {
        assert(rev@.subrange(0, rev@.len() as int) =~= rev@);
    }
    out
}

/// Relies on `core::str::from_utf8`, which accepts exactly the well-formed UTF-8 byte sequences.
#[verifier::external_body]
pub(crate) fn is_utf8(bytes: &[u8]) -> (r: bool)
    ensures
        r == vstd::utf8::valid_utf8(bytes@),
{
    core::str::from_utf8(bytes).is_ok()
}

/// The bytes of `s`.
pub fn bytes_of(s: &str) -> (r: Vec<u8>)
    ensures
        r@ == s.spec_bytes(),
{
    vstd::slice::slice_to_vec(s.as_bytes())
}

/// Appends all of `src` to `dst`.
pub fn push_all(dst: &mut Vec<u8>, src: &[u8])
    ensures
        final(dst)@ == old(dst)@ + src@,
{
    let mut i: usize = 0;
    while i < src.len()
        invariant
            i <= src@.len(),
            dst@ == old(dst)@ + src@.subrange(0, i as int),
        decreases src@.len() - i,
    {
        dst.push(src[i]);
        proof {
            assert(src@.subrange(0, i + 1) =~= src@.subrange(0, i as int).push(src@[i as int]));
        }
        i = i + 1;
    }
    proof {
        assert(src@.subrange(0, src@.len() as int) =~= src@);
    }
}

} // verus!
