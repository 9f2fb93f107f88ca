//! Character-level text utilities: prefixes, Unicode whitespace trimming,
//! decimal rendering and decimal parsing.

use vstd::prelude::*;

verus! {

/// `s` begins with `p`.
pub open spec fn starts_with(s: Seq<char>, p: Seq<char>) -> bool {
    s.len() >= p.len() && s.take(p.len() as int) == p
}

/// Unicode `White_Space` property, as `char::is_whitespace` tests it.
pub open spec fn is_unicode_whitespace(c: char) -> bool {
    let v = c as u32;
    ||| 0x09 <= v <= 0x0D
    ||| v == 0x20
    ||| v == 0x85
    ||| v == 0xA0
    ||| v == 0x1680
    ||| 0x2000 <= v <= 0x200A
    ||| v == 0x2028
    ||| v == 0x2029
    ||| v == 0x202F
    ||| v == 0x205F
    ||| v == 0x3000
}

/// `s` without its leading whitespace.
pub open spec fn trim_start(s: Seq<char>) -> Seq<char>
    decreases s.len(),
{
    if s.len() > 0 && is_unicode_whitespace(s[0]) {
        trim_start(s.drop_first())
    } else {
        s
    }
}

/// `s` without its trailing whitespace.
pub open spec fn trim_end(s: Seq<char>) -> Seq<char>
    decreases s.len(),
{
    if s.len() > 0 && is_unicode_whitespace(s.last()) {
        trim_end(s.drop_last())
    } else {
        s
    }
}

/// `s` without leading and trailing whitespace (`str::trim`).
pub open spec fn trim(s: Seq<char>) -> Seq<char> {
    trim_end(trim_start(s))
}

/// An ASCII decimal digit.
pub open spec fn is_digit(c: char) -> bool {
    '0' <= c <= '9'
}

/// Every character of `s` is an ASCII decimal digit.
pub open spec fn all_digits(s: Seq<char>) -> bool {
    forall|i: int| 0 <= i < s.len() ==> is_digit(#[trigger] s[i])
}

/// Value of an ASCII decimal digit.
pub open spec fn digit_value(c: char) -> nat {
    (c as u32 - 48) as nat
}

/// Value of a string of decimal digits.
pub open spec fn digits_value(s: Seq<char>) -> nat
    decreases s.len(),
{
    if s.len() == 0 {
        0
    } else {
        digits_value(s.drop_last()) * 10 + digit_value(s.last())
    }
}

/// `usize::from_str`: an optional `+`, then one or more decimal digits whose
/// value fits in `usize`.
pub open spec fn parse_usize(s: Seq<char>) -> Option<usize> {
    let d = if s.len() > 0 && s[0] == '+' {
        s.drop_first()
    } else {
        s
    };
    if d.len() == 0 || !all_digits(d) {
        None
    } else if digits_value(d) > usize::MAX {
        None
    } else {
        Some(digits_value(d) as usize)
    }
}

/// The digit character for `d < 10`.
pub open spec fn digit_char(d: nat) -> char {
    if d == 0 {
        '0'
    } else if d == 1 {
        '1'
    } else if d == 2 {
        '2'
    } else if d == 3 {
        '3'
    } else if d == 4 {
        '4'
    } else if d == 5 {
        '5'
    } else if d == 6 {
        '6'
    } else if d == 7 {
        '7'
    } else if d == 8 {
        '8'
    } else {
        '9'
    }
}

/// Decimal digits of `n`, without leading zeros.
pub open spec fn dec_digits(n: nat) -> Seq<char>
    decreases n,
{
    if n < 10 {
        seq![digit_char(n)]
    } else {
        dec_digits(n / 10).push(digit_char(n % 10))
    }
}

/// `k` zero digits.
pub open spec fn zeros(k: nat) -> Seq<char> {
    Seq::new(k, |i: int| '0')
}

/// Decimal digits of `n`, zero-padded to at least ten (`{:010}`).
pub open spec fn pad10(n: nat) -> Seq<char> {
    let d = dec_digits(n);
    if d.len() < 10 {
        zeros((10 - d.len()) as nat) + d
    } else {
        d
    }
}

// ---------------------------------------------------------------------------
// Lemmas
// ---------------------------------------------------------------------------

pub proof fn lemma_digit_char(d: nat)
    requires
        d < 10,
    ensures
        is_digit(digit_char(d)),
        digit_value(digit_char(d)) == d,
        !is_unicode_whitespace(digit_char(d)),
        digit_char(d) != '\n',
        digit_char(d) != '+',
{
}

pub proof fn lemma_dec_digits(n: nat)
    ensures
        all_digits(dec_digits(n)),
        digits_value(dec_digits(n)) == n,
        dec_digits(n).len() >= 1,
    decreases n,
{
    if n < 10 {
        lemma_digit_char(n);
        assert(dec_digits(n).drop_last() =~= Seq::<char>::empty());
        assert(digits_value(Seq::<char>::empty()) == 0);
        assert(digits_value(dec_digits(n)) == n);
    } else {
        lemma_dec_digits(n / 10);
        lemma_digit_char(n % 10);
        let d = dec_digits(n);
        let p = dec_digits(n / 10);
        assert(d.drop_last() =~= p);
        assert forall|i: int| 0 <= i < d.len() implies is_digit(#[trigger] d[i]) by {
            if i < p.len() {
                assert(d[i] == p[i]);
            }
        }
        vstd::arithmetic::div_mod::lemma_fundamental_div_mod(n as int, 10);
        assert(d.last() == digit_char(n % 10));
        assert(digits_value(d) == digits_value(p) * 10 + digit_value(d.last()));
        assert((n / 10) * 10 + n % 10 == n);
        assert(digits_value(d) == n);
    }
}

pub proof fn lemma_zeros_value(k: nat, d: Seq<char>)
    ensures
        digits_value(zeros(k) + d) == digits_value(d),
        all_digits(d) ==> all_digits(zeros(k) + d),
    decreases d.len() + k,
{
    if d.len() == 0 {
        if k > 0 {
            assert((zeros(k) + d).drop_last() =~= zeros((k - 1) as nat) + d);
            lemma_zeros_value((k - 1) as nat, d);
        }
    } else {
        assert((zeros(k) + d).drop_last() =~= zeros(k) + d.drop_last());
        lemma_zeros_value(k, d.drop_last());
    }
}

pub proof fn lemma_pad10(n: nat)
    ensures
        all_digits(pad10(n)),
        digits_value(pad10(n)) == n,
        pad10(n).len() >= 10,
        n < 10000000000 ==> pad10(n).len() == 10,
{
    lemma_dec_digits(n);
    let d = dec_digits(n);
    if d.len() < 10 {
        lemma_zeros_value((10 - d.len()) as nat, d);
    }
    if n < 10000000000 {
        reveal_with_fuel(pow10, 11);
        assert(pow10(10) == 10000000000);
        lemma_dec_digits_bound(n, 9);
    }
}

/// `dec_digits(n)` has at most `b + 1` digits when `n < 10^(b+1)`.
pub proof fn lemma_dec_digits_bound(n: nat, b: nat)
    requires
        n < pow10(b + 1),
    ensures
        dec_digits(n).len() <= b + 1,
    decreases b,
{
    if n >= 10 {
        if b == 0 {
            assert(pow10(1) == 10 * pow10(0));
        } else {
            assert(pow10(b + 1) == 10 * pow10(b));
            assert(n / 10 < pow10(b));
            lemma_dec_digits_bound(n / 10, (b - 1) as nat);
        }
    }
}

/// `10^e`.
pub open spec fn pow10(e: nat) -> nat
    decreases e,
{
    if e == 0 {
        1
    } else {
        10 * pow10((e - 1) as nat)
    }
}

pub proof fn lemma_digits_value_prefix(s: Seq<char>, k: int)
    requires
        0 <= k <= s.len(),
    ensures
        digits_value(s.take(k)) <= digits_value(s),
    decreases s.len(),
{
    if k < s.len() {
        assert(s.drop_last().take(k) =~= s.take(k));
        lemma_digits_value_prefix(s.drop_last(), k);
    } else {
        assert(s.take(k) =~= s);
    }
}

// ---------------------------------------------------------------------------
// Executable helpers
// ---------------------------------------------------------------------------

/// The digit character for `d < 10`.
pub fn digit_char_of(d: u128) -> (c: char)
    requires
        d < 10,
    ensures
        c == digit_char(d as nat),
{
    if d == 0 {
        '0'
    } else if d == 1 {
        '1'
    } else if d == 2 {
        '2'
    } else if d == 3 {
        '3'
    } else if d == 4 {
        '4'
    } else if d == 5 {
        '5'
    } else if d == 6 {
        '6'
    } else if d == 7 {
        '7'
    } else if d == 8 {
        '8'
    } else {
        '9'
    }
}

/// Appends the decimal digits of `n`.
pub fn push_dec_digits(out: &mut Vec<char>, n: u128)
    ensures
        final(out)@ == old(out)@ + dec_digits(n as nat),
    decreases n,
{
    if n < 10 {
        out.push(digit_char_of(n));
    } else {
        push_dec_digits(out, n / 10);
        out.push(digit_char_of(n % 10));
        assert(final(out)@ =~= old(out)@ + dec_digits(n as nat)) by {
            assert(dec_digits(n as nat) == dec_digits((n / 10) as nat).push(digit_char((n % 10) as nat)));
        }
    }
}

/// Appends the decimal digits of `n`, zero-padded to at least ten.
pub fn push_pad10(out: &mut Vec<char>, n: u128)
    ensures
        final(out)@ == old(out)@ + pad10(n as nat),
{
    let mut digits: Vec<char> = Vec::new();
    push_dec_digits(&mut digits, n);
    assert(digits@ =~= dec_digits(n as nat));
    let ghost start = out@;
    if digits.len() < 10 {
        let k = 10 - digits.len();
        let mut j: usize = 0;
        while j < k
            invariant
                j <= k,
                out@ == start + zeros(j as nat),
            decreases k - j,
        {
            out.push('0');
            assert(out@ =~= start + zeros((j + 1) as nat));
            j = j + 1;
        }
    }
    let ghost mid = out@;
    let mut i: usize = 0;
    while i < digits.len()
        invariant
            i <= digits@.len(),
            out@ == mid + digits@.take(i as int),
        decreases digits.len() - i,
    {
        out.push(digits[i]);
        assert(out@ =~= mid + digits@.take(i + 1));
        i = i + 1;
    }
    assert(digits@.take(digits@.len() as int) =~= digits@);
    assert(out@ =~= start + pad10(n as nat));
}

/// `char::is_whitespace`.
pub fn is_whitespace(c: char) -> (r: bool)
    ensures
        r == is_unicode_whitespace(c),
{
    let v = c as u32;
    (0x09 <= v && v <= 0x0D) || v == 0x20 || v == 0x85 || v == 0xA0 || v == 0x1680 || (0x2000
        <= v && v <= 0x200A) || v == 0x2028 || v == 0x2029 || v == 0x202F || v == 0x205F || v
        == 0x3000
}

/// Whether `cs[a..b]` begins with `p`.
pub fn range_starts_with(cs: &Vec<char>, a: usize, b: usize, p: &Vec<char>) -> (r: bool)
    requires
        a <= b <= cs@.len(),
    ensures
        r == starts_with(cs@.subrange(a as int, b as int), p@),
{
    if b - a < p.len() {
        return false;
    }
    let mut i: usize = 0;
    while i < p.len()
        invariant
            a <= b <= cs@.len(),
            b - a >= p@.len(),
            i <= p@.len(),
            forall|k: int| 0 <= k < i ==> cs@[a + k] == p@[k],
        decreases p.len() - i,
    {
        if cs[a + i] != p[i] {
            assert(cs@.subrange(a as int, b as int).take(p@.len() as int)[i as int] != p@[i as int]);
            return false;
        }
        i = i + 1;
    }
    assert(cs@.subrange(a as int, b as int).take(p@.len() as int) =~= p@);
    true
}

/// Bounds of `trim(cs[a..b])` within `cs`.
pub fn trim_range(cs: &Vec<char>, a: usize, b: usize) -> (r: (usize, usize))
    requires
        a <= b <= cs@.len(),
    ensures
        a <= r.0 <= r.1 <= b,
        cs@.subrange(r.0 as int, r.1 as int) == trim(cs@.subrange(a as int, b as int)),
{
    let mut s: usize = a;
    while s < b && is_whitespace(cs[s])
        invariant
            a <= s <= b <= cs@.len(),
            trim_start(cs@.subrange(s as int, b as int)) == trim_start(
                cs@.subrange(a as int, b as int),
            ),
        decreases b - s,
    {
        assert(cs@.subrange(s as int, b as int).drop_first() =~= cs@.subrange(s + 1, b as int));
        s = s + 1;
    }
    let mut e: usize = b;
    while e > s && is_whitespace(cs[e - 1])
        invariant
            a <= s <= e <= b <= cs@.len(),
            trim_end(cs@.subrange(s as int, e as int)) == trim_end(
                cs@.subrange(s as int, b as int),
            ),
        decreases e,
    {
        assert(cs@.subrange(s as int, e as int).drop_last() =~= cs@.subrange(s as int, e - 1));
        e = e - 1;
    }
    (s, e)
}

/// `usize::from_str` on `cs[a..b]`.
pub fn parse_usize_range(cs: &Vec<char>, a: usize, b: usize) -> (r: Option<usize>)
    requires
        a <= b <= cs@.len(),
    ensures
        r == parse_usize(cs@.subrange(a as int, b as int)),
{
    let ghost s = cs@.subrange(a as int, b as int);
    let mut d0: usize = a;
    if a < b && cs[a] == '+' {
        d0 = a + 1;
        assert(s.drop_first() =~= cs@.subrange(d0 as int, b as int));
    } else {
        assert(s =~= cs@.subrange(d0 as int, b as int));
    }
    let ghost d = cs@.subrange(d0 as int, b as int);
    if d0 == b {
        return None;
    }
    let mut acc: usize = 0;
    let mut i: usize = d0;
    assert(d.take(0) =~= Seq::<char>::empty());
    while i < b
        invariant
            a <= d0 <= i <= b <= cs@.len(),
            d == cs@.subrange(d0 as int, b as int),
            s == cs@.subrange(a as int, b as int),
            d == (if s.len() > 0 && s[0] == '+' { s.drop_first() } else { s }),
            d.len() > 0,
            all_digits(d.take(i - d0)),
            acc == digits_value(d.take(i - d0)),
        decreases b - i,
    {
        let c = cs[i];
        if !('0' <= c && c <= '9') {
            assert(!is_digit(d[i - d0]));
            return None;
        }
        let dv = (c as u32 - 48) as usize;
        assert(d.take(i - d0 + 1).drop_last() =~= d.take(i - d0));
        match acc.checked_mul(10) {
            Some(m) => {
                match m.checked_add(dv) {
                    Some(v) => {
                        acc = v;
                    },
                    None => {
                        proof {
                            if all_digits(d) {
                                lemma_digits_value_prefix(d, i - d0 + 1);
                            }
                        }
                        return None;
                    },
                }
            },
            None => {
                proof {
                    if all_digits(d) {
                        lemma_digits_value_prefix(d, i - d0 + 1);
                    }
                }
                return None;
            },
        }
        i = i + 1;
    }
    assert(d.take(b - d0) =~= d);
    Some(acc)
}

/// `from_str` for an unsigned integer type whose largest value is `max`: an
/// optional `+`, then one or more decimal digits whose value is at most `max`.
pub open spec fn parse_decimal(s: Seq<char>, max: nat) -> Option<nat> {
    let d = if s.len() > 0 && s[0] == '+' {
        s.drop_first()
    } else {
        s
    };
    if d.len() == 0 || !all_digits(d) {
        None
    } else if digits_value(d) > max {
        None
    } else {
        Some(digits_value(d))
    }
}

/// Unsigned decimal parse of `cs[a..b]` with largest value `max`.
pub fn parse_decimal_range(cs: &Vec<char>, a: usize, b: usize, max: u64) -> (r: Option<u64>)
    requires
        a <= b <= cs@.len(),
    ensures
        match r {
            Some(v) => parse_decimal(cs@.subrange(a as int, b as int), max as nat) == Some(v as nat),
            None => parse_decimal(cs@.subrange(a as int, b as int), max as nat) is None,
        },
{
    let ghost s = cs@.subrange(a as int, b as int);
    let mut d0: usize = a;
    if a < b && cs[a] == '+' {
        d0 = a + 1;
        assert(s.drop_first() =~= cs@.subrange(d0 as int, b as int));
    } else {
        assert(s =~= cs@.subrange(d0 as int, b as int));
    }
    let ghost d = cs@.subrange(d0 as int, b as int);
    if d0 == b {
        return None;
    }
    let mut acc: u64 = 0;
    let mut i: usize = d0;
    assert(d.take(0) =~= Seq::<char>::empty());
    while i < b
        invariant
            a <= d0 <= i <= b <= cs@.len(),
            d == cs@.subrange(d0 as int, b as int),
            s == cs@.subrange(a as int, b as int),
            d == (if s.len() > 0 && s[0] == '+' { s.drop_first() } else { s }),
            d.len() > 0,
            all_digits(d.take(i - d0)),
            acc == digits_value(d.take(i - d0)),
            acc <= max,
        decreases b - i,
    {
        let c = cs[i];
        if !('0' <= c && c <= '9') {
            assert(!is_digit(d[i - d0]));
            return None;
        }
        let dv = (c as u32 - 48) as u64;
        assert(d.take(i - d0 + 1).drop_last() =~= d.take(i - d0));
        let next: Option<u64> = match acc.checked_mul(10) {
            Some(m) => m.checked_add(dv),
            None => None,
        };
        match next {
            Some(v) if v <= max => {
                acc = v;
            },
            _ => {
                proof {
                    if all_digits(d) {
                        lemma_digits_value_prefix(d, i - d0 + 1);
                    }
                }
                return None;
            },
        }
        i = i + 1;
    }
    assert(d.take(b - d0) =~= d);
    Some(acc)
}

/// Index of the first `c` in `s`, if any.
pub open spec fn find_char(s: Seq<char>, c: char) -> Option<nat>
    decreases s.len(),
{
    if s.len() == 0 {
        None
    } else if s[0] == c {
        Some(0)
    } else {
        match find_char(s.drop_first(), c) {
            Some(i) => Some(i + 1),
            None => None,
        }
    }
}

/// The first index of `c` in `cs`, if any.
pub fn find_char_index(cs: &Vec<char>, c: char) -> (r: Option<usize>)
    ensures
        match r {
            Some(i) => find_char(cs@, c) == Some(i as nat) && i < cs@.len(),
            None => find_char(cs@, c) is None,
        },
{
    let mut i: usize = 0;
    while i < cs.len()
        invariant
            i <= cs@.len(),
            forall|k: int| 0 <= k < i ==> cs@[k] != c,
        decreases cs.len() - i,
    {
        if cs[i] == c {
            proof {
                lemma_find_char_at(cs@, c, i as nat);
            }
            return Some(i);
        }
        i = i + 1;
    }
    proof {
        lemma_find_char_none(cs@, c);
    }
    None
}

pub proof fn lemma_find_char_at(s: Seq<char>, c: char, i: nat)
    requires
        i < s.len(),
        s[i as int] == c,
        forall|k: int| 0 <= k < i ==> s[k] != c,
    ensures
        find_char(s, c) == Some(i),
    decreases i,
{
    if i > 0 {
        assert forall|k: int| 0 <= k < i - 1 implies s.drop_first()[k] != c by {
            assert(s.drop_first()[k] == s[k + 1]);
        }
        lemma_find_char_at(s.drop_first(), c, (i - 1) as nat);
    }
}

pub proof fn lemma_find_char_none(s: Seq<char>, c: char)
    requires
        forall|k: int| 0 <= k < s.len() ==> s[k] != c,
    ensures
        find_char(s, c) is None,
    decreases s.len(),
{
    if s.len() > 0 {
        assert forall|k: int| 0 <= k < s.len() - 1 implies s.drop_first()[k] != c by {
            assert(s.drop_first()[k] == s[k + 1]);
        }
        lemma_find_char_none(s.drop_first(), c);
    }
}

} // verus!
