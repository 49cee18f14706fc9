use vstd::prelude::*;

verus! {

/// Ten-thousandths per currency unit: amounts keep four fractional digits.
pub const SCALE: u64 = 10000;

pub open spec fn is_digit(c: char) -> bool {
    '0' <= c && c <= '9'
}

pub open spec fn digit_value(c: char) -> int {
    c as int - '0' as int
}

pub open spec fn all_digits(s: Seq<char>) -> bool {
    forall|i: int| 0 <= i < s.len() ==> is_digit(#[trigger] s[i])
}

/// The number that a sequence of decimal digits spells.
pub open spec fn digits_value(s: Seq<char>) -> int
    decreases s.len(),
{
    if s.len() == 0 {
        0
    } else {
        digits_value(s.drop_last()) * 10 + digit_value(s.last())
    }
}

/// A decimal identifier: one or more digits whose value is at most `max`.
pub open spec fn id_value(s: Seq<char>, max: int) -> Option<int> {
    if s.len() > 0 && all_digits(s) && digits_value(s) <= max {
        Some(digits_value(s))
    } else {
        None
    }
}

proof fn lemma_digits_take_step(s: Seq<char>, i: int)
    requires
        0 <= i < s.len(),
    ensures
        digits_value(s.take(i + 1)) == digits_value(s.take(i)) * 10 + digit_value(s[i]),
{
    assert(s.take(i + 1).drop_last() =~= s.take(i));
}

proof fn lemma_digits_nonneg(s: Seq<char>)
    requires
        all_digits(s),
    ensures
        digits_value(s) >= 0,
    decreases s.len(),
{
    if s.len() > 0 {
        lemma_digits_nonneg(s.drop_last());
        assert(is_digit(s[s.len() - 1]));
    }
}

proof fn lemma_digits_monotone(s: Seq<char>, i: int, j: int)
    requires
        0 <= i <= j <= s.len(),
        all_digits(s),
    ensures
        digits_value(s.take(i)) <= digits_value(s.take(j)),
    decreases j - i,
{
    if i < j {
        lemma_digits_monotone(s, i, j - 1);
        lemma_digits_take_step(s, j - 1);
        assert(is_digit(s[j - 1]));
        lemma_digits_nonneg(s.take(j - 1));
    }
}

proof fn lemma_all_digits_extend(s: Seq<char>, i: int)
    requires
        0 <= i < s.len(),
        all_digits(s.take(i)),
        is_digit(s[i]),
    ensures
        all_digits(s.take(i + 1)),
{
    assert forall|k: int| 0 <= k < i + 1 implies is_digit(#[trigger] s.take(i + 1)[k]) by {
        if k < i {
            assert(s.take(i + 1)[k] == s.take(i)[k]);
        }
    }
}

fn char_digit(c: char) -> (r: Option<u64>)
    ensures
        r == (if is_digit(c) {
            Some(digit_value(c) as u64)
        } else {
            None::<u64>
        }),
{
    if '0' <= c && c <= '9' {
        Some((c as u32 - '0' as u32) as u64)
    } else {
        None
    }
}

/// Parses a decimal identifier made of digits alone, refusing one above `max`.
pub fn parse_id(s: &str, max: u32) -> (r: Option<u32>)
    ensures
        r == (match id_value(s@, max as int) {
            Some(v) => Some(v as u32),
            None => None::<u32>,
        }),
        r matches Some(v) ==> v <= max && id_value(s@, max as int) == Some(v as int),
{
    let n = s.unicode_len();
    if n == 0 {
        return None;
    }
    let mut acc: u64 = 0;
    let mut i: usize = 0;
    while i < n
        invariant
            n == s@.len(),
            i <= n,
            all_digits(s@.take(i as int)),
            acc == digits_value(s@.take(i as int)),
            acc <= max,
        decreases n - i,
    {
        let c = s.get_char(i);
        let d = match char_digit(c) {
            Some(d) => d,
            None => {
                assert(!all_digits(s@) ) by {
                    assert(!is_digit(s@[i as int]));
                }
                return None;
            },
        };
        proof {
            lemma_digits_take_step(s@, i as int);
        }
        let next = acc * 10 + d;
        if next > max as u64 {
            proof {
                if all_digits(s@) {
                    lemma_digits_monotone(s@, i + 1, n as int);
                    assert(s@.take(n as int) =~= s@);
                }
            }
            return None;
        }
        proof {
            lemma_all_digits_extend(s@, i as int);
        }
        acc = next;
        i = i + 1;
    }
    assert(s@.take(n as int) =~= s@);
    Some(acc as u32)
}

/// Length of a leading sign, `-` or `+`.
pub open spec fn sign_len(s: Seq<char>) -> int {
    if s.len() > 0 && (s[0] == '-' || s[0] == '+') {
        1
    } else {
        0
    }
}

/// `b` is digits up to `p`; there it ends, or a point follows with only
/// digits after it; and it holds at least one digit.
pub open spec fn point_at(b: Seq<char>, p: int) -> bool {
    &&& 0 <= p <= b.len()
    &&& all_digits(b.take(p))
    &&& p < b.len() ==> b[p] == '.' && all_digits(b.skip(p + 1))
    &&& p > 0 || b.len() > p + 1
}

/// The fractional digits of `b` when its point stands at `p`.
pub open spec fn fraction_of(b: Seq<char>, p: int) -> Seq<char> {
    if p < b.len() {
        b.skip(p + 1)
    } else {
        Seq::empty()
    }
}

/// The `k`-th fractional digit, zero past the end.
pub open spec fn frac_digit(f: Seq<char>, k: int) -> int {
    if k < f.len() {
        digit_value(f[k])
    } else {
        0
    }
}

/// The first four fractional digits as ten-thousandths, plus one when the
/// fifth digit is five or more.
pub open spec fn frac_units(f: Seq<char>) -> int {
    frac_digit(f, 0) * 1000 + frac_digit(f, 1) * 100 + frac_digit(f, 2) * 10 + frac_digit(f, 3)
        + if f.len() > 4 && digit_value(f[4]) >= 5 {
        1int
    } else {
        0int
    }
}

pub open spec fn units_at(b: Seq<char>, p: int) -> int {
    digits_value(b.take(p)) * SCALE + frac_units(fraction_of(b, p))
}

/// The value of a decimal amount (an optional sign, digits, an optional
/// point and digits) in ten-thousandths, rounded half up at the fifth
/// fractional digit.
pub open spec fn amount_value(s: Seq<char>) -> Option<int> {
    let b = s.skip(sign_len(s));
    if exists|p: int| point_at(b, p) {
        let u = units_at(b, choose|p: int| point_at(b, p));
        Some(
            if s.len() > 0 && s[0] == '-' {
                -u
            } else {
                u
            },
        )
    } else {
        None
    }
}

proof fn lemma_point_unique(b: Seq<char>, p: int, q: int)
    requires
        point_at(b, p),
        point_at(b, q),
    ensures
        p == q,
{
    if p < q {
        assert(b.take(q)[p] == b[p]);
    } else if q < p {
        assert(b.take(p)[q] == b[q]);
    }
}

/// A point can only stand after the leading digits.
proof fn lemma_point_after_digits(b: Seq<char>, p: int, k: int)
    requires
        point_at(b, p),
        0 <= k <= b.len(),
        all_digits(b.take(k)),
    ensures
        p >= k,
{
    if p < k {
        assert(b.take(k)[p] == b[p]);
    }
}

proof fn lemma_frac_units_range(f: Seq<char>)
    requires
        all_digits(f),
    ensures
        0 <= frac_units(f) <= SCALE,
{
    if f.len() > 0 {
        assert(is_digit(f[0]));
    }
    if f.len() > 1 {
        assert(is_digit(f[1]));
    }
    if f.len() > 2 {
        assert(is_digit(f[2]));
    }
    if f.len() > 3 {
        assert(is_digit(f[3]));
    }
    if f.len() > 4 {
        assert(is_digit(f[4]));
    }
}

/// Whole units beyond this bound do not fit an `i64` as ten-thousandths.
const WHOLE_LIMIT: u64 = 922337203685477;

fn frac_digit_at(s: &str, from: usize, k: usize) -> (r: u64)
    requires
        from <= s@.len(),
        k < 4,
        all_digits(s@.skip(from as int)),
    ensures
        r == frac_digit(s@.skip(from as int), k as int),
        r <= 9,
{
    let n = s.unicode_len();
    if k < n - from {
        let c = s.get_char(from + k);
        assert(s@.skip(from as int)[k as int] == c);
        assert(is_digit(s@.skip(from as int)[k as int]));
        (c as u32 - '0' as u32) as u64
    } else {
        0
    }
}

/// Parses a decimal amount into ten-thousandths, rounding half up at the
/// fifth fractional digit; `None` for text that is not such a number or a
/// value beyond the range of `i64`.
pub fn parse_amount(s: &str) -> (r: Option<i64>)
    ensures
        r == (match amount_value(s@) {
            Some(v) => if -(i64::MAX as int) <= v <= i64::MAX {
                Some(v as i64)
            } else {
                None::<i64>
            },
            None => None::<i64>,
        }),
{
    let n = s.unicode_len();
    let mut start: usize = 0;
    let mut negative = false;
    if n > 0 {
        let c = s.get_char(0);
        if c == '-' {
            negative = true;
            start = 1;
        } else if c == '+' {
            start = 1;
        }
    }
    let ghost b = s@.skip(start as int);
    assert(start == sign_len(s@));
    assert(negative == (s@.len() > 0 && s@[0] == '-'));
    let mut i: usize = start;
    let mut whole: u64 = 0;
    loop
        invariant
            n == s@.len(),
            start <= i <= n,
            b == s@.skip(start as int),
            b.len() == n - start,
            start == sign_len(s@),
            negative == (s@.len() > 0 && s@[0] == '-'),
            all_digits(b.take(i - start)),
            whole == digits_value(b.take(i - start)),
            whole <= WHOLE_LIMIT,
        ensures
            start <= i <= n,
            i < n ==> !is_digit(s@[i as int]),
        decreases n - i,
    {
        if i >= n {
            break;
        }
        let d = match char_digit(s.get_char(i)) {
            Some(d) => d,
            None => {
                break;
            },
        };
        assert(b[i - start] == s@[i as int]);
        proof {
            lemma_digits_take_step(b, i - start);
        }
        let next = whole * 10 + d;
        if next > WHOLE_LIMIT {
            proof {
                lemma_all_digits_extend(b, i - start);
                if exists|p: int| point_at(b, p) {
                    let p = choose|p: int| point_at(b, p);
                    lemma_point_after_digits(b, p, i + 1 - start);
                    let bp = b.take(p);
                    lemma_digits_monotone(bp, i + 1 - start, p);
                    assert(bp.take(i + 1 - start) =~= b.take(i + 1 - start));
                    assert(bp.take(p) =~= bp);
                    if p < b.len() {
                        lemma_frac_units_range(b.skip(p + 1));
                    }
                }
            }
            return None;
        }
        proof {
            lemma_all_digits_extend(b, i - start);
        }
        whole = next;
        i = i + 1;
    }
    let ghost p = i - start;
    if i < n && s.get_char(i) != '.' {
        proof {
            assert(b[p] == s@[i as int]);
            assert(!is_digit(b[p]));
            if exists|q: int| point_at(b, q) {
                let q = choose|q: int| point_at(b, q);
                lemma_point_after_digits(b, q, p);
                assert(b.take(q)[p] == b[p]);
            }
        }
        return None;
    }
    let mut fs: usize = n;
    if i < n {
        fs = i + 1;
    }
    let mut j: usize = fs;
    while j < n
        invariant
            n == s@.len(),
            fs <= j <= n,
            all_digits(s@.skip(fs as int).take(j - fs)),
            b == s@.skip(start as int),
            b.len() == n - start,
            start == sign_len(s@),
            negative == (s@.len() > 0 && s@[0] == '-'),
            p == i - start,
            start <= i <= n,
            i < n ==> fs == i + 1 && b[p] == '.',
            i >= n ==> fs == n,
            all_digits(b.take(p)),
        decreases n - j,
    {
        let c = s.get_char(j);
        assert(s@.skip(fs as int)[j - fs] == c);
        if !('0' <= c && c <= '9') {
            proof {
                if exists|q: int| point_at(b, q) {
                    let q = choose|q: int| point_at(b, q);
                    lemma_point_after_digits(b, q, p);
                    if q > p {
                        assert(b.take(q)[p] == b[p]);
                    }
                    assert(b.skip(p + 1)[j - fs] == c);
                }
            }
            return None;
        }
        proof {
            lemma_all_digits_extend(s@.skip(fs as int), j - fs);
        }
        j = j + 1;
    }
    assert(s@.skip(fs as int).take(n - fs) =~= s@.skip(fs as int));
    if i == start && n - fs == 0 {
        proof {
            if exists|q: int| point_at(b, q) {
                let q = choose|q: int| point_at(b, q);
                lemma_point_after_digits(b, q, p);
                if q > p {
                    assert(b.take(q)[p] == b[p]);
                }
            }
        }
        return None;
    }
    let ghost f = s@.skip(fs as int);
    proof {
        assert(fraction_of(b, p) =~= f);
        assert(point_at(b, p));
        let q = choose|q: int| point_at(b, q);
        lemma_point_unique(b, p, q);
    }
    let d0 = frac_digit_at(s, fs, 0);
    let d1 = frac_digit_at(s, fs, 1);
    let d2 = frac_digit_at(s, fs, 2);
    let d3 = frac_digit_at(s, fs, 3);
    let mut up: u64 = 0;
    if n - fs > 4 {
        let c = s.get_char(fs + 4);
        assert(f[4] == c);
        if c >= '5' {
            up = 1;
        }
    }
    let units: u64 = whole * SCALE + d0 * 1000 + d1 * 100 + d2 * 10 + d3 + up;
    if units > i64::MAX as u64 {
        return None;
    }
    if negative {
        Some(-(units as i64))
    } else {
        Some(units as i64)
    }
}

/// The character of a decimal digit.
pub open spec fn digit_char(d: int) -> char {
    (d + '0' as int) as char
}

/// The decimal digits of `n`, without leading zeros.
pub open spec fn nat_text(n: nat) -> Seq<char>
    decreases n,
{
    if n < 10 {
        seq![digit_char(n as int)]
    } else {
        nat_text(n / 10).push(digit_char((n % 10) as int))
    }
}

/// The magnitude of an amount in ten-thousandths.
pub open spec fn magnitude(v: int) -> nat {
    if v < 0 {
        (-v) as nat
    } else {
        v as nat
    }
}

pub open spec fn sign_text(v: int) -> Seq<char> {
    if v < 0 {
        seq!['-']
    } else {
        Seq::empty()
    }
}

/// The four fractional digits of an amount.
pub open spec fn four_digits(r: nat) -> Seq<char> {
    seq![
        digit_char((r / 1000) as int),
        digit_char((r / 100 % 10) as int),
        digit_char((r / 10 % 10) as int),
        digit_char((r % 10) as int),
    ]
}

/// An amount written with exactly four fractional digits (`100.0000`).
pub open spec fn amount_text(v: int) -> Seq<char> {
    sign_text(v) + nat_text(magnitude(v) / 10000) + seq!['.'] + four_digits(magnitude(v) % 10000)
}

/// Relies on `String::push`: appends one character.
#[verifier::external_body]
pub(crate) fn push_char(s: &mut String, c: char)
    ensures
        final(s)@ == old(s)@.push(c),
{
    s.push(c)
}

pub(crate) fn push_digit(s: &mut String, d: u64)
    requires
        d < 10,
    ensures
        final(s)@ == old(s)@.push(digit_char(d as int)),
{
    let c = ((d as u8) + 48u8) as char;
    assert(c == digit_char(d as int));
    push_char(s, c);
}

pub(crate) fn push_nat(s: &mut String, n: u64)
    ensures
        final(s)@ == old(s)@ + nat_text(n as nat),
    decreases n,
{
    if n < 10 {
        push_digit(s, n);
        assert(old(s)@.push(digit_char(n as int)) =~= old(s)@ + nat_text(n as nat));
    } else {
        push_nat(s, n / 10);
        push_digit(s, n % 10);
        assert(final(s)@ =~= old(s)@ + nat_text(n as nat));
    }
}

pub(crate) fn magnitude_of(v: i64) -> (r: u64)
    ensures
        r == magnitude(v as int),
{
    if v < 0 {
        (-(v as i128)) as u64
    } else {
        v as u64
    }
}

/// Writes an amount in ten-thousandths with exactly four fractional digits.
pub fn format_amount(v: i64) -> (r: String)
    ensures
        r@ == amount_text(v as int),
{
    let m = magnitude_of(v);
    let mut s = String::new();
    if v < 0 {
        push_char(&mut s, '-');
    }
    push_nat(&mut s, m / SCALE);
    push_char(&mut s, '.');
    let f = m % SCALE;
    push_digit(&mut s, f / 1000);
    push_digit(&mut s, f / 100 % 10);
    push_digit(&mut s, f / 10 % 10);
    push_digit(&mut s, f % 10);
    assert(s@ =~= amount_text(v as int));
    s
}

/// The fractional digits of an amount without trailing zeros.
pub open spec fn frac_display(r: nat) -> Seq<char> {
    if r % 1000 == 0 {
        four_digits(r).take(1)
    } else if r % 100 == 0 {
        four_digits(r).take(2)
    } else if r % 10 == 0 {
        four_digits(r).take(3)
    } else {
        four_digits(r)
    }
}

/// An amount in its shortest decimal form (`30`, `0.5`, `-1.25`).
pub open spec fn amount_display(v: int) -> Seq<char> {
    let m = magnitude(v);
    sign_text(v) + nat_text(m / 10000) + if m % 10000 == 0 {
        Seq::empty()
    } else {
        seq!['.'] + frac_display(m % 10000)
    }
}

/// Appends an amount in its shortest decimal form.
pub(crate) fn push_amount_display(s: &mut String, v: i64)
    ensures
        final(s)@ == old(s)@ + amount_display(v as int),
{
    let m = magnitude_of(v);
    if v < 0 {
        push_char(s, '-');
    }
    push_nat(s, m / SCALE);
    let f = m % SCALE;
    if f != 0 {
        push_char(s, '.');
        push_digit(s, f / 1000);
        if f % 1000 != 0 {
            push_digit(s, f / 100 % 10);
            if f % 100 != 0 {
                push_digit(s, f / 10 % 10);
                if f % 10 != 0 {
                    push_digit(s, f % 10);
                }
            }
        }
    }
    assert(final(s)@ =~= old(s)@ + amount_display(v as int));
}

/// Writes an amount in its shortest decimal form.
pub fn display_amount(v: i64) -> (r: String)
    ensures
        r@ == amount_display(v as int),
{
    let mut s = String::new();
    push_amount_display(&mut s, v);
    assert(s@ =~= amount_display(v as int));
    s
}

} // verus!
