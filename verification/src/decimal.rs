//! Fixed-point numbers with twelve fractional digits, read from and written
//! as plain decimal text.
//!
//! A number is held as an `i128` count of units, one unit being `10^-12`.
//! Hue, saturation, lightness and colour distances all travel through the
//! crate in this form, so that every rule about them is integer arithmetic.

use vstd::prelude::*;

verus! {

/// Units per whole: twelve fractional digits.
pub const SCALE: i128 = 1_000_000_000_000;

/// Text whose whole part reaches this bound is not read.
pub const WHOLE_LIMIT: i128 = 1_000_000;

/// How many fractional digits are kept.
pub const FRACTION_DIGITS: usize = 12;

pub open spec fn is_digit(c: char) -> bool {
    '0' <= c && c <= '9'
}

pub open spec fn digit_value(c: char) -> int {
    c as int - '0' as int
}

/// The number written by a string of digits, most significant first.
pub open spec fn digits_value(s: Seq<char>) -> int
    decreases s.len(),
{
    if s.len() == 0 {
        0
    } else {
        digits_value(s.drop_last()) * 10 + digit_value(s.last())
    }
}

pub open spec fn pow10(n: nat) -> int
    decreases n,
{
    if n == 0 {
        1
    } else {
        10 * pow10((n - 1) as nat)
    }
}

/// Where the digits begin: after a leading minus sign, if there is one.
pub open spec fn sign_len(t: Seq<char>) -> int {
    if t.len() > 0 && t[0] == '-' {
        1
    } else {
        0
    }
}

/// The first index at or after `i` that does not hold a digit.
pub open spec fn run_end(t: Seq<char>, i: int) -> int
    decreases t.len() - i,
{
    if 0 <= i < t.len() && is_digit(t[i]) {
        run_end(t, i + 1)
    } else {
        i
    }
}

/// Units denoted by the digits after the point: the first twelve count,
/// later ones are dropped.
pub open spec fn fraction_units(f: Seq<char>) -> int {
    if f.len() >= 12 {
        digits_value(f.take(12))
    } else {
        digits_value(f) * pow10((12 - f.len()) as nat)
    }
}

/// The units that a text denotes, if it is a decimal number: an optional
/// minus sign, one or more digits, and optionally a point followed by one or
/// more digits. The whole part must stay below `WHOLE_LIMIT`.
pub open spec fn decimal_of(t: Seq<char>) -> Option<int> {
    let s = sign_len(t);
    let sign: int = if s == 1 { -1 } else { 1 };
    let p = run_end(t, s);
    let whole = digits_value(t.subrange(s, p));
    if p == s || whole >= WHOLE_LIMIT {
        None
    } else if p == t.len() {
        Some(sign * (whole * SCALE))
    } else if t[p] != '.' {
        None
    } else {
        let q = run_end(t, p + 1);
        if q == p + 1 || q != t.len() {
            None
        } else {
            Some(sign * (whole * SCALE + fraction_units(t.subrange(p + 1, q))))
        }
    }
}

pub proof fn lemma_run_end_bounds(t: Seq<char>, i: int)
    requires
        0 <= i <= t.len(),
    ensures
        i <= run_end(t, i) <= t.len(),
        forall|k: int| i <= k < run_end(t, i) ==> is_digit(#[trigger] t[k]),
        run_end(t, i) < t.len() ==> !is_digit(t[run_end(t, i)]),
    decreases t.len() - i,
{
    if i < t.len() && is_digit(t[i]) {
        lemma_run_end_bounds(t, i + 1);
    }
}

pub proof fn lemma_digits_value_bounds(s: Seq<char>)
    requires
        forall|k: int| 0 <= k < s.len() ==> is_digit(#[trigger] s[k]),
    ensures
        0 <= digits_value(s) < pow10(s.len()),
    decreases s.len(),
{
    if s.len() > 0 {
        lemma_digits_value_bounds(s.drop_last());
    }
}

fn digit_of(c: char) -> (r: Option<u8>)
    ensures
        r is Some <==> is_digit(c),
        r matches Some(d) ==> d as int == digit_value(c) && d <= 9,
{
    if c >= '0' && c <= '9' {
        Some((c as u32 - '0' as u32) as u8)
    } else {
        None
    }
}

/// Scans the digits that start at `from` and returns where they end.
pub fn digit_run(text: &str, from: usize) -> (end: usize)
    requires
        from <= text@.len(),
    ensures
        end as int == run_end(text@, from as int),
        from <= end <= text@.len(),
{
    let n = text.unicode_len();
    let mut i = from;
    while i < n
        invariant
            from <= i <= n,
            n == text@.len(),
            run_end(text@, from as int) == run_end(text@, i as int),
        decreases n - i,
    {
        if digit_of(text.get_char(i)).is_none() {
            return i;
        }
        i += 1;
    }
    i
}

/// Reads the digits in `from..to`, giving up once their value reaches `limit`.
pub fn read_digits(text: &str, from: usize, to: usize, limit: i128) -> (r: Option<i128>)
    requires
        from <= to <= text@.len(),
        0 < limit <= SCALE,
        forall|k: int| from <= k < to ==> is_digit(#[trigger] text@[k]),
    ensures
        match r {
            Some(v) => v as int == digits_value(text@.subrange(from as int, to as int)) && 0 <= v
                < limit,
            None => digits_value(text@.subrange(from as int, to as int)) >= limit,
        },
{
    let mut i = from;
    let mut value: i128 = 0;
    let mut over = false;
    assert(text@.subrange(from as int, from as int) =~= Seq::<char>::empty());
    while i < to
        invariant
            from <= i <= to <= text@.len(),
            0 < limit <= SCALE,
            forall|k: int| from <= k < to ==> is_digit(#[trigger] text@[k]),
            over ==> digits_value(text@.subrange(from as int, i as int)) >= limit,
            !over ==> value as int == digits_value(text@.subrange(from as int, i as int)) && 0
                <= value < limit,
        decreases to - i,
    {
        let c = text.get_char(i);
        let d = digit_of(c);
        proof {
            let longer = text@.subrange(from as int, i as int + 1);
            assert(longer.drop_last() =~= text@.subrange(from as int, i as int));
            assert(longer.last() == c);
            assert(is_digit(text@[i as int]));
        }
        if !over {
            value = value * 10 + d.unwrap() as i128;
            if value >= limit {
                over = true;
            }
        }
        i += 1;
    }
    if over {
        None
    } else {
        Some(value)
    }
}

/// Reads a decimal number from text.
pub fn parse_decimal(text: &str) -> (r: Option<i128>)
    ensures
        match r {
            Some(v) => decimal_of(text@) == Some(v as int) && -(WHOLE_LIMIT * SCALE) < v
                < WHOLE_LIMIT * SCALE,
            None => decimal_of(text@) is None,
        },
{
    let n = text.unicode_len();
    let s: usize = if n > 0 && text.get_char(0) == '-' {
        1
    } else {
        0
    };
    let p = digit_run(text, s);
    proof {
        lemma_run_end_bounds(text@, s as int);
    }
    if p == s {
        return None;
    }
    let whole = match read_digits(text, s, p, WHOLE_LIMIT) {
        Some(w) => w,
        None => {
            return None;
        },
    };
    let mut units: i128 = whole * SCALE;
    if p < n {
        if text.get_char(p) != '.' {
            return None;
        }
        let q = digit_run(text, p + 1);
        proof {
            lemma_run_end_bounds(text@, p as int + 1);
        }
        if q == p + 1 || q != n {
            return None;
        }
        let kept: usize = if q - (p + 1) >= FRACTION_DIGITS {
            FRACTION_DIGITS
        } else {
            q - (p + 1)
        };
        let ghost f = text@.subrange(p as int + 1, q as int);
        proof {
            assert(f.take(kept as int) =~= text@.subrange(p as int + 1, p as int + 1 + kept));
            lemma_digits_value_bounds(f.take(kept as int));
            lemma_pow10_values();
        }
        let mut fraction = match read_digits(text, p + 1, p + 1 + kept, SCALE) {
            Some(v) => v,
            None => {
                return None;
            },
        };
        let mut width = kept;
        while width < FRACTION_DIGITS
            invariant
                kept <= width <= FRACTION_DIGITS,
                kept == f.len() || width == FRACTION_DIGITS,
                fraction as int == digits_value(f.take(kept as int)) * pow10((width - kept) as nat),
                0 <= fraction < pow10(width as nat),
            decreases FRACTION_DIGITS - width,
        {
            proof {
                lemma_pow10_values();
                assert(pow10((width + 1 - kept) as nat) == 10 * pow10((width - kept) as nat));
                assert(pow10((width + 1) as nat) == 10 * pow10(width as nat));
                let kept_value = digits_value(f.take(kept as int));
                let padding = pow10((width - kept) as nat);
                assert(kept_value * (10 * padding) == (kept_value * padding) * 10)
                    by (nonlinear_arith);
            }
            fraction = fraction * 10;
            width += 1;
        }
        proof {
            lemma_pow10_values();
            if f.len() < 12 {
                assert(f.take(kept as int) =~= f);
            }
            assert(fraction as int == fraction_units(f));
        }
        units = units + fraction;
    }
    proof {
        let magnitude = units as int;
        assert(-1 * magnitude == -magnitude);
        assert(1 * magnitude == magnitude);
    }
    if s == 1 {
        Some(-units)
    } else {
        Some(units)
    }
}

/// The powers of ten that a twelve-digit fraction needs.
pub proof fn lemma_pow10_values()
    ensures
        pow10(0) == 1,
        pow10(1) == 10,
        pow10(2) == 100,
        pow10(3) == 1_000,
        pow10(4) == 10_000,
        pow10(5) == 100_000,
        pow10(6) == 1_000_000,
        pow10(7) == 10_000_000,
        pow10(8) == 100_000_000,
        pow10(9) == 1_000_000_000,
        pow10(10) == 10_000_000_000,
        pow10(11) == 100_000_000_000,
        pow10(12) == 1_000_000_000_000,
{
    reveal_with_fuel(pow10, 13);
}

pub open spec fn digit_char(d: int) -> char {
    if d == 0 {
        '0'
    } else if d == 1 {
        '1'
    } else if d == 2 {
        '2'
    } else if d == 3 {
        '3'
    } else if d == 4 {
        '4'
    } else if d == 5 {
        '5'
    } else if d == 6 {
        '6'
    } else if d == 7 {
        '7'
    } else if d == 8 {
        '8'
    } else {
        '9'
    }
}

/// The digits of a number, without leading zeros.
pub open spec fn nat_digits(n: nat) -> Seq<char>
    decreases n,
{
    if n < 10 {
        seq![digit_char(n as int)]
    } else {
        nat_digits(n / 10).push(digit_char((n % 10) as int))
    }
}

/// The last `width` digits of a number, with leading zeros.
pub open spec fn fixed_digits(n: nat, width: nat) -> Seq<char>
    decreases width,
{
    if width == 0 {
        Seq::empty()
    } else {
        fixed_digits(n / 10, (width - 1) as nat).push(digit_char((n % 10) as int))
    }
}

/// How a number of units is written: sign, whole part, point, twelve digits.
pub open spec fn decimal_text(v: int) -> Seq<char> {
    let a = if v < 0 { -v } else { v };
    let body = nat_digits((a / (SCALE as int)) as nat) + seq!['.'] + fixed_digits(
        (a % (SCALE as int)) as nat,
        12,
    );
    if v < 0 {
        seq!['-'] + body
    } else {
        body
    }
}

fn char_of_digit(d: u8) -> (c: char)
    requires
        d <= 9,
    ensures
        c == digit_char(d as int),
{
    if d == 0 {
        '0'
    } else if d == 1 {
        '1'
    } else if d == 2 {
        '2'
    } else if d == 3 {
        '3'
    } else if d == 4 {
        '4'
    } else if d == 5 {
        '5'
    } else if d == 6 {
        '6'
    } else if d == 7 {
        '7'
    } else if d == 8 {
        '8'
    } else {
        '9'
    }
}

/// Appends the characters of `low` in reverse order.
fn push_reversed(out: &mut String, low: &Vec<char>)
    ensures
        final(out)@ == old(out)@ + low@.reverse(),
{
    let mut j = low.len();
    while j > 0
        invariant
            j <= low.len(),
            out@ == old(out)@ + low@.reverse().take(low.len() - j),
        decreases j,
    {
        j -= 1;
        out.push(low[j]);
        assert(low@.reverse().take(low.len() - j) =~= low@.reverse().take(low.len() - j - 1).push(
            low@[j as int],
        ));
    }
    assert(low@.reverse().take(low.len() as int) =~= low@.reverse());
}

/// Appends the digits of `n`, without leading zeros.
pub fn push_nat(out: &mut String, n: u128)
    ensures
        final(out)@ == old(out)@ + nat_digits(n as nat),
{
    let mut low: Vec<char> = Vec::new();
    let mut m = n;
    assert(low@.reverse() =~= Seq::<char>::empty());
    while m >= 10
        invariant
            nat_digits(n as nat) == nat_digits(m as nat) + low@.reverse(),
        decreases m,
    {
        let c = char_of_digit((m % 10) as u8);
        proof {
            assert(low@.push(c).reverse() =~= seq![c] + low@.reverse());
            assert(nat_digits((m / 10) as nat).push(c) + low@.reverse() =~= nat_digits(
                (m / 10) as nat,
            ) + (seq![c] + low@.reverse()));
        }
        low.push(c);
        m = m / 10;
    }
    out.push(char_of_digit(m as u8));
    push_reversed(out, &low);
    assert(final(out)@ =~= old(out)@ + nat_digits(n as nat));
}

/// Appends the last `width` digits of `n`, with leading zeros.
pub fn push_fixed(out: &mut String, n: u128, width: usize)
    ensures
        final(out)@ == old(out)@ + fixed_digits(n as nat, width as nat),
{
    let mut low: Vec<char> = Vec::new();
    let mut m = n;
    let mut left = width;
    assert(low@.reverse() =~= Seq::<char>::empty());
    while left > 0
        invariant
            fixed_digits(n as nat, width as nat) == fixed_digits(m as nat, left as nat)
                + low@.reverse(),
        decreases left,
    {
        let c = char_of_digit((m % 10) as u8);
        proof {
            assert(low@.push(c).reverse() =~= seq![c] + low@.reverse());
            assert(fixed_digits((m / 10) as nat, (left - 1) as nat).push(c) + low@.reverse()
                =~= fixed_digits((m / 10) as nat, (left - 1) as nat) + (seq![c]
                + low@.reverse()));
        }
        low.push(c);
        m = m / 10;
        left -= 1;
    }
    push_reversed(out, &low);
    assert(final(out)@ =~= old(out)@ + fixed_digits(n as nat, width as nat));
}

/// Writes a number of units as decimal text.
pub fn render_decimal(v: i128) -> (r: String)
    ensures
        r@ == decimal_text(v as int),
{
    let mut out = String::new();
    let magnitude: u128 = if v < 0 {
        out.push('-');
        (-(v + 1)) as u128 + 1
    } else {
        v as u128
    };
    push_nat(&mut out, magnitude / (SCALE as u128));
    out.push('.');
    push_fixed(&mut out, magnitude % (SCALE as u128), FRACTION_DIGITS);
    assert(out@ =~= decimal_text(v as int));
    out
}

/// A run of digits that ends at `e` is found from its start.
pub proof fn lemma_run_end_at(t: Seq<char>, s: int, e: int)
    requires
        0 <= s <= e <= t.len(),
        forall|k: int| s <= k < e ==> is_digit(#[trigger] t[k]),
        e == t.len() || !is_digit(t[e]),
    ensures
        run_end(t, s) == e,
    decreases e - s,
{
    if s < e {
        assert(is_digit(t[s]));
        lemma_run_end_at(t, s + 1, e);
    }
}

/// The digits of a number are digits, and denote the number.
pub proof fn lemma_nat_digits_denote(n: nat)
    ensures
        nat_digits(n).len() >= 1,
        forall|k: int| 0 <= k < nat_digits(n).len() ==> is_digit(#[trigger] nat_digits(n)[k]),
        digits_value(nat_digits(n)) == n,
    decreases n,
{
    if n < 10 {
        assert(nat_digits(n).drop_last() =~= Seq::<char>::empty());
        assert(digits_value(Seq::<char>::empty()) == 0);
        assert(nat_digits(n).last() == digit_char(n as int));
    } else {
        lemma_nat_digits_denote(n / 10);
        assert(nat_digits(n).drop_last() =~= nat_digits(n / 10));
        assert(nat_digits(n).last() == digit_char((n % 10) as int));
    }
}

/// The last `width` digits of a number below `10^width` are digits, and
/// denote the number.
pub proof fn lemma_fixed_digits_denote(n: nat, width: nat)
    requires
        n < pow10(width),
    ensures
        fixed_digits(n, width).len() == width,
        forall|k: int|
            0 <= k < fixed_digits(n, width).len() ==> is_digit(#[trigger] fixed_digits(n, width)[k]),
        digits_value(fixed_digits(n, width)) == n,
    decreases width,
{
    if width > 0 {
        lemma_fixed_digits_denote(n / 10, (width - 1) as nat);
        assert(fixed_digits(n, width).drop_last() =~= fixed_digits(n / 10, (width - 1) as nat));
    }
}

/// What is written reads back as the same number, as long as its whole part
/// stays below `WHOLE_LIMIT`.
pub proof fn lemma_written_reads_back(v: int)
    requires
        -(WHOLE_LIMIT * SCALE) < v < WHOLE_LIMIT * SCALE,
    ensures
        decimal_of(decimal_text(v)) == Some(v),
{
    let a = if v < 0 {
        -v
    } else {
        v
    };
    let whole = (a / (SCALE as int)) as nat;
    let fraction = (a % (SCALE as int)) as nat;
    let w = nat_digits(whole);
    let f = fixed_digits(fraction, 12);
    let t = decimal_text(v);
    lemma_pow10_values();
    lemma_nat_digits_denote(whole);
    lemma_fixed_digits_denote(fraction, 12);
    let s: int = if v < 0 {
        1
    } else {
        0
    };
    let p = s + w.len();
    let q = p + 1 + 12;
    assert(t.len() == q);
    assert forall|k: int| s <= k < p implies is_digit(#[trigger] t[k]) by {
        assert(t[k] == w[k - s]);
    }
    assert(t[p] == '.');
    assert forall|k: int| p + 1 <= k < q implies is_digit(#[trigger] t[k]) by {
        assert(t[k] == f[k - p - 1]);
    }
    assert(is_digit(t[s]));
    assert(sign_len(t) == s);
    lemma_run_end_at(t, s, p);
    lemma_run_end_at(t, p + 1, q);
    assert(t.subrange(s, p) =~= w);
    assert(t.subrange(p + 1, q) =~= f);
    assert(f.take(12) =~= f);
    assert(fraction_units(f) == fraction);
    assert(whole * SCALE + fraction == a);
}

} // verus!
