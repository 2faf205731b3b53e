//! Decimal numbers and small string pieces, with their meaning stated.
//!
//! Capture file names, a Face's directory and the operator-facing messages
//! are all built out of these, so what each of them says is a statement about
//! character sequences rather than about a formatter.

use vstd::prelude::*;

verus! {

/// The character for one decimal digit.
pub open spec fn digit_char(d: int) -> char {
    if d == 0 {
        '0'
    } else if d == 1 {
        '1'
    } else if d == 2 {
        '2'
    } else if d == 3 {
        '3'
    } else if d == 4 {
        '4'
    } else if d == 5 {
        '5'
    } else if d == 6 {
        '6'
    } else if d == 7 {
        '7'
    } else if d == 8 {
        '8'
    } else {
        '9'
    }
}

/// `n` written in decimal, with no leading zeros ("0" for zero).
pub open spec fn decimal(n: nat) -> Seq<char>
    decreases n,
{
    if n < 10 {
        seq![digit_char(n as int)]
    } else {
        decimal(n / 10).push(digit_char((n % 10) as int))
    }
}

/// `n` in decimal, left-padded with zeros to at least `width` characters.
pub open spec fn zero_padded(n: nat, width: nat) -> Seq<char> {
    let digits = decimal(n);
    if digits.len() < width {
        Seq::new((width - digits.len()) as nat, |i: int| '0') + digits
    } else {
        digits
    }
}

/// `n` in decimal, with a leading minus sign when it is negative.
pub open spec fn signed_decimal(n: int) -> Seq<char> {
    if n < 0 {
        seq!['-'] + decimal((-n) as nat)
    } else {
        decimal(n as nat)
    }
}

/// The value of one decimal digit character.
pub open spec fn digit_value(c: char) -> nat {
    if c == '1' {
        1
    } else if c == '2' {
        2
    } else if c == '3' {
        3
    } else if c == '4' {
        4
    } else if c == '5' {
        5
    } else if c == '6' {
        6
    } else if c == '7' {
        7
    } else if c == '8' {
        8
    } else if c == '9' {
        9
    } else {
        0
    }
}

/// The number a run of decimal digits spells.
pub open spec fn decimal_value(s: Seq<char>) -> nat
    decreases s.len(),
{
    if s.len() == 0 {
        0
    } else {
        decimal_value(s.drop_last()) * 10 + digit_value(s.last())
    }
}

/// Reading `n` back from its decimal digits gives `n`.
pub proof fn lemma_decimal_value(n: nat)
    ensures
        decimal_value(decimal(n)) == n,
    decreases n,
{
    if n >= 10 {
        lemma_decimal_value(n / 10);
        assert(decimal(n).drop_last() =~= decimal(n / 10));
        assert(decimal(n).last() == digit_char((n % 10) as int));
        lemma_digit_value((n % 10) as int);
        vstd::arithmetic::div_mod::lemma_fundamental_div_mod(n as int, 10);
        assert(decimal(n).len() > 0);
        assert(decimal_value(decimal(n)) == decimal_value(decimal(n / 10)) * 10 + digit_value(
            digit_char((n % 10) as int),
        ));
        assert(decimal_value(decimal(n)) == (n / 10) * 10 + n % 10);
    } else {
        lemma_digit_value(n as int);
        assert(decimal(n) == seq![digit_char(n as int)]);
        assert(decimal(n).drop_last() =~= Seq::<char>::empty());
        assert(decimal_value(decimal(n)) == decimal_value(Seq::<char>::empty()) * 10 + digit_value(digit_char(n as int)));
    }
}

/// A digit character reads back as its digit.
proof fn lemma_digit_value(d: int)
    requires
        0 <= d < 10,
    ensures
        digit_value(digit_char(d)) == d,
{
    if d == 0 {
    } else if d == 1 {
    } else if d == 2 {
    } else if d == 3 {
    } else if d == 4 {
    } else if d == 5 {
    } else if d == 6 {
    } else if d == 7 {
    } else if d == 8 {
    } else {
    }
}

/// Leading zeros do not change the number digits spell.
pub proof fn lemma_leading_zeros(k: nat, s: Seq<char>)
    ensures
        decimal_value(Seq::new(k, |i: int| '0') + s) == decimal_value(s),
    decreases s.len(), k,
{
    let zeros = Seq::new(k, |i: int| '0');
    if s.len() == 0 {
        assert(zeros + s =~= zeros);
        if k > 0 {
            lemma_leading_zeros((k - 1) as nat, s);
            assert(zeros.drop_last() =~= Seq::new((k - 1) as nat, |i: int| '0') + s);
        }
    } else {
        lemma_leading_zeros(k, s.drop_last());
        assert((zeros + s).drop_last() =~= zeros + s.drop_last());
    }
}

/// Reading `n` back from its zero-padded digits gives `n`, whatever the
/// padding.
pub proof fn lemma_zero_padded_value(n: nat, width: nat)
    ensures
        decimal_value(zero_padded(n, width)) == n,
{
    lemma_decimal_value(n);
    let digits = decimal(n);
    if digits.len() < width {
        lemma_leading_zeros((width - digits.len()) as nat, digits);
    }
}

/// Appends one character.
///
/// Calls `String::push`, which the standard library documents as appending
/// the given `char` to the end of the string; that is all this claims.
#[verifier::external_body]
pub(crate) fn push_char(s: &mut String, c: char)
    ensures
        final(s)@ == old(s)@.push(c),
{
    s.push(c);
}

/// The character for decimal digit `d`.
pub fn digit(d: u128) -> (c: char)
    requires
        d < 10,
    ensures
        c == digit_char(d as int),
{
    match d {
        0 => '0',
        1 => '1',
        2 => '2',
        3 => '3',
        4 => '4',
        5 => '5',
        6 => '6',
        7 => '7',
        8 => '8',
        _ => '9',
    }
}

/// Appends `n` in decimal.
pub fn push_decimal(s: &mut String, n: u128)
    ensures
        final(s)@ == old(s)@ + decimal(n as nat),
    decreases n,
{
    if n >= 10 {
        push_decimal(s, n / 10);
    }
    push_char(s, digit(n % 10));
    proof {
        if n >= 10 {
            assert(final(s)@ =~= old(s)@ + decimal(n as nat));
        } else {
            assert(final(s)@ =~= old(s)@ + decimal(n as nat));
        }
    }
}

/// How many characters `n` takes in decimal.
pub fn decimal_len(n: u128) -> (r: usize)
    ensures
        r == decimal(n as nat).len(),
        1 <= r <= 39,
    decreases n,
{
    if n >= 10 {
        let rest = decimal_len(n / 10);
        assert(rest < 39) by {
            lemma_decimal_len_bound(n as nat);
        }
        rest + 1
    } else {
        1
    }
}

/// Ten to the power `k`.
pub open spec fn pow10(k: nat) -> nat
    decreases k,
{
    if k == 0 {
        1
    } else {
        10 * pow10((k - 1) as nat)
    }
}

/// A number below `10^k` takes at most `k` characters in decimal.
pub proof fn lemma_decimal_len_le(n: nat, k: nat)
    requires
        k >= 1,
        n < pow10(k),
    ensures
        1 <= decimal(n).len() <= k,
    decreases n,
{
    if n >= 10 {
        if k == 1 {
            assert(pow10(1) == 10) by {
                reveal_with_fuel(pow10, 2);
            }
        }
        let p = pow10((k - 1) as nat);
        assert(n / 10 < p) by (nonlinear_arith)
            requires
                n < 10 * p,
        ;
        lemma_decimal_len_le(n / 10, (k - 1) as nat);
    }
}

/// Whether every character of `s` is a decimal digit.
pub open spec fn all_digits(s: Seq<char>) -> bool {
    forall|j: int| 0 <= j < s.len() ==> '0' <= #[trigger] s[j] <= '9'
}

/// A number written in decimal is all digits.
pub proof fn lemma_decimal_digits(n: nat)
    ensures
        all_digits(decimal(n)),
    decreases n,
{
    if n >= 10 {
        lemma_decimal_digits(n / 10);
        let d = decimal(n);
        assert forall|j: int| 0 <= j < d.len() implies '0' <= #[trigger] d[j] <= '9' by {
            if j < d.len() - 1 {
                assert(d[j] == decimal(n / 10)[j]);
            }
        }
    }
}

/// A zero-padded number is all digits.
pub proof fn lemma_zero_padded_digits(n: nat, width: nat)
    ensures
        all_digits(zero_padded(n, width)),
{
    lemma_decimal_digits(n);
    let digits = decimal(n);
    if digits.len() < width {
        let z = zero_padded(n, width);
        let k = width - digits.len();
        assert forall|j: int| 0 <= j < z.len() implies '0' <= #[trigger] z[j] <= '9' by {
            if j >= k {
                assert(z[j] == digits[j - k]);
            }
        }
    }
}

/// Whether `a` sorts before `b` character by character, as strings compare:
/// at the first place they differ `a` has the smaller character, or `a` is a
/// proper prefix of `b`.
pub open spec fn text_before(a: Seq<char>, b: Seq<char>) -> bool {
    exists|k: int|
        #![trigger a.take(k), b.take(k)]
        0 <= k <= a.len() && k <= b.len() && a.take(k) == b.take(k) && if k < a.len() {
            k < b.len() && (a[k] as u32) < (b[k] as u32)
        } else {
            k < b.len()
        }
}

/// `a` and `b` agree before position `k` and `a` has the smaller character
/// there.
pub open spec fn first_smaller_at(a: Seq<char>, b: Seq<char>, k: int) -> bool {
    &&& 0 <= k < a.len()
    &&& k < b.len()
    &&& a.take(k) == b.take(k)
    &&& (a[k] as u32) < (b[k] as u32)
}

/// A first difference with the smaller character in `a` puts `a` first.
pub proof fn lemma_first_smaller_sorts_before(a: Seq<char>, b: Seq<char>, k: int)
    requires
        first_smaller_at(a, b, k),
    ensures
        text_before(a, b),
{
    assert(a.take(k) == b.take(k));
}

/// A first difference survives a common prefix in front and anything after.
pub proof fn lemma_first_smaller_in_context(
    a: Seq<char>,
    b: Seq<char>,
    k: int,
    front: Seq<char>,
    a_back: Seq<char>,
    b_back: Seq<char>,
)
    requires
        first_smaller_at(a, b, k),
    ensures
        first_smaller_at(front + a + a_back, front + b + b_back, front.len() + k),
{
    let x = front + a + a_back;
    let y = front + b + b_back;
    let j = front.len() + k;
    assert(x.take(j) =~= front + a.take(k));
    assert(y.take(j) =~= front + b.take(k));
    assert(x[j] == a[k]);
    assert(y[j] == b[k]);
}

/// Digit characters are in code-point order.
proof fn lemma_digit_code(d: int)
    requires
        0 <= d < 10,
    ensures
        digit_char(d) as u32 == 48 + d,
{
}

/// Below `10^width`, the zero-padded form is exactly `width` characters long.
pub proof fn lemma_zero_padded_len(n: nat, width: nat)
    requires
        width >= 1,
        n < pow10(width),
    ensures
        zero_padded(n, width).len() == width,
{
    lemma_decimal_len_le(n, width);
}

/// Zero-padding to `width + 1` places is padding the tens to `width` places
/// and writing the units digit after them.
proof fn lemma_zero_padded_step(n: nat, width: nat)
    requires
        width >= 1,
        n < pow10(width + 1),
    ensures
        zero_padded(n, width + 1) =~= zero_padded(n / 10, width).push(digit_char((n % 10) as int)),
{
    let q = n / 10;
    assert(q < pow10(width)) by (nonlinear_arith)
        requires
            n < 10 * pow10(width),
            q == n / 10,
    ;
    lemma_decimal_len_le(q, width);
    if n >= 10 {
        assert(decimal(n) == decimal(q).push(digit_char((n % 10) as int)));
        let digits = decimal(q);
        if digits.len() < width {
            let zeros = Seq::new((width - digits.len()) as nat, |i: int| '0');
            assert(zero_padded(n, width + 1) =~= zeros + digits.push(digit_char((n % 10) as int)));
        }
    } else {
        assert(q == 0);
        assert(decimal(0) == seq![digit_char(0)]);
        assert(decimal(n) == seq![digit_char(n as int)]);
        let zeros = Seq::new(width, |i: int| '0');
        assert(zero_padded(0, width) =~= zeros);
        assert(zero_padded(n, width + 1) =~= zeros + seq![digit_char(n as int)]);
    }
}

/// Zero-padded numbers of one width sort as the numbers do.
pub proof fn lemma_zero_padded_order(m: nat, n: nat, width: nat)
    requires
        width >= 1,
        m < n < pow10(width),
    ensures
        exists|k: int| first_smaller_at(zero_padded(m, width), zero_padded(n, width), k),
    decreases width,
{
    if width == 1 {
        assert(pow10(1) == 10) by {
            reveal_with_fuel(pow10, 2);
        }
        assert(decimal(m) == seq![digit_char(m as int)]);
        assert(decimal(n) == seq![digit_char(n as int)]);
        lemma_digit_code(m as int);
        lemma_digit_code(n as int);
        assert(zero_padded(m, 1).take(0) =~= zero_padded(n, 1).take(0));
        assert(first_smaller_at(zero_padded(m, 1), zero_padded(n, 1), 0));
    } else {
        let w = (width - 1) as nat;
        lemma_zero_padded_step(m, w);
        lemma_zero_padded_step(n, w);
        let qm = m / 10;
        let qn = n / 10;
        assert(qm < pow10(w) && qn < pow10(w)) by (nonlinear_arith)
            requires
                m < 10 * pow10(w),
                n < 10 * pow10(w),
                qm == m / 10,
                qn == n / 10,
        ;
        lemma_zero_padded_len(qm, w);
        lemma_zero_padded_len(qn, w);
        let a = zero_padded(qm, w);
        let b = zero_padded(qn, w);
        let dm = digit_char((m % 10) as int);
        let dn = digit_char((n % 10) as int);
        if qm < qn {
            lemma_zero_padded_order(qm, qn, w);
            let k = choose|k: int| first_smaller_at(a, b, k);
            assert(a.push(dm).take(k) =~= a.take(k));
            assert(b.push(dn).take(k) =~= b.take(k));
            assert(first_smaller_at(a.push(dm), b.push(dn), k));
        } else {
            assert(qm == qn) by (nonlinear_arith)
                requires
                    m < n,
                    !(qm < qn),
                    qm == m / 10,
                    qn == n / 10,
            ;
            assert(m % 10 < n % 10) by (nonlinear_arith)
                requires
                    m < n,
                    qm == qn,
                    qm == m / 10,
                    qn == n / 10,
            ;
            lemma_digit_code((m % 10) as int);
            lemma_digit_code((n % 10) as int);
            assert(a.push(dm).take(w as int) =~= b.push(dn).take(w as int));
            assert(first_smaller_at(a.push(dm), b.push(dn), w as int));
        }
    }
}

/// A decimal representation is short: at most thirty-nine characters for any
/// `u128`.
pub proof fn lemma_decimal_len_bound(n: nat)
    requires
        n <= u128::MAX,
    ensures
        1 <= decimal(n).len() <= 39,
{
    assert(pow10(39) == 1000000000000000000000000000000000000000) by {
        reveal_with_fuel(pow10, 40);
    }
    lemma_decimal_len_le(n, 39);
}

/// Appends `n` in decimal, zero-padded to at least `width` characters.
pub fn push_zero_padded(s: &mut String, n: u128, width: usize)
    ensures
        final(s)@ == old(s)@ + zero_padded(n as nat, width as nat),
{
    let len = decimal_len(n);
    let ghost start = s@;
    if len < width {
        let pad = width - len;
        let mut i: usize = 0;
        while i < pad
            invariant
                i <= pad,
                s@ == start + Seq::new(i as nat, |k: int| '0'),
            decreases pad - i,
        {
            push_char(s, '0');
            i = i + 1;
            assert(s@ =~= start + Seq::new(i as nat, |k: int| '0'));
        }
    }
    let ghost padded = s@;
    push_decimal(s, n);
    assert(s@ =~= start + zero_padded(n as nat, width as nat));
}

/// Appends `n` in decimal, with a minus sign when it is negative.
pub fn push_signed_decimal(s: &mut String, n: i64)
    ensures
        final(s)@ == old(s)@ + signed_decimal(n as int),
{
    if n < 0 {
        push_char(s, '-');
        let magnitude: u128 = if n == i64::MIN {
            9223372036854775808u128
        } else {
            (-n) as u128
        };
        push_decimal(s, magnitude);
        assert(final(s)@ =~= old(s)@ + signed_decimal(n as int));
    } else {
        push_decimal(s, n as u128);
    }
}

/// A fresh string holding `n` in decimal.
pub fn decimal_string(n: u128) -> (r: String)
    ensures
        r@ == decimal(n as nat),
{
    let mut s = String::new();
    push_decimal(&mut s, n);
    assert(s@ =~= decimal(n as nat));
    s
}

/// Appends every character of `t`.
pub fn push_str(s: &mut String, t: &str)
    ensures
        final(s)@ == old(s)@ + t@,
{
    let chars = chars_of(t);
    let ghost start = s@;
    let mut i: usize = 0;
    while i < chars.len()
        invariant
            i <= chars@.len(),
            chars@ == t@,
            s@ == start + t@.take(i as int),
        decreases chars@.len() - i,
    {
        push_char(s, chars[i]);
        i = i + 1;
        assert(s@ =~= start + t@.take(i as int));
    }
    assert(t@.take(t@.len() as int) =~= t@);
}

/// A fresh string holding the characters of `t`.
pub fn string_of(t: &str) -> (r: String)
    ensures
        r@ == t@,
{
    let mut s = String::new();
    push_str(&mut s, t);
    assert(s@ =~= t@);
    s
}

/// `t` left-justified in a field of `width` characters: followed by spaces
/// until it is `width` long, unchanged when it is already that long.
pub open spec fn padded_right(t: Seq<char>, width: nat) -> Seq<char> {
    if t.len() < width {
        t + Seq::new((width - t.len()) as nat, |i: int| ' ')
    } else {
        t
    }
}

/// Appends `t` left-justified in a field of `width` characters.
pub fn push_padded(s: &mut String, t: &str, width: usize)
    ensures
        final(s)@ == old(s)@ + padded_right(t@, width as nat),
{
    let ghost start = s@;
    push_str(s, t);
    let n = t.unicode_len();
    if n < width {
        let mut i: usize = n;
        while i < width
            invariant
                n <= i <= width,
                n == t@.len(),
                s@ == start + t@ + Seq::new((i - n) as nat, |k: int| ' '),
            decreases width - i,
        {
            push_char(s, ' ');
            i = i + 1;
            assert(s@ =~= start + t@ + Seq::new((i - n) as nat, |k: int| ' '));
        }
        assert(s@ =~= start + padded_right(t@, width as nat));
    }
}

/// Whether `needle` occurs in `haystack` as a contiguous run.
pub open spec fn occurs_in(haystack: Seq<char>, needle: Seq<char>) -> bool {
    exists|i: int|
        0 <= i && i + needle.len() <= haystack.len() && #[trigger] haystack.subrange(
            i,
            i + needle.len(),
        ) == needle
}

/// Whether `needle` occurs at position `at` of `haystack`.
fn matches_at(haystack: &Vec<char>, needle: &Vec<char>, at: usize) -> (r: bool)
    requires
        at + needle@.len() <= haystack@.len(),
    ensures
        r == (haystack@.subrange(at as int, at + needle@.len()) == needle@),
{
    let n = needle.len();
    let hl = haystack.len();
    let mut k: usize = 0;
    while k < n
        invariant
            n == needle@.len(),
            hl == haystack@.len(),
            at + n <= haystack@.len(),
            k <= n,
            forall|j: int| 0 <= j < k ==> haystack@[at + j] == needle@[j],
        decreases n - k,
    {
        if haystack[at + k] != needle[k] {
            assert(haystack@.subrange(at as int, at + n)[k as int] != needle@[k as int]);
            return false;
        }
        k = k + 1;
    }
    assert(haystack@.subrange(at as int, at + n) =~= needle@);
    true
}

/// Whether `needle` occurs anywhere in `haystack`.
pub fn occurs(haystack: &Vec<char>, needle: &Vec<char>) -> (r: bool)
    ensures
        r == occurs_in(haystack@, needle@),
{
    let h = haystack.len();
    let n = needle.len();
    if n > h {
        assert forall|i: int|
            0 <= i && i + n <= h implies #[trigger] haystack@.subrange(i, i + n) != needle@ by {}
        return false;
    }
    if n == 0 {
        assert(haystack@.subrange(0int, 0int + needle@.len()) =~= needle@);
        return true;
    }
    let mut at: usize = 0;
    while at <= h - n
        invariant
            h == haystack@.len(),
            n == needle@.len(),
            1 <= n <= h,
            at <= h - n + 1,
            forall|i: int|
                0 <= i < at ==> #[trigger] haystack@.subrange(i, i + n) != needle@,
        decreases h - at,
    {
        if matches_at(haystack, needle, at) {
            return true;
        }
        at = at + 1;
    }
    assert forall|i: int|
        0 <= i && i + n <= h implies #[trigger] haystack@.subrange(i, i + n) != needle@ by {}
    false
}

/// The characters of `s`, in order.
pub fn chars_of(s: &str) -> (r: Vec<char>)
    ensures
        r@ == s@,
{
    let n = s.unicode_len();
    let mut r: Vec<char> = Vec::new();
    let mut i: usize = 0;
    while i < n
        invariant
            n == s@.len(),
            i <= n,
            r@ == s@.take(i as int),
        decreases n - i,
    {
        r.push(s.get_char(i));
        i = i + 1;
        assert(r@ =~= s@.take(i as int));
    }
    assert(s@.take(n as int) =~= s@);
    r
}

} // verus!
