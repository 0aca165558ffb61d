//! Fixed-point numeric text: parsing decimal literals into thousandths
//! ("milli-units") and formatting scaled integers back into decimal text.
//!
//! Every physical quantity in this crate is carried as a signed integer in a
//! fixed decimal scale of its display unit, so that parsing, comparison and
//! rendering are exact.

use vstd::prelude::*;

verus! {

/// A digit character: `'0'` through `'9'`.
pub open spec fn is_digit(c: char) -> bool {
    48 <= c as u32 <= 57
}

/// Numeric value of a digit character.
pub open spec fn digit_val(c: char) -> int {
    c as u32 - 48
}

/// The digit character for a value in `0 ..= 9`.
pub open spec fn digit_char(d: int) -> char {
    if d == 0 {
        '0'
    } else if d == 1 {
        '1'
    } else if d == 2 {
        '2'
    } else if d == 3 {
        '3'
    } else if d == 4 {
        '4'
    } else if d == 5 {
        '5'
    } else if d == 6 {
        '6'
    } else if d == 7 {
        '7'
    } else if d == 8 {
        '8'
    } else {
        '9'
    }
}

/// Decimal digit string of a natural number, most significant digit first.
pub open spec fn dec_str(n: nat) -> Seq<char>
    decreases n,
{
    if n < 10 {
        seq![digit_char(n as int)]
    } else {
        dec_str(n / 10) + seq![digit_char((n % 10) as int)]
    }
}

/// Absolute value of an integer.
pub open spec fn iabs(v: int) -> int {
    if v < 0 {
        -v
    } else {
        v
    }
}

/// Decimal string of a signed integer: a leading `'-'` for negative values.
pub open spec fn int_str(v: int) -> Seq<char> {
    if v < 0 {
        seq!['-'] + dec_str((-v) as nat)
    } else {
        dec_str(v as nat)
    }
}

/// `n` space characters.
pub open spec fn spaces(n: nat) -> Seq<char>
    decreases n,
{
    if n == 0 {
        Seq::empty()
    } else {
        spaces((n - 1) as nat) + seq![' ']
    }
}

/// Right-justify `s` in a field of `w` characters; a wider `s` is kept whole.
pub open spec fn pad_left(s: Seq<char>, w: nat) -> Seq<char> {
    if s.len() >= w {
        s
    } else {
        spaces((w - s.len()) as nat) + s
    }
}

/// Exactly two digits for a value in `0 ..= 99`.
pub open spec fn two_digits(n: int) -> Seq<char> {
    seq![digit_char(n / 10), digit_char(n % 10)]
}

/// Exactly three digits for a value in `0 ..= 999`.
pub open spec fn three_digits(n: int) -> Seq<char> {
    seq![digit_char(n / 100), digit_char((n / 10) % 10), digit_char(n % 10)]
}

/// Decimal text, two places, of a value counted in hundredths.
pub open spec fn fixed2_str(v: int) -> Seq<char> {
    let sign: Seq<char> = if v < 0 {
        seq!['-']
    } else {
        Seq::empty()
    };
    sign + dec_str((iabs(v) / 100) as nat) + seq!['.'] + two_digits(iabs(v) % 100)
}

/// Decimal text, three places, of a value counted in thousandths.
pub open spec fn fixed3_str(v: int) -> Seq<char> {
    let sign: Seq<char> = if v < 0 {
        seq!['-']
    } else {
        Seq::empty()
    };
    sign + dec_str((iabs(v) / 1000) as nat) + seq!['.'] + three_digits(iabs(v) % 1000)
}

/// Powers of ten.
pub open spec fn pow10(n: nat) -> int
    decreases n,
{
    if n == 0 {
        1
    } else {
        10 * pow10((n - 1) as nat)
    }
}

/// Value of a run of digit characters, most significant first.
pub open spec fn digits_val(s: Seq<char>) -> int
    decreases s.len(),
{
    if s.len() == 0 {
        0
    } else {
        digits_val(s.drop_last()) * 10 + digit_val(s.last())
    }
}

/// Length of the longest digit-only prefix of `s`.
pub open spec fn digit_prefix_len(s: Seq<char>) -> nat
    decreases s.len(),
{
    if s.len() > 0 && is_digit(s[0]) {
        1 + digit_prefix_len(s.drop_first())
    } else {
        0
    }
}

pub proof fn lemma_pow10_pos(n: nat)
    ensures
        pow10(n) >= 1,
    decreases n,
{
    if n > 0 {
        lemma_pow10_pos((n - 1) as nat);
    }
}

pub proof fn lemma_pow10_mono(m: nat, n: nat)
    requires
        m <= n,
    ensures
        pow10(m) <= pow10(n),
    decreases n,
{
    if m < n {
        lemma_pow10_mono(m, (n - 1) as nat);
        lemma_pow10_pos((n - 1) as nat);
    }
}

pub proof fn lemma_pow10_15()
    ensures
        pow10(15) == 1000000000000000,
{
    reveal_with_fuel(pow10, 16);
}

/// Every position below the digit prefix holds a digit, and the position at
/// its end, if any, does not.
pub proof fn lemma_digit_prefix_chars(s: Seq<char>)
    ensures
        digit_prefix_len(s) <= s.len(),
        forall|i: int| 0 <= i < digit_prefix_len(s) ==> is_digit(s[i]),
        digit_prefix_len(s) < s.len() ==> !is_digit(s[digit_prefix_len(s) as int]),
    decreases s.len(),
{
    if s.len() > 0 && is_digit(s[0]) {
        lemma_digit_prefix_chars(s.drop_first());
        assert forall|i: int| 0 <= i < digit_prefix_len(s) implies is_digit(s[i]) by {
            if 1 <= i < digit_prefix_len(s) {
                assert(is_digit(s.drop_first()[i - 1]));
            }
        }
        if digit_prefix_len(s) < s.len() {
            assert(!is_digit(s.drop_first()[digit_prefix_len(s) - 1]));
        }
    }
}

/// If the first `m` characters are digits, the digit prefix reaches `m`.
pub proof fn lemma_digit_prefix_at_least(s: Seq<char>, m: int)
    requires
        0 <= m <= s.len(),
        forall|i: int| 0 <= i < m ==> is_digit(s[i]),
    ensures
        digit_prefix_len(s) >= m,
    decreases m,
{
    if m > 0 {
        assert(is_digit(s[0]));
        assert(forall|i: int| 0 <= i < m - 1 ==> is_digit(#[trigger] s.drop_first()[i]));
        lemma_digit_prefix_at_least(s.drop_first(), m - 1);
    }
}

/// The digit prefix ends exactly where the digits end.
pub proof fn lemma_digit_prefix_exact(s: Seq<char>, k: int)
    requires
        0 <= k <= s.len(),
        forall|i: int| 0 <= i < k ==> is_digit(s[i]),
        k == s.len() || !is_digit(s[k]),
    ensures
        digit_prefix_len(s) == k,
{
    lemma_digit_prefix_at_least(s, k);
    lemma_digit_prefix_chars(s);
    if digit_prefix_len(s) > k {
        assert(is_digit(s[k]));
    }
}

/// Scale factor that brings a fraction of `n` digits to thousandths.
pub open spec fn frac_scale(n: int) -> int {
    if n == 0 {
        1000
    } else if n == 1 {
        100
    } else if n == 2 {
        10
    } else {
        1
    }
}

/// Well-formedness of an unsigned decimal body: a run of at most fifteen
/// integer digits, optionally followed by `'.'` and at most three fraction
/// digits, with at least one digit in all.
pub open spec fn dec_body_ok(u: Seq<char>) -> bool {
    let k = digit_prefix_len(u) as int;
    &&& k <= 15
    &&& if k == u.len() {
        k >= 1
    } else {
        &&& u[k] == '.'
        &&& forall|i: int| k < i < u.len() ==> is_digit(u[i])
        &&& u.len() - k - 1 <= 3
        &&& u.len() >= 2
    }
}

/// Value in thousandths of a well-formed unsigned decimal body.
pub open spec fn dec_body_val(u: Seq<char>) -> int {
    let k = digit_prefix_len(u) as int;
    if k == u.len() {
        digits_val(u) * 1000
    } else {
        let frac = u.subrange(k + 1, u.len() as int);
        digits_val(u.take(k)) * 1000 + digits_val(frac) * frac_scale(frac.len() as int)
    }
}

/// The body of a decimal literal: the text after an optional leading sign.
pub open spec fn dec_body(s: Seq<char>) -> Seq<char> {
    if s.len() > 0 && (s[0] == '-' || s[0] == '+') {
        s.drop_first()
    } else {
        s
    }
}

/// Whether `s` is a decimal literal this crate accepts: an optional sign
/// (`'-'` only where the field allows it) before a well-formed body.
pub open spec fn dec_parses(s: Seq<char>, allow_neg: bool) -> bool {
    &&& s.len() > 0
    &&& (s[0] == '-' ==> allow_neg)
    &&& dec_body_ok(dec_body(s))
}

/// Signed value in thousandths of a well-formed decimal literal.
pub open spec fn dec_val(s: Seq<char>) -> int {
    if s.len() > 0 && s[0] == '-' {
        -dec_body_val(dec_body(s))
    } else {
        dec_body_val(dec_body(s))
    }
}

/// No character of `s` is a newline.
pub open spec fn no_newline(s: Seq<char>) -> bool {
    forall|i: int| 0 <= i < s.len() ==> s[i] != '\n'
}

pub proof fn lemma_no_newline_concat(a: Seq<char>, b: Seq<char>)
    requires
        no_newline(a),
        no_newline(b),
    ensures
        no_newline(a + b),
{
    assert forall|i: int| 0 <= i < (a + b).len() implies (a + b)[i] != '\n' by {
        if i < a.len() {
            assert(a[i] != '\n');
        } else {
            assert(b[i - a.len()] != '\n');
        }
    }
}

/// Decimal digit strings hold digits only.
pub proof fn lemma_dec_str_no_newline(n: nat)
    ensures
        no_newline(dec_str(n)),
    decreases n,
{
    if n < 10 {
        assert(no_newline(seq![digit_char(n as int)]));
    } else {
        lemma_dec_str_no_newline(n / 10);
        assert(no_newline(seq![digit_char((n % 10) as int)]));
        lemma_no_newline_concat(dec_str(n / 10), seq![digit_char((n % 10) as int)]);
    }
}

pub proof fn lemma_spaces_no_newline(n: nat)
    ensures
        no_newline(spaces(n)),
    decreases n,
{
    if n > 0 {
        lemma_spaces_no_newline((n - 1) as nat);
        assert(no_newline(seq![' ']));
        lemma_no_newline_concat(spaces((n - 1) as nat), seq![' ']);
    }
}

pub proof fn lemma_pad_left_no_newline(s: Seq<char>, w: nat)
    requires
        no_newline(s),
    ensures
        no_newline(pad_left(s, w)),
{
    if s.len() < w {
        lemma_spaces_no_newline((w - s.len()) as nat);
        lemma_no_newline_concat(spaces((w - s.len()) as nat), s);
    }
}

pub proof fn lemma_int_str_no_newline(v: int)
    ensures
        no_newline(int_str(v)),
{
    if v < 0 {
        lemma_dec_str_no_newline((-v) as nat);
        assert(no_newline(seq!['-']));
        lemma_no_newline_concat(seq!['-'], dec_str((-v) as nat));
    } else {
        lemma_dec_str_no_newline(v as nat);
    }
}

pub proof fn lemma_fixed2_str_no_newline(v: int)
    ensures
        no_newline(fixed2_str(v)),
{
    let sign: Seq<char> = if v < 0 {
        seq!['-']
    } else {
        Seq::empty()
    };
    assert(no_newline(sign));
    lemma_dec_str_no_newline((iabs(v) / 100) as nat);
    lemma_no_newline_concat(sign, dec_str((iabs(v) / 100) as nat));
    assert(no_newline(seq!['.']));
    lemma_no_newline_concat(sign + dec_str((iabs(v) / 100) as nat), seq!['.']);
    assert(no_newline(two_digits(iabs(v) % 100)));
    lemma_no_newline_concat(
        sign + dec_str((iabs(v) / 100) as nat) + seq!['.'],
        two_digits(iabs(v) % 100),
    );
}

pub proof fn lemma_fixed3_str_no_newline(v: int)
    ensures
        no_newline(fixed3_str(v)),
{
    let sign: Seq<char> = if v < 0 {
        seq!['-']
    } else {
        Seq::empty()
    };
    assert(no_newline(sign));
    lemma_dec_str_no_newline((iabs(v) / 1000) as nat);
    lemma_no_newline_concat(sign, dec_str((iabs(v) / 1000) as nat));
    assert(no_newline(seq!['.']));
    lemma_no_newline_concat(sign + dec_str((iabs(v) / 1000) as nat), seq!['.']);
    assert(no_newline(three_digits(iabs(v) % 1000)));
    lemma_no_newline_concat(
        sign + dec_str((iabs(v) / 1000) as nat) + seq!['.'],
        three_digits(iabs(v) % 1000),
    );
}

/// A value in thousandths brought to hundredths, rounding halves away from
/// zero.
pub open spec fn centi_round(v: int) -> int {
    if v >= 0 {
        (v + 5) / 10
    } else {
        -((-v + 5) / 10)
    }
}

/// Bring a value counted in thousandths to hundredths, rounding halves away
/// from zero; exact on the whole `i64` range.
pub fn centi_of_milli(v: i64) -> (r: i64)
    ensures
        r as int == centi_round(v as int),
{
    let w = v as i128;
    if w >= 0 {
        ((w + 5) / 10) as i64
    } else {
        (-((-w + 5) / 10)) as i64
    }
}

/// Whether `c` is a digit, decided exactly as `is_digit` says.
pub fn digit_of(c: char) -> (r: Option<u64>)
    ensures
        r is Some <==> is_digit(c),
        r is Some ==> r->0 == digit_val(c),
{
    let u = c as u32;
    if 48 <= u && u <= 57 {
        Some((u - 48) as u64)
    } else {
        None
    }
}

/// The one-character string for a digit value.
pub fn digit_str(d: u64) -> (r: &'static str)
    requires
        d < 10,
    ensures
        r@ == seq![digit_char(d as int)],
{
    if d == 0 {
        proof {
            reveal_strlit("0");
            assert("0"@ =~= seq![digit_char(0)]);
        }
        "0"
    } else if d == 1 {
        proof {
            reveal_strlit("1");
            assert("1"@ =~= seq![digit_char(1)]);
        }
        "1"
    } else if d == 2 {
        proof {
            reveal_strlit("2");
            assert("2"@ =~= seq![digit_char(2)]);
        }
        "2"
    } else if d == 3 {
        proof {
            reveal_strlit("3");
            assert("3"@ =~= seq![digit_char(3)]);
        }
        "3"
    } else if d == 4 {
        proof {
            reveal_strlit("4");
            assert("4"@ =~= seq![digit_char(4)]);
        }
        "4"
    } else if d == 5 {
        proof {
            reveal_strlit("5");
            assert("5"@ =~= seq![digit_char(5)]);
        }
        "5"
    } else if d == 6 {
        proof {
            reveal_strlit("6");
            assert("6"@ =~= seq![digit_char(6)]);
        }
        "6"
    } else if d == 7 {
        proof {
            reveal_strlit("7");
            assert("7"@ =~= seq![digit_char(7)]);
        }
        "7"
    } else if d == 8 {
        proof {
            reveal_strlit("8");
            assert("8"@ =~= seq![digit_char(8)]);
        }
        "8"
    } else {
        proof {
            reveal_strlit("9");
            assert("9"@ =~= seq![digit_char(9)]);
        }
        "9"
    }
}

/// Decimal digits of `n`, most significant first.
pub fn u64_str(n: u64) -> (r: String)
    ensures
        r@ == dec_str(n as nat),
    decreases n,
{
    if n < 10 {
        digit_str(n).to_owned()
    } else {
        let mut s = u64_str(n / 10);
        s.append(digit_str(n % 10));
        assert(s@ =~= dec_str(n as nat));
        s
    }
}

/// Magnitude of `v` as an unsigned value; exact on the whole `i64` range.
pub fn u64_abs(v: i64) -> (r: u64)
    ensures
        r as int == iabs(v as int),
{
    if v < 0 {
        (-(v as i128)) as u64
    } else {
        v as u64
    }
}

/// Decimal text of a signed integer.
pub fn i64_str(v: i64) -> (r: String)
    ensures
        r@ == int_str(v as int),
{
    let m = u64_abs(v);
    if v < 0 {
        proof {
            reveal_strlit("-");
            assert("-"@ =~= seq!['-']);
        }
        let mut s = "-".to_owned();
        let digits = u64_str(m);
        s.append(digits.as_str());
        assert(s@ =~= int_str(v as int));
        s
    } else {
        u64_str(m)
    }
}

/// Right-justify `s` in a field of `width` characters.
pub fn pad_left_str(s: &str, width: usize) -> (r: String)
    ensures
        r@ == pad_left(s@, width as nat),
{
    let n = s.unicode_len();
    if n >= width {
        s.to_owned()
    } else {
        let pad = width - n;
        let mut out = String::new();
        let mut i: usize = 0;
        proof {
            reveal_strlit(" ");
            assert(" "@ =~= seq![' ']);
        }
        while i < pad
            invariant
                i <= pad,
                out@ == spaces(i as nat),
                " "@ == seq![' '],
            decreases pad - i,
        {
            out.append(" ");
            i = i + 1;
            assert(out@ =~= spaces(i as nat));
        }
        out.append(s);
        assert(out@ =~= pad_left(s@, width as nat));
        out
    }
}

/// Two-decimal text of a value counted in hundredths.
pub fn fixed2(v: i64) -> (r: String)
    ensures
        r@ == fixed2_str(v as int),
{
    let m = u64_abs(v);
    let mut s = if v < 0 {
        proof {
            reveal_strlit("-");
            assert("-"@ =~= seq!['-']);
        }
        "-".to_owned()
    } else {
        String::new()
    };
    let whole = u64_str(m / 100);
    s.append(whole.as_str());
    proof {
        reveal_strlit(".");
        assert("."@ =~= seq!['.']);
    }
    s.append(".");
    let f = m % 100;
    s.append(digit_str(f / 10));
    s.append(digit_str(f % 10));
    assert(s@ =~= fixed2_str(v as int));
    s
}

/// Two-decimal text of the magnitude of a value counted in hundredths.
pub fn fixed2_abs(v: i64) -> (r: String)
    ensures
        r@ == fixed2_str(iabs(v as int)),
{
    let m = u64_abs(v);
    let mut s = String::new();
    let whole = u64_str(m / 100);
    s.append(whole.as_str());
    proof {
        reveal_strlit(".");
        assert("."@ =~= seq!['.']);
    }
    s.append(".");
    let f = m % 100;
    s.append(digit_str(f / 10));
    s.append(digit_str(f % 10));
    assert(s@ =~= fixed2_str(iabs(v as int)));
    s
}

/// Parse a decimal literal into thousandths.
///
/// Accepts an optional leading sign (`'-'` only when `allow_neg` holds),
/// at most fifteen integer digits and at most three fraction digits; any
/// other text yields `None`, exactly as `dec_parses` says.
pub fn parse_decimal(s: &str, allow_neg: bool) -> (r: Option<i64>)
    ensures
        r is Some <==> dec_parses(s@, allow_neg),
        r is Some ==> r->0 as int == dec_val(s@),
{
    let n = s.unicode_len();
    if n == 0 {
        return None;
    }
    let c0 = s.get_char(0);
    let neg = c0 == '-';
    if neg && !allow_neg {
        return None;
    }
    let start: usize = if c0 == '-' || c0 == '+' {
        1
    } else {
        0
    };
    let ghost body = dec_body(s@);
    proof {
        assert(body =~= s@.subrange(start as int, n as int));
    }
    let mut i = start;
    let mut intv: u64 = 0;
    let mut done = false;
    proof {
        lemma_pow10_15();
    }
    while i < n && !done
        invariant
            start <= i <= n,
            n == s@.len(),
            body == s@.subrange(start as int, n as int),
            body == dec_body(s@),
            done ==> i < n && !is_digit(s@[i as int]),
            forall|j: int| start <= j < i ==> is_digit(s@[j]),
            intv as int == digits_val(s@.subrange(start as int, i as int)),
            intv < pow10((i - start) as nat),
            i - start <= 15,
            pow10(15) == 1000000000000000,
        decreases n - i + (if done {
            0int
        } else {
            1int
        }),
    {
        let c = s.get_char(i);
        match digit_of(c) {
            Some(d) => {
                if i - start == 15 {
                    proof {
                        assert(forall|j: int|
                            0 <= j < 16 ==> is_digit(#[trigger] body[j]) && body[j] == s@[start + j]);
                        lemma_digit_prefix_at_least(body, 16);
                    }
                    return None;
                }
                proof {
                    lemma_pow10_mono((i - start + 1) as nat, 15);
                    assert(s@.subrange(start as int, i + 1).drop_last() =~= s@.subrange(
                        start as int,
                        i as int,
                    ));
                    assert(s@.subrange(start as int, i + 1).last() == s@[i as int]);
                }
                intv = intv * 10 + d;
                i = i + 1;
            },
            None => {
                done = true;
            },
        }
    }
    let intlen = i - start;
    proof {
        assert(forall|j: int| 0 <= j < intlen ==> is_digit(#[trigger] body[j]));
        assert(intlen == body.len() || !is_digit(body[intlen as int]));
        lemma_digit_prefix_exact(body, intlen as int);
        assert(s@.subrange(start as int, i as int) =~= body.take(intlen as int));
        lemma_pow10_mono((i - start) as nat, 15);
    }
    if i == n {
        if intlen == 0 {
            return None;
        }
        proof {
            assert(body.take(intlen as int) =~= body);
            assert(dec_parses(s@, allow_neg));
        }
        let total = intv * 1000;
        let v = if neg {
            -(total as i64)
        } else {
            total as i64
        };
        return Some(v);
    }
    let c = s.get_char(i);
    if c != '.' {
        return None;
    }
    let dot = i;
    let fraclen = n - (dot + 1);
    if fraclen > 3 {
        return None;
    }
    if intlen == 0 && fraclen == 0 {
        return None;
    }
    let mut j = dot + 1;
    let mut fv: u64 = 0;
    proof {
        assert(pow10(1) == 10 && pow10(2) == 100 && pow10(3) == 1000) by {
            reveal_with_fuel(pow10, 4);
        }
    }
    while j < n
        invariant
            dot + 1 <= j <= n,
            n == s@.len(),
            start <= dot < n,
            dot == start + intlen,
            body == s@.subrange(start as int, n as int),
            body == dec_body(s@),
            digit_prefix_len(body) == intlen,
            j - (dot + 1) <= 3,
            n - (dot + 1) <= 3,
            forall|q: int| dot + 1 <= q < j ==> is_digit(s@[q]),
            fv as int == digits_val(s@.subrange(dot + 1, j as int)),
            fv < pow10((j - (dot + 1)) as nat),
            pow10(1) == 10 && pow10(2) == 100 && pow10(3) == 1000,
        decreases n - j,
    {
        let c2 = s.get_char(j);
        match digit_of(c2) {
            Some(d) => {
                proof {
                    assert(s@.subrange(dot + 1, j + 1).drop_last() =~= s@.subrange(
                        dot + 1,
                        j as int,
                    ));
                    assert(s@.subrange(dot + 1, j + 1).last() == s@[j as int]);
                }
                fv = fv * 10 + d;
                j = j + 1;
            },
            None => {
                proof {
                    assert(body[j - start] == s@[j as int]);
                    assert(!is_digit(body[j - start]));
                    assert(!dec_body_ok(body));
                }
                return None;
            },
        }
    }
    let scale: u64 = if fraclen == 0 {
        1000
    } else if fraclen == 1 {
        100
    } else if fraclen == 2 {
        10
    } else {
        1
    };
    proof {
        assert(body[intlen as int] == '.');
        assert(forall|q: int| intlen < q < body.len() ==> is_digit(#[trigger] body[q]));
        assert(dec_parses(s@, allow_neg));
        assert(body.subrange(intlen + 1, body.len() as int) =~= s@.subrange(dot + 1, n as int));
    }
    let total = intv * 1000 + fv * scale;
    let v = if neg {
        -(total as i64)
    } else {
        total as i64
    };
    Some(v)
}

/// Three-decimal text of a value counted in thousandths.
pub fn fixed3(v: i64) -> (r: String)
    ensures
        r@ == fixed3_str(v as int),
{
    let m = u64_abs(v);
    let mut s = if v < 0 {
        proof {
            reveal_strlit("-");
            assert("-"@ =~= seq!['-']);
        }
        "-".to_owned()
    } else {
        String::new()
    };
    let whole = u64_str(m / 1000);
    s.append(whole.as_str());
    proof {
        reveal_strlit(".");
        assert("."@ =~= seq!['.']);
    }
    s.append(".");
    let f = m % 1000;
    s.append(digit_str(f / 100));
    s.append(digit_str((f / 10) % 10));
    s.append(digit_str(f % 10));
    assert(s@ =~= fixed3_str(v as int));
    s
}

} // verus!
