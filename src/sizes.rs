//! Human-readable byte sizes as the engine's CLI prints them ("1.5GB",
//! "500MB", "0B"), and the summary lines of its prune commands.
use vstd::prelude::*;
use vstd::arithmetic::div_mod::{
    lemma_div_denominator, lemma_div_is_ordered_by_denominator, lemma_fundamental_div_mod,
    lemma_fundamental_div_mod_converse,
};
use crate::text::{
    alphabetic, chars_eq_str, chars_of, contains, contains_str, decimal, digit_char, digit_to_char,
    digit_value, digits_value, is_alphabetic, is_digit, lines, lines_of, lower_chars, lower_of,
    push_decimal, push_str_chars, split, split_chars, starts_with, starts_with_str, string_of, trim,
    trim_chars, upper_chars, upper_of, views, words, words_of,
};

verus! {

pub const KB: u64 = 1024;
pub const MB: u64 = 1048576;
pub const GB: u64 = 1073741824;
pub const TB: u64 = 1099511627776;

pub open spec fn pow10(k: nat) -> nat
    decreases k,
{
    if k == 0 {
        1
    } else {
        10 * pow10((k - 1) as nat)
    }
}

pub open spec fn is_num_char(c: char) -> bool {
    is_digit(c) || c == '.'
}

/// A character of the unit: alphabetic, and neither a digit nor a point.
pub open spec fn is_unit_char(c: char) -> bool {
    !is_num_char(c) && alphabetic(c)
}

pub open spec fn has_unit_char(s: Seq<char>) -> bool {
    exists|i: int| 0 <= i < s.len() && is_unit_char(#[trigger] s[i])
}

/// The digits and decimal points of `s` that come before its first unit
/// character.
pub open spec fn number_part(s: Seq<char>) -> Seq<char>
    decreases s.len(),
{
    if s.len() == 0 {
        Seq::empty()
    } else {
        let p = number_part(s.drop_last());
        if is_num_char(s.last()) && !has_unit_char(s.drop_last()) {
            p.push(s.last())
        } else {
            p
        }
    }
}

/// The unit characters of `s`, in order.
pub open spec fn unit_part(s: Seq<char>) -> Seq<char>
    decreases s.len(),
{
    if s.len() == 0 {
        Seq::empty()
    } else {
        let p = unit_part(s.drop_last());
        if is_unit_char(s.last()) {
            p.push(s.last())
        } else {
            p
        }
    }
}

/// The bytes that one unit stands for, given the unit in upper case:
/// powers of 1024, and 1 for an unknown unit.
pub open spec fn unit_factor(u: Seq<char>) -> nat {
    if u == seq!['K', 'B'] || u == seq!['K'] {
        KB as nat
    } else if u == seq!['M', 'B'] || u == seq!['M'] {
        MB as nat
    } else if u == seq!['G', 'B'] || u == seq!['G'] {
        GB as nat
    } else if u == seq!['T', 'B'] || u == seq!['T'] {
        TB as nat
    } else {
        1
    }
}

pub open spec fn count_char(s: Seq<char>, c: char) -> nat
    decreases s.len(),
{
    if s.len() == 0 {
        0
    } else {
        count_char(s.drop_last(), c) + if s.last() == c {
            1nat
        } else {
            0nat
        }
    }
}

pub open spec fn count_digits(s: Seq<char>) -> nat
    decreases s.len(),
{
    if s.len() == 0 {
        0
    } else {
        count_digits(s.drop_last()) + if is_digit(s.last()) {
            1nat
        } else {
            0nat
        }
    }
}

pub open spec fn all_num_chars(s: Seq<char>) -> bool {
    forall|i: int| 0 <= i < s.len() ==> is_num_char(#[trigger] s[i])
}

/// A run of digits and points is a number when it has at most one point and
/// at least one digit ("1", "1.5", "1.", ".5").
pub open spec fn is_number(num: Seq<char>) -> bool {
    all_num_chars(num) && count_char(num, '.') <= 1 && count_digits(num) >= 1
}

/// Position of the first decimal point in `num`, or its length when there is none.
pub open spec fn point_index(num: Seq<char>) -> int
    decreases num.len(),
{
    if num.len() == 0 {
        0
    } else if count_char(num.drop_last(), '.') > 0 {
        point_index(num.drop_last())
    } else {
        num.len() - 1 + if num.last() == '.' {
            0int
        } else {
            1int
        }
    }
}

pub open spec fn int_digits(num: Seq<char>) -> Seq<char> {
    num.subrange(0, point_index(num))
}

pub open spec fn frac_digits(num: Seq<char>) -> Seq<char> {
    if point_index(num) < num.len() {
        num.subrange(point_index(num) + 1, num.len() as int)
    } else {
        Seq::empty()
    }
}

/// `⌊0.f × m⌋` for the fraction digits `f`.
pub open spec fn frac_scaled(f: Seq<char>, m: nat) -> nat {
    (digits_value(f) * m) / pow10(f.len())
}

pub open spec fn cap(v: nat) -> nat {
    if v > u64::MAX {
        u64::MAX as nat
    } else {
        v
    }
}

/// The bytes that the number `num` of units `unit_upper` stands for, rounded
/// down and capped at the largest `u64`; 0 where `num` is no number.
pub open spec fn size_value(num: Seq<char>, unit_upper: Seq<char>) -> nat {
    number_scaled(num, unit_factor(unit_upper))
}

/// The number `num` times `m`, rounded down and capped; 0 where `num` is no number.
pub open spec fn number_scaled(num: Seq<char>, m: nat) -> nat {
    if is_number(num) {
        cap(digits_value(int_digits(num)) * m + frac_scaled(frac_digits(num), m))
    } else {
        0
    }
}

/// The byte count of a size string such as "1.5GB" or "512 kB".
pub open spec fn docker_size(s: Seq<char>) -> nat {
    size_value(number_part(s), upper_of(unit_part(s)))
}

pub proof fn lemma_digits_value_first(f: Seq<char>)
    requires
        f.len() > 0,
    ensures
        digits_value(f) == digit_value(f[0]) * pow10((f.len() - 1) as nat) + digits_value(
            f.drop_first(),
        ),
    decreases f.len(),
{
    let n = f.len();
    let t = f.drop_first();
    let a = digit_value(f[0]);
    if n == 1 {
        assert(f.drop_last().len() == 0);
        assert(t.len() == 0);
        assert(digits_value(f) == digits_value(f.drop_last()) * 10 + digit_value(f.last()));
        assert(pow10(0) == 1);
    } else {
        let g = f.drop_last();
        lemma_digits_value_first(g);
        assert(t.drop_last() =~= g.drop_first());
        assert(t.last() == f.last());
        let dl = digit_value(f.last());
        let r = digits_value(g.drop_first());
        assert(digits_value(t) == r * 10 + dl);
        assert(digits_value(f) == digits_value(g) * 10 + dl);
        let p = pow10((n - 2) as nat);
        assert(pow10((n - 1) as nat) == 10 * p);
        assert(g[0] == f[0]);
        assert(digits_value(g) == a * p + r);
        assert((a * p + r) * 10 == a * (10 * p) + r * 10) by (nonlinear_arith);
    }
}

proof fn lemma_pow10_pos(k: nat)
    ensures
        pow10(k) > 0,
    decreases k,
{
    if k > 0 {
        lemma_pow10_pos((k - 1) as nat);
    }
}

/// One step of scaling a fraction from its last digit towards its first.
proof fn lemma_frac_step(f: Seq<char>, m: nat)
    requires
        f.len() > 0,
    ensures
        frac_scaled(f, m) == (digit_value(f[0]) * m + frac_scaled(f.drop_first(), m)) / 10,
{
    let k = (f.len() - 1) as nat;
    let b = pow10(k);
    lemma_pow10_pos(k);
    lemma_digits_value_first(f);
    let d = digit_value(f[0]);
    let r = digits_value(f.drop_first());
    assert(f.drop_first().len() == k);
    assert(pow10(f.len()) == 10 * b);
    let x = digits_value(f) * m;
    assert(x == (d * m) * b + r * m) by (nonlinear_arith)
        requires
            digits_value(f) == d * b + r,
            x == digits_value(f) * m,
    ;
    lemma_div_denominator(x as int, b as int, 10);
    assert(x / (b * 10) == (x / b) / 10);
    assert(b * 10 == 10 * b) by (nonlinear_arith);
    assert(x / b == d * m + (r * m) / b) by {
        lemma_fundamental_div_mod((r * m) as int, b as int);
        let q = (r * m) / b;
        let rm = (r * m) % b;
        assert(x == b * (d * m + q) + rm) by (nonlinear_arith)
            requires
                x == (d * m) * b + r * m,
                r * m == b * q + rm,
        ;
        lemma_fundamental_div_mod_converse(x as int, b as int, (d * m + q) as int, rm as int);
    }
}

pub fn is_num_char_exec(c: char) -> (r: bool)
    ensures
        r == is_num_char(c),
{
    ('0' <= c && c <= '9') || c == '.'
}

/// The number and the unit of a size string: digits and points before the
/// first unit character, and all unit characters.
pub fn split_size(s: &Vec<char>) -> (r: (Vec<char>, Vec<char>))
    ensures
        r.0@ == number_part(s@),
        r.1@ == unit_part(s@),
{
    let mut num: Vec<char> = Vec::new();
    let mut unit: Vec<char> = Vec::new();
    let mut in_unit = false;
    let mut i: usize = 0;
    while i < s.len()
        invariant
            i <= s.len(),
            num@ == number_part(s@.subrange(0, i as int)),
            unit@ == unit_part(s@.subrange(0, i as int)),
            in_unit == has_unit_char(s@.subrange(0, i as int)),
        decreases s.len() - i,
    {
        let c = s[i];
        let ghost pre = s@.subrange(0, i as int);
        let ghost next = s@.subrange(0, i + 1);
        assert(next.drop_last() =~= pre);
        assert(next.last() == c);
        if is_num_char_exec(c) {
            if !in_unit {
                num.push(c);
            }
        } else if is_alphabetic(c) {
            in_unit = true;
            unit.push(c);
        }
        proof {
            if is_unit_char(c) {
                assert(next[i as int] == c);
            }
            if has_unit_char(pre) {
                let j = choose|j: int| 0 <= j < pre.len() && is_unit_char(#[trigger] pre[j]);
                assert(next[j] == pre[j]);
            }
            if has_unit_char(next) && !is_unit_char(c) {
                let j = choose|j: int| 0 <= j < next.len() && is_unit_char(#[trigger] next[j]);
                assert(j < i);
                assert(pre[j] == next[j]);
            }
        }
        i = i + 1;
    }
    assert(s@.subrange(0, s.len() as int) =~= s@);
    (num, unit)
}

/// The bytes of one unit, given the unit in upper case.
pub fn unit_multiplier(u: &Vec<char>) -> (m: u64)
    ensures
        m == unit_factor(u@),
{
    proof {
        reveal_strlit("KB");
        reveal_strlit("K");
        reveal_strlit("MB");
        reveal_strlit("M");
        reveal_strlit("GB");
        reveal_strlit("G");
        reveal_strlit("TB");
        reveal_strlit("T");
        assert("KB"@ =~= seq!['K', 'B']);
        assert("K"@ =~= seq!['K']);
        assert("MB"@ =~= seq!['M', 'B']);
        assert("M"@ =~= seq!['M']);
        assert("GB"@ =~= seq!['G', 'B']);
        assert("G"@ =~= seq!['G']);
        assert("TB"@ =~= seq!['T', 'B']);
        assert("T"@ =~= seq!['T']);
    }
    if chars_eq_str(u, "KB") || chars_eq_str(u, "K") {
        KB
    } else if chars_eq_str(u, "MB") || chars_eq_str(u, "M") {
        MB
    } else if chars_eq_str(u, "GB") || chars_eq_str(u, "G") {
        GB
    } else if chars_eq_str(u, "TB") || chars_eq_str(u, "T") {
        TB
    } else {
        1
    }
}

/// The number `num` times `m`, rounded down and capped at the largest `u64`;
/// 0 where `num` is no number.
pub fn scale_number(num: &Vec<char>, m: u64) -> (r: u64)
    requires
        1 <= m <= TB,
    ensures
        r == number_scaled(num@, m as nat),
{
    // one pass: check the characters, count points and digits, find the point
    let mut points: usize = 0;
    let mut digits: usize = 0;
    let mut all_num = true;
    let mut point: usize = 0;
    let mut i: usize = 0;
    while i < num.len()
        invariant
            i <= num.len(),
            points == count_char(num@.subrange(0, i as int), '.'),
            digits == count_digits(num@.subrange(0, i as int)),
            all_num == all_num_chars(num@.subrange(0, i as int)),
            point == point_index(num@.subrange(0, i as int)),
            points <= i,
            digits <= i,
        decreases num.len() - i,
    {
        let c = num[i];
        let ghost pre = num@.subrange(0, i as int);
        let ghost next = num@.subrange(0, i + 1);
        assert(next.drop_last() =~= pre);
        if points == 0 {
            point = if c == '.' {
                i
            } else {
                i + 1
            };
        }
        if c == '.' {
            points = points + 1;
        }
        if '0' <= c && c <= '9' {
            digits = digits + 1;
        }
        if !is_num_char_exec(c) {
            all_num = false;
        }
        proof {
            if !all_num_chars(pre) {
                let j = choose|j: int| 0 <= j < pre.len() && !is_num_char(#[trigger] pre[j]);
                assert(next[j] == pre[j]);
            }
            if !is_num_char(c) {
                assert(next[i as int] == c);
            }
            if all_num_chars(pre) && is_num_char(c) {
                assert forall|j: int| 0 <= j < next.len() implies is_num_char(#[trigger] next[j]) by {
                    if j < i {
                        assert(next[j] == pre[j]);
                    }
                }
            }
        }
        i = i + 1;
    }
    assert(num@.subrange(0, num.len() as int) =~= num@);
    if !all_num || points > 1 || digits == 0 {
        return 0;
    }
    proof {
        lemma_point_index_bound(num@);
    }
    // whole part, capped
    let mut whole: u64 = 0;
    let mut j: usize = 0;
    while j < point
        invariant
            point <= num.len(),
            j <= point,
            all_num_chars(num@),
            point == point_index(num@),
            count_char(num@, '.') <= 1,
            whole == cap(digits_value(num@.subrange(0, j as int))),
        decreases point - j,
    {
        let c = num[j];
        proof {
            lemma_digit_before_point(num@, j as int);
        }
        let d = (c as u32 - '0' as u32) as u64;
        let ghost v = digits_value(num@.subrange(0, j as int));
        assert(num@.subrange(0, j + 1).drop_last() =~= num@.subrange(0, j as int));
        assert(d == digit_value(c));
        if whole > (u64::MAX - d) / 10 {
            proof {
                if v <= u64::MAX {
                    assert(v * 10 + d > u64::MAX) by (nonlinear_arith)
                        requires
                            v > (u64::MAX - d) / 10,
                            d <= 9,
                    ;
                } else {
                    assert(v * 10 + d > u64::MAX) by (nonlinear_arith)
                        requires
                            v > u64::MAX,
                    ;
                }
            }
            whole = u64::MAX;
        } else {
            proof {
                assert(whole * 10 + d <= u64::MAX) by (nonlinear_arith)
                    requires
                        whole <= (u64::MAX - d) / 10,
                        d <= 9,
                ;
            }
            whole = whole * 10 + d;
        }
        j = j + 1;
    }
    let ghost iv = digits_value(int_digits(num@));
    assert(num@.subrange(0, point as int) == int_digits(num@));
    // fraction part, from its last digit to its first
    let mut frac: u64 = 0;
    let mut k: usize = num.len();
    let ghost fd = frac_digits(num@);
    proof {
        lemma_frac_digits_are_digits(num@);
    }
    let lo: usize = if point < num.len() {
        point + 1
    } else {
        num.len()
    };
    assert(fd == num@.subrange(lo as int, num.len() as int));
    assert(num@.subrange(num.len() as int, num.len() as int) =~= Seq::<char>::empty());
    assert(frac_scaled(Seq::<char>::empty(), m as nat) == 0) by {
        let e = Seq::<char>::empty();
        assert(pow10(0) == 1);
        assert(digits_value(e) == 0);
        assert(e.len() == 0);
        assert(0 * (m as nat) == 0);
    }
    while k > lo
        invariant
            lo <= k <= num.len(),
            1 <= m <= TB,
            frac < m,
            frac == frac_scaled(num@.subrange(k as int, num.len() as int), m as nat),
            forall|t: int| lo <= t < num.len() ==> is_digit(#[trigger] num@[t]),
        decreases k,
    {
        let c = num[k - 1];
        assert(is_digit(num@[k - 1]));
        let d = (c as u32 - '0' as u32) as u64;
        assert(d == digit_value(c));
        let ghost suf = num@.subrange(k - 1, num.len() as int);
        proof {
            assert(suf.drop_first() =~= num@.subrange(k as int, num.len() as int));
            assert(suf[0] == c);
            lemma_frac_step(suf, m as nat);
            assert(d * m + frac < 10 * m) by (nonlinear_arith)
                requires
                    d <= 9,
                    frac < m,
            ;
            assert(10 * m <= 10 * TB);
        }
        frac = (d * m + frac) / 10;
        k = k - 1;
    }
    // whole * m + frac, capped
    let ghost total = iv * m + frac;
    proof {
        if iv > u64::MAX {
            assert(whole == u64::MAX);
            assert(iv * m >= iv) by (nonlinear_arith)
                requires
                    m >= 1,
            ;
        } else if whole > u64::MAX / m {
            assert(iv * m > u64::MAX) by (nonlinear_arith)
                requires
                    iv > u64::MAX / m,
                    m >= 1,
            ;
        } else {
            assert(whole * m <= u64::MAX) by (nonlinear_arith)
                requires
                    whole <= u64::MAX / m,
                    m >= 1,
            ;
        }
    }
    proof {
        if whole <= u64::MAX / m {
            assert(whole * m <= u64::MAX) by (nonlinear_arith)
                requires
                    whole <= u64::MAX / m,
                    m >= 1,
            ;
        }
    }
    let scaled: u64 = if whole > u64::MAX / m {
        u64::MAX
    } else {
        whole * m
    };
    if scaled > u64::MAX - frac {
        u64::MAX
    } else {
        scaled + frac
    }
}

proof fn lemma_point_index_bound(s: Seq<char>)
    ensures
        0 <= point_index(s) <= s.len(),
        point_index(s) < s.len() ==> s[point_index(s)] == '.',
        forall|j: int| 0 <= j < point_index(s) ==> #[trigger] s[j] != '.',
        point_index(s) == s.len() ==> count_char(s, '.') == 0,
    decreases s.len(),
{
    if s.len() > 0 {
        let d = s.drop_last();
        lemma_point_index_bound(d);
        lemma_count_zero(d);
        lemma_count_zero(s);
        let p = point_index(s);
        assert forall|j: int| 0 <= j < p implies #[trigger] s[j] != '.' by {
            if j < s.len() - 1 {
                assert(d[j] == s[j]);
            }
        }
        if count_char(d, '.') > 0 {
            if point_index(d) == d.len() {
                assert(false);
            }
            assert(s[p] == d[p]);
        }
    }
}

/// No point is counted in `s` exactly when none occurs in it.
proof fn lemma_count_zero(s: Seq<char>)
    ensures
        (count_char(s, '.') == 0) == (forall|j: int| 0 <= j < s.len() ==> #[trigger] s[j] != '.'),
    decreases s.len(),
{
    if s.len() > 0 {
        let d = s.drop_last();
        lemma_count_zero(d);
        if count_char(s, '.') == 0 {
            assert forall|j: int| 0 <= j < s.len() implies #[trigger] s[j] != '.' by {
                if j < s.len() - 1 {
                    assert(d[j] == s[j]);
                }
            }
        } else if count_char(d, '.') != 0 {
            let j = choose|j: int| 0 <= j < d.len() && #[trigger] d[j] == '.';
            assert(s[j] == '.');
        } else {
            assert(s[s.len() - 1] == '.');
        }
    }
}

proof fn lemma_digit_before_point(s: Seq<char>, j: int)
    requires
        all_num_chars(s),
        0 <= j < point_index(s),
    ensures
        is_digit(s[j]),
{
    lemma_point_index_bound(s);
    assert(is_num_char(s[j]));
}

proof fn lemma_count_split(s: Seq<char>, k: int)
    requires
        0 <= k <= s.len(),
    ensures
        count_char(s, '.') == count_char(s.subrange(0, k), '.') + count_char(
            s.subrange(k, s.len() as int),
            '.',
        ),
    decreases s.len() - k,
{
    if k < s.len() {
        lemma_count_split(s.drop_last(), k);
        assert(s.drop_last().subrange(0, k) =~= s.subrange(0, k));
        assert(s.subrange(k, s.len() as int).drop_last() =~= s.drop_last().subrange(
            k,
            s.drop_last().len() as int,
        ));
    } else {
        assert(s.subrange(0, k) =~= s);
        assert(s.subrange(k, s.len() as int).len() == 0);
    }
}

proof fn lemma_frac_digits_are_digits(s: Seq<char>)
    requires
        all_num_chars(s),
        count_char(s, '.') <= 1,
    ensures
        forall|t: int| point_index(s) < t < s.len() ==> is_digit(#[trigger] s[t]),
{
    lemma_point_index_bound(s);
    let p = point_index(s);
    if p < s.len() {
        assert forall|t: int| p < t < s.len() implies is_digit(#[trigger] s[t]) by {
            if s[t] == '.' {
                lemma_count_split(s, p + 1);
                lemma_count_zero(s.subrange(0, p + 1));
                assert(s.subrange(0, p + 1)[p] == '.');
                lemma_count_zero(s.subrange(p + 1, s.len() as int));
                assert(s.subrange(p + 1, s.len() as int)[t - p - 1] == '.');
            }
        }
    }
}

/// The bytes that the number `number` of units `unit_upper` stands for.
pub fn size_from_parts(number: &str, unit_upper: &str) -> (r: u64)
    ensures
        r == size_value(number@, unit_upper@),
{
    let n = chars_of(number);
    let u = chars_of(unit_upper);
    let m = unit_multiplier(&u);
    scale_number(&n, m)
}

/// Parses a size string of the engine's CLI ("1.5GB", "500MB", "0B") into bytes.
pub fn parse_docker_size(size_str: &str) -> (r: u64)
    ensures
        r == docker_size(size_str@),
{
    let s = chars_of(size_str);
    let (num, unit) = split_size(&s);
    let upper = upper_chars(&unit);
    let m = unit_multiplier(&upper);
    scale_number(&num, m)
}

/// `b / u` in tenths, rounded to the nearest tenth, ties to even.
pub open spec fn tenths(b: nat, u: nat) -> nat {
    let q = (b * 10) / u;
    let r = (b * 10) % u;
    if 2 * r > u || (2 * r == u && q % 2 == 1) {
        q + 1
    } else {
        q
    }
}

/// A count of tenths written with one decimal place ("1.5").
pub open spec fn one_decimal(t: nat) -> Seq<char> {
    decimal(t / 10).push('.').push(digit_char(t % 10))
}

/// A byte count in the largest unit it reaches, with one decimal place
/// ("1.5 GB"), or in bytes below one kibibyte ("500 B").
pub open spec fn format_size_spec(b: nat) -> Seq<char> {
    if b >= TB {
        one_decimal(tenths(b, TB as nat)) + seq![' ', 'T', 'B']
    } else if b >= GB {
        one_decimal(tenths(b, GB as nat)) + seq![' ', 'G', 'B']
    } else if b >= MB {
        one_decimal(tenths(b, MB as nat)) + seq![' ', 'M', 'B']
    } else if b >= KB {
        one_decimal(tenths(b, KB as nat)) + seq![' ', 'K', 'B']
    } else {
        decimal(b) + seq![' ', 'B']
    }
}

/// `b / u` in tenths, rounded to the nearest tenth, ties to even.
pub fn rounded_tenths(b: u64, u: u64) -> (t: u64)
    requires
        KB <= u <= TB,
    ensures
        t == tenths(b as nat, u as nat),
{
    let a = b / u;
    let c = b % u;
    let e = (c * 10) / u;
    let f = (c * 10) % u;
    proof {
        assert(c * 10 < 10 * TB);
        assert(a <= u64::MAX / KB) by {
            lemma_div_is_ordered_by_denominator(b as int, KB as int, u as int);
        }
        lemma_fundamental_div_mod(b as int, u as int);
        lemma_fundamental_div_mod((c * 10) as int, u as int);
        let q = a * 10 + e;
        assert(b * 10 == u * q + f) by (nonlinear_arith)
            requires
                b == u * a + c,
                c * 10 == u * e + f,
                q == a * 10 + e,
        ;
        lemma_fundamental_div_mod_converse((b * 10) as int, u as int, q as int, f as int);
        assert(e < 10) by (nonlinear_arith)
            requires
                c * 10 == u * e + f,
                0 <= f,
                c < u,
                u > 0,
        ;
    }
    let q = a * 10 + e;
    if 2 * f > u || (2 * f == u && q % 2 == 1) {
        q + 1
    } else {
        q
    }
}

/// Writes `t` tenths with one decimal place.
fn push_one_decimal(out: &mut Vec<char>, t: u64)
    ensures
        final(out)@ == old(out)@ + one_decimal(t as nat),
{
    push_decimal(out, t / 10);
    out.push('.');
    out.push(digit_to_char(t % 10));
    assert(final(out)@ =~= old(out)@ + one_decimal(t as nat));
}

/// A byte count in human-readable form: "500 B", "1.0 KB", "1.5 GB".
pub fn format_size(bytes: u64) -> (r: String)
    ensures
        r@ == format_size_spec(bytes as nat),
{
    let mut out: Vec<char> = Vec::new();
    if bytes >= TB {
        push_one_decimal(&mut out, rounded_tenths(bytes, TB));
        push_str_chars(&mut out, " TB");
    } else if bytes >= GB {
        push_one_decimal(&mut out, rounded_tenths(bytes, GB));
        push_str_chars(&mut out, " GB");
    } else if bytes >= MB {
        push_one_decimal(&mut out, rounded_tenths(bytes, MB));
        push_str_chars(&mut out, " MB");
    } else if bytes >= KB {
        push_one_decimal(&mut out, rounded_tenths(bytes, KB));
        push_str_chars(&mut out, " KB");
    } else {
        push_decimal(&mut out, bytes);
        push_str_chars(&mut out, " B");
    }
    proof {
        reveal_strlit(" TB");
        reveal_strlit(" GB");
        reveal_strlit(" MB");
        reveal_strlit(" KB");
        reveal_strlit(" B");
        assert(" TB"@ =~= seq![' ', 'T', 'B']);
        assert(" GB"@ =~= seq![' ', 'G', 'B']);
        assert(" MB"@ =~= seq![' ', 'M', 'B']);
        assert(" KB"@ =~= seq![' ', 'K', 'B']);
        assert(" B"@ =~= seq![' ', 'B']);
        assert(out@ =~= format_size_spec(bytes as nat));
    }
    string_of(&out)
}

pub open spec fn has_ascii_digit(w: Seq<char>) -> bool {
    exists|i: int| 0 <= i < w.len() && is_digit(#[trigger] w[i])
}

pub open spec fn has_alpha(w: Seq<char>) -> bool {
    exists|i: int| 0 <= i < w.len() && alphabetic(#[trigger] w[i])
}

/// The first word that mixes digits and letters and reads as a nonzero size.
pub open spec fn first_size_word(ws: Seq<Seq<char>>) -> Option<nat>
    decreases ws.len(),
{
    if ws.len() == 0 {
        None
    } else if has_ascii_digit(ws[0]) && has_alpha(ws[0]) && docker_size(ws[0]) > 0 {
        Some(docker_size(ws[0]))
    } else {
        first_size_word(ws.drop_first())
    }
}

/// A line that speaks of reclaimed or freed space.
pub open spec fn mentions_reclaimed(lower: Seq<char>) -> bool {
    contains(lower, seq!['r', 'e', 'c', 'l', 'a', 'i', 'm', 'e', 'd']) || contains(
        lower,
        seq!['f', 'r', 'e', 'e', 'd'],
    )
}

/// The space that one line of prune output reports: the size after its first
/// colon, or else its first nonzero size word.
pub open spec fn line_reclaimed(l: Seq<char>) -> Option<nat> {
    if mentions_reclaimed(lower_of(l)) {
        let parts = split(l, ':');
        if parts.len() >= 2 {
            Some(docker_size(trim(parts[1])))
        } else {
            first_size_word(words(l))
        }
    } else {
        None
    }
}

/// The space reported by the first line that reports one, or 0.
pub open spec fn reclaimed_from(ls: Seq<Seq<char>>) -> nat
    decreases ls.len(),
{
    if ls.len() == 0 {
        0
    } else {
        match line_reclaimed(ls[0]) {
            Some(v) => v,
            None => reclaimed_from(ls.drop_first()),
        }
    }
}

/// The reclaimed space that prune output reports ("Total reclaimed space: 1.5GB").
pub open spec fn reclaimed_space(output: Seq<char>) -> nat {
    reclaimed_from(lines(output))
}

fn has_ascii_digit_exec(w: &Vec<char>) -> (r: bool)
    ensures
        r == has_ascii_digit(w@),
{
    let mut i: usize = 0;
    while i < w.len()
        invariant
            i <= w.len(),
            forall|k: int| 0 <= k < i ==> !is_digit(#[trigger] w@[k]),
        decreases w.len() - i,
    {
        if '0' <= w[i] && w[i] <= '9' {
            return true;
        }
        i = i + 1;
    }
    false
}

fn has_alpha_exec(w: &Vec<char>) -> (r: bool)
    ensures
        r == has_alpha(w@),
{
    let mut i: usize = 0;
    while i < w.len()
        invariant
            i <= w.len(),
            forall|k: int| 0 <= k < i ==> !alphabetic(#[trigger] w@[k]),
        decreases w.len() - i,
    {
        if is_alphabetic(w[i]) {
            return true;
        }
        i = i + 1;
    }
    false
}

fn size_of_chars(s: &Vec<char>) -> (r: u64)
    ensures
        r == docker_size(s@),
{
    let (num, unit) = split_size(s);
    let upper = upper_chars(&unit);
    let m = unit_multiplier(&upper);
    scale_number(&num, m)
}

fn line_reclaimed_exec(l: &Vec<char>) -> (r: Option<u64>)
    ensures
        r matches Some(v) ==> line_reclaimed(l@) == Some(v as nat),
        r is None ==> line_reclaimed(l@) is None,
{
    let lower = lower_chars(l);
    proof {
        reveal_strlit("reclaimed");
        reveal_strlit("freed");
        assert("reclaimed"@ =~= seq!['r', 'e', 'c', 'l', 'a', 'i', 'm', 'e', 'd']);
        assert("freed"@ =~= seq!['f', 'r', 'e', 'e', 'd']);
    }
    if !(contains_str(&lower, "reclaimed") || contains_str(&lower, "freed")) {
        return None;
    }
    let parts = split_chars(l, ':');
    assert(views(parts@).len() == parts@.len());
    if parts.len() >= 2 {
        assert(parts@[1]@ == split(l@, ':')[1]);
        let t = trim_chars(&parts[1]);
        return Some(size_of_chars(&t));
    }
    let ws = words_of(l);
    let ghost wv = words(l@);
    assert(split(l@, ':').len() == parts@.len());
    assert(wv.subrange(0, wv.len() as int) =~= wv);
    let mut i: usize = 0;
    while i < ws.len()
        invariant
            i <= ws.len(),
            views(ws@) == wv,
            wv == words(l@),
            mentions_reclaimed(lower_of(l@)),
            split(l@, ':').len() < 2,
            first_size_word(wv) == first_size_word(wv.subrange(i as int, wv.len() as int)),
        decreases ws.len() - i,
    {
        let w = &ws[i];
        assert(w@ == wv[i as int]);
        let ghost rest = wv.subrange(i as int, wv.len() as int);
        assert(rest[0] == wv[i as int]);
        if has_ascii_digit_exec(w) && has_alpha_exec(w) {
            let size = size_of_chars(w);
            if size > 0 {
                return Some(size);
            }
        }
        assert(rest.drop_first() =~= wv.subrange(i + 1, wv.len() as int));
        i = i + 1;
    }
    assert(wv.subrange(i as int, wv.len() as int).len() == 0);
    None
}

/// The reclaimed space that the output of a prune command reports, in bytes;
/// 0 where it reports none.
pub fn parse_reclaimed_space(output: &str) -> (r: u64)
    ensures
        r == reclaimed_space(output@),
{
    let s = chars_of(output);
    let ls = lines_of(&s);
    let ghost lv = lines(s@);
    let mut i: usize = 0;
    assert(lv.subrange(0, lv.len() as int) =~= lv);
    while i < ls.len()
        invariant
            i <= ls.len(),
            views(ls@) == lv,
            lv == lines(output@),
            reclaimed_from(lv) == reclaimed_from(lv.subrange(i as int, lv.len() as int)),
        decreases ls.len() - i,
    {
        let ghost rest = lv.subrange(i as int, lv.len() as int);
        assert(ls@[i as int]@ == lv[i as int]);
        assert(rest[0] == lv[i as int]);
        match line_reclaimed_exec(&ls[i]) {
            Some(v) => {
                return v;
            },
            None => {},
        }
        assert(rest.drop_first() =~= lv.subrange(i + 1, lv.len() as int));
        i = i + 1;
    }
    assert(lv.subrange(i as int, lv.len() as int).len() == 0);
    0
}

/// A line of prune output that confirms one deletion.
pub open spec fn is_deletion_line(l: Seq<char>) -> bool {
    starts_with(lower_of(l), seq!['d', 'e', 'l', 'e', 't', 'e', 'd']) || starts_with(
        l,
        seq!['s', 'h', 'a', '2', '5', '6', ':'],
    )
}

pub open spec fn count_deletions(ls: Seq<Seq<char>>) -> nat
    decreases ls.len(),
{
    if ls.len() == 0 {
        0
    } else {
        count_deletions(ls.drop_last()) + if is_deletion_line(ls.last()) {
            1nat
        } else {
            0nat
        }
    }
}

/// The number of deletions that prune output confirms: lines that begin with
/// "deleted" in any case, or with a content hash ("sha256:").
pub fn count_deleted_items(output: &str) -> (r: usize)
    ensures
        r == count_deletions(lines(output@)),
{
    let s = chars_of(output);
    let ls = lines_of(&s);
    let ghost lv = lines(s@);
    let mut count: usize = 0;
    let mut i: usize = 0;
    while i < ls.len()
        invariant
            i <= ls.len(),
            views(ls@) == lv,
            count == count_deletions(lv.subrange(0, i as int)),
            count <= i,
        decreases ls.len() - i,
    {
        let l = &ls[i];
        assert(l@ == lv[i as int]);
        assert(lv.subrange(0, i + 1).drop_last() =~= lv.subrange(0, i as int));
        assert(lv.subrange(0, i + 1).last() == lv[i as int]);
        let lower = lower_chars(l);
        proof {
            reveal_strlit("deleted");
            reveal_strlit("sha256:");
            assert("deleted"@ =~= seq!['d', 'e', 'l', 'e', 't', 'e', 'd']);
            assert("sha256:"@ =~= seq!['s', 'h', 'a', '2', '5', '6', ':']);
        }
        if starts_with_str(&lower, "deleted") || starts_with_str(l, "sha256:") {
            count = count + 1;
        }
        i = i + 1;
    }
    assert(lv.subrange(0, lv.len() as int) =~= lv);
    count
}

} // verus!
