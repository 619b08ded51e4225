//! Character-level string utilities shared by the protocol, pricing and
//! rendering modules. All contracts are stated over `Seq<char>` views.

use vstd::prelude::*;

verus! {

/// Whitespace in the sense this crate trims by: the ASCII blanks that
/// occur in the wire formats handled here.
pub open spec fn is_ws_char(c: char) -> bool {
    c == ' ' || c == '\t' || c == '\n' || c == '\r'
}

/// `p` is a prefix of `s`.
pub open spec fn starts_with_seq(s: Seq<char>, p: Seq<char>) -> bool {
    p.len() <= s.len() && s.subrange(0, p.len() as int) == p
}

/// `sub` occurs somewhere in `s`.
pub open spec fn contains_seq(s: Seq<char>, sub: Seq<char>) -> bool {
    exists|i: int| 0 <= i && i + sub.len() <= s.len() && #[trigger] s.subrange(i, i + sub.len()) == sub
}

/// Character-for-character equality of two string slices.
pub fn str_eq(a: &str, b: &str) -> (r: bool)
    ensures
        r == (a@ == b@),
{
    let a_len = a.unicode_len();
    let b_len = b.unicode_len();
    if a_len != b_len {
        assert(a@ != b@) by {
            assert(a@.len() != b@.len());
        }
        return false;
    }
    let mut i: usize = 0;
    while i < a_len
        invariant
            a_len == a@.len(),
            b_len == b@.len(),
            a_len == b_len,
            0 <= i <= a_len,
            forall|j: int| 0 <= j < i ==> a@[j] == b@[j],
        decreases a_len - i,
    {
        if a.get_char(i) != b.get_char(i) {
            assert(a@ != b@);
            return false;
        }
        i += 1;
    }
    assert(a@ =~= b@);
    true
}

/// `s` with leading whitespace removed.
pub open spec fn spec_trim_front(s: Seq<char>) -> Seq<char>
    decreases s.len(),
{
    if s.len() > 0 && is_ws_char(s[0]) {
        spec_trim_front(s.drop_first())
    } else {
        s
    }
}

/// `s` with trailing whitespace removed.
pub open spec fn spec_trim_back(s: Seq<char>) -> Seq<char>
    decreases s.len(),
{
    if s.len() > 0 && is_ws_char(s.last()) {
        spec_trim_back(s.drop_last())
    } else {
        s
    }
}

/// `s` with leading and trailing whitespace removed.
pub open spec fn spec_trim(s: Seq<char>) -> Seq<char> {
    spec_trim_back(spec_trim_front(s))
}

/// The index of the first occurrence of `c` in `s`, or `s.len()` if there
/// is none.
pub open spec fn spec_find_char(s: Seq<char>, c: char) -> int
    decreases s.len(),
{
    if s.len() == 0 {
        0
    } else if s[0] == c {
        0
    } else {
        1 + spec_find_char(s.drop_first(), c)
    }
}

/// ASCII uppercase letters mapped to lowercase; everything else unchanged.
pub open spec fn spec_lower_char(c: char) -> char {
    if 'A' <= c && c <= 'Z' {
        ((c as u32) + 32) as char
    } else {
        c
    }
}

/// `s` with its ASCII uppercase letters mapped to lowercase.
pub open spec fn spec_lower(s: Seq<char>) -> Seq<char> {
    s.map_values(|c: char| spec_lower_char(c))
}

/// ASCII decimal digit.
pub open spec fn is_digit_char(c: char) -> bool {
    '0' <= c && c <= '9'
}

/// The numeric value of one decimal digit.
pub open spec fn spec_digit_val(c: char) -> int {
    c as int - '0' as int
}

/// The numeric value of a string of decimal digits, most significant first.
/// The empty string has value zero.
pub open spec fn spec_digits_val(s: Seq<char>) -> int
    decreases s.len(),
{
    if s.len() == 0 {
        0
    } else {
        spec_digits_val(s.drop_last()) * 10 + spec_digit_val(s.last())
    }
}

/// One line piece with a trailing carriage return removed.
pub open spec fn spec_strip_cr(line: Seq<char>) -> Seq<char> {
    if line.len() > 0 && line.last() == '\r' {
        line.drop_last()
    } else {
        line
    }
}

/// The lines of `s`, split at newlines, each with a carriage return before
/// its newline removed; a final piece without a newline is kept as it is.
pub open spec fn spec_split_lines(s: Seq<char>) -> Seq<Seq<char>>
    decreases s.len(),
{
    if s.len() == 0 {
        Seq::empty()
    } else {
        let i = spec_find_char(s, '\n');
        if 0 <= i < s.len() {
            seq![spec_strip_cr(s.subrange(0, i))] + spec_split_lines(
                s.subrange(i + 1, s.len() as int),
            )
        } else {
            seq![s]
        }
    }
}

/// `t` with a trailing run of the character `c` removed.
pub open spec fn spec_strip_suffix_run(t: Seq<char>, c: char) -> Seq<char>
    decreases t.len(),
{
    if t.len() > 0 && t.last() == c {
        spec_strip_suffix_run(t.drop_last(), c)
    } else {
        t
    }
}

/// Ten to the `n`.
pub open spec fn spec_pow10(n: nat) -> int
    decreases n,
{
    if n == 0 {
        1
    } else {
        10 * spec_pow10((n - 1) as nat)
    }
}

/// The index of the first occurrence of `sub` in `s`, if it occurs.
pub open spec fn spec_first_match(s: Seq<char>, sub: Seq<char>) -> Option<int>
    decreases s.len(),
{
    if sub.len() > s.len() {
        None
    } else if s.subrange(0, sub.len() as int) == sub {
        Some(0)
    } else if s.len() == 0 {
        None
    } else {
        match spec_first_match(s.drop_first(), sub) {
            Some(i) => Some(i + 1),
            None => None,
        }
    }
}

/// A position with a match that no earlier position has is where
/// `spec_first_match` points.
pub proof fn lemma_first_match_some(s: Seq<char>, sub: Seq<char>, i: int)
    requires
        0 <= i,
        i + sub.len() <= s.len(),
        s.subrange(i, i + sub.len() as int) == sub,
        forall|j: int| 0 <= j < i ==> #[trigger] s.subrange(j, j + sub.len()) != sub,
    ensures
        spec_first_match(s, sub) == Some(i),
    decreases i,
{
    if i == 0 {
    } else {
        assert(s.subrange(0int, 0int + sub.len() as int) != sub);
        assert(s.subrange(0, sub.len() as int) != sub);
        assert(s.len() > 0);
        assert forall|j: int| 0 <= j < i - 1 implies #[trigger] s.drop_first().subrange(
            j,
            j + sub.len(),
        ) != sub by {
            assert(s.drop_first().subrange(j, j + sub.len()) =~= s.subrange(
                j + 1,
                j + 1 + sub.len(),
            ));
        }
        assert(s.drop_first().subrange(i - 1, i - 1 + sub.len() as int) =~= s.subrange(
            i,
            i + sub.len() as int,
        ));
        lemma_first_match_some(s.drop_first(), sub, i - 1);
    }
}

/// Where `sub` occurs nowhere, `spec_first_match` finds nothing.
pub proof fn lemma_first_match_none(s: Seq<char>, sub: Seq<char>)
    requires
        !contains_seq(s, sub),
    ensures
        spec_first_match(s, sub) is None,
    decreases s.len(),
{
    if sub.len() > s.len() {
    } else {
        assert(s.subrange(0int, 0int + sub.len() as int) != sub);
        assert(s.subrange(0, sub.len() as int) != sub);
        if s.len() == 0 {
            assert(s.subrange(0, 0) =~= s);
        } else {
            assert(!contains_seq(s.drop_first(), sub)) by {
                if contains_seq(s.drop_first(), sub) {
                    let j = choose|j: int|
                        0 <= j && j + sub.len() <= s.drop_first().len()
                            && #[trigger] s.drop_first().subrange(j, j + sub.len()) == sub;
                    assert(s.subrange(j + 1, j + 1 + sub.len()) =~= s.drop_first().subrange(
                        j,
                        j + sub.len(),
                    ));
                    assert(false);
                }
            }
            lemma_first_match_none(s.drop_first(), sub);
        }
    }
}

/// The decimal digit character of `d`.
pub open spec fn spec_digit_char(d: nat) -> char
    recommends
        d < 10,
{
    (('0' as u32) + d as u32) as char
}

/// The decimal numeral of `n`, most significant digit first.
pub open spec fn spec_digits_of(n: nat) -> Seq<char>
    decreases n,
{
    if n < 10 {
        seq![spec_digit_char(n)]
    } else {
        spec_digits_of(n / 10) + seq![spec_digit_char(n % 10)]
    }
}

/// If everything before `a` is whitespace and `a` is the end or a
/// non-whitespace position, the front trim is the suffix from `a`.
pub proof fn lemma_trim_front_range(s: Seq<char>, a: int)
    requires
        0 <= a <= s.len(),
        forall|j: int| 0 <= j < a ==> is_ws_char(s[j]),
        a == s.len() || !is_ws_char(s[a]),
    ensures
        spec_trim_front(s) =~= s.subrange(a, s.len() as int),
    decreases a,
{
    if a == 0 {
        assert(s.subrange(0, s.len() as int) =~= s);
    } else {
        assert(is_ws_char(s[0]));
        lemma_trim_front_range(s.drop_first(), a - 1);
        assert(s.drop_first().subrange(a - 1, s.drop_first().len() as int) =~= s.subrange(
            a,
            s.len() as int,
        ));
    }
}

/// If everything from `b` on is whitespace and `b` is the start or follows
/// a non-whitespace position, the back trim is the prefix up to `b`.
pub proof fn lemma_trim_back_range(s: Seq<char>, b: int)
    requires
        0 <= b <= s.len(),
        forall|j: int| b <= j < s.len() ==> is_ws_char(s[j]),
        b == 0 || !is_ws_char(s[b - 1]),
    ensures
        spec_trim_back(s) =~= s.subrange(0, b),
    decreases s.len(),
{
    if b == s.len() {
        if s.len() > 0 && is_ws_char(s.last()) {
            assert(!is_ws_char(s[b - 1]));
            assert(false);
        }
        assert(s.subrange(0, s.len() as int) =~= s);
    } else {
        assert(is_ws_char(s.last()));
        lemma_trim_back_range(s.drop_last(), b);
        assert(s.drop_last().subrange(0, b) =~= s.subrange(0, b));
    }
}

/// A position that has no occurrence of `c` before it and holds `c`, or is
/// the end with no occurrence at all, is where `spec_find_char` points.
pub proof fn lemma_find_char_is(s: Seq<char>, c: char, i: int)
    requires
        0 <= i <= s.len(),
        forall|j: int| 0 <= j < i ==> s[j] != c,
        i == s.len() || s[i] == c,
    ensures
        spec_find_char(s, c) == i,
    decreases i,
{
    if i == 0 {
    } else {
        lemma_find_char_is(s.drop_first(), c, i - 1);
    }
}

/// `spec_find_char` points inside the string or at its end, everything
/// before it differs from `c`, and if inside it points at `c`.
pub proof fn lemma_find_char_bounds(s: Seq<char>, c: char)
    ensures
        0 <= spec_find_char(s, c) <= s.len(),
        forall|j: int| 0 <= j < spec_find_char(s, c) ==> s[j] != c,
        spec_find_char(s, c) < s.len() ==> s[spec_find_char(s, c)] == c,
    decreases s.len(),
{
    if s.len() == 0 || s[0] == c {
    } else {
        lemma_find_char_bounds(s.drop_first(), c);
        assert forall|j: int| 0 <= j < spec_find_char(s, c) implies s[j] != c by {
            if j > 0 {
                assert(s.drop_first()[j - 1] == s[j]);
            }
        }
    }
}

/// Every character of `s` is a decimal digit.
pub open spec fn all_digits(s: Seq<char>) -> bool {
    forall|j: int| 0 <= j < s.len() ==> is_digit_char(s[j])
}

/// `k` zero digits.
pub open spec fn spec_zeros(k: nat) -> Seq<char> {
    Seq::new(k, |i: int| '0')
}

/// The fractional digits `f` read at a fixed scale: the first `scale`
/// digits, padded with zeros on the right when `f` is shorter.
pub open spec fn spec_frac_scaled(f: Seq<char>, scale: nat) -> int {
    if f.len() >= scale {
        spec_digits_val(f.subrange(0, scale as int))
    } else {
        spec_digits_val(f + spec_zeros((scale - f.len()) as nat))
    }
}

/// The value of a decimal numeral `t` scaled by ten to the `scale`:
/// digits with at most one decimal point, at least one digit in all, and
/// fractional digits beyond the scale dropped. `None` when `t` is not of
/// that shape.
pub open spec fn spec_decimal_scaled(t: Seq<char>, scale: nat) -> Option<int> {
    let dot = spec_find_char(t, '.');
    if dot == t.len() {
        if all_digits(t) && t.len() > 0 {
            Some(spec_digits_val(t) * spec_pow10(scale))
        } else {
            None
        }
    } else {
        let ip = t.subrange(0, dot);
        let fp = t.subrange(dot + 1, t.len() as int);
        if all_digits(ip) && all_digits(fp) && ip.len() + fp.len() > 0 {
            Some(spec_digits_val(ip) * spec_pow10(scale) + spec_frac_scaled(fp, scale))
        } else {
            None
        }
    }
}

/// `spec_decimal_scaled` clipped to `u64`: `None` also when the value does
/// not fit.
pub open spec fn spec_decimal_u64(t: Seq<char>, scale: nat) -> Option<u64> {
    match spec_decimal_scaled(t, scale) {
        Some(v) => if v <= u64::MAX {
            Some(v as u64)
        } else {
            None
        },
        None => None,
    }
}

/// A digit string is never negative.
pub proof fn lemma_digits_val_nonneg(s: Seq<char>)
    requires
        all_digits(s),
    ensures
        spec_digits_val(s) >= 0,
    decreases s.len(),
{
    if s.len() > 0 {
        lemma_digits_val_nonneg(s.drop_last());
    }
}

/// A digit string of length `n` is smaller than ten to the `n`.
pub proof fn lemma_digits_val_bound(s: Seq<char>)
    requires
        all_digits(s),
    ensures
        0 <= spec_digits_val(s) < spec_pow10(s.len()),
    decreases s.len(),
{
    if s.len() > 0 {
        lemma_digits_val_bound(s.drop_last());
    }
}

/// Reading one more digit multiplies by ten and adds it.
pub proof fn lemma_digits_val_step(s: Seq<char>, j: int)
    requires
        0 <= j < s.len(),
    ensures
        spec_digits_val(s.subrange(0, j + 1)) == spec_digits_val(s.subrange(0, j)) * 10
            + spec_digit_val(s[j]),
{
    assert(s.subrange(0, j + 1).drop_last() =~= s.subrange(0, j));
    assert(s.subrange(0, j + 1).last() == s[j]);
}

/// A digit string is at least as large as any of its prefixes.
pub proof fn lemma_digits_val_prefix_le(s: Seq<char>, k: int)
    requires
        all_digits(s),
        0 <= k <= s.len(),
    ensures
        spec_digits_val(s.subrange(0, k)) <= spec_digits_val(s),
    decreases s.len() - k,
{
    if k == s.len() {
        assert(s.subrange(0, k) =~= s);
    } else {
        lemma_digits_val_step(s, k);
        lemma_digits_val_nonneg(s.subrange(0, k));
        lemma_digits_val_prefix_le(s, k + 1);
    }
}

/// Appending `k` zero digits multiplies the value by ten to the `k`.
pub proof fn lemma_digits_append_zeros(f: Seq<char>, k: nat)
    ensures
        spec_digits_val(f + spec_zeros(k)) == spec_digits_val(f) * spec_pow10(k),
    decreases k,
{
    if k == 0 {
        assert(f + spec_zeros(0) =~= f);
    } else {
        lemma_digits_append_zeros(f, (k - 1) as nat);
        let w = f + spec_zeros(k);
        assert(w.last() == '0');
        assert(w.drop_last() =~= f + spec_zeros((k - 1) as nat));
        assert(spec_digits_val(w) == spec_digits_val(f) * spec_pow10((k - 1) as nat) * 10);
        vstd::arithmetic::mul::lemma_mul_is_associative(
            spec_digits_val(f),
            spec_pow10((k - 1) as nat),
            10,
        );
    }
}

/// Ten to the `n` is positive.
pub proof fn lemma_pow10_pos(n: nat)
    ensures
        spec_pow10(n) >= 1,
    decreases n,
{
    if n > 0 {
        lemma_pow10_pos((n - 1) as nat);
    }
}

/// Ten to the sum is the product of the powers.
pub proof fn lemma_pow10_add(a: nat, b: nat)
    ensures
        spec_pow10(a + b) == spec_pow10(a) * spec_pow10(b),
    decreases a,
{
    if a == 0 {
        assert(spec_pow10(0 + b) == 1 * spec_pow10(b));
    } else {
        lemma_pow10_add((a - 1) as nat, b);
        assert((a + b - 1) as nat == ((a - 1) as nat + b));
        vstd::arithmetic::mul::lemma_mul_is_associative(
            10,
            spec_pow10((a - 1) as nat),
            spec_pow10(b),
        );
    }
}

/// Whether `c` is whitespace in the sense of `is_ws_char`.
pub fn ws_char(c: char) -> (r: bool)
    ensures
        r == is_ws_char(c),
{
    c == ' ' || c == '\t' || c == '\n' || c == '\r'
}

/// Whether `c` is an ASCII decimal digit.
pub fn digit_char(c: char) -> (r: bool)
    ensures
        r == is_digit_char(c),
{
    c >= '0' && c <= '9'
}

/// Maps an ASCII uppercase letter to lowercase; everything else unchanged.
pub fn lower_char(c: char) -> (r: char)
    ensures
        r == spec_lower_char(c),
{
    match c {
        'A' => 'a',
        'B' => 'b',
        'C' => 'c',
        'D' => 'd',
        'E' => 'e',
        'F' => 'f',
        'G' => 'g',
        'H' => 'h',
        'I' => 'i',
        'J' => 'j',
        'K' => 'k',
        'L' => 'l',
        'M' => 'm',
        'N' => 'n',
        'O' => 'o',
        'P' => 'p',
        'Q' => 'q',
        'R' => 'r',
        'S' => 's',
        'T' => 't',
        'U' => 'u',
        'V' => 'v',
        'W' => 'w',
        'X' => 'x',
        'Y' => 'y',
        'Z' => 'z',
        _ => c,
    }
}

/// The decimal digit character of `d`.
pub fn digit_char_of(d: u64) -> (c: char)
    requires
        d <= 9,
    ensures
        c == spec_digit_char(d as nat),
{
    match d {
        0 => '0',
        1 => '1',
        2 => '2',
        3 => '3',
        4 => '4',
        5 => '5',
        6 => '6',
        7 => '7',
        8 => '8',
        _ => '9',
    }
}

/// The decimal numeral of `n`.
pub fn u64_to_string(n: u64) -> (r: String)
    ensures
        r@ == spec_digits_of(n as nat),
    decreases n,
{
    if n < 10 {
        let mut s = String::new();
        push_char(&mut s, digit_char_of(n));
        s
    } else {
        let mut s = u64_to_string(n / 10);
        push_char(&mut s, digit_char_of(n % 10));
        s
    }
}

/// One step of `spec_lower` along a prefix.
proof fn lemma_lower_prefix_step(s: Seq<char>, j: int)
    requires
        0 <= j < s.len(),
    ensures
        spec_lower(s.subrange(0, j + 1)) =~= spec_lower(s.subrange(0, j)).push(
            spec_lower_char(s[j]),
        ),
{
}

/// `s` with its ASCII uppercase letters mapped to lowercase.
pub fn lower_str(s: &str) -> (r: String)
    ensures
        r@ == spec_lower(s@),
{
    let len = s.unicode_len();
    let mut r = String::new();
    let mut j: usize = 0;
    proof {
        assert(s@.subrange(0, 0) =~= Seq::<char>::empty());
        assert(spec_lower(Seq::<char>::empty()) =~= Seq::<char>::empty());
    }
    while j < len
        invariant
            len == s@.len(),
            0 <= j <= len,
            r@ == spec_lower(s@.subrange(0, j as int)),
        decreases len - j,
    {
        proof {
            lemma_lower_prefix_step(s@, j as int);
        }
        let c = lower_char(s.get_char(j));
        push_char(&mut r, c);
        j += 1;
    }
    proof {
        assert(s@.subrange(0, len as int) =~= s@);
    }
    r
}

/// Relies on String::push: appends one character at the end of the string.
#[verifier::external_body]
pub fn push_char(s: &mut String, c: char)
    ensures
        final(s)@ == old(s)@.push(c),
{
    s.push(c);
}

/// `s` without its leading and trailing whitespace.
pub fn trim_str<'a>(s: &'a str) -> (r: &'a str)
    ensures
        r@ == spec_trim(s@),
{
    let len = s.unicode_len();
    let mut a: usize = 0;
    while a < len && ws_char(s.get_char(a))
        invariant
            len == s@.len(),
            0 <= a <= len,
            forall|j: int| 0 <= j < a ==> is_ws_char(s@[j]),
        decreases len - a,
    {
        a += 1;
    }
    let mut b: usize = len;
    while b > a && ws_char(s.get_char(b - 1))
        invariant
            len == s@.len(),
            a <= b <= len,
            forall|j: int| b <= j < len ==> is_ws_char(s@[j]),
        decreases b,
    {
        b -= 1;
    }
    proof {
        lemma_trim_front_range(s@, a as int);
        lemma_trim_back_range(s@.subrange(a as int, len as int), (b - a) as int);
        assert(s@.subrange(a as int, len as int).subrange(0, (b - a) as int) =~= s@.subrange(
            a as int,
            b as int,
        ));
    }
    s.substring_char(a, b)
}

/// The first position of `c` in `s` at or after `from`, or the length of
/// `s` if there is none from there on.
pub fn find_char_from(s: &str, from: usize, c: char) -> (i: usize)
    requires
        from <= s@.len(),
    ensures
        from <= i <= s@.len(),
        forall|j: int| from <= j < i ==> s@[j] != c,
        i < s@.len() ==> s@[i as int] == c,
{
    let len = s.unicode_len();
    let mut i: usize = from;
    while i < len && s.get_char(i) != c
        invariant
            len == s@.len(),
            from <= i <= len,
            forall|j: int| from <= j < i ==> s@[j] != c,
        decreases len - i,
    {
        i += 1;
    }
    i
}

/// The first position where `sub` occurs in `s`, if it occurs at all.
pub fn find_str(s: &str, sub: &str) -> (r: Option<usize>)
    ensures
        (match r {
            Some(i) => i + sub@.len() <= s@.len() && s@.subrange(
                i as int,
                i + sub@.len(),
            ) == sub@ && forall|j: int|
                0 <= j < i ==> #[trigger] s@.subrange(j, j + sub@.len()) != sub@,
            None => !contains_seq(s@, sub@),
        }),
{
    let s_len = s.unicode_len();
    let m = sub.unicode_len();
    if m > s_len {
        assert(!contains_seq(s@, sub@));
        return None;
    }
    let mut i: usize = 0;
    while i <= s_len - m
        invariant
            s_len == s@.len(),
            m == sub@.len(),
            m <= s_len,
            0 <= i <= s_len - m + 1,
            forall|j: int| 0 <= j < i ==> #[trigger] s@.subrange(j, j + sub@.len()) != sub@,
        decreases s_len + 1 - i,
    {
        let cand = s.substring_char(i, i + m);
        if str_eq(cand, sub) {
            return Some(i);
        }
        proof {
            if m == 0 {
                assert(cand@ =~= sub@);
            }
        }
        i += 1;
    }
    assert(!contains_seq(s@, sub@)) by {
        assert forall|j: int| 0 <= j && j + sub@.len() <= s@.len() implies #[trigger] s@.subrange(
            j,
            j + sub@.len(),
        ) != sub@ by {
            assert(j < s_len - m + 1);
        }
    }
    None
}

/// The numeric value of one decimal digit character.
pub fn char_digit_val(c: char) -> (d: u64)
    requires
        is_digit_char(c),
    ensures
        d as int == spec_digit_val(c),
        d <= 9,
{
    ((c as u32) - 48) as u64
}

/// Ten to the `e`, for the small scales used here.
pub fn pow10_u64(e: usize) -> (r: u64)
    requires
        e <= 6,
    ensures
        r as int == spec_pow10(e as nat),
{
    proof {
        reveal_with_fuel(spec_pow10, 8);
    }
    match e {
        0 => 1,
        1 => 10,
        2 => 100,
        3 => 1000,
        4 => 10000,
        5 => 100000,
        _ => 1000000,
    }
}

/// If everything from `e` on is `c` and `e` is the start or follows a
/// position without `c`, the suffix-run strip is the prefix up to `e`.
proof fn lemma_strip_suffix_run_range(t: Seq<char>, c: char, e: int)
    requires
        0 <= e <= t.len(),
        forall|j: int| e <= j < t.len() ==> t[j] == c,
        e == 0 || t[e - 1] != c,
    ensures
        spec_strip_suffix_run(t, c) =~= t.subrange(0, e),
    decreases t.len(),
{
    if e == t.len() {
        if t.len() > 0 && t.last() == c {
            assert(false);
        }
        assert(t.subrange(0, t.len() as int) =~= t);
    } else {
        lemma_strip_suffix_run_range(t.drop_last(), c, e);
        assert(t.drop_last().subrange(0, e) =~= t.subrange(0, e));
    }
}

/// `t` with its trailing run of `c` removed.
pub fn strip_suffix_run<'a>(t: &'a str, c: char) -> (r: &'a str)
    ensures
        r@ == spec_strip_suffix_run(t@, c),
{
    let len = t.unicode_len();
    let mut e: usize = len;
    while e > 0 && t.get_char(e - 1) == c
        invariant
            len == t@.len(),
            0 <= e <= len,
            forall|j: int| e <= j < len ==> t@[j] == c,
        decreases e,
    {
        e -= 1;
    }
    proof {
        lemma_strip_suffix_run_range(t@, c, e as int);
    }
    t.substring_char(0, e)
}

/// The lines of `s` in the sense of `spec_split_lines`.
pub fn split_lines(s: &str) -> (r: Vec<String>)
    ensures
        r.deep_view() == spec_split_lines(s@),
{
    let len = s.unicode_len();
    let mut r: Vec<String> = Vec::new();
    let mut pos: usize = 0;
    proof {
        assert(s@.subrange(0, len as int) =~= s@);
        assert(r.deep_view() =~= Seq::<Seq<char>>::empty());
        assert(r.deep_view() + spec_split_lines(s@) =~= spec_split_lines(s@));
    }
    while pos < len
        invariant
            len == s@.len(),
            0 <= pos <= len,
            spec_split_lines(s@) =~= r.deep_view() + spec_split_lines(
                s@.subrange(pos as int, len as int),
            ),
        decreases len - pos,
    {
        let i = find_char_from(s, pos, '\n');
        let mut end = i;
        if i < len {
            if end > pos && s.get_char(end - 1) == '\r' {
                end -= 1;
            }
        }
        let line = s.substring_char(pos, end).to_owned();
        let ghost old_r = r.deep_view();
        r.push(line);
        proof {
            let tail = s@.subrange(pos as int, len as int);
            lemma_find_char_is(tail, '\n', i - pos);
            assert(r.deep_view() =~= old_r.push(s@.subrange(pos as int, end as int)));
            if i < len {
                assert(tail.subrange(0, i - pos) =~= s@.subrange(pos as int, i as int));
                assert(spec_strip_cr(s@.subrange(pos as int, i as int)) =~= s@.subrange(
                    pos as int,
                    end as int,
                ));
                assert(tail.subrange(i - pos + 1, tail.len() as int) =~= s@.subrange(
                    i as int + 1,
                    len as int,
                ));
                assert(spec_split_lines(tail) =~= seq![s@.subrange(pos as int, end as int)]
                    + spec_split_lines(s@.subrange(i as int + 1, len as int)));
                assert(spec_split_lines(s@) =~= r.deep_view() + spec_split_lines(
                    s@.subrange(i as int + 1, len as int),
                ));
            } else {
                assert(tail =~= s@.subrange(pos as int, end as int));
                assert(spec_split_lines(tail) =~= seq![s@.subrange(pos as int, end as int)]);
                assert(s@.subrange(len as int, len as int) =~= Seq::<char>::empty());
                assert(spec_split_lines(s@) =~= r.deep_view() + spec_split_lines(
                    s@.subrange(len as int, len as int),
                ));
            }
        }
        pos = if i < len {
            i + 1
        } else {
            len
        };
    }
    proof {
        assert(s@.subrange(pos as int, len as int) =~= Seq::<char>::empty());
        assert(spec_split_lines(s@) =~= r.deep_view());
    }
    r
}

/// The value of a plain digit string, when it is one and fits a `u64`.
pub fn parse_digits_u64(t: &str) -> (r: Option<u64>)
    ensures
        (match r {
            Some(v) => all_digits(t@) && t@.len() > 0 && spec_digits_val(t@) == v as int,
            None => !(all_digits(t@) && t@.len() > 0 && spec_digits_val(t@) <= u64::MAX),
        }),
{
    let len = t.unicode_len();
    if len == 0 {
        return None;
    }
    let mut v: u64 = 0;
    let mut j: usize = 0;
    while j < len
        invariant
            len == t@.len(),
            0 <= j <= len,
            all_digits(t@.subrange(0, j as int)),
            v as int == spec_digits_val(t@.subrange(0, j as int)),
        decreases len - j,
    {
        let c = t.get_char(j);
        if !digit_char(c) {
            return None;
        }
        let d = char_digit_val(c);
        proof {
            lemma_digits_val_step(t@, j as int);
        }
        let x = match v.checked_mul(10) {
            Some(x) => x,
            None => {
                proof {
                    if all_digits(t@) {
                        lemma_digits_val_prefix_le(t@, j as int + 1);
                        assert(t@.subrange(0, len as int) =~= t@);
                    }
                }
                return None;
            },
        };
        let y = match x.checked_add(d) {
            Some(y) => y,
            None => {
                proof {
                    if all_digits(t@) {
                        lemma_digits_val_prefix_le(t@, j as int + 1);
                        assert(t@.subrange(0, len as int) =~= t@);
                    }
                }
                return None;
            },
        };
        v = y;
        j += 1;
    }
    proof {
        assert(t@.subrange(0, len as int) =~= t@);
    }
    Some(v)
}

/// The value of a decimal numeral at a fixed scale, in the sense of
/// `spec_decimal_u64`.
#[verifier::rlimit(100)]
pub fn parse_decimal_scaled(t: &str, scale: usize) -> (r: Option<u64>)
    requires
        scale <= 6,
    ensures
        r == spec_decimal_u64(t@, scale as nat),
{
    let len = t.unicode_len();
    let dot = find_char_from(t, 0, '.');
    proof {
        lemma_find_char_is(t@, '.', dot as int);
    }
    if len == 0 {
        return None;
    }
    if dot < len && len == 1 {
        return None;
    }
    let ghost ip: Seq<char> = if dot == len {
        t@
    } else {
        t@.subrange(0, dot as int)
    };
    let ghost fp: Seq<char> = if dot == len {
        Seq::empty()
    } else {
        t@.subrange(dot as int + 1, len as int)
    };
    proof {
        if dot == len {
            assert(t@.subrange(0, dot as int) =~= t@);
        }
    }
    // integer part
    let mut iv: u64 = 0;
    let mut big: bool = false;
    let mut j: usize = 0;
    while j < dot
        invariant
            len == t@.len(),
            dot <= len,
            dot == spec_find_char(t@, '.'),
            ip == (if dot == len {
                t@
            } else {
                t@.subrange(0, dot as int)
            }),
            0 <= j <= dot,
            all_digits(t@.subrange(0, j as int)),
            !big ==> iv as int == spec_digits_val(t@.subrange(0, j as int)),
            big ==> spec_digits_val(t@.subrange(0, j as int)) > u64::MAX,
        decreases dot - j,
    {
        let c = t.get_char(j);
        if !digit_char(c) {
            proof {
                assert(ip[j as int] == t@[j as int]);
            }
            return None;
        }
        let d = char_digit_val(c);
        proof {
            lemma_digits_val_step(t@, j as int);
        }
        if !big {
            let x = match iv.checked_mul(10) {
                Some(x) => match x.checked_add(d) {
                    Some(y) => y,
                    None => {
                        big = true;
                        0
                    },
                },
                None => {
                    big = true;
                    0
                },
            };
            if !big {
                iv = x;
            }
        }
        j += 1;
    }
    proof {
        assert(t@.subrange(0, dot as int) =~= ip);
    }
    // fractional part, truncated at the scale
    let mut fv: u64 = 0;
    let mut cnt: usize = 0;
    if dot < len {
        let mut k: usize = dot + 1;
        while k < len
            invariant
                len == t@.len(),
                dot < len,
                dot == spec_find_char(t@, '.'),
                fp == t@.subrange(dot as int + 1, len as int),
                scale <= 6,
                dot + 1 <= k <= len,
                all_digits(fp.subrange(0, k - dot - 1)),
                cnt == (if k - dot - 1 <= scale {
                    k - dot - 1
                } else {
                    scale as int
                }),
                fv as int == spec_digits_val(fp.subrange(0, cnt as int)),
                (fv as int) < spec_pow10(cnt as nat),
            decreases len - k,
        {
            let c = t.get_char(k);
            proof {
                assert(fp[k - dot - 1] == t@[k as int]);
            }
            if !digit_char(c) {
                return None;
            }
            let d = char_digit_val(c);
            if cnt < scale {
                proof {
                    lemma_digits_val_step(fp, cnt as int);
                    lemma_pow10_monotone(cnt as nat + 1, 6);
                    reveal_with_fuel(spec_pow10, 8);
                    assert(fp.subrange(0, cnt as int + 1) =~= fp.subrange(
                        0,
                        (k - dot - 1) + 1,
                    ));
                }
                fv = fv * 10 + d;
                cnt += 1;
            }
            k += 1;
        }
        proof {
            assert(fp.subrange(0, (len - dot - 1) as int) =~= fp);
        }
    }
    // fv now reads the first `cnt` fractional digits; scale the rest up
    let fs = if cnt < scale {
        let p = pow10_u64(scale - cnt);
        proof {
            lemma_digits_val_bound(fp.subrange(0, cnt as int));
            lemma_pow10_add(cnt as nat, (scale - cnt) as nat);
            lemma_pow10_monotone(scale as nat, 6);
            reveal_with_fuel(spec_pow10, 8);
            vstd::arithmetic::mul::lemma_mul_strict_inequality(
                fv as int,
                spec_pow10(cnt as nat),
                spec_pow10((scale - cnt) as nat),
            );
            lemma_pow10_pos((scale - cnt) as nat);
            if fp.len() < scale {
                assert(fp.subrange(0, cnt as int) =~= fp);
                lemma_digits_append_zeros(fp, (scale - fp.len()) as nat);
            } else {
                assert(cnt == scale);
                assert(false);
            }
        }
        fv * p
    } else {
        proof {
            if fp.len() >= scale {
                assert(fp.subrange(0, cnt as int) =~= fp.subrange(0, scale as int));
            } else {
                assert(false);
            }
        }
        fv
    };
    proof {
        assert(fs as int == spec_frac_scaled(fp, scale as nat));
        assert((fs as int) < spec_pow10(scale as nat)) by {
            if cnt < scale {
            } else {
                lemma_digits_val_bound(fp.subrange(0, scale as int));
            }
        }
        lemma_pow10_pos(scale as nat);
        lemma_digits_val_nonneg(ip);
    }
    let p = pow10_u64(scale);
    if big {
        proof {
            let v = spec_digits_val(ip) * spec_pow10(scale as nat) + spec_frac_scaled(
                fp,
                scale as nat,
            );
            vstd::arithmetic::mul::lemma_mul_inequality(
                1,
                spec_pow10(scale as nat),
                spec_digits_val(ip),
            );
            vstd::arithmetic::mul::lemma_mul_is_commutative(
                spec_digits_val(ip),
                spec_pow10(scale as nat),
            );
            assert(spec_digits_val(ip) <= spec_digits_val(ip) * spec_pow10(scale as nat));
            assert(v > u64::MAX);
        }
        return None;
    }
    let hi = match iv.checked_mul(p) {
        Some(hi) => hi,
        None => {
            proof {
                let v = spec_digits_val(ip) * spec_pow10(scale as nat) + spec_frac_scaled(
                    fp,
                    scale as nat,
                );
                assert(v > u64::MAX);
            }
            return None;
        },
    };
    let total = match hi.checked_add(fs) {
        Some(total) => total,
        None => {
            return None;
        },
    };
    Some(total)
}

/// Ten to the `a` is at most ten to the `b` when `a <= b`.
pub proof fn lemma_pow10_monotone(a: nat, b: nat)
    requires
        a <= b,
    ensures
        spec_pow10(a) <= spec_pow10(b),
    decreases b,
{
    if a < b {
        lemma_pow10_monotone(a, (b - 1) as nat);
        lemma_pow10_pos((b - 1) as nat);
    }
}

/// Whether `sub` occurs in `s`.
pub fn contains_str(s: &str, sub: &str) -> (r: bool)
    ensures
        r == contains_seq(s@, sub@),
{
    let found = find_str(s, sub);
    proof {
        if found is Some {
            let i = found->0 as int;
            assert(s@.subrange(i, i + sub@.len()) == sub@);
        }
    }
    found.is_some()
}

/// Whether `p` is a prefix of `s`.
pub fn str_starts_with(s: &str, p: &str) -> (r: bool)
    ensures
        r == starts_with_seq(s@, p@),
{
    let s_len = s.unicode_len();
    let p_len = p.unicode_len();
    if p_len > s_len {
        return false;
    }
    let mut i: usize = 0;
    while i < p_len
        invariant
            s_len == s@.len(),
            p_len == p@.len(),
            p_len <= s_len,
            0 <= i <= p_len,
            forall|j: int| 0 <= j < i ==> s@[j] == p@[j],
        decreases p_len - i,
    {
        if s.get_char(i) != p.get_char(i) {
            assert(s@.subrange(0, p@.len() as int)[i as int] != p@[i as int]);
            return false;
        }
        i += 1;
    }
    assert(s@.subrange(0, p@.len() as int) =~= p@);
    true
}

} // verus!
