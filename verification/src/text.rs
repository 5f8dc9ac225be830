//! Character-level string utilities with exact specifications.

use vstd::prelude::*;

verus! {

/// A class of characters that can be stripped from the ends of a string.
#[derive(Clone, Copy, PartialEq, Eq, Debug)]
pub enum CharClass {
    /// Unicode `White_Space` characters (what `str::trim` removes).
    WhiteSpace,
    /// Exactly the given character.
    Exactly(char),
}

/// The Unicode `White_Space` property.
pub open spec fn is_white_space(c: char) -> bool {
    let u = c as u32;
    ||| (0x9 <= u && u <= 0xD)
    ||| u == 0x20
    ||| u == 0x85
    ||| u == 0xA0
    ||| u == 0x1680
    ||| (0x2000 <= u && u <= 0x200A)
    ||| u == 0x2028
    ||| u == 0x2029
    ||| u == 0x202F
    ||| u == 0x205F
    ||| u == 0x3000
}

pub open spec fn class_has(k: CharClass, c: char) -> bool {
    match k {
        CharClass::WhiteSpace => is_white_space(c),
        CharClass::Exactly(d) => c == d,
    }
}

/// Number of leading characters of `s` in class `k`.
pub open spec fn lead(s: Seq<char>, k: CharClass) -> nat
    decreases s.len(),
{
    if s.len() > 0 && class_has(k, s[0]) {
        1 + lead(s.drop_first(), k)
    } else {
        0
    }
}

/// Number of trailing characters of `s` in class `k`.
pub open spec fn trail(s: Seq<char>, k: CharClass) -> nat
    decreases s.len(),
{
    if s.len() > 0 && class_has(k, s.last()) {
        1 + trail(s.drop_last(), k)
    } else {
        0
    }
}

pub open spec fn trim_start(s: Seq<char>, k: CharClass) -> Seq<char> {
    s.subrange(lead(s, k) as int, s.len() as int)
}

pub open spec fn trim_end(s: Seq<char>, k: CharClass) -> Seq<char> {
    s.subrange(0, s.len() - trail(s, k))
}

/// Both ends stripped, as `str::trim` / `str::trim_matches` do.
pub open spec fn trim(s: Seq<char>, k: CharClass) -> Seq<char> {
    trim_end(trim_start(s, k), k)
}

/// ASCII lower-casing of one character.
pub open spec fn lower_char(c: char) -> char {
    if 'A' <= c && c <= 'Z' {
        ((c as u32) + 32) as char
    } else {
        c
    }
}

/// ASCII lower-casing of a string (`str::to_ascii_lowercase`).
pub open spec fn lower(s: Seq<char>) -> Seq<char> {
    s.map_values(|c: char| lower_char(c))
}

/// Non-overlapping left-to-right replacement of `pat` by `to` (`str::replace`
/// with a non-empty pattern).
pub open spec fn replace_all(s: Seq<char>, pat: Seq<char>, to: Seq<char>) -> Seq<char>
    decreases s.len(),
{
    if s.len() == 0 {
        s
    } else if 0 < pat.len() <= s.len() && s.subrange(0, pat.len() as int) == pat {
        to + replace_all(s.subrange(pat.len() as int, s.len() as int), pat, to)
    } else {
        seq![s[0]] + replace_all(s.drop_first(), pat, to)
    }
}

/// The first `n` characters of `s` (all of them when `s` is shorter).
pub open spec fn take_chars(s: Seq<char>, n: nat) -> Seq<char> {
    if s.len() <= n {
        s
    } else {
        s.subrange(0, n as int)
    }
}

/// Whether `s` ends with `suffix`.
pub open spec fn ends_with(s: Seq<char>, suffix: Seq<char>) -> bool {
    suffix.len() <= s.len() && s.subrange(s.len() - suffix.len(), s.len() as int) == suffix
}

/// Decimal digits of `n`, without leading zeros (`u32::to_string`).
pub open spec fn decimal(n: nat) -> Seq<char>
    decreases n,
{
    if n < 10 {
        seq![digit_char(n)]
    } else {
        decimal(n / 10).push(digit_char(n % 10))
    }
}

pub open spec fn digit_char(d: nat) -> char {
    (('0' as u32) + d) as char
}

/// The number that a string of decimal digits denotes.
pub open spec fn digits_value(s: Seq<char>) -> int
    decreases s.len(),
{
    if s.len() == 0 {
        0
    } else {
        digits_value(s.drop_last()) * 10 + ((s.last() as u32) - ('0' as u32))
    }
}

/// `n` in decimal, left-padded with zeros to at least `width` characters.
pub open spec fn zero_padded(n: nat, width: nat) -> Seq<char> {
    let d = decimal(n);
    if d.len() >= width {
        d
    } else {
        Seq::new((width - d.len()) as nat, |i: int| '0') + d
    }
}

/// Appends one character to a string (`String::push`).
#[verifier::external_body]
pub(crate) fn push_char(s: &mut String, c: char)
    ensures
        final(s)@ == old(s)@.push(c),
{
    s.push(c);
}

/// The characters of a string slice, in order.
pub fn chars_of(s: &str) -> (v: Vec<char>)
    ensures
        v@ == s@,
{
    let n = s.unicode_len();
    let mut v: Vec<char> = Vec::new();
    let mut i: usize = 0;
    while i < n
        invariant
            n == s@.len(),
            i <= n,
            v@ == s@.subrange(0, i as int),
        decreases n - i,
    {
        let c = s.get_char(i);
        v.push(c);
        i = i + 1;
    }
    v
}

/// A string made of the given characters.
pub fn string_of(v: &Vec<char>) -> (s: String)
    ensures
        s@ == v@,
{
    let mut s = String::new();
    let mut i: usize = 0;
    while i < v.len()
        invariant
            i <= v.len(),
            s@ == v@.subrange(0, i as int),
        decreases v.len() - i,
    {
        push_char(&mut s, v[i]);
        i = i + 1;
    }
    s
}

pub fn is_white_space_char(c: char) -> (b: bool)
    ensures
        b == is_white_space(c),
{
    let u = c as u32;
    (0x9 <= u && u <= 0xD) || u == 0x20 || u == 0x85 || u == 0xA0 || u == 0x1680 || (0x2000 <= u
        && u <= 0x200A) || u == 0x2028 || u == 0x2029 || u == 0x202F || u == 0x205F || u == 0x3000
}

pub fn class_has_char(k: CharClass, c: char) -> (b: bool)
    ensures
        b == class_has(k, c),
{
    match k {
        CharClass::WhiteSpace => is_white_space_char(c),
        CharClass::Exactly(d) => c == d,
    }
}

/// A string with no white space at either end is its own trim.
pub proof fn lemma_trim_plain(s: Seq<char>)
    requires
        forall|i: int| 0 <= i < s.len() ==> !is_white_space(#[trigger] s[i]),
    ensures
        trim(s, CharClass::WhiteSpace) == s,
{
    if s.len() > 0 {
        assert(!class_has(CharClass::WhiteSpace, s[0]));
    }
    lemma_lead(s, CharClass::WhiteSpace, 0);
    let t = trim_start(s, CharClass::WhiteSpace);
    assert(t =~= s);
    if t.len() > 0 {
        assert(!class_has(CharClass::WhiteSpace, t[t.len() - 1]));
    }
    lemma_trail(t, CharClass::WhiteSpace, 0);
    assert(trim_end(t, CharClass::WhiteSpace) =~= t);
}

proof fn lemma_lead(s: Seq<char>, k: CharClass, i: int)
    requires
        0 <= i <= s.len(),
        forall|j: int| 0 <= j < i ==> class_has(k, #[trigger] s[j]),
        i == s.len() || !class_has(k, s[i]),
    ensures
        lead(s, k) == i,
    decreases i,
{
    if i > 0 {
        let t = s.drop_first();
        assert forall|j: int| 0 <= j < i - 1 implies class_has(k, #[trigger] t[j]) by {
            assert(t[j] == s[j + 1]);
        }
        if i < s.len() {
            assert(t[i - 1] == s[i]);
        }
        lemma_lead(t, k, i - 1);
    }
}

proof fn lemma_trail(s: Seq<char>, k: CharClass, i: int)
    requires
        0 <= i <= s.len(),
        forall|j: int| s.len() - i <= j < s.len() ==> class_has(k, #[trigger] s[j]),
        i == s.len() || !class_has(k, s[s.len() - i - 1]),
    ensures
        trail(s, k) == i,
    decreases i,
{
    if i > 0 {
        let t = s.drop_last();
        assert forall|j: int| t.len() - (i - 1) <= j < t.len() implies class_has(
            k,
            #[trigger] t[j],
        ) by {
            assert(t[j] == s[j]);
        }
        if i < s.len() {
            assert(t[t.len() - (i - 1) - 1] == s[s.len() - i - 1]);
        }
        lemma_trail(t, k, i - 1);
    }
}

/// Strips characters of class `k` from both ends of `v` (`str::trim` for
/// white space, `str::trim_matches` for one character).
pub fn trim_vec(v: &Vec<char>, k: CharClass) -> (r: Vec<char>)
    ensures
        r@ == trim(v@, k),
{
    let n = v.len();
    let mut a: usize = 0;
    while a < n && class_has_char(k, v[a])
        invariant
            n == v.len(),
            a <= n,
            forall|j: int| 0 <= j < a ==> class_has(k, #[trigger] v@[j]),
        decreases n - a,
    {
        a = a + 1;
    }
    proof {
        lemma_lead(v@, k, a as int);
    }
    let ghost s1 = v@.subrange(a as int, n as int);
    let mut b: usize = n;
    while b > a && class_has_char(k, v[b - 1])
        invariant
            n == v.len(),
            a <= b <= n,
            s1 == v@.subrange(a as int, n as int),
            forall|j: int| b <= j < n ==> class_has(k, #[trigger] v@[j]),
        decreases b,
    {
        b = b - 1;
    }
    proof {
        let i = (n - b) as int;
        assert forall|j: int| s1.len() - i <= j < s1.len() implies class_has(
            k,
            #[trigger] s1[j],
        ) by {
            assert(s1[j] == v@[a + j]);
        }
        if i < s1.len() {
            assert(s1[s1.len() - i - 1] == v@[b - 1]);
        }
        lemma_trail(s1, k, i);
    }
    let mut r: Vec<char> = Vec::new();
    let mut j: usize = a;
    while j < b
        invariant
            n == v.len(),
            a <= j <= b <= n,
            r@ == v@.subrange(a as int, j as int),
        decreases b - j,
    {
        r.push(v[j]);
        j = j + 1;
    }
    proof {
        assert(r@ =~= trim(v@, k));
    }
    r
}

/// Strips characters of class `k` from the front of `v`.
pub fn trim_start_vec(v: &Vec<char>, k: CharClass) -> (r: Vec<char>)
    ensures
        r@ == trim_start(v@, k),
{
    let n = v.len();
    let mut a: usize = 0;
    while a < n && class_has_char(k, v[a])
        invariant
            n == v.len(),
            a <= n,
            forall|j: int| 0 <= j < a ==> class_has(k, #[trigger] v@[j]),
        decreases n - a,
    {
        a = a + 1;
    }
    proof {
        lemma_lead(v@, k, a as int);
    }
    let mut r: Vec<char> = Vec::new();
    let mut j: usize = a;
    while j < n
        invariant
            n == v.len(),
            a <= j <= n,
            r@ == v@.subrange(a as int, j as int),
        decreases n - j,
    {
        r.push(v[j]);
        j = j + 1;
    }
    r
}

pub fn lower_char_exec(c: char) -> (d: char)
    ensures
        d == lower_char(c),
{
    if 'A' <= c && c <= 'Z' {
        let u: u8 = (c as u8) + 32;
        u as char
    } else {
        c
    }
}

/// ASCII lower-casing of every character.
pub fn lower_vec(v: &Vec<char>) -> (r: Vec<char>)
    ensures
        r@ == lower(v@),
{
    let mut r: Vec<char> = Vec::new();
    let mut i: usize = 0;
    while i < v.len()
        invariant
            i <= v.len(),
            r@ == lower(v@).subrange(0, i as int),
        decreases v.len() - i,
    {
        r.push(lower_char_exec(v[i]));
        i = i + 1;
        proof {
            assert(r@ =~= lower(v@).subrange(0, i as int));
        }
    }
    proof {
        assert(r@ =~= lower(v@));
    }
    r
}

pub fn digit_char_exec(d: u32) -> (c: char)
    requires
        d < 10,
    ensures
        c == digit_char(d as nat),
{
    let b: u8 = 48u8 + (d as u8);
    b as char
}

/// Decimal digits of `n` (`n.to_string()`).
pub fn decimal_vec(n: u32) -> (v: Vec<char>)
    ensures
        v@ == decimal(n as nat),
    decreases n,
{
    if n < 10 {
        let mut v: Vec<char> = Vec::new();
        v.push(digit_char_exec(n));
        v
    } else {
        let mut v = decimal_vec(n / 10);
        v.push(digit_char_exec(n % 10));
        v
    }
}

/// Decimal text of `n` (`n.to_string()`).
pub fn decimal_string(n: u32) -> (s: String)
    ensures
        s@ == decimal(n as nat),
{
    string_of(&decimal_vec(n))
}

/// Decimal text of a `u64` (`n.to_string()`).
pub fn decimal_string_u64(n: u64) -> (s: String)
    ensures
        s@ == decimal(n as nat),
{
    string_of(&decimal_vec_u64(n))
}

pub fn decimal_vec_u64(n: u64) -> (v: Vec<char>)
    ensures
        v@ == decimal(n as nat),
    decreases n,
{
    if n < 10 {
        let mut v: Vec<char> = Vec::new();
        v.push(digit_char_exec(n as u32));
        v
    } else {
        let mut v = decimal_vec_u64(n / 10);
        v.push(digit_char_exec((n % 10) as u32));
        v
    }
}

/// A decimal rendering can be read back: `decimal` is injective.
pub proof fn lemma_decimal_value(n: nat)
    ensures
        digits_value(decimal(n)) == n,
        decimal(n).len() >= 1,
    decreases n,
{
    let c = digit_char(n % 10);
    assert('0' as u32 == 48);
    assert(c as u32 == 48 + n % 10);
    assert((c as u32) - ('0' as u32) == n % 10);
    if n >= 10 {
        lemma_decimal_value(n / 10);
        let d = decimal(n);
        assert(d.drop_last() =~= decimal(n / 10));
        assert(d.last() == digit_char(n % 10));
        assert(digits_value(d) == digits_value(d.drop_last()) * 10 + ((d.last() as u32) - ('0' as u32)));
        assert((n / 10) * 10 + n % 10 == n);
        assert(digits_value(d) == (n / 10) * 10 + n % 10);
    } else {
        assert(decimal(n).drop_last() =~= Seq::<char>::empty());
        assert(digits_value(Seq::<char>::empty()) == 0);
        assert(decimal(n).last() == c);
        assert(n % 10 == n);
    }
}

/// `n` left-padded with zeros to `width` characters (`format!("{n:0width$}")`).
pub fn zero_padded_vec(n: u32, width: u8) -> (v: Vec<char>)
    ensures
        v@ == zero_padded(n as nat, width as nat),
{
    let d = decimal_vec(n);
    let w = width as usize;
    if d.len() >= w {
        return d;
    }
    let mut v: Vec<char> = Vec::new();
    let pad = w - d.len();
    let mut i: usize = 0;
    while i < pad
        invariant
            i <= pad,
            v@ == Seq::new(i as nat, |k: int| '0'),
        decreases pad - i,
    {
        v.push('0');
        i = i + 1;
        proof {
            assert(v@ =~= Seq::new(i as nat, |k: int| '0'));
        }
    }
    let mut j: usize = 0;
    while j < d.len()
        invariant
            j <= d.len(),
            v@ == Seq::new(pad as nat, |k: int| '0') + d@.subrange(0, j as int),
        decreases d.len() - j,
    {
        v.push(d[j]);
        j = j + 1;
        proof {
            assert(v@ =~= Seq::new(pad as nat, |k: int| '0') + d@.subrange(0, j as int));
        }
    }
    proof {
        assert(d@.subrange(0, d@.len() as int) =~= d@);
    }
    v
}

/// Appends all characters of `t` to `v`.
pub fn extend_chars(v: &mut Vec<char>, t: &Vec<char>)
    ensures
        final(v)@ == old(v)@ + t@,
{
    let mut i: usize = 0;
    while i < t.len()
        invariant
            i <= t.len(),
            v@ == old(v)@ + t@.subrange(0, i as int),
        decreases t.len() - i,
    {
        v.push(t[i]);
        i = i + 1;
        proof {
            assert(v@ =~= old(v)@ + t@.subrange(0, i as int));
        }
    }
    proof {
        assert(t@.subrange(0, t@.len() as int) =~= t@);
    }
}

/// Whether `s` has `pat` at position `i`.
pub fn matches_at(s: &Vec<char>, i: usize, pat: &Vec<char>) -> (b: bool)
    requires
        i <= s.len(),
    ensures
        b == (i + pat.len() <= s.len() && s@.subrange(i as int, i + pat.len()) == pat@),
{
    if pat.len() > s.len() - i {
        return false;
    }
    let mut k: usize = 0;
    while k < pat.len()
        invariant
            i + pat.len() <= s.len(),
            k <= pat.len(),
            forall|j: int| 0 <= j < k ==> s@[i + j] == pat@[j],
        decreases pat.len() - k,
    {
        if s[i + k] != pat[k] {
            proof {
                assert(s@.subrange(i as int, i + pat.len())[k as int] != pat@[k as int]);
            }
            return false;
        }
        k = k + 1;
    }
    proof {
        assert(s@.subrange(i as int, i + pat.len()) =~= pat@);
    }
    true
}

/// Replaces every non-overlapping occurrence of `pat`, left to right
/// (`str::replace`).
pub fn replace_vec(s: &Vec<char>, pat: &Vec<char>, to: &Vec<char>) -> (r: Vec<char>)
    requires
        pat.len() > 0,
    ensures
        r@ == replace_all(s@, pat@, to@),
{
    let n = s.len();
    let mut r: Vec<char> = Vec::new();
    let mut i: usize = 0;
    proof {
        assert(s@.subrange(0, n as int) =~= s@);
        assert(r@ + s@ =~= s@);
    }
    while i < n
        invariant
            n == s.len(),
            pat.len() > 0,
            i <= n,
            replace_all(s@, pat@, to@) == r@ + replace_all(s@.subrange(i as int, n as int), pat@, to@),
        decreases n - i,
    {
        let ghost rest = s@.subrange(i as int, n as int);
        if matches_at(s, i, pat) {
            proof {
                assert(rest.subrange(0, pat@.len() as int) =~= s@.subrange(i as int, i + pat.len()));
                assert(rest.subrange(pat@.len() as int, rest.len() as int) =~= s@.subrange(
                    i + pat.len(),
                    n as int,
                ));
                assert(r@ + to@ + replace_all(s@.subrange(i + pat.len(), n as int), pat@, to@)
                    =~= r@ + (to@ + replace_all(s@.subrange(i + pat.len(), n as int), pat@, to@)));
            }
            extend_chars(&mut r, to);
            i = i + pat.len();
        } else {
            proof {
                if pat@.len() <= rest.len() {
                    assert(rest.subrange(0, pat@.len() as int) =~= s@.subrange(
                        i as int,
                        i + pat.len(),
                    ));
                }
                assert(rest.drop_first() =~= s@.subrange(i + 1, n as int));
                assert(r@.push(s@[i as int]) + replace_all(s@.subrange(i + 1, n as int), pat@, to@)
                    =~= r@ + (seq![s@[i as int]] + replace_all(s@.subrange(i + 1, n as int), pat@, to@)));
            }
            r.push(s[i]);
            i = i + 1;
        }
    }
    proof {
        assert(replace_all(s@.subrange(n as int, n as int), pat@, to@) =~= Seq::<char>::empty());
        assert(r@ + Seq::<char>::empty() =~= r@);
    }
    r
}

/// The first `n` characters (`s.chars().take(n)`).
pub fn take_vec(v: &Vec<char>, n: usize) -> (r: Vec<char>)
    ensures
        r@ == take_chars(v@, n as nat),
{
    let m = if v.len() <= n { v.len() } else { n };
    let mut r: Vec<char> = Vec::new();
    let mut i: usize = 0;
    while i < m
        invariant
            m <= v.len(),
            i <= m,
            r@ == v@.subrange(0, i as int),
        decreases m - i,
    {
        r.push(v[i]);
        i = i + 1;
    }
    proof {
        assert(v@.subrange(0, v@.len() as int) =~= v@);
    }
    r
}

/// Whether `s` ends with `suffix`.
pub fn ends_with_vec(s: &Vec<char>, suffix: &Vec<char>) -> (b: bool)
    ensures
        b == ends_with(s@, suffix@),
{
    if suffix.len() > s.len() {
        return false;
    }
    matches_at(s, s.len() - suffix.len(), suffix)
}

/// Whether two texts are the same, character for character.
pub fn same_text(a: &str, b: &str) -> (r: bool)
    ensures
        r == (a@ == b@),
{
    let x = chars_of(a);
    let y = chars_of(b);
    if x.len() != y.len() {
        return false;
    }
    let mut i: usize = 0;
    while i < x.len()
        invariant
            x@ == a@,
            y@ == b@,
            x@.len() == y@.len(),
            i <= x@.len(),
            forall|j: int| 0 <= j < i ==> x@[j] == y@[j],
        decreases x@.len() - i,
    {
        if x[i] != y[i] {
            return false;
        }
        i = i + 1;
    }
    assert(x@ =~= y@);
    true
}

} // verus!
