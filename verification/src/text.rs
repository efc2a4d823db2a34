//! Character-level helpers on strings.
use vstd::prelude::*;

verus! {

broadcast use vstd::string::group_string_axioms;

/// The characters of `s`, in order.
pub fn to_chars(s: &str) -> (v: Vec<char>)
    ensures
        v@ == s@,
{
    let mut v: Vec<char> = Vec::new();
    for c in it: s.chars()
        invariant
            it.seq() == s@,
            v@ == it.seq().take(it.index()),
    {
        v.push(c);
    }
    v
}

/// Appends one character to a string (`String::push`).
#[verifier::external_body]
pub(crate) fn push_char(s: &mut String, c: char)
    ensures
        final(s)@ == old(s)@.push(c),
{
    s.push(c);
}

/// The string made of the characters of `v`, in order.
pub fn from_chars(v: &[char]) -> (s: String)
    ensures
        s@ == v@,
{
    let mut s = String::new();
    for i in 0..v.len()
        invariant
            s@ == v@.take(i as int),
    {
        push_char(&mut s, v[i]);
        assert(v@.take(i + 1) == v@.take(i as int).push(v@[i as int]));
    }
    assert(v@.take(v@.len() as int) == v@);
    s
}

/// Whether `s` contains the character `c`.
pub fn contains_char(s: &str, c: char) -> (res: bool)
    ensures
        res == s@.contains(c),
{
    let v = to_chars(s);
    let mut i: usize = 0;
    while i < v.len()
        invariant
            v@ == s@,
            i <= v@.len(),
            forall|j: int| 0 <= j < i ==> v@[j] != c,
        decreases v@.len() - i,
    {
        if v[i] == c {
            assert(s@[i as int] == c);
            return true;
        }
        i = i + 1;
    }
    false
}

/// Whether the characters of `a` and `b` are the same.
pub fn chars_eq(a: &[char], b: &[char]) -> (res: bool)
    ensures
        res == (a@ == b@),
{
    if a.len() != b.len() {
        return false;
    }
    let mut i: usize = 0;
    while i < a.len()
        invariant
            a@.len() == b@.len(),
            i <= a@.len(),
            forall|j: int| 0 <= j < i ==> a@[j] == b@[j],
        decreases a@.len() - i,
    {
        if a[i] != b[i] {
            return false;
        }
        i = i + 1;
    }
    assert(a@ =~= b@);
    true
}

/// Whether the string `s` consists of exactly the characters `lit`.
pub fn str_is(s: &str, lit: &[char]) -> (res: bool)
    ensures
        res == (s@ == lit@),
{
    let v = to_chars(s);
    chars_eq(v.as_slice(), lit)
}

/// The concatenation of `a`, the character `sep` and `b`.
pub fn join_with(a: &str, sep: char, b: &str) -> (res: String)
    ensures
        res@ == a@.push(sep) + b@,
{
    let mut v = to_chars(a);
    v.push(sep);
    let w = to_chars(b);
    let mut i: usize = 0;
    let ghost start = v@;
    while i < w.len()
        invariant
            start == a@.push(sep),
            w@ == b@,
            i <= w@.len(),
            v@ == start + w@.take(i as int),
        decreases w@.len() - i,
    {
        v.push(w[i]);
        assert(w@.take(i + 1) == w@.take(i as int).push(w@[i as int]));
        i = i + 1;
    }
    assert(w@.take(w@.len() as int) == w@);
    from_chars(v.as_slice())
}

/// The characters of `l` from `a` up to `b`.
pub fn slice_chars(l: &Vec<char>, a: usize, b: usize) -> (res: Vec<char>)
    requires
        a <= b <= l@.len(),
    ensures
        res@ == l@.subrange(a as int, b as int),
{
    let mut res: Vec<char> = Vec::new();
    let mut i = a;
    while i < b
        invariant
            a <= i <= b <= l@.len(),
            res@ == l@.subrange(a as int, i as int),
        decreases b - i,
    {
        res.push(l[i]);
        i = i + 1;
    }
    res
}

/// Unicode `White_Space`: the characters that `char::is_whitespace` accepts, which
/// `str::trim` removes and the regex class `\s` matches.
pub open spec fn is_white(c: char) -> bool {
    let u = c as u32;
    (9 <= u <= 13) || u == 32 || u == 0x85 || u == 0xa0 || u == 0x1680 || (0x2000 <= u <= 0x200a) || u == 0x2028
        || u == 0x2029 || u == 0x202f || u == 0x205f || u == 0x3000
}

/// Whether `c` is Unicode whitespace.
pub fn is_whitespace(c: char) -> (res: bool)
    ensures
        res == is_white(c),
{
    let u = c as u32;
    (9 <= u && u <= 13) || u == 32 || u == 0x85 || u == 0xa0 || u == 0x1680 || (0x2000 <= u && u <= 0x200a)
        || u == 0x2028 || u == 0x2029 || u == 0x202f || u == 0x205f || u == 0x3000
}

/// `s` without its leading whitespace.
pub open spec fn trim_start(s: Seq<char>) -> Seq<char>
    decreases s.len(),
{
    if s.len() > 0 && is_white(s[0]) {
        trim_start(s.drop_first())
    } else {
        s
    }
}

/// `s` without its trailing whitespace.
pub open spec fn trim_end(s: Seq<char>) -> Seq<char>
    decreases s.len(),
{
    if s.len() > 0 && is_white(s.last()) {
        trim_end(s.drop_last())
    } else {
        s
    }
}

/// `s` without leading and trailing whitespace, as `str::trim` gives it.
pub open spec fn trim(s: Seq<char>) -> Seq<char> {
    trim_end(trim_start(s))
}

/// The characters of `s` without leading and trailing whitespace.
pub fn trim_chars(s: &Vec<char>) -> (res: Vec<char>)
    ensures
        res@ == trim(s@),
{
    let n = s.len();
    let mut a: usize = 0;
    assert(s@.subrange(0, n as int) == s@);
    while a < n && is_whitespace(s[a])
        invariant
            n == s@.len(),
            a <= n,
            trim_start(s@) == trim_start(s@.subrange(a as int, n as int)),
        decreases n - a,
    {
        assert(s@.subrange(a + 1, n as int) == s@.subrange(a as int, n as int).drop_first());
        a = a + 1;
    }
    let mut b: usize = n;
    while b > a && is_whitespace(s[b - 1])
        invariant
            n == s@.len(),
            a <= b <= n,
            trim_start(s@) == s@.subrange(a as int, n as int),
            trim(s@) == trim_end(s@.subrange(a as int, b as int)),
        decreases b,
    {
        assert(s@.subrange(a as int, b - 1) == s@.subrange(a as int, b as int).drop_last());
        b = b - 1;
    }
    slice_chars(s, a, b)
}

/// What `str::to_lowercase` makes of a text (Unicode lowercase mapping).
pub uninterp spec fn lowercase(s: Seq<char>) -> Seq<char>;

/// A character of the ASCII range.
pub open spec fn is_ascii_char(c: char) -> bool {
    (c as u32) < 128
}

/// The lowercase of an ASCII character: `A` to `Z` become `a` to `z`, the rest stay.
pub open spec fn ascii_lower_char(c: char) -> char {
    if 65 <= (c as u32) <= 90 {
        ((c as u32) + 32) as char
    } else {
        c
    }
}

/// The lowercase of a text made of ASCII characters, character by character.
pub open spec fn ascii_lowercase(s: Seq<char>) -> Seq<char> {
    s.map_values(|c: char| ascii_lower_char(c))
}

/// `str::to_lowercase`: the text in lowercase, by the Unicode mapping, under which each
/// ASCII character maps to its ASCII lowercase.
#[verifier::external_body]
pub(crate) fn to_lowercase(s: &str) -> (res: String)
    ensures
        res@ == lowercase(s@),
        (forall|i: int| 0 <= i < s@.len() ==> is_ascii_char(#[trigger] s@[i])) ==> res@ == ascii_lowercase(s@),
{
    s.to_lowercase()
}

/// Whether the characters of `a` are those of the text `lit`.
pub fn chars_are(a: &[char], lit: &str) -> (res: bool)
    ensures
        res == (a@ == lit@),
{
    let b = to_chars(lit);
    chars_eq(a, b.as_slice())
}

/// `pat` occurs in `s` starting at index `k`.
pub open spec fn occurs_at(s: Seq<char>, pat: Seq<char>, k: int) -> bool {
    0 <= k && k + pat.len() <= s.len() && s.subrange(k, k + pat.len()) == pat
}

/// The first index at or after `i` where `pat` occurs in `s`.
pub open spec fn find_from(s: Seq<char>, pat: Seq<char>, i: int) -> Option<int>
    decreases s.len() + 1 - i,
{
    if i < 0 || i + pat.len() > s.len() {
        None
    } else if occurs_at(s, pat, i) {
        Some(i)
    } else {
        find_from(s, pat, i + 1)
    }
}

/// The last index at or before `i` where `pat` occurs in `s`.
pub open spec fn rfind_at_or_before(s: Seq<char>, pat: Seq<char>, i: int) -> Option<int>
    decreases i + 1,
{
    if i < 0 {
        None
    } else if occurs_at(s, pat, i) {
        Some(i)
    } else {
        rfind_at_or_before(s, pat, i - 1)
    }
}

/// The last index where `pat` occurs in `s` (`str::rfind`).
pub open spec fn rfind(s: Seq<char>, pat: Seq<char>) -> Option<int> {
    rfind_at_or_before(s, pat, s.len() - pat.len())
}

/// Whether `pat` occurs in `s` at index `k`.
pub fn occurs_at_exec(s: &Vec<char>, pat: &Vec<char>, k: usize) -> (res: bool)
    ensures
        res == occurs_at(s@, pat@, k as int),
{
    if k > s.len() || pat.len() > s.len() - k {
        return false;
    }
    let part = slice_chars(s, k, k + pat.len());
    chars_eq(part.as_slice(), pat.as_slice())
}

/// The first index where `pat` occurs in `s` (`str::find`).
pub fn find_chars(s: &Vec<char>, pat: &Vec<char>) -> (res: Option<usize>)
    requires
        pat@.len() > 0,
    ensures
        match find_from(s@, pat@, 0) {
            Some(k) => res is Some && res->0 as int == k,
            None => res is None,
        },
        res matches Some(k) ==> occurs_at(s@, pat@, k as int),
{
    let mut i: usize = 0;
    while i <= s.len() && pat.len() <= s.len() - i
        invariant
            pat@.len() > 0,
            i <= s@.len(),
            find_from(s@, pat@, 0) == find_from(s@, pat@, i as int),
        decreases s@.len() + 1 - i,
    {
        if occurs_at_exec(s, pat, i) {
            return Some(i);
        }
        i = i + 1;
    }
    None
}

/// The last index where `pat` occurs in `s` (`str::rfind`).
pub fn rfind_chars(s: &Vec<char>, pat: &Vec<char>) -> (res: Option<usize>)
    ensures
        match rfind(s@, pat@) {
            Some(k) => res is Some && res->0 as int == k,
            None => res is None,
        },
        res matches Some(k) ==> occurs_at(s@, pat@, k as int),
{
    if pat.len() > s.len() {
        return None;
    }
    let mut i: usize = s.len() - pat.len();
    loop
        invariant
            i + pat@.len() <= s@.len(),
            rfind(s@, pat@) == rfind_at_or_before(s@, pat@, i as int),
        decreases i,
    {
        if occurs_at_exec(s, pat, i) {
            return Some(i);
        }
        if i == 0 {
            assert(rfind_at_or_before(s@, pat@, -1) is None);
            return None;
        }
        i = i - 1;
    }
}

/// `s` with each non-overlapping occurrence of `pat`, from the left, replaced by `rep`
/// (`str::replace` for a non-empty pattern).
pub open spec fn replace_all(s: Seq<char>, pat: Seq<char>, rep: Seq<char>) -> Seq<char>
    decreases s.len(),
{
    if pat.len() == 0 || s.len() < pat.len() {
        s
    } else if s.take(pat.len() as int) == pat {
        rep + replace_all(s.skip(pat.len() as int), pat, rep)
    } else {
        seq![s[0]] + replace_all(s.drop_first(), pat, rep)
    }
}

/// `s` with each non-overlapping occurrence of `pat`, from the left, replaced by `rep`.
pub fn replace_all_chars(s: &Vec<char>, pat: &Vec<char>, rep: &Vec<char>) -> (res: Vec<char>)
    requires
        pat@.len() > 0,
    ensures
        res@ == replace_all(s@, pat@, rep@),
{
    let mut acc: Vec<char> = Vec::new();
    let mut i: usize = 0;
    let n = s.len();
    assert(s@.skip(0) == s@);
    while i < n
        invariant
            n == s@.len(),
            pat@.len() > 0,
            i <= n,
            acc@ + replace_all(s@.skip(i as int), pat@, rep@) == replace_all(s@, pat@, rep@),
        decreases n - i,
    {
        let ghost rest = s@.skip(i as int);
        if occurs_at_exec(s, pat, i) {
            assert(rest.take(pat@.len() as int) == s@.subrange(i as int, i + pat@.len()));
            assert(rest.skip(pat@.len() as int) == s@.skip(i + pat@.len()));
            let ghost before = acc@;
            for t in 0..rep.len()
                invariant
                    acc@ == before + rep@.take(t as int),
            {
                acc.push(rep[t]);
                assert(rep@.take(t + 1) == rep@.take(t as int).push(rep@[t as int]));
            }
            assert(rep@.take(rep@.len() as int) == rep@);
            assert(before + (rep@ + replace_all(s@.skip(i + pat@.len()), pat@, rep@)) == acc@ + replace_all(
                s@.skip(i + pat@.len()),
                pat@,
                rep@,
            ));
            i = i + pat.len();
        } else {
            proof {
                assert(rest.drop_first() == s@.skip(i + 1));
                if rest.len() >= pat@.len() {
                    assert(rest.take(pat@.len() as int) == s@.subrange(i as int, i + pat@.len()));
                } else {
                    assert(rest == seq![s@[i as int]] + rest.drop_first());
                }
            }
            assert(acc@ + (seq![s@[i as int]] + replace_all(s@.skip(i + 1), pat@, rep@)) == acc@.push(s@[i as int])
                + replace_all(s@.skip(i + 1), pat@, rep@));
            acc.push(s[i]);
            i = i + 1;
        }
    }
    assert(s@.skip(n as int) =~= Seq::<char>::empty());
    assert(acc@ + Seq::<char>::empty() == acc@);
    acc
}

/// The index of the first `ch` in `s` at or after `i`.
pub open spec fn find_char_from(s: Seq<char>, ch: char, i: int) -> Option<int>
    decreases s.len() - i,
{
    if i < 0 || i >= s.len() {
        None
    } else if s[i] == ch {
        Some(i)
    } else {
        find_char_from(s, ch, i + 1)
    }
}

/// `s` split around its first `ch` (`str::split_once`).
pub open spec fn split_once(s: Seq<char>, ch: char) -> Option<(Seq<char>, Seq<char>)> {
    match find_char_from(s, ch, 0) {
        Some(k) => Some((s.take(k), s.skip(k + 1))),
        None => None,
    }
}

/// `s` split around its first `ch`.
pub fn split_once_chars(s: &Vec<char>, ch: char) -> (res: Option<(Vec<char>, Vec<char>)>)
    ensures
        match split_once(s@, ch) {
            Some((a, b)) => match res {
                Some((x, y)) => x@ == a && y@ == b,
                None => false,
            },
            None => res is None,
        },
{
    let mut i: usize = 0;
    while i < s.len()
        invariant
            i <= s@.len(),
            find_char_from(s@, ch, 0) == find_char_from(s@, ch, i as int),
        decreases s@.len() - i,
    {
        if s[i] == ch {
            let a = slice_chars(s, 0, i);
            let b = slice_chars(s, i + 1, s.len());
            assert(a@ == s@.take(i as int));
            assert(b@ == s@.skip(i + 1));
            return Some((a, b));
        }
        i = i + 1;
    }
    None
}

/// The index of the last `ch` in `s` before index `i`.
pub open spec fn rfind_char_before(s: Seq<char>, ch: char, i: int) -> Option<int>
    decreases i,
{
    if i <= 0 || i > s.len() {
        None
    } else if s[i - 1] == ch {
        Some(i - 1)
    } else {
        rfind_char_before(s, ch, i - 1)
    }
}

/// The index of the last `ch` in `s`.
pub fn rfind_char(s: &Vec<char>, ch: char) -> (res: Option<usize>)
    ensures
        match rfind_char_before(s@, ch, s@.len() as int) {
            Some(k) => res is Some && res->0 as int == k,
            None => res is None,
        },
        res matches Some(k) ==> k < s@.len() && s@[k as int] == ch,
{
    let mut i: usize = s.len();
    while i > 0
        invariant
            i <= s@.len(),
            rfind_char_before(s@, ch, s@.len() as int) == rfind_char_before(s@, ch, i as int),
        decreases i,
    {
        if s[i - 1] == ch {
            return Some(i - 1);
        }
        i = i - 1;
    }
    None
}

/// The characters of `s` other than `ch`, in order.
pub open spec fn remove_char(s: Seq<char>, ch: char) -> Seq<char> {
    s.filter(|x: char| x != ch)
}

/// The characters of `s` other than `ch`, in order.
pub fn remove_char_exec(s: &Vec<char>, ch: char) -> (res: Vec<char>)
    ensures
        res@ == remove_char(s@, ch),
{
    let mut acc: Vec<char> = Vec::new();
    for i in 0..s.len()
        invariant
            acc@ == remove_char(s@.take(i as int), ch),
    {
        proof {
            let t = s@.take(i + 1);
            assert(t.drop_last() == s@.take(i as int));
            assert(t.last() == s@[i as int]);
            reveal(Seq::filter);
        }
        if s[i] != ch {
            acc.push(s[i]);
        }
    }
    assert(s@.take(s@.len() as int) == s@);
    acc
}

/// An ASCII decimal digit.
pub open spec fn is_digit_char(c: char) -> bool {
    '0' <= c && c <= '9'
}

/// The value of a decimal digit.
pub open spec fn digit_value(c: char) -> int {
    (c as int) - ('0' as int)
}

/// The value of a string of decimal digits.
pub open spec fn decimal(d: Seq<char>) -> int
    decreases d.len(),
{
    if d.len() == 0 {
        0
    } else {
        decimal(d.drop_last()) * 10 + digit_value(d.last())
    }
}

/// The digits of a number text: without its leading sign.
pub open spec fn unsigned_part(s: Seq<char>) -> Seq<char> {
    if s.len() > 0 && (s[0] == '-' || s[0] == '+') {
        s.drop_first()
    } else {
        s
    }
}

/// Every character is an ASCII digit.
pub open spec fn all_digits(d: Seq<char>) -> bool {
    forall|i: int| 0 <= i < d.len() ==> is_digit_char(#[trigger] d[i])
}

/// The `i64` a text denotes (`str::parse::<i64>`): an optional `+` or `-`, then one or more
/// ASCII digits, with the value in range.
pub open spec fn i64_of(s: Seq<char>) -> Option<i64> {
    let digits = unsigned_part(s);
    let v = if s.len() > 0 && s[0] == '-' {
        -decimal(digits)
    } else {
        decimal(digits)
    };
    if digits.len() == 0 || !all_digits(digits) {
        None
    } else if i64::MIN <= v <= i64::MAX {
        Some(v as i64)
    } else {
        None
    }
}

proof fn lemma_decimal_prefix(d: Seq<char>, i: int)
    requires
        0 <= i <= d.len(),
        forall|k: int| 0 <= k < d.len() ==> is_digit_char(#[trigger] d[k]),
    ensures
        0 <= decimal(d.take(i)) <= decimal(d),
    decreases d.len() - i,
{
    if i < d.len() {
        lemma_decimal_prefix(d, i + 1);
        let t = d.take(i + 1);
        assert(t.drop_last() == d.take(i));
        assert(t.last() == d[i]);
        assert(is_digit_char(d[i]));
    } else {
        assert(d.take(i) == d);
        lemma_decimal_nonneg(d);
    }
}

proof fn lemma_decimal_nonneg(d: Seq<char>)
    requires
        forall|k: int| 0 <= k < d.len() ==> is_digit_char(#[trigger] d[k]),
    ensures
        decimal(d) >= 0,
    decreases d.len(),
{
    if d.len() > 0 {
        assert(is_digit_char(d.last()));
        lemma_decimal_nonneg(d.drop_last());
    }
}

/// The `i64` a text denotes, if it denotes one.
pub fn parse_i64(s: &str) -> (res: Option<i64>)
    ensures
        res == i64_of(s@),
{
    let v = to_chars(s);
    let neg = v.len() > 0 && v[0] == '-';
    let start: usize = if v.len() > 0 && (v[0] == '-' || v[0] == '+') {
        1
    } else {
        0
    };
    let ghost digits = unsigned_part(s@);
    assert(digits == v@.skip(start as int));
    if start >= v.len() {
        return None;
    }
    let mut i = start;
    while i < v.len()
        invariant
            start <= i <= v@.len(),
            v@ == s@,
            digits == unsigned_part(s@),
            digits == v@.skip(start as int),
            forall|k: int| start <= k < i ==> is_digit_char(#[trigger] v@[k]),
        decreases v@.len() - i,
    {
        if !(v[i] >= '0' && v[i] <= '9') {
            assert(digits[i - start] == v@[i as int]);
            assert(!is_digit_char(digits[i - start]));
            assert(!all_digits(digits));
            return None;
        }
        i = i + 1;
    }
    assert(all_digits(digits)) by {
        assert forall|k: int| 0 <= k < digits.len() implies is_digit_char(#[trigger] digits[k]) by {
            assert(digits[k] == v@[start + k]);
        }
    }
    let mut acc: i128 = 0;
    let mut j = start;
    while j < v.len()
        invariant
            start <= j <= v@.len(),
            v@ == s@,
            digits == unsigned_part(s@),
            digits == v@.skip(start as int),
            all_digits(digits),
            acc == decimal(digits.take(j - start)),
            0 <= acc <= 9_223_372_036_854_775_808,
            neg == (s@.len() > 0 && s@[0] == '-'),
        decreases v@.len() - j,
    {
        proof {
            let t = digits.take(j - start + 1);
            assert(t.drop_last() == digits.take(j - start));
            assert(t.last() == v@[j as int]);
            lemma_decimal_prefix(digits, j - start + 1);
        }
        let d = (v[j] as u32 - '0' as u32) as i128;
        assert(d == digit_value(digits[j - start]));
        acc = acc * 10 + d;
        assert(acc == decimal(digits.take(j - start + 1)));
        if acc > 9_223_372_036_854_775_808 {
            assert(decimal(digits) >= acc);
            return None;
        }
        j = j + 1;
    }
    assert(digits.take(digits.len() as int) == digits);
    assert(acc == decimal(digits));
    if neg {
        Some((0 - acc) as i64)
    } else if acc <= 9_223_372_036_854_775_807 {
        Some(acc as i64)
    } else {
        None
    }
}

} // verus!
