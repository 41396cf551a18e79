use vstd::prelude::*;
use vstd::string::StrSliceExecFns;
use crate::text::all_digits;

verus! {

/// Characters with the Unicode White_Space property: what
/// `char::is_whitespace` accepts and `str::trim` removes.
pub open spec fn is_white_space(c: char) -> bool {
    ||| '\t' <= c <= '\r'
    ||| c == ' '
    ||| c == '\u{85}'
    ||| c == '\u{a0}'
    ||| c == '\u{1680}'
    ||| '\u{2000}' <= c <= '\u{200a}'
    ||| c == '\u{2028}'
    ||| c == '\u{2029}'
    ||| c == '\u{202f}'
    ||| c == '\u{205f}'
    ||| c == '\u{3000}'
}

/// Whether `c` has the Unicode White_Space property.
pub fn white_space(c: char) -> (b: bool)
    ensures
        b == is_white_space(c),
{
    ('\t' <= c && c <= '\r') || c == ' ' || c == '\u{85}' || c == '\u{a0}' || c == '\u{1680}' || (
    '\u{2000}' <= c && c <= '\u{200a}') || c == '\u{2028}' || c == '\u{2029}' || c == '\u{202f}'
        || c == '\u{205f}' || c == '\u{3000}'
}

/// The characters of `s`.
pub fn to_chars(s: &str) -> (v: Vec<char>)
    ensures
        v@ == s@,
{
    let mut v: Vec<char> = Vec::new();
    for c in it: s.chars()
        invariant
            it.seq() == s@,
            v@ == s@.take(it.index()),
        ensures
            v@ == s@.take(v@.len() as int),
            v@.len() == s@.len(),
    {
        v.push(c);
        assert(v@ =~= s@.take(it.index() + 1));
    }
    assert(v@ =~= s@);
    v
}

/// The position of the first character at or after `i` that `c` is not.
pub open spec fn skip_char_from(s: Seq<char>, c: char, i: int) -> int
    decreases s.len() - i,
{
    if 0 <= i < s.len() && s[i] == c {
        skip_char_from(s, c, i + 1)
    } else {
        i
    }
}

/// The position of the first non-white-space character at or after `i`.
pub open spec fn skip_ws_from(s: Seq<char>, i: int) -> int
    decreases s.len() - i,
{
    if 0 <= i < s.len() && is_white_space(s[i]) {
        skip_ws_from(s, i + 1)
    } else {
        i
    }
}

/// The end of `s[lo..j]` once white space at its end is dropped.
pub open spec fn trim_end_to(s: Seq<char>, lo: int, j: int) -> int
    decreases j - lo,
{
    if lo < j && j <= s.len() && is_white_space(s[j - 1]) {
        trim_end_to(s, lo, j - 1)
    } else {
        j
    }
}

/// `s` without white space at either end: `str::trim`.
pub open spec fn spec_trim(s: Seq<char>) -> Seq<char> {
    let a = skip_ws_from(s, 0);
    s.subrange(a, trim_end_to(s, a, s.len() as int))
}

/// `s` without the copies of `c` it starts with: `str::trim_start_matches`.
pub open spec fn spec_strip_leading(s: Seq<char>, c: char) -> Seq<char> {
    s.subrange(skip_char_from(s, c, 0), s.len() as int)
}

/// `s` begins with `p`.
pub open spec fn spec_starts_with(s: Seq<char>, p: Seq<char>) -> bool {
    s.len() >= p.len() && s.subrange(0, p.len() as int) == p
}

/// `pat` stands in `s` at position `i`.
pub open spec fn occurs_at(s: Seq<char>, pat: Seq<char>, i: int) -> bool {
    0 <= i && i + pat.len() <= s.len() && s.subrange(i, i + pat.len()) == pat
}

/// The first position at or after `i` where `pat` stands in `s`.
pub open spec fn find_from(s: Seq<char>, pat: Seq<char>, i: int) -> Option<int>
    decreases s.len() + 1 - i,
{
    if i < 0 || i + pat.len() > s.len() {
        None
    } else if occurs_at(s, pat, i) {
        Some(i)
    } else {
        find_from(s, pat, i + 1)
    }
}

/// The first position where `pat` stands in `s`: `str::find`.
pub open spec fn spec_find(s: Seq<char>, pat: Seq<char>) -> Option<int> {
    find_from(s, pat, 0)
}

/// `s` split at its first space into the part before and, when there is a
/// space, the part after: `str::splitn(2, ' ')`.
pub open spec fn spec_split_space(s: Seq<char>) -> (Seq<char>, Option<Seq<char>>) {
    match spec_find(s, seq![' ']) {
        Some(i) => (s.subrange(0, i), Some(s.subrange(i + 1, s.len() as int))),
        None => (s, None),
    }
}

/// A position found is a position where the pattern stands, and none
/// stands earlier.
pub proof fn lemma_find_from(s: Seq<char>, pat: Seq<char>, i: int)
    requires
        0 <= i,
    ensures
        match find_from(s, pat, i) {
            Some(k) => i <= k && occurs_at(s, pat, k) && forall|j: int|
                i <= j < k ==> !occurs_at(s, pat, j),
            None => forall|j: int| i <= j ==> !occurs_at(s, pat, j),
        },
    decreases s.len() + 1 - i,
{
    if i + pat.len() > s.len() {
    } else if occurs_at(s, pat, i) {
    } else {
        lemma_find_from(s, pat, i + 1);
    }
}

/// A pattern whose first character `s` lacks stands nowhere in `s`.
pub proof fn lemma_no_occurrence(s: Seq<char>, pat: Seq<char>)
    requires
        pat.len() > 0,
        forall|i: int| 0 <= i < s.len() ==> s[i] != pat[0],
    ensures
        forall|j: int| !occurs_at(s, pat, j),
{
    assert forall|j: int| !occurs_at(s, pat, j) by {
        if occurs_at(s, pat, j) {
            assert(s.subrange(j, j + pat.len())[0] == s[j]);
        }
    }
}

/// Where the pattern stands nowhere in the first part and does not hold the
/// first character of the second part, it stands in the joined sequence
/// only where it stands in the second part.
pub proof fn lemma_occurrence_in_join(a: Seq<char>, b: Seq<char>, pat: Seq<char>)
    requires
        pat.len() > 0,
        b.len() > 0,
        forall|j: int| !occurs_at(a, pat, j),
        forall|k: int| 0 <= k < pat.len() ==> pat[k] != b[0],
    ensures
        forall|j: int| j < a.len() ==> !occurs_at(a + b, pat, j),
        forall|j: int| j >= a.len() ==> occurs_at(a + b, pat, j) == occurs_at(b, pat, j - a.len()),
{
    assert forall|j: int| j >= a.len() implies occurs_at(a + b, pat, j) == occurs_at(
        b,
        pat,
        j - a.len(),
    ) by {
        if j + pat.len() <= a.len() + b.len() {
            assert((a + b).subrange(j, j + pat.len()) =~= b.subrange(
                j - a.len(),
                j - a.len() + pat.len(),
            ));
        }
    }
    assert forall|j: int| j < a.len() implies !occurs_at(a + b, pat, j) by {
        if occurs_at(a + b, pat, j) {
            if j + pat.len() <= a.len() {
                assert((a + b).subrange(j, j + pat.len()) =~= a.subrange(j, j + pat.len()));
                assert(occurs_at(a, pat, j));
            } else {
                let k = a.len() - j;
                assert((a + b).subrange(j, j + pat.len())[k] == (a + b)[a.len() as int]);
            }
        }
    }
}

/// Where the pattern stands in neither part, and holds neither the last
/// character of the first part nor the first of the second, it stands
/// nowhere in the joined sequence.
pub proof fn lemma_no_occurrence_in_join(a: Seq<char>, b: Seq<char>, pat: Seq<char>)
    requires
        pat.len() > 0,
        forall|j: int| !occurs_at(a, pat, j),
        forall|j: int| !occurs_at(b, pat, j),
        a.len() > 0 ==> forall|k: int| 0 <= k < pat.len() ==> pat[k] != a.last(),
    ensures
        forall|j: int| !occurs_at(a + b, pat, j),
{
    assert forall|j: int| !occurs_at(a + b, pat, j) by {
        if occurs_at(a + b, pat, j) {
            if j + pat.len() <= a.len() {
                assert((a + b).subrange(j, j + pat.len()) =~= a.subrange(j, j + pat.len()));
                assert(occurs_at(a, pat, j));
            } else if j >= a.len() {
                assert((a + b).subrange(j, j + pat.len()) =~= b.subrange(
                    j - a.len(),
                    j - a.len() + pat.len(),
                ));
                assert(occurs_at(b, pat, j - a.len()));
            } else {
                let k = a.len() - 1 - j;
                assert((a + b).subrange(j, j + pat.len())[k] == (a + b)[a.len() - 1]);
            }
        }
    }
}

/// `s` without white space at either end.
pub fn trim(s: &str) -> (r: &str)
    ensures
        r@ == spec_trim(s@),
{
    let cs = to_chars(s);
    let n = cs.len();
    let mut a: usize = 0;
    while a < n && white_space(cs[a])
        invariant
            a <= n,
            n == s@.len(),
            cs@ == s@,
            skip_ws_from(s@, 0) == skip_ws_from(s@, a as int),
        decreases n - a,
    {
        a = a + 1;
    }
    let mut b: usize = n;
    while b > a && white_space(cs[b - 1])
        invariant
            a <= b <= n,
            n == s@.len(),
            cs@ == s@,
            skip_ws_from(s@, 0) == a,
            trim_end_to(s@, a as int, n as int) == trim_end_to(s@, a as int, b as int),
        decreases b - a,
    {
        b = b - 1;
    }
    s.substring_char(a, b)
}

/// `s` without the copies of `c` it starts with.
pub fn strip_leading(s: &str, c: char) -> (r: &str)
    ensures
        r@ == spec_strip_leading(s@, c),
{
    let cs = to_chars(s);
    let n = cs.len();
    let mut a: usize = 0;
    while a < n && cs[a] == c
        invariant
            a <= n,
            n == s@.len(),
            cs@ == s@,
            skip_char_from(s@, c, 0) == skip_char_from(s@, c, a as int),
        decreases n - a,
    {
        a = a + 1;
    }
    s.substring_char(a, n)
}

/// Whether `s` begins with `p`.
pub fn starts_with(s: &str, p: &str) -> (b: bool)
    ensures
        b == spec_starts_with(s@, p@),
{
    let cs = to_chars(s);
    let ps = to_chars(p);
    if cs.len() < ps.len() {
        return false;
    }
    let mut i: usize = 0;
    while i < ps.len()
        invariant
            i <= ps@.len() <= cs@.len(),
            cs@ == s@,
            ps@ == p@,
            forall|j: int| 0 <= j < i ==> s@[j] == p@[j],
        decreases ps.len() - i,
    {
        if cs[i] != ps[i] {
            assert(s@.subrange(0, p@.len() as int)[i as int] != p@[i as int]);
            return false;
        }
        i = i + 1;
    }
    assert(s@.subrange(0, p@.len() as int) =~= p@);
    true
}

/// Whether `pat` stands in `cs` at `i`.
fn occurs_at_exec(cs: &Vec<char>, pat: &Vec<char>, i: usize) -> (b: bool)
    requires
        i + pat@.len() <= cs@.len(),
        cs@.len() <= usize::MAX,
    ensures
        b == occurs_at(cs@, pat@, i as int),
{
    let mut k: usize = 0;
    while k < pat.len()
        invariant
            k <= pat@.len(),
            i + pat@.len() <= cs@.len(),
            cs@.len() <= usize::MAX,
            forall|j: int| 0 <= j < k ==> cs@[i + j] == pat@[j],
        decreases pat.len() - k,
    {
        if cs[i + k] != pat[k] {
            assert(cs@.subrange(i as int, i + pat@.len())[k as int] != pat@[k as int]);
            return false;
        }
        k = k + 1;
    }
    assert(cs@.subrange(i as int, i + pat@.len()) =~= pat@);
    true
}

/// The first position of `pat` in `cs`.
pub fn find_chars(cs: &Vec<char>, pat: &Vec<char>) -> (r: Option<usize>)
    ensures
        match spec_find(cs@, pat@) {
            Some(k) => r == Some(k as usize),
            None => r is None,
        },
{
    if pat.len() > cs.len() {
        return None;
    }
    let last = cs.len() - pat.len();
    let mut i: usize = 0;
    loop
        invariant
            last + pat@.len() == cs@.len(),
            cs@.len() <= usize::MAX,
            i <= last,
            spec_find(cs@, pat@) == find_from(cs@, pat@, i as int),
        decreases last - i,
    {
        if occurs_at_exec(cs, pat, i) {
            return Some(i);
        }
        if i == last {
            assert(find_from(cs@, pat@, i + 1) is None);
            return None;
        }
        i = i + 1;
    }
}

/// The first position of `pat` in `s`.
pub fn find(s: &str, pat: &str) -> (r: Option<usize>)
    ensures
        match spec_find(s@, pat@) {
            Some(k) => r == Some(k as usize),
            None => r is None,
        },
{
    let cs = to_chars(s);
    let ps = to_chars(pat);
    find_chars(&cs, &ps)
}

/// `s` split at its first space.
pub fn split_space(s: &str) -> (r: (&str, Option<&str>))
    ensures
        r.0@ == spec_split_space(s@).0,
        match spec_split_space(s@).1 {
            Some(rest) => r.1 matches Some(t) && t@ == rest,
            None => r.1 is None,
        },
{
    proof {
        reveal_strlit(" ");
    }
    let space: &str = " ";
    assert(space@ =~= seq![' ']);
    let n = s.unicode_len();
    match find(s, space) {
        Some(i) => {
            proof {
                lemma_find_from(s@, seq![' '], 0);
            }
            (s.substring_char(0, i), Some(s.substring_char(i + 1, n)))
        },
        None => (s, None),
    }
}

/// The value of a decimal digit character.
pub open spec fn digit_value(c: char) -> int {
    c as int - '0' as int
}

/// The number that the digits `d` spell, most significant first.
pub open spec fn digits_value(d: Seq<char>) -> int
    decreases d.len(),
{
    if d.len() == 0 {
        0
    } else {
        digits_value(d.drop_last()) * 10 + digit_value(d.last())
    }
}

/// How many sign characters `s` starts with (a '+' or a '-'): 0 or 1.
pub open spec fn sign_len(s: Seq<char>) -> int {
    if s.len() > 0 && (s[0] == '-' || s[0] == '+') {
        1
    } else {
        0
    }
}

/// `s` without its sign.
pub open spec fn unsigned_part(s: Seq<char>) -> Seq<char> {
    s.subrange(sign_len(s), s.len() as int)
}

/// The value `s` spells: its digits, negated after a '-'.
pub open spec fn signed_value(s: Seq<char>) -> int {
    if s.len() > 0 && s[0] == '-' {
        -digits_value(unsigned_part(s))
    } else {
        digits_value(unsigned_part(s))
    }
}

/// What `str::parse::<i64>` gives: an optional '+' or '-' and then one or
/// more decimal digits, with the value in range.
pub open spec fn spec_parse_i64(s: Seq<char>) -> Option<i64> {
    if unsigned_part(s).len() == 0 || !all_digits(unsigned_part(s)) {
        None
    } else if i64::MIN <= signed_value(s) <= i64::MAX {
        Some(signed_value(s) as i64)
    } else {
        None
    }
}

/// Digits only grow the value: a prefix of digits is worth no more.
proof fn lemma_digits_value_monotone(d: Seq<char>, k: int)
    requires
        0 <= k <= d.len(),
        forall|i: int| 0 <= i < d.len() ==> '0' <= #[trigger] d[i] <= '9',
    ensures
        0 <= digits_value(d.subrange(0, k)) <= digits_value(d),
    decreases d.len() - k,
{
    if k < d.len() {
        lemma_digits_value_monotone(d, k + 1);
        let p = d.subrange(0, k + 1);
        assert(p.drop_last() =~= d.subrange(0, k));
        assert('0' <= p.last() <= '9');
        lemma_digits_value_nonneg(d.subrange(0, k));
    } else {
        assert(d.subrange(0, k) =~= d);
        lemma_digits_value_nonneg(d);
    }
}

/// The value of decimal digits is never negative.
proof fn lemma_digits_value_nonneg(d: Seq<char>)
    requires
        forall|i: int| 0 <= i < d.len() ==> '0' <= #[trigger] d[i] <= '9',
    ensures
        digits_value(d) >= 0,
    decreases d.len(),
{
    if d.len() > 0 {
        assert forall|i: int| 0 <= i < d.drop_last().len() implies '0' <= #[trigger] d.drop_last()[i]
            <= '9' by {
            assert(d.drop_last()[i] == d[i]);
        }
        lemma_digits_value_nonneg(d.drop_last());
        assert('0' <= d.last() <= '9');
    }
}

/// `s` read as a signed 64-bit decimal number, as `str::parse::<i64>` reads
/// it.
pub fn parse_i64(s: &str) -> (r: Option<i64>)
    ensures
        r == spec_parse_i64(s@),
{
    let cs = to_chars(s);
    let n = cs.len();
    let neg = n > 0 && cs[0] == '-';
    let start: usize = if n > 0 && (cs[0] == '-' || cs[0] == '+') {
        1
    } else {
        0
    };
    let ghost d = s@.subrange(start as int, n as int);
    assert(start as int == sign_len(s@));
    assert(d == unsigned_part(s@));
    assert(neg == (s@.len() > 0 && s@[0] == '-'));
    if start == n {
        assert(d.len() == 0);
        return None;
    }
    let mut i: usize = start;
    while i < n
        invariant
            start <= i <= n,
            cs@ == s@,
            n == s@.len(),
            d == s@.subrange(start as int, n as int),
            d == unsigned_part(s@),
            neg == (s@.len() > 0 && s@[0] == '-'),
            forall|j: int| start <= j < i ==> '0' <= #[trigger] s@[j] <= '9',
        decreases n - i,
    {
        if !('0' <= cs[i] && cs[i] <= '9') {
            assert(!('0' <= d[i - start] <= '9'));
            assert(!all_digits(d));
            return None;
        }
        i = i + 1;
    }
    assert forall|j: int| 0 <= j < d.len() implies '0' <= #[trigger] d[j] <= '9' by {
        assert(d[j] == s@[start + j]);
    }
    // The magnitude is accumulated as a negative number, whose range reaches
    // one further than the positive one.
    let mut acc: i128 = 0;
    let mut k: usize = start;
    while k < n
        invariant
            start <= k <= n,
            cs@ == s@,
            n == s@.len(),
            d == s@.subrange(start as int, n as int),
            d == unsigned_part(s@),
            neg == (s@.len() > 0 && s@[0] == '-'),
            forall|j: int| 0 <= j < d.len() ==> '0' <= #[trigger] d[j] <= '9',
            acc == -digits_value(s@.subrange(start as int, k as int)),
            i64::MIN <= acc <= 0,
        decreases n - k,
    {
        assert(d[k - start] == cs@[k as int]);
        let digit = (cs[k] as u32 - '0' as u32) as i128;
        let ghost p = s@.subrange(start as int, k + 1);
        assert(p.drop_last() =~= s@.subrange(start as int, k as int));
        assert(p.last() == cs@[k as int]);
        assert(p =~= d.subrange(0, k + 1 - start));
        let next = acc * 10 - digit;
        assert(next == -digits_value(p));
        proof {
            lemma_digits_value_monotone(d, k + 1 - start);
        }
        if next < (i64::MIN as i128) {
            assert(d.subrange(0, d.len() as int) =~= d);
            return None;
        }
        acc = next;
        k = k + 1;
    }
    assert(s@.subrange(start as int, n as int) =~= d);
    if neg {
        Some(acc as i64)
    } else {
        if -acc > (i64::MAX as i128) {
            return None;
        }
        Some((-acc) as i64)
    }
}

/// How many bytes the UTF-8 encoding of `c` takes.
pub open spec fn utf8_width(c: char) -> int {
    if (c as u32) < 0x80 {
        1
    } else if (c as u32) < 0x800 {
        2
    } else if (c as u32) < 0x10000 {
        3
    } else {
        4
    }
}

/// How many bytes the UTF-8 encoding of `c` takes.
pub fn char_width(c: char) -> (w: usize)
    ensures
        w == utf8_width(c),
{
    let v = c as u32;
    if v < 0x80 {
        1
    } else if v < 0x800 {
        2
    } else if v < 0x10000 {
        3
    } else {
        4
    }
}

/// The leading characters of `s` whose UTF-8 encoding is exactly `n`
/// bytes long; none when `s` is shorter or `n` bytes end inside a
/// character. This is what `str::get(..n)` gives.
pub open spec fn byte_prefix(s: Seq<char>, n: int) -> Option<Seq<char>>
    decreases s.len(),
{
    if n == 0 {
        Some(Seq::<char>::empty())
    } else if n < 0 || s.len() == 0 || utf8_width(s[0]) > n {
        None
    } else {
        match byte_prefix(s.drop_first(), n - utf8_width(s[0])) {
            Some(p) => Some(seq![s[0]] + p),
            None => None,
        }
    }
}

/// A byte prefix is a prefix.
pub proof fn lemma_byte_prefix_is_prefix(s: Seq<char>, n: int)
    ensures
        byte_prefix(s, n) matches Some(p) ==> p.len() <= s.len() && p == s.subrange(
            0,
            p.len() as int,
        ),
    decreases s.len(),
{
    if n == 0 {
    } else if n < 0 || s.len() == 0 || utf8_width(s[0]) > n {
    } else {
        lemma_byte_prefix_is_prefix(s.drop_first(), n - utf8_width(s[0]));
        if let Some(p) = byte_prefix(s, n) {
            let q = byte_prefix(s.drop_first(), n - utf8_width(s[0]))->0;
            assert(p == seq![s[0]] + q);
            assert(p =~= s.subrange(0, p.len() as int));
        }
    }
}

/// A byte prefix of `n` bytes is its own byte prefix of `n` bytes.
pub proof fn lemma_byte_prefix_exact(s: Seq<char>, n: int)
    ensures
        byte_prefix(s, n) matches Some(p) ==> byte_prefix(p, n) == Some(p),
    decreases s.len(),
{
    if n == 0 {
    } else if n < 0 || s.len() == 0 || utf8_width(s[0]) > n {
    } else {
        lemma_byte_prefix_exact(s.drop_first(), n - utf8_width(s[0]));
        if let Some(p) = byte_prefix(s, n) {
            let q = byte_prefix(s.drop_first(), n - utf8_width(s[0]))->0;
            assert(p == seq![s[0]] + q);
            assert(p.drop_first() =~= q);
            assert(p[0] == s[0]);
        }
    }
}

/// The characters of `s` from position `start` on whose UTF-8 encoding is
/// exactly `n` bytes long.
pub fn byte_prefix_from(s: &str, start: usize, n: usize) -> (r: Option<&str>)
    requires
        start <= s@.len(),
        n <= 4,
    ensures
        match byte_prefix(s@.subrange(start as int, s@.len() as int), n as int) {
            Some(p) => r matches Some(t) && t@ == p,
            None => r is None,
        },
{
    let cs = to_chars(s);
    let len = cs.len();
    let ghost rest = s@.subrange(start as int, s@.len() as int);
    let mut i: usize = start;
    let mut left: usize = n;
    while left > 0
        invariant
            start <= i <= len,
            len == s@.len(),
            cs@ == s@,
            left <= n <= 4,
            rest == s@.subrange(start as int, s@.len() as int),
            byte_prefix(s@.subrange(i as int, len as int), left as int) matches Some(p)
                ==> byte_prefix(rest, n as int) == Some(s@.subrange(start as int, i as int) + p),
            byte_prefix(s@.subrange(i as int, len as int), left as int) is None ==> byte_prefix(
                rest,
                n as int,
            ) is None,
        decreases left,
    {
        let ghost cur = s@.subrange(i as int, len as int);
        if i == len {
            assert(cur.len() == 0);
            return None;
        }
        let w = char_width(cs[i]);
        assert(cur[0] == cs@[i as int]);
        if w > left {
            return None;
        }
        proof {
            assert(cur.drop_first() =~= s@.subrange(i + 1, len as int));
            if let Some(p) = byte_prefix(s@.subrange(i + 1, len as int), left - w) {
                assert(s@.subrange(start as int, i as int) + (seq![cur[0]] + p) =~= s@.subrange(
                    start as int,
                    i + 1,
                ) + p);
            }
        }
        i = i + 1;
        left = left - w;
    }
    assert(s@.subrange(start as int, i as int) + Seq::<char>::empty() =~= s@.subrange(
        start as int,
        i as int,
    ));
    Some(s.substring_char(start, i))
}

/// Whether a character counts as alphanumeric for `char::is_alphanumeric`
/// (Unicode Alphabetic or Numeric).
pub uninterp spec fn is_alphanumeric(c: char) -> bool;

/// Calls `char::is_alphanumeric`. Claimed: the result is the named
/// property; among ASCII characters it holds exactly of letters and digits,
/// as the method's documentation states. Which non-ASCII characters hold it
/// is left unstated.
#[verifier::external_body]
pub(crate) fn char_is_alphanumeric(c: char) -> (b: bool)
    ensures
        b == is_alphanumeric(c),
        (c as u32) < 0x80 ==> (b <==> ('a' <= c <= 'z' || 'A' <= c <= 'Z' || '0' <= c <= '9')),
{
    c.is_alphanumeric()
}

/// A character allowed in a username: alphanumeric or '_'.
pub open spec fn is_name_char(c: char) -> bool {
    is_alphanumeric(c) || c == '_'
}

/// The position of the first character at or after `i` that is not a name
/// character.
pub open spec fn name_end_from(s: Seq<char>, i: int) -> int
    decreases s.len() - i,
{
    if 0 <= i < s.len() && is_name_char(s[i]) {
        name_end_from(s, i + 1)
    } else {
        i
    }
}

/// The leading name characters of `s`: `chars().take_while(...)`.
pub open spec fn spec_take_name(s: Seq<char>) -> Seq<char> {
    s.subrange(0, name_end_from(s, 0))
}

/// A position reached while skipping lies between the start and the end.
pub proof fn lemma_name_end_bounds(s: Seq<char>, i: int)
    requires
        0 <= i <= s.len(),
    ensures
        i <= name_end_from(s, i) <= s.len(),
    decreases s.len() - i,
{
    if i < s.len() && is_name_char(s[i]) {
        lemma_name_end_bounds(s, i + 1);
    }
}

/// A sequence of name characters is taken whole.
pub proof fn lemma_take_whole_name(s: Seq<char>, i: int)
    requires
        0 <= i <= s.len(),
        forall|k: int| 0 <= k < s.len() ==> is_name_char(#[trigger] s[k]),
    ensures
        name_end_from(s, i) == s.len(),
    decreases s.len() - i,
{
    if i < s.len() {
        lemma_take_whole_name(s, i + 1);
    }
}

/// The name characters of `s` from position `start` on.
pub fn take_name_from(s: &str, start: usize) -> (r: &str)
    requires
        start <= s@.len(),
    ensures
        r@ == spec_take_name(s@.subrange(start as int, s@.len() as int)),
{
    let cs = to_chars(s);
    let len = cs.len();
    let ghost rest = s@.subrange(start as int, s@.len() as int);
    let mut i: usize = start;
    while i < len && (char_is_alphanumeric(cs[i]) || cs[i] == '_')
        invariant
            start <= i <= len,
            len == s@.len(),
            cs@ == s@,
            rest == s@.subrange(start as int, s@.len() as int),
            name_end_from(rest, 0) == name_end_from(rest, i - start),
        decreases len - i,
    {
        assert(rest[i - start] == cs@[i as int]);
        i = i + 1;
    }
    proof {
        if i < len {
            assert(rest[i - start] == cs@[i as int]);
        }
        assert(name_end_from(rest, i - start) == i - start);
    }
    s.substring_char(start, i)
}

} // verus!
