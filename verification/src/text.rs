//! Character-level text operations with their specifications.
//!
//! Strings are modelled by their views, sequences of `char`. The predicates
//! here describe what the standard library's `str` methods compute
//! (`trim`, `lines`, `starts_with`, ...), and the executable functions
//! compute exactly those values on slices of characters.
use vstd::prelude::*;

verus! {

/// Appends one character to a `String`.
pub assume_specification[ String::push ](s: &mut String, ch: char)
    ensures
        final(s)@ == old(s)@.push(ch),
;

// ---------------------------------------------------------------------
// Character classes
// ---------------------------------------------------------------------
/// Unicode `White_Space`, the set that `char::is_whitespace` and `str::trim` use.
pub open spec fn is_ws(c: char) -> bool {
    ||| '\u{0009}' <= c && c <= '\u{000D}'
    ||| c == ' '
    ||| c == '\u{0085}'
    ||| c == '\u{00A0}'
    ||| c == '\u{1680}'
    ||| '\u{2000}' <= c && c <= '\u{200A}'
    ||| c == '\u{2028}'
    ||| c == '\u{2029}'
    ||| c == '\u{202F}'
    ||| c == '\u{205F}'
    ||| c == '\u{3000}'
}

pub open spec fn is_digit(c: char) -> bool {
    '0' <= c && c <= '9'
}

pub open spec fn is_upper(c: char) -> bool {
    'A' <= c && c <= 'Z'
}

pub open spec fn is_lower(c: char) -> bool {
    'a' <= c && c <= 'z'
}

pub open spec fn is_alnum(c: char) -> bool {
    is_digit(c) || is_upper(c) || is_lower(c)
}

pub open spec fn is_hex(c: char) -> bool {
    is_digit(c) || ('a' <= c && c <= 'f') || ('A' <= c && c <= 'F')
}

pub fn whitespace(c: char) -> (r: bool)
    ensures
        r == is_ws(c),
{
    ('\u{0009}' <= c && c <= '\u{000D}') || c == ' ' || c == '\u{0085}' || c == '\u{00A0}' || c
        == '\u{1680}' || ('\u{2000}' <= c && c <= '\u{200A}') || c == '\u{2028}' || c == '\u{2029}'
        || c == '\u{202F}' || c == '\u{205F}' || c == '\u{3000}'
}

pub fn digit(c: char) -> (r: bool)
    ensures
        r == is_digit(c),
{
    '0' <= c && c <= '9'
}

pub fn upper(c: char) -> (r: bool)
    ensures
        r == is_upper(c),
{
    'A' <= c && c <= 'Z'
}

pub fn alnum(c: char) -> (r: bool)
    ensures
        r == is_alnum(c),
{
    ('0' <= c && c <= '9') || ('A' <= c && c <= 'Z') || ('a' <= c && c <= 'z')
}

pub fn hex_char(c: char) -> (r: bool)
    ensures
        r == is_hex(c),
{
    ('0' <= c && c <= '9') || ('a' <= c && c <= 'f') || ('A' <= c && c <= 'F')
}

// ---------------------------------------------------------------------
// Sequence predicates
// ---------------------------------------------------------------------
/// `s.starts_with(p)`.
pub open spec fn is_prefix(p: Seq<char>, s: Seq<char>) -> bool {
    p.len() <= s.len() && s.take(p.len() as int) == p
}

/// `s.contains(char::is_whitespace)`.
pub open spec fn has_ws(s: Seq<char>) -> bool {
    exists|i: int| 0 <= i < s.len() && is_ws(#[trigger] s[i])
}

/// `s.trim_start()`.
pub open spec fn trim_start(s: Seq<char>) -> Seq<char>
    decreases s.len(),
{
    if s.len() > 0 && is_ws(s[0]) {
        trim_start(s.drop_first())
    } else {
        s
    }
}

/// `s.trim_end()`.
pub open spec fn trim_end(s: Seq<char>) -> Seq<char>
    decreases s.len(),
{
    if s.len() > 0 && is_ws(s.last()) {
        trim_end(s.drop_last())
    } else {
        s
    }
}

/// `s.trim()`.
pub open spec fn trim(s: Seq<char>) -> Seq<char> {
    trim_end(trim_start(s))
}

/// Index of the first `c` in `s`, or `s.len()` when there is none.
pub open spec fn find_char(s: Seq<char>, c: char) -> int
    decreases s.len(),
{
    if s.len() == 0 {
        0
    } else if s[0] == c {
        0
    } else {
        1 + find_char(s.drop_first(), c)
    }
}

/// A line as `str::lines` yields it: without its `\n`, and without a `\r` just before it.
pub open spec fn strip_cr(l: Seq<char>) -> Seq<char> {
    if l.len() > 0 && l.last() == '\r' {
        l.drop_last()
    } else {
        l
    }
}

/// `s.lines()`: pieces separated by `\n`, a `\r` before each `\n` removed,
/// and no empty piece after a final `\n`.
pub open spec fn lines(s: Seq<char>) -> Seq<Seq<char>>
    decreases s.len(),
{
    if s.len() == 0 {
        seq![]
    } else {
        let i = find_char(s, '\n');
        proof {
            lemma_find_char_bounds(s, '\n');
        }
        if i >= s.len() {
            seq![s]
        } else {
            seq![strip_cr(s.take(i))] + lines(s.skip(i + 1))
        }
    }
}

/// `s.split_once(c)`.
pub open spec fn split_once(s: Seq<char>, c: char) -> Option<(Seq<char>, Seq<char>)> {
    let i = find_char(s, c);
    if i >= s.len() {
        None
    } else {
        Some((s.take(i), s.skip(i + 1)))
    }
}

// ---------------------------------------------------------------------
// Lemmas
// ---------------------------------------------------------------------
pub proof fn lemma_find_char(s: Seq<char>, c: char, k: int)
    requires
        0 <= k <= s.len(),
        forall|j: int| 0 <= j < k ==> s[j] != c,
        k == s.len() || s[k] == c,
    ensures
        find_char(s, c) == k,
    decreases k,
{
    if k > 0 {
        lemma_find_char(s.drop_first(), c, k - 1);
    }
}

pub proof fn lemma_find_char_bounds(s: Seq<char>, c: char)
    ensures
        0 <= find_char(s, c) <= s.len(),
        forall|j: int| 0 <= j < find_char(s, c) ==> s[j] != c,
        find_char(s, c) < s.len() ==> s[find_char(s, c)] == c,
    decreases s.len(),
{
    if s.len() > 0 && s[0] != c {
        lemma_find_char_bounds(s.drop_first(), c);
        assert forall|j: int| 0 <= j < find_char(s, c) implies s[j] != c by {
            if j > 0 {
                assert(s[j] == s.drop_first()[j - 1]);
            }
        }
    }
}

pub proof fn lemma_trim_start(s: Seq<char>, i: int)
    requires
        0 <= i <= s.len(),
        forall|j: int| 0 <= j < i ==> is_ws(#[trigger] s[j]),
        i == s.len() || !is_ws(s[i]),
    ensures
        trim_start(s) == s.skip(i),
    decreases i,
{
    if i > 0 {
        assert forall|j: int| 0 <= j < i - 1 implies is_ws(#[trigger] s.drop_first()[j]) by {
            assert(s.drop_first()[j] == s[j + 1]);
        }
        lemma_trim_start(s.drop_first(), i - 1);
        assert(s.drop_first().skip(i - 1) == s.skip(i));
    } else {
        assert(s.skip(0) == s);
    }
}

pub proof fn lemma_trim_end(s: Seq<char>, k: int)
    requires
        0 <= k <= s.len(),
        forall|j: int| k <= j < s.len() ==> is_ws(#[trigger] s[j]),
        k == 0 || !is_ws(s[k - 1]),
    ensures
        trim_end(s) == s.take(k),
    decreases s.len() - k,
{
    if k < s.len() {
        assert forall|j: int| k <= j < s.drop_last().len() implies is_ws(
            #[trigger] s.drop_last()[j],
        ) by {
            assert(s.drop_last()[j] == s[j]);
        }
        lemma_trim_end(s.drop_last(), k);
        assert(s.drop_last().take(k) == s.take(k));
    } else {
        assert(s.take(k) == s);
    }
}

pub proof fn lemma_lines_step(s: Seq<char>)
    requires
        s.len() > 0,
    ensures
        ({
            let i = find_char(s, '\n');
            &&& 0 <= i <= s.len()
            &&& i >= s.len() ==> lines(s) == seq![s]
            &&& i < s.len() ==> lines(s) == seq![strip_cr(s.take(i))] + lines(s.skip(i + 1))
        }),
{
    lemma_find_char_bounds(s, '\n');
}

pub proof fn lemma_contains_cons(x: Seq<char>, rest: Seq<Seq<char>>, t: Seq<char>)
    ensures
        (seq![x] + rest).contains(t) <==> (x == t || rest.contains(t)),
{
    let all = seq![x] + rest;
    if x == t {
        assert(all[0] == t);
    }
    if rest.contains(t) {
        let k = choose|k: int| 0 <= k < rest.len() && #[trigger] rest[k] == t;
        assert(all[k + 1] == t);
    }
    if all.contains(t) {
        let k = choose|k: int| 0 <= k < all.len() && #[trigger] all[k] == t;
        if k > 0 {
            assert(rest[k - 1] == t);
        }
    }
}

// ---------------------------------------------------------------------
// Executable operations on character slices
// ---------------------------------------------------------------------
/// The characters of `s`, in order.
pub fn chars_of(s: &str) -> (r: Vec<char>)
    ensures
        r@ == s@,
{
    let mut r: Vec<char> = Vec::new();
    for c in it: s.chars()
        invariant
            r@ == it.seq().take(it.index() as int),
            it.seq() == s@,
    {
        r.push(c);
    }
    r
}

/// A `String` holding exactly the characters `v[lo..hi]`.
pub fn string_of_range(v: &[char], lo: usize, hi: usize) -> (r: String)
    requires
        lo <= hi <= v.len(),
    ensures
        r@ == v@.subrange(lo as int, hi as int),
{
    let mut r = String::new();
    let mut i: usize = lo;
    while i < hi
        invariant
            lo <= i <= hi <= v.len(),
            r@ == v@.subrange(lo as int, i as int),
        decreases hi - i,
    {
        r.push(v[i]);
        i = i + 1;
        assert(v@.subrange(lo as int, i as int) == v@.subrange(lo as int, i - 1).push(
            v@[i - 1],
        ));
    }
    r
}

/// A `String` holding exactly the characters of `v`.
pub fn string_of(v: &[char]) -> (r: String)
    ensures
        r@ == v@,
{
    let r = string_of_range(v, 0, v.len());
    assert(v@.subrange(0, v@.len() as int) == v@);
    r
}

/// Appends the characters of `t` to `s`.
pub fn push_str(s: &mut String, t: &str)
    ensures
        final(s)@ == old(s)@ + t@,
{
    let cs = chars_of(t);
    let mut i: usize = 0;
    while i < cs.len()
        invariant
            i <= cs.len(),
            cs@ == t@,
            s@ == old(s)@ + t@.take(i as int),
        decreases cs.len() - i,
    {
        s.push(cs[i]);
        i = i + 1;
        assert(t@.take(i as int) == t@.take(i - 1).push(t@[i - 1]));
    }
    assert(t@.take(t@.len() as int) == t@);
}

/// `a + b` as a new `String`.
pub fn concat(a: &str, b: &str) -> (r: String)
    ensures
        r@ == a@ + b@,
{
    let mut r = String::new();
    push_str(&mut r, a);
    push_str(&mut r, b);
    assert(Seq::<char>::empty() + a@ + b@ == a@ + b@);
    r
}

/// Whether `a[alo..ahi]` and `b` hold the same characters.
pub fn range_eq(a: &[char], alo: usize, ahi: usize, b: &[char]) -> (r: bool)
    requires
        alo <= ahi <= a.len(),
    ensures
        r == (a@.subrange(alo as int, ahi as int) == b@),
{
    if ahi - alo != b.len() {
        return false;
    }
    let mut i: usize = 0;
    while i < b.len()
        invariant
            alo <= ahi <= a.len(),
            ahi - alo == b.len(),
            i <= b.len(),
            forall|j: int| 0 <= j < i ==> a@[alo + j] == b@[j],
        decreases b.len() - i,
    {
        if a[alo + i] != b[i] {
            assert(a@.subrange(alo as int, ahi as int)[i as int] != b@[i as int]);
            return false;
        }
        i = i + 1;
    }
    assert(a@.subrange(alo as int, ahi as int) =~= b@);
    true
}

/// Whether `a` and `b` hold the same characters.
pub fn same(a: &str, b: &str) -> (r: bool)
    ensures
        r == (a@ == b@),
{
    let ca = chars_of(a);
    let cb = chars_of(b);
    let r = range_eq(ca.as_slice(), 0, ca.len(), cb.as_slice());
    assert(ca@.subrange(0, ca@.len() as int) == ca@);
    r
}

/// Whether `s[lo..hi]` starts with the characters of `p`.
pub fn range_starts_with(s: &[char], lo: usize, hi: usize, p: &str) -> (r: bool)
    requires
        lo <= hi <= s.len(),
    ensures
        r == is_prefix(p@, s@.subrange(lo as int, hi as int)),
{
    let cp = chars_of(p);
    if cp.len() > hi - lo {
        return false;
    }
    let r = range_eq(s, lo, lo + cp.len(), cp.as_slice());
    assert(s@.subrange(lo as int, hi as int).take(cp.len() as int) == s@.subrange(
        lo as int,
        lo + cp.len(),
    ));
    r
}

/// `s.starts_with(p)`.
pub fn starts_with(s: &str, p: &str) -> (r: bool)
    ensures
        r == is_prefix(p@, s@),
{
    let cs = chars_of(s);
    let r = range_starts_with(cs.as_slice(), 0, cs.len(), p);
    assert(cs@.subrange(0, cs@.len() as int) == cs@);
    r
}

/// Whether `s[lo..hi]` contains a whitespace character.
pub fn range_has_ws(s: &[char], lo: usize, hi: usize) -> (r: bool)
    requires
        lo <= hi <= s.len(),
    ensures
        r == has_ws(s@.subrange(lo as int, hi as int)),
{
    let mut i = lo;
    while i < hi
        invariant
            lo <= i <= hi <= s.len(),
            forall|j: int| lo <= j < i ==> !is_ws(#[trigger] s@[j]),
        decreases hi - i,
    {
        if whitespace(s[i]) {
            assert(s@.subrange(lo as int, hi as int)[i - lo] == s@[i as int]);
            return true;
        }
        i = i + 1;
    }
    assert forall|j: int| 0 <= j < hi - lo implies !is_ws(
        #[trigger] s@.subrange(lo as int, hi as int)[j],
    ) by {
        assert(s@.subrange(lo as int, hi as int)[j] == s@[lo + j]);
    }
    false
}

/// Index of the first `c` in `s[lo..hi]`, or `hi` when there is none.
pub fn find_in_range(s: &[char], lo: usize, hi: usize, c: char) -> (r: usize)
    requires
        lo <= hi <= s.len(),
    ensures
        lo <= r <= hi,
        r - lo == find_char(s@.subrange(lo as int, hi as int), c),
        forall|j: int| lo <= j < r ==> s@[j] != c,
        r < hi ==> s@[r as int] == c,
{
    let mut i = lo;
    while i < hi && s[i] != c
        invariant
            lo <= i <= hi <= s.len(),
            forall|j: int| lo <= j < i ==> s@[j] != c,
        decreases hi - i,
    {
        i = i + 1;
    }
    let ghost t = s@.subrange(lo as int, hi as int);
    proof {
        assert forall|j: int| 0 <= j < i - lo implies t[j] != c by {
            assert(t[j] == s@[lo + j]);
        }
        if i < hi {
            assert(t[i - lo] == s@[i as int]);
        }
        lemma_find_char(t, c, i - lo);
    }
    i
}

/// The bounds of `trim(s[lo..hi])` within `s`.
pub fn trim_range(s: &[char], lo: usize, hi: usize) -> (r: (usize, usize))
    requires
        lo <= hi <= s.len(),
    ensures
        lo <= r.0 <= r.1 <= hi,
        s@.subrange(r.0 as int, r.1 as int) == trim(s@.subrange(lo as int, hi as int)),
{
    let ghost t = s@.subrange(lo as int, hi as int);
    let mut a = lo;
    while a < hi && whitespace(s[a])
        invariant
            lo <= a <= hi <= s.len(),
            forall|j: int| lo <= j < a ==> is_ws(#[trigger] s@[j]),
        decreases hi - a,
    {
        a = a + 1;
    }
    proof {
        assert forall|j: int| 0 <= j < a - lo implies is_ws(#[trigger] t[j]) by {
            assert(t[j] == s@[lo + j]);
        }
        if a < hi {
            assert(t[a - lo] == s@[a as int]);
        }
        lemma_trim_start(t, a - lo);
    }
    let ghost u = t.skip(a - lo);
    assert(u == s@.subrange(a as int, hi as int));
    let mut b = hi;
    while b > a && whitespace(s[b - 1])
        invariant
            lo <= a <= b <= hi <= s.len(),
            forall|j: int| b <= j < hi ==> is_ws(#[trigger] s@[j]),
        decreases b - a,
    {
        b = b - 1;
    }
    proof {
        assert forall|j: int| b - a <= j < u.len() implies is_ws(#[trigger] u[j]) by {
            assert(u[j] == s@[a + j]);
        }
        if b > a {
            assert(u[b - a - 1] == s@[b - 1]);
        }
        lemma_trim_end(u, b - a);
        assert(u.take(b - a) == s@.subrange(a as int, b as int));
    }
    (a, b)
}

/// `s.trim()` as a new `String`.
pub fn trimmed(s: &str) -> (r: String)
    ensures
        r@ == trim(s@),
{
    let cs = chars_of(s);
    let (a, b) = trim_range(cs.as_slice(), 0, cs.len());
    assert(cs@.subrange(0, cs@.len() as int) == cs@);
    string_of_range(cs.as_slice(), a, b)
}

/// `s.trim_end()` as a new `String`.
pub fn trimmed_end(s: &str) -> (r: String)
    ensures
        r@ == trim_end(s@),
{
    let cs = chars_of(s);
    let mut b = cs.len();
    while b > 0 && whitespace(cs[b - 1])
        invariant
            b <= cs.len(),
            forall|j: int| b <= j < cs.len() ==> is_ws(#[trigger] cs@[j]),
        decreases b,
    {
        b = b - 1;
    }
    proof {
        lemma_trim_end(cs@, b as int);
    }
    let r = string_of_range(cs.as_slice(), 0, b);
    assert(cs@.subrange(0, b as int) == cs@.take(b as int));
    r
}

/// Whether some line of `text` (as `str::lines` splits it) equals `target`.
pub fn has_line(text: &str, target: &str) -> (r: bool)
    ensures
        r == lines(text@).contains(target@),
{
    let cs = chars_of(text);
    let ct = chars_of(target);
    let n = cs.len();
    let mut p: usize = 0;
    assert(cs@.skip(0) == cs@);
    while p < n
        invariant
            n == cs.len(),
            cs@ == text@,
            ct@ == target@,
            p <= n,
            lines(text@).contains(target@) == lines(cs@.skip(p as int)).contains(target@),
        decreases n - p,
    {
        let ghost rest = cs@.skip(p as int);
        let i = find_in_range(cs.as_slice(), p, n, '\n');
        proof {
            lemma_lines_step(rest);
            assert(cs@.subrange(p as int, n as int) == rest);
        }
        let mut e = i;
        if i < n && i > p && cs[i - 1] == '\r' {
            e = i - 1;
        }
        let hit = range_eq(cs.as_slice(), p, e, ct.as_slice());
        proof {
            if i < n {
                assert(rest.take(i - p) == cs@.subrange(p as int, i as int));
                assert(strip_cr(rest.take(i - p)) == cs@.subrange(p as int, e as int));
                assert(rest.skip(i - p + 1) == cs@.skip(i + 1));
                let l = seq![strip_cr(rest.take(i - p))];
                assert(lines(rest) == l + lines(cs@.skip(i + 1)));
                lemma_contains_cons(l[0], lines(cs@.skip(i + 1)), target@);
                assert(l == seq![l[0]]);
            } else {
                assert(rest == cs@.subrange(p as int, e as int));
                assert(lines(rest) == seq![rest]);
                lemma_contains_cons(rest, seq![], target@);
                assert(seq![rest] + Seq::<Seq<char>>::empty() == seq![rest]);
            }
        }
        if hit {
            return true;
        }
        if i >= n {
            assert(!lines(text@).contains(target@));
            return false;
        }
        p = i + 1;
    }
    assert(cs@.skip(n as int) == Seq::<char>::empty());
    false
}

} // verus!
