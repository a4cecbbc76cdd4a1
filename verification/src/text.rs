//! Character-level string helpers with exact specifications.

use vstd::prelude::*;

verus! {

/// Appends one character to a string.
///
/// Trusted: calls `String::push`, whose documented effect is to append the
/// character at the end of the string.
#[verifier::external_body]
pub(crate) fn push_char(s: &mut String, c: char)
    ensures
        final(s)@ == old(s)@.push(c),
{
    s.push(c);
}

/// The characters of a string slice.
pub fn chars_of(s: &str) -> (r: Vec<char>)
    ensures
        r@ == s@,
{
    let n = s.unicode_len();
    let mut r: Vec<char> = Vec::new();
    let mut i: usize = 0;
    while i < n
        invariant
            n == s@.len(),
            i <= n,
            r@ == s@.subrange(0, i as int),
        decreases n - i,
    {
        let c = s.get_char(i);
        r.push(c);
        i = i + 1;
    }
    r
}

/// A string holding exactly the given characters.
pub fn string_from_chars(v: &[char]) -> (r: String)
    ensures
        r@ == v@,
{
    let mut r = String::new();
    let mut i: usize = 0;
    while i < v.len()
        invariant
            i <= v@.len(),
            r@ == v@.subrange(0, i as int),
        decreases v@.len() - i,
    {
        push_char(&mut r, v[i]);
        i = i + 1;
    }
    r
}

/// Whether two string slices hold the same characters.
pub fn str_eq(a: &str, b: &str) -> (r: bool)
    ensures
        r == (a@ == b@),
{
    let av = chars_of(a);
    let bv = chars_of(b);
    chars_eq(&av, &bv)
}

/// Whether two character slices are equal.
pub fn chars_eq(a: &[char], b: &[char]) -> (r: bool)
    ensures
        r == (a@ == b@),
{
    if a.len() != b.len() {
        return false;
    }
    let mut i: usize = 0;
    while i < a.len()
        invariant
            a@.len() == b@.len(),
            i <= a@.len(),
            forall|j: int| 0 <= j < i ==> a@[j] == b@[j],
        decreases a@.len() - i,
    {
        if a[i] != b[i] {
            return false;
        }
        i = i + 1;
    }
    assert(a@ =~= b@);
    true
}


/// The result of comparing two character sequences in lexicographic order.
#[derive(Clone, Copy, Debug, PartialEq, Eq)]
pub enum KeyOrder {
    Less,
    Equal,
    Greater,
}

/// `a` and `b` agree on their first `i` characters, and at position `i`
/// either `a` ends while `b` goes on, or `a` has the smaller character.
pub open spec fn lt_at(a: Seq<char>, b: Seq<char>, i: int) -> bool {
    &&& 0 <= i
    &&& forall|j: int| 0 <= j < i ==> a[j] == b[j]
    &&& ((i == a.len() && i < b.len()) || (i < a.len() && i < b.len() && a[i] < b[i]))
}

/// `a` comes strictly before `b` in lexicographic order of characters,
/// which is the order of `str` (UTF-8 byte order agrees with code point order).
pub open spec fn seq_lt(a: Seq<char>, b: Seq<char>) -> bool {
    exists|i: int| #[trigger] lt_at(a, b, i)
}

/// The index of the first position where `a` and `b` differ (or the shorter length).
pub open spec fn first_diff(a: Seq<char>, b: Seq<char>, i: int) -> bool {
    &&& 0 <= i <= a.len()
    &&& i <= b.len()
    &&& forall|j: int| 0 <= j < i ==> a[j] == b[j]
    &&& (i == a.len() || i == b.len() || a[i] != b[i])
}

proof fn lemma_first_diff_exists(a: Seq<char>, b: Seq<char>) -> (i: int)
    ensures
        first_diff(a, b, i),
    decreases a.len(),
{
    if a.len() == 0 || b.len() == 0 {
        0
    } else if a[0] != b[0] {
        0
    } else {
        let k = lemma_first_diff_exists(a.drop_first(), b.drop_first());
        assert forall|j: int| 0 <= j < k + 1 implies a[j] == b[j] by {
            if j > 0 {
                assert(a.drop_first()[j - 1] == b.drop_first()[j - 1]);
            }
        }
        if k < a.len() - 1 && k < b.len() - 1 {
            assert(a.drop_first()[k] != b.drop_first()[k]);
        }
        k + 1
    }
}

/// Exactly one of `a < b`, `a == b`, `b < a` holds.
pub proof fn lemma_seq_lt_trichotomy(a: Seq<char>, b: Seq<char>)
    ensures
        seq_lt(a, b) || a == b || seq_lt(b, a),
        !(seq_lt(a, b) && a == b),
        !(seq_lt(a, b) && seq_lt(b, a)),
        !seq_lt(a, a),
{
    let i = lemma_first_diff_exists(a, b);
    if i == a.len() && i == b.len() {
        assert(a =~= b);
    } else if i == a.len() {
        assert(lt_at(a, b, i));
    } else if i == b.len() {
        assert(lt_at(b, a, i));
    } else if a[i] < b[i] {
        assert(lt_at(a, b, i));
    } else {
        assert(lt_at(b, a, i));
    }
    if seq_lt(a, b) && seq_lt(b, a) {
        let p = choose|p: int| #[trigger] lt_at(a, b, p);
        let q = choose|q: int| #[trigger] lt_at(b, a, q);
        if p < q {
            assert(b[p] == a[p]);
        } else if q < p {
            assert(a[q] == b[q]);
        }
    }
    if seq_lt(a, a) {
        let p = choose|p: int| #[trigger] lt_at(a, a, p);
    }
}

/// Lexicographic order is transitive.
pub proof fn lemma_seq_lt_transitive(a: Seq<char>, b: Seq<char>, c: Seq<char>)
    requires
        seq_lt(a, b),
        seq_lt(b, c),
    ensures
        seq_lt(a, c),
{
    let p = choose|p: int| #[trigger] lt_at(a, b, p);
    let q = choose|q: int| #[trigger] lt_at(b, c, q);
    let m = if p < q { p } else { q };
    assert forall|j: int| 0 <= j < m implies a[j] == c[j] by {
        assert(a[j] == b[j]);
        assert(b[j] == c[j]);
    }
    if p < q {
        assert(b[p] == c[p]);
    } else if q < p {
        assert(a[q] == b[q]);
    }
    assert(lt_at(a, c, m));
}

/// Compares two character sequences in lexicographic order.
pub fn compare_chars(a: &[char], b: &[char]) -> (r: KeyOrder)
    ensures
        r == KeyOrder::Less <==> seq_lt(a@, b@),
        r == KeyOrder::Equal <==> a@ == b@,
        r == KeyOrder::Greater <==> seq_lt(b@, a@),
{
    proof {
        lemma_seq_lt_trichotomy(a@, b@);
    }
    let mut i: usize = 0;
    while i < a.len() && i < b.len()
        invariant
            i <= a@.len(),
            i <= b@.len(),
            forall|j: int| 0 <= j < i ==> a@[j] == b@[j],
        decreases a@.len() - i,
    {
        if a[i] != b[i] {
            if a[i] < b[i] {
                assert(lt_at(a@, b@, i as int));
                return KeyOrder::Less;
            } else {
                assert(lt_at(b@, a@, i as int));
                return KeyOrder::Greater;
            }
        }
        i = i + 1;
    }
    if a.len() == b.len() {
        assert(a@ =~= b@);
        KeyOrder::Equal
    } else if i == a.len() {
        assert(lt_at(a@, b@, i as int));
        KeyOrder::Less
    } else {
        assert(lt_at(b@, a@, i as int));
        KeyOrder::Greater
    }
}

/// Whether `s` starts with `prefix`.
pub fn starts_with(s: &[char], prefix: &[char]) -> (r: bool)
    ensures
        r == (prefix@.len() <= s@.len() && s@.take(prefix@.len() as int) == prefix@),
{
    if prefix.len() > s.len() {
        return false;
    }
    let mut i: usize = 0;
    while i < prefix.len()
        invariant
            prefix@.len() <= s@.len(),
            i <= prefix@.len(),
            forall|j: int| 0 <= j < i ==> s@[j] == prefix@[j],
        decreases prefix@.len() - i,
    {
        if s[i] != prefix[i] {
            assert(s@.take(prefix@.len() as int)[i as int] != prefix@[i as int]);
            return false;
        }
        i = i + 1;
    }
    assert(s@.take(prefix@.len() as int) =~= prefix@);
    true
}

/// Whether `s` ends with `suffix`.
pub fn ends_with(s: &[char], suffix: &[char]) -> (r: bool)
    ensures
        r == (suffix@.len() <= s@.len() && s@.skip(s@.len() - suffix@.len()) == suffix@),
{
    if suffix.len() > s.len() {
        return false;
    }
    let start = s.len() - suffix.len();
    let mut i: usize = 0;
    while i < suffix.len()
        invariant
            suffix@.len() <= s@.len(),
            s@.len() == s.len(),
            start == s@.len() - suffix@.len(),
            i <= suffix@.len(),
            forall|j: int| 0 <= j < i ==> s@[start + j] == suffix@[j],
        decreases suffix@.len() - i,
    {
        if s[start + i] != suffix[i] {
            assert(s@.skip(start as int)[i as int] != suffix@[i as int]);
            return false;
        }
        i = i + 1;
    }
    assert(s@.skip(start as int) =~= suffix@);
    true
}

/// A string cut at every `sep`, starting with the piece `cur` already read.
pub open spec fn split_from(s: Seq<char>, sep: char, cur: Seq<char>) -> Seq<Seq<char>>
    decreases s.len(),
{
    if s.len() == 0 {
        seq![cur]
    } else if s[0] == sep {
        seq![cur] + split_from(s.drop_first(), sep, Seq::empty())
    } else {
        split_from(s.drop_first(), sep, cur.push(s[0]))
    }
}

/// A string cut at every `sep`, as `str::split` gives the pieces.
pub open spec fn split_on(s: Seq<char>, sep: char) -> Seq<Seq<char>> {
    split_from(s, sep, Seq::empty())
}

/// Cuts `s` at every `sep`.
pub fn split_chars(s: &[char], sep: char) -> (r: Vec<Vec<char>>)
    ensures
        r@.map_values(|p: Vec<char>| p@) == split_on(s@, sep),
{
    let mut out: Vec<Vec<char>> = Vec::new();
    let mut cur: Vec<char> = Vec::new();
    let mut i: usize = 0;
    assert(s@.skip(0) =~= s@);
    assert(out@.map_values(|p: Vec<char>| p@) =~= Seq::<Seq<char>>::empty());
    while i < s.len()
        invariant
            i <= s@.len(),
            out@.map_values(|p: Vec<char>| p@) + split_from(s@.skip(i as int), sep, cur@) == split_on(
                s@,
                sep,
            ),
        decreases s@.len() - i,
    {
        let ghost before = out@.map_values(|p: Vec<char>| p@);
        assert(s@.skip(i as int).drop_first() =~= s@.skip(i + 1));
        if s[i] == sep {
            let ghost c0 = cur@;
            let done = cur;
            cur = Vec::new();
            out.push(done);
            assert(out@.map_values(|p: Vec<char>| p@) =~= before.push(c0));
            assert(out@.map_values(|p: Vec<char>| p@) + split_from(s@.skip(i + 1), sep, cur@) =~= before
                + split_from(s@.skip(i as int), sep, c0));
        } else {
            cur.push(s[i]);
        }
        i = i + 1;
    }
    assert(s@.skip(s@.len() as int) =~= Seq::<char>::empty());
    let ghost before = out@.map_values(|p: Vec<char>| p@);
    let ghost c0 = cur@;
    out.push(cur);
    assert(out@.map_values(|p: Vec<char>| p@) =~= before.push(c0));
    out
}

/// `l` cut at its first `c`.
pub open spec fn split_once_at(l: Seq<char>, c: char) -> Option<(Seq<char>, Seq<char>)>
    decreases l.len(),
{
    if l.len() == 0 {
        None
    } else if l[0] == c {
        Some((Seq::empty(), l.drop_first()))
    } else {
        match split_once_at(l.drop_first(), c) {
            Some(p) => Some((seq![l[0]] + p.0, p.1)),
            None => None,
        }
    }
}

/// `split_once_at` cuts at the first `c`.
pub proof fn lemma_split_once_at(l: Seq<char>, c: char, i: int)
    requires
        0 <= i < l.len(),
        l[i] == c,
        forall|j: int| 0 <= j < i ==> l[j] != c,
    ensures
        split_once_at(l, c) == Some((l.take(i), l.skip(i + 1))),
    decreases i,
{
    if i > 0 {
        lemma_split_once_at(l.drop_first(), c, i - 1);
        assert(seq![l[0]] + l.drop_first().take(i - 1) =~= l.take(i));
        assert(l.drop_first().skip(i) =~= l.skip(i + 1));
    } else {
        assert(l.take(0) =~= Seq::<char>::empty());
        assert(l.drop_first() =~= l.skip(1));
    }
}

/// Without `c`, a line does not split.
pub proof fn lemma_split_once_at_none(l: Seq<char>, c: char)
    requires
        forall|j: int| 0 <= j < l.len() ==> l[j] != c,
    ensures
        split_once_at(l, c) is None,
    decreases l.len(),
{
    if l.len() > 0 {
        lemma_split_once_at_none(l.drop_first(), c);
    }
}

/// Cuts `l` at its first `c`.
pub fn split_once_chars(l: &[char], c: char) -> (r: Option<(Vec<char>, Vec<char>)>)
    ensures
        match r {
            Some(p) => split_once_at(l@, c) == Some((p.0@, p.1@)),
            None => split_once_at(l@, c) is None,
        },
{
    let mut k: usize = 0;
    while k < l.len() && l[k] != c
        invariant
            k <= l@.len(),
            forall|j: int| 0 <= j < k ==> l@[j] != c,
        decreases l@.len() - k,
    {
        k = k + 1;
    }
    if k == l.len() {
        proof {
            lemma_split_once_at_none(l@, c);
        }
        return None;
    }
    proof {
        lemma_split_once_at(l@, c, k as int);
    }
    let mut a: Vec<char> = Vec::new();
    let mut b: Vec<char> = Vec::new();
    let mut i: usize = 0;
    while i < k
        invariant
            k < l@.len(),
            i <= k,
            a@ == l@.take(i as int),
        decreases k - i,
    {
        a.push(l[i]);
        assert(a@ =~= l@.take(i + 1));
        i = i + 1;
    }
    let mut j: usize = k + 1;
    while j < l.len()
        invariant
            k < l@.len(),
            k + 1 <= j <= l@.len(),
            b@ == l@.subrange(k + 1, j as int),
        decreases l@.len() - j,
    {
        b.push(l[j]);
        assert(b@ =~= l@.subrange(k + 1, j + 1));
        j = j + 1;
    }
    assert(b@ =~= l@.skip(k + 1));
    Some((a, b))
}

} // verus!
