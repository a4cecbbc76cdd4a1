//! OpenStreetMap tags: keys, values, and a map from keys to values kept in key order.

use vstd::prelude::*;

use crate::text::{split_from, split_once_at, lemma_split_once_at, lemma_split_once_at_none, split_on, chars_of, compare_chars, lemma_seq_lt_transitive, lemma_seq_lt_trichotomy, seq_lt, KeyOrder};

verus! {

/// A key/value pair of characters.
pub type PairView = (Seq<char>, Seq<char>);

/// Every key comes strictly before the next one, so keys are sorted and distinct.
pub open spec fn keys_sorted(s: Seq<PairView>) -> bool {
    forall|i: int, j: int| 0 <= i < j < s.len() ==> seq_lt(#[trigger] s[i].0, #[trigger] s[j].0)
}

/// The pair at index `i` has key `k`.
pub open spec fn key_at(s: Seq<PairView>, k: Seq<char>, i: int) -> bool {
    0 <= i < s.len() && s[i].0 == k
}

/// Some pair has key `k`.
pub open spec fn has_key(s: Seq<PairView>, k: Seq<char>) -> bool {
    exists|i: int| #[trigger] key_at(s, k, i)
}

/// The value stored under key `k`, if any.
pub open spec fn lookup(s: Seq<PairView>, k: Seq<char>) -> Option<Seq<char>> {
    if has_key(s, k) {
        Some(s[choose|i: int| #[trigger] key_at(s, k, i)].1)
    } else {
        None
    }
}

/// The view of an optional string slice.
pub open spec fn opt_str_view(o: Option<&str>) -> Option<Seq<char>> {
    match o {
        Some(s) => Some(s@),
        None => None,
    }
}

/// The tags as a map from key to value.
pub open spec fn tags_map(t: Seq<PairView>) -> Map<Seq<char>, Seq<char>> {
    Map::new(|k: Seq<char>| lookup(t, k) is Some, |k: Seq<char>| lookup(t, k).unwrap())
}

/// The keys of a list of strings, as a set.
pub open spec fn str_set(keys: Seq<&str>) -> Set<Seq<char>> {
    Set::new(|k: Seq<char>| exists|i: int| 0 <= i < keys.len() && #[trigger] keys[i]@ == k)
}

/// The text of a list of keys, as a set.
pub open spec fn key_set(keys: Seq<TagKey>) -> Set<Seq<char>> {
    Set::new(|k: Seq<char>| exists|i: int| 0 <= i < keys.len() && #[trigger] keys[i]@ == k)
}

/// The set of one key.
pub proof fn lemma_str_set1(a: &str)
    ensures
        str_set(seq![a]) == set![a@],
{
    let s = seq![a];
    assert(s[0]@ == a@);
    assert(str_set(s) =~= set![a@]);
}

/// The set of two keys.
pub proof fn lemma_str_set2(a: &str, b: &str)
    ensures
        str_set(seq![a, b]) == set![a@, b@],
{
    let s = seq![a, b];
    assert(s[0]@ == a@ && s[1]@ == b@);
    assert(str_set(s) =~= set![a@, b@]);
}

/// The set of three keys.
pub proof fn lemma_str_set3(a: &str, b: &str, c: &str)
    ensures
        str_set(seq![a, b, c]) == set![a@, b@, c@],
{
    let s = seq![a, b, c];
    assert(s[0]@ == a@ && s[1]@ == b@ && s[2]@ == c@);
    assert(str_set(s) =~= set![a@, b@, c@]);
}

/// The set of four keys.
pub proof fn lemma_str_set4(a: &str, b: &str, c: &str, d: &str)
    ensures
        str_set(seq![a, b, c, d]) == set![a@, b@, c@, d@],
{
    let s = seq![a, b, c, d];
    assert(s[0]@ == a@ && s[1]@ == b@ && s[2]@ == c@ && s[3]@ == d@);
    assert(str_set(s) =~= set![a@, b@, c@, d@]);
}

/// The set of five keys.
pub proof fn lemma_str_set5(a: &str, b: &str, c: &str, d: &str, e: &str)
    ensures
        str_set(seq![a, b, c, d, e]) == set![a@, b@, c@, d@, e@],
{
    let s = seq![a, b, c, d, e];
    assert(s[0]@ == a@ && s[1]@ == b@ && s[2]@ == c@ && s[3]@ == d@ && s[4]@ == e@);
    assert(str_set(s) =~= set![a@, b@, c@, d@, e@]);
}

/// Whether some key is `stem` or lies below it, `stem:*`.
pub open spec fn spec_has_tree(t: Seq<PairView>, stem: Seq<char>) -> bool {
    exists|i: int|
        0 <= i < t.len() && (#[trigger] t[i].0 == stem || is_prefix(stem + seq![':'], t[i].0))
}

/// The view of a sequence of string-slice pairs.
pub open spec fn str_pairs_view(s: Seq<(&str, &str)>) -> Seq<PairView> {
    s.map_values(|p: (&str, &str)| (p.0@, p.1@))
}

/// In a sorted sequence, the value under the key at index `i` is the value at `i`.
pub proof fn lemma_lookup_index(s: Seq<PairView>, i: int)
    requires
        keys_sorted(s),
        0 <= i < s.len(),
    ensures
        lookup(s, s[i].0) == Some(s[i].1),
{
    assert(key_at(s, s[i].0, i));
    let j = choose|j: int| #[trigger] key_at(s, s[i].0, j);
    if j != i {
        lemma_seq_lt_trichotomy(s[i].0, s[j].0);
        if j < i {
            assert(seq_lt(s[j].0, s[i].0));
        } else {
            assert(seq_lt(s[i].0, s[j].0));
        }
    }
}

/// In a sorted sequence, the lookups of its tail are those of the whole but
/// for the first key.
proof fn lemma_lookup_tail(a: Seq<PairView>, k: Seq<char>)
    requires
        keys_sorted(a),
        a.len() > 0,
    ensures
        lookup(a.drop_first(), k) == if k == a[0].0 {
            None
        } else {
            lookup(a, k)
        },
{
    let t = a.drop_first();
    assert(keys_sorted(t)) by {
        assert forall|i: int, j: int| 0 <= i < j < t.len() implies seq_lt(#[trigger] t[i].0, #[trigger] t[j].0) by {
            assert(t[i] == a[i + 1] && t[j] == a[j + 1]);
        }
    }
    if has_key(t, k) {
        let i = choose|i: int| #[trigger] key_at(t, k, i);
        assert(t[i] == a[i + 1]);
        assert(seq_lt(a[0].0, a[i + 1].0));
        lemma_seq_lt_trichotomy(a[0].0, a[i + 1].0);
        lemma_lookup_index(t, i);
        lemma_lookup_index(a, i + 1);
    } else if k != a[0].0 && has_key(a, k) {
        let j = choose|j: int| #[trigger] key_at(a, k, j);
        assert(j > 0);
        assert(key_at(t, k, j - 1));
    }
}

/// Two sorted sequences with the same lookups are the same sequence: the
/// lookups of a sorted sequence determine it.
pub proof fn lemma_sorted_lookups_unique(a: Seq<PairView>, b: Seq<PairView>)
    requires
        keys_sorted(a),
        keys_sorted(b),
        forall|k: Seq<char>| #[trigger] lookup(a, k) == lookup(b, k),
    ensures
        a == b,
    decreases a.len() + b.len(),
{
    if a.len() == 0 && b.len() == 0 {
        assert(a =~= b);
    } else if a.len() == 0 {
        lemma_lookup_index(b, 0);
        assert(lookup(a, b[0].0) is None);
    } else if b.len() == 0 {
        lemma_lookup_index(a, 0);
        assert(lookup(b, a[0].0) is None);
    } else {
        let ka = a[0].0;
        let kb = b[0].0;
        lemma_lookup_index(a, 0);
        lemma_lookup_index(b, 0);
        assert(lookup(b, ka) == Some(a[0].1));
        assert(lookup(a, kb) == Some(b[0].1));
        let j = choose|j: int| #[trigger] key_at(b, ka, j);
        let i = choose|i: int| #[trigger] key_at(a, kb, i);
        lemma_seq_lt_trichotomy(ka, kb);
        if j > 0 {
            assert(seq_lt(kb, ka));
            if i > 0 {
                assert(seq_lt(ka, kb));
            }
        }
        assert(ka == kb);
        assert(a[0] == b[0]);
        assert forall|k: Seq<char>| #[trigger] lookup(a.drop_first(), k) == lookup(b.drop_first(), k) by {
            lemma_lookup_tail(a, k);
            lemma_lookup_tail(b, k);
            assert(lookup(a, k) == lookup(b, k));
        }
        assert(keys_sorted(a.drop_first())) by {
            assert forall|x: int, y: int| 0 <= x < y < a.drop_first().len() implies seq_lt(
                #[trigger] a.drop_first()[x].0,
                #[trigger] a.drop_first()[y].0,
            ) by {
                assert(a.drop_first()[x] == a[x + 1] && a.drop_first()[y] == a[y + 1]);
            }
        }
        assert(keys_sorted(b.drop_first())) by {
            assert forall|x: int, y: int| 0 <= x < y < b.drop_first().len() implies seq_lt(
                #[trigger] b.drop_first()[x].0,
                #[trigger] b.drop_first()[y].0,
            ) by {
                assert(b.drop_first()[x] == b[x + 1] && b.drop_first()[y] == b[y + 1]);
            }
        }
        lemma_sorted_lookups_unique(a.drop_first(), b.drop_first());
        assert(a =~= seq![a[0]] + a.drop_first());
        assert(b =~= seq![b[0]] + b.drop_first());
    }
}

/// No two pairs share a key.
pub open spec fn distinct_keys(s: Seq<PairView>) -> bool {
    forall|i: int, j: int| 0 <= i < j < s.len() ==> #[trigger] s[i].0 != #[trigger] s[j].0
}

/// The pair at index `j` repeats the key of an earlier pair.
pub open spec fn dup_at(s: Seq<PairView>, j: int) -> bool {
    0 <= j < s.len() && exists|i: int| 0 <= i < j && #[trigger] s[i].0 == s[j].0
}

/// `j` is the first index whose key repeats an earlier key.
pub open spec fn first_dup(s: Seq<PairView>, j: int) -> bool {
    dup_at(s, j) && forall|m: int| 0 <= m < j ==> !#[trigger] dup_at(s, m)
}

/// Sorted keys are distinct.
pub proof fn lemma_sorted_distinct(s: Seq<PairView>)
    requires
        keys_sorted(s),
    ensures
        distinct_keys(s),
{
    assert forall|i: int, j: int| 0 <= i < j < s.len() implies #[trigger] s[i].0 != #[trigger] s[j].0 by {
        assert(seq_lt(s[i].0, s[j].0));
        lemma_seq_lt_trichotomy(s[i].0, s[j].0);
    }
}

/// With distinct keys, the value under the key at index `i` is the value at `i`.
pub proof fn lemma_lookup_distinct(s: Seq<PairView>, i: int)
    requires
        distinct_keys(s),
        0 <= i < s.len(),
    ensures
        lookup(s, s[i].0) == Some(s[i].1),
{
    assert(key_at(s, s[i].0, i));
    let j = choose|j: int| #[trigger] key_at(s, s[i].0, j);
    if j < i {
        assert(s[j].0 != s[i].0);
    } else if i < j {
        assert(s[i].0 != s[j].0);
    }
}

/// Extending a sequence with distinct keys by one pair.
pub proof fn lemma_lookup_push(s: Seq<PairView>, p: PairView, k: Seq<char>)
    requires
        distinct_keys(s.push(p)),
    ensures
        lookup(s.push(p), k) == if k == p.0 {
            Some(p.1)
        } else {
            lookup(s, k)
        },
{
    let t = s.push(p);
    if k == p.0 {
        lemma_lookup_distinct(t, s.len() as int);
    } else if has_key(s, k) {
        let j = choose|j: int| #[trigger] key_at(s, k, j);
        assert(distinct_keys(s)) by {
            assert forall|a: int, b: int| 0 <= a < b < s.len() implies #[trigger] s[a].0
                != #[trigger] s[b].0 by {
                assert(t[a] == s[a] && t[b] == s[b]);
            }
        }
        lemma_lookup_distinct(s, j);
        assert(t[j] == s[j]);
        lemma_lookup_distinct(t, j);
    } else {
        assert forall|j: int| #[trigger] key_at(t, k, j) implies false by {
            if j < s.len() {
                assert(key_at(s, k, j));
            }
        }
    }
}

/// The key and value of a pair written `key=value`.
pub open spec fn pair_line(p: PairView) -> Seq<char> {
    p.0 + seq!['='] + p.1
}

/// Parts joined by `sep`.
pub open spec fn join_with(parts: Seq<Seq<char>>, sep: char) -> Seq<char>
    decreases parts.len(),
{
    if parts.len() == 0 {
        Seq::empty()
    } else if parts.len() == 1 {
        parts[0]
    } else {
        join_with(parts.drop_last(), sep) + seq![sep] + parts.last()
    }
}

/// Strings joined by `sep`.
pub fn join_strings(parts: &Vec<String>, sep: char) -> (r: String)
    ensures
        r@ == join_with(parts@.map_values(|s: String| s@), sep),
{
    let ghost views = parts@.map_values(|s: String| s@);
    let mut out = String::new();
    let mut i: usize = 0;
    while i < parts.len()
        invariant
            i <= parts@.len(),
            views == parts@.map_values(|s: String| s@),
            out@ == join_with(views.take(i as int), sep),
        decreases parts@.len() - i,
    {
        if i > 0 {
            crate::text::push_char(&mut out, sep);
        }
        out.append(parts[i].as_str());
        proof {
            assert(views[i as int] == parts@[i as int]@);
            assert(views.take(i + 1).drop_last() =~= views.take(i as int));
            if i == 0 {
                assert(out@ =~= join_with(views.take(1), sep));
            } else {
                assert(out@ =~= join_with(views.take(i + 1), sep));
            }
        }
        i = i + 1;
    }
    assert(views.take(parts@.len() as int) =~= views);
    out
}

/// `a` is a prefix of `b`.
pub open spec fn is_prefix(a: Seq<char>, b: Seq<char>) -> bool {
    a.len() <= b.len() && b.take(a.len() as int) == a
}

/// A line with one carriage return removed from its end.
pub open spec fn strip_cr(l: Seq<char>) -> Seq<char> {
    if l.len() > 0 && l.last() == '\r' {
        l.drop_last()
    } else {
        l
    }
}

/// The lines of `s`, the current line `cur` read so far: lines end at `\n`,
/// a `\r` right before that `\n` is dropped, and a final line ending is optional.
pub open spec fn lines_from(s: Seq<char>, cur: Seq<char>) -> Seq<Seq<char>>
    decreases s.len(),
{
    if s.len() == 0 {
        if cur.len() == 0 {
            Seq::empty()
        } else {
            seq![cur]
        }
    } else if s[0] == '\n' {
        seq![strip_cr(cur)] + lines_from(s.drop_first(), Seq::empty())
    } else {
        lines_from(s.drop_first(), cur.push(s[0]))
    }
}

/// The lines of `s`, as `str::lines` gives them.
pub open spec fn spec_lines(s: Seq<char>) -> Seq<Seq<char>> {
    lines_from(s, Seq::empty())
}

/// A line cut at its first `=`.
pub open spec fn split_once_eq(l: Seq<char>) -> Option<PairView> {
    split_once_at(l, '=')
}

/// Every line holds a `=`.
pub open spec fn all_split(ls: Seq<Seq<char>>) -> bool {
    forall|j: int| 0 <= j < ls.len() ==> #[trigger] split_once_eq(ls[j]) is Some
}

/// Line `j` is the first line without `=`.
pub open spec fn first_unsplit(ls: Seq<Seq<char>>, j: int) -> bool {
    &&& 0 <= j < ls.len()
    &&& split_once_eq(ls[j]) is None
    &&& forall|m: int| 0 <= m < j ==> #[trigger] split_once_eq(ls[m]) is Some
}

/// Each line cut at its first `=`.
pub open spec fn split_all(ls: Seq<Seq<char>>) -> Seq<PairView> {
    ls.map_values(|l: Seq<char>| split_once_eq(l).unwrap())
}

/// The tags that a text reads as, where it reads as tags: every line is
/// `key=value` and no key comes twice; the tags hold those pairs in key order.
pub open spec fn spec_text_tags(text: Seq<char>) -> Option<Seq<PairView>> {
    let ps = split_all(spec_lines(text));
    if all_split(spec_lines(text)) && distinct_keys(ps) {
        Some(
            choose|t: Seq<PairView>|
                keys_sorted(t) && forall|k: Seq<char>| #[trigger] lookup(t, k) == lookup(ps, k),
        )
    } else {
        None
    }
}

/// Why a text does not read as tags, as written: a line without `=`, or
/// else the first key that comes twice.
pub open spec fn spec_text_tags_error(text: Seq<char>) -> Seq<char> {
    let ls = spec_lines(text);
    if !all_split(ls) {
        "tag must be = separated"@
    } else {
        let ps = split_all(ls);
        "duplicate tag key "@ + ps[choose|j: int| first_dup(ps, j)].0
    }
}

/// Reads tags from text as `Tags::from_str` does, with the error written out.
pub(crate) fn read_tags(text: &str) -> (r: Result<Tags, String>)
    ensures
        match spec_text_tags(text@) {
            Some(t) => r matches Ok(x) && x@ == t,
            None => r matches Err(e) && e@ == spec_text_tags_error(text@),
        },
{
    let ghost ls = spec_lines(text@);
    let ghost ps = split_all(ls);
    match Tags::from_str(text) {
        Ok(tags) => {
            tags.sorted_pairs();
            proof {
                let c = choose|u: Seq<PairView>|
                    keys_sorted(u) && forall|k: Seq<char>| #[trigger] lookup(u, k) == lookup(ps, k);
                assert(keys_sorted(tags@) && forall|k: Seq<char>| #[trigger] lookup(tags@, k) == lookup(ps, k));
                lemma_sorted_lookups_unique(c, tags@);
            }
            Ok(tags)
        },
        Err(e) => {
            let s = e.to_string();
            proof {
                reveal_strlit("tag must be = separated");
                match e {
                    ParseTagsError::MissingEquals(_) => {},
                    ParseTagsError::DuplicateKey(d) => {
                        let j = choose|j: int| first_dup(ps, j) && d.key@ == ps[j].0;
                        let c = choose|j: int| first_dup(ps, j);
                        if c < j {
                            assert(dup_at(ps, c));
                        } else if j < c {
                            assert(dup_at(ps, j));
                        }
                    },
                }
            }
            Err(s)
        },
    }
}

/// Why text could not be read as tags.
#[derive(Debug)]
pub enum ParseTagsError {
    /// A line without `=`.
    MissingEquals(String),
    /// A key given on two lines.
    DuplicateKey(DuplicateKeyError),
}

/// A part of an OSM tag key. A part never holds `:`.
#[derive(Clone, Debug)]
pub struct TagKeyPart {
    part: String,
}

impl View for TagKeyPart {
    type V = Seq<char>;

    closed spec fn view(&self) -> Seq<char> {
        self.part@
    }
}

impl TagKeyPart {
    /// A key part from a string that holds no `:`.
    pub fn from_static(string: &'static str) -> (r: Self)
        requires
            !string@.contains(':'),
        ensures
            r@ == string@,
    {
        TagKeyPart { part: string.to_owned() }
    }

    pub fn as_str(&self) -> (r: &str)
        ensures
            r@ == self@,
    {
        self.part.as_str()
    }
}

/// The key of an OSM tag: `:` separated parts.
#[derive(Clone, Debug)]
pub struct TagKey {
    key: String,
}

impl View for TagKey {
    type V = Seq<char>;

    closed spec fn view(&self) -> Seq<char> {
        self.key@
    }
}

/// Parts joined by `:`.
pub open spec fn join_colon(parts: Seq<Seq<char>>) -> Seq<char>
    decreases parts.len(),
{
    if parts.len() == 0 {
        Seq::empty()
    } else if parts.len() == 1 {
        parts[0]
    } else {
        join_colon(parts.drop_last()) + seq![':'] + parts.last()
    }
}

/// A string cut at every `:`, as `str::split(':')` does.
pub open spec fn split_colon(s: Seq<char>) -> Seq<Seq<char>> {
    split_on(s, ':')
}

impl TagKey {
    /// A key made of the given parts.
    pub fn new(parts: &[TagKeyPart]) -> (r: Self)
        ensures
            r@ == join_colon(parts@.map_values(|p: TagKeyPart| p@)),
    {
        let mut key = String::new();
        let mut i: usize = 0;
        let ghost views = parts@.map_values(|p: TagKeyPart| p@);
        while i < parts.len()
            invariant
                i <= parts@.len(),
                views == parts@.map_values(|p: TagKeyPart| p@),
                key@ == join_colon(views.take(i as int)),
            decreases parts@.len() - i,
        {
            if i > 0 {
                key.append(":");
                proof {
                    reveal_strlit(":");
                }
            }
            key.append(parts[i].as_str());
            proof {
                assert(views.take(i + 1).drop_last() =~= views.take(i as int));
                if i == 0 {
                    assert(key@ =~= join_colon(views.take(1)));
                } else {
                    assert(key@ =~= join_colon(views.take(i + 1)));
                }
            }
            i = i + 1;
        }
        assert(views.take(parts@.len() as int) =~= views);
        TagKey { key }
    }

    /// A key from its `:` separated text.
    pub fn from_ref(string: &str) -> (r: Self)
        ensures
            r@ == string@,
    {
        TagKey { key: string.to_owned() }
    }

    /// The `:` separated text of the key.
    pub fn as_str(&self) -> (r: &str)
        ensures
            r@ == self@,
    {
        self.key.as_str()
    }

    /// The `:` separated text of the key, owned.
    pub fn to_string(&self) -> (r: String)
        ensures
            r@ == self@,
    {
        self.key.clone()
    }

    /// The key with one more part appended, `self:part`.
    pub fn join(&self, part: &str) -> (r: TagKey)
        ensures
            r@ == self@ + seq![':'] + part@,
    {
        let mut key = self.key.clone();
        key.append(":");
        key.append(part);
        proof {
            reveal_strlit(":");
        }
        TagKey { key }
    }

    /// The parts of the key, the text cut at every `:`.
    pub fn parts(&self) -> (r: Vec<TagKeyPart>)
        ensures
            r@.map_values(|p: TagKeyPart| p@) == split_colon(self@),
    {
        let s = chars_of(self.key.as_str());
        let pieces = crate::text::split_chars(s.as_slice(), ':');
        let mut out: Vec<TagKeyPart> = Vec::new();
        let mut i: usize = 0;
        while i < pieces.len()
            invariant
                i <= pieces@.len(),
                s@ == self@,
                pieces@.map_values(|p: Vec<char>| p@) == split_colon(self@),
                out@.len() == i,
                out@.map_values(|p: TagKeyPart| p@) == split_colon(self@).take(i as int),
            decreases pieces@.len() - i,
        {
            let part = crate::text::string_from_chars(pieces[i].as_slice());
            assert(pieces@.map_values(|p: Vec<char>| p@)[i as int] == pieces@[i as int]@);
            let ghost before = out@;
            out.push(TagKeyPart { part });
            assert(out@ == before.push(TagKeyPart { part }));
            assert(out@.map_values(|p: TagKeyPart| p@) =~= split_colon(self@).take(i + 1));
            i = i + 1;
        }
        assert(split_colon(self@).take(pieces@.len() as int) =~= split_colon(self@));
        out
    }
}

/// An OSM tag value.
#[derive(Clone, Debug)]
pub struct TagVal {
    val: String,
}

impl View for TagVal {
    type V = Seq<char>;

    closed spec fn view(&self) -> Seq<char> {
        self.val@
    }
}

impl TagVal {
    pub fn from_str(val: &str) -> (r: Self)
        ensures
            r@ == val@,
    {
        TagVal { val: val.to_owned() }
    }

    pub fn as_str(&self) -> (r: &str)
        ensures
            r@ == self@,
    {
        self.val.as_str()
    }
}

/// A key that was inserted twice.
#[derive(Clone, Debug)]
pub struct DuplicateKeyError {
    pub key: TagKey,
}

/// A duplicate key, as written.
pub open spec fn duplicate_key_text(e: DuplicateKeyError) -> Seq<char> {
    "duplicate tag key "@ + e.key@
}

impl DuplicateKeyError {
    /// The error as written: `duplicate tag key` and the key.
    pub fn to_string(&self) -> (r: String)
        ensures
            r@ == duplicate_key_text(*self),
    {
        let mut out = "duplicate tag key ".to_owned();
        out.append(self.key.as_str());
        out
    }
}

/// A map from string keys to string values, kept sorted by key.
#[derive(Debug)]
pub struct Tags {
    pairs: Vec<(String, String)>,
}

impl View for Tags {
    type V = Seq<PairView>;

    closed spec fn view(&self) -> Seq<PairView> {
        self.pairs@.map_values(|p: (String, String)| (p.0@, p.1@))
    }
}

impl Clone for Tags {
    fn clone(&self) -> (r: Self)
        ensures
            r@ == self@,
    {
        proof {
            use_type_invariant(self);
        }
        let mut pairs: Vec<(String, String)> = Vec::new();
        let mut i: usize = 0;
        while i < self.pairs.len()
            invariant
                i <= self.pairs@.len(),
                pairs@.len() == i,
                self@.len() == self.pairs@.len(),
                pairs@.map_values(|p: (String, String)| (p.0@, p.1@)) == self@.take(i as int),
            decreases self.pairs@.len() - i,
        {
            let k = self.pairs[i].0.clone();
            let v = self.pairs[i].1.clone();
            let ghost before = pairs@;
            pairs.push((k, v));
            assert(self@[i as int] == (self.pairs@[i as int].0@, self.pairs@[i as int].1@));
            assert(pairs@ == before.push((k, v)));
            assert(before.map_values(|p: (String, String)| (p.0@, p.1@)) == self@.take(i as int));
            assert forall|j: int| 0 <= j < i implies #[trigger] pairs@[j] == before[j] by {}
            assert(pairs@.map_values(|p: (String, String)| (p.0@, p.1@)) =~= self@.take(i + 1));
            i = i + 1;
        }
        assert(self@.take(self@.len() as int) =~= self@);
        Tags { pairs }
    }
}

impl Tags {
    #[verifier::type_invariant]
    closed spec fn sorted(&self) -> bool {
        keys_sorted(self@)
    }

    /// The pairs are sorted by key, with no key twice.
    pub fn sorted_pairs(&self)
        ensures
            keys_sorted(self@),
    {
        proof {
            use_type_invariant(self);
        }
    }

    /// No tags.
    pub fn new() -> (r: Self)
        ensures
            r@ == Seq::<PairView>::empty(),
    {
        let r = Tags { pairs: Vec::new() };
        assert(r@ =~= Seq::<PairView>::empty());
        r
    }

    /// Where `key` is, or where it would be inserted.
    fn find(&self, key: &[char]) -> (r: Result<usize, usize>)
        ensures
            match r {
                Ok(i) => key_at(self@, key@, i as int),
                Err(i) => {
                    &&& !has_key(self@, key@)
                    &&& i <= self@.len()
                    &&& forall|j: int| 0 <= j < i ==> seq_lt(#[trigger] self@[j].0, key@)
                    &&& forall|j: int| i <= j < self@.len() ==> seq_lt(key@, #[trigger] self@[j].0)
                },
            },
    {
        proof {
            use_type_invariant(self);
        }
        let mut i: usize = 0;
        while i < self.pairs.len()
            invariant
                i <= self@.len(),
                self@.len() == self.pairs@.len(),
                keys_sorted(self@),
                forall|j: int| 0 <= j < i ==> seq_lt(#[trigger] self@[j].0, key@),
            decreases self@.len() - i,
        {
            let k = chars_of(self.pairs[i].0.as_str());
            assert(k@ == self@[i as int].0);
            match compare_chars(k.as_slice(), key) {
                KeyOrder::Less => {},
                KeyOrder::Equal => {
                    return Ok(i);
                },
                KeyOrder::Greater => {
                    proof {
                        assert forall|j: int| i <= j < self@.len() implies seq_lt(
                            key@,
                            #[trigger] self@[j].0,
                        ) by {
                            if j > i {
                                lemma_seq_lt_transitive(key@, self@[i as int].0, self@[j].0);
                            }
                        }
                        assert forall|j: int| #[trigger] key_at(self@, key@, j) implies false by {
                            lemma_seq_lt_trichotomy(key@, self@[j].0);
                            if j >= i {
                                assert(seq_lt(key@, self@[j].0));
                            } else {
                                assert(seq_lt(self@[j].0, key@));
                            }
                        }
                    }
                    return Err(i);
                },
            }
            i = i + 1;
        }
        proof {
            assert forall|j: int| #[trigger] key_at(self@, key@, j) implies false by {
                lemma_seq_lt_trichotomy(key@, self@[j].0);
                assert(seq_lt(self@[j].0, key@));
            }
        }
        Err(i)
    }

    /// The value under `key`.
    pub fn get(&self, key: &str) -> (r: Option<&str>)
        ensures
            opt_str_view(r) == lookup(self@, key@),
    {
        proof {
            use_type_invariant(self);
        }
        let k = chars_of(key);
        match self.find(k.as_slice()) {
            Ok(i) => {
                proof {
                    lemma_lookup_index(self@, i as int);
                }
                Some(self.pairs[i].1.as_str())
            },
            Err(_) => None,
        }
    }

    /// Whether the tags have value `v` under `key` (false when `key` is absent).
    pub fn is(&self, key: &str, v: &str) -> (r: bool)
        ensures
            r == (lookup(self@, key@) == Some(v@)),
    {
        match self.get(key) {
            Some(x) => crate::text::str_eq(x, v),
            None => false,
        }
    }

    /// Whether the value under `key` is one of `values` (false when `key` is absent).
    pub fn is_any(&self, key: &str, values: &[&str]) -> (r: bool)
        ensures
            r == (exists|i: int|
                0 <= i < values@.len() && lookup(self@, key@) == Some(#[trigger] values@[i]@)),
    {
        match self.get(key) {
            Some(x) => {
                let mut i: usize = 0;
                while i < values.len()
                    invariant
                        i <= values@.len(),
                        lookup(self@, key@) == Some(x@),
                        forall|j: int| 0 <= j < i ==> values@[j]@ != x@,
                    decreases values@.len() - i,
                {
                    if crate::text::str_eq(values[i], x) {
                        return true;
                    }
                    i = i + 1;
                }
                false
            },
            None => false,
        }
    }

    /// Whether there are no tags.
    pub fn is_empty(&self) -> (r: bool)
        ensures
            r == (self@.len() == 0),
    {
        self.pairs.len() == 0
    }

    /// Inserts `key=val`, refusing a key that is already present: that key
    /// is then removed, and the error names it.
    pub fn checked_insert(&mut self, key: &str, val: &str) -> (r: Result<(), DuplicateKeyError>)
        ensures
            r is Err <==> has_key(old(self)@, key@),
            r matches Err(e) ==> e.key@ == key@,
            r is Err ==> final(self)@.len() == old(self)@.len() - 1,
            r is Err ==> forall|k: Seq<char>|
                #![trigger lookup(final(self)@, k)]
                lookup(final(self)@, k) == if k == key@ {
                    None
                } else {
                    lookup(old(self)@, k)
                },
            r is Ok ==> final(self)@.len() == old(self)@.len() + 1,
            r is Ok ==> forall|k: Seq<char>|
                #![trigger lookup(final(self)@, k)]
                lookup(final(self)@, k) == if k == key@ {
                    Some(val@)
                } else {
                    lookup(old(self)@, k)
                },
            keys_sorted(final(self)@),
    {
        proof {
            use_type_invariant(&*self);
        }
        let k = chars_of(key);
        match self.find(k.as_slice()) {
            Ok(i) => {
                let ghost old_view = self@;
                let mut pairs: Vec<(String, String)> = Vec::new();
                std::mem::swap(&mut pairs, &mut self.pairs);
                assert(pairs@.map_values(|p: (String, String)| (p.0@, p.1@)) == old_view);
                pairs.remove(i);
                let ghost new_view = pairs@.map_values(|p: (String, String)| (p.0@, p.1@));
                proof {
                    assert(new_view =~= old_view.remove(i as int));
                    assert(keys_sorted(new_view)) by {
                        assert forall|a: int, b: int| 0 <= a < b < new_view.len() implies seq_lt(
                            #[trigger] new_view[a].0,
                            #[trigger] new_view[b].0,
                        ) by {
                            if b < i {
                            } else if a < i {
                                assert(new_view[b] == old_view[b + 1]);
                            } else {
                                assert(new_view[a] == old_view[a + 1]);
                                assert(new_view[b] == old_view[b + 1]);
                            }
                        }
                    }
                    assert forall|q: Seq<char>| #[trigger]
                        lookup(new_view, q) == if q == key@ {
                            None
                        } else {
                            lookup(old_view, q)
                        } by {
                        if has_key(new_view, q) {
                            let j = choose|j: int| #[trigger] key_at(new_view, q, j);
                            lemma_lookup_index(new_view, j);
                            let oj = if j < i { j } else { j + 1 };
                            assert(new_view[j] == old_view[oj]);
                            lemma_lookup_index(old_view, oj);
                            lemma_lookup_index(old_view, i as int);
                            if q == key@ {
                                if oj < i {
                                    assert(seq_lt(old_view[oj].0, old_view[i as int].0));
                                } else {
                                    assert(seq_lt(old_view[i as int].0, old_view[oj].0));
                                }
                                lemma_seq_lt_trichotomy(q, q);
                            }
                        } else if q != key@ && has_key(old_view, q) {
                            let j = choose|j: int| #[trigger] key_at(old_view, q, j);
                            assert(j != i);
                            if j < i {
                                assert(key_at(new_view, q, j));
                            } else {
                                assert(key_at(new_view, q, j - 1));
                            }
                        }
                    }
                }
                self.pairs = pairs;
                Err(DuplicateKeyError { key: TagKey::from_ref(key) })
            },
            Err(i) => {
                let ghost old_view = self@;
                let mut pairs: Vec<(String, String)> = Vec::new();
                std::mem::swap(&mut pairs, &mut self.pairs);
                assert(pairs@.map_values(|p: (String, String)| (p.0@, p.1@)) == old_view);
                pairs.insert(i, (key.to_owned(), val.to_owned()));
                let ghost new_view = pairs@.map_values(|p: (String, String)| (p.0@, p.1@));
                proof {
                    assert(new_view =~= old_view.insert(i as int, (key@, val@)));
                    assert(keys_sorted(new_view)) by {
                        assert forall|a: int, b: int| 0 <= a < b < new_view.len() implies seq_lt(
                            #[trigger] new_view[a].0,
                            #[trigger] new_view[b].0,
                        ) by {
                            if b < i {
                            } else if b == i {
                            } else if a < i {
                                lemma_seq_lt_transitive(new_view[a].0, key@, new_view[b].0);
                            } else if a == i {
                            } else {
                                assert(new_view[a] == old_view[a - 1]);
                                assert(new_view[b] == old_view[b - 1]);
                            }
                        }
                    }
                    assert forall|q: Seq<char>| #[trigger]
                        lookup(new_view, q) == if q == key@ {
                            Some(val@)
                        } else {
                            lookup(old_view, q)
                        } by {
                        if q == key@ {
                            lemma_lookup_index(new_view, i as int);
                        } else if has_key(old_view, q) {
                            let j = choose|j: int| #[trigger] key_at(old_view, q, j);
                            lemma_lookup_index(old_view, j);
                            if j < i {
                                assert(new_view[j] == old_view[j]);
                                lemma_lookup_index(new_view, j);
                            } else {
                                assert(new_view[j + 1] == old_view[j]);
                                lemma_lookup_index(new_view, j + 1);
                            }
                        } else {
                            assert forall|j: int| #[trigger] key_at(new_view, q, j) implies false by {
                                if j < i {
                                    assert(key_at(old_view, q, j));
                                } else if j > i {
                                    assert(key_at(old_view, q, j - 1));
                                }
                            }
                        }
                    }
                }
                self.pairs = pairs;
                Ok(())
            },
        }
    }

    /// Tags holding one pair.
    pub fn from_pair(key: &str, val: &str) -> (r: Self)
        ensures
            r@ == seq![(key@, val@)],
            tags_map(r@) == map![key@ => val@],
    {
        let mut pairs: Vec<(String, String)> = Vec::new();
        pairs.push((key.to_owned(), val.to_owned()));
        let r = Tags { pairs };
        assert(r@ =~= seq![(key@, val@)]);
        assert(tags_map(r@) =~= map![key@ => val@]) by {
            assert(key_at(r@, key@, 0));
            assert forall|k: Seq<char>| #![auto] lookup(r@, k) == if k == key@ {
                Some(val@)
            } else {
                None
            } by {
                if has_key(r@, k) {
                    let j = choose|j: int| #[trigger] key_at(r@, k, j);
                    assert(j == 0);
                }
            }
        }
        r
    }

    /// Tags from owned pairs, refusing a key given twice.
    fn from_owned_pairs(pairs: Vec<(String, String)>) -> (r: Result<Self, DuplicateKeyError>)
        ensures
            ({
                let input = pairs@.map_values(|p: (String, String)| (p.0@, p.1@));
                &&& r is Ok <==> distinct_keys(input)
                &&& r matches Err(e) ==> exists|j: int| first_dup(input, j) && e.key@ == input[j].0
                &&& r matches Ok(t) ==> t@.len() == input.len() && forall|k: Seq<char>|
                    #![trigger lookup(t@, k)]
                    lookup(t@, k) == lookup(input, k)
            }),
    {
        let ghost input = pairs@.map_values(|p: (String, String)| (p.0@, p.1@));
        let mut tags = Tags::new();
        let mut i: usize = 0;
        while i < pairs.len()
            invariant
                i <= pairs@.len(),
                input == pairs@.map_values(|p: (String, String)| (p.0@, p.1@)),
                tags@.len() == i,
                distinct_keys(input.take(i as int)),
                forall|k: Seq<char>| #![trigger lookup(tags@, k)]
                    lookup(tags@, k) == lookup(input.take(i as int), k),
            decreases pairs@.len() - i,
        {
            let ghost before = tags@;
            assert(forall|k: Seq<char>| #![trigger lookup(before, k)]
                lookup(before, k) == lookup(input.take(i as int), k));
            assert(input[i as int] == (pairs@[i as int].0@, pairs@[i as int].1@));
            assert(input.take(i + 1) == input.take(i as int).push(input[i as int]));
            match tags.checked_insert(pairs[i].0.as_str(), pairs[i].1.as_str()) {
                Err(e) => {
                    proof {
                        let k = input[i as int].0;
                        assert(lookup(before, k) is Some);
                        assert(has_key(input.take(i as int), k));
                        let m = choose|m: int| #[trigger] key_at(input.take(i as int), k, m);
                        assert(input[m].0 == input[i as int].0);
                        assert(dup_at(input, i as int));
                        assert forall|q: int| 0 <= q < i implies !#[trigger] dup_at(input, q) by {
                            if dup_at(input, q) {
                                let a = choose|a: int| 0 <= a < q && #[trigger] input[a].0 == input[q].0;
                                assert(input.take(i as int)[a].0 == input.take(i as int)[q].0);
                            }
                        }
                        assert(first_dup(input, i as int));
                        assert(!distinct_keys(input)) by {
                            assert(input[m].0 == input[i as int].0);
                        }
                    }
                    return Err(e);
                },
                Ok(()) => {
                    proof {
                        let k = input[i as int].0;
                        assert(lookup(before, k) is None);
                        assert(!has_key(input.take(i as int), k)) by {
                            if has_key(input.take(i as int), k) {
                                let m = choose|m: int| #[trigger] key_at(input.take(i as int), k, m);
                                assert(lookup(input.take(i as int), k) is Some);
                            }
                        }
                        assert(distinct_keys(input.take(i + 1))) by {
                            assert forall|a: int, b: int| 0 <= a < b < i + 1 implies #[trigger] input.take(
                                i + 1,
                            )[a].0 != #[trigger] input.take(i + 1)[b].0 by {
                                if b == i {
                                    assert(!key_at(input.take(i as int), k, a));
                                } else {
                                    assert(input.take(i as int)[a] == input.take(i + 1)[a]);
                                    assert(input.take(i as int)[b] == input.take(i + 1)[b]);
                                }
                            }
                        }
                        assert forall|q: Seq<char>| #![trigger lookup(tags@, q)]
                            lookup(tags@, q) == lookup(input.take(i + 1), q) by {
                            lemma_lookup_push(input.take(i as int), input[i as int], q);
                        }
                    }
                },
            }
            i = i + 1;
        }
        assert(input.take(pairs@.len() as int) =~= input);
        Ok(tags)
    }

    /// Tags from a list of pairs, refusing a key given twice; the error names
    /// the first key that repeats an earlier one.
    pub fn from_pairs(pairs: &[(&str, &str)]) -> (r: Result<Self, DuplicateKeyError>)
        ensures
            ({
                let input = str_pairs_view(pairs@);
                &&& r is Ok <==> distinct_keys(input)
                &&& r matches Err(e) ==> exists|j: int| first_dup(input, j) && e.key@ == input[j].0
                &&& r matches Ok(t) ==> t@.len() == input.len() && forall|k: Seq<char>|
                    #![trigger lookup(t@, k)]
                    lookup(t@, k) == lookup(input, k)
            }),
    {
        let mut owned: Vec<(String, String)> = Vec::new();
        let mut i: usize = 0;
        while i < pairs.len()
            invariant
                i <= pairs@.len(),
                owned@.len() == i,
                owned@.map_values(|p: (String, String)| (p.0@, p.1@)) == str_pairs_view(pairs@).take(
                    i as int,
                ),
            decreases pairs@.len() - i,
        {
            let ghost before = owned@;
            owned.push((pairs[i].0.to_owned(), pairs[i].1.to_owned()));
            assert(owned@ == before.push(owned@[i as int]));
            assert(owned@.map_values(|p: (String, String)| (p.0@, p.1@)) =~= str_pairs_view(
                pairs@,
            ).take(i + 1));
            i = i + 1;
        }
        assert(str_pairs_view(pairs@).take(pairs@.len() as int) =~= str_pairs_view(pairs@));
        Self::from_owned_pairs(owned)
    }

    /// The tags whose key is one of `keys`.
    pub fn subset(&self, keys: &[&str]) -> (r: Self)
        ensures
            tags_map(r@) == tags_map(self@).restrict(str_set(keys@)),
            forall|k: Seq<char>|
                #![trigger lookup(r@, k)]
                lookup(r@, k) == if exists|i: int| 0 <= i < keys@.len() && #[trigger] keys@[i]@ == k {
                    lookup(self@, k)
                } else {
                    None
                },
    {
        let mut out = Tags::new();
        let mut i: usize = 0;
        while i < keys.len()
            invariant
                i <= keys@.len(),
                forall|k: Seq<char>|
                    #![trigger lookup(out@, k)]
                    lookup(out@, k) == if exists|m: int| 0 <= m < i && #[trigger] keys@[m]@ == k {
                        lookup(self@, k)
                    } else {
                        None
                    },
            decreases keys@.len() - i,
        {
            let ghost before = out@;
            if let Some(v) = self.get(keys[i]) {
                if out.get(keys[i]).is_none() {
                    let _ = out.checked_insert(keys[i], v);
                }
            }
            proof {
                assert forall|k: Seq<char>| #![trigger lookup(out@, k)]
                    lookup(out@, k) == if exists|m: int| 0 <= m < i + 1 && #[trigger] keys@[m]@ == k {
                        lookup(self@, k)
                    } else {
                        None
                    } by {
                    if k == keys@[i as int]@ {
                        assert(0 <= i < i + 1 && keys@[i as int]@ == k);
                        if lookup(before, k) is Some {
                            assert(exists|m: int| 0 <= m < i && #[trigger] keys@[m]@ == k);
                        }
                    } else {
                        if exists|m: int| 0 <= m < i + 1 && #[trigger] keys@[m]@ == k {
                            let m = choose|m: int| 0 <= m < i + 1 && #[trigger] keys@[m]@ == k;
                            assert(m < i);
                        }
                    }
                }
            }
            i = i + 1;
        }
        assert(tags_map(out@) =~= tags_map(self@).restrict(str_set(keys@))) by {
            assert forall|k: Seq<char>| #![auto] tags_map(out@).dom().contains(k) <==> tags_map(self@).restrict(str_set(keys@)).dom().contains(k) by {
                assert(lookup(out@, k) == lookup(out@, k));
            }
            assert forall|k: Seq<char>| #![auto] tags_map(out@).dom().contains(k) implies tags_map(out@)[k] == tags_map(self@).restrict(str_set(keys@))[k] by {
                assert(lookup(out@, k) == lookup(out@, k));
            }
        }
        out
    }

    /// The tags whose key is one of `keys`.
    pub fn subset_keys(&self, keys: &Vec<TagKey>) -> (r: Self)
        ensures
            tags_map(r@) == tags_map(self@).restrict(key_set(keys@)),
    {
        let mut strs: Vec<&str> = Vec::new();
        let mut i: usize = 0;
        while i < keys.len()
            invariant
                i <= keys@.len(),
                strs@.len() == i,
                forall|j: int| 0 <= j < i ==> #[trigger] strs@[j]@ == keys@[j]@,
            decreases keys@.len() - i,
        {
            strs.push(keys[i].as_str());
            i = i + 1;
        }
        assert(str_set(strs@) =~= key_set(keys@)) by {
            assert forall|k: Seq<char>| str_set(strs@).contains(k) implies key_set(keys@).contains(k) by {
                let j = choose|j: int| 0 <= j < strs@.len() && #[trigger] strs@[j]@ == k;
                assert(keys@[j]@ == k);
            }
            assert forall|k: Seq<char>| key_set(keys@).contains(k) implies str_set(strs@).contains(k) by {
                let j = choose|j: int| 0 <= j < keys@.len() && #[trigger] keys@[j]@ == k;
                assert(strs@[j]@ == k);
            }
        }
        self.subset(strs.as_slice())
    }

    /// The pairs in key order.
    pub fn to_str_pairs(&self) -> (r: Vec<(&str, &str)>)
        ensures
            str_pairs_view(r@) == self@,
    {
        let mut out: Vec<(&str, &str)> = Vec::new();
        let mut i: usize = 0;
        while i < self.pairs.len()
            invariant
                i <= self.pairs@.len(),
                self@.len() == self.pairs@.len(),
                out@.len() == i,
                str_pairs_view(out@) == self@.take(i as int),
            decreases self.pairs@.len() - i,
        {
            let ghost before = out@;
            out.push((self.pairs[i].0.as_str(), self.pairs[i].1.as_str()));
            assert(self@[i as int] == (self.pairs@[i as int].0@, self.pairs@[i as int].1@));
            assert(out@ == before.push(out@[i as int]));
            assert(str_pairs_view(out@) =~= self@.take(i + 1));
            i = i + 1;
        }
        assert(self@.take(self@.len() as int) =~= self@);
        out
    }

    /// Each pair written `key=value`, in key order.
    pub fn to_vec(&self) -> (r: Vec<String>)
        ensures
            r@.len() == self@.len(),
            forall|i: int| 0 <= i < r@.len() ==> #[trigger] r@[i]@ == pair_line(self@[i]),
    {
        let mut out: Vec<String> = Vec::new();
        let mut i: usize = 0;
        while i < self.pairs.len()
            invariant
                i <= self.pairs@.len(),
                self@.len() == self.pairs@.len(),
                out@.len() == i,
                forall|j: int| 0 <= j < i ==> #[trigger] out@[j]@ == pair_line(self@[j]),
            decreases self.pairs@.len() - i,
        {
            let mut line = self.pairs[i].0.clone();
            line.append("=");
            line.append(self.pairs[i].1.as_str());
            proof {
                reveal_strlit("=");
                assert(self@[i as int] == (self.pairs@[i as int].0@, self.pairs@[i as int].1@));
                assert(line@ =~= pair_line(self@[i as int]));
            }
            out.push(line);
            i = i + 1;
        }
        out
    }

    /// The pairs written `key=value`, one per line, in key order.
    pub fn to_string(&self) -> (r: String)
        ensures
            r@ == join_with(self@.map_values(|p: PairView| pair_line(p)), '\n'),
    {
        let lines = self.to_vec();
        let ghost parts = self@.map_values(|p: PairView| pair_line(p));
        let mut out = String::new();
        let mut i: usize = 0;
        while i < lines.len()
            invariant
                i <= lines@.len(),
                lines@.len() == parts.len(),
                forall|j: int| 0 <= j < lines@.len() ==> #[trigger] lines@[j]@ == parts[j],
                out@ == join_with(parts.take(i as int), '\n'),
            decreases lines@.len() - i,
        {
            if i > 0 {
                out.append("\n");
            }
            out.append(lines[i].as_str());
            proof {
                reveal_strlit("\n");
                assert(parts.take(i + 1).drop_last() =~= parts.take(i as int));
                if i == 0 {
                    assert(out@ =~= join_with(parts.take(1), '\n'));
                } else {
                    assert(out@ =~= join_with(parts.take(i + 1), '\n'));
                }
            }
            i = i + 1;
        }
        assert(parts.take(lines@.len() as int) =~= parts);
        out
    }

    /// Whether some key is `stem` or lies below it, `stem:*`, as a tree of
    /// keys holds it.
    pub fn has_tree(&self, stem: &str) -> (r: bool)
        ensures
            r == spec_has_tree(self@, stem@),
    {
        let st = chars_of(stem);
        let mut st_colon = chars_of(stem);
        st_colon.push(':');
        assert(st_colon@ == stem@ + seq![':']);
        let mut i: usize = 0;
        while i < self.pairs.len()
            invariant
                i <= self.pairs@.len(),
                self@.len() == self.pairs@.len(),
                st@ == stem@,
                st_colon@ == stem@ + seq![':'],
                forall|j: int|
                    0 <= j < i ==> !(#[trigger] self@[j].0 == stem@ || is_prefix(
                        stem@ + seq![':'],
                        self@[j].0,
                    )),
            decreases self.pairs@.len() - i,
        {
            let k = chars_of(self.pairs[i].0.as_str());
            assert(self@[i as int] == (self.pairs@[i as int].0@, self.pairs@[i as int].1@));
            if crate::text::chars_eq(k.as_slice(), st.as_slice()) || crate::text::starts_with(
                k.as_slice(),
                st_colon.as_slice(),
            ) {
                assert(self@[i as int].0 == stem@ || is_prefix(stem@ + seq![':'], self@[i as int].0));
                return true;
            }
            i = i + 1;
        }
        false
    }

    /// The pairs whose key starts with `stem`, in key order.
    pub fn pairs_with_stem(&self, stem: &str) -> (r: Vec<(&str, &str)>)
        ensures
            str_pairs_view(r@) == self@.filter(|p: PairView| is_prefix(stem@, p.0)),
    {
        let st = chars_of(stem);
        let mut out: Vec<(&str, &str)> = Vec::new();
        let mut i: usize = 0;
        while i < self.pairs.len()
            invariant
                i <= self.pairs@.len(),
                self@.len() == self.pairs@.len(),
                st@ == stem@,
                str_pairs_view(out@) == self@.take(i as int).filter(
                    |p: PairView| is_prefix(stem@, p.0),
                ),
            decreases self.pairs@.len() - i,
        {
            let k = chars_of(self.pairs[i].0.as_str());
            assert(self@[i as int] == (self.pairs@[i as int].0@, self.pairs@[i as int].1@));
            let hit = crate::text::starts_with(k.as_slice(), st.as_slice());
            let ghost before = out@;
            if hit {
                out.push((self.pairs[i].0.as_str(), self.pairs[i].1.as_str()));
                assert(out@ == before.push(out@[out@.len() - 1]));
            }
            proof {
                reveal_with_fuel(Seq::<_>::filter, 1);
                assert(self@.take(i + 1).drop_last() =~= self@.take(i as int));
                assert(str_pairs_view(out@) =~= self@.take(i + 1).filter(
                    |p: PairView| is_prefix(stem@, p.0),
                ));
            }
            i = i + 1;
        }
        assert(self@.take(self@.len() as int) =~= self@);
        out
    }

    /// Parses `=` separated tag pairs from a newline separated list.
    pub fn from_str(s: &str) -> (r: Result<Self, ParseTagsError>)
        ensures
            ({
                let ls = spec_lines(s@);
                &&& (r is Err && r->Err_0 is MissingEquals) <==> !all_split(ls)
                &&& r matches Err(ParseTagsError::MissingEquals(l)) ==> exists|j: int|
                    first_unsplit(ls, j) && l@ == ls[j]
                &&& all_split(ls) ==> {
                    let ps = split_all(ls);
                    &&& r is Ok <==> distinct_keys(ps)
                    &&& r matches Err(ParseTagsError::DuplicateKey(e)) ==> exists|j: int|
                        first_dup(ps, j) && e.key@ == ps[j].0
                    &&& r matches Ok(t) ==> t@.len() == ps.len() && forall|k: Seq<char>|
                        #![trigger lookup(t@, k)]
                        lookup(t@, k) == lookup(ps, k)
                }
            }),
    {
        let lines = split_lines(s);
        let ghost ls = spec_lines(s@);
        let mut pairs: Vec<(String, String)> = Vec::new();
        let mut i: usize = 0;
        while i < lines.len()
            invariant
                i <= lines@.len(),
                ls == spec_lines(s@),
                lines@.len() == ls.len(),
                forall|j: int| 0 <= j < lines@.len() ==> #[trigger] lines@[j]@ == ls[j],
                forall|j: int| 0 <= j < i ==> #[trigger] split_once_eq(ls[j]) is Some,
                pairs@.len() == i,
                pairs@.map_values(|p: (String, String)| (p.0@, p.1@)) == split_all(ls.take(i as int)),
            decreases lines@.len() - i,
        {
            let line = &lines[i];
            let mut k: usize = 0;
            while k < line.len() && line[k] != '='
                invariant
                    k <= line@.len(),
                    forall|j: int| 0 <= j < k ==> line@[j] != '=',
                decreases line@.len() - k,
            {
                k = k + 1;
            }
            if k == line.len() {
                proof {
                    lemma_split_once_at_none(line@, '=');
                    assert(lines@[i as int]@ == ls[i as int]);
                    assert(first_unsplit(ls, i as int));
                    assert(!all_split(ls));
                }
                let msg = crate::text::string_from_chars(line.as_slice());
                assert(msg@ == ls[i as int]);
                assert(first_unsplit(ls, i as int) && msg@ == ls[i as int]);
                return Err(ParseTagsError::MissingEquals(msg));
            }
            proof {
                lemma_split_once_at(line@, '=', k as int);
            }
            let key = crate::text::string_from_chars(&line.as_slice()[0..k]);
            let val = crate::text::string_from_chars(&line.as_slice()[k + 1..line.len()]);
            let ghost before = pairs@;
            pairs.push((key, val));
            proof {
                assert(line@.subrange(0, k as int) =~= line@.take(k as int));
                assert(line@.subrange(k + 1, line@.len() as int) =~= line@.skip(k + 1));
                assert(pairs@ == before.push((key, val)));
                assert(lines@[i as int]@ == ls[i as int]);
                assert(split_once_eq(ls[i as int]).unwrap() == (key@, val@));
                assert(ls.take(i + 1) =~= ls.take(i as int).push(ls[i as int]));
                let pv = pairs@.map_values(|p: (String, String)| (p.0@, p.1@));
                let sv = split_all(ls.take(i + 1));
                assert(pv.len() == sv.len());
                assert forall|j: int| 0 <= j < pv.len() implies pv[j] == sv[j] by {
                    if j < i {
                        assert(pairs@[j] == before[j]);
                        assert(split_all(ls.take(i as int))[j] == sv[j]);
                    }
                }
                assert(pairs@.map_values(|p: (String, String)| (p.0@, p.1@)) =~= split_all(
                    ls.take(i + 1),
                ));
            }
            i = i + 1;
        }
        assert(ls.take(lines@.len() as int) =~= ls);
        match Self::from_owned_pairs(pairs) {
            Ok(t) => Ok(t),
            Err(e) => Err(ParseTagsError::DuplicateKey(e)),
        }
    }
}

/// The lines of `s`, as `str::lines` gives them.
pub fn split_lines(s: &str) -> (r: Vec<Vec<char>>)
    ensures
        r@.len() == spec_lines(s@).len(),
        forall|j: int| 0 <= j < r@.len() ==> #[trigger] r@[j]@ == spec_lines(s@)[j],
{
    let cs = chars_of(s);
    let mut out: Vec<Vec<char>> = Vec::new();
    let mut cur: Vec<char> = Vec::new();
    let mut i: usize = 0;
    assert(cs@.skip(0) =~= cs@);
    while i < cs.len()
        invariant
            i <= cs@.len(),
            cs@ == s@,
            out@.map_values(|l: Vec<char>| l@) + lines_from(cs@.skip(i as int), cur@) == spec_lines(s@),
        decreases cs@.len() - i,
    {
        assert(cs@.skip(i as int).drop_first() =~= cs@.skip(i + 1));
        let ghost before = out@.map_values(|l: Vec<char>| l@);
        if cs[i] == '\n' {
            let ghost c0 = cur@;
            if cur.len() > 0 && cur[cur.len() - 1] == '\r' {
                cur.pop();
            }
            assert(cur@ =~= strip_cr(c0));
            let done = cur;
            cur = Vec::new();
            out.push(done);
            assert(out@.map_values(|l: Vec<char>| l@) =~= before.push(strip_cr(c0)));
            assert(out@.map_values(|l: Vec<char>| l@) + lines_from(cs@.skip(i + 1), cur@) =~= before
                + lines_from(cs@.skip(i as int), c0));
        } else {
            cur.push(cs[i]);
        }
        i = i + 1;
    }
    assert(cs@.skip(cs@.len() as int) =~= Seq::<char>::empty());
    if cur.len() > 0 {
        let ghost before = out@.map_values(|l: Vec<char>| l@);
        out.push(cur);
        assert(out@.map_values(|l: Vec<char>| l@) =~= before.push(out@[out@.len() - 1]@));
    } else {
        assert(out@.map_values(|l: Vec<char>| l@) + Seq::<Seq<char>>::empty() =~= out@.map_values(
            |l: Vec<char>| l@,
        ));
    }
    out
}


impl ParseTagsError {
    /// The error as written.
    pub fn to_string(&self) -> (r: String)
        ensures
            r@ == match self {
                ParseTagsError::MissingEquals(_) => "tag must be = separated"@,
                ParseTagsError::DuplicateKey(e) => duplicate_key_text(*e),
            },
    {
        match self {
            ParseTagsError::MissingEquals(_) => "tag must be = separated".to_owned(),
            ParseTagsError::DuplicateKey(e) => e.to_string(),
        }
    }
}


/// Reading a segment without line ending adds it to the current line.
proof fn lemma_lines_segment(l: Seq<char>, rest: Seq<char>, cur: Seq<char>)
    requires
        forall|i: int| 0 <= i < l.len() ==> #[trigger] l[i] != '\n',
    ensures
        lines_from(l + rest, cur) == lines_from(rest, cur + l),
    decreases l.len(),
{
    if l.len() == 0 {
        assert(l + rest =~= rest);
        assert(cur + l =~= cur);
    } else {
        let s = l + rest;
        assert(s[0] == l[0]);
        assert(s.drop_first() =~= l.drop_first() + rest);
        lemma_lines_segment(l.drop_first(), rest, cur.push(l[0]));
        assert(cur.push(l[0]) + l.drop_first() =~= cur + l);
    }
}

/// Parts joined by `sep`: the first part, then `sep` and the others joined.
proof fn lemma_join_front(parts: Seq<Seq<char>>, sep: char)
    requires
        parts.len() >= 2,
    ensures
        join_with(parts, sep) == parts[0] + seq![sep] + join_with(parts.drop_first(), sep),
    decreases parts.len(),
{
    let dl = parts.drop_last();
    let df = parts.drop_first();
    assert(dl[0] == parts[0]);
    assert(df.last() == parts.last());
    if parts.len() == 2 {
        assert(dl.len() == 1);
        assert(df.len() == 1);
        assert(join_with(dl, sep) == parts[0]);
        assert(join_with(df, sep) == parts[1]);
    } else {
        lemma_join_front(dl, sep);
        assert(dl.drop_first() =~= df.drop_last());
        assert(join_with(df, sep) == join_with(df.drop_last(), sep) + seq![sep] + df.last());
        assert(join_with(parts, sep) == join_with(dl, sep) + seq![sep] + parts.last());
        assert(join_with(parts, sep) =~= parts[0] + seq![sep] + join_with(df, sep));
    }
}

/// A line that can stand in the text of tags: not empty, without line
/// ending, and not ending in a carriage return.
pub open spec fn plain_line(l: Seq<char>) -> bool {
    &&& l.len() > 0
    &&& forall|i: int| 0 <= i < l.len() ==> #[trigger] l[i] != '\n'
    &&& l.last() != '\r'
}

/// Plain lines joined by line endings are read back as the same lines.
proof fn lemma_lines_of_joined(parts: Seq<Seq<char>>)
    requires
        forall|j: int| 0 <= j < parts.len() ==> plain_line(#[trigger] parts[j]),
    ensures
        spec_lines(join_with(parts, '\n')) == parts,
    decreases parts.len(),
{
    let empty = Seq::<char>::empty();
    if parts.len() == 0 {
    } else if parts.len() == 1 {
        let p = parts[0];
        assert(plain_line(p));
        assert(p + empty =~= p);
        lemma_lines_segment(p, empty, empty);
        assert(empty + p =~= p);
        assert(seq![p] =~= parts);
    } else {
        let p = parts[0];
        assert(plain_line(p));
        let rest = join_with(parts.drop_first(), '\n');
        lemma_join_front(parts, '\n');
        assert(p + seq!['\n'] + rest =~= p + (seq!['\n'] + rest));
        lemma_lines_segment(p, seq!['\n'] + rest, empty);
        assert(empty + p =~= p);
        assert((seq!['\n'] + rest).drop_first() =~= rest);
        assert forall|j: int| 0 <= j < parts.drop_first().len() implies plain_line(
            #[trigger] parts.drop_first()[j],
        ) by {
            assert(parts.drop_first()[j] == parts[j + 1]);
        }
        lemma_lines_of_joined(parts.drop_first());
        assert(strip_cr(p) == p);
        assert(seq![p] + parts.drop_first() =~= parts);
    }
}

/// A pair that can stand in the text of tags: a key without `=` and without
/// line ending, and a value without line ending that does not end in a
/// carriage return.
pub open spec fn plain_pair(p: PairView) -> bool {
    &&& forall|i: int| 0 <= i < p.0.len() ==> #[trigger] p.0[i] != '=' && p.0[i] != '\n'
    &&& forall|i: int| 0 <= i < p.1.len() ==> #[trigger] p.1[i] != '\n'
    &&& p.1.len() > 0 ==> p.1.last() != '\r'
}

/// Tags written one `key=value` per line, as `Tags::to_string` writes them,
/// are read back by `Tags::from_str` as the same pairs: every line splits at
/// the `=` after the key, and no key repeats.
pub proof fn lemma_tags_text_reads_back(t: Seq<PairView>)
    requires
        keys_sorted(t),
        forall|j: int| 0 <= j < t.len() ==> plain_pair(#[trigger] t[j]),
    ensures
        all_split(spec_lines(join_with(t.map_values(|p: PairView| pair_line(p)), '\n'))),
        split_all(spec_lines(join_with(t.map_values(|p: PairView| pair_line(p)), '\n'))) == t,
        distinct_keys(split_all(spec_lines(join_with(t.map_values(|p: PairView| pair_line(p)), '\n')))),
{
    lemma_sorted_distinct(t);
    let parts = t.map_values(|p: PairView| pair_line(p));
    assert forall|j: int| 0 <= j < parts.len() implies plain_line(#[trigger] parts[j]) by {
        let p = t[j];
        assert(plain_pair(p));
        let l = pair_line(p);
        assert(parts[j] == l);
        assert(l =~= p.0 + seq!['='] + p.1);
        assert forall|i: int| 0 <= i < l.len() implies #[trigger] l[i] != '\n' by {
            if i < p.0.len() {
                assert(l[i] == p.0[i]);
            } else if i > p.0.len() {
                assert(l[i] == p.1[i - p.0.len() - 1]);
            }
        }
        if p.1.len() > 0 {
            assert(l.last() == p.1.last());
        }
    }
    lemma_lines_of_joined(parts);
    assert forall|j: int| 0 <= j < parts.len() implies #[trigger] split_once_eq(parts[j]) == Some(t[j]) by {
        let p = t[j];
        assert(plain_pair(p));
        let l = pair_line(p);
        assert(parts[j] == l);
        assert(l[p.0.len() as int] == '=');
        assert forall|i: int| 0 <= i < p.0.len() implies l[i] != '=' by {
            assert(l[i] == p.0[i]);
        }
        lemma_split_once_at(l, '=', p.0.len() as int);
        assert(l.take(p.0.len() as int) =~= p.0);
        assert(l.skip(p.0.len() as int + 1) =~= p.1);
    }
    assert(split_all(parts) =~= t);
}


/// Reading a piece without separator adds it to the current piece.
proof fn lemma_split_segment(l: Seq<char>, rest: Seq<char>, sep: char, cur: Seq<char>)
    requires
        forall|i: int| 0 <= i < l.len() ==> #[trigger] l[i] != sep,
    ensures
        split_from(l + rest, sep, cur) == split_from(rest, sep, cur + l),
    decreases l.len(),
{
    if l.len() == 0 {
        assert(l + rest =~= rest);
        assert(cur + l =~= cur);
    } else {
        let s = l + rest;
        assert(s[0] == l[0]);
        assert(s.drop_first() =~= l.drop_first() + rest);
        lemma_split_segment(l.drop_first(), rest, sep, cur.push(l[0]));
        assert(cur.push(l[0]) + l.drop_first() =~= cur + l);
    }
}

/// Parts joined by `:` are the parts joined with `:` as separator.
proof fn lemma_join_colon(parts: Seq<Seq<char>>)
    ensures
        join_colon(parts) == join_with(parts, ':'),
    decreases parts.len(),
{
    if parts.len() > 1 {
        lemma_join_colon(parts.drop_last());
    }
}

/// The parts of a key made of parts, none holding `:`, are those parts:
/// `TagKey::parts` gives back what `TagKey::new` was given.
pub proof fn lemma_key_parts(parts: Seq<Seq<char>>)
    requires
        parts.len() >= 1,
        forall|j: int, i: int| 0 <= j < parts.len() && 0 <= i < parts[j].len() ==> #[trigger] parts[j][i]
            != ':',
    ensures
        split_colon(join_colon(parts)) == parts,
    decreases parts.len(),
{
    let empty = Seq::<char>::empty();
    lemma_join_colon(parts);
    let p = parts[0];
    assert forall|i: int| 0 <= i < p.len() implies #[trigger] p[i] != ':' by {
        assert(parts[0][i] != ':');
    }
    if parts.len() == 1 {
        assert(p + empty =~= p);
        lemma_split_segment(p, empty, ':', empty);
        assert(empty + p =~= p);
        assert(seq![p] =~= parts);
    } else {
        let df = parts.drop_first();
        lemma_join_front(parts, ':');
        lemma_join_colon(df);
        let rest = join_with(df, ':');
        assert(p + seq![':'] + rest =~= p + (seq![':'] + rest));
        lemma_split_segment(p, seq![':'] + rest, ':', empty);
        assert(empty + p =~= p);
        assert((seq![':'] + rest).drop_first() =~= rest);
        assert forall|j: int, i: int| 0 <= j < df.len() && 0 <= i < df[j].len() implies #[trigger] df[j][i]
            != ':' by {
            assert(df[j] == parts[j + 1]);
        }
        lemma_key_parts(df);
        assert(seq![p] + df =~= parts);
    }
}

} // verus!
