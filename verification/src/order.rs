//! The order of names: how two strings compare, and the stable sort by a
//! name that the image lists use.
use vstd::prelude::*;

verus! {

broadcast use vstd::seq_lib::group_to_multiset_ensures;

/// `a <= b` as strings compare: character by character by code point (the
/// order of their UTF-8 bytes), a prefix before its extensions.
pub open spec fn lex_le(a: Seq<char>, b: Seq<char>) -> bool
    decreases a.len(),
{
    if a.len() == 0 {
        true
    } else if b.len() == 0 {
        false
    } else if a[0] != b[0] {
        (a[0] as u32) < (b[0] as u32)
    } else {
        lex_le(a.drop_first(), b.drop_first())
    }
}

/// Any two names compare one way or the other.
pub proof fn lemma_lex_total(a: Seq<char>, b: Seq<char>)
    ensures
        lex_le(a, b) || lex_le(b, a),
    decreases a.len(),
{
    if a.len() > 0 && b.len() > 0 {
        if a[0] == b[0] {
            lemma_lex_total(a.drop_first(), b.drop_first());
        } else {
            vstd::utf8::char_u32_cast(a[0], a[0] as u32);
            vstd::utf8::char_u32_cast(b[0], b[0] as u32);
        }
    }
}

/// The order of names is transitive.
pub proof fn lemma_lex_trans(a: Seq<char>, b: Seq<char>, c: Seq<char>)
    requires
        lex_le(a, b),
        lex_le(b, c),
    ensures
        lex_le(a, c),
    decreases a.len(),
{
    if a.len() > 0 && b.len() > 0 && c.len() > 0 && a[0] == b[0] && b[0] == c[0] {
        lemma_lex_trans(a.drop_first(), b.drop_first(), c.drop_first());
    }
}

/// Compares two names.
pub fn lex_le_chars(a: &Vec<char>, b: &Vec<char>) -> (r: bool)
    ensures
        r == lex_le(a@, b@),
{
    let mut i: usize = 0;
    assert(a@.skip(0) =~= a@);
    assert(b@.skip(0) =~= b@);
    while i < a.len() && i < b.len() && a[i] == b[i]
        invariant
            i <= a.len(),
            i <= b.len(),
            lex_le(a@, b@) == lex_le(a@.skip(i as int), b@.skip(i as int)),
        decreases a.len() - i,
    {
        proof {
            assert(a@.skip(i as int).drop_first() =~= a@.skip(i + 1));
            assert(b@.skip(i as int).drop_first() =~= b@.skip(i + 1));
        }
        i = i + 1;
    }
    if i == a.len() {
        true
    } else if i == b.len() {
        false
    } else {
        (a[i] as u32) < (b[i] as u32)
    }
}

/// Where a stable sort puts `x` among the already sorted `s`: after every
/// item whose name does not come after that of `x`.
pub open spec fn insert_pos_by<T>(s: Seq<T>, x: T, key: spec_fn(T) -> Seq<char>) -> nat
    decreases s.len(),
{
    if s.len() > 0 && lex_le(key(s[0]), key(x)) {
        1 + insert_pos_by(s.drop_first(), x, key)
    } else {
        0
    }
}

/// The items ordered by their names, items with equal names in their
/// given order: what a stable sort by name gives.
pub open spec fn sorted_by<T>(s: Seq<T>, key: spec_fn(T) -> Seq<char>) -> Seq<T>
    decreases s.len(),
{
    if s.len() == 0 {
        seq![]
    } else {
        let t = sorted_by(s.drop_last(), key);
        t.insert(insert_pos_by(t, s.last(), key) as int, s.last())
    }
}

pub open spec fn is_sorted_by<T>(s: Seq<T>, key: spec_fn(T) -> Seq<char>) -> bool {
    forall|i: int, j: int| 0 <= i < j < s.len() ==> lex_le(key(#[trigger] s[i]), key(#[trigger] s[j]))
}

proof fn lemma_insert_pos_by<T>(s: Seq<T>, x: T, key: spec_fn(T) -> Seq<char>)
    ensures
        insert_pos_by(s, x, key) <= s.len(),
        forall|k: int| 0 <= k < insert_pos_by(s, x, key) ==> lex_le(key(#[trigger] s[k]), key(x)),
        insert_pos_by(s, x, key) < s.len() ==> !lex_le(key(s[insert_pos_by(s, x, key) as int]), key(x)),
    decreases s.len(),
{
    if s.len() > 0 && lex_le(key(s[0]), key(x)) {
        lemma_insert_pos_by(s.drop_first(), x, key);
        assert forall|k: int| 0 <= k < insert_pos_by(s, x, key) implies lex_le(key(#[trigger] s[k]), key(x)) by {
            if k > 0 {
                assert(s[k] == s.drop_first()[k - 1]);
            }
        }
    }
}

/// The place found for `x` is the count of leading items not after it.
pub proof fn lemma_insert_pos_by_at<T>(s: Seq<T>, x: T, key: spec_fn(T) -> Seq<char>, p: int)
    requires
        0 <= p <= s.len(),
        forall|k: int| 0 <= k < p ==> lex_le(key(#[trigger] s[k]), key(x)),
        p < s.len() ==> !lex_le(key(s[p]), key(x)),
    ensures
        insert_pos_by(s, x, key) == p,
    decreases s.len(),
{
    if p > 0 {
        assert(lex_le(key(s[0]), key(x)));
        assert forall|k: int| 0 <= k < p - 1 implies lex_le(key(#[trigger] s.drop_first()[k]), key(x)) by {
            assert(s.drop_first()[k] == s[k + 1]);
        }
        lemma_insert_pos_by_at(s.drop_first(), x, key, p - 1);
    }
}

proof fn lemma_insert_keeps_sorted<T>(s: Seq<T>, x: T, key: spec_fn(T) -> Seq<char>)
    requires
        is_sorted_by(s, key),
    ensures
        is_sorted_by(s.insert(insert_pos_by(s, x, key) as int, x), key),
{
    lemma_insert_pos_by(s, x, key);
    let p = insert_pos_by(s, x, key) as int;
    let r = s.insert(p, x);
    assert forall|i: int| p <= i < s.len() implies lex_le(key(x), key(#[trigger] s[i])) by {
        lemma_lex_total(key(s[p]), key(x));
        if i > p {
            assert(lex_le(key(s[p]), key(s[i])));
            lemma_lex_trans(key(x), key(s[p]), key(s[i]));
        }
    }
    assert forall|i: int| 0 <= i < r.len() implies #[trigger] r[i] == (if i < p {
        s[i]
    } else if i == p {
        x
    } else {
        s[i - 1]
    }) by {}
    assert forall|i: int, j: int| 0 <= i < j < r.len() implies lex_le(key(#[trigger] r[i]), key(#[trigger] r[j])) by {
        if j < p {
            assert(lex_le(key(s[i]), key(s[j])));
        } else if j == p {
        } else if i < p {
            assert(lex_le(key(s[i]), key(s[j - 1])));
        } else if i == p {
        } else {
            assert(lex_le(key(s[i - 1]), key(s[j - 1])));
        }
    }
}

/// The sort by name orders the items by name and keeps exactly the items
/// it was given.
pub proof fn lemma_sorted_by<T>(s: Seq<T>, key: spec_fn(T) -> Seq<char>)
    ensures
        is_sorted_by(sorted_by(s, key), key),
        sorted_by(s, key).to_multiset() == s.to_multiset(),
    decreases s.len(),
{
    if s.len() > 0 {
        let t = sorted_by(s.drop_last(), key);
        lemma_sorted_by(s.drop_last(), key);
        lemma_insert_pos_by(t, s.last(), key);
        lemma_insert_keeps_sorted(t, s.last(), key);
        assert(s.drop_last().push(s.last()) =~= s);
    } else {
        assert(sorted_by(s, key) =~= s);
    }
}

} // verus!
