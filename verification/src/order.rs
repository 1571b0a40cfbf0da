//! Lists of texts in order.

use vstd::prelude::*;

use crate::text::{before, text_before, texts};

verus! {

/// `x` in its place in an ordered list.
pub open spec fn insert_sorted(s: Seq<Seq<char>>, x: Seq<char>) -> Seq<Seq<char>>
    decreases s.len(),
{
    if s.len() > 0 && text_before(x, s.last()) {
        insert_sorted(s.drop_last(), x).push(s.last())
    } else {
        s.push(x)
    }
}

/// The texts of a list in order, equal ones in the order in which they stood.
pub open spec fn sort_texts(s: Seq<Seq<char>>) -> Seq<Seq<char>>
    decreases s.len(),
{
    if s.len() == 0 {
        s
    } else {
        insert_sorted(sort_texts(s.drop_last()), s.last())
    }
}

/// No text stands after one that it comes before.
pub open spec fn is_sorted(s: Seq<Seq<char>>) -> bool {
    forall|i: int, j: int| 0 <= i < j < s.len() ==> !text_before(#[trigger] s[j], #[trigger] s[i])
}

proof fn lemma_before_asymmetric(a: Seq<char>, b: Seq<char>)
    requires
        text_before(a, b),
    ensures
        !text_before(b, a),
    decreases a.len(),
{
    if a.len() > 0 && b.len() > 0 && a[0] == b[0] {
        lemma_before_asymmetric(a.skip(1), b.skip(1));
    }
}

/// What does not come before `b`, which does not come before `c`, does not come before `c`.
proof fn lemma_not_before_transitive(a: Seq<char>, b: Seq<char>, c: Seq<char>)
    requires
        !text_before(a, b),
        !text_before(b, c),
    ensures
        !text_before(a, c),
    decreases a.len(),
{
    if a.len() > 0 && b.len() > 0 && c.len() > 0 && a[0] == b[0] && b[0] == c[0] {
        lemma_not_before_transitive(a.skip(1), b.skip(1), c.skip(1));
    }
}

proof fn lemma_insert_contents(s: Seq<Seq<char>>, x: Seq<char>)
    ensures
        insert_sorted(s, x).to_multiset() == s.to_multiset().insert(x),
        insert_sorted(s, x).len() == s.len() + 1,
    decreases s.len(),
{
    broadcast use vstd::seq_lib::group_to_multiset_ensures;

    if s.len() > 0 && text_before(x, s.last()) {
        lemma_insert_contents(s.drop_last(), x);
        assert(s =~= s.drop_last().push(s.last()));
        assert(insert_sorted(s, x).to_multiset() =~= s.to_multiset().insert(x));
    }
}

proof fn lemma_insert_keeps_order(s: Seq<Seq<char>>, x: Seq<char>)
    requires
        is_sorted(s),
    ensures
        is_sorted(insert_sorted(s, x)),
    decreases s.len(),
{
    let r = insert_sorted(s, x);
    if s.len() > 0 && text_before(x, s.last()) {
        let shorter = insert_sorted(s.drop_last(), x);
        lemma_insert_keeps_order(s.drop_last(), x);
        lemma_insert_contents(s.drop_last(), x);
        lemma_before_asymmetric(x, s.last());
        assert forall|i: int, j: int| 0 <= i < j < r.len() implies !text_before(
            #[trigger] r[j],
            #[trigger] r[i],
        ) by {
            if j == r.len() - 1 {
                assert(r[j] == s.last());
                lemma_inserted_members(s.drop_last(), x, i);
            } else {
                assert(r[i] == shorter[i] && r[j] == shorter[j]);
            }
        }
    } else if s.len() > 0 {
        assert forall|i: int, j: int| 0 <= i < j < r.len() implies !text_before(
            #[trigger] r[j],
            #[trigger] r[i],
        ) by {
            if j == r.len() - 1 {
                if i < s.len() - 1 {
                    assert(!text_before(s[s.len() - 1], s[i]));
                    lemma_not_before_transitive(x, s.last(), s[i]);
                }
            } else {
                assert(r[i] == s[i] && r[j] == s[j]);
            }
        }
    }
}

/// Every text of the longer list is the inserted one or stood in the shorter list.
proof fn lemma_inserted_members(s: Seq<Seq<char>>, x: Seq<char>, i: int)
    requires
        0 <= i < insert_sorted(s, x).len(),
    ensures
        insert_sorted(s, x)[i] == x || exists|k: int|
            0 <= k < s.len() && #[trigger] s[k] == insert_sorted(s, x)[i],
    decreases s.len(),
{
    let r = insert_sorted(s, x);
    if s.len() > 0 && text_before(x, s.last()) {
        if i < r.len() - 1 {
            lemma_inserted_members(s.drop_last(), x, i);
            let shorter = insert_sorted(s.drop_last(), x);
            assert(r[i] == shorter[i]);
            if r[i] != x {
                let k = choose|k: int|
                    0 <= k < s.drop_last().len() && #[trigger] s.drop_last()[k] == shorter[i];
                assert(s[k] == r[i]);
            }
        } else {
            assert(s[s.len() - 1] == r[i]);
        }
    } else if i < s.len() {
        assert(s[i] == r[i]);
    }
}

/// Sorting a list puts it in order and keeps what it holds.
pub proof fn law_sort(s: Seq<Seq<char>>)
    ensures
        is_sorted(sort_texts(s)),
        sort_texts(s).to_multiset() == s.to_multiset(),
        sort_texts(s).len() == s.len(),
    decreases s.len(),
{
    broadcast use vstd::seq_lib::group_to_multiset_ensures;

    if s.len() > 0 {
        law_sort(s.drop_last());
        lemma_insert_contents(sort_texts(s.drop_last()), s.last());
        lemma_insert_keeps_order(sort_texts(s.drop_last()), s.last());
        assert(s =~= s.drop_last().push(s.last()));
    }
}

/// Sorting neither adds nor drops a text.
pub proof fn lemma_sort_contains(s: Seq<Seq<char>>, x: Seq<char>)
    ensures
        sort_texts(s).contains(x) <==> s.contains(x),
{
    broadcast use vstd::seq_lib::group_to_multiset_ensures;

    law_sort(s);
    assert(s.contains(x) <==> s.to_multiset().count(x) > 0);
    assert(sort_texts(s).contains(x) <==> sort_texts(s).to_multiset().count(x) > 0);
}

proof fn lemma_insert_position(s: Seq<Seq<char>>, x: Seq<char>, at: int)
    requires
        0 <= at <= s.len(),
        forall|j: int| at <= j < s.len() ==> text_before(x, #[trigger] s[j]),
        at > 0 ==> !text_before(x, s[at - 1]),
    ensures
        insert_sorted(s, x) == s.insert(at, x),
    decreases s.len(),
{
    if at < s.len() {
        assert(text_before(x, s[s.len() - 1]));
        lemma_insert_position(s.drop_last(), x, at);
        assert(s.insert(at, x) =~= s.drop_last().insert(at, x).push(s.last()));
    } else {
        assert(s.insert(at, x) =~= s.push(x));
    }
}

fn insert_in_place(v: &mut Vec<String>, x: String)
    ensures
        texts(final(v)@) == insert_sorted(texts(old(v)@), x@),
{
    let ghost all = texts(v@);
    let mut at: usize = v.len();
    while 0 < at && before(&x, &v[at - 1])
        invariant
            at <= v@.len(),
            v@ == old(v)@,
            all == texts(v@),
            forall|j: int| at <= j < v@.len() ==> text_before(x@, #[trigger] all[j]),
        decreases at,
    {
        assert(all[at - 1] == v@[at - 1]@);
        at -= 1;
    }
    proof {
        if at > 0 {
            assert(all[at - 1] == v@[at - 1]@);
        }
        lemma_insert_position(all, x@, at as int);
    }
    let ghost inserted = x@;
    v.insert(at, x);
    assert(texts(v@) =~= all.insert(at as int, inserted));
}

/// The texts of `v` in order.
pub fn sorted_texts(v: Vec<String>) -> (r: Vec<String>)
    ensures
        texts(r@) == sort_texts(texts(v@)),
{
    let mut r: Vec<String> = Vec::new();
    let mut i: usize = 0;
    assert(texts(r@) =~= sort_texts(texts(v@).take(0)));
    while i < v.len()
        invariant
            i <= v@.len(),
            texts(r@) == sort_texts(texts(v@).take(i as int)),
        decreases v@.len() - i,
    {
        proof {
            assert(texts(v@).take(i + 1).drop_last() =~= texts(v@).take(i as int));
            assert(texts(v@).take(i + 1).last() == v@[i as int]@);
        }
        insert_in_place(&mut r, v[i].clone());
        i += 1;
    }
    assert(texts(v@).take(i as int) =~= texts(v@));
    r
}

/// Of two different texts one comes before the other.
pub proof fn law_texts_can_be_compared(a: Seq<char>, b: Seq<char>)
    ensures
        a == b <==> !text_before(a, b) && !text_before(b, a),
    decreases a.len(),
{
    if a.len() > 0 && b.len() > 0 {
        law_texts_can_be_compared(a.skip(1), b.skip(1));
        assert(a =~= seq![a[0]] + a.skip(1));
        assert(b =~= seq![b[0]] + b.skip(1));
    } else if a.len() == 0 && b.len() == 0 {
        assert(a =~= b);
    }
    if a == b {
        assert(a.skip(1) == b.skip(1));
    }
}

} // verus!
