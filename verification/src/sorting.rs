//! Sorting by text.

use vstd::prelude::*;

use crate::text::chars_of;

verus! {

/// Whether a text comes before another: by the first character in which they differ, or as a part
/// of it.
pub open spec fn before(a: Seq<char>, b: Seq<char>) -> bool
    decreases a.len(),
{
    if b.len() == 0 {
        false
    } else if a.len() == 0 {
        true
    } else if a[0] != b[0] {
        (a[0] as u32) < (b[0] as u32)
    } else {
        before(a.skip(1), b.skip(1))
    }
}

/// Tells whether a text comes before another.
pub fn comes_before(a: &str, b: &str) -> (r: bool)
    ensures
        r == before(a@, b@),
{
    let x: Vec<char> = chars_of(a);
    let y: Vec<char> = chars_of(b);
    let mut i: usize = 0;
    assert(x@.skip(0) =~= x@);
    assert(y@.skip(0) =~= y@);
    while i < x.len() && i < y.len()
        invariant
            i <= x@.len(),
            i <= y@.len(),
            before(a@, b@) == before(x@.skip(i as int), y@.skip(i as int)),
        decreases x@.len() - i,
    {
        assert(x@.skip(i as int)[0] == x@[i as int]);
        assert(y@.skip(i as int)[0] == y@[i as int]);
        assert(x@.skip(i as int).skip(1) =~= x@.skip(i + 1));
        assert(y@.skip(i as int).skip(1) =~= y@.skip(i + 1));
        if x[i] != y[i] {
            return (x[i] as u32) < (y[i] as u32);
        }
        i = i + 1;
    }
    i < y.len()
}

/// No text comes before itself.
pub proof fn lemma_before_is_strict(a: Seq<char>)
    ensures
        !before(a, a),
    decreases a.len(),
{
    if a.len() > 0 {
        lemma_before_is_strict(a.skip(1));
    }
}

/// Of two texts, one comes before the other unless they are the same.
pub proof fn lemma_before_is_total(a: Seq<char>, b: Seq<char>)
    ensures
        before(a, b) || before(b, a) || a == b,
        !(before(a, b) && before(b, a)),
    decreases a.len(),
{
    if a.len() > 0 && b.len() > 0 && a[0] == b[0] {
        lemma_before_is_total(a.skip(1), b.skip(1));
        if a.skip(1) == b.skip(1) {
            assert(a =~= seq![a[0]] + a.skip(1));
            assert(b =~= seq![b[0]] + b.skip(1));
        }
    } else if a.len() > 0 && b.len() > 0 {
        vstd::utf8::char_u32_cast(a[0], a[0] as u32);
        vstd::utf8::char_u32_cast(b[0], b[0] as u32);
    } else if a.len() == 0 && b.len() == 0 {
        assert(a =~= b);
    }
}

/// What comes before a text comes before every later one.
pub proof fn lemma_before_is_transitive(a: Seq<char>, b: Seq<char>, c: Seq<char>)
    requires
        before(a, b),
        before(b, c),
    ensures
        before(a, c),
    decreases a.len(),
{
    if a.len() > 0 && a[0] == b[0] && b[0] == c[0] {
        lemma_before_is_transitive(a.skip(1), b.skip(1), c.skip(1));
    }
}

/// A sorted list with one more item, behind those with the same key.
pub open spec fn inserted<A>(list: Seq<A>, key: spec_fn(A) -> Seq<char>, item: A) -> Seq<A>
    decreases list.len(),
{
    if list.len() > 0 && before(key(item), key(list.last())) {
        inserted(list.drop_last(), key, item).push(list.last())
    } else {
        list.push(item)
    }
}

/// An item is inserted before the items that it comes before, at the end of the list.
pub proof fn lemma_insertion_point<A>(
    list: Seq<A>,
    key: spec_fn(A) -> Seq<char>,
    item: A,
    at: int,
)
    requires
        0 <= at <= list.len(),
        forall|j: int| at <= j < list.len() ==> before(key(item), key(#[trigger] list[j])),
        at > 0 ==> !before(key(item), key(list[at - 1])),
    ensures
        inserted(list, key, item) == list.take(at).push(item) + list.skip(at),
    decreases list.len(),
{
    if at < list.len() {
        let some = list.drop_last();
        assert forall|j: int| at <= j < some.len() implies before(
            key(item),
            key(#[trigger] some[j]),
        ) by {
            assert(some[j] == list[j]);
        }
        lemma_insertion_point(some, key, item, at);
        assert(some.take(at) =~= list.take(at));
        assert(before(key(item), key(list[list.len() - 1])));
        assert(some.skip(at).push(list.last()) =~= list.skip(at));
        assert(inserted(list, key, item) =~= list.take(at).push(item) + list.skip(at));
    } else {
        assert(list.take(at) =~= list);
        assert(inserted(list, key, item) =~= list.take(at).push(item) + list.skip(at));
    }
}

/// A list sorted by a key. Items with the same key keep their order.
pub open spec fn in_order<A>(list: Seq<A>, key: spec_fn(A) -> Seq<char>) -> Seq<A>
    decreases list.len(),
{
    if list.len() == 0 {
        Seq::empty()
    } else {
        inserted(in_order(list.drop_last(), key), key, list.last())
    }
}

/// Whether no item stands behind one that it comes before.
pub open spec fn is_in_order<A>(list: Seq<A>, key: spec_fn(A) -> Seq<char>) -> bool {
    forall|i: int, j: int|
        0 <= i < j < list.len() ==> !before(key(#[trigger] list[j]), key(#[trigger] list[i]))
}

/// Whether a key comes before none of a list.
spec fn is_last<A>(list: Seq<A>, key: spec_fn(A) -> Seq<char>, k: Seq<char>) -> bool {
    forall|i: int| 0 <= i < list.len() ==> !before(k, key(#[trigger] list[i]))
}

proof fn lemma_last_stays<A>(list: Seq<A>, key: spec_fn(A) -> Seq<char>, item: A, k: Seq<char>)
    requires
        is_last(list, key, k),
        !before(k, key(item)),
    ensures
        is_last(inserted(list, key, item), key, k),
    decreases list.len(),
{
    let after = inserted(list, key, item);
    if list.len() > 0 && before(key(item), key(list.last())) {
        let some = list.drop_last();
        assert forall|i: int| 0 <= i < some.len() implies !before(k, key(#[trigger] some[i])) by {
            assert(some[i] == list[i]);
        }
        lemma_last_stays(some, key, item, k);
        let shorter = inserted(some, key, item);
        assert forall|i: int| 0 <= i < after.len() implies !before(k, key(#[trigger] after[i])) by {
            if i < shorter.len() {
                assert(after[i] == shorter[i]);
            } else {
                assert(list[list.len() - 1] == after[i]);
            }
        }
    } else {
        assert forall|i: int| 0 <= i < after.len() implies !before(k, key(#[trigger] after[i])) by {
            if i < list.len() {
                assert(after[i] == list[i]);
            }
        }
    }
}

proof fn lemma_pushed_in_order<A>(list: Seq<A>, key: spec_fn(A) -> Seq<char>, item: A)
    requires
        is_in_order(list, key),
        is_last(list, key, key(item)),
    ensures
        is_in_order(list.push(item), key),
{
    let after = list.push(item);
    assert forall|i: int, j: int| 0 <= i < j < after.len() implies !before(
        key(#[trigger] after[j]),
        key(#[trigger] after[i]),
    ) by {
        assert(after[i] == list[i]);
        if j < list.len() {
            assert(after[j] == list[j]);
        }
    }
}

proof fn lemma_inserted<A>(list: Seq<A>, key: spec_fn(A) -> Seq<char>, item: A)
    requires
        is_in_order(list, key),
    ensures
        is_in_order(inserted(list, key, item), key),
        inserted(list, key, item).to_multiset() == list.to_multiset().insert(item),
        inserted(list, key, item).len() == list.len() + 1,
    decreases list.len(),
{
    broadcast use vstd::seq_lib::group_to_multiset_ensures;

    if list.len() > 0 && before(key(item), key(list.last())) {
        let some = list.drop_last();
        let last = list.last();
        assert(list =~= some.push(last));
        assert(is_in_order(some, key)) by {
            assert forall|i: int, j: int| 0 <= i < j < some.len() implies !before(
                key(#[trigger] some[j]),
                key(#[trigger] some[i]),
            ) by {
                assert(some[i] == list[i] && some[j] == list[j]);
            }
        }
        lemma_inserted(some, key, item);
        assert(is_last(some, key, key(last))) by {
            assert forall|i: int| 0 <= i < some.len() implies !before(
                key(last),
                key(#[trigger] some[i]),
            ) by {
                assert(some[i] == list[i]);
                assert(list[list.len() - 1] == last);
            }
        }
        lemma_before_is_total(key(item), key(last));
        lemma_last_stays(some, key, item, key(last));
        lemma_pushed_in_order(inserted(some, key, item), key, last);
        assert(some.to_multiset().insert(last).insert(item) =~= some.to_multiset().insert(
            item,
        ).insert(last));
    } else {
        assert(is_last(list, key, key(item))) by {
            assert forall|i: int| 0 <= i < list.len() implies !before(
                key(item),
                key(#[trigger] list[i]),
            ) by {
                let last = list.last();
                assert(list[list.len() - 1] == last);
                lemma_before_is_total(key(item), key(last));
                if before(key(item), key(list[i])) {
                    if before(key(last), key(item)) {
                        lemma_before_is_transitive(key(last), key(item), key(list[i]));
                    }
                    if i < list.len() - 1 {
                        assert(!before(key(list[list.len() - 1]), key(list[i])));
                    }
                }
            }
        }
        lemma_pushed_in_order(list, key, item);
    }
}

/// Sorting puts a list in order, and loses and adds nothing.
pub proof fn law_sorting_orders<A>(list: Seq<A>, key: spec_fn(A) -> Seq<char>)
    ensures
        is_in_order(in_order(list, key), key),
        in_order(list, key).to_multiset() == list.to_multiset(),
        in_order(list, key).len() == list.len(),
    decreases list.len(),
{
    broadcast use vstd::seq_lib::group_to_multiset_ensures;

    if list.len() > 0 {
        law_sorting_orders(list.drop_last(), key);
        lemma_inserted(in_order(list.drop_last(), key), key, list.last());
        assert(list =~= list.drop_last().push(list.last()));
    } else {
        assert(list =~= Seq::empty());
    }
}

/// Texts are ordered by the first character in which they differ, by its number; a text comes before
/// every longer one that begins with it.
pub proof fn law_the_first_difference_decides(
    same: Seq<char>,
    x: char,
    y: char,
    a: Seq<char>,
    b: Seq<char>,
)
    ensures
        x != y ==> (before(same + seq![x] + a, same + seq![y] + b) <==> (x as u32) < (y as u32)),
        before(same, same + seq![y] + b),
        !before(same + seq![x] + a, same),
    decreases same.len(),
{
    let p = same + seq![x] + a;
    let q = same + seq![y] + b;
    if same.len() == 0 {
        assert(p[0] == x && q[0] == y);
    } else {
        assert(p[0] == same[0] && q[0] == same[0]);
        assert(p.skip(1) =~= same.skip(1) + seq![x] + a);
        assert(q.skip(1) =~= same.skip(1) + seq![y] + b);
        law_the_first_difference_decides(same.skip(1), x, y, a, b);
    }
}

} // verus!
