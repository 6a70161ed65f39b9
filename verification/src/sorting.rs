//! Lists in the order of the names of their items.
use crate::order;
use crate::text;
use vstd::prelude::*;

verus! {

broadcast use {vstd::string::group_string_axioms, vstd::seq::group_seq_axioms};

/// An item with a name, and a second one that tells items of one name apart.
pub trait Named: Sized {
    spec fn first_name(&self) -> Seq<char>;

    spec fn second_name(&self) -> Seq<char>;

    fn first_name_text(&self) -> (r: &str)
        ensures
            r@ == self.first_name(),
    ;

    fn second_name_text(&self) -> (r: &str)
        ensures
            r@ == self.second_name(),
    ;
}

/// One item is named before another.
pub open spec fn named_before<T: Named>(a: T, b: T) -> bool {
    ||| order::text_before(a.first_name(), b.first_name())
    ||| a.first_name() == b.first_name() && order::text_before(a.second_name(), b.second_name())
}

/// Two items have the same names.
pub open spec fn same_names<T: Named>(a: T, b: T) -> bool {
    a.first_name() == b.first_name() && a.second_name() == b.second_name()
}

/// No item is named before an earlier one.
pub open spec fn in_order<T: Named>(v: Seq<T>) -> bool {
    forall|i: int, j: int| 0 <= i < j < v.len() ==> !named_before(#[trigger] v[j], #[trigger] v[i])
}

/// Where an item goes into a list: behind the last item that it is not named
/// before.
pub open spec fn place_of<T: Named>(v: Seq<T>, item: T) -> int
    decreases v.len(),
{
    if v.len() == 0 || !named_before(item, v.last()) {
        v.len() as int
    } else {
        place_of(v.drop_last(), item)
    }
}

/// The items of a list in the order of their names; items of the same names
/// keep their order.
pub open spec fn sorted<T: Named>(v: Seq<T>) -> Seq<T>
    decreases v.len(),
{
    if v.len() == 0 {
        v
    } else {
        let before = sorted(v.drop_last());
        before.insert(place_of(before, v.last()), v.last())
    }
}

/// An item goes somewhere into the list or behind it.
pub proof fn place_in_range<T: Named>(v: Seq<T>, item: T)
    ensures
        0 <= place_of(v, item) <= v.len(),
    decreases v.len(),
{
    if v.len() > 0 && named_before(item, v.last()) {
        place_in_range(v.drop_last(), item);
    }
}

fn is_named_before<T: Named>(a: &T, b: &T) -> (r: bool)
    ensures
        r == named_before(*a, *b),
{
    if order::is_before(a.first_name_text(), b.first_name_text()) {
        return true;
    }
    text::same(a.first_name_text(), b.first_name_text()) && order::is_before(
        a.second_name_text(),
        b.second_name_text(),
    )
}

/// Whether two items have the same names.
pub fn are_same_names<T: Named>(a: &T, b: &T) -> (r: bool)
    ensures
        r == same_names(*a, *b),
{
    text::same(a.first_name_text(), b.first_name_text()) && text::same(
        a.second_name_text(),
        b.second_name_text(),
    )
}

/// The items of a list in the order of their names.
pub fn sort<T: Named>(v: Vec<T>) -> (r: Vec<T>)
    ensures
        r@ == sorted(v@),
{
    let mut rest = v;
    let mut turned: Vec<T> = Vec::new();
    let ghost all = rest@;
    // Turn the list round, so that items can be taken from its front.
    while rest.len() > 0
        invariant
            rest@.len() <= all.len(),
            rest@ == all.take(rest@.len() as int),
            turned@ == all.skip(rest@.len() as int).reverse(),
        decreases rest@.len(),
    {
        let ghost n = rest@.len() as int;
        let ghost before = turned@;
        match rest.pop() {
            Some(item) => {
                turned.push(item);
                assert(rest@ =~= all.take(n - 1));
                assert(turned@ =~= all.skip(n - 1).reverse());
            },
            None => {},
        }
    }
    let mut out: Vec<T> = Vec::new();
    assert(turned@ =~= all.skip(0).reverse());
    assert(all.take(0) =~= Seq::<T>::empty());
    assert(out@ =~= sorted(all.take(0)));
    while turned.len() > 0
        invariant
            turned@.len() <= all.len(),
            turned@ == all.skip(all.len() - turned@.len()).reverse(),
            out@ == sorted(all.take(all.len() - turned@.len())),
        decreases turned@.len(),
    {
        let ghost n = all.len() - turned@.len();
        let ghost left = turned@;
        match turned.pop() {
            Some(item) => {
                assert(item == all[n]) by {
                    assert(left.last() == all.skip(n).reverse().last());
                    assert(all.skip(n).reverse()[left.len() - 1] == all.skip(n)[0]);
                }
                assert(turned@ =~= all.skip(n + 1).reverse());
                let mut at: usize = out.len();
                let ghost so_far = out@;
                assert(so_far.take(at as int) =~= so_far);
                while at > 0 && is_named_before(&item, &out[at - 1])
                    invariant
                        at <= out@.len(),
                        out@ == so_far,
                        place_of(so_far, item) == place_of(so_far.take(at as int), item),
                    decreases at,
                {
                    assert(so_far.take(at as int).drop_last() =~= so_far.take(at - 1));
                    at = at - 1;
                }
                proof {
                    if at > 0 {
                        assert(so_far.take(at as int).last() == so_far[at - 1]);
                    }
                    assert(place_of(so_far, item) == at);
                    assert(all.take(n + 1).drop_last() =~= all.take(n));
                }
                out.insert(at, item);
            },
            None => {},
        }
    }
    assert(all.take(all.len() as int) =~= all);
    out
}

/// Sorting puts a list in order and neither loses nor adds an item.
pub proof fn sorting_orders<T: Named>(v: Seq<T>)
    ensures
        in_order(sorted(v)),
        sorted(v).to_multiset() == v.to_multiset(),
        sorted(v).len() == v.len(),
    decreases v.len(),
{
    if v.len() == 0 {
        assert(sorted(v) =~= v);
    } else {
        let init = v.drop_last();
        let item = v.last();
        let before = sorted(init);
        sorting_orders(init);
        place_in_range(before, item);
        let at = place_of(before, item);
        place_splits(before, item);
        let after = before.insert(at, item);
        assert forall|i: int, j: int| 0 <= i < j < after.len() implies !named_before(
            #[trigger] after[j],
            #[trigger] after[i],
        ) by {
            if j < at {
                assert(after[i] == before[i] && after[j] == before[j]);
            } else if j == at {
                assert(after[i] == before[i]);
            } else if i == at {
                assert(after[j] == before[j - 1]);
                named_before_is_strict(item, before[j - 1]);
            } else if i < at {
                assert(after[i] == before[i] && after[j] == before[j - 1]);
            } else {
                assert(after[i] == before[i - 1] && after[j] == before[j - 1]);
            }
        }
        before.to_multiset_ensures();
        init.to_multiset_ensures();
        assert(v =~= init.push(item));
        assert(init.push(item).to_multiset() =~= init.to_multiset().insert(item));
        vstd::seq_lib::to_multiset_insert(before, at, item);
    }
}

proof fn named_before_is_strict<T: Named>(a: T, b: T)
    requires
        named_before(a, b),
    ensures
        !named_before(b, a),
{
    order::text_before_total(a.first_name(), b.first_name());
    order::text_before_total(a.second_name(), b.second_name());
    order::text_before_irreflexive(a.first_name());
    order::text_before_irreflexive(a.second_name());
}

proof fn place_splits<T: Named>(v: Seq<T>, item: T)
    requires
        in_order(v),
    ensures
        forall|i: int| 0 <= i < place_of(v, item) ==> !named_before(item, #[trigger] v[i]),
        forall|i: int| place_of(v, item) <= i < v.len() ==> named_before(item, #[trigger] v[i]),
    decreases v.len(),
{
    if v.len() > 0 {
        if named_before(item, v.last()) {
            let init = v.drop_last();
            assert(in_order(init)) by {
                assert forall|i: int, j: int| 0 <= i < j < init.len() implies !named_before(
                    #[trigger] init[j],
                    #[trigger] init[i],
                ) by {
                    assert(init[i] == v[i] && init[j] == v[j]);
                }
            }
            place_splits(init, item);
            place_in_range(init, item);
            assert forall|i: int| 0 <= i < place_of(v, item) implies !named_before(
                item,
                #[trigger] v[i],
            ) by {
                assert(init[i] == v[i]);
            }
            assert forall|i: int| place_of(v, item) <= i < v.len() implies named_before(
                item,
                #[trigger] v[i],
            ) by {
                if i < v.len() - 1 {
                    assert(init[i] == v[i]);
                }
            }
        } else {
            assert forall|i: int| 0 <= i < v.len() implies !named_before(
                item,
                #[trigger] v[i],
            ) by {
                if i < v.len() - 1 && named_before(item, v[i]) {
                    assert(!named_before(v[v.len() - 1], v[i]));
                    before_all_later(item, v[i], v.last());
                }
            }
        }
    }
}

proof fn before_all_later<T: Named>(item: T, a: T, b: T)
    requires
        named_before(item, a),
        !named_before(b, a),
    ensures
        named_before(item, b),
{
    order::text_before_total(a.first_name(), b.first_name());
    order::text_before_total(a.second_name(), b.second_name());
    if order::text_before(item.first_name(), a.first_name()) && order::text_before(
        a.first_name(),
        b.first_name(),
    ) {
        order::text_before_transitive(item.first_name(), a.first_name(), b.first_name());
    }
    if order::text_before(item.second_name(), a.second_name()) && order::text_before(
        a.second_name(),
        b.second_name(),
    ) {
        order::text_before_transitive(item.second_name(), a.second_name(), b.second_name());
    }
}

/// No two items have the same names.
pub open spec fn names_apart<T: Named>(v: Seq<T>) -> bool {
    forall|i: int, j: int|
        0 <= i < j < v.len() ==> !same_names(#[trigger] v[i], #[trigger] v[j])
}

/// Whether no two items have the same names.
pub fn are_names_apart<T: Named>(v: &Vec<T>) -> (r: bool)
    ensures
        r == names_apart(v@),
{
    let mut i: usize = 0;
    while i < v.len()
        invariant
            i <= v@.len(),
            forall|a: int, b: int|
                0 <= a < b < i ==> !same_names(#[trigger] v@[a], #[trigger] v@[b]),
        decreases v@.len() - i,
    {
        let mut j: usize = 0;
        while j < i
            invariant
                j <= i < v@.len(),
                forall|a: int| 0 <= a < j ==> !same_names(#[trigger] v@[a], v@[i as int]),
            decreases i - j,
        {
            if are_same_names(&v[j], &v[i]) {
                return false;
            }
            j = j + 1;
        }
        i = i + 1;
    }
    true
}

/// Sorting keeps apart what is apart.
pub proof fn sorting_keeps_names_apart<T: Named>(v: Seq<T>)
    requires
        names_apart(v),
    ensures
        names_apart(sorted(v)),
{
    let s = sorted(v);
    sorting_orders(v);
    v.to_multiset_ensures();
    s.to_multiset_ensures();
    assert(v.no_duplicates()) by {
        assert forall|i: int, j: int|
            0 <= i < v.len() && 0 <= j < v.len() && i != j implies v[i] != v[j] by {
            if i < j {
                assert(!same_names(v[i], v[j]));
            } else {
                assert(!same_names(v[j], v[i]));
            }
        }
    }
    v.lemma_multiset_has_no_duplicates();
    s.lemma_multiset_has_no_duplicates_conv();
    assert forall|i: int, j: int| 0 <= i < j < s.len() implies !same_names(
        #[trigger] s[i],
        #[trigger] s[j],
    ) by {
        assert(s.contains(s[i]) && s.contains(s[j]));
        assert(s.to_multiset().contains(s[i]) && s.to_multiset().contains(s[j]));
        assert(v.contains(s[i]) && v.contains(s[j]));
        let a = choose|a: int| 0 <= a < v.len() && v[a] == s[i];
        let b = choose|b: int| 0 <= b < v.len() && v[b] == s[j];
        assert(a != b);
        if a < b {
            assert(!same_names(v[a], v[b]));
        } else {
            assert(!same_names(v[b], v[a]));
        }
    }
}

/// Sorting neither loses nor adds an item.
pub proof fn sorted_members<T: Named>(v: Seq<T>, item: T)
    ensures
        sorted(v).contains(item) <==> v.contains(item),
{
    sorting_orders(v);
    v.to_multiset_ensures();
    sorted(v).to_multiset_ensures();
    assert(sorted(v).to_multiset().count(item) == v.to_multiset().count(item));
}

proof fn place_by_names<T: Named>(v: Seq<T>, w: Seq<T>, item: T, other: T)
    requires
        v.len() == w.len(),
        forall|k: int| 0 <= k < v.len() ==> same_names(#[trigger] v[k], w[k]),
        same_names(item, other),
    ensures
        place_of(v, item) == place_of(w, other),
    decreases v.len(),
{
    if v.len() > 0 {
        assert(same_names(v[v.len() - 1], w[w.len() - 1]));
        let v0 = v.drop_last();
        let w0 = w.drop_last();
        assert forall|k: int| 0 <= k < v0.len() implies same_names(#[trigger] v0[k], w0[k]) by {
            assert(v0[k] == v[k] && w0[k] == w[k]);
        }
        place_by_names(v0, w0, item, other);
    }
}

/// An item that changes and keeps its names stays where it is in the sorted
/// list, and nothing else moves.
pub proof fn changed_items_keep_their_place<T: Named>(v: Seq<T>, i: int, changed: T) -> (p: int)
    requires
        0 <= i < v.len(),
        same_names(v[i], changed),
    ensures
        0 <= p < v.len(),
        sorted(v).len() == v.len(),
        sorted(v)[p] == v[i],
        sorted(v.update(i, changed)) == sorted(v).update(p, changed),
    decreases v.len(),
{
    let w = v.update(i, changed);
    let init = v.drop_last();
    let before = sorted(init);
    sorting_orders(init);
    sorting_orders(v);
    if i == v.len() - 1 {
        assert(w.drop_last() =~= init);
        let at = place_of(before, v.last());
        place_by_names(before, before, v.last(), changed);
        place_in_range(before, v.last());
        assert(sorted(w) =~= sorted(v).update(at, changed));
        at
    } else {
        let q = changed_items_keep_their_place(init, i, changed);
        assert(w.drop_last() =~= init.update(i, changed));
        let after = before.update(q, changed);
        place_by_names(before, after, v.last(), v.last());
        let at = place_of(before, v.last());
        place_in_range(before, v.last());
        let p = if q < at {
            q
        } else {
            q + 1
        };
        assert(sorted(w) =~= sorted(v).update(p, changed));
        p
    }
}

} // verus!
