//! The order of texts by code point, and sorted lists of distinct texts.
use crate::text;
use vstd::prelude::*;

verus! {

/// `a` stands before `b` in code point order.
pub open spec fn text_before(a: Seq<char>, b: Seq<char>) -> bool
    decreases a.len(),
{
    if b.len() == 0 {
        false
    } else if a.len() == 0 {
        true
    } else if a[0] == b[0] {
        text_before(a.skip(1), b.skip(1))
    } else {
        a[0] < b[0]
    }
}

/// No text stands before itself.
pub proof fn text_before_irreflexive(a: Seq<char>)
    ensures
        !text_before(a, a),
    decreases a.len(),
{
    if a.len() > 0 {
        text_before_irreflexive(a.skip(1));
    }
}

/// Of two different texts one stands before the other, and only one.
pub proof fn text_before_total(a: Seq<char>, b: Seq<char>)
    ensures
        a != b ==> (text_before(a, b) <==> !text_before(b, a)),
    decreases a.len(),
{
    if a.len() > 0 && b.len() > 0 && a[0] == b[0] {
        text_before_total(a.skip(1), b.skip(1));
        if a.skip(1) == b.skip(1) {
            assert(a =~= seq![a[0]] + a.skip(1));
            assert(b =~= seq![b[0]] + b.skip(1));
        }
    } else if a.len() == 0 && b.len() == 0 {
        assert(a =~= b);
    }
}

/// The order is transitive.
pub proof fn text_before_transitive(a: Seq<char>, b: Seq<char>, c: Seq<char>)
    requires
        text_before(a, b),
        text_before(b, c),
    ensures
        text_before(a, c),
    decreases a.len(),
{
    if a.len() > 0 && b.len() > 0 && c.len() > 0 && a[0] == b[0] && b[0] == c[0] {
        text_before_transitive(a.skip(1), b.skip(1), c.skip(1));
    }
}

/// Whether one text stands before another in code point order.
pub fn is_before(a: &str, b: &str) -> (r: bool)
    ensures
        r == text_before(a@, b@),
{
    let x = text::chars_of(a);
    let y = text::chars_of(b);
    let mut i: usize = 0;
    assert(x@.skip(0) =~= x@);
    assert(y@.skip(0) =~= y@);
    while i < x.len() && i < y.len()
        invariant
            i <= x@.len(),
            i <= y@.len(),
            x@ == a@,
            y@ == b@,
            text_before(a@, b@) == text_before(x@.skip(i as int), y@.skip(i as int)),
        decreases x@.len() - i,
    {
        if x[i] != y[i] {
            return x[i] < y[i];
        }
        assert(x@.skip(i as int).skip(1) =~= x@.skip(i + 1));
        assert(y@.skip(i as int).skip(1) =~= y@.skip(i + 1));
        i = i + 1;
    }
    i < y.len()
}

/// A list of texts in strictly ascending order, so without repetition.
pub open spec fn ascending(v: Seq<Seq<char>>) -> bool {
    forall|i: int, j: int| 0 <= i < j < v.len() ==> text_before(#[trigger] v[i], #[trigger] v[j])
}

proof fn ascending_tail(v: Seq<Seq<char>>)
    requires
        ascending(v),
        v.len() > 0,
    ensures
        ascending(v.skip(1)),
        forall|x: Seq<char>| v.skip(1).contains(x) <==> (v.contains(x) && x != v[0]),
{
    let t = v.skip(1);
    assert forall|i: int, j: int| 0 <= i < j < t.len() implies text_before(
        #[trigger] t[i],
        #[trigger] t[j],
    ) by {
        assert(t[i] == v[i + 1] && t[j] == v[j + 1]);
    }
    assert forall|x: Seq<char>| v.skip(1).contains(x) <==> (v.contains(x) && x != v[0]) by {
        if t.contains(x) {
            let k = choose|k: int| 0 <= k < t.len() && t[k] == x;
            assert(v[k + 1] == x);
            assert(text_before(v[0], v[k + 1]));
            text_before_irreflexive(v[0]);
        }
        if v.contains(x) && x != v[0] {
            let k = choose|k: int| 0 <= k < v.len() && v[k] == x;
            assert(t[k - 1] == x);
        }
    }
}

/// Two ascending lists of the same texts are the same list.
pub proof fn ascending_is_unique(a: Seq<Seq<char>>, b: Seq<Seq<char>>)
    requires
        ascending(a),
        ascending(b),
        forall|x: Seq<char>| a.contains(x) <==> b.contains(x),
    ensures
        a == b,
    decreases a.len(),
{
    if a.len() == 0 {
        if b.len() > 0 {
            assert(b.contains(b[0]));
        }
        assert(a =~= b);
    } else {
        assert(a.contains(a[0]));
        assert(b.len() > 0);
        assert(b.contains(b[0]));
        let i = choose|i: int| 0 <= i < b.len() && b[i] == a[0];
        let j = choose|j: int| 0 <= j < a.len() && a[j] == b[0];
        if i > 0 && j > 0 {
            assert(text_before(b[0], b[i]));
            assert(text_before(a[0], a[j]));
            text_before_transitive(a[0], b[0], a[0]);
            text_before_irreflexive(a[0]);
        }
        assert(a[0] == b[0]);
        ascending_tail(a);
        ascending_tail(b);
        assert forall|x: Seq<char>| a.skip(1).contains(x) <==> b.skip(1).contains(x) by {
            assert(a.contains(x) <==> b.contains(x));
        }
        ascending_is_unique(a.skip(1), b.skip(1));
        assert(a =~= seq![a[0]] + a.skip(1));
        assert(b =~= seq![b[0]] + b.skip(1));
    }
}

/// `r` lists the texts of `v` in strictly ascending order.
pub open spec fn is_sorted_set_of(r: Seq<Seq<char>>, v: Seq<Seq<char>>) -> bool {
    &&& ascending(r)
    &&& forall|x: Seq<char>| r.contains(x) <==> v.contains(x)
}

/// The texts of a list in strictly ascending order.
pub open spec fn sorted_set_of(v: Seq<Seq<char>>) -> Seq<Seq<char>> {
    choose|r: Seq<Seq<char>>| is_sorted_set_of(r, v)
}

proof fn put_in(s: Seq<Seq<char>>, x: Seq<char>) -> (r: Seq<Seq<char>>)
    requires
        ascending(s),
    ensures
        ascending(r),
        forall|y: Seq<char>| r.contains(y) <==> (s.contains(y) || y == x),
    decreases s.len(),
{
    if s.len() == 0 {
        let r = seq![x];
        assert(r[0] == x);
        r
    } else if x == s.last() {
        s
    } else if text_before(s.last(), x) {
        let r = s.push(x);
        assert forall|i: int, j: int| 0 <= i < j < r.len() implies text_before(
            #[trigger] r[i],
            #[trigger] r[j],
        ) by {
            if j == s.len() && i < s.len() - 1 {
                assert(text_before(s[i], s[s.len() - 1]));
                text_before_transitive(s[i], s.last(), x);
            }
        }
        assert forall|y: Seq<char>| r.contains(y) <==> (s.contains(y) || y == x) by {
            if s.contains(y) {
                let k = choose|k: int| 0 <= k < s.len() && s[k] == y;
                assert(r[k] == y);
            }
            assert(r[s.len() as int] == x);
        }
        r
    } else {
        text_before_total(x, s.last());
        let init = s.drop_last();
        assert(ascending(init)) by {
            assert forall|i: int, j: int| 0 <= i < j < init.len() implies text_before(
                #[trigger] init[i],
                #[trigger] init[j],
            ) by {
                assert(init[i] == s[i] && init[j] == s[j]);
            }
        }
        let before = put_in(init, x);
        let r = before.push(s.last());
        assert forall|i: int, j: int| 0 <= i < j < r.len() implies text_before(
            #[trigger] r[i],
            #[trigger] r[j],
        ) by {
            if j == before.len() {
                assert(before.contains(before[i]));
                if before[i] != x {
                    let k = choose|k: int| 0 <= k < init.len() && init[k] == before[i];
                    assert(text_before(s[k], s[s.len() - 1]));
                }
            }
        }
        assert forall|y: Seq<char>| r.contains(y) <==> (s.contains(y) || y == x) by {
            assert(s =~= init.push(s.last()));
            if before.contains(y) {
                let k = choose|k: int| 0 <= k < before.len() && before[k] == y;
                assert(r[k] == y);
                if y != x {
                    let m = choose|m: int| 0 <= m < init.len() && init[m] == y;
                    assert(s[m] == y);
                }
            }
            assert(r[before.len() as int] == s.last());
            assert(s[s.len() - 1] == s.last());
            if s.contains(y) && y != s.last() {
                let k = choose|k: int| 0 <= k < s.len() && s[k] == y;
                assert(init[k] == y);
            }
            if r.contains(y) && !before.contains(y) {
                let k = choose|k: int| 0 <= k < r.len() && r[k] == y;
                if k < before.len() {
                    assert(before[k] == y);
                }
            }
            assert(before.contains(x));
        }
        r
    }
}

proof fn some_sorted_set(v: Seq<Seq<char>>) -> (r: Seq<Seq<char>>)
    ensures
        is_sorted_set_of(r, v),
    decreases v.len(),
{
    if v.len() == 0 {
        v
    } else {
        let init = v.drop_last();
        let before = some_sorted_set(init);
        let r = put_in(before, v.last());
        assert forall|x: Seq<char>| r.contains(x) <==> v.contains(x) by {
            assert(v =~= init.push(v.last()));
            if init.contains(x) {
                let k = choose|k: int| 0 <= k < init.len() && init[k] == x;
                assert(v[k] == x);
            }
            if v.contains(x) && x != v.last() {
                let k = choose|k: int| 0 <= k < v.len() && v[k] == x;
                assert(init[k] == x);
            }
            assert(v[v.len() - 1] == v.last());
        }
        r
    }
}

/// Listing texts in strictly ascending order keeps every one of them, and adds
/// none.
pub proof fn sorted_set_keeps_members(v: Seq<Seq<char>>)
    ensures
        is_sorted_set_of(sorted_set_of(v), v),
{
    let r = some_sorted_set(v);
    assert(is_sorted_set_of(r, v));
}

/// There is only one way to list texts in strictly ascending order.
pub proof fn sorted_set_is_unique(r: Seq<Seq<char>>, v: Seq<Seq<char>>)
    requires
        is_sorted_set_of(r, v),
    ensures
        r == sorted_set_of(v),
{
    let s = sorted_set_of(v);
    assert(is_sorted_set_of(s, v));
    assert forall|x: Seq<char>| r.contains(x) <==> s.contains(x) by {
        assert(r.contains(x) <==> v.contains(x));
        assert(s.contains(x) <==> v.contains(x));
    }
    ascending_is_unique(r, s);
}

/// Puts a text into an ascending list, where it is not there yet.
pub fn insert_text(set: &mut Vec<String>, item: String)
    requires
        ascending(text::views(old(set)@)),
    ensures
        ascending(text::views(final(set)@)),
        final(set)@.len() <= old(set)@.len() + 1,
        forall|x: Seq<char>|
            text::views(final(set)@).contains(x) <==> (text::views(old(set)@).contains(x) || x == item@),
{
    let mut at: usize = 0;
    while at < set.len() && is_before(set[at].as_str(), item.as_str())
        invariant
            at <= set@.len(),
            set@ == old(set)@,
            forall|j: int| 0 <= j < at ==> text_before(#[trigger] set@[j]@, item@),
        decreases set@.len() - at,
    {
        at = at + 1;
    }
    let ghost before = text::views(set@);
    if at < set.len() && text::same(set[at].as_str(), item.as_str()) {
        assert(before[at as int] == item@);
        return;
    }
    proof {
        if at < set@.len() {
            text_before_total(set@[at as int]@, item@);
        }
    }
    let ghost value = item@;
    set.insert(at, item);
    let ghost after = text::views(set@);
    assert(after =~= before.insert(at as int, value));
    assert(ascending(after)) by {
        assert forall|i: int, j: int| 0 <= i < j < after.len() implies text_before(
            #[trigger] after[i],
            #[trigger] after[j],
        ) by {
            if i < at && j < at {
                assert(text_before(before[i], before[j]));
            } else if i < at && j == at {
                assert(before[i] == old(set)@[i]@);
            } else if i < at {
                assert(text_before(before[i], before[j - 1]));
            } else if i == at {
                assert(text_before(value, before[at as int]));
                if j - 1 > at {
                    assert(text_before(before[at as int], before[j - 1]));
                    text_before_transitive(value, before[at as int], before[j - 1]);
                }
            } else {
                assert(text_before(before[i - 1], before[j - 1]));
            }
        }
    }
    assert forall|x: Seq<char>|
        after.contains(x) <==> (before.contains(x) || x == value) by {
        if before.contains(x) {
            let k = choose|k: int| 0 <= k < before.len() && before[k] == x;
            if k < at {
                assert(after[k] == x);
            } else {
                assert(after[k + 1] == x);
            }
        }
        if x == value {
            assert(after[at as int] == x);
        }
        if after.contains(x) {
            let k = choose|k: int| 0 <= k < after.len() && after[k] == x;
            if k < at {
                assert(before[k] == x);
            } else if k > at {
                assert(before[k - 1] == x);
            }
        }
    }
}

/// The texts of a list in strictly ascending order.
pub fn sorted_set(v: &Vec<String>) -> (r: Vec<String>)
    ensures
        is_sorted_set_of(text::views(r@), text::views(v@)),
        text::views(r@) == sorted_set_of(text::views(v@)),
{
    let mut out: Vec<String> = Vec::new();
    let mut i: usize = 0;
    while i < v.len()
        invariant
            i <= v@.len(),
            ascending(text::views(out@)),
            forall|x: Seq<char>|
                text::views(out@).contains(x) <==> text::views(v@).take(i as int).contains(x),
        decreases v@.len() - i,
    {
        insert_text(&mut out, v[i].clone());
        proof {
            let prefix = text::views(v@).take(i as int);
            let next = text::views(v@).take(i + 1);
            assert(next =~= prefix.push(v@[i as int]@));
            assert forall|x: Seq<char>| next.contains(x) <==> (prefix.contains(x) || x
                == v@[i as int]@) by {
                if prefix.contains(x) {
                    let k = choose|k: int| 0 <= k < prefix.len() && prefix[k] == x;
                    assert(next[k] == x);
                }
                if x == v@[i as int]@ {
                    assert(next[i as int] == x);
                }
            }
        }
        i = i + 1;
    }
    assert(text::views(v@).take(v@.len() as int) =~= text::views(v@));
    proof {
        sorted_set_is_unique(text::views(out@), text::views(v@));
    }
    out
}

} // verus!
