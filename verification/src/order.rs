//! Putting names in order the way people expect: without regard to case, repeats dropped.

use vstd::prelude::*;
use vstd::string::*;

use crate::text::{ascii_lower, chars_of, same_text, views};

verus! {

// ── Case ─────────────────────────────────────────────────────────────────────

/// The lower-case form of a text: what `str::to_lowercase` returns.
pub uninterp spec fn lowercase(s: Seq<char>) -> Seq<char>;

/// Whether every character is an ASCII one.
pub open spec fn is_ascii_text(s: Seq<char>) -> bool {
    forall|i: int| 0 <= i < s.len() ==> (#[trigger] s[i] as u32) < 0x80
}

/// `str::to_lowercase`: the result depends on the text alone, and for ASCII text it is the text
/// with each capital letter replaced. What other scripts become is left to Unicode.
#[verifier::external_body]
pub(crate) fn lowercased(s: &str) -> (r: String)
    ensures
        r@ == lowercase(s@),
        is_ascii_text(s@) ==> r@ == s@.map_values(|c: char| ascii_lower(c)),
{
    s.to_lowercase()
}

// ── Order ────────────────────────────────────────────────────────────────────

/// Whether `a` stands before `b` in the order of code points, the shorter first where one
/// continues the other.
pub open spec fn before(a: Seq<char>, b: Seq<char>) -> bool
    decreases a.len(),
{
    if b.len() == 0 {
        false
    } else if a.len() == 0 {
        true
    } else if a[0] != b[0] {
        a[0] < b[0]
    } else {
        before(a.drop_first(), b.drop_first())
    }
}

/// Whether one text stands before another.
pub fn stands_before(a: &str, b: &str) -> (r: bool)
    ensures
        r == before(a@, b@),
{
    let x = chars_of(a);
    let y = chars_of(b);
    let n: usize = x.len();
    let m: usize = y.len();
    let mut i: usize = 0;
    proof {
        assert(a@.skip(0) =~= a@);
        assert(b@.skip(0) =~= b@);
    }
    while i < n && i < m && x[i] == y[i]
        invariant
            i <= n,
            i <= m,
            n == x@.len(),
            m == y@.len(),
            x@ == a@,
            y@ == b@,
            before(a@, b@) == before(a@.skip(i as int), b@.skip(i as int)),
        decreases n - i,
    {
        proof {
            let k = i as int;
            assert(a@.skip(k).drop_first() =~= a@.skip(k + 1));
            assert(b@.skip(k).drop_first() =~= b@.skip(k + 1));
            assert(a@.skip(k)[0] == b@.skip(k)[0]);
        }
        i = i + 1;
    }
    proof {
        let k = i as int;
        if i < n && i < m {
            assert(a@.skip(k)[0] == x@[k]);
            assert(b@.skip(k)[0] == y@[k]);
        }
    }
    if i == m {
        false
    } else if i == n {
        true
    } else {
        x[i] < y[i]
    }
}

/// The order is strict.
pub proof fn order_is_strict(a: Seq<char>, b: Seq<char>)
    ensures
        !before(a, a),
        before(a, b) ==> !before(b, a),
    decreases a.len(),
{
    if a.len() > 0 {
        order_is_strict(a.drop_first(), a.drop_first());
        if b.len() > 0 {
            order_is_strict(a.drop_first(), b.drop_first());
        }
    }
}

/// Two different texts are always ordered.
pub proof fn order_is_total(a: Seq<char>, b: Seq<char>)
    ensures
        before(a, b) || before(b, a) || a == b,
    decreases a.len(),
{
    if a.len() > 0 && b.len() > 0 {
        order_is_total(a.drop_first(), b.drop_first());
        if a[0] == b[0] && a.drop_first() == b.drop_first() {
            assert(a =~= seq![a[0]] + a.drop_first());
            assert(b =~= seq![b[0]] + b.drop_first());
        }
    } else if a.len() == 0 && b.len() == 0 {
        assert(a =~= b);
    }
}

/// What does not stand after something that does not stand after a third does not stand after
/// the third either.
pub proof fn order_is_transitive(a: Seq<char>, b: Seq<char>, c: Seq<char>)
    requires
        !before(b, a),
        !before(c, b),
    ensures
        !before(c, a),
    decreases a.len(),
{
    if a.len() > 0 && b.len() > 0 && c.len() > 0 && a[0] == b[0] && b[0] == c[0] {
        order_is_transitive(a.drop_first(), b.drop_first(), c.drop_first());
    }
}

// ── Sorting by lower-case form ───────────────────────────────────────────────

/// A sorted list with one more name, behind those that are its equals but for case.
pub open spec fn placed(list: Seq<Seq<char>>, name: Seq<char>) -> Seq<Seq<char>>
    decreases list.len(),
{
    if list.len() > 0 && before(lowercase(name), lowercase(list.last())) {
        placed(list.drop_last(), name).push(list.last())
    } else {
        list.push(name)
    }
}

/// A list in the order of the lower-case forms; names that share one keep their order.
pub open spec fn in_order(list: Seq<Seq<char>>) -> Seq<Seq<char>>
    decreases list.len(),
{
    if list.len() == 0 {
        seq![]
    } else {
        placed(in_order(list.drop_last()), list.last())
    }
}

/// A list without the names that repeat the one right before them.
pub open spec fn without_repeats(list: Seq<Seq<char>>) -> Seq<Seq<char>>
    decreases list.len(),
{
    if list.len() < 2 {
        list
    } else if list.last() == list[list.len() - 2] {
        without_repeats(list.drop_last())
    } else {
        without_repeats(list.drop_last()).push(list.last())
    }
}

/// Whether no name stands behind one that belongs behind it.
pub open spec fn is_in_order(list: Seq<Seq<char>>) -> bool {
    forall|i: int, j: int|
        0 <= i < j < list.len() ==> !before(
            lowercase(#[trigger] list[j]),
            lowercase(#[trigger] list[i]),
        )
}

/// Placing a name keeps the order, the length grows by one, and no other name comes or goes.
pub proof fn placing_keeps_the_order(list: Seq<Seq<char>>, name: Seq<char>)
    requires
        is_in_order(list),
    ensures
        is_in_order(placed(list, name)),
        placed(list, name).len() == list.len() + 1,
        forall|x: Seq<char>| #[trigger]
            placed(list, name).contains(x) <==> (list.contains(x) || x == name),
    decreases list.len(),
{
    if list.len() > 0 && before(lowercase(name), lowercase(list.last())) {
        let front = list.drop_last();
        let rest = placed(front, name);
        let last = list.last();
        assert forall|i: int, j: int| 0 <= i < j < front.len() implies !before(
            lowercase(#[trigger] front[j]),
            lowercase(#[trigger] front[i]),
        ) by {
            assert(front[i] == list[i]);
            assert(front[j] == list[j]);
        }
        placing_keeps_the_order(front, name);
        let all = rest.push(last);
        assert forall|i: int, j: int| 0 <= i < j < all.len() implies !before(
            lowercase(#[trigger] all[j]),
            lowercase(#[trigger] all[i]),
        ) by {
            if j == rest.len() {
                assert(rest.contains(rest[i]));
                if rest[i] == name {
                    order_is_strict(lowercase(name), lowercase(last));
                } else {
                    assert(front.contains(rest[i]));
                    let k = choose|k: int| 0 <= k < front.len() && front[k] == rest[i];
                    assert(list[k] == rest[i]);
                    assert(list[list.len() - 1] == last);
                }
            }
        }
        assert forall|x: Seq<char>| #[trigger] all.contains(x) <==> (list.contains(x) || x
            == name) by {
            if all.contains(x) {
                let k = choose|k: int| 0 <= k < all.len() && all[k] == x;
                if k < rest.len() {
                    assert(rest.contains(x));
                    if front.contains(x) {
                        let m = choose|m: int| 0 <= m < front.len() && front[m] == x;
                        assert(list[m] == x);
                    }
                } else {
                    assert(list[list.len() - 1] == x);
                }
            }
            if list.contains(x) || x == name {
                if list.contains(x) && x != last {
                    let m = choose|m: int| 0 <= m < list.len() && list[m] == x;
                    assert(front[m] == x);
                }
                if x == last && list.contains(x) {
                    assert(all[rest.len() as int] == x);
                } else {
                    assert(rest.contains(x));
                    let k = choose|k: int| 0 <= k < rest.len() && rest[k] == x;
                    assert(all[k] == x);
                }
            }
        }
    } else {
        let all = list.push(name);
        assert forall|i: int, j: int| 0 <= i < j < all.len() implies !before(
            lowercase(#[trigger] all[j]),
            lowercase(#[trigger] all[i]),
        ) by {
            if j == list.len() {
                assert(list[list.len() - 1] == list.last());
                if i < list.len() - 1 {
                    order_is_transitive(
                        lowercase(list[i]),
                        lowercase(list.last()),
                        lowercase(name),
                    );
                }
            }
        }
        assert forall|x: Seq<char>| #[trigger] all.contains(x) <==> (list.contains(x) || x
            == name) by {
            if list.contains(x) {
                let m = choose|m: int| 0 <= m < list.len() && list[m] == x;
                assert(all[m] == x);
            }
            assert(all[list.len() as int] == name);
            if all.contains(x) {
                let k = choose|k: int| 0 <= k < all.len() && all[k] == x;
                if k < list.len() {
                    assert(list[k] == x);
                }
            }
        }
    }
}

/// Sorting puts every name in its place, and no name comes or goes.
pub proof fn sorting_sorts(list: Seq<Seq<char>>)
    ensures
        is_in_order(in_order(list)),
        in_order(list).len() == list.len(),
        forall|x: Seq<char>| #[trigger] in_order(list).contains(x) <==> list.contains(x),
    decreases list.len(),
{
    if list.len() > 0 {
        let front = list.drop_last();
        sorting_sorts(front);
        placing_keeps_the_order(in_order(front), list.last());
        assert forall|x: Seq<char>| #[trigger] in_order(list).contains(x) <==> list.contains(
            x,
        ) by {
            if list.contains(x) {
                let m = choose|m: int| 0 <= m < list.len() && list[m] == x;
                if m < front.len() {
                    assert(front[m] == x);
                    assert(in_order(front).contains(x));
                }
            }
            if front.contains(x) {
                let m = choose|m: int| 0 <= m < front.len() && front[m] == x;
                assert(list[m] == x);
            }
            if x == list.last() {
                assert(list[list.len() - 1] == x);
            }
        }
    }
}

/// Dropping repeats keeps every name at least once, and leaves no name right behind itself.
pub proof fn repeats_are_dropped(list: Seq<Seq<char>>)
    ensures
        forall|x: Seq<char>| #[trigger] without_repeats(list).contains(x) <==> list.contains(x),
        list.len() > 0 ==> without_repeats(list).len() > 0 && without_repeats(list).last()
            == list.last(),
        forall|i: int|
            0 <= i < without_repeats(list).len() - 1 ==> #[trigger] without_repeats(list)[i]
                != without_repeats(list)[i + 1],
    decreases list.len(),
{
    if list.len() >= 2 {
        let front = list.drop_last();
        repeats_are_dropped(front);
        let d = without_repeats(front);
        assert(front.last() == list[list.len() - 2]);
        assert forall|x: Seq<char>| #[trigger] without_repeats(list).contains(x)
            <==> list.contains(x) by {
            let all = without_repeats(list);
            if list.contains(x) {
                let m = choose|m: int| 0 <= m < list.len() && list[m] == x;
                if m < front.len() {
                    assert(front[m] == x);
                    assert(d.contains(x));
                    let k = choose|k: int| 0 <= k < d.len() && d[k] == x;
                    assert(all[k] == x);
                } else if list.last() == list[list.len() - 2] {
                    assert(d[d.len() - 1] == x);
                } else {
                    assert(all[d.len() as int] == x);
                }
            }
            if all.contains(x) {
                let k = choose|k: int| 0 <= k < all.len() && all[k] == x;
                if k < d.len() {
                    assert(d.contains(x));
                    let m = choose|m: int| 0 <= m < front.len() && front[m] == x;
                    assert(list[m] == x);
                } else {
                    assert(list[list.len() - 1] == x);
                }
            }
        }
    }
}

/// Puts a name into a sorted list.
pub fn place(list: &mut Vec<String>, name: String)
    ensures
        views(final(list)@) == placed(views(old(list)@), name@),
{
    let ghost all = views(list@);
    let key = lowercased(name.as_str());
    let mut p: usize = list.len();
    proof {
        assert(all.take(p as int) =~= all);
        assert(placed(all, name@) =~= placed(all.take(p as int), name@) + all.skip(p as int));
    }
    while p > 0 && stands_before(key.as_str(), lowercased(list[p - 1].as_str()).as_str())
        invariant
            p <= list@.len(),
            all == views(list@),
            key@ == lowercase(name@),
            placed(all, name@) == placed(all.take(p as int), name@) + all.skip(p as int),
        decreases p,
    {
        proof {
            let k = p as int;
            assert(all.take(k).last() == all[k - 1]);
            assert(all.take(k).drop_last() =~= all.take(k - 1));
            assert(placed(all.take(k), name@).last() == all[k - 1]);
            assert(placed(all.take(k), name@) + all.skip(k) =~= placed(all.take(k - 1), name@)
                + all.skip(k - 1));
        }
        p = p - 1;
    }
    proof {
        let k = p as int;
        if k > 0 {
            assert(all.take(k).last() == all[k - 1]);
        }
        assert(placed(all.take(k), name@) == all.take(k).push(name@));
        assert(views(list@.insert(k, name)) =~= all.take(k).push(name@) + all.skip(k));
    }
    list.insert(p, name);
}

/// Sorts names by their lower-case form and drops repeats.
pub fn tidied(names: Vec<String>) -> (r: Vec<String>)
    ensures
        views(r@) == without_repeats(in_order(views(names@))),
{
    let ghost all = views(names@);
    let n: usize = names.len();
    let mut sorted: Vec<String> = Vec::new();
    let mut i: usize = 0;
    proof {
        assert(views(sorted@) =~= in_order(all.take(0)));
    }
    while i < n
        invariant
            i <= n,
            n == names@.len(),
            all == views(names@),
            views(sorted@) == in_order(all.take(i as int)),
        decreases n - i,
    {
        place(&mut sorted, names[i].clone());
        proof {
            let k = i as int;
            assert(all.take(k + 1).drop_last() =~= all.take(k));
            assert(all.take(k + 1).last() == all[k]);
        }
        i = i + 1;
    }
    proof {
        assert(all.take(n as int) =~= all);
    }
    let ghost ordered = views(sorted@);
    let mut kept: Vec<String> = Vec::new();
    let mut j: usize = 0;
    let m: usize = sorted.len();
    proof {
        assert(views(kept@) =~= without_repeats(ordered.take(0)));
    }
    while j < m
        invariant
            j <= m,
            m == sorted@.len(),
            ordered == views(sorted@),
            views(kept@) == without_repeats(ordered.take(j as int)),
        decreases m - j,
    {
        let repeat = j > 0 && same_text(sorted[j].as_str(), sorted[j - 1].as_str());
        let ghost k = j as int;
        proof {
            assert(ordered.take(k + 1).drop_last() =~= ordered.take(k));
            assert(ordered.take(k + 1).last() == ordered[k]);
            if k > 0 {
                assert(ordered.take(k + 1)[k - 1] == ordered[k - 1]);
            }
        }
        if !repeat {
            let ghost had = views(kept@);
            kept.push(sorted[j].clone());
            proof {
                assert(views(kept@) =~= had.push(ordered[k]));
                if k == 0 {
                    assert(ordered.take(1) =~= seq![ordered[0]]);
                    assert(had =~= seq![]);
                }
            }
        }
        j = j + 1;
    }
    proof {
        assert(ordered.take(m as int) =~= ordered);
    }
    kept
}

/// Where two texts first differ decides which comes first: the lower code point does, and where one
/// of them ends there, the shorter.
pub proof fn the_first_difference_decides(a: Seq<char>, b: Seq<char>, k: int)
    requires
        0 <= k <= a.len(),
        k <= b.len(),
        a.take(k) == b.take(k),
    ensures
        k < a.len() && k < b.len() && a[k] as int + 1 <= b[k] as int ==> before(a, b),
        k < a.len() && k < b.len() && b[k] as int + 1 <= a[k] as int ==> !before(a, b),
        k == a.len() && k < b.len() ==> before(a, b),
        k == b.len() ==> !before(a, b),
    decreases k,
{
    if k > 0 {
        assert(a[0] == a.take(k)[0] && b[0] == b.take(k)[0]);
        let x = a.drop_first();
        let y = b.drop_first();
        assert(x.take(k - 1) =~= a.take(k).drop_first());
        assert(y.take(k - 1) =~= b.take(k).drop_first());
        the_first_difference_decides(x, y, k - 1);
    }
}

/// A name is put in one place and moves no other: those before it keep their places, those behind it
/// move on by one, it stands behind its equals, and right before the first that belongs behind it.
pub proof fn a_name_is_put_in_its_place(list: Seq<Seq<char>>, name: Seq<char>)
    ensures
        exists|p: int|
            #![trigger list.take(p)]
            0 <= p <= list.len() && placed(list, name) == list.take(p).push(name) + list.skip(p)
                && (p > 0 ==> !before(lowercase(name), lowercase(list[p - 1]))) && forall|i: int|
                p <= i < list.len() ==> before(lowercase(name), lowercase(#[trigger] list[i])),
    decreases list.len(),
{
    if list.len() > 0 && before(lowercase(name), lowercase(list.last())) {
        let front = list.drop_last();
        a_name_is_put_in_its_place(front, name);
        let p = choose|p: int|
            #![trigger front.take(p)]
            0 <= p <= front.len() && placed(front, name) == front.take(p).push(name) + front.skip(p)
                && (p > 0 ==> !before(lowercase(name), lowercase(front[p - 1]))) && forall|i: int|
                p <= i < front.len() ==> before(lowercase(name), lowercase(#[trigger] front[i]));
        assert(front.take(p) =~= list.take(p));
        assert(front.skip(p).push(list.last()) =~= list.skip(p));
        assert(placed(list, name) =~= list.take(p).push(name) + list.skip(p));
        if p > 0 {
            assert(front[p - 1] == list[p - 1]);
        }
        assert forall|i: int| p <= i < list.len() implies before(
            lowercase(name),
            lowercase(#[trigger] list[i]),
        ) by {
            if i < front.len() {
                assert(front[i] == list[i]);
            }
        }
    } else {
        let p = list.len() as int;
        assert(placed(list, name) =~= list.take(p).push(name) + list.skip(p));
    }
}

}
