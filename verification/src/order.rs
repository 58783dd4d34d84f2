//! The order of strings, and lists of strings that are sorted and hold each
//! entry once.
use vstd::prelude::*;

use crate::text::{chars_of, views};

verus! {

/// Whether `a` comes before `b`, character by character.
pub open spec fn before(a: Seq<char>, b: Seq<char>) -> bool
    decreases a.len(),
{
    if b.len() == 0 {
        false
    } else if a.len() == 0 {
        true
    } else if a[0] != b[0] {
        a[0] < b[0]
    } else {
        before(a.drop_first(), b.drop_first())
    }
}

/// Whether the entries are in ascending order with none repeated.
pub open spec fn sorted_unique(s: Seq<Seq<char>>) -> bool {
    forall|i: int, j: int| 0 <= i < j < s.len() ==> before(#[trigger] s[i], #[trigger] s[j])
}

pub proof fn lemma_before_irreflexive(a: Seq<char>)
    ensures
        !before(a, a),
    decreases a.len(),
{
    if a.len() > 0 {
        lemma_before_irreflexive(a.drop_first());
    }
}

pub proof fn lemma_before_total(a: Seq<char>, b: Seq<char>)
    ensures
        before(a, b) || before(b, a) || a == b,
    decreases a.len(),
{
    if a.len() == 0 || b.len() == 0 {
        assert(a.len() == 0 && b.len() == 0 ==> a =~= b);
    } else if a[0] == b[0] {
        lemma_before_total(a.drop_first(), b.drop_first());
        if a.drop_first() == b.drop_first() {
            assert(a =~= seq![a[0]] + a.drop_first());
            assert(b =~= seq![b[0]] + b.drop_first());
        }
    }
}

pub proof fn lemma_before_transitive(a: Seq<char>, b: Seq<char>, c: Seq<char>)
    requires
        before(a, b),
        before(b, c),
    ensures
        before(a, c),
    decreases a.len(),
{
    if a.len() > 0 && a[0] == b[0] && b[0] == c[0] {
        lemma_before_transitive(a.drop_first(), b.drop_first(), c.drop_first());
    }
}

/// A sorted list without repetition is determined by what it holds.
pub proof fn law_sorted_list_is_determined(a: Seq<Seq<char>>, b: Seq<Seq<char>>)
    requires
        sorted_unique(a),
        sorted_unique(b),
        forall|t: Seq<char>| a.contains(t) <==> b.contains(t),
    ensures
        a == b,
    decreases a.len(),
{
    if a.len() == 0 {
        if b.len() > 0 {
            assert(b.contains(b[0]));
        }
        assert(a =~= b);
    } else {
        assert(a.contains(a[0]));
        assert(b.len() > 0);
        assert(b.contains(b[0]));
        let i = choose|i: int| 0 <= i < b.len() && b[i] == a[0];
        let j = choose|j: int| 0 <= j < a.len() && a[j] == b[0];
        if a[0] != b[0] {
            lemma_before_transitive(a[0], b[0], a[0]);
            lemma_before_irreflexive(a[0]);
        }
        let ra = a.drop_first();
        let rb = b.drop_first();
        assert forall|t: Seq<char>| ra.contains(t) <==> rb.contains(t) by {
            lemma_before_irreflexive(a[0]);
            if ra.contains(t) {
                let k = choose|k: int| 0 <= k < ra.len() && ra[k] == t;
                assert(a[k + 1] == t);
                assert(a.contains(t));
                let m = choose|m: int| 0 <= m < b.len() && b[m] == t;
                assert(before(a[0], a[k + 1]));
                assert(m != 0);
                assert(rb[m - 1] == t);
            }
            if rb.contains(t) {
                let k = choose|k: int| 0 <= k < rb.len() && rb[k] == t;
                assert(b[k + 1] == t);
                assert(b.contains(t));
                let m = choose|m: int| 0 <= m < a.len() && a[m] == t;
                assert(before(b[0], b[k + 1]));
                assert(m != 0);
                assert(ra[m - 1] == t);
            }
        }
        assert(sorted_unique(ra)) by {
            assert forall|x: int, y: int| 0 <= x < y < ra.len() implies before(
                #[trigger] ra[x],
                #[trigger] ra[y],
            ) by {
                assert(before(a[x + 1], a[y + 1]));
            }
        }
        assert(sorted_unique(rb)) by {
            assert forall|x: int, y: int| 0 <= x < y < rb.len() implies before(
                #[trigger] rb[x],
                #[trigger] rb[y],
            ) by {
                assert(before(b[x + 1], b[y + 1]));
            }
        }
        law_sorted_list_is_determined(ra, rb);
        assert(a =~= seq![a[0]] + ra);
        assert(b =~= seq![b[0]] + rb);
    }
}

/// Whether `a` comes before `b`.
pub fn text_before(a: &str, b: &str) -> (r: bool)
    ensures
        r == before(a@, b@),
{
    let x = chars_of(a);
    let y = chars_of(b);
    let mut i: usize = 0;
    assert(x@.skip(0) == a@);
    assert(y@.skip(0) == b@);
    while i < x.len() && i < y.len()
        invariant
            i <= x@.len(),
            i <= y@.len(),
            before(a@, b@) == before(x@.skip(i as int), y@.skip(i as int)),
        decreases x@.len() - i,
    {
        assert(x@.skip(i as int)[0] == x@[i as int]);
        assert(y@.skip(i as int)[0] == y@[i as int]);
        if x[i] != y[i] {
            return x[i] < y[i];
        }
        assert(x@.skip(i as int).drop_first() == x@.skip(i + 1));
        assert(y@.skip(i as int).drop_first() == y@.skip(i + 1));
        i = i + 1;
    }
    i < y.len()
}

/// Puts `item` in its place in a sorted list, unless it is there already.
fn insert_sorted(list: &mut Vec<String>, item: &String)
    requires
        sorted_unique(views(old(list)@)),
    ensures
        sorted_unique(views(final(list)@)),
        forall|t: Seq<char>|
            views(final(list)@).contains(t) <==> (views(old(list)@).contains(t) || t == item@),
{
    let ghost start = views(list@);
    let mut i: usize = 0;
    while i < list.len() && text_before(list[i].as_str(), item.as_str())
        invariant
            i <= list@.len(),
            start == views(list@),
            forall|j: int| 0 <= j < i ==> before(#[trigger] start[j], item@),
        decreases list@.len() - i,
    {
        assert(start[i as int] == list@[i as int]@);
        i = i + 1;
    }
    proof {
        if i < list@.len() {
            assert(start[i as int] == list@[i as int]@);
            lemma_before_total(start[i as int], item@);
        }
    }
    if i < list.len() && !text_before(item.as_str(), list[i].as_str()) {
        assert(start[i as int] == item@);
        return ;
    }
    list.insert(i, item.clone());
    let ghost done = views(list@);
    proof {
        assert(done =~= start.insert(i as int, item@));
        assert forall|t: Seq<char>| done.contains(t) <==> (start.contains(t) || t == item@) by {
            if start.contains(t) {
                let k = choose|k: int| 0 <= k < start.len() && start[k] == t;
                assert(done[if k < i {
                    k
                } else {
                    k + 1
                }] == t);
            }
            if t == item@ {
                assert(done[i as int] == t);
            }
            if done.contains(t) {
                let k = choose|k: int| 0 <= k < done.len() && done[k] == t;
                if k < i {
                    assert(start[k] == t);
                } else if k > i {
                    assert(start[k - 1] == t);
                }
            }
        }
        assert forall|a: int, b: int| 0 <= a < b < done.len() implies before(
            #[trigger] done[a],
            #[trigger] done[b],
        ) by {
            if b < i {
                assert(before(start[a], start[b]));
            } else if b == i {
                assert(before(start[a], item@));
            } else if a < i {
                assert(before(start[a], start[b - 1]));
            } else if a == i {
                if b - 1 > i {
                    assert(before(start[i as int], start[b - 1]));
                    lemma_before_transitive(item@, start[i as int], start[b - 1]);
                }
            } else {
                assert(before(start[a - 1], start[b - 1]));
            }
        }
    }
}

/// The entries of both lists in ascending order, each once.
pub fn sorted_union(a: &Vec<String>, b: &Vec<String>) -> (r: Vec<String>)
    ensures
        sorted_unique(views(r@)),
        forall|t: Seq<char>|
            views(r@).contains(t) <==> (views(a@).contains(t) || views(b@).contains(t)),
{
    let mut out: Vec<String> = Vec::new();
    let mut i: usize = 0;
    while i < a.len()
        invariant
            i <= a@.len(),
            sorted_unique(views(out@)),
            forall|t: Seq<char>|
                views(out@).contains(t) <==> views(a@).take(i as int).contains(t),
        decreases a@.len() - i,
    {
        insert_sorted(&mut out, &a[i]);
        proof {
            assert(views(a@)[i as int] == a@[i as int]@);
            lemma_take_contains(views(a@), i as int);
            assert forall|t: Seq<char>|
                views(out@).contains(t) <==> views(a@).take(i + 1).contains(t) by {}
        }
        i = i + 1;
    }
    assert(views(a@).take(a@.len() as int) =~= views(a@));
    assert(views(b@).take(0) =~= Seq::<Seq<char>>::empty());
    let mut k: usize = 0;
    while k < b.len()
        invariant
            k <= b@.len(),
            sorted_unique(views(out@)),
            forall|t: Seq<char>|
                views(out@).contains(t) <==> (views(a@).contains(t) || views(b@).take(
                    k as int,
                ).contains(t)),
        decreases b@.len() - k,
    {
        insert_sorted(&mut out, &b[k]);
        proof {
            assert(views(b@)[k as int] == b@[k as int]@);
            lemma_take_contains(views(b@), k as int);
        }
        k = k + 1;
    }
    assert(views(b@).take(b@.len() as int) =~= views(b@));
    out
}

proof fn lemma_take_contains(s: Seq<Seq<char>>, i: int)
    requires
        0 <= i < s.len(),
    ensures
        forall|t: Seq<char>| s.take(i + 1).contains(t) <==> (s.take(i).contains(t) || t == s[i]),
{
    assert forall|t: Seq<char>| s.take(i + 1).contains(t) <==> (s.take(i).contains(t) || t == s[i]) by {
        if s.take(i).contains(t) {
            let k = choose|k: int| 0 <= k < i && s.take(i)[k] == t;
            assert(s.take(i + 1)[k] == t);
        }
        if t == s[i] {
            assert(s.take(i + 1)[i] == t);
        }
        if s.take(i + 1).contains(t) {
            let longer = s.take(i + 1);
            let k = choose|k: int| 0 <= k < longer.len() && longer[k] == t;
            if k < i {
                assert(s.take(i)[k] == t);
            }
        }
    }
}

/// A text stands before another where it ends inside it, or where the two first differ
/// it has the smaller character; and nowhere else.
pub proof fn law_texts_are_ordered_by_their_first_difference(a: Seq<char>, b: Seq<char>)
    ensures
        before(a, b) <==> exists|k: int|
            {
                &&& 0 <= k <= a.len()
                &&& k < b.len()
                &&& #[trigger] a.take(k) == b.take(k)
                &&& k == a.len() || a[k] < b[k]
            },
    decreases a.len(),
{
    if b.len() == 0 {
    } else if a.len() == 0 {
        assert(a.take(0) =~= b.take(0));
    } else if a[0] != b[0] {
        if a[0] < b[0] {
            assert(a.take(0) =~= b.take(0));
        }
        if exists|k: int|
            {
                &&& 0 <= k <= a.len()
                &&& k < b.len()
                &&& #[trigger] a.take(k) == b.take(k)
                &&& k == a.len() || a[k] < b[k]
            } {
            let k = choose|k: int|
                {
                    &&& 0 <= k <= a.len()
                    &&& k < b.len()
                    &&& #[trigger] a.take(k) == b.take(k)
                    &&& k == a.len() || a[k] < b[k]
                };
            if k > 0 {
                assert(a.take(k)[0] == b.take(k)[0]);
            }
        }
    } else {
        let x = a.drop_first();
        let y = b.drop_first();
        law_texts_are_ordered_by_their_first_difference(x, y);
        if before(x, y) {
            let k = choose|k: int|
                {
                    &&& 0 <= k <= x.len()
                    &&& k < y.len()
                    &&& #[trigger] x.take(k) == y.take(k)
                    &&& k == x.len() || x[k] < y[k]
                };
            assert forall|i: int| 0 <= i < k + 1 implies a[i] == b[i] by {
                if i > 0 {
                    assert(x.take(k)[i - 1] == y.take(k)[i - 1]);
                }
            }
            assert(a.take(k + 1) =~= b.take(k + 1));
        }
        if exists|k: int|
            {
                &&& 0 <= k <= a.len()
                &&& k < b.len()
                &&& #[trigger] a.take(k) == b.take(k)
                &&& k == a.len() || a[k] < b[k]
            } {
            let k = choose|k: int|
                {
                    &&& 0 <= k <= a.len()
                    &&& k < b.len()
                    &&& #[trigger] a.take(k) == b.take(k)
                    &&& k == a.len() || a[k] < b[k]
                };
            assert(k > 0);
            assert forall|i: int| 0 <= i < k - 1 implies x[i] == y[i] by {
                assert(a.take(k)[i + 1] == b.take(k)[i + 1]);
            }
            assert(x.take(k - 1) =~= y.take(k - 1));
        }
    }
}

} // verus!
