//! Lists of window labels, kept in the order they were added.
use vstd::prelude::*;

verus! {

/// The labels of `s`, as text.
pub open spec fn names(s: Seq<String>) -> Seq<Seq<char>> {
    s.map_values(|x: String| x@)
}

/// `s` with every occurrence of `x` taken out, the rest in order.
pub open spec fn without(s: Seq<Seq<char>>, x: Seq<char>) -> Seq<Seq<char>>
    decreases s.len(),
{
    if s.len() == 0 {
        s
    } else {
        let rest = without(s.drop_last(), x);
        if s.last() == x {
            rest
        } else {
            rest.push(s.last())
        }
    }
}

/// What taking `x` out of `s` keeps, and that it keeps `s` free of repeats.
pub proof fn lemma_without(s: Seq<Seq<char>>, x: Seq<char>)
    ensures
        forall|y: Seq<char>| #[trigger] without(s, x).contains(y) <==> (s.contains(y) && y != x),
        s.no_duplicates() ==> without(s, x).no_duplicates(),
        !s.contains(x) ==> without(s, x) == s,
    decreases s.len(),
{
    if s.len() > 0 {
        let d = s.drop_last();
        let a = s.last();
        let rest = without(d, x);
        lemma_without(d, x);
        assert(without(s, x) == if a == x { rest } else { rest.push(a) });
        assert forall|y: Seq<char>| #[trigger] without(s, x).contains(y) <==> (s.contains(y) && y != x) by {
            if s.contains(y) && y != x {
                let i = choose|i: int| 0 <= i < s.len() && s[i] == y;
                if i < s.len() - 1 {
                    assert(d[i] == y);
                    assert(d.contains(y));
                    assert(rest.contains(y));
                    if a != x {
                        let j = choose|j: int| 0 <= j < rest.len() && rest[j] == y;
                        assert(rest.push(a)[j] == y);
                    }
                } else {
                    assert(a == y);
                    assert(rest.push(a)[rest.len() as int] == y);
                }
                assert(without(s, x).contains(y));
            }
            if without(s, x).contains(y) {
                if a != x && y == a {
                    assert(s[s.len() - 1] == y);
                } else {
                    assert(rest.contains(y)) by {
                        if a != x {
                            let w = rest.push(a);
                            let i = choose|i: int| 0 <= i < w.len() && w[i] == y;
                            assert(i < rest.len());
                            assert(rest[i] == y);
                        }
                    }
                    let k = choose|k: int| 0 <= k < d.len() && d[k] == y;
                    assert(s[k] == y);
                }
                assert(s.contains(y) && y != x);
            }
        }
        if s.no_duplicates() {
            assert(d.no_duplicates()) by {
                assert forall|i: int, j: int| 0 <= i < d.len() && 0 <= j < d.len() && i != j implies d[i] != d[j] by {
                    assert(s[i] == d[i] && s[j] == d[j]);
                }
            }
            if a != x {
                assert(!d.contains(a)) by {
                    if d.contains(a) {
                        let k = choose|k: int| 0 <= k < d.len() && d[k] == a;
                        assert(s[k] == s[s.len() - 1]);
                    }
                }
                assert(!rest.contains(a));
                let w = rest.push(a);
                assert forall|i: int, j: int| 0 <= i < w.len() && 0 <= j < w.len() && i != j implies w[i] != w[j] by {
                    if i < rest.len() && j < rest.len() {
                    } else if i < rest.len() {
                        assert(rest.contains(w[i]));
                    } else {
                        assert(rest.contains(w[j]));
                    }
                }
            }
        }
        if !s.contains(x) {
            assert(!d.contains(x)) by {
                if d.contains(x) {
                    let k = choose|k: int| 0 <= k < d.len() && d[k] == x;
                    assert(s[k] == x);
                }
            }
            assert(a != x);
            assert(rest.push(a) =~= s);
        }
    }
}

/// Holds of the labels other than `x`.
pub open spec fn other_than(x: Seq<char>) -> spec_fn(Seq<char>) -> bool {
    |y: Seq<char>| y != x
}

/// Taking `x` out of `s` keeps every other label, in the order it had in `s`: it is `s` filtered
/// to the labels other than `x`.
pub proof fn lemma_without_is_filter(s: Seq<Seq<char>>, x: Seq<char>)
    ensures
        without(s, x) == s.filter(other_than(x)),
    decreases s.len(),
{
    reveal(Seq::filter);
    if s.len() > 0 {
        lemma_without_is_filter(s.drop_last(), x);
    }
}

/// Appending a label other than `x` and then taking `x` out is taking `x` out and then
/// appending the label: what comes after stays after.
pub proof fn lemma_without_push_other(s: Seq<Seq<char>>, x: Seq<char>, y: Seq<char>)
    requires
        y != x,
    ensures
        without(s.push(y), x) == without(s, x).push(y),
{
    assert(s.push(y).drop_last() =~= s);
}

/// Taking `x` out of `s` a second time changes nothing.
pub proof fn lemma_without_twice(s: Seq<Seq<char>>, x: Seq<char>)
    ensures
        without(without(s, x), x) == without(s, x),
{
    lemma_without(s, x);
    lemma_without(without(s, x), x);
}

/// Adding `x` to a list that does not hold it, then taking it out, gives the list back.
pub proof fn lemma_without_undoes_push(s: Seq<Seq<char>>, x: Seq<char>)
    requires
        !s.contains(x),
    ensures
        without(s.push(x), x) == s,
{
    assert(s.push(x).drop_last() =~= s);
    lemma_without(s, x);
}

/// Whether `v` holds the label `label`.
pub fn holds_label(v: &Vec<String>, label: &str) -> (r: bool)
    ensures
        r == names(v@).contains(label@),
{
    let wanted = label.to_owned();
    let mut i: usize = 0;
    while i < v.len()
        invariant
            i <= v@.len(),
            wanted@ == label@,
            forall|j: int| 0 <= j < i ==> (#[trigger] v@[j])@ != label@,
        decreases v@.len() - i,
    {
        if v[i] == wanted {
            assert(names(v@)[i as int] == label@);
            return true;
        }
        i = i + 1;
    }
    assert(!names(v@).contains(label@)) by {
        if names(v@).contains(label@) {
            let k = choose|k: int| 0 <= k < names(v@).len() && names(v@)[k] == label@;
            assert(v@[k]@ == label@);
        }
    }
    false
}

/// The labels of `v` other than `label`, in order.
pub fn without_label(v: &Vec<String>, label: &str) -> (r: Vec<String>)
    ensures
        names(r@) == without(names(v@), label@),
        names(r@) == names(v@).filter(other_than(label@)),
{
    let wanted = label.to_owned();
    let mut r: Vec<String> = Vec::new();
    let mut i: usize = 0;
    while i < v.len()
        invariant
            i <= v@.len(),
            wanted@ == label@,
            names(r@) == without(names(v@).take(i as int), label@),
        decreases v@.len() - i,
    {
        let ghost before = r@;
        assert(names(v@).take(i as int + 1).drop_last() =~= names(v@).take(i as int));
        if !(v[i] == wanted) {
            r.push(v[i].clone());
            assert(names(r@) =~= names(before).push(v@[i as int]@));
        }
        i = i + 1;
    }
    assert(names(v@).take(v@.len() as int) =~= names(v@));
    proof {
        lemma_without_is_filter(names(v@), label@);
    }
    r
}

} // verus!
