//! Stable sorting, and the lexicographic order of bytes and texts.

use crate::text::chars_of;
use vstd::prelude::*;
use vstd::relations::{strongly_connected, transitive};
use vstd::string::*;

verus! {

broadcast use vstd::string::group_string_axioms;

/// Where `x` goes in `s`: behind the last element that it may follow.
pub open spec fn insert_position<V>(s: Seq<V>, x: V, le: spec_fn(V, V) -> bool) -> int
    decreases s.len(),
{
    if s.len() == 0 {
        0
    } else if le(s.last(), x) {
        s.len() as int
    } else {
        insert_position(s.drop_last(), x, le)
    }
}

/// `s` in ascending order; elements that rank alike keep their order.
pub open spec fn stable_sort<V>(s: Seq<V>, le: spec_fn(V, V) -> bool) -> Seq<V>
    decreases s.len(),
{
    if s.len() == 0 {
        s
    } else {
        let head = stable_sort(s.drop_last(), le);
        head.insert(insert_position(head, s.last(), le), s.last())
    }
}

proof fn lemma_insert_position<V>(s: Seq<V>, x: V, le: spec_fn(V, V) -> bool)
    ensures
        0 <= insert_position(s, x, le) <= s.len(),
        insert_position(s, x, le) > 0 ==> le(s[insert_position(s, x, le) - 1], x),
        forall|i: int| insert_position(s, x, le) <= i < s.len() ==> !le(#[trigger] s[i], x),
    decreases s.len(),
{
    if s.len() > 0 && !le(s.last(), x) {
        lemma_insert_position(s.drop_last(), x, le);
        assert forall|i: int| insert_position(s, x, le) <= i < s.len() implies !le(
            #[trigger] s[i],
            x,
        ) by {
            if i < s.len() - 1 {
                assert(s.drop_last()[i] == s[i]);
            }
        }
    }
}

/// A sort keeps every element as often as it was there.
pub proof fn law_sort_is_permutation<V>(s: Seq<V>, le: spec_fn(V, V) -> bool)
    ensures
        stable_sort(s, le).to_multiset() == s.to_multiset(),
        stable_sort(s, le).len() == s.len(),
    decreases s.len(),
{
    broadcast use vstd::seq_lib::group_to_multiset_ensures;

    if s.len() > 0 {
        let head = stable_sort(s.drop_last(), le);
        law_sort_is_permutation(s.drop_last(), le);
        lemma_insert_position(head, s.last(), le);
        let at = insert_position(head, s.last(), le);
        vstd::seq_lib::to_multiset_insert(head, at, s.last());
        assert(s =~= s.drop_last().push(s.last()));
        assert(s.to_multiset() =~= s.drop_last().to_multiset().insert(s.last()));
    }
}

/// A sort by an order that compares any two elements leaves them in ascending order.
pub proof fn law_sort_is_sorted<V>(s: Seq<V>, le: spec_fn(V, V) -> bool)
    requires
        transitive(le),
        strongly_connected(le),
    ensures
        forall|i: int, j: int|
            0 <= i < j < stable_sort(s, le).len() ==> le(
                #[trigger] stable_sort(s, le)[i],
                #[trigger] stable_sort(s, le)[j],
            ),
    decreases s.len(),
{
    if s.len() > 0 {
        let head = stable_sort(s.drop_last(), le);
        let x = s.last();
        law_sort_is_sorted(s.drop_last(), le);
        lemma_insert_position(head, x, le);
        let at = insert_position(head, x, le);
        let out = head.insert(at, x);
        assert forall|i: int, j: int| 0 <= i < j < out.len() implies le(
            #[trigger] out[i],
            #[trigger] out[j],
        ) by {
            if j < at {
            } else if j == at {
                if i < at - 1 {
                    assert(le(head[i], head[at - 1]));
                }
                assert(le(head[at - 1], x));
            } else if i < at {
                assert(out[j] == head[j - 1]);
            } else if i == at {
                assert(out[j] == head[j - 1]);
                assert(!le(head[j - 1], x));
            } else {
                assert(out[i] == head[i - 1]);
                assert(out[j] == head[j - 1]);
            }
        }
    }
}

/// A type whose values can be put in order by their views.
pub trait Ranked: View {
    /// The order of the views.
    spec fn ranks_le(a: Self::V, b: Self::V) -> bool;

    fn may_precede(&self, other: &Self) -> (r: bool)
        ensures
            r == Self::ranks_le(self@, other@),
    ;
}

/// The views of the elements.
pub open spec fn views<T: View>(s: Seq<T>) -> Seq<T::V> {
    s.map_values(|x: T| x@)
}

/// The items in ascending order; items that rank alike keep their order.
pub fn sorted<T: Ranked>(items: Vec<T>) -> (r: Vec<T>)
    ensures
        views(r@) == stable_sort(views(items@), |a: T::V, b: T::V| T::ranks_le(a, b)),
{
    let ghost le = |a: T::V, b: T::V| T::ranks_le(a, b);
    let ghost all = views(items@);
    let mut out: Vec<T> = Vec::new();
    for x in it: items
        invariant
            all == views(it.seq()),
            le == (|a: T::V, b: T::V| T::ranks_le(a, b)),
            views(out@) == stable_sort(all.take(it.index() as int), le),
    {
        let ghost before = views(out@);
        let ghost n = it.index() as int;
        assert(all.take(n + 1).drop_last() =~= all.take(n));
        assert(all.take(n + 1).last() == x@);
        let mut at: usize = out.len();
        assert(before.take(at as int) =~= before);
        while at > 0 && !out[at - 1].may_precede(&x)
            invariant
                at <= out@.len(),
                views(out@) == before,
                le == (|a: T::V, b: T::V| T::ranks_le(a, b)),
                insert_position(before, x@, le) == insert_position(before.take(at as int), x@, le),
            decreases at,
        {
            assert(before.take(at as int).drop_last() =~= before.take(at - 1));
            assert(before.take(at as int).last() == out@[at - 1]@);
            at -= 1;
        }
        assert(at > 0 ==> before.take(at as int).last() == out@[at - 1]@);
        assert(insert_position(before, x@, le) == at);
        let ghost shown = x@;
        out.insert(at, x);
        assert(views(out@) =~= before.insert(at as int, shown));
    }
    assert(all.take(all.len() as int) =~= all);
    out
}

/// The lexicographic order of integer sequences.
pub open spec fn lex_le(a: Seq<int>, b: Seq<int>) -> bool
    decreases a.len(),
{
    if a.len() == 0 {
        true
    } else if b.len() == 0 {
        false
    } else if a[0] == b[0] {
        lex_le(a.skip(1), b.skip(1))
    } else {
        a[0] < b[0]
    }
}

/// The lexicographic order compares any two sequences.
pub proof fn law_lex_connected(a: Seq<int>, b: Seq<int>)
    ensures
        lex_le(a, b) || lex_le(b, a),
        lex_le(a, b) && lex_le(b, a) ==> a == b,
    decreases a.len(),
{
    if a.len() > 0 && b.len() > 0 {
        law_lex_connected(a.skip(1), b.skip(1));
        if a[0] == b[0] && a.skip(1) == b.skip(1) {
            assert(a =~= seq![a[0]] + a.skip(1));
            assert(b =~= seq![b[0]] + b.skip(1));
        }
    } else if a.len() == 0 && b.len() == 0 {
        assert(a =~= b);
    }
}

/// The lexicographic order is transitive.
pub proof fn law_lex_transitive(a: Seq<int>, b: Seq<int>, c: Seq<int>)
    requires
        lex_le(a, b),
        lex_le(b, c),
    ensures
        lex_le(a, c),
    decreases a.len(),
{
    if a.len() > 0 && b.len() > 0 && c.len() > 0 && a[0] == b[0] && b[0] == c[0] {
        law_lex_transitive(a.skip(1), b.skip(1), c.skip(1));
    }
}

/// Byte strings in the order of their bytes.
pub open spec fn bytes_le(a: Seq<u8>, b: Seq<u8>) -> bool {
    lex_le(a.map_values(|x: u8| x as int), b.map_values(|x: u8| x as int))
}

/// Texts in the order of their characters, which is that of their UTF-8 bytes.
pub open spec fn text_le(a: Seq<char>, b: Seq<char>) -> bool {
    lex_le(codes(a), codes(b))
}

/// The code points of a text.
pub open spec fn codes(a: Seq<char>) -> Seq<int> {
    Seq::new(a.len(), |i: int| a[i] as int)
}

impl Ranked for Vec<u8> {
    open spec fn ranks_le(a: Seq<u8>, b: Seq<u8>) -> bool {
        bytes_le(a, b)
    }

    fn may_precede(&self, other: &Self) -> (r: bool) {
        let ghost a = self@.map_values(|x: u8| x as int);
        let ghost b = other@.map_values(|x: u8| x as int);
        let mut i: usize = 0;
        assert(a.skip(0) =~= a && b.skip(0) =~= b);
        while i < self.len() && i < other.len()
            invariant
                i <= self@.len(),
                i <= other@.len(),
                a == self@.map_values(|x: u8| x as int),
                b == other@.map_values(|x: u8| x as int),
                lex_le(a, b) == lex_le(a.skip(i as int), b.skip(i as int)),
            decreases self@.len() - i,
        {
            assert(a.skip(i as int).skip(1) =~= a.skip(i + 1));
            assert(b.skip(i as int).skip(1) =~= b.skip(i + 1));
            if self[i] != other[i] {
                return self[i] < other[i];
            }
            i += 1;
        }
        i == self.len()
    }
}

pub fn text_may_precede(left: &str, right: &str) -> (r: bool)
    ensures
        r == text_le(left@, right@),
{
    let x = chars_of(left);
    let y = chars_of(right);
    let ghost a = codes(left@);
    let ghost b = codes(right@);
    let mut i: usize = 0;
    assert(a.skip(0) =~= a && b.skip(0) =~= b);
    while i < x.len() && i < y.len()
        invariant
            i <= x@.len(),
            i <= y@.len(),
            x@ == left@,
            y@ == right@,
            a == codes(left@),
            b == codes(right@),
            lex_le(a, b) == lex_le(a.skip(i as int), b.skip(i as int)),
        decreases x@.len() - i,
    {
        assert(a.skip(i as int).skip(1) =~= a.skip(i + 1));
        assert(b.skip(i as int).skip(1) =~= b.skip(i + 1));
        if x[i] != y[i] {
            proof {
                lemma_code_injective(x@[i as int], y@[i as int]);
            }
            return x[i] < y[i];
        }
        i += 1;
    }
    i == x.len()
}

/// Two characters with the same code point are equal.
pub proof fn lemma_code_injective(a: char, b: char)
    ensures
        a as int == b as int <==> a == b,
{
}

impl Ranked for String {
    open spec fn ranks_le(a: Seq<char>, b: Seq<char>) -> bool {
        text_le(a, b)
    }

    fn may_precede(&self, other: &Self) -> (r: bool) {
        text_may_precede(self.as_str(), other.as_str())
    }
}

} // verus!
