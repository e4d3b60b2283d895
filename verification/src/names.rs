//! Sets of names, kept in order.

use vstd::prelude::*;

use crate::text;
use crate::text::{is_before, text_eq};

verus! {

/// Whether the names stand in strictly ascending order.
pub open spec fn ascending(list: Seq<Seq<char>>) -> bool {
    forall|i: int, j: int|
        0 <= i < j < list.len() ==> text::text_before(#[trigger] list[i], #[trigger] list[j])
}

/// The names of a finite set, in ascending order.
pub open spec fn in_order(set: Set<Seq<char>>) -> Seq<Seq<char>> {
    choose|list: Seq<Seq<char>>| ascending(list) && #[trigger] list.to_set() == set
}

/// Of two names exactly one comes first, or they are the same.
pub proof fn lemma_order_total(a: Seq<char>, b: Seq<char>)
    ensures
        text::text_before(a, b) ==> !text::text_before(b, a) && a != b,
        text::text_before(a, b) || text::text_before(b, a) || a == b,
    decreases a.len(),
{
    if a.len() > 0 && b.len() > 0 && a[0] == b[0] {
        lemma_order_total(a.skip(1), b.skip(1));
        if a.skip(1) == b.skip(1) {
            assert(a =~= seq![a[0]] + a.skip(1));
            assert(b =~= seq![b[0]] + b.skip(1));
        }
    } else if a.len() == 0 && b.len() == 0 {
        assert(a =~= b);
    }
}

/// What comes before a name comes before those after it.
pub proof fn lemma_order_transitive(a: Seq<char>, b: Seq<char>, c: Seq<char>)
    requires
        text::text_before(a, b),
        text::text_before(b, c),
    ensures
        text::text_before(a, c),
    decreases a.len(),
{
    if a.len() > 0 && a[0] == b[0] && b[0] == c[0] {
        lemma_order_transitive(a.skip(1), b.skip(1), c.skip(1));
    }
}

/// Two ascending lists of the same names are the same list.
pub proof fn lemma_ascending_unique(a: Seq<Seq<char>>, b: Seq<Seq<char>>)
    requires
        ascending(a),
        ascending(b),
        a.to_set() == b.to_set(),
    ensures
        a == b,
    decreases a.len(),
{
    if a.len() == 0 {
        if b.len() > 0 {
            assert(b.to_set().contains(b[0]));
            assert(a.contains(b[0]));
        }
        assert(a =~= b);
    } else {
        assert(a.to_set().contains(a[0]));
        assert(b.contains(a[0]));
        assert(b.to_set().contains(b[0]));
        assert(a.contains(b[0]));
        let i = choose|i: int| 0 <= i < a.len() && a[i] == b[0];
        let j = choose|j: int| 0 <= j < b.len() && b[j] == a[0];
        lemma_order_total(a[0], b[0]);
        assert(a[0] == b[0]);
        let x = a.skip(1);
        let y = b.skip(1);
        assert(ascending(x)) by {
            assert forall|p: int, q: int| 0 <= p < q < x.len() implies text::text_before(
                #[trigger] x[p],
                #[trigger] x[q],
            ) by {
                assert(x[p] == a[p + 1] && x[q] == a[q + 1]);
            }
        }
        assert(ascending(y)) by {
            assert forall|p: int, q: int| 0 <= p < q < y.len() implies text::text_before(
                #[trigger] y[p],
                #[trigger] y[q],
            ) by {
                assert(y[p] == b[p + 1] && y[q] == b[q + 1]);
            }
        }
        assert forall|s: Seq<char>| #[trigger] x.to_set().contains(s) == y.to_set().contains(
            s,
        ) by {
            lemma_tail(a, s);
            lemma_tail(b, s);
            assert(a.to_set().contains(s) == b.to_set().contains(s));
        }
        assert(x.to_set() =~= y.to_set());
        lemma_ascending_unique(x, y);
        assert(a =~= seq![a[0]] + x);
        assert(b =~= seq![b[0]] + y);
    }
}

/// What stands behind the first name of an ascending list is what else is in the list.
proof fn lemma_tail(a: Seq<Seq<char>>, s: Seq<char>)
    requires
        ascending(a),
        a.len() > 0,
    ensures
        a.skip(1).to_set().contains(s) == (a.to_set().contains(s) && s != a[0]),
{
    let x = a.skip(1);
    if x.contains(s) {
        let p = choose|p: int| 0 <= p < x.len() && x[p] == s;
        assert(a[p + 1] == s);
        lemma_order_total(a[0], a[p + 1]);
    }
    if a.contains(s) && s != a[0] {
        let p = choose|p: int| 0 <= p < a.len() && a[p] == s;
        assert(x[p - 1] == s);
    }
}

/// A set of names.
#[derive(Debug)]
pub struct NameSet {
    pub names: Vec<String>,
}

impl View for NameSet {
    type V = Set<Seq<char>>;

    open spec fn view(&self) -> Set<Seq<char>> {
        text::texts(self.names@).to_set()
    }
}

impl NameSet {
    /// The names stand in ascending order, and none occurs twice.
    pub open spec fn wf(self) -> bool {
        ascending(text::texts(self.names@))
    }

    /// The names of a set in order are those that it holds.
    pub proof fn lemma_in_order(self)
        requires
            self.wf(),
        ensures
            text::texts(self.names@) == in_order(self@),
    {
        let list = text::texts(self.names@);
        assert(ascending(list) && list.to_set() == self@);
        lemma_ascending_unique(list, in_order(self@));
    }

    /// No names.
    pub fn new() -> (set: NameSet)
        ensures
            set.wf(),
            set@ == Set::<Seq<char>>::empty(),
    {
        let set = NameSet { names: Vec::new() };
        assert(set@ =~= Set::<Seq<char>>::empty());
        set
    }

    /// Adds a name.
    pub fn insert(&mut self, name: &str)
        requires
            old(self).wf(),
        ensures
            final(self).wf(),
            final(self)@ == old(self)@.insert(name@),
    {
        let ghost before = text::texts(self.names@);
        let mut i: usize = 0;
        while i < self.names.len() && is_before(self.names[i].as_str(), name)
            invariant
                i <= self.names@.len(),
                before == text::texts(self.names@),
                *self == *old(self),
                forall|j: int| 0 <= j < i ==> text::text_before(#[trigger] before[j], name@),
            decreases self.names@.len() - i,
        {
            i += 1;
        }
        if i < self.names.len() && text_eq(self.names[i].as_str(), name) {
            proof {
                assert(before[i as int] == name@);
                assert(before.to_set().contains(name@));
                assert(self@ =~= old(self)@.insert(name@));
            }
            return ;
        }
        proof {
            if i < self.names@.len() {
                lemma_order_total(before[i as int], name@);
            }
        }
        self.names.insert(i, name.to_owned());
        proof {
            let after = text::texts(self.names@);
            assert(after =~= before.insert(i as int, name@));
            assert forall|p: int, q: int| 0 <= p < q < after.len() implies text::text_before(
                #[trigger] after[p],
                #[trigger] after[q],
            ) by {
                if p < i && q > i {
                    assert(text::text_before(before[p], before[q - 1]));
                } else if p == i {
                    assert(after[q] == before[q - 1]);
                    if q - 1 > i {
                        assert(text::text_before(before[i as int], before[q - 1]));
                        lemma_order_transitive(name@, before[i as int], before[q - 1]);
                    }
                } else if p > i {
                    assert(text::text_before(before[p - 1], before[q - 1]));
                } else if q < i {
                    assert(text::text_before(before[p], before[q]));
                }
            }
            assert forall|s: Seq<char>| #[trigger] after.to_set().contains(s)
                == before.to_set().insert(name@).contains(s) by {
                if after.contains(s) {
                    let p = choose|p: int| 0 <= p < after.len() && after[p] == s;
                    if p < i {
                        assert(before[p] == s);
                    } else if p > i {
                        assert(before[p - 1] == s);
                    }
                }
                if before.contains(s) {
                    let p = choose|p: int| 0 <= p < before.len() && before[p] == s;
                    if p < i {
                        assert(after[p] == s);
                    } else {
                        assert(after[p + 1] == s);
                    }
                }
                assert(after[i as int] == name@);
            }
            assert(self@ =~= old(self)@.insert(name@));
        }
    }

    /// Whether two sets hold the same names.
    pub fn same(&self, other: &NameSet) -> (same: bool)
        requires
            self.wf(),
            other.wf(),
        ensures
            same == (self@ == other@),
    {
        let ghost a = text::texts(self.names@);
        let ghost b = text::texts(other.names@);
        proof {
            if self@ == other@ {
                lemma_ascending_unique(a, b);
            }
            assert(a.len() == self.names@.len());
            assert(b.len() == other.names@.len());
        }
        if self.names.len() != other.names.len() {
            return false;
        }
        let mut i: usize = 0;
        while i < self.names.len()
            invariant
                i <= self.names@.len(),
                self.names@.len() == other.names@.len(),
                a == text::texts(self.names@),
                b == text::texts(other.names@),
                self@ == other@ ==> a == b,
                forall|j: int| 0 <= j < i ==> #[trigger] a[j] == b[j],
            decreases self.names@.len() - i,
        {
            if !text_eq(self.names[i].as_str(), other.names[i].as_str()) {
                assert(a[i as int] != b[i as int]);
                return false;
            }
            i += 1;
        }
        assert(a =~= b);
        true
    }
}

} // verus!
