//! Sets of tool names, kept in dictionary order.

use vstd::prelude::*;
use crate::deep::{deep, group_deep};
use crate::strings::{comes_before, is_before, lemma_order_is_total, lemma_order_is_transitive};

verus! {

broadcast use group_deep;

/// A set of tool names.
#[derive(Debug, PartialEq, Eq)]
pub struct ToolNames {
    names: Vec<String>,
}

/// Whether the names are in dictionary order, with none of them twice.
pub open spec fn in_order(names: Seq<Seq<char>>) -> bool {
    forall|i: int, j: int|
        0 <= i < j < names.len() ==> comes_before(#[trigger] names[i], #[trigger] names[j])
}

impl DeepView for ToolNames {
    type V = Seq<Seq<char>>;

    closed spec fn deep_view(&self) -> Seq<Seq<char>> {
        deep(self.names@)
    }
}

impl Clone for ToolNames {
    fn clone(&self) -> (copy: Self)
        ensures
            copy.deep_view() == self.deep_view(),
    {
        proof {
            use_type_invariant(self);
        }
        let names = self.names.clone();
        assert(deep(names@) =~= deep(self.names@));
        ToolNames { names }
    }
}

/// Two name lists in order with the same members are the same list.
pub proof fn lemma_same_members_same_list(a: Seq<Seq<char>>, b: Seq<Seq<char>>)
    requires
        in_order(a),
        in_order(b),
        forall|name: Seq<char>| a.contains(name) <==> b.contains(name),
    ensures
        a == b,
    decreases a.len(),
{
    if a.len() == 0 {
        if b.len() > 0 {
            assert(b.contains(b[0]));
        }
        assert(a =~= b);
    } else {
        assert(a.contains(a.last()));
        assert(b.contains(a.last()));
        assert(b.contains(b.last()));
        assert(a.contains(b.last()));
        let i = choose|i: int| 0 <= i < b.len() && b[i] == a.last();
        let j = choose|j: int| 0 <= j < a.len() && a[j] == b.last();
        lemma_order_is_total(a.last(), b.last());
        assert(a.last() == b.last());
        let c = a.drop_last();
        let d = b.drop_last();
        assert forall|name: Seq<char>| c.contains(name) implies d.contains(name) by {
            let k = choose|k: int| 0 <= k < c.len() && c[k] == name;
            assert(a[k] == name);
            lemma_order_is_total(a[k], a.last());
            assert(a.contains(name));
            let m = choose|m: int| 0 <= m < b.len() && b[m] == name;
            assert(m < b.len() - 1);
            assert(d[m] == name);
        }
        assert forall|name: Seq<char>| d.contains(name) implies c.contains(name) by {
            let k = choose|k: int| 0 <= k < d.len() && d[k] == name;
            assert(b[k] == name);
            lemma_order_is_total(b[k], b.last());
            assert(b.contains(name));
            let m = choose|m: int| 0 <= m < a.len() && a[m] == name;
            assert(m < a.len() - 1);
            assert(c[m] == name);
        }
        lemma_same_members_same_list(c, d);
        assert(a =~= c.push(a.last()));
        assert(b =~= d.push(b.last()));
    }
}

/// Whether `listed` is the given names in dictionary order, none of them twice.
pub open spec fn lists(listed: Seq<Seq<char>>, names: Seq<Seq<char>>) -> bool {
    in_order(listed) && forall|name: Seq<char>| #[trigger]
        listed.contains(name) <==> names.contains(name)
}

/// The given names in dictionary order, none of them twice.
pub open spec fn name_set(names: Seq<Seq<char>>) -> Seq<Seq<char>> {
    choose|listed: Seq<Seq<char>>| lists(listed, names)
}

/// There is only one such list.
pub proof fn lemma_name_set_is_unique(listed: Seq<Seq<char>>, names: Seq<Seq<char>>)
    requires
        lists(listed, names),
    ensures
        listed == name_set(names),
        lists(name_set(names), names),
{
    let chosen = name_set(names);
    assert(lists(chosen, names));
    assert forall|name: Seq<char>| listed.contains(name) <==> chosen.contains(name) by {
        assert(names.contains(name) <==> listed.contains(name));
    }
    lemma_same_members_same_list(listed, chosen);
}

proof fn lemma_list_with(listed: Seq<Seq<char>>, names: Seq<Seq<char>>, name: Seq<char>) -> (longer: Seq<
    Seq<char>,
>)
    requires
        lists(listed, names),
    ensures
        lists(longer, names.push(name)),
    decreases listed.len(),
{
    let all = names.push(name);
    assert(all[names.len() as int] == name);
    assert forall|other: Seq<char>|
        all.contains(other) <==> names.contains(other) || other == name by {
        if names.contains(other) {
            let k = choose|k: int| 0 <= k < names.len() && names[k] == other;
            assert(all[k] == other);
        }
        if all.contains(other) {
            let k = choose|k: int| 0 <= k < all.len() && all[k] == other;
            if k < names.len() {
                assert(names[k] == other);
            }
        }
    }
    let place = lemma_place(listed, name);
    if listed.contains(name) {
        listed
    } else {
        lemma_insert_in_order(listed, place, name);
        listed.insert(place, name)
    }
}

/// The place of a name among others in order: behind those that come before it.
proof fn lemma_place(listed: Seq<Seq<char>>, name: Seq<char>) -> (place: int)
    requires
        in_order(listed),
    ensures
        0 <= place <= listed.len(),
        forall|i: int| 0 <= i < place ==> comes_before(#[trigger] listed[i], name),
        place < listed.len() ==> !comes_before(listed[place], name),
    decreases listed.len(),
{
    if listed.len() == 0 || comes_before(listed.last(), name) {
        assert forall|i: int| 0 <= i < listed.len() implies comes_before(
            #[trigger] listed[i],
            name,
        ) by {
            if i < listed.len() - 1 {
                lemma_order_is_transitive(listed[i], listed.last(), name);
            }
        }
        listed.len() as int
    } else {
        let place = lemma_place(listed.drop_last(), name);
        assert forall|i: int| 0 <= i < place implies comes_before(#[trigger] listed[i], name) by {
            assert(listed.drop_last()[i] == listed[i]);
        }
        place
    }
}

/// Putting a new name in its place keeps the order.
proof fn lemma_insert_in_order(before: Seq<Seq<char>>, place: int, text: Seq<char>)
    requires
        in_order(before),
        !before.contains(text),
        0 <= place <= before.len(),
        forall|i: int| 0 <= i < place ==> comes_before(#[trigger] before[i], text),
        place < before.len() ==> !comes_before(before[place], text),
    ensures
        in_order(before.insert(place, text)),
        forall|other: Seq<char>| #[trigger]
            before.insert(place, text).contains(other) <==> before.contains(other) || other == text,
{
    let after = before.insert(place, text);
    assert forall|j: int, k: int| 0 <= j < k < after.len() implies comes_before(
        #[trigger] after[j],
        #[trigger] after[k],
    ) by {
        if place < before.len() {
            lemma_order_is_total(before[place], text);
            assert(before.contains(before[place]));
        }
        if j == place {
            if k > place + 1 {
                lemma_order_is_transitive(text, before[place], before[k - 1]);
            }
        } else if k == place {
            assert(after[j] == before[j]);
        }
    }
    assert forall|other: Seq<char>|
        #[trigger] after.contains(other) <==> before.contains(other) || other == text by {
        if before.contains(other) {
            let k = choose|k: int| 0 <= k < before.len() && before[k] == other;
            assert(after[if k < place { k } else { k + 1 }] == other);
        }
        if after.contains(other) {
            let k = choose|k: int| 0 <= k < after.len() && after[k] == other;
            if k != place {
                assert(before[if k < place { k } else { k - 1 }] == other);
            }
        }
        assert(after[place] == text);
    }
}

/// There is such a list.
pub proof fn lemma_name_set_exists(names: Seq<Seq<char>>)
    ensures
        lists(name_set(names), names),
{
    let listed = lemma_some_list(names);
    lemma_name_set_is_unique(listed, names);
}

proof fn lemma_some_list(names: Seq<Seq<char>>) -> (listed: Seq<Seq<char>>)
    ensures
        lists(listed, names),
    decreases names.len(),
{
    if names.len() == 0 {
        let listed = Seq::<Seq<char>>::empty();
        assert forall|name: Seq<char>| #[trigger] listed.contains(name) <==> names.contains(name) by {
        }
        listed
    } else {
        let earlier = lemma_some_list(names.drop_last());
        assert(names =~= names.drop_last().push(names.last()));
        lemma_list_with(earlier, names.drop_last(), names.last())
    }
}

impl ToolNames {
    #[verifier::type_invariant]
    pub closed spec fn ordered(self) -> bool {
        in_order(deep(self.names@))
    }

    /// No names.
    pub fn new() -> (set: Self)
        ensures
            set.deep_view() == Seq::<Seq<char>>::empty(),
    {
        let names: Vec<String> = Vec::new();
        assert(deep(names@) =~= Seq::empty());
        ToolNames { names }
    }

    /// The names in dictionary order.
    pub fn names(&self) -> (names: &Vec<String>)
        ensures
            deep(names@) == self.deep_view(),
            in_order(self.deep_view()),
    {
        proof {
            use_type_invariant(self);
        }
        &self.names
    }

    /// Whether there is no name.
    pub fn is_empty(&self) -> (empty: bool)
        ensures
            empty == (self.deep_view().len() == 0),
    {
        self.names.len() == 0
    }

    /// Whether `name` is in the set.
    pub fn contains(&self, name: &String) -> (found: bool)
        ensures
            found == self.deep_view().contains(name@),
    {
        let ghost all = self.deep_view();
        let mut i: usize = 0;
        while i < self.names.len()
            invariant
                i <= self.names@.len(),
                all == deep(self.names@),
                forall|k: int| 0 <= k < i ==> #[trigger] all[k] != name@,
            decreases self.names@.len() - i,
        {
            if self.names[i] == *name {
                assert(all[i as int] == name@);
                return true;
            }
            i = i + 1;
        }
        false
    }

    /// The set with `name` in it.
    pub fn with(self, name: String) -> (set: Self)
        ensures
            forall|other: Seq<char>|
                set.deep_view().contains(other) <==> self.deep_view().contains(other) || other
                    == name@,
            in_order(set.deep_view()),
    {
        proof {
            use_type_invariant(&self);
        }
        let ghost before = self.deep_view();
        let mut names = self.names;
        let mut i: usize = 0;
        while i < names.len() && is_before(names[i].as_str(), name.as_str())
            invariant
                i <= names@.len(),
                before == deep(names@),
                in_order(before),
                forall|k: int| 0 <= k < i ==> comes_before(#[trigger] before[k], name@),
            decreases names@.len() - i,
        {
            i = i + 1;
        }
        if i < names.len() && names[i] == name {
            assert(before[i as int] == name@);
            return ToolNames { names };
        }
        assert(!before.contains(name@)) by {
            if before.contains(name@) {
                let k = choose|k: int| 0 <= k < before.len() && before[k] == name@;
                if k < i {
                    lemma_order_is_total(before[k], name@);
                } else {
                    lemma_order_is_total(before[i as int], name@);
                    if k > i {
                        lemma_order_is_total(before[i as int], before[k]);
                    }
                }
            }
        }
        proof {
            lemma_insert_in_order(before, i as int, name@);
        }
        names.insert(i, name);
        ToolNames { names }
    }

    /// The set of the given names.
    pub fn from_names(list: Vec<String>) -> (set: Self)
        ensures
            set.deep_view() == name_set(deep(list@)),
            lists(set.deep_view(), deep(list@)),
    {
        let mut set = ToolNames::new();
        let ghost all = deep(list@);
        let mut i: usize = 0;
        while i < list.len()
            invariant
                i <= list@.len(),
                all == deep(list@),
                in_order(set.deep_view()),
                forall|name: Seq<char>|
                    set.deep_view().contains(name) <==> all.take(i as int).contains(name),
            decreases list@.len() - i,
        {
            let ghost earlier = all.take(i as int);
            let ghost next = all.take(i + 1);
            assert(next =~= earlier.push(list@[i as int]@));
            set = set.with(list[i].clone());
            proof {
                assert forall|name: Seq<char>|
                    next.contains(name) <==> earlier.contains(name) || name == list@[i as int]@ by {
                    if earlier.contains(name) {
                        let k = choose|k: int| 0 <= k < earlier.len() && earlier[k] == name;
                        assert(next[k] == name);
                    }
                    assert(next[i as int] == list@[i as int]@);
                    if next.contains(name) {
                        let k = choose|k: int| 0 <= k < next.len() && next[k] == name;
                        if k < i {
                            assert(earlier[k] == name);
                        }
                    }
                }
            }
            i = i + 1;
        }
        assert(all.take(i as int) =~= all);
        proof {
            lemma_name_set_is_unique(set.deep_view(), all);
        }
        set
    }
}

} // verus!
