//! The gradients to choose from, by name, and the one in use.
use vstd::prelude::*;

use super::gradient::{Gradient, Stop};
use crate::error::{Error, ErrorView};
use crate::text::{comes_before, same_text};

verus! {

/// What the set of gradients holds: each gradient by name, and the name of
/// the one in use.
#[verifier::ext_equal]
pub struct GradientsView {
    pub current: Option<Seq<char>>,
    pub gradients: Map<Seq<char>, Seq<Stop>>,
}

/// A gradient as it is listed.
#[derive(Debug)]
pub struct GradientInfo {
    pub name: String,
    pub selected: bool,
    pub data: Gradient,
}

/// The model of a [`GradientInfo`].
#[verifier::ext_equal]
pub struct InfoView {
    pub name: Seq<char>,
    pub selected: bool,
    pub stops: Seq<Stop>,
}

impl View for GradientInfo {
    type V = InfoView;

    open spec fn view(&self) -> InfoView {
        InfoView { name: self.name@, selected: self.selected, stops: self.data@ }
    }
}

/// The model of a list of gradients.
pub open spec fn infos(list: Seq<GradientInfo>) -> Seq<InfoView> {
    list.map_values(|info: GradientInfo| info@)
}

/// The named gradients, in the order of their names, and the name in use.
pub struct Gradients {
    current: Option<String>,
    gradients: Vec<(String, Gradient)>,
}

// -- Model

/// The gradient of the given name.
pub open spec fn lookup(v: GradientsView, name: Seq<char>) -> Option<Seq<Stop>> {
    if v.gradients.contains_key(name) {
        Some(v.gradients[name])
    } else {
        None
    }
}

/// The gradient in use.
pub open spec fn in_use(v: GradientsView) -> Option<Seq<Stop>> {
    match v.current {
        Some(name) => lookup(v, name),
        None => None,
    }
}

/// The set once the gradient of the given name is in use.
pub open spec fn chosen(v: GradientsView, name: Seq<char>) -> GradientsView {
    GradientsView { current: Some(name), ..v }
}

/// The set once a gradient was put under the given name, which puts it in
/// use.
pub open spec fn added(v: GradientsView, name: Seq<char>, stops: Seq<Stop>) -> GradientsView {
    GradientsView { current: Some(name), gradients: v.gradients.insert(name, stops) }
}

/// The set once the gradient of the given name was taken out. If it was in
/// use, none is any more.
pub open spec fn deleted(v: GradientsView, name: Seq<char>) -> GradientsView {
    GradientsView {
        current: if v.current == Some(name) {
            None
        } else {
            v.current
        },
        gradients: v.gradients.remove(name),
    }
}

/// Whether the gradient in use is one of the set.
pub open spec fn coherent(v: GradientsView) -> bool {
    v.current matches Some(name) ==> v.gradients.contains_key(name)
}

/// The names of a list.
pub open spec fn listed_names(list: Seq<InfoView>) -> Seq<Seq<char>> {
    list.map_values(|info: InfoView| info.name)
}

/// Whether a list is the set, each gradient once, in the order of the names,
/// the one in use marked as selected.
pub open spec fn lists(v: GradientsView, list: Seq<InfoView>) -> bool {
    &&& crate::text::ascending(listed_names(list))
    &&& forall|i: int|
        0 <= i < list.len() ==> lookup(v, (#[trigger] list[i]).name) == Some(list[i].stops)
            && list[i].selected == (v.current == Some(list[i].name))
    &&& forall|name: Seq<char>| #[trigger]
        v.gradients.contains_key(name) ==> listed_names(list).contains(name)
}

/// The list of the set.
pub open spec fn listing(v: GradientsView) -> Seq<InfoView> {
    choose|list: Seq<InfoView>| lists(v, list)
}

/// A set has one list.
pub proof fn lemma_listing_is_determined(v: GradientsView, a: Seq<InfoView>, b: Seq<InfoView>)
    requires
        lists(v, a),
        lists(v, b),
    ensures
        a == b,
        a == listing(v),
{
    assert forall|x: Seq<InfoView>, y: Seq<InfoView>| lists(v, x) && lists(v, y) implies x == y by {
        lemma_lists_agree(v, x, y);
    }
    assert(lists(v, listing(v)));
}

proof fn lemma_lists_agree(v: GradientsView, a: Seq<InfoView>, b: Seq<InfoView>)
    requires
        lists(v, a),
        lists(v, b),
    ensures
        a == b,
{
    let x = listed_names(a);
    let y = listed_names(b);
    assert forall|n: Seq<char>| x.contains(n) <==> y.contains(n) by {
        if x.contains(n) {
            let i = choose|i: int| 0 <= i < x.len() && x[i] == n;
            assert(lookup(v, a[i].name) == Some(a[i].stops));
        }
        if y.contains(n) {
            let i = choose|i: int| 0 <= i < y.len() && y[i] == n;
            assert(lookup(v, b[i].name) == Some(b[i].stops));
        }
    }
    crate::text::lemma_ascending_unique(x, y);
    assert(a.len() == x.len() && b.len() == y.len());
    assert forall|i: int| 0 <= i < a.len() implies a[i] == b[i] by {
        assert(x[i] == a[i].name && y[i] == b[i].name);
        assert(lookup(v, a[i].name) == Some(a[i].stops));
        assert(lookup(v, b[i].name) == Some(b[i].stops));
    }
    assert(a =~= b);
}

/// In the list of a set, a gradient is marked as selected exactly if it is
/// the one in use, and if one is in use it is in the list.
pub proof fn lemma_one_is_selected(v: GradientsView, list: Seq<InfoView>)
    requires
        coherent(v),
        lists(v, list),
    ensures
        v.current is None <==> forall|i: int| 0 <= i < list.len() ==> !(#[trigger] list[i]).selected,
        forall|i: int, j: int|
            0 <= i < list.len() && 0 <= j < list.len() && (#[trigger] list[i]).selected && (
            #[trigger] list[j]).selected ==> i == j,
{
    let names = listed_names(list);
    if v.current is Some {
        let name = v.current->0;
        assert(names.contains(name));
        let i = choose|i: int| 0 <= i < names.len() && names[i] == name;
        assert(list[i].name == name);
        assert(list[i].selected);
    }
    assert forall|i: int, j: int|
        0 <= i < list.len() && 0 <= j < list.len() && (#[trigger] list[i]).selected && (
        #[trigger] list[j]).selected implies i == j by {
        assert(names[i] == list[i].name && names[j] == list[j].name);
        crate::text::lemma_names_are_ordered(names[i], names[j], names[i]);
        if i < j {
            assert(crate::text::name_before(names[i], names[j]));
        } else if j < i {
            assert(crate::text::name_before(names[j], names[i]));
        }
    }
}

/// What was put under a name is found there and is in use, and nothing else
/// has changed.
pub proof fn lemma_added_is_found(
    v: GradientsView,
    name: Seq<char>,
    stops: Seq<Stop>,
    other: Seq<char>,
)
    ensures
        lookup(added(v, name, stops), name) == Some(stops),
        in_use(added(v, name, stops)) == Some(stops),
        other != name ==> lookup(added(v, name, stops), other) == lookup(v, other),
        coherent(added(v, name, stops)),
{
}

/// What was taken out is not found and not in use, and nothing else has
/// changed: the gradient in use stays in use.
pub proof fn lemma_deleted_is_gone(v: GradientsView, name: Seq<char>, other: Seq<char>)
    requires
        coherent(v),
    ensures
        lookup(deleted(v, name), name) is None,
        deleted(v, name).current != Some(name),
        other != name ==> lookup(deleted(v, name), other) == lookup(v, other),
        v.current != Some(name) ==> in_use(deleted(v, name)) == in_use(v),
        coherent(deleted(v, name)),
        deleted(deleted(v, name), name) == deleted(v, name),
{
    assert(deleted(deleted(v, name), name) =~= deleted(v, name));
}

/// Choosing a gradient that exists puts it in use and changes no gradient.
pub proof fn lemma_chosen_is_in_use(v: GradientsView, name: Seq<char>)
    requires
        v.gradients.contains_key(name),
    ensures
        chosen(v, name).current == Some(name),
        in_use(chosen(v, name)) == Some(v.gradients[name]),
        chosen(v, name).gradients == v.gradients,
{
}

/// What a name leads to is the gradient that stands under it, and nothing if
/// none does. In use is the one that the name in use leads to.
pub proof fn lemma_names_lead_to_gradients(v: GradientsView, name: Seq<char>)
    ensures
        v.gradients.contains_key(name) ==> lookup(v, name) == Some(v.gradients[name]),
        !v.gradients.contains_key(name) ==> lookup(v, name) is None,
        v.current is None ==> in_use(v) is None,
        v.current == Some(name) ==> in_use(v) == lookup(v, name),
{
}

/// A list holds every gradient of the set once and nothing else, in the order
/// of the names, and marks the one in use and no other.
pub proof fn lemma_list_is_the_set(v: GradientsView, list: Seq<InfoView>, i: int, j: int)
    requires
        lists(v, list),
        0 <= i < j < list.len(),
    ensures
        crate::text::name_before(list[i].name, list[j].name),
        list[i].name != list[j].name,
        v.gradients.contains_key(list[i].name),
        v.gradients[list[i].name] == list[i].stops,
        v.gradients.contains_key(list[j].name),
        v.gradients[list[j].name] == list[j].stops,
        list[i].selected <==> v.current == Some(list[i].name),
        list[j].selected <==> v.current == Some(list[j].name),
{
    let names = listed_names(list);
    assert(names[i] == list[i].name && names[j] == list[j].name);
    crate::text::lemma_names_are_ordered(list[i].name, list[i].name, list[i].name);
    assert(lookup(v, list[i].name) == Some(list[i].stops));
    assert(lookup(v, list[j].name) == Some(list[j].stops));
}

/// A list is as long as the set has gradients: each is found in it.
pub proof fn lemma_list_misses_none(v: GradientsView, list: Seq<InfoView>, name: Seq<char>)
    requires
        lists(v, list),
    ensures
        v.gradients.contains_key(name) <==> exists|i: int|
            0 <= i < list.len() && (#[trigger] list[i]).name == name,
        v.gradients.contains_key(name) ==> exists|i: int|
            0 <= i < list.len() && (#[trigger] list[i]).name == name && list[i].stops
                == v.gradients[name] && (list[i].selected <==> v.current == Some(name)),
{
    let names = listed_names(list);
    if v.gradients.contains_key(name) {
        assert(names.contains(name));
        let i = choose|i: int| 0 <= i < names.len() && names[i] == name;
        assert(list[i].name == name);
        assert(lookup(v, list[i].name) == Some(list[i].stops));
    }
    if exists|i: int| 0 <= i < list.len() && (#[trigger] list[i]).name == name {
        let i = choose|i: int| 0 <= i < list.len() && (#[trigger] list[i]).name == name;
        assert(lookup(v, list[i].name) == Some(list[i].stops));
    }
}

/// Taking out what was just put under a new name leaves the gradients as they
/// were, with none in use.
pub proof fn lemma_delete_undoes_add(v: GradientsView, name: Seq<char>, stops: Seq<Stop>)
    requires
        lookup(v, name) is None,
    ensures
        deleted(added(v, name, stops), name).gradients == v.gradients,
        deleted(added(v, name, stops), name).current is None,
{
    assert(v.gradients.insert(name, stops).remove(name) =~= v.gradients);
}

// -- Entries

spec fn names_of(entries: Seq<(String, Gradient)>) -> Seq<Seq<char>> {
    Seq::new(entries.len(), |i: int| entries[i].0@)
}

spec fn index_of(entries: Seq<(String, Gradient)>, name: Seq<char>) -> int {
    choose|i: int| 0 <= i < entries.len() && (#[trigger] entries[i]).0@ == name
}

spec fn map_of(entries: Seq<(String, Gradient)>) -> Map<Seq<char>, Seq<Stop>> {
    Map::new(
        |name: Seq<char>|
            exists|i: int| 0 <= i < entries.len() && (#[trigger] entries[i]).0@ == name,
        |name: Seq<char>| entries[index_of(entries, name)].1@,
    )
}

proof fn lemma_entry(entries: Seq<(String, Gradient)>, i: int)
    requires
        crate::text::ascending(names_of(entries)),
        0 <= i < entries.len(),
    ensures
        map_of(entries).contains_key(entries[i].0@),
        map_of(entries)[entries[i].0@] == entries[i].1@,
{
    let name = entries[i].0@;
    let k = index_of(entries, name);
    let names = names_of(entries);
    assert(names[i] == name && names[k] == name);
    crate::text::lemma_names_are_ordered(name, name, name);
    if k < i {
        assert(crate::text::name_before(names[k], names[i]));
    } else if i < k {
        assert(crate::text::name_before(names[i], names[k]));
    }
}

/// Where a name stands among the entries, or belongs.
spec fn stands_at(entries: Seq<(String, Gradient)>, name: Seq<char>, at: int, found: bool) -> bool {
    &&& 0 <= at <= entries.len()
    &&& forall|k: int| 0 <= k < at ==> crate::text::name_before((#[trigger] entries[k]).0@, name)
    &&& found ==> at < entries.len() && entries[at].0@ == name
    &&& !found ==> forall|k: int|
        at <= k < entries.len() ==> crate::text::name_before(name, (#[trigger] entries[k]).0@)
}

proof fn lemma_stands_at(entries: Seq<(String, Gradient)>, name: Seq<char>, at: int, found: bool)
    requires
        crate::text::ascending(names_of(entries)),
        stands_at(entries, name, at, found),
    ensures
        map_of(entries).contains_key(name) == found,
{
    if found {
        lemma_entry(entries, at);
    } else if map_of(entries).contains_key(name) {
        let i = index_of(entries, name);
        crate::text::lemma_names_are_ordered(name, name, name);
        assert(entries[i].0@ == name);
    }
}

proof fn lemma_replace(entries: Seq<(String, Gradient)>, at: int, entry: (String, Gradient))
    requires
        crate::text::ascending(names_of(entries)),
        stands_at(entries, entry.0@, at, true),
    ensures
        crate::text::ascending(names_of(entries.update(at, entry))),
        map_of(entries.update(at, entry)) == map_of(entries).insert(entry.0@, entry.1@),
{
    let next = entries.update(at, entry);
    assert(names_of(next) =~= names_of(entries));
    assert(next[at] == entry);
    assert forall|i: int| 0 <= i < entries.len() && (#[trigger] entries[i]).0@ != entry.0@ implies next.contains(
        entries[i],
    ) by {
        assert(next[i] == entries[i]);
    }
    assert forall|i: int| 0 <= i < next.len() && (#[trigger] next[i]).0@ != entry.0@ implies entries.contains(
        next[i],
    ) by {
        assert(entries[i] == next[i]);
    }
    lemma_same_map(entries, next, entry.0@, entry.1@);
}

/// Two lists of entries that hold the same but for one name.
proof fn lemma_same_map(
    entries: Seq<(String, Gradient)>,
    next: Seq<(String, Gradient)>,
    name: Seq<char>,
    stops: Seq<Stop>,
)
    requires
        crate::text::ascending(names_of(entries)),
        crate::text::ascending(names_of(next)),
        exists|i: int| 0 <= i < next.len() && (#[trigger] next[i]).0@ == name && next[i].1@ == stops,
        forall|i: int|
            0 <= i < entries.len() && (#[trigger] entries[i]).0@ != name ==> next.contains(
                entries[i],
            ),
        forall|i: int|
            0 <= i < next.len() && (#[trigger] next[i]).0@ != name ==> entries.contains(next[i]),
    ensures
        map_of(next) == map_of(entries).insert(name, stops),
{
    let m = map_of(entries).insert(name, stops);
    assert forall|n: Seq<char>| map_of(next).contains_key(n) <==> m.contains_key(n) by {
        if n != name && map_of(next).contains_key(n) {
            let i = index_of(next, n);
            assert(entries.contains(next[i]));
            let k = choose|k: int| 0 <= k < entries.len() && entries[k] == next[i];
            lemma_entry(entries, k);
        }
        if n != name && map_of(entries).contains_key(n) {
            let i = index_of(entries, n);
            assert(next.contains(entries[i]));
            let k = choose|k: int| 0 <= k < next.len() && next[k] == entries[i];
            lemma_entry(next, k);
        }
    }
    assert forall|n: Seq<char>| #[trigger] map_of(next).contains_key(n) implies map_of(next)[n] == m[n] by {
        if n == name {
            let i = choose|i: int|
                0 <= i < next.len() && (#[trigger] next[i]).0@ == name && next[i].1@ == stops;
            lemma_entry(next, i);
        } else {
            let i = index_of(next, n);
            lemma_entry(next, i);
            assert(entries.contains(next[i]));
            let k = choose|k: int| 0 <= k < entries.len() && entries[k] == next[i];
            lemma_entry(entries, k);
        }
    }
    assert(map_of(next) =~= m);
}

proof fn lemma_insert(entries: Seq<(String, Gradient)>, at: int, entry: (String, Gradient))
    requires
        crate::text::ascending(names_of(entries)),
        stands_at(entries, entry.0@, at, false),
    ensures
        crate::text::ascending(names_of(entries.insert(at, entry))),
        map_of(entries.insert(at, entry)) == map_of(entries).insert(entry.0@, entry.1@),
{
    let next = entries.insert(at, entry);
    let names = names_of(next);
    assert forall|i: int| 0 <= i < next.len() implies (#[trigger] next[i]) == (if i < at {
        entries[i]
    } else if i == at {
        entry
    } else {
        entries[i - 1]
    }) by {}
    assert forall|i: int, j: int| 0 <= i < j < names.len() implies crate::text::name_before(
        names[i],
        names[j],
    ) by {
        assert(names[i] == next[i].0@ && names[j] == next[j].0@);
        let old_names = names_of(entries);
        let a = if i < at { i } else { i - 1 };
        let b = if j < at { j } else { j - 1 };
        if i != at && j != at {
            assert(old_names[a] == entries[a].0@ && old_names[b] == entries[b].0@);
            assert(crate::text::name_before(old_names[a], old_names[b]));
        }
    }
    assert(next[at] == entry);
    assert forall|i: int| 0 <= i < entries.len() && (#[trigger] entries[i]).0@ != entry.0@ implies next.contains(
        entries[i],
    ) by {
        assert(next[if i < at { i } else { i + 1 }] == entries[i]);
    }
    assert forall|i: int| 0 <= i < next.len() && (#[trigger] next[i]).0@ != entry.0@ implies entries.contains(
        next[i],
    ) by {
        assert(entries[if i < at { i } else { i - 1 }] == next[i]);
    }
    lemma_same_map(entries, next, entry.0@, entry.1@);
}

proof fn lemma_remove(entries: Seq<(String, Gradient)>, name: Seq<char>, at: int)
    requires
        crate::text::ascending(names_of(entries)),
        stands_at(entries, name, at, true),
    ensures
        crate::text::ascending(names_of(entries.remove(at))),
        map_of(entries.remove(at)) == map_of(entries).remove(name),
{
    let next = entries.remove(at);
    let names = names_of(next);
    let old_names = names_of(entries);
    assert forall|i: int| 0 <= i < next.len() implies (#[trigger] next[i]) == (if i < at {
        entries[i]
    } else {
        entries[i + 1]
    }) by {}
    assert forall|i: int, j: int| 0 <= i < j < names.len() implies crate::text::name_before(
        names[i],
        names[j],
    ) by {
        let a = if i < at { i } else { i + 1 };
        let b = if j < at { j } else { j + 1 };
        assert(names[i] == old_names[a] && names[j] == old_names[b]);
    }
    let m = map_of(entries).remove(name);
    assert forall|n: Seq<char>| map_of(next).contains_key(n) <==> m.contains_key(n) by {
        crate::text::lemma_names_are_ordered(n, n, n);
        if map_of(next).contains_key(n) {
            let i = index_of(next, n);
            let k = if i < at { i } else { i + 1 };
            assert(entries[k] == next[i]);
            lemma_entry(entries, k);
            assert(old_names[k] == n && old_names[at] == name);
            if k < at {
                assert(crate::text::name_before(old_names[k], old_names[at]));
            } else {
                assert(crate::text::name_before(old_names[at], old_names[k]));
            }
        }
        if m.contains_key(n) {
            let i = index_of(entries, n);
            let k = if i < at { i } else { i - 1 };
            assert(i != at);
            assert(next[k] == entries[i]);
            lemma_entry(next, k);
        }
    }
    assert forall|n: Seq<char>| #[trigger] map_of(next).contains_key(n) implies map_of(next)[n] == m[n] by {
        let i = index_of(next, n);
        let k = if i < at { i } else { i + 1 };
        assert(m.contains_key(n));
        assert(entries[k] == next[i]);
        lemma_entry(entries, k);
        lemma_entry(next, i);
    }
    assert(map_of(next) =~= m);
}

impl View for Gradients {
    type V = GradientsView;

    closed spec fn view(&self) -> GradientsView {
        GradientsView {
            current: crate::text::text_view(self.current),
            gradients: map_of(self.gradients@),
        }
    }
}

impl Gradients {
    /// Whether the entries stand in the order of their names, each name once,
    /// and the name in use is one of them.
    pub closed spec fn wf(&self) -> bool {
        crate::text::ascending(names_of(self.gradients@)) && coherent(self@)
    }

    /// A well-formed set is coherent.
    pub proof fn lemma_wf(&self)
        requires
            self.wf(),
        ensures
            coherent(self@),
    {
    }

    fn find(&self, name: &str) -> (r: (usize, bool))
        requires
            crate::text::ascending(names_of(self.gradients@)),
        ensures
            stands_at(self.gradients@, name@, r.0 as int, r.1),
            r.1 == self@.gradients.contains_key(name@),
    {
        let mut at: usize = 0;
        while at < self.gradients.len() && comes_before(self.gradients[at].0.as_str(), name)
            invariant
                at <= self.gradients.len(),
                forall|k: int|
                    0 <= k < at ==> crate::text::name_before(
                        (#[trigger] self.gradients@[k]).0@,
                        name@,
                    ),
            decreases self.gradients.len() - at,
        {
            at = at + 1;
        }
        let found = at < self.gradients.len() && same_text(self.gradients[at].0.as_str(), name);
        proof {
            let entries = self.gradients@;
            if !found && at < entries.len() {
                let names = names_of(entries);
                crate::text::lemma_names_are_ordered(entries[at as int].0@, name@, name@);
                assert forall|k: int| at <= k < entries.len() implies crate::text::name_before(
                    name@,
                    (#[trigger] entries[k]).0@,
                ) by {
                    assert(names[at as int] == entries[at as int].0@ && names[k] == entries[k].0@);
                    if at < k {
                        assert(crate::text::name_before(names[at as int], names[k]));
                        crate::text::lemma_names_are_ordered(name@, names[at as int], names[k]);
                    }
                }
            }
            lemma_stands_at(entries, name@, at as int, found);
        }
        (at, found)
    }

    /// A set without gradients.
    pub fn new() -> (r: Gradients)
        ensures
            r.wf(),
            r@ == (GradientsView { current: None, gradients: Map::empty() }),
    {
        let r = Gradients { current: None, gradients: Vec::new() };
        assert(map_of(r.gradients@) =~= Map::<Seq<char>, Seq<Stop>>::empty());
        r
    }

    /// The gradients in the order of their names.
    pub fn info(&self) -> (r: Vec<GradientInfo>)
        requires
            self.wf(),
        ensures
            lists(self@, infos(r@)),
            infos(r@) == listing(self@),
    {
        let mut info: Vec<GradientInfo> = Vec::new();
        let mut i: usize = 0;
        while i < self.gradients.len()
            invariant
                i <= self.gradients.len(),
                info@.len() == i,
                forall|k: int|
                    0 <= k < i ==> (#[trigger] info@[k])@ == (InfoView {
                        name: self.gradients@[k].0@,
                        selected: self@.current == Some(self.gradients@[k].0@),
                        stops: self.gradients@[k].1@,
                    }),
            decreases self.gradients.len() - i,
        {
            let name = self.gradients[i].0.clone();
            let selected = match &self.current {
                Some(current) => same_text(current.as_str(), name.as_str()),
                None => false,
            };
            info.push(GradientInfo { name, selected, data: self.gradients[i].1.clone() });
            i = i + 1;
        }
        proof {
            let list = infos(info@);
            let entries = self.gradients@;
            assert(listed_names(list) =~= names_of(entries));
            assert forall|k: int| 0 <= k < list.len() implies lookup(self@, (#[trigger] list[k]).name)
                == Some(list[k].stops) && list[k].selected == (self@.current == Some(list[k].name)) by {
                assert(list[k] == info@[k]@);
                lemma_entry(entries, k);
            }
            assert forall|name: Seq<char>| #[trigger]
                self@.gradients.contains_key(name) implies listed_names(list).contains(name) by {
                let k = index_of(entries, name);
                assert(listed_names(list)[k] == name);
            }
            lemma_listing_is_determined(self@, list, list);
        }
        info
    }

    /// Puts the gradient of the given name in use.
    pub fn set_current(&mut self, name: &str) -> (r: Result<(), Error>)
        requires
            old(self).wf(),
        ensures
            final(self).wf(),
            if old(self)@.gradients.contains_key(name@) {
                r is Ok && final(self)@ == chosen(old(self)@, name@)
            } else {
                r is Err && r->Err_0@ == ErrorView::GradientMissing && final(self)@ == old(self)@
            },
    {
        let (_, found) = self.find(name);
        if !found {
            return Err(Error::GradientMissing);
        }
        self.current = Some(name.to_owned());
        Ok(())
    }

    /// The gradient of the given name.
    pub fn get(&self, name: &str) -> (r: Result<Gradient, Error>)
        requires
            self.wf(),
        ensures
            match lookup(self@, name@) {
                Some(stops) => r is Ok && r->Ok_0@ == stops,
                None => r is Err && r->Err_0@ == ErrorView::GradientMissing,
            },
    {
        let (at, found) = self.find(name);
        if found {
            proof {
                lemma_entry(self.gradients@, at as int);
            }
            Ok(self.gradients[at].1.clone())
        } else {
            Err(Error::GradientMissing)
        }
    }

    /// The gradient in use.
    pub fn get_current(&self) -> (r: Option<Gradient>)
        requires
            self.wf(),
        ensures
            match in_use(self@) {
                Some(stops) => r is Some && r->0@ == stops,
                None => r is None,
            },
    {
        match &self.current {
            Some(name) => match self.get(name.as_str()) {
                Ok(gradient) => Some(gradient),
                Err(_) => None,
            },
            None => None,
        }
    }

    /// Puts a gradient under a name and in use. A name that is taken is
    /// refused unless it may be overwritten.
    pub fn add(&mut self, name: &str, gradient: Gradient, overwrite: bool) -> (r: Result<
        (),
        Error,
    >)
        requires
            old(self).wf(),
        ensures
            final(self).wf(),
            if !overwrite && old(self)@.gradients.contains_key(name@) {
                r is Err && r->Err_0@ == ErrorView::GradientExists && final(self)@ == old(self)@
            } else {
                r is Ok && final(self)@ == added(old(self)@, name@, gradient@)
            },
    {
        let (at, found) = self.find(name);
        if !overwrite && found {
            return Err(Error::GradientExists);
        }
        let entry = (name.to_owned(), gradient);
        if found {
            proof {
                lemma_replace(self.gradients@, at as int, entry);
            }
            self.gradients.set(at, entry);
        } else {
            proof {
                lemma_insert(self.gradients@, at as int, entry);
            }
            self.gradients.insert(at, entry);
        }
        self.current = Some(name.to_owned());
        Ok(())
    }

    /// Takes out the gradient of the given name, if there is one.
    pub fn delete(&mut self, name: &str) -> (r: Result<(), Error>)
        requires
            old(self).wf(),
        ensures
            final(self).wf(),
            r is Ok,
            final(self)@ == deleted(old(self)@, name@),
    {
        let (at, found) = self.find(name);
        if found {
            proof {
                lemma_remove(self.gradients@, name@, at as int);
            }
            self.gradients.remove(at);
        } else {
            assert(self@.gradients.remove(name@) =~= self@.gradients);
        }
        let used = match &self.current {
            Some(current) => same_text(current.as_str(), name),
            None => false,
        };
        if used {
            self.current = None;
        }
        Ok(())
    }
}

impl Default for Gradients {
    fn default() -> (r: Gradients)
        ensures
            r.wf(),
            r@ == (GradientsView { current: None, gradients: Map::empty() }),
    {
        Gradients::new()
    }
}

} // verus!
