use vstd::prelude::*;

use num_traits::{Float, FloatConst};

use crate::types::computation::traits::{ImplicitFunction, ImplicitOperation};
use crate::types::computation::ModelError;
use crate::utils::text::{decimal, decimal_text, joined, str_eq};

use super::keyed::{
    keyed_map, keys, lemma_keyed_map_absent, lemma_keyed_map_at, lemma_keyed_map_push,
    lemma_keyed_map_remove, lemma_keyed_map_update,
};
use super::paths::{
    closed_under, is_path, lemma_closed_holds_reached, lemma_new_edge_no_new_cycle, lemma_ordered_acyclic,
    lemma_ordered_path, lemma_reaches_refl, lemma_reaches_step, lemma_stuck_set_has_cycle, on_cycle, reaches,
};
use super::{ComponentId, ComputationGraph, ModelComponent};

verus! {

/// Version of the model format written into every new model.
pub const IMLET_VERSION: &'static str = "0.1.0";

/// An optional tag, as text.
pub open spec fn opt_view(o: Option<String>) -> Option<Seq<char>> {
    match o {
        Some(s) => Some(s@),
        None => None,
    }
}

/// A list of optional input tags, as text.
pub open spec fn list_view(v: Vec<Option<String>>) -> Seq<Option<Seq<char>>> {
    v@.map_values(|o: Option<String>| opt_view(o))
}

/// The input list with every input from `tag` unassigned.
pub open spec fn clear_source(list: Seq<Option<Seq<char>>>, tag: Seq<char>) -> Seq<Option<Seq<char>>> {
    list.map_values(|o: Option<Seq<char>>| if o == Some(tag) { None } else { o })
}

/// A list of tags, as text.
pub open spec fn views(v: Seq<String>) -> Seq<Seq<char>> {
    v.map_values(|s: String| s@)
}

/// `i` is the first unassigned position of an input list.
pub open spec fn first_unassigned(list: Seq<Option<Seq<char>>>, i: int) -> bool {
    &&& 0 <= i < list.len()
    &&& list[i] is None
    &&& forall|j: int| 0 <= j < i ==> list[j] is Some
}

/// Every source named by the input lists, list after list.
spec fn all_sources(entries: Seq<(String, Vec<Option<String>>)>) -> Seq<Option<Seq<char>>>
    decreases entries.len(),
{
    if entries.len() == 0 {
        Seq::empty()
    } else {
        all_sources(entries.drop_last()) + list_view(entries.last().1)
    }
}

/// Each source of each input list is among all the sources.
proof fn lemma_all_sources_contains(entries: Seq<(String, Vec<Option<String>>)>, j: int, i: int)
    requires
        0 <= j < entries.len(),
        0 <= i < list_view(entries[j].1).len(),
    ensures
        all_sources(entries).contains(list_view(entries[j].1)[i]),
    decreases entries.len(),
{
    let rest = all_sources(entries.drop_last());
    if j == entries.len() - 1 {
        assert(all_sources(entries)[rest.len() + i] == list_view(entries[j].1)[i]);
    } else {
        lemma_all_sources_contains(entries.drop_last(), j, i);
        let k = choose|k: int| 0 <= k < rest.len() && rest[k] == list_view(entries[j].1)[i];
        assert(all_sources(entries)[k] == rest[k]);
    }
}

/// A list of distinct tags that all lie in a finite set is no longer than the set.
proof fn lemma_distinct_within(s: Seq<Seq<char>>, u: Set<Option<Seq<char>>>)
    requires
        s.no_duplicates(),
        u.finite(),
        forall|k: int| 0 <= k < s.len() ==> u.contains(Some(#[trigger] s[k])),
    ensures
        s.len() <= u.len(),
{
    let t = s.map_values(|x: Seq<char>| Some(x));
    assert(t.no_duplicates()) by {
        assert forall|a: int, b: int| 0 <= a < t.len() && 0 <= b < t.len() && a != b implies t[a] != t[b] by {
            assert(s[a] != s[b]);
        }
    }
    t.unique_seq_to_set();
    assert(t.to_set().subset_of(u)) by {
        assert forall|x: Option<Seq<char>>| t.to_set().contains(x) implies u.contains(x) by {
            let k = choose|k: int| 0 <= k < t.len() && t[k] == x;
            assert(u.contains(Some(s[k])));
        }
    }
    vstd::set_lib::lemma_len_subset(t.to_set(), u);
}

/// A list of distinct tags that all occur in another list is no longer than it.
proof fn lemma_distinct_subseq_len(a: Seq<Seq<char>>, b: Seq<Seq<char>>)
    requires
        a.no_duplicates(),
        forall|k: int| 0 <= k < a.len() ==> b.contains(#[trigger] a[k]),
    ensures
        a.len() <= b.len(),
{
    a.unique_seq_to_set();
    b.lemma_cardinality_of_set();
    vstd::seq_lib::seq_to_set_is_finite(b);
    assert(a.to_set().subset_of(b.to_set())) by {
        assert forall|x: Seq<char>| a.to_set().contains(x) implies b.to_set().contains(x) by {
            let k = choose|k: int| 0 <= k < a.len() && a[k] == x;
            assert(b.contains(a[k]));
        }
    }
    vstd::set_lib::lemma_len_subset(a.to_set(), b.to_set());
}

/// Position of the first entry of a list of tags that equals `tag`.
fn position_of(list: &Vec<String>, tag: &str) -> (found: Option<usize>)
    ensures
        match found {
            Some(i) => i < list@.len() && list@[i as int]@ == tag@ && forall|j: int| 0 <= j < i ==> list@[j]@ != tag@,
            None => !views(list@).contains(tag@),
        },
{
    let mut i: usize = 0;
    while i < list.len()
        invariant
            i <= list@.len(),
            forall|j: int| 0 <= j < i ==> list@[j]@ != tag@,
        decreases list@.len() - i,
    {
        if str_eq(list[i].as_str(), tag) {
            return Some(i);
        }
        i = i + 1;
    }
    proof {
        if views(list@).contains(tag@) {
            let k = choose|k: int| 0 <= k < views(list@).len() && views(list@)[k] == tag@;
            assert(list@[k]@ == tag@);
        }
    }
    None
}

/// Position of the first unassigned input of a list, if any.
fn first_unassigned_in(list: &Vec<Option<String>>) -> (found: Option<usize>)
    ensures
        match found {
            Some(i) => first_unassigned(list_view(*list), i as int),
            None => forall|i: int| 0 <= i < list@.len() ==> list_view(*list)[i] is Some,
        },
{
    let mut i: usize = 0;
    while i < list.len()
        invariant
            i <= list@.len(),
            forall|j: int| 0 <= j < i ==> list_view(*list)[j] is Some,
        decreases list@.len() - i,
    {
        if list[i].is_none() {
            return Some(i);
        }
        i = i + 1;
    }
    None
}

/// The input list with every input from `current` taken from `new_tag` instead. An
/// unassigned input counts as coming from the tag "None".
pub open spec fn renamed_source(
    list: Seq<Option<Seq<char>>>,
    current: Seq<char>,
    new_tag: Seq<char>,
) -> Seq<Option<Seq<char>>> {
    list.map_values(
        |o: Option<Seq<char>>|
            if o == Some(current) || (o is None && current == "None"@) {
                Some(new_tag)
            } else {
                o
            },
    )
}

/// A tag followed by an underscore and a number.
pub open spec fn suffixed(base: Seq<char>, n: nat) -> Seq<char> {
    base + "_"@ + decimal(n)
}

/// An input list with every input from `tag` unassigned.
fn cleared_list(list: &Vec<Option<String>>, tag: &str) -> (out: Vec<Option<String>>)
    ensures
        list_view(out) == clear_source(list_view(*list), tag@),
{
    let mut out: Vec<Option<String>> = Vec::new();
    let mut i: usize = 0;
    while i < list.len()
        invariant
            i <= list@.len(),
            out@.len() == i,
            forall|j: int| 0 <= j < i ==> opt_view(out@[j]) == (if opt_view(list@[j]) == Some(tag@) {
                None
            } else {
                opt_view(list@[j])
            }),
        decreases list@.len() - i,
    {
        let item = match &list[i] {
            Some(t) => if str_eq(t.as_str(), tag) {
                None
            } else {
                Some(t.clone())
            },
            None => None,
        };
        out.push(item);
        i = i + 1;
    }
    assert(list_view(out) =~= clear_source(list_view(*list), tag@));
    out
}

/// An input list with every input from `current` taken from `new_tag` instead.
fn renamed_list(list: &Vec<Option<String>>, current: &str, new_tag: &str) -> (out: Vec<Option<String>>)
    ensures
        list_view(out) == renamed_source(list_view(*list), current@, new_tag@),
{
    let mut out: Vec<Option<String>> = Vec::new();
    let mut i: usize = 0;
    while i < list.len()
        invariant
            i <= list@.len(),
            out@.len() == i,
            forall|j: int| 0 <= j < i ==> opt_view(out@[j]) == (if opt_view(list@[j]) == Some(current@) || (
            opt_view(list@[j]) is None && current@ == "None"@) {
                Some(new_tag@)
            } else {
                opt_view(list@[j])
            }),
        decreases list@.len() - i,
    {
        let hit = match &list[i] {
            Some(t) => str_eq(t.as_str(), current),
            None => str_eq("None", current),
        };
        let item = if hit {
            Some(String::from_str(new_tag))
        } else {
            match &list[i] {
                Some(t) => Some(t.clone()),
                None => None,
            }
        };
        out.push(item);
        i = i + 1;
    }
    assert(list_view(out) =~= renamed_source(list_view(*list), current@, new_tag@));
    out
}

/// A copy of an input list, with the same tags.
fn copy_list(list: &Vec<Option<String>>) -> (copy: Vec<Option<String>>)
    ensures
        list_view(copy) == list_view(*list),
{
    let mut copy: Vec<Option<String>> = Vec::new();
    let mut i: usize = 0;
    while i < list.len()
        invariant
            i <= list@.len(),
            copy@.len() == i,
            forall|j: int| 0 <= j < i ==> opt_view(copy@[j]) == opt_view(list@[j]),
        decreases list@.len() - i,
    {
        let item = match &list[i] {
            Some(t) => Some(t.clone()),
            None => None,
        };
        copy.push(item);
        i = i + 1;
    }
    assert(list_view(copy) =~= list_view(*list));
    copy
}

/// Whether some flag is unset.
fn has_unplaced(placed: &Vec<bool>) -> (r: bool)
    ensures
        r == exists|j: int| 0 <= j < placed@.len() && !placed@[j],
{
    let mut i: usize = 0;
    while i < placed.len()
        invariant
            i <= placed@.len(),
            forall|j: int| 0 <= j < i ==> placed@[j],
        decreases placed@.len() - i,
    {
        if !placed[i] {
            return true;
        }
        i = i + 1;
    }
    false
}

/// Inserting a key adds it to the domain and keeps the other entries.
proof fn lemma_map_insert_dom<K, V>(m: Map<K, V>, k: K, v: V)
    ensures
        m.insert(k, v).dom() == m.dom().insert(k),
        m.insert(k, v)[k] == v,
        forall|j: K| j != k && m.contains_key(j) ==> m.insert(k, v)[j] == m[j],
{
    assert(m.insert(k, v).dom() =~= m.dom().insert(k));
}

/// An implicit model: a set of tagged components (constants, functions and operations)
/// and, for each operation, the tags of the components that feed its inputs.
///
/// This is the main interface to build and compute implicit models.
#[verifier::reject_recursive_types(T)]
pub struct ImplicitModel<T> {
    version: String,
    components: Vec<(String, ModelComponent<T>)>,
    inputs: Vec<(String, Vec<Option<String>>)>,
    default_output: Option<String>,
}

impl<T: Send + Sync> ImplicitModel<T> {
    /// The components by tag.
    pub closed spec fn component_map(self) -> Map<Seq<char>, ModelComponent<T>> {
        keyed_map(self.components@, |c: ModelComponent<T>| c)
    }

    /// The input lists by tag: for each input, the tag of its source if one is assigned.
    pub closed spec fn input_map(self) -> Map<Seq<char>, Seq<Option<Seq<char>>>> {
        keyed_map(self.inputs@, |v: Vec<Option<String>>| list_view(v))
    }

    /// The tag of the default output, if any.
    pub closed spec fn default_tag(self) -> Option<Seq<char>> {
        opt_view(self.default_output)
    }

    /// Tags are unique among the components and among the input lists.
    pub closed spec fn wf(self) -> bool {
        &&& keys(self.components@).no_duplicates()
        &&& keys(self.inputs@).no_duplicates()
    }

    /// The input list of a tag: empty where the tag has none.
    pub open spec fn inputs_of(self, tag: Seq<char>) -> Seq<Option<Seq<char>>> {
        if self.input_map().contains_key(tag) {
            self.input_map()[tag]
        } else {
            Seq::empty()
        }
    }

    /// `b` is the source of an input of `a`.
    pub open spec fn feeds(self, a: Seq<char>, b: Seq<char>) -> bool {
        exists|i: int| 0 <= i < self.inputs_of(a).len() && self.inputs_of(a)[i] == Some(b)
    }

    /// The dependency relation between tags, as an edge relation.
    pub open spec fn input_edge(self) -> spec_fn(Seq<char>, Seq<char>) -> bool {
        |a: Seq<char>, b: Seq<char>| self.feeds(a, b)
    }

    /// `a` depends on `b`: `b` can be reached from `a` through inputs (every tag depends
    /// on itself).
    pub open spec fn depends_on(self, a: Seq<char>, b: Seq<char>) -> bool {
        reaches(self.input_edge(), a, b)
    }

    /// `a` depends on itself through one or more inputs.
    pub open spec fn in_cycle(self, a: Seq<char>) -> bool {
        on_cycle(self.input_edge(), a)
    }

    /// Every input of `a` is assigned.
    pub open spec fn complete(self, a: Seq<char>) -> bool {
        forall|i: int| 0 <= i < self.inputs_of(a).len() ==> self.inputs_of(a)[i] is Some
    }

    /// No input of `a` is assigned.
    pub open spec fn unfed(self, a: Seq<char>) -> bool {
        forall|b: Seq<char>| !#[trigger] self.feeds(a, b)
    }

    /// Some tag that `target` depends on has no assigned input. Where there is none, every
    /// dependency waits on another and no computation order can start.
    pub open spec fn has_leaf_dependency(self, target: Seq<char>) -> bool {
        exists|n: Seq<char>| #[trigger] self.depends_on(target, n) && self.unfed(n)
    }

    /// An operation under this tag has at least as many inputs as it uses.
    pub open spec fn arity_ok(self, a: Seq<char>) -> bool {
        self.component_map()[a] is Operation ==> self.inputs_of(a).len() >= self.component_map()[a].input_count()
    }

    /// `target` can be computed: no tag it depends on is on a dependency cycle, and each is
    /// a component with all its inputs assigned.
    pub open spec fn computable(self, target: Seq<char>) -> bool {
        forall|n: Seq<char>| #[trigger] self.depends_on(target, n) ==> {
            &&& !self.in_cycle(n)
            &&& self.component_map().contains_key(n)
            &&& self.complete(n)
            &&& self.arity_ok(n)
        }
    }

    /// `order` lists the tags that `target` depends on, each once, every tag after those
    /// that feed it.
    pub open spec fn dependency_order(self, target: Seq<char>, order: Seq<Seq<char>>) -> bool {
        &&& order.no_duplicates()
        &&& forall|n: Seq<char>| order.contains(n) <==> #[trigger] self.depends_on(target, n)
        &&& forall|k: int, b: Seq<char>|
            0 <= k < order.len() && #[trigger] self.feeds(order[k], b) ==> order.contains(b) && order.index_of(b) < k
    }

    /// `graph` follows `order`, which ends with `target`: its components are those of the
    /// tags in order, and each input of a component is the position of its source.
    pub open spec fn graph_matches(self, target: Seq<char>, order: Seq<Seq<char>>, graph: ComputationGraph<'_, T>) -> bool {
        &&& order.len() > 0
        &&& order.last() == target
        &&& graph.nodes().len() == order.len()
        &&& forall|m: int| 0 <= m < order.len() ==> {
            &&& #[trigger] graph.nodes()[m] == self.component_map()[order[m]]
            &&& graph.input_ids()[m].len() == self.inputs_of(order[m]).len()
            &&& forall|i: int| 0 <= i < graph.input_ids()[m].len()
                ==> Some(order[#[trigger] graph.input_ids()[m][i] as int]) == self.inputs_of(order[m])[i]
        }
    }

    /// `graph` computes `target`: it follows a dependency order of `target`.
    pub open spec fn graph_for(self, target: Seq<char>, graph: ComputationGraph<'_, T>) -> bool {
        exists|order: Seq<Seq<char>>| #[trigger] self.dependency_order(target, order) && self.graph_matches(target, order, graph)
    }

    /// What an error of compiling `target` says: a dependency cycle where there is one,
    /// naming a tag it depends on (one without assigned inputs, where there is such a tag),
    /// else a tag it depends on that is not a component, lacks an input, or is an
    /// operation with too few inputs.
    pub open spec fn build_error(self, target: Seq<char>, e: ModelError) -> bool {
        if exists|n: Seq<char>| #[trigger] self.depends_on(target, n) && self.in_cycle(n) {
            &&& e is CyclicDependency
            &&& self.depends_on(target, e->CyclicDependency_0@)
            &&& self.has_leaf_dependency(target) ==> self.unfed(e->CyclicDependency_0@)
        } else {
            ||| e is MissingTag && self.depends_on(target, e->MissingTag_0@) && !self.component_map().contains_key(
                e->MissingTag_0@,
            )
            ||| e matches ModelError::MissingInput { component, index } && self.depends_on(target, component@)
                && self.component_map().contains_key(component@) && first_unassigned(
                self.inputs_of(component@),
                index as int,
            )
            ||| e matches ModelError::IncorrectInputCount { component, num_inputs, count } && self.depends_on(
                target,
                component@,
            ) && self.component_map().contains_key(component@) && self.complete(component@)
                && self.component_map()[component@] is Operation && num_inputs == self.component_map()[component@].input_count()
                && count == self.inputs_of(component@).len() && count < num_inputs
        }
    }

    /// An input of `a` names `b` only where `b` is among all the sources.
    proof fn lemma_feeds_in_sources(self, a: Seq<char>, b: Seq<char>)
        requires
            self.wf(),
            self.feeds(a, b),
        ensures
            all_sources(self.inputs@).contains(Some(b)),
    {
        let ks = keys(self.inputs@);
        let j = ks.index_of(a);
        let i = choose|i: int| 0 <= i < self.inputs_of(a).len() && self.inputs_of(a)[i] == Some(b);
        assert(self.input_map().contains_key(a));
        assert(0 <= j < ks.len() && ks[j] == a);
        lemma_keyed_map_at(self.inputs@, |v: Vec<Option<String>>| list_view(v), j);
        lemma_all_sources_contains(self.inputs@, j, i);
    }

    /// Create a new empty model.
    pub fn new() -> (model: ImplicitModel<T>)
        ensures
            model.wf(),
            model.component_map() == Map::<Seq<char>, ModelComponent<T>>::empty(),
            model.input_map() == Map::<Seq<char>, Seq<Option<Seq<char>>>>::empty(),
            model.default_tag() is None,
    {
        let model = Self {
            version: String::from_str(IMLET_VERSION),
            components: Vec::new(),
            inputs: Vec::new(),
            default_output: None,
        };
        assert(model.component_map() =~= Map::empty());
        assert(model.input_map() =~= Map::empty());
        model
    }

    /// Position of the component with this tag.
    fn find_component(&self, tag: &str) -> (found: Option<usize>)
        ensures
            match found {
                Some(i) => i < self.components@.len() && self.components@[i as int].0@ == tag@,
                None => forall|i: int| 0 <= i < self.components@.len() ==> self.components@[i].0@ != tag@,
            },
    {
        let mut i: usize = 0;
        while i < self.components.len()
            invariant
                i <= self.components@.len(),
                forall|j: int| 0 <= j < i ==> self.components@[j].0@ != tag@,
            decreases self.components@.len() - i,
        {
            if str_eq(self.components[i].0.as_str(), tag) {
                return Some(i);
            }
            i = i + 1;
        }
        None
    }

    /// Position of the input list with this tag.
    fn find_inputs(&self, tag: &str) -> (found: Option<usize>)
        ensures
            match found {
                Some(i) => i < self.inputs@.len() && self.inputs@[i as int].0@ == tag@,
                None => forall|i: int| 0 <= i < self.inputs@.len() ==> self.inputs@[i].0@ != tag@,
            },
    {
        let mut i: usize = 0;
        while i < self.inputs.len()
            invariant
                i <= self.inputs@.len(),
                forall|j: int| 0 <= j < i ==> self.inputs@[j].0@ != tag@,
            decreases self.inputs@.len() - i,
        {
            if str_eq(self.inputs[i].0.as_str(), tag) {
                return Some(i);
            }
            i = i + 1;
        }
        None
    }

    /// Whether a component has this tag.
    fn has_component(&self, tag: &str) -> (present: bool)
        requires
            self.wf(),
        ensures
            present == self.component_map().contains_key(tag@),
    {
        match self.find_component(tag) {
            Some(i) => {
                proof {
                    lemma_keyed_map_at(self.components@, |c: ModelComponent<T>| c, i as int);
                }
                true
            },
            None => {
                proof {
                    lemma_keyed_map_absent(self.components@, |c: ModelComponent<T>| c, tag@);
                }
                false
            },
        }
    }

    /// The tags that `start` depends on, each once, `start` first, in breadth-first order.
    fn dependency_closure(&self, start: &str) -> (deps: Vec<String>)
        requires
            self.wf(),
        ensures
            views(deps@).no_duplicates(),
            deps@.len() >= 1,
            deps@[0]@ == start@,
            forall|n: Seq<char>| views(deps@).contains(n) <==> self.depends_on(start@, n),
    {
        let ghost edge = self.input_edge();
        let ghost universe = all_sources(self.inputs@).push(Some(start@)).to_set();
        proof {
            vstd::seq_lib::seq_to_set_is_finite(all_sources(self.inputs@).push(Some(start@)));
            lemma_reaches_refl(edge, start@);
            assert(all_sources(self.inputs@).push(Some(start@)).last() == Some(start@));
        }
        let mut deps: Vec<String> = Vec::new();
        deps.push(String::from_str(start));
        let mut head: usize = 0;
        while head < deps.len()
            invariant
                self.wf(),
                edge == self.input_edge(),
                universe == all_sources(self.inputs@).push(Some(start@)).to_set(),
                universe.finite(),
                1 <= deps@.len(),
                head <= deps@.len(),
                deps@[0]@ == start@,
                views(deps@).no_duplicates(),
                forall|k: int| 0 <= k < deps@.len() ==> self.depends_on(start@, #[trigger] views(deps@)[k]),
                forall|k: int| 0 <= k < deps@.len() ==> universe.contains(Some(#[trigger] views(deps@)[k])),
                forall|k: int, b: Seq<char>| 0 <= k < head && #[trigger] self.feeds(views(deps@)[k], b)
                    ==> views(deps@).contains(b),
            decreases universe.len() - deps@.len(), deps@.len() - head,
        {
            proof {
                lemma_distinct_within(views(deps@), universe);
            }
            let ghost len0 = deps@.len();
            let node = deps[head].clone();
            assert(node@ == views(deps@)[head as int]);
            match self.find_inputs(node.as_str()) {
                Some(j) => {
                    proof {
                        lemma_keyed_map_at(self.inputs@, |v: Vec<Option<String>>| list_view(v), j as int);
                    }
                    let list = &self.inputs[j].1;
                    assert(self.inputs_of(node@) == list_view(*list));
                    let mut i: usize = 0;
                    while i < list.len()
                        invariant
                            self.wf(),
                            edge == self.input_edge(),
                            universe == all_sources(self.inputs@).push(Some(start@)).to_set(),
                            universe.finite(),
                            j < self.inputs@.len(),
                            *list == self.inputs@[j as int].1,
                            self.inputs_of(node@) == list_view(*list),
                            node@ == views(deps@)[head as int],
                            i <= list@.len(),
                            len0 <= deps@.len(),
                            head < len0,
                            deps@[0]@ == start@,
                            views(deps@).no_duplicates(),
                            forall|k: int| 0 <= k < deps@.len() ==> self.depends_on(start@, #[trigger] views(deps@)[k]),
                            forall|k: int| 0 <= k < deps@.len() ==> universe.contains(Some(#[trigger] views(deps@)[k])),
                            forall|k: int, b: Seq<char>| 0 <= k < head && #[trigger] self.feeds(views(deps@)[k], b)
                                ==> views(deps@).contains(b),
                            forall|i2: int| 0 <= i2 < i && list@[i2] is Some ==> views(deps@).contains(
                                #[trigger] list@[i2]->0@),
                        decreases list@.len() - i,
                    {
                        if let Some(b) = &list[i] {
                            let pos = position_of(&deps, b.as_str());
                            if pos.is_some() {
                                proof {
                                    let p = pos.unwrap() as int;
                                    assert(views(deps@)[p] == b@);
                                }
                            }
                            if pos.is_none() {
                                let ghost before = views(deps@);
                                proof {
                                    assert(list_view(*list)[i as int] == Some(b@));
                                    assert(self.feeds(node@, b@));
                                    lemma_reaches_step(edge, start@, node@, b@);
                                    self.lemma_feeds_in_sources(node@, b@);
                                }
                                deps.push(b.clone());
                                proof {
                                    assert(views(deps@) =~= before.push(b@));
                                    let src = all_sources(self.inputs@);
                                    let idx = choose|idx: int| 0 <= idx < src.len() && src[idx] == Some(b@);
                                    assert(src.push(Some(start@))[idx] == Some(b@));
                                    assert forall|k: int| 0 <= k < deps@.len() implies universe.contains(
                                        Some(#[trigger] views(deps@)[k])) by {
                                        if k < before.len() {
                                            assert(views(deps@)[k] == before[k]);
                                        }
                                    }
                                    assert forall|k: int, c: Seq<char>| 0 <= k < head && #[trigger] self.feeds(views(deps@)[k], c)
                                        implies views(deps@).contains(c) by {
                                        assert(views(deps@)[k] == before[k]);
                                        if before.contains(c) {
                                            let m = choose|m: int| 0 <= m < before.len() && before[m] == c;
                                            assert(views(deps@)[m] == c);
                                        }
                                    }
                                    assert forall|i2: int| 0 <= i2 <= i && list@[i2] is Some implies views(deps@).contains(
                                        #[trigger] list@[i2]->0@) by {
                                        if i2 < i {
                                            let c = list@[i2]->0@;
                                            let m = choose|m: int| 0 <= m < before.len() && before[m] == c;
                                            assert(views(deps@)[m] == c);
                                        } else {
                                            assert(views(deps@)[before.len() as int] == b@);
                                        }
                                    }
                                }
                            }
                        }
                        i = i + 1;
                    }
                    proof {
                        assert forall|b: Seq<char>| #[trigger] self.feeds(views(deps@)[head as int], b)
                            implies views(deps@).contains(b) by {
                            let i2 = choose|i2: int| 0 <= i2 < self.inputs_of(node@).len() && self.inputs_of(node@)[i2] == Some(b);
                            assert(list@[i2]->0@ == b);
                        }
                    }
                },
                None => {
                    proof {
                        lemma_keyed_map_absent(self.inputs@, |v: Vec<Option<String>>| list_view(v), node@);
                        assert forall|b: Seq<char>| !self.feeds(views(deps@)[head as int], b) by {}
                    }
                },
            }
            proof {
                lemma_distinct_within(views(deps@), universe);
            }
            head = head + 1;
        }
        proof {
            let set = views(deps@).to_set();
            assert(closed_under(edge, set)) by {
                assert forall|x: Seq<char>, y: Seq<char>| set.contains(x) && #[trigger] edge(x, y) implies set.contains(y) by {
                    let k = choose|k: int| 0 <= k < views(deps@).len() && views(deps@)[k] == x;
                    assert(self.feeds(views(deps@)[k], y));
                }
            }
            assert(set.contains(start@)) by {
                assert(views(deps@)[0] == start@);
            }
            assert forall|n: Seq<char>| views(deps@).contains(n) <==> self.depends_on(start@, n) by {
                if self.depends_on(start@, n) {
                    lemma_closed_holds_reached(edge, set, start@, n);
                }
                if views(deps@).contains(n) {
                    let k = choose|k: int| 0 <= k < views(deps@).len() && views(deps@)[k] == n;
                    assert(self.depends_on(start@, views(deps@)[k]));
                }
            }
        }
        deps
    }

    /// Checks that `source` can feed input `index` of `target`: `target` has an input
    /// list, `index` is in range, and `source` does not depend on `target`.
    fn verify_input_validity(&self, target: &str, source: &str, index: usize) -> (r: Result<(), ModelError>)
        requires
            self.wf(),
        ensures
            r is Ok <==> (self.input_map().contains_key(target@) && index < self.inputs_of(target@).len()
                && !self.depends_on(source@, target@)),
            r matches Err(e) ==> self.input_error(target@, source@, index, e),
    {
        let j = match self.find_inputs(target) {
            Some(j) => j,
            None => {
                proof {
                    lemma_keyed_map_absent(self.inputs@, |v: Vec<Option<String>>| list_view(v), target@);
                }
                return Err(ModelError::MissingTag(String::from_str(target)));
            },
        };
        proof {
            lemma_keyed_map_at(self.inputs@, |v: Vec<Option<String>>| list_view(v), j as int);
        }
        let num_inputs = self.inputs[j].1.len();
        if num_inputs <= index {
            return Err(ModelError::InputIndexOutOfRange { component: String::from_str(target), num_inputs, index });
        }
        let deps = self.dependency_closure(source);
        let mut k: usize = 0;
        while k < deps.len()
            invariant
                self.wf(),
                self.input_map().contains_key(target@),
                index < self.inputs_of(target@).len(),
                k <= deps@.len(),
                forall|n: Seq<char>| views(deps@).contains(n) <==> self.depends_on(source@, n),
                forall|k2: int| 0 <= k2 < k ==> #[trigger] views(deps@)[k2] != target@,
            decreases deps@.len() - k,
        {
            assert(views(deps@)[k as int] == deps@[k as int]@);
            assert(views(deps@).contains(views(deps@)[k as int]));
            assert(self.depends_on(source@, deps@[k as int]@));
            if str_eq(deps[k].as_str(), target) {
                return Err(ModelError::CyclicDependency(String::from_str(target)));
            }
            k = k + 1;
        }
        proof {
            if self.depends_on(source@, target@) {
                assert(views(deps@).contains(target@));
                let k2 = choose|k2: int| 0 <= k2 < views(deps@).len() && views(deps@)[k2] == target@;
                assert(views(deps@)[k2] != target@);
            }
        }
        Ok(())
    }

    /// What an error of [`ImplicitModel::add_input`] says, once both tags are components:
    /// the first of its conditions that does not hold.
    pub open spec fn input_error(self, target: Seq<char>, source: Seq<char>, index: usize, e: ModelError) -> bool {
        if !self.input_map().contains_key(target) {
            e is MissingTag && e->MissingTag_0@ == target
        } else if index >= self.inputs_of(target).len() {
            e matches ModelError::InputIndexOutOfRange { component, num_inputs, index: i }
                && component@ == target && num_inputs == self.inputs_of(target).len() && i == index
        } else {
            e is CyclicDependency && e->CyclicDependency_0@ == target && self.depends_on(source, target)
        }
    }

    /// Assign the output of the component `source` to input `index` of the operation
    /// `target`.
    ///
    /// Fails, leaving the model unchanged, with [`ModelError::MissingTag`] when `target` or
    /// `source` is not a component or `target` has no inputs, with
    /// [`ModelError::InputIndexOutOfRange`] when `index` is out of range, with
    /// [`ModelError::CyclicDependency`] when `source` depends on `target` (`source` and
    /// `target` the same tag included). An assignment never puts a component on a
    /// dependency cycle.
    pub fn add_input(&mut self, target: &str, source: &str, index: usize) -> (r: Result<(), ModelError>)
        requires
            old(self).wf(),
        ensures
            final(self).wf(),
            r is Ok <==> (old(self).component_map().contains_key(target@) && old(self).component_map().contains_key(source@)
                && old(self).input_map().contains_key(target@) && index < old(self).inputs_of(target@).len()
                && !old(self).depends_on(source@, target@)),
            match r {
                Ok(_) => {
                    &&& final(self).input_map() == old(self).input_map().insert(
                        target@,
                        old(self).inputs_of(target@).update(index as int, Some(source@)),
                    )
                    &&& final(self).component_map() == old(self).component_map()
                    &&& final(self).default_tag() == old(self).default_tag()
                    &&& forall|n: Seq<char>| final(self).in_cycle(n) ==> old(self).in_cycle(n)
                },
                Err(e) => *final(self) == *old(self) && if !old(self).component_map().contains_key(target@) {
                    e is MissingTag && e->MissingTag_0@ == target@
                } else if !old(self).component_map().contains_key(source@) {
                    e is MissingTag && e->MissingTag_0@ == source@
                } else {
                    old(self).input_error(target@, source@, index, e)
                },
            },
    {
        if let Err(e) = self.verify_tag_is_present(target) {
            return Err(e);
        }
        if let Err(e) = self.verify_tag_is_present(source) {
            return Err(e);
        }
        if let Err(e) = self.verify_input_validity(target, source, index) {
            return Err(e);
        }
        let ghost before = *self;
        let j = match self.find_inputs(target) {
            Some(j) => j,
            None => {
                proof {
                    lemma_keyed_map_absent(self.inputs@, |v: Vec<Option<String>>| list_view(v), target@);
                }
                return Err(ModelError::MissingTag(String::from_str(target)));
            },
        };
        proof {
            lemma_keyed_map_at(self.inputs@, |v: Vec<Option<String>>| list_view(v), j as int);
        }
        let mut list = copy_list(&self.inputs[j].1);
        list.set(index, Some(String::from_str(source)));
        assert(list_view(list) =~= before.inputs_of(target@).update(index as int, Some(source@)));
        self.set_inputs(String::from_str(target), list);
        proof {
            let e1 = before.input_edge();
            let e2 = self.input_edge();
            assert forall|x: Seq<char>, y: Seq<char>| #[trigger] e2(x, y) implies e1(x, y) || (x == target@ && y == source@) by {
                assert(self.feeds(x, y));
                let i = choose|i: int| 0 <= i < self.inputs_of(x).len() && self.inputs_of(x)[i] == Some(y);
                if x != target@ {
                    assert(self.inputs_of(x) == before.inputs_of(x));
                    assert(before.feeds(x, y));
                } else if i != index {
                    assert(before.inputs_of(x)[i] == Some(y));
                    assert(before.feeds(x, y));
                }
            }
            assert(!reaches(e1, source@, target@));
            assert forall|n: Seq<char>| self.in_cycle(n) implies before.in_cycle(n) by {
                lemma_new_edge_no_new_cycle(e1, e2, target@, source@, n);
            }
        }
        Ok(())
    }

    /// Unassign input `index` of `component`.
    ///
    /// Fails, leaving the model unchanged, with [`ModelError::MissingTag`] when the
    /// component has no input list and with [`ModelError::InputIndexOutOfRange`] when
    /// `index` is not a position of the list.
    pub fn remove_input(&mut self, component: &str, index: usize) -> (r: Result<(), ModelError>)
        requires
            old(self).wf(),
        ensures
            final(self).wf(),
            r is Ok <==> (old(self).input_map().contains_key(component@) && index < old(self).inputs_of(
                component@,
            ).len()),
            match r {
                Ok(_) => final(self).input_map() == old(self).input_map().insert(
                    component@,
                    old(self).inputs_of(component@).update(index as int, None),
                ) && final(self).component_map() == old(self).component_map() && final(self).default_tag()
                    == old(self).default_tag(),
                Err(e) => *final(self) == *old(self) && if !old(self).input_map().contains_key(component@) {
                    e is MissingTag && e->MissingTag_0@ == component@
                } else {
                    e matches ModelError::InputIndexOutOfRange { component: c, num_inputs, index: i }
                        && c@ == component@ && num_inputs == old(self).inputs_of(component@).len() && i == index
                },
            },
    {
        let j = match self.find_inputs(component) {
            Some(j) => j,
            None => {
                proof {
                    lemma_keyed_map_absent(self.inputs@, |v: Vec<Option<String>>| list_view(v), component@);
                }
                return Err(ModelError::MissingTag(String::from_str(component)));
            },
        };
        proof {
            lemma_keyed_map_at(self.inputs@, |v: Vec<Option<String>>| list_view(v), j as int);
        }
        let num_inputs = self.inputs[j].1.len();
        if index >= num_inputs {
            return Err(ModelError::InputIndexOutOfRange { component: String::from_str(component), num_inputs, index });
        }
        let ghost before = *self;
        let mut list = copy_list(&self.inputs[j].1);
        assert(list@.len() == list_view(list).len() && list_view(self.inputs@[j as int].1).len() == num_inputs);
        list.set(index, None);
        assert(list_view(list) =~= before.inputs_of(component@).update(index as int, None));
        self.set_inputs(String::from_str(component), list);
        Ok(())
    }

    /// Remove a component from the model. Every input fed by it becomes unassigned, and the
    /// default output is cleared where it was this component.
    ///
    /// Fails, leaving the model unchanged, with [`ModelError::MissingTag`] when no
    /// component has the tag.
    pub fn remove_component(&mut self, tag: &str) -> (r: Result<(), ModelError>)
        requires
            old(self).wf(),
        ensures
            final(self).wf(),
            r is Ok <==> old(self).component_map().contains_key(tag@),
            match r {
                Ok(_) => {
                    &&& final(self).component_map() == old(self).component_map().remove(tag@)
                    &&& final(self).input_map() == old(self).input_map().map_values(
                        |l: Seq<Option<Seq<char>>>| clear_source(l, tag@),
                    )
                    &&& final(self).default_tag() == (if old(self).default_tag() == Some(tag@) {
                        None
                    } else {
                        old(self).default_tag()
                    })
                },
                Err(e) => e is MissingTag && e->MissingTag_0@ == tag@ && *final(self) == *old(self),
            },
    {
        let i = match self.find_component(tag) {
            Some(i) => i,
            None => {
                proof {
                    lemma_keyed_map_absent(self.components@, |c: ModelComponent<T>| c, tag@);
                }
                return Err(ModelError::MissingTag(String::from_str(tag)));
            },
        };
        let ghost before = *self;
        proof {
            lemma_keyed_map_at(self.components@, |c: ModelComponent<T>| c, i as int);
            lemma_keyed_map_remove(self.components@, |c: ModelComponent<T>| c, i as int);
        }
        let _removed = self.components.remove(i);
        let ghost entries0 = self.inputs@;
        let mut j: usize = 0;
        while j < self.inputs.len()
            invariant
                keys(entries0).no_duplicates(),
                keys(self.components@).no_duplicates(),
                i < before.components@.len(),
                self.components@ == before.components@.remove(i as int),
                self.default_output == before.default_output,
                entries0 == before.inputs@,
                j <= self.inputs@.len(),
                self.inputs@.len() == entries0.len(),
                forall|m: int| 0 <= m < entries0.len() ==> #[trigger] self.inputs@[m].0@ == entries0[m].0@,
                forall|m: int| 0 <= m < j ==> list_view(#[trigger] self.inputs@[m].1) == clear_source(
                    list_view(entries0[m].1),
                    tag@,
                ),
                forall|m: int| j <= m < entries0.len() ==> #[trigger] self.inputs@[m] == entries0[m],
            decreases entries0.len() - j,
        {
            let cleared = cleared_list(&self.inputs[j].1, tag);
            let key = self.inputs[j].0.clone();
            self.inputs.set(j, (key, cleared));
            j = j + 1;
        }
        proof {
            let f = |v: Vec<Option<String>>| list_view(v);
            assert(keys(self.inputs@) =~= keys(entries0));
            let m1 = self.input_map();
            let m2 = before.input_map().map_values(|l: Seq<Option<Seq<char>>>| clear_source(l, tag@));
            assert(m1.dom() =~= m2.dom());
            assert forall|k: Seq<char>| m1.contains_key(k) implies m1[k] == m2[k] by {
                let m = keys(self.inputs@).index_of(k);
                assert(0 <= m < keys(self.inputs@).len() && keys(self.inputs@)[m] == k);
                lemma_keyed_map_at(self.inputs@, f, m);
                lemma_keyed_map_at(entries0, f, m);
            }
            assert(m1 =~= m2);
        }
        let clear_default = match &self.default_output {
            Some(d) => str_eq(d.as_str(), tag),
            None => false,
        };
        if clear_default {
            self.default_output = None;
        }
        Ok(())
    }

    /// Mutable access to the component with this tag, if present, to change its parameters.
    pub fn get_component_mut(&mut self, tag: &str) -> (component: Option<&mut ModelComponent<T>>)
        requires
            old(self).wf(),
        ensures
            final(self).wf(),
            final(self).input_map() == old(self).input_map(),
            final(self).default_tag() == old(self).default_tag(),
            match component {
                Some(c) => {
                    &&& old(self).component_map().contains_key(tag@)
                    &&& *c == old(self).component_map()[tag@]
                    &&& final(self).component_map() == old(self).component_map().insert(tag@, *final(c))
                },
                None => !old(self).component_map().contains_key(tag@) && *final(self) == *old(self),
            },
    {
        match self.find_component(tag) {
            Some(i) => {
                proof {
                    lemma_keyed_map_at(self.components@, |c: ModelComponent<T>| c, i as int);
                }
                let ghost before = *self;
                let entry = &mut self.components[i];
                let c = &mut entry.1;
                proof {
                    lemma_keyed_map_update(before.components@, |c: ModelComponent<T>| c, i as int, *final(c));
                }
                Some(c)
            },
            None => {
                proof {
                    lemma_keyed_map_absent(self.components@, |c: ModelComponent<T>| c, tag@);
                }
                None
            },
        }
    }

    /// A tag for a new component: `base` where it is free, else the first free
    /// `base_1`, `base_2`, ... up to `base_1000`.
    ///
    /// Fails with [`ModelError::TagGenerationFailed`] when all of those are taken.
    fn find_free_tag(&self, base: &str) -> (r: Result<String, ModelError>)
        requires
            self.wf(),
        ensures
            match r {
                Ok(t) => !self.component_map().contains_key(t@) && if !self.component_map().contains_key(base@) {
                    t@ == base@
                } else {
                    exists|n: nat| 1 <= n <= 1000 && t@ == suffixed(base@, n)
                        && forall|m: nat| 1 <= m < n ==> self.component_map().contains_key(#[trigger] suffixed(base@, m))
                },
                Err(e) => {
                    &&& e is TagGenerationFailed && e->TagGenerationFailed_0@ == base@
                    &&& self.component_map().contains_key(base@)
                    &&& forall|m: nat| 1 <= m <= 1000 ==> self.component_map().contains_key(#[trigger] suffixed(base@, m))
                },
            },
    {
        if !self.has_component(base) {
            return Ok(String::from_str(base));
        }
        let mut increment: usize = 1;
        let mut candidate = joined(base, "_", decimal_text(increment).as_str());
        while self.has_component(candidate.as_str())
            invariant
                self.wf(),
                self.component_map().contains_key(base@),
                1 <= increment <= 1000,
                candidate@ == suffixed(base@, increment as nat),
                forall|m: nat| 1 <= m < increment ==> self.component_map().contains_key(#[trigger] suffixed(base@, m)),
            decreases 1000 - increment,
        {
            increment = increment + 1;
            candidate = joined(base, "_", decimal_text(increment).as_str());
            if increment > 1000 {
                return Err(ModelError::TagGenerationFailed(String::from_str(base)));
            }
        }
        Ok(candidate)
    }

    /// Add a component under `tag`, or under the first free tag derived from it (see
    /// [`ImplicitModel::find_free_tag`]). An operation gets a list of unassigned inputs.
    /// The component becomes the default output, under the tag it was given.
    pub fn add_component(&mut self, tag: &str, component: ModelComponent<T>) -> (r: Result<String, ModelError>)
        requires
            old(self).wf(),
        ensures
            final(self).wf(),
            match r {
                Ok(t) => {
                    &&& !old(self).component_map().contains_key(t@)
                    &&& (!old(self).component_map().contains_key(tag@) ==> t@ == tag@)
                    &&& (old(self).component_map().contains_key(tag@) ==> exists|n: nat|
                        1 <= n <= 1000 && t@ == suffixed(tag@, n) && forall|m: nat|
                            1 <= m < n ==> old(self).component_map().contains_key(#[trigger] suffixed(tag@, m)))
                    &&& final(self).component_map() == old(self).component_map().insert(t@, component)
                    &&& final(self).input_map() == (if component is Operation {
                        old(self).input_map().insert(t@, Seq::new(component.input_count(), |i: int| None::<Seq<char>>))
                    } else {
                        old(self).input_map()
                    })
                    &&& final(self).default_tag() == Some(t@)
                },
                Err(e) => e is TagGenerationFailed && e->TagGenerationFailed_0@ == tag@ && *final(self) == *old(self)
                    && forall|m: nat| 1 <= m <= 1000 ==> old(self).component_map().contains_key(#[trigger] suffixed(tag@, m)),
            },
    {
        let valid_tag = match self.find_free_tag(tag) {
            Ok(t) => t,
            Err(e) => {
                return Err(e);
            },
        };
        match &component {
            ModelComponent::Operation(operation) => {
                let count = operation.inputs().len();
                let mut list: Vec<Option<String>> = Vec::new();
                let mut i: usize = 0;
                while i < count
                    invariant
                        i <= count,
                        list@.len() == i,
                        forall|j: int| 0 <= j < i ==> list@[j] is None,
                    decreases count - i,
                {
                    list.push(None);
                    i = i + 1;
                }
                assert(list_view(list) =~= Seq::new(component.input_count(), |i: int| None::<Seq<char>>));
                self.set_inputs(valid_tag.clone(), list);
            },
            _ => {},
        }
        self.push_component(valid_tag.clone(), component);
        self.default_output = Some(valid_tag.clone());
        Ok(valid_tag)
    }

    /// Change the tag of a component. Its input list moves with it, every input it feeds
    /// is renamed, and so is the default output where it was this component.
    ///
    /// Fails, leaving the model unchanged, with [`ModelError::DuplicateTag`] when a
    /// component has the new tag and with [`ModelError::MissingTag`] when none has the
    /// current one.
    pub(crate) fn rename_component(&mut self, current_tag: &str, new_tag: &str) -> (r: Result<String, ModelError>)
        requires
            old(self).wf(),
        ensures
            final(self).wf(),
            r is Ok <==> (!old(self).component_map().contains_key(new_tag@) && old(self).component_map().contains_key(
                current_tag@,
            )),
            match r {
                Ok(t) => {
                    let moved = if old(self).input_map().contains_key(current_tag@) {
                        old(self).input_map().remove(current_tag@).insert(new_tag@, old(self).input_map()[current_tag@])
                    } else {
                        old(self).input_map()
                    };
                    &&& t@ == new_tag@
                    &&& final(self).component_map() == old(self).component_map().remove(current_tag@).insert(
                        new_tag@,
                        old(self).component_map()[current_tag@],
                    )
                    &&& final(self).input_map() == moved.map_values(
                        |l: Seq<Option<Seq<char>>>| renamed_source(l, current_tag@, new_tag@),
                    )
                    &&& final(self).default_tag() == (if old(self).default_tag() == Some(current_tag@) {
                        Some(new_tag@)
                    } else {
                        old(self).default_tag()
                    })
                },
                Err(e) => *final(self) == *old(self) && if old(self).component_map().contains_key(new_tag@) {
                    e is DuplicateTag && e->DuplicateTag_0@ == new_tag@
                } else {
                    e is MissingTag && e->MissingTag_0@ == current_tag@
                },
            },
    {
        let new_tag_string = String::from_str(new_tag);
        if let Err(e) = self.verify_tag_is_free(&new_tag_string) {
            return Err(e);
        }
        if let Err(e) = self.verify_tag_is_present(current_tag) {
            return Err(e);
        }
        let ghost before = *self;
        let i = match self.find_component(current_tag) {
            Some(i) => i,
            None => {
                proof {
                    lemma_keyed_map_absent(self.components@, |c: ModelComponent<T>| c, current_tag@);
                }
                return Err(ModelError::MissingTag(String::from_str(current_tag)));
            },
        };
        proof {
            lemma_keyed_map_at(self.components@, |c: ModelComponent<T>| c, i as int);
            lemma_keyed_map_remove(self.components@, |c: ModelComponent<T>| c, i as int);
        }
        let (_old_key, component) = self.components.remove(i);
        self.push_component(new_tag_string.clone(), component);
        // Move the input list, if any, to the new tag.
        match self.find_inputs(current_tag) {
            Some(j) => {
                proof {
                    lemma_keyed_map_at(self.inputs@, |v: Vec<Option<String>>| list_view(v), j as int);
                    lemma_keyed_map_remove(self.inputs@, |v: Vec<Option<String>>| list_view(v), j as int);
                }
                let (_key, list) = self.inputs.remove(j);
                self.set_inputs(new_tag_string.clone(), list);
            },
            None => {
                proof {
                    lemma_keyed_map_absent(self.inputs@, |v: Vec<Option<String>>| list_view(v), current_tag@);
                    assert(self.input_map() =~= before.input_map());
                }
            },
        }
        let ghost moved = self.input_map();
        let ghost entries0 = self.inputs@;
        let ghost components0 = self.components@;
        let mut j: usize = 0;
        while j < self.inputs.len()
            invariant
                keys(entries0).no_duplicates(),
                keys(self.components@).no_duplicates(),
                self.components@ == components0,
                self.default_tag() == before.default_tag(),
                moved == keyed_map(entries0, |v: Vec<Option<String>>| list_view(v)),
                j <= self.inputs@.len(),
                self.inputs@.len() == entries0.len(),
                forall|m: int| 0 <= m < entries0.len() ==> #[trigger] self.inputs@[m].0@ == entries0[m].0@,
                forall|m: int| 0 <= m < j ==> list_view(#[trigger] self.inputs@[m].1) == renamed_source(
                    list_view(entries0[m].1),
                    current_tag@,
                    new_tag@,
                ),
                forall|m: int| j <= m < entries0.len() ==> #[trigger] self.inputs@[m] == entries0[m],
            decreases entries0.len() - j,
        {
            let renamed = renamed_list(&self.inputs[j].1, current_tag, new_tag);
            let key = self.inputs[j].0.clone();
            self.inputs.set(j, (key, renamed));
            j = j + 1;
        }
        proof {
            let f = |v: Vec<Option<String>>| list_view(v);
            assert(keys(self.inputs@) =~= keys(entries0));
            let m1 = self.input_map();
            let m2 = moved.map_values(|l: Seq<Option<Seq<char>>>| renamed_source(l, current_tag@, new_tag@));
            assert(m1.dom() =~= m2.dom());
            assert forall|k: Seq<char>| m1.contains_key(k) implies m1[k] == m2[k] by {
                let m = keys(self.inputs@).index_of(k);
                assert(0 <= m < keys(self.inputs@).len() && keys(self.inputs@)[m] == k);
                lemma_keyed_map_at(self.inputs@, f, m);
                lemma_keyed_map_at(entries0, f, m);
            }
            assert(m1 =~= m2);
        }
        let rename_default = match &self.default_output {
            Some(d) => str_eq(d.as_str(), current_tag),
            None => false,
        };
        if rename_default {
            self.default_output = Some(new_tag_string.clone());
        }
        Ok(new_tag_string)
    }

    /// Whether every assigned input of `tag` comes from a tag listed in `order`.
    fn inputs_placed(&self, tag: &String, order: &Vec<String>) -> (ready: bool)
        requires
            self.wf(),
        ensures
            ready == (forall|b: Seq<char>| #[trigger] self.feeds(tag@, b) ==> views(order@).contains(b)),
    {
        match self.find_inputs(tag.as_str()) {
            Some(j) => {
                proof {
                    lemma_keyed_map_at(self.inputs@, |v: Vec<Option<String>>| list_view(v), j as int);
                }
                let list = &self.inputs[j].1;
                let mut i: usize = 0;
                while i < list.len()
                    invariant
                        self.wf(),
                        j < self.inputs@.len(),
                        *list == self.inputs@[j as int].1,
                        self.inputs_of(tag@) == list_view(*list),
                        i <= list@.len(),
                        forall|i2: int| 0 <= i2 < i && list_view(*list)[i2] is Some ==> views(order@).contains(
                            #[trigger] list_view(*list)[i2]->0),
                    decreases list@.len() - i,
                {
                    if let Some(b) = &list[i] {
                        let p = position_of(order, b.as_str());
                        match p {
                            None => {
                                proof {
                                    assert(list_view(*list)[i as int] == Some(b@));
                                    assert(self.feeds(tag@, b@));
                                }
                                return false;
                            },
                            Some(p) => {
                                proof {
                                    assert(views(order@)[p as int] == b@);
                                }
                            },
                        }
                    }
                    i = i + 1;
                }
                proof {
                    assert forall|b: Seq<char>| #[trigger] self.feeds(tag@, b) implies views(order@).contains(b) by {
                        let i2 = choose|i2: int| 0 <= i2 < self.inputs_of(tag@).len() && self.inputs_of(tag@)[i2] == Some(b);
                        assert(list_view(*list)[i2]->0 == b);
                    }
                }
                true
            },
            None => {
                proof {
                    lemma_keyed_map_absent(self.inputs@, |v: Vec<Option<String>>| list_view(v), tag@);
                }
                true
            },
        }
    }

    /// Order a closed list of tags so that every tag comes after the tags that feed it, by
    /// placing, pass after pass, the tags whose sources are all placed.
    ///
    /// Fails with [`ModelError::CyclicDependency`] when a pass places nothing: the tags
    /// left then wait on dependency cycles. The error names the first tag placed, or the
    /// first tag of the list where none could be placed.
    fn sort_dependencies(&self, deps: &Vec<String>) -> (r: Result<Vec<String>, ModelError>)
        requires
            self.wf(),
            views(deps@).no_duplicates(),
            forall|k: int, b: Seq<char>|
                0 <= k < deps@.len() && #[trigger] self.feeds(views(deps@)[k], b) ==> views(deps@).contains(b),
        ensures
            match r {
                Ok(order) => {
                    &&& views(order@).no_duplicates()
                    &&& forall|n: Seq<char>| views(order@).contains(n) <==> views(deps@).contains(n)
                    &&& forall|k: int, b: Seq<char>| 0 <= k < order@.len() && #[trigger] self.feeds(views(order@)[k], b)
                        ==> views(order@).contains(b) && views(order@).index_of(b) < k
                },
                Err(e) => {
                    &&& e is CyclicDependency
                    &&& views(deps@).contains(e->CyclicDependency_0@)
                    &&& (exists|k: int| 0 <= k < deps@.len() && self.unfed(#[trigger] views(deps@)[k])) ==> self.unfed(
                        e->CyclicDependency_0@,
                    )
                    &&& exists|n: Seq<char>| views(deps@).contains(n) && #[trigger] self.in_cycle(n)
                },
            },
    {
        let ghost dv = views(deps@);
        let n = deps.len();
        let mut placed: Vec<bool> = Vec::new();
        let mut i: usize = 0;
        while i < n
            invariant
                i <= n,
                placed@.len() == i,
                forall|j: int| 0 <= j < i ==> !placed@[j],
            decreases n - i,
        {
            placed.push(false);
            i = i + 1;
        }
        let mut order: Vec<String> = Vec::new();
        assert(views(order@) =~= Seq::<Seq<char>>::empty());
        while has_unplaced(&placed)
            invariant
                self.wf(),
                dv == views(deps@),
                dv.no_duplicates(),
                n == deps@.len(),
                forall|k: int, b: Seq<char>| 0 <= k < n && #[trigger] self.feeds(dv[k], b) ==> dv.contains(b),
                placed@.len() == n,
                forall|j: int| 0 <= j < n ==> (#[trigger] placed@[j] <==> views(order@).contains(dv[j])),
                views(order@).no_duplicates(),
                forall|k: int| 0 <= k < order@.len() ==> dv.contains(#[trigger] views(order@)[k]),
                forall|k: int, b: Seq<char>| 0 <= k < order@.len() && #[trigger] self.feeds(views(order@)[k], b)
                    ==> exists|p: int| 0 <= p < k && views(order@)[p] == b,
                order@.len() > 0 ==> self.unfed(views(order@)[0]),
            decreases n - order@.len(),
        {
            proof {
                lemma_distinct_subseq_len(views(order@), dv);
            }
            let ghost order0 = views(order@);
            let ghost j0 = choose|j: int| 0 <= j < n && !placed@[j];
            assert(!order0.contains(dv[j0]));
            let mut progress = false;
            let mut i: usize = 0;
            while i < n
                invariant
                    self.wf(),
                    dv == views(deps@),
                    dv.no_duplicates(),
                    n == deps@.len(),
                    i <= n,
                    placed@.len() == n,
                    forall|j: int| 0 <= j < n ==> (#[trigger] placed@[j] <==> views(order@).contains(dv[j])),
                    views(order@).no_duplicates(),
                    forall|k: int| 0 <= k < order@.len() ==> dv.contains(#[trigger] views(order@)[k]),
                    forall|k: int, b: Seq<char>| 0 <= k < order@.len() && #[trigger] self.feeds(views(order@)[k], b)
                        ==> exists|p: int| 0 <= p < k && views(order@)[p] == b,
                    order@.len() > 0 ==> self.unfed(views(order@)[0]),
                    order0.len() <= order@.len(),
                    progress ==> order0.len() < order@.len(),
                    !progress ==> views(order@) == order0,
                    !progress ==> forall|i2: int| 0 <= i2 < i && !placed@[i2] ==> exists|b: Seq<char>|
                        #[trigger] self.feeds(dv[i2], b) && !order0.contains(b),
                decreases n - i,
            {
                if !placed[i] {
                    let ready = self.inputs_placed(&deps[i], &order);
                    assert(views(deps@)[i as int] == deps@[i as int]@);
                    if ready {
                        let ghost before = views(order@);
                        order.push(deps[i].clone());
                        placed.set(i, true);
                        progress = true;
                        proof {
                            let x = dv[i as int];
                            assert(views(order@) =~= before.push(x));
                            assert(!before.contains(x));
                            assert forall|j: int| 0 <= j < n implies (#[trigger] placed@[j] <==> views(order@).contains(dv[j])) by {
                                if j != i {
                                    assert(dv[j] != x);
                                    if before.contains(dv[j]) {
                                        let q = choose|q: int| 0 <= q < before.len() && before[q] == dv[j];
                                        assert(views(order@)[q] == dv[j]);
                                    }
                                    if views(order@).contains(dv[j]) {
                                        let q = choose|q: int| 0 <= q < views(order@).len() && views(order@)[q] == dv[j];
                                        assert(q < before.len());
                                        assert(before[q] == dv[j]);
                                    }
                                } else {
                                    assert(views(order@)[before.len() as int] == x);
                                }
                            }
                            assert forall|k: int| 0 <= k < order@.len() implies dv.contains(#[trigger] views(order@)[k]) by {
                                if k < before.len() {
                                    assert(views(order@)[k] == before[k]);
                                } else {
                                    assert(dv[i as int] == x);
                                }
                            }
                            assert forall|k: int, b: Seq<char>| 0 <= k < order@.len() && #[trigger] self.feeds(views(order@)[k], b)
                                implies exists|p: int| 0 <= p < k && views(order@)[p] == b by {
                                if k < before.len() {
                                    assert(views(order@)[k] == before[k]);
                                    let p = choose|p: int| 0 <= p < k && before[p] == b;
                                    assert(views(order@)[p] == b);
                                } else {
                                    assert(self.feeds(x, b));
                                    assert(before.contains(b));
                                    let p = choose|p: int| 0 <= p < before.len() && before[p] == b;
                                    assert(views(order@)[p] == b);
                                }
                            }
                            if before.len() == 0 {
                                assert(views(order@)[0] == x);
                                assert forall|b: Seq<char>| !#[trigger] self.feeds(x, b) by {
                                    if self.feeds(x, b) {
                                        assert(before.contains(b));
                                    }
                                }
                            } else {
                                assert(views(order@)[0] == before[0]);
                            }
                        }
                    } else {
                        proof {
                            let b = choose|b: Seq<char>| #[trigger] self.feeds(deps@[i as int]@, b) && !views(order@).contains(b);
                            assert(self.feeds(dv[i as int], b));
                        }
                    }
                }
                i = i + 1;
            }
            if !progress {
                proof {
                    let edge = self.input_edge();
                    let rest = Set::new(|x: Seq<char>| dv.contains(x) && !order0.contains(x));
                    vstd::seq_lib::seq_to_set_is_finite(dv);
                    assert(rest.subset_of(dv.to_set()));
                    vstd::set_lib::lemma_len_subset(rest, dv.to_set());
                    assert(rest.contains(dv[j0]));
                    assert(rest.len() > 0);
                    assert forall|u: Seq<char>| rest.contains(u) implies exists|v: Seq<char>| rest.contains(v) && #[trigger] edge(u, v) by {
                        let ju = choose|ju: int| 0 <= ju < dv.len() && dv[ju] == u;
                        assert(!placed@[ju]);
                        let b = choose|b: Seq<char>| #[trigger] self.feeds(dv[ju], b) && !order0.contains(b);
                        assert(dv.contains(b));
                        assert(rest.contains(b) && edge(u, b));
                    }
                    lemma_stuck_set_has_cycle(edge, rest);
                    let a = choose|a: Seq<char>| rest.contains(a) && on_cycle(edge, a);
                    assert(self.in_cycle(a));
                    if order@.len() == 0 {
                        assert forall|kl: int| 0 <= kl < n implies !self.unfed(#[trigger] dv[kl]) by {
                            assert(!order0.contains(dv[kl]));
                            assert(!placed@[kl]);
                            let b = choose|b: Seq<char>| #[trigger] self.feeds(dv[kl], b) && !order0.contains(b);
                        }
                    }
                }
                if order.len() == 0 {
                    assert(dv[0] == deps@[0]@);
                    assert(dv.contains(dv[0]));
                    return Err(ModelError::CyclicDependency(deps[0].clone()));
                }
                assert(views(order@)[0] == order@[0]@);
                return Err(ModelError::CyclicDependency(order[0].clone()));
            }
            proof {
                lemma_distinct_subseq_len(views(order@), dv);
            }
        }
        proof {
            let ov = views(order@);
            assert forall|x: Seq<char>| ov.contains(x) <==> dv.contains(x) by {
                if dv.contains(x) {
                    let j = choose|j: int| 0 <= j < dv.len() && dv[j] == x;
                    assert(placed@[j]);
                }
                if ov.contains(x) {
                    let k = choose|k: int| 0 <= k < ov.len() && ov[k] == x;
                    assert(dv.contains(ov[k]));
                }
            }
            assert forall|k: int, b: Seq<char>| 0 <= k < order@.len() && #[trigger] self.feeds(ov[k], b)
                implies ov.contains(b) && ov.index_of(b) < k by {
                let p = choose|p: int| 0 <= p < k && ov[p] == b;
                super::keyed::lemma_index_of_distinct(ov, p);
            }
        }
        Ok(order)
    }

    /// Compile the computation graph of the output `target`: the tags it depends on, in an
    /// order where every component comes after those that feed it, ending with `target`.
    ///
    /// Fails with [`ModelError::CyclicDependency`] when a tag it depends on lies on a
    /// dependency cycle, and else with [`ModelError::MissingTag`],
    /// [`ModelError::MissingInput`] or [`ModelError::IncorrectInputCount`] for a tag it
    /// depends on that is not a component, has an unassigned input, or is an operation
    /// with fewer inputs than it uses.
    pub fn compile<'a>(&'a self, target: &str) -> (r: Result<ComputationGraph<'a, T>, ModelError>)
        requires
            self.wf(),
        ensures
            r is Ok <==> self.computable(target@),
            match r {
                Ok(graph) => graph.wf() && self.graph_for(target@, graph),
                Err(e) => self.build_error(target@, e),
            },
    {
        let ghost edge = self.input_edge();
        let deps = self.dependency_closure(target);
        let ghost dv = views(deps@);
        proof {
            assert forall|k: int, b: Seq<char>| 0 <= k < deps@.len() && #[trigger] self.feeds(dv[k], b) implies dv.contains(b) by {
                assert(dv.contains(dv[k]));
                lemma_reaches_step(edge, target@, dv[k], b);
            }
            if self.has_leaf_dependency(target@) {
                let leaf = choose|n: Seq<char>| #[trigger] self.depends_on(target@, n) && self.unfed(n);
                assert(dv.contains(leaf));
                let kl = choose|k: int| 0 <= k < dv.len() && dv[k] == leaf;
                assert(self.unfed(dv[kl]));
            }
        }
        let order = match self.sort_dependencies(&deps) {
            Ok(order) => order,
            Err(e) => {
                proof {
                    let n = choose|n: Seq<char>| dv.contains(n) && #[trigger] self.in_cycle(n);
                    assert(self.depends_on(target@, n));
                }
                return Err(e);
            },
        };
        let ghost ov = views(order@);
        proof {
            assert forall|n: Seq<char>| ov.contains(n) <==> #[trigger] self.depends_on(target@, n) by {
                assert(ov.contains(n) <==> dv.contains(n));
            }
            assert(self.dependency_order(target@, ov));
            assert forall|n: Seq<char>| #[trigger] self.depends_on(target@, n) implies !self.in_cycle(n) by {
                assert forall|k: int, b: Seq<char>| 0 <= k < ov.len() && #[trigger] edge(ov[k], b)
                    implies ov.contains(b) && ov.index_of(b) < k by {
                    assert(self.feeds(ov[k], b));
                }
                assert(ov.contains(n));
                lemma_ordered_acyclic(edge, ov, n);
            }
            assert(!exists|n: Seq<char>| #[trigger] self.depends_on(target@, n) && self.in_cycle(n));
        }
        let mut graph: ComputationGraph<'a, T> = ComputationGraph::new();
        let empty: Vec<Option<String>> = Vec::new();
        let mut k: usize = 0;
        while k < order.len()
            invariant
                self.wf(),
                edge == self.input_edge(),
                ov == views(order@),
                self.dependency_order(target@, ov),
                !exists|n: Seq<char>| #[trigger] self.depends_on(target@, n) && self.in_cycle(n),
                empty@.len() == 0,
                graph.wf(),
                k <= ov.len(),
                graph.nodes().len() == k,
                forall|m: int| 0 <= m < k ==> {
                    &&& self.component_map().contains_key(#[trigger] ov[m])
                    &&& self.complete(ov[m])
                    &&& self.arity_ok(ov[m])
                },
                forall|m: int| 0 <= m < k ==> #[trigger] graph.nodes()[m] == self.component_map()[ov[m]],
                forall|m: int| 0 <= m < k ==> (#[trigger] graph.input_ids()[m]).len() == self.inputs_of(ov[m]).len(),
                forall|m: int, i: int| 0 <= m < k && 0 <= i < graph.input_ids()[m].len()
                    ==> Some(ov[#[trigger] graph.input_ids()[m][i] as int]) == self.inputs_of(ov[m])[i],
            decreases ov.len() - k,
        {
            let tag = &order[k];
            assert(tag@ == ov[k as int]);
            assert(ov.contains(ov[k as int]));
            assert(self.depends_on(target@, tag@));
            let component = match self.get_component(tag.as_str()) {
                Some(c) => c,
                None => {
                    return Err(ModelError::MissingTag(tag.clone()));
                },
            };
            let list: &Vec<Option<String>> = match self.find_inputs(tag.as_str()) {
                Some(j) => {
                    proof {
                        lemma_keyed_map_at(self.inputs@, |v: Vec<Option<String>>| list_view(v), j as int);
                    }
                    &self.inputs[j].1
                },
                None => {
                    proof {
                        lemma_keyed_map_absent(self.inputs@, |v: Vec<Option<String>>| list_view(v), tag@);
                        assert(list_view(empty) =~= Seq::<Option<Seq<char>>>::empty());
                    }
                    &empty
                },
            };
            assert(self.inputs_of(tag@) == list_view(*list));
            if let Some(i) = first_unassigned_in(list) {
                return Err(ModelError::MissingInput { component: tag.clone(), index: i });
            }
            match component {
                ModelComponent::Operation(operation) => {
                    let count = operation.inputs().len();
                    if list.len() < count {
                        return Err(ModelError::IncorrectInputCount { component: tag.clone(), num_inputs: count, count: list.len() });
                    }
                },
                _ => {},
            }
            let mut ids: Vec<ComponentId> = Vec::new();
            let mut i: usize = 0;
            while i < list.len()
                invariant
                    self.wf(),
                    ov == views(order@),
                    self.dependency_order(target@, ov),
                    k < ov.len(),
                    tag@ == ov[k as int],
                    self.inputs_of(tag@) == list_view(*list),
                    self.complete(tag@),
                    i <= list@.len(),
                    ids@.len() == i,
                    forall|i2: int| 0 <= i2 < i ==> (#[trigger] ids@[i2]).0 < k && Some(ov[ids@[i2].0 as int])
                        == list_view(*list)[i2],
                decreases list@.len() - i,
            {
                assert(list_view(*list)[i as int] is Some);
                match &list[i] {
                    Some(b) => {
                        assert(self.feeds(ov[k as int], b@));
                        match position_of(&order, b.as_str()) {
                            Some(p) => {
                                proof {
                                    assert(ov[p as int] == b@);
                                    super::keyed::lemma_index_of_distinct(ov, p as int);
                                }
                                ids.push(ComponentId(p));
                            },
                            None => {
                                proof {
                                    assert(false);
                                }
                            },
                        }
                    },
                    None => {
                        proof {
                            assert(false);
                        }
                    },
                }
                i = i + 1;
            }
            let ghost before = graph;
            graph.add_component(component, ids);
            proof {
                let row = ids@.map_values(|id: ComponentId| id.0);
                assert(graph.input_ids()[k as int] == row);
                assert forall|m: int| 0 <= m <= k implies #[trigger] graph.nodes()[m] == self.component_map()[ov[m]] by {
                    if m < k {
                        assert(graph.nodes()[m] == before.nodes()[m]);
                    }
                }
                assert forall|m: int| 0 <= m <= k implies (#[trigger] graph.input_ids()[m]).len() == self.inputs_of(ov[m]).len() by {
                    if m < k {
                        assert(graph.input_ids()[m] == before.input_ids()[m]);
                    }
                }
                assert forall|m: int, i: int| 0 <= m <= k && 0 <= i < graph.input_ids()[m].len()
                    implies Some(ov[#[trigger] graph.input_ids()[m][i] as int]) == self.inputs_of(ov[m])[i] by {
                    if m < k {
                        assert(graph.input_ids()[m] == before.input_ids()[m]);
                        assert(graph.input_ids()[m][i] == before.input_ids()[m][i]);
                    } else {
                        assert(graph.input_ids()[m][i] == ids@[i].0);
                    }
                }
                assert forall|m: int, j: int| 0 <= m < graph.input_ids().len() && 0 <= j < graph.input_ids()[m].len()
                    implies #[trigger] graph.input_ids()[m][j] < m by {
                    if m < k {
                        assert(graph.input_ids()[m] == before.input_ids()[m]);
                    } else {
                        assert(graph.input_ids()[m][j] == ids@[j].0);
                    }
                }
                assert forall|m: int| 0 <= m < graph.nodes().len() && (#[trigger] graph.nodes()[m]) is Operation
                    implies graph.input_ids()[m].len() >= graph.nodes()[m].input_count() by {
                    if m < k {
                        assert(graph.nodes()[m] == before.nodes()[m]);
                        assert(graph.input_ids()[m] == before.input_ids()[m]);
                    }
                }
            }
            k = k + 1;
        }
        proof {
            assert(ov.contains(target@)) by {
                lemma_reaches_refl(edge, target@);
            }
            let p = ov.index_of(target@);
            if p != ov.len() - 1 {
                let last = ov[ov.len() - 1];
                assert(ov.contains(last));
                assert(self.depends_on(target@, last));
                super::keyed::lemma_index_of_distinct(ov, ov.len() - 1);
                assert(last != target@);
                let path = choose|path: Seq<Seq<char>>| #[trigger] is_path(edge, path) && path[0] == target@ && path.last() == last;
                assert forall|k2: int, b: Seq<char>| 0 <= k2 < ov.len() && #[trigger] edge(ov[k2], b)
                    implies ov.contains(b) && ov.index_of(b) < k2 by {
                    assert(self.feeds(ov[k2], b));
                }
                lemma_ordered_path(edge, ov, path);
            }
            assert(self.graph_matches(target@, ov, graph));
            assert forall|n: Seq<char>| #[trigger] self.depends_on(target@, n) implies {
                &&& !self.in_cycle(n)
                &&& self.component_map().contains_key(n)
                &&& self.complete(n)
                &&& self.arity_ok(n)
            } by {
                assert(ov.contains(n));
                let m = choose|m: int| 0 <= m < ov.len() && ov[m] == n;
                assert(self.component_map().contains_key(ov[m]));
            }
        }
        Ok(graph)
    }

    /// Evaluate the component `output` of the model at the coordinate `(x, y, z)`.
    ///
    /// Fails as [`ImplicitModel::compile`] does where `output` cannot be computed.
    pub fn evaluate_at(&self, output: &str, x: T, y: T, z: T) -> (r: Result<T, ModelError>) where T: Float + FloatConst
        requires
            self.wf(),
        ensures
            r is Ok <==> self.computable(output@),
            r matches Err(e) ==> self.build_error(output@, e),
            r matches Ok(v) ==> (self.component_map()[output@] is Constant ==> v
                == self.component_map()[output@]->Constant_0),
    {
        match self.compile(output) {
            Ok(graph) => {
                proof {
                    let order = choose|order: Seq<Seq<char>>| #[trigger] self.dependency_order(output@, order)
                        && self.graph_matches(output@, order, graph);
                    assert(graph.nodes()[order.len() - 1] == self.component_map()[order[order.len() - 1]]);
                }
                Ok(graph.evaluate_at_coord(x, y, z))
            },
            Err(e) => Err(e),
        }
    }

    /// References to all the components in the model with their tags.
    pub fn all_components(&self) -> (all: Vec<(&String, &ModelComponent<T>)>)
        requires
            self.wf(),
        ensures
            all@.len() == self.component_map().len(),
            forall|i: int| 0 <= i < all@.len() ==> self.component_map().contains_key(all@[i].0@)
                && self.component_map()[all@[i].0@] == *all@[i].1,
    {
        let mut all: Vec<(&String, &ModelComponent<T>)> = Vec::new();
        let mut i: usize = 0;
        while i < self.components.len()
            invariant
                self.wf(),
                i <= self.components@.len(),
                all@.len() == i,
                forall|j: int| 0 <= j < i ==> all@[j].0@ == self.components@[j].0@ && *all@[j].1
                    == self.components@[j].1,
            decreases self.components@.len() - i,
        {
            all.push((&self.components[i].0, &self.components[i].1));
            i = i + 1;
        }
        proof {
            assert forall|j: int| 0 <= j < all@.len() implies self.component_map().contains_key(all@[j].0@)
                && self.component_map()[all@[j].0@] == *all@[j].1 by {
                lemma_keyed_map_at(self.components@, |c: ModelComponent<T>| c, j);
            }
            let ks = keys(self.components@);
            assert(self.component_map().dom() =~= ks.to_set());
            ks.unique_seq_to_set();
        }
        all
    }

    /// The component with this tag, if present.
    pub fn get_component(&self, tag: &str) -> (component: Option<&ModelComponent<T>>)
        requires
            self.wf(),
        ensures
            match component {
                Some(c) => self.component_map().contains_key(tag@) && *c == self.component_map()[tag@],
                None => !self.component_map().contains_key(tag@),
            },
    {
        match self.find_component(tag) {
            Some(i) => {
                proof {
                    lemma_keyed_map_at(self.components@, |c: ModelComponent<T>| c, i as int);
                }
                Some(&self.components[i].1)
            },
            None => {
                proof {
                    lemma_keyed_map_absent(self.components@, |c: ModelComponent<T>| c, tag@);
                }
                None
            },
        }
    }

    /// The tag of the default output: the last component added, unless changed or removed.
    pub fn get_default_output(&self) -> (tag: Option<&str>)
        ensures
            match tag {
                Some(t) => self.default_tag() == Some(t@),
                None => self.default_tag() is None,
            },
    {
        match &self.default_output {
            Some(t) => Some(t.as_str()),
            None => None,
        }
    }

    /// Set the default output to a tag.
    pub fn set_default_output(&mut self, tag: &str)
        requires
            old(self).wf(),
        ensures
            final(self).wf(),
            final(self).default_tag() == Some(tag@),
            final(self).component_map() == old(self).component_map(),
            final(self).input_map() == old(self).input_map(),
    {
        self.default_output = Some(String::from_str(tag));
    }

    /// The input list of the component with this tag, if it has one.
    pub fn get_inputs(&self, tag: &str) -> (inputs: Option<&Vec<Option<String>>>)
        requires
            self.wf(),
        ensures
            match inputs {
                Some(list) => self.input_map().contains_key(tag@) && list_view(*list) == self.input_map()[tag@],
                None => !self.input_map().contains_key(tag@),
            },
    {
        match self.find_inputs(tag) {
            Some(i) => {
                proof {
                    lemma_keyed_map_at(self.inputs@, |v: Vec<Option<String>>| list_view(v), i as int);
                }
                Some(&self.inputs[i].1)
            },
            None => {
                proof {
                    lemma_keyed_map_absent(self.inputs@, |v: Vec<Option<String>>| list_view(v), tag@);
                }
                None
            },
        }
    }

    /// Fails with [`ModelError::DuplicateTag`] when a component has this tag.
    fn verify_tag_is_free(&self, tag: &String) -> (r: Result<(), ModelError>)
        requires
            self.wf(),
        ensures
            r is Ok <==> !self.component_map().contains_key(tag@),
            r matches Err(e) ==> e is DuplicateTag && e->DuplicateTag_0@ == tag@,
    {
        if self.has_component(tag.as_str()) {
            return Err(ModelError::DuplicateTag(tag.clone()));
        }
        Ok(())
    }

    /// Fails with [`ModelError::MissingTag`] when no component has this tag.
    fn verify_tag_is_present(&self, tag: &str) -> (r: Result<(), ModelError>)
        requires
            self.wf(),
        ensures
            r is Ok <==> self.component_map().contains_key(tag@),
            r matches Err(e) ==> e is MissingTag && e->MissingTag_0@ == tag@,
    {
        if !self.has_component(tag) {
            return Err(ModelError::MissingTag(String::from_str(tag)));
        }
        Ok(())
    }

    /// Store the input list of a tag, replacing any list it had.
    fn set_inputs(&mut self, tag: String, list: Vec<Option<String>>)
        requires
            old(self).wf(),
        ensures
            final(self).wf(),
            final(self).input_map() == old(self).input_map().insert(tag@, list_view(list)),
            final(self).component_map() == old(self).component_map(),
            final(self).default_tag() == old(self).default_tag(),
    {
        let ghost f = |v: Vec<Option<String>>| list_view(v);
        match self.find_inputs(tag.as_str()) {
            Some(i) => {
                proof {
                    lemma_keyed_map_update(self.inputs@, f, i as int, list);
                }
                let key = self.inputs[i].0.clone();
                self.inputs.set(i, (key, list));
            },
            None => {
                proof {
                    assert(!keys(self.inputs@).contains(tag@));
                    lemma_keyed_map_push(self.inputs@, f, (tag, list));
                }
                self.inputs.push((tag, list));
            },
        }
    }

    /// Append a component under a tag that no component has.
    fn push_component(&mut self, tag: String, component: ModelComponent<T>)
        requires
            old(self).wf(),
            !old(self).component_map().contains_key(tag@),
        ensures
            final(self).wf(),
            final(self).component_map() == old(self).component_map().insert(tag@, component),
            final(self).input_map() == old(self).input_map(),
            final(self).default_tag() == old(self).default_tag(),
    {
        proof {
            let ks = keys(self.components@);
            if ks.contains(tag@) {
                let j = choose|j: int| 0 <= j < ks.len() && ks[j] == tag@;
                lemma_keyed_map_at(self.components@, |c: ModelComponent<T>| c, j);
            }
            lemma_keyed_map_push(self.components@, |c: ModelComponent<T>| c, (tag, component));
        }
        self.components.push((tag, component));
    }

    /// Add a distance function under a tag, which becomes the default output.
    ///
    /// Fails with [`ModelError::DuplicateTag`] when the tag is used; the model is then unchanged.
    pub fn add_function<F: ImplicitFunction<T> + 'static>(&mut self, tag: &str, function: F) -> (r: Result<String, ModelError>)
        requires
            old(self).wf(),
        ensures
            final(self).wf(),
            r is Ok <==> !old(self).component_map().contains_key(tag@),
            match r {
                Ok(t) => t@ == tag@ && final(self).component_map().dom() == old(self).component_map().dom().insert(tag@)
                    && final(self).component_map()[tag@] is Function
                    && (forall|k: Seq<char>| k != tag@ && old(self).component_map().contains_key(k)
                        ==> final(self).component_map()[k] == old(self).component_map()[k])
                    && final(self).input_map() == old(self).input_map()
                    && final(self).default_tag() == Some(tag@),
                Err(e) => e is DuplicateTag && e->DuplicateTag_0@ == tag@ && *final(self) == *old(self),
            },
    {
        let tag_string = String::from_str(tag);
        if let Err(e) = self.verify_tag_is_free(&tag_string) {
            return Err(e);
        }
        let ghost before = *self;
        let boxed: Box<dyn ImplicitFunction<T>> = Box::new(function);
        let component = ModelComponent::Function(boxed);
        self.push_component(tag_string.clone(), component);
        self.default_output = Some(tag_string.clone());
        proof {
            lemma_map_insert_dom(before.component_map(), tag@, component);
        }
        Ok(tag_string)
    }

    /// Add an operation under a tag, which becomes the default output. With `Some` list of
    /// input tags, its length must be the operation's number of inputs and each input is
    /// assigned its tag; with `None` every input is left unassigned.
    ///
    /// Fails with [`ModelError::DuplicateTag`] when the tag is used, and else with
    /// [`ModelError::IncorrectInputCount`] when the list has the wrong length; the model is
    /// then unchanged.
    pub fn add_operation<F: ImplicitOperation<T> + 'static>(
        &mut self,
        tag: &str,
        operation: F,
        inputs: Option<&[&str]>,
    ) -> (r: Result<String, ModelError>)
        requires
            old(self).wf(),
        ensures
            final(self).wf(),
            r is Ok <==> (!old(self).component_map().contains_key(tag@) && match inputs {
                Some(list) => list@.len() == operation.input_count(),
                None => true,
            }),
            match r {
                Ok(t) => t@ == tag@ && final(self).component_map().dom() == old(self).component_map().dom().insert(tag@)
                    && final(self).component_map()[tag@] is Operation
                    && (forall|k: Seq<char>| k != tag@ && old(self).component_map().contains_key(k)
                        ==> final(self).component_map()[k] == old(self).component_map()[k])
                    && final(self).input_map() == old(self).input_map().insert(tag@, match inputs {
                        Some(list) => list@.map_values(|s: &str| Some(s@)),
                        None => Seq::new(operation.input_count(), |i: int| None::<Seq<char>>),
                    })
                    && final(self).default_tag() == Some(tag@),
                Err(e) => *final(self) == *old(self) && if old(self).component_map().contains_key(tag@) {
                    e is DuplicateTag && e->DuplicateTag_0@ == tag@
                } else {
                    e matches ModelError::IncorrectInputCount { component, num_inputs, count }
                        && component@ == tag@ && num_inputs == operation.input_count()
                        && count == inputs.unwrap()@.len()
                },
            },
    {
        let tag_string = String::from_str(tag);
        if let Err(e) = self.verify_tag_is_free(&tag_string) {
            return Err(e);
        }
        let count = operation.inputs().len();
        let mut input_vec: Vec<Option<String>> = Vec::new();
        match inputs {
            Some(input_tags) => {
                if count != input_tags.len() {
                    return Err(ModelError::IncorrectInputCount {
                        component: tag_string,
                        num_inputs: count,
                        count: input_tags.len(),
                    });
                }
                let mut i: usize = 0;
                while i < input_tags.len()
                    invariant
                        i <= input_tags@.len(),
                        input_vec@.len() == i,
                        forall|j: int| 0 <= j < i ==> opt_view(input_vec@[j]) == Some(input_tags@[j]@),
                    decreases input_tags@.len() - i,
                {
                    input_vec.push(Some(String::from_str(input_tags[i])));
                    i = i + 1;
                }
                assert(list_view(input_vec) =~= input_tags@.map_values(|s: &str| Some(s@)));
            },
            None => {
                let mut i: usize = 0;
                while i < count
                    invariant
                        i <= count,
                        input_vec@.len() == i,
                        forall|j: int| 0 <= j < i ==> input_vec@[j] is None,
                    decreases count - i,
                {
                    input_vec.push(None);
                    i = i + 1;
                }
                assert(list_view(input_vec) =~= Seq::new(operation.input_count(), |i: int| None::<Seq<char>>));
            },
        }
        self.set_inputs(tag_string.clone(), input_vec);
        let ghost before = *self;
        let boxed: Box<dyn ImplicitOperation<T>> = Box::new(operation);
        let component = ModelComponent::Operation(boxed);
        self.push_component(tag_string.clone(), component);
        self.default_output = Some(tag_string.clone());
        proof {
            lemma_map_insert_dom(before.component_map(), tag@, component);
        }
        Ok(tag_string)
    }

    /// Add a constant value under a tag, which becomes the default output.
    ///
    /// Fails with [`ModelError::DuplicateTag`] when the tag is used; the model is then unchanged.
    pub fn add_constant(&mut self, tag: &str, value: T) -> (r: Result<String, ModelError>)
        requires
            old(self).wf(),
        ensures
            final(self).wf(),
            r is Ok <==> !old(self).component_map().contains_key(tag@),
            match r {
                Ok(t) => t@ == tag@ && final(self).component_map() == old(self).component_map().insert(
                    tag@,
                    ModelComponent::Constant(value),
                ) && final(self).input_map() == old(self).input_map() && final(self).default_tag() == Some(tag@),
                Err(e) => e is DuplicateTag && e->DuplicateTag_0@ == tag@ && *final(self) == *old(self),
            },
    {
        let tag_string = String::from_str(tag);
        if let Err(e) = self.verify_tag_is_free(&tag_string) {
            return Err(e);
        }
        self.push_component(tag_string.clone(), ModelComponent::Constant(value));
        self.default_output = Some(tag_string.clone());
        Ok(tag_string)
    }
}

} // verus!
