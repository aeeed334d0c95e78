//! The configuration document: the named nets and servers that make up a
//! topology.

use crate::registry::{position, same_text, Registry};
use vstd::prelude::*;

verus! {

/// One net of the document: its name, its kind, the nets it is built on,
/// and the settings of its kind as JSON text.
#[derive(Debug, Clone, PartialEq, Eq)]
pub struct Net {
    pub name: String,
    pub net_type: String,
    pub inner: Vec<String>,
    pub opt: String,
}

/// One server of the document: its name, its kind, the net it listens on,
/// the net it sends through, and the settings of its kind as JSON text.
#[derive(Debug, Clone, PartialEq, Eq)]
pub struct Server {
    pub name: String,
    pub server_type: String,
    pub listen: String,
    pub net: String,
    pub opt: String,
}

/// A configuration document. It is the unit of reload: a new document
/// replaces the whole topology.
#[derive(Debug, Clone, PartialEq, Eq)]
pub struct Config {
    pub net: Vec<Net>,
    pub server: Vec<Server>,
}

impl Config {
    /// A document without nets and servers.
    pub fn new() -> (c: Config)
        ensures
            c.net@.len() == 0,
            c.server@.len() == 0,
    {
        Config { net: Vec::new(), server: Vec::new() }
    }
}

/// Every net that a net is built on is a net of the graph. `deps[i]` holds
/// the numbers of the nets that net `i` is built on.
pub open spec fn graph_ok(deps: Seq<Seq<usize>>) -> bool {
    forall|i: int, k: int|
        0 <= i < deps.len() && 0 <= k < deps[i].len() ==> (#[trigger] deps[i][k]) < deps.len()
}

/// Net `d` stands in `order` before place `p`.
pub open spec fn built_before(order: Seq<usize>, p: int, d: usize) -> bool {
    exists|q: int| 0 <= q < p && #[trigger] order[q] == d
}

/// Every net of `order` comes after all the nets it is built on, and no
/// net comes twice.
pub open spec fn in_build_order(deps: Seq<Seq<usize>>, order: Seq<usize>) -> bool {
    &&& forall|p: int| 0 <= p < order.len() ==> (#[trigger] order[p]) < deps.len()
    &&& order.no_duplicates()
    &&& forall|p: int, k: int|
        0 <= p < order.len() && 0 <= k < deps[order[p] as int].len() ==> built_before(
            order,
            p,
            #[trigger] deps[order[p] as int][k],
        )
}

/// `order` is an order in which the whole graph can be built: it holds
/// every net once, each after all the nets it is built on.
pub open spec fn is_build_order(deps: Seq<Seq<usize>>, order: Seq<usize>) -> bool {
    order.len() == deps.len() && in_build_order(deps, order)
}

/// The graphs of views of a table of dependencies.
pub open spec fn deps_view(deps: Seq<Vec<usize>>) -> Seq<Seq<usize>> {
    deps.map_values(|d: Vec<usize>| d@)
}

/// Whether every net of `needed` is marked in `placed`.
fn all_placed(needed: &Vec<usize>, placed: &Vec<bool>) -> (r: bool)
    requires
        forall|k: int| 0 <= k < needed@.len() ==> needed@[k] < placed@.len(),
    ensures
        r == forall|k: int| 0 <= k < needed@.len() ==> placed@[#[trigger] needed@[k] as int],
{
    let mut k: usize = 0;
    while k < needed.len()
        invariant
            k <= needed@.len(),
            forall|j: int| 0 <= j < needed@.len() ==> needed@[j] < placed@.len(),
            forall|j: int| 0 <= j < k ==> placed@[#[trigger] needed@[j] as int],
        decreases needed@.len() - k,
    {
        if !placed[needed[k]] {
            return false;
        }
        k += 1;
    }
    true
}

/// The first place of `order` that holds a net outside of `inside`, given
/// that some place does.
proof fn lemma_first_outside(order: Seq<usize>, inside: Set<usize>, some: int) -> (p: int)
    requires
        0 <= some < order.len(),
        !inside.contains(order[some]),
    ensures
        0 <= p <= some,
        !inside.contains(order[p]),
        forall|q: int| 0 <= q < p ==> inside.contains(#[trigger] order[q]),
    decreases some,
{
    if exists|q: int| 0 <= q < some && !inside.contains(#[trigger] order[q]) {
        let q = choose|q: int| 0 <= q < some && !inside.contains(#[trigger] order[q]);
        lemma_first_outside(order, inside, q)
    } else {
        some
    }
}

/// Net `i` is built on a net that is not among `placed`.
pub open spec fn waits(deps: Seq<Seq<usize>>, placed: Seq<usize>, i: int) -> bool {
    exists|k: int| 0 <= k < deps[i].len() && !placed.contains(#[trigger] deps[i][k])
}

/// A build that is stuck proves a cycle: when fewer nets are placed than
/// the graph has, and every net that is not placed is built on one that is
/// not placed either, then no order builds the whole graph.
pub proof fn lemma_stuck_has_no_order(
    deps: Seq<Seq<usize>>,
    placed: Seq<usize>,
    order: Seq<usize>,
)
    requires
        placed.no_duplicates(),
        placed.len() < deps.len(),
        forall|i: int|
            0 <= i < deps.len() && !placed.contains(i as usize) ==> #[trigger] waits(
                deps,
                placed,
                i,
            ),
    ensures
        !is_build_order(deps, order),
{
    if is_build_order(deps, order) {
        let inside = placed.to_set();
        vstd::seq_lib::seq_to_set_is_finite(placed);
        vstd::seq_lib::seq_to_set_is_finite(order);
        placed.unique_seq_to_set();
        order.unique_seq_to_set();
        if forall|p: int| 0 <= p < order.len() ==> inside.contains(#[trigger] order[p]) {
            assert forall|x: usize| order.to_set().contains(x) implies inside.contains(x) by {
                let p = choose|p: int| 0 <= p < order.len() && order[p] == x;
                assert(inside.contains(order[p]));
            }
            vstd::set_lib::lemma_len_subset(order.to_set(), inside);
            assert(false);
        }
        let some = choose|p: int| 0 <= p < order.len() && !inside.contains(#[trigger] order[p]);
        let p = lemma_first_outside(order, inside, some);
        let u = order[p];
        assert(!placed.contains(u));
        assert(waits(deps, placed, u as int));
        let k = choose|k: int|
            0 <= k < deps[u as int].len() && !placed.contains(#[trigger] deps[u as int][k]);
        let d = deps[u as int][k];
        assert(built_before(order, p, d));
        let q = choose|q: int| 0 <= q < p && #[trigger] order[q] == d;
        assert(inside.contains(order[q]));
        assert(false);
    }
}

/// Finds an order in which the nets of a graph can be built, each after
/// all the nets it is built on. There is none exactly when the graph has a
/// cycle.
pub fn build_order(deps: &Vec<Vec<usize>>) -> (r: Option<Vec<usize>>)
    requires
        graph_ok(deps_view(deps@)),
    ensures
        match r {
            Some(order) => is_build_order(deps_view(deps@), order@),
            None => forall|order: Seq<usize>| !is_build_order(deps_view(deps@), order),
        },
{
    let n = deps.len();
    let ghost graph = deps_view(deps@);
    let mut placed: Vec<bool> = Vec::new();
    let mut i: usize = 0;
    while i < n
        invariant
            i <= n,
            placed@.len() == i,
            forall|j: int| 0 <= j < i ==> !placed@[j],
        decreases n - i,
    {
        placed.push(false);
        i += 1;
    }
    let mut order: Vec<usize> = Vec::new();
    while order.len() < n
        invariant
            n == deps@.len(),
            graph == deps_view(deps@),
            graph_ok(graph),
            placed@.len() == n,
            order@.len() <= n,
            in_build_order(graph, order@),
            forall|j: int| 0 <= j < n ==> placed@[j] == order@.contains(j as usize),
        decreases n - order@.len(),
    {
        let mut found: Option<usize> = None;
        let mut c: usize = 0;
        while c < n && found.is_none()
            invariant
                c <= n,
                n == deps@.len(),
                graph == deps_view(deps@),
                graph_ok(graph),
                placed@.len() == n,
                forall|j: int|
                    0 <= j < c && found is None && !placed@[j] ==> exists|k: int|
                        0 <= k < graph[j].len() && !placed@[#[trigger] graph[j][k] as int],
                match found {
                    Some(f) => f < n && !placed@[f as int] && forall|k: int|
                        0 <= k < graph[f as int].len() ==> placed@[#[trigger] graph[f as int][k] as int],
                    None => true,
                },
            decreases n - c,
        {
            assert(graph[c as int] == deps@[c as int]@);
            assert forall|k: int| 0 <= k < deps@[c as int]@.len() implies deps@[c as int]@[k]
                < placed@.len() by {
                assert(graph[c as int][k] < n);
            }
            if !placed[c] && all_placed(&deps[c], &placed) {
                found = Some(c);
            }
            c += 1;
        }
        match found {
            None => {
                proof {
                    assert forall|order2: Seq<usize>| !is_build_order(graph, order2) by {
                        assert forall|j: int|
                            0 <= j < graph.len() && !order@.contains(
                                j as usize,
                            ) implies #[trigger] waits(graph, order@, j) by {
                            assert(!placed@[j]);
                            let k = choose|k: int|
                                0 <= k < graph[j].len() && !placed@[#[trigger] graph[j][k] as int];
                            assert(graph[j][k] < n);
                            assert(!order@.contains(graph[j][k]));
                        }
                        lemma_stuck_has_no_order(graph, order@, order2);
                    }
                }
                return None;
            },
            Some(f) => {
                let ghost before = order@;
                let ghost marks = placed@;
                placed[f] = true;
                order.push(f);
                proof {
                    assert(!before.contains(f));
                    assert forall|j: int| 0 <= j < n implies placed@[j] == order@.contains(
                        j as usize,
                    ) by {
                        if j == f {
                            assert(order@[before.len() as int] == f);
                        } else if marks[j] {
                            let p = choose|p: int| 0 <= p < before.len() && before[p] == j as usize;
                            assert(order@[p] == j as usize);
                        } else if order@.contains(j as usize) {
                            let p = choose|p: int| 0 <= p < order@.len() && order@[p] == j as usize;
                            assert(before[p] == j as usize);
                        }
                    }
                    assert forall|p: int, k: int|
                        0 <= p < order@.len() && 0 <= k < graph[order@[p] as int].len() implies built_before(
                        order@,
                        p,
                        #[trigger] graph[order@[p] as int][k],
                    ) by {
                        if p < before.len() {
                            assert(order@[p] == before[p]);
                            let d = graph[before[p] as int][k];
                            assert(built_before(before, p, d));
                            let q = choose|q: int| 0 <= q < p && #[trigger] before[q] == d;
                            assert(order@[q] == before[q]);
                        } else {
                            let d = graph[f as int][k];
                            assert(marks[d as int]);
                            assert(d < n);
                            assert(before.contains(d));
                            let q = choose|q: int| 0 <= q < before.len() && before[q] == d;
                            assert(order@[q] == d);
                        }
                    }
                    assert forall|p: int| 0 <= p < order@.len() implies (#[trigger] order@[p])
                        < graph.len() by {
                        if p < before.len() {
                            assert(before[p] < graph.len());
                        }
                    }
                    assert(order@.no_duplicates()) by {
                        assert forall|a: int, b: int|
                            0 <= a < order@.len() && 0 <= b < order@.len() && a != b implies order@[a]
                            != order@[b] by {
                            if a < before.len() && b < before.len() {
                                assert(before[a] != before[b]);
                            } else if a < before.len() {
                                assert(before.contains(before[a]));
                            } else {
                                assert(before.contains(before[b]));
                            }
                        }
                    }
                }
            },
        }
    }
    Some(order)
}

/// Why a configuration document cannot be built.
#[derive(Debug, Clone, Copy, PartialEq, Eq, Structural)]
pub enum ConfigError {
    /// Two nets, or two servers, have the same name.
    DuplicateName,
    /// A net or a server is of a kind that the registry does not hold.
    UnknownType,
    /// A net or a server names a net that the document does not hold.
    UnknownNet,
    /// Some nets are built on each other in a circle.
    Cycle,
}

/// The texts of `names`, in the same order.
pub open spec fn texts(names: Seq<String>) -> Seq<Seq<char>> {
    names.map_values(|s: String| s@)
}

/// No two of `names` are the same.
pub open spec fn unique(names: Seq<Seq<char>>) -> bool {
    forall|i: int, j: int| 0 <= i < j < names.len() ==> names[i] != names[j]
}

/// The place of `name` among `names`: the last, where it stands more than
/// once.
pub open spec fn name_index(names: Seq<Seq<char>>, name: Seq<char>) -> Option<int>
    decreases names.len(),
{
    if names.len() == 0 {
        None
    } else if names.last() == name {
        Some(names.len() - 1)
    } else {
        name_index(names.drop_last(), name)
    }
}

/// `name_index` finds a place that holds the name, and finds nothing only
/// when no place holds it.
pub proof fn lemma_name_index(names: Seq<Seq<char>>, name: Seq<char>)
    ensures
        match name_index(names, name) {
            Some(i) => 0 <= i < names.len() && names[i] == name,
            None => forall|i: int| 0 <= i < names.len() ==> names[i] != name,
        },
    decreases names.len(),
{
    if names.len() > 0 && names.last() != name {
        lemma_name_index(names.drop_last(), name);
        if name_index(names, name) is None {
            assert forall|i: int| 0 <= i < names.len() implies names[i] != name by {
                if i < names.len() - 1 {
                    assert(names.drop_last()[i] != name);
                }
            }
        }
    }
}

/// Whether no two of `names` are the same.
fn all_distinct(names: &Vec<String>) -> (r: bool)
    ensures
        r == unique(texts(names@)),
{
    let ghost t = texts(names@);
    let mut j: usize = 0;
    while j < names.len()
        invariant
            j <= names@.len(),
            t == texts(names@),
            forall|a: int, b: int| 0 <= a < b < j ==> t[a] != t[b],
        decreases names@.len() - j,
    {
        let mut i: usize = 0;
        while i < j
            invariant
                i <= j < names@.len(),
                t == texts(names@),
                forall|a: int| 0 <= a < i ==> t[a] != t[j as int],
            decreases j - i,
        {
            if same_text(names[i].as_str(), names[j].as_str()) {
                assert(t[i as int] == t[j as int]);
                return false;
            }
            i += 1;
        }
        j += 1;
    }
    true
}

/// Where `name` stands among `names`.
fn find_name(names: &Vec<String>, name: &str) -> (r: Option<usize>)
    ensures
        match r {
            Some(i) => name_index(texts(names@), name@) == Some(i as int) && i < names@.len(),
            None => name_index(texts(names@), name@) is None,
        },
{
    let ghost t = texts(names@);
    let mut i: usize = names.len();
    assert(t.take(i as int) =~= t);
    while i > 0
        invariant
            i <= names@.len(),
            t == texts(names@),
            name_index(t, name@) == name_index(t.take(i as int), name@),
        decreases i,
    {
        proof {
            let head = t.take(i as int);
            assert(head.drop_last() =~= t.take(i - 1));
            assert(head.last() == t[i - 1]);
        }
        i -= 1;
        if same_text(names[i].as_str(), name) {
            return Some(i);
        }
    }
    None
}

impl Config {
    /// The names of the nets, in the document's order.
    pub open spec fn net_names(&self) -> Seq<Seq<char>> {
        self.net@.map_values(|n: Net| n.name@)
    }

    /// The names of the servers, in the document's order.
    pub open spec fn server_names(&self) -> Seq<Seq<char>> {
        self.server@.map_values(|s: Server| s.name@)
    }

    /// Names are unique within their section.
    pub open spec fn names_unique(&self) -> bool {
        unique(self.net_names()) && unique(self.server_names())
    }

    /// Every net and every server is of a kind that the registry holds.
    pub open spec fn types_known(&self, registry: &Registry) -> bool {
        &&& forall|i: int|
            0 <= i < self.net@.len() ==> position(
                registry.net@,
                (#[trigger] self.net@[i]).net_type@,
            ) is Some
        &&& forall|i: int|
            0 <= i < self.server@.len() ==> position(
                registry.server@,
                (#[trigger] self.server@[i]).server_type@,
            ) is Some
    }

    /// Whether the document holds a net named `name`.
    pub open spec fn has_net(&self, name: Seq<char>) -> bool {
        name_index(self.net_names(), name) is Some
    }

    /// Every net that a net is built on, and every net that a server
    /// listens on or sends through, is a net of the document.
    pub open spec fn refs_known(&self) -> bool {
        &&& forall|i: int, k: int|
            0 <= i < self.net@.len() && 0 <= k < self.net@[i].inner@.len() ==> self.has_net(
                (#[trigger] self.net@[i].inner@[k])@,
            )
        &&& forall|i: int|
            0 <= i < self.server@.len() ==> self.has_net((#[trigger] self.server@[i]).listen@)
                && self.has_net(self.server@[i].net@)
    }

    /// The nets as a graph: for each net, by its place in the document, the
    /// places of the nets it is built on.
    pub open spec fn graph(&self) -> Seq<Seq<usize>> {
        Seq::new(
            self.net@.len(),
            |i: int|
                Seq::new(
                    self.net@[i].inner@.len(),
                    |k: int|
                        name_index(self.net_names(), self.net@[i].inner@[k]@)->Some_0 as usize,
                ),
        )
    }

    /// Whether `r` is the verdict on the document: an order in which its
    /// nets can be built, each after the nets it is built on, or the first
    /// of these that is wrong with it: a name used twice, a kind that the
    /// registry does not hold, a net that is named but not there, a
    /// circle.
    pub open spec fn verdict_is(&self, registry: &Registry, r: Result<Vec<usize>, ConfigError>)
        -> bool {
        match r {
            Ok(order) => self.names_unique() && self.types_known(registry) && self.refs_known()
                && is_build_order(self.graph(), order@),
            Err(ConfigError::DuplicateName) => !self.names_unique(),
            Err(ConfigError::UnknownType) => self.names_unique() && !self.types_known(registry),
            Err(ConfigError::UnknownNet) => self.names_unique() && self.types_known(registry)
                && !self.refs_known(),
            Err(ConfigError::Cycle) => self.names_unique() && self.types_known(registry)
                && self.refs_known() && forall|order: Seq<usize>|
                !is_build_order(self.graph(), order),
        }
    }

    fn copy_net_names(&self) -> (names: Vec<String>)
        ensures
            texts(names@) == self.net_names(),
    {
        let mut names: Vec<String> = Vec::new();
        let mut i: usize = 0;
        while i < self.net.len()
            invariant
                i <= self.net@.len(),
                texts(names@) == self.net_names().take(i as int),
            decreases self.net@.len() - i,
        {
            let ghost before = names@;
            names.push(self.net[i].name.clone());
            assert(texts(names@) =~= texts(before).push(self.net@[i as int].name@));
            assert(texts(names@) =~= self.net_names().take(i + 1));
            i += 1;
        }
        assert(self.net_names().take(self.net@.len() as int) =~= self.net_names());
        names
    }

    fn copy_server_names(&self) -> (names: Vec<String>)
        ensures
            texts(names@) == self.server_names(),
    {
        let mut names: Vec<String> = Vec::new();
        let mut i: usize = 0;
        while i < self.server.len()
            invariant
                i <= self.server@.len(),
                texts(names@) == self.server_names().take(i as int),
            decreases self.server@.len() - i,
        {
            let ghost before = names@;
            names.push(self.server[i].name.clone());
            assert(texts(names@) =~= texts(before).push(self.server@[i as int].name@));
            assert(texts(names@) =~= self.server_names().take(i + 1));
            i += 1;
        }
        assert(self.server_names().take(self.server@.len() as int) =~= self.server_names());
        names
    }

    fn check_types(&self, registry: &Registry) -> (r: bool)
        ensures
            r == self.types_known(registry),
    {
        let mut i: usize = 0;
        while i < self.net.len()
            invariant
                i <= self.net@.len(),
                forall|j: int|
                    0 <= j < i ==> position(
                        registry.net@,
                        (#[trigger] self.net@[j]).net_type@,
                    ) is Some,
            decreases self.net@.len() - i,
        {
            if !registry.net.contains(self.net[i].net_type.as_str()) {
                return false;
            }
            i += 1;
        }
        let mut i: usize = 0;
        while i < self.server.len()
            invariant
                i <= self.server@.len(),
                forall|j: int|
                    0 <= j < self.net@.len() ==> position(
                        registry.net@,
                        (#[trigger] self.net@[j]).net_type@,
                    ) is Some,
                forall|j: int|
                    0 <= j < i ==> position(
                        registry.server@,
                        (#[trigger] self.server@[j]).server_type@,
                    ) is Some,
            decreases self.server@.len() - i,
        {
            if !registry.server.contains(self.server[i].server_type.as_str()) {
                return false;
            }
            i += 1;
        }
        true
    }

    /// The graph of the nets, or nothing when a net is built on a net that
    /// is not there.
    fn resolve(&self, names: &Vec<String>) -> (r: Option<Vec<Vec<usize>>>)
        requires
            texts(names@) == self.net_names(),
        ensures
            match r {
                Some(deps) => deps_view(deps@) == self.graph() && forall|i: int, k: int|
                    0 <= i < self.net@.len() && 0 <= k < self.net@[i].inner@.len()
                        ==> self.has_net((#[trigger] self.net@[i].inner@[k])@),
                None => !self.refs_known(),
            },
    {
        let mut deps: Vec<Vec<usize>> = Vec::new();
        let mut i: usize = 0;
        while i < self.net.len()
            invariant
                i <= self.net@.len(),
                texts(names@) == self.net_names(),
                deps_view(deps@) == self.graph().take(i as int),
                forall|a: int, k: int|
                    0 <= a < i && 0 <= k < self.net@[a].inner@.len() ==> self.has_net(
                        (#[trigger] self.net@[a].inner@[k])@,
                    ),
            decreases self.net@.len() - i,
        {
            let mut row: Vec<usize> = Vec::new();
            let mut k: usize = 0;
            while k < self.net[i].inner.len()
                invariant
                    i < self.net@.len(),
                    k <= self.net@[i as int].inner@.len(),
                    texts(names@) == self.net_names(),
                    row@ == self.graph()[i as int].take(k as int),
                    forall|j: int|
                        0 <= j < k ==> self.has_net((#[trigger] self.net@[i as int].inner@[j])@),
                decreases self.net@[i as int].inner@.len() - k,
            {
                match find_name(names, self.net[i].inner[k].as_str()) {
                    Some(at) => {
                        row.push(at);
                        assert(row@ =~= self.graph()[i as int].take(k + 1));
                    },
                    None => {
                        assert(!self.has_net(self.net@[i as int].inner@[k as int]@));
                        return None;
                    },
                }
                k += 1;
            }
            assert(self.graph()[i as int].take(k as int) =~= self.graph()[i as int]);
            let ghost before = deps@;
            deps.push(row);
            assert(deps_view(deps@) =~= deps_view(before).push(row@));
            assert(deps_view(deps@) =~= self.graph().take(i + 1));
            i += 1;
        }
        assert(self.graph().take(self.net@.len() as int) =~= self.graph());
        Some(deps)
    }

    fn check_servers(&self, names: &Vec<String>) -> (r: bool)
        requires
            texts(names@) == self.net_names(),
        ensures
            r == forall|i: int|
                0 <= i < self.server@.len() ==> self.has_net((#[trigger] self.server@[i]).listen@)
                    && self.has_net(self.server@[i].net@),
    {
        let mut i: usize = 0;
        while i < self.server.len()
            invariant
                i <= self.server@.len(),
                texts(names@) == self.net_names(),
                forall|j: int|
                    0 <= j < i ==> self.has_net((#[trigger] self.server@[j]).listen@)
                        && self.has_net(self.server@[j].net@),
            decreases self.server@.len() - i,
        {
            if find_name(names, self.server[i].listen.as_str()).is_none() || find_name(
                names,
                self.server[i].net.as_str(),
            ).is_none() {
                assert(!(self.has_net(self.server@[i as int].listen@) && self.has_net(
                    self.server@[i as int].net@,
                )));
                return false;
            }
            i += 1;
        }
        true
    }

    /// Checks the document against the registry and finds the order in
    /// which its nets are built: each after the nets it is built on.
    pub fn build_order(&self, registry: &Registry) -> (r: Result<Vec<usize>, ConfigError>)
        ensures
            self.verdict_is(registry, r),
    {
        let names = self.copy_net_names();
        let servers = self.copy_server_names();
        if !all_distinct(&names) || !all_distinct(&servers) {
            return Err(ConfigError::DuplicateName);
        }
        if !self.check_types(registry) {
            return Err(ConfigError::UnknownType);
        }
        let deps = match self.resolve(&names) {
            Some(deps) => deps,
            None => {
                return Err(ConfigError::UnknownNet);
            },
        };
        if !self.check_servers(&names) {
            return Err(ConfigError::UnknownNet);
        }
        proof {
            assert forall|i: int, k: int|
                0 <= i < self.graph().len() && 0 <= k < self.graph()[i].len() implies (
            #[trigger] self.graph()[i][k]) < self.graph().len() by {
                lemma_name_index(self.net_names(), self.net@[i].inner@[k]@);
                assert(self.has_net(self.net@[i].inner@[k]@));
            }
        }
        match build_order(&deps) {
            Some(order) => Ok(order),
            None => Err(ConfigError::Cycle),
        }
    }
}

} // verus!
