//! The local packages that a project depends on.
//!
//! The packages and their dependencies are what the build tool reports of
//! the project. The directories to watch are those of the packages that lie
//! on this machine and are reached from the project's own packages through
//! packages that lie on this machine.

use vstd::prelude::*;
use crate::text::same_text;

verus! {

/// A package of the project's dependency graph.
#[derive(Clone, Debug, PartialEq, Eq)]
pub struct Package {
    /// The package's identifier.
    pub id: String,
    /// Whether the package comes from a registry or another remote source.
    pub remote: bool,
    /// The directory of the package's manifest.
    pub dir: String,
}

/// The dependencies of one package.
#[derive(Clone, Debug, PartialEq, Eq)]
pub struct Node {
    /// The package's identifier.
    pub id: String,
    /// The identifiers of the packages that it depends on.
    pub deps: Vec<String>,
}

/// A package as a mathematical value.
pub struct PackageModel {
    pub id: Seq<char>,
    pub remote: bool,
    pub dir: Seq<char>,
}

/// A node as a mathematical value.
pub struct NodeModel {
    pub id: Seq<char>,
    pub deps: Seq<Seq<char>>,
}

impl DeepView for Package {
    type V = PackageModel;

    open spec fn deep_view(&self) -> PackageModel {
        PackageModel { id: self.id@, remote: self.remote, dir: self.dir@ }
    }
}

impl DeepView for Node {
    type V = NodeModel;

    open spec fn deep_view(&self) -> NodeModel {
        NodeModel { id: self.id@, deps: self.deps.deep_view() }
    }
}

/// The dependency graph as a mathematical value.
pub struct Graph {
    pub packages: Seq<PackageModel>,
    pub nodes: Seq<NodeModel>,
    /// The identifiers of the project's own packages.
    pub roots: Seq<Seq<char>>,
}

/// The position of the package with this identifier: of the last one, if
/// there are several.
pub open spec fn package_index(packages: Seq<PackageModel>, id: Seq<char>) -> Option<int>
    decreases packages.len(),
{
    if packages.len() == 0 {
        None
    } else if packages.last().id == id {
        Some(packages.len() - 1)
    } else {
        package_index(packages.drop_last(), id)
    }
}

/// The position of the node with this identifier: of the last one, if
/// there are several.
pub open spec fn node_index(nodes: Seq<NodeModel>, id: Seq<char>) -> Option<int>
    decreases nodes.len(),
{
    if nodes.len() == 0 {
        None
    } else if nodes.last().id == id {
        Some(nodes.len() - 1)
    } else {
        node_index(nodes.drop_last(), id)
    }
}

impl Graph {
    /// The identifiers that the package at `i` depends on.
    pub open spec fn deps_of(self, i: int) -> Seq<Seq<char>> {
        match node_index(self.nodes, self.packages[i].id) {
            Some(n) => self.nodes[n].deps,
            None => Seq::empty(),
        }
    }

    /// The package that the dependency `k` of the package at `i` names, if
    /// it is known.
    pub open spec fn target(self, i: int, k: int) -> Option<int> {
        package_index(self.packages, self.deps_of(i)[k])
    }

    /// Whether the package at `i` lies on this machine.
    pub open spec fn local(self, i: int) -> bool {
        0 <= i < self.packages.len() && !self.packages[i].remote
    }

    /// Whether the local package at `i` depends on the package at `j`.
    pub open spec fn edge(self, i: int, j: int) -> bool {
        &&& self.local(i)
        &&& exists|k: int| 0 <= k < self.deps_of(i).len() && #[trigger] self.target(i, k) == Some(j)
    }

    /// Whether the package at `j` is one of the project's own.
    pub open spec fn is_root(self, j: int) -> bool {
        exists|k: int|
            0 <= k < self.roots.len() && package_index(self.packages, #[trigger] self.roots[k])
                == Some(j)
    }

    /// Whether `path` leads from one of the project's own packages along
    /// dependencies of local packages.
    pub open spec fn is_path(self, path: Seq<int>) -> bool {
        &&& path.len() >= 1
        &&& self.is_root(path[0])
        &&& forall|i: int| 0 <= i < path.len() - 1 ==> self.edge(#[trigger] path[i], path[i + 1])
    }

    /// Whether the package at `j` is reached from the project's own.
    pub open spec fn reached(self, j: int) -> bool {
        exists|path: Seq<int>| #[trigger] self.is_path(path) && path.last() == j
    }

    /// Whether `dir` is the directory of a local package that is reached.
    pub open spec fn local_dir(self, dir: Seq<char>) -> bool {
        exists|j: int| self.local(j) && #[trigger] self.reached(j) && self.packages[j].dir == dir
    }
}

/// How many of the flags are not set.
pub open spec fn unset(flags: Seq<bool>) -> nat
    decreases flags.len(),
{
    if flags.len() == 0 {
        0
    } else {
        unset(flags.drop_last()) + if flags.last() {
            0nat
        } else {
            1nat
        }
    }
}

/// Setting a flag that was not set leaves one fewer unset.
pub proof fn lemma_unset_after_set(flags: Seq<bool>, at: int)
    requires
        0 <= at < flags.len(),
        !flags[at],
    ensures
        unset(flags.update(at, true)) + 1 == unset(flags),
    decreases flags.len(),
{
    let after = flags.update(at, true);
    if at == flags.len() - 1 {
        assert(after.drop_last() == flags.drop_last());
    } else {
        assert(after.drop_last() == flags.drop_last().update(at, true));
        lemma_unset_after_set(flags.drop_last(), at);
    }
}

/// Finds the package with this identifier.
pub fn find_package(packages: &Vec<Package>, id: &str) -> (found: Option<usize>)
    ensures
        match found {
            Some(j) => package_index(packages.deep_view(), id@) == Some(j as int) && j
                < packages.len(),
            None => package_index(packages.deep_view(), id@) is None,
        },
{
    let mut i: usize = packages.len();
    proof {
        assert(packages.deep_view().take(i as int) == packages.deep_view());
    }
    while i > 0
        invariant
            i <= packages.len(),
            package_index(packages.deep_view(), id@) == package_index(
                packages.deep_view().take(i as int),
                id@,
            ),
        decreases i,
    {
        proof {
            let all = packages.deep_view();
            assert(all.take(i as int).last() == packages@[i - 1].deep_view());
            assert(all.take(i as int).drop_last() == all.take(i - 1));
        }
        if same_text(packages[i - 1].id.as_str(), id) {
            return Some(i - 1);
        }
        i -= 1;
    }
    None
}

/// Finds the node with this identifier.
pub fn find_node(nodes: &Vec<Node>, id: &str) -> (found: Option<usize>)
    ensures
        match found {
            Some(n) => node_index(nodes.deep_view(), id@) == Some(n as int) && n < nodes.len(),
            None => node_index(nodes.deep_view(), id@) is None,
        },
{
    let mut i: usize = nodes.len();
    proof {
        assert(nodes.deep_view().take(i as int) == nodes.deep_view());
    }
    while i > 0
        invariant
            i <= nodes.len(),
            node_index(nodes.deep_view(), id@) == node_index(nodes.deep_view().take(i as int), id@),
        decreases i,
    {
        proof {
            let all = nodes.deep_view();
            assert(all.take(i as int).last() == nodes@[i - 1].deep_view());
            assert(all.take(i as int).drop_last() == all.take(i - 1));
        }
        if same_text(nodes[i - 1].id.as_str(), id) {
            return Some(i - 1);
        }
        i -= 1;
    }
    None
}

/// Whether one of the texts is `text`.
pub fn holds_text(texts: &Vec<String>, text: &str) -> (found: bool)
    ensures
        found == texts.deep_view().contains(text@),
{
    let mut i: usize = 0;
    while i < texts.len()
        invariant
            i <= texts.len(),
            forall|j: int| 0 <= j < i ==> #[trigger] texts.deep_view()[j] != text@,
        decreases texts.len() - i,
    {
        proof {
            assert(texts.deep_view()[i as int] == texts@[i as int]@);
        }
        if same_text(texts[i].as_str(), text) {
            return true;
        }
        i += 1;
    }
    false
}

/// Whether every package that is marked or waits to be visited is reached.
pub open spec fn sound(graph: Graph, visited: Seq<bool>, waiting: Seq<usize>) -> bool {
    &&& forall|i: int| 0 <= i < visited.len() && #[trigger] visited[i] ==> graph.reached(i)
    &&& forall|t: int|
        0 <= t < waiting.len() ==> (#[trigger] waiting[t]) < graph.packages.len() && graph.reached(
            waiting[t] as int,
        )
}

/// Whether the package at `j` is marked or waits to be visited.
pub open spec fn known(visited: Seq<bool>, waiting: Seq<usize>, j: int) -> bool {
    0 <= j < visited.len() && (visited[j] || exists|t: int|
        0 <= t < waiting.len() && #[trigger] waiting[t] == j)
}

/// Whether the first `upto` dependencies of the package at `i` are known
/// as far as they name packages.
pub open spec fn covered(graph: Graph, visited: Seq<bool>, waiting: Seq<usize>, i: int, upto: int) -> bool {
    forall|k: int|
        0 <= k < upto && k < graph.deps_of(i).len() ==> ((#[trigger] graph.target(i, k)) matches Some(
            j,
        ) ==> known(visited, waiting, j))
}

/// Whether the project's own packages are known, and with each marked local
/// package, except the one at `except`, those that it depends on.
pub open spec fn closed(graph: Graph, visited: Seq<bool>, waiting: Seq<usize>, except: int) -> bool {
    &&& forall|j: int| #[trigger] graph.is_root(j) ==> known(visited, waiting, j)
    &&& forall|i: int|
        0 <= i < visited.len() && #[trigger] visited[i] && graph.local(i) && i != except
            ==> covered(graph, visited, waiting, i, graph.deps_of(i).len() as int)
}

/// Where nothing waits to be visited and the marks are closed, every
/// package at the end of a path is marked.
pub proof fn lemma_closed_holds_paths(graph: Graph, visited: Seq<bool>, path: Seq<int>)
    requires
        visited.len() == graph.packages.len(),
        closed(graph, visited, Seq::empty(), -1),
        graph.is_path(path),
    ensures
        0 <= path.last() < visited.len(),
        visited[path.last()],
    decreases path.len(),
{
    let none = Seq::<usize>::empty();
    if path.len() == 1 {
        assert(graph.is_root(path[0]));
        assert(known(visited, none, path[0]));
    } else {
        let shorter = path.drop_last();
        assert(graph.is_path(shorter)) by {
            assert forall|i: int| 0 <= i < shorter.len() - 1 implies graph.edge(
                #[trigger] shorter[i],
                shorter[i + 1],
            ) by {
                assert(graph.edge(path[i], path[i + 1]));
            }
        }
        lemma_closed_holds_paths(graph, visited, shorter);
        let i = shorter.last();
        let j = path.last();
        assert(graph.edge(path[path.len() - 2], path[path.len() - 2 + 1]));
        assert(graph.edge(i, j));
        let k = choose|k: int| 0 <= k < graph.deps_of(i).len() && #[trigger] graph.target(i, k) == Some(j);
        assert(covered(graph, visited, none, i, graph.deps_of(i).len() as int));
        assert(known(visited, none, j));
    }
}

/// A path that is extended along a dependency is a path.
pub proof fn lemma_path_grows(graph: Graph, path: Seq<int>, j: int)
    requires
        graph.is_path(path),
        graph.edge(path.last(), j),
    ensures
        graph.is_path(path.push(j)),
        graph.reached(j),
{
    let longer = path.push(j);
    assert forall|i: int| 0 <= i < longer.len() - 1 implies graph.edge(
        #[trigger] longer[i],
        longer[i + 1],
    ) by {
        if i < path.len() - 1 {
            assert(graph.edge(path[i], path[i + 1]));
        }
    }
    assert(longer[0] == path[0]);
    assert(graph.is_path(longer));
    assert(longer.last() == j);
}

/// The graph that the build tool's report describes.
pub open spec fn graph_of(packages: &Vec<Package>, nodes: &Vec<Node>, roots: &Vec<String>) -> Graph {
    Graph {
        packages: packages.deep_view(),
        nodes: nodes.deep_view(),
        roots: roots.deep_view(),
    }
}

/// Whether `dir` is the directory of a local package that is marked.
pub open spec fn marked_dir(graph: Graph, visited: Seq<bool>, dir: Seq<char>) -> bool {
    exists|i: int|
        0 <= i < visited.len() && #[trigger] visited[i] && graph.local(i) && graph.packages[i].dir
            == dir
}

/// What is known stays known when it is carried over to more marks and
/// another list of packages to visit that holds all that was not marked.
pub proof fn lemma_closed_carries(
    graph: Graph,
    v1: Seq<bool>,
    t1: Seq<usize>,
    except1: int,
    v2: Seq<bool>,
    t2: Seq<usize>,
    except2: int,
)
    requires
        closed(graph, v1, t1, except1),
        v1.len() == v2.len(),
        forall|j: int| known(v1, t1, j) ==> known(v2, t2, j),
        forall|i: int|
            0 <= i < v2.len() && #[trigger] v2[i] && graph.local(i) && i != except2 ==> v1[i] && i
                != except1,
    ensures
        closed(graph, v2, t2, except2),
{
    assert forall|i: int|
        0 <= i < v2.len() && #[trigger] v2[i] && graph.local(i) && i != except2 implies covered(
        graph,
        v2,
        t2,
        i,
        graph.deps_of(i).len() as int,
    ) by {
        assert(v1[i]);
        assert(covered(graph, v1, t1, i, graph.deps_of(i).len() as int));
        assert forall|k: int| 0 <= k < graph.deps_of(i).len() implies ((#[trigger] graph.target(
            i,
            k,
        )) matches Some(j) ==> known(v2, t2, j)) by {
            match graph.target(i, k) {
                Some(j) => {
                    assert(known(v1, t1, j));
                },
                None => {},
            }
        }
    }
    assert forall|j: int| #[trigger] graph.is_root(j) implies known(v2, t2, j) by {
        assert(known(v1, t1, j));
    }
}

/// The project's own packages, as far as they are known, to visit first.
fn seed(packages: &Vec<Package>, nodes: &Vec<Node>, roots: &Vec<String>) -> (waiting: Vec<usize>)
    ensures
        forall|t: int|
            0 <= t < waiting.len() ==> (#[trigger] waiting[t]) < packages.len() && graph_of(
                packages,
                nodes,
                roots,
            ).reached(waiting[t] as int),
        forall|j: int| #[trigger]
            graph_of(packages, nodes, roots).is_root(j) ==> 0 <= j < packages.len() && exists|
                t: int,
            |
                0 <= t < waiting.len() && #[trigger] waiting[t] == j,
{
    let ghost graph = graph_of(packages, nodes, roots);
    let mut waiting: Vec<usize> = Vec::new();
    let mut r: usize = 0;
    while r < roots.len()
        invariant
            r <= roots.len(),
            graph == graph_of(packages, nodes, roots),
            forall|t: int|
                0 <= t < waiting.len() ==> (#[trigger] waiting[t]) < packages.len() && graph.reached(
                    waiting[t] as int,
                ),
            forall|k: int|
                0 <= k < r ==> (package_index(graph.packages, #[trigger] graph.roots[k]) matches Some(
                    j,
                ) ==> 0 <= j < packages.len() && exists|t: int|
                    0 <= t < waiting.len() && #[trigger] waiting[t] == j),
        decreases roots.len() - r,
    {
        proof {
            assert(graph.roots[r as int] == roots@[r as int]@);
        }
        let ghost before = waiting@;
        match find_package(packages, roots[r].as_str()) {
            Some(j) => {
                waiting.push(j);
                proof {
                    assert(graph.is_root(j as int));
                    let path = seq![j as int];
                    assert(graph.is_path(path));
                    assert(path.last() == j);
                    assert(graph.reached(j as int));
                    assert(waiting@[before.len() as int] == j);
                    assert forall|k: int| 0 <= k < r + 1 implies (package_index(
                        graph.packages,
                        #[trigger] graph.roots[k],
                    ) matches Some(i) ==> 0 <= i < packages.len() && exists|t: int|
                        0 <= t < waiting.len() && #[trigger] waiting[t] == i) by {
                        match package_index(graph.packages, graph.roots[k]) {
                            Some(i) => {
                                if k < r {
                                    let t = choose|t: int|
                                        0 <= t < before.len() && #[trigger] before[t] == i;
                                    assert(waiting@[t] == i);
                                } else {
                                    assert(waiting@[before.len() as int] == i);
                                }
                            },
                            None => {},
                        }
                    }
                }
            },
            None => {},
        }
        r += 1;
    }
    waiting
}

/// Adds the packages that the local package at `cur` depends on, as far as
/// they are known, to those that wait to be visited.
fn push_deps(
    packages: &Vec<Package>,
    nodes: &Vec<Node>,
    roots: &Vec<String>,
    cur: usize,
    visited: &Vec<bool>,
    waiting: &mut Vec<usize>,
)
    requires
        visited.len() == packages.len(),
        cur < packages.len(),
        visited@[cur as int],
        !packages@[cur as int].remote,
        sound(graph_of(packages, nodes, roots), visited@, old(waiting)@),
        closed(graph_of(packages, nodes, roots), visited@, old(waiting)@, cur as int),
    ensures
        sound(graph_of(packages, nodes, roots), visited@, final(waiting)@),
        closed(graph_of(packages, nodes, roots), visited@, final(waiting)@, -1),
{
    let ghost graph = graph_of(packages, nodes, roots);
    proof {
        assert(graph.packages[cur as int] == packages@[cur as int].deep_view());
        assert(graph.local(cur as int));
    }
    match find_node(nodes, packages[cur].id.as_str()) {
        Some(n) => {
            let deps = &nodes[n].deps;
            proof {
                assert(graph.nodes[n as int] == nodes@[n as int].deep_view());
                assert(graph.deps_of(cur as int) == deps.deep_view());
            }
            let mut k: usize = 0;
            while k < deps.len()
                invariant
                    k <= deps.len(),
                    graph == graph_of(packages, nodes, roots),
                    visited.len() == packages.len(),
                    cur < packages.len(),
                    visited@[cur as int],
                    graph.local(cur as int),
                    graph.deps_of(cur as int) == deps.deep_view(),
                    sound(graph, visited@, waiting@),
                    closed(graph, visited@, waiting@, cur as int),
                    covered(graph, visited@, waiting@, cur as int, k as int),
                decreases deps.len() - k,
            {
                let ghost before = waiting@;
                proof {
                    assert(graph.deps_of(cur as int)[k as int] == deps@[k as int]@);
                }
                match find_package(packages, deps[k].as_str()) {
                    Some(j) => {
                        waiting.push(j);
                        proof {
                            assert(graph.target(cur as int, k as int) == Some(j as int));
                            assert(graph.edge(cur as int, j as int));
                            assert(graph.reached(cur as int));
                            let path = choose|path: Seq<int>| #[trigger]
                                graph.is_path(path) && path.last() == cur;
                            lemma_path_grows(graph, path, j as int);
                            assert(waiting@[before.len() as int] == j);
                            assert(known(visited@, waiting@, j as int));
                        }
                    },
                    None => {},
                }
                proof {
                    assert forall|i: int| known(visited@, before, i) implies known(
                        visited@,
                        waiting@,
                        i,
                    ) by {
                        if !visited@[i] {
                            let t = choose|t: int| 0 <= t < before.len() && #[trigger] before[t] == i;
                            assert(waiting@[t] == i);
                        }
                    }
                    lemma_closed_carries(
                        graph,
                        visited@,
                        before,
                        cur as int,
                        visited@,
                        waiting@,
                        cur as int,
                    );
                    assert forall|m: int|
                        0 <= m < k + 1 && m < graph.deps_of(cur as int).len() implies ((
                    #[trigger] graph.target(cur as int, m)) matches Some(i) ==> known(
                        visited@,
                        waiting@,
                        i,
                    )) by {
                        match graph.target(cur as int, m) {
                            Some(i) => {
                                if m < k {
                                    assert(known(visited@, before, i));
                                }
                            },
                            None => {},
                        }
                    }
                }
                k += 1;
            }
        },
        None => {
            proof {
                assert(graph.deps_of(cur as int).len() == 0);
            }
        },
    }
    proof {
        assert(covered(graph, visited@, waiting@, cur as int, graph.deps_of(cur as int).len() as int));
        assert forall|i: int|
            0 <= i < visited.len() && #[trigger] visited@[i] && graph.local(i) && i != -1 implies covered(
            graph,
            visited@,
            waiting@,
            i,
            graph.deps_of(i).len() as int,
        ) by {
            if i != cur {
                assert(covered(graph, visited@, waiting@, i, graph.deps_of(i).len() as int));
            }
        }
    }
}

/// The directories of the local packages that the project's own packages
/// reach through dependencies of local packages, each once. A remote
/// package, or an identifier that names no package, ends the search on its
/// branch.
pub fn find_local_deps(packages: &Vec<Package>, nodes: &Vec<Node>, roots: &Vec<String>) -> (dirs: Vec<
    String,
>)
    ensures
        forall|dir: Seq<char>| #[trigger]
            dirs.deep_view().contains(dir) <==> graph_of(packages, nodes, roots).local_dir(dir),
        forall|a: int, b: int|
            0 <= a < b < dirs.len() ==> dirs.deep_view()[a] != dirs.deep_view()[b],
{
    let ghost graph = graph_of(packages, nodes, roots);
    let mut visited: Vec<bool> = Vec::new();
    while visited.len() < packages.len()
        invariant
            visited.len() <= packages.len(),
            forall|i: int| 0 <= i < visited.len() ==> !visited@[i],
        decreases packages.len() - visited.len(),
    {
        visited.push(false);
    }
    let mut waiting = seed(packages, nodes, roots);
    let mut dirs: Vec<String> = Vec::new();
    proof {
        assert forall|j: int| #[trigger] graph.is_root(j) implies known(visited@, waiting@, j) by {}
    }
    while waiting.len() > 0
        invariant
            graph == graph_of(packages, nodes, roots),
            visited.len() == packages.len(),
            sound(graph, visited@, waiting@),
            closed(graph, visited@, waiting@, -1),
            forall|dir: Seq<char>| #[trigger]
                dirs.deep_view().contains(dir) <==> marked_dir(graph, visited@, dir),
            forall|a: int, b: int|
                0 <= a < b < dirs.len() ==> dirs.deep_view()[a] != dirs.deep_view()[b],
        decreases unset(visited@), waiting.len(),
    {
        let ghost old_waiting = waiting@;
        let ghost old_visited = visited@;
        let ghost old_dirs = dirs.deep_view();
        let cur = waiting.pop().unwrap();
        proof {
            assert(old_waiting[old_waiting.len() - 1] == cur);
            assert(graph.reached(cur as int));
            assert(graph.packages[cur as int] == packages@[cur as int].deep_view());
        }
        let was_visited = visited[cur];
        if !was_visited {
            visited.set(cur, true);
            proof {
                lemma_unset_after_set(old_visited, cur as int);
            }
        }
        proof {
            assert forall|j: int| known(old_visited, old_waiting, j) implies known(
                visited@,
                waiting@,
                j,
            ) by {
                if !old_visited[j] {
                    let t = choose|t: int| 0 <= t < old_waiting.len() && #[trigger] old_waiting[t] == j;
                    if t < old_waiting.len() - 1 {
                        assert(waiting@[t] == j);
                    }
                }
            }
        }
        let expand = !was_visited && !packages[cur].remote;
        proof {
            lemma_closed_carries(
                graph,
                old_visited,
                old_waiting,
                -1,
                visited@,
                waiting@,
                if expand {
                    cur as int
                } else {
                    -1
                },
            );
            if !expand {
                assert forall|dir: Seq<char>| marked_dir(graph, visited@, dir) == marked_dir(
                    graph,
                    old_visited,
                    dir,
                ) by {
                    if marked_dir(graph, visited@, dir) {
                        let i = choose|i: int|
                            0 <= i < visited.len() && #[trigger] visited@[i] && graph.local(i)
                                && graph.packages[i].dir == dir;
                        assert(old_visited[i]);
                    }
                    if marked_dir(graph, old_visited, dir) {
                        let i = choose|i: int|
                            0 <= i < old_visited.len() && #[trigger] old_visited[i] && graph.local(
                                i,
                            ) && graph.packages[i].dir == dir;
                        assert(visited@[i]);
                    }
                }
            }
        }
        if expand {
            let dir = &packages[cur].dir;
            if !holds_text(&dirs, dir.as_str()) {
                dirs.push(dir.clone());
            }
            proof {
                let now = dirs.deep_view();
                assert forall|d: Seq<char>| #[trigger] now.contains(d) <==> (old_dirs.contains(d)
                    || d == dir@) by {
                    if old_dirs.contains(d) {
                        let a = choose|a: int| 0 <= a < old_dirs.len() && old_dirs[a] == d;
                        assert(now[a] == d);
                    }
                    if d == dir@ {
                        if old_dirs.contains(d) {
                        } else {
                            assert(now[now.len() - 1] == d);
                        }
                    }
                    if now.contains(d) {
                        let a = choose|a: int| 0 <= a < now.len() && now[a] == d;
                        if a < old_dirs.len() {
                            assert(old_dirs[a] == d);
                        }
                    }
                }
                assert forall|d: Seq<char>| marked_dir(graph, visited@, d) == (marked_dir(
                    graph,
                    old_visited,
                    d,
                ) || d == dir@) by {
                    if marked_dir(graph, visited@, d) {
                        let i = choose|i: int|
                            0 <= i < visited.len() && #[trigger] visited@[i] && graph.local(i)
                                && graph.packages[i].dir == d;
                        if i != cur {
                            assert(old_visited[i]);
                        }
                    }
                    if marked_dir(graph, old_visited, d) {
                        let i = choose|i: int|
                            0 <= i < old_visited.len() && #[trigger] old_visited[i] && graph.local(
                                i,
                            ) && graph.packages[i].dir == d;
                        assert(visited@[i]);
                    }
                    if d == dir@ {
                        assert(visited@[cur as int] && graph.local(cur as int));
                    }
                }
                assert forall|a: int, b: int| 0 <= a < b < now.len() implies now[a] != now[b] by {
                    if b < old_dirs.len() {
                        assert(old_dirs[a] == now[a] && old_dirs[b] == now[b]);
                    } else {
                        assert(old_dirs[a] == now[a]);
                        assert(old_dirs.contains(now[a]));
                    }
                }
            }
            push_deps(packages, nodes, roots, cur, &visited, &mut waiting);
        }
    }
    proof {
        assert(waiting@ == Seq::<usize>::empty());
        assert forall|dir: Seq<char>| marked_dir(graph, visited@, dir) == graph.local_dir(dir) by {
            if marked_dir(graph, visited@, dir) {
                let i = choose|i: int|
                    0 <= i < visited.len() && #[trigger] visited@[i] && graph.local(i)
                        && graph.packages[i].dir == dir;
                assert(graph.reached(i));
            }
            if graph.local_dir(dir) {
                let j = choose|j: int|
                    graph.local(j) && #[trigger] graph.reached(j) && graph.packages[j].dir == dir;
                let path = choose|path: Seq<int>| #[trigger] graph.is_path(path) && path.last() == j;
                lemma_closed_holds_paths(graph, visited@, path);
                assert(visited@[j]);
            }
        }
    }
    dirs
}

} // verus!
