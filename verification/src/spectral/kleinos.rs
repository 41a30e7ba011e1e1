//! The shard-graph carrier and the K_2 to K_3 composition of two graphs.
use vstd::prelude::*;

use std::collections::BTreeSet;
use vstd::std_specs::cmp::OrdSpec;
use vstd::std_specs::iter::IteratorSpec;

use crate::verdict::Verdict;

verus! {

broadcast use {vstd::std_specs::btree::group_btree_axioms, vstd::laws_cmp::group_laws_cmp};

/// Vertex identifier in a shard-graph.
pub type VertexId = u64;

/// An undirected edge, stored with the lower vertex first.
pub type EdgeKey = (VertexId, VertexId);

/// Property discriminator for the four properties of a K_2 to K_3
/// composition.
#[derive(Clone, Copy, Debug, PartialEq, Eq, Hash, PartialOrd, Ord)]
pub enum Property {
    /// Neither sheaf dissolves into the other.
    Sovereignty,
    /// The composed sheaf carries exactly one emergent-third stalk.
    EmergentThird,
    /// Algebraic connectivity strictly rises.
    FiedlerRise,
    /// Composition is refused when the inputs would fuse.
    FusionRefusal,
}

/// Diagnostic-payload discriminator for sovereignty violations.
#[derive(Clone, Copy, Debug, PartialEq, Eq)]
pub enum WhichSide {
    A,
    B,
    Both,
}

/// The canonical key of the undirected edge between `a` and `b`: lower
/// vertex first.
pub open spec fn edge_key_spec(a: VertexId, b: VertexId) -> EdgeKey {
    if a <= b {
        (a, b)
    } else {
        (b, a)
    }
}

/// The vertices named by a list of edges.
pub open spec fn endpoints(s: Seq<(VertexId, VertexId)>) -> Set<VertexId> {
    Set::new(|v: VertexId| exists|k: int| 0 <= k < s.len() && (s[k].0 == v || s[k].1 == v))
}

/// The canonical keys of a list of edges.
pub open spec fn edge_keys(s: Seq<(VertexId, VertexId)>) -> Set<EdgeKey> {
    Set::new(|e: EdgeKey| exists|k: int| 0 <= k < s.len() && e == edge_key_spec(s[k].0, s[k].1))
}

/// Whether the pair `(x, y)` occurs in the list `s`.
pub open spec fn lists_pair(s: Seq<(VertexId, VertexId)>, x: VertexId, y: VertexId) -> bool {
    exists|k: int| 0 <= k < s.len() && s[k] == (x, y)
}

/// The edges of the complete graph on vertices `0..n`.
pub open spec fn complete_edges(n: nat) -> Set<EdgeKey> {
    Set::new(|e: EdgeKey| e.0 < e.1 && e.1 < n)
}

/// The vertices `0..n` of the complete graph of order `n`.
pub open spec fn complete_vertices(n: nat) -> Set<VertexId> {
    Set::new(|v: VertexId| v < n)
}

/// The complete bipartite bridges between two vertex sets.
pub open spec fn bridges(va: Set<VertexId>, vb: Set<VertexId>) -> Set<EdgeKey> {
    Set::new(|e: EdgeKey| exists|u: VertexId, v: VertexId| va.contains(u) && vb.contains(v) && e == edge_key_spec(u, v))
}

/// The spokes from vertex `c` to every vertex of `vs`.
pub open spec fn spokes(c: VertexId, vs: Set<VertexId>) -> Set<EdgeKey> {
    Set::new(|e: EdgeKey| exists|v: VertexId| vs.contains(v) && e == edge_key_spec(c, v))
}

/// The emergent-third vertex of a composition: one past the largest
/// vertex of either graph (1 when both are empty).
pub open spec fn is_emergent_id(va: Set<VertexId>, vb: Set<VertexId>, e: VertexId) -> bool {
    &&& forall|v: VertexId| (va.contains(v) || vb.contains(v)) ==> v < e
    &&& e >= 1
    &&& ((va.contains((e - 1) as VertexId) || vb.contains((e - 1) as VertexId)) || (va.is_empty()
        && vb.is_empty() && e == 1))
}

/// The sheaf-of-shard-graph carrier: vertices and canonical edges.
///
/// Built from edges only: a vertex is present when some edge names it.
#[derive(Clone, Debug, PartialEq, Eq)]
pub struct SheafOfShardGraph {
    vertices: BTreeSet<VertexId>,
    edges: BTreeSet<EdgeKey>,
}

/// Keys that a B-tree walk yields in increasing order are strictly
/// ascending integers.
proof fn lemma_increasing_vertex_keys(keys: Seq<&VertexId>)
    requires
        vstd::std_specs::btree::increasing_seq(keys),
    ensures
        forall|i: int, j: int| 0 <= i < j < keys.len() ==> *keys[i] < *keys[j],
{
    assert(vstd::laws_cmp::obeys_cmp::<&VertexId>());
    vstd::std_specs::btree::axiom_increasing_seq_meaning::<&VertexId>(keys);
    assert forall|i: int, j: int| 0 <= i < j < keys.len() implies *keys[i] < *keys[j] by {
        assert(OrdSpec::cmp_spec(&keys[i], &keys[j]) is Less);
    }
}

/// Lexicographic order of edge keys: by lower vertex, then upper vertex.
pub open spec fn edge_before(x: EdgeKey, y: EdgeKey) -> bool {
    x.0 < y.0 || (x.0 == y.0 && x.1 < y.1)
}

/// Edge keys that a B-tree walk yields in increasing order are strictly
/// ascending in lexicographic order.
proof fn lemma_increasing_edge_keys(keys: Seq<&EdgeKey>)
    requires
        vstd::std_specs::btree::increasing_seq(keys),
    ensures
        forall|i: int, j: int| 0 <= i < j < keys.len() ==> edge_before(*keys[i], *keys[j]),
{
    assert(vstd::laws_cmp::obeys_cmp::<&EdgeKey>());
    vstd::std_specs::btree::axiom_increasing_seq_meaning::<&EdgeKey>(keys);
    assert forall|i: int, j: int| 0 <= i < j < keys.len() implies edge_before(*keys[i], *keys[j]) by {
        assert(OrdSpec::cmp_spec(&keys[i], &keys[j]) is Less);
    }
}

fn edge_key(a: VertexId, b: VertexId) -> (r: EdgeKey)
    ensures
        r == edge_key_spec(a, b),
{
    if a <= b {
        (a, b)
    } else {
        (b, a)
    }
}

impl SheafOfShardGraph {
    /// The vertex set.
    pub closed spec fn vertex_set(&self) -> Set<VertexId> {
        self.vertices@
    }

    /// The edge set (canonical keys).
    pub closed spec fn edge_set(&self) -> Set<EdgeKey> {
        self.edges@
    }

    /// The vertices in canonical order.
    pub fn vertices(&self) -> (r: Vec<VertexId>)
        ensures
            r@.to_set() == self.vertex_set(),
            r@.no_duplicates(),
            forall|i: int, j: int| 0 <= i < j < r@.len() ==> r@[i] < r@[j],
    {
        let ghost keys = vstd::std_specs::btree::spec_btree_keys_iter(&self.vertices).remaining();
        let mut out: Vec<VertexId> = Vec::new();
        for v in it: self.vertices.iter()
            invariant
                it.seq() == keys,
                out@ == it.seq().take(it.index() as int).map_values(|x: &VertexId| *x),
        {
            out.push(*v);
        }
        assert(out@ =~= keys.map_values(|x: &VertexId| *x));
        assert(keys.unref() =~= keys.map_values(|x: &VertexId| *x));
        proof {
            lemma_increasing_vertex_keys(keys);
        }
        out
    }

    /// The edges in canonical order.
    pub fn edges(&self) -> (r: Vec<EdgeKey>)
        ensures
            r@.to_set() == self.edge_set(),
            r@.no_duplicates(),
            forall|i: int, j: int| 0 <= i < j < r@.len() ==> edge_before(r@[i], r@[j]),
    {
        let ghost keys = vstd::std_specs::btree::spec_btree_keys_iter(&self.edges).remaining();
        let mut out: Vec<EdgeKey> = Vec::new();
        for e in it: self.edges.iter()
            invariant
                it.seq() == keys,
                out@ == it.seq().take(it.index() as int).map_values(|x: &EdgeKey| *x),
        {
            out.push(*e);
        }
        assert(out@ =~= keys.map_values(|x: &EdgeKey| *x));
        assert(keys.unref() =~= keys.map_values(|x: &EdgeKey| *x));
        proof {
            lemma_increasing_edge_keys(keys);
        }
        out
    }

    /// Does this sheaf contain vertex `v`?
    pub fn contains_vertex(&self, v: VertexId) -> (r: bool)
        ensures
            r == self.vertex_set().contains(v),
    {
        self.vertices.contains(&v)
    }

    /// Does this sheaf contain edge `e` (in either orientation)?
    pub fn contains_edge(&self, e: EdgeKey) -> (r: bool)
        ensures
            r == self.edge_set().contains(edge_key_spec(e.0, e.1)),
    {
        let canonical = edge_key(e.0, e.1);
        self.edges.contains(&canonical)
    }

    /// The number of vertices.
    pub fn vertex_count(&self) -> (r: usize)
        ensures
            r == self.vertex_set().len(),
    {
        self.vertices.len()
    }
}

/// Construct a shard-sheaf from a list of edges: the vertices are the
/// endpoints, the edges their canonical keys.
pub fn sheaf_of_shard_graph_from_edges(edges: &[(VertexId, VertexId)]) -> (r: SheafOfShardGraph)
    ensures
        r.vertex_set() == endpoints(edges@),
        r.edge_set() == edge_keys(edges@),
        canonical_edges(&r),
{
    let mut vertices: BTreeSet<VertexId> = BTreeSet::new();
    let mut edge_set: BTreeSet<EdgeKey> = BTreeSet::new();
    let mut i: usize = 0;
    while i < edges.len()
        invariant
            0 <= i <= edges@.len(),
            vertices@ == endpoints(edges@.take(i as int)),
            edge_set@ == edge_keys(edges@.take(i as int)),
        decreases edges@.len() - i,
    {
        let (a, b) = edges[i];
        vertices.insert(a);
        vertices.insert(b);
        let key = edge_key(a, b);
        edge_set.insert(key);
        proof {
            let pre = edges@.take(i as int);
            let post = edges@.take(i + 1);
            assert(post[i as int] == (a, b));
            assert forall|v: VertexId| endpoints(post).contains(v) <==> endpoints(pre).insert(
                a,
            ).insert(b).contains(v) by {
                if endpoints(pre).contains(v) {
                    let k = choose|k: int| 0 <= k < pre.len() && (pre[k].0 == v || pre[k].1 == v);
                    assert(post[k] == pre[k]);
                }
                if endpoints(post).contains(v) {
                    let k = choose|k: int| 0 <= k < post.len() && (post[k].0 == v || post[k].1 == v);
                    if k < i {
                        assert(pre[k] == post[k]);
                    }
                }
            }
            assert(endpoints(post) =~= endpoints(pre).insert(a).insert(b));
            assert forall|e: EdgeKey| edge_keys(post).contains(e) <==> edge_keys(pre).insert(
                key,
            ).contains(e) by {
                if edge_keys(pre).contains(e) {
                    let k = choose|k: int| 0 <= k < pre.len() && e == edge_key_spec(pre[k].0, pre[k].1);
                    assert(post[k] == pre[k]);
                }
                if edge_keys(post).contains(e) {
                    let k = choose|k: int| 0 <= k < post.len() && e == edge_key_spec(post[k].0, post[k].1);
                    if k < i {
                        assert(pre[k] == post[k]);
                    }
                }
            }
            assert(edge_keys(post) =~= edge_keys(pre).insert(key));
        }
        i = i + 1;
    }
    assert(edges@.take(edges@.len() as int) =~= edges@);
    SheafOfShardGraph { vertices, edges: edge_set }
}

/// Construct the complete graph K_n of order `n`: vertices `0..n`, an
/// edge between every two of them.
pub fn sheaf_of_complete_graph_of_order(n: usize) -> (r: SheafOfShardGraph)
    ensures
        r.edge_set() == complete_edges(n as nat),
        r.vertex_set() == complete_vertices(n as nat),
        canonical_edges(&r),
{
    let mut edges: Vec<(VertexId, VertexId)> = Vec::new();
    let mut i: usize = 0;
    while i < n
        invariant
            0 <= i <= n,
            forall|k: int|
                0 <= k < edges@.len() ==> (#[trigger] edges@[k]).0 < edges@[k].1 && edges@[k].1
                    < n && edges@[k].0 < i,
            forall|x: VertexId, y: VertexId|
                x < y && y < n && x < i ==> #[trigger] lists_pair(edges@, x, y),
        decreases n - i,
    {
        let mut j: usize = i + 1;
        while j < n
            invariant
                0 <= i < n,
                i + 1 <= j <= n,
                forall|k: int|
                    0 <= k < edges@.len() ==> (#[trigger] edges@[k]).0 < edges@[k].1
                        && edges@[k].1 < n && edges@[k].0 <= i,
                forall|x: VertexId, y: VertexId|
                    x < y && y < n && (x < i || (x == i && y < j)) ==> #[trigger] lists_pair(
                        edges@,
                        x,
                        y,
                    ),
            decreases n - j,
        {
            let ghost old_edges = edges@;
            edges.push((i as VertexId, j as VertexId));
            assert forall|x: VertexId, y: VertexId|
                x < y && y < n && (x < i || (x == i && y < j + 1)) implies #[trigger] lists_pair(
                    edges@,
                    x,
                    y,
                ) by {
                if x == i && y == j {
                    assert(edges@[old_edges.len() as int] == (x, y));
                } else {
                    assert(lists_pair(old_edges, x, y));
                    let k = choose|k: int| 0 <= k < old_edges.len() && old_edges[k] == (x, y);
                    assert(edges@[k] == (x, y));
                }
            }
            j = j + 1;
        }
        i = i + 1;
    }
    let r = sheaf_of_shard_graph_from_edges(edges.as_slice());
    proof {
        let s = edges@;
        assert forall|e: EdgeKey| edge_keys(s).contains(e) <==> complete_edges(n as nat).contains(e) by {
            if complete_edges(n as nat).contains(e) {
                assert(lists_pair(s, e.0, e.1));
                let k = choose|k: int| 0 <= k < s.len() && s[k] == (e.0, e.1);
                assert(e == edge_key_spec(s[k].0, s[k].1));
            }
        }
        assert(edge_keys(s) =~= complete_edges(n as nat));
        assert forall|v: VertexId| endpoints(s).contains(v) implies complete_vertices(n as nat).contains(v) by {
            let k = choose|k: int| 0 <= k < s.len() && (s[k].0 == v || s[k].1 == v);
            assert(s[k].0 < s[k].1 < n);
        }
    }
    let ghost ends = endpoints(edges@);
    let mut r = r;
    let mut v: usize = 0;
    while v < n
        invariant
            0 <= v <= n,
            r.edge_set() == complete_edges(n as nat),
            r.vertex_set() == ends.union(Set::new(|x: VertexId| x < v)),
            forall|x: VertexId| ends.contains(x) ==> x < n,
        decreases n - v,
    {
        r.vertices.insert(v as VertexId);
        assert(r.vertex_set() =~= ends.union(Set::new(|x: VertexId| x < v + 1)));
        v = v + 1;
    }
    assert(r.vertex_set() =~= complete_vertices(n as nat));
    r
}

/// Every vertex of either graph is below `u64::MAX`, so the emergent third
/// has an identifier.
pub open spec fn has_room_for_third(va: Set<VertexId>, vb: Set<VertexId>) -> bool {
    forall|v: VertexId| (va.contains(v) || vb.contains(v)) ==> v < u64::MAX
}

/// The vertices of the composition of `a` and `b` with emergent third `e`.
pub open spec fn composed_vertices(va: Set<VertexId>, vb: Set<VertexId>, e: VertexId) -> Set<VertexId> {
    va.union(vb).insert(e)
}

/// The edges of the composition: both edge sets, the complete bipartite
/// bridging between the two vertex sets, and the spokes from the
/// emergent third to every vertex of either graph.
pub open spec fn composed_edges(
    va: Set<VertexId>,
    ea: Set<EdgeKey>,
    vb: Set<VertexId>,
    eb: Set<EdgeKey>,
    e: VertexId,
) -> Set<EdgeKey> {
    ea.union(eb).union(bridges(va, vb)).union(spokes(e, va.union(vb)))
}

/// The largest vertex of a list, or 0 for an empty list, folded from `m`.
fn fold_max(vs: &Vec<VertexId>, m: VertexId) -> (r: VertexId)
    ensures
        r >= m,
        forall|k: int| 0 <= k < vs@.len() ==> vs@[k] <= r,
        r == m || vs@.contains(r),
{
    let mut best = m;
    let mut i: usize = 0;
    while i < vs.len()
        invariant
            0 <= i <= vs@.len(),
            best >= m,
            forall|k: int| 0 <= k < i ==> vs@[k] <= best,
            best == m || vs@.contains(best),
        decreases vs@.len() - i,
    {
        if vs[i] > best {
            best = vs[i];
        }
        i = i + 1;
    }
    best
}

/// The identifier of the emergent third: one past the largest vertex of
/// `a` and `b` (the largest of none being 0).
pub fn compute_emergent_third_id(a: &SheafOfShardGraph, b: &SheafOfShardGraph) -> (e: VertexId)
    requires
        has_room_for_third(a.vertex_set(), b.vertex_set()),
    ensures
        is_emergent_id(a.vertex_set(), b.vertex_set(), e),
{
    let va = a.vertices();
    let vb = b.vertices();
    let m1 = fold_max(&va, 0);
    let m2 = fold_max(&vb, m1);
    proof {
        let sa = a.vertex_set();
        let sb = b.vertex_set();
        assert(va@.to_set() == sa);
        assert(vb@.to_set() == sb);
        assert forall|v: VertexId| (sa.contains(v) || sb.contains(v)) implies v <= m2 by {
            if sa.contains(v) {
                assert(va@.to_set().contains(v));
                let k = choose|k: int| 0 <= k < va@.len() && va@[k] == v;
            } else {
                assert(vb@.to_set().contains(v));
                let k = choose|k: int| 0 <= k < vb@.len() && vb@[k] == v;
            }
        }
        if m2 != 0 {
            if m2 == m1 {
                assert(va@.contains(m2));
                assert(va@.to_set().contains(m2));
            } else {
                assert(vb@.contains(m2));
                assert(vb@.to_set().contains(m2));
            }
        } else if !(sa.is_empty() && sb.is_empty()) {
            if !sa.is_empty() {
                let w = sa.choose();
                assert(sa.contains(w));
                assert(w <= m2);
            } else {
                let w = sb.choose();
                assert(sb.contains(w));
                assert(w <= m2);
            }
        }
    }
    m2 + 1
}

/// Construct the K_3-composed candidate: the union of both graphs, one
/// emergent-third vertex, complete bipartite bridging between the two
/// vertex sets (the ring), and spokes from the emergent third to every
/// vertex. Returns the composed graph and the emergent third.
pub fn compose_candidate(a: &SheafOfShardGraph, b: &SheafOfShardGraph) -> (r: (
    SheafOfShardGraph,
    VertexId,
))
    requires
        has_room_for_third(a.vertex_set(), b.vertex_set()),
    ensures
        canonical_edges(a) && canonical_edges(b) ==> canonical_edges(&r.0),
        is_emergent_id(a.vertex_set(), b.vertex_set(), r.1),
        r.0.vertex_set() == composed_vertices(a.vertex_set(), b.vertex_set(), r.1),
        r.0.edge_set() == composed_edges(
            a.vertex_set(),
            a.edge_set(),
            b.vertex_set(),
            b.edge_set(),
            r.1,
        ),
{
    let emergent_third = compute_emergent_third_id(a, b);
    let va = a.vertices();
    let vb = b.vertices();
    let ebv = b.edges();
    let ghost sa = a.vertex_set();
    let ghost sb = b.vertex_set();

    let mut vertices: BTreeSet<VertexId> = a.vertices.clone();
    let mut i: usize = 0;
    while i < vb.len()
        invariant
            0 <= i <= vb@.len(),
            vertices@ == sa.union(vb@.take(i as int).to_set()),
        decreases vb@.len() - i,
    {
        vertices.insert(vb[i]);
        proof { lemma_take_to_set_step(vb@, i as int); }
        i = i + 1;
    }
    assert(vb@.take(vb@.len() as int) =~= vb@);
    vertices.insert(emergent_third);
    assert(vertices@ =~= composed_vertices(sa, sb, emergent_third));

    let mut edges: BTreeSet<EdgeKey> = a.edges.clone();
    let mut i: usize = 0;
    while i < ebv.len()
        invariant
            0 <= i <= ebv@.len(),
            edges@ == a.edge_set().union(ebv@.take(i as int).to_set()),
        decreases ebv@.len() - i,
    {
        edges.insert(ebv[i]);
        proof { lemma_take_to_set_step(ebv@, i as int); }
        i = i + 1;
    }
    assert(ebv@.take(ebv@.len() as int) =~= ebv@);
    let ghost base = a.edge_set().union(b.edge_set());
    assert(edges@ =~= base);

    let mut p: usize = 0;
    while p < va.len()
        invariant
            0 <= p <= va@.len(),
            vb@.to_set() == sb,
            edges@ == base.union(bridges(va@.take(p as int).to_set(), sb)),
        decreases va@.len() - p,
    {
        let u = va[p];
        let ghost before = edges@;
        let mut q: usize = 0;
        while q < vb.len()
            invariant
                0 <= q <= vb@.len(),
                0 <= p < va@.len(),
                u == va@[p as int],
                edges@ == before.union(spokes(u, vb@.take(q as int).to_set())),
            decreases vb@.len() - q,
        {
            let key = edge_key(u, vb[q]);
            edges.insert(key);
            assert(spokes(u, vb@.take(q + 1).to_set()) =~= spokes(u, vb@.take(q as int).to_set()).insert(key)) by {
                lemma_take_to_set_step(vb@, q as int);
            }
            q = q + 1;
        }
        assert(vb@.take(vb@.len() as int) =~= vb@);
        assert(bridges(va@.take(p + 1).to_set(), sb) == bridges(va@.take(p as int).to_set(), sb).union(spokes(u, sb))) by {
            lemma_take_to_set_step(va@, p as int);
            lemma_bridges_step(va@.take(p as int).to_set(), u, sb);
        }
        p = p + 1;
    }
    assert(va@.take(va@.len() as int) =~= va@);

    let ghost with_bridges = edges@;
    let mut t: usize = 0;
    while t < va.len()
        invariant
            0 <= t <= va@.len(),
            edges@ == with_bridges.union(spokes(emergent_third, va@.take(t as int).to_set())),
        decreases va@.len() - t,
    {
        let key = edge_key(emergent_third, va[t]);
        edges.insert(key);
        assert(spokes(emergent_third, va@.take(t + 1).to_set()) =~= spokes(emergent_third, va@.take(t as int).to_set()).insert(key)) by {
            lemma_take_to_set_step(va@, t as int);
        }
        t = t + 1;
    }
    let ghost with_a_spokes = edges@;
    let mut t: usize = 0;
    while t < vb.len()
        invariant
            0 <= t <= vb@.len(),
            edges@ == with_a_spokes.union(spokes(emergent_third, vb@.take(t as int).to_set())),
        decreases vb@.len() - t,
    {
        let key = edge_key(emergent_third, vb[t]);
        edges.insert(key);
        assert(spokes(emergent_third, vb@.take(t + 1).to_set()) =~= spokes(emergent_third, vb@.take(t as int).to_set()).insert(key)) by {
            lemma_take_to_set_step(vb@, t as int);
        }
        t = t + 1;
    }
    assert(spokes(emergent_third, sa).union(spokes(emergent_third, sb)) =~= spokes(emergent_third, sa.union(sb)));
    assert(edges@ =~= composed_edges(sa, a.edge_set(), sb, b.edge_set(), emergent_third));
    (SheafOfShardGraph { vertices, edges }, emergent_third)
}

proof fn lemma_bridges_step(t: Set<VertexId>, x: VertexId, vb: Set<VertexId>)
    ensures
        bridges(t.insert(x), vb) == bridges(t, vb).union(spokes(x, vb)),
{
    assert forall|e: EdgeKey| #[trigger] bridges(t.insert(x), vb).contains(e) implies bridges(t, vb).union(spokes(x, vb)).contains(e) by {
        let (u, v) = choose|u: VertexId, v: VertexId| t.insert(x).contains(u) && vb.contains(v) && e == edge_key_spec(u, v);
        if u == x {
            assert(spokes(x, vb).contains(e));
        } else {
            assert(bridges(t, vb).contains(e));
        }
    }
    assert forall|e: EdgeKey| #[trigger] bridges(t, vb).union(spokes(x, vb)).contains(e) implies bridges(t.insert(x), vb).contains(e) by {
        if bridges(t, vb).contains(e) {
            let (u, v) = choose|u: VertexId, v: VertexId| t.contains(u) && vb.contains(v) && e == edge_key_spec(u, v);
            assert(t.insert(x).contains(u));
        } else {
            let v = choose|v: VertexId| vb.contains(v) && e == edge_key_spec(x, v);
            assert(t.insert(x).contains(x));
        }
    }
    assert(bridges(t.insert(x), vb) =~= bridges(t, vb).union(spokes(x, vb)));
}

proof fn lemma_take_to_set_step<A>(s: Seq<A>, i: int)
    requires
        0 <= i < s.len(),
    ensures
        s.take(i + 1).to_set() == s.take(i).to_set().insert(s[i]),
{
    assert(s.take(i + 1) =~= s.take(i).push(s[i]));
    assert forall|x: A| s.take(i + 1).to_set().contains(x) <==> s.take(i).to_set().insert(
        s[i],
    ).contains(x) by {
        if s.take(i + 1).contains(x) {
            let k = choose|k: int| 0 <= k < i + 1 && #[trigger] s.take(i + 1)[k] == x;
            if k < i {
                assert(s.take(i)[k] == x);
            }
        }
        if s.take(i).contains(x) {
            let k = choose|k: int| 0 <= k < i && #[trigger] s.take(i)[k] == x;
            assert(s.take(i + 1)[k] == x);
        }
        if x == s[i] {
            assert(s.take(i + 1)[i] == x);
        }
    }
    assert(s.take(i + 1).to_set() =~= s.take(i).to_set().insert(s[i]));
}

// ---------------------------------------------------------------------------
// The property checks of a composition
// ---------------------------------------------------------------------------

/// Whether every vertex of `x` is a vertex of `c`, and every edge of `x`
/// (looked up in either orientation) is an edge of `c`.
pub open spec fn preserved_in(x: &SheafOfShardGraph, c: &SheafOfShardGraph) -> bool {
    &&& forall|v: VertexId| x.vertex_set().contains(v) ==> c.vertex_set().contains(v)
    &&& forall|e: EdgeKey| #[trigger] x.edge_set().contains(e) ==> c.edge_set().contains(
        edge_key_spec(e.0, e.1),
    )
}

/// The sovereignty verdict from whether each input survived.
pub open spec fn sovereignty_verdict(a_preserved: bool, b_preserved: bool) -> Verdict {
    if a_preserved && b_preserved {
        Verdict::Pass
    } else if !a_preserved && b_preserved {
        Verdict::Fail("sovereignty: sheaf_a vertices or edges not preserved in composed sheaf")
    } else if a_preserved && !b_preserved {
        Verdict::Fail("sovereignty: sheaf_b vertices or edges not preserved in composed sheaf")
    } else {
        Verdict::Fail("sovereignty: neither sheaf_a nor sheaf_b vertices/edges preserved")
    }
}

/// Whether two graphs have the same content: the same vertices and the
/// same edges.
pub open spec fn same_content(a: &SheafOfShardGraph, b: &SheafOfShardGraph) -> bool {
    a.vertex_set() == b.vertex_set() && a.edge_set() == b.edge_set()
}

impl SheafOfShardGraph {
    fn contains_edge_key(&self, e: EdgeKey) -> (r: bool)
        ensures
            r == self.edge_set().contains(e),
    {
        self.edges.contains(&e)
    }
}

/// Whether `x` is preserved in `c`.
fn is_preserved_in(x: &SheafOfShardGraph, c: &SheafOfShardGraph) -> (r: bool)
    ensures
        r == preserved_in(x, c),
{
    let vs = x.vertices();
    let mut i: usize = 0;
    while i < vs.len()
        invariant
            0 <= i <= vs@.len(),
            vs@.to_set() == x.vertex_set(),
            forall|k: int| 0 <= k < i ==> c.vertex_set().contains(#[trigger] vs@[k]),
        decreases vs@.len() - i,
    {
        if !c.contains_vertex(vs[i]) {
            assert(vs@.to_set().contains(vs@[i as int]));
            return false;
        }
        i = i + 1;
    }
    assert forall|v: VertexId| x.vertex_set().contains(v) implies c.vertex_set().contains(v) by {
        assert(vs@.to_set().contains(v));
        let k = choose|k: int| 0 <= k < vs@.len() && vs@[k] == v;
    }
    let es = x.edges();
    let mut j: usize = 0;
    while j < es.len()
        invariant
            0 <= j <= es@.len(),
            es@.to_set() == x.edge_set(),
            forall|k: int|
                0 <= k < j ==> c.edge_set().contains(
                    edge_key_spec((#[trigger] es@[k]).0, es@[k].1),
                ),
        decreases es@.len() - j,
    {
        if !c.contains_edge(es[j]) {
            assert(es@.to_set().contains(es@[j as int]));
            return false;
        }
        j = j + 1;
    }
    assert forall|e: EdgeKey| #[trigger] x.edge_set().contains(e) implies c.edge_set().contains(
        edge_key_spec(e.0, e.1),
    ) by {
        assert(es@.to_set().contains(e));
        let k = choose|k: int| 0 <= k < es@.len() && es@[k] == e;
    }
    true
}

/// Whether every vertex and every edge of `x` is one of `y`.
fn is_sub_content(x: &SheafOfShardGraph, y: &SheafOfShardGraph) -> (r: bool)
    ensures
        r == (x.vertex_set().subset_of(y.vertex_set()) && x.edge_set().subset_of(y.edge_set())),
{
    let vs = x.vertices();
    let mut i: usize = 0;
    while i < vs.len()
        invariant
            0 <= i <= vs@.len(),
            vs@.to_set() == x.vertex_set(),
            forall|k: int| 0 <= k < i ==> y.vertex_set().contains(#[trigger] vs@[k]),
        decreases vs@.len() - i,
    {
        if !y.contains_vertex(vs[i]) {
            assert(vs@.to_set().contains(vs@[i as int]));
            return false;
        }
        i = i + 1;
    }
    assert forall|v: VertexId| x.vertex_set().contains(v) implies y.vertex_set().contains(v) by {
        assert(vs@.to_set().contains(v));
        let k = choose|k: int| 0 <= k < vs@.len() && vs@[k] == v;
    }
    let es = x.edges();
    let mut j: usize = 0;
    while j < es.len()
        invariant
            0 <= j <= es@.len(),
            es@.to_set() == x.edge_set(),
            forall|k: int| 0 <= k < j ==> y.edge_set().contains(#[trigger] es@[k]),
        decreases es@.len() - j,
    {
        if !y.contains_edge_key(es[j]) {
            assert(es@.to_set().contains(es@[j as int]));
            return false;
        }
        j = j + 1;
    }
    assert forall|e: EdgeKey| x.edge_set().contains(e) implies y.edge_set().contains(e) by {
        assert(es@.to_set().contains(e));
        let k = choose|k: int| 0 <= k < es@.len() && es@[k] == e;
    }
    true
}

/// Property 1, sovereignty preservation: the composition keeps every
/// vertex and every edge of both inputs; the failure names which input
/// was not preserved.
pub fn verify_sovereignty(
    sheaf_a: &SheafOfShardGraph,
    sheaf_b: &SheafOfShardGraph,
    composed: &SheafOfShardGraph,
) -> (r: Verdict)
    ensures
        r == sovereignty_verdict(preserved_in(sheaf_a, composed), preserved_in(sheaf_b, composed)),
{
    let a_preserved = is_preserved_in(sheaf_a, composed);
    let b_preserved = is_preserved_in(sheaf_b, composed);
    if a_preserved && b_preserved {
        Verdict::Pass
    } else if !a_preserved && b_preserved {
        Verdict::Fail("sovereignty: sheaf_a vertices or edges not preserved in composed sheaf")
    } else if a_preserved && !b_preserved {
        Verdict::Fail("sovereignty: sheaf_b vertices or edges not preserved in composed sheaf")
    } else {
        Verdict::Fail("sovereignty: neither sheaf_a nor sheaf_b vertices/edges preserved")
    }
}

/// Property 2, emergent third admission: the emergent third is a vertex of
/// neither input.
pub fn verify_emergent_third(
    sheaf_a: &SheafOfShardGraph,
    sheaf_b: &SheafOfShardGraph,
    emergent_third: VertexId,
) -> (r: Verdict)
    ensures
        r == (if sheaf_a.vertex_set().contains(emergent_third) || sheaf_b.vertex_set().contains(
            emergent_third,
        ) {
            Verdict::Fail("emergent_third: proposed vertex already present in sheaf_a or sheaf_b")
        } else {
            Verdict::Pass
        }),
{
    if sheaf_a.contains_vertex(emergent_third) || sheaf_b.contains_vertex(emergent_third) {
        Verdict::Fail("emergent_third: proposed vertex already present in sheaf_a or sheaf_b")
    } else {
        Verdict::Pass
    }
}

/// Two inputs fuse exactly when they are the same graph: the same
/// vertices and the same edges. An edge in one input that the other lacks
/// (or a vertex likewise) keeps them apart.
pub proof fn lemma_fusion_only_for_same_graph(a: &SheafOfShardGraph, b: &SheafOfShardGraph)
    ensures
        same_content(a, b) == (a.vertex_set() == b.vertex_set() && a.edge_set() == b.edge_set()),
        (exists|e: EdgeKey| a.edge_set().contains(e) != b.edge_set().contains(e)) ==> !same_content(
            a,
            b,
        ),
        (exists|v: VertexId| a.vertex_set().contains(v) != b.vertex_set().contains(v))
            ==> !same_content(a, b),
        same_content(a, a),
        same_content(a, b) == same_content(b, a),
{
}

/// Property 4, fusion refusal: two inputs with the same content would fuse
/// rather than compose.
pub fn verify_fusion_refusal(sheaf_a: &SheafOfShardGraph, sheaf_b: &SheafOfShardGraph) -> (r:
    Verdict)
    ensures
        r == (if same_content(sheaf_a, sheaf_b) {
            Verdict::Fail(
                "fusion_refusal: sheaf_a and sheaf_b have identical content-address; composition would fuse",
            )
        } else {
            Verdict::Pass
        }),
        (r == Verdict::Pass) == (sheaf_a.vertex_set() != sheaf_b.vertex_set() || sheaf_a.edge_set()
            != sheaf_b.edge_set()),
        (exists|e: EdgeKey| sheaf_a.edge_set().contains(e) != sheaf_b.edge_set().contains(e))
            ==> r == Verdict::Pass,
        (exists|v: VertexId| sheaf_a.vertex_set().contains(v) != sheaf_b.vertex_set().contains(v))
            ==> r == Verdict::Pass,
{
    proof {
        lemma_fusion_only_for_same_graph(sheaf_a, sheaf_b);
    }
    let same = is_sub_content(sheaf_a, sheaf_b) && is_sub_content(sheaf_b, sheaf_a);
    proof {
        if same {
            assert(sheaf_a.vertex_set() =~= sheaf_b.vertex_set());
            assert(sheaf_a.edge_set() =~= sheaf_b.edge_set());
        }
    }
    if same {
        Verdict::Fail(
            "fusion_refusal: sheaf_a and sheaf_b have identical content-address; composition would fuse",
        )
    } else {
        Verdict::Pass
    }
}

/// Every edge of `g` is stored lower vertex first.
pub open spec fn canonical_edges(g: &SheafOfShardGraph) -> bool {
    forall|e: EdgeKey| #[trigger] g.edge_set().contains(e) ==> e.0 <= e.1
}

/// The composition of two graphs with canonical edges passes the
/// sovereignty and emergent-third checks: the candidate keeps both inputs
/// whole and its emergent third is a vertex of neither. Composing a graph
/// with itself is refused as fusion.
pub proof fn lemma_candidate_passes_property_checks(
    a: &SheafOfShardGraph,
    b: &SheafOfShardGraph,
    composed: &SheafOfShardGraph,
    e: VertexId,
)
    requires
        canonical_edges(a),
        canonical_edges(b),
        is_emergent_id(a.vertex_set(), b.vertex_set(), e),
        composed.vertex_set() == composed_vertices(a.vertex_set(), b.vertex_set(), e),
        composed.edge_set() == composed_edges(
            a.vertex_set(),
            a.edge_set(),
            b.vertex_set(),
            b.edge_set(),
            e,
        ),
    ensures
        sovereignty_verdict(preserved_in(a, composed), preserved_in(b, composed)) == Verdict::Pass,
        !a.vertex_set().contains(e),
        !b.vertex_set().contains(e),
        composed.vertex_set().contains(e),
        same_content(a, a),
{
    assert forall|x: EdgeKey| #[trigger] a.edge_set().contains(x) implies composed.edge_set().contains(
        edge_key_spec(x.0, x.1),
    ) by {
        assert(edge_key_spec(x.0, x.1) == x);
    }
    assert forall|x: EdgeKey| #[trigger] b.edge_set().contains(x) implies composed.edge_set().contains(
        edge_key_spec(x.0, x.1),
    ) by {
        assert(edge_key_spec(x.0, x.1) == x);
    }
}

/// Sovereignty and emergence of the composition: both inputs survive
/// whole (every vertex and every edge), the emergent third is a vertex of
/// the composition that neither input has, every vertex of `a` is bridged
/// to every vertex of `b`, and the emergent third is joined to every
/// vertex of either input.
pub proof fn lemma_compose_sovereignty_and_emergence(
    va: Set<VertexId>,
    ea: Set<EdgeKey>,
    vb: Set<VertexId>,
    eb: Set<EdgeKey>,
    e: VertexId,
)
    requires
        is_emergent_id(va, vb, e),
    ensures
        va.subset_of(composed_vertices(va, vb, e)),
        vb.subset_of(composed_vertices(va, vb, e)),
        ea.subset_of(composed_edges(va, ea, vb, eb, e)),
        eb.subset_of(composed_edges(va, ea, vb, eb, e)),
        composed_vertices(va, vb, e).contains(e),
        !va.contains(e),
        !vb.contains(e),
        forall|u: VertexId, v: VertexId|
            va.contains(u) && vb.contains(v) ==> composed_edges(va, ea, vb, eb, e).contains(
                #[trigger] edge_key_spec(u, v),
            ),
        forall|v: VertexId|
            (va.contains(v) || vb.contains(v)) ==> composed_edges(va, ea, vb, eb, e).contains(
                #[trigger] edge_key_spec(e, v),
            ),
{
    assert forall|u: VertexId, v: VertexId|
        va.contains(u) && vb.contains(v) implies composed_edges(va, ea, vb, eb, e).contains(
        #[trigger] edge_key_spec(u, v),
    ) by {
        assert(bridges(va, vb).contains(edge_key_spec(u, v)));
    }
    assert forall|v: VertexId|
        (va.contains(v) || vb.contains(v)) implies composed_edges(va, ea, vb, eb, e).contains(
        #[trigger] edge_key_spec(e, v),
    ) by {
        assert(spokes(e, va.union(vb)).contains(edge_key_spec(e, v)));
    }
}

/// Edges are undirected: the key of `(a, b)` is the key of `(b, a)`, so
/// `contains_edge` answers the same for both orientations.
pub proof fn lemma_edge_key_symmetric(a: VertexId, b: VertexId)
    ensures
        edge_key_spec(a, b) == edge_key_spec(b, a),
        edge_key_spec(a, b).0 <= edge_key_spec(a, b).1,
{
}

/// Construction is content-determined: two edge lists that list the same
/// pairs (in any order, with any repetition) give the same graph.
pub proof fn lemma_from_edges_order_independent(s: Seq<(VertexId, VertexId)>, t: Seq<(VertexId, VertexId)>)
    requires
        s.to_set() == t.to_set(),
    ensures
        endpoints(s) == endpoints(t),
        edge_keys(s) == edge_keys(t),
{
    assert forall|v: VertexId| endpoints(s).contains(v) implies endpoints(t).contains(v) by {
        let k = choose|k: int| 0 <= k < s.len() && (s[k].0 == v || s[k].1 == v);
        assert(s.to_set().contains(s[k]));
        assert(t.contains(s[k]));
    }
    assert forall|v: VertexId| endpoints(t).contains(v) implies endpoints(s).contains(v) by {
        let k = choose|k: int| 0 <= k < t.len() && (t[k].0 == v || t[k].1 == v);
        assert(t.to_set().contains(t[k]));
        assert(s.contains(t[k]));
    }
    assert(endpoints(s) =~= endpoints(t));
    assert forall|x: EdgeKey| edge_keys(s).contains(x) implies edge_keys(t).contains(x) by {
        let k = choose|k: int| 0 <= k < s.len() && x == edge_key_spec(s[k].0, s[k].1);
        assert(s.to_set().contains(s[k]));
        assert(t.contains(s[k]));
    }
    assert forall|x: EdgeKey| edge_keys(t).contains(x) implies edge_keys(s).contains(x) by {
        let k = choose|k: int| 0 <= k < t.len() && x == edge_key_spec(t[k].0, t[k].1);
        assert(t.to_set().contains(t[k]));
        assert(s.contains(t[k]));
    }
    assert(edge_keys(s) =~= edge_keys(t));
}

} // verus!
