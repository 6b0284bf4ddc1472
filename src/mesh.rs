//! Mesh data: index buffers of any element width widened to 32 bits, and the
//! deduplicated wireframe edges of an indexed triangle list.
use std::collections::HashSet;

use vstd::prelude::*;

use crate::pipeline::index_pairs;

verus! {

/// The three indices of a triangle in ascending order.
pub open spec fn sort3(a: u32, b: u32, c: u32) -> (u32, u32, u32) {
    if a <= b && b <= c {
        (a, b, c)
    } else if a <= c && c <= b {
        (a, c, b)
    } else if b <= a && a <= c {
        (b, a, c)
    } else if b <= c && c <= a {
        (b, c, a)
    } else if c <= a && a <= b {
        (c, a, b)
    } else {
        (c, b, a)
    }
}

/// The three undirected edges of a triangle, each as `(min, max)`.
pub open spec fn triangle_edges(a: u32, b: u32, c: u32) -> Set<(u32, u32)> {
    let (lo, mid, hi) = sort3(a, b, c);
    set![(lo, mid), (mid, hi), (lo, hi)]
}

/// The edges of the first `t` triangles of an index buffer.
pub open spec fn edges_of_first(tris: Seq<u32>, t: int) -> Set<(u32, u32)>
    decreases t,
{
    if t <= 0 {
        Set::empty()
    } else {
        edges_of_first(tris, t - 1).union(
            triangle_edges(tris[3 * (t - 1)], tris[3 * (t - 1) + 1], tris[3 * (t - 1) + 2]),
        )
    }
}

/// The undirected edges of all complete triangles of an index buffer; a
/// trailing incomplete triangle is left out.
pub open spec fn mesh_edges(tris: Seq<u32>) -> Set<(u32, u32)> {
    edges_of_first(tris, (tris.len() / 3) as int)
}

/// An edge packed into one integer, one index in each half.
pub open spec fn edge_key(e: (u32, u32)) -> u64 {
    (e.0 as int * 0x1_0000_0000 + e.1 as int) as u64
}

/// `seen` holds the key of an edge exactly when `edges` holds that edge.
pub open spec fn keys_match(edges: Seq<(u32, u32)>, seen: Set<u64>) -> bool {
    forall|e: (u32, u32)| #[trigger] seen.contains(edge_key(e)) <==> edges.contains(e)
}

/// Adds `e` to a duplicate-free edge list unless it is there already, as
/// the set of keys of listed edges tells.
fn insert_edge(edges: &mut Vec<(u32, u32)>, seen: &mut HashSet<u64>, e: (u32, u32))
    requires
        old(edges)@.no_duplicates(),
        keys_match(old(edges)@, old(seen)@),
    ensures
        final(edges)@.no_duplicates(),
        keys_match(final(edges)@, final(seen)@),
        final(edges)@.to_set() == old(edges)@.to_set().insert(e),
{
    broadcast use vstd::std_specs::hash::group_hash_axioms;

    let key: u64 = e.0 as u64 * 0x1_0000_0000 + e.1 as u64;
    assert(key == edge_key(e));
    if seen.contains(&key) {
        assert(edges@.contains(e));
        assert(edges@.to_set() =~= edges@.to_set().insert(e));
        return;
    }
    let ghost before = edges@;
    edges.push(e);
    seen.insert(key);
    assert forall|x: (u32, u32)| edges@.contains(x) <==> before.contains(x) || x == e by {
        if before.contains(x) {
            let k = choose|k: int| 0 <= k < before.len() && before[k] == x;
            assert(edges@[k] == x);
        }
        if x == e {
            assert(edges@[before.len() as int] == x);
        }
    }
    assert forall|x: (u32, u32)| #[trigger] seen@.contains(edge_key(x)) <==> edges@.contains(x) by {
        assert(edge_key(x) == edge_key(e) ==> x == e);
    }
    assert(edges@.to_set() =~= before.to_set().insert(e));
}

/// The deduplicated undirected edges of an indexed triangle list, flattened:
/// entries `2i` and `2i + 1` are the smaller and the larger index of edge `i`.
/// Each edge shared by several triangles appears once, in the order in which
/// it is first met.
pub fn triangles_to_lines_index(triangles: &Vec<u32>) -> (r: Vec<u32>)
    ensures
        r@.len() % 2 == 0,
        forall|i: int|
            0 <= i < index_pairs(r@).len() ==> #[trigger] index_pairs(r@)[i].0 <= index_pairs(
                r@,
            )[i].1,
        index_pairs(r@).no_duplicates(),
        index_pairs(r@).to_set() == mesh_edges(triangles@),
{
    let mut edges: Vec<(u32, u32)> = Vec::new();
    let mut seen: HashSet<u64> = HashSet::new();
    let len: usize = triangles.len();
    let n: usize = len / 3;
    let mut t: usize = 0;
    while t < n
        invariant
            len == triangles@.len(),
            n == len / 3,
            t <= n,
            edges@.no_duplicates(),
            keys_match(edges@, seen@),
            edges@.to_set() == edges_of_first(triangles@, t as int),
            forall|j: int| 0 <= j < edges@.len() ==> edges@[j].0 <= edges@[j].1,
        decreases n - t,
    {
        let mut a = triangles[3 * t];
        let mut b = triangles[3 * t + 1];
        let mut c = triangles[3 * t + 2];
        let ghost sorted = sort3(a, b, c);
        if a > b {
            let tmp = a;
            a = b;
            b = tmp;
        }
        if a > c {
            let tmp = a;
            a = c;
            c = tmp;
        }
        if b > c {
            let tmp = b;
            b = c;
            c = tmp;
        }
        assert((a, b, c) == sorted);
        insert_edge(&mut edges, &mut seen, (a, b));
        insert_edge(&mut edges, &mut seen, (b, c));
        insert_edge(&mut edges, &mut seen, (a, c));
        proof {
            assert(edges@.to_set() =~= edges_of_first(triangles@, t + 1));
            assert forall|j: int| 0 <= j < edges@.len() implies edges@[j].0 <= edges@[j].1 by {
                assert(edges@.to_set().contains(edges@[j]));
            }
        }
        t = t + 1;
    }
    let mut r: Vec<u32> = Vec::new();
    let mut i: usize = 0;
    while i < edges.len()
        invariant
            i <= edges@.len(),
            r@.len() == 2 * i,
            forall|j: int|
                #![trigger edges@[j]]
                0 <= j < i ==> r@[2 * j] == edges@[j].0 && r@[2 * j + 1] == edges@[j].1,
        decreases edges@.len() - i,
    {
        r.push(edges[i].0);
        r.push(edges[i].1);
        i = i + 1;
    }
    assert(index_pairs(r@) =~= edges@);
    r
}

} // verus!
