//! Dynamic mesh batching: per material, the meshes that have vertices, sorted
//! near to far from the camera, each bound to a vertex buffer of the
//! material's pool, with one indirect draw command per mesh.
use vstd::prelude::*;
use vstd::set_lib::{lemma_int_range, lemma_len_subset, set_int_range};

verus! {

/// A point of the scene in integer world units.
#[derive(Clone, Copy, Debug, PartialEq, Eq, Structural)]
pub struct Point3 {
    pub x: i32,
    pub y: i32,
    pub z: i32,
}

pub open spec fn square(v: int) -> int {
    v * v
}

/// Squared Euclidean distance between two points.
pub open spec fn distance_sq(p: Point3, c: Point3) -> int {
    square(p.x - c.x) + square(p.y - c.y) + square(p.z - c.z)
}

fn axis_sq(a: i32, b: i32) -> (r: u128)
    ensures
        r == square(a - b),
        r < 0x4_0000_0000_0000_0000,
{
    let d: i64 = a as i64 - b as i64;
    let m: i128 = d as i128;
    assert(-0x1_0000_0000 < m < 0x1_0000_0000);
    assert(0 <= m * m < 0x1_0000_0000_0000_0000) by (nonlinear_arith)
        requires -0x1_0000_0000 < m < 0x1_0000_0000;
    (m * m) as u128
}

/// The squared distance from `p` to `c`, exactly.
pub fn distance_squared(p: &Point3, c: &Point3) -> (r: u128)
    ensures
        r == distance_sq(*p, *c),
{
    axis_sq(p.x, c.x) + axis_sq(p.y, c.y) + axis_sq(p.z, c.z)
}


/// What the batcher reads of a mesh: its vertex count, the id of its buffer in
/// its material's pool (unset until the first upload), its dirty flag, the
/// name of its material and the position of its transform.
#[derive(Clone, Debug)]
pub struct DynamicMesh {
    pub vertex_count: u32,
    pub buffer_id: Option<u32>,
    pub changed: bool,
    pub material: String,
    pub position: Point3,
}

/// Mesh `j` takes part in the batch of `material`: it uses that material and
/// has at least one vertex.
pub open spec fn selected(meshes: Seq<DynamicMesh>, material: Seq<char>, j: int) -> bool {
    0 <= j < meshes.len() && meshes[j].material@ == material && meshes[j].vertex_count > 0
}

pub open spec fn dist_of(meshes: Seq<DynamicMesh>, camera: Point3, j: int) -> int {
    distance_sq(meshes[j].position, camera)
}

/// Mesh `a` is drawn before mesh `b`: it is nearer to the camera, or as near
/// and earlier in the scene.
pub open spec fn nearer(meshes: Seq<DynamicMesh>, camera: Point3, a: int, b: int) -> bool {
    dist_of(meshes, camera, a) < dist_of(meshes, camera, b) || (dist_of(meshes, camera, a)
        == dist_of(meshes, camera, b) && a < b)
}

/// `order` lists every selected mesh of `material` once, near to far, ties in
/// scene order.
pub open spec fn is_batch_order(
    meshes: Seq<DynamicMesh>,
    material: Seq<char>,
    camera: Point3,
    order: Seq<usize>,
) -> bool {
    &&& forall|p: int| 0 <= p < order.len() ==> selected(meshes, material, #[trigger] order[p] as int)
    &&& forall|j: int| selected(meshes, material, j) ==> #[trigger] order.contains(j as usize)
    &&& forall|p: int, q: int|
        0 <= p < q < order.len() ==> nearer(meshes, camera, #[trigger] order[p] as int, #[trigger] order[q] as int)
}

/// The indices of the meshes of `material` that have vertices, sorted by
/// squared distance from `camera`, ascending; meshes at equal distance keep
/// their order in `meshes`.
pub fn sort_by_distance(meshes: &Vec<DynamicMesh>, material: &String, camera: &Point3) -> (order: Vec<usize>)
    ensures
        is_batch_order(meshes@, material@, *camera, order@),
{
    let mut out: Vec<usize> = Vec::new();
    let mut j: usize = 0;
    while j < meshes.len()
        invariant
            j <= meshes.len(),
            forall|p: int| 0 <= p < out.len() ==> selected(meshes@, material@, #[trigger] out@[p] as int) && out@[p] < j,
            forall|k: int| 0 <= k < j && selected(meshes@, material@, k) ==> #[trigger] out@.contains(k as usize),
            forall|p: int, q: int|
                0 <= p < q < out.len() ==> nearer(meshes@, *camera, #[trigger] out@[p] as int, #[trigger] out@[q] as int),
        decreases meshes.len() - j,
    {
        let m = &meshes[j];
        if m.vertex_count > 0 && m.material == *material {
            let d = distance_squared(&m.position, camera);
            let mut pos: usize = 0;
            let mut p: usize = 0;
            while p < out.len()
                invariant
                    pos <= p <= out.len(),
                    forall|i: int| 0 <= i < out.len() ==> (#[trigger] out@[i] as int) < meshes.len(),
                    forall|p: int, q: int|
                        0 <= p < q < out.len() ==> nearer(meshes@, *camera, #[trigger] out@[p] as int, #[trigger] out@[q] as int),
                    forall|k: int| 0 <= k < pos ==> dist_of(meshes@, *camera, #[trigger] out@[k] as int) <= d,
                    forall|k: int| pos <= k < p ==> dist_of(meshes@, *camera, #[trigger] out@[k] as int) > d,
                decreases out.len() - p,
            {
                let e = out[p];
                if distance_squared(&meshes[e].position, camera) <= d {
                    pos = p + 1;
                }
                p = p + 1;
            }
            let ghost old_out = out@;
            out.insert(pos, j);
            proof {
                old_out.insert_ensures(pos as int, j);
                assert forall|k: int| 0 <= k < j + 1 && selected(meshes@, material@, k) implies out@.contains(k as usize) by {
                    if k == j {
                        assert(out@[pos as int] == j);
                    } else {
                        assert(old_out.contains(k as usize));
                        let w = choose|w: int| 0 <= w < old_out.len() && old_out[w] == k as usize;
                        if w < pos {
                            assert(out@[w] == k as usize);
                        } else {
                            assert(out@[w + 1] == k as usize);
                        }
                    }
                }
                assert forall|a: int, b: int| 0 <= a < b < out.len() implies nearer(meshes@, *camera, #[trigger] out@[a] as int, #[trigger] out@[b] as int) by {
                    if b < pos {
                        assert(out@[a] == old_out[a] && out@[b] == old_out[b]);
                    } else if b == pos {
                        assert(out@[a] == old_out[a]);
                    } else if a < pos {
                        assert(out@[a] == old_out[a] && out@[b] == old_out[b - 1]);
                    } else if a == pos {
                        assert(out@[b] == old_out[b - 1]);
                    } else {
                        assert(out@[a] == old_out[a - 1] && out@[b] == old_out[b - 1]);
                    }
                }
                assert forall|i: int| 0 <= i < out.len() implies selected(meshes@, material@, #[trigger] out@[i] as int) && out@[i] < j + 1 by {
                    if i < pos {
                        assert(out@[i] == old_out[i]);
                    } else if i > pos {
                        assert(out@[i] == old_out[i - 1]);
                    }
                }
            }
        }
        j = j + 1;
    }
    out
}


/// The indices of the meshes that take part in the batch of `material`.
pub open spec fn selected_indices(meshes: Seq<DynamicMesh>, material: Seq<char>) -> Set<usize> {
    Set::new(|j: usize| selected(meshes, material, j as int))
}

pub open spec fn strictly_nearer_sorted(meshes: Seq<DynamicMesh>, camera: Point3, s: Seq<usize>) -> bool {
    forall|p: int, q: int|
        0 <= p < q < s.len() ==> nearer(meshes, camera, #[trigger] s[p] as int, #[trigger] s[q] as int)
}

proof fn lemma_sorted_same_elements_equal(
    meshes: Seq<DynamicMesh>,
    camera: Point3,
    a: Seq<usize>,
    b: Seq<usize>,
)
    requires
        strictly_nearer_sorted(meshes, camera, a),
        strictly_nearer_sorted(meshes, camera, b),
        forall|x: usize| a.contains(x) <==> b.contains(x),
    ensures
        a == b,
    decreases a.len(),
{
    if a.len() == 0 {
        if b.len() > 0 {
            assert(b.contains(b[0]));
        }
        assert(a =~= b);
    } else if b.len() == 0 {
        assert(a.contains(a[0]));
    } else {
        assert(a.contains(a[0]));
        let q = choose|q: int| 0 <= q < b.len() && b[q] == a[0];
        assert(b.contains(b[0]));
        let p = choose|p: int| 0 <= p < a.len() && a[p] == b[0];
        if q > 0 {
            assert(nearer(meshes, camera, b[0] as int, b[q] as int));
            if p > 0 {
                assert(nearer(meshes, camera, a[0] as int, a[p] as int));
            }
        }
        assert(a[0] == b[0]);
        let ta = a.drop_first();
        let tb = b.drop_first();
        assert forall|x: usize| ta.contains(x) <==> tb.contains(x) by {
            if ta.contains(x) {
                let i = choose|i: int| 0 <= i < ta.len() && ta[i] == x;
                assert(a[i + 1] == x);
                assert(a.contains(x));
                assert(nearer(meshes, camera, a[0] as int, a[i + 1] as int));
                let k = choose|k: int| 0 <= k < b.len() && b[k] == x;
                assert(k != 0);
                assert(tb[k - 1] == x);
            }
            if tb.contains(x) {
                let i = choose|i: int| 0 <= i < tb.len() && tb[i] == x;
                assert(b[i + 1] == x);
                assert(b.contains(x));
                assert(nearer(meshes, camera, b[0] as int, b[i + 1] as int));
                let k = choose|k: int| 0 <= k < a.len() && a[k] == x;
                assert(k != 0);
                assert(ta[k - 1] == x);
            }
        }
        assert forall|p: int, q: int| 0 <= p < q < ta.len() implies nearer(meshes, camera, #[trigger] ta[p] as int, #[trigger] ta[q] as int) by {
            assert(ta[p] == a[p + 1] && ta[q] == a[q + 1]);
        }
        assert forall|p: int, q: int| 0 <= p < q < tb.len() implies nearer(meshes, camera, #[trigger] tb[p] as int, #[trigger] tb[q] as int) by {
            assert(tb[p] == b[p + 1] && tb[q] == b[q + 1]);
        }
        lemma_sorted_same_elements_equal(meshes, camera, ta, tb);
        assert(a =~= b) by {
            assert forall|i: int| 0 <= i < a.len() implies a[i] == b[i] by {
                if i > 0 {
                    assert(a[i] == ta[i - 1] && b[i] == tb[i - 1]);
                }
            }
        }
    }
}

/// Sorting again gives the same order: for one camera position and one set
/// of meshes there is exactly one batch order, so two sorts of unchanged
/// input agree.
pub proof fn lemma_batch_order_unique(
    meshes: Seq<DynamicMesh>,
    material: Seq<char>,
    camera: Point3,
    first: Seq<usize>,
    second: Seq<usize>,
)
    requires
        is_batch_order(meshes, material, camera, first),
        is_batch_order(meshes, material, camera, second),
    ensures
        first == second,
{
    assert forall|x: usize| first.contains(x) <==> second.contains(x) by {
        if first.contains(x) {
            let p = choose|p: int| 0 <= p < first.len() && first[p] == x;
            assert(selected(meshes, material, first[p] as int));
            assert(second.contains(x as int as usize));
        }
        if second.contains(x) {
            let p = choose|p: int| 0 <= p < second.len() && second[p] == x;
            assert(selected(meshes, material, second[p] as int));
            assert(first.contains(x as int as usize));
        }
    }
    lemma_sorted_same_elements_equal(meshes, camera, first, second);
}

/// A batch order holds each selected mesh exactly once: its length is the
/// number of meshes of the material that have vertices.
pub proof fn lemma_batch_size(
    meshes: Seq<DynamicMesh>,
    material: Seq<char>,
    camera: Point3,
    order: Seq<usize>,
)
    requires
        is_batch_order(meshes, material, camera, order),
    ensures
        order.no_duplicates(),
        order.len() == selected_indices(meshes, material).len(),
{
    assert forall|p: int, q: int| 0 <= p < order.len() && 0 <= q < order.len() && p != q implies order[p] != order[q] by {
        if p < q {
            assert(nearer(meshes, camera, order[p] as int, order[q] as int));
        } else {
            assert(nearer(meshes, camera, order[q] as int, order[p] as int));
        }
    }
    assert(order.to_set() =~= selected_indices(meshes, material)) by {
        assert forall|x: usize| order.to_set().contains(x) implies selected(meshes, material, x as int) by {
            assert(order.contains(x));
            let p = choose|p: int| 0 <= p < order.len() && order[p] == x;
            assert(selected(meshes, material, order[p] as int));
        }
        assert forall|x: usize| selected(meshes, material, x as int) implies order.to_set().contains(x) by {
            assert(order.contains(x as int as usize));
        }
    }
    order.unique_seq_to_set();
}


/// One indirect draw: `vertex_count` vertices from `first_vertex`,
/// `instance_count` instances from `first_instance`.
#[derive(Clone, Copy, Debug, PartialEq, Eq, Structural)]
pub struct DrawCommand {
    pub vertex_count: u32,
    pub instance_count: u32,
    pub first_vertex: u32,
    pub first_instance: u32,
}

/// The lists of one frame's batch, all in draw order: the meshes drawn (whose
/// transforms give the model matrices), the device address of each one's
/// vertex buffer, and one draw command each.
#[derive(Debug)]
pub struct Batch {
    pub order: Vec<usize>,
    pub vertex_ptr: Vec<u64>,
    pub indirect_draw: Vec<DrawCommand>,
}

/// The buffers of one material: a pool of vertex buffers indexed by buffer id,
/// which only grows, and the batch of the last frame, unset when that frame
/// had no mesh to draw.
#[derive(Debug)]
pub struct DynamicMeshBuffers<B> {
    pub vertex: Vec<B>,
    pub batch: Option<Batch>,
}

impl<B> DynamicMeshBuffers<B> {
    /// An empty pool with no batch.
    pub fn new() -> (r: DynamicMeshBuffers<B>)
        ensures
            r.vertex@.len() == 0,
            r.batch is None,
    {
        DynamicMeshBuffers { vertex: Vec::new(), batch: None }
    }

    /// The id that the next new vertex buffer gets.
    pub fn id_count(&self) -> (r: usize)
        ensures
            r == self.vertex@.len(),
    {
        self.vertex.len()
    }

    /// Whether the last frame left a batch to draw.
    pub fn is_complete(&self) -> (r: bool)
        ensures
            r == self.batch is Some,
    {
        self.batch.is_some()
    }
}

pub open spec fn order_of(batch: Option<Batch>) -> Seq<usize> {
    match batch {
        Some(b) => b.order@,
        None => Seq::empty(),
    }
}

/// How many of the first `p` meshes of `order` had no buffer yet.
pub open spec fn fresh_before(meshes: Seq<DynamicMesh>, order: Seq<usize>, p: int) -> nat
    decreases p,
{
    if p <= 0 {
        0
    } else {
        fresh_before(meshes, order, p - 1) + if meshes[order[p - 1] as int].buffer_id is None {
            1nat
        } else {
            0nat
        }
    }
}

/// The buffer id of the mesh at position `p` of `order`: the one it had, or,
/// for a mesh without one, the next of the ids handed out from `base` on.
pub open spec fn batch_id(meshes: Seq<DynamicMesh>, order: Seq<usize>, base: int, p: int) -> int {
    match meshes[order[p] as int].buffer_id {
        Some(id) => id as int,
        None => base + fresh_before(meshes, order, p),
    }
}

/// The mesh's vertices must go to a new buffer: it has none, or it changed.
pub open spec fn needs_upload(m: DynamicMesh) -> bool {
    m.buffer_id is None || m.changed
}

/// `new` is `old` bound to buffer `id`, with its dirty flag cleared.
pub open spec fn uploaded(old: DynamicMesh, new: DynamicMesh, id: int) -> bool {
    &&& new.buffer_id == Some(id as u32)
    &&& !new.changed
    &&& new.vertex_count == old.vertex_count
    &&& new.material == old.material
    &&& new.position == old.position
}

/// Buffer `id` is reallocated by one of the first `p` meshes of `order`.
pub open spec fn reallocated(meshes: Seq<DynamicMesh>, order: Seq<usize>, id: int, p: int) -> bool {
    exists|q: int|
        0 <= q < p && #[trigger] meshes[order[q] as int].buffer_id == Some(id as u32)
            && meshes[order[q] as int].changed
}

/// The ids that the meshes of `material` hold are ids of the pool, and no two
/// of them share one.
pub open spec fn ids_valid(meshes: Seq<DynamicMesh>, material: Seq<char>, pool_len: int) -> bool {
    &&& forall|j: int|
        selected(meshes, material, j) && #[trigger] meshes[j].buffer_id is Some ==> meshes[j].buffer_id->0
            < pool_len
    &&& forall|j: int, k: int|
        selected(meshes, material, j) && selected(meshes, material, k) && j != k
            && #[trigger] meshes[j].buffer_id is Some && #[trigger] meshes[k].buffer_id is Some
            ==> meshes[j].buffer_id != meshes[k].buffer_id
}

/// Whether the meshes of `material` hold only ids of a pool of `pool_len`
/// buffers, no two the same: what [`prepare_dynamic_meshes`] requires of
/// them.
pub fn buffer_ids_valid(meshes: &Vec<DynamicMesh>, material: &String, pool_len: usize) -> (r: bool)
    ensures
        r == ids_valid(meshes@, material@, pool_len as int),
{
    let mut owner: Vec<usize> = Vec::new();
    let mut taken: Vec<bool> = Vec::new();
    let mut i: usize = 0;
    while i < pool_len
        invariant
            i <= pool_len,
            taken@.len() == i,
            owner@.len() == i,
            forall|k: int| 0 <= k < i ==> !(#[trigger] taken@[k]),
        decreases pool_len - i,
    {
        taken.push(false);
        owner.push(0);
        i = i + 1;
    }
    let mut j: usize = 0;
    while j < meshes.len()
        invariant
            j <= meshes@.len(),
            taken@.len() == pool_len,
            owner@.len() == pool_len,
            forall|k: int|
                0 <= k < j && selected(meshes@, material@, k) && #[trigger] meshes@[k].buffer_id is Some
                    ==> meshes@[k].buffer_id->0 < pool_len && taken@[meshes@[k].buffer_id->0 as int]
                    && owner@[meshes@[k].buffer_id->0 as int] == k,
            forall|id: int|
                0 <= id < pool_len && #[trigger] taken@[id] ==> owner@[id] < j && selected(
                    meshes@,
                    material@,
                    owner@[id] as int,
                ) && meshes@[owner@[id] as int].buffer_id == Some(id as u32),
            forall|a: int, b: int|
                0 <= a < j && 0 <= b < j && a != b && selected(meshes@, material@, a) && selected(
                    meshes@,
                    material@,
                    b,
                ) && #[trigger] meshes@[a].buffer_id is Some && #[trigger] meshes@[b].buffer_id is Some
                    ==> meshes@[a].buffer_id != meshes@[b].buffer_id,
        decreases meshes@.len() - j,
    {
        let m = &meshes[j];
        if m.vertex_count > 0 && m.material == *material {
            match m.buffer_id {
                Some(id) => {
                    if id as usize >= pool_len {
                        return false;
                    }
                    if taken[id as usize] {
                        proof {
                            let k = owner@[id as int] as int;
                            assert(meshes@[k].buffer_id is Some);
                            assert(meshes@[j as int].buffer_id is Some);
                        }
                        return false;
                    }
                    taken.set(id as usize, true);
                    owner.set(id as usize, j);
                },
                None => {},
            }
        }
        j = j + 1;
    }
    true
}

proof fn lemma_distinct_indices_len(s: Seq<usize>, n: int)
    requires
        0 <= n,
        s.no_duplicates(),
        forall|p: int| 0 <= p < s.len() ==> (#[trigger] s[p] as int) < n,
    ensures
        s.len() <= n,
{
    let t = s.map_values(|x: usize| x as int);
    assert(t.no_duplicates()) by {
        assert forall|p: int, q: int| 0 <= p < t.len() && 0 <= q < t.len() && p != q implies t[p] != t[q] by {
            assert(s[p] != s[q]);
        }
    }
    assert(t.to_set().subset_of(set_int_range(0, n))) by {
        assert forall|x: int| t.to_set().contains(x) implies set_int_range(0, n).contains(x) by {
            assert(t.contains(x));
            let p = choose|p: int| 0 <= p < t.len() && t[p] == x;
            assert(s[p] < n);
        }
    }
    lemma_int_range(0, n);
    lemma_len_subset(t.to_set(), set_int_range(0, n));
    t.unique_seq_to_set();
}

proof fn lemma_fresh_before_bounds(meshes: Seq<DynamicMesh>, order: Seq<usize>, a: int, b: int)
    requires
        0 <= a <= b,
    ensures
        fresh_before(meshes, order, a) <= fresh_before(meshes, order, b),
        fresh_before(meshes, order, b) - fresh_before(meshes, order, a) <= b - a,
        a < b && meshes[order[a] as int].buffer_id is None ==> fresh_before(meshes, order, a)
            < fresh_before(meshes, order, b),
    decreases b - a,
{
    if a < b {
        lemma_fresh_before_bounds(meshes, order, a, b - 1);
        if a < b - 1 {
            lemma_fresh_before_bounds(meshes, order, a + 1, b);
        }
    }
}

/// New buffer ids are handed out in sequence: each is at least the pool's
/// size before the frame, so no id in use is handed out again, and they
/// increase along the batch order.
pub proof fn lemma_fresh_ids_increase(
    meshes: Seq<DynamicMesh>,
    order: Seq<usize>,
    base: int,
    p: int,
    q: int,
)
    requires
        0 <= p < q < order.len(),
        meshes[order[p] as int].buffer_id is None,
        meshes[order[q] as int].buffer_id is None,
    ensures
        base <= batch_id(meshes, order, base, p) < batch_id(meshes, order, base, q),
        batch_id(meshes, order, base, q) < base + order.len(),
{
    lemma_fresh_before_bounds(meshes, order, 0, p);
    lemma_fresh_before_bounds(meshes, order, p, q);
    lemma_fresh_before_bounds(meshes, order, q, order.len() as int);
    lemma_fresh_before_bounds(meshes, order, 0, order.len() as int);
}

proof fn lemma_batch_ids_distinct(
    meshes: Seq<DynamicMesh>,
    material: Seq<char>,
    camera: Point3,
    order: Seq<usize>,
    base: int,
    p: int,
    q: int,
)
    requires
        is_batch_order(meshes, material, camera, order),
        ids_valid(meshes, material, base),
        0 <= p < order.len(),
        0 <= q < order.len(),
        p != q,
    ensures
        batch_id(meshes, order, base, p) != batch_id(meshes, order, base, q),
{
    let (a, b) = if p < q { (p, q) } else { (q, p) };
    assert(nearer(meshes, camera, order[a] as int, order[b] as int));
    assert(selected(meshes, material, order[a] as int));
    assert(selected(meshes, material, order[b] as int));
    lemma_fresh_before_bounds(meshes, order, 0, a);
    lemma_fresh_before_bounds(meshes, order, 0, b);
    if meshes[order[a] as int].buffer_id is None && meshes[order[b] as int].buffer_id is None {
        lemma_fresh_ids_increase(meshes, order, base, a, b);
    }
}


/// Builds this frame's batch of `material` into `pool`.
///
/// The meshes of `material` that have vertices are sorted near to far from
/// `camera`. A mesh without a buffer gets the next id of the pool and a buffer
/// from `allocate`; a changed mesh gets a new buffer from `allocate` under the
/// id it has; either way its dirty flag is cleared. The batch then lists, in
/// that order, each mesh, the device address of its buffer as `address` gives
/// it, and a draw of its vertices as instance number its position. With no
/// mesh to draw the batch is unset.
pub fn prepare_dynamic_meshes<B, A: Fn(usize) -> B, D: Fn(&B) -> u64>(
    pool: &mut DynamicMeshBuffers<B>,
    meshes: &mut Vec<DynamicMesh>,
    material: &String,
    camera: &Point3,
    allocate: A,
    address: D,
)
    requires
        old(pool).vertex@.len() + old(meshes)@.len() <= u32::MAX,
        ids_valid(old(meshes)@, material@, old(pool).vertex@.len() as int),
        forall|j: usize| allocate.requires((j,)),
        forall|b: &B| address.requires((b,)),
    ensures
        ({
            let o = old(meshes)@;
            let ord = order_of(final(pool).batch);
            let base = old(pool).vertex@.len() as int;
            &&& is_batch_order(o, material@, *camera, ord)
            &&& (final(pool).batch is None <==> ord.len() == 0)
            &&& final(meshes)@.len() == o.len()
            &&& forall|j: int|
                0 <= j < o.len() && !selected(o, material@, j) ==> #[trigger] final(meshes)@[j] == o[j]
            &&& forall|p: int|
                0 <= p < ord.len() ==> uploaded(
                    o[#[trigger] ord[p] as int],
                    final(meshes)@[ord[p] as int],
                    batch_id(o, ord, base, p),
                )
            &&& final(pool).vertex@.len() == base + fresh_before(o, ord, ord.len() as int)
            &&& forall|p: int|
                0 <= p < ord.len() && needs_upload(o[#[trigger] ord[p] as int]) ==> allocate.ensures(
                    (ord[p],),
                    final(pool).vertex@[batch_id(o, ord, base, p)],
                )
            &&& forall|id: int|
                0 <= id < base && !reallocated(o, ord, id, ord.len() as int) ==> #[trigger] final(pool).vertex@[id] == old(pool).vertex@[id]
            &&& match final(pool).batch {
                Some(b) => {
                    &&& b.vertex_ptr@.len() == ord.len()
                    &&& b.indirect_draw@.len() == ord.len()
                    &&& forall|p: int|
                        0 <= p < ord.len() ==> address.ensures(
                            (&final(pool).vertex@[batch_id(o, ord, base, p)],),
                            #[trigger] b.vertex_ptr@[p],
                        )
                    &&& forall|p: int|
                        0 <= p < ord.len() ==> #[trigger] b.indirect_draw@[p] == (DrawCommand {
                            vertex_count: o[ord[p] as int].vertex_count,
                            instance_count: 1,
                            first_vertex: 0,
                            first_instance: p as u32,
                        })
                },
                None => true,
            }
        }),
{
    let ghost o = meshes@;
    let ghost old_pool = pool.vertex@;
    let ghost base = pool.vertex@.len() as int;
    let order = sort_by_distance(meshes, material, camera);
    let ghost ord = order@;
    proof {
        lemma_batch_size(o, material@, *camera, ord);
        lemma_fresh_before_bounds(o, ord, 0, ord.len() as int);
        assert forall|p: int| 0 <= p < ord.len() implies (#[trigger] ord[p] as int) < o.len() by {
            assert(selected(o, material@, ord[p] as int));
        }
        lemma_distinct_indices_len(ord, o.len() as int);
    }
    let mut vertex_ptr: Vec<u64> = Vec::new();
    let mut indirect: Vec<DrawCommand> = Vec::new();
    let mut p: usize = 0;
    while p < order.len()
        invariant
            order@ == ord,
            is_batch_order(o, material@, *camera, ord),
            ids_valid(o, material@, base),
            ord.no_duplicates(),
            forall|q: int| 0 <= q < ord.len() ==> (#[trigger] ord[q] as int) < o.len(),
            base + o.len() <= u32::MAX,
            base == old_pool.len(),
            ord.len() <= o.len(),
            forall|j: usize| allocate.requires((j,)),
            forall|b: &B| address.requires((b,)),
            p <= ord.len(),
            meshes@.len() == o.len(),
            forall|j: int| 0 <= j < o.len() && !selected(o, material@, j) ==> #[trigger] meshes@[j] == o[j],
            forall|q: int| p <= q < ord.len() ==> #[trigger] meshes@[ord[q] as int] == o[ord[q] as int],
            forall|q: int|
                0 <= q < p ==> uploaded(o[#[trigger] ord[q] as int], meshes@[ord[q] as int], batch_id(o, ord, base, q)),
            pool.vertex@.len() == base + fresh_before(o, ord, p as int),
            forall|q: int|
                0 <= q < p && needs_upload(o[#[trigger] ord[q] as int]) ==> allocate.ensures(
                    (ord[q],),
                    pool.vertex@[batch_id(o, ord, base, q)],
                ),
            forall|id: int|
                0 <= id < base && !reallocated(o, ord, id, p as int) ==> #[trigger] pool.vertex@[id] == old_pool[id],
            vertex_ptr@.len() == p,
            indirect@.len() == p,
            forall|q: int|
                0 <= q < p ==> address.ensures(
                    (&pool.vertex@[batch_id(o, ord, base, q)],),
                    #[trigger] vertex_ptr@[q],
                ),
            forall|q: int|
                0 <= q < p ==> #[trigger] indirect@[q] == (DrawCommand {
                    vertex_count: o[ord[q] as int].vertex_count,
                    instance_count: 1,
                    first_vertex: 0,
                    first_instance: q as u32,
                }),
        decreases ord.len() - p,
    {
        let j = order[p];
        proof {
            lemma_fresh_before_bounds(o, ord, 0, p as int);
            lemma_fresh_before_bounds(o, ord, p as int, ord.len() as int);
            assert(selected(o, material@, j as int));
            assert(meshes@[j as int] == o[j as int]);
        }
        let ghost pool_before = pool.vertex@;
        let bid = meshes[j].buffer_id;
        let id: u32;
        match bid {
            None => {
                let buf = allocate(j);
                id = pool.vertex.len() as u32;
                pool.vertex.push(buf);
            },
            Some(existing) => {
                id = existing;
                if meshes[j].changed {
                    let buf = allocate(j);
                    pool.vertex.set(existing as usize, buf);
                }
            },
        }
        proof {
            assert(id as int == batch_id(o, ord, base, p as int));
            assert forall|q: int| 0 <= q < p implies batch_id(o, ord, base, q) != id as int && batch_id(
                o,
                ord,
                base,
                q,
            ) < pool_before.len() by {
                lemma_batch_ids_distinct(o, material@, *camera, ord, base, q, p as int);
                lemma_fresh_before_bounds(o, ord, 0, q);
                lemma_fresh_before_bounds(o, ord, q, p as int);
            }
        }
        let m = DynamicMesh {
            vertex_count: meshes[j].vertex_count,
            buffer_id: Some(id),
            changed: false,
            material: meshes[j].material.clone(),
            position: meshes[j].position,
        };
        let vc = meshes[j].vertex_count;
        meshes.set(j, m);
        vertex_ptr.push(address(&pool.vertex[id as usize]));
        indirect.push(DrawCommand { vertex_count: vc, instance_count: 1, first_vertex: 0, first_instance: p as u32 });
        proof {
            assert forall|q: int| p + 1 <= q < ord.len() implies #[trigger] meshes@[ord[q] as int] == o[ord[q] as int] by {
                assert(ord[q] != ord[p as int]);
            }
            assert forall|jj: int| 0 <= jj < o.len() && !selected(o, material@, jj) implies #[trigger] meshes@[jj] == o[jj] by {
                assert(jj != j as int);
            }
            assert forall|q: int| 0 <= q < p + 1 implies uploaded(o[#[trigger] ord[q] as int], meshes@[ord[q] as int], batch_id(o, ord, base, q)) by {
                if q < p {
                    assert(ord[q] != ord[p as int]);
                }
            }
            assert forall|id2: int| 0 <= id2 < base && !reallocated(o, ord, id2, p + 1) implies #[trigger] pool.vertex@[id2] == old_pool[id2] by {
                assert(!reallocated(o, ord, id2, p as int)) by {
                    if reallocated(o, ord, id2, p as int) {
                        let q = choose|q: int| 0 <= q < p && #[trigger] o[ord[q] as int].buffer_id == Some(id2 as u32) && o[ord[q] as int].changed;
                        assert(reallocated(o, ord, id2, p + 1));
                    }
                }
                if needs_upload(o[j as int]) && bid is Some {
                    if id2 == id as int {
                        assert(reallocated(o, ord, id2, p + 1)) by {
                            assert(o[ord[p as int] as int].buffer_id == Some(id2 as u32));
                        }
                    }
                }
            }
        }
        p = p + 1;
    }
    if order.len() == 0 {
        pool.batch = None;
        assert(order_of(pool.batch) =~= ord);
    } else {
        pool.batch = Some(Batch { order, vertex_ptr, indirect_draw: indirect });
        assert(order_of(pool.batch) == ord);
    }
}

} // verus!
