use std::cell::Cell;

use render_core::batch::{
    buffer_ids_valid, distance_squared, prepare_dynamic_meshes, sort_by_distance, Batch, DrawCommand,
    DynamicMesh, DynamicMeshBuffers, Point3,
};

fn p(x: i32, y: i32, z: i32) -> Point3 {
    Point3 { x, y, z }
}

fn mesh(material: &str, vertex_count: u32, position: Point3) -> DynamicMesh {
    DynamicMesh {
        vertex_count,
        buffer_id: None,
        changed: false,
        material: material.to_string(),
        position,
    }
}

const ORIGIN: Point3 = Point3 { x: 0, y: 0, z: 0 };

fn batch_of<B>(pool: &DynamicMeshBuffers<B>) -> &Batch {
    pool.batch.as_ref().expect("batch set")
}

#[test]
fn squared_distance_exact() {
    assert_eq!(distance_squared(&p(1, 2, 3), &p(4, 6, 3)), 25);
    assert_eq!(distance_squared(&p(-3, 0, 0), &ORIGIN), 9);
    let far = distance_squared(&p(i32::MIN, i32::MIN, i32::MIN), &p(i32::MAX, i32::MAX, i32::MAX));
    assert_eq!(far, 3 * (u32::MAX as u128) * (u32::MAX as u128));
}

#[test]
fn three_meshes_near_to_far() {
    let mut meshes = vec![
        mesh("m", 3, p(0, 0, 1)),
        mesh("m", 6, p(0, 5, 0)),
        mesh("m", 9, p(3, 0, 0)),
    ];
    let mut pool: DynamicMeshBuffers<usize> = DynamicMeshBuffers::new();
    prepare_dynamic_meshes(&mut pool, &mut meshes, &"m".to_string(), &ORIGIN, |j| j, |b| 100 + *b as u64);
    let b = batch_of(&pool);
    assert_eq!(b.order, vec![0, 2, 1]);
    let first: Vec<u32> = b.indirect_draw.iter().map(|c| c.first_instance).collect();
    assert_eq!(first, vec![0, 1, 2]);
    assert_eq!(
        b.indirect_draw[1],
        DrawCommand { vertex_count: 9, instance_count: 1, first_vertex: 0, first_instance: 1 }
    );
}

#[test]
fn equal_distances_keep_scene_order() {
    let meshes = vec![
        mesh("m", 3, p(0, 2, 0)),
        mesh("m", 3, p(2, 0, 0)),
        mesh("m", 3, p(0, 0, 1)),
        mesh("m", 3, p(0, 0, -2)),
    ];
    assert_eq!(sort_by_distance(&meshes, &"m".to_string(), &ORIGIN), vec![2, 0, 1, 3]);
}

#[test]
fn sorting_twice_gives_same_order() {
    let meshes = vec![
        mesh("m", 3, p(4, 0, 0)),
        mesh("m", 3, p(-4, 0, 0)),
        mesh("m", 3, p(1, 1, 1)),
        mesh("m", 3, p(0, 0, 4)),
    ];
    let m = "m".to_string();
    let camera = p(1, 0, 0);
    let first = sort_by_distance(&meshes, &m, &camera);
    let second = sort_by_distance(&meshes, &m, &camera);
    assert_eq!(first, second);
    assert_eq!(first, vec![2, 0, 3, 1]);
}

#[test]
fn only_selected_meshes_are_batched() {
    let mut meshes = vec![
        mesh("m", 3, p(0, 0, 3)),
        mesh("m", 0, p(0, 0, 1)),
        mesh("other", 3, p(0, 0, 2)),
        mesh("m", 6, p(0, 0, 4)),
    ];
    let mut pool: DynamicMeshBuffers<usize> = DynamicMeshBuffers::new();
    prepare_dynamic_meshes(&mut pool, &mut meshes, &"m".to_string(), &ORIGIN, |j| j, |b| *b as u64);
    let b = batch_of(&pool);
    assert_eq!(b.order, vec![0, 3]);
    assert_eq!(b.vertex_ptr.len(), 2);
    assert_eq!(b.indirect_draw.len(), 2);
    assert_eq!(b.vertex_ptr, vec![0, 3]);
    // The empty mesh and the other material's mesh are left alone.
    assert_eq!(meshes[1].buffer_id, None);
    assert_eq!(meshes[2].buffer_id, None);
    assert_eq!(pool.id_count(), 2);
}

#[test]
fn new_meshes_get_sequential_ids() {
    let mut meshes = vec![
        mesh("m", 3, p(0, 0, 5)),
        mesh("m", 3, p(0, 0, 1)),
    ];
    let mut pool: DynamicMeshBuffers<usize> = DynamicMeshBuffers::new();
    let m = "m".to_string();
    prepare_dynamic_meshes(&mut pool, &mut meshes, &m, &ORIGIN, |j| j, |b| *b as u64);
    // Ids follow the draw order: the nearer mesh comes first.
    assert_eq!(meshes[1].buffer_id, Some(0));
    assert_eq!(meshes[0].buffer_id, Some(1));
    meshes.push(mesh("m", 3, p(0, 0, 2)));
    prepare_dynamic_meshes(&mut pool, &mut meshes, &m, &ORIGIN, |j| j, |b| *b as u64);
    assert_eq!(meshes[2].buffer_id, Some(2));
    assert_eq!(meshes[1].buffer_id, Some(0));
    assert_eq!(meshes[0].buffer_id, Some(1));
    assert_eq!(pool.id_count(), 3);
    assert_eq!(batch_of(&pool).order, vec![1, 2, 0]);
}

#[test]
fn changed_mesh_gets_new_buffer_under_same_id() {
    let next = Cell::new(10u64);
    let alloc = |_j: usize| {
        let v = next.get();
        next.set(v + 1);
        v
    };
    let mut meshes = vec![mesh("m", 3, p(0, 0, 1)), mesh("m", 3, p(0, 0, 2))];
    let mut pool: DynamicMeshBuffers<u64> = DynamicMeshBuffers::new();
    let m = "m".to_string();
    prepare_dynamic_meshes(&mut pool, &mut meshes, &m, &ORIGIN, &alloc, |b| *b);
    assert_eq!(pool.vertex, vec![10, 11]);

    meshes[1].vertex_count = 6;
    meshes[1].changed = true;
    prepare_dynamic_meshes(&mut pool, &mut meshes, &m, &ORIGIN, &alloc, |b| *b);
    assert_eq!(meshes[1].buffer_id, Some(1));
    assert!(!meshes[1].changed);
    assert_eq!(pool.vertex, vec![10, 12]);
    assert_eq!(batch_of(&pool).vertex_ptr, vec![10, 12]);
    assert_eq!(batch_of(&pool).indirect_draw[1].vertex_count, 6);

    // Unchanged meshes keep their buffers.
    prepare_dynamic_meshes(&mut pool, &mut meshes, &m, &ORIGIN, &alloc, |b| *b);
    assert_eq!(pool.vertex, vec![10, 12]);
    assert_eq!(next.get(), 13);
}

#[test]
fn no_meshes_leaves_batch_unset() {
    let mut meshes = vec![mesh("m", 3, p(0, 0, 1))];
    let mut pool: DynamicMeshBuffers<usize> = DynamicMeshBuffers::new();
    prepare_dynamic_meshes(&mut pool, &mut meshes, &"m".to_string(), &ORIGIN, |j| j, |b| *b as u64);
    assert!(pool.is_complete());
    meshes[0].vertex_count = 0;
    prepare_dynamic_meshes(&mut pool, &mut meshes, &"m".to_string(), &ORIGIN, |j| j, |b| *b as u64);
    assert!(pool.batch.is_none());
    assert!(!pool.is_complete());
    // The pool keeps the buffer of the mesh.
    assert_eq!(pool.id_count(), 1);
}

#[test]
fn buffer_ids_checked_against_pool() {
    let m = "m".to_string();
    let mut meshes = vec![mesh("m", 3, p(0, 0, 1)), mesh("m", 3, p(0, 0, 2)), mesh("other", 3, ORIGIN)];
    assert!(buffer_ids_valid(&meshes, &m, 0));
    meshes[0].buffer_id = Some(1);
    assert!(!buffer_ids_valid(&meshes, &m, 1));
    assert!(buffer_ids_valid(&meshes, &m, 2));
    meshes[1].buffer_id = Some(1);
    assert!(!buffer_ids_valid(&meshes, &m, 2));
    // An empty mesh, or one of another material, is not looked at.
    meshes[1].vertex_count = 0;
    meshes[2].buffer_id = Some(7);
    assert!(buffer_ids_valid(&meshes, &m, 2));
}
