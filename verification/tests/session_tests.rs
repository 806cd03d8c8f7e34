use scene_handler_library::Hit;
use scene_handler_library::Indices;
use scene_handler_library::LoadPhase;
use scene_handler_library::MeshData;
use scene_handler_library::Point;
use scene_handler_library::Session;

fn p(x: f32, y: f32, z: f32) -> Point {
    Point::new(x.to_bits(), y.to_bits(), z.to_bits())
}

fn one_triangle_mesh(entity: u64) -> MeshData {
    MeshData {
        entity,
        positions: Some(vec![p(0.0, 0.0, 0.0), p(1.0, 0.0, 0.0), p(0.0, 1.0, 0.0)]),
        indices: Some(Indices::U16(vec![0, 1, 2])),
    }
}

#[test]
fn fresh_session_is_empty() {
    let s = Session::new();
    assert_eq!(s.data_state.phase, LoadPhase::Unloaded);
    assert_eq!(s.triangles().len(), 0);
    assert_eq!(s.pick(), None);
    assert!(s.backface_culling());
}

#[test]
fn request_load_registers_entity() {
    let mut s = Session::new();
    s.request_load(9);
    assert_eq!(s.data_state.phase, LoadPhase::Loaded);
    assert_eq!(s.glb_components.get_entities().as_slice(), &[9]);
}

#[test]
fn tick_extracts_once_after_load() {
    let mut s = Session::new();
    s.request_load(1);
    let meshes = vec![one_triangle_mesh(1)];
    s.tick(&meshes);
    assert_eq!(s.data_state.phase, LoadPhase::Parsed);
    assert_eq!(s.triangles().len(), 1);
}

#[test]
fn extraction_is_idempotent_across_ticks() {
    // Ticking twice yields the same triangle set as ticking once.
    let mut s = Session::new();
    s.request_load(1);
    let meshes = vec![one_triangle_mesh(1)];
    s.tick(&meshes);
    let once = s.triangles().clone();
    s.tick(&meshes);
    assert_eq!(s.triangles(), &once);
    s.tick(&meshes);
    assert_eq!(s.triangles(), &once);
}

#[test]
fn tick_before_load_extracts_nothing() {
    let mut s = Session::new();
    let meshes = vec![one_triangle_mesh(1)];
    s.tick(&meshes);
    assert_eq!(s.data_state.phase, LoadPhase::Unloaded);
    assert_eq!(s.triangles().len(), 0);
}

#[test]
fn no_cursor_frame_reports_none_and_keeps_triangles() {
    // With no cursor pixel the host produces no ray: the frame reports no
    // pick and the triangle set is left unmodified.
    let mut s = Session::new();
    s.request_load(1);
    let meshes = vec![one_triangle_mesh(1)];
    s.tick(&meshes);
    let before = s.triangles().clone();
    s.report(&None);
    assert_eq!(s.pick(), None);
    assert_eq!(s.triangles(), &before);
}

#[test]
fn stale_pick_is_replaced_each_frame() {
    let mut s = Session::new();
    s.request_load(1);
    let meshes = vec![one_triangle_mesh(1)];
    s.tick(&meshes);
    let outcomes = Some(vec![Some(Hit::new(3, 0, 0, 0))]);
    s.report(&outcomes);
    assert!(s.pick().is_some());
    s.report(&None);
    assert_eq!(s.pick(), None);
}

#[test]
fn skipped_meshes_are_counted() {
    let mut s = Session::new();
    s.request_load(1);
    let meshes = vec![
        MeshData { entity: 1, positions: None, indices: None },
        one_triangle_mesh(1),
        MeshData { entity: 1, positions: None, indices: None },
    ];
    let skipped = s.tick(&meshes);
    assert_eq!(skipped, 2);
    assert_eq!(s.triangles().len(), 1);
}
