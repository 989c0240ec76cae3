use embree_rust::device::{Device, ResourceError};
use embree_rust::embree::Embree;
use embree_rust::geometry::{GeometrySphere, GeometryTriangle, Triangle};
use embree_rust::identity::{GeometrySceneID, INVALID_GEOMETRY_ID};
use embree_rust::scene::SceneUncommitted;

// Stand-in handle values for what the native engine would allocate.
const DEVICE_HANDLE: u64 = 0x1000;
const SCENE_HANDLE: u64 = 0x2000;
const GEOMETRY_HANDLE: u64 = 0x3000;

fn manager() -> Embree {
    Embree::new(Device::new(DEVICE_HANDLE).unwrap())
}

/// [`Triangle`] should never be smaller or larger
#[test]
fn triangle_size_constraint() {
    assert_eq!(std::mem::size_of::<Triangle>(), 4 + 4 + 4);
}

#[test]
fn triangle_new_keeps_indices() {
    let t = Triangle::new(0, 3, 1);
    assert_eq!(t.i0, 0);
    assert_eq!(t.i1, 3);
    assert_eq!(t.i2, 1);
}

#[test]
fn null_handles_are_rejected() {
    assert_eq!(Device::new(0).unwrap_err(), ResourceError::NullHandle);
    assert!(SceneUncommitted::new(0).is_err());
    assert!(GeometryTriangle::new(0, 8, 12).is_err());
    assert!(GeometrySphere::new(0, 1).is_err());
    let mut e = manager();
    assert_eq!(e.add_scene(0).unwrap_err(), ResourceError::NullHandle);
    assert_eq!(
        e.add_geometry_triangle(0, 8, 12).unwrap_err(),
        ResourceError::NullHandle
    );
    assert_eq!(
        e.add_geometry_sphere(0, 4).unwrap_err(),
        ResourceError::NullHandle
    );
}

#[test]
fn commit_changes_scene_identity() {
    let mut e = manager();
    let sid = e.add_scene(SCENE_HANDLE).unwrap();
    assert_eq!(e.scene_is_committed(sid), Some(false));
    let committed = e.commit_scene(sid);
    assert_ne!(committed, sid);
    // the consumed uncommitted scene's identifier is stale now
    assert!(!e.has_scene(sid));
    assert_eq!(e.scene_is_committed(sid), None);
    assert_eq!(e.scene_is_committed(committed), Some(true));
}

#[test]
fn empty_committed_scene_reports_no_hit() {
    let mut e = manager();
    let sid = e.add_scene(SCENE_HANDLE).unwrap();
    let committed = e.commit_scene(sid);
    // whatever identifier a query reports, nothing was attached
    assert_eq!(e.intersect_scene(committed, INVALID_GEOMETRY_ID), None);
    assert_eq!(e.intersect_scene(committed, 0), None);
}

#[test]
fn hits_come_only_from_attached_geometries() {
    let mut e = manager();
    let g0 = e.add_geometry_triangle(GEOMETRY_HANDLE, 8, 12).unwrap();
    let g1 = e.add_geometry_sphere(GEOMETRY_HANDLE + 1, 4).unwrap();
    let sid = e.add_scene(SCENE_HANDLE).unwrap();
    e.attach_geometry_to_scene(g0, sid, GeometrySceneID(0));
    e.attach_geometry_to_scene(g1, sid, GeometrySceneID(1));
    let committed = e.commit_scene(sid);
    assert_eq!(
        e.intersect_scene(committed, 0),
        Some(GeometrySceneID(0))
    );
    assert_eq!(
        e.intersect_scene(committed, 1),
        Some(GeometrySceneID(1))
    );
    // an identifier never attached to this scene is no hit
    assert_eq!(e.intersect_scene(committed, 2), None);
    assert_eq!(e.intersect_scene(committed, INVALID_GEOMETRY_ID), None);
}

#[test]
fn attached_geometry_resolves_back_to_stable_id() {
    let mut e = manager();
    let gid = e.add_geometry_triangle(GEOMETRY_HANDLE, 8, 12).unwrap();
    let sid = e.add_scene(SCENE_HANDLE).unwrap();
    e.attach_geometry_to_scene(gid, sid, GeometrySceneID(0));
    assert_eq!(
        e.get_geometry_id_from_geometry_scene_id(&GeometrySceneID(0)),
        Some(&gid)
    );
    assert_eq!(
        e.get_geometry_id_from_geometry_scene_id(&GeometrySceneID(1)),
        None
    );
}

#[test]
fn unit_cube_scenario() {
    // create the device and the manager
    let mut e = manager();

    // a unit cube: 8 vertices, 12 triangles; the vertex positions live in
    // the engine's buffers, the index data is what this layer's types hold
    let cube_verts: [(f32, f32, f32); 8] = [
        (1.0, 1.0, 1.0),
        (1.0, 1.0, -1.0),
        (1.0, -1.0, 1.0),
        (1.0, -1.0, -1.0),
        (-1.0, 1.0, 1.0),
        (-1.0, 1.0, -1.0),
        (-1.0, -1.0, 1.0),
        (-1.0, -1.0, -1.0),
    ];
    let cube_indices: [u32; 36] = [
        0, 3, 1, 0, 2, 3, 2, 7, 3, 2, 6, 3, 4, 2, 0, 4, 6, 2, 3, 5, 7, 3, 1, 5, 5, 7, 6, 5, 1, 4,
        1, 5, 4, 1, 4, 0,
    ];
    let mut triangles: Vec<Triangle> = Vec::new();
    for chunk in cube_indices.chunks(3) {
        triangles.push(Triangle::new(chunk[0], chunk[1], chunk[2]));
    }
    assert_eq!(triangles.len(), 12);

    // register the geometry the engine built from those buffers
    let gid = e
        .add_geometry_triangle(GEOMETRY_HANDLE, cube_verts.len(), triangles.len())
        .unwrap();

    // add an uncommitted scene, attach the geometry, commit
    let sid = e.add_scene(SCENE_HANDLE).unwrap();
    e.attach_geometry_to_scene(gid, sid, GeometrySceneID(0));
    let committed = e.commit_scene(sid);

    // a ray from (0,0,-3) toward (0,0,1) strikes the cube: the engine
    // reports the attached scene-local identifier, a valid hit
    let _ray_toward_cube = ((0.0f32, 0.0f32, -3.0f32), (0.0f32, 0.0f32, 1.0f32));
    let hit = e.intersect_scene(committed, 0);
    assert_eq!(hit, Some(GeometrySceneID(0)));
    let resolved = e.get_geometry_id_from_geometry_scene_id(&hit.unwrap());
    assert_eq!(resolved, Some(&gid));

    // a ray from (10,10,10) toward (1,0,0) misses: the engine reports the
    // sentinel, and interpretation yields no hit
    let _ray_into_space = ((10.0f32, 10.0f32, 10.0f32), (1.0f32, 0.0f32, 0.0f32));
    let miss = e.intersect_scene(committed, INVALID_GEOMETRY_ID);
    assert_eq!(miss, None);
}
