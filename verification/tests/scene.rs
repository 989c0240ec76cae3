use embree_rust::device::Device;
use embree_rust::identity::{GeometrySceneID, INVALID_GEOMETRY_ID};
use embree_rust::scene::SceneUncommitted;

#[test]
fn device_hands_back_its_handle() {
    let d = Device::new(42).unwrap();
    assert_eq!(d.get_device(), 42);
}

#[test]
fn commit_freezes_the_attached_set() {
    let mut scene = SceneUncommitted::new(5).unwrap();
    scene.attach_geometry(GeometrySceneID(3));
    scene.attach_geometry(GeometrySceneID(9));
    let committed = scene.commit();
    assert_eq!(committed.intersect(3), Some(GeometrySceneID(3)));
    assert_eq!(committed.intersect(9), Some(GeometrySceneID(9)));
    assert_eq!(committed.intersect(4), None);
    assert_eq!(committed.intersect(INVALID_GEOMETRY_ID), None);
}

#[test]
fn duplicate_is_an_exact_copy() {
    let mut scene = SceneUncommitted::new(5).unwrap();
    scene.attach_geometry(GeometrySceneID(3));
    let copy = scene.duplicate();
    assert_eq!(copy.get_scene(), scene.get_scene());
    assert_eq!(copy.commit().intersect(3), Some(GeometrySceneID(3)));
    assert_eq!(scene.commit().intersect(3), Some(GeometrySceneID(3)));
}
