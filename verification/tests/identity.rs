use embree_rust::geometry::GeometryID;
use embree_rust::identity::{GeometrySceneID, IdentityMap, INVALID_GEOMETRY_ID};
use embree_rust::registry::StableID;

fn stable(slot: usize, generation: u64) -> GeometryID {
    GeometryID(StableID { slot, generation })
}

#[test]
fn resolve_round_trip() {
    let mut m = IdentityMap::new();
    let gid = stable(3, 1);
    assert!(m.record(GeometrySceneID(7), gid));
    assert_eq!(m.resolve(&GeometrySceneID(7)), Some(&gid));
}

#[test]
fn duplicate_record_rejected() {
    let mut m = IdentityMap::new();
    let first = stable(0, 0);
    let second = stable(1, 0);
    assert!(m.record(GeometrySceneID(7), first));
    // the same scene-local id a second time is rejected, not overwritten
    assert!(!m.record(GeometrySceneID(7), second));
    assert_eq!(m.resolve(&GeometrySceneID(7)), Some(&first));
}

#[test]
fn resolve_unknown_returns_none() {
    let mut m = IdentityMap::new();
    assert_eq!(m.resolve(&GeometrySceneID(7)), None);
    assert!(m.record(GeometrySceneID(7), stable(0, 0)));
    assert_eq!(m.resolve(&GeometrySceneID(8)), None);
    assert_eq!(m.resolve(&GeometrySceneID(INVALID_GEOMETRY_ID)), None);
}
