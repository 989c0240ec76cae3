//! Translation of engine-assigned, scene-scoped geometry identifiers back
//! into the caller's stable identifiers.

use std::collections::HashMap;

use vstd::prelude::*;

use crate::geometry::GeometryID;

verus! {

broadcast use vstd::std_specs::hash::group_hash_axioms;

/// Sentinel geometry identifier: the native engine reports this value in a
/// hit record to mean "no primitive was hit". It is never a valid
/// scene-local identifier.
pub const INVALID_GEOMETRY_ID: u32 = u32::MAX;

/// An engine-assigned, scene-scoped geometry identifier, produced when a
/// geometry is attached to a scene. Meaningful only within that scene; the
/// native engine reports it inside hit results.
#[derive(Debug, Clone, Copy, PartialEq, Eq, PartialOrd, Ord, Hash, Structural)]
pub struct GeometrySceneID(pub u32);

/// Map from engine-assigned scene-local identifiers to the caller's stable
/// geometry identifiers, filled exactly once per successful attach and
/// consulted to interpret intersection results.
#[derive(Debug)]
pub struct IdentityMap {
    map: HashMap<u32, GeometryID>,
}

impl View for IdentityMap {
    type V = Map<u32, GeometryID>;

    closed spec fn view(&self) -> Map<u32, GeometryID> {
        self.map@
    }
}

impl IdentityMap {
    /// An empty map.
    pub fn new() -> (m: Self)
        ensures
            m@ == Map::<u32, GeometryID>::empty(),
    {
        IdentityMap { map: HashMap::new() }
    }

    /// Records that the engine assigned `scene_local_id` to the geometry
    /// identified by `stable_id`. A scene-local identifier that already has
    /// a mapping denotes an attach the engine should never have permitted
    /// twice: it is rejected, the map is left unchanged, and `false` comes
    /// back — never a silent overwrite.
    pub fn record(&mut self, scene_local_id: GeometrySceneID, stable_id: GeometryID) -> (fresh:
        bool)
        ensures
            fresh == !old(self)@.contains_key(scene_local_id.0),
            fresh ==> final(self)@ == old(self)@.insert(scene_local_id.0, stable_id),
            !fresh ==> final(self)@ == old(self)@,
    {
        if self.map.contains_key(&scene_local_id.0) {
            false
        } else {
            self.map.insert(scene_local_id.0, stable_id);
            true
        }
    }

    /// Resolves an engine-reported scene-local identifier back to the
    /// stable identifier recorded for it, if any.
    pub fn resolve(&self, scene_local_id: &GeometrySceneID) -> (r: Option<&GeometryID>)
        ensures
            match r {
                Some(stable_id) => self@.contains_key(scene_local_id.0)
                    && *stable_id == self@[scene_local_id.0],
                None => !self@.contains_key(scene_local_id.0),
            },
    {
        self.map.get(&scene_local_id.0)
    }

    /// Whether a mapping for `scene_local_id` has been recorded.
    pub fn contains(&self, scene_local_id: &GeometrySceneID) -> (b: bool)
        ensures
            b == self@.contains_key(scene_local_id.0),
    {
        self.map.contains_key(&scene_local_id.0)
    }
}

/// Law: one scene-local identifier, one mapping. Whenever a record turned
/// map `pre` into `post` under `scene_local_id`, the identifier is in
/// `post`, so by [`IdentityMap::record`]'s contract any later record under
/// the same identifier comes back `false` and leaves the map unchanged —
/// a repeat is rejected, never silently accepted.
pub proof fn lemma_second_record_rejected(
    pre: IdentityMap,
    post: IdentityMap,
    scene_local_id: GeometrySceneID,
    stable_id: GeometryID,
)
    requires
        post@ == pre@.insert(scene_local_id.0, stable_id),
    ensures
        post@.contains_key(scene_local_id.0),
{
}

} // verus!
