//! The scene lifecycle state machine: a scene starts uncommitted and
//! mutable, and is consumed by a one-way commit into an immutable,
//! queryable value. There is no reverse transition and no re-commit.

use vstd::prelude::*;

use crate::device::ResourceError;
use crate::identity::{GeometrySceneID, INVALID_GEOMETRY_ID};
use crate::registry::StableID;

verus! {

/// Stable identifier of a scene stored in the manager's registry.
#[derive(Clone, Copy, Debug, PartialEq, Eq, PartialOrd, Ord, Hash, Structural)]
pub struct SceneID(pub StableID);

/// An uncommitted scene: owns one native scene handle and the scene-local
/// identifiers of the geometries attached so far. Mutable until committed.
#[derive(Debug)]
pub struct SceneUncommitted {
    scene: u64,
    attached: Vec<GeometrySceneID>,
}

/// A committed scene: owns one native scene handle and the frozen set of
/// scene-local identifiers attached before the commit. Immutable and
/// queryable.
#[derive(Debug)]
pub struct SceneCommitted {
    scene: u64,
    attached: Vec<GeometrySceneID>,
}

/// A scene in either lifecycle state.
#[derive(Debug)]
pub enum Scene {
    Uncommitted(SceneUncommitted),
    Committed(SceneCommitted),
}

impl SceneUncommitted {
    /// The raw native scene handle.
    pub closed spec fn raw(self) -> u64 {
        self.scene
    }

    /// The scene-local identifiers attached so far, in attach order.
    pub closed spec fn attached_ids(self) -> Seq<GeometrySceneID> {
        self.attached@
    }

    /// A scene always owns a non-null handle.
    pub open spec fn inv(self) -> bool {
        self.raw() != 0
    }

    /// Takes ownership of the scene handle the native engine allocated,
    /// with nothing attached yet. A null handle is an engine-level
    /// allocation failure and is rejected.
    pub fn new(raw_scene: u64) -> (r: Result<SceneUncommitted, ResourceError>)
        ensures
            match r {
                Ok(s) => {
                    &&& raw_scene != 0
                    &&& s.raw() == raw_scene
                    &&& s.attached_ids() == Seq::<GeometrySceneID>::empty()
                },
                Err(e) => raw_scene == 0 && e == ResourceError::NullHandle,
            },
    {
        if raw_scene == 0 {
            Err(ResourceError::NullHandle)
        } else {
            let s = SceneUncommitted { scene: raw_scene, attached: Vec::new() };
            proof {
                assert(s.attached_ids() =~= Seq::<GeometrySceneID>::empty());
            }
            Ok(s)
        }
    }

    /// Records that the native engine attached a geometry to this scene
    /// under the scene-local identifier it assigned. The engine assigns a
    /// fresh identifier on every attach, and never the sentinel, so a
    /// repeated or sentinel identifier is a contract violation and is
    /// excluded here.
    pub fn attach_geometry(&mut self, scene_local_id: GeometrySceneID)
        requires
            !old(self).attached_ids().contains(scene_local_id),
            scene_local_id.0 != INVALID_GEOMETRY_ID,
        ensures
            final(self).raw() == old(self).raw(),
            final(self).attached_ids() == old(self).attached_ids().push(scene_local_id),
    {
        self.attached.push(scene_local_id);
    }

    /// The one-way transition to the committed state, consuming the
    /// uncommitted value. The native build and the handle retain that keep
    /// the handle alive across the transition happen outside this layer;
    /// here the handle and the attached set carry over unchanged, frozen.
    pub fn commit(self) -> (s: SceneCommitted)
        ensures
            s.raw() == self.raw(),
            s.attached_ids() == self.attached_ids(),
    {
        SceneCommitted { scene: self.scene, attached: self.attached }
    }

    /// The raw native scene handle, for handing to engine calls.
    pub fn get_scene(&self) -> (h: u64)
        ensures
            h == self.raw(),
    {
        self.scene
    }

    /// An exact copy; scene handles are plain values to this layer.
    pub fn duplicate(&self) -> (s: SceneUncommitted)
        ensures
            s.raw() == self.raw(),
            s.attached_ids() == self.attached_ids(),
    {
        let mut attached: Vec<GeometrySceneID> = Vec::new();
        let mut k: usize = 0;
        while k < self.attached.len()
            invariant
                k <= self.attached.len(),
                attached@ == self.attached@.subrange(0, k as int),
            decreases self.attached.len() - k,
        {
            attached.push(self.attached[k]);
            k = k + 1;
            proof {
                assert(attached@ =~= self.attached@.subrange(0, k as int));
            }
        }
        proof {
            assert(attached@ =~= self.attached@);
        }
        SceneUncommitted { scene: self.scene, attached }
    }
}

impl SceneCommitted {
    /// The raw native scene handle.
    pub closed spec fn raw(self) -> u64 {
        self.scene
    }

    /// The frozen scene-local identifiers attached before the commit.
    pub closed spec fn attached_ids(self) -> Seq<GeometrySceneID> {
        self.attached@
    }

    /// A scene always owns a non-null handle.
    pub open spec fn inv(self) -> bool {
        self.raw() != 0
    }

    /// What interpreting a reported geometry identifier yields: the
    /// scene-local identifier when it belongs to this scene's attached
    /// set, nothing otherwise (the sentinel never belongs to it).
    pub open spec fn spec_hit(self, reported_geometry_id: u32) -> Option<GeometrySceneID> {
        if self.attached_ids().contains(GeometrySceneID(reported_geometry_id)) {
            Some(GeometrySceneID(reported_geometry_id))
        } else {
            None
        }
    }

    /// Interprets the geometry identifier a native single-ray query against
    /// this scene reported in its hit record: a hit exactly when the
    /// identifier belongs to this scene's attached set, no hit for the
    /// sentinel or for an identifier from outside the scene.
    pub fn intersect(&self, reported_geometry_id: u32) -> (r: Option<GeometrySceneID>)
        ensures
            r == self.spec_hit(reported_geometry_id),
    {
        let candidate = GeometrySceneID(reported_geometry_id);
        let mut k: usize = 0;
        while k < self.attached.len()
            invariant
                k <= self.attached.len(),
                candidate == GeometrySceneID(reported_geometry_id),
                forall|j: int| 0 <= j < k ==> self.attached@[j] != candidate,
            decreases self.attached.len() - k,
        {
            if self.attached[k] == candidate {
                proof {
                    assert(self.attached_ids().contains(candidate));
                }
                return Some(candidate);
            }
            k = k + 1;
        }
        proof {
            assert(!self.attached_ids().contains(candidate)) by {
                if self.attached_ids().contains(candidate) {
                    let j = choose|j: int|
                        0 <= j < self.attached@.len() && self.attached@[j] == candidate;
                    assert(self.attached@[j] != candidate);
                }
            }
        }
        None
    }
}

impl Scene {
    /// Whether the scene has made its one-way transition.
    pub open spec fn is_committed(self) -> bool {
        self matches Scene::Committed(_)
    }

    /// The raw native scene handle, whatever the state.
    pub open spec fn raw(self) -> u64 {
        match self {
            Scene::Uncommitted(s) => s.raw(),
            Scene::Committed(s) => s.raw(),
        }
    }

    /// The scene-local identifiers attached so far.
    pub open spec fn attached_ids(self) -> Seq<GeometrySceneID> {
        match self {
            Scene::Uncommitted(s) => s.attached_ids(),
            Scene::Committed(s) => s.attached_ids(),
        }
    }

    /// A scene always owns a non-null handle.
    pub open spec fn inv(self) -> bool {
        self.raw() != 0
    }
}

} // verus!
