//! The top-level manager: owns the device, the scene and geometry
//! registries, and the identity map, and enforces valid call ordering
//! between them.

use vstd::prelude::*;

use crate::device::{Device, ResourceError};
use crate::geometry::{Geometry, GeometryID, GeometrySphere, GeometryTriangle};
use crate::identity::{GeometrySceneID, IdentityMap, INVALID_GEOMETRY_ID};
use crate::registry::{self, Registry, StableID};
use crate::scene::{Scene, SceneID, SceneUncommitted};

verus! {

/// Manager for one native engine context: scenes and geometries are
/// created through it and addressed by the stable identifiers its
/// registries issue; engine-assigned scene-local identifiers are recorded
/// in its identity map and translated back on request.
pub struct Embree {
    device: Device,
    scenes: Registry<Scene>,
    geometries: Registry<Geometry>,
    /// Map from GeometrySceneID to GeometryID, for when the engine reports
    /// the scene-local identifier but the caller must be handed the stable
    /// one.
    geometry_id_map: IdentityMap,
}

impl Embree {
    /// The owned device.
    pub closed spec fn spec_device(self) -> Device {
        self.device
    }

    /// The scene registry, as a map from stable identifiers to scenes.
    pub closed spec fn spec_scenes(self) -> Map<StableID, Scene> {
        self.scenes@
    }

    /// Every stable scene identifier ever issued.
    pub closed spec fn spec_scene_ids_issued(self) -> Set<StableID> {
        self.scenes.issued_ids()
    }

    /// The geometry registry, as a map from stable identifiers to
    /// geometries.
    pub closed spec fn spec_geometries(self) -> Map<StableID, Geometry> {
        self.geometries@
    }

    /// Every stable geometry identifier ever issued.
    pub closed spec fn spec_geometry_ids_issued(self) -> Set<StableID> {
        self.geometries.issued_ids()
    }

    /// The identity map, as a map from engine-assigned scene-local
    /// identifiers to stable geometry identifiers.
    pub closed spec fn spec_id_map(self) -> Map<u32, GeometryID> {
        self.geometry_id_map@
    }

    /// Well-formedness: the registries are consistent; every recorded
    /// scene-local identifier is not the sentinel and points at a live
    /// geometry; every identifier attached to any scene has been recorded;
    /// and every owned handle is non-null.
    pub closed spec fn inv(self) -> bool {
        &&& self.scenes.inv()
        &&& self.geometries.inv()
        &&& self.device.inv()
        &&& forall|gsid: u32|
            #[trigger] self.geometry_id_map@.contains_key(gsid) ==> {
                &&& gsid != INVALID_GEOMETRY_ID
                &&& self.geometries@.contains_key(self.geometry_id_map@[gsid].0)
            }
        &&& forall|sid: StableID, gsid: GeometrySceneID|
            self.scenes@.contains_key(sid) && #[trigger] self.scenes@[sid].attached_ids().contains(
                gsid,
            ) ==> self.geometry_id_map@.contains_key(gsid.0)
        &&& forall|sid: StableID|
            #[trigger] self.scenes@.contains_key(sid) ==> self.scenes@[sid].inv()
        &&& forall|gid: StableID|
            #[trigger] self.geometries@.contains_key(gid) ==> self.geometries@[gid].inv()
    }

    /// A fresh manager around an already-created device: no scenes, no
    /// geometries, nothing recorded.
    pub fn new(device: Device) -> (e: Embree)
        requires
            device.inv(),
        ensures
            e.inv(),
            e.spec_device() == device,
            e.spec_scenes() == Map::<StableID, Scene>::empty(),
            e.spec_geometries() == Map::<StableID, Geometry>::empty(),
            e.spec_id_map() == Map::<u32, GeometryID>::empty(),
    {
        Embree {
            device,
            scenes: Registry::new(),
            geometries: Registry::new(),
            geometry_id_map: IdentityMap::new(),
        }
    }

    /// Adds a new, uncommitted scene wrapping the raw scene handle the
    /// native engine allocated against this manager's device, and returns
    /// the fresh stable identifier it is stored under. A null handle is an
    /// engine-level allocation failure, surfaced as an error with the
    /// manager untouched.
    pub fn add_scene(&mut self, raw_scene: u64) -> (r: Result<SceneID, ResourceError>)
        requires
            old(self).inv(),
        ensures
            final(self).inv(),
            final(self).spec_device() == old(self).spec_device(),
            final(self).spec_geometries() == old(self).spec_geometries(),
            final(self).spec_id_map() == old(self).spec_id_map(),
            match r {
                Ok(scene_id) => {
                    &&& raw_scene != 0
                    &&& !old(self).spec_scene_ids_issued().contains(scene_id.0)
                    &&& final(self).spec_scene_ids_issued() == old(
                        self,
                    ).spec_scene_ids_issued().insert(scene_id.0)
                    &&& final(self).spec_scenes() == old(self).spec_scenes().insert(
                        scene_id.0,
                        final(self).spec_scenes()[scene_id.0],
                    )
                    &&& !final(self).spec_scenes()[scene_id.0].is_committed()
                    &&& final(self).spec_scenes()[scene_id.0].raw() == raw_scene
                    &&& final(self).spec_scenes()[scene_id.0].attached_ids() == Seq::<
                        GeometrySceneID,
                    >::empty()
                },
                Err(e) => {
                    &&& raw_scene == 0
                    &&& e == ResourceError::NullHandle
                    &&& *final(self) == *old(self)
                },
            },
    {
        match SceneUncommitted::new(raw_scene) {
            Ok(scene) => {
                let id = self.scenes.insert(Scene::Uncommitted(scene));
                proof {
                    self.lemma_inv_after_scene_insert(*old(self), id);
                }
                Ok(SceneID(id))
            },
            Err(e) => Err(e),
        }
    }

    /// Adds a triangle-mesh geometry wrapping the committed native handle
    /// the engine built from `n_verts` vertices and `n_triangles`
    /// triangles, and returns the fresh stable identifier it is stored
    /// under. A null handle is an engine-level allocation failure,
    /// surfaced as an error with the manager untouched.
    pub fn add_geometry_triangle(&mut self, raw_geometry: u64, n_verts: usize, n_triangles: usize)
        -> (r: Result<GeometryID, ResourceError>)
        requires
            old(self).inv(),
        ensures
            final(self).inv(),
            final(self).spec_device() == old(self).spec_device(),
            final(self).spec_scenes() == old(self).spec_scenes(),
            final(self).spec_id_map() == old(self).spec_id_map(),
            match r {
                Ok(geometry_id) => {
                    &&& raw_geometry != 0
                    &&& !old(self).spec_geometry_ids_issued().contains(geometry_id.0)
                    &&& final(self).spec_geometry_ids_issued() == old(
                        self,
                    ).spec_geometry_ids_issued().insert(geometry_id.0)
                    &&& final(self).spec_geometries() == old(self).spec_geometries().insert(
                        geometry_id.0,
                        final(self).spec_geometries()[geometry_id.0],
                    )
                    &&& (final(self).spec_geometries()[geometry_id.0] matches Geometry::Triangle(g)
                        && g.raw() == raw_geometry
                        && g.vert_count() == n_verts
                        && g.triangle_count() == n_triangles)
                },
                Err(e) => {
                    &&& raw_geometry == 0
                    &&& e == ResourceError::NullHandle
                    &&& *final(self) == *old(self)
                },
            },
    {
        match GeometryTriangle::new(raw_geometry, n_verts, n_triangles) {
            Ok(geometry) => {
                let id = self.geometries.insert(Geometry::Triangle(geometry));
                proof {
                    self.lemma_inv_after_geometry_insert(*old(self), id);
                }
                Ok(GeometryID(id))
            },
            Err(e) => Err(e),
        }
    }

    /// Adds a sphere-set geometry wrapping the committed native handle the
    /// engine built from `n_spheres` spheres, and returns the fresh stable
    /// identifier it is stored under. A null handle is an engine-level
    /// allocation failure, surfaced as an error with the manager untouched.
    pub fn add_geometry_sphere(&mut self, raw_geometry: u64, n_spheres: usize) -> (r: Result<
        GeometryID,
        ResourceError,
    >)
        requires
            old(self).inv(),
        ensures
            final(self).inv(),
            final(self).spec_device() == old(self).spec_device(),
            final(self).spec_scenes() == old(self).spec_scenes(),
            final(self).spec_id_map() == old(self).spec_id_map(),
            match r {
                Ok(geometry_id) => {
                    &&& raw_geometry != 0
                    &&& !old(self).spec_geometry_ids_issued().contains(geometry_id.0)
                    &&& final(self).spec_geometry_ids_issued() == old(
                        self,
                    ).spec_geometry_ids_issued().insert(geometry_id.0)
                    &&& final(self).spec_geometries() == old(self).spec_geometries().insert(
                        geometry_id.0,
                        final(self).spec_geometries()[geometry_id.0],
                    )
                    &&& (final(self).spec_geometries()[geometry_id.0] matches Geometry::Sphere(g)
                        && g.raw() == raw_geometry
                        && g.sphere_count() == n_spheres)
                },
                Err(e) => {
                    &&& raw_geometry == 0
                    &&& e == ResourceError::NullHandle
                    &&& *final(self) == *old(self)
                },
            },
    {
        match GeometrySphere::new(raw_geometry, n_spheres) {
            Ok(geometry) => {
                let id = self.geometries.insert(Geometry::Sphere(geometry));
                proof {
                    self.lemma_inv_after_geometry_insert(*old(self), id);
                }
                Ok(GeometryID(id))
            },
            Err(e) => Err(e),
        }
    }

    /// The manager's invariant survives inserting a well-formed geometry.
    proof fn lemma_inv_after_geometry_insert(self, pre: Self, id: StableID)
        requires
            pre.inv(),
            self.geometries.inv(),
            self.geometries@ == pre.geometries@.insert(id, self.geometries@[id]),
            self.geometries@.contains_key(id),
            self.geometries@[id].inv(),
            self.scenes == pre.scenes,
            self.geometry_id_map == pre.geometry_id_map,
            self.device == pre.device,
        ensures
            self.inv(),
    {
        assert forall|gid: StableID| #[trigger] self.geometries@.contains_key(gid) implies
            self.geometries@[gid].inv() by {
            if gid != id {
                assert(pre.geometries@.contains_key(gid));
            }
        }
    }

    /// Commits the scene of the given id and returns the new id of the
    /// scene. The one-way transition consumes the uncommitted value and
    /// stores a fresh committed one, so the scene's identity changes: the
    /// old identifier never resolves again. Committing an unknown, stale
    /// or already-committed scene is a contract violation, excluded here.
    /// The native build and handle retain happen outside this layer.
    #[must_use]
    pub fn commit_scene(&mut self, id: SceneID) -> (new_id: SceneID)
        requires
            old(self).inv(),
            old(self).spec_scenes().contains_key(id.0),
            !old(self).spec_scenes()[id.0].is_committed(),
        ensures
            final(self).inv(),
            final(self).spec_device() == old(self).spec_device(),
            final(self).spec_geometries() == old(self).spec_geometries(),
            final(self).spec_id_map() == old(self).spec_id_map(),
            new_id.0 != id.0,
            !old(self).spec_scene_ids_issued().contains(new_id.0),
            final(self).spec_scene_ids_issued() == old(self).spec_scene_ids_issued().insert(
                new_id.0,
            ),
            !final(self).spec_scenes().contains_key(id.0),
            final(self).spec_scenes() == old(self).spec_scenes().remove(id.0).insert(
                new_id.0,
                final(self).spec_scenes()[new_id.0],
            ),
            final(self).spec_scenes()[new_id.0].is_committed(),
            final(self).spec_scenes()[new_id.0].raw() == old(self).spec_scenes()[id.0].raw(),
            final(self).spec_scenes()[new_id.0].attached_ids() == old(self).spec_scenes()[
                id.0].attached_ids(),
    {
        proof {
            registry::lemma_live_ids_issued(self.scenes);
        }
        let removed = self.scenes.remove(id.0);
        match removed {
            Some(Scene::Uncommitted(scene)) => {
                let committed = scene.commit();
                let raw_new = self.scenes.insert(Scene::Committed(committed));
                proof {
                    self.lemma_inv_after_commit(*old(self), id.0, raw_new);
                }
                SceneID(raw_new)
            },
            Some(Scene::Committed(_)) => {
                proof {
                    assert(false);
                }
                id
            },
            None => {
                proof {
                    assert(false);
                }
                id
            },
        }
    }

    /// The manager's invariant survives replacing an uncommitted scene by
    /// a committed one with the same attached set, under a fresh
    /// identifier.
    proof fn lemma_inv_after_commit(self, pre: Self, removed_sid: StableID, new_sid: StableID)
        requires
            pre.inv(),
            pre.scenes@.contains_key(removed_sid),
            self.scenes.inv(),
            self.scenes@ == pre.scenes@.remove(removed_sid).insert(new_sid, self.scenes@[new_sid]),
            self.scenes@.contains_key(new_sid),
            self.scenes@[new_sid].inv(),
            self.scenes@[new_sid].attached_ids() == pre.scenes@[removed_sid].attached_ids(),
            self.geometries == pre.geometries,
            self.geometry_id_map == pre.geometry_id_map,
            self.device == pre.device,
        ensures
            self.inv(),
    {
        assert forall|sid: StableID, gsid: GeometrySceneID|
            self.scenes@.contains_key(sid) && #[trigger] self.scenes@[sid].attached_ids().contains(
                gsid,
            ) implies self.geometry_id_map@.contains_key(gsid.0) by {
            if sid == new_sid {
                assert(pre.scenes@[removed_sid].attached_ids().contains(gsid));
            } else {
                assert(pre.scenes@.contains_key(sid));
                assert(pre.scenes@[sid].attached_ids().contains(gsid));
            }
        }
        assert forall|sid: StableID| #[trigger] self.scenes@.contains_key(sid) implies
            self.scenes@[sid].inv() by {
            if sid != new_sid {
                assert(pre.scenes@.contains_key(sid));
            }
        }
    }

    /// Records that the native engine attached the geometry of
    /// `geometry_id` to the uncommitted scene of `scene_id`, under the
    /// fresh scene-local identifier `scene_local_id` the engine assigned
    /// for the attach. Attaching to an unknown or committed scene, with an
    /// unknown geometry, or under an already-recorded or sentinel
    /// scene-local identifier is a contract violation, excluded here.
    pub fn attach_geometry_to_scene(
        &mut self,
        geometry_id: GeometryID,
        scene_id: SceneID,
        scene_local_id: GeometrySceneID,
    )
        requires
            old(self).inv(),
            old(self).spec_scenes().contains_key(scene_id.0),
            !old(self).spec_scenes()[scene_id.0].is_committed(),
            old(self).spec_geometries().contains_key(geometry_id.0),
            !old(self).spec_id_map().contains_key(scene_local_id.0),
            scene_local_id.0 != INVALID_GEOMETRY_ID,
        ensures
            final(self).inv(),
            final(self).spec_device() == old(self).spec_device(),
            final(self).spec_geometries() == old(self).spec_geometries(),
            final(self).spec_scene_ids_issued() == old(self).spec_scene_ids_issued(),
            final(self).spec_id_map() == old(self).spec_id_map().insert(
                scene_local_id.0,
                geometry_id,
            ),
            final(self).spec_scenes() == old(self).spec_scenes().insert(
                scene_id.0,
                final(self).spec_scenes()[scene_id.0],
            ),
            !final(self).spec_scenes()[scene_id.0].is_committed(),
            final(self).spec_scenes()[scene_id.0].raw() == old(self).spec_scenes()[
                scene_id.0].raw(),
            final(self).spec_scenes()[scene_id.0].attached_ids() == old(self).spec_scenes()[
                scene_id.0].attached_ids().push(scene_local_id),
    {
        let updated: Option<Scene> = match self.scenes.get(scene_id.0) {
            Some(Scene::Uncommitted(scene)) => {
                let mut extended = scene.duplicate();
                proof {
                    assert(!extended.attached_ids().contains(scene_local_id)) by {
                        if old(self).spec_scenes()[scene_id.0].attached_ids().contains(
                            scene_local_id,
                        ) {
                            assert(old(self).spec_id_map().contains_key(scene_local_id.0));
                        }
                    }
                }
                extended.attach_geometry(scene_local_id);
                Some(Scene::Uncommitted(extended))
            },
            Some(Scene::Committed(_)) => {
                proof {
                    assert(false);
                }
                None
            },
            None => {
                proof {
                    assert(false);
                }
                None
            },
        };
        match updated {
            Some(scene) => {
                let _previous = self.scenes.replace(scene_id.0, scene);
                let fresh = self.geometry_id_map.record(scene_local_id, geometry_id);
                proof {
                    assert(fresh);
                    self.lemma_inv_after_attach(
                        *old(self),
                        scene_id.0,
                        scene_local_id,
                        geometry_id,
                    );
                }
            },
            None => {
                proof {
                    assert(false);
                }
            },
        }
    }

    /// The manager's invariant survives extending an uncommitted scene's
    /// attached set by a fresh, non-sentinel scene-local identifier while
    /// recording that identifier against a live geometry.
    proof fn lemma_inv_after_attach(
        self,
        pre: Self,
        sid: StableID,
        scene_local_id: GeometrySceneID,
        geometry_id: GeometryID,
    )
        requires
            pre.inv(),
            pre.scenes@.contains_key(sid),
            !pre.geometry_id_map@.contains_key(scene_local_id.0),
            scene_local_id.0 != INVALID_GEOMETRY_ID,
            pre.geometries@.contains_key(geometry_id.0),
            self.scenes.inv(),
            self.scenes@ == pre.scenes@.insert(sid, self.scenes@[sid]),
            self.scenes@.contains_key(sid),
            self.scenes@[sid].inv(),
            self.scenes@[sid].attached_ids() == pre.scenes@[sid].attached_ids().push(
                scene_local_id,
            ),
            self.geometry_id_map@ == pre.geometry_id_map@.insert(scene_local_id.0, geometry_id),
            self.geometries == pre.geometries,
            self.device == pre.device,
        ensures
            self.inv(),
    {
        assert forall|gsid: u32| #[trigger] self.geometry_id_map@.contains_key(gsid) implies {
            &&& gsid != INVALID_GEOMETRY_ID
            &&& self.geometries@.contains_key(self.geometry_id_map@[gsid].0)
        } by {
            if gsid != scene_local_id.0 {
                assert(pre.geometry_id_map@.contains_key(gsid));
            }
        }
        assert forall|sid2: StableID, gsid: GeometrySceneID|
            self.scenes@.contains_key(sid2) && #[trigger] self.scenes@[
                sid2].attached_ids().contains(gsid) implies self.geometry_id_map@.contains_key(
            gsid.0) by {
            if sid2 == sid {
                if gsid != scene_local_id {
                    let attached = self.scenes@[sid].attached_ids();
                    let j = choose|j: int| 0 <= j < attached.len() && attached[j] == gsid;
                    assert(pre.scenes@[sid].attached_ids()[j] == gsid);
                    assert(pre.scenes@[sid].attached_ids().contains(gsid));
                }
            } else {
                assert(pre.scenes@.contains_key(sid2));
                assert(pre.scenes@[sid2].attached_ids().contains(gsid));
            }
        }
        assert forall|sid2: StableID| #[trigger] self.scenes@.contains_key(sid2) implies
            self.scenes@[sid2].inv() by {
            if sid2 != sid {
                assert(pre.scenes@.contains_key(sid2));
            }
        }
    }

    /// What interpreting a reported geometry identifier against the scene
    /// of `scene_id` yields: the scene-local identifier when it belongs to
    /// that scene's attached set, nothing otherwise.
    pub open spec fn spec_hit(self, scene_id: SceneID, reported_geometry_id: u32) -> Option<
        GeometrySceneID,
    > {
        if self.spec_scenes()[scene_id.0].attached_ids().contains(
            GeometrySceneID(reported_geometry_id),
        ) {
            Some(GeometrySceneID(reported_geometry_id))
        } else {
            None
        }
    }

    /// Interprets the geometry identifier a native single-ray query
    /// against the committed scene of `scene_id` reported in its hit
    /// record: a hit exactly when the identifier was attached to that
    /// scene, no hit for the sentinel or an identifier from outside the
    /// scene. Every hit carries an identifier the identity map can
    /// resolve. Querying an unknown, stale or uncommitted scene is a
    /// contract violation, excluded here.
    pub fn intersect_scene(&self, scene_id: SceneID, reported_geometry_id: u32) -> (r: Option<
        GeometrySceneID,
    >)
        requires
            self.inv(),
            self.spec_scenes().contains_key(scene_id.0),
            self.spec_scenes()[scene_id.0].is_committed(),
        ensures
            r == self.spec_hit(scene_id, reported_geometry_id),
            (r matches Some(hit) ==> self.spec_id_map().contains_key(hit.0)),
    {
        match self.scenes.get(scene_id.0) {
            Some(Scene::Committed(scene)) => {
                let r = scene.intersect(reported_geometry_id);
                proof {
                    if r.is_some() {
                        assert(self.spec_scenes()[scene_id.0].attached_ids().contains(
                            GeometrySceneID(reported_geometry_id),
                        ));
                    }
                }
                r
            },
            Some(Scene::Uncommitted(_)) => {
                proof {
                    assert(false);
                }
                None
            },
            None => {
                proof {
                    assert(false);
                }
                None
            },
        }
    }

    /// Translates an engine-reported scene-local geometry identifier back
    /// to the stable identifier recorded for it at attach time, if any.
    pub fn get_geometry_id_from_geometry_scene_id(
        &self,
        geometry_scene_id: &GeometrySceneID,
    ) -> (r: Option<&GeometryID>)
        ensures
            match r {
                Some(stable_id) => self.spec_id_map().contains_key(geometry_scene_id.0)
                    && *stable_id == self.spec_id_map()[geometry_scene_id.0],
                None => !self.spec_id_map().contains_key(geometry_scene_id.0),
            },
    {
        self.geometry_id_map.resolve(geometry_scene_id)
    }

    /// Whether `scene_id` currently resolves to a scene.
    pub fn has_scene(&self, scene_id: SceneID) -> (b: bool)
        ensures
            b == self.spec_scenes().contains_key(scene_id.0),
    {
        self.scenes.contains(scene_id.0)
    }

    /// The lifecycle state of the scene `scene_id` resolves to, or nothing
    /// for an unknown or stale identifier.
    pub fn scene_is_committed(&self, scene_id: SceneID) -> (r: Option<bool>)
        ensures
            match r {
                Some(committed) => self.spec_scenes().contains_key(scene_id.0) && committed
                    == self.spec_scenes()[scene_id.0].is_committed(),
                None => !self.spec_scenes().contains_key(scene_id.0),
            },
    {
        match self.scenes.get(scene_id.0) {
            Some(Scene::Committed(_)) => Some(true),
            Some(Scene::Uncommitted(_)) => Some(false),
            None => None,
        }
    }

    /// Whether `geometry_id` currently resolves to a geometry.
    pub fn has_geometry(&self, geometry_id: GeometryID) -> (b: bool)
        ensures
            b == self.spec_geometries().contains_key(geometry_id.0),
    {
        self.geometries.contains(geometry_id.0)
    }

    /// Law: a committed scene answers queries exactly for its attached
    /// set. Whatever geometry identifier a query reports, interpretation
    /// yields a hit precisely when that identifier was attached to the
    /// scene before its commit, and every hit carries an identifier that
    /// the identity map resolves to the stable identifier of a live
    /// geometry.
    pub proof fn lemma_hits_match_attached_set(
        self,
        scene_id: SceneID,
        reported_geometry_id: u32,
    )
        requires
            self.inv(),
            self.spec_scenes().contains_key(scene_id.0),
            self.spec_scenes()[scene_id.0].is_committed(),
        ensures
            self.spec_hit(scene_id, reported_geometry_id) is Some <==> self.spec_scenes()[
                scene_id.0].attached_ids().contains(GeometrySceneID(reported_geometry_id)),
            self.spec_hit(scene_id, reported_geometry_id) matches Some(hit) ==> {
                &&& self.spec_id_map().contains_key(hit.0)
                &&& self.spec_geometries().contains_key(self.spec_id_map()[hit.0].0)
            },
    {
    }

    /// Law: an empty committed scene reports no hit: whatever geometry
    /// identifier a query against a scene with nothing attached comes
    /// back with, interpretation yields nothing.
    pub proof fn lemma_empty_scene_reports_no_hit(
        self,
        scene_id: SceneID,
        reported_geometry_id: u32,
    )
        requires
            self.inv(),
            self.spec_scenes().contains_key(scene_id.0),
            self.spec_scenes()[scene_id.0].is_committed(),
            self.spec_scenes()[scene_id.0].attached_ids().len() == 0,
        ensures
            self.spec_hit(scene_id, reported_geometry_id) is None,
    {
    }

    /// Law: the sentinel "no hit" identifier never denotes a hit against
    /// any scene: it is never attached, so interpretation always yields
    /// nothing for it.
    pub proof fn lemma_sentinel_never_hits(self, scene_id: SceneID)
        requires
            self.inv(),
            self.spec_scenes().contains_key(scene_id.0),
        ensures
            self.spec_hit(scene_id, INVALID_GEOMETRY_ID) is None,
    {
        if self.spec_scenes()[scene_id.0].attached_ids().contains(
            GeometrySceneID(INVALID_GEOMETRY_ID),
        ) {
            assert(self.spec_id_map().contains_key(INVALID_GEOMETRY_ID));
        }
    }

    /// Law: the attach round trip closes. Whenever an attach turned
    /// manager `pre` into `post`, recording `scene_local_id` for
    /// `geometry_id`, resolving `scene_local_id` through `post`'s identity
    /// map yields the original `geometry_id` again.
    pub proof fn lemma_attach_round_trip(
        pre: Self,
        post: Self,
        geometry_id: GeometryID,
        scene_local_id: GeometrySceneID,
    )
        requires
            post.spec_id_map() == pre.spec_id_map().insert(scene_local_id.0, geometry_id),
        ensures
            post.spec_id_map().contains_key(scene_local_id.0),
            post.spec_id_map()[scene_local_id.0] == geometry_id,
    {
    }

    /// The manager's invariant survives inserting a well-formed scene
    /// whose attached identifiers are all recorded.
    proof fn lemma_inv_after_scene_insert(self, pre: Self, id: StableID)
        requires
            pre.inv(),
            self.scenes.inv(),
            self.scenes@ == pre.scenes@.insert(id, self.scenes@[id]),
            self.scenes@.contains_key(id),
            self.scenes@[id].inv(),
            forall|gsid: GeometrySceneID|
                #[trigger] self.scenes@[id].attached_ids().contains(gsid)
                    ==> self.geometry_id_map@.contains_key(gsid.0),
            self.geometries == pre.geometries,
            self.geometry_id_map == pre.geometry_id_map,
            self.device == pre.device,
        ensures
            self.inv(),
    {
        assert forall|sid: StableID, gsid: GeometrySceneID|
            self.scenes@.contains_key(sid) && #[trigger] self.scenes@[sid].attached_ids().contains(
                gsid,
            ) implies self.geometry_id_map@.contains_key(gsid.0) by {
            if sid != id {
                assert(pre.scenes@.contains_key(sid));
                assert(pre.scenes@[sid].attached_ids().contains(gsid));
            }
        }
        assert forall|sid: StableID| #[trigger] self.scenes@.contains_key(sid) implies
            self.scenes@[sid].inv() by {
            if sid != id {
                assert(pre.scenes@.contains_key(sid));
            }
        }
    }
}

} // verus!
