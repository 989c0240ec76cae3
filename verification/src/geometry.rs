//! Geometries: immutable owners of native geometry handles, variant over
//! the primitive kind they were built from.

use vstd::prelude::*;

use crate::device::ResourceError;
use crate::registry::StableID;

verus! {

/// Stable identifier of a geometry stored in the manager's registry.
#[derive(Clone, Copy, Debug, PartialEq, Eq, PartialOrd, Ord, Hash, Structural)]
pub struct GeometryID(pub StableID);

/// The three indices into the vertex buffer that form one triangle.
#[derive(Debug, Clone, Copy, PartialEq, Eq, PartialOrd, Structural)]
pub struct Triangle {
    pub i0: u32,
    pub i1: u32,
    pub i2: u32,
}

impl Triangle {
    pub fn new(i0: u32, i1: u32, i2: u32) -> (t: Triangle)
        ensures
            t.i0 == i0,
            t.i1 == i1,
            t.i2 == i2,
    {
        Triangle { i0, i1, i2 }
    }
}

/// Triangle-mesh geometry: owns one native geometry handle, built from the
/// recorded number of vertices and triangles. Immutable once constructed;
/// the native buffer fill and commit happen at construction time, outside
/// this layer.
#[derive(Debug)]
pub struct GeometryTriangle {
    geometry: u64,
    n_verts: usize,
    n_triangles: usize,
}

impl GeometryTriangle {
    /// The raw native geometry handle.
    pub closed spec fn raw(self) -> u64 {
        self.geometry
    }

    /// How many vertices the geometry was built from.
    pub closed spec fn vert_count(self) -> usize {
        self.n_verts
    }

    /// How many triangles the geometry was built from.
    pub closed spec fn triangle_count(self) -> usize {
        self.n_triangles
    }

    /// A geometry always owns a non-null handle.
    pub open spec fn inv(self) -> bool {
        self.raw() != 0
    }

    /// Takes ownership of a committed native triangle-mesh handle built
    /// from `n_verts` vertices and `n_triangles` triangles. A null handle
    /// is an engine-level allocation failure and is rejected.
    pub fn new(raw_geometry: u64, n_verts: usize, n_triangles: usize) -> (r: Result<
        GeometryTriangle,
        ResourceError,
    >)
        ensures
            match r {
                Ok(g) => {
                    &&& raw_geometry != 0
                    &&& g.raw() == raw_geometry
                    &&& g.vert_count() == n_verts
                    &&& g.triangle_count() == n_triangles
                },
                Err(e) => raw_geometry == 0 && e == ResourceError::NullHandle,
            },
    {
        if raw_geometry == 0 {
            Err(ResourceError::NullHandle)
        } else {
            Ok(GeometryTriangle { geometry: raw_geometry, n_verts, n_triangles })
        }
    }

    /// The raw native geometry handle, for handing to engine calls.
    pub fn get_geometry(&self) -> (h: u64)
        ensures
            h == self.raw(),
    {
        self.geometry
    }
}

/// Sphere-set geometry: owns one native geometry handle, built from the
/// recorded number of spheres. Immutable once constructed.
#[derive(Debug)]
pub struct GeometrySphere {
    geometry: u64,
    n_spheres: usize,
}

impl GeometrySphere {
    /// The raw native geometry handle.
    pub closed spec fn raw(self) -> u64 {
        self.geometry
    }

    /// How many spheres the geometry was built from.
    pub closed spec fn sphere_count(self) -> usize {
        self.n_spheres
    }

    /// A geometry always owns a non-null handle.
    pub open spec fn inv(self) -> bool {
        self.raw() != 0
    }

    /// Takes ownership of a committed native sphere-set handle built from
    /// `n_spheres` spheres. A null handle is rejected.
    pub fn new(raw_geometry: u64, n_spheres: usize) -> (r: Result<GeometrySphere, ResourceError>)
        ensures
            match r {
                Ok(g) => {
                    &&& raw_geometry != 0
                    &&& g.raw() == raw_geometry
                    &&& g.sphere_count() == n_spheres
                },
                Err(e) => raw_geometry == 0 && e == ResourceError::NullHandle,
            },
    {
        if raw_geometry == 0 {
            Err(ResourceError::NullHandle)
        } else {
            Ok(GeometrySphere { geometry: raw_geometry, n_spheres })
        }
    }

    /// The raw native geometry handle, for handing to engine calls.
    pub fn get_geometry(&self) -> (h: u64)
        ensures
            h == self.raw(),
    {
        self.geometry
    }
}

/// A geometry of either primitive kind.
#[derive(Debug)]
pub enum Geometry {
    Triangle(GeometryTriangle),
    Sphere(GeometrySphere),
}

impl Geometry {
    /// The raw native geometry handle, whatever the kind.
    pub open spec fn raw(self) -> u64 {
        match self {
            Geometry::Triangle(g) => g.raw(),
            Geometry::Sphere(g) => g.raw(),
        }
    }

    /// A geometry always owns a non-null handle.
    pub open spec fn inv(self) -> bool {
        self.raw() != 0
    }

    /// The raw native geometry handle, for handing to engine calls.
    pub fn get_geometry(&self) -> (h: u64)
        ensures
            h == self.raw(),
    {
        match self {
            Geometry::Triangle(g) => g.get_geometry(),
            Geometry::Sphere(g) => g.get_geometry(),
        }
    }
}

} // verus!
