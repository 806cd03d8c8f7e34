//! World-space triangles and the session's triangle set.

use vstd::prelude::*;

verus! {

/// One 3D point. Each coordinate is carried as an opaque 32-bit word: the
/// host encodes its scalar (for instance the bit pattern of a
/// single-precision value) and decodes it back unchanged. This core never
/// computes on coordinates; it only moves them, so the encoding is the
/// host's to choose.
#[derive(Clone, Copy, Debug, PartialEq, Eq, Structural)]
pub struct Point {
    pub x: u32,
    pub y: u32,
    pub z: u32,
}

impl Point {
    pub fn new(x: u32, y: u32, z: u32) -> (r: Self)
        ensures
            r == (Point { x, y, z }),
    {
        Point { x, y, z }
    }
}

/// One mesh triangle: three ordered corners. The corner order (the winding)
/// determines the facing direction for backface culling and is never
/// reordered.
#[derive(Clone, Copy, Debug, PartialEq, Eq, Structural)]
pub struct Triangle {
    pub point_a: Point,
    pub point_b: Point,
    pub point_c: Point,
}

impl Triangle {
    pub fn new(point_a: Point, point_b: Point, point_c: Point) -> (r: Self)
        ensures
            r == (Triangle { point_a, point_b, point_c }),
    {
        Triangle { point_a, point_b, point_c }
    }

    pub fn as_tuple(&self) -> (r: (Point, Point, Point))
        ensures
            r == (self.point_a, self.point_b, self.point_c),
    {
        (self.point_a, self.point_b, self.point_c)
    }

    pub fn a(&self) -> (r: Point)
        ensures
            r == self.point_a,
    {
        self.point_a
    }

    pub fn b(&self) -> (r: Point)
        ensures
            r == self.point_b,
    {
        self.point_b
    }

    pub fn c(&self) -> (r: Point)
        ensures
            r == self.point_c,
    {
        self.point_c
    }
}

/// All triangles extracted for the session: an append-only ordered
/// collection, created empty and populated once per asset by extraction.
#[derive(Debug)]
pub struct Triangles {
    pub triangles: Vec<Triangle>,
}

impl Triangles {
    pub fn new() -> (r: Self)
        ensures
            r.triangles@ == Seq::<Triangle>::empty(),
    {
        Triangles { triangles: Vec::new() }
    }

    pub fn add_triangle(&mut self, triangle: Triangle)
        ensures
            final(self).triangles@ == old(self).triangles@.push(triangle),
    {
        self.triangles.push(triangle);
    }

    pub fn get_triangles(&self) -> (r: &Vec<Triangle>)
        ensures
            r@ == self.triangles@,
    {
        &self.triangles
    }
}

} // verus!
