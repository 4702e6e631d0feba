//! An append-only log of move and line segments.

use vstd::prelude::*;
use crate::primitives::IntPoint;

verus! {

/// One step of a path: relocate the cursor, or draw a line to a point.
#[derive(Clone, Copy, Debug, PartialEq, Eq, Structural)]
pub enum PathSegment {
    MoveTo(IntPoint),
    LineTo(IntPoint),
}

/// An ordered sequence of segments, in the order they were appended.
pub struct Path {
    segments: Vec<PathSegment>,
}

impl View for Path {
    type V = Seq<PathSegment>;

    closed spec fn view(&self) -> Seq<PathSegment> {
        self.segments@
    }
}

impl Clone for Path {
    fn clone(&self) -> (r: Self)
        ensures
            r@ == self@,
    {
        let mut segments: Vec<PathSegment> = Vec::new();
        let mut i: usize = 0;
        while i < self.segments.len()
            invariant
                i <= self.segments.len(),
                segments@ == self.segments@.subrange(0, i as int),
            decreases self.segments.len() - i,
        {
            segments.push(self.segments[i]);
            assert(segments@ =~= self.segments@.subrange(0, i + 1));
            i = i + 1;
        }
        assert(segments@ =~= self.segments@);
        Path { segments }
    }
}

impl Path {
    /// The empty path.
    pub fn new() -> (p: Self)
        ensures
            p@ == Seq::<PathSegment>::empty(),
    {
        Path { segments: Vec::new() }
    }

    /// Appends a cursor move to `pt`.
    pub fn move_to(&mut self, pt: &IntPoint)
        ensures
            final(self)@ == old(self)@.push(PathSegment::MoveTo(*pt)),
    {
        self.segments.push(PathSegment::MoveTo(*pt));
    }

    /// Appends a line from the cursor to `pt`.
    pub fn line_to(&mut self, pt: &IntPoint)
        ensures
            final(self)@ == old(self)@.push(PathSegment::LineTo(*pt)),
    {
        self.segments.push(PathSegment::LineTo(*pt));
    }

    /// Forgets every segment.
    pub fn clear(&mut self)
        ensures
            final(self)@ == Seq::<PathSegment>::empty(),
    {
        self.segments.clear();
    }

    /// The segments, oldest first.
    pub fn segments(&self) -> (s: &Vec<PathSegment>)
        ensures
            s@ == self@,
    {
        &self.segments
    }

    pub fn segment_count(&self) -> (n: usize)
        ensures
            n == self@.len(),
    {
        self.segments.len()
    }
}

} // verus!
