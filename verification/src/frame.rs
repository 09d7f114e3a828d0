//! The output model: a frame is a sized canvas of positioned items, a
//! fragment is the ordered list of frames one layout call produced.

use vstd::prelude::*;
use crate::geom::{Point, Size};

verus! {

/// A single drawable item placed in a frame.
#[derive(Clone, Copy, PartialEq, Eq, Structural, Debug)]
pub enum FrameItem {
    /// An in-flow block of the given size.
    Block(Size),
    /// An out-of-flow placed item of the given size.
    Placed(Size),
}

/// The mathematical model of a frame.
#[verifier::ext_equal]
pub ghost struct GFrame {
    /// The frame's extent.
    pub size: Size,
    /// The positioned items, in placement order.
    pub items: Seq<(Point, FrameItem)>,
}

/// A sized canvas of positioned items: one region's worth of output.
#[derive(Debug)]
pub struct Frame {
    /// The frame's extent.
    pub size: Size,
    /// The positioned items, in placement order.
    pub items: Vec<(Point, FrameItem)>,
}

impl View for Frame {
    type V = GFrame;

    open spec fn view(&self) -> GFrame {
        GFrame { size: self.size, items: self.items@ }
    }
}

impl Frame {
    /// A structurally identical copy of this frame.
    pub fn duplicate(&self) -> (r: Frame)
        ensures
            r@ == self@,
    {
        let n = self.items.len();
        let mut items: Vec<(Point, FrameItem)> = Vec::new();
        let mut i: usize = 0;
        while i < n
            invariant
                n == self.items@.len(),
                i == items@.len(),
                i <= n,
                forall|j: int| 0 <= j < i ==> items@[j] == self.items@[j],
            decreases n - i,
        {
            let it = self.items[i];
            items.push(it);
            i += 1;
        }
        proof {
            assert(items@ =~= self.items@);
        }
        Frame { size: self.size, items }
    }

    /// Structural equality of two frames.
    pub fn matches(&self, other: &Frame) -> (r: bool)
        ensures
            r == (self@ == other@),
    {
        if self.size != other.size || self.items.len() != other.items.len() {
            return false;
        }
        let n = self.items.len();
        let mut i: usize = 0;
        while i < n
            invariant
                n == self.items@.len() == other.items@.len(),
                i <= n,
                self.size == other.size,
                forall|j: int| 0 <= j < i ==> self.items@[j] == other.items@[j],
            decreases n - i,
        {
            let x = self.items[i];
            let y = other.items[i];
            if x.0 != y.0 || x.1 != y.1 {
                return false;
            }
            i += 1;
        }
        proof {
            assert(self.items@ =~= other.items@);
        }
        true
    }
}

/// The ordered sequence of frames produced by one layout call; the frame at
/// index `i` was laid into the `i`-th region consumed.
#[derive(Debug)]
pub struct Fragment {
    /// The produced frames, one per region consumed.
    pub frames: Vec<Frame>,
}

impl View for Fragment {
    type V = Seq<GFrame>;

    open spec fn view(&self) -> Seq<GFrame> {
        self.frames@.map_values(|f: Frame| f@)
    }
}

impl Fragment {
    /// A structurally identical copy of this fragment.
    pub fn duplicate(&self) -> (r: Fragment)
        ensures
            r@ == self@,
    {
        let n = self.frames.len();
        let mut frames: Vec<Frame> = Vec::new();
        let mut i: usize = 0;
        while i < n
            invariant
                n == self.frames@.len(),
                i == frames@.len(),
                i <= n,
                forall|j: int| 0 <= j < i ==> frames@[j]@ == self.frames@[j]@,
            decreases n - i,
        {
            let f = self.frames[i].duplicate();
            frames.push(f);
            i += 1;
        }
        let r = Fragment { frames };
        proof {
            assert(r@ =~= self@);
        }
        r
    }

    /// The number of frames produced.
    pub fn len(&self) -> (r: usize)
        ensures
            r == self@.len(),
    {
        self.frames.len()
    }

    /// Structural equality of two fragments.
    pub fn matches(&self, other: &Fragment) -> (r: bool)
        ensures
            r == (self@ == other@),
    {
        proof {
            assert(self@.len() == self.frames@.len());
            assert(other@.len() == other.frames@.len());
        }
        if self.frames.len() != other.frames.len() {
            return false;
        }
        let n = self.frames.len();
        let mut i: usize = 0;
        while i < n
            invariant
                n == self.frames@.len() == other.frames@.len(),
                i <= n,
                forall|j: int| 0 <= j < i ==> self.frames@[j]@ == other.frames@[j]@,
            decreases n - i,
        {
            if !self.frames[i].matches(&other.frames[i]) {
                proof {
                    assert(self@[i as int] != other@[i as int]);
                }
                return false;
            }
            i += 1;
        }
        proof {
            assert(self@ =~= other@);
        }
        true
    }
}

} // verus!
