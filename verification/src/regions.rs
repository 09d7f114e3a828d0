//! Regions: one or more successive spaces available for placing content.

use vstd::prelude::*;
use crate::geom::{Size, Spec};

verus! {

/// The mathematical model of a region list: the current region's extent,
/// the per-axis exact/auto sizing policy, the backlog of subsequent regions,
/// and the optional infinitely repeating terminal region.
#[verifier::ext_equal]
pub ghost struct GRegions {
    /// The extent of the current region.
    pub size: Size,
    /// Per axis: whether produced frames are padded to the exact region
    /// extent (`true`) or shrink to fit the content (`false`).
    pub expand: Spec<bool>,
    /// The extents of the regions that follow the current one.
    pub backlog: Seq<Size>,
    /// If set, the terminal region repeats indefinitely with this extent.
    pub last: Option<Size>,
}

impl GRegions {
    /// Every extent is well-formed.
    pub open spec fn wf(self) -> bool {
        &&& self.size.wf()
        &&& forall|i: int| 0 <= i < self.backlog.len() ==> self.backlog[i].wf()
        &&& (self.last is Some ==> self.last.unwrap().wf())
    }

    /// Whether a region remains after the current one.
    pub open spec fn has_next(self) -> bool {
        self.backlog.len() > 0 || self.last is Some
    }

    /// The region list after advancing past the current region: pop the
    /// backlog, or repeat the terminal region.
    pub open spec fn advance(self) -> GRegions {
        if self.backlog.len() > 0 {
            GRegions { size: self.backlog[0], backlog: self.backlog.drop_first(), ..self }
        } else {
            GRegions { size: self.last.unwrap(), ..self }
        }
    }
}

/// Describes a sequence of regions to layout content into: the current
/// region, a backlog of following regions, and an optional repeating
/// terminal region (a steady-state page template). Pure data plus a cursor.
#[derive(Debug)]
pub struct Regions {
    /// The extent of the current region.
    pub size: Size,
    /// Per axis: pad produced frames to the exact region extent, or shrink
    /// them to fit the content.
    pub expand: Spec<bool>,
    backlog: Vec<Size>,
    cursor: usize,
    /// If set, the terminal region repeats indefinitely with this extent.
    pub last: Option<Size>,
}

impl View for Regions {
    type V = GRegions;

    closed spec fn view(&self) -> GRegions {
        GRegions {
            size: self.size,
            expand: self.expand,
            backlog: self.backlog@.skip(self.cursor as int),
            last: self.last,
        }
    }
}

impl Regions {
    /// The cursor never runs past the backlog.
    pub closed spec fn inv(self) -> bool {
        self.cursor <= self.backlog@.len()
    }

    /// Create a region list from the first region, the sizing policy, the
    /// backlog, and the optional repeating terminal region.
    pub fn new(size: Size, expand: Spec<bool>, backlog: Vec<Size>, last: Option<Size>) -> (r:
        Regions)
        ensures
            r.inv(),
            r@ == (GRegions { size, expand, backlog: backlog@, last }),
    {
        let r = Regions { size, expand, backlog, cursor: 0, last };
        proof {
            assert(r@.backlog =~= r.backlog@);
            assert(r@ =~= (GRegions { size, expand, backlog: r.backlog@, last }));
        }
        r
    }

    /// Create a single region with no continuation.
    pub fn one(size: Size, expand: Spec<bool>) -> (r: Regions)
        ensures
            r.inv(),
            r@ == (GRegions { size, expand, backlog: Seq::empty(), last: None }),
    {
        let r = Regions::new(size, expand, Vec::new(), None);
        proof {
            assert(r@.backlog =~= Seq::<Size>::empty());
            assert(r@ =~= (GRegions { size, expand, backlog: Seq::empty(), last: None }));
        }
        r
    }

    /// Create a region that repeats itself indefinitely.
    pub fn repeat(size: Size, expand: Spec<bool>) -> (r: Regions)
        ensures
            r.inv(),
            r@ == (GRegions { size, expand, backlog: Seq::empty(), last: Some(size) }),
    {
        let r = Regions::new(size, expand, Vec::new(), Some(size));
        proof {
            assert(r@.backlog =~= Seq::<Size>::empty());
            assert(r@ =~= (GRegions { size, expand, backlog: Seq::empty(), last: Some(size) }));
        }
        r
    }

    /// The extent of the current region.
    pub fn current(&self) -> (r: Size)
        ensures
            r == self@.size,
    {
        self.size
    }

    /// The per-axis sizing policy.
    pub fn sizing(&self) -> (r: Spec<bool>)
        ensures
            r == self@.expand,
    {
        self.expand
    }

    /// Whether a region remains after the current one.
    pub fn has_next(&self) -> (r: bool)
        requires
            self.inv(),
        ensures
            r == self@.has_next(),
    {
        self.cursor < self.backlog.len() || self.last.is_some()
    }

    /// Advance to the next region: pop the backlog or repeat the terminal
    /// region.
    pub fn next(&mut self)
        requires
            old(self).inv(),
            old(self)@.has_next(),
        ensures
            final(self).inv(),
            final(self)@ == old(self)@.advance(),
    {
        if self.cursor < self.backlog.len() {
            self.size = self.backlog[self.cursor];
            self.cursor = self.cursor + 1;
            proof {
                assert(self@.backlog =~= old(self)@.backlog.drop_first());
                assert(self@ =~= old(self)@.advance());
            }
        } else {
            self.size = match self.last {
                Some(s) => s,
                None => self.size,
            };
            proof {
                assert(self@.backlog =~= old(self)@.backlog);
                assert(self@ =~= old(self)@.advance());
            }
        }
    }

    /// The number of regions still in the backlog.
    pub fn backlog_len(&self) -> (r: usize)
        requires
            self.inv(),
        ensures
            r == self@.backlog.len(),
    {
        self.backlog.len() - self.cursor
    }

    /// A structurally identical copy of this region list.
    pub fn duplicate(&self) -> (r: Regions)
        requires
            self.inv(),
        ensures
            r.inv(),
            r@ == self@,
    {
        let n = self.backlog.len();
        let mut backlog: Vec<Size> = Vec::new();
        let mut i: usize = self.cursor;
        while i < n
            invariant
                n == self.backlog@.len(),
                self.cursor <= i <= n,
                backlog@.len() == i - self.cursor,
                forall|j: int| 0 <= j < backlog@.len() ==> backlog@[j] == self.backlog@[
                    j + self.cursor
                ],
            decreases n - i,
        {
            let s = self.backlog[i];
            backlog.push(s);
            i += 1;
        }
        let r = Regions { size: self.size, expand: self.expand, backlog, cursor: 0, last: self.last };
        proof {
            assert(r@.backlog =~= self@.backlog);
            assert(r@ =~= self@);
        }
        r
    }

    /// Structural equality of two region lists.
    pub fn matches(&self, other: &Regions) -> (r: bool)
        requires
            self.inv(),
            other.inv(),
        ensures
            r == (self@ == other@),
    {
        if self.size != other.size {
            return false;
        }
        if self.expand.x != other.expand.x || self.expand.y != other.expand.y {
            return false;
        }
        match (self.last, other.last) {
            (Some(a), Some(b)) => {
                if a != b {
                    return false;
                }
            },
            (None, None) => {},
            _ => {
                return false;
            },
        }
        let n1 = self.backlog_len();
        let n2 = other.backlog_len();
        if n1 != n2 {
            return false;
        }
        let len1 = self.backlog.len();
        let len2 = other.backlog.len();
        let base1 = self.cursor;
        let base2 = other.cursor;
        let mut i: usize = 0;
        while i < n1
            invariant
                self.inv(),
                other.inv(),
                n1 == self@.backlog.len() == other@.backlog.len(),
                len1 == self.backlog@.len(),
                len2 == other.backlog@.len(),
                base1 == self.cursor,
                base2 == other.cursor,
                base1 + n1 == len1,
                base2 + n1 == len2,
                i <= n1,
                forall|j: int| 0 <= j < i ==> self@.backlog[j] == other@.backlog[j],
            decreases n1 - i,
        {
            let a = self.backlog[base1 + i];
            let b = other.backlog[base2 + i];
            if a != b {
                proof {
                    assert(self@.backlog[i as int] != other@.backlog[i as int]);
                }
                return false;
            }
            i += 1;
        }
        proof {
            assert(self@.backlog =~= other@.backlog);
            assert(self@ =~= other@);
        }
        true
    }
}

} // verus!
