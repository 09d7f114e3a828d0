//! Flow layout: places an ordered sequence of block-level items down
//! successive regions, handling breaking, placed items, forced breaks, and
//! spacing collapse.

use vstd::prelude::*;
use crate::diag::{Diag, DiagKind};
use crate::frame::{Fragment, Frame, FrameItem, GFrame};
use crate::geom::{Length, Point, Size, MAX_UNITS};
use crate::regions::{GRegions, Regions};

verus! {

/// The height given to a paragraph line assembled from inline runs, in
/// layout units.
pub const LINE_HEIGHT: i64 = 14;

/// A canonical flow-level item, the output of realization and the input of
/// flow layout.
#[derive(Clone, Copy, PartialEq, Eq, Structural, Debug)]
pub enum FlowItem {
    /// Collapsible inter-block spacing.
    Spacing { amount: Length, span: u64 },
    /// A paragraph assembled from adjacent inline runs.
    Par { width: Length, span: u64 },
    /// A block-level box; breakable blocks may split across regions.
    Block { width: Length, height: Length, breakable: bool, span: u64 },
    /// A forced region break.
    Break { span: u64 },
    /// An out-of-flow item placed without consuming block space.
    Place { width: Length, height: Length, span: u64 },
    /// Forces resolution of pending placed items.
    Flush { span: u64 },
}

impl FlowItem {
    /// Well-formedness: every geometric field is a valid length.
    pub open spec fn wf(self) -> bool {
        match self {
            FlowItem::Spacing { amount, .. } => amount.wf(),
            FlowItem::Par { width, .. } => width.wf(),
            FlowItem::Block { width, height, .. } => width.wf() && height.wf(),
            FlowItem::Break { .. } => true,
            FlowItem::Place { width, height, .. } => width.wf() && height.wf(),
            FlowItem::Flush { .. } => true,
        }
    }
}

/// Every item of a flow is well-formed.
pub open spec fn flow_items_wf(items: Seq<FlowItem>) -> bool {
    forall|i: int| 0 <= i < items.len() ==> items[i].wf()
}

/// The gap an optional pending spacing contributes.
pub open spec fn spec_gap(spacing: Option<int>) -> int {
    match spacing {
        Some(a) => a,
        None => 0,
    }
}

/// Collapse a new spacing amount into the pending one: the gap becomes the
/// maximum of the two, never their sum.
pub open spec fn spec_collapse(spacing: Option<int>, amount: int) -> Option<int> {
    if spec_gap(spacing) > amount {
        Some(spec_gap(spacing))
    } else {
        Some(amount)
    }
}

/// The width an item occupies in a frame.
pub open spec fn item_width(it: FrameItem) -> int {
    match it {
        FrameItem::Block(s) => s.x.units as int,
        FrameItem::Placed(s) => s.x.units as int,
    }
}

/// The rightmost edge over all placed items, used to shrink-size a frame's
/// width; never negative.
pub open spec fn spec_max_right(items: Seq<(Point, FrameItem)>) -> int
    decreases items.len(),
{
    if items.len() == 0 {
        0
    } else {
        let (p, it) = items.last();
        let edge = p.x.units + item_width(it);
        let rest = spec_max_right(items.drop_last());
        if rest > edge {
            rest
        } else {
            edge
        }
    }
}

/// Pending out-of-flow items resolved at the given cursor position.
pub open spec fn resolve_pending(pending: Seq<Size>, used: int) -> Seq<(Point, FrameItem)> {
    pending.map_values(
        |s: Size| (Point { x: Length { units: 0 }, y: Length { units: used as i64 } },
        FrameItem::Placed(s)),
    )
}

/// Finalize the current region into a frame: resolve pending placed items,
/// then size the frame per axis — the exact region extent where that axis
/// expands, the content extent where it shrinks to fit.
pub open spec fn spec_finalize(
    regions: GRegions,
    used: int,
    pending: Seq<Size>,
    cur: Seq<(Point, FrameItem)>,
) -> GFrame {
    let all = cur + resolve_pending(pending, used);
    let w = if regions.expand.x {
        regions.size.x.units as int
    } else {
        spec_max_right(all)
    };
    let h = if regions.expand.y {
        regions.size.y.units as int
    } else {
        used
    };
    GFrame {
        size: Size { x: Length { units: w as i64 }, y: Length { units: h as i64 } },
        items: all,
    }
}

/// The in-progress state of flow layout over one region list.
#[verifier::ext_equal]
pub ghost struct FlowState {
    /// The regions not yet fully consumed; `regions.size` is the current one.
    pub regions: GRegions,
    /// Block space already consumed in the current region.
    pub used: int,
    /// Pending collapsible spacing, applied before the next block.
    pub spacing: Option<int>,
    /// Out-of-flow items waiting for a flush or for the region's end.
    pub pending: Seq<Size>,
    /// Items already placed in the current region.
    pub cur: Seq<(Point, FrameItem)>,
    /// Frames of the regions already finished.
    pub acc: Seq<GFrame>,
}

impl FlowState {
    /// The starting state for a region list.
    pub open spec fn init(regions: GRegions) -> FlowState {
        FlowState {
            regions,
            used: 0,
            spacing: None,
            pending: Seq::empty(),
            cur: Seq::empty(),
            acc: Seq::empty(),
        }
    }

    /// A state that has consumed nothing of its current region yet.
    pub open spec fn fresh(self) -> bool {
        self.used == 0 && self.spacing is None && self.cur.len() == 0 && self.pending.len() == 0
    }

    /// Termination rank: a fresh region admits strictly fewer retries.
    pub open spec fn rank(self) -> int {
        if self.fresh() {
            0
        } else {
            1
        }
    }

    /// The same region list with a fresh current region and one more
    /// finished frame.
    pub open spec fn next_region(self, frame: GFrame) -> FlowState {
        FlowState {
            regions: self.regions.advance(),
            used: 0,
            spacing: None,
            pending: Seq::empty(),
            cur: Seq::empty(),
            acc: self.acc.push(frame),
        }
    }
}

/// Termination helper: the height of the leading block, if any.
pub open spec fn first_block_h(items: Seq<FlowItem>) -> int {
    if items.len() == 0 {
        0
    } else {
        match items[0] {
            FlowItem::Block { height, .. } => if height.units > 0 {
                height.units as int
            } else {
                0
            },
            FlowItem::Par { .. } => LINE_HEIGHT + 1,
            _ => 0,
        }
    }
}

/// The meaning of flow layout: consume the items in document order down the
/// region list, producing one frame per region consumed.
pub open spec fn spec_flow(items: Seq<FlowItem>, st: FlowState) -> Result<Seq<GFrame>, Diag>
    decreases items.len(), first_block_h(items), st.rank(),
{
    if items.len() == 0 {
        Ok(st.acc.push(spec_finalize(st.regions, st.used, st.pending, st.cur)))
    } else {
        let rest = items.drop_first();
        match items[0] {
            FlowItem::Spacing { amount, span } => spec_flow(
                rest,
                FlowState { spacing: spec_collapse(st.spacing, amount.units as int), ..st },
            ),
            FlowItem::Par { width, span } => spec_flow(
                items.update(
                    0,
                    FlowItem::Block {
                        width,
                        height: Length { units: LINE_HEIGHT },
                        breakable: true,
                        span,
                    },
                ),
                st,
            ),
            FlowItem::Block { width, height, breakable, span } => {
                let gap = spec_gap(st.spacing);
                let region_h = st.regions.size.y.units as int;
                let w = width.units as int;
                let h = height.units as int;
                if st.used + gap + h <= region_h {
                    // Fits fully: place it and debit the space.
                    let placed = (
                        Point { x: Length { units: 0 }, y: Length { units: (st.used + gap) as i64 } },
                        FrameItem::Block(Size { x: width, y: height }),
                    );
                    spec_flow(
                        rest,
                        FlowState {
                            used: st.used + gap + h,
                            spacing: None,
                            cur: st.cur.push(placed),
                            ..st
                        },
                    )
                } else if breakable && st.used + gap < region_h {
                    // Partially fits: place the fitting prefix and carry the
                    // remainder into the next region.
                    let part = region_h - st.used - gap;
                    let placed = (
                        Point { x: Length { units: 0 }, y: Length { units: (st.used + gap) as i64 } },
                        FrameItem::Block(Size { x: width, y: Length { units: part as i64 } }),
                    );
                    let frame = spec_finalize(
                        st.regions,
                        region_h,
                        st.pending,
                        st.cur.push(placed),
                    );
                    if !st.regions.has_next() {
                        Err(Diag { span, kind: DiagKind::RegionsExhausted })
                    } else {
                        spec_flow(
                            items.update(
                                0,
                                FlowItem::Block {
                                    width,
                                    height: Length { units: (h - part) as i64 },
                                    breakable: true,
                                    span,
                                },
                            ),
                            st.next_region(frame),
                        )
                    }
                } else if st.fresh() {
                    // Does not fit even in an untouched region: place it
                    // anyway and let it overflow rather than loop.
                    let placed = (
                        Point { x: Length { units: 0 }, y: Length { units: (st.used + gap) as i64 } },
                        FrameItem::Block(Size { x: width, y: height }),
                    );
                    spec_flow(
                        rest,
                        FlowState {
                            used: st.used + gap + h,
                            spacing: None,
                            cur: st.cur.push(placed),
                            ..st
                        },
                    )
                } else {
                    // Does not fit here: finish this region and retry the
                    // item at the top of the next one.
                    let frame = spec_finalize(st.regions, st.used, st.pending, st.cur);
                    if !st.regions.has_next() {
                        Err(Diag { span, kind: DiagKind::RegionsExhausted })
                    } else {
                        spec_flow(items, st.next_region(frame))
                    }
                }
            },
            FlowItem::Break { span } => {
                let frame = spec_finalize(st.regions, st.used, st.pending, st.cur);
                if rest.len() == 0 {
                    Ok(st.acc.push(frame))
                } else if !st.regions.has_next() {
                    Err(Diag { span, kind: DiagKind::RegionsExhausted })
                } else {
                    spec_flow(rest, st.next_region(frame))
                }
            },
            FlowItem::Place { width, height, span } => spec_flow(
                rest,
                FlowState { pending: st.pending.push(Size { x: width, y: height }), ..st },
            ),
            FlowItem::Flush { span } => spec_flow(
                rest,
                FlowState {
                    pending: Seq::empty(),
                    cur: st.cur + resolve_pending(st.pending, st.used),
                    ..st
                },
            ),
        }
    }
}

/// Every position and extent a flow state may hold stays well within the
/// arithmetic range of the implementation.
pub open spec fn cur_wf(cur: Seq<(Point, FrameItem)>) -> bool {
    forall|i: int| 0 <= i < cur.len() ==> {
        &&& 0 <= (#[trigger] cur[i]).0.x.units <= MAX_UNITS
        &&& 0 <= cur[i].0.y.units <= 2 * MAX_UNITS
        &&& 0 <= item_width(cur[i].1) <= MAX_UNITS
    }
}

/// Every pending placed item has a well-formed size.
pub open spec fn pending_wf(pending: Seq<Size>) -> bool {
    forall|i: int| 0 <= i < pending.len() ==> (#[trigger] pending[i]).wf()
}

/// The rightmost edge over all placed items.
fn max_right_of(items: &Vec<(Point, FrameItem)>) -> (r: i64)
    requires
        cur_wf(items@),
    ensures
        r == spec_max_right(items@),
        0 <= r <= 2 * MAX_UNITS,
{
    let n = items.len();
    let mut r: i64 = 0;
    let mut i: usize = 0;
    proof {
        assert(items@.take(0) =~= Seq::<(Point, FrameItem)>::empty());
    }
    while i < n
        invariant
            cur_wf(items@),
            n == items@.len(),
            i <= n,
            r == spec_max_right(items@.take(i as int)),
            0 <= r <= 2 * MAX_UNITS,
        decreases n - i,
    {
        let (p, it) = items[i];
        let w = match it {
            FrameItem::Block(s) => s.x.units,
            FrameItem::Placed(s) => s.x.units,
        };
        let edge = p.x.units + w;
        if edge > r {
            r = edge;
        }
        proof {
            assert(items@.take(i + 1).drop_last() =~= items@.take(i as int));
            assert(items@.take(i + 1).last() == items@[i as int]);
        }
        i += 1;
    }
    proof {
        assert(items@.take(n as int) =~= items@);
    }
    r
}

/// Finalize the current region into a frame.
fn finalize_frame(
    regions: &Regions,
    used: i64,
    pending: &Vec<Size>,
    cur: Vec<(Point, FrameItem)>,
) -> (f: Frame)
    requires
        regions.inv(),
        regions@.wf(),
        0 <= used <= MAX_UNITS,
        pending_wf(pending@),
        cur_wf(cur@),
    ensures
        f@ == spec_finalize(regions@, used as int, pending@, cur@),
{
    let m = pending.len();
    let mut all = cur;
    let ghost cur0 = all@;
    let mut i: usize = 0;
    while i < m
        invariant
            pending_wf(pending@),
            m == pending@.len(),
            i <= m,
            0 <= used <= MAX_UNITS,
            all@.len() == cur0.len() + i,
            all@.take(cur0.len() as int) =~= cur0,
            cur_wf(cur0),
            forall|j: int| 0 <= j < i ==> all@[cur0.len() + j] == (
                Point { x: Length { units: 0 }, y: Length { units: used } },
                FrameItem::Placed(pending@[j]),
            ),
        decreases m - i,
    {
        let s = pending[i];
        all.push((Point::new(Length::new(0), Length::new(used)), FrameItem::Placed(s)));
        i += 1;
    }
    proof {
        assert(all@ =~= cur0 + resolve_pending(pending@, used as int));
        assert(cur_wf(all@));
    }
    let w = if regions.sizing().x {
        regions.current().x.units
    } else {
        max_right_of(&all)
    };
    let h = if regions.sizing().y {
        regions.current().y.units
    } else {
        used
    };
    let f = Frame { size: Size::new(Length::new(w), Length::new(h)), items: all };
    proof {
        assert(f@ =~= spec_finalize(regions@, used as int, pending@, cur0));
    }
    f
}

/// The model of an executable flow result.
pub open spec fn frames_view(v: Seq<Frame>) -> Seq<GFrame> {
    v.map_values(|f: Frame| f@)
}

/// The spacing model of an optional executable spacing amount.
pub open spec fn opt_int(o: Option<i64>) -> Option<int> {
    match o {
        Some(a) => Some(a as int),
        None => None,
    }
}

/// One step of flow layout; consumes the remaining items and the running
/// state and returns the finished frames.
fn flow_core(
    items: Vec<FlowItem>,
    regions: Regions,
    used: i64,
    spacing: Option<i64>,
    pending: Vec<Size>,
    cur: Vec<(Point, FrameItem)>,
    acc: Vec<Frame>,
) -> (r: Result<Vec<Frame>, Diag>)
    requires
        flow_items_wf(items@),
        regions.inv(),
        regions@.wf(),
        0 <= used <= MAX_UNITS,
        (spacing is Some ==> 0 <= spacing.unwrap() <= MAX_UNITS),
        pending_wf(pending@),
        cur_wf(cur@),
    ensures
        (match r {
            Ok(v) => spec_flow(
                items@,
                FlowState {
                    regions: regions@,
                    used: used as int,
                    spacing: opt_int(spacing),
                    pending: pending@,
                    cur: cur@,
                    acc: frames_view(acc@),
                },
            ) == Ok::<Seq<GFrame>, Diag>(frames_view(v@)),
            Err(d) => spec_flow(
                items@,
                FlowState {
                    regions: regions@,
                    used: used as int,
                    spacing: opt_int(spacing),
                    pending: pending@,
                    cur: cur@,
                    acc: frames_view(acc@),
                },
            ) == Err::<Seq<GFrame>, Diag>(d),
        }),
    decreases items@.len(), first_block_h(items@), (FlowState {
        regions: regions@,
        used: used as int,
        spacing: opt_int(spacing),
        pending: pending@,
        cur: cur@,
        acc: frames_view(acc@),
    }).rank(),
{
    let ghost st = FlowState {
        regions: regions@,
        used: used as int,
        spacing: opt_int(spacing),
        pending: pending@,
        cur: cur@,
        acc: frames_view(acc@),
    };
    if items.len() == 0 {
        let f = finalize_frame(&regions, used, &pending, cur);
        let mut acc = acc;
        acc.push(f);
        proof {
            assert(frames_view(acc@) =~= st.acc.push(f@));
        }
        Ok(acc)
    } else {
        let it = items[0];
        match it {
            FlowItem::Spacing { amount, span } => {
                let g = match spacing {
                    Some(a) => a,
                    None => 0,
                };
                let a2 = if g > amount.units {
                    g
                } else {
                    amount.units
                };
                let mut items2 = items;
                items2.remove(0);
                proof {
                    assert(items2@ =~= items@.drop_first());
                    assert((FlowState { spacing: Some(a2 as int), ..st }) =~= (FlowState {
                        spacing: spec_collapse(st.spacing, amount.units as int),
                        ..st
                    }));
                }
                flow_core(items2, regions, used, Some(a2), pending, cur, acc)
            },
            FlowItem::Par { width, span } => {
                let mut items2 = items;
                items2.set(
                    0,
                    FlowItem::Block {
                        width,
                        height: Length::new(LINE_HEIGHT),
                        breakable: true,
                        span,
                    },
                );
                proof {
                    assert(items2@ =~= items@.update(
                        0,
                        FlowItem::Block {
                            width,
                            height: Length { units: LINE_HEIGHT },
                            breakable: true,
                            span,
                        },
                    ));
                }
                flow_core(items2, regions, used, spacing, pending, cur, acc)
            },
            FlowItem::Block { width, height, breakable, span } => {
                let g = match spacing {
                    Some(a) => a,
                    None => 0,
                };
                let region_h = regions.current().y.units;
                let h = height.units;
                if used + g + h <= region_h {
                    let mut cur = cur;
                    cur.push(
                        (Point::new(Length::new(0), Length::new(used + g)), FrameItem::Block(
                            Size::new(width, height),
                        )),
                    );
                    let mut items2 = items;
                    items2.remove(0);
                    proof {
                        assert(items2@ =~= items@.drop_first());
                    }
                    flow_core(items2, regions, used + g + h, None, pending, cur, acc)
                } else if breakable && used + g < region_h {
                    let part = region_h - used - g;
                    let mut cur = cur;
                    cur.push(
                        (Point::new(Length::new(0), Length::new(used + g)), FrameItem::Block(
                            Size::new(width, Length::new(part)),
                        )),
                    );
                    let f = finalize_frame(&regions, region_h, &pending, cur);
                    if !regions.has_next() {
                        return Err(Diag::new(span, DiagKind::RegionsExhausted));
                    }
                    let mut regions = regions;
                    regions.next();
                    let mut acc = acc;
                    acc.push(f);
                    let mut items2 = items;
                    items2.set(
                        0,
                        FlowItem::Block {
                            width,
                            height: Length::new(h - part),
                            breakable: true,
                            span,
                        },
                    );
                    proof {
                        assert(items2@ =~= items@.update(
                            0,
                            FlowItem::Block {
                                width,
                                height: Length { units: (h - part) as i64 },
                                breakable: true,
                                span,
                            },
                        ));
                        assert(frames_view(acc@) =~= st.acc.push(f@));
                    }
                    flow_core(items2, regions, 0, None, Vec::new(), Vec::new(), acc)
                } else if used == 0 && spacing.is_none() && cur.len() == 0 && pending.len() == 0 {
                    let mut cur = cur;
                    cur.push(
                        (Point::new(Length::new(0), Length::new(used + g)), FrameItem::Block(
                            Size::new(width, height),
                        )),
                    );
                    let mut items2 = items;
                    items2.remove(0);
                    proof {
                        assert(items2@ =~= items@.drop_first());
                    }
                    flow_core(items2, regions, used + g + h, None, pending, cur, acc)
                } else {
                    let f = finalize_frame(&regions, used, &pending, cur);
                    if !regions.has_next() {
                        return Err(Diag::new(span, DiagKind::RegionsExhausted));
                    }
                    let mut regions = regions;
                    regions.next();
                    let mut acc = acc;
                    acc.push(f);
                    proof {
                        assert(frames_view(acc@) =~= st.acc.push(f@));
                    }
                    flow_core(items, regions, 0, None, Vec::new(), Vec::new(), acc)
                }
            },
            FlowItem::Break { span } => {
                let f = finalize_frame(&regions, used, &pending, cur);
                if items.len() == 1 {
                    let mut acc = acc;
                    acc.push(f);
                    proof {
                        assert(frames_view(acc@) =~= st.acc.push(f@));
                        assert(items@.drop_first().len() == 0);
                    }
                    Ok(acc)
                } else if !regions.has_next() {
                    Err(Diag::new(span, DiagKind::RegionsExhausted))
                } else {
                    let mut regions = regions;
                    regions.next();
                    let mut acc = acc;
                    acc.push(f);
                    let mut items2 = items;
                    items2.remove(0);
                    proof {
                        assert(items2@ =~= items@.drop_first());
                        assert(frames_view(acc@) =~= st.acc.push(f@));
                    }
                    flow_core(items2, regions, 0, None, Vec::new(), Vec::new(), acc)
                }
            },
            FlowItem::Place { width, height, span } => {
                let mut pending = pending;
                pending.push(Size::new(width, height));
                let mut items2 = items;
                items2.remove(0);
                proof {
                    assert(items2@ =~= items@.drop_first());
                }
                flow_core(items2, regions, used, spacing, pending, cur, acc)
            },
            FlowItem::Flush { span } => {
                let m = pending.len();
                let mut cur = cur;
                let ghost cur0 = cur@;
                let mut i: usize = 0;
                while i < m
                    invariant
                        pending_wf(pending@),
                        m == pending@.len(),
                        i <= m,
                        0 <= used <= MAX_UNITS,
                        cur@.len() == cur0.len() + i,
                        cur@.take(cur0.len() as int) =~= cur0,
                        cur_wf(cur0),
                        forall|j: int| 0 <= j < i ==> cur@[cur0.len() + j] == (
                            Point { x: Length { units: 0 }, y: Length { units: used } },
                            FrameItem::Placed(pending@[j]),
                        ),
                    decreases m - i,
                {
                    let s = pending[i];
                    cur.push((Point::new(Length::new(0), Length::new(used)), FrameItem::Placed(s)));
                    i += 1;
                }
                proof {
                    assert(cur@ =~= cur0 + resolve_pending(pending@, used as int));
                    assert(cur_wf(cur@));
                }
                let mut items2 = items;
                items2.remove(0);
                proof {
                    assert(items2@ =~= items@.drop_first());
                }
                flow_core(items2, regions, used, spacing, Vec::new(), cur, acc)
            },
        }
    }
}

/// Lay an ordered sequence of flow items into the given regions, producing
/// one frame per region consumed.
pub fn layout_flow(items: Vec<FlowItem>, regions: Regions) -> (r: Result<Fragment, Diag>)
    requires
        flow_items_wf(items@),
        regions.inv(),
        regions@.wf(),
    ensures
        (match r {
            Ok(f) => spec_flow(items@, FlowState::init(regions@)) == Ok::<Seq<GFrame>, Diag>(f@),
            Err(d) => spec_flow(items@, FlowState::init(regions@)) == Err::<Seq<GFrame>, Diag>(d),
        }),
{
    let ghost st0 = FlowState::init(regions@);
    let r = flow_core(items, regions, 0, None, Vec::new(), Vec::new(), Vec::new());
    proof {
        assert((FlowState {
            regions: st0.regions,
            used: 0,
            spacing: None,
            pending: Seq::empty(),
            cur: Seq::empty(),
            acc: frames_view(Seq::<Frame>::empty()),
        }) =~= st0);
        assert(frames_view(Seq::<Frame>::empty()) =~= Seq::<GFrame>::empty());
    }
    match r {
        Ok(v) => Ok(Fragment { frames: v }),
        Err(d) => Err(d),
    }
}

/// Region bound: with no repeating terminal region, flow layout cannot
/// produce more frames than the regions it was given — at most the current
/// region plus the backlog, beyond the frames already finished.
pub proof fn lemma_flow_region_bound(items: Seq<FlowItem>, st: FlowState)
    requires
        st.regions.last is None,
        spec_flow(items, st) is Ok,
    ensures
        spec_flow(items, st).unwrap().len() <= st.acc.len() + 1 + st.regions.backlog.len(),
    decreases items.len(), first_block_h(items), st.rank(),
{
    if items.len() == 0 {
    } else {
        let rest = items.drop_first();
        match items[0] {
            FlowItem::Spacing { amount, span } => {
                lemma_flow_region_bound(
                    rest,
                    FlowState { spacing: spec_collapse(st.spacing, amount.units as int), ..st },
                );
            },
            FlowItem::Par { width, span } => {
                lemma_flow_region_bound(
                    items.update(
                        0,
                        FlowItem::Block {
                            width,
                            height: Length { units: LINE_HEIGHT },
                            breakable: true,
                            span,
                        },
                    ),
                    st,
                );
            },
            FlowItem::Block { width, height, breakable, span } => {
                let gap = spec_gap(st.spacing);
                let region_h = st.regions.size.y.units as int;
                let h = height.units as int;
                if st.used + gap + h <= region_h {
                    let placed = (
                        Point {
                            x: Length { units: 0 },
                            y: Length { units: (st.used + gap) as i64 },
                        },
                        FrameItem::Block(Size { x: width, y: height }),
                    );
                    lemma_flow_region_bound(
                        rest,
                        FlowState {
                            used: st.used + gap + h,
                            spacing: None,
                            cur: st.cur.push(placed),
                            ..st
                        },
                    );
                } else if breakable && st.used + gap < region_h {
                    let part = region_h - st.used - gap;
                    let placed = (
                        Point {
                            x: Length { units: 0 },
                            y: Length { units: (st.used + gap) as i64 },
                        },
                        FrameItem::Block(Size { x: width, y: Length { units: part as i64 } }),
                    );
                    let frame = spec_finalize(st.regions, region_h, st.pending, st.cur.push(placed));
                    lemma_flow_region_bound(
                        items.update(
                            0,
                            FlowItem::Block {
                                width,
                                height: Length { units: (h - part) as i64 },
                                breakable: true,
                                span,
                            },
                        ),
                        st.next_region(frame),
                    );
                } else if st.fresh() {
                    let placed = (
                        Point {
                            x: Length { units: 0 },
                            y: Length { units: (st.used + gap) as i64 },
                        },
                        FrameItem::Block(Size { x: width, y: height }),
                    );
                    lemma_flow_region_bound(
                        rest,
                        FlowState {
                            used: st.used + gap + h,
                            spacing: None,
                            cur: st.cur.push(placed),
                            ..st
                        },
                    );
                } else {
                    let frame = spec_finalize(st.regions, st.used, st.pending, st.cur);
                    lemma_flow_region_bound(items, st.next_region(frame));
                }
            },
            FlowItem::Break { span } => {
                if rest.len() > 0 {
                    let frame = spec_finalize(st.regions, st.used, st.pending, st.cur);
                    lemma_flow_region_bound(rest, st.next_region(frame));
                }
            },
            FlowItem::Place { width, height, span } => {
                lemma_flow_region_bound(
                    rest,
                    FlowState { pending: st.pending.push(Size { x: width, y: height }), ..st },
                );
            },
            FlowItem::Flush { span } => {
                lemma_flow_region_bound(
                    rest,
                    FlowState {
                        pending: Seq::empty(),
                        cur: st.cur + resolve_pending(st.pending, st.used),
                        ..st
                    },
                );
            },
        }
    }
}

/// The collapsed block space a flow still needs, given the pending
/// spacing; trailing spacing is dropped, never placed.
pub open spec fn flow_need(items: Seq<FlowItem>, spacing: Option<int>) -> int
    decreases items.len(),
{
    if items.len() == 0 {
        0
    } else {
        let rest = items.drop_first();
        match items[0] {
            FlowItem::Spacing { amount, .. } => flow_need(
                rest,
                spec_collapse(spacing, amount.units as int),
            ),
            FlowItem::Par { .. } => spec_gap(spacing) + LINE_HEIGHT + flow_need(rest, None),
            FlowItem::Block { height, .. } => spec_gap(spacing) + height.units + flow_need(
                rest,
                None,
            ),
            FlowItem::Break { .. } => 0,
            FlowItem::Place { .. } => flow_need(rest, spacing),
            FlowItem::Flush { .. } => flow_need(rest, spacing),
        }
    }
}

/// The needed space of a well-formed flow is never negative.
pub proof fn lemma_flow_need_nonneg(items: Seq<FlowItem>, spacing: Option<int>)
    requires
        flow_items_wf(items),
        spec_gap(spacing) >= 0,
    ensures
        flow_need(items, spacing) >= 0,
    decreases items.len(),
{
    if items.len() > 0 {
        let rest = items.drop_first();
        assert(flow_items_wf(rest)) by {
            assert(forall|i: int| 0 <= i < rest.len() ==> rest[i] == items[i + 1]);
        }
        assert(items[0].wf());
        match items[0] {
            FlowItem::Spacing { amount, .. } => {
                lemma_flow_need_nonneg(rest, spec_collapse(spacing, amount.units as int));
            },
            FlowItem::Par { .. } => {
                lemma_flow_need_nonneg(rest, None);
            },
            FlowItem::Block { .. } => {
                lemma_flow_need_nonneg(rest, None);
            },
            FlowItem::Break { .. } => {},
            FlowItem::Place { .. } => {
                lemma_flow_need_nonneg(rest, spacing);
            },
            FlowItem::Flush { .. } => {
                lemma_flow_need_nonneg(rest, spacing);
            },
        }
    }
}

/// Region bound, second half: a flow that needs no more space than the
/// current region offers, and forces no break, stays entirely in that
/// region — exactly one more frame is produced.
pub proof fn lemma_flow_fits_first(items: Seq<FlowItem>, st: FlowState)
    requires
        flow_items_wf(items),
        forall|i: int| 0 <= i < items.len() ==> !((#[trigger] items[i]) is Break),
        0 <= st.used,
        spec_gap(st.spacing) >= 0,
        st.used + flow_need(items, st.spacing) <= st.regions.size.y.units,
    ensures
        spec_flow(items, st) is Ok,
        spec_flow(items, st).unwrap().len() == st.acc.len() + 1,
    decreases items.len(), first_block_h(items), st.rank(),
{
    if items.len() == 0 {
    } else {
        let rest = items.drop_first();
        assert(flow_items_wf(rest)) by {
            assert(forall|i: int| 0 <= i < rest.len() ==> rest[i] == items[i + 1]);
        }
        assert(forall|i: int| 0 <= i < rest.len() ==> rest[i] == items[i + 1]);
        assert(items[0].wf());
        match items[0] {
            FlowItem::Spacing { amount, span } => {
                lemma_flow_fits_first(
                    rest,
                    FlowState { spacing: spec_collapse(st.spacing, amount.units as int), ..st },
                );
            },
            FlowItem::Par { width, span } => {
                let items2 = items.update(
                    0,
                    FlowItem::Block {
                        width,
                        height: Length { units: LINE_HEIGHT },
                        breakable: true,
                        span,
                    },
                );
                assert(items2.drop_first() =~= rest);
                assert(flow_items_wf(items2)) by {
                    assert(forall|i: int|
                        1 <= i < items2.len() ==> items2[i] == items[i]);
                }
                assert(forall|i: int|
                    0 <= i < items2.len() ==> !((#[trigger] items2[i]) is Break)) by {
                    assert(forall|i: int|
                        1 <= i < items2.len() ==> items2[i] == items[i]);
                }
                assert(flow_need(items2, st.spacing) == flow_need(items, st.spacing));
                lemma_flow_fits_first(items2, st);
            },
            FlowItem::Block { width, height, breakable, span } => {
                let gap = spec_gap(st.spacing);
                let h = height.units as int;
                lemma_flow_need_nonneg(rest, None);
                assert(st.used + gap + h <= st.regions.size.y.units);
                let placed = (
                    Point {
                        x: Length { units: 0 },
                        y: Length { units: (st.used + gap) as i64 },
                    },
                    FrameItem::Block(Size { x: width, y: height }),
                );
                lemma_flow_fits_first(
                    rest,
                    FlowState {
                        used: st.used + gap + h,
                        spacing: None,
                        cur: st.cur.push(placed),
                        ..st
                    },
                );
            },
            FlowItem::Break { span } => {
                assert(false);
            },
            FlowItem::Place { width, height, span } => {
                lemma_flow_fits_first(
                    rest,
                    FlowState { pending: st.pending.push(Size { x: width, y: height }), ..st },
                );
            },
            FlowItem::Flush { span } => {
                lemma_flow_fits_first(
                    rest,
                    FlowState {
                        pending: Seq::empty(),
                        cur: st.cur + resolve_pending(st.pending, st.used),
                        ..st
                    },
                );
            },
        }
    }
}

/// Spacing collapse: two adjacent spacing items act as one whose amount is
/// the larger of the two — never their sum.
pub proof fn lemma_spacing_collapse(
    a: Length,
    b: Length,
    s1: u64,
    s2: u64,
    rest: Seq<FlowItem>,
    st: FlowState,
)
    ensures
        spec_flow(
            seq![
                FlowItem::Spacing { amount: a, span: s1 },
                FlowItem::Spacing { amount: b, span: s2 },
            ] + rest,
            st,
        ) == spec_flow(
            seq![
                FlowItem::Spacing {
                    amount: if a.units > b.units {
                        a
                    } else {
                        b
                    },
                    span: s1,
                },
            ] + rest,
            st,
        ),
{
    reveal_with_fuel(spec_flow, 3);
    let two = seq![
        FlowItem::Spacing { amount: a, span: s1 },
        FlowItem::Spacing { amount: b, span: s2 },
    ] + rest;
    let mid = seq![FlowItem::Spacing { amount: b, span: s2 }] + rest;
    let one = seq![
        FlowItem::Spacing {
            amount: if a.units > b.units {
                a
            } else {
                b
            },
            span: s1,
        },
    ] + rest;
    assert(two[0] == FlowItem::Spacing { amount: a, span: s1 });
    assert(two.drop_first() =~= mid);
    assert(mid[0] == FlowItem::Spacing { amount: b, span: s2 });
    assert(mid.drop_first() =~= rest);
    assert(one[0] == FlowItem::Spacing {
        amount: if a.units > b.units {
            a
        } else {
            b
        },
        span: s1,
    });
    assert(one.drop_first() =~= rest);
    let st_two = FlowState {
        spacing: spec_collapse(
            spec_collapse(st.spacing, a.units as int),
            b.units as int,
        ),
        ..st
    };
    let st_one = FlowState {
        spacing: spec_collapse(
            st.spacing,
            if a.units > b.units {
                a.units as int
            } else {
                b.units as int
            },
        ),
        ..st
    };
    assert(st_two =~= st_one);
}

/// Exact-axis sizing, vertical: when the vertical axis is exact and every
/// region of the list has height `e`, every produced frame has height
/// exactly `e`, whatever the content.
pub proof fn lemma_flow_exact_height(items: Seq<FlowItem>, st: FlowState, e: int)
    requires
        st.regions.expand.y,
        st.regions.size.y.units == e,
        forall|i: int| 0 <= i < st.regions.backlog.len() ==> (#[trigger] st.regions.backlog[
            i
        ]).y.units == e,
        (st.regions.last is Some ==> st.regions.last.unwrap().y.units == e),
        forall|i: int| 0 <= i < st.acc.len() ==> (#[trigger] st.acc[i]).size.y.units == e,
        spec_flow(items, st) is Ok,
    ensures
        forall|i: int|
            0 <= i < spec_flow(items, st).unwrap().len() ==> (#[trigger] spec_flow(
                items,
                st,
            ).unwrap()[i]).size.y.units == e,
    decreases items.len(), first_block_h(items), st.rank(),
{
    if items.len() == 0 {
    } else {
        let rest = items.drop_first();
        match items[0] {
            FlowItem::Spacing { amount, span } => {
                lemma_flow_exact_height(
                    rest,
                    FlowState { spacing: spec_collapse(st.spacing, amount.units as int), ..st },
                    e,
                );
            },
            FlowItem::Par { width, span } => {
                lemma_flow_exact_height(
                    items.update(
                        0,
                        FlowItem::Block {
                            width,
                            height: Length { units: LINE_HEIGHT },
                            breakable: true,
                            span,
                        },
                    ),
                    st,
                    e,
                );
            },
            FlowItem::Block { width, height, breakable, span } => {
                let gap = spec_gap(st.spacing);
                let region_h = st.regions.size.y.units as int;
                let h = height.units as int;
                if st.used + gap + h <= region_h {
                    let placed = (
                        Point {
                            x: Length { units: 0 },
                            y: Length { units: (st.used + gap) as i64 },
                        },
                        FrameItem::Block(Size { x: width, y: height }),
                    );
                    lemma_flow_exact_height(
                        rest,
                        FlowState {
                            used: st.used + gap + h,
                            spacing: None,
                            cur: st.cur.push(placed),
                            ..st
                        },
                        e,
                    );
                } else if breakable && st.used + gap < region_h {
                    let part = region_h - st.used - gap;
                    let placed = (
                        Point {
                            x: Length { units: 0 },
                            y: Length { units: (st.used + gap) as i64 },
                        },
                        FrameItem::Block(Size { x: width, y: Length { units: part as i64 } }),
                    );
                    let frame = spec_finalize(
                        st.regions,
                        region_h,
                        st.pending,
                        st.cur.push(placed),
                    );
                    if st.regions.has_next() {
                        lemma_flow_exact_height(
                            items.update(
                                0,
                                FlowItem::Block {
                                    width,
                                    height: Length { units: (h - part) as i64 },
                                    breakable: true,
                                    span,
                                },
                            ),
                            st.next_region(frame),
                            e,
                        );
                    }
                } else if st.fresh() {
                    let placed = (
                        Point {
                            x: Length { units: 0 },
                            y: Length { units: (st.used + gap) as i64 },
                        },
                        FrameItem::Block(Size { x: width, y: height }),
                    );
                    lemma_flow_exact_height(
                        rest,
                        FlowState {
                            used: st.used + gap + h,
                            spacing: None,
                            cur: st.cur.push(placed),
                            ..st
                        },
                        e,
                    );
                } else {
                    let frame = spec_finalize(st.regions, st.used, st.pending, st.cur);
                    if st.regions.has_next() {
                        lemma_flow_exact_height(items, st.next_region(frame), e);
                    }
                }
            },
            FlowItem::Break { span } => {
                if rest.len() > 0 {
                    let frame = spec_finalize(st.regions, st.used, st.pending, st.cur);
                    if st.regions.has_next() {
                        lemma_flow_exact_height(rest, st.next_region(frame), e);
                    }
                }
            },
            FlowItem::Place { width, height, span } => {
                lemma_flow_exact_height(
                    rest,
                    FlowState { pending: st.pending.push(Size { x: width, y: height }), ..st },
                    e,
                );
            },
            FlowItem::Flush { span } => {
                lemma_flow_exact_height(
                    rest,
                    FlowState {
                        pending: Seq::empty(),
                        cur: st.cur + resolve_pending(st.pending, st.used),
                        ..st
                    },
                    e,
                );
            },
        }
    }
}

/// Exact-axis sizing, horizontal: when the horizontal axis is exact and
/// every region of the list has width `e`, every produced frame has width
/// exactly `e`, whatever the content.
pub proof fn lemma_flow_exact_width(items: Seq<FlowItem>, st: FlowState, e: int)
    requires
        st.regions.expand.x,
        st.regions.size.x.units == e,
        forall|i: int| 0 <= i < st.regions.backlog.len() ==> (#[trigger] st.regions.backlog[
            i
        ]).x.units == e,
        (st.regions.last is Some ==> st.regions.last.unwrap().x.units == e),
        forall|i: int| 0 <= i < st.acc.len() ==> (#[trigger] st.acc[i]).size.x.units == e,
        spec_flow(items, st) is Ok,
    ensures
        forall|i: int|
            0 <= i < spec_flow(items, st).unwrap().len() ==> (#[trigger] spec_flow(
                items,
                st,
            ).unwrap()[i]).size.x.units == e,
    decreases items.len(), first_block_h(items), st.rank(),
{
    if items.len() == 0 {
    } else {
        let rest = items.drop_first();
        match items[0] {
            FlowItem::Spacing { amount, span } => {
                lemma_flow_exact_width(
                    rest,
                    FlowState { spacing: spec_collapse(st.spacing, amount.units as int), ..st },
                    e,
                );
            },
            FlowItem::Par { width, span } => {
                lemma_flow_exact_width(
                    items.update(
                        0,
                        FlowItem::Block {
                            width,
                            height: Length { units: LINE_HEIGHT },
                            breakable: true,
                            span,
                        },
                    ),
                    st,
                    e,
                );
            },
            FlowItem::Block { width, height, breakable, span } => {
                let gap = spec_gap(st.spacing);
                let region_h = st.regions.size.y.units as int;
                let h = height.units as int;
                if st.used + gap + h <= region_h {
                    let placed = (
                        Point {
                            x: Length { units: 0 },
                            y: Length { units: (st.used + gap) as i64 },
                        },
                        FrameItem::Block(Size { x: width, y: height }),
                    );
                    lemma_flow_exact_width(
                        rest,
                        FlowState {
                            used: st.used + gap + h,
                            spacing: None,
                            cur: st.cur.push(placed),
                            ..st
                        },
                        e,
                    );
                } else if breakable && st.used + gap < region_h {
                    let part = region_h - st.used - gap;
                    let placed = (
                        Point {
                            x: Length { units: 0 },
                            y: Length { units: (st.used + gap) as i64 },
                        },
                        FrameItem::Block(Size { x: width, y: Length { units: part as i64 } }),
                    );
                    let frame = spec_finalize(
                        st.regions,
                        region_h,
                        st.pending,
                        st.cur.push(placed),
                    );
                    if st.regions.has_next() {
                        lemma_flow_exact_width(
                            items.update(
                                0,
                                FlowItem::Block {
                                    width,
                                    height: Length { units: (h - part) as i64 },
                                    breakable: true,
                                    span,
                                },
                            ),
                            st.next_region(frame),
                            e,
                        );
                    }
                } else if st.fresh() {
                    let placed = (
                        Point {
                            x: Length { units: 0 },
                            y: Length { units: (st.used + gap) as i64 },
                        },
                        FrameItem::Block(Size { x: width, y: height }),
                    );
                    lemma_flow_exact_width(
                        rest,
                        FlowState {
                            used: st.used + gap + h,
                            spacing: None,
                            cur: st.cur.push(placed),
                            ..st
                        },
                        e,
                    );
                } else {
                    let frame = spec_finalize(st.regions, st.used, st.pending, st.cur);
                    if st.regions.has_next() {
                        lemma_flow_exact_width(items, st.next_region(frame), e);
                    }
                }
            },
            FlowItem::Break { span } => {
                if rest.len() > 0 {
                    let frame = spec_finalize(st.regions, st.used, st.pending, st.cur);
                    if st.regions.has_next() {
                        lemma_flow_exact_width(rest, st.next_region(frame), e);
                    }
                }
            },
            FlowItem::Place { width, height, span } => {
                lemma_flow_exact_width(
                    rest,
                    FlowState { pending: st.pending.push(Size { x: width, y: height }), ..st },
                    e,
                );
            },
            FlowItem::Flush { span } => {
                lemma_flow_exact_width(
                    rest,
                    FlowState {
                        pending: Seq::empty(),
                        cur: st.cur + resolve_pending(st.pending, st.used),
                        ..st
                    },
                    e,
                );
            },
        }
    }
}

} // verus!
