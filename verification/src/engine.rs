//! Memoized layout and measure dispatch: the externally visible entry
//! points, the pure-function cache, the recursion-depth guard, and the
//! deferred identity commit.

use vstd::prelude::*;
use crate::content::{content_eq, content_view, Content, GContent};
use crate::diag::{Diag, DiagKind};
use crate::flow::{layout_flow, FlowItem, FlowState};
use crate::frame::{Fragment, Frame, GFrame};
use crate::geom::{Length, Size, Spec};
use crate::realize::{realize_into, spec_realize, MAX_LAYOUT_DEPTH};
use crate::regions::{GRegions, Regions};
use crate::styles::{page_height, page_width, styles_wf, GStyle, StyleChain};

verus! {

/// The meaning of measurement: fail at the depth guard, otherwise realize
/// the content into a flow and lay that flow into the regions. Measurement
/// is a pure function of exactly these inputs, which is what licenses the
/// cache.
pub open spec fn spec_measure(
    c: GContent,
    styles: Seq<GStyle>,
    regions: GRegions,
    depth: u64,
) -> Result<Seq<GFrame>, Diag> {
    if depth >= MAX_LAYOUT_DEPTH {
        Err(Diag { span: c.span_of(), kind: DiagKind::LayoutDepthExceeded })
    } else {
        match spec_realize(c, styles, (depth + 1) as u64, Seq::empty()) {
            Err(d) => Err(d),
            Ok(items) => crate::flow::spec_flow(items, FlowState::init(regions)),
        }
    }
}

/// The model of an executable measure result.
pub open spec fn result_view(r: Result<Fragment, Diag>) -> Result<Seq<GFrame>, Diag> {
    match r {
        Ok(f) => Ok(f@),
        Err(d) => Err(d),
    }
}

/// A recursion-depth counter with context flags, passed into every nested
/// layout call; the depth strictly increases on each nested call.
#[derive(Clone, Copy, PartialEq, Eq, Structural, Debug)]
pub struct Route {
    /// The nesting depth of the current call.
    pub depth: u64,
    /// Whether the call sits inside an unnested page flow.
    pub unnested: bool,
}

impl Route {
    /// The root route of a document pass.
    pub fn root() -> (r: Route)
        ensures
            r.depth == 0,
            r.unnested,
    {
        Route { depth: 0, unnested: true }
    }

    /// One nesting level deeper.
    pub fn extend(&self) -> (r: Route)
        ensures
            r.depth == if self.depth < u64::MAX {
                self.depth + 1
            } else {
                self.depth as int
            },
            r.unnested == self.unnested,
    {
        Route {
            depth: if self.depth < u64::MAX {
                self.depth + 1
            } else {
                self.depth
            },
            unnested: self.unnested,
        }
    }

    /// The same route marked as nested inside another flow.
    pub fn nested(&self) -> (r: Route)
        ensures
            r.depth == self.depth,
            !r.unnested,
    {
        Route { depth: self.depth, unnested: false }
    }

    /// Whether the depth still lies within the given limit.
    pub fn within(&self, limit: u64) -> (r: bool)
        ensures
            r == (self.depth <= limit),
    {
        self.depth <= limit
    }
}

/// How committing `count` identities moves the locator counter (saturating
/// at the counter's range).
pub open spec fn spec_commit(next: u64, count: nat) -> u64 {
    if next + count > u64::MAX {
        u64::MAX
    } else {
        (next + count) as u64
    }
}

/// A stable identity generator for cross-referenceable elements. It
/// persists for a whole document pass; speculative measurement works on a
/// chained fork and leaves the counter untouched until a layout call
/// commits frames.
#[derive(Clone, Copy, PartialEq, Eq, Structural, Debug)]
pub struct Locator {
    /// The next identity to hand out.
    pub next: u64,
}

impl Locator {
    /// A locator at the start of a document pass.
    pub fn new() -> (r: Locator)
        ensures
            r.next == 0,
    {
        Locator { next: 0 }
    }

    /// Fork a locator for a nested call; the parent is unaffected by
    /// whatever the fork observes.
    pub fn chained(&self) -> (r: Locator)
        ensures
            r.next == self.next,
    {
        Locator { next: self.next }
    }

    /// Commit a fragment: visit every frame and register one
    /// cross-referenceable identity for it. The only state-mutating step in
    /// the whole pipeline.
    pub fn visit_frames(&mut self, fragment: &Fragment)
        ensures
            final(self).next == spec_commit(old(self).next, fragment@.len()),
    {
        let count = fragment.frames.len() as u64;
        proof {
            assert(fragment@.len() == fragment.frames@.len());
        }
        if count > u64::MAX - self.next {
            self.next = u64::MAX;
        } else {
            self.next = self.next + count;
        }
    }
}

/// The diagnostics sink threaded through every call as an exclusive
/// handle.
#[derive(Clone, Copy, PartialEq, Eq, Structural, Debug)]
pub struct Tracer {
    /// The number of delayed diagnostics recorded.
    pub delayed: u64,
}

impl Tracer {
    /// An empty sink.
    pub fn new() -> (r: Tracer)
        ensures
            r.delayed == 0,
    {
        Tracer { delayed: 0 }
    }
}

/// One memoized measurement: the full observable input tuple and the
/// fragment (or diagnostic) it produced.
struct CacheEntry {
    content: Content,
    styles: StyleChain,
    regions: Regions,
    depth: u64,
    world: u64,
    introspector: u64,
    result: Result<Fragment, Diag>,
}

impl CacheEntry {
    /// Soundness of one entry: its stored result is exactly what the pure
    /// measurement function gives on its stored key.
    spec fn sound(self) -> bool {
        &&& self.regions.inv()
        &&& result_view(self.result) == spec_measure(
            self.content@,
            self.styles@,
            self.regions@,
            self.depth,
        )
    }
}

/// The pure-function cache, scoped to one engine. Opaque to callers: its
/// soundness invariant lives in `Engine::wf`.
pub struct LayoutCache {
    entries: Vec<CacheEntry>,
}

impl LayoutCache {
    /// Every entry is sound.
    spec fn wf(self) -> bool {
        forall|i: int| 0 <= i < self.entries@.len() ==> (#[trigger] self.entries@[i]).sound()
    }

    fn new() -> (r: LayoutCache)
        ensures
            r.wf(),
    {
        LayoutCache { entries: Vec::new() }
    }

    /// Look the full input tuple up; a hit returns the previously computed
    /// result without recomputation.
    fn lookup(
        &self,
        content: &Content,
        styles: &StyleChain,
        regions: &Regions,
        depth: u64,
        world: u64,
        introspector: u64,
    ) -> (r: Option<Result<Fragment, Diag>>)
        requires
            self.wf(),
            regions.inv(),
        ensures
            match r {
                Some(res) => result_view(res) == spec_measure(
                    content@,
                    styles@,
                    regions@,
                    depth,
                ),
                None => true,
            },
    {
        let n = self.entries.len();
        let mut i: usize = 0;
        while i < n
            invariant
                self.wf(),
                regions.inv(),
                n == self.entries@.len(),
                i <= n,
            decreases n - i,
        {
            let e = &self.entries[i];
            proof {
                assert(self.entries@[i as int].sound());
            }
            if e.depth == depth && e.world == world && e.introspector == introspector
                && content_eq(&e.content, content) && e.styles.matches(styles)
                && e.regions.matches(regions) {
                let res = duplicate_result(&e.result);
                return Some(res);
            }
            i += 1;
        }
        None
    }

    /// Record one sound entry.
    fn insert(&mut self, e: CacheEntry)
        requires
            old(self).wf(),
            e.sound(),
        ensures
            final(self).wf(),
    {
        self.entries.push(e);
    }
}

/// A structurally identical copy of a measure result.
fn duplicate_result(r: &Result<Fragment, Diag>) -> (d: Result<Fragment, Diag>)
    ensures
        result_view(d) == result_view(*r),
{
    match r {
        Ok(f) => Ok(f.duplicate()),
        Err(e) => Err(*e),
    }
}

/// The external context threaded through every layout call: read-only
/// resource and introspection snapshots, the route, the identity locator,
/// the diagnostics sink, and the measurement cache.
pub struct Engine {
    /// Snapshot handle of the resource provider (fonts, files).
    pub world: u64,
    /// Snapshot handle of the resolved cross-reference state.
    pub introspector: u64,
    /// The recursion bookkeeping of the current call.
    pub route: Route,
    /// The identity locator of the document pass.
    pub locator: Locator,
    /// The diagnostics sink.
    pub tracer: Tracer,
    /// The memoized measurements of this engine.
    pub cache: LayoutCache,
}

impl Engine {
    /// The engine's internal invariant: every cached measurement is sound.
    pub closed spec fn wf(self) -> bool {
        self.cache.wf()
    }

    /// A fresh engine over the given snapshots.
    pub fn new(world: u64, introspector: u64) -> (r: Engine)
        ensures
            r.wf(),
            r.world == world,
            r.introspector == introspector,
            r.route.depth == 0,
            r.locator.next == 0,
            r.tracer.delayed == 0,
    {
        Engine {
            world,
            introspector,
            route: Route::root(),
            locator: Locator::new(),
            tracer: Tracer::new(),
            cache: LayoutCache::new(),
        }
    }
}

/// An ordered list of finished pages, consumed by a renderer or exporter.
#[derive(Debug)]
pub struct Document {
    /// The finished pages in document order.
    pub pages: Vec<Frame>,
}

impl View for Document {
    type V = Seq<GFrame>;

    open spec fn view(&self) -> Seq<GFrame> {
        self.pages@.map_values(|f: Frame| f@)
    }
}

/// The region list a document page template induces: pages are exact on
/// both axes and the template repeats indefinitely.
pub open spec fn doc_regions(styles: Seq<GStyle>) -> GRegions {
    let size = Size {
        x: Length { units: page_width(styles) },
        y: Length { units: page_height(styles) },
    };
    GRegions {
        size,
        expand: Spec { x: true, y: true },
        backlog: Seq::empty(),
        last: Some(size),
    }
}

/// The meaning of document layout: measure against the page template drawn
/// from the styles.
pub open spec fn spec_layout_document(c: GContent, styles: Seq<GStyle>, depth: u64) -> Result<
    Seq<GFrame>,
    Diag,
> {
    spec_measure(c, styles, doc_regions(styles), depth)
}

impl Content {
    /// Layout without side effects: compute the fragment for this content
    /// under the given styles and regions, consulting the cache. The
    /// engine's locator, route, and sink are left untouched; the result
    /// only becomes authoritative once committed by `layout`.
    pub fn measure(&self, engine: &mut Engine, styles: &StyleChain, regions: &Regions) -> (r:
        Result<Fragment, Diag>)
        requires
            old(engine).wf(),
            content_view(*self).wf(),
            styles_wf(styles@),
            regions.inv(),
            regions@.wf(),
        ensures
            final(engine).wf(),
            final(engine).world == old(engine).world,
            final(engine).introspector == old(engine).introspector,
            final(engine).route == old(engine).route,
            final(engine).locator == old(engine).locator,
            final(engine).tracer == old(engine).tracer,
            result_view(r) == spec_measure(
                self@,
                styles@,
                regions@,
                old(engine).route.depth,
            ),
            r is Ok && regions@.last is None ==> r.unwrap()@.len() <= regions@.backlog.len()
                + 1,
    {
        let depth = engine.route.depth;
        let world = engine.world;
        let introspector = engine.introspector;
        match engine.cache.lookup(self, styles, regions, depth, world, introspector) {
            Some(res) => {
                proof {
                    if res is Ok && regions@.last is None {
                        lemma_measure_region_bound(self@, styles@, regions@, depth);
                    }
                }
                return res;
            },
            None => {},
        }
        let r: Result<Fragment, Diag>;
        if depth >= MAX_LAYOUT_DEPTH {
            r = Err(Diag::new(self.span(), DiagKind::LayoutDepthExceeded));
        } else {
            let mut items: Vec<FlowItem> = Vec::new();
            proof {
                assert(items@ =~= Seq::<FlowItem>::empty());
            }
            match realize_into(self, styles, depth + 1, &mut items) {
                Err(d) => {
                    r = Err(d);
                },
                Ok(()) => {
                    r = layout_flow(items, regions.duplicate());
                },
            }
        }
        let stored = duplicate_result(&r);
        let entry = CacheEntry {
            content: self.duplicate(),
            styles: styles.duplicate(),
            regions: regions.duplicate(),
            depth,
            world,
            introspector,
            result: stored,
        };
        engine.cache.insert(entry);
        proof {
            if r is Ok && regions@.last is None {
                lemma_measure_region_bound(self@, styles@, regions@, depth);
            }
        }
        r
    }

    /// Layout the content into the given regions: the same computation as
    /// `measure`, after which the result's identities are committed into
    /// the locator — one per produced frame.
    pub fn layout(&self, engine: &mut Engine, styles: &StyleChain, regions: &Regions) -> (r:
        Result<Fragment, Diag>)
        requires
            old(engine).wf(),
            content_view(*self).wf(),
            styles_wf(styles@),
            regions.inv(),
            regions@.wf(),
        ensures
            final(engine).wf(),
            final(engine).world == old(engine).world,
            final(engine).introspector == old(engine).introspector,
            final(engine).route == old(engine).route,
            final(engine).tracer == old(engine).tracer,
            result_view(r) == spec_measure(
                self@,
                styles@,
                regions@,
                old(engine).route.depth,
            ),
            r is Ok ==> final(engine).locator.next == spec_commit(
                old(engine).locator.next,
                r.unwrap()@.len(),
            ),
            r is Err ==> final(engine).locator == old(engine).locator,
    {
        let r = self.measure(engine, styles, regions);
        match r {
            Ok(fragment) => {
                engine.locator.visit_frames(&fragment);
                Ok(fragment)
            },
            Err(d) => Err(d),
        }
    }

    /// Layout the content into a document. The regions are not passed in:
    /// the page geometry is read from the styles, and the page template
    /// repeats for as long as content remains.
    pub fn layout_document(&self, engine: &mut Engine, styles: &StyleChain) -> (r: Result<
        Document,
        Diag,
    >)
        requires
            old(engine).wf(),
            content_view(*self).wf(),
            styles_wf(styles@),
        ensures
            final(engine).wf(),
            final(engine).world == old(engine).world,
            final(engine).introspector == old(engine).introspector,
            final(engine).route == old(engine).route,
            final(engine).locator == old(engine).locator,
            final(engine).tracer == old(engine).tracer,
            match r {
                Ok(doc) => spec_layout_document(self@, styles@, old(engine).route.depth) == Ok::<
                    Seq<GFrame>,
                    Diag,
                >(doc@),
                Err(d) => spec_layout_document(self@, styles@, old(engine).route.depth) == Err::<
                    Seq<GFrame>,
                    Diag,
                >(d),
            },
    {
        proof {
            crate::styles::lemma_page_width_wf(styles@);
            crate::styles::lemma_page_height_wf(styles@);
        }
        let w = styles.page_width();
        let h = styles.page_height();
        let size = Size::new(Length::new(w), Length::new(h));
        let regions = Regions::repeat(size, Spec::new(true, true));
        match self.measure(engine, styles, &regions) {
            Ok(fragment) => {
                let doc = Document { pages: fragment.frames };
                proof {
                    assert(doc@ =~= fragment@);
                }
                Ok(doc)
            },
            Err(d) => Err(d),
        }
    }
}

/// Purity: measurement is a function of exactly its observable inputs.
/// Together with the contract of `measure` — its result equals
/// `spec_measure` of those inputs — any two measure calls on structurally
/// equal content, styles, and regions at one depth return structurally
/// identical fragments.
pub proof fn lemma_measure_pure(
    c1: Content,
    c2: Content,
    s1: StyleChain,
    s2: StyleChain,
    r1: Regions,
    r2: Regions,
    depth: u64,
)
    requires
        c1@ == c2@,
        s1@ == s2@,
        r1@ == r2@,
    ensures
        spec_measure(c1@, s1@, r1@, depth) == spec_measure(c2@, s2@, r2@, depth),
{
}

/// The depth guard decides alone: at or beyond the maximum depth every
/// measurement fails with the depth diagnostic at the content's span.
pub proof fn lemma_depth_guard(c: GContent, styles: Seq<GStyle>, regions: GRegions, depth: u64)
    requires
        depth >= MAX_LAYOUT_DEPTH,
    ensures
        spec_measure(c, styles, regions, depth) == Err::<Seq<GFrame>, Diag>(
            Diag { span: c.span_of(), kind: DiagKind::LayoutDepthExceeded },
        ),
{
}

/// Region bound: with no repeating terminal region a measurement cannot
/// produce more frames than regions it was offered.
pub proof fn lemma_measure_region_bound(
    c: GContent,
    styles: Seq<GStyle>,
    regions: GRegions,
    depth: u64,
)
    requires
        regions.last is None,
        spec_measure(c, styles, regions, depth) is Ok,
    ensures
        spec_measure(c, styles, regions, depth).unwrap().len() <= regions.backlog.len() + 1,
{
    let realized = spec_realize(c, styles, (depth + 1) as u64, Seq::empty());
    match realized {
        Ok(items) => {
            crate::flow::lemma_flow_region_bound(items, FlowState::init(regions));
        },
        Err(d) => {},
    }
}

/// Depth guard at the entry point: content whose element is bound to a
/// self-referential rewrite rule makes every measurement fail with the
/// depth diagnostic — never a runaway loop, never silently dropped output.
pub proof fn lemma_measure_self_rewrite(
    tag: u64,
    width: Length,
    height: Length,
    span: u64,
    body_width: Length,
    body_height: Length,
    body_span: u64,
    styles: Seq<GStyle>,
    regions: GRegions,
    depth: u64,
)
    requires
        crate::styles::find_rule(styles, tag) == Some(
            crate::styles::GRuleAction::Rewrite(
                GContent::Elem { tag, width: body_width, height: body_height, span: body_span },
            ),
        ),
    ensures
        spec_measure(GContent::Elem { tag, width, height, span }, styles, regions, depth) is Err,
        spec_measure(
            GContent::Elem { tag, width, height, span },
            styles,
            regions,
            depth,
        )->Err_0.kind == DiagKind::LayoutDepthExceeded,
{
    if depth < MAX_LAYOUT_DEPTH {
        crate::realize::lemma_self_rewrite_depth_exceeded(
            tag,
            width,
            height,
            span,
            body_width,
            body_height,
            body_span,
            styles,
            (depth + 1) as u64,
            Seq::empty(),
        );
    }
}

} // verus!
