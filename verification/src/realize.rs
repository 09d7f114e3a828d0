//! Realization: rewrites a content element and style chain into canonical
//! flow-level items, applying user show rules until none further matches,
//! bounded by the shared recursion-depth guard.

use vstd::prelude::*;
use crate::content::{
    content_seq_view, content_view, lemma_content_seq_view_index, lemma_content_seq_view_len,
    Content, GContent,
};
use crate::diag::{Diag, DiagKind};
use crate::flow::{flow_items_wf, FlowItem};
use crate::geom::{Length, MAX_UNITS};
use crate::styles::{
    find_rule, lemma_style_seq_view_index, lemma_style_seq_view_len, styles_wf, GRuleAction,
    GStyle, RuleAction, Style, StyleChain,
};

verus! {

/// The fixed maximum depth of nested layout and rule application: the sole
/// defense against user rules that recursively produce themselves.
pub const MAX_LAYOUT_DEPTH: u64 = 64;

/// Clamp a width into the representable range.
pub open spec fn sat_units(x: int) -> i64 {
    if x > MAX_UNITS {
        MAX_UNITS
    } else if x < 0 {
        0
    } else {
        x as i64
    }
}

/// Merge an inline run into the flow: adjacent runs join into one trailing
/// paragraph whose width is their joined width (clamped to the unit bound);
/// otherwise a new paragraph starts.
pub open spec fn spec_merge_run(acc: Seq<FlowItem>, width: int, span: u64) -> Seq<FlowItem> {
    if acc.len() > 0 && acc.last() is Par {
        match acc.last() {
            FlowItem::Par { width: w0, span: sp } => acc.update(
                acc.len() - 1,
                FlowItem::Par { width: Length { units: sat_units(w0.units + width) }, span: sp },
            ),
            _ => acc,
        }
    } else {
        acc.push(FlowItem::Par { width: Length { units: sat_units(width) }, span })
    }
}

/// The meaning of realization: the flow items appended to `acc` by
/// rewriting one content element under the given styles at the given
/// nesting depth.
pub open spec fn spec_realize(
    c: GContent,
    styles: Seq<GStyle>,
    depth: u64,
    acc: Seq<FlowItem>,
) -> Result<Seq<FlowItem>, Diag>
    decreases MAX_LAYOUT_DEPTH - depth, c,
{
    match c {
        GContent::Text { width, span } => Ok(spec_merge_run(acc, width.units as int, span)),
        GContent::Spacing { amount, span } => Ok(acc.push(FlowItem::Spacing { amount, span })),
        GContent::Block { width, height, breakable, span } => Ok(
            acc.push(FlowItem::Block { width, height, breakable, span }),
        ),
        GContent::Colbreak { span } => Ok(acc.push(FlowItem::Break { span })),
        GContent::Pagebreak { span } => Ok(acc.push(FlowItem::Break { span })),
        GContent::Place { width, height, span } => Ok(
            acc.push(FlowItem::Place { width, height, span }),
        ),
        GContent::Flush { span } => Ok(acc.push(FlowItem::Flush { span })),
        GContent::Elem { tag, width, height, span } => match find_rule(styles, tag) {
            None => Ok(acc.push(FlowItem::Block { width, height, breakable: false, span })),
            Some(GRuleAction::Abort(code)) => Err(
                Diag { span, kind: DiagKind::HookFailure(code) },
            ),
            Some(GRuleAction::Rewrite(body)) => if depth >= MAX_LAYOUT_DEPTH {
                Err(Diag { span, kind: DiagKind::LayoutDepthExceeded })
            } else {
                spec_realize(body, styles, (depth + 1) as u64, acc)
            },
        },
        GContent::Sequence { children, .. } => spec_realize_seq(children, styles, depth, acc),
        GContent::Flow { children, .. } => spec_realize_seq(children, styles, depth, acc),
    }
}

/// Realize the children of a sequence left to right, threading the
/// accumulated flow.
pub open spec fn spec_realize_seq(
    cs: Seq<GContent>,
    styles: Seq<GStyle>,
    depth: u64,
    acc: Seq<FlowItem>,
) -> Result<Seq<FlowItem>, Diag>
    decreases MAX_LAYOUT_DEPTH - depth, cs,
{
    if cs.len() == 0 {
        Ok(acc)
    } else {
        match spec_realize(cs[0], styles, depth, acc) {
            Err(d) => Err(d),
            Ok(acc2) => spec_realize_seq(cs.drop_first(), styles, depth, acc2),
        }
    }
}

/// Rewrite one content element into flow items appended to `out`.
pub fn realize_into(c: &Content, styles: &StyleChain, depth: u64, out: &mut Vec<FlowItem>) -> (r:
    Result<(), Diag>)
    requires
        content_view(*c).wf(),
        styles_wf(styles@),
        flow_items_wf(old(out)@),
    ensures
        flow_items_wf(final(out)@),
        match r {
            Ok(()) => spec_realize(c@, styles@, depth, old(out)@) == Ok::<Seq<FlowItem>, Diag>(
                final(out)@,
            ),
            Err(d) => spec_realize(c@, styles@, depth, old(out)@) == Err::<Seq<FlowItem>, Diag>(
                d,
            ),
        },
    decreases MAX_LAYOUT_DEPTH - depth, c, 1int,
{
    match c {
        Content::Text { width, span } => {
            let n = out.len();
            if n > 0 {
                let last = out[n - 1];
                match last {
                    FlowItem::Par { width: w0, span: sp } => {
                        let joined = if w0.units + width.units > MAX_UNITS {
                            MAX_UNITS
                        } else {
                            w0.units + width.units
                        };
                        out.set(n - 1, FlowItem::Par { width: Length::new(joined), span: sp });
                        proof {
                            assert(out@ =~= spec_merge_run(
                                old(out)@,
                                width.units as int,
                                *span,
                            ));
                        }
                        return Ok(());
                    },
                    _ => {},
                }
            }
            out.push(FlowItem::Par { width: *width, span: *span });
            proof {
                assert(out@ =~= spec_merge_run(old(out)@, width.units as int, *span));
            }
            Ok(())
        },
        Content::Spacing { amount, span } => {
            out.push(FlowItem::Spacing { amount: *amount, span: *span });
            Ok(())
        },
        Content::Block { width, height, breakable, span } => {
            out.push(
                FlowItem::Block {
                    width: *width,
                    height: *height,
                    breakable: *breakable,
                    span: *span,
                },
            );
            Ok(())
        },
        Content::Colbreak { span } => {
            out.push(FlowItem::Break { span: *span });
            Ok(())
        },
        Content::Pagebreak { span } => {
            out.push(FlowItem::Break { span: *span });
            Ok(())
        },
        Content::Place { width, height, span } => {
            out.push(FlowItem::Place { width: *width, height: *height, span: *span });
            Ok(())
        },
        Content::Flush { span } => {
            out.push(FlowItem::Flush { span: *span });
            Ok(())
        },
        Content::Elem { tag, width, height, span } => {
            match styles.find_rule_idx(*tag) {
                None => {
                    out.push(
                        FlowItem::Block {
                            width: *width,
                            height: *height,
                            breakable: false,
                            span: *span,
                        },
                    );
                    Ok(())
                },
                Some(i) => {
                    proof {
                        lemma_style_seq_view_len(styles.entries@);
                        lemma_style_seq_view_index(styles.entries@, i as int);
                    }
                    match &styles.entries[i] {
                        Style::Show { action, .. } => match action {
                            RuleAction::Abort(code) => Err(
                                Diag::new(*span, DiagKind::HookFailure(*code)),
                            ),
                            RuleAction::Rewrite(body) => {
                                if depth >= MAX_LAYOUT_DEPTH {
                                    Err(Diag::new(*span, DiagKind::LayoutDepthExceeded))
                                } else {
                                    proof {
                                        assert(styles@[i as int].wf());
                                        assert(content_view(*body).wf());
                                    }
                                    realize_into(body, styles, depth + 1, out)
                                }
                            },
                        },
                        _ => {
                            // The found index always names a show rule.
                            proof {
                                assert(false);
                            }
                            Err(Diag::new(*span, DiagKind::LayoutDepthExceeded))
                        },
                    }
                },
            }
        },
        Content::Sequence { children, .. } => {
            proof {
                lemma_content_seq_view_len(children@);
                assert forall|j: int|
                    0 <= j < children@.len() implies content_view(children@[j]).wf() by {
                    lemma_content_seq_view_index(children@, j);
                }
            }
            realize_children(c, children, styles, depth, out)
        },
        Content::Flow { children, .. } => {
            proof {
                lemma_content_seq_view_len(children@);
                assert forall|j: int|
                    0 <= j < children@.len() implies content_view(children@[j]).wf() by {
                    lemma_content_seq_view_index(children@, j);
                }
            }
            realize_children(c, children, styles, depth, out)
        },
    }
}

/// Realize each child of a sequence in order. The `parent` argument only
/// serves the termination measure: the children must be one of its fields.
fn realize_children(
    parent: &Content,
    children: &Vec<Content>,
    styles: &StyleChain,
    depth: u64,
    out: &mut Vec<FlowItem>,
) -> (r: Result<(), Diag>)
    requires
        decreases_to!(*parent => *children),
        forall|j: int| 0 <= j < children@.len() ==> content_view(children@[j]).wf(),
        styles_wf(styles@),
        flow_items_wf(old(out)@),
    ensures
        flow_items_wf(final(out)@),
        match r {
            Ok(()) => spec_realize_seq(
                content_seq_view(children@),
                styles@,
                depth,
                old(out)@,
            ) == Ok::<Seq<FlowItem>, Diag>(final(out)@),
            Err(d) => spec_realize_seq(
                content_seq_view(children@),
                styles@,
                depth,
                old(out)@,
            ) == Err::<Seq<FlowItem>, Diag>(d),
        },
    decreases MAX_LAYOUT_DEPTH - depth, parent, 0int,
{
    let ghost gcs = content_seq_view(children@);
    proof {
        lemma_content_seq_view_len(children@);
        assert(gcs.skip(0) =~= gcs);
    }
    let n = children.len();
    let mut i: usize = 0;
    while i < n
        invariant
            n == children@.len() == gcs.len(),
            gcs == content_seq_view(children@),
            i <= n,
            styles_wf(styles@),
            decreases_to!(*parent => *children),
            forall|j: int| 0 <= j < children@.len() ==> content_view(children@[j]).wf(),
            flow_items_wf(out@),
            spec_realize_seq(gcs.skip(i as int), styles@, depth, out@) == spec_realize_seq(
                gcs,
                styles@,
                depth,
                old(out)@,
            ),
        decreases n - i,
    {
        proof {
            lemma_content_seq_view_index(children@, i as int);
            assert(gcs.skip(i as int).drop_first() =~= gcs.skip(i + 1));
            assert(gcs.skip(i as int)[0] == gcs[i as int]);
            assert(decreases_to!(*children => children@));
            assert(decreases_to!(children@ => children@[i as int]));
        }
        let res = realize_into(&children[i], styles, depth, out);
        match res {
            Ok(()) => {},
            Err(d) => {
                return Err(d);
            },
        }
        i += 1;
    }
    proof {
        assert(gcs.skip(n as int) =~= Seq::<GContent>::empty());
    }
    Ok(())
}

/// Rewrite a content element into a canonical flow under the given styles.
pub fn realize_flow(c: &Content, styles: &StyleChain, depth: u64) -> (r: Result<
    Vec<FlowItem>,
    Diag,
>)
    requires
        content_view(*c).wf(),
        styles_wf(styles@),
    ensures
        match r {
            Ok(items) => {
                &&& spec_realize(c@, styles@, depth, Seq::empty()) == Ok::<Seq<FlowItem>, Diag>(
                    items@,
                )
                &&& flow_items_wf(items@)
            },
            Err(d) => spec_realize(c@, styles@, depth, Seq::empty()) == Err::<
                Seq<FlowItem>,
                Diag,
            >(d),
        },
{
    let mut out: Vec<FlowItem> = Vec::new();
    proof {
        assert(out@ =~= Seq::<FlowItem>::empty());
    }
    match realize_into(c, styles, depth, &mut out) {
        Ok(()) => Ok(out),
        Err(d) => Err(d),
    }
}

/// Depth guard: a show rule that rewrites an element into another element
/// bound by the same rule can never converge. Realization then fails with
/// the depth diagnostic the moment the nesting depth first reaches the
/// fixed maximum — it neither runs past the maximum nor loops, as the
/// termination measure of `spec_realize` shows.
pub proof fn lemma_self_rewrite_depth_exceeded(
    tag: u64,
    width: Length,
    height: Length,
    span: u64,
    body_width: Length,
    body_height: Length,
    body_span: u64,
    styles: Seq<GStyle>,
    depth: u64,
    acc: Seq<FlowItem>,
)
    requires
        find_rule(styles, tag) == Some(
            GRuleAction::Rewrite(
                GContent::Elem { tag, width: body_width, height: body_height, span: body_span },
            ),
        ),
        depth <= MAX_LAYOUT_DEPTH,
    ensures
        spec_realize(GContent::Elem { tag, width, height, span }, styles, depth, acc) == Err::<
            Seq<FlowItem>,
            Diag,
        >(
            Diag {
                span: if depth < MAX_LAYOUT_DEPTH {
                    body_span
                } else {
                    span
                },
                kind: DiagKind::LayoutDepthExceeded,
            },
        ),
    decreases MAX_LAYOUT_DEPTH - depth,
{
    if depth < MAX_LAYOUT_DEPTH {
        lemma_self_rewrite_depth_exceeded(
            tag,
            body_width,
            body_height,
            body_span,
            body_width,
            body_height,
            body_span,
            styles,
            (depth + 1) as u64,
            acc,
        );
    }
}

} // verus!
