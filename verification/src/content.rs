//! The content model: immutable semantic tree nodes, their mathematical
//! model, and structural equality.

use vstd::prelude::*;
use crate::geom::Length;

verus! {

/// An immutable element of the content tree handed to layout. Every node
/// carries the source span it originated from.
#[derive(Debug)]
pub enum Content {
    /// An inline run of text with its natural width.
    Text { width: Length, span: u64 },
    /// Inter-block spacing of the given amount; adjacent spacing collapses.
    Spacing { amount: Length, span: u64 },
    /// A sized block-level box. Breakable blocks may be split across regions.
    Block { width: Length, height: Length, breakable: bool, span: u64 },
    /// A forced column break.
    Colbreak { span: u64 },
    /// A forced page break.
    Pagebreak { span: u64 },
    /// An out-of-flow item positioned independently of the flow.
    Place { width: Length, height: Length, span: u64 },
    /// Forces resolution of pending out-of-flow items before continuing.
    Flush { span: u64 },
    /// A high-level element subject to user show rules, with an intrinsic
    /// size used when no rule matches.
    Elem { tag: u64, width: Length, height: Length, span: u64 },
    /// An ordered sequence of child content.
    Sequence { children: Vec<Content>, span: u64 },
    /// An already canonical flow of child content.
    Flow { children: Vec<Content>, span: u64 },
}

/// The mathematical model of a content element.
#[verifier::ext_equal]
pub ghost enum GContent {
    Text { width: Length, span: u64 },
    Spacing { amount: Length, span: u64 },
    Block { width: Length, height: Length, breakable: bool, span: u64 },
    Colbreak { span: u64 },
    Pagebreak { span: u64 },
    Place { width: Length, height: Length, span: u64 },
    Flush { span: u64 },
    Elem { tag: u64, width: Length, height: Length, span: u64 },
    Sequence { children: Seq<GContent>, span: u64 },
    Flow { children: Seq<GContent>, span: u64 },
}

/// The model of a content element.
pub open spec fn content_view(c: Content) -> GContent
    decreases c,
{
    match c {
        Content::Text { width, span } => GContent::Text { width, span },
        Content::Spacing { amount, span } => GContent::Spacing { amount, span },
        Content::Block { width, height, breakable, span } => GContent::Block {
            width,
            height,
            breakable,
            span,
        },
        Content::Colbreak { span } => GContent::Colbreak { span },
        Content::Pagebreak { span } => GContent::Pagebreak { span },
        Content::Place { width, height, span } => GContent::Place { width, height, span },
        Content::Flush { span } => GContent::Flush { span },
        Content::Elem { tag, width, height, span } => GContent::Elem { tag, width, height, span },
        Content::Sequence { children, span } => GContent::Sequence {
            children: content_seq_view(children@),
            span,
        },
        Content::Flow { children, span } => GContent::Flow {
            children: content_seq_view(children@),
            span,
        },
    }
}

/// The models of a sequence of content elements, in order.
pub open spec fn content_seq_view(s: Seq<Content>) -> Seq<GContent>
    decreases s,
{
    if s.len() == 0 {
        Seq::empty()
    } else {
        content_seq_view(s.drop_last()).push(content_view(s.last()))
    }
}

impl View for Content {
    type V = GContent;

    open spec fn view(&self) -> GContent {
        content_view(*self)
    }
}

pub proof fn lemma_content_seq_view_len(s: Seq<Content>)
    ensures
        content_seq_view(s).len() == s.len(),
    decreases s,
{
    if s.len() > 0 {
        lemma_content_seq_view_len(s.drop_last());
    }
}

pub proof fn lemma_content_seq_view_index(s: Seq<Content>, i: int)
    requires
        0 <= i < s.len(),
    ensures
        content_seq_view(s)[i] == content_view(s[i]),
    decreases s,
{
    lemma_content_seq_view_len(s);
    lemma_content_seq_view_len(s.drop_last());
    if i < s.len() - 1 {
        lemma_content_seq_view_index(s.drop_last(), i);
    }
}

impl GContent {
    /// The source span of an element's model.
    pub open spec fn span_of(self) -> u64 {
        match self {
            GContent::Text { span, .. } => span,
            GContent::Spacing { span, .. } => span,
            GContent::Block { span, .. } => span,
            GContent::Colbreak { span } => span,
            GContent::Pagebreak { span } => span,
            GContent::Place { span, .. } => span,
            GContent::Flush { span } => span,
            GContent::Elem { span, .. } => span,
            GContent::Sequence { span, .. } => span,
            GContent::Flow { span, .. } => span,
        }
    }

    /// Well-formedness: every geometric field is a valid length.
    pub open spec fn wf(self) -> bool
        decreases self,
    {
        match self {
            GContent::Text { width, .. } => width.wf(),
            GContent::Spacing { amount, .. } => amount.wf(),
            GContent::Block { width, height, .. } => width.wf() && height.wf(),
            GContent::Colbreak { .. } => true,
            GContent::Pagebreak { .. } => true,
            GContent::Place { width, height, .. } => width.wf() && height.wf(),
            GContent::Flush { .. } => true,
            GContent::Elem { width, height, .. } => width.wf() && height.wf(),
            GContent::Sequence { children, .. } => forall|i: int|
                0 <= i < children.len() ==> children[i].wf(),
            GContent::Flow { children, .. } => forall|i: int|
                0 <= i < children.len() ==> children[i].wf(),
        }
    }
}

impl Content {
    /// The source span of this element.
    pub fn span(&self) -> (r: u64)
        ensures
            r == self@.span_of(),
    {
        match self {
            Content::Text { span, .. } => *span,
            Content::Spacing { span, .. } => *span,
            Content::Block { span, .. } => *span,
            Content::Colbreak { span } => *span,
            Content::Pagebreak { span } => *span,
            Content::Place { span, .. } => *span,
            Content::Flush { span } => *span,
            Content::Elem { span, .. } => *span,
            Content::Sequence { span, .. } => *span,
            Content::Flow { span, .. } => *span,
        }
    }

    /// A structurally identical copy of this element.
    pub fn duplicate(&self) -> (r: Content)
        ensures
            r@ == self@,
        decreases self,
    {
        match self {
            Content::Text { width, span } => Content::Text { width: *width, span: *span },
            Content::Spacing { amount, span } => Content::Spacing { amount: *amount, span: *span },
            Content::Block { width, height, breakable, span } => Content::Block {
                width: *width,
                height: *height,
                breakable: *breakable,
                span: *span,
            },
            Content::Colbreak { span } => Content::Colbreak { span: *span },
            Content::Pagebreak { span } => Content::Pagebreak { span: *span },
            Content::Place { width, height, span } => Content::Place {
                width: *width,
                height: *height,
                span: *span,
            },
            Content::Flush { span } => Content::Flush { span: *span },
            Content::Elem { tag, width, height, span } => Content::Elem {
                tag: *tag,
                width: *width,
                height: *height,
                span: *span,
            },
            Content::Sequence { children, span } => Content::Sequence {
                children: duplicate_children(children),
                span: *span,
            },
            Content::Flow { children, span } => Content::Flow {
                children: duplicate_children(children),
                span: *span,
            },
        }
    }
}

/// A structurally identical copy of a content vector.
fn duplicate_children(children: &Vec<Content>) -> (r: Vec<Content>)
    ensures
        content_seq_view(r@) == content_seq_view(children@),
        r@.len() == children@.len(),
    decreases children,
{
    let n = children.len();
    let mut r: Vec<Content> = Vec::new();
    let mut i: usize = 0;
    while i < n
        invariant
            n == children@.len(),
            i == r@.len(),
            i <= n,
            forall|j: int| 0 <= j < i ==> content_view(r@[j]) == content_view(children@[j]),
        decreases n - i,
    {
        proof {
            assert(decreases_to!(children => children@));
            assert(decreases_to!(children@ => children@[i as int]));
        }
        let c = &children[i];
        r.push(c.duplicate());
        i += 1;
    }
    proof {
        lemma_content_seq_views_equal(r@, children@);
    }
    r
}

/// Two content sequences whose elements have equal models have equal
/// sequence models.
proof fn lemma_content_seq_views_equal(a: Seq<Content>, b: Seq<Content>)
    requires
        a.len() == b.len(),
        forall|j: int| 0 <= j < a.len() ==> content_view(a[j]) == content_view(b[j]),
    ensures
        content_seq_view(a) == content_seq_view(b),
{
    lemma_content_seq_view_len(a);
    lemma_content_seq_view_len(b);
    assert forall|j: int| 0 <= j < a.len() implies content_seq_view(a)[j] == content_seq_view(b)[
        j
    ] by {
        lemma_content_seq_view_index(a, j);
        lemma_content_seq_view_index(b, j);
    }
    assert(content_seq_view(a) =~= content_seq_view(b));
}

/// Structural equality of two content trees: their models are equal exactly
/// when this returns true.
pub fn content_eq(a: &Content, b: &Content) -> (r: bool)
    ensures
        r == (a@ == b@),
    decreases a, 1int,
{
    match (a, b) {
        (Content::Text { width: w1, span: s1 }, Content::Text { width: w2, span: s2 }) => {
            *w1 == *w2 && *s1 == *s2
        },
        (
            Content::Spacing { amount: a1, span: s1 },
            Content::Spacing { amount: a2, span: s2 },
        ) => *a1 == *a2 && *s1 == *s2,
        (
            Content::Block { width: w1, height: h1, breakable: b1, span: s1 },
            Content::Block { width: w2, height: h2, breakable: b2, span: s2 },
        ) => *w1 == *w2 && *h1 == *h2 && *b1 == *b2 && *s1 == *s2,
        (Content::Colbreak { span: s1 }, Content::Colbreak { span: s2 }) => *s1 == *s2,
        (Content::Pagebreak { span: s1 }, Content::Pagebreak { span: s2 }) => *s1 == *s2,
        (
            Content::Place { width: w1, height: h1, span: s1 },
            Content::Place { width: w2, height: h2, span: s2 },
        ) => *w1 == *w2 && *h1 == *h2 && *s1 == *s2,
        (Content::Flush { span: s1 }, Content::Flush { span: s2 }) => *s1 == *s2,
        (
            Content::Elem { tag: t1, width: w1, height: h1, span: s1 },
            Content::Elem { tag: t2, width: w2, height: h2, span: s2 },
        ) => *t1 == *t2 && *w1 == *w2 && *h1 == *h2 && *s1 == *s2,
        (
            Content::Sequence { children: c1, span: s1 },
            Content::Sequence { children: c2, span: s2 },
        ) => {
            let r = *s1 == *s2 && content_children_eq(a, c1, c2);
            proof {
                lemma_content_seq_view_len(c1@);
                lemma_content_seq_view_len(c2@);
            }
            r
        },
        (
            Content::Flow { children: c1, span: s1 },
            Content::Flow { children: c2, span: s2 },
        ) => {
            let r = *s1 == *s2 && content_children_eq(a, c1, c2);
            proof {
                lemma_content_seq_view_len(c1@);
                lemma_content_seq_view_len(c2@);
            }
            r
        },
        _ => false,
    }
}

/// Structural equality of two content vectors. The `parent` argument only
/// serves the termination measure: the first vector must be one of its
/// fields.
fn content_children_eq(parent: &Content, c1: &Vec<Content>, c2: &Vec<Content>) -> (r: bool)
    requires
        decreases_to!(*parent => *c1),
    ensures
        r == (content_seq_view(c1@) == content_seq_view(c2@)),
    decreases parent, 0int,
{
    proof {
        lemma_content_seq_view_len(c1@);
        lemma_content_seq_view_len(c2@);
    }
    if c1.len() != c2.len() {
        return false;
    }
    let n = c1.len();
    let mut i: usize = 0;
    while i < n
        invariant
            n == c1@.len() == c2@.len(),
            i <= n,
            decreases_to!(*parent => *c1),
            forall|j: int| 0 <= j < i ==> content_view(c1@[j]) == content_view(c2@[j]),
        decreases n - i,
    {
        proof {
            assert(decreases_to!(*c1 => c1@));
            assert(decreases_to!(c1@ => c1@[i as int]));
        }
        if !content_eq(&c1[i], &c2[i]) {
            proof {
                lemma_content_seq_view_index(c1@, i as int);
                lemma_content_seq_view_index(c2@, i as int);
            }
            return false;
        }
        i += 1;
    }
    proof {
        lemma_content_seq_views_equal(c1@, c2@);
    }
    true
}

} // verus!
