//! The style model: an ordered overlay of style blocks with
//! most-recent-wins lookup, carrying page properties and user show rules.

use vstd::prelude::*;
use crate::content::{content_view, Content, GContent};
use crate::geom::MAX_UNITS;

verus! {

/// The default page width, in layout units.
pub const DEFAULT_PAGE_WIDTH: i64 = 595;

/// The default page height, in layout units.
pub const DEFAULT_PAGE_HEIGHT: i64 = 842;

/// What a user show rule does when its element tag matches.
#[derive(Debug)]
pub enum RuleAction {
    /// Replace the matched element by this content; the replacement is
    /// itself realized again, so it may contain further rule-bound elements.
    Rewrite(Content),
    /// Abort layout with a hook failure carrying this code.
    Abort(u64),
}

/// The mathematical model of a rule action.
#[verifier::ext_equal]
pub ghost enum GRuleAction {
    Rewrite(GContent),
    Abort(u64),
}

/// One style block: a property override or a user show rule.
#[derive(Debug)]
pub enum Style {
    /// Overrides the page width used by document layout, in layout units.
    PageWidth(i64),
    /// Overrides the page height used by document layout, in layout units.
    PageHeight(i64),
    /// A user rewrite hook for elements with the given tag.
    Show { tag: u64, action: RuleAction },
}

/// The mathematical model of a style block.
#[verifier::ext_equal]
pub ghost enum GStyle {
    PageWidth(i64),
    PageHeight(i64),
    Show { tag: u64, action: GRuleAction },
}

/// The model of a style block.
pub open spec fn style_view(s: Style) -> GStyle {
    match s {
        Style::PageWidth(w) => GStyle::PageWidth(w),
        Style::PageHeight(h) => GStyle::PageHeight(h),
        Style::Show { tag, action } => GStyle::Show {
            tag,
            action: match action {
                RuleAction::Rewrite(c) => GRuleAction::Rewrite(content_view(c)),
                RuleAction::Abort(code) => GRuleAction::Abort(code),
            },
        },
    }
}

/// The models of a sequence of style blocks, in order.
pub open spec fn style_seq_view(s: Seq<Style>) -> Seq<GStyle>
    decreases s,
{
    if s.len() == 0 {
        Seq::empty()
    } else {
        style_seq_view(s.drop_last()).push(style_view(s.last()))
    }
}

pub proof fn lemma_style_seq_view_len(s: Seq<Style>)
    ensures
        style_seq_view(s).len() == s.len(),
    decreases s,
{
    if s.len() > 0 {
        lemma_style_seq_view_len(s.drop_last());
    }
}

pub proof fn lemma_style_seq_view_index(s: Seq<Style>, i: int)
    requires
        0 <= i < s.len(),
    ensures
        style_seq_view(s)[i] == style_view(s[i]),
    decreases s,
{
    lemma_style_seq_view_len(s);
    lemma_style_seq_view_len(s.drop_last());
    if i < s.len() - 1 {
        lemma_style_seq_view_index(s.drop_last(), i);
    }
}

impl GStyle {
    /// Well-formedness: page properties are valid lengths, rule bodies are
    /// well-formed content.
    pub open spec fn wf(self) -> bool {
        match self {
            GStyle::PageWidth(w) => 0 <= w <= MAX_UNITS,
            GStyle::PageHeight(h) => 0 <= h <= MAX_UNITS,
            GStyle::Show { action, .. } => match action {
                GRuleAction::Rewrite(c) => c.wf(),
                GRuleAction::Abort(..) => true,
            },
        }
    }
}

/// Every style block of the chain is well-formed.
pub open spec fn styles_wf(styles: Seq<GStyle>) -> bool {
    forall|i: int| 0 <= i < styles.len() ==> styles[i].wf()
}

/// The active show rule for the given tag: the most recently chained one
/// wins; `None` when no rule matches.
pub open spec fn find_rule(styles: Seq<GStyle>, tag: u64) -> Option<GRuleAction>
    decreases styles.len(),
{
    if styles.len() == 0 {
        None
    } else {
        match styles.last() {
            GStyle::Show { tag: t, action } => if t == tag {
                Some(action)
            } else {
                find_rule(styles.drop_last(), tag)
            },
            _ => find_rule(styles.drop_last(), tag),
        }
    }
}

/// The page width selected by the chain: the most recent override wins,
/// else the default.
pub open spec fn page_width(styles: Seq<GStyle>) -> i64
    decreases styles.len(),
{
    if styles.len() == 0 {
        DEFAULT_PAGE_WIDTH
    } else {
        match styles.last() {
            GStyle::PageWidth(w) => w,
            _ => page_width(styles.drop_last()),
        }
    }
}

/// The page height selected by the chain: the most recent override wins,
/// else the default.
pub open spec fn page_height(styles: Seq<GStyle>) -> i64
    decreases styles.len(),
{
    if styles.len() == 0 {
        DEFAULT_PAGE_HEIGHT
    } else {
        match styles.last() {
            GStyle::PageHeight(h) => h,
            _ => page_height(styles.drop_last()),
        }
    }
}

impl Style {
    /// A structurally identical copy of this style block.
    pub fn duplicate(&self) -> (r: Style)
        ensures
            style_view(r) == style_view(*self),
    {
        match self {
            Style::PageWidth(w) => Style::PageWidth(*w),
            Style::PageHeight(h) => Style::PageHeight(*h),
            Style::Show { tag, action } => Style::Show {
                tag: *tag,
                action: match action {
                    RuleAction::Rewrite(c) => RuleAction::Rewrite(c.duplicate()),
                    RuleAction::Abort(code) => RuleAction::Abort(*code),
                },
            },
        }
    }

    /// Structural equality of two style blocks.
    pub fn matches(&self, other: &Style) -> (r: bool)
        ensures
            r == (style_view(*self) == style_view(*other)),
    {
        match (self, other) {
            (Style::PageWidth(a), Style::PageWidth(b)) => *a == *b,
            (Style::PageHeight(a), Style::PageHeight(b)) => *a == *b,
            (
                Style::Show { tag: t1, action: a1 },
                Style::Show { tag: t2, action: a2 },
            ) => *t1 == *t2 && match (a1, a2) {
                (RuleAction::Rewrite(c1), RuleAction::Rewrite(c2)) => crate::content::content_eq(
                    c1,
                    c2,
                ),
                (RuleAction::Abort(x), RuleAction::Abort(y)) => *x == *y,
                _ => false,
            },
            _ => false,
        }
    }
}

/// An immutable, ordered overlay of style blocks. A chain is extended by
/// appending a block, which only adds or shadows entries, never removes
/// any; lookups walk from the most recent entry back.
#[derive(Debug)]
pub struct StyleChain {
    /// The style blocks, oldest first.
    pub entries: Vec<Style>,
}

impl View for StyleChain {
    type V = Seq<GStyle>;

    open spec fn view(&self) -> Seq<GStyle> {
        style_seq_view(self.entries@)
    }
}

impl StyleChain {
    /// The empty chain.
    pub fn new() -> (r: StyleChain)
        ensures
            r@ == Seq::<GStyle>::empty(),
    {
        StyleChain { entries: Vec::new() }
    }

    /// Extend the chain with one more style block; prior entries are kept
    /// and the new block shadows them in lookups.
    pub fn chain(&self, style: Style) -> (r: StyleChain)
        ensures
            r@ == self@.push(style_view(style)),
    {
        let n = self.entries.len();
        let mut entries: Vec<Style> = Vec::new();
        let mut i: usize = 0;
        while i < n
            invariant
                n == self.entries@.len(),
                i == entries@.len(),
                i <= n,
                forall|j: int| 0 <= j < i ==> style_view(entries@[j]) == style_view(
                    self.entries@[j],
                ),
            decreases n - i,
        {
            let s = self.entries[i].duplicate();
            entries.push(s);
            i += 1;
        }
        entries.push(style);
        let r = StyleChain { entries };
        proof {
            lemma_style_views_equal(r.entries@, self.entries@.push(style));
            lemma_style_seq_view_push(self.entries@, style);
        }
        r
    }

    /// A structurally identical copy of this chain.
    pub fn duplicate(&self) -> (r: StyleChain)
        ensures
            r@ == self@,
    {
        let n = self.entries.len();
        let mut entries: Vec<Style> = Vec::new();
        let mut i: usize = 0;
        while i < n
            invariant
                n == self.entries@.len(),
                i == entries@.len(),
                i <= n,
                forall|j: int| 0 <= j < i ==> style_view(entries@[j]) == style_view(
                    self.entries@[j],
                ),
            decreases n - i,
        {
            let s = self.entries[i].duplicate();
            entries.push(s);
            i += 1;
        }
        let r = StyleChain { entries };
        proof {
            lemma_style_views_equal(r.entries@, self.entries@);
        }
        r
    }

    /// Structural equality of two chains.
    pub fn matches(&self, other: &StyleChain) -> (r: bool)
        ensures
            r == (self@ == other@),
    {
        proof {
            lemma_style_seq_view_len(self.entries@);
            lemma_style_seq_view_len(other.entries@);
        }
        if self.entries.len() != other.entries.len() {
            return false;
        }
        let n = self.entries.len();
        let mut i: usize = 0;
        while i < n
            invariant
                n == self.entries@.len() == other.entries@.len(),
                i <= n,
                forall|j: int| 0 <= j < i ==> style_view(self.entries@[j]) == style_view(
                    other.entries@[j],
                ),
            decreases n - i,
        {
            if !self.entries[i].matches(&other.entries[i]) {
                proof {
                    lemma_style_seq_view_index(self.entries@, i as int);
                    lemma_style_seq_view_index(other.entries@, i as int);
                }
                return false;
            }
            i += 1;
        }
        proof {
            lemma_style_views_equal(self.entries@, other.entries@);
        }
        true
    }

    /// The index of the entry holding the active show rule for `tag`, or
    /// `None` when no rule matches.
    pub fn find_rule_idx(&self, tag: u64) -> (r: Option<usize>)
        ensures
            match r {
                Some(i) => {
                    &&& i < self.entries@.len()
                    &&& self.entries@[i as int] is Show
                    &&& style_view(self.entries@[i as int]) == (GStyle::Show {
                        tag,
                        action: find_rule(self@, tag).unwrap(),
                    })
                    &&& find_rule(self@, tag) is Some
                },
                None => find_rule(self@, tag) is None,
            },
    {
        proof {
            lemma_style_seq_view_len(self.entries@);
        }
        let ghost gs = self@;
        let mut i: usize = self.entries.len();
        proof {
            assert(gs.take(gs.len() as int) =~= gs);
        }
        while i > 0
            invariant
                self.entries@.len() == gs.len(),
                gs == self@,
                i <= gs.len(),
                find_rule(gs, tag) == find_rule(gs.take(i as int), tag),
            decreases i,
        {
            i = i - 1;
            proof {
                lemma_style_seq_view_index(self.entries@, i as int);
                assert(gs.take(i + 1).drop_last() =~= gs.take(i as int));
                assert(gs.take(i + 1).last() == gs[i as int]);
            }
            match &self.entries[i] {
                Style::Show { tag: t, action } => {
                    if *t == tag {
                        return Some(i);
                    }
                },
                _ => {},
            }
        }
        proof {
            assert(gs.take(0) =~= Seq::<GStyle>::empty());
        }
        None
    }

    /// The page width selected by this chain.
    pub fn page_width(&self) -> (r: i64)
        ensures
            r == page_width(self@),
    {
        proof {
            lemma_style_seq_view_len(self.entries@);
        }
        let ghost gs = self@;
        let mut i: usize = self.entries.len();
        proof {
            assert(gs.take(gs.len() as int) =~= gs);
        }
        while i > 0
            invariant
                self.entries@.len() == gs.len(),
                gs == self@,
                i <= gs.len(),
                page_width(gs) == page_width(gs.take(i as int)),
            decreases i,
        {
            i = i - 1;
            proof {
                lemma_style_seq_view_index(self.entries@, i as int);
                assert(gs.take(i + 1).drop_last() =~= gs.take(i as int));
                assert(gs.take(i + 1).last() == gs[i as int]);
            }
            match &self.entries[i] {
                Style::PageWidth(w) => {
                    return *w;
                },
                _ => {},
            }
        }
        proof {
            assert(gs.take(0) =~= Seq::<GStyle>::empty());
        }
        DEFAULT_PAGE_WIDTH
    }

    /// The page height selected by this chain.
    pub fn page_height(&self) -> (r: i64)
        ensures
            r == page_height(self@),
    {
        proof {
            lemma_style_seq_view_len(self.entries@);
        }
        let ghost gs = self@;
        let mut i: usize = self.entries.len();
        proof {
            assert(gs.take(gs.len() as int) =~= gs);
        }
        while i > 0
            invariant
                self.entries@.len() == gs.len(),
                gs == self@,
                i <= gs.len(),
                page_height(gs) == page_height(gs.take(i as int)),
            decreases i,
        {
            i = i - 1;
            proof {
                lemma_style_seq_view_index(self.entries@, i as int);
                assert(gs.take(i + 1).drop_last() =~= gs.take(i as int));
                assert(gs.take(i + 1).last() == gs[i as int]);
            }
            match &self.entries[i] {
                Style::PageHeight(h) => {
                    return *h;
                },
                _ => {},
            }
        }
        proof {
            assert(gs.take(0) =~= Seq::<GStyle>::empty());
        }
        DEFAULT_PAGE_HEIGHT
    }
}

/// A well-formed chain selects a well-formed page width.
pub proof fn lemma_page_width_wf(styles: Seq<GStyle>)
    requires
        styles_wf(styles),
    ensures
        0 <= page_width(styles) <= MAX_UNITS,
    decreases styles.len(),
{
    if styles.len() > 0 {
        assert(styles[styles.len() - 1].wf());
        assert(styles_wf(styles.drop_last()));
        lemma_page_width_wf(styles.drop_last());
    }
}

/// A well-formed chain selects a well-formed page height.
pub proof fn lemma_page_height_wf(styles: Seq<GStyle>)
    requires
        styles_wf(styles),
    ensures
        0 <= page_height(styles) <= MAX_UNITS,
    decreases styles.len(),
{
    if styles.len() > 0 {
        assert(styles[styles.len() - 1].wf());
        assert(styles_wf(styles.drop_last()));
        lemma_page_height_wf(styles.drop_last());
    }
}

/// Two style vectors whose entries have equal models have equal sequence
/// models.
proof fn lemma_style_views_equal(a: Seq<Style>, b: Seq<Style>)
    requires
        a.len() == b.len(),
        forall|j: int| 0 <= j < a.len() ==> style_view(a[j]) == style_view(b[j]),
    ensures
        style_seq_view(a) == style_seq_view(b),
{
    lemma_style_seq_view_len(a);
    lemma_style_seq_view_len(b);
    assert forall|j: int| 0 <= j < a.len() implies style_seq_view(a)[j] == style_seq_view(b)[
        j
    ] by {
        lemma_style_seq_view_index(a, j);
        lemma_style_seq_view_index(b, j);
    }
    assert(style_seq_view(a) =~= style_seq_view(b));
}

/// Appending one style block appends its model.
pub proof fn lemma_style_seq_view_push(s: Seq<Style>, style: Style)
    ensures
        style_seq_view(s.push(style)) == style_seq_view(s).push(style_view(style)),
{
    assert(s.push(style).drop_last() =~= s);
    assert(s.push(style).last() == style);
}

} // verus!
