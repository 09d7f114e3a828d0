use typst_layout::{
    Content, DiagKind, Engine, Length, Regions, Route, RuleAction, Size, Spec, Style, StyleChain,
    FrameItem,
};

fn sz(w: i64, h: i64) -> Size {
    Size::new(Length::new(w), Length::new(h))
}

fn shrink() -> Spec<bool> {
    Spec::new(false, false)
}

fn block(height: i64, span: u64) -> Content {
    Content::Block {
        width: Length::new(50),
        height: Length::new(height),
        breakable: false,
        span,
    }
}

fn breakable_block(height: i64, span: u64) -> Content {
    Content::Block {
        width: Length::new(50),
        height: Length::new(height),
        breakable: true,
        span,
    }
}

#[test]
fn single_block_single_frame() {
    let mut engine = Engine::new(1, 1);
    let styles = StyleChain::new();
    let regions = Regions::new(sz(100, 100), shrink(), vec![], None);
    let fragment = block(40, 1).measure(&mut engine, &styles, &regions).unwrap();
    assert_eq!(fragment.frames.len(), 1);
    assert_eq!(fragment.frames[0].size.y.units, 40);
    assert_eq!(fragment.frames[0].size.x.units, 50);
    assert_eq!(fragment.frames[0].items.len(), 1);
    assert_eq!(fragment.frames[0].items[0].0.y.units, 0);
}

#[test]
fn purity_two_measures_identical() {
    let mut engine = Engine::new(1, 1);
    let styles = StyleChain::new();
    let regions = Regions::new(sz(100, 30), shrink(), vec![sz(100, 30)], None);
    let content = Content::Sequence {
        children: vec![block(20, 1), breakable_block(25, 2)],
        span: 0,
    };
    let first = content.measure(&mut engine, &styles, &regions).unwrap();
    let second = content.measure(&mut engine, &styles, &regions).unwrap();
    assert!(first.matches(&second));
    // A fresh engine computes the same fragment without any cache.
    let mut other = Engine::new(1, 1);
    let third = content.measure(&mut other, &styles, &regions).unwrap();
    assert!(first.matches(&third));
}

#[test]
fn depth_guard_self_rewrite() {
    let mut engine = Engine::new(1, 1);
    let elem = Content::Elem {
        tag: 5,
        width: Length::new(10),
        height: Length::new(10),
        span: 9,
    };
    let rule_body = Content::Elem {
        tag: 5,
        width: Length::new(10),
        height: Length::new(10),
        span: 10,
    };
    let styles = StyleChain::new().chain(Style::Show {
        tag: 5,
        action: RuleAction::Rewrite(rule_body),
    });
    let regions = Regions::new(sz(100, 100), shrink(), vec![], None);
    let err = elem.measure(&mut engine, &styles, &regions).unwrap_err();
    assert_eq!(err.kind, DiagKind::LayoutDepthExceeded);
    assert!(err.hint().is_some());
}

#[test]
fn depth_guard_trips_at_the_maximum_only() {
    // A rule that rewrites to a plain block converges and is fine.
    let mut engine = Engine::new(1, 1);
    let elem = Content::Elem {
        tag: 3,
        width: Length::new(10),
        height: Length::new(10),
        span: 1,
    };
    let styles = StyleChain::new().chain(Style::Show {
        tag: 3,
        action: RuleAction::Rewrite(block(30, 2)),
    });
    let regions = Regions::new(sz(100, 100), shrink(), vec![], None);
    let fragment = elem.measure(&mut engine, &styles, &regions).unwrap();
    assert_eq!(fragment.frames[0].size.y.units, 30);
    // At the maximum route depth even plain content is rejected.
    let mut deep = Engine::new(1, 1);
    deep.route = Route {
        depth: typst_layout::MAX_LAYOUT_DEPTH,
        unnested: true,
    };
    let err = block(10, 7).measure(&mut deep, &StyleChain::new(), &regions).unwrap_err();
    assert_eq!(err.kind, DiagKind::LayoutDepthExceeded);
    assert_eq!(err.span, 7);
}

#[test]
fn region_bound_and_first_region_fit() {
    let mut engine = Engine::new(1, 1);
    let styles = StyleChain::new();
    // Content fitting entirely in the first region: exactly one frame.
    let regions = Regions::new(sz(100, 100), shrink(), vec![sz(100, 100); 3], None);
    let content = Content::Sequence {
        children: vec![block(30, 1), block(30, 2)],
        span: 0,
    };
    let fragment = content.measure(&mut engine, &styles, &regions).unwrap();
    assert_eq!(fragment.frames.len(), 1);
    // Overflowing content never yields more frames than regions.
    let tall = Content::Sequence {
        children: vec![breakable_block(350, 1)],
        span: 0,
    };
    let fragment = tall.measure(&mut engine, &styles, &regions).unwrap();
    assert_eq!(fragment.frames.len(), 4);
}

#[test]
fn exact_axis_sizing() {
    let mut engine = Engine::new(1, 1);
    let styles = StyleChain::new();
    let exact = Spec::new(true, true);
    let regions = Regions::new(sz(80, 60), exact, vec![sz(80, 60); 2], None);
    let content = Content::Sequence {
        children: vec![breakable_block(150, 1)],
        span: 0,
    };
    let fragment = content.measure(&mut engine, &styles, &regions).unwrap();
    assert_eq!(fragment.frames.len(), 3);
    for frame in &fragment.frames {
        assert_eq!(frame.size.x.units, 80);
        assert_eq!(frame.size.y.units, 60);
    }
}

#[test]
fn spacing_collapses_to_maximum() {
    let mut engine = Engine::new(1, 1);
    let styles = StyleChain::new();
    let regions = Regions::new(sz(100, 100), shrink(), vec![], None);
    let content = Content::Sequence {
        children: vec![
            block(20, 1),
            Content::Spacing { amount: Length::new(10), span: 2 },
            Content::Spacing { amount: Length::new(6), span: 3 },
            block(20, 4),
        ],
        span: 0,
    };
    let fragment = content.measure(&mut engine, &styles, &regions).unwrap();
    assert_eq!(fragment.frames.len(), 1);
    let frame = &fragment.frames[0];
    // The second block sits one gap of 10 below the first, not 16.
    assert_eq!(frame.items[0].0.y.units, 0);
    assert_eq!(frame.items[1].0.y.units, 30);
    assert_eq!(frame.size.y.units, 50);
}

#[test]
fn overflow_carry_across_regions() {
    let mut engine = Engine::new(1, 1);
    let styles = StyleChain::new();
    // A breakable block needing two and a half regions of space.
    let regions = Regions::new(sz(50, 10), shrink(), vec![sz(50, 10), sz(50, 10)], None);
    let content = Content::Sequence {
        children: vec![breakable_block(25, 1)],
        span: 0,
    };
    let fragment = content.measure(&mut engine, &styles, &regions).unwrap();
    assert_eq!(fragment.frames.len(), 3);
    assert_eq!(fragment.frames[0].size.y.units, 10);
    assert_eq!(fragment.frames[1].size.y.units, 10);
    assert_eq!(fragment.frames[2].size.y.units, 5);
}

#[test]
fn measure_commits_nothing_layout_commits() {
    let mut engine = Engine::new(1, 1);
    let styles = StyleChain::new();
    let regions = Regions::new(sz(50, 10), shrink(), vec![sz(50, 10), sz(50, 10)], None);
    let content = Content::Sequence {
        children: vec![breakable_block(25, 1)],
        span: 0,
    };
    let fragment = content.measure(&mut engine, &styles, &regions).unwrap();
    assert_eq!(fragment.frames.len(), 3);
    assert_eq!(engine.locator.next, 0);
    // A subsequent layout still starts from the same baseline identities.
    let fragment = content.layout(&mut engine, &styles, &regions).unwrap();
    assert_eq!(fragment.frames.len(), 3);
    assert_eq!(engine.locator.next, 3);
    let fragment = content.layout(&mut engine, &styles, &regions).unwrap();
    assert_eq!(fragment.frames.len(), 3);
    assert_eq!(engine.locator.next, 6);
}

#[test]
fn regions_exhausted() {
    let mut engine = Engine::new(1, 1);
    let styles = StyleChain::new();
    let regions = Regions::new(sz(50, 100), shrink(), vec![], None);
    let content = Content::Sequence {
        children: vec![block(60, 1), block(60, 2)],
        span: 0,
    };
    let err = content.measure(&mut engine, &styles, &regions).unwrap_err();
    assert_eq!(err.kind, DiagKind::RegionsExhausted);
    assert_eq!(err.span, 2);
    assert!(err.hint().is_none());
}

#[test]
fn hook_failure_propagates() {
    let mut engine = Engine::new(1, 1);
    let styles = StyleChain::new().chain(Style::Show {
        tag: 4,
        action: RuleAction::Abort(17),
    });
    let regions = Regions::new(sz(50, 100), shrink(), vec![], None);
    let elem = Content::Elem {
        tag: 4,
        width: Length::new(5),
        height: Length::new(5),
        span: 12,
    };
    let err = elem.measure(&mut engine, &styles, &regions).unwrap_err();
    assert_eq!(err.kind, DiagKind::HookFailure(17));
    assert_eq!(err.span, 12);
}

#[test]
fn most_recent_rule_wins() {
    let mut engine = Engine::new(1, 1);
    let styles = StyleChain::new()
        .chain(Style::Show { tag: 4, action: RuleAction::Abort(17) })
        .chain(Style::Show { tag: 4, action: RuleAction::Rewrite(block(25, 2)) });
    let regions = Regions::new(sz(50, 100), shrink(), vec![], None);
    let elem = Content::Elem {
        tag: 4,
        width: Length::new(5),
        height: Length::new(5),
        span: 12,
    };
    let fragment = elem.measure(&mut engine, &styles, &regions).unwrap();
    assert_eq!(fragment.frames[0].size.y.units, 25);
}

#[test]
fn adjacent_runs_merge_into_one_paragraph() {
    let mut engine = Engine::new(1, 1);
    let styles = StyleChain::new();
    let regions = Regions::new(sz(100, 100), shrink(), vec![], None);
    let content = Content::Sequence {
        children: vec![
            Content::Text { width: Length::new(3), span: 1 },
            Content::Text { width: Length::new(4), span: 2 },
        ],
        span: 0,
    };
    let fragment = content.measure(&mut engine, &styles, &regions).unwrap();
    assert_eq!(fragment.frames.len(), 1);
    let frame = &fragment.frames[0];
    assert_eq!(frame.items.len(), 1);
    match frame.items[0].1 {
        FrameItem::Block(size) => {
            assert_eq!(size.x.units, 7);
            assert_eq!(size.y.units, typst_layout::flow::LINE_HEIGHT);
        }
        _ => panic!("expected a block"),
    }
}

#[test]
fn separated_runs_stay_apart() {
    let mut engine = Engine::new(1, 1);
    let styles = StyleChain::new();
    let regions = Regions::new(sz(100, 100), shrink(), vec![], None);
    let content = Content::Sequence {
        children: vec![
            Content::Text { width: Length::new(3), span: 1 },
            block(5, 2),
            Content::Text { width: Length::new(4), span: 3 },
        ],
        span: 0,
    };
    let fragment = content.measure(&mut engine, &styles, &regions).unwrap();
    assert_eq!(fragment.frames[0].items.len(), 3);
}

#[test]
fn placed_items_and_flush() {
    let mut engine = Engine::new(1, 1);
    let styles = StyleChain::new();
    let regions = Regions::new(sz(100, 50), shrink(), vec![], None);
    let content = Content::Sequence {
        children: vec![
            Content::Place { width: Length::new(20), height: Length::new(20), span: 1 },
            block(10, 2),
            Content::Flush { span: 3 },
        ],
        span: 0,
    };
    let fragment = content.measure(&mut engine, &styles, &regions).unwrap();
    let frame = &fragment.frames[0];
    assert_eq!(frame.items.len(), 2);
    // The placed item resolves at the flush, at the cursor of that moment,
    // without consuming block space.
    assert_eq!(frame.items[1].0.y.units, 10);
    assert!(matches!(frame.items[1].1, FrameItem::Placed(_)));
    assert_eq!(frame.size.y.units, 10);
}

#[test]
fn forced_break_starts_a_new_region() {
    let mut engine = Engine::new(1, 1);
    let styles = StyleChain::new();
    let regions = Regions::new(sz(100, 50), shrink(), vec![sz(100, 50)], None);
    let content = Content::Sequence {
        children: vec![block(10, 1), Content::Colbreak { span: 2 }, block(20, 3)],
        span: 0,
    };
    let fragment = content.measure(&mut engine, &styles, &regions).unwrap();
    assert_eq!(fragment.frames.len(), 2);
    assert_eq!(fragment.frames[0].size.y.units, 10);
    assert_eq!(fragment.frames[1].size.y.units, 20);
}

#[test]
fn document_pages_from_styles() {
    let mut engine = Engine::new(1, 1);
    let styles = StyleChain::new()
        .chain(Style::PageWidth(200))
        .chain(Style::PageHeight(100));
    let content = Content::Sequence {
        children: vec![breakable_block(250, 1)],
        span: 0,
    };
    let doc = content.layout_document(&mut engine, &styles).unwrap();
    assert_eq!(doc.pages.len(), 3);
    for page in &doc.pages {
        assert_eq!(page.size.x.units, 200);
        assert_eq!(page.size.y.units, 100);
    }
    // Document layout is speculative about identities too.
    assert_eq!(engine.locator.next, 0);
}

#[test]
fn document_page_breaks() {
    let mut engine = Engine::new(1, 1);
    let styles = StyleChain::new();
    let content = Content::Sequence {
        children: vec![block(10, 1), Content::Pagebreak { span: 2 }, block(20, 3)],
        span: 0,
    };
    let doc = content.layout_document(&mut engine, &styles).unwrap();
    assert_eq!(doc.pages.len(), 2);
    // The default page template is used when styles say nothing.
    assert_eq!(doc.pages[0].size.x.units, 595);
    assert_eq!(doc.pages[0].size.y.units, 842);
}

#[test]
fn unmatched_element_uses_its_intrinsic_size() {
    let mut engine = Engine::new(1, 1);
    let styles = StyleChain::new();
    let regions = Regions::new(sz(100, 100), shrink(), vec![], None);
    let elem = Content::Elem {
        tag: 9,
        width: Length::new(33),
        height: Length::new(21),
        span: 1,
    };
    let fragment = elem.measure(&mut engine, &styles, &regions).unwrap();
    assert_eq!(fragment.frames[0].size.x.units, 33);
    assert_eq!(fragment.frames[0].size.y.units, 21);
}

#[test]
fn content_equality_is_structural() {
    let a = Content::Sequence {
        children: vec![block(10, 1), Content::Flush { span: 2 }],
        span: 0,
    };
    let b = Content::Sequence {
        children: vec![block(10, 1), Content::Flush { span: 2 }],
        span: 0,
    };
    let c = Content::Sequence {
        children: vec![block(11, 1), Content::Flush { span: 2 }],
        span: 0,
    };
    assert!(typst_layout::content::content_eq(&a, &b));
    assert!(!typst_layout::content::content_eq(&a, &c));
    assert!(typst_layout::content::content_eq(&a.duplicate(), &a));
}

#[test]
fn define_registers_everything() {
    let mut scope = typst_layout::Scope::new();
    typst_layout::scope::define(&mut scope);
    assert_eq!(scope.defs.len(), 29);
    assert_eq!(scope.defs[0].kind, typst_layout::DefKind::Category);
    assert_eq!(scope.defs[1].kind, typst_layout::DefKind::ValueType);
    assert_eq!(scope.defs[8].kind, typst_layout::DefKind::Element);
    assert_eq!(scope.defs[28].kind, typst_layout::DefKind::Func);
}

#[test]
fn route_extend_and_within() {
    let route = Route::root();
    assert_eq!(route.depth, 0);
    let deeper = route.extend();
    assert_eq!(deeper.depth, 1);
    assert!(deeper.within(1));
    assert!(!deeper.within(0));
    assert!(!deeper.nested().unnested);
}

#[test]
fn cache_distinguishes_inputs() {
    let mut engine = Engine::new(1, 1);
    let elem = Content::Elem {
        tag: 4,
        width: Length::new(5),
        height: Length::new(5),
        span: 12,
    };
    let with_rule = StyleChain::new().chain(Style::Show {
        tag: 4,
        action: RuleAction::Rewrite(block(25, 2)),
    });
    let without_rule = StyleChain::new();
    let regions = Regions::new(sz(50, 100), shrink(), vec![], None);
    let ruled = elem.measure(&mut engine, &with_rule, &regions).unwrap();
    assert_eq!(ruled.frames[0].size.y.units, 25);
    // The same content under other styles must not hit the first entry.
    let plain = elem.measure(&mut engine, &without_rule, &regions).unwrap();
    assert_eq!(plain.frames[0].size.y.units, 5);
    // Nor under other regions.
    let narrow = Regions::new(sz(50, 100), Spec::new(true, false), vec![], None);
    let wide = elem.measure(&mut engine, &with_rule, &narrow).unwrap();
    assert_eq!(wide.frames[0].size.x.units, 50);
    assert_eq!(wide.frames[0].size.y.units, 25);
}

#[test]
fn trailing_break_needs_no_further_region() {
    let mut engine = Engine::new(1, 1);
    let styles = StyleChain::new();
    // The break ends the only region; nothing follows, so nothing is owed.
    let regions = Regions::new(sz(100, 50), shrink(), vec![], None);
    let content = Content::Sequence {
        children: vec![block(10, 1), Content::Colbreak { span: 2 }],
        span: 0,
    };
    let fragment = content.measure(&mut engine, &styles, &regions).unwrap();
    assert_eq!(fragment.frames.len(), 1);
}

#[test]
fn shrink_width_covers_widest_item() {
    let mut engine = Engine::new(1, 1);
    let styles = StyleChain::new();
    let regions = Regions::new(sz(100, 50), shrink(), vec![], None);
    let content = Content::Sequence {
        children: vec![
            block(10, 1),
            Content::Place { width: Length::new(70), height: Length::new(5), span: 2 },
            Content::Flush { span: 3 },
        ],
        span: 0,
    };
    let fragment = content.measure(&mut engine, &styles, &regions).unwrap();
    assert_eq!(fragment.frames[0].size.x.units, 70);
}

#[test]
fn repeating_terminal_region() {
    let mut regions = Regions::repeat(sz(30, 40), Spec::new(true, true));
    assert!(regions.has_next());
    regions.next();
    assert_eq!(regions.current().y.units, 40);
    assert!(regions.has_next());
}

#[test]
fn page_properties_shadow() {
    let styles = StyleChain::new()
        .chain(Style::PageWidth(100))
        .chain(Style::PageWidth(250));
    assert_eq!(styles.page_width(), 250);
    assert_eq!(styles.page_height(), 842);
}
