//! The registration hook exposing the layout types, elements, and entry
//! points to the scripting front end.

use vstd::prelude::*;

verus! {

/// The kind of a definition registered with the front end.
#[derive(Clone, Copy, PartialEq, Eq, Structural, Debug)]
pub enum DefKind {
    /// A category of definitions.
    Category,
    /// A geometric value type (length, angle, ratio, relative length,
    /// fraction, direction, alignment).
    ValueType,
    /// A block-structuring element.
    Element,
    /// A callable entry point.
    Func,
}

/// One definition registered with the front end, identified by a code.
#[derive(Clone, Copy, PartialEq, Eq, Structural, Debug)]
pub struct Def {
    /// The kind of the definition.
    pub kind: DefKind,
    /// The registration code of the definition.
    pub code: u64,
}

/// A scope of definitions visible to the front end.
#[derive(Debug)]
pub struct Scope {
    /// The registered definitions, in registration order.
    pub defs: Vec<Def>,
}

impl Scope {
    /// The empty scope.
    pub fn new() -> (r: Scope)
        ensures
            r.defs@ == Seq::<Def>::empty(),
    {
        Scope { defs: Vec::new() }
    }

    /// Register one definition.
    pub fn register(&mut self, d: Def)
        ensures
            final(self).defs@ == old(self).defs@.push(d),
    {
        self.defs.push(d);
    }
}

/// Everything `define` registers, in order: the layout category, the seven
/// geometric value types, the nineteen block-structuring elements, and the
/// two callable entry points.
pub open spec fn layout_definitions() -> Seq<Def> {
    seq![
        Def { kind: DefKind::Category, code: 0 },
        Def { kind: DefKind::ValueType, code: 1 },
        Def { kind: DefKind::ValueType, code: 2 },
        Def { kind: DefKind::ValueType, code: 3 },
        Def { kind: DefKind::ValueType, code: 4 },
        Def { kind: DefKind::ValueType, code: 5 },
        Def { kind: DefKind::ValueType, code: 6 },
        Def { kind: DefKind::ValueType, code: 7 },
        Def { kind: DefKind::Element, code: 8 },
        Def { kind: DefKind::Element, code: 9 },
        Def { kind: DefKind::Element, code: 10 },
        Def { kind: DefKind::Element, code: 11 },
        Def { kind: DefKind::Element, code: 12 },
        Def { kind: DefKind::Element, code: 13 },
        Def { kind: DefKind::Element, code: 14 },
        Def { kind: DefKind::Element, code: 15 },
        Def { kind: DefKind::Element, code: 16 },
        Def { kind: DefKind::Element, code: 17 },
        Def { kind: DefKind::Element, code: 18 },
        Def { kind: DefKind::Element, code: 19 },
        Def { kind: DefKind::Element, code: 20 },
        Def { kind: DefKind::Element, code: 21 },
        Def { kind: DefKind::Element, code: 22 },
        Def { kind: DefKind::Element, code: 23 },
        Def { kind: DefKind::Element, code: 24 },
        Def { kind: DefKind::Element, code: 25 },
        Def { kind: DefKind::Element, code: 26 },
        Def { kind: DefKind::Func, code: 27 },
        Def { kind: DefKind::Func, code: 28 },
    ]
}

/// Hook up all layout definitions: the category, the geometric value
/// types, the block-structuring elements, and the `measure` and `layout`
/// entry points.
pub fn define(global: &mut Scope)
    ensures
        final(global).defs@ == old(global).defs@ + layout_definitions(),
{
    global.register(Def { kind: DefKind::Category, code: 0 });
    global.register(Def { kind: DefKind::ValueType, code: 1 });
    global.register(Def { kind: DefKind::ValueType, code: 2 });
    global.register(Def { kind: DefKind::ValueType, code: 3 });
    global.register(Def { kind: DefKind::ValueType, code: 4 });
    global.register(Def { kind: DefKind::ValueType, code: 5 });
    global.register(Def { kind: DefKind::ValueType, code: 6 });
    global.register(Def { kind: DefKind::ValueType, code: 7 });
    global.register(Def { kind: DefKind::Element, code: 8 });
    global.register(Def { kind: DefKind::Element, code: 9 });
    global.register(Def { kind: DefKind::Element, code: 10 });
    global.register(Def { kind: DefKind::Element, code: 11 });
    global.register(Def { kind: DefKind::Element, code: 12 });
    global.register(Def { kind: DefKind::Element, code: 13 });
    global.register(Def { kind: DefKind::Element, code: 14 });
    global.register(Def { kind: DefKind::Element, code: 15 });
    global.register(Def { kind: DefKind::Element, code: 16 });
    global.register(Def { kind: DefKind::Element, code: 17 });
    global.register(Def { kind: DefKind::Element, code: 18 });
    global.register(Def { kind: DefKind::Element, code: 19 });
    global.register(Def { kind: DefKind::Element, code: 20 });
    global.register(Def { kind: DefKind::Element, code: 21 });
    global.register(Def { kind: DefKind::Element, code: 22 });
    global.register(Def { kind: DefKind::Element, code: 23 });
    global.register(Def { kind: DefKind::Element, code: 24 });
    global.register(Def { kind: DefKind::Element, code: 25 });
    global.register(Def { kind: DefKind::Element, code: 26 });
    global.register(Def { kind: DefKind::Func, code: 27 });
    global.register(Def { kind: DefKind::Func, code: 28 });
    proof {
        assert(global.defs@ =~= old(global).defs@ + layout_definitions());
    }
}

} // verus!
