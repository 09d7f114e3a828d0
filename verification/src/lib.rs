//! A verified core of a layout engine for a document-typesetting system.
//!
//! The library turns a tree of immutable, styled content into concrete
//! positioned geometry: pages made of sized frames holding positioned items.
//! Content is first realized into canonical flow-level items (applying
//! user-supplied show rules bounded by a recursion-depth guard), then
//! distributed over successive regions of available space, splitting
//! breakable items across regions. Measurement is memoized in a cache whose
//! soundness is verified: layout is proved to be a pure function of its
//! observable inputs.

pub mod content;
pub mod diag;
pub mod engine;
pub mod flow;
pub mod frame;
pub mod geom;
pub mod realize;
pub mod regions;
pub mod scope;
pub mod styles;

pub use content::Content;
pub use diag::{Diag, DiagKind};
pub use engine::{Document, Engine, Locator, Route, Tracer};
pub use flow::FlowItem;
pub use frame::{Fragment, Frame, FrameItem};
pub use geom::{Dir, Gen, Length, Point, Size, Spec, SpecAxis};
pub use realize::MAX_LAYOUT_DEPTH;
pub use regions::Regions;
pub use scope::{define, Def, DefKind, Scope};
pub use styles::{RuleAction, Style, StyleChain};
