//! The syntax tree of a schema. Every node carries its place in the text. The
//! tree is not validated.

pub mod config;
pub mod expression;
pub mod find_at_position;
pub mod identifier;
pub mod render;
pub mod source_config;
pub mod top;

pub use crate::span::Span;
pub use config::ConfigBlockProperty;
pub use expression::{Argument, ArgumentsList, EmptyArgument, Expression};
pub use find_at_position::{ExpressionPosition, PropertyPosition, SchemaPosition, SourcePosition};
pub use identifier::Identifier;
pub use source_config::{Comment, SourceConfig};
pub use top::Top;

use top::TopView;
use vstd::prelude::*;

verus! {

/// A schema as it was parsed: its top-level items, in the order of the text.
#[derive(Debug)]
pub struct SchemaAst {
    /// All top-level items.
    pub tops: Vec<Top>,
}

impl View for SchemaAst {
    type V = Seq<TopView>;

    open spec fn view(&self) -> Seq<TopView> {
        self.tops@.map_values(|t: Top| t@)
    }
}

/// The places of the items follow one another: each is ordered, and none
/// begins before the one in front of it has ended.
pub open spec fn in_source_order(tops: Seq<TopView>) -> bool {
    &&& forall|i: int| 0 <= i < tops.len() ==> (#[trigger] tops[i]).span().well_formed()
    &&& forall|i: int, j: int|
        0 <= i < j < tops.len() ==> (#[trigger] tops[i]).span().end <= (
        #[trigger] tops[j]).span().start
}

/// Every block of the items is laid out as a block of the text is.
pub open spec fn all_laid_out(tops: Seq<TopView>) -> bool {
    forall|i: int| 0 <= i < tops.len() ==> (#[trigger] tops[i]).source().laid_out()
}

/// An opaque identifier for a generator block in a schema.
#[derive(Debug, Clone, Copy, PartialEq, Eq, PartialOrd, Ord, Hash)]
pub struct GeneratorId(u32);

/// An opaque identifier for a datasource block in a schema.
#[derive(Debug, Clone, Copy, PartialEq, Eq, PartialOrd, Ord, Hash)]
pub struct SourceId(u32);

impl SourceId {
    /// The index of the block among the top-level items.
    pub closed spec fn index(self) -> int {
        self.0 as int
    }
}

/// An identifier for a top-level item in a schema.
#[derive(Debug, Clone, Copy, PartialEq, Eq, PartialOrd, Ord, Hash)]
pub enum TopId {
    /// A datasource block
    Source(SourceId),
}

impl TopId {
    /// The index of the item among the top-level items.
    pub open spec fn index(self) -> int {
        match self {
            TopId::Source(id) => id.index(),
        }
    }
}

/// The identifier of the item at index `top_idx`. Identifiers are 32 bits
/// wide: an index that needs more is cut down to its low 32 bits.
pub fn top_idx_to_top_id(top_idx: usize, top: &Top) -> (id: TopId)
    ensures
        id.index() == (top_idx as u32) as int,
        top_idx <= u32::MAX ==> id.index() == top_idx,
{
    match top {
        Top::Source(_) => TopId::Source(SourceId(#[verifier::truncate] (top_idx as u32))),
    }
}

impl SchemaAst {
    /// All top-level items, each with its identifier.
    pub fn iter_tops(&self) -> (items: Vec<(TopId, &Top)>)
        ensures
            items@.len() == self@.len(),
            forall|i: int|
                0 <= i < items@.len() ==> (#[trigger] items@[i]).1@ == self@[i] && items@[i].0.index()
                    == (i as u32) as int,
    {
        let mut items: Vec<(TopId, &Top)> = Vec::new();
        let mut i: usize = 0;
        while i < self.tops.len()
            invariant
                i <= self.tops@.len(),
                items@.len() == i,
                forall|k: int|
                    0 <= k < i ==> (#[trigger] items@[k]).1@ == self@[k] && items@[k].0.index() == (
                    k as u32) as int,
            decreases self.tops@.len() - i,
        {
            let top = &self.tops[i];
            items.push((top_idx_to_top_id(i, top), top));
            i += 1;
        }
        items
    }

    /// All datasource blocks, in the order of the text.
    pub fn sources(&self) -> (sources: Vec<&SourceConfig>)
        ensures
            sources@.len() == self@.len(),
            forall|i: int| 0 <= i < sources@.len() ==> (#[trigger] sources@[i])@ == self@[i].source(),
    {
        let mut sources: Vec<&SourceConfig> = Vec::new();
        let mut i: usize = 0;
        while i < self.tops.len()
            invariant
                i <= self.tops@.len(),
                sources@.len() == i,
                forall|k: int| 0 <= k < i ==> (#[trigger] sources@[k])@ == self@[k].source(),
            decreases self.tops@.len() - i,
        {
            match self.tops[i].as_source() {
                Some(source) => {
                    sources.push(source);
                },
                None => {},
            }
            i += 1;
        }
        sources
    }

    /// The datasource block with the identifier `id`.
    pub fn source(&self, id: SourceId) -> (source: &SourceConfig)
        requires
            id.index() < self@.len(),
        ensures
            source@ == self@[id.index()].source(),
    {
        match &self.tops[id.0 as usize] {
            Top::Source(source) => source,
        }
    }

    /// The top-level item with the identifier `id`.
    pub fn top(&self, id: TopId) -> (top: &Top)
        requires
            id.index() < self@.len(),
        ensures
            top@ == self@[id.index()],
    {
        let idx = match id {
            TopId::Source(SourceId(idx)) => idx,
        };
        &self.tops[idx as usize]
    }
}

} // verus!
