use crate::ast::config::{ConfigBlockProperty, PropertyView};
use crate::ast::expression::{
    lemma_arguments_view, ArgumentsList, ArgumentsListView, Expression, ExpressionView,
};
use crate::ast::source_config::{SourceConfig, SourceConfigView};
use crate::ast::top::{Top, TopView};
use crate::ast::{in_source_order, top_idx_to_top_id, SchemaAst, SourceId, TopId};
use crate::span::Span;
use vstd::prelude::*;

verus! {

/// A cursor position in a schema.
#[derive(Debug)]
pub enum SchemaPosition<'ast> {
    /// In-between top-level items
    TopLevel,
    /// In a datasource
    DataSource(SourceId, SourcePosition<'ast>),
}

/// A cursor position relative to an expression.
#[derive(Debug)]
pub enum ExpressionPosition<'ast> {
    /// Not on the expression.
    Expression,
    /// On a string value.
    Value(&'ast str),
    /// On a function call, and on none of its arguments.
    Function(&'ast str),
    /// On a named argument of a function call.
    FunctionArgument(&'ast str, &'ast str),
}

/// A cursor position in a datasource block.
#[derive(Debug)]
pub enum SourcePosition<'ast> {
    /// In the general datasource
    Source,
    /// In a property
    Property(&'ast str, PropertyPosition<'ast>),
    /// Outside of the braces
    Outer,
}

/// A cursor position in a property.
#[derive(Debug)]
pub enum PropertyPosition<'ast> {
    /// On the name of the property.
    Property,
    /// On the rest of the property; the text is the property's name.
    Value(&'ast str),
    /// On a function call that is the property's value.
    FunctionValue(&'ast str),
}

/// What an [`ExpressionPosition`] holds.
pub ghost enum ExpressionPlace {
    Expression,
    Value(Seq<char>),
    Function(Seq<char>),
    FunctionArgument(Seq<char>, Seq<char>),
}

/// What a [`PropertyPosition`] holds.
pub ghost enum PropertyPlace {
    Property,
    Value(Seq<char>),
    FunctionValue(Seq<char>),
}

/// What a [`SourcePosition`] holds.
pub ghost enum SourcePlace {
    Source,
    Property(Seq<char>, PropertyPlace),
    Outer,
}

/// What a [`SchemaPosition`] holds: the index of the block stands for its
/// identifier.
pub ghost enum SchemaPlace {
    TopLevel,
    DataSource(int, SourcePlace),
}

impl<'ast> View for ExpressionPosition<'ast> {
    type V = ExpressionPlace;

    open spec fn view(&self) -> ExpressionPlace {
        match self {
            ExpressionPosition::Expression => ExpressionPlace::Expression,
            ExpressionPosition::Value(v) => ExpressionPlace::Value(v@),
            ExpressionPosition::Function(f) => ExpressionPlace::Function(f@),
            ExpressionPosition::FunctionArgument(f, a) => ExpressionPlace::FunctionArgument(f@, a@),
        }
    }
}

impl<'ast> View for PropertyPosition<'ast> {
    type V = PropertyPlace;

    open spec fn view(&self) -> PropertyPlace {
        match self {
            PropertyPosition::Property => PropertyPlace::Property,
            PropertyPosition::Value(v) => PropertyPlace::Value(v@),
            PropertyPosition::FunctionValue(f) => PropertyPlace::FunctionValue(f@),
        }
    }
}

impl<'ast> View for SourcePosition<'ast> {
    type V = SourcePlace;

    open spec fn view(&self) -> SourcePlace {
        match self {
            SourcePosition::Source => SourcePlace::Source,
            SourcePosition::Property(name, place) => SourcePlace::Property(name@, place@),
            SourcePosition::Outer => SourcePlace::Outer,
        }
    }
}

impl<'ast> View for SchemaPosition<'ast> {
    type V = SchemaPlace;

    open spec fn view(&self) -> SchemaPlace {
        match self {
            SchemaPosition::TopLevel => SchemaPlace::TopLevel,
            SchemaPosition::DataSource(id, place) => SchemaPlace::DataSource(id.index(), place@),
        }
    }
}

/// The name and the place of the `k`-th entry of an argument list: first the
/// arguments with their whole place, then the arguments without a value with
/// the place of their name.
pub open spec fn entry(list: ArgumentsListView, k: int) -> (Option<Seq<char>>, Span) {
    if k < list.arguments.len() {
        let argument = list.arguments[k];
        (
            match argument.name {
                Some(name) => Some(name.name),
                None => None,
            },
            argument.span,
        )
    } else {
        let empty = list.empty_arguments[k - list.arguments.len()];
        (Some(empty.name.name), empty.name.span)
    }
}

/// The number of entries of an argument list.
pub open spec fn entry_count(list: ArgumentsListView) -> int {
    (list.arguments.len() + list.empty_arguments.len()) as int
}

/// Among the first `n` entries, the one that begins last before `position`;
/// of several that begin at the same offset, the later one.
pub open spec fn last_entry_before(list: ArgumentsListView, position: int, n: int) -> Option<int>
    decreases n,
{
    if n <= 0 {
        None
    } else {
        let earlier = last_entry_before(list, position, n - 1);
        let start = entry(list, n - 1).1.start;
        if start < position && (earlier is None || entry(list, earlier->0).1.start <= start) {
            Some(n - 1)
        } else {
            earlier
        }
    }
}

/// The name of the argument that a cursor in a function call is on: the
/// entry that begins last before the cursor, unless the cursor stands behind
/// a trailing comma.
pub open spec fn argument_at(list: ArgumentsListView, position: int) -> Option<Seq<char>> {
    let behind_comma = match list.trailing_comma {
        Some(comma) => position > comma.start,
        None => false,
    };
    match last_entry_before(list, position, entry_count(list)) {
        Some(k) => if behind_comma {
            None
        } else {
            entry(list, k).0
        },
        None => None,
    }
}

/// Where a cursor stands relative to an expression.
pub open spec fn expression_place(expression: ExpressionView, position: int) -> ExpressionPlace {
    match expression {
        ExpressionView::StringValue(value, span) => if span.touches(position) {
            ExpressionPlace::Value(value)
        } else {
            ExpressionPlace::Expression
        },
        ExpressionView::Function(name, arguments, span) => if span.touches(position) {
            match argument_at(arguments, position) {
                Some(argument) => ExpressionPlace::FunctionArgument(name, argument),
                None => ExpressionPlace::Function(name),
            }
        } else {
            ExpressionPlace::Expression
        },
    }
}

/// Where a cursor stands in a property.
pub open spec fn property_place(property: PropertyView, position: int) -> PropertyPlace {
    let on_env = match property.value {
        Some(value) => value.span().touches(position) && value.is_env(),
        None => false,
    };
    if on_env {
        PropertyPlace::FunctionValue("env"@)
    } else if property.span.touches(position) && !property.name.span.touches(position) {
        PropertyPlace::Value(property.name.name)
    } else {
        PropertyPlace::Property
    }
}

/// The first of the properties from index `from` on whose place the cursor
/// touches.
pub open spec fn first_property_at(properties: Seq<PropertyView>, position: int, from: int) -> Option<
    int,
>
    decreases properties.len() - from,
{
    if from < 0 || from >= properties.len() {
        None
    } else if properties[from].span.touches(position) {
        Some(from)
    } else {
        first_property_at(properties, position, from + 1)
    }
}

/// Where a cursor stands in a datasource block.
pub open spec fn source_place(source: SourceConfigView, position: int) -> SourcePlace {
    match first_property_at(source.properties, position, 0) {
        Some(k) => SourcePlace::Property(
            source.properties[k].name.name,
            property_place(source.properties[k], position),
        ),
        None => if source.inner_span.touches(position) {
            SourcePlace::Source
        } else {
            SourcePlace::Outer
        },
    }
}

impl<'ast> ExpressionPosition<'ast> {
    pub fn new(expr: &'ast Expression, position: usize) -> (place: Self)
        ensures
            place@ == expression_place(expr@, position as int),
    {
        match expr {
            Expression::StringValue(val, span) => {
                if span.contains(position) {
                    ExpressionPosition::Value(val.as_str())
                } else {
                    ExpressionPosition::Expression
                }
            },
            Expression::Function(name, args, span) => {
                if span.contains(position) {
                    match argument_name_at(args, position) {
                        Some(arg_name) => ExpressionPosition::FunctionArgument(
                            name.as_str(),
                            arg_name,
                        ),
                        None => ExpressionPosition::Function(name.as_str()),
                    }
                } else {
                    ExpressionPosition::Expression
                }
            },
        }
    }
}

/// The name of the argument of `args` that the cursor is on, if it is on a
/// named one.
fn argument_name_at<'ast>(args: &'ast ArgumentsList, position: usize) -> (name: Option<&'ast str>)
    ensures
        match name {
            Some(n) => argument_at(args@, position as int) == Some(n@),
            None => argument_at(args@, position as int) is None,
        },
{
    let ghost list = args@;
    proof {
        lemma_arguments_view(args);
    }
    let mut best: Option<(usize, Option<&'ast str>)> = None;
    let ghost mut best_index: Option<int> = None;
    let mut i: usize = 0;
    while i < args.arguments.len()
        invariant
            list == args@,
            list.arguments.len() == args.arguments@.len(),
            forall|k: int|
                0 <= k < args.arguments@.len() ==> (#[trigger] list.arguments[k])
                    == args.arguments@[k]@,
            i <= args.arguments@.len(),
            best_index matches Some(b) ==> 0 <= b < i,
            best_index == last_entry_before(list, position as int, i as int),
            match best {
                Some((start, name)) => best_index is Some && entry(list, best_index->0).1.start
                    == start && match name {
                    Some(n) => entry(list, best_index->0).0 == Some(n@),
                    None => entry(list, best_index->0).0 is None,
                },
                None => best_index is None,
            },
        decreases args.arguments@.len() - i,
    {
        let argument = &args.arguments[i];
        let start = argument.span.start;
        assert(list.arguments[i as int] == argument@);
        assert(entry(list, i as int).1 == argument.span);
        let better = match best {
            Some((seen, _)) => seen <= start,
            None => true,
        };
        if start < position && better {
            let name: Option<&'ast str> = match &argument.name {
                Some(n) => Some(n.name.as_str()),
                None => None,
            };
            best = Some((start, name));
            proof {
                best_index = Some(i as int);
            }
        }
        i += 1;
    }
    let count = args.arguments.len();
    let mut j: usize = 0;
    while j < args.empty_arguments.len()
        invariant
            list == args@,
            list.arguments.len() == args.arguments@.len(),
            list.empty_arguments.len() == args.empty_arguments@.len(),
            count == args.arguments@.len(),
            j <= args.empty_arguments@.len(),
            best_index matches Some(b) ==> 0 <= b < count + j,
            best_index == last_entry_before(list, position as int, count + j),
            match best {
                Some((start, name)) => best_index is Some && entry(list, best_index->0).1.start
                    == start && match name {
                    Some(n) => entry(list, best_index->0).0 == Some(n@),
                    None => entry(list, best_index->0).0 is None,
                },
                None => best_index is None,
            },
        decreases args.empty_arguments@.len() - j,
    {
        let empty = &args.empty_arguments[j];
        let start = empty.name.span.start;
        assert(list.empty_arguments[j as int] == empty@);
        assert(entry(list, count + j).1 == empty.name.span);
        let better = match best {
            Some((seen, _)) => seen <= start,
            None => true,
        };
        if start < position && better {
            best = Some((start, Some(empty.name.name.as_str())));
            proof {
                best_index = Some(count + j);
            }
        }
        j += 1;
    }
    let behind_comma = match args.trailing_comma {
        Some(span) => position > span.start,
        None => false,
    };
    match best {
        Some((_, name)) => if behind_comma {
            None
        } else {
            name
        },
        None => None,
    }
}

impl<'ast> SourcePosition<'ast> {
    pub fn new(source: &'ast SourceConfig, position: usize) -> (place: Self)
        ensures
            place@ == source_place(source@, position as int),
    {
        let mut i: usize = 0;
        while i < source.properties.len()
            invariant
                i <= source.properties@.len(),
                first_property_at(source@.properties, position as int, 0) == first_property_at(
                    source@.properties,
                    position as int,
                    i as int,
                ),
            decreases source.properties@.len() - i,
        {
            let property = &source.properties[i];
            if property.span.contains(position) {
                return SourcePosition::Property(
                    property.name.name.as_str(),
                    PropertyPosition::new(property, position),
                );
            }
            i += 1;
        }
        if source.inner_span.contains(position) {
            return SourcePosition::Source;
        }
        SourcePosition::Outer
    }
}

impl<'ast> PropertyPosition<'ast> {
    pub fn new(property: &'ast ConfigBlockProperty, position: usize) -> (place: Self)
        ensures
            place@ == property_place(property@, position as int),
    {
        match &property.value {
            Some(val) => {
                if val.span().contains(position) && val.is_env_expression() {
                    return PropertyPosition::FunctionValue("env");
                }
            },
            None => {},
        }
        if property.span.contains(position) && !property.name.span.contains(position) {
            return PropertyPosition::Value(property.name.name.as_str());
        }
        PropertyPosition::Property
    }
}

/// The index of the item that a search by halving comes upon between the
/// indices `low` and `high`: the item in the middle if the cursor touches
/// it, else what the search finds in the half on the side of the cursor.
pub open spec fn top_index_between(tops: Seq<TopView>, position: int, low: int, high: int) -> Option<
    int,
>
    decreases high - low,
{
    if low < 0 || high > tops.len() || low >= high {
        None
    } else {
        let middle = low + (high - low) / 2;
        if tops[middle].span().start > position {
            top_index_between(tops, position, low, middle)
        } else if tops[middle].span().end < position {
            top_index_between(tops, position, middle + 1, high)
        } else {
            Some(middle)
        }
    }
}

/// The index of the top-level item that is found at a position: the item
/// that a search by halving over all items comes upon. Among items in
/// source order it is an item that the cursor touches, if there is one.
pub open spec fn top_index_at(tops: Seq<TopView>, position: int) -> Option<int> {
    top_index_between(tops, position, 0, tops.len() as int)
}

/// The number that the identifier of the item at index `i` holds.
/// Identifiers are 32 bits wide.
pub open spec fn id_of_index(i: int) -> int {
    ((i as usize) as u32) as int
}

/// Where a cursor stands in a schema: in the block that is found at the
/// position, or at the top level where none is found.
pub open spec fn schema_place(tops: Seq<TopView>, position: int) -> SchemaPlace {
    match top_index_at(tops, position) {
        Some(i) => SchemaPlace::DataSource(id_of_index(i), source_place(tops[i].source(), position)),
        None => SchemaPlace::TopLevel,
    }
}

/// What a search by halving finds, the cursor touches; and among items in
/// source order it finds nothing only where the cursor touches none of the
/// items that it went through.
pub proof fn lemma_top_index_between(tops: Seq<TopView>, position: int, low: int, high: int)
    requires
        0 <= low <= high <= tops.len(),
    ensures
        match top_index_between(tops, position, low, high) {
            Some(i) => low <= i < high && tops[i].span().touches(position),
            None => in_source_order(tops) ==> forall|k: int|
                low <= k < high ==> !(#[trigger] tops[k]).span().touches(position),
        },
    decreases high - low,
{
    if low < high {
        let middle = low + (high - low) / 2;
        if tops[middle].span().start > position {
            lemma_top_index_between(tops, position, low, middle);
        } else if tops[middle].span().end < position {
            lemma_top_index_between(tops, position, middle + 1, high);
        }
    }
}

/// What the search finds, the cursor touches, whatever the order of the
/// items. Among items in source order the search is right: it finds the
/// block for every position strictly inside a block, and it finds nothing
/// only where the cursor touches no block, so for every position strictly
/// between two blocks.
pub proof fn lemma_search_is_right(tops: Seq<TopView>, position: int)
    ensures
        top_index_at(tops, position) matches Some(i) ==> 0 <= i < tops.len()
            && tops[i].span().touches(position),
        in_source_order(tops) && top_index_at(tops, position) is None ==> forall|k: int|
            0 <= k < tops.len() ==> !(#[trigger] tops[k]).span().touches(position),
        in_source_order(tops) ==> forall|k: int|
            0 <= k < tops.len() && (#[trigger] tops[k]).span().start < position
                < tops[k].span().end ==> top_index_at(tops, position) == Some(k),
{
    lemma_top_index_between(tops, position, 0, tops.len() as int);
}

impl SchemaAst {
    /// The index of the top-level item that is found at the position.
    fn find_top_index(&self, position: usize) -> (found: Option<usize>)
        ensures
            match top_index_at(self@, position as int) {
                Some(i) => found matches Some(index) && index == i && index < self@.len(),
                None => found is None,
            },
    {
        let mut low: usize = 0;
        let mut high: usize = self.tops.len();
        while low < high
            invariant
                low <= high <= self.tops@.len(),
                top_index_at(self@, position as int) == top_index_between(
                    self@,
                    position as int,
                    low as int,
                    high as int,
                ),
            decreases high - low,
        {
            let middle = low + (high - low) / 2;
            let span = self.tops[middle].span();
            assert(span == self@[middle as int].span());
            if span.start > position {
                high = middle;
            } else if span.end < position {
                low = middle + 1;
            } else {
                return Some(middle);
            }
        }
        None
    }

    /// Find the node of the tree at the given position, a byte offset: the
    /// block that the search of [`SchemaAst::find_top_at_position`] finds
    /// there, and the place of the cursor in that block.
    pub fn find_at_position(&self, position: usize) -> (place: SchemaPosition<'_>)
        ensures
            place@ == schema_place(self@, position as int),
            place@ matches SchemaPlace::DataSource(_, _) ==> (top_index_at(self@, position as int)
                matches Some(i) && 0 <= i < self@.len() && self@[i].span().touches(position as int)),
            in_source_order(self@) && place@ is TopLevel ==> forall|k: int|
                0 <= k < self@.len() ==> !(#[trigger] self@[k]).span().touches(position as int),
            in_source_order(self@) && self@.len() <= u32::MAX ==> forall|k: int|
                0 <= k < self@.len() && (#[trigger] self@[k]).span().start < position
                    < self@[k].span().end ==> place@ == SchemaPlace::DataSource(
                    k,
                    source_place(self@[k].source(), position as int),
                ),
    {
        proof {
            lemma_search_is_right(self@, position as int);
        }
        match self.find_top_index(position) {
            Some(index) => {
                let top = &self.tops[index];
                assert(self@[index as int] == top@);
                match top {
                    Top::Source(source) => match top_idx_to_top_id(index, top) {
                        TopId::Source(source_id) => {
                            let inner = SourcePosition::new(source, position);
                            let place = SchemaPosition::DataSource(source_id, inner);
                            place
                        },
                    },
                }
            },
            None => SchemaPosition::TopLevel,
        }
    }

    /// Search the top-level items, by halving, for one at the given byte
    /// offset. The search relies on the items standing in source order.
    pub fn find_top_at_position(&self, position: usize) -> (found: Option<TopId>)
        ensures
            match top_index_at(self@, position as int) {
                Some(i) => found matches Some(id) && id.index() == id_of_index(i) && 0 <= i
                    < self@.len() && self@[i].span().touches(position as int),
                None => found is None,
            },
            in_source_order(self@) && found is None ==> forall|k: int|
                0 <= k < self@.len() ==> !(#[trigger] self@[k]).span().touches(position as int),
            in_source_order(self@) && self@.len() <= u32::MAX ==> forall|k: int|
                0 <= k < self@.len() && (#[trigger] self@[k]).span().start < position
                    < self@[k].span().end ==> (found matches Some(id) && id.index() == k),
    {
        proof {
            lemma_search_is_right(self@, position as int);
        }
        match self.find_top_index(position) {
            Some(index) => Some(top_idx_to_top_id(index, &self.tops[index])),
            None => None,
        }
    }
}

} // verus!
