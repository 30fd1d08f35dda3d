use crate::ast::identifier::{Identifier, IdentifierView};
use crate::span::Span;
use crate::text::str_eq;
use vstd::prelude::*;
use vstd::string::*;

verus! {

/// What an expression holds.
pub ghost enum ExpressionView {
    StringValue(Seq<char>, Span),
    Function(Seq<char>, ArgumentsListView, Span),
}

/// What an argument holds.
pub ghost struct ArgumentView {
    pub name: Option<IdentifierView>,
    pub value: ExpressionView,
    pub span: Span,
}

/// What an argument without a value holds.
pub ghost struct EmptyArgumentView {
    pub name: IdentifierView,
}

/// What a list of arguments holds.
pub ghost struct ArgumentsListView {
    pub arguments: Seq<ArgumentView>,
    pub empty_arguments: Seq<EmptyArgumentView>,
    pub trailing_comma: Option<Span>,
}

/// An argument of a function call, named or not.
#[derive(Debug)]
pub struct Argument {
    pub name: Option<Identifier>,
    pub value: Expression,
    pub span: Span,
}

/// An argument with a name and a colon, and nothing behind them.
#[derive(Debug)]
pub struct EmptyArgument {
    pub name: Identifier,
}

/// The arguments between the brackets of a function call.
#[derive(Debug)]
pub struct ArgumentsList {
    pub arguments: Vec<Argument>,
    pub empty_arguments: Vec<EmptyArgument>,
    pub trailing_comma: Option<Span>,
}

/// An expression: a string, or a function call whose arguments are
/// expressions again.
#[derive(Debug)]
pub enum Expression {
    /// Any string value.
    StringValue(String, Span),
    /// A function call, with a name and arguments.
    Function(String, ArgumentsList, Span),
}

/// The view of an identifier that may be missing.
pub open spec fn optional_identifier(name: Option<Identifier>) -> Option<IdentifierView> {
    match name {
        Some(n) => Some(n@),
        None => None,
    }
}

impl View for EmptyArgument {
    type V = EmptyArgumentView;

    open spec fn view(&self) -> EmptyArgumentView {
        EmptyArgumentView { name: self.name@ }
    }
}

impl View for Argument {
    type V = ArgumentView;

    open spec fn view(&self) -> ArgumentView
        decreases self,
    {
        ArgumentView {
            name: optional_identifier(self.name),
            value: self.value.view(),
            span: self.span,
        }
    }
}

impl View for ArgumentsList {
    type V = ArgumentsListView;

    open spec fn view(&self) -> ArgumentsListView
        decreases self,
    {
        ArgumentsListView {
            arguments: Seq::new(
                self.arguments@.len(),
                |i: int|
                    if 0 <= i < self.arguments@.len() {
                        self.arguments@[i].view()
                    } else {
                        arbitrary()
                    },
            ),
            empty_arguments: self.empty_arguments@.map_values(|e: EmptyArgument| e@),
            trailing_comma: self.trailing_comma,
        }
    }
}

impl View for Expression {
    type V = ExpressionView;

    open spec fn view(&self) -> ExpressionView
        decreases self,
    {
        match self {
            Expression::StringValue(value, span) => ExpressionView::StringValue(value@, *span),
            Expression::Function(name, arguments, span) => ExpressionView::Function(
                name@,
                arguments.view(),
                *span,
            ),
        }
    }
}

impl ExpressionView {
    /// The place of the expression.
    pub open spec fn span(self) -> Span {
        match self {
            ExpressionView::StringValue(_, span) => span,
            ExpressionView::Function(_, _, span) => span,
        }
    }

    /// Whether the expression is a call of the function `env`.
    pub open spec fn is_env(self) -> bool {
        match self {
            ExpressionView::Function(name, _, _) => name == "env"@,
            _ => false,
        }
    }

    /// The name of the kind of value.
    pub open spec fn described(self) -> Seq<char> {
        match self {
            ExpressionView::StringValue(_, _) => "string"@,
            ExpressionView::Function(_, _, _) => "functional"@,
        }
    }
}

/// The view of a list of arguments holds the views of the arguments, one for
/// one.
pub proof fn lemma_arguments_view(list: &ArgumentsList)
    ensures
        list@.arguments.len() == list.arguments@.len(),
        forall|i: int|
            0 <= i < list.arguments@.len() ==> (#[trigger] list@.arguments[i])
                == list.arguments@[i]@,
        list@.empty_arguments == list.empty_arguments@.map_values(|e: EmptyArgument| e@),
        list@.trailing_comma == list.trailing_comma,
{
    reveal_with_fuel(<ArgumentsList as View>::view, 2);
}

impl ArgumentsList {
    /// A list without arguments.
    pub fn new() -> (list: ArgumentsList)
        ensures
            list@ == (ArgumentsListView {
                arguments: Seq::<ArgumentView>::empty(),
                empty_arguments: Seq::<EmptyArgumentView>::empty(),
                trailing_comma: None,
            }),
    {
        let list = ArgumentsList {
            arguments: Vec::new(),
            empty_arguments: Vec::new(),
            trailing_comma: None,
        };
        proof {
            assert(list@.arguments =~= Seq::<ArgumentView>::empty());
            assert(list@.empty_arguments =~= Seq::<EmptyArgumentView>::empty());
        }
        list
    }
}

impl Clone for Argument {
    fn clone(&self) -> (copy: Argument)
        ensures
            copy@ == self@,
        decreases self,
    {
        let name = match &self.name {
            Some(name) => Some(name.clone()),
            None => None,
        };
        Argument { name, value: self.value.clone(), span: self.span }
    }
}

impl Clone for EmptyArgument {
    fn clone(&self) -> (copy: EmptyArgument)
        ensures
            copy@ == self@,
    {
        EmptyArgument { name: self.name.clone() }
    }
}

impl Clone for ArgumentsList {
    fn clone(&self) -> (copy: ArgumentsList)
        ensures
            copy@ == self@,
        decreases self,
    {
        let mut arguments: Vec<Argument> = Vec::new();
        let mut i: usize = 0;
        while i < self.arguments.len()
            invariant
                i <= self.arguments@.len(),
                arguments@.len() == i,
                forall|k: int| 0 <= k < i ==> (#[trigger] arguments@[k])@ == self.arguments@[k]@,
            decreases self.arguments@.len() - i,
        {
            assert(decreases_to!(self.arguments => self.arguments[i as int]));
            arguments.push(self.arguments[i].clone());
            i += 1;
        }
        let mut empty_arguments: Vec<EmptyArgument> = Vec::new();
        let mut j: usize = 0;
        while j < self.empty_arguments.len()
            invariant
                j <= self.empty_arguments@.len(),
                empty_arguments@.len() == j,
                forall|k: int|
                    0 <= k < j ==> (#[trigger] empty_arguments@[k])@ == self.empty_arguments@[k]@,
            decreases self.empty_arguments@.len() - j,
        {
            empty_arguments.push(self.empty_arguments[j].clone());
            j += 1;
        }
        let copy = ArgumentsList {
            arguments,
            empty_arguments,
            trailing_comma: self.trailing_comma,
        };
        proof {
            lemma_arguments_view(self);
            lemma_arguments_view(&copy);
            assert(copy@.arguments =~= self@.arguments);
            assert(copy@.empty_arguments =~= self@.empty_arguments);
        }
        copy
    }
}

impl Clone for Expression {
    fn clone(&self) -> (copy: Expression)
        ensures
            copy@ == self@,
        decreases self,
    {
        match self {
            Expression::StringValue(value, span) => Expression::StringValue(value.clone(), *span),
            Expression::Function(name, arguments, span) => Expression::Function(
                name.clone(),
                arguments.clone(),
                *span,
            ),
        }
    }
}

impl Argument {
    pub fn span(&self) -> (span: Span)
        ensures
            span == self@.span,
    {
        self.span
    }
}

impl Expression {
    pub fn as_string_value(&self) -> (value: Option<(&str, Span)>)
        ensures
            match value {
                Some((text, span)) => self@ == ExpressionView::StringValue(text@, span),
                None => self@ is Function,
            },
    {
        match self {
            Expression::StringValue(s, span) => Some((s.as_str(), *span)),
            _ => None,
        }
    }

    pub fn as_function(&self) -> (call: Option<(&str, &ArgumentsList, Span)>)
        ensures
            match call {
                Some((name, arguments, span)) => self@ == ExpressionView::Function(
                    name@,
                    arguments@,
                    span,
                ),
                None => self@ is StringValue,
            },
    {
        match self {
            Expression::Function(name, args, span) => Some((name.as_str(), args, *span)),
            _ => None,
        }
    }

    pub fn span(&self) -> (span: Span)
        ensures
            span == self@.span(),
    {
        match self {
            Expression::StringValue(_, span) => *span,
            Expression::Function(_, _, span) => *span,
        }
    }

    pub fn is_env_expression(&self) -> (is_env: bool)
        ensures
            is_env == self@.is_env(),
    {
        match self {
            Expression::Function(name, _, _) => str_eq(name.as_str(), "env"),
            _ => false,
        }
    }

    /// A readable name for the kind of value: `string` or `functional`.
    pub fn describe_value_type(&self) -> (described: &'static str)
        ensures
            described@ == self@.described(),
    {
        match self {
            Expression::StringValue(_, _) => "string",
            Expression::Function(_, _, _) => "functional",
        }
    }

    pub fn is_function(&self) -> (is_function: bool)
        ensures
            is_function == (self@ is Function),
    {
        match self {
            Expression::Function(_, _, _) => true,
            _ => false,
        }
    }

    pub fn is_string(&self) -> (is_string: bool)
        ensures
            is_string == (self@ is StringValue),
    {
        match self {
            Expression::StringValue(_, _) => true,
            _ => false,
        }
    }
}

} // verus!
