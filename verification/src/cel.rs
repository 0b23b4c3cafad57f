use cel_interpreter::{Context, Value};
use cel_parser::{Atom, Expression, RelationOp};
use chrono::DateTime;
use std::sync::Arc;
use vstd::prelude::*;

verus! {

/// `cel_parser::Expression`, the tree of an expression of the expression
/// language. Nothing of a value of it is seen here but through
/// `expression_model`.
#[verifier::external_type_specification]
#[verifier::external_body]
pub struct ExExpression(cel_parser::Expression);

/// What an atom of the expression language holds. A float is given by the 64
/// bits of its IEEE 754 encoding.
pub enum AtomModel {
    Int(i64),
    UInt(u64),
    Float(u64),
    String(Seq<char>),
    Bytes(Seq<u8>),
    Bool(bool),
    Null,
}

/// The relations of `cel_parser::RelationOp`.
pub enum RelationModel {
    LessThan,
    LessThanEq,
    GreaterThan,
    GreaterThanEq,
    Equals,
    NotEquals,
    In,
}

/// The operations of `cel_parser::ArithmeticOp`.
pub enum ArithmeticModel {
    Add,
    Subtract,
    Divide,
    Multiply,
    Modulus,
}

/// The operations of `cel_parser::UnaryOp`.
pub enum UnaryModel {
    Not,
    DoubleNot,
    Minus,
    DoubleMinus,
}

/// What `cel_parser::Member` holds: the access to an attribute, to an index,
/// or the fields of a construction.
pub enum MemberModel {
    Attribute(Seq<char>),
    Index(Box<ExpressionModel>),
    Fields(Seq<(Seq<char>, ExpressionModel)>),
}

/// The tree that an expression of the expression language is, variant by
/// variant as its parser builds it.
pub enum ExpressionModel {
    Arithmetic(Box<ExpressionModel>, ArithmeticModel, Box<ExpressionModel>),
    Relation(Box<ExpressionModel>, RelationModel, Box<ExpressionModel>),
    Ternary(Box<ExpressionModel>, Box<ExpressionModel>, Box<ExpressionModel>),
    Or(Box<ExpressionModel>, Box<ExpressionModel>),
    And(Box<ExpressionModel>, Box<ExpressionModel>),
    Unary(UnaryModel, Box<ExpressionModel>),
    Member(Box<ExpressionModel>, Box<MemberModel>),
    FunctionCall(Box<ExpressionModel>, Option<Box<ExpressionModel>>, Seq<ExpressionModel>),
    List(Seq<ExpressionModel>),
    Mapping(Seq<(ExpressionModel, ExpressionModel)>),
    Atom(AtomModel),
    Ident(Seq<char>),
}

/// The tree that a `cel_parser::Expression` holds.
pub uninterp spec fn expression_model(expression: Expression) -> ExpressionModel;

/// The derived `Clone` of `cel_parser::Expression` copies the tree.
pub assume_specification[ <cel_parser::Expression as Clone>::clone ](
    expression: &cel_parser::Expression,
) -> (copy: cel_parser::Expression)
    ensures
        expression_model(copy) == expression_model(*expression),
;

/// What `cel_parser::parse` makes of a text: the tree, or `None` where it
/// reports an error.
pub uninterp spec fn cel_parse(text: Seq<char>) -> Option<ExpressionModel>;

/// The text that the `Debug` impl of `cel_parser::Expression` writes for a tree.
pub uninterp spec fn debug_form(expression: ExpressionModel) -> Seq<char>;

/// What `cel_interpreter::Value::resolve` makes of a tree in a fresh default
/// context in which one variable is bound to one value.
pub uninterp spec fn cel_resolve(
    expression: ExpressionModel,
    variable: Seq<char>,
    value: BindingModel,
) -> ResolutionModel;

/// The top of a parsed literal, as far as compiling a condition reads it.
#[derive(Debug, Clone, Copy, PartialEq, Eq, Structural)]
pub enum Shape {
    Int,
    UInt,
    Float,
    String,
    Bytes,
    Bool,
    Null,
    Ident,
    Member,
    List,
    Mapping,
    Other,
}

/// The top of a tree.
pub open spec fn shape_of(expression: ExpressionModel) -> Shape {
    match expression {
        ExpressionModel::Atom(AtomModel::Int(_)) => Shape::Int,
        ExpressionModel::Atom(AtomModel::UInt(_)) => Shape::UInt,
        ExpressionModel::Atom(AtomModel::Float(_)) => Shape::Float,
        ExpressionModel::Atom(AtomModel::String(_)) => Shape::String,
        ExpressionModel::Atom(AtomModel::Bytes(_)) => Shape::Bytes,
        ExpressionModel::Atom(AtomModel::Bool(_)) => Shape::Bool,
        ExpressionModel::Atom(AtomModel::Null) => Shape::Null,
        ExpressionModel::Ident(_) => Shape::Ident,
        ExpressionModel::Member(_, _) => Shape::Member,
        ExpressionModel::List(_) => Shape::List,
        ExpressionModel::Mapping(_) => Shape::Mapping,
        _ => Shape::Other,
    }
}

/// A value that can be bound to the variable of a condition. A timestamp is
/// given in nanoseconds since the Unix epoch.
#[derive(Debug, Clone)]
pub enum Binding {
    String(String),
    Int(i64),
    UInt(u64),
    Bytes(Vec<u8>),
    Bool(bool),
    Timestamp(i64),
}

/// What a `Binding` holds.
pub enum BindingModel {
    String(Seq<char>),
    Int(i64),
    UInt(u64),
    Bytes(Seq<u8>),
    Bool(bool),
    Timestamp(i64),
}

impl View for Binding {
    type V = BindingModel;

    open spec fn view(&self) -> BindingModel {
        match self {
            Binding::String(text) => BindingModel::String(text@),
            Binding::Int(number) => BindingModel::Int(*number),
            Binding::UInt(number) => BindingModel::UInt(*number),
            Binding::Bytes(bytes) => BindingModel::Bytes(bytes@),
            Binding::Bool(flag) => BindingModel::Bool(*flag),
            Binding::Timestamp(nanos) => BindingModel::Timestamp(*nanos),
        }
    }
}

/// How resolving a condition ended.
#[derive(Debug, Clone)]
pub enum Resolution {
    /// It gave a boolean.
    Bool(bool),
    /// It gave a value that is no boolean.
    Other,
    /// It failed, with this message.
    Failure(String),
}

/// What a `Resolution` holds.
pub enum ResolutionModel {
    Bool(bool),
    Other,
    Failure(Seq<char>),
}

impl View for Resolution {
    type V = ResolutionModel;

    open spec fn view(&self) -> ResolutionModel {
        match self {
            Resolution::Bool(flag) => ResolutionModel::Bool(*flag),
            Resolution::Other => ResolutionModel::Other,
            Resolution::Failure(message) => ResolutionModel::Failure(message@),
        }
    }
}

/// The trees of the argument list of a call.
pub open spec fn expression_models(expressions: Seq<Expression>) -> Seq<ExpressionModel> {
    Seq::new(expressions.len(), |i: int| expression_model(expressions[i]))
}

/// The name is one of the three string tests of the expression language.
pub open spec fn is_string_test(name: Seq<char>) -> bool {
    name == "startsWith"@ || name == "endsWith"@ || name == "matches"@
}

/// An atom, or the call `timestamp(atom)`.
pub open spec fn is_operand(expression: ExpressionModel) -> bool {
    match expression {
        ExpressionModel::Atom(_) => true,
        ExpressionModel::FunctionCall(function, None, arguments) => {
            &&& *function == ExpressionModel::Ident("timestamp"@)
            &&& arguments.len() == 1
            &&& arguments[0] is Atom
        },
        _ => false,
    }
}

/// A comparison of a variable with an operand for equality or inequality, or
/// one of the three string tests called on a variable with one operand.
pub open spec fn is_predicate(expression: ExpressionModel) -> bool {
    match expression {
        ExpressionModel::Relation(left, relation, right) => {
            &&& *left is Ident
            &&& (relation is Equals || relation is NotEquals)
            &&& is_operand(*right)
        },
        ExpressionModel::FunctionCall(function, Some(target), arguments) => {
            &&& *function matches ExpressionModel::Ident(name) && is_string_test(name)
            &&& *target is Ident
            &&& arguments.len() == 1
            &&& is_operand(arguments[0])
        },
        _ => false,
    }
}

/// Whether an atom and a bound value of one kind are equal. `None` where they
/// are of two kinds, and for the float and the null atom.
pub open spec fn equal_of_a_kind(atom: AtomModel, value: BindingModel) -> Option<bool> {
    match (atom, value) {
        (AtomModel::Int(a), BindingModel::Int(b)) => Some(a == b),
        (AtomModel::UInt(a), BindingModel::UInt(b)) => Some(a == b),
        (AtomModel::String(a), BindingModel::String(b)) => Some(a == b),
        (AtomModel::Bytes(a), BindingModel::Bytes(b)) => Some(a == b),
        (AtomModel::Bool(a), BindingModel::Bool(b)) => Some(a == b),
        _ => None,
    }
}

/// What the interpreter answers in the plain cases: the bound variable
/// compared for equality or inequality with an atom of the value's own kind,
/// and `startsWith` or `endsWith` called on a bound text with a text. `None`
/// in every other case.
pub open spec fn plain_answer(
    expression: ExpressionModel,
    variable: Seq<char>,
    value: BindingModel,
) -> Option<bool> {
    match expression {
        ExpressionModel::Relation(left, relation, right) => match (*left, *right) {
            (ExpressionModel::Ident(name), ExpressionModel::Atom(atom)) => match (
                equal_of_a_kind(atom, value),
                relation,
            ) {
                (Some(equal), RelationModel::Equals) if name == variable => Some(equal),
                (Some(equal), RelationModel::NotEquals) if name == variable => Some(!equal),
                _ => None,
            },
            _ => None,
        },
        ExpressionModel::FunctionCall(function, Some(target), arguments) => match (
            *function,
            *target,
            value,
        ) {
            (
                ExpressionModel::Ident(test),
                ExpressionModel::Ident(name),
                BindingModel::String(subject),
            ) if name == variable && arguments.len() == 1 => match arguments[0] {
                ExpressionModel::Atom(AtomModel::String(text)) => if test == "startsWith"@ {
                    Some(text.is_prefix_of(subject))
                } else if test == "endsWith"@ {
                    Some(text.is_suffix_of(subject))
                } else {
                    None
                },
                _ => None,
            },
            _ => None,
        },
        _ => None,
    }
}

/// Calls `cel_parser::parse`, which is a function of the text alone. It is
/// called on the texts of `parse_safe` only: the parser turns each token into
/// a value with `unwrap`, and in those texts its scanner forms no token on
/// which that fails.
#[verifier::external_body]
pub(crate) fn parse(text: &str) -> (parsed: Option<Expression>)
    requires
        crate::literal::parse_safe(text@),
    ensures
        parsed is None <==> cel_parse(text@) is None,
        parsed matches Some(expression) ==> cel_parse(text@) == Some(
            expression_model(expression),
        ),
{
    cel_parser::parse(text).ok()
}

/// Tells the variants of `cel_parser::Expression` and of `cel_parser::Atom`
/// apart.
#[verifier::external_body]
pub(crate) fn shape(expression: &Expression) -> (shape: Shape)
    ensures
        shape == shape_of(expression_model(*expression)),
{
    match expression {
        Expression::Atom(Atom::Int(_)) => Shape::Int,
        Expression::Atom(Atom::UInt(_)) => Shape::UInt,
        Expression::Atom(Atom::Float(_)) => Shape::Float,
        Expression::Atom(Atom::String(_)) => Shape::String,
        Expression::Atom(Atom::Bytes(_)) => Shape::Bytes,
        Expression::Atom(Atom::Bool(_)) => Shape::Bool,
        Expression::Atom(Atom::Null) => Shape::Null,
        Expression::Ident(_) => Shape::Ident,
        Expression::Member(..) => Shape::Member,
        Expression::List(_) => Shape::List,
        Expression::Map(_) => Shape::Mapping,
        _ => Shape::Other,
    }
}

/// `Expression::Atom` over `Atom::String`: the atom that holds the text.
#[verifier::external_body]
pub(crate) fn text_atom(text: &str) -> (expression: Expression)
    ensures
        expression_model(expression) == ExpressionModel::Atom(AtomModel::String(text@)),
{
    Expression::Atom(Atom::String(Arc::new(text.to_string())))
}

/// `Expression::Ident`: the reference to a variable or function by its name.
#[verifier::external_body]
pub(crate) fn identifier(name: &str) -> (expression: Expression)
    ensures
        expression_model(expression) == ExpressionModel::Ident(name@),
{
    Expression::Ident(Arc::new(name.to_string()))
}

/// `Expression::Relation` with `RelationOp::Equals` between two trees.
#[verifier::external_body]
pub(crate) fn equals(left: Expression, right: Expression) -> (expression: Expression)
    ensures
        expression_model(expression) == ExpressionModel::Relation(
            Box::new(expression_model(left)),
            RelationModel::Equals,
            Box::new(expression_model(right)),
        ),
{
    Expression::Relation(Box::new(left), RelationOp::Equals, Box::new(right))
}

/// `Expression::Relation` with `RelationOp::NotEquals` between two trees.
#[verifier::external_body]
pub(crate) fn not_equals(left: Expression, right: Expression) -> (expression: Expression)
    ensures
        expression_model(expression) == ExpressionModel::Relation(
            Box::new(expression_model(left)),
            RelationModel::NotEquals,
            Box::new(expression_model(right)),
        ),
{
    Expression::Relation(Box::new(left), RelationOp::NotEquals, Box::new(right))
}

/// `Expression::FunctionCall`: the call of a function, on a target or on none,
/// with its arguments.
#[verifier::external_body]
pub(crate) fn function_call(
    function: Expression,
    target: Option<Expression>,
    arguments: Vec<Expression>,
) -> (expression: Expression)
    ensures
        expression_model(expression) == ExpressionModel::FunctionCall(
            Box::new(expression_model(function)),
            match target {
                Some(tree) => Some(Box::new(expression_model(tree))),
                None => None,
            },
            expression_models(arguments@),
        ),
{
    Expression::FunctionCall(Box::new(function), target.map(Box::new), arguments)
}

/// The `Debug` form of a `cel_parser::Expression`.
#[verifier::external_body]
pub(crate) fn describe(expression: &Expression) -> (text: String)
    ensures
        text@ == debug_form(expression_model(*expression)),
{
    format!("{:?}", expression)
}

/// Makes `Context::default()`, binds the variable to the value with
/// `Context::add_variable_from_value`, and calls `Value::resolve` on the tree.
/// A timestamp becomes a date through `DateTime::from_timestamp_nanos`. The
/// message of a failure is the `Display` form of the `ExecutionError`.
///
/// The answer is a function of the tree, the name and the value. In the
/// cases of `plain_answer` it is stated: there the interpreter looks the
/// variable up, turns the atom into a value of its kind, and compares the two
/// with `==`, or calls `str::starts_with` or `str::ends_with`.
#[verifier::external_body]
pub(crate) fn resolve(expression: &Expression, variable: &str, value: Binding) -> (resolution:
    Resolution)
    requires
        is_predicate(expression_model(*expression)),
    ensures
        resolution@ == cel_resolve(expression_model(*expression), variable@, value@),
        plain_answer(expression_model(*expression), variable@, value@) matches Some(answer)
            ==> resolution@ == ResolutionModel::Bool(answer),
{
    let mut context = Context::default();
    context.add_variable_from_value(variable, match value {
        Binding::String(text) => Value::String(Arc::new(text)),
        Binding::Int(number) => Value::Int(number),
        Binding::UInt(number) => Value::UInt(number),
        Binding::Bytes(bytes) => Value::Bytes(Arc::new(bytes)),
        Binding::Bool(flag) => Value::Bool(flag),
        Binding::Timestamp(nanos) => Value::Timestamp(DateTime::from_timestamp_nanos(nanos).into()),
    });
    match Value::resolve(expression, &context) {
        Ok(Value::Bool(flag)) => Resolution::Bool(flag),
        Ok(_) => Resolution::Other,
        Err(error) => Resolution::Failure(error.to_string()),
    }
}

} // verus!
