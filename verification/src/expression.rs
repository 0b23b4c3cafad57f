use crate::attribute::{decode, decode_spec, DecodeError, TypedValue, TypedValueModel};
use crate::cel::{
    cel_parse, cel_resolve, debug_form, describe, equal_of_a_kind, equals, expression_model,
    expression_models, function_call, identifier, is_operand, is_predicate, not_equals, parse,
    plain_answer, resolve, shape, shape_of, text_atom, AtomModel, Binding, BindingModel,
    ExpressionModel, RelationModel, Resolution, ResolutionModel, Shape,
};
use crate::compile::Compile;
use crate::literal::{is_parse_safe, parse_safe};
use crate::once_slot::OnceSlot;
use crate::path::{tokenize, Path};
use crate::schema::{type_of, type_of_spec, AttributeType};
use cel_parser::Expression;
use vstd::prelude::*;

verus! {

/// How a condition compares an attribute with its literal.
#[derive(Debug, Clone, Copy, PartialEq, Eq, Structural)]
pub enum WhenConditionOperator {
    Equal,
    NotEqual,
    StartsWith,
    EndsWith,
    Matches,
}

/// Why a condition or a selector does not compile.
#[derive(Debug, Clone, Copy, PartialEq, Eq, Structural)]
pub enum Fault {
    /// It was compiled before.
    AlreadyCompiled,
    /// The form of the literal decides what the condition compiles to, and
    /// the literal is not `parse_safe`: the parser of the expression language
    /// takes in a token of it that it cannot turn into a value.
    UnsafeLiteral,
    /// The selector is unknown and the literal is neither an atom, a list nor
    /// a map, so that it gives no type.
    UnsupportedLiteral,
    /// The operator cannot be used on values of this type.
    UnsupportedOperator(AttributeType),
    /// The literal cannot be compared with values of this type.
    LiteralMismatch(AttributeType),
    /// Conditions on values of this type are not supported.
    UnsupportedType(AttributeType),
}

/// A fault, with the selector, the operator and the literal of the condition
/// in which it was found. For a fault in a selector of a descriptor there is
/// neither operator nor literal.
#[derive(Debug, Clone, PartialEq, Eq)]
pub struct CompileError {
    pub fault: Fault,
    pub selector: String,
    pub operator: Option<WhenConditionOperator>,
    pub value: Option<String>,
}

/// What a `CompileError` holds.
pub struct CompileErrorModel {
    pub fault: Fault,
    pub selector: Seq<char>,
    pub operator: Option<WhenConditionOperator>,
    pub value: Option<Seq<char>>,
}

impl View for CompileError {
    type V = CompileErrorModel;

    open spec fn view(&self) -> CompileErrorModel {
        CompileErrorModel {
            fault: self.fault,
            selector: self.selector@,
            operator: self.operator,
            value: match self.value {
                Some(text) => Some(text@),
                None => None,
            },
        }
    }
}

/// Why a condition could not be evaluated.
#[derive(Debug, Clone, PartialEq, Eq)]
pub enum EvalError {
    /// The buffer does not hold a value of the condition's type.
    Decode(DecodeError),
    /// The attribute is a float: no float is bound to a predicate here.
    FloatAttribute,
    /// Resolving the predicate failed. `predicate` is its `Debug` form and
    /// `message` what the interpreter reported.
    Resolution { predicate: String, message: String },
}

/// What an `EvalError` holds.
pub enum EvalErrorModel {
    Decode(DecodeError),
    FloatAttribute,
    Resolution { predicate: Seq<char>, message: Seq<char> },
}

impl View for EvalError {
    type V = EvalErrorModel;

    open spec fn view(&self) -> EvalErrorModel {
        match self {
            EvalError::Decode(error) => EvalErrorModel::Decode(*error),
            EvalError::FloatAttribute => EvalErrorModel::FloatAttribute,
            EvalError::Resolution { predicate, message } => EvalErrorModel::Resolution {
                predicate: predicate@,
                message: message@,
            },
        }
    }
}

/// The name of the variable that stands for the attribute in a predicate.
pub open spec fn attribute_variable() -> Seq<char> {
    "attribute"@
}

/// The atom that holds a text.
pub open spec fn string_atom(text: Seq<char>) -> ExpressionModel {
    ExpressionModel::Atom(AtomModel::String(text))
}

/// The literal as the compiler takes it: a text that does not parse, and one
/// that parses to a bare identifier or to a member access, stands for the
/// string that holds the whole text.
pub open spec fn literal_of(value: Seq<char>, parsed: Option<ExpressionModel>) -> ExpressionModel {
    match parsed {
        None => string_atom(value),
        Some(ExpressionModel::Ident(_)) => string_atom(value),
        Some(ExpressionModel::Member(_, _)) => string_atom(value),
        Some(tree) => tree,
    }
}

/// The type that the literal's own form gives.
pub open spec fn inferred_type(literal: ExpressionModel) -> Option<AttributeType> {
    match shape_of(literal) {
        Shape::List => Some(AttributeType::List),
        Shape::Mapping => Some(AttributeType::Mapping),
        Shape::Int => Some(AttributeType::Int),
        Shape::UInt => Some(AttributeType::UInt),
        Shape::Float => Some(AttributeType::Float),
        Shape::String => Some(AttributeType::String),
        Shape::Bytes => Some(AttributeType::Bytes),
        Shape::Bool => Some(AttributeType::Bool),
        Shape::Null => Some(AttributeType::Unknown),
        _ => None,
    }
}

/// The type of the comparison: that of the table where the selector is in it,
/// else that of the literal.
pub open spec fn resolved_type(selector: Seq<char>, literal: ExpressionModel) -> Option<
    AttributeType,
> {
    match type_of_spec(selector) {
        Some(known) => Some(known),
        None => inferred_type(literal),
    }
}

/// The operators that every supported type has.
pub open spec fn is_comparison(operator: WhenConditionOperator) -> bool {
    operator is Equal || operator is NotEqual
}

/// Whether a literal of this form can stand beside a value of the type.
pub open spec fn literal_fits(cel_type: AttributeType, form: Shape) -> bool {
    match cel_type {
        AttributeType::Mapping => form is Mapping,
        AttributeType::Int | AttributeType::UInt | AttributeType::Float => form is Int
            || form is UInt || form is Float,
        AttributeType::String => true,
        AttributeType::Bytes => form is String || form is Bytes,
        AttributeType::Bool => form is Bool,
        AttributeType::Timestamp => form is String,
        _ => false,
    }
}

/// The call `timestamp(text)`.
pub open spec fn timestamp_of(text: ExpressionModel) -> ExpressionModel {
    ExpressionModel::FunctionCall(Box::new(ExpressionModel::Ident("timestamp"@)), None, seq![text])
}

/// The right-hand side of the predicate, or why there is none.
pub open spec fn coerced(
    cel_type: AttributeType,
    operator: WhenConditionOperator,
    value: Seq<char>,
    literal: ExpressionModel,
) -> Result<ExpressionModel, Fault> {
    match cel_type {
        AttributeType::String => if shape_of(literal) is String {
            Ok(literal)
        } else {
            Ok(string_atom(value))
        },
        AttributeType::Mapping | AttributeType::Int | AttributeType::UInt | AttributeType::Float
        | AttributeType::Bytes | AttributeType::Bool | AttributeType::Timestamp => if !is_comparison(
            operator,
        ) {
            Err(Fault::UnsupportedOperator(cel_type))
        } else if !literal_fits(cel_type, shape_of(literal)) {
            Err(Fault::LiteralMismatch(cel_type))
        } else if cel_type is Timestamp {
            Ok(timestamp_of(literal))
        } else {
            Ok(literal)
        },
        _ => Err(Fault::UnsupportedType(cel_type)),
    }
}

/// The call of a string test on the variable, with one argument.
pub open spec fn string_test(name: Seq<char>, operand: ExpressionModel) -> ExpressionModel {
    ExpressionModel::FunctionCall(
        Box::new(ExpressionModel::Ident(name)),
        Some(Box::new(ExpressionModel::Ident(attribute_variable()))),
        seq![operand],
    )
}

/// The predicate that an operator makes of the variable and an operand.
pub open spec fn predicate_of(
    operator: WhenConditionOperator,
    operand: ExpressionModel,
) -> ExpressionModel {
    match operator {
        WhenConditionOperator::Equal => ExpressionModel::Relation(
            Box::new(ExpressionModel::Ident(attribute_variable())),
            RelationModel::Equals,
            Box::new(operand),
        ),
        WhenConditionOperator::NotEqual => ExpressionModel::Relation(
            Box::new(ExpressionModel::Ident(attribute_variable())),
            RelationModel::NotEquals,
            Box::new(operand),
        ),
        WhenConditionOperator::StartsWith => string_test("startsWith"@, operand),
        WhenConditionOperator::EndsWith => string_test("endsWith"@, operand),
        WhenConditionOperator::Matches => string_test("matches"@, operand),
    }
}

/// The predicate and the type that a condition compiles to, given what the
/// parser made of its literal.
pub open spec fn compile_spec(
    selector: Seq<char>,
    operator: WhenConditionOperator,
    value: Seq<char>,
    parsed: Option<ExpressionModel>,
) -> Result<(ExpressionModel, AttributeType), Fault> {
    let literal = literal_of(value, parsed);
    match resolved_type(selector, literal) {
        None => Err(Fault::UnsupportedLiteral),
        Some(cel_type) => match coerced(cel_type, operator, value, literal) {
            Err(fault) => Err(fault),
            Ok(operand) => Ok((predicate_of(operator, operand), cel_type)),
        },
    }
}

/// What the parser makes of a literal, as far as it is asked: a literal that
/// is not `parse_safe` is not handed to it, and counts as one that does not
/// parse.
pub open spec fn screened_parse(value: Seq<char>) -> Option<ExpressionModel> {
    if parse_safe(value) {
        cel_parse(value)
    } else {
        None
    }
}

/// Whether the form of the literal decides what the condition compiles to.
/// It does not on text, where every literal is taken, and not for a string
/// test on a value of another type of the table, which is refused whatever
/// the literal is.
pub open spec fn literal_decides(selector: Seq<char>, operator: WhenConditionOperator) -> bool {
    match type_of_spec(selector) {
        Some(AttributeType::String) => false,
        Some(_) => is_comparison(operator),
        None => true,
    }
}

/// What a condition compiles to.
///
/// The literal is parsed and the condition compiled from what the parser
/// made of it. A literal that is not `parse_safe` is refused where its form
/// decides, and is taken as a literal that does not parse where it does not.
pub open spec fn compile_condition_spec(
    selector: Seq<char>,
    operator: WhenConditionOperator,
    value: Seq<char>,
) -> Result<(ExpressionModel, AttributeType), Fault> {
    if !parse_safe(value) && literal_decides(selector, operator) {
        Err(Fault::UnsafeLiteral)
    } else {
        compile_spec(selector, operator, value, screened_parse(value))
    }
}

/// Where the table knows the selector, a condition compiles to the type of
/// the table, whatever its literal looks like.
pub proof fn lemma_schema_type_wins(
    selector: Seq<char>,
    operator: WhenConditionOperator,
    value: Seq<char>,
    parsed: Option<ExpressionModel>,
)
    requires
        type_of_spec(selector) is Some,
    ensures
        compile_spec(selector, operator, value, parsed) matches Ok((_, cel_type)) ==> Some(cel_type)
            == type_of_spec(selector),
{
}

/// The tests of the start, of the end and of the pattern compile on text
/// alone.
pub proof fn lemma_string_tests_on_text(
    selector: Seq<char>,
    operator: WhenConditionOperator,
    value: Seq<char>,
    parsed: Option<ExpressionModel>,
)
    requires
        !is_comparison(operator),
    ensures
        compile_spec(selector, operator, value, parsed) matches Ok((_, cel_type)) ==> cel_type
            is String,
{
}

/// A condition on text compiles whatever its operator and its literal are,
/// to a condition on text. Its operand is the string that the literal
/// stands for where the literal is a quoted string, and else the string that
/// holds the literal as it is written.
pub proof fn lemma_text_always_compiles(
    selector: Seq<char>,
    operator: WhenConditionOperator,
    value: Seq<char>,
)
    requires
        type_of_spec(selector) == Some(AttributeType::String),
    ensures
        compile_condition_spec(selector, operator, value) == Ok::<
            (ExpressionModel, AttributeType),
            Fault,
        >(
            (
                predicate_of(
                    operator,
                    match screened_parse(value) {
                        Some(ExpressionModel::Atom(AtomModel::String(text))) => string_atom(text),
                        _ => string_atom(value),
                    },
                ),
                AttributeType::String,
            ),
        ),
{
}

/// A literal is refused as unsafe only where it is not `parse_safe` and its
/// form decides.
pub proof fn lemma_unsafe_literal(
    selector: Seq<char>,
    operator: WhenConditionOperator,
    value: Seq<char>,
)
    ensures
        compile_condition_spec(selector, operator, value) == Err::<
            (ExpressionModel, AttributeType),
            Fault,
        >(Fault::UnsafeLiteral) <==> !parse_safe(value) && literal_decides(selector, operator),
{
}

/// The tree of a parsed literal, `None` for a literal that did not parse.
pub open spec fn parsed_model(parsed: Option<Expression>) -> Option<ExpressionModel> {
    match parsed {
        Some(tree) => Some(expression_model(tree)),
        None => None,
    }
}

/// The value as it is bound to the variable: every value but a float.
pub open spec fn binding_of(value: TypedValueModel) -> Option<BindingModel> {
    match value {
        TypedValueModel::String(text) => Some(BindingModel::String(text)),
        TypedValueModel::Int(number) => Some(BindingModel::Int(number)),
        TypedValueModel::UInt(number) => Some(BindingModel::UInt(number)),
        TypedValueModel::Float(_) => None,
        TypedValueModel::Bytes(bytes) => Some(BindingModel::Bytes(bytes)),
        TypedValueModel::Bool(flag) => Some(BindingModel::Bool(flag)),
        TypedValueModel::Timestamp(nanos) => Some(BindingModel::Timestamp(nanos)),
    }
}

/// What a resolution means for the condition: a boolean is the answer, any
/// other value counts as false, and a failure is an error.
pub open spec fn verdict(predicate: ExpressionModel, resolution: ResolutionModel) -> Result<
    bool,
    EvalErrorModel,
> {
    match resolution {
        ResolutionModel::Bool(flag) => Ok(flag),
        ResolutionModel::Other => Ok(false),
        ResolutionModel::Failure(message) => Err(
            EvalErrorModel::Resolution { predicate: debug_form(predicate), message },
        ),
    }
}

/// Whether the attribute in `raw` meets a compiled condition.
///
/// The buffer is decoded as the type that was fixed when the condition was
/// compiled, and a buffer that does not decode is an error. The value is bound
/// to the variable and the predicate resolved.
pub open spec fn eval_spec(
    predicate: ExpressionModel,
    cel_type: AttributeType,
    raw: Seq<u8>,
) -> Result<bool, EvalErrorModel> {
    match decode_spec(cel_type, raw) {
        Err(error) => Err(EvalErrorModel::Decode(error)),
        Ok(value) => match binding_of(value) {
            None => Err(EvalErrorModel::FloatAttribute),
            Some(bound) => verdict(predicate, cel_resolve(predicate, attribute_variable(), bound)),
        },
    }
}

/// Whether the attribute in `raw` meets a compiled condition, where the
/// interpreter's answer is a plain one: an equality, an inequality, a test of
/// the start or of the end of a text.
pub open spec fn plain_eval(predicate: ExpressionModel, cel_type: AttributeType, raw: Seq<u8>) -> Option<
    bool,
> {
    match decode_spec(cel_type, raw) {
        Ok(value) => match binding_of(value) {
            Some(bound) => plain_answer(predicate, attribute_variable(), bound),
            None => None,
        },
        Err(_) => None,
    }
}

/// The predicates of `Equal` and `NotEqual` over an atom answer plainly on a
/// value of the atom's kind: whether the two are equal, or are not.
pub proof fn lemma_plain_comparison(
    operator: WhenConditionOperator,
    atom: AtomModel,
    bound: BindingModel,
)
    requires
        is_comparison(operator),
        equal_of_a_kind(atom, bound) is Some,
    ensures
        plain_answer(
            predicate_of(operator, ExpressionModel::Atom(atom)),
            attribute_variable(),
            bound,
        ) == Some(
            if operator is Equal {
                equal_of_a_kind(atom, bound)->0
            } else {
                !equal_of_a_kind(atom, bound)->0
            },
        ),
{
}

/// The predicates of `StartsWith` and `EndsWith` over a text answer plainly
/// on a text: whether it starts, or ends, with the operand.
pub proof fn lemma_plain_string_test(
    operator: WhenConditionOperator,
    text: Seq<char>,
    subject: Seq<char>,
)
    requires
        operator is StartsWith || operator is EndsWith,
    ensures
        plain_answer(
            predicate_of(operator, string_atom(text)),
            attribute_variable(),
            BindingModel::String(subject),
        ) == Some(
            if operator is StartsWith {
                text.is_prefix_of(subject)
            } else {
                text.is_suffix_of(subject)
            },
        ),
{
    reveal_strlit("startsWith");
    reveal_strlit("endsWith");
    let arguments = seq![string_atom(text)];
    assert(arguments.len() == 1 && arguments[0] == string_atom(text));
    assert("startsWith"@ != "endsWith"@) by {
        assert("startsWith"@[0] == 's');
        assert("endsWith"@[0] == 'e');
    }
}

fn binding(value: TypedValue) -> (bound: Option<Binding>)
    ensures
        match bound {
            Some(bound) => binding_of(value@) == Some(bound@),
            None => binding_of(value@) is None,
        },
{
    match value {
        TypedValue::String(text) => Some(Binding::String(text)),
        TypedValue::Int(number) => Some(Binding::Int(number)),
        TypedValue::UInt(number) => Some(Binding::UInt(number)),
        TypedValue::Float(_) => None,
        TypedValue::Bytes(bytes) => Some(Binding::Bytes(bytes)),
        TypedValue::Bool(flag) => Some(Binding::Bool(flag)),
        TypedValue::Timestamp(nanos) => Some(Binding::Timestamp(nanos)),
    }
}

/// A compiled condition: the predicate over the variable, and the type as
/// which the attribute is decoded before the predicate is resolved.
#[derive(Debug)]
pub struct CelExpression {
    expression: Expression,
    cel_type: AttributeType,
}

impl Clone for CelExpression {
    fn clone(&self) -> (copy: Self)
        ensures
            copy.parts() == self.parts(),
    {
        proof {
            use_type_invariant(self);
        }
        CelExpression { expression: self.expression.clone(), cel_type: self.cel_type }
    }
}

impl CelExpression {
    /// Conditions on maps aside, which are never resolved, the tree is a
    /// predicate.
    #[verifier::type_invariant]
    spec fn well_formed(self) -> bool {
        self.cel_type is Mapping || is_predicate(expression_model(self.expression))
    }

    /// The predicate.
    pub closed spec fn model(&self) -> ExpressionModel {
        expression_model(self.expression)
    }

    /// The type as which the attribute is decoded.
    pub closed spec fn spec_cel_type(&self) -> AttributeType {
        self.cel_type
    }

    /// The predicate and the type together.
    pub open spec fn parts(&self) -> (ExpressionModel, AttributeType) {
        (self.model(), self.spec_cel_type())
    }

    /// The type as which the attribute is decoded.
    pub fn cel_type(&self) -> (cel_type: AttributeType)
        ensures
            cel_type == self.spec_cel_type(),
    {
        self.cel_type
    }

    /// The predicate, as the interpreter of the expression language takes it.
    pub fn expression(&self) -> (expression: &Expression)
        ensures
            expression_model(*expression) == self.model(),
    {
        &self.expression
    }

    /// The predicate in its `Debug` form.
    pub fn expression_text(&self) -> (text: String)
        ensures
            text@ == debug_form(self.model()),
    {
        describe(&self.expression)
    }

    /// The call `target.name(operand)`.
    fn call_on(name: &str, target: Expression, operand: Expression) -> (call: Expression)
        ensures
            expression_model(call) == ExpressionModel::FunctionCall(
                Box::new(ExpressionModel::Ident(name@)),
                Some(Box::new(expression_model(target))),
                seq![expression_model(operand)],
            ),
    {
        let arguments = vec![operand];
        assert(arguments@ =~= seq![operand]);
        assert(expression_models(arguments@) =~= seq![expression_model(operand)]);
        function_call(identifier(name), Some(target), arguments)
    }

    /// Compiles a condition from its parts and from what the parser made of
    /// its literal.
    pub fn assemble(
        selector: &str,
        operator: WhenConditionOperator,
        value: &str,
        parsed: Option<Expression>,
    ) -> (compiled: Result<CelExpression, Fault>)
        ensures
            match compiled {
                Ok(condition) => compile_spec(selector@, operator, value@, parsed_model(parsed))
                    == Ok::<(ExpressionModel, AttributeType), Fault>(condition.parts()),
                Err(fault) => compile_spec(selector@, operator, value@, parsed_model(parsed))
                    == Err::<(ExpressionModel, AttributeType), Fault>(fault),
            },
    {
        let (literal, form) = match parsed {
            None => (text_atom(value), Shape::String),
            Some(tree) => match shape(&tree) {
                Shape::Ident | Shape::Member => (text_atom(value), Shape::String),
                other => (tree, other),
            },
        };
        assert(expression_model(literal) == literal_of(value@, parsed_model(parsed)));
        assert(form == shape_of(expression_model(literal)));
        let known = match type_of(selector) {
            Some(known) => Some(known),
            None => match form {
                Shape::List => Some(AttributeType::List),
                Shape::Mapping => Some(AttributeType::Mapping),
                Shape::Int => Some(AttributeType::Int),
                Shape::UInt => Some(AttributeType::UInt),
                Shape::Float => Some(AttributeType::Float),
                Shape::String => Some(AttributeType::String),
                Shape::Bytes => Some(AttributeType::Bytes),
                Shape::Bool => Some(AttributeType::Bool),
                Shape::Null => Some(AttributeType::Unknown),
                _ => None,
            },
        };
        let cel_type = match known {
            Some(cel_type) => cel_type,
            None => {
                return Err(Fault::UnsupportedLiteral);
            },
        };
        let comparison = match operator {
            WhenConditionOperator::Equal | WhenConditionOperator::NotEqual => true,
            _ => false,
        };
        let operand = match cel_type {
            AttributeType::String => match form {
                Shape::String => literal,
                _ => text_atom(value),
            },
            AttributeType::Mapping | AttributeType::Int | AttributeType::UInt | AttributeType::Float
            | AttributeType::Bytes | AttributeType::Bool | AttributeType::Timestamp => {
                if !comparison {
                    return Err(Fault::UnsupportedOperator(cel_type));
                }
                let fits = match cel_type {
                    AttributeType::Mapping => matches!(form, Shape::Mapping),
                    AttributeType::Int | AttributeType::UInt | AttributeType::Float => matches!(
                        form,
                        Shape::Int | Shape::UInt | Shape::Float
                    ),
                    AttributeType::Bytes => matches!(form, Shape::String | Shape::Bytes),
                    AttributeType::Bool => matches!(form, Shape::Bool),
                    _ => matches!(form, Shape::String),
                };
                assert(fits == literal_fits(cel_type, form));
                if !fits {
                    return Err(Fault::LiteralMismatch(cel_type));
                }
                match cel_type {
                    AttributeType::Timestamp => {
                        let ghost text = expression_model(literal);
                        let arguments = vec![literal];
                        assert(arguments@ =~= seq![literal]);
                        assert(expression_models(arguments@) =~= seq![text]);
                        let call = function_call(identifier("timestamp"), None, arguments);
                        assert(expression_model(call) == timestamp_of(text));
                        call
                    },
                    _ => literal,
                }
            },
            _ => {
                return Err(Fault::UnsupportedType(cel_type));
            },
        };
        assert(Ok::<ExpressionModel, Fault>(expression_model(operand)) == coerced(
            cel_type,
            operator,
            value@,
            literal_of(value@, parsed_model(parsed)),
        ));
        assert(cel_type is Mapping || is_operand(expression_model(operand)));
        let ghost operand_model = expression_model(operand);
        let variable = identifier("attribute");
        let expression = match operator {
            WhenConditionOperator::Equal => equals(variable, operand),
            WhenConditionOperator::NotEqual => not_equals(variable, operand),
            WhenConditionOperator::StartsWith => CelExpression::call_on(
                "startsWith",
                variable,
                operand,
            ),
            WhenConditionOperator::EndsWith => CelExpression::call_on("endsWith", variable, operand),
            WhenConditionOperator::Matches => CelExpression::call_on("matches", variable, operand),
        };
        assert(expression_model(expression) == predicate_of(operator, operand_model));
        proof {
            let arguments = seq![operand_model];
            assert(arguments.len() == 1 && arguments[0] == operand_model);
            if !(cel_type is Mapping) {
                assert(is_operand(operand_model));
                assert(is_predicate(predicate_of(operator, operand_model)));
            }
        }
        Ok(CelExpression { expression, cel_type })
    }

    /// Compiles a condition from its selector, its operator and its literal.
    pub fn compile_condition(selector: &str, operator: WhenConditionOperator, value: &str) -> (compiled:
        Result<CelExpression, Fault>)
        ensures
            match compiled {
                Ok(condition) => compile_condition_spec(selector@, operator, value@) == Ok::<
                    (ExpressionModel, AttributeType),
                    Fault,
                >(condition.parts()),
                Err(fault) => compile_condition_spec(selector@, operator, value@) == Err::<
                    (ExpressionModel, AttributeType),
                    Fault,
                >(fault),
            },
    {
        let parsed = if is_parse_safe(value) {
            parse(value)
        } else {
            let decides = match type_of(selector) {
                Some(AttributeType::String) => false,
                Some(_) => match operator {
                    WhenConditionOperator::Equal | WhenConditionOperator::NotEqual => true,
                    _ => false,
                },
                None => true,
            };
            if decides {
                return Err(Fault::UnsafeLiteral);
            }
            None
        };
        CelExpression::assemble(selector, operator, value, parsed)
    }

    /// Compiles a condition.
    pub fn try_from(expression: &PatternExpression) -> (compiled: Result<CelExpression, Fault>)
        ensures
            match compiled {
                Ok(condition) => compile_condition_spec(
                    expression.spec_selector(),
                    expression.spec_operator(),
                    expression.spec_value(),
                ) == Ok::<(ExpressionModel, AttributeType), Fault>(condition.parts()),
                Err(fault) => compile_condition_spec(
                    expression.spec_selector(),
                    expression.spec_operator(),
                    expression.spec_value(),
                ) == Err::<(ExpressionModel, AttributeType), Fault>(fault),
            },
    {
        CelExpression::compile_condition(
            expression.selector.as_str(),
            expression.operator,
            expression.value.as_str(),
        )
    }

    /// Decodes the attribute as the condition's type, binds it to the
    /// variable and resolves the predicate.
    pub fn eval(&self, raw_attribute: Vec<u8>) -> (outcome: Result<bool, EvalError>)
        ensures
            match outcome {
                Ok(flag) => eval_spec(self.model(), self.spec_cel_type(), raw_attribute@) == Ok::<
                    bool,
                    EvalErrorModel,
                >(flag),
                Err(error) => eval_spec(self.model(), self.spec_cel_type(), raw_attribute@) == Err::<
                    bool,
                    EvalErrorModel,
                >(error@),
            },
            plain_eval(self.model(), self.spec_cel_type(), raw_attribute@) matches Some(answer)
                ==> outcome matches Ok(flag) && flag == answer,
    {
        proof {
            use_type_invariant(self);
        }
        let value = match decode(self.cel_type, raw_attribute) {
            Ok(value) => value,
            Err(error) => {
                return Err(EvalError::Decode(error));
            },
        };
        let bound = match binding(value) {
            Some(bound) => bound,
            None => {
                return Err(EvalError::FloatAttribute);
            },
        };
        match resolve(&self.expression, "attribute", bound) {
            Resolution::Bool(flag) => Ok(flag),
            Resolution::Other => Ok(false),
            Resolution::Failure(message) => Err(
                EvalError::Resolution { predicate: describe(&self.expression), message },
            ),
        }
    }
}

/// A condition of a rule: a selector, an operator and a literal, and, once it
/// is compiled, the path of the selector and the predicate.
#[derive(Debug, Clone)]
pub struct PatternExpression {
    pub selector: String,
    pub operator: WhenConditionOperator,
    pub value: String,
    pub path: OnceSlot<Path>,
    pub compiled: OnceSlot<CelExpression>,
}

impl PatternExpression {
    /// The selector.
    pub open spec fn spec_selector(&self) -> Seq<char> {
        self.selector@
    }

    /// The operator.
    pub open spec fn spec_operator(&self) -> WhenConditionOperator {
        self.operator
    }

    /// The literal.
    pub open spec fn spec_value(&self) -> Seq<char> {
        self.value@
    }

    /// The tokens of the selector, once `compile` has been called.
    pub open spec fn spec_path(&self) -> Option<Seq<Seq<char>>> {
        match self.path@ {
            Some(path) => Some(path@),
            None => None,
        }
    }

    /// The predicate and its type, once `compile` has succeeded.
    pub open spec fn spec_compiled(&self) -> Option<(ExpressionModel, AttributeType)> {
        match self.compiled@ {
            Some(condition) => Some(condition.parts()),
            None => None,
        }
    }

    /// Whether an attribute meets the compiled predicate.
    pub open spec fn spec_eval(&self, raw: Seq<u8>) -> Result<bool, EvalErrorModel>
        recommends
            self.spec_compiled() is Some,
    {
        let (predicate, cel_type) = self.spec_compiled()->0;
        eval_spec(predicate, cel_type, raw)
    }

    /// Whether an attribute meets the compiled predicate, where the answer is
    /// a plain one.
    pub open spec fn spec_plain_eval(&self, raw: Seq<u8>) -> Option<bool>
        recommends
            self.spec_compiled() is Some,
    {
        let (predicate, cel_type) = self.spec_compiled()->0;
        plain_eval(predicate, cel_type, raw)
    }

    /// What `compile` answers on a condition that was not compiled before.
    pub open spec fn compile_result(&self) -> Result<(ExpressionModel, AttributeType), Fault> {
        match compile_condition_spec(self.spec_selector(), self.spec_operator(), self.spec_value()) {
            Err(fault) => Err(fault),
            Ok(parts) => if self.spec_compiled() is Some {
                Err(Fault::AlreadyCompiled)
            } else {
                Ok(parts)
            },
        }
    }

    /// The error that reports a fault of this condition.
    pub open spec fn error_of(&self, fault: Fault) -> CompileErrorModel {
        CompileErrorModel {
            fault,
            selector: self.spec_selector(),
            operator: Some(self.spec_operator()),
            value: Some(self.spec_value()),
        }
    }

    /// A condition that is not compiled yet.
    pub fn new(selector: String, operator: WhenConditionOperator, value: String) -> (condition:
        PatternExpression)
        ensures
            condition.spec_selector() == selector@,
            condition.spec_operator() == operator,
            condition.spec_value() == value@,
            condition.spec_path() is None,
            condition.spec_compiled() is None,
    {
        PatternExpression {
            selector,
            operator,
            value,
            path: OnceSlot::new(),
            compiled: OnceSlot::new(),
        }
    }

    fn fail(&self, fault: Fault) -> (error: CompileError)
        ensures
            error@ == self.error_of(fault),
    {
        CompileError {
            fault,
            selector: self.selector.clone(),
            operator: Some(self.operator),
            value: Some(self.value.clone()),
        }
    }

    /// What a failed `compile` leaves of `before`: the same condition. Of one
    /// that was compiled before, nothing is changed; of any other the path is
    /// set and nothing else.
    pub open spec fn spec_failed_from(&self, before: &Self) -> bool {
        &&& self.selector == before.selector
        &&& self.operator == before.operator
        &&& self.value == before.value
        &&& self.compiled == before.compiled
        &&& if before.path@ is Some {
            self.path == before.path
        } else {
            self.spec_path() == Some(tokenize(before.spec_selector()))
        }
    }

    /// Splits the selector into its path and compiles the predicate, once.
    ///
    /// A second call fails and changes nothing, whether the first one
    /// succeeded or not.
    pub fn compile(&mut self) -> (result: Result<(), CompileError>)
        ensures
            final(self).selector == old(self).selector,
            final(self).operator == old(self).operator,
            final(self).value == old(self).value,
            result is Err ==> final(self).spec_failed_from(old(self)),
            old(self).spec_path() is Some ==> {
                &&& result matches Err(error) && error@ == old(self).error_of(Fault::AlreadyCompiled)
                &&& *final(self) == *old(self)
            },
            old(self).spec_path() is None ==> {
                &&& final(self).spec_path() == Some(tokenize(old(self).spec_selector()))
                &&& match old(self).compile_result() {
                    Ok(parts) => result is Ok && final(self).spec_compiled() == Some(parts),
                    Err(fault) => {
                        &&& result matches Err(error) && error@ == old(self).error_of(fault)
                        &&& final(self).spec_compiled() == old(self).spec_compiled()
                    },
                }
            },
    {
        let path = Path::from(self.selector.as_str());
        match self.path.set(path) {
            Ok(()) => {},
            Err(_) => {
                return Err(self.fail(Fault::AlreadyCompiled));
            },
        }
        let condition = match CelExpression::try_from(&*self) {
            Ok(condition) => condition,
            Err(fault) => {
                return Err(self.fail(fault));
            },
        };
        match self.compiled.set(condition) {
            Ok(()) => Ok(()),
            Err(_) => Err(self.fail(Fault::AlreadyCompiled)),
        }
    }

    /// Whether `compile` has been called.
    pub fn is_compiled(&self) -> (compiled: bool)
        ensures
            compiled == self.spec_path() is Some,
    {
        self.path.is_set()
    }

    /// The compiled predicate, where `compile` has succeeded.
    pub fn compiled(&self) -> (compiled: Option<&CelExpression>)
        ensures
            match compiled {
                Some(condition) => self.spec_compiled() == Some(condition.parts()),
                None => self.spec_compiled() is None,
            },
    {
        self.compiled.get()
    }

    /// The tokens of the selector.
    pub fn path(&self) -> (tokens: Vec<&str>)
        requires
            self.spec_path() is Some,
        ensures
            tokens.len() == self.spec_path()->0.len(),
            forall|i: int|
                0 <= i < tokens.len() ==> (#[trigger] tokens[i])@ == self.spec_path()->0[i],
    {
        match self.path.get() {
            Some(path) => path.tokens(),
            None => Vec::new(),
        }
    }

    /// Whether the attribute in `raw_attribute` meets the condition.
    pub fn eval(&self, raw_attribute: Vec<u8>) -> (outcome: Result<bool, EvalError>)
        requires
            self.spec_compiled() is Some,
        ensures
            match outcome {
                Ok(flag) => self.spec_eval(raw_attribute@) == Ok::<bool, EvalErrorModel>(flag),
                Err(error) => self.spec_eval(raw_attribute@) == Err::<bool, EvalErrorModel>(
                    error@,
                ),
            },
            self.spec_plain_eval(raw_attribute@) matches Some(answer) ==> outcome matches Ok(flag)
                && flag == answer,
    {
        match self.compiled.get() {
            Some(condition) => condition.eval(raw_attribute),
            None => Ok(false),
        }
    }
}

impl Compile for PatternExpression {
    open spec fn fault(&self) -> Option<CompileErrorModel> {
        if self.spec_path() is Some {
            Some(self.error_of(Fault::AlreadyCompiled))
        } else {
            match self.compile_result() {
                Ok(_) => None,
                Err(fault) => Some(self.error_of(fault)),
            }
        }
    }

    open spec fn compiled_from(&self, before: &Self) -> bool {
        &&& self.spec_selector() == before.spec_selector()
        &&& self.spec_operator() == before.spec_operator()
        &&& self.spec_value() == before.spec_value()
        &&& self.spec_path() == Some(tokenize(before.spec_selector()))
        &&& before.compile_result() matches Ok(parts) && self.spec_compiled() == Some(parts)
    }

    open spec fn failed_from(&self, before: &Self) -> bool {
        self.spec_failed_from(before)
    }

    fn compile_in_place(&mut self) -> (result: Result<(), CompileError>) {
        self.compile()
    }
}

} // verus!
