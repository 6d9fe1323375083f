//! The syntax that AST nodes stand for: operators, expression and
//! statement kinds, and the keys under which runtimes list them.

use vstd::prelude::*;

verus! {

/// An assignment operator (`=`, `+=`, `??=`, ...).
#[derive(Debug, Clone, Copy, PartialEq, Eq, Structural)]
pub enum AssignmentOperator {
    Assign,
    Addition,
    Subtraction,
    Multiplication,
    Division,
    Remainder,
    Exponential,
    ShiftLeft,
    ShiftRight,
    ShiftRightZeroFill,
    BitwiseOR,
    BitwiseXOR,
    BitwiseAnd,
    LogicalAnd,
    LogicalOr,
    LogicalNullish,
}

pub open spec fn assignment_operator_syntax_spec(operator: AssignmentOperator) -> Seq<char> {
    match operator {
        AssignmentOperator::Assign => "operators.assignment"@,
        AssignmentOperator::Addition => "operators.addition_assignment"@,
        AssignmentOperator::Subtraction => "operators.subtraction_assignment"@,
        AssignmentOperator::Multiplication => "operators.multiplication_assignment"@,
        AssignmentOperator::Division => "operators.division_assignment"@,
        AssignmentOperator::Remainder => "operators.remainder_assignment"@,
        AssignmentOperator::Exponential => "operators.exponentiation_assignment"@,
        AssignmentOperator::ShiftLeft => "operators.left_shift_assignment"@,
        AssignmentOperator::ShiftRight => "operators.right_shift_assignment"@,
        AssignmentOperator::ShiftRightZeroFill => "operators.unsigned_right_shift_assignment"@,
        AssignmentOperator::BitwiseOR => "operators.bitwise_or_assignment"@,
        AssignmentOperator::BitwiseXOR => "operators.bitwise_xor_assignment"@,
        AssignmentOperator::BitwiseAnd => "operators.bitwise_and_assignment"@,
        AssignmentOperator::LogicalAnd => "operators.logical_and_assignment"@,
        AssignmentOperator::LogicalOr => "operators.logical_or_assignment"@,
        AssignmentOperator::LogicalNullish => "operators.nullish_coalescing_assignment"@,
    }
}

pub fn assignment_operator_syntax(operator: AssignmentOperator) -> (r: Option<&'static str>)
    ensures
        r matches Some(s) && s@ == assignment_operator_syntax_spec(operator),
{
    match operator {
        AssignmentOperator::Assign => Some("operators.assignment"),
        AssignmentOperator::Addition => Some("operators.addition_assignment"),
        AssignmentOperator::Subtraction => Some("operators.subtraction_assignment"),
        AssignmentOperator::Multiplication => Some("operators.multiplication_assignment"),
        AssignmentOperator::Division => Some("operators.division_assignment"),
        AssignmentOperator::Remainder => Some("operators.remainder_assignment"),
        AssignmentOperator::Exponential => Some("operators.exponentiation_assignment"),
        AssignmentOperator::ShiftLeft => Some("operators.left_shift_assignment"),
        AssignmentOperator::ShiftRight => Some("operators.right_shift_assignment"),
        AssignmentOperator::ShiftRightZeroFill => Some("operators.unsigned_right_shift_assignment"),
        AssignmentOperator::BitwiseOR => Some("operators.bitwise_or_assignment"),
        AssignmentOperator::BitwiseXOR => Some("operators.bitwise_xor_assignment"),
        AssignmentOperator::BitwiseAnd => Some("operators.bitwise_and_assignment"),
        AssignmentOperator::LogicalAnd => Some("operators.logical_and_assignment"),
        AssignmentOperator::LogicalOr => Some("operators.logical_or_assignment"),
        AssignmentOperator::LogicalNullish => Some("operators.nullish_coalescing_assignment"),
    }
}

/// A logical operator (`&&`, `||`, `??`).
#[derive(Debug, Clone, Copy, PartialEq, Eq, Structural)]
pub enum LogicalOperator {
    And,
    Or,
    Coalesce,
}

pub open spec fn logical_operator_syntax_spec(operator: LogicalOperator) -> Seq<char> {
    match operator {
        LogicalOperator::And => "operators.logical_and"@,
        LogicalOperator::Or => "operators.logical_or"@,
        LogicalOperator::Coalesce => "operators.nullish_coalescing"@,
    }
}

pub fn logical_operator_syntax(operator: LogicalOperator) -> (r: Option<&'static str>)
    ensures
        r matches Some(s) && s@ == logical_operator_syntax_spec(operator),
{
    match operator {
        LogicalOperator::And => Some("operators.logical_and"),
        LogicalOperator::Or => Some("operators.logical_or"),
        LogicalOperator::Coalesce => Some("operators.nullish_coalescing"),
    }
}

/// A binary operator (`==`, `+`, `instanceof`, ...).
#[derive(Debug, Clone, Copy, PartialEq, Eq, Structural)]
pub enum BinaryOperator {
    Equality,
    Inequality,
    StrictEquality,
    StrictInequality,
    LessThan,
    LessEqualThan,
    GreaterThan,
    GreaterEqualThan,
    Addition,
    Subtraction,
    Multiplication,
    Division,
    Remainder,
    Exponential,
    ShiftLeft,
    ShiftRight,
    ShiftRightZeroFill,
    BitwiseOR,
    BitwiseXOR,
    BitwiseAnd,
    In,
    Instanceof,
}

pub open spec fn binary_operator_syntax_spec(operator: BinaryOperator) -> Seq<char> {
    match operator {
        BinaryOperator::Equality => "operators.equality"@,
        BinaryOperator::Inequality => "operators.inequality"@,
        BinaryOperator::StrictEquality => "operators.strict_equality"@,
        BinaryOperator::StrictInequality => "operators.strict_inequality"@,
        BinaryOperator::LessThan => "operators.less_than"@,
        BinaryOperator::LessEqualThan => "operators.less_than_or_equal"@,
        BinaryOperator::GreaterThan => "operators.greater_than"@,
        BinaryOperator::GreaterEqualThan => "operators.greater_than_or_equal"@,
        BinaryOperator::Addition => "operators.addition"@,
        BinaryOperator::Subtraction => "operators.subtraction"@,
        BinaryOperator::Multiplication => "operators.multiplication"@,
        BinaryOperator::Division => "operators.division"@,
        BinaryOperator::Remainder => "operators.remainder"@,
        BinaryOperator::Exponential => "operators.exponentiation"@,
        BinaryOperator::ShiftLeft => "operators.left_shift"@,
        BinaryOperator::ShiftRight => "operators.right_shift"@,
        BinaryOperator::ShiftRightZeroFill => "operators.unsigned_right_shift"@,
        BinaryOperator::BitwiseOR => "operators.bitwise_or"@,
        BinaryOperator::BitwiseXOR => "operators.bitwise_xor"@,
        BinaryOperator::BitwiseAnd => "operators.bitwise_and"@,
        BinaryOperator::In => "operators.in"@,
        BinaryOperator::Instanceof => "operators.instanceof"@,
    }
}

pub fn binary_operator_syntax(operator: BinaryOperator) -> (r: Option<&'static str>)
    ensures
        r matches Some(s) && s@ == binary_operator_syntax_spec(operator),
{
    match operator {
        BinaryOperator::Equality => Some("operators.equality"),
        BinaryOperator::Inequality => Some("operators.inequality"),
        BinaryOperator::StrictEquality => Some("operators.strict_equality"),
        BinaryOperator::StrictInequality => Some("operators.strict_inequality"),
        BinaryOperator::LessThan => Some("operators.less_than"),
        BinaryOperator::LessEqualThan => Some("operators.less_than_or_equal"),
        BinaryOperator::GreaterThan => Some("operators.greater_than"),
        BinaryOperator::GreaterEqualThan => Some("operators.greater_than_or_equal"),
        BinaryOperator::Addition => Some("operators.addition"),
        BinaryOperator::Subtraction => Some("operators.subtraction"),
        BinaryOperator::Multiplication => Some("operators.multiplication"),
        BinaryOperator::Division => Some("operators.division"),
        BinaryOperator::Remainder => Some("operators.remainder"),
        BinaryOperator::Exponential => Some("operators.exponentiation"),
        BinaryOperator::ShiftLeft => Some("operators.left_shift"),
        BinaryOperator::ShiftRight => Some("operators.right_shift"),
        BinaryOperator::ShiftRightZeroFill => Some("operators.unsigned_right_shift"),
        BinaryOperator::BitwiseOR => Some("operators.bitwise_or"),
        BinaryOperator::BitwiseXOR => Some("operators.bitwise_xor"),
        BinaryOperator::BitwiseAnd => Some("operators.bitwise_and"),
        BinaryOperator::In => Some("operators.in"),
        BinaryOperator::Instanceof => Some("operators.instanceof"),
    }
}

/// A unary operator (`!`, `typeof`, `delete`, ...).
#[derive(Debug, Clone, Copy, PartialEq, Eq, Structural)]
pub enum UnaryOperator {
    UnaryPlus,
    UnaryNegation,
    LogicalNot,
    BitwiseNot,
    Typeof,
    Void,
    Delete,
}

pub open spec fn unary_operator_syntax_spec(operator: UnaryOperator) -> Seq<char> {
    match operator {
        UnaryOperator::UnaryPlus => "operators.unary_plus"@,
        UnaryOperator::UnaryNegation => "operators.unary_negation"@,
        UnaryOperator::LogicalNot => "operators.logical_not"@,
        UnaryOperator::BitwiseNot => "operators.bitwise_not"@,
        UnaryOperator::Typeof => "operators.typeof"@,
        UnaryOperator::Void => "operators.void"@,
        UnaryOperator::Delete => "operators.delete"@,
    }
}

pub fn unary_operator_syntax(operator: UnaryOperator) -> (r: Option<&'static str>)
    ensures
        r matches Some(s) && s@ == unary_operator_syntax_spec(operator),
{
    match operator {
        UnaryOperator::UnaryPlus => Some("operators.unary_plus"),
        UnaryOperator::UnaryNegation => Some("operators.unary_negation"),
        UnaryOperator::LogicalNot => Some("operators.logical_not"),
        UnaryOperator::BitwiseNot => Some("operators.bitwise_not"),
        UnaryOperator::Typeof => Some("operators.typeof"),
        UnaryOperator::Void => Some("operators.void"),
        UnaryOperator::Delete => Some("operators.delete"),
    }
}

/// An update operator (`++`, `--`).
#[derive(Debug, Clone, Copy, PartialEq, Eq, Structural)]
pub enum UpdateOperator {
    Increment,
    Decrement,
}

pub open spec fn update_operator_syntax_spec(operator: UpdateOperator) -> Seq<char> {
    match operator {
        UpdateOperator::Increment => "operators.increment"@,
        UpdateOperator::Decrement => "operators.decrement"@,
    }
}

pub fn update_operator_syntax(operator: UpdateOperator) -> (r: Option<&'static str>)
    ensures
        r matches Some(s) && s@ == update_operator_syntax_spec(operator),
{
    match operator {
        UpdateOperator::Increment => Some("operators.increment"),
        UpdateOperator::Decrement => Some("operators.decrement"),
    }
}

/// The keyword of a variable declaration.
#[derive(Debug, Clone, Copy, PartialEq, Eq, Structural)]
pub enum VariableDeclarationKind {
    Var,
    Let,
    Const,
    Using,
    AwaitUsing,
}

pub open spec fn variable_declaration_syntax_spec(kind: VariableDeclarationKind) -> Seq<char> {
    match kind {
        VariableDeclarationKind::Var => "statements.var"@,
        VariableDeclarationKind::Let => "statements.let"@,
        VariableDeclarationKind::Const => "statements.const"@,
        VariableDeclarationKind::Using => "statements.using"@,
        VariableDeclarationKind::AwaitUsing => "statements.await_using"@,
    }
}

pub fn variable_declaration_syntax(kind: VariableDeclarationKind) -> (r: Option<&'static str>)
    ensures
        r matches Some(s) && s@ == variable_declaration_syntax_spec(kind),
{
    match kind {
        VariableDeclarationKind::Var => Some("statements.var"),
        VariableDeclarationKind::Let => Some("statements.let"),
        VariableDeclarationKind::Const => Some("statements.const"),
        VariableDeclarationKind::Using => Some("statements.using"),
        VariableDeclarationKind::AwaitUsing => Some("statements.await_using"),
    }
}
/// Which lookup table a key is looked up in.
#[derive(Debug, Clone, Copy, PartialEq, Eq, Structural)]
pub enum EmitTable {
    Syntax,
    Support,
}

/// The kind of an expression node, with what its syntax depends on.
#[derive(Debug, Clone, Copy, PartialEq, Eq, Structural)]
pub enum ExpressionKind {
    BooleanLiteral,
    NullLiteral,
    NumericLiteral,
    BigIntLiteral,
    RegExpLiteral,
    StringLiteral,
    TemplateLiteral,
    ArrayExpression,
    ArrowFunctionExpression,
    AwaitExpression,
    BinaryExpression(BinaryOperator),
    ClassExpression,
    ConditionalExpression,
    FunctionExpression { generator: bool, is_async: bool },
    LogicalExpression(LogicalOperator),
    NewExpression,
    ObjectExpression,
    SequenceExpression,
    Super,
    ThisExpression,
    UnaryExpression(UnaryOperator),
    UpdateExpression(UpdateOperator),
    YieldExpression,
    PrivateInExpression,
    /// Any other expression, which has no syntax key of its own.
    Other,
}

/// The syntax keys an expression node stands for, in the order they are
/// recorded.
pub open spec fn expression_syntax_spec(kind: ExpressionKind) -> Seq<Seq<char>> {
    match kind {
        ExpressionKind::BooleanLiteral => seq!["grammar.boolean_literals"@],
        ExpressionKind::NullLiteral => seq!["grammar.null_literal"@],
        ExpressionKind::NumericLiteral => seq!["grammar.decimal_numeric_literals"@],
        ExpressionKind::BigIntLiteral => seq!["grammar.bigint_literals"@],
        ExpressionKind::RegExpLiteral => seq!["grammar.regular_expression_literals"@],
        ExpressionKind::StringLiteral => seq!["grammar.string_literals"@],
        ExpressionKind::TemplateLiteral => seq!["grammar.template_literals"@],
        ExpressionKind::ArrayExpression => seq!["grammar.array_literals"@],
        ExpressionKind::ArrowFunctionExpression => seq!["functions.arrow_functions"@],
        ExpressionKind::AwaitExpression => seq!["operators.await"@],
        ExpressionKind::BinaryExpression(op) => seq![binary_operator_syntax_spec(op)],
        ExpressionKind::ClassExpression => seq!["operators.class"@, "statements.class"@],
        ExpressionKind::ConditionalExpression => seq!["operators.conditional"@],
        ExpressionKind::FunctionExpression { generator, is_async } => {
            let base = seq!["operators.function"@];
            let with_generator = if generator {
                base.push("operators.generator_function"@)
            } else {
                base
            };
            if is_async {
                with_generator.push("operators.async_function"@)
            } else {
                with_generator
            }
        },
        ExpressionKind::LogicalExpression(op) => seq![logical_operator_syntax_spec(op)],
        ExpressionKind::NewExpression => seq!["operators.new"@],
        ExpressionKind::ObjectExpression => seq!["operators.object_initializer"@],
        ExpressionKind::SequenceExpression => seq!["operators.comma"@],
        ExpressionKind::Super => seq!["operators.super"@],
        ExpressionKind::ThisExpression => seq!["operators.this"@],
        ExpressionKind::UnaryExpression(op) => seq![unary_operator_syntax_spec(op)],
        ExpressionKind::UpdateExpression(op) => seq![update_operator_syntax_spec(op)],
        ExpressionKind::YieldExpression => seq!["operators.yield"@],
        ExpressionKind::PrivateInExpression => seq!["classes.private_class_fields_in"@],
        ExpressionKind::Other => seq![],
    }
}

/// The views of a list of static strings.
pub open spec fn str_views(v: Seq<&'static str>) -> Seq<Seq<char>> {
    v.map_values(|s: &'static str| s@)
}

fn one_key(key: &'static str) -> (r: Vec<&'static str>)
    ensures
        str_views(r@) == seq![key@],
{
    let r = vec![key];
    assert(str_views(r@) =~= seq![key@]);
    r
}

fn two_keys(first: &'static str, second: &'static str) -> (r: Vec<&'static str>)
    ensures
        str_views(r@) == seq![first@, second@],
{
    let r = vec![first, second];
    assert(str_views(r@) =~= seq![first@, second@]);
    r
}

/// The syntax keys of an expression node.
pub fn expression_syntax(kind: ExpressionKind) -> (r: Vec<&'static str>)
    ensures
        str_views(r@) == expression_syntax_spec(kind),
{
    match kind {
        ExpressionKind::BooleanLiteral => one_key("grammar.boolean_literals"),
        ExpressionKind::NullLiteral => one_key("grammar.null_literal"),
        ExpressionKind::NumericLiteral => one_key("grammar.decimal_numeric_literals"),
        ExpressionKind::BigIntLiteral => one_key("grammar.bigint_literals"),
        ExpressionKind::RegExpLiteral => one_key("grammar.regular_expression_literals"),
        ExpressionKind::StringLiteral => one_key("grammar.string_literals"),
        ExpressionKind::TemplateLiteral => one_key("grammar.template_literals"),
        ExpressionKind::ArrayExpression => one_key("grammar.array_literals"),
        ExpressionKind::ArrowFunctionExpression => one_key("functions.arrow_functions"),
        ExpressionKind::AwaitExpression => one_key("operators.await"),
        ExpressionKind::BinaryExpression(op) => match binary_operator_syntax(op) {
            Some(key) => one_key(key),
            None => Vec::new(),
        },
        ExpressionKind::ClassExpression => two_keys("operators.class", "statements.class"),
        ExpressionKind::ConditionalExpression => one_key("operators.conditional"),
        ExpressionKind::FunctionExpression { generator, is_async } => {
            let mut keys = one_key("operators.function");
            if generator {
                let ghost before = keys@;
                keys.push("operators.generator_function");
                assert(str_views(keys@) =~= str_views(before).push("operators.generator_function"@));
            }
            if is_async {
                let ghost before = keys@;
                keys.push("operators.async_function");
                assert(str_views(keys@) =~= str_views(before).push("operators.async_function"@));
            }
            keys
        },
        ExpressionKind::LogicalExpression(op) => match logical_operator_syntax(op) {
            Some(key) => one_key(key),
            None => Vec::new(),
        },
        ExpressionKind::NewExpression => one_key("operators.new"),
        ExpressionKind::ObjectExpression => one_key("operators.object_initializer"),
        ExpressionKind::SequenceExpression => one_key("operators.comma"),
        ExpressionKind::Super => one_key("operators.super"),
        ExpressionKind::ThisExpression => one_key("operators.this"),
        ExpressionKind::UnaryExpression(op) => match unary_operator_syntax(op) {
            Some(key) => one_key(key),
            None => Vec::new(),
        },
        ExpressionKind::UpdateExpression(op) => match update_operator_syntax(op) {
            Some(key) => one_key(key),
            None => Vec::new(),
        },
        ExpressionKind::YieldExpression => one_key("operators.yield"),
        ExpressionKind::PrivateInExpression => one_key("classes.private_class_fields_in"),
        ExpressionKind::Other => {
            let r: Vec<&'static str> = Vec::new();
            assert(str_views(r@) =~= Seq::<Seq<char>>::empty());
            r
        },
    }
}

/// The kind of a statement node, with what its syntax depends on.
#[derive(Debug, Clone, Copy, PartialEq, Eq, Structural)]
pub enum StatementKind {
    BlockStatement,
    BreakStatement,
    ContinueStatement,
    DebuggerStatement,
    DoWhileStatement,
    EmptyStatement,
    ForInStatement,
    ForOfStatement,
    ForStatement,
    IfStatement,
    LabeledStatement,
    ReturnStatement,
    SwitchStatement,
    ThrowStatement,
    TryStatement,
    WhileStatement,
    WithStatement,
    FunctionDeclaration { generator: bool, is_async: bool },
    ClassDeclaration,
    ImportDeclaration,
    ExportNamedDeclaration,
    ExportDefaultDeclaration,
    ExportAllDeclaration,
    /// Any other statement, which has no key of its own.
    Other,
}

/// A syntax key.
pub open spec fn syn(key: Seq<char>) -> (EmitTable, Seq<char>) {
    (EmitTable::Syntax, key)
}

/// A support key.
pub open spec fn sup(key: Seq<char>) -> (EmitTable, Seq<char>) {
    (EmitTable::Support, key)
}

/// The keys a statement node stands for, in the order they are recorded.
pub open spec fn statement_keys_spec(kind: StatementKind) -> Seq<(EmitTable, Seq<char>)> {
    match kind {
        StatementKind::BlockStatement => seq![syn("statements.block"@)],
        StatementKind::BreakStatement => seq![syn("statements.break"@)],
        StatementKind::ContinueStatement => seq![syn("statements.continue"@)],
        StatementKind::DebuggerStatement => seq![syn("statements.debugger"@)],
        StatementKind::DoWhileStatement => seq![syn("statements.do_while"@)],
        StatementKind::EmptyStatement => seq![syn("statements.empty"@)],
        StatementKind::ForInStatement => seq![syn("statements.for_in"@)],
        StatementKind::ForOfStatement => seq![syn("statements.for_of"@)],
        StatementKind::ForStatement => seq![syn("statements.for"@)],
        StatementKind::IfStatement => seq![syn("statements.if_else"@)],
        StatementKind::LabeledStatement => seq![syn("statements.label"@)],
        StatementKind::ReturnStatement => seq![syn("statements.return"@)],
        StatementKind::SwitchStatement => seq![syn("statements.switch"@)],
        StatementKind::ThrowStatement => seq![syn("statements.throw"@)],
        StatementKind::TryStatement => seq![syn("statements.try_catch"@)],
        StatementKind::WhileStatement => seq![syn("statements.while"@)],
        StatementKind::WithStatement => seq![syn("statements.with"@)],
        StatementKind::FunctionDeclaration { generator, is_async } => {
            let base = seq![syn("statements.function"@)];
            let with_generator = if generator {
                base.push(syn("statements.generator_function"@))
            } else {
                base
            };
            if is_async {
                with_generator.push(syn("statements.async_function"@))
            } else {
                with_generator
            }
        },
        StatementKind::ClassDeclaration => seq![syn("statements.class"@), syn("operators.class"@)],
        StatementKind::ImportDeclaration => seq![
            sup("module.esm"@),
            syn("statements.import"@),
            syn("operators.import"@),
        ],
        StatementKind::ExportNamedDeclaration => seq![sup("module.esm"@), syn("statements.export"@)],
        StatementKind::ExportDefaultDeclaration => seq![
            sup("module.esm"@),
            syn("statements.export"@),
            syn("statements.export.default"@),
        ],
        StatementKind::ExportAllDeclaration => seq![
            sup("module.esm"@),
            syn("statements.export"@),
            syn("statements.export.namespace"@),
        ],
        StatementKind::Other => seq![],
    }
}

/// The views of a list of keys.
pub open spec fn key_views(v: Seq<(EmitTable, &'static str)>) -> Seq<(EmitTable, Seq<char>)> {
    v.map_values(|k: (EmitTable, &'static str)| (k.0, k.1@))
}

/// The keys of a statement node.
pub fn statement_keys(kind: StatementKind) -> (r: Vec<(EmitTable, &'static str)>)
    ensures
        key_views(r@) == statement_keys_spec(kind),
{
    let r: Vec<(EmitTable, &'static str)> = match kind {
        StatementKind::BlockStatement => vec![(EmitTable::Syntax, "statements.block")],
        StatementKind::BreakStatement => vec![(EmitTable::Syntax, "statements.break")],
        StatementKind::ContinueStatement => vec![(EmitTable::Syntax, "statements.continue")],
        StatementKind::DebuggerStatement => vec![(EmitTable::Syntax, "statements.debugger")],
        StatementKind::DoWhileStatement => vec![(EmitTable::Syntax, "statements.do_while")],
        StatementKind::EmptyStatement => vec![(EmitTable::Syntax, "statements.empty")],
        StatementKind::ForInStatement => vec![(EmitTable::Syntax, "statements.for_in")],
        StatementKind::ForOfStatement => vec![(EmitTable::Syntax, "statements.for_of")],
        StatementKind::ForStatement => vec![(EmitTable::Syntax, "statements.for")],
        StatementKind::IfStatement => vec![(EmitTable::Syntax, "statements.if_else")],
        StatementKind::LabeledStatement => vec![(EmitTable::Syntax, "statements.label")],
        StatementKind::ReturnStatement => vec![(EmitTable::Syntax, "statements.return")],
        StatementKind::SwitchStatement => vec![(EmitTable::Syntax, "statements.switch")],
        StatementKind::ThrowStatement => vec![(EmitTable::Syntax, "statements.throw")],
        StatementKind::TryStatement => vec![(EmitTable::Syntax, "statements.try_catch")],
        StatementKind::WhileStatement => vec![(EmitTable::Syntax, "statements.while")],
        StatementKind::WithStatement => vec![(EmitTable::Syntax, "statements.with")],
        StatementKind::FunctionDeclaration { generator, is_async } => {
            let mut keys = vec![(EmitTable::Syntax, "statements.function")];
            if generator {
                keys.push((EmitTable::Syntax, "statements.generator_function"));
            }
            if is_async {
                keys.push((EmitTable::Syntax, "statements.async_function"));
            }
            keys
        },
        StatementKind::ClassDeclaration => vec![
            (EmitTable::Syntax, "statements.class"),
            (EmitTable::Syntax, "operators.class"),
        ],
        StatementKind::ImportDeclaration => vec![
            (EmitTable::Support, "module.esm"),
            (EmitTable::Syntax, "statements.import"),
            (EmitTable::Syntax, "operators.import"),
        ],
        StatementKind::ExportNamedDeclaration => vec![
            (EmitTable::Support, "module.esm"),
            (EmitTable::Syntax, "statements.export"),
        ],
        StatementKind::ExportDefaultDeclaration => vec![
            (EmitTable::Support, "module.esm"),
            (EmitTable::Syntax, "statements.export"),
            (EmitTable::Syntax, "statements.export.default"),
        ],
        StatementKind::ExportAllDeclaration => vec![
            (EmitTable::Support, "module.esm"),
            (EmitTable::Syntax, "statements.export"),
            (EmitTable::Syntax, "statements.export.namespace"),
        ],
        StatementKind::Other => Vec::new(),
    };
    assert(key_views(r@) =~= statement_keys_spec(kind));
    r
}

} // verus!
