//! Expressions and statements of the syntax tree, and their mathematical
//! views.
use vstd::prelude::*;
use crate::ast::TypeId;
use crate::location::Location;

verus! {

/// A location spanning from the start of `from` to the end of `to`; empty
/// when `to` ends before `from` starts.
pub open spec fn spec_span(from: Location, to: Location) -> Location {
    let end = if to.position + to.length > usize::MAX {
        usize::MAX as int
    } else {
        to.position + to.length
    };
    Location {
        position: from.position,
        line: from.line,
        column: from.column,
        length: if end >= from.position {
            (end - from.position) as usize
        } else {
            0
        },
    }
}

/// Returns the location spanning from the start of `from` to the end of `to`.
pub fn span_to(from: Location, to: Location) -> (l: Location)
    ensures
        l == spec_span(from, to),
{
    let end = to.position.saturating_add(to.length);
    Location {
        position: from.position,
        line: from.line,
        column: from.column,
        length: end.saturating_sub(from.position),
    }
}

/// The value of a floating-point literal, kept exact: the float nearest to
/// an integer, or the float that a decimal text denotes.
#[derive(Debug, Clone, PartialEq)]
pub enum FloatLiteral {
    /// The float nearest to this integer.
    Integer(i64),
    /// The float denoted by this text.
    Text(String),
}

/// The mathematical content of a floating-point literal.
pub enum SpecFloat {
    Integer(i64),
    Text(Seq<char>),
}

impl View for FloatLiteral {
    type V = SpecFloat;

    open spec fn view(&self) -> SpecFloat {
        match self {
            FloatLiteral::Integer(n) => SpecFloat::Integer(*n),
            FloatLiteral::Text(t) => SpecFloat::Text(t@),
        }
    }
}

/// The value of a literal.
#[derive(Debug, Clone, PartialEq)]
pub enum LiteralValue {
    I32(i32),
    I64(i64),
    U32(u32),
    U64(u64),
    F32(FloatLiteral),
    F64(FloatLiteral),
    /// An integer literal without suffix.
    UnspecifiedInteger(i64),
    /// A float literal without suffix.
    UnspecifiedFloat(FloatLiteral),
    String(String),
    Boolean(bool),
}

/// The mathematical content of a literal.
pub enum SpecLiteral {
    I32(i32),
    I64(i64),
    U32(u32),
    U64(u64),
    F32(SpecFloat),
    F64(SpecFloat),
    UnspecifiedInteger(i64),
    UnspecifiedFloat(SpecFloat),
    String(Seq<char>),
    Boolean(bool),
}

impl View for LiteralValue {
    type V = SpecLiteral;

    open spec fn view(&self) -> SpecLiteral {
        match self {
            LiteralValue::I32(v) => SpecLiteral::I32(*v),
            LiteralValue::I64(v) => SpecLiteral::I64(*v),
            LiteralValue::U32(v) => SpecLiteral::U32(*v),
            LiteralValue::U64(v) => SpecLiteral::U64(*v),
            LiteralValue::F32(f) => SpecLiteral::F32(f@),
            LiteralValue::F64(f) => SpecLiteral::F64(f@),
            LiteralValue::UnspecifiedInteger(v) => SpecLiteral::UnspecifiedInteger(*v),
            LiteralValue::UnspecifiedFloat(f) => SpecLiteral::UnspecifiedFloat(f@),
            LiteralValue::String(s) => SpecLiteral::String(s@),
            LiteralValue::Boolean(b) => SpecLiteral::Boolean(*b),
        }
    }
}

/// Binary operators.
#[derive(Debug, Clone, Copy, PartialEq, Eq, Structural)]
pub enum BinaryOperator {
    Add,
    Subtract,
    Multiply,
    Divide,
    GreaterThan,
    LessThan,
    GreaterThanOrEqual,
    LessThanOrEqual,
    Equal,
    NotEqual,
    And,
    Or,
}

impl BinaryOperator {
    /// The operator as written in source code.
    pub open spec fn spec_symbol(self) -> Seq<char> {
        match self {
            BinaryOperator::Add => "+"@,
            BinaryOperator::Subtract => "-"@,
            BinaryOperator::Multiply => "*"@,
            BinaryOperator::Divide => "/"@,
            BinaryOperator::GreaterThan => ">"@,
            BinaryOperator::LessThan => "<"@,
            BinaryOperator::GreaterThanOrEqual => ">="@,
            BinaryOperator::LessThanOrEqual => "<="@,
            BinaryOperator::Equal => "=="@,
            BinaryOperator::NotEqual => "!="@,
            BinaryOperator::And => "&&"@,
            BinaryOperator::Or => "||"@,
        }
    }

    /// Returns the operator as written in source code.
    pub fn symbol(self) -> (s: &'static str)
        ensures
            s@ == self.spec_symbol(),
    {
        match self {
            BinaryOperator::Add => "+",
            BinaryOperator::Subtract => "-",
            BinaryOperator::Multiply => "*",
            BinaryOperator::Divide => "/",
            BinaryOperator::GreaterThan => ">",
            BinaryOperator::LessThan => "<",
            BinaryOperator::GreaterThanOrEqual => ">=",
            BinaryOperator::LessThanOrEqual => "<=",
            BinaryOperator::Equal => "==",
            BinaryOperator::NotEqual => "!=",
            BinaryOperator::And => "&&",
            BinaryOperator::Or => "||",
        }
    }
}

/// Unary operators.
#[derive(Debug, Clone, Copy, PartialEq, Eq, Structural)]
pub enum UnaryOperator {
    Negate,
    Not,
}

/// A literal expression.
#[derive(Debug)]
pub struct LiteralExpr {
    pub value: LiteralValue,
    pub expr_type: TypeId,
    pub location: Location,
}

/// A binary expression.
#[derive(Debug)]
pub struct BinaryExpr {
    pub left: Box<Expression>,
    pub operator: BinaryOperator,
    pub right: Box<Expression>,
    pub expr_type: TypeId,
    pub location: Location,
}

/// A unary expression.
#[derive(Debug)]
pub struct UnaryExpr {
    pub operator: UnaryOperator,
    pub right: Box<Expression>,
    pub expr_type: TypeId,
    pub location: Location,
}

/// A call of a function by name.
#[derive(Debug)]
pub struct FunctionCallExpr {
    pub name: String,
    pub arguments: Vec<Expression>,
    pub expr_type: TypeId,
    pub location: Location,
}

/// A conditional expression `if c { a } else { b }`.
#[derive(Debug)]
pub struct ConditionalExpr {
    pub condition: Box<Expression>,
    pub then_branch: Box<Expression>,
    pub else_branch: Box<Expression>,
    pub expr_type: TypeId,
    pub location: Location,
}

/// An expression.
#[derive(Debug)]
pub enum Expression {
    Literal(LiteralExpr),
    Binary(BinaryExpr),
    Unary(UnaryExpr),
    Variable(String, Location),
    Call(FunctionCallExpr),
    Conditional(ConditionalExpr),
}

/// The mathematical content of an expression.
pub enum SpecExpr {
    Literal { value: SpecLiteral, expr_type: TypeId, location: Location },
    Binary {
        left: Box<SpecExpr>,
        operator: BinaryOperator,
        right: Box<SpecExpr>,
        expr_type: TypeId,
        location: Location,
    },
    Unary { operator: UnaryOperator, right: Box<SpecExpr>, expr_type: TypeId, location: Location },
    Variable { name: Seq<char>, location: Location },
    Call { name: Seq<char>, arguments: Seq<SpecExpr>, expr_type: TypeId, location: Location },
    Conditional {
        condition: Box<SpecExpr>,
        then_branch: Box<SpecExpr>,
        else_branch: Box<SpecExpr>,
        expr_type: TypeId,
        location: Location,
    },
}

impl SpecExpr {
    /// The source location of the expression.
    pub open spec fn location(self) -> Location {
        match self {
            SpecExpr::Literal { location, .. } => location,
            SpecExpr::Binary { location, .. } => location,
            SpecExpr::Unary { location, .. } => location,
            SpecExpr::Variable { location, .. } => location,
            SpecExpr::Call { location, .. } => location,
            SpecExpr::Conditional { location, .. } => location,
        }
    }
}

/// The mathematical content of an expression.
pub open spec fn expr_view(e: Expression) -> SpecExpr
    decreases e,
{
    match e {
        Expression::Literal(l) => SpecExpr::Literal {
            value: l.value@,
            expr_type: l.expr_type,
            location: l.location,
        },
        Expression::Binary(b) => SpecExpr::Binary {
            left: Box::new(expr_view(*b.left)),
            operator: b.operator,
            right: Box::new(expr_view(*b.right)),
            expr_type: b.expr_type,
            location: b.location,
        },
        Expression::Unary(u) => SpecExpr::Unary {
            operator: u.operator,
            right: Box::new(expr_view(*u.right)),
            expr_type: u.expr_type,
            location: u.location,
        },
        Expression::Variable(name, location) => SpecExpr::Variable { name: name@, location },
        Expression::Call(c) => SpecExpr::Call {
            name: c.name@,
            arguments: exprs_view(c.arguments@),
            expr_type: c.expr_type,
            location: c.location,
        },
        Expression::Conditional(c) => SpecExpr::Conditional {
            condition: Box::new(expr_view(*c.condition)),
            then_branch: Box::new(expr_view(*c.then_branch)),
            else_branch: Box::new(expr_view(*c.else_branch)),
            expr_type: c.expr_type,
            location: c.location,
        },
    }
}

/// The mathematical content of a list of expressions.
pub open spec fn exprs_view(es: Seq<Expression>) -> Seq<SpecExpr>
    decreases es,
{
    if es.len() == 0 {
        Seq::empty()
    } else {
        exprs_view(es.subrange(0, es.len() - 1)).push(expr_view(es[es.len() - 1]))
    }
}

impl View for Expression {
    type V = SpecExpr;

    open spec fn view(&self) -> SpecExpr {
        expr_view(*self)
    }
}

impl Expression {
    /// Returns the source location of the expression.
    pub fn location(&self) -> (l: Location)
        ensures
            l == self@.location(),
    {
        match self {
            Expression::Literal(l) => l.location,
            Expression::Binary(b) => b.location,
            Expression::Unary(u) => u.location,
            Expression::Variable(_, location) => *location,
            Expression::Call(c) => c.location,
            Expression::Conditional(c) => c.location,
        }
    }
}

/// A variable declaration `let [mut] name [: type] = value;`.
#[derive(Debug)]
pub struct LetStatement {
    pub name: String,
    pub is_mutable: bool,
    pub value: Expression,
    pub expr_type: TypeId,
    pub location: Location,
}

/// A parameter of a function declaration.
#[derive(Debug)]
pub struct Parameter {
    pub name: String,
    pub param_type: TypeId,
    pub location: Location,
}

/// A function declaration.
#[derive(Debug)]
pub struct FunctionDeclarationStmt {
    pub name: String,
    pub parameters: Vec<Parameter>,
    pub return_type: TypeId,
    pub body: Vec<Statement>,
    pub location: Location,
}

/// A struct type definition with its fields.
#[derive(Debug)]
pub struct TypeDefinitionStmt {
    pub name: String,
    pub fields: Vec<(String, TypeId)>,
    pub location: Location,
}

/// An if statement, with an optional else branch.
#[derive(Debug)]
pub struct IfStatement {
    pub condition: Expression,
    pub then_branch: Vec<Statement>,
    pub else_branch: Option<Vec<Statement>>,
    pub location: Location,
}

/// An assignment `name = value;`.
#[derive(Debug)]
pub struct AssignmentStatement {
    pub name: String,
    pub value: Expression,
    pub location: Location,
}

/// A statement.
#[derive(Debug)]
pub enum Statement {
    Let(LetStatement),
    Expression(Expression),
    TypeDefinition(TypeDefinitionStmt),
    FunctionDeclaration(FunctionDeclarationStmt),
    Block(Vec<Statement>),
    Return(Option<Expression>),
    If(IfStatement),
    Assignment(AssignmentStatement),
}

/// The mathematical content of a parameter.
pub struct SpecParameter {
    pub name: Seq<char>,
    pub param_type: TypeId,
    pub location: Location,
}

impl View for Parameter {
    type V = SpecParameter;

    open spec fn view(&self) -> SpecParameter {
        SpecParameter { name: self.name@, param_type: self.param_type, location: self.location }
    }
}

/// The mathematical content of a statement.
pub enum SpecStmt {
    Let { name: Seq<char>, is_mutable: bool, value: SpecExpr, expr_type: TypeId, location: Location },
    Expression(SpecExpr),
    TypeDefinition { name: Seq<char>, fields: Seq<(Seq<char>, TypeId)>, location: Location },
    FunctionDeclaration {
        name: Seq<char>,
        parameters: Seq<SpecParameter>,
        return_type: TypeId,
        body: Seq<SpecStmt>,
        location: Location,
    },
    Block(Seq<SpecStmt>),
    Return(Option<SpecExpr>),
    If {
        condition: SpecExpr,
        then_branch: Seq<SpecStmt>,
        else_branch: Option<Seq<SpecStmt>>,
        location: Location,
    },
    Assignment { name: Seq<char>, value: SpecExpr, location: Location },
}

/// The mathematical content of the fields of a type definition.
pub open spec fn fields_view(fields: Seq<(String, TypeId)>) -> Seq<(Seq<char>, TypeId)> {
    fields.map_values(|f: (String, TypeId)| (f.0@, f.1))
}

/// The mathematical content of a list of parameters.
pub open spec fn params_view(params: Seq<Parameter>) -> Seq<SpecParameter> {
    params.map_values(|p: Parameter| p@)
}

/// The mathematical content of a statement.
pub open spec fn stmt_view(s: Statement) -> SpecStmt
    decreases s,
{
    match s {
        Statement::Let(l) => SpecStmt::Let {
            name: l.name@,
            is_mutable: l.is_mutable,
            value: l.value@,
            expr_type: l.expr_type,
            location: l.location,
        },
        Statement::Expression(e) => SpecStmt::Expression(e@),
        Statement::TypeDefinition(t) => SpecStmt::TypeDefinition {
            name: t.name@,
            fields: fields_view(t.fields@),
            location: t.location,
        },
        Statement::FunctionDeclaration(f) => SpecStmt::FunctionDeclaration {
            name: f.name@,
            parameters: params_view(f.parameters@),
            return_type: f.return_type,
            body: stmts_view(f.body@),
            location: f.location,
        },
        Statement::Block(b) => SpecStmt::Block(stmts_view(b@)),
        Statement::Return(r) => SpecStmt::Return(
            match r {
                Some(e) => Some(e@),
                None => None,
            },
        ),
        Statement::If(i) => SpecStmt::If {
            condition: i.condition@,
            then_branch: stmts_view(i.then_branch@),
            else_branch: match i.else_branch {
                Some(b) => Some(stmts_view(b@)),
                None => None,
            },
            location: i.location,
        },
        Statement::Assignment(a) => SpecStmt::Assignment {
            name: a.name@,
            value: a.value@,
            location: a.location,
        },
    }
}

/// The mathematical content of a list of statements.
pub open spec fn stmts_view(ss: Seq<Statement>) -> Seq<SpecStmt>
    decreases ss,
{
    if ss.len() == 0 {
        Seq::empty()
    } else {
        stmts_view(ss.subrange(0, ss.len() - 1)).push(stmt_view(ss[ss.len() - 1]))
    }
}

impl View for Statement {
    type V = SpecStmt;

    open spec fn view(&self) -> SpecStmt {
        stmt_view(*self)
    }
}

} // verus!
