//! The typed form of a parsed SQL statement.

use vstd::prelude::*;

verus! {

/// A literal. `Float` holds the decimal rendering of the number.
#[derive(Debug, PartialEq)]
pub enum ConstantValue {
    Null,
    Int(i64),
    Float(String),
    Text(String),
    Boolean(bool),
}

#[derive(Debug, Clone, Copy, PartialEq, Eq, Structural)]
pub enum ArithOp {
    Add,
    Sub,
    Mul,
    Div,
}

#[derive(Debug, PartialEq)]
pub enum FunctionArg {
    Star,
    Expr(ExprNode),
}

/// A subquery used inside an expression or a predicate.
#[derive(Debug, PartialEq)]
pub struct SubqueryInfo {
    pub select: Box<SelectPlan>,
}

#[derive(Debug, PartialEq)]
pub enum ExprNode {
    Column(String),
    Compound(Vec<String>),
    Constant(ConstantValue),
    Binary { left: Box<ExprNode>, op: ArithOp, right: Box<ExprNode> },
    Cast { expr: Box<ExprNode>, data_type: String },
    ScalarSubquery(SubqueryInfo),
    Function { name: String, args: Vec<FunctionArg> },
    Case { when_then_pairs: Vec<(ExprNode, ExprNode)>, else_result: Option<Box<ExprNode>> },
}

#[derive(Debug, Clone, Copy, PartialEq, Eq, Structural)]
pub enum LogicalOp {
    And,
    Or,
}

#[derive(Debug, Clone, Copy, PartialEq, Eq, Structural)]
pub enum CompareOp {
    Eq,
    NotEq,
    Lt,
    LtEq,
    Gt,
    GtEq,
}

#[allow(inconsistent_fields)]
#[derive(Debug, PartialEq)]
pub enum PredicateNode {
    BinaryOp { left: Box<PredicateNode>, op: LogicalOp, right: Box<PredicateNode> },
    Not(Box<PredicateNode>),
    Compare { left: ExprNode, op: CompareOp, right: ExprNode },
    IsNull(ExprNode),
    IsNotNull(ExprNode),
    Between { expr: ExprNode, low: ExprNode, high: ExprNode },
    InList { expr: ExprNode, list: Vec<ExprNode> },
    Like { expr: ExprNode, pattern: String },
    Exists(SubqueryInfo),
    InSubquery { expr: ExprNode, subquery: SubqueryInfo, negated: bool },
    IsDistinctFrom { left: ExprNode, right: ExprNode },
    IsBoolean { expr: ExprNode, value: bool },
}

#[derive(Debug, PartialEq)]
pub enum SelectExpr {
    Wildcard,
    UnnamedExpr(ExprNode),
    ExprWithAlias { expr: ExprNode, alias: String },
}

#[derive(Debug, PartialEq)]
pub struct TableRef {
    pub name: String,
    pub alias: Option<String>,
}

#[derive(Debug, PartialEq)]
pub struct JoinClause {
    pub relation: TableRef,
    pub on: Option<PredicateNode>,
}

/// A common table expression, with the second term of a recursive one.
#[derive(Debug, PartialEq)]
pub struct CteDef {
    pub name: String,
    pub query: Box<SelectPlan>,
    pub recursive_term: Option<Box<SelectPlan>>,
}

#[derive(Debug, PartialEq)]
pub struct OrderItem {
    pub expr: ExprNode,
    pub descending: bool,
}

#[derive(Debug, PartialEq)]
pub struct SelectPlan {
    pub ctes: Vec<CteDef>,
    pub projections: Vec<SelectExpr>,
    pub from: Vec<TableRef>,
    pub joins: Vec<JoinClause>,
    pub selection: Option<PredicateNode>,
    pub group_by: Vec<ExprNode>,
    pub having: Option<PredicateNode>,
    pub order_by: Vec<OrderItem>,
    pub limit: Option<u64>,
    pub distinct: bool,
}

} // verus!
