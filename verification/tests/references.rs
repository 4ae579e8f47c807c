use rookdb::ast::{
    ArithOp, CompareOp, ConstantValue, CteDef, ExprNode, FunctionArg, JoinClause, LogicalOp,
    PredicateNode, SelectExpr, SelectPlan, SubqueryInfo, TableRef,
};
use rookdb::references::{
    expr_references_table, predicate_node_references_table, select_plan_references_table,
};

fn empty() -> SelectPlan {
    SelectPlan {
        ctes: vec![],
        projections: vec![SelectExpr::Wildcard],
        from: vec![],
        joins: vec![],
        selection: None,
        group_by: vec![],
        having: None,
        order_by: vec![],
        limit: None,
        distinct: false,
    }
}

fn from(name: &str) -> SelectPlan {
    let mut plan = empty();
    plan.from.push(TableRef { name: name.to_string(), alias: None });
    plan
}

fn sub(name: &str) -> SubqueryInfo {
    SubqueryInfo { select: Box::new(from(name)) }
}

fn qualified(table: &str) -> ExprNode {
    ExprNode::Compound(vec!["db".to_string(), table.to_string(), "c".to_string()])
}

fn one() -> ExprNode {
    ExprNode::Constant(ConstantValue::Int(1))
}

#[test]
fn from_and_joins_count_in_any_letter_case() {
    assert!(select_plan_references_table(&from("Emp"), "EMP"));
    assert!(!select_plan_references_table(&from("emps"), "emp"));
    let mut plan = from("a");
    plan.joins.push(JoinClause {
        relation: TableRef { name: "B".to_string(), alias: Some("x".to_string()) },
        on: None,
    });
    assert!(select_plan_references_table(&plan, "b"));
    assert!(!select_plan_references_table(&plan, "x"));
}

#[test]
fn join_conditions_and_ordering_do_not_count() {
    let mut plan = from("a");
    plan.joins.push(JoinClause {
        relation: TableRef { name: "b".to_string(), alias: None },
        on: Some(PredicateNode::IsNull(qualified("t"))),
    });
    plan.group_by.push(qualified("t"));
    assert!(!select_plan_references_table(&plan, "t"));
}

#[test]
fn common_table_expressions_count() {
    let mut plan = from("x");
    plan.ctes.push(CteDef {
        name: "x".to_string(),
        query: Box::new(from("base")),
        recursive_term: Some(Box::new(from("step"))),
    });
    assert!(select_plan_references_table(&plan, "BASE"));
    assert!(select_plan_references_table(&plan, "Step"));
    assert!(!select_plan_references_table(&plan, "other"));
}

#[test]
fn projections_where_and_having_count() {
    let mut plan = from("x");
    plan.projections = vec![
        SelectExpr::UnnamedExpr(one()),
        SelectExpr::ExprWithAlias { expr: ExprNode::ScalarSubquery(sub("p")), alias: "n".to_string() },
    ];
    plan.selection = Some(PredicateNode::Exists(sub("w")));
    plan.having = Some(PredicateNode::InSubquery { expr: one(), subquery: sub("h"), negated: true });
    for name in ["x", "p", "w", "h"] {
        assert!(select_plan_references_table(&plan, name), "{}", name);
    }
    assert!(!select_plan_references_table(&plan, "n"));
}

#[test]
fn expressions_count_by_qualifier() {
    assert!(!expr_references_table(&ExprNode::Column("t".to_string()), "t"));
    assert!(!expr_references_table(&ExprNode::Compound(vec!["t".to_string()]), "t"));
    assert!(expr_references_table(&ExprNode::Compound(vec!["T".to_string(), "c".to_string()]), "t"));
    assert!(expr_references_table(&qualified("t"), "t"));
    assert!(!expr_references_table(&qualified("t"), "db"));
    let nested = ExprNode::Binary {
        left: Box::new(one()),
        op: ArithOp::Add,
        right: Box::new(ExprNode::Cast { expr: Box::new(qualified("t")), data_type: "INT".to_string() }),
    };
    assert!(expr_references_table(&nested, "t"));
    let call = ExprNode::Function {
        name: "SUM".to_string(),
        args: vec![FunctionArg::Star, FunctionArg::Expr(qualified("t"))],
    };
    assert!(expr_references_table(&call, "t"));
    assert!(!expr_references_table(&call, "u"));
    let case = ExprNode::Case {
        when_then_pairs: vec![(one(), one()), (one(), qualified("t"))],
        else_result: Some(Box::new(qualified("u"))),
    };
    assert!(expr_references_table(&case, "t"));
    assert!(expr_references_table(&case, "u"));
    assert!(!expr_references_table(&case, "v"));
}

#[test]
fn predicates_count_by_their_expressions() {
    let has = |p: PredicateNode| predicate_node_references_table(&p, "t");
    let t = || qualified("t");
    assert!(has(PredicateNode::BinaryOp {
        left: Box::new(PredicateNode::IsNull(one())),
        op: LogicalOp::Or,
        right: Box::new(PredicateNode::Not(Box::new(PredicateNode::IsNotNull(t())))),
    }));
    assert!(has(PredicateNode::Compare { left: one(), op: CompareOp::Lt, right: t() }));
    assert!(has(PredicateNode::Between { expr: one(), low: one(), high: t() }));
    assert!(has(PredicateNode::InList { expr: one(), list: vec![one(), t()] }));
    assert!(has(PredicateNode::Like { expr: t(), pattern: "%".to_string() }));
    assert!(has(PredicateNode::IsDistinctFrom { left: t(), right: one() }));
    assert!(has(PredicateNode::IsBoolean { expr: t(), value: true }));
    assert!(has(PredicateNode::InSubquery { expr: one(), subquery: sub("t"), negated: false }));
    assert!(!has(PredicateNode::InList { expr: one(), list: vec![one()] }));
    assert!(!has(PredicateNode::Exists(sub("u"))));
}
