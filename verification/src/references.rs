//! Which queries depend on a table.

use vstd::prelude::*;
use crate::ast::{CteDef, ExprNode, FunctionArg, PredicateNode, SelectExpr, SelectPlan};
use crate::text;

verus! {

/// The query reads `table`, in its own clauses or in a query nested in them.
///
/// Names are compared without regard to ASCII letter case. Only the clauses listed here count:
/// the join conditions, `GROUP BY` and `ORDER BY` do not.
pub open spec fn plan_refs(plan: SelectPlan, table: Seq<char>) -> bool
    decreases plan,
{
    ||| exists|i: int| 0 <= i < plan.from@.len() && text::same_fold(#[trigger] plan.from@[i].name@, table)
    ||| exists|i: int|
        0 <= i < plan.joins@.len() && text::same_fold(#[trigger] plan.joins@[i].relation.name@, table)
    ||| exists|i: int| 0 <= i < plan.ctes@.len() && cte_refs(#[trigger] plan.ctes@[i], table)
    ||| exists|i: int|
        0 <= i < plan.projections@.len() && projection_refs(#[trigger] plan.projections@[i], table)
    ||| plan.selection is Some && predicate_refs(plan.selection->0, table)
    ||| plan.having is Some && predicate_refs(plan.having->0, table)
}

pub open spec fn cte_refs(cte: CteDef, table: Seq<char>) -> bool
    decreases cte,
{
    ||| plan_refs(*cte.query, table)
    ||| cte.recursive_term is Some && plan_refs(*cte.recursive_term->0, table)
}

pub open spec fn projection_refs(p: SelectExpr, table: Seq<char>) -> bool
    decreases p,
{
    match p {
        SelectExpr::Wildcard => false,
        SelectExpr::UnnamedExpr(e) => expr_refs(e, table),
        SelectExpr::ExprWithAlias { expr, .. } => expr_refs(expr, table),
    }
}

/// The expression reads `table`: by a qualified column whose qualifier is the table's name, or
/// in a subquery.
pub open spec fn expr_refs(e: ExprNode, table: Seq<char>) -> bool
    decreases e,
{
    match e {
        ExprNode::Column(_) => false,
        ExprNode::Constant(_) => false,
        ExprNode::Compound(parts) => parts@.len() >= 2 && text::same_fold(
            parts@[parts@.len() - 2]@,
            table,
        ),
        ExprNode::Binary { left, op, right } => expr_refs(*left, table) || expr_refs(*right, table),
        ExprNode::Cast { expr, data_type } => expr_refs(*expr, table),
        ExprNode::ScalarSubquery(info) => plan_refs(*info.select, table),
        ExprNode::Function { name, args } => exists|i: int|
            0 <= i < args@.len() && arg_refs(#[trigger] args@[i], table),
        ExprNode::Case { when_then_pairs, else_result } => {
            ||| exists|i: int|
                0 <= i < when_then_pairs@.len() && (expr_refs((#[trigger] when_then_pairs@[i]).0, table)
                    || expr_refs(when_then_pairs@[i].1, table))
            ||| else_result is Some && expr_refs(*else_result->0, table)
        },
    }
}

pub open spec fn arg_refs(a: FunctionArg, table: Seq<char>) -> bool
    decreases a,
{
    match a {
        FunctionArg::Star => false,
        FunctionArg::Expr(e) => expr_refs(e, table),
    }
}

pub open spec fn predicate_refs(p: PredicateNode, table: Seq<char>) -> bool
    decreases p,
{
    match p {
        PredicateNode::BinaryOp { left, op, right } => predicate_refs(*left, table)
            || predicate_refs(*right, table),
        PredicateNode::Not(inner) => predicate_refs(*inner, table),
        PredicateNode::Compare { left, op, right } => expr_refs(left, table) || expr_refs(
            right,
            table,
        ),
        PredicateNode::IsNull(expr) => expr_refs(expr, table),
        PredicateNode::IsNotNull(expr) => expr_refs(expr, table),
        PredicateNode::Between { expr, low, high } => expr_refs(expr, table) || expr_refs(
            low,
            table,
        ) || expr_refs(high, table),
        PredicateNode::InList { expr, list } => expr_refs(expr, table) || exists|i: int|
            0 <= i < list@.len() && expr_refs(#[trigger] list@[i], table),
        PredicateNode::Like { expr, pattern } => expr_refs(expr, table),
        PredicateNode::Exists(info) => plan_refs(*info.select, table),
        PredicateNode::InSubquery { expr, subquery, negated } => expr_refs(expr, table)
            || plan_refs(*subquery.select, table),
        PredicateNode::IsDistinctFrom { left, right } => expr_refs(left, table) || expr_refs(
            right,
            table,
        ),
        PredicateNode::IsBoolean { expr, value } => expr_refs(expr, table),
    }
}

#[verifier::loop_isolation(false)]
pub fn select_plan_references_table(plan: &SelectPlan, table: &str) -> (r: bool)
    ensures
        r == plan_refs(*plan, table@),
    decreases plan,
{
    let mut i: usize = 0;
    while i < plan.from.len()
        invariant
            i <= plan.from.len(),
            forall|j: int| 0 <= j < i ==> !text::same_fold(#[trigger] plan.from@[j].name@, table@),
        decreases plan.from.len() - i,
    {
        if text::same_ignoring_case(plan.from[i].name.as_str(), table) {
            return true;
        }
        i = i + 1;
    }
    let mut i: usize = 0;
    while i < plan.joins.len()
        invariant
            i <= plan.joins.len(),
            forall|j: int|
                0 <= j < i ==> !text::same_fold(#[trigger] plan.joins@[j].relation.name@, table@),
        decreases plan.joins.len() - i,
    {
        if text::same_ignoring_case(plan.joins[i].relation.name.as_str(), table) {
            return true;
        }
        i = i + 1;
    }
    let mut i: usize = 0;
    while i < plan.ctes.len()
        invariant
            i <= plan.ctes.len(),
            forall|j: int| 0 <= j < i ==> !cte_refs(#[trigger] plan.ctes@[j], table@),
        decreases plan.ctes.len() - i,
    {
        if cte_references_table(&plan.ctes[i], table) {
            return true;
        }
        i = i + 1;
    }
    let mut i: usize = 0;
    while i < plan.projections.len()
        invariant
            i <= plan.projections.len(),
            forall|j: int| 0 <= j < i ==> !projection_refs(#[trigger] plan.projections@[j], table@),
        decreases plan.projections.len() - i,
    {
        if projection_references_table(&plan.projections[i], table) {
            return true;
        }
        i = i + 1;
    }
    if let Some(sel) = &plan.selection {
        if predicate_node_references_table(sel, table) {
            return true;
        }
    }
    if let Some(hav) = &plan.having {
        if predicate_node_references_table(hav, table) {
            return true;
        }
    }
    false
}

pub fn cte_references_table(cte: &CteDef, table: &str) -> (r: bool)
    ensures
        r == cte_refs(*cte, table@),
    decreases cte,
{
    if select_plan_references_table(&cte.query, table) {
        return true;
    }
    match &cte.recursive_term {
        Some(rt) => select_plan_references_table(rt, table),
        None => false,
    }
}

pub fn projection_references_table(p: &SelectExpr, table: &str) -> (r: bool)
    ensures
        r == projection_refs(*p, table@),
    decreases p,
{
    match p {
        SelectExpr::Wildcard => false,
        SelectExpr::UnnamedExpr(e) => expr_references_table(e, table),
        SelectExpr::ExprWithAlias { expr, .. } => expr_references_table(expr, table),
    }
}

#[verifier::loop_isolation(false)]
pub fn expr_references_table(e: &ExprNode, table: &str) -> (r: bool)
    ensures
        r == expr_refs(*e, table@),
    decreases e,
{
    match e {
        ExprNode::Column(_) => false,
        ExprNode::Constant(_) => false,
        ExprNode::Compound(parts) => {
            if parts.len() >= 2 {
                text::same_ignoring_case(parts[parts.len() - 2].as_str(), table)
            } else {
                false
            }
        },
        ExprNode::Binary { left, op, right } => expr_references_table(left, table)
            || expr_references_table(right, table),
        ExprNode::Cast { expr, data_type } => expr_references_table(expr, table),
        ExprNode::ScalarSubquery(info) => select_plan_references_table(&info.select, table),
        ExprNode::Function { name, args } => {
            let mut i: usize = 0;
            while i < args.len()
                invariant
                    i <= args.len(),
                    forall|j: int| 0 <= j < i ==> !arg_refs(#[trigger] args@[j], table@),
                decreases args.len() - i,
            {
                if let FunctionArg::Expr(inner) = &args[i] {
                    if expr_references_table(inner, table) {
                        assert(arg_refs(args@[i as int], table@));
                        return true;
                    }
                }
                i = i + 1;
            }
            false
        },
        ExprNode::Case { when_then_pairs, else_result } => {
            let mut i: usize = 0;
            while i < when_then_pairs.len()
                invariant
                    i <= when_then_pairs.len(),
                    forall|j: int|
                        0 <= j < i ==> !expr_refs((#[trigger] when_then_pairs@[j]).0, table@)
                            && !expr_refs(when_then_pairs@[j].1, table@),
                decreases when_then_pairs.len() - i,
            {
                let pair = &when_then_pairs[i];
                if expr_references_table(&pair.0, table) {
                    return true;
                }
                if expr_references_table(&pair.1, table) {
                    return true;
                }
                i = i + 1;
            }
            match else_result {
                Some(el) => expr_references_table(el, table),
                None => false,
            }
        },
    }
}

#[verifier::loop_isolation(false)]
pub fn predicate_node_references_table(p: &PredicateNode, table: &str) -> (r: bool)
    ensures
        r == predicate_refs(*p, table@),
    decreases p,
{
    match p {
        PredicateNode::BinaryOp { left, op, right } => predicate_node_references_table(left, table)
            || predicate_node_references_table(right, table),
        PredicateNode::Not(inner) => predicate_node_references_table(inner, table),
        PredicateNode::Compare { left, op, right } => expr_references_table(left, table)
            || expr_references_table(right, table),
        PredicateNode::IsNull(expr) => expr_references_table(expr, table),
        PredicateNode::IsNotNull(expr) => expr_references_table(expr, table),
        PredicateNode::Between { expr, low, high } => expr_references_table(expr, table)
            || expr_references_table(low, table) || expr_references_table(high, table),
        PredicateNode::InList { expr, list } => {
            if expr_references_table(expr, table) {
                return true;
            }
            let mut i: usize = 0;
            while i < list.len()
                invariant
                    i <= list.len(),
                    forall|j: int| 0 <= j < i ==> !expr_refs(#[trigger] list@[j], table@),
                decreases list.len() - i,
            {
                if expr_references_table(&list[i], table) {
                    return true;
                }
                i = i + 1;
            }
            false
        },
        PredicateNode::Like { expr, pattern } => expr_references_table(expr, table),
        PredicateNode::Exists(info) => select_plan_references_table(&info.select, table),
        PredicateNode::InSubquery { expr, subquery, negated } => expr_references_table(expr, table)
            || select_plan_references_table(&subquery.select, table),
        PredicateNode::IsDistinctFrom { left, right } => expr_references_table(left, table)
            || expr_references_table(right, table),
        PredicateNode::IsBoolean { expr, value } => expr_references_table(expr, table),
    }
}

/// The letter case in which a table is named makes no difference to what depends on it.
pub proof fn law_references_ignore_case(plan: SelectPlan, a: Seq<char>, b: Seq<char>)
    requires
        text::same_fold(a, b),
    ensures
        plan_refs(plan, a) == plan_refs(plan, b),
    decreases plan,
{
    assert forall|i: int| 0 <= i < plan.ctes@.len() implies cte_refs(#[trigger] plan.ctes@[i], a)
        == cte_refs(plan.ctes@[i], b) by {
        lemma_cte_fold(plan.ctes@[i], a, b);
    }
    assert forall|i: int| 0 <= i < plan.projections@.len() implies projection_refs(
        #[trigger] plan.projections@[i],
        a,
    ) == projection_refs(plan.projections@[i], b) by {
        lemma_projection_fold(plan.projections@[i], a, b);
    }
    if plan.selection is Some {
        lemma_predicate_fold(plan.selection->0, a, b);
    }
    if plan.having is Some {
        lemma_predicate_fold(plan.having->0, a, b);
    }
    assert(forall|i: int|
        0 <= i < plan.from@.len() ==> text::same_fold(#[trigger] plan.from@[i].name@, a)
            == text::same_fold(plan.from@[i].name@, b));
    assert(forall|i: int|
        0 <= i < plan.joins@.len() ==> text::same_fold(#[trigger] plan.joins@[i].relation.name@, a)
            == text::same_fold(plan.joins@[i].relation.name@, b));
}

proof fn lemma_cte_fold(cte: CteDef, a: Seq<char>, b: Seq<char>)
    requires
        text::same_fold(a, b),
    ensures
        cte_refs(cte, a) == cte_refs(cte, b),
    decreases cte,
{
    law_references_ignore_case(*cte.query, a, b);
    if cte.recursive_term is Some {
        law_references_ignore_case(*cte.recursive_term->0, a, b);
    }
}

proof fn lemma_projection_fold(p: SelectExpr, a: Seq<char>, b: Seq<char>)
    requires
        text::same_fold(a, b),
    ensures
        projection_refs(p, a) == projection_refs(p, b),
    decreases p,
{
    match p {
        SelectExpr::Wildcard => {},
        SelectExpr::UnnamedExpr(e) => {
            lemma_expr_fold(e, a, b);
        },
        SelectExpr::ExprWithAlias { expr, .. } => {
            lemma_expr_fold(expr, a, b);
        },
    }
}

proof fn lemma_arg_fold(arg: FunctionArg, a: Seq<char>, b: Seq<char>)
    requires
        text::same_fold(a, b),
    ensures
        arg_refs(arg, a) == arg_refs(arg, b),
    decreases arg,
{
    if let FunctionArg::Expr(e) = arg {
        lemma_expr_fold(e, a, b);
    }
}

proof fn lemma_expr_fold(e: ExprNode, a: Seq<char>, b: Seq<char>)
    requires
        text::same_fold(a, b),
    ensures
        expr_refs(e, a) == expr_refs(e, b),
    decreases e,
{
    match e {
        ExprNode::Column(_) => {},
        ExprNode::Constant(_) => {},
        ExprNode::Compound(parts) => {},
        ExprNode::Binary { left, op, right } => {
            lemma_expr_fold(*left, a, b);
            lemma_expr_fold(*right, a, b);
        },
        ExprNode::Cast { expr, data_type } => {
            lemma_expr_fold(*expr, a, b);
        },
        ExprNode::ScalarSubquery(info) => {
            law_references_ignore_case(*info.select, a, b);
        },
        ExprNode::Function { name, args } => {
            assert forall|i: int| 0 <= i < args@.len() implies arg_refs(#[trigger] args@[i], a)
                == arg_refs(args@[i], b) by {
                lemma_arg_fold(args@[i], a, b);
            }
        },
        ExprNode::Case { when_then_pairs, else_result } => {
            assert forall|i: int| 0 <= i < when_then_pairs@.len() implies expr_refs(
                (#[trigger] when_then_pairs@[i]).0,
                a,
            ) == expr_refs(when_then_pairs@[i].0, b) && expr_refs(when_then_pairs@[i].1, a)
                == expr_refs(when_then_pairs@[i].1, b) by {
                lemma_expr_fold(when_then_pairs@[i].0, a, b);
                lemma_expr_fold(when_then_pairs@[i].1, a, b);
            }
            if else_result is Some {
                lemma_expr_fold(*else_result->0, a, b);
            }
        },
    }
}

proof fn lemma_predicate_fold(p: PredicateNode, a: Seq<char>, b: Seq<char>)
    requires
        text::same_fold(a, b),
    ensures
        predicate_refs(p, a) == predicate_refs(p, b),
    decreases p,
{
    match p {
        PredicateNode::BinaryOp { left, op, right } => {
            lemma_predicate_fold(*left, a, b);
            lemma_predicate_fold(*right, a, b);
        },
        PredicateNode::Not(inner) => {
            lemma_predicate_fold(*inner, a, b);
        },
        PredicateNode::Compare { left, op, right } => {
            lemma_expr_fold(left, a, b);
            lemma_expr_fold(right, a, b);
        },
        PredicateNode::IsNull(expr) => {
            lemma_expr_fold(expr, a, b);
        },
        PredicateNode::IsNotNull(expr) => {
            lemma_expr_fold(expr, a, b);
        },
        PredicateNode::Between { expr, low, high } => {
            lemma_expr_fold(expr, a, b);
            lemma_expr_fold(low, a, b);
            lemma_expr_fold(high, a, b);
        },
        PredicateNode::InList { expr, list } => {
            lemma_expr_fold(expr, a, b);
            assert forall|i: int| 0 <= i < list@.len() implies expr_refs(#[trigger] list@[i], a)
                == expr_refs(list@[i], b) by {
                lemma_expr_fold(list@[i], a, b);
            }
        },
        PredicateNode::Like { expr, pattern } => {
            lemma_expr_fold(expr, a, b);
        },
        PredicateNode::Exists(info) => {
            law_references_ignore_case(*info.select, a, b);
        },
        PredicateNode::InSubquery { expr, subquery, negated } => {
            lemma_expr_fold(expr, a, b);
            law_references_ignore_case(*subquery.select, a, b);
        },
        PredicateNode::IsDistinctFrom { left, right } => {
            lemma_expr_fold(left, a, b);
            lemma_expr_fold(right, a, b);
        },
        PredicateNode::IsBoolean { expr, value } => {
            lemma_expr_fold(expr, a, b);
        },
    }
}

/// The name of a table, up to ASCII letter case.
pub open spec fn names_table(name: String, table: Seq<char>) -> bool {
    text::ascii_lower(name@) == text::ascii_lower(table)
}

/// A query depends on every table of its `FROM` list, and on every table that it joins, at
/// whatever place and in whatever letter case the table is named.
pub proof fn law_relations_are_depended_on(plan: SelectPlan, table: Seq<char>, i: int)
    ensures
        0 <= i < plan.from@.len() && names_table(plan.from@[i].name, table) ==> plan_refs(
            plan,
            table,
        ),
        0 <= i < plan.joins@.len() && names_table(plan.joins@[i].relation.name, table)
            ==> plan_refs(plan, table),
{
}

/// A query depends on what any of its parts depends on: a common table expression or its
/// recursive term, a projection, its condition, or the condition on its groups.
pub proof fn law_parts_are_depended_on(plan: SelectPlan, table: Seq<char>, i: int)
    ensures
        0 <= i < plan.ctes@.len() && plan_refs(*plan.ctes@[i].query, table) ==> plan_refs(
            plan,
            table,
        ),
        0 <= i < plan.ctes@.len() && plan.ctes@[i].recursive_term is Some && plan_refs(
            *plan.ctes@[i].recursive_term->0,
            table,
        ) ==> plan_refs(plan, table),
        0 <= i < plan.projections@.len() ==> (plan.projections@[i] matches SelectExpr::UnnamedExpr(
            e,
        ) ==> expr_refs(e, table) ==> plan_refs(plan, table)),
        0 <= i < plan.projections@.len() ==> (plan.projections@[i]
            matches SelectExpr::ExprWithAlias { expr, .. } ==> expr_refs(expr, table) ==> plan_refs(
            plan,
            table,
        )),
        plan.selection matches Some(p) ==> predicate_refs(p, table) ==> plan_refs(plan, table),
        plan.having matches Some(p) ==> predicate_refs(p, table) ==> plan_refs(plan, table),
{
    if 0 <= i < plan.ctes@.len() && (plan_refs(*plan.ctes@[i].query, table) || (
    plan.ctes@[i].recursive_term is Some && plan_refs(
        *plan.ctes@[i].recursive_term->0,
        table,
    ))) {
        assert(cte_refs(plan.ctes@[i], table));
    }
    if 0 <= i < plan.projections@.len() {
        if let SelectExpr::UnnamedExpr(e) = plan.projections@[i] {
            if expr_refs(e, table) {
                assert(projection_refs(plan.projections@[i], table));
            }
        }
        if let SelectExpr::ExprWithAlias { expr, .. } = plan.projections@[i] {
            if expr_refs(expr, table) {
                assert(projection_refs(plan.projections@[i], table));
            }
        }
    }
}

/// A query depends on no other table: it names the table in its `FROM` list or a join, or one of
/// its parts depends on it.
pub proof fn law_nothing_else_is_depended_on(plan: SelectPlan, table: Seq<char>)
    requires
        forall|i: int|
            0 <= i < plan.from@.len() ==> !names_table((#[trigger] plan.from@[i]).name, table),
        forall|i: int|
            0 <= i < plan.joins@.len() ==> !names_table(
                (#[trigger] plan.joins@[i]).relation.name,
                table,
            ),
        forall|i: int|
            0 <= i < plan.ctes@.len() ==> !plan_refs(*(#[trigger] plan.ctes@[i]).query, table) && (
            plan.ctes@[i].recursive_term matches Some(t) ==> !plan_refs(*t, table)),
        forall|i: int|
            0 <= i < plan.projections@.len() ==> match #[trigger] plan.projections@[i] {
                SelectExpr::Wildcard => true,
                SelectExpr::UnnamedExpr(e) => !expr_refs(e, table),
                SelectExpr::ExprWithAlias { expr, .. } => !expr_refs(expr, table),
            },
        plan.selection matches Some(p) ==> !predicate_refs(p, table),
        plan.having matches Some(p) ==> !predicate_refs(p, table),
    ensures
        !plan_refs(plan, table),
{
    assert forall|i: int| 0 <= i < plan.ctes@.len() implies !cte_refs(
        #[trigger] plan.ctes@[i],
        table,
    ) by {}
    assert forall|i: int| 0 <= i < plan.projections@.len() implies !projection_refs(
        #[trigger] plan.projections@[i],
        table,
    ) by {}
    assert forall|i: int| 0 <= i < plan.from@.len() implies !text::same_fold(
        #[trigger] plan.from@[i].name@,
        table,
    ) by {
        assert(!names_table(plan.from@[i].name, table));
    }
    assert forall|i: int| 0 <= i < plan.joins@.len() implies !text::same_fold(
        #[trigger] plan.joins@[i].relation.name@,
        table,
    ) by {
        assert(!names_table(plan.joins@[i].relation.name, table));
    }
}

/// An expression depends on the table that qualifies its column, on what a subquery of it depends
/// on, and on what any of its operands, arguments or branches depends on; a plain column and a
/// literal depend on no table.
pub proof fn law_expressions_depend_on_their_parts(e: ExprNode, table: Seq<char>)
    ensures
        e is Column || e is Constant ==> !expr_refs(e, table),
        e matches ExprNode::Compound(parts) ==> (expr_refs(e, table) <==> parts@.len() >= 2
            && names_table(parts@[parts@.len() - 2], table)),
        e matches ExprNode::Binary { left, op, right } ==> (expr_refs(e, table) <==> expr_refs(
            *left,
            table,
        ) || expr_refs(*right, table)),
        e matches ExprNode::Cast { expr, data_type } ==> (expr_refs(e, table) <==> expr_refs(
            *expr,
            table,
        )),
        e matches ExprNode::ScalarSubquery(info) ==> (expr_refs(e, table) <==> plan_refs(
            *info.select,
            table,
        )),
        e matches ExprNode::Function { name, args } ==> (expr_refs(e, table) <==> exists|i: int|
            0 <= i < args@.len() && (#[trigger] args@[i]) is Expr && expr_refs(
                args@[i]->Expr_0,
                table,
            )),
        e matches ExprNode::Case { when_then_pairs, else_result } ==> (expr_refs(e, table) <==> (
        exists|i: int|
            0 <= i < when_then_pairs@.len() && (expr_refs((#[trigger] when_then_pairs@[i]).0, table)
                || expr_refs(when_then_pairs@[i].1, table))) || (else_result is Some && expr_refs(
            *else_result->0,
            table,
        ))),
{
    if let ExprNode::Function { name, args } = e {
        if expr_refs(e, table) {
            let i = choose|i: int| 0 <= i < args@.len() && arg_refs(#[trigger] args@[i], table);
            assert(args@[i] is Expr);
        }
        if exists|i: int|
            0 <= i < args@.len() && (#[trigger] args@[i]) is Expr && expr_refs(
                args@[i]->Expr_0,
                table,
            ) {
            let i = choose|i: int|
                0 <= i < args@.len() && (#[trigger] args@[i]) is Expr && expr_refs(
                    args@[i]->Expr_0,
                    table,
                );
            assert(arg_refs(args@[i], table));
        }
    }
}

/// A condition depends on what any of its operands or subqueries depends on, and on nothing else.
pub proof fn law_conditions_depend_on_their_parts(p: PredicateNode, table: Seq<char>)
    ensures
        p matches PredicateNode::BinaryOp { left, op, right } ==> (predicate_refs(p, table)
            <==> predicate_refs(*left, table) || predicate_refs(*right, table)),
        p matches PredicateNode::Not(inner) ==> (predicate_refs(p, table) <==> predicate_refs(
            *inner,
            table,
        )),
        p matches PredicateNode::Compare { left, op, right } ==> (predicate_refs(p, table)
            <==> expr_refs(left, table) || expr_refs(right, table)),
        p matches PredicateNode::IsNull(e) ==> (predicate_refs(p, table) <==> expr_refs(e, table)),
        p matches PredicateNode::IsNotNull(e) ==> (predicate_refs(p, table) <==> expr_refs(
            e,
            table,
        )),
        p matches PredicateNode::Between { expr, low, high } ==> (predicate_refs(p, table)
            <==> expr_refs(expr, table) || expr_refs(low, table) || expr_refs(high, table)),
        p matches PredicateNode::InList { expr, list } ==> (predicate_refs(p, table) <==> expr_refs(
            expr,
            table,
        ) || exists|i: int| 0 <= i < list@.len() && expr_refs(#[trigger] list@[i], table)),
        p matches PredicateNode::Like { expr, pattern } ==> (predicate_refs(p, table) <==> expr_refs(
            expr,
            table,
        )),
        p matches PredicateNode::Exists(info) ==> (predicate_refs(p, table) <==> plan_refs(
            *info.select,
            table,
        )),
        p matches PredicateNode::InSubquery { expr, subquery, negated } ==> (predicate_refs(p, table)
            <==> expr_refs(expr, table) || plan_refs(*subquery.select, table)),
        p matches PredicateNode::IsDistinctFrom { left, right } ==> (predicate_refs(p, table)
            <==> expr_refs(left, table) || expr_refs(right, table)),
        p matches PredicateNode::IsBoolean { expr, value } ==> (predicate_refs(p, table)
            <==> expr_refs(expr, table)),
{
}

} // verus!
