//! Expressions as text: for the values of `INSERT` and the clauses of `SET`.

use vstd::prelude::*;
use crate::ast::{ArithOp, ConstantValue, ExprNode, FunctionArg};
use crate::text;

verus! {

pub open spec fn bool_text(b: bool) -> Seq<char> {
    if b {
        "true"@
    } else {
        "false"@
    }
}

/// The raw text of a literal. A text literal stands for itself, without quotes.
pub open spec fn raw_text(cv: ConstantValue) -> Seq<char> {
    match cv {
        ConstantValue::Null => "NULL"@,
        ConstantValue::Int(i) => text::signed_decimal(i as int),
        ConstantValue::Float(f) => f@,
        ConstantValue::Text(s) => s@,
        ConstantValue::Boolean(b) => bool_text(b),
    }
}

/// The raw text of a literal.
pub fn constant_to_raw_string(cv: &ConstantValue) -> (r: String)
    ensures
        r@ == raw_text(*cv),
{
    match cv {
        ConstantValue::Null => "NULL".to_owned(),
        ConstantValue::Int(i) => text::signed_decimal_text(*i),
        ConstantValue::Float(f) => f.clone(),
        ConstantValue::Text(s) => s.clone(),
        ConstantValue::Boolean(b) => if *b {
            "true".to_owned()
        } else {
            "false".to_owned()
        },
    }
}

/// The expression is `0 - e`, the form in which a negative literal is parsed.
pub open spec fn is_negation(e: ExprNode) -> bool {
    e matches ExprNode::Binary { left, op, right } && op == ArithOp::Sub && (*left
        matches ExprNode::Constant(cv) && cv == ConstantValue::Int(0))
}

/// The text of a value to insert. `fallback` is the text of the expression inside the negations
/// where that is neither a literal nor a `CASE`.
pub open spec fn insert_text(e: ExprNode, fallback: Seq<char>) -> Seq<char>
    decreases e,
{
    match e {
        ExprNode::Constant(cv) => raw_text(cv),
        ExprNode::Case { .. } => "NULL"@,
        ExprNode::Binary { left, op, right } => if is_negation(e) {
            "-"@ + insert_text(*right, fallback)
        } else {
            fallback
        },
        _ => fallback,
    }
}

/// The expression inside the negations, where the text of the value rests on its own text.
pub open spec fn opaque_part(e: ExprNode) -> Option<ExprNode>
    decreases e,
{
    match e {
        ExprNode::Constant(_) => None,
        ExprNode::Case { .. } => None,
        ExprNode::Binary { left, op, right } => if is_negation(e) {
            opaque_part(*right)
        } else {
            Some(e)
        },
        _ => Some(e),
    }
}

fn negates(e: &ExprNode) -> (r: bool)
    ensures
        r == is_negation(*e),
{
    match e {
        ExprNode::Binary { left, op, right } => match (op, &**left) {
            (ArithOp::Sub, ExprNode::Constant(ConstantValue::Int(n))) => *n == 0,
            _ => false,
        },
        _ => false,
    }
}

/// The text of a value to insert.
pub fn value_expr_to_string(e: &ExprNode, fallback: &str) -> (r: String)
    ensures
        r@ == insert_text(*e, fallback@),
    decreases e,
{
    if negates(e) {
        if let ExprNode::Binary { left, op, right } = e {
            let inner = value_expr_to_string(right, fallback);
            return text::cat2("-", inner.as_str());
        }
    }
    match e {
        ExprNode::Constant(cv) => constant_to_raw_string(cv),
        ExprNode::Case { .. } => "NULL".to_owned(),
        _ => fallback.to_owned(),
    }
}

/// The expression whose own text [`value_expr_to_string`] needs, if it needs one.
pub fn fallback_expr<'a>(e: &'a ExprNode) -> (r: Option<&'a ExprNode>)
    ensures
        match r {
            Some(n) => opaque_part(*e) == Some(*n),
            None => opaque_part(*e) is None,
        },
    decreases e,
{
    if negates(e) {
        if let ExprNode::Binary { left, op, right } = e {
            return fallback_expr(right);
        }
    }
    match e {
        ExprNode::Constant(_) => None,
        ExprNode::Case { .. } => None,
        _ => Some(e),
    }
}

/// Where a value needs no text of its own, the fallback makes no difference.
pub proof fn law_fallback_unused(e: ExprNode, a: Seq<char>, b: Seq<char>)
    requires
        opaque_part(e) is None,
    ensures
        insert_text(e, a) == insert_text(e, b),
    decreases e,
{
    if is_negation(e) {
        if let ExprNode::Binary { left, op, right } = e {
            law_fallback_unused(*right, a, b);
        }
    }
}

pub open spec fn op_text(op: ArithOp) -> Seq<char> {
    match op {
        ArithOp::Add => "+"@,
        ArithOp::Sub => "-"@,
        ArithOp::Mul => "*"@,
        ArithOp::Div => "/"@,
    }
}

/// The text of an expression in a `SET` clause.
pub open spec fn rendered(e: ExprNode) -> Seq<char>
    decreases e, 0nat,
{
    match e {
        ExprNode::Column(name) => name@,
        ExprNode::Compound(parts) => text::joined(text::views(parts@), "."@),
        ExprNode::Constant(cv) => raw_text(cv),
        ExprNode::Binary { left, op, right } => rendered(*left) + " "@ + op_text(op) + " "@
            + rendered(*right),
        ExprNode::Cast { expr, data_type } => "CAST("@ + rendered(*expr) + " AS "@ + data_type@
            + ")"@,
        ExprNode::ScalarSubquery(_) => "(scalar subquery)"@,
        ExprNode::Function { name, args } => name@ + "("@ + text::joined(
            rendered_args(args@),
            ", "@,
        ) + ")"@,
        ExprNode::Case { when_then_pairs, else_result } => "CASE "@ + text::joined(
            rendered_branches(when_then_pairs@),
            " "@,
        ) + " END"@ + (match else_result {
            Some(e) => " ELSE "@ + rendered(*e),
            None => Seq::empty(),
        }),
    }
}

/// The texts of a call's arguments.
pub open spec fn rendered_args(args: Seq<FunctionArg>) -> Seq<Seq<char>>
    decreases args, args.len(),
{
    Seq::new(
        args.len(),
        |i: int|
            if 0 <= i < args.len() {
                match args[i] {
                    FunctionArg::Star => "*"@,
                    FunctionArg::Expr(e) => rendered(e),
                }
            } else {
                Seq::empty()
            },
    )
}

/// The texts of the branches of a `CASE`.
pub open spec fn rendered_branches(pairs: Seq<(ExprNode, ExprNode)>) -> Seq<Seq<char>>
    decreases pairs, pairs.len(),
{
    Seq::new(
        pairs.len(),
        |i: int|
            if 0 <= i < pairs.len() {
                "WHEN "@ + rendered(pairs[i].0) + " THEN "@ + rendered(pairs[i].1)
            } else {
                Seq::empty()
            },
    )
}

fn op_str(op: &ArithOp) -> (r: &'static str)
    ensures
        r@ == op_text(*op),
{
    match op {
        ArithOp::Add => "+",
        ArithOp::Sub => "-",
        ArithOp::Mul => "*",
        ArithOp::Div => "/",
    }
}

/// The text of an expression in a `SET` clause.
#[verifier::loop_isolation(false)]
pub fn expr_to_debug_string(e: &ExprNode) -> (r: String)
    ensures
        r@ == rendered(*e),
    decreases e,
{
    match e {
        ExprNode::Column(name) => name.clone(),
        ExprNode::Compound(parts) => text::join(parts, "."),
        ExprNode::Constant(cv) => constant_to_raw_string(cv),
        ExprNode::Binary { left, op, right } => {
            let a = expr_to_debug_string(left);
            let b = expr_to_debug_string(right);
            text::cat5(a.as_str(), " ", op_str(op), " ", b.as_str())
        },
        ExprNode::Cast { expr, data_type } => {
            let inner = expr_to_debug_string(expr);
            text::cat5("CAST(", inner.as_str(), " AS ", data_type.as_str(), ")")
        },
        ExprNode::ScalarSubquery(_) => "(scalar subquery)".to_owned(),
        ExprNode::Function { name, args } => {
            let mut list: Vec<String> = Vec::new();
            let mut i: usize = 0;
            while i < args.len()
                invariant
                    i <= args.len(),
                    text::views(list@) == rendered_args(args@).take(i as int),
                decreases args.len() - i,
            {
                let ghost done = text::views(list@);
                let arg = match &args[i] {
                    FunctionArg::Star => "*".to_owned(),
                    FunctionArg::Expr(inner) => expr_to_debug_string(inner),
                };
                list.push(arg);
                assert(text::views(list@) =~= done.push(rendered_args(args@)[i as int]));
                i = i + 1;
            }
            assert(rendered_args(args@).take(i as int) =~= rendered_args(args@));
            let inner = text::join(&list, ", ");
            text::cat4(name.as_str(), "(", inner.as_str(), ")")
        },
        ExprNode::Case { when_then_pairs, else_result } => {
            let mut list: Vec<String> = Vec::new();
            let mut i: usize = 0;
            while i < when_then_pairs.len()
                invariant
                    i <= when_then_pairs.len(),
                    text::views(list@) == rendered_branches(when_then_pairs@).take(i as int),
                decreases when_then_pairs.len() - i,
            {
                let ghost done = text::views(list@);
                let pair = &when_then_pairs[i];
                let a = expr_to_debug_string(&pair.0);
                let b = expr_to_debug_string(&pair.1);
                list.push(text::cat4("WHEN ", a.as_str(), " THEN ", b.as_str()));
                assert(text::views(list@) =~= done.push(
                    rendered_branches(when_then_pairs@)[i as int],
                ));
                i = i + 1;
            }
            assert(rendered_branches(when_then_pairs@).take(i as int) =~= rendered_branches(
                when_then_pairs@,
            ));
            let branches = text::join(&list, " ");
            let tail = match else_result {
                Some(el) => {
                    let t = expr_to_debug_string(el);
                    text::cat2(" ELSE ", t.as_str())
                },
                None => String::new(),
            };
            text::cat4("CASE ", branches.as_str(), " END", tail.as_str())
        },
    }
}

/// In a `SET` clause an operation is written as its left operand, its own sign between blanks, and
/// its right operand: `+` adds, `-` subtracts, `*` multiplies and `/` divides.
pub proof fn law_operations_have_their_own_signs(left: Box<ExprNode>, right: Box<ExprNode>)
    ensures
        rendered(ExprNode::Binary { left, op: ArithOp::Add, right }) == rendered(*left) + " + "@
            + rendered(*right),
        rendered(ExprNode::Binary { left, op: ArithOp::Sub, right }) == rendered(*left) + " - "@
            + rendered(*right),
        rendered(ExprNode::Binary { left, op: ArithOp::Mul, right }) == rendered(*left) + " * "@
            + rendered(*right),
        rendered(ExprNode::Binary { left, op: ArithOp::Div, right }) == rendered(*left) + " / "@
            + rendered(*right),
{
    reveal_strlit(" ");
    reveal_strlit("+");
    reveal_strlit("-");
    reveal_strlit("*");
    reveal_strlit("/");
    reveal_strlit(" + ");
    reveal_strlit(" - ");
    reveal_strlit(" * ");
    reveal_strlit(" / ");
    let l = rendered(*left);
    let r = rendered(*right);
    assert(l + " "@ + "+"@ + " "@ + r =~= l + " + "@ + r);
    assert(l + " "@ + "-"@ + " "@ + r =~= l + " - "@ + r);
    assert(l + " "@ + "*"@ + " "@ + r =~= l + " * "@ + r);
    assert(l + " "@ + "/"@ + " "@ + r =~= l + " / "@ + r);
}

/// A literal stands for itself, in a `SET` clause and as a value to insert: a number and a text as
/// they are, a truth value and `NULL` as the words for them.
pub proof fn law_literals_stand_for_themselves(
    n: i64,
    float: String,
    words: String,
    fallback: Seq<char>,
)
    ensures
        ({
            let e = ExprNode::Constant(ConstantValue::Text(words));
            rendered(e) == words@ && insert_text(e, fallback) == words@
        }),
        ({
            let e = ExprNode::Constant(ConstantValue::Float(float));
            rendered(e) == float@ && insert_text(e, fallback) == float@
        }),
        ({
            let e = ExprNode::Constant(ConstantValue::Int(n));
            rendered(e) == text::signed_decimal(n as int) && insert_text(e, fallback)
                == text::signed_decimal(n as int)
        }),
        ({
            let e = ExprNode::Constant(ConstantValue::Boolean(true));
            rendered(e) == "true"@ && insert_text(e, fallback) == "true"@
        }),
        ({
            let e = ExprNode::Constant(ConstantValue::Boolean(false));
            rendered(e) == "false"@ && insert_text(e, fallback) == "false"@
        }),
        ({
            let e = ExprNode::Constant(ConstantValue::Null);
            rendered(e) == "NULL"@ && insert_text(e, fallback) == "NULL"@
        }),
{
}

/// A value to insert that is `0 - e` is written as `e` with a minus before it; a `CASE` as `NULL`;
/// and what is neither of these, nor a literal, by its own text.
pub proof fn law_inserted_expressions(
    left: Box<ExprNode>,
    op: ArithOp,
    right: Box<ExprNode>,
    e: ExprNode,
    fallback: Seq<char>,
)
    ensures
        op is Sub && *left == ExprNode::Constant(ConstantValue::Int(0)) ==> insert_text(
            ExprNode::Binary { left, op, right },
            fallback,
        ) == "-"@ + insert_text(*right, fallback),
        !(op is Sub && *left == ExprNode::Constant(ConstantValue::Int(0))) ==> insert_text(
            ExprNode::Binary { left, op, right },
            fallback,
        ) == fallback,
        e is Case ==> insert_text(e, fallback) == "NULL"@,
        !(e is Constant || e is Case || e is Binary) ==> insert_text(e, fallback) == fallback,
{
}

/// In a `SET` clause a column is its name, and a qualified one its parts with dots between them.
pub proof fn law_columns_are_their_names(name: String, parts: Vec<String>, data_type: String, e: ExprNode)
    ensures
        rendered(ExprNode::Column(name)) == name@,
        rendered(ExprNode::Compound(parts)) == text::joined(text::views(parts@), "."@),
        rendered(ExprNode::Cast { expr: Box::new(e), data_type }) == "CAST("@ + rendered(e) + " AS "@
            + data_type@ + ")"@,
{
}

/// A call in a `SET` clause is its name and, in parentheses, the texts of all its arguments, in
/// their order, with commas between them; `*` stands for itself.
pub proof fn law_calls_have_all_their_arguments(
    name: String,
    args: Vec<FunctionArg>,
    texts: Seq<Seq<char>>,
)
    requires
        texts.len() == args@.len(),
        forall|i: int|
            0 <= i < args@.len() ==> #[trigger] texts[i] == match args@[i] {
                FunctionArg::Star => "*"@,
                FunctionArg::Expr(e) => rendered(e),
            },
    ensures
        rendered(ExprNode::Function { name, args }) == name@ + "("@ + text::joined(texts, ", "@)
            + ")"@,
{
    assert(texts =~= rendered_args(args@));
}

/// A `CASE` in a `SET` clause has a branch for every condition, in their order, and the result for
/// all other cases behind them.
pub proof fn law_cases_have_all_their_branches(
    when_then_pairs: Vec<(ExprNode, ExprNode)>,
    else_result: Option<Box<ExprNode>>,
    texts: Seq<Seq<char>>,
)
    requires
        texts.len() == when_then_pairs@.len(),
        forall|i: int|
            0 <= i < texts.len() ==> #[trigger] texts[i] == "WHEN "@ + rendered(
                when_then_pairs@[i].0,
            ) + " THEN "@ + rendered(when_then_pairs@[i].1),
    ensures
        else_result is None ==> rendered(ExprNode::Case { when_then_pairs, else_result }) == "CASE "@
            + text::joined(texts, " "@) + " END"@,
        else_result is Some ==> rendered(ExprNode::Case { when_then_pairs, else_result }) == "CASE "@
            + text::joined(texts, " "@) + " END ELSE "@ + rendered(*else_result->0),
{
    assert(texts =~= rendered_branches(when_then_pairs@));
    let head = "CASE "@ + text::joined(texts, " "@);
    reveal_strlit(" END");
    reveal_strlit(" ELSE ");
    reveal_strlit(" END ELSE ");
    if else_result is Some {
        let e = rendered(*else_result->0);
        assert(head + " END"@ + (" ELSE "@ + e) =~= head + " END ELSE "@ + e);
    } else {
        assert(head + " END"@ + Seq::<char>::empty() =~= head + " END"@);
    }
}

/// A value whose text rests on a text of its own is written with that text last, and with a minus
/// before it for every negation around it; the expression that the text is of is no negation, no
/// literal and no `CASE`.
pub proof fn law_fallback_is_the_text_of_what_is_inside(e: ExprNode, fallback: Seq<char>)
    requires
        opaque_part(e) is Some,
    ensures
        fallback.is_suffix_of(insert_text(e, fallback)),
        forall|i: int|
            0 <= i < insert_text(e, fallback).len() - fallback.len() ==> #[trigger] insert_text(
                e,
                fallback,
            )[i] == '-',
        !(opaque_part(e)->0 is Constant || opaque_part(e)->0 is Case),
        opaque_part(opaque_part(e)->0) == opaque_part(e),
    decreases e,
{
    let t = insert_text(e, fallback);
    if is_negation(e) {
        if let ExprNode::Binary { left, op, right } = e {
            reveal_strlit("-");
            law_fallback_is_the_text_of_what_is_inside(*right, fallback);
            let inner = insert_text(*right, fallback);
            assert(t =~= "-"@ + inner);
            let n = fallback.len();
            assert(inner.subrange(inner.len() - n, inner.len() as int) =~= fallback);
            assert(t.subrange(t.len() - n, t.len() as int) =~= inner.subrange(
                inner.len() - n,
                inner.len() as int,
            ));
            assert forall|i: int| 0 <= i < t.len() - n implies #[trigger] t[i] == '-' by {
                if i > 0 {
                    assert(t[i] == inner[i - 1]);
                }
            }
        }
    } else {
        assert(t.subrange(0, t.len() as int) =~= t);
    }
}

/// A literal, a `CASE` and a negation of either need no text of their own; everything else does.
pub proof fn law_what_needs_a_text_of_its_own(left: Box<ExprNode>, op: ArithOp, right: Box<ExprNode>, e: ExprNode)
    ensures
        e is Constant || e is Case ==> opaque_part(e) is None,
        !(e is Constant || e is Case || e is Binary) ==> opaque_part(e) == Some(e),
        op is Sub && *left == ExprNode::Constant(ConstantValue::Int(0)) ==> opaque_part(
            ExprNode::Binary { left, op, right },
        ) == opaque_part(*right),
        !(op is Sub && *left == ExprNode::Constant(ConstantValue::Int(0))) ==> opaque_part(
            ExprNode::Binary { left, op, right },
        ) == Some(ExprNode::Binary { left, op, right }),
        e is ScalarSubquery ==> rendered(e) == "(scalar subquery)"@,
{
}

} // verus!
