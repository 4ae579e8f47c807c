//! The output schema of a logical query plan.

use vstd::prelude::*;

verus! {

/// A column of a scanned relation, with its type as text.
#[derive(Debug, PartialEq)]
pub struct SchemaColumn {
    pub name: String,
    pub data_type: String,
}

/// A projected expression, by the name of its output column.
#[derive(Debug, PartialEq)]
pub struct NamedExpr {
    pub name: String,
}

/// A logical plan, as far as its output schema depends on it.
#[allow(inconsistent_fields)]
#[derive(Debug, PartialEq)]
pub enum LogicalPlan {
    Project { expressions: Vec<NamedExpr> },
    TableScan { columns: Vec<SchemaColumn> },
    Filter { child: Box<LogicalPlan> },
    Sort { child: Box<LogicalPlan> },
    Limit { child: Box<LogicalPlan> },
    Distinct { child: Box<LogicalPlan> },
    Aggregate { child: Box<LogicalPlan> },
    Join { left: Box<LogicalPlan>, right: Box<LogicalPlan> },
    SetOp { left: Box<LogicalPlan>, right: Box<LogicalPlan> },
    Subquery { subquery: Box<LogicalPlan> },
    Cte { outer: Box<LogicalPlan> },
    RecursiveCte { outer: Box<LogicalPlan> },
    CteScan { columns: Vec<SchemaColumn> },
    Insert { child: Box<LogicalPlan> },
}

/// The names and types of scanned columns.
pub open spec fn scanned(columns: Seq<SchemaColumn>) -> Seq<(Seq<char>, Seq<char>)> {
    columns.map_values(|c: SchemaColumn| (c.name@, c.data_type@))
}

/// The names of projected columns, each of the type that a projection gives.
pub open spec fn projected(expressions: Seq<NamedExpr>) -> Seq<(Seq<char>, Seq<char>)> {
    expressions.map_values(|e: NamedExpr| (e.name@, "VARCHAR(255)"@))
}

/// The output schema of a plan: name and type of each column.
///
/// A scan and a projection have their own; a join has those of both sides, a set operation that
/// of its left side, and every other node that of the plan it passes rows on from.
pub open spec fn output_schema(plan: LogicalPlan) -> Seq<(Seq<char>, Seq<char>)>
    decreases plan,
{
    match plan {
        LogicalPlan::Project { expressions } => projected(expressions@),
        LogicalPlan::TableScan { columns } => scanned(columns@),
        LogicalPlan::CteScan { columns } => scanned(columns@),
        LogicalPlan::Filter { child } => output_schema(*child),
        LogicalPlan::Sort { child } => output_schema(*child),
        LogicalPlan::Limit { child } => output_schema(*child),
        LogicalPlan::Distinct { child } => output_schema(*child),
        LogicalPlan::Aggregate { child } => output_schema(*child),
        LogicalPlan::Join { left, right } => output_schema(*left) + output_schema(*right),
        LogicalPlan::SetOp { left, right } => output_schema(*left),
        LogicalPlan::Subquery { subquery } => output_schema(*subquery),
        LogicalPlan::Cte { outer } => output_schema(*outer),
        LogicalPlan::RecursiveCte { outer } => output_schema(*outer),
        LogicalPlan::Insert { child } => output_schema(*child),
    }
}

/// The views of a schema.
pub open spec fn schema_view(schema: Seq<(String, String)>) -> Seq<(Seq<char>, Seq<char>)> {
    schema.map_values(|c: (String, String)| (c.0@, c.1@))
}

fn scan_columns(columns: &Vec<SchemaColumn>) -> (r: Vec<(String, String)>)
    ensures
        schema_view(r@) == scanned(columns@),
{
    let mut r: Vec<(String, String)> = Vec::new();
    let mut i: usize = 0;
    while i < columns.len()
        invariant
            i <= columns.len(),
            schema_view(r@) == scanned(columns@).take(i as int),
        decreases columns.len() - i,
    {
        let ghost done = schema_view(r@);
        r.push((columns[i].name.clone(), columns[i].data_type.clone()));
        assert(schema_view(r@) =~= done.push(scanned(columns@)[i as int]));
        i = i + 1;
    }
    assert(scanned(columns@).take(i as int) =~= scanned(columns@));
    r
}

fn project_columns(expressions: &Vec<NamedExpr>) -> (r: Vec<(String, String)>)
    ensures
        schema_view(r@) == projected(expressions@),
{
    let mut r: Vec<(String, String)> = Vec::new();
    let mut i: usize = 0;
    while i < expressions.len()
        invariant
            i <= expressions.len(),
            schema_view(r@) == projected(expressions@).take(i as int),
        decreases expressions.len() - i,
    {
        let ghost done = schema_view(r@);
        r.push((expressions[i].name.clone(), "VARCHAR(255)".to_owned()));
        assert(schema_view(r@) =~= done.push(projected(expressions@)[i as int]));
        i = i + 1;
    }
    assert(projected(expressions@).take(i as int) =~= projected(expressions@));
    r
}

/// The output schema of a plan: name and type of each column.
pub fn logical_plan_schema(plan: &LogicalPlan) -> (r: Vec<(String, String)>)
    ensures
        schema_view(r@) == output_schema(*plan),
    decreases plan,
{
    match plan {
        LogicalPlan::Project { expressions } => project_columns(expressions),
        LogicalPlan::TableScan { columns } => scan_columns(columns),
        LogicalPlan::CteScan { columns } => scan_columns(columns),
        LogicalPlan::Filter { child } => logical_plan_schema(child),
        LogicalPlan::Sort { child } => logical_plan_schema(child),
        LogicalPlan::Limit { child } => logical_plan_schema(child),
        LogicalPlan::Distinct { child } => logical_plan_schema(child),
        LogicalPlan::Aggregate { child } => logical_plan_schema(child),
        LogicalPlan::Join { left, right } => {
            let mut r = logical_plan_schema(left);
            let ghost a = r@;
            let mut more = logical_plan_schema(right);
            let ghost b = more@;
            r.append(&mut more);
            assert(schema_view(r@) =~= schema_view(a) + schema_view(b));
            r
        },
        LogicalPlan::SetOp { left, right } => logical_plan_schema(left),
        LogicalPlan::Subquery { subquery } => logical_plan_schema(subquery),
        LogicalPlan::Cte { outer } => logical_plan_schema(outer),
        LogicalPlan::RecursiveCte { outer } => logical_plan_schema(outer),
        LogicalPlan::Insert { child } => logical_plan_schema(child),
    }
}

/// A join has the columns of both its sides, the left one's first; a set operation has those of its
/// left side, whatever its right side has.
pub proof fn law_two_sided_plans(left: LogicalPlan, right: LogicalPlan, i: int)
    ensures
        ({
            let joined = output_schema(
                LogicalPlan::Join { left: Box::new(left), right: Box::new(right) },
            );
            let a = output_schema(left);
            let b = output_schema(right);
            &&& joined.len() == a.len() + b.len()
            &&& 0 <= i < a.len() ==> joined[i] == a[i]
            &&& 0 <= i < b.len() ==> joined[a.len() + i] == b[i]
            &&& output_schema(
                LogicalPlan::SetOp { left: Box::new(left), right: Box::new(right) },
            ) == a
        }),
{
}

/// What only picks, orders, groups or renames rows has the columns of the plan that gives them.
pub proof fn law_columns_are_passed_on(plan: LogicalPlan)
    ensures
        output_schema(LogicalPlan::Filter { child: Box::new(plan) }) == output_schema(plan),
        output_schema(LogicalPlan::Sort { child: Box::new(plan) }) == output_schema(plan),
        output_schema(LogicalPlan::Limit { child: Box::new(plan) }) == output_schema(plan),
        output_schema(LogicalPlan::Distinct { child: Box::new(plan) }) == output_schema(plan),
        output_schema(LogicalPlan::Aggregate { child: Box::new(plan) }) == output_schema(plan),
        output_schema(LogicalPlan::Subquery { subquery: Box::new(plan) }) == output_schema(plan),
        output_schema(LogicalPlan::Cte { outer: Box::new(plan) }) == output_schema(plan),
        output_schema(LogicalPlan::RecursiveCte { outer: Box::new(plan) }) == output_schema(plan),
        output_schema(LogicalPlan::Insert { child: Box::new(plan) }) == output_schema(plan),
{
}

/// A scan has every column that it scans, under its name and with its type; a projection has a
/// column for every expression, under its name.
pub proof fn law_every_column_is_there(
    columns: Vec<SchemaColumn>,
    expressions: Vec<NamedExpr>,
    i: int,
)
    ensures
        ({
            let scan = output_schema(LogicalPlan::TableScan { columns });
            let cte = output_schema(LogicalPlan::CteScan { columns });
            let project = output_schema(LogicalPlan::Project { expressions });
            &&& scan.len() == columns@.len()
            &&& cte == scan
            &&& 0 <= i < columns@.len() ==> scan[i].0 == columns@[i].name@ && scan[i].1
                == columns@[i].data_type@
            &&& project.len() == expressions@.len()
            &&& 0 <= i < expressions@.len() ==> project[i].0 == expressions@[i].name@
                && project[i].1 == "VARCHAR(255)"@
        }),
{
}

} // verus!
