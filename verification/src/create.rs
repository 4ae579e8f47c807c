//! `CREATE TABLE`.

use vstd::prelude::*;
use crate::alter::ColumnDef;
use crate::catalog;
use crate::catalog::{Column, ColumnView, Constraints};
use crate::constraints;
use crate::constraints::save_table_constraint;
use crate::datatype;
use crate::datatype::{parse_literal, parse_type, ColumnType};
use crate::effects;
use crate::effects::{Effect, EffectView};
use crate::text;

verus! {

#[derive(Debug, PartialEq)]
pub struct TableConstraint {
    pub definition: String,
}

#[derive(Debug, PartialEq)]
pub struct CreateTablePlan {
    pub table: String,
    pub columns: Vec<ColumnDef>,
    pub constraints: Vec<TableConstraint>,
}

/// What a column constraint gives as a default, or as a check.
#[derive(Debug, PartialEq)]
pub enum Clause {
    /// Nothing.
    Absent,
    /// This text.
    Found(String),
    /// The text cannot be cut out: a byte offset taken from its upper-case form does not fall
    /// between two characters of the text itself.
    Broken,
}

pub ghost enum ClauseView {
    Absent,
    Found(Seq<char>),
    Broken,
}

impl View for Clause {
    type V = ClauseView;

    open spec fn view(&self) -> ClauseView {
        match *self {
            Clause::Absent => ClauseView::Absent,
            Clause::Found(t) => ClauseView::Found(t@),
            Clause::Broken => ClauseView::Broken,
        }
    }
}

/// The default that a constraint text gives: behind `DEFAULT `, as it is written; inside
/// `DEFAULT(..)`, in upper case.
pub open spec fn default_clause(c: Seq<char>, upper: Seq<char>) -> ClauseView {
    if "DEFAULT "@.is_prefix_of(upper) {
        match text::char_index(c, "DEFAULT "@.len() as int) {
            Some(k) => ClauseView::Found(c.skip(k)),
            None => ClauseView::Broken,
        }
    } else if "DEFAULT("@.is_prefix_of(upper) {
        let value = upper.skip("DEFAULT("@.len() as int);
        match text::rfind(value, ')') {
            Some(end) => ClauseView::Found(value.take(end)),
            None => ClauseView::Absent,
        }
    } else {
        ClauseView::Absent
    }
}

/// The check that a constraint text gives: inside `CHECK(..)`, as it is written. The closing
/// parenthesis is looked up in the upper-case form.
pub open spec fn check_clause(c: Seq<char>, upper: Seq<char>) -> ClauseView {
    if "CHECK("@.is_prefix_of(upper) {
        match text::rfind(upper, ')') {
            Some(end) => {
                let from = text::char_index(c, "CHECK("@.len() as int);
                let to = text::char_index(c, text::byte_len(upper.take(end)) as int);
                if from is Some && to is Some && from->0 <= to->0 {
                    ClauseView::Found(c.subrange(from->0, to->0))
                } else {
                    ClauseView::Broken
                }
            },
            None => ClauseView::Absent,
        }
    } else {
        ClauseView::Absent
    }
}

/// The first default among a column's constraints.
pub open spec fn first_default(list: Seq<Seq<char>>) -> ClauseView
    decreases list.len(),
{
    if list.len() == 0 {
        ClauseView::Absent
    } else {
        let c = default_clause(list[0], text::upper_text(list[0]));
        if c is Absent {
            first_default(list.drop_first())
        } else {
            c
        }
    }
}

/// The first check among a column's constraints.
pub open spec fn first_check(list: Seq<Seq<char>>) -> ClauseView
    decreases list.len(),
{
    if list.len() == 0 {
        ClauseView::Absent
    } else {
        let c = check_clause(list[0], text::upper_text(list[0]));
        if c is Absent {
            first_check(list.drop_first())
        } else {
            c
        }
    }
}

/// One of the constraints is `keyword`, up to ASCII letter case.
pub open spec fn has(list: Seq<Seq<char>>, keyword: Seq<char>) -> bool {
    exists|i: int| 0 <= i < list.len() && text::same_fold(#[trigger] list[i], keyword)
}

/// The column that a definition makes, for its type.
pub open spec fn made_column(def: ColumnDef, ty: ColumnType) -> ColumnView {
    let list = text::views(def.constraints@);
    let primary = has(list, "PRIMARY KEY"@);
    let not_null = has(list, "NOT NULL"@) || primary;
    ColumnView {
        name: def.name@,
        data_type: ty,
        nullable: !not_null,
        not_null,
        unique: has(list, "UNIQUE"@) || primary,
        default: match first_default(list) {
            ClauseView::Found(t) => datatype::literal_value(ty, t),
            _ => None,
        },
        check: match first_check(list) {
            ClauseView::Found(t) => Some(t),
            _ => None,
        },
    }
}

/// The columns that the definitions make. A definition of unknown type makes none.
pub open spec fn made_columns(defs: Seq<ColumnDef>) -> Seq<ColumnView>
    decreases defs.len(),
{
    if defs.len() == 0 {
        Seq::empty()
    } else {
        let before = made_columns(defs.drop_last());
        match datatype::parsed_type(defs.last().data_type@) {
            Ok(ty) => before.push(made_column(defs.last(), ty)),
            Err(_) => before,
        }
    }
}

pub open spec fn unknown_type_line(ty: Seq<char>, cause: Seq<char>) -> Seq<char> {
    "Unknown type '"@ + ty + "': "@ + cause
        + ". Supported: SMALLINT, INT, BIGINT, REAL, DOUBLE PRECISION, NUMERIC(p,s), DECIMAL(p,s), BOOLEAN, CHAR(n), CHARACTER(n), VARCHAR(n), DATE, TIME, TIMESTAMP, BIT(n)"@
}

/// A line for every definition of unknown type.
pub open spec fn unknown_types(defs: Seq<ColumnDef>) -> Seq<EffectView>
    decreases defs.len(),
{
    if defs.len() == 0 {
        Seq::empty()
    } else {
        let before = unknown_types(defs.drop_last());
        match datatype::parsed_type(defs.last().data_type@) {
            Ok(_) => before,
            Err(e) => before.push(
                EffectView::Print { text: unknown_type_line(defs.last().data_type@, e) },
            ),
        }
    }
}

/// The effects that store the table's constraints.
pub open spec fn constraint_effects(
    db: Seq<char>,
    table: Seq<char>,
    list: Seq<TableConstraint>,
) -> Seq<EffectView>
    decreases list.len(),
{
    if list.len() == 0 {
        Seq::empty()
    } else {
        let before = constraint_effects(db, table, list.drop_last());
        match constraints::stored_constraint(list.last().definition@) {
            Some(record) => before.push(EffectView::InsertConstraint { db, table, record }),
            None => before,
        }
    }
}

/// The effects that build an index over every column declared `PRIMARY KEY`.
pub open spec fn primary_indexes(db: Seq<char>, table: Seq<char>, defs: Seq<ColumnDef>) -> Seq<
    EffectView,
>
    decreases defs.len(),
{
    if defs.len() == 0 {
        Seq::empty()
    } else {
        let before = primary_indexes(db, table, defs.drop_last());
        let def = defs.last();
        if has(text::views(def.constraints@), "PRIMARY KEY"@) {
            before.push(
                EffectView::CreateIndex {
                    db,
                    table,
                    index: "pk_"@ + table + "_"@ + def.name@,
                    column: def.name@,
                    warning: "Warning: failed to auto-create PRIMARY KEY index: "@,
                },
            )
        } else {
            before
        }
    }
}

/// What `CREATE TABLE` does.
pub open spec fn create_table(db: Seq<char>, params: CreateTablePlan) -> Seq<EffectView> {
    unknown_types(params.columns@) + seq![
        EffectView::CreateTable {
            db,
            table: params.table@,
            columns: made_columns(params.columns@),
        },
        EffectView::Print { text: "Table '"@ + params.table@ + "' created successfully."@ },
    ] + constraint_effects(db, params.table@, params.constraints@) + primary_indexes(
        db,
        params.table@,
        params.columns@,
    )
}

/// The clauses of a definition can be cut out of its constraints.
pub open spec fn clauses_sound(def: ColumnDef) -> bool {
    let list = text::views(def.constraints@);
    datatype::parsed_type(def.data_type@) is Ok ==> !(first_default(list) is Broken) && !(
    first_check(list) is Broken)
}

pub open spec fn all_clauses_sound(defs: Seq<ColumnDef>) -> bool {
    forall|i: int| 0 <= i < defs.len() ==> clauses_sound(#[trigger] defs[i])
}

/// The default in one constraint, given its upper-case form.
pub fn default_in(c: &str, upper: &str) -> (r: Clause)
    ensures
        r@ == default_clause(c@, upper@),
{
    if text::starts_with(upper, "DEFAULT ") {
        let n: usize = "DEFAULT ".unicode_len();
        match text::char_at_byte(c, n) {
            Some(k) => Clause::Found(text::tail(c, k).to_owned()),
            None => Clause::Broken,
        }
    } else if let Some(value) = text::strip_prefix(upper, "DEFAULT(") {
        match text::rfind_char(value, ')') {
            Some(end) => Clause::Found(text::head(value, end).to_owned()),
            None => Clause::Absent,
        }
    } else {
        Clause::Absent
    }
}

/// The check in one constraint, given its upper-case form.
pub fn check_in(c: &str, upper: &str) -> (r: Clause)
    ensures
        r@ == check_clause(c@, upper@),
{
    if !text::starts_with(upper, "CHECK(") {
        return Clause::Absent;
    }
    match text::rfind_char(upper, ')') {
        None => Clause::Absent,
        Some(end) => {
            let n: usize = "CHECK(".unicode_len();
            let m: usize = text::byte_offset(upper, end);
            match (text::char_at_byte(c, n), text::char_at_byte(c, m)) {
                (Some(from), Some(to)) => {
                    if from <= to {
                        Clause::Found(c.substring_char(from, to).to_owned())
                    } else {
                        Clause::Broken
                    }
                },
                _ => Clause::Broken,
            }
        },
    }
}

/// The first default among a column's constraints.
pub fn column_default(list: &Vec<String>) -> (r: Clause)
    ensures
        r@ == first_default(text::views(list@)),
{
    let ghost all = text::views(list@);
    let mut i: usize = 0;
    assert(all.skip(0) =~= all);
    while i < list.len()
        invariant
            i <= list.len(),
            all == text::views(list@),
            first_default(all) == first_default(all.skip(i as int)),
        decreases list.len() - i,
    {
        let c = list[i].as_str();
        assert(all.skip(i as int)[0] == c@);
        assert(all.skip(i as int).drop_first() =~= all.skip(i + 1));
        let upper = text::to_upper(c);
        let found = default_in(c, upper.as_str());
        match found {
            Clause::Absent => {},
            _ => {
                return found;
            },
        }
        i = i + 1;
    }
    Clause::Absent
}

/// The first check among a column's constraints.
pub fn column_check(list: &Vec<String>) -> (r: Clause)
    ensures
        r@ == first_check(text::views(list@)),
{
    let ghost all = text::views(list@);
    let mut i: usize = 0;
    assert(all.skip(0) =~= all);
    while i < list.len()
        invariant
            i <= list.len(),
            all == text::views(list@),
            first_check(all) == first_check(all.skip(i as int)),
        decreases list.len() - i,
    {
        let c = list[i].as_str();
        assert(all.skip(i as int)[0] == c@);
        assert(all.skip(i as int).drop_first() =~= all.skip(i + 1));
        let upper = text::to_upper(c);
        let found = check_in(c, upper.as_str());
        match found {
            Clause::Absent => {},
            _ => {
                return found;
            },
        }
        i = i + 1;
    }
    Clause::Absent
}

/// Whether one of the constraints is `keyword`.
fn declares(list: &Vec<String>, keyword: &str) -> (r: bool)
    ensures
        r == has(text::views(list@), keyword@),
{
    let mut i: usize = 0;
    while i < list.len()
        invariant
            i <= list.len(),
            forall|j: int|
                0 <= j < i ==> !text::same_fold(#[trigger] text::views(list@)[j], keyword@),
        decreases list.len() - i,
    {
        assert(text::views(list@)[i as int] == list@[i as int]@);
        if text::same_ignoring_case(list[i].as_str(), keyword) {
            return true;
        }
        i = i + 1;
    }
    false
}

/// The column that a definition makes, for its type.
fn make_column(def: &ColumnDef, ty: ColumnType) -> (r: Column)
    requires
        clauses_sound(*def),
        datatype::parsed_type(def.data_type@) is Ok,
    ensures
        r@ == made_column(*def, ty),
{
    let primary = declares(&def.constraints, "PRIMARY KEY");
    let not_null = declares(&def.constraints, "NOT NULL") || primary;
    let unique = declares(&def.constraints, "UNIQUE") || primary;
    let default = match column_default(&def.constraints) {
        Clause::Found(t) => parse_literal(ty, t.as_str()),
        _ => None,
    };
    let check = match column_check(&def.constraints) {
        Clause::Found(t) => Some(t),
        _ => None,
    };
    Column {
        name: def.name.clone(),
        data_type: ty,
        nullable: !not_null,
        constraints: Constraints { not_null, unique, default, check },
    }
}

/// Plans `CREATE TABLE`.
pub fn plan_create_table(db: &str, params: &CreateTablePlan) -> (r: Vec<Effect>)
    requires
        all_clauses_sound(params.columns@),
    ensures
        effects::shown(r@) == create_table(db@, *params),
{
    let ghost defs = params.columns@;
    let table = params.table.as_str();
    let mut out: Vec<Effect> = Vec::new();
    let mut columns: Vec<Column> = Vec::new();
    let mut i: usize = 0;
    assert(effects::shown(out@) =~= unknown_types(defs.take(0)));
    assert(catalog::column_views(columns@) =~= made_columns(defs.take(0)));
    while i < params.columns.len()
        invariant
            i <= params.columns.len(),
            defs == params.columns@,
            all_clauses_sound(defs),
            effects::shown(out@) == unknown_types(defs.take(i as int)),
            catalog::column_views(columns@) == made_columns(defs.take(i as int)),
        decreases params.columns.len() - i,
    {
        let ghost lines = effects::shown(out@);
        let ghost made = catalog::column_views(columns@);
        let def = &params.columns[i];
        assert(defs.take(i + 1).drop_last() =~= defs.take(i as int));
        assert(defs.take(i + 1).last() == *def);
        assert(clauses_sound(defs[i as int]));
        match parse_type(def.data_type.as_str()) {
            Ok(ty) => {
                columns.push(make_column(def, ty));
                assert(catalog::column_views(columns@) =~= made.push(made_column(*def, ty)));
            },
            Err(e) => {
                let line = text::cat5(
                    "Unknown type '",
                    def.data_type.as_str(),
                    "': ",
                    e.as_str(),
                    ". Supported: SMALLINT, INT, BIGINT, REAL, DOUBLE PRECISION, NUMERIC(p,s), DECIMAL(p,s), BOOLEAN, CHAR(n), CHARACTER(n), VARCHAR(n), DATE, TIME, TIMESTAMP, BIT(n)",
                );
                out.push(Effect::Print { text: line });
                assert(effects::shown(out@) =~= lines.push(
                    EffectView::Print { text: unknown_type_line(def.data_type@, e@) },
                ));
            },
        }
        i = i + 1;
    }
    assert(defs.take(i as int) =~= defs);
    let ghost lines = effects::shown(out@);
    let ghost made = catalog::column_views(columns@);
    out.push(Effect::CreateTable { db: db.to_owned(), table: table.to_owned(), columns });
    out.push(Effect::Print { text: text::cat3("Table '", table, "' created successfully.") });
    let ghost head = effects::shown(out@);
    assert(head =~= lines + seq![
        EffectView::CreateTable { db: db@, table: table@, columns: made },
        EffectView::Print { text: "Table '"@ + table@ + "' created successfully."@ },
    ]);
    push_constraints(&mut out, db, table, &params.constraints);
    push_indexes(&mut out, db, table, &params.columns);
    out
}

fn push_constraints(out: &mut Vec<Effect>, db: &str, table: &str, list: &Vec<TableConstraint>)
    ensures
        effects::shown(final(out)@) == effects::shown(old(out)@) + constraint_effects(
            db@,
            table@,
            list@,
        ),
{
    let ghost head = effects::shown(out@);
    let ghost all = list@;
    let mut i: usize = 0;
    assert(effects::shown(out@) =~= head + constraint_effects(db@, table@, all.take(0)));
    while i < list.len()
        invariant
            i <= list.len(),
            all == list@,
            effects::shown(out@) == head + constraint_effects(db@, table@, all.take(i as int)),
        decreases list.len() - i,
    {
        let ghost before = effects::shown(out@);
        assert(all.take(i + 1).drop_last() =~= all.take(i as int));
        assert(all.take(i + 1).last() == all[i as int]);
        if let Some(effect) = save_table_constraint(db, table, list[i].definition.as_str()) {
            let ghost e = effect@;
            out.push(effect);
            assert(effects::shown(out@) =~= before.push(e));
        }
        assert(effects::shown(out@) =~= head + constraint_effects(db@, table@, all.take(i + 1)));
        i = i + 1;
    }
    assert(all.take(i as int) =~= all);
}

fn push_indexes(out: &mut Vec<Effect>, db: &str, table: &str, defs: &Vec<ColumnDef>)
    ensures
        effects::shown(final(out)@) == effects::shown(old(out)@) + primary_indexes(
            db@,
            table@,
            defs@,
        ),
{
    let ghost head = effects::shown(out@);
    let ghost all = defs@;
    let mut i: usize = 0;
    assert(effects::shown(out@) =~= head + primary_indexes(db@, table@, all.take(0)));
    while i < defs.len()
        invariant
            i <= defs.len(),
            all == defs@,
            effects::shown(out@) == head + primary_indexes(db@, table@, all.take(i as int)),
        decreases defs.len() - i,
    {
        let ghost before = effects::shown(out@);
        let def = &defs[i];
        assert(all.take(i + 1).drop_last() =~= all.take(i as int));
        assert(all.take(i + 1).last() == *def);
        if declares(&def.constraints, "PRIMARY KEY") {
            let effect = Effect::CreateIndex {
                db: db.to_owned(),
                table: table.to_owned(),
                index: text::cat4("pk_", table, "_", def.name.as_str()),
                column: def.name.clone(),
                warning: "Warning: failed to auto-create PRIMARY KEY index: ".to_owned(),
            };
            let ghost e = effect@;
            out.push(effect);
            assert(effects::shown(out@) =~= before.push(e));
        }
        assert(effects::shown(out@) =~= head + primary_indexes(db@, table@, all.take(i + 1)));
        i = i + 1;
    }
    assert(all.take(i as int) =~= all);
}

/// Whether every clause of the definitions can be cut out.
pub fn clauses_are_sound(defs: &Vec<ColumnDef>) -> (r: bool)
    ensures
        r == all_clauses_sound(defs@),
{
    let mut i: usize = 0;
    while i < defs.len()
        invariant
            i <= defs.len(),
            forall|j: int| 0 <= j < i ==> clauses_sound(#[trigger] defs@[j]),
        decreases defs.len() - i,
    {
        let def = &defs[i];
        if parse_type(def.data_type.as_str()).is_ok() {
            let default = column_default(&def.constraints);
            let check = column_check(&def.constraints);
            let broken = match (default, check) {
                (Clause::Broken, _) => true,
                (_, Clause::Broken) => true,
                _ => false,
            };
            if broken {
                assert(!clauses_sound(defs@[i as int]));
                return false;
            }
        }
        assert(clauses_sound(defs@[i as int]));
        i = i + 1;
    }
    true
}

/// A column declared `PRIMARY KEY` is `NOT NULL` and `UNIQUE`; and a column takes `NULL` exactly
/// where it is not `NOT NULL`.
pub proof fn law_primary_key_is_not_null_and_unique(def: ColumnDef, ty: ColumnType)
    ensures
        made_column(def, ty).nullable == !made_column(def, ty).not_null,
        has(text::views(def.constraints@), "PRIMARY KEY"@) ==> made_column(def, ty).not_null
            && made_column(def, ty).unique,
{
}

/// Every definition of known type makes a column, and every other is reported.
pub proof fn law_every_definition_counts(defs: Seq<ColumnDef>)
    ensures
        made_columns(defs).len() + unknown_types(defs).len() == defs.len(),
    decreases defs.len(),
{
    if defs.len() > 0 {
        law_every_definition_counts(defs.drop_last());
    }
}

/// The number of stored constraints in a plan.
pub open spec fn stored_count(plan: Seq<EffectView>) -> nat
    decreases plan.len(),
{
    if plan.len() == 0 {
        0
    } else {
        stored_count(plan.drop_last()) + if plan.last() is InsertConstraint {
            1nat
        } else {
            0nat
        }
    }
}

/// The number of definitions that are understood.
pub open spec fn understood_count(list: Seq<TableConstraint>) -> nat
    decreases list.len(),
{
    if list.len() == 0 {
        0
    } else {
        understood_count(list.drop_last()) + if constraints::stored_constraint(
            list.last().definition@,
        ) is Some {
            1nat
        } else {
            0nat
        }
    }
}

proof fn lemma_stored_count_concat(a: Seq<EffectView>, b: Seq<EffectView>)
    ensures
        stored_count(a + b) == stored_count(a) + stored_count(b),
    decreases b.len(),
{
    if b.len() == 0 {
        assert(a + b =~= a);
    } else {
        assert((a + b).drop_last() =~= a + b.drop_last());
        lemma_stored_count_concat(a, b.drop_last());
    }
}

proof fn lemma_no_stored(plan: Seq<EffectView>)
    requires
        forall|i: int| 0 <= i < plan.len() ==> !((#[trigger] plan[i]) is InsertConstraint),
    ensures
        stored_count(plan) == 0,
    decreases plan.len(),
{
    if plan.len() > 0 {
        assert(!(plan[plan.len() - 1] is InsertConstraint));
        let front = plan.drop_last();
        assert forall|i: int| 0 <= i < front.len() implies !((
        #[trigger] front[i]) is InsertConstraint) by {
            assert(front[i] == plan[i]);
        }
        lemma_no_stored(front);
    }
}

proof fn lemma_constraint_stored(
    db: Seq<char>,
    table: Seq<char>,
    list: Seq<TableConstraint>,
    i: int,
)
    requires
        0 <= i < list.len(),
        constraints::stored_constraint(list[i].definition@) is Some,
    ensures
        constraint_effects(db, table, list).contains(
            EffectView::InsertConstraint {
                db,
                table,
                record: constraints::stored_constraint(list[i].definition@)->0,
            },
        ),
    decreases list.len(),
{
    let effect = EffectView::InsertConstraint {
        db,
        table,
        record: constraints::stored_constraint(list[i].definition@)->0,
    };
    let all = constraint_effects(db, table, list);
    let before = constraint_effects(db, table, list.drop_last());
    if i == list.len() - 1 {
        assert(all[before.len() as int] == effect);
    } else {
        lemma_constraint_stored(db, table, list.drop_last(), i);
        let k = choose|k: int| 0 <= k < before.len() && before[k] == effect;
        assert(all[k] == effect);
    }
}

proof fn lemma_constraint_count(db: Seq<char>, table: Seq<char>, list: Seq<TableConstraint>)
    ensures
        stored_count(constraint_effects(db, table, list)) == understood_count(list),
        forall|k: int|
            0 <= k < constraint_effects(db, table, list).len() ==> (
            #[trigger] constraint_effects(db, table, list)[k]) is InsertConstraint,
    decreases list.len(),
{
    if list.len() > 0 {
        let before = constraint_effects(db, table, list.drop_last());
        let all = constraint_effects(db, table, list);
        lemma_constraint_count(db, table, list.drop_last());
        if constraints::stored_constraint(list.last().definition@) is Some {
            assert(all.drop_last() =~= before);
        }
    }
}

proof fn lemma_other_parts(db: Seq<char>, table: Seq<char>, defs: Seq<ColumnDef>)
    ensures
        forall|i: int|
            0 <= i < unknown_types(defs).len() ==> (#[trigger] unknown_types(defs)[i]) is Print,
        forall|i: int|
            0 <= i < primary_indexes(db, table, defs).len() ==> (
            #[trigger] primary_indexes(db, table, defs)[i]) is CreateIndex,
    decreases defs.len(),
{
    if defs.len() > 0 {
        lemma_other_parts(db, table, defs.drop_last());
    }
}

/// `CREATE TABLE` stores the record of every constraint definition that is understood, and stores
/// no other constraint: there are as many as definitions that are understood.
pub proof fn law_every_constraint_is_stored(db: Seq<char>, params: CreateTablePlan, i: int)
    requires
        0 <= i < params.constraints@.len(),
        constraints::stored_constraint(params.constraints@[i].definition@) is Some,
    ensures
        create_table(db, params).contains(
            EffectView::InsertConstraint {
                db,
                table: params.table@,
                record: constraints::stored_constraint(params.constraints@[i].definition@)->0,
            },
        ),
        stored_count(create_table(db, params)) == understood_count(params.constraints@),
{
    law_stored_constraints_are_counted(db, params);
    let table = params.table@;
    lemma_constraint_stored(db, table, params.constraints@, i);
    let head = unknown_types(params.columns@) + seq![
        EffectView::CreateTable { db, table, columns: made_columns(params.columns@) },
        EffectView::Print { text: "Table '"@ + table + "' created successfully."@ },
    ];
    let mid = constraint_effects(db, table, params.constraints@);
    let effect = EffectView::InsertConstraint {
        db,
        table,
        record: constraints::stored_constraint(params.constraints@[i].definition@)->0,
    };
    let k = choose|k: int| 0 <= k < mid.len() && mid[k] == effect;
    assert(create_table(db, params)[head.len() + k] == effect);
}

/// `CREATE TABLE` stores as many constraints as it has definitions that are understood.
pub proof fn law_stored_constraints_are_counted(db: Seq<char>, params: CreateTablePlan)
    ensures
        stored_count(create_table(db, params)) == understood_count(params.constraints@),
{
    let table = params.table@;
    let defs = params.columns@;
    let lines = unknown_types(defs);
    let two = seq![
        EffectView::CreateTable { db, table, columns: made_columns(defs) },
        EffectView::Print { text: "Table '"@ + table + "' created successfully."@ },
    ];
    let mid = constraint_effects(db, table, params.constraints@);
    let last = primary_indexes(db, table, defs);
    lemma_other_parts(db, table, defs);
    lemma_no_stored(lines);
    lemma_no_stored(two);
    lemma_no_stored(last);
    lemma_constraint_count(db, table, params.constraints@);
    lemma_stored_count_concat(lines, two);
    lemma_stored_count_concat(lines + two, mid);
    lemma_stored_count_concat(lines + two + mid, last);
}

/// The columns of a table are made one by one, in the order of their definitions, and so are the
/// lines on unknown types, the stored constraints and the indexes over primary keys: what two
/// lists make together is what the first makes and then what the second makes.
pub proof fn law_definitions_are_taken_in_order(
    db: Seq<char>,
    table: Seq<char>,
    a: Seq<ColumnDef>,
    b: Seq<ColumnDef>,
    x: Seq<TableConstraint>,
    y: Seq<TableConstraint>,
)
    ensures
        made_columns(a + b) == made_columns(a) + made_columns(b),
        unknown_types(a + b) == unknown_types(a) + unknown_types(b),
        primary_indexes(db, table, a + b) == primary_indexes(db, table, a) + primary_indexes(
            db,
            table,
            b,
        ),
        constraint_effects(db, table, x + y) == constraint_effects(db, table, x)
            + constraint_effects(db, table, y),
    decreases b.len() + y.len(),
{
    if b.len() == 0 {
        assert(a + b =~= a);
        assert(made_columns(a) + made_columns(b) =~= made_columns(a));
        assert(unknown_types(a) + unknown_types(b) =~= unknown_types(a));
        assert(primary_indexes(db, table, a) + primary_indexes(db, table, b) =~= primary_indexes(
            db,
            table,
            a,
        ));
    } else {
        law_definitions_are_taken_in_order(db, table, a, b.drop_last(), x, Seq::empty());
        assert((a + b).drop_last() =~= a + b.drop_last());
        assert((a + b).last() == b.last());
        assert(made_columns(a + b) =~= made_columns(a) + made_columns(b));
        assert(unknown_types(a + b) =~= unknown_types(a) + unknown_types(b));
        assert(primary_indexes(db, table, a + b) =~= primary_indexes(db, table, a)
            + primary_indexes(db, table, b));
    }
    if y.len() == 0 {
        assert(x + y =~= x);
        assert(constraint_effects(db, table, x) + constraint_effects(db, table, y)
            =~= constraint_effects(db, table, x));
    } else {
        law_definitions_are_taken_in_order(db, table, a, Seq::empty(), x, y.drop_last());
        assert((x + y).drop_last() =~= x + y.drop_last());
        assert((x + y).last() == y.last());
        assert(constraint_effects(db, table, x + y) =~= constraint_effects(db, table, x)
            + constraint_effects(db, table, y));
    }
}

/// One of a definition's constraints is the word or words, in whatever letter case.
pub open spec fn declared(def: ColumnDef, words: Seq<char>) -> bool {
    exists|i: int|
        0 <= i < def.constraints@.len() && text::ascii_lower((#[trigger] def.constraints@[i])@)
            == text::ascii_lower(words)
}

/// A definition of known type makes one column, which has the definition's name and type. It takes
/// `NULL` unless it is declared `NOT NULL` or `PRIMARY KEY`; it is unique where it is declared
/// `UNIQUE` or `PRIMARY KEY`; and a `PRIMARY KEY` is indexed by an index of its own. A definition
/// of unknown type makes no column, and a line says so.
pub proof fn law_definition_makes_its_column(db: Seq<char>, table: Seq<char>, def: ColumnDef)
    ensures
        ({
            let ty = datatype::parsed_type(def.data_type@);
            let columns = made_columns(seq![def]);
            let lines = unknown_types(seq![def]);
            &&& ty is Ok ==> {
                &&& columns.len() == 1
                &&& lines.len() == 0
                &&& columns[0].name == def.name@
                &&& columns[0].data_type == ty->Ok_0
                &&& columns[0].not_null == (declared(def, "NOT NULL"@) || declared(
                    def,
                    "PRIMARY KEY"@,
                ))
                &&& columns[0].nullable == !columns[0].not_null
                &&& columns[0].unique == (declared(def, "UNIQUE"@) || declared(def, "PRIMARY KEY"@))
            }
            &&& ty is Err ==> {
                &&& columns.len() == 0
                &&& lines.len() == 1
                &&& lines[0] is Print
                &&& ("Unknown type '"@ + def.data_type@ + "': "@ + ty->Err_0).is_prefix_of(
                    lines[0]->Print_text,
                )
            }
        }),
        declared(def, "PRIMARY KEY"@) ==> primary_indexes(db, table, seq![def]) == seq![
            EffectView::CreateIndex {
                db,
                table,
                index: "pk_"@ + table + "_"@ + def.name@,
                column: def.name@,
                warning: "Warning: failed to auto-create PRIMARY KEY index: "@,
            },
        ],
        !declared(def, "PRIMARY KEY"@) ==> primary_indexes(db, table, seq![def]).len() == 0,
{
    let one = seq![def];
    assert(one.drop_last() =~= Seq::<ColumnDef>::empty());
    assert(one.last() == def);
    reveal_with_fuel(made_columns, 2);
    reveal_with_fuel(unknown_types, 2);
    reveal_with_fuel(primary_indexes, 2);
    lemma_declared(def, "NOT NULL"@);
    lemma_declared(def, "PRIMARY KEY"@);
    lemma_declared(def, "UNIQUE"@);
    let ty = datatype::parsed_type(def.data_type@);
    if ty is Err {
        let start = "Unknown type '"@ + def.data_type@ + "': "@ + ty->Err_0;
        let line = unknown_type_line(def.data_type@, ty->Err_0);
        assert(line.take(start.len() as int) =~= start);
    }
    assert(declared(def, "PRIMARY KEY"@) ==> primary_indexes(db, table, one) =~= seq![
        EffectView::CreateIndex {
            db,
            table,
            index: "pk_"@ + table + "_"@ + def.name@,
            column: def.name@,
            warning: "Warning: failed to auto-create PRIMARY KEY index: "@,
        },
    ]);
}

proof fn lemma_declared(def: ColumnDef, words: Seq<char>)
    ensures
        declared(def, words) == has(text::views(def.constraints@), words),
{
    let list = text::views(def.constraints@);
    if declared(def, words) {
        let i = choose|i: int|
            0 <= i < def.constraints@.len() && text::ascii_lower((#[trigger] def.constraints@[i])@)
                == text::ascii_lower(words);
        assert(text::same_fold(list[i], words));
    }
    if has(list, words) {
        let i = choose|i: int| 0 <= i < list.len() && text::same_fold(#[trigger] list[i], words);
        assert(text::ascii_lower(def.constraints@[i]@) == text::ascii_lower(words));
    }
}

/// `CREATE TABLE` creates the one table that it names, in the selected database, with the columns
/// that its definitions make; a line says so, and the constraints and the indexes over primary
/// keys follow it.
pub proof fn law_create_table_creates_the_table(db: Seq<char>, params: CreateTablePlan)
    ensures
        ({
            let plan = create_table(db, params);
            let n = unknown_types(params.columns@).len() as int;
            &&& plan.take(n) == unknown_types(params.columns@)
            &&& plan[n] == (EffectView::CreateTable {
                db,
                table: params.table@,
                columns: made_columns(params.columns@),
            })
            &&& plan[n + 1] == (EffectView::Print {
                text: "Table '"@ + params.table@ + "' created successfully."@,
            })
            &&& plan.skip(n + 2) == constraint_effects(db, params.table@, params.constraints@)
                + primary_indexes(db, params.table@, params.columns@)
        }),
{
    let plan = create_table(db, params);
    let lines = unknown_types(params.columns@);
    let n = lines.len() as int;
    assert(plan.take(n) =~= lines);
    assert(plan.skip(n + 2) =~= constraint_effects(db, params.table@, params.constraints@)
        + primary_indexes(db, params.table@, params.columns@));
}

/// Behind `DEFAULT`, in whatever letter case, and a blank stands the default, as it is written.
pub proof fn law_default_is_what_follows(c: Seq<char>)
    requires
        text::all_ascii(c),
        c.len() >= 8,
        text::ascii_upper(c.take(8)) == "DEFAULT "@,
    ensures
        default_clause(c, text::ascii_upper(c)) == ClauseView::Found(c.skip(8)),
{
    reveal_strlit("DEFAULT ");
    let upper = text::ascii_upper(c);
    assert(upper.take(8) =~= text::ascii_upper(c.take(8)));
    assert("DEFAULT "@.is_prefix_of(upper));
    text::lemma_ascii_bytes(c, 8);
}

/// The default inside `DEFAULT(..)` is all that stands between the parentheses.
pub proof fn law_default_may_stand_in_parentheses(c: Seq<char>, value: Seq<char>)
    ensures
        default_clause(c, "DEFAULT("@ + value + ")"@) == ClauseView::Found(value),
{
    reveal_strlit("DEFAULT ");
    reveal_strlit("DEFAULT(");
    reveal_strlit(")");
    let upper = "DEFAULT("@ + value + ")"@;
    assert(upper[7] == '(');
    assert(!"DEFAULT "@.is_prefix_of(upper)) by {
        if "DEFAULT "@.is_prefix_of(upper) {
            assert(upper.subrange(0, 8)[7] == "DEFAULT "@[7]);
        }
    }
    assert(upper.subrange(0, 8) =~= "DEFAULT("@);
    assert("DEFAULT("@.is_prefix_of(upper));
    let rest = upper.skip(8);
    assert(rest =~= value + ")"@);
    assert(rest.last() == ')');
    assert(text::rfind(rest, ')') == Some(rest.len() - 1));
    assert(rest.take(rest.len() - 1) =~= value);
}

/// The check inside `CHECK(..)`, in whatever letter case, is all that stands between the
/// parentheses, as it is written.
pub proof fn law_check_is_what_stands_inside(c: Seq<char>)
    requires
        text::all_ascii(c),
        c.len() >= 7,
        text::ascii_upper(c.take(6)) == "CHECK("@,
        c.last() == ')',
    ensures
        check_clause(c, text::ascii_upper(c)) == ClauseView::Found(c.subrange(6, c.len() - 1)),
{
    reveal_strlit("CHECK(");
    let upper = text::ascii_upper(c);
    assert(upper.take(6) =~= text::ascii_upper(c.take(6)));
    assert("CHECK("@.is_prefix_of(upper));
    assert(upper.last() == ')');
    let end = upper.len() - 1;
    assert(text::rfind(upper, ')') == Some(end));
    let head = upper.take(end);
    assert forall|i: int| 0 <= i < head.len() implies (#[trigger] head[i] as u32) < 128 by {
        assert(head[i] == text::ascii_upper_char(c[i]));
        assert((c[i] as u32) < 128);
    }
    text::lemma_ascii_bytes(head, 0);
    text::lemma_ascii_bytes(c, 6);
    text::lemma_ascii_bytes(c, end);
}

/// A constraint text that starts with neither form of `DEFAULT` gives no default, and one that
/// does not start with `CHECK(` gives no check.
pub proof fn law_other_constraints_give_neither(c: Seq<char>, upper: Seq<char>)
    ensures
        !"DEFAULT "@.is_prefix_of(upper) && !"DEFAULT("@.is_prefix_of(upper) ==> default_clause(
            c,
            upper,
        ) is Absent,
        !"CHECK("@.is_prefix_of(upper) ==> check_clause(c, upper) is Absent,
{
}

/// Of several defaults, or of several checks, among a column's constraints the first counts.
pub proof fn law_first_clause_counts(list: Seq<Seq<char>>, i: int)
    requires
        0 <= i < list.len(),
    ensures
        (forall|j: int|
            0 <= j < i ==> default_clause(
                #[trigger] list[j],
                text::upper_text(list[j]),
            ) is Absent) && !(default_clause(list[i], text::upper_text(list[i])) is Absent)
            ==> first_default(list) == default_clause(list[i], text::upper_text(list[i])),
        (forall|j: int|
            0 <= j < i ==> check_clause(
                #[trigger] list[j],
                text::upper_text(list[j]),
            ) is Absent) && !(check_clause(list[i], text::upper_text(list[i])) is Absent)
            ==> first_check(list) == check_clause(list[i], text::upper_text(list[i])),
    decreases list.len(),
{
    if i > 0 {
        let rest = list.drop_first();
        assert(rest[i - 1] == list[i]);
        law_first_clause_counts(rest, i - 1);
        if forall|j: int|
            0 <= j < i ==> default_clause(#[trigger] list[j], text::upper_text(list[j])) is Absent {
            assert(default_clause(list[0], text::upper_text(list[0])) is Absent);
            assert forall|j: int| 0 <= j < i - 1 implies default_clause(
                #[trigger] rest[j],
                text::upper_text(rest[j]),
            ) is Absent by {
                assert(rest[j] == list[j + 1]);
            }
        }
        if forall|j: int|
            0 <= j < i ==> check_clause(#[trigger] list[j], text::upper_text(list[j])) is Absent {
            assert(check_clause(list[0], text::upper_text(list[0])) is Absent);
            assert forall|j: int| 0 <= j < i - 1 implies check_clause(
                #[trigger] rest[j],
                text::upper_text(rest[j]),
            ) is Absent by {
                assert(rest[j] == list[j + 1]);
            }
        }
    }
}

/// Without a default, or without a check, among a column's constraints there is none.
pub proof fn law_no_clause_is_made_up(list: Seq<Seq<char>>)
    ensures
        (forall|j: int|
            0 <= j < list.len() ==> default_clause(
                #[trigger] list[j],
                text::upper_text(list[j]),
            ) is Absent) ==> first_default(list) is Absent,
        (forall|j: int|
            0 <= j < list.len() ==> check_clause(
                #[trigger] list[j],
                text::upper_text(list[j]),
            ) is Absent) ==> first_check(list) is Absent,
    decreases list.len(),
{
    if list.len() > 0 {
        let rest = list.drop_first();
        law_no_clause_is_made_up(rest);
        if forall|j: int|
            0 <= j < list.len() ==> default_clause(
                #[trigger] list[j],
                text::upper_text(list[j]),
            ) is Absent {
            assert(default_clause(list[0], text::upper_text(list[0])) is Absent);
            assert forall|j: int| 0 <= j < rest.len() implies default_clause(
                #[trigger] rest[j],
                text::upper_text(rest[j]),
            ) is Absent by {
                assert(rest[j] == list[j + 1]);
            }
        }
        if forall|j: int|
            0 <= j < list.len() ==> check_clause(
                #[trigger] list[j],
                text::upper_text(list[j]),
            ) is Absent {
            assert(check_clause(list[0], text::upper_text(list[0])) is Absent);
            assert forall|j: int| 0 <= j < rest.len() implies check_clause(
                #[trigger] rest[j],
                text::upper_text(rest[j]),
            ) is Absent by {
                assert(rest[j] == list[j + 1]);
            }
        }
    }
}

/// A column's default is the value that its first default stands for as a value of the column's
/// type, and its check is the text of its first check.
pub proof fn law_column_has_its_clauses(def: ColumnDef, t: Seq<char>)
    requires
        datatype::parsed_type(def.data_type@) is Ok,
    ensures
        ({
            let column = made_columns(seq![def])[0];
            let list = text::views(def.constraints@);
            let ty = datatype::parsed_type(def.data_type@)->Ok_0;
            &&& first_default(list) == ClauseView::Found(t) ==> column.default
                == match datatype::encoded_literal(ty, t) {
                Ok(bytes) => match datatype::decoded_value(ty, bytes) {
                    Ok(v) => Some(v),
                    Err(_) => None,
                },
                Err(_) => None,
            }
            &&& first_default(list) is Absent ==> column.default is None
            &&& first_check(list) == ClauseView::Found(t) ==> column.check == Some(t)
            &&& first_check(list) is Absent ==> column.check is None
        }),
{
    let one = seq![def];
    assert(one.drop_last() =~= Seq::<ColumnDef>::empty());
    assert(one.last() == def);
    reveal_with_fuel(made_columns, 2);
}

/// A definition of unknown type is answered with the type, the cause, and the types there are.
pub proof fn law_unknown_types_are_answered(def: ColumnDef, e: Seq<char>)
    requires
        datatype::parsed_type(def.data_type@) == Err::<ColumnType, Seq<char>>(e),
    ensures
        unknown_types(seq![def]) == seq![
            EffectView::Print {
                text: "Unknown type '"@ + def.data_type@ + "': "@ + e
                    + ". Supported: SMALLINT, INT, BIGINT, REAL, DOUBLE PRECISION, NUMERIC(p,s), DECIMAL(p,s), BOOLEAN, CHAR(n), CHARACTER(n), VARCHAR(n), DATE, TIME, TIMESTAMP, BIT(n)"@,
            },
        ],
{
    let one = seq![def];
    assert(one.drop_last() =~= Seq::<ColumnDef>::empty());
    reveal_with_fuel(unknown_types, 2);
    assert(unknown_types(one) =~= seq![
        EffectView::Print { text: unknown_type_line(def.data_type@, e) },
    ]);
}

} // verus!
