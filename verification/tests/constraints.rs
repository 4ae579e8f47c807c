use rookdb::constraints::{actions_text, constraint_record, find_matching_paren, save_table_constraint};
use rookdb::effects::{ConstraintRecord, Effect};

fn record(kind: &str, columns: &str, target: Option<(&str, &str)>) -> Option<ConstraintRecord> {
    Some(ConstraintRecord {
        kind: kind.to_string(),
        columns: columns.to_string(),
        ref_table: target.map(|t| t.0.to_string()),
        ref_columns: target.map(|t| t.1.to_string()),
    })
}

#[test]
fn keys_are_stored_with_folded_columns() {
    assert_eq!(constraint_record("PRIMARY KEY (id)"), record("PRIMARY KEY", "ID", None));
    assert_eq!(constraint_record("primary key (id, Name)"), record("PRIMARY KEY", "ID, NAME", None));
    assert_eq!(constraint_record("UNIQUE (name)"), record("UNIQUE", "NAME", None));
    assert_eq!(constraint_record("Unique"), record("UNIQUE", "", None));
}

#[test]
fn a_key_runs_to_the_last_parenthesis() {
    assert_eq!(constraint_record("UNIQUE (f(a), b)"), record("UNIQUE", "F(A), B", None));
    assert_eq!(constraint_record("PRIMARY KEY (id"), None);
    assert_eq!(constraint_record("UNIQUE (id"), None);
}

#[test]
fn fk_references_resolve_with_original_letter_case() {
    assert_eq!(
        constraint_record("FOREIGN KEY (dept_id) REFERENCES Depts(ID)"),
        record("FOREIGN KEY", "dept_id", Some(("Depts", "ID")))
    );
}

#[test]
fn fk_on_delete_cascade_works_with_mixed_case_names() {
    assert_eq!(
        constraint_record("FOREIGN KEY (oid) REFERENCES Orders_2(OID) ON DELETE CASCADE"),
        record("FOREIGN KEY ON DELETE CASCADE", "oid", Some(("Orders_2", "OID")))
    );
}

#[test]
fn foreign_key_names_survive_beside_letters_that_grow_in_upper_case() {
    assert_eq!(
        constraint_record("foreign key (straße_id) REFERENCES Straßen(Id) on update set null"),
        record("FOREIGN KEY ON UPDATE SET NULL", "straße_id", Some(("Straßen", "Id")))
    );
}

#[test]
fn foreign_keys_without_columns_name_a_table() {
    assert_eq!(
        constraint_record("FOREIGN KEY (a) REFERENCES  Users ON DELETE CASCADE"),
        record("FOREIGN KEY", "a", Some(("Users", "")))
    );
    assert_eq!(
        constraint_record("FOREIGN KEY (a) REFERENCES  "),
        record("FOREIGN KEY", "a", Some((" ", "")))
    );
}

#[test]
fn broken_foreign_keys_are_not_stored() {
    assert_eq!(constraint_record("FOREIGN KEY (a"), None);
    assert_eq!(constraint_record("FOREIGN KEY (a) users(id)"), None);
    assert_eq!(constraint_record("FOREIGN KEY (a) references users(id)"), None);
    assert_eq!(constraint_record("FOREIGN KEY (a) REFERENCES users(id"), None);
}

#[test]
fn referential_actions() {
    assert_eq!(actions_text("ON DELETE CASCADE ON UPDATE SET NULL"), " ON DELETE CASCADE ON UPDATE SET NULL");
    assert_eq!(actions_text("ON DELETE RESTRICT ON UPDATE CASCADE"), " ON UPDATE CASCADE");
    assert_eq!(actions_text("ON DELETE SET NULL"), " ON DELETE SET NULL");
    assert_eq!(actions_text("ON UPDATE CASCADE"), " ON UPDATE CASCADE");
    assert_eq!(actions_text("ON UPDATE CASCADE ON DELETE CASCADE"), " ON UPDATE CASCADE");
    assert_eq!(actions_text(""), "");
}

#[test]
fn checks_are_stored_without_their_parentheses() {
    assert_eq!(constraint_record("CHECK (age > 0)"), record("CHECK", "age > 0", None));
    assert_eq!(constraint_record("CHECK(age > 0)"), record("CHECK", "age > 0", None));
    assert_eq!(constraint_record("check ((a + b) * 2 > (c)) tail"), record("CHECK", "(a + b) * 2 > (c)", None));
    assert_eq!(constraint_record("CHECK ((age > 0))"), record("CHECK", "age > 0", None));
    assert_eq!(constraint_record("CHECK(((a) > 0) )"), record("CHECK", "(a) > 0", None));
    assert_eq!(constraint_record("CHECK (((a)))"), record("CHECK", "(a)", None));
    assert_eq!(constraint_record("CHECK ((a)"), record("CHECK", "a", None));
    assert_eq!(constraint_record("CHECK (  )"), None);
    assert_eq!(constraint_record("CHECK (())"), None);
    assert_eq!(constraint_record("CHECK (a > (b)"), None);
}

#[test]
fn other_definitions_are_not_stored() {
    assert_eq!(constraint_record(""), None);
    assert_eq!(constraint_record("PRIMARY KEY"), None);
    assert_eq!(constraint_record("CONSTRAINT pk PRIMARY KEY (id)"), None);
    assert_eq!(save_table_constraint("db", "t", "EXCLUDE (a)"), None);
}

#[test]
fn a_stored_constraint_belongs_to_its_table() {
    assert_eq!(
        save_table_constraint("shop", "emps", "UNIQUE (id)"),
        Some(Effect::InsertConstraint {
            db: "shop".to_string(),
            table: "emps".to_string(),
            record: record("UNIQUE", "ID", None).unwrap(),
        })
    );
}

#[test]
fn matching_parentheses_are_found_by_byte() {
    assert_eq!(find_matching_paren("(a)"), Some(2));
    assert_eq!(find_matching_paren("((a)(b))c)"), Some(7));
    assert_eq!(find_matching_paren("(ä€𝄞)"), Some(1 + 2 + 3 + 4));
    assert_eq!(find_matching_paren("a(b)"), None);
    assert_eq!(find_matching_paren("((a)"), None);
    assert_eq!(find_matching_paren(""), None);
    assert_eq!(find_matching_paren(")("), None);
}
