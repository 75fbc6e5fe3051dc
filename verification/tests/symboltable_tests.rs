use mini_pascal::address::Address;
use mini_pascal::symboltable::{get_symbol_table, ConstructCategory, Entry, Scope};
use mini_pascal::typedast::{NodeType, SimpleType};

fn variable(name: &str, scope_number: i32, address: u64) -> Entry {
    Entry {
        name: String::from(name),
        category: ConstructCategory::SimpleVar,
        value: String::new(),
        entry_type: NodeType::Simple(SimpleType::Integer),
        scope_number,
        address: Address::new_simple(address),
    }
}

#[test]
fn builtins_resolve_in_the_outermost_scope() {
    let table = get_symbol_table();
    assert_eq!(table.get_current_scope_number(), 0);
    let integer = table.lookup(&String::from("integer")).unwrap();
    assert!(matches!(integer.category, ConstructCategory::TypeId));
    assert_eq!(integer.entry_type, NodeType::Simple(SimpleType::Integer));
    let truth = table.lookup(&String::from("true")).unwrap();
    assert_eq!(truth.address, Address::new_simple(1));
    assert_eq!(truth.value, "1");
    let falsity = table.lookup(&String::from("false")).unwrap();
    assert_eq!(falsity.address, Address::new_simple(0));
    assert!(table.lookup(&String::from("nothing")).is_none());
}

#[test]
fn inner_declaration_shadows_until_the_scope_is_left() {
    let mut table = get_symbol_table();
    let x = String::from("x");
    table.add_entry(variable("x", 0, 10));
    let inner = table.new_scope_in_current_scope(false);
    assert_eq!(inner, 1);
    assert!(!table.in_current_scope(&x));
    assert_eq!(table.lookup(&x).unwrap().address, Address::new_simple(10));
    table.add_entry(variable("x", inner, 11));
    assert!(table.in_current_scope(&x));
    assert_eq!(table.lookup(&x).unwrap().address, Address::new_simple(11));
    table.exit_scope();
    assert_eq!(table.get_current_scope_number(), 0);
    assert_eq!(table.lookup(&x).unwrap().address, Address::new_simple(10));
}

#[test]
fn a_scope_that_was_left_keeps_its_entries_and_can_be_entered_again() {
    let mut table = get_symbol_table();
    let y = String::from("y");
    let inner = table.new_scope_in_current_scope(true);
    table.add_entry(variable("y", inner, 20));
    table.exit_scope();
    assert!(table.lookup(&y).is_none());
    let record = table.get_scope(inner).unwrap();
    assert_eq!(
        record,
        Scope { scope_number: 1, enclosing_scope_number: 0, is_closed: true }
    );
    table.enter_scope(record);
    assert_eq!(table.get_current_scope_number(), inner);
    assert_eq!(table.lookup(&y).unwrap().address, Address::new_simple(20));
    assert!(table.lookup(&String::from("integer")).is_some());
    table.exit_scope();
    assert_eq!(table.get_current_scope_number(), 0);
    assert!(table.get_scope(2).is_none());
    assert!(table.get_scope(-1).is_none());
}

#[test]
fn a_later_entry_replaces_an_earlier_one_of_the_same_name() {
    let mut table = get_symbol_table();
    let x = String::from("x");
    table.add_entry(variable("x", 0, 10));
    table.add_entry(variable("x", 0, 11));
    assert_eq!(table.lookup(&x).unwrap().address, Address::new_simple(11));
}

#[test]
fn an_entry_for_a_scope_that_does_not_exist_is_dropped() {
    let mut table = get_symbol_table();
    table.add_entry(variable("x", 5, 10));
    table.add_entry(variable("z", -1, 10));
    assert!(table.lookup(&String::from("x")).is_none());
    assert!(table.lookup(&String::from("z")).is_none());
    assert_eq!(table.scope_count(), 1);
}

#[test]
fn without_an_active_scope_nothing_resolves_and_no_scope_opens() {
    let mut table = get_symbol_table();
    table.exit_scope();
    assert_eq!(table.get_current_scope_number(), 0);
    assert!(table.lookup(&String::from("integer")).is_none());
    assert!(!table.in_current_scope(&String::from("integer")));
    assert_eq!(table.new_scope_in_current_scope(false), -1);
    table.exit_scope();
    assert_eq!(table.scope_count(), 1);
}

#[test]
fn nested_scopes_resolve_outwards() {
    let mut table = get_symbol_table();
    let a = table.new_scope_in_current_scope(false);
    table.add_entry(variable("a", a, 10));
    let b = table.new_scope_in_current_scope(false);
    table.add_entry(variable("b", b, 11));
    assert_eq!((a, b), (1, 2));
    assert_eq!(table.lookup(&String::from("a")).unwrap().address, Address::new_simple(10));
    assert_eq!(table.lookup(&String::from("b")).unwrap().address, Address::new_simple(11));
    assert!(table.lookup(&String::from("size")).is_some());
    assert!(table.in_current_scope(&String::from("b")));
    assert!(!table.in_current_scope(&String::from("a")));
    table.exit_scope();
    let c = table.new_scope_in_current_scope(false);
    assert_eq!(c, 3);
    assert!(table.lookup(&String::from("b")).is_none());
    assert!(table.lookup(&String::from("a")).is_some());
}
