use vm_translator::symbol_table::{Address, SymbolTable};

#[test]
fn symboltable_new() {
    let st = SymbolTable::new();
    assert_eq!((st.is_empty(), st.get_free_address()), (true, 16));
    assert_eq!(st, SymbolTable::new());
}

#[test]
fn symboltable_load_starting_table() {
    let mut st: SymbolTable = SymbolTable::new();
    st.load_starting_table();
    assert_eq!(st.get_address("static").unwrap(), &Address::Absolute(16));
}

#[test]
fn symboltable_add_entry() {
    let mut st: SymbolTable = SymbolTable::new();
    st.add_entry("TestAddress", Address::Absolute(12345));
    assert_eq!(st.get_address("TestAddress").unwrap(), &Address::Absolute(12345));
}

#[test]
fn symboltable_contains() {
    let mut st: SymbolTable = SymbolTable::new();
    st.add_entry("TestAddress", Address::Absolute(12345));
    assert_eq!(st.contains("TestAddress"), true);
}

#[test]
fn starting_table_has_the_six_segments() {
    let mut st = SymbolTable::new();
    st.load_starting_table();
    assert_eq!(st.get_address("local"), Some(&Address::Relative("LCL")));
    assert_eq!(st.get_address("argument"), Some(&Address::Relative("ARG")));
    assert_eq!(st.get_address("this"), Some(&Address::Relative("THIS")));
    assert_eq!(st.get_address("that"), Some(&Address::Relative("THAT")));
    assert_eq!(st.get_address("temp"), Some(&Address::Absolute(5)));
    assert_eq!(st.get_address("static"), Some(&Address::Absolute(16)));
    assert!(!st.is_empty());
}

#[test]
fn unknown_names_have_no_address() {
    let mut st = SymbolTable::new();
    assert_eq!(st.get_address("local"), None);
    assert!(!st.contains("local"));
    st.load_starting_table();
    assert_eq!(st.get_address("constant"), None);
    assert_eq!(st.get_address("pointer"), None);
    assert_eq!(st.get_address(""), None);
    assert_eq!(st.get_address("Local"), None);
    assert!(!st.contains("locals"));
}

#[test]
fn add_entry_replaces_an_entry() {
    let mut st = SymbolTable::new();
    st.load_starting_table();
    st.add_entry("temp", Address::Absolute(7));
    assert_eq!(st.get_address("temp"), Some(&Address::Absolute(7)));
    assert_eq!(st.get_address("static"), Some(&Address::Absolute(16)));
    st.add_entry("temp", Address::Relative("TMP"));
    assert_eq!(st.get_address("temp"), Some(&Address::Relative("TMP")));
    assert_eq!(st.get_address("local"), Some(&Address::Relative("LCL")));
}

#[test]
fn loading_twice_changes_nothing() {
    let mut st = SymbolTable::new();
    st.load_starting_table();
    st.add_entry("heap", Address::Absolute(2048));
    st.load_starting_table();
    assert_eq!(st.get_address("heap"), Some(&Address::Absolute(2048)));
    assert_eq!(st.get_address("this"), Some(&Address::Relative("THIS")));
    assert_eq!(st.get_free_address(), 16);
}

#[test]
fn loading_restores_a_changed_segment() {
    let mut st = SymbolTable::new();
    st.add_entry("local", Address::Absolute(1));
    st.load_starting_table();
    assert_eq!(st.get_address("local"), Some(&Address::Relative("LCL")));
}

#[test]
fn tables_are_equal_whatever_the_order_of_entry() {
    let mut first = SymbolTable::new();
    first.add_entry("a", Address::Absolute(1));
    first.add_entry("b", Address::Relative("B"));
    let mut second = SymbolTable::new();
    second.add_entry("b", Address::Relative("X"));
    second.add_entry("a", Address::Absolute(1));
    assert!(first != second);
    second.add_entry("b", Address::Relative("B"));
    assert!(first == second);
    assert_eq!(SymbolTable::new(), SymbolTable::new());
    let mut loaded = SymbolTable::new();
    loaded.load_starting_table();
    let mut twice = SymbolTable::new();
    twice.load_starting_table();
    twice.load_starting_table();
    assert_eq!(loaded, twice);
}

#[test]
fn tables_with_different_segments_are_unequal() {
    let mut loaded = SymbolTable::new();
    loaded.load_starting_table();
    assert_ne!(loaded, SymbolTable::new());
    assert_ne!(SymbolTable::new(), loaded);
    let mut more = SymbolTable::new();
    more.load_starting_table();
    more.add_entry("heap", Address::Absolute(2048));
    assert_ne!(loaded, more);
    assert_ne!(more, loaded);
    let mut other = SymbolTable::new();
    other.load_starting_table();
    other.add_entry("temp", Address::Absolute(6));
    assert_ne!(loaded, other);
    other.add_entry("temp", Address::Relative("5"));
    assert_ne!(loaded, other);
}
