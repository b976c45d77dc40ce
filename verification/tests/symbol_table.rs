use pascal_frontend::symbol_table::{ATabEntry, BTabEntry, SymbolTable, TabEntry, RESERVED};
use pascal_frontend::types::{DataType, ObjectKind};

fn entry(name: &str, obj: ObjectKind, data_type: DataType, level: usize) -> TabEntry {
    TabEntry {
        name: name.to_string(),
        link: Some(999),
        obj,
        data_type,
        ref_index: None,
        normal: true,
        level,
        address: 0,
    }
}

#[test]
fn a_new_table_holds_the_reserved_records() {
    let table = SymbolTable::new();
    assert_eq!(RESERVED, 33);
    assert_eq!(table.tab.len(), 33);
    assert_eq!(table.tab[0].name, "dan");
    assert_eq!(table.tab[1].name, "larik");
    assert_eq!(table.tab[9].name, "selesai");
    assert_eq!(table.tab[21].name, "string");
    assert_eq!(table.tab[26].name, "variabel");
    assert_eq!(table.tab[28].name, "padat");
    assert_eq!(table.tab[29].name, "writeln");
    assert_eq!(table.tab[30].name, "write");
    assert_eq!(table.tab[31].name, "readln");
    assert_eq!(table.tab[32].name, "read");
    for i in 0..33 {
        let record = &table.tab[i];
        assert_eq!(record.link, None);
        assert_eq!(record.level, 0);
        assert_eq!(record.address, i);
        assert!(record.normal);
        assert_eq!(record.ref_index, None);
        if i < 29 {
            assert_eq!(record.obj, ObjectKind::Type);
            if i == 21 {
                assert!(matches!(record.data_type, DataType::String));
            } else {
                assert!(matches!(record.data_type, DataType::Unknown));
            }
        } else {
            assert_eq!(record.obj, ObjectKind::Procedure);
            assert!(matches!(record.data_type, DataType::Void));
        }
    }
    assert_eq!(table.btab, vec![BTabEntry { last: 0, last_par: 0, param_size: 0, var_size: 0 }]);
    assert!(table.atab.is_empty());
    assert_eq!(table.display, vec![0]);
    assert_eq!(table.current_level(), 0);
    assert_eq!(table.current_block(), 0);
}

#[test]
fn reserved_names_resolve_to_their_records() {
    let table = SymbolTable::new();
    assert_eq!(table.lookup("dan"), Some(0));
    assert_eq!(table.lookup("string"), Some(21));
    assert_eq!(table.lookup("writeln"), Some(29));
    assert_eq!(table.lookup("read"), Some(32));
    assert_eq!(table.lookup("x"), None);
    assert_eq!(table.lookup_current_scope("writeln"), None);
}

#[test]
fn a_declared_name_is_found_at_once() {
    let mut table = SymbolTable::new();
    let x = table.insert(entry("x", ObjectKind::Variable, DataType::Integer, 0));
    assert_eq!(x, 33);
    assert_eq!(table.tab[33].link, None);
    assert_eq!(table.btab[0].last, 33);
    assert_eq!(table.lookup("x"), Some(33));
    assert_eq!(table.lookup_current_scope("x"), Some(33));
    let c = table.insert(entry("c", ObjectKind::Constant, DataType::Real, 0));
    assert_eq!(c, 34);
    assert_eq!(table.tab[34].link, Some(33));
    assert_eq!(table.btab[0].last, 34);
    assert_eq!(table.lookup_current_scope("c"), Some(34));
    assert_eq!(table.lookup_current_scope("x"), Some(33));
}

#[test]
fn every_identifier_of_a_block_is_reached_whatever_its_kind() {
    let mut table = SymbolTable::new();
    table.enter_block();
    let a = table.insert(entry("a", ObjectKind::Parameter, DataType::Integer, 1));
    let k = table.insert(entry("k", ObjectKind::Constant, DataType::Integer, 1));
    let x = table.insert(entry("x", ObjectKind::Variable, DataType::Integer, 1));
    let p = table.insert(entry("p", ObjectKind::Procedure, DataType::Void, 1));
    assert_eq!(table.lookup("a"), Some(a));
    assert_eq!(table.lookup("k"), Some(k));
    assert_eq!(table.lookup("x"), Some(x));
    assert_eq!(table.lookup("p"), Some(p));
    assert_eq!(table.lookup_current_scope("a"), Some(a));
    assert_eq!(table.tab[p].link, Some(x));
    assert_eq!(table.tab[x].link, Some(k));
    assert_eq!(table.tab[k].link, Some(a));
    assert_eq!(table.tab[a].link, None);
}

#[test]
fn a_local_shadows_a_global_inside_its_block_only() {
    let mut table = SymbolTable::new();
    let global = table.insert(entry("x", ObjectKind::Variable, DataType::Integer, 0));
    assert_eq!(table.lookup("x"), Some(global));
    let block = table.enter_block();
    assert_eq!(block, 1);
    assert_eq!(table.current_level(), 1);
    assert_eq!(table.lookup("x"), Some(global));
    assert_eq!(table.lookup_current_scope("x"), None);
    let local = table.insert(entry("x", ObjectKind::Variable, DataType::Real, 1));
    assert_ne!(local, global);
    assert_eq!(table.lookup("x"), Some(local));
    assert_eq!(table.lookup_current_scope("x"), Some(local));
    table.exit_block();
    assert_eq!(table.current_level(), 0);
    assert_eq!(table.lookup("x"), Some(global));
    assert_eq!(table.lookup_current_scope("x"), Some(global));
    assert_eq!(table.btab.len(), 2);
    assert_eq!(table.btab[1].last, local);
    assert_eq!(table.tab.len(), 35);
}

#[test]
fn the_newest_of_two_equal_names_in_a_block_wins() {
    let mut table = SymbolTable::new();
    let first = table.insert(entry("x", ObjectKind::Variable, DataType::Integer, 0));
    let second = table.insert(entry("x", ObjectKind::Variable, DataType::Real, 0));
    assert_eq!(table.lookup("x"), Some(second));
    assert_eq!(table.tab[second].link, Some(first));
}

#[test]
fn blocks_nest_and_the_global_block_stays_open() {
    let mut table = SymbolTable::new();
    assert_eq!(table.enter_block(), 1);
    assert_eq!(table.enter_block(), 2);
    assert_eq!(table.display, vec![0, 1, 2]);
    assert_eq!(table.current_level(), 2);
    assert_eq!(table.current_block(), 2);
    table.exit_block();
    assert_eq!(table.display, vec![0, 1]);
    assert_eq!(table.enter_block(), 3);
    assert_eq!(table.display, vec![0, 1, 3]);
    table.exit_block();
    table.exit_block();
    table.exit_block();
    table.exit_block();
    assert_eq!(table.display, vec![0]);
    assert_eq!(table.btab.len(), 4);
    table.reenter_block(2);
    assert_eq!(table.display, vec![0, 2]);
    assert_eq!(table.current_block(), 2);
    assert_eq!(table.btab.len(), 4);
}

#[test]
fn a_name_of_a_closed_block_at_level_zero_is_still_seen() {
    let mut table = SymbolTable::new();
    table.enter_block();
    let inner = table.insert(entry("deep", ObjectKind::Variable, DataType::Integer, 1));
    let odd = table.insert(entry("odd", ObjectKind::Variable, DataType::Integer, 0));
    table.exit_block();
    assert_eq!(table.lookup("deep"), None);
    assert_eq!(table.lookup("odd"), Some(odd));
    assert_eq!(inner, 33);
}

#[test]
fn insert_at_global_leaves_the_block_record_alone() {
    let mut table = SymbolTable::new();
    let x = table.insert(entry("x", ObjectKind::Variable, DataType::Integer, 0));
    table.enter_block();
    let g = table.insert_at_global(entry("late", ObjectKind::Function, DataType::Integer, 7));
    assert_eq!(g, 34);
    assert_eq!(table.tab[g].level, 0);
    assert_eq!(table.tab[g].link, Some(x));
    assert_eq!(table.btab[0].last, x);
    assert_eq!(table.btab[1].last, 0);
    assert_eq!(table.lookup("late"), Some(g));
    assert_eq!(table.lookup_current_scope("late"), None);
    table.exit_block();
    assert_eq!(table.lookup("late"), Some(g));
    assert_eq!(table.lookup_current_scope("late"), None);
}

#[test]
fn builtin_names() {
    let table = SymbolTable::new();
    for name in ["writeln", "write", "readln", "read", "true", "false"] {
        assert!(table.is_builtin(name));
    }
    assert!(!table.is_builtin("print"));
    assert!(!table.is_builtin(""));
    assert!(!table.is_builtin("Write"));
}

#[test]
fn array_types_are_numbered_in_order() {
    let mut table = SymbolTable::new();
    let make = |low: i32, high: i32| ATabEntry {
        index_type: DataType::Integer,
        element_type: DataType::Char,
        element_ref: None,
        low_bound: low,
        high_bound: high,
        element_size: 1,
        total_size: 0,
    };
    assert_eq!(table.insert_array(make(1, 5)), 0);
    assert_eq!(table.insert_array(make(-3, 3)), 1);
    assert_eq!(table.atab.len(), 2);
    assert_eq!(table.atab[1].low_bound, -3);
    assert_eq!(table.atab[0].high_bound, 5);
}

#[test]
fn variable_sizes_add_up_in_the_innermost_block() {
    let mut table = SymbolTable::new();
    table.add_var_size(2);
    table.enter_block();
    table.add_var_size(3);
    table.add_var_size(4);
    assert_eq!(table.btab[0].var_size, 2);
    assert_eq!(table.btab[1].var_size, 7);
    table.add_var_size(usize::MAX);
    assert_eq!(table.btab[1].var_size, usize::MAX);
    table.exit_block();
    table.add_var_size(1);
    assert_eq!(table.btab[0].var_size, 3);
}

#[test]
fn a_table_with_dangling_numbers_does_not_stop_a_search() {
    let mut table = SymbolTable::new();
    let x = table.insert(entry("x", ObjectKind::Variable, DataType::Integer, 0));
    table.tab[x].link = Some(x);
    assert_eq!(table.lookup_current_scope("y"), None);
    table.btab[0].last = 5000;
    assert_eq!(table.lookup_current_scope("x"), None);
    assert_eq!(table.lookup("x"), Some(x));
    table.display.clear();
    assert_eq!(table.current_level(), 0);
    assert_eq!(table.current_block(), 0);
    assert_eq!(table.lookup("dan"), Some(0));
    table.display.push(77);
    assert_eq!(table.lookup_current_scope("x"), None);
    let y = table.insert(entry("y", ObjectKind::Variable, DataType::Integer, 0));
    assert_eq!(table.tab[y].link, None);
    assert_eq!(table.lookup("y"), Some(y));
}
