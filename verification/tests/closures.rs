use nod_runtime::classes::ClassTable;
use nod_runtime::closures::{
    define_variable, ensure_registered, is_cell, is_environment, make_cell, make_environment,
    nod_cell_get, nod_cell_set, nod_env_cell, nod_make_environment, nod_var_get_by_name,
    nod_var_set_by_name, VariableTable,
};
use nod_runtime::heap::Heap;
use nod_runtime::word::Word;

fn fixnum(n: i64) -> Word {
    Word::from_fixnum(n).unwrap()
}

#[test]
fn cell_round_trips_a_fixnum() {
    let mut table = ClassTable::new();
    let ids = ensure_registered(&mut table);
    let mut heap = Heap::new();
    let initial = Word::from_fixnum(42).unwrap();
    let c = make_cell(&mut heap, &ids, initial);
    assert!(is_cell(&table, &ids, &heap, c));
    let got = nod_cell_get(&heap, c.raw());
    assert_eq!(Word::from_raw(got).as_fixnum(), Some(42));
    let new_val = Word::from_fixnum(99).unwrap();
    let returned = nod_cell_set(&mut heap, new_val.raw(), c.raw());
    assert_eq!(returned, new_val.raw());
    let got2 = nod_cell_get(&heap, c.raw());
    assert_eq!(Word::from_raw(got2).as_fixnum(), Some(99));
}

#[test]
fn environment_indexed_access() {
    let mut table = ClassTable::new();
    let ids = ensure_registered(&mut table);
    let mut heap = Heap::new();
    let a = make_cell(&mut heap, &ids, Word::from_fixnum(10).unwrap());
    let b = make_cell(&mut heap, &ids, Word::from_fixnum(20).unwrap());
    let c = make_cell(&mut heap, &ids, Word::from_fixnum(30).unwrap());
    let env = make_environment(&mut heap, &ids, &vec![a, b, c]);
    assert!(is_environment(&table, &ids, &heap, env));
    for (i, expected) in [10, 20, 30].iter().enumerate() {
        let idx = Word::from_fixnum(i as i64).unwrap();
        let cell_raw = nod_env_cell(&heap, env.raw(), idx.raw()).unwrap();
        let value_raw = nod_cell_get(&heap, cell_raw);
        assert_eq!(Word::from_raw(value_raw).as_fixnum(), Some(*expected));
    }
}

#[test]
fn environments_share_their_cells() {
    let mut table = ClassTable::new();
    let ids = ensure_registered(&mut table);
    let mut heap = Heap::new();
    let shared = make_cell(&mut heap, &ids, fixnum(1));
    let own = make_cell(&mut heap, &ids, fixnum(2));
    let first = make_environment(&mut heap, &ids, &vec![shared]);
    let second = make_environment(&mut heap, &ids, &vec![own, shared]);
    let through_first = nod_env_cell(&heap, first.raw(), fixnum(0).raw()).unwrap();
    nod_cell_set(&mut heap, fixnum(3).raw(), through_first);
    let through_second = nod_env_cell(&heap, second.raw(), fixnum(1).raw()).unwrap();
    assert_eq!(nod_cell_get(&heap, through_second), fixnum(3).raw());
    let kept = nod_env_cell(&heap, second.raw(), fixnum(0).raw()).unwrap();
    assert_eq!(nod_cell_get(&heap, kept), fixnum(2).raw());
}

#[test]
fn cell_aliasing_through_env() {
    let mut table = ClassTable::new();
    let ids = ensure_registered(&mut table);
    let mut heap = Heap::new();
    let a = make_cell(&mut heap, &ids, Word::from_fixnum(7).unwrap());
    let env = make_environment(&mut heap, &ids, &vec![a]);
    let idx0 = Word::from_fixnum(0).unwrap();
    let cell_via_env = nod_env_cell(&heap, env.raw(), idx0.raw()).unwrap();
    assert_eq!(cell_via_env, a.raw());
    nod_cell_set(&mut heap, Word::from_fixnum(11).unwrap().raw(), a.raw());
    let got = nod_cell_get(&heap, cell_via_env);
    assert_eq!(Word::from_raw(got).as_fixnum(), Some(11));
}

#[test]
fn environment_index_past_the_end_is_refused() {
    let mut table = ClassTable::new();
    let ids = ensure_registered(&mut table);
    let mut heap = Heap::new();
    let v = heap.alloc_simple_object_vector(2);
    let env = nod_make_environment(&mut heap, &ids, v.raw());
    assert!(nod_env_cell(&heap, env, fixnum(1).raw()).is_ok());
    assert!(nod_env_cell(&heap, env, fixnum(2).raw()).is_err());
    assert!(nod_env_cell(&heap, env, fixnum(-1).raw()).is_err());
}

#[test]
fn variables_are_cells_by_name() {
    let mut table = ClassTable::new();
    let ids = ensure_registered(&mut table);
    let mut heap = Heap::new();
    let mut variables = VariableTable::new();
    let name = heap.alloc_text("*count*").raw();
    let missing = nod_var_get_by_name(&variables, &heap, name).unwrap_err();
    assert!(missing.starts_with("nod_var_get_by_name: variable `*count*`"), "{missing}");
    define_variable(&mut variables, &mut heap, &ids, "*count*", fixnum(1).raw());
    assert_eq!(nod_var_get_by_name(&variables, &heap, name), Ok(fixnum(1).raw()));
    let set = nod_var_set_by_name(&variables, &mut heap, fixnum(5).raw(), name);
    assert_eq!(set, Ok(fixnum(5).raw()));
    assert_eq!(nod_var_get_by_name(&variables, &heap, name), Ok(fixnum(5).raw()));
    let no_name = nod_var_get_by_name(&variables, &heap, 0x2a).unwrap_err();
    assert_eq!(no_name, "nod_var_get_by_name: expected <byte-string> name, got raw Word 0x2a");
}
