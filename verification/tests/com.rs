use nod_runtime::com::{
    _reset_registry_for_tests, get_d2d_bitmap, get_dxgi_factory, nod_com_clear_last_hresult,
    nod_com_last_hresult, nod_com_registry_len, nod_com_release, register, registry_len, release,
    store_last_hresult, tag, untag, untag_i64, ComKind, ComState,
};
use nod_runtime::word::Word;

#[test]
fn registry_releases_drop_com_objects() {
    let mut state: ComState<u32> = ComState::new();
    _reset_registry_for_tests(&mut state);
    assert_eq!(registry_len(&state), 0);
    let h = register(&mut state, ComKind::DxgiFactory, 1);
    assert_eq!(registry_len(&state), 1);
    assert!(release(&mut state, h));
    assert_eq!(registry_len(&state), 0);
}

#[test]
fn release_returns_false_for_unknown_handle() {
    let mut state: ComState<u32> = ComState::new();
    _reset_registry_for_tests(&mut state);
    assert!(!release(&mut state, 99999));
}

#[test]
fn ten_register_then_release_clears_the_map() {
    let mut state: ComState<u32> = ComState::new();
    _reset_registry_for_tests(&mut state);
    let mut handles = Vec::new();
    for i in 0..10 {
        handles.push(register(&mut state, ComKind::DxgiFactory, i));
    }
    assert_eq!(registry_len(&state), 10);
    for h in handles {
        assert!(release(&mut state, h));
    }
    assert_eq!(registry_len(&state), 0);
}

#[test]
fn handles_find_objects_of_their_kind_only() {
    let mut state: ComState<&str> = ComState::new();
    let a = register(&mut state, ComKind::DxgiFactory, "factory");
    let b = register(&mut state, ComKind::D2DBitmap, "bitmap");
    assert_ne!(a, b);
    assert_eq!(get_dxgi_factory(&state, tag(a)), Some(&"factory"));
    assert_eq!(get_dxgi_factory(&state, tag(b)), None);
    assert_eq!(get_d2d_bitmap(&state, tag(b)), Some(&"bitmap"));
    assert_eq!(get_d2d_bitmap(&state, 0), None);
    assert_eq!(nod_com_registry_len(&state), tag(2));
    assert_eq!(nod_com_release(&mut state, tag(a)), tag(1));
    assert_eq!(nod_com_release(&mut state, tag(a)), 0);
    assert_eq!(get_dxgi_factory(&state, tag(a)), None);
    _reset_registry_for_tests(&mut state);
    let c = register(&mut state, ComKind::D2DBitmap, "again");
    assert!(c > b);
}

#[test]
fn the_last_failure_is_reported_once() {
    let mut state: ComState<u32> = ComState::new();
    assert_eq!(nod_com_last_hresult(&mut state), 0);
    store_last_hresult(&mut state, -2147467259);
    assert_eq!(nod_com_last_hresult(&mut state), tag(0x8000_4005));
    assert_eq!(nod_com_last_hresult(&mut state), 0);
    store_last_hresult(&mut state, 5);
    assert_eq!(nod_com_clear_last_hresult(&mut state), 0);
    assert_eq!(nod_com_last_hresult(&mut state), 0);
}

#[test]
fn numbers_travel_as_fixnums() {
    assert_eq!(untag(tag(77)), 77);
    let minus_three = Word::from_fixnum(-3).unwrap().raw();
    assert_eq!(untag_i64(minus_three), -3);
    assert_eq!(untag(minus_three), (-3i64) as u64);
    assert_eq!(untag(0x1001), 0);
    assert_eq!(untag_i64(0x1001), 0);
}
