use geode_codegen::platform::is_wgl_ptr_valid;
use geode_codegen::stl_span::span;

#[test]
fn span_keeps_its_size() {
    let s: span<u32> = span::new(0x1000, 3);
    assert_eq!(s.size(), 3);
    assert_eq!(s.data_nonnull(), 0x1000);
    let copy = s.clone();
    assert_eq!(copy.size(), 3);
    assert_eq!(copy.data_nonnull(), 0x1000);
}

#[test]
fn null_span_data_is_dangling_and_aligned() {
    let s: span<u32> = span::new(0, 0);
    assert_eq!(s.data_nonnull(), std::mem::align_of::<u32>());
    let t: span<u8> = span::new(0, 0);
    assert_eq!(t.data_nonnull(), 1);
    assert_ne!(s.data_nonnull(), 0);
}

#[test]
fn wgl_pointer_validity() {
    for bad in [0usize, 1, 2, 3, usize::MAX] {
        assert!(!is_wgl_ptr_valid(bad));
    }
    for good in [4usize, 0x7ff0_0000, usize::MAX - 1] {
        assert!(is_wgl_ptr_valid(good));
    }
}
