use file_upload::format_task_id;
use file_upload::fresh_task_id;

#[test]
fn format_zero() {
    assert_eq!(format_task_id(0), "00000000-0000-0000-0000-000000000000");
}

#[test]
fn format_all_ones() {
    assert_eq!(format_task_id(u128::MAX), "ffffffff-ffff-ffff-ffff-ffffffffffff");
}

#[test]
fn format_mixed_digits() {
    assert_eq!(
        format_task_id(0x0123_4567_89ab_cdef_0123_4567_89ab_cdef),
        "01234567-89ab-cdef-0123-456789abcdef"
    );
}

#[test]
fn format_small_value_is_padded() {
    assert_eq!(format_task_id(0xff), "00000000-0000-0000-0000-0000000000ff");
}

#[test]
fn fresh_ids_have_canonical_shape() {
    let id = fresh_task_id();
    assert_eq!(id.len(), 36);
    for (i, c) in id.chars().enumerate() {
        if i == 8 || i == 13 || i == 18 || i == 23 {
            assert_eq!(c, '-');
        } else {
            assert!(c.is_ascii_hexdigit() && !c.is_ascii_uppercase());
        }
    }
}

#[test]
fn fresh_ids_differ_between_draws() {
    let a = fresh_task_id();
    let b = fresh_task_id();
    assert_ne!(a, b);
}
