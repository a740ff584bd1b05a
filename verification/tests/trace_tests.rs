use nova_mod::raytrace::{ensure_initialized, line_trace_fn, needs_lookup, state};
use nova_mod::trace_params::{
    can_trace, process_event_slot, trace_params, trace_reports_visible, TRACE_PARAMS_SIZE,
};

#[test]
fn fresh_state_knows_nothing() {
    let s = state();
    assert_eq!(line_trace_fn(&s), 0);
    assert!(needs_lookup(&s));
}

#[test]
fn lookup_result_is_recorded_once() {
    let mut s = state();
    assert!(ensure_initialized(&mut s, Some(0xABCD)));
    assert_eq!(line_trace_fn(&s), 0xABCD);
    assert!(!needs_lookup(&s));
    // a later lookup result is ignored
    assert!(ensure_initialized(&mut s, None));
    assert!(ensure_initialized(&mut s, Some(0x1234)));
    assert_eq!(line_trace_fn(&s), 0xABCD);
}

#[test]
fn failed_lookup_stays_failed() {
    let mut s = state();
    assert!(!ensure_initialized(&mut s, None));
    assert!(!ensure_initialized(&mut s, Some(0x77)));
    assert_eq!(line_trace_fn(&s), 0);
}

#[test]
fn trace_needs_world_and_function() {
    assert!(!can_trace(0, 5));
    assert!(!can_trace(5, 0));
    assert!(can_trace(5, 6));
}

#[test]
fn process_event_entry_of_vtable() {
    assert_eq!(process_event_slot(0), None);
    assert_eq!(process_event_slot(0x1000), Some(0x1000 + 0x44 * 8));
}

#[test]
fn parameter_block_layout() {
    let start = [1.0f32.to_bits(), 2.5f32.to_bits(), (-3.0f32).to_bits()];
    let end = [10.0f32.to_bits(), 0.0f32.to_bits(), 7.25f32.to_bits()];
    let p = trace_params(0x1122_3344_5566_7788, start, end, 0x0000_7FF0_0000_1000, 2);
    assert_eq!(p.len(), TRACE_PARAMS_SIZE);
    assert_eq!(&p[0x00..0x08], &0x1122_3344_5566_7788u64.to_le_bytes());
    assert_eq!(&p[0x08..0x0C], &1.0f32.to_le_bytes());
    assert_eq!(&p[0x0C..0x10], &2.5f32.to_le_bytes());
    assert_eq!(&p[0x10..0x14], &(-3.0f32).to_le_bytes());
    assert_eq!(&p[0x14..0x18], &10.0f32.to_le_bytes());
    assert_eq!(&p[0x1C..0x20], &7.25f32.to_le_bytes());
    assert_eq!(p[0x20], 0);
    assert_eq!(p[0x21], 0);
    assert_eq!(&p[0x28..0x30], &0x0000_7FF0_0000_1000u64.to_le_bytes());
    assert_eq!(&p[0x30..0x34], &2i32.to_le_bytes());
    assert_eq!(&p[0x34..0x38], &2i32.to_le_bytes());
    assert_eq!(p[0x38], 0);
    assert_eq!(p[0xC4], 1);
    for (i, b) in p.iter().enumerate() {
        let in_field = i < 0x22 || (0x28..0x38).contains(&i) || i == 0xC4;
        if !in_field {
            assert_eq!(*b, 0, "byte {:#x}", i);
        }
    }
    assert!(trace_reports_visible(&p));
}

#[test]
fn ignore_count_is_truncated_to_32_bits() {
    let p = trace_params(0, [0; 3], [0; 3], 0, 0x1_0000_0003);
    assert_eq!(&p[0x30..0x34], &3i32.to_le_bytes());
}

#[test]
fn blocking_hit_means_not_visible() {
    let mut p = trace_params(1, [0; 3], [0; 3], 0, 0);
    p[0xEC] = 1;
    assert!(!trace_reports_visible(&p));
}
