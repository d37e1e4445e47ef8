use arklog::memory::probe_record;
use arklog::{MemoryProbe, MEMORY_BUDGET_BYTES};

#[test]
fn probe_records_carry_a_zero_padded_sequence() {
    assert_eq!(
        probe_record(42),
        "08-30 20:10:01.001 120 121 I ArkUI/Render frame committed seq=0000000042 payload=abcdefghijklmnopqrstuvwxyz0123456789"
    );
    assert!(probe_record(12_345_678_901).contains("seq=12345678901 "));
}

#[test]
fn the_budget_is_fifty_mebibytes() {
    assert_eq!(MEMORY_BUDGET_BYTES, 50 * 1024 * 1024);
    let probe = MemoryProbe {
        raw_count: 1,
        visible_count: 1,
        find_count: 0,
        retained_heap_bytes: 10,
        rss_bytes: MEMORY_BUDGET_BYTES - 1,
        append_millis: 1,
        filter_millis: 1,
        find_millis: 1,
    };
    assert!(probe.within_budget());
    assert!(!MemoryProbe { rss_bytes: MEMORY_BUDGET_BYTES, ..probe }.within_budget());
}
