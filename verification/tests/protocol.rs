use gpu_geometry::dispatch::{plan_distance, plan_join};
use gpu_geometry::layout::{decode_match_records, decode_u32_le, MatchRecord};
use gpu_geometry::pipeline::{distance_bindings, join_bindings};
use gpu_geometry::readback::{counter_init_bytes, decode_counter, match_payload_bytes};

#[test]
fn decode_u32_le_reads_little_endian() {
    let bytes = vec![0x34u8, 0x12, 0x00, 0x00, 0xff, 0xff, 0xff, 0xff];
    assert_eq!(decode_u32_le(&bytes, 0), 0x1234);
    assert_eq!(decode_u32_le(&bytes, 4), u32::MAX);
}

#[test]
fn decode_match_records_reads_pairs() {
    let bytes = vec![
        2u8, 0, 0, 0, 5, 0, 0, 0, // record 0: (2, 5)
        1, 1, 0, 0, 0, 0, 1, 0, // record 1: (257, 65536)
    ];
    let records = decode_match_records(&bytes);
    assert_eq!(records.len(), 2);
    assert_eq!(records[0].left_index, 2);
    assert_eq!(records[0].right_index, 5);
    assert_eq!(records[1].left_index, 257);
    assert_eq!(records[1].right_index, 65536);
}

#[test]
fn decode_match_records_empty_payload() {
    let bytes: Vec<u8> = Vec::new();
    assert_eq!(decode_match_records(&bytes).len(), 0);
}

#[test]
fn counter_starts_zeroed() {
    let bytes = counter_init_bytes();
    assert_eq!(bytes.len(), 16);
    assert!(bytes.iter().all(|b| *b == 0));
    assert_eq!(decode_counter(&bytes), 0);
}

#[test]
fn decode_counter_reads_leading_word() {
    let bytes = vec![5u8, 0, 0, 0, 9, 9, 9, 9, 9, 9, 9, 9, 9, 9, 9, 9];
    assert_eq!(decode_counter(&bytes), 5);
}

#[test]
fn match_payload_covers_exactly_the_used_prefix() {
    assert_eq!(match_payload_bytes(0, 6), 0);
    assert_eq!(match_payload_bytes(3, 6), 24);
    assert_eq!(match_payload_bytes(6, 6), 48);
}

#[test]
fn join_plan_sizes_the_worst_case() {
    let plan = plan_join(3, 2).unwrap();
    assert_eq!(plan.left_len, 3);
    assert_eq!(plan.right_len, 2);
    assert_eq!(plan.pair_capacity, 6);
    assert_eq!(plan.output_bytes, 48);
    assert_eq!(plan.workgroups, 1);
}

#[test]
fn join_plan_rounds_workgroups_up() {
    assert_eq!(plan_join(1, 1).unwrap().workgroups, 1);
    assert_eq!(plan_join(64, 1).unwrap().workgroups, 1);
    assert_eq!(plan_join(65, 1).unwrap().workgroups, 2);
    assert_eq!(plan_join(64, 64).unwrap().workgroups, 64);
}

#[test]
fn join_plan_empty_side_dispatches_nothing() {
    for (l, r) in [(0usize, 5usize), (5, 0), (0, 0)] {
        let plan = plan_join(l, r).unwrap();
        assert_eq!(plan.pair_capacity, 0);
        assert_eq!(plan.output_bytes, 0);
        assert_eq!(plan.workgroups, 0);
    }
}

#[test]
fn join_plan_rejects_oversized_problems() {
    assert!(plan_join(1 << 16, 1 << 16).is_none());
    assert!(plan_join(u32::MAX as usize, 2).is_none());
    assert!(plan_join(u32::MAX as usize, 1).is_some());
}

#[test]
fn distance_plan_output_is_parallel_to_input() {
    let plan = plan_distance(3, 3).unwrap();
    assert_eq!(plan.len, 3);
    assert_eq!(plan.input_bytes, 24);
    assert_eq!(plan.output_bytes, 12);
    assert_eq!(plan.workgroups, 1);
}

#[test]
fn distance_plan_rejects_unequal_lengths() {
    assert!(plan_distance(3, 2).is_none());
    assert!(plan_distance(0, 1).is_none());
    assert!(plan_distance(0, 0).is_some());
    assert_eq!(plan_distance(0, 0).unwrap().workgroups, 0);
}

#[test]
fn join_bindings_declare_four_slots_in_order() {
    let slots = join_bindings();
    assert_eq!(slots.len(), 4);
    for (k, slot) in slots.iter().enumerate() {
        assert_eq!(slot.index as usize, k);
        assert_eq!(slot.writable, k >= 2);
    }
}

#[test]
fn distance_bindings_declare_three_slots_in_order() {
    let slots = distance_bindings();
    assert_eq!(slots.len(), 3);
    for (k, slot) in slots.iter().enumerate() {
        assert_eq!(slot.index as usize, k);
        assert_eq!(slot.writable, k == 2);
    }
}

/// The whole host side of one join readback, with the device simulated by
/// fixed bytes: read the counter, map exactly the used prefix, decode it,
/// and reduce.  The output buffer's unused tail holds garbage the host must
/// never look at.
#[test]
fn two_phase_readback_end_to_end() {
    let plan = plan_join(3, 2).unwrap();

    // The kernel bumped the counter twice and wrote records (1, 0), (0, 1).
    let counter = vec![2u8, 0, 0, 0, 0, 0, 0, 0, 0, 0, 0, 0, 0, 0, 0, 0];
    let count = decode_counter(&counter);
    assert_eq!(count, 2);

    let payload_len = match_payload_bytes(count, plan.pair_capacity);
    assert_eq!(payload_len, 16);

    let mut full_output = vec![
        1u8, 0, 0, 0, 0, 0, 0, 0, // record 0: (1, 0)
        0, 0, 0, 0, 1, 0, 0, 0, // record 1: (0, 1)
    ];
    full_output.resize(plan.output_bytes as usize, 0xAB); // stale tail
    let payload = full_output[..payload_len as usize].to_vec();
    let records = decode_match_records(&payload);
    assert_eq!(
        records,
        vec![
            MatchRecord { left_index: 1, right_index: 0 },
            MatchRecord { left_index: 0, right_index: 1 },
        ]
    );

    let items: Vec<u32> = vec![10, 20, 30];
    assert_eq!(gpu_geometry::reduce::reduce_to_items(&items, &records), vec![20, 10]);
}

#[test]
fn context_error_carries_its_message() {
    let e = gpu_geometry::GpuContextError::new(String::from("no adapter found"));
    assert_eq!(e.message, "no adapter found");
}

#[test]
fn match_record_is_a_plain_index_pair() {
    let r = MatchRecord { left_index: 3, right_index: 4 };
    let s = r;
    assert_eq!(r, s);
    assert_eq!(r.left_index, 3);
    assert_eq!(r.right_index, 4);
}
