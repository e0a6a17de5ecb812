use t10_dif_storage::bench::{
    batch_count, count_corrupted, is_corrupted, next_batch_offset, slot_offset, slot_ref_tag,
    total_blocks,
};
use t10_dif_storage::buffer::{BufferError, DmaBuffer, COMBINED_ALIGN, COMBINED_LEN, DATA_BLOCK_LEN};
use t10_dif_storage::device::{sector_size_from_query, sort_completions, Completion};
use t10_dif_storage::dif::T10Dif;

#[test]
fn example_usage() {
    // Тестовый блок данных СХД (4КБ)
    let data_block = [0u8; 4096];
    let lba = 1024; // Logical Block Address

    // Генерируем метаданные DIF
    let dif_entry = T10Dif::compute(&data_block, 0x0001, lba);
    println!("Сгенерированный CRC: {:04X}", dif_entry.guard_tag);

    // Проверяем целостность данных
    assert!(dif_entry.verify(&data_block));
}

#[test]
fn guard_tag_of_check_string() {
    let dif = T10Dif::compute(b"123456789", 0, 0);
    assert_eq!(dif.guard_tag, 0xD0DB);
}

#[test]
fn guard_tag_of_empty_and_zero_blocks() {
    assert_eq!(T10Dif::compute(&[], 7, 9).guard_tag, 0);
    assert_eq!(T10Dif::compute(&[0u8; 4096], 7, 9).guard_tag, 0);
    assert_eq!(T10Dif::compute(&[0x01], 0, 0).guard_tag, 0x8BB7);
}

#[test]
fn compute_keeps_tags() {
    let dif = T10Dif::compute(&[1, 2, 3], 0xBEEF, 0xDEADBEEF);
    assert_eq!(dif.app_tag, 0xBEEF);
    assert_eq!(dif.ref_tag, 0xDEADBEEF);
}

#[test]
fn verify_accepts_computed_record() {
    let data: Vec<u8> = (0..4096u32).map(|i| (i * 7 + 3) as u8).collect();
    let dif = T10Dif::compute(&data, 2, 77);
    assert!(dif.verify(&data));
}

#[test]
fn verify_refuses_wrong_guard() {
    let data = [0xAAu8; 4096];
    let mut dif = T10Dif::compute(&data, 1, 5);
    dif.guard_tag ^= 1;
    assert!(!dif.verify(&data));
}

#[test]
fn verify_detects_every_single_bit_flip() {
    let data: Vec<u8> = (0..64u32).map(|i| (i * 31 + 11) as u8).collect();
    let dif = T10Dif::compute(&data, 0, 0);
    for i in 0..data.len() {
        for bit in 0..8 {
            let mut corrupted = data.clone();
            corrupted[i] ^= 1 << bit;
            assert!(!dif.verify(&corrupted));
        }
    }
}

#[test]
fn verify_detects_two_adjacent_corrupted_bytes() {
    let data = [0x55u8; 512];
    let dif = T10Dif::compute(&data, 0, 0);
    let mut corrupted = data;
    corrupted[100] = 0x12;
    corrupted[101] = 0x34;
    assert!(!dif.verify(&corrupted));
    let mut last = data;
    last[511] = 0;
    assert!(!dif.verify(&last));
}

#[test]
fn block_followed_by_guard_has_zero_checksum() {
    let mut data: Vec<u8> = (0..100u32).map(|i| (i * 13) as u8).collect();
    let guard = T10Dif::compute(&data, 0, 0).guard_tag;
    data.push((guard >> 8) as u8);
    data.push(guard as u8);
    assert_eq!(T10Dif::compute(&data, 0, 0).guard_tag, 0);
}

#[test]
fn record_image_layout() {
    let dif = T10Dif { guard_tag: 0xAABB, app_tag: 0x0102, ref_tag: 0x11223344 };
    let mut expected = Vec::new();
    expected.extend_from_slice(&0xAABBu16.to_ne_bytes());
    expected.extend_from_slice(&0x0102u16.to_ne_bytes());
    expected.extend_from_slice(&0x11223344u32.to_ne_bytes());
    assert_eq!(dif.to_ne_bytes().to_vec(), expected);
    if 1u16.to_ne_bytes()[0] == 1 {
        assert_eq!(dif.to_ne_bytes(), [0xBB, 0xAA, 0x02, 0x01, 0x44, 0x33, 0x22, 0x11]);
    } else {
        assert_eq!(dif.to_ne_bytes(), [0xAA, 0xBB, 0x01, 0x02, 0x11, 0x22, 0x33, 0x44]);
    }
    assert_eq!(T10Dif::from_ne_bytes(dif.to_ne_bytes()), dif);
    let bytes = [9, 8, 7, 6, 5, 4, 3, 2];
    assert_eq!(T10Dif::from_ne_bytes(bytes).to_ne_bytes(), bytes);
    assert_eq!(T10Dif::from_ne_bytes(bytes).ref_tag, u32::from_ne_bytes([5, 4, 3, 2]));
}

#[test]
fn buffer_refuses_bad_alignment() {
    assert_eq!(DmaBuffer::new(4096, 0).err(), Some(BufferError::InvalidAlignment));
    assert_eq!(DmaBuffer::new(4096, 3).err(), Some(BufferError::InvalidAlignment));
    assert_eq!(DmaBuffer::new(4096, 24).err(), Some(BufferError::InvalidAlignment));
    let word = std::mem::size_of::<usize>();
    assert_eq!(DmaBuffer::new(4096, word / 2).err(), Some(BufferError::InvalidAlignment));
    assert!(DmaBuffer::new(4096, word).is_ok());
}

#[test]
fn buffer_refuses_oversized_request() {
    assert_eq!(
        DmaBuffer::new(isize::MAX as usize + 1, 4096).err(),
        Some(BufferError::TooLarge)
    );
    assert_eq!(
        DmaBuffer::new(usize::MAX, 3).err(),
        Some(BufferError::InvalidAlignment)
    );
}

#[test]
fn new_buffer_is_zeroed_and_aligned_as_asked() {
    let buffer = DmaBuffer::new(4096, 4096).unwrap();
    assert_eq!(buffer.len(), 4096);
    assert_eq!(buffer.align(), 4096);
    assert!(buffer.as_slice().iter().all(|&b| b == 0));
    assert_eq!(buffer.dif_count(), 512);
}

#[test]
fn combined_buffer_shape() {
    let buffer = DmaBuffer::new_combined().unwrap();
    assert_eq!(buffer.len(), 4608);
    assert_eq!(COMBINED_LEN, 4608);
    assert_eq!(buffer.align(), COMBINED_ALIGN);
    assert_eq!(buffer.dif_part(), T10Dif { guard_tag: 0, app_tag: 0, ref_tag: 0 });
}

#[test]
fn buffer_records_read_back_as_written() {
    let mut buffer = DmaBuffer::new(4096, 4096).unwrap();
    buffer.set_dif_entry(0, T10Dif { guard_tag: 0xAAAA, app_tag: 1, ref_tag: 100 });
    buffer.set_dif_entry(1, T10Dif { guard_tag: 0xBBBB, app_tag: 2, ref_tag: 101 });
    assert_eq!(buffer.dif_entry(0).guard_tag, 0xAAAA);
    assert_eq!(buffer.dif_entry(1).ref_tag, 101);
    assert_eq!(buffer.dif_entry(1), T10Dif { guard_tag: 0xBBBB, app_tag: 2, ref_tag: 101 });
    assert_eq!(buffer.dif_entry(2), T10Dif { guard_tag: 0, app_tag: 0, ref_tag: 0 });
    let first = T10Dif { guard_tag: 0xAAAA, app_tag: 1, ref_tag: 100 };
    assert_eq!(&buffer.as_slice()[..8], &first.to_ne_bytes());
}

#[test]
fn record_after_data_block_keeps_data() {
    let mut buffer = DmaBuffer::new_combined().unwrap();
    buffer.data_part_mut().fill(0xAA);
    let dif = T10Dif::compute(buffer.data_part_mut(), 0x01, 42);
    buffer.set_dif_part(dif);
    assert_eq!(buffer.dif_part(), dif);
    assert!(buffer.as_slice()[..DATA_BLOCK_LEN].iter().all(|&b| b == 0xAA));
    assert!(buffer.dif_part().verify(&buffer.as_slice()[..DATA_BLOCK_LEN]));
    assert!(buffer.as_slice()[DATA_BLOCK_LEN + 8..].iter().all(|&b| b == 0));
}

#[test]
fn mutable_view_writes_through() {
    let mut buffer = DmaBuffer::new(16, 8).unwrap();
    buffer.as_mut_slice()[3] = 9;
    assert_eq!(buffer.as_slice()[3], 9);
    assert_eq!(buffer.dif_entry(0).app_tag, u16::from_ne_bytes([0, 9]));
}

#[test]
fn sector_size_choices() {
    assert_eq!(sector_size_from_query(-1, 512), 4096);
    assert_eq!(sector_size_from_query(0, 0), 4096);
    assert_eq!(sector_size_from_query(0, -512), 4096);
    assert_eq!(sector_size_from_query(0, 512), 512);
    assert_eq!(sector_size_from_query(0, 4096), 4096);
}

#[test]
fn completions_sorted_out() {
    let entries = [
        Completion { result: 8192, user_data: 0 },
        Completion { result: -22, user_data: 1 },
        Completion { result: 0, user_data: 2 },
        Completion { result: -5, user_data: 3 },
    ];
    let outcome = sort_completions(&entries);
    assert_eq!(outcome.completed, vec![0, 2]);
    assert_eq!(outcome.failures, vec![-22, -5]);
    assert_eq!(outcome.finished(), 4);
    let empty = sort_completions(&[]);
    assert_eq!(empty.finished(), 0);
    assert!(empty.completed.is_empty() && empty.failures.is_empty());
}

#[test]
fn bench_plan_arithmetic() {
    assert_eq!(total_blocks(1), 262144);
    assert_eq!(batch_count(262144, 32), 8192);
    assert_eq!(batch_count(100, 32), 3);
    assert_eq!(slot_offset(0, 3), 3 * 8192);
    assert_eq!(next_batch_offset(8192, 32), 8192 + 32 * 8192);
    assert_eq!(slot_ref_tag(0, 3), 6);
    assert_eq!(slot_ref_tag(8192 * 10, 1), 22);
    assert_eq!(slot_ref_tag(slot_offset(40960, 2) - 2 * 8192, 2), ((40960 + 2 * 8192) / 4096) as u32);
    assert_eq!(slot_ref_tag(4096 * (1u64 << 32), 1), 2);
}

#[test]
fn corruption_counting() {
    let a = T10Dif { guard_tag: 1, app_tag: 1, ref_tag: 1 };
    let other_app = T10Dif { guard_tag: 1, app_tag: 2, ref_tag: 1 };
    let other_guard = T10Dif { guard_tag: 2, app_tag: 1, ref_tag: 1 };
    let other_ref = T10Dif { guard_tag: 1, app_tag: 1, ref_tag: 3 };
    assert!(!is_corrupted(&a, &other_app));
    assert!(is_corrupted(&a, &other_guard));
    assert!(is_corrupted(&a, &other_ref));
    assert_eq!(count_corrupted(&[a, a, a, a], &[a, other_app, other_guard, other_ref]), 2);
    assert_eq!(count_corrupted(&[], &[]), 0);
}
