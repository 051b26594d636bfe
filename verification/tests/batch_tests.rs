use column_batch::archetype::Archetype;
use column_batch::batch::{ColumnBatch, ColumnBatchType};
use column_batch::store::ArchetypeStore;
use column_batch::type_info::TypeInfo;

fn ti(id: u64, size: usize, align: usize) -> TypeInfo {
    TypeInfo::new(id, size, align)
}

#[test]
fn finalize_is_order_independent() {
    let a = ti(1, 4, 4);
    let b = ti(2, 8, 8);
    let c = ti(3, 1, 1);

    let mut first = ColumnBatchType::new();
    first.add(c);
    first.add(a);
    first.add(b);
    let batch1 = first.into_batch();

    let mut second = ColumnBatchType::new();
    second.add(b);
    second.add(c);
    second.add(a);
    let batch2 = second.into_batch();

    assert_eq!(batch1.types(), batch2.types());
    assert_eq!(batch1.types(), &vec![a, b, c]);
}

#[test]
fn canonical_sequence_is_sorted_by_identity() {
    let a = ti(10, 4, 4);
    let b = ti(2, 8, 8);
    let mut ty = ColumnBatchType::new();
    ty.add(a);
    ty.add(b);
    let batch = ty.into_batch();
    assert_eq!(batch.types(), &vec![b, a]);
}

#[test]
fn duplicate_registration_is_collapsed() {
    // Policy for repeated registration of one type: finalizing
    // deduplicates, so the archetype gets a single column for the type.
    let a = ti(7, 4, 4);
    let mut ty = ColumnBatchType::new();
    ty.add(a);
    ty.add(a);
    let batch = ty.into_batch();
    assert_eq!(batch.types(), &vec![a]);
    assert_eq!(batch.types().len(), 1);
}

#[test]
fn storage_absent_iff_unregistered() {
    let a = ti(1, 4, 4);
    let b = ti(2, 8, 8);
    let mut ty = ColumnBatchType::new();
    ty.add(a);
    let batch = ty.into_batch();

    assert_eq!(batch.storage_for(&a), Some(0));
    assert_eq!(batch.storage_for(&b), None);
    // The recoverable absence leaves the batch untouched.
    assert_eq!(batch.len(), 0);
    assert_eq!(batch.capacity(), 0);
    assert_eq!(batch.types(), &vec![a]);
}

#[test]
fn reserve_grows_all_columns_in_lock_step() {
    let a = ti(1, 4, 4);
    let b = ti(2, 8, 8);
    let mut ty = ColumnBatchType::new();
    ty.add(a);
    ty.add(b);
    let mut batch = ty.into_batch();

    batch.reserve(3);
    let cap = batch.capacity();
    assert!(cap >= 3);
    assert_eq!(batch.len(), 0);
    let col_a = batch.storage_for(&a).unwrap();
    let col_b = batch.storage_for(&b).unwrap();
    assert_eq!(batch.column_len(col_a), cap as usize);
    assert_eq!(batch.column_len(col_b), cap as usize);

    // A second reserve keeps capacity at least len + n and keeps both
    // columns the same length.
    batch.reserve(5);
    let cap2 = batch.capacity();
    assert!(cap2 >= 5);
    assert!(cap2 >= cap);
    assert_eq!(batch.column_len(col_a), cap2 as usize);
    assert_eq!(batch.column_len(col_b), cap2 as usize);
}

#[test]
fn write_commit_read_round_trip() {
    let a = ti(1, 4, 4);
    let b = ti(2, 8, 8);
    let mut ty = ColumnBatchType::new();
    ty.add(b);
    ty.add(a);
    let mut batch = ty.into_batch();

    batch.reserve(3);
    let col_a = batch.storage_for(&a).unwrap();
    let col_b = batch.storage_for(&b).unwrap();
    batch.write_column(col_a, &vec![10, 11, 12]);
    batch.write_column(col_b, &vec![20, 21, 22]);
    batch.set_len(3);

    assert_eq!(batch.len(), 3);
    for i in 0..3 {
        assert_eq!(batch.read(col_a, i), 10 + i as u64);
        assert_eq!(batch.read(col_b, i), 20 + i as u64);
    }
}

#[test]
fn single_writes_land_in_their_slots() {
    let a = ti(5, 2, 2);
    let mut ty = ColumnBatchType::new();
    ty.add(a);
    let mut batch = ty.into_batch();
    batch.reserve(2);
    let col = batch.storage_for(&a).unwrap();
    batch.write(col, 0, 77);
    batch.write(col, 1, 88);
    batch.set_len(2);
    assert_eq!(batch.read(col, 0), 77);
    assert_eq!(batch.read(col, 1), 88);
}

#[test]
fn commit_is_incremental() {
    let a = ti(1, 4, 4);
    let mut ty = ColumnBatchType::new();
    ty.add(a);
    let mut batch = ty.into_batch();

    batch.reserve(1);
    let col = batch.storage_for(&a).unwrap();
    batch.write_column(col, &vec![5]);
    batch.set_len(1);
    assert_eq!(batch.len(), 1);

    batch.reserve(2);
    assert!(batch.capacity() >= 3);
    assert_eq!(batch.len(), 1);
    // Earlier committed contents survive growth.
    assert_eq!(batch.read(col, 0), 5);

    batch.write(col, 1, 6);
    batch.write(col, 2, 7);
    batch.set_len(3);
    assert_eq!(batch.len(), 3);
    assert_eq!(batch.read(col, 0), 5);
    assert_eq!(batch.read(col, 1), 6);
    assert_eq!(batch.read(col, 2), 7);
}

#[test]
fn empty_type_set_batch() {
    let ty = ColumnBatchType::new();
    let mut batch = ColumnBatch::new(ty);
    assert_eq!(batch.types().len(), 0);
    assert_eq!(batch.len(), 0);
    batch.reserve(4);
    assert!(batch.capacity() >= 4);
    batch.set_len(4);
    assert_eq!(batch.len(), 4);
}

#[test]
fn reserve_zero_changes_nothing_needed() {
    let a = ti(1, 4, 4);
    let mut ty = ColumnBatchType::new();
    ty.add(a);
    let mut batch = ty.into_batch();
    batch.reserve(0);
    assert_eq!(batch.len(), 0);
    let col = batch.storage_for(&a).unwrap();
    assert_eq!(batch.column_len(col), batch.capacity() as usize);
}

#[test]
fn batch_hands_off_its_archetype() {
    let a = ti(1, 4, 4);
    let mut ty = ColumnBatchType::new();
    ty.add(a);
    let mut batch = ty.into_batch();
    batch.reserve(2);
    let col = batch.storage_for(&a).unwrap();
    batch.write_column(col, &vec![1, 2]);
    batch.set_len(2);

    let archetype: Archetype = batch.into_archetype();
    assert_eq!(archetype.len(), 2);
    assert_eq!(archetype.read(col, 0), 1);
    assert_eq!(archetype.read(col, 1), 2);
}

#[test]
fn archetype_lookup_is_idempotent() {
    let a = ti(1, 4, 4);
    let b = ti(2, 8, 8);
    let mut ty = ColumnBatchType::new();
    ty.add(a);
    ty.add(b);
    let batch = ty.into_batch();
    let key = batch.types().clone();

    let mut store = ArchetypeStore::new();
    assert_eq!(store.count(), 0);
    let first = store.archetype_for(&key);
    assert_eq!(store.count(), 1);
    let second = store.archetype_for(&key);
    // Same archetype, not a duplicate.
    assert_eq!(first, second);
    assert_eq!(store.count(), 1);
    assert_eq!(store.get(first).types(), &key);

    // A different canonical sequence gets its own archetype.
    let other = vec![ti(9, 1, 1)];
    let third = store.archetype_for(&other);
    assert_ne!(third, first);
    assert_eq!(store.count(), 2);
}

#[test]
fn type_descriptor_parts_are_kept() {
    let d = ti(42, 16, 8);
    assert_eq!(d.id, 42);
    assert_eq!(d.size, 16);
    assert_eq!(d.align, 8);
}
