use swym::bloom::{Bloom, Contained};
use swym::tcell_erased::TCellErased;

#[test]
fn inline_filter() {
    let a = TCellErased::new();
    let b = TCellErased::new();
    let mut bloom: Bloom<'_, TCellErased> = Bloom::new();
    assert!(bloom.is_empty());
    assert_eq!(bloom.contained(&a), Contained::No);
    assert_eq!(bloom.insert_inline(&a), Contained::No);
    assert!(!bloom.is_empty());
    assert_eq!(bloom.contained(&a), Contained::Maybe);
    // Inserting the same key again reports it as maybe present.
    assert_eq!(bloom.insert_inline(&a), Contained::Maybe);
    let _ = bloom.insert_inline(&b);
    assert_eq!(bloom.contained(&a), Contained::Maybe);
    assert_eq!(bloom.contained(&b), Contained::Maybe);
    bloom.clear();
    assert!(bloom.is_empty());
    assert_eq!(bloom.contained(&a), Contained::No);
}

#[test]
fn overflow_map() {
    let a = TCellErased::new();
    let b = TCellErased::new();
    let c = TCellErased::new();
    let mut bloom: Bloom<'_, TCellErased> = Bloom::new();
    bloom.to_overflow(&[(&a, 0), (&b, 1)]);
    assert!(!bloom.is_empty());
    assert_eq!(bloom.contained(&c), Contained::Maybe);
    assert_eq!(bloom.insert_inline(&c), Contained::Maybe);
    assert_eq!(bloom.overflow_get(&a), Some(0));
    assert_eq!(bloom.overflow_get(&b), Some(1));
    assert_eq!(bloom.overflow_get(&c), None);
    assert_eq!(bloom.overflow_entry(&c, 2), None);
    assert_eq!(bloom.overflow_get(&c), Some(2));
    assert_eq!(bloom.overflow_entry(&a, 5), Some(0));
    assert_eq!(bloom.overflow_get(&a), Some(5));
    // A second overflow changes nothing.
    bloom.to_overflow(&[(&a, 9)]);
    assert_eq!(bloom.overflow_get(&a), Some(5));
    bloom.clear();
    assert!(bloom.is_empty());
    assert_eq!(bloom.contained(&a), Contained::No);
}
