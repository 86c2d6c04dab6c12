use bolt_load::write_budget::{WriteBudget, DEFAULT_BUDGET_CAPACITY};

#[test]
fn test_budget_new() {
    let budget = WriteBudget::new();
    assert_eq!(budget.available(), DEFAULT_BUDGET_CAPACITY);
    assert_eq!(budget.capacity(), DEFAULT_BUDGET_CAPACITY);
}

#[test]
fn test_budget_with_capacity() {
    let budget = WriteBudget::with_capacity(1024);
    assert_eq!(budget.available(), 1024);
    assert_eq!(budget.capacity(), 1024);
}

#[test]
fn test_try_consume_success() {
    let mut budget = WriteBudget::with_capacity(1000);
    assert!(budget.try_consume(100));
    assert_eq!(budget.available(), 900);
}

#[test]
fn test_try_consume_failure() {
    let mut budget = WriteBudget::with_capacity(100);
    assert!(!budget.try_consume(200));
    assert_eq!(budget.available(), 100);
}

#[test]
fn test_refill() {
    let mut budget = WriteBudget::with_capacity(1000);
    budget.try_consume(300);
    assert_eq!(budget.available(), 700);

    budget.refill(300);
    assert_eq!(budget.available(), 1000);
}

#[test]
fn test_refill_caps_at_capacity() {
    let mut budget = WriteBudget::with_capacity(1000);
    budget.refill(500); // Already at 1000, so this should be capped
    assert_eq!(budget.available(), 1000);
}

#[test]
fn write_budget_test_acquire_immediate() {
    let mut budget = WriteBudget::with_capacity(1000);
    assert!(budget.try_consume(100));
    assert_eq!(budget.available(), 900);

    // Manually refill
    budget.refill(100);
    assert_eq!(budget.available(), 1000);
}

#[test]
fn test_acquire_waits_for_budget() {
    let mut budget = WriteBudget::with_capacity(100);

    // Consume all budget
    assert!(budget.try_consume(100));
    assert_eq!(budget.available(), 0);

    // A second taker gets nothing yet
    assert!(!budget.try_consume(50));

    // Refilling tells the waiting taker, who is then served
    assert!(budget.refill(100));
    assert!(budget.try_consume(50));
}

#[test]
fn test_concurrent_acquisitions() {
    let mut budget = WriteBudget::with_capacity(1000);

    for _ in 0..10 {
        assert!(budget.try_consume(100));
    }
    assert_eq!(budget.available(), 0);
    for _ in 0..10 {
        budget.refill(100);
    }

    // Budget should be fully refilled after all of them are done
    assert_eq!(budget.available(), 1000);
}

#[test]
fn test_debug_format() {
    let budget = WriteBudget::with_capacity(2048);
    let debug_str = format!("{:?}", budget);
    assert!(debug_str.contains("WriteBudget"));
    assert!(debug_str.contains("available"));
    assert!(debug_str.contains("capacity"));
}
