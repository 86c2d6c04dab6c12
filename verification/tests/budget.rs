use bolt_load::budget::{
    try_acquire, AcquirePermit, AcquireStep, BudgetConfig, BudgetSampler, TokenGuard, FP_ONE,
};
use std::time::Duration;

fn config(initial_capacity: u64, max_capacity: u64) -> BudgetConfig {
    BudgetConfig { initial_capacity, max_capacity, ..Default::default() }
}

fn acquire(sampler: &mut BudgetSampler, amount: u64) -> TokenGuard {
    let mut permit = AcquirePermit::new(amount);
    assert_eq!(permit.attempt(sampler), AcquireStep::Acquired);
    TokenGuard::new(amount, sampler.current_nanos())
}

#[test]
fn test_budget_config_default() {
    let config = BudgetConfig::default();
    assert_eq!(config.initial_capacity, 64 * 1024 * 1024);
    assert_eq!(config.min_capacity, 64 * 1024);
    assert_eq!(config.max_capacity, 256 * 1024 * 1024);
    assert_eq!(config.ewma_alpha_fp, 13107);
    assert_eq!(config.sample_interval, Duration::from_millis(500));
}

#[test]
fn test_budget_sampler_new() {
    let sampler = BudgetSampler::with_defaults();
    assert_eq!(sampler.available_budget(), 64 * 1024 * 1024);
    assert_eq!(sampler.ewma_speed().numerator, 0);
    assert_eq!(sampler.ewma_speed().denominator, FP_ONE);
}

#[test]
fn budget_sampler_test_acquire_immediate() {
    let mut sampler = BudgetSampler::with_defaults();
    let guard = acquire(&mut sampler, 1024);
    assert_eq!(guard.amount(), 1024);
    assert_eq!(sampler.available_budget(), 64 * 1024 * 1024 - 1024);
}

#[test]
fn test_acquire_release() {
    let mut sampler = BudgetSampler::new(config(1000, 1000));

    // Acquire all budget
    let guard = acquire(&mut sampler, 1000);
    assert_eq!(sampler.available_budget(), 0);

    // Release
    guard.finish(&mut sampler);
    assert_eq!(sampler.available_budget(), 1000);
}

#[test]
fn test_acquire_blocks_when_insufficient() {
    let mut sampler = BudgetSampler::new(config(100, 100));

    // Acquire most of the budget
    let guard1 = acquire(&mut sampler, 80);
    assert_eq!(sampler.available_budget(), 20);

    // Try to acquire more than available: listen first, then wait
    let mut permit = AcquirePermit::new(50);
    assert_eq!(permit.attempt(&mut sampler), AcquireStep::Listen);
    assert_eq!(permit.attempt(&mut sampler), AcquireStep::Wait);

    // Budget should still be 20
    assert_eq!(sampler.available_budget(), 20);

    // Release first guard
    guard1.finish(&mut sampler);

    // Now the waiting permit is granted
    permit.notified();
    assert_eq!(permit.attempt(&mut sampler), AcquireStep::Acquired);
    assert_eq!(sampler.available_budget(), 50);
}

#[test]
fn a_budget_is_taken_whole_or_not_at_all() {
    let mut budget: u64 = 10;
    assert!(!try_acquire(&mut budget, 11));
    assert_eq!(budget, 10);
    assert!(try_acquire(&mut budget, 10));
    assert_eq!(budget, 0);
}

#[test]
fn an_interval_of_writes_moves_the_average() {
    let mut sampler = BudgetSampler::with_defaults();
    let start: u64 = sampler.last_sample_nanos;

    // The first sample is taken as it is: 1 MB in one second
    sampler.on_write_complete(1_000_000, start + 1_000_000_000);
    assert_eq!(sampler.bytes_written_since_sample, 0);
    assert_eq!(sampler.ewma_speed().denominator, FP_ONE);
    assert_eq!(sampler.ewma_speed().numerator, 1_000_000 * FP_ONE);

    // The next one moves the average by 13107 / 65536 of the difference
    sampler.on_write_complete(2_000_000, start + 2_000_000_000);
    assert_eq!(sampler.ewma_speed().numerator, 1_000_000 * FP_ONE + 1_000_000 * 13107);
    sampler.on_write_complete(0, start + 3_000_000_000);
    let average: u64 = 1_000_000 * FP_ONE + 1_000_000 * 13107;
    assert_eq!(sampler.ewma_speed().numerator, average - average * 13107 / FP_ONE);
}

#[test]
fn writes_within_an_interval_are_only_counted() {
    let mut sampler = BudgetSampler::with_defaults();
    let start: u64 = sampler.last_sample_nanos;
    sampler.on_write_complete(700, start + 1);
    sampler.on_write_complete(300, start + 2);
    assert_eq!(sampler.bytes_written_since_sample, 1000);
    assert_eq!(sampler.ewma_speed().numerator, 0);
}
