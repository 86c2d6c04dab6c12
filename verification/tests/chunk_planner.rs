use bolt_load::chunk_state::{ChunkState, ChunkStatus};
use bolt_load::planner::{ChunkPlanner, Error, DEFAULT_MIN_CHUNK_SIZE};
use bolt_load::range_set::{convert_generic_range_to_std_range, merge_adjacent_ranges};
use ranges::GenericRange;
use std::num::NonZeroUsize;

// === Basic functionality tests ===

#[test]
fn test_chunk_planner_creation() {
    let planner = ChunkPlanner::new(1000);
    assert_eq!(planner.total, 1000);
    assert_eq!(planner.min_chunk_size, DEFAULT_MIN_CHUNK_SIZE);
    assert_eq!(planner.max_chunk_count, None);
    assert_eq!(planner.get_chunks_count(), 0);
    assert_eq!(planner.get_active_runners_count(), 0);
    assert_eq!(planner.get_total_downloaded(), 0);
    assert!(!planner.is_complete());
}

#[test]
fn test_chunk_state_creation() {
    let state = ChunkState::from_runner_id(100..500, Some(1));
    assert_eq!(state.allocated, 100..500);
    assert_eq!(state.downloaded, 100..100);
    assert_eq!(state.runner_id, Some(1));
    assert_eq!(state.status, ChunkStatus::Running);
    assert_eq!(state.remaining(), 400);
    assert_eq!(state.incomplete_range(), 100..500);
    assert!(!state.is_complete());

    let state_idle = ChunkState::from_runner_id(0..100, None);
    assert_eq!(state_idle.status, ChunkStatus::Idle);
    assert_eq!(state_idle.runner_id, None);
}

#[test]
fn chunk_planner_test_basic_allocation() {
    let mut planner = ChunkPlanner::new(1000);

    // Normal allocation (creates Pending state)
    assert!(planner.allocate_chunk(0..300, Some(1)));
    assert_eq!(planner.get_chunks_count(), 1);
    assert_eq!(planner.get_active_runners_count(), 1);

    // Transition to running
    assert!(planner.mark_running(1).is_ok());

    // Allocate to idle state
    assert!(planner.allocate_chunk(300..600, None));
    assert_eq!(planner.get_chunks_count(), 2);
    assert_eq!(planner.get_active_runners_count(), 1);

    // Check state
    let state = planner.get_runner_state(1).unwrap();
    assert_eq!(state.allocated, 0..300);
    assert_eq!(state.status, ChunkStatus::Running);
}

#[test]
fn test_unified_progress_tracking() {
    let mut planner = ChunkPlanner::new(1000);

    // Allocate chunk with runner and mark as running
    assert!(planner.allocate_chunk(0..500, Some(1)));
    assert!(planner.mark_running(1).is_ok());

    // Update progress
    assert!(planner.update_progress(1, 100).is_ok());
    assert!(planner.update_progress(1, 150).is_ok());

    // Check state
    let state = planner.get_runner_state(1).unwrap();
    assert_eq!(state.downloaded, 0..250);
    assert_eq!(state.remaining(), 250);

    // Check total downloaded
    assert_eq!(planner.get_total_downloaded(), 250);
}

#[test]
fn test_chunk_splitting() {
    let mut planner = ChunkPlanner::new(1000);

    // Allocate and mark as running
    assert!(planner.allocate_chunk(0..600, Some(1)));
    assert!(planner.mark_running(1).is_ok());

    // Partially download
    assert!(planner.update_progress(1, 200).is_ok());

    // Split the chunk
    let new_range = planner.split_chunk(1, 400, 2).unwrap();
    assert_eq!(new_range, 400..600);

    // Verify both chunks exist
    assert_eq!(planner.get_chunks_count(), 2);

    let chunk1 = planner.get_runner_state(1).unwrap();
    assert_eq!(chunk1.allocated, 0..400);
    assert_eq!(chunk1.downloaded, 0..200);

    let chunk2 = planner.get_runner_state(2).unwrap();
    assert_eq!(chunk2.allocated, 400..600);
    assert_eq!(chunk2.downloaded, 400..400);
}

#[test]
fn test_failure_handling() {
    let mut planner = ChunkPlanner::new(1000);

    // Allocate, mark as running and partially download
    assert!(planner.allocate_chunk(100..500, Some(1)));
    assert!(planner.mark_running(1).is_ok());
    assert!(planner.update_progress(1, 150).is_ok());

    // Mark as failed
    let unfinished = planner.mark_failed(1).unwrap();
    assert_eq!(unfinished, 250..500);

    // The downloaded portion should be kept
    let downloaded_ranges = planner.get_downloaded_ranges();
    assert_eq!(downloaded_ranges, vec![100..250]);

    // The unfinished portion should be available
    let available = planner.get_available_ranges();

    // Check if there's a range containing 250..500
    let contains_unfinished = available.iter().any(|r| r.start <= 250 && r.end >= 500);
    assert!(
        contains_unfinished,
        "Expected range 250..500 to be available in {available:?}"
    );
}

#[test]
fn test_completion_detection() {
    let mut planner = ChunkPlanner::new(100);

    // Allocate all space
    assert!(planner.allocate_chunk(0..50, Some(1)));
    assert!(planner.allocate_chunk(50..100, Some(2)));

    assert!(!planner.is_complete());

    // Complete first chunk
    assert!(planner.update_progress(1, 50).is_ok());
    assert!(planner.mark_finished(1).is_ok());

    assert!(!planner.is_complete());

    // Complete second chunk
    assert!(planner.update_progress(2, 50).is_ok());
    assert!(planner.mark_finished(2).is_ok());

    assert!(planner.is_complete());
}

// === Edge case tests ===

#[test]
fn test_empty_file() {
    let planner = ChunkPlanner::new(0);
    assert_eq!(planner.total, 0);
    assert!(planner.get_available_ranges().is_empty());
    assert!(!planner.is_complete()); // No blocks in empty file, not considered complete
}

#[test]
fn test_single_byte_file() {
    let mut planner = ChunkPlanner::new(1);
    assert!(planner.allocate_chunk(0..1, Some(1)));
    assert!(planner.update_progress(1, 1).is_ok());
    assert!(planner.mark_finished(1).is_ok());
    assert!(planner.is_complete());
}

#[test]
#[allow(clippy::reversed_empty_ranges)]
fn test_invalid_range_allocation() {
    let mut planner = ChunkPlanner::new(1000);

    // Start position greater than or equal to end position
    assert!(!planner.allocate_chunk(500..500, Some(1)));
    assert!(!planner.allocate_chunk(500..400, Some(2)));

    // Exceeds total size
    assert!(!planner.allocate_chunk(900..1100, Some(3)));
    assert!(!planner.allocate_chunk(1000..1001, Some(4)));

    // Ensure no blocks were allocated
    assert_eq!(planner.get_chunks_count(), 0);
}

#[test]
fn test_overlapping_chunks() {
    let mut planner = ChunkPlanner::new(1000);

    // Allocate first chunk
    assert!(planner.allocate_chunk(100..300, Some(1)));

    // Try to allocate overlapping chunks
    assert!(!planner.allocate_chunk(200..400, Some(2))); // Overlapping
    assert!(!planner.allocate_chunk(50..150, Some(3))); // Overlapping
    assert!(!planner.allocate_chunk(100..300, Some(4))); // Completely overlapping
    assert!(!planner.allocate_chunk(150..250, Some(5))); // Contained within

    // Allocating non-overlapping chunks should succeed
    assert!(planner.allocate_chunk(0..100, Some(6)));
    assert!(planner.allocate_chunk(300..400, Some(7)));

    assert_eq!(planner.get_chunks_count(), 3);
}

#[test]
fn test_max_chunk_count_limit() {
    let mut planner = ChunkPlanner::new(1000);
    planner.max_chunk_count = Some(NonZeroUsize::new(2).unwrap().get());

    // Allocating two chunks should succeed
    assert!(planner.allocate_chunk(0..100, Some(1)));
    assert!(planner.allocate_chunk(100..200, Some(2)));

    // Third chunk should fail
    assert!(!planner.allocate_chunk(200..300, Some(3)));
    assert_eq!(planner.get_chunks_count(), 2);
}

#[test]
fn test_zero_length_ranges() {
    let mut planner = ChunkPlanner::new(1000);

    // Allocate normal chunk
    assert!(planner.allocate_chunk(100..300, Some(1)));

    // Trying to update 0 bytes should succeed but not change state
    assert!(planner.update_progress(1, 0).is_ok());
    let state = planner.get_runner_state(1).unwrap();
    assert_eq!(state.downloaded, 100..100);

    // Splitting at download position should fail
    assert!(planner.split_chunk(1, 100, 2).is_err());
}

// === Error handling tests ===

#[test]
fn test_update_progress_nonexistent_runner() {
    let mut planner = ChunkPlanner::new(1000);

    // Try to update non-existent runner
    assert!(planner.update_progress(99, 100).is_err());

    // Allocate a chunk then try to update another runner
    assert!(planner.allocate_chunk(0..100, Some(1)));
    assert!(planner.update_progress(2, 50).is_err());
}

#[test]
fn test_mark_finished_nonexistent_runner() {
    let mut planner = ChunkPlanner::new(1000);

    // Try to mark non-existent runner as finished
    assert!(matches!(
        planner.mark_finished(99),
        Err(Error::RunnerNotFound(99))
    ));

    // Allocate a chunk then try to mark another runner
    assert!(planner.allocate_chunk(0..100, Some(1)));
    assert!(matches!(
        planner.mark_finished(2),
        Err(Error::RunnerNotFound(2))
    ));
}

#[test]
fn test_mark_failed_nonexistent_runner() {
    let mut planner = ChunkPlanner::new(1000);

    // Try to mark non-existent runner as failed
    assert!(matches!(
        planner.mark_failed(99),
        Err(Error::RunnerNotFound(99))
    ));
}

#[test]
fn test_split_chunk_errors() {
    let mut planner = ChunkPlanner::new(1000);

    // Try to split non-existent chunk
    assert!(matches!(
        planner.split_chunk(99, 500, 2),
        Err(Error::RunnerNotFound(99))
    ));

    // Allocate chunk and partially download
    assert!(planner.allocate_chunk(100..500, Some(1)));
    assert!(planner.update_progress(1, 100).is_ok());

    // Invalid split positions
    assert!(matches!(
        planner.split_chunk(1, 200, 2),
        Err(Error::InvalidSplitPosition(200))
    )); // Within downloaded range
    assert!(matches!(
        planner.split_chunk(1, 150, 2),
        Err(Error::InvalidSplitPosition(150))
    )); // Within downloaded range
    assert!(matches!(
        planner.split_chunk(1, 500, 2),
        Err(Error::InvalidSplitPosition(500))
    )); // On chunk boundary
    assert!(matches!(
        planner.split_chunk(1, 600, 2),
        Err(Error::InvalidSplitPosition(600))
    )); // Beyond chunk range
}

#[test]
fn test_resize_runner_state_errors() {
    let mut planner = ChunkPlanner::new(1000);

    // Try to resize non-existent runner
    assert!(matches!(
        planner.resize_runner_state(99, 100),
        Err(Error::RunnerNotFound(99))
    ));

    // Allocate chunk and test resizing
    assert!(planner.allocate_chunk(100..500, Some(1)));
    assert!(planner.update_progress(1, 100).is_ok());

    // Resize
    assert!(planner.resize_runner_state(1, 200).is_ok());
    let state = planner.get_runner_state(1).unwrap();
    assert_eq!(state.allocated, 100..400); // 200 + 200 = 400
}

// === Complex scenario tests ===

#[test]
fn test_multiple_chunks_concurrent_operations() {
    let mut planner = ChunkPlanner::new(1000);

    // Allocate multiple chunks
    assert!(planner.allocate_chunk(0..200, Some(1)));
    assert!(planner.allocate_chunk(200..400, Some(2)));
    assert!(planner.allocate_chunk(400..600, Some(3)));

    // Update progress simultaneously
    assert!(planner.update_progress(1, 100).is_ok());
    assert!(planner.update_progress(2, 150).is_ok());
    assert!(planner.update_progress(3, 50).is_ok());

    // Check state
    assert_eq!(planner.get_total_downloaded(), 300);
    assert_eq!(planner.get_active_runners_count(), 3);

    // Mark one as finished
    assert!(planner.update_progress(1, 100).is_ok());
    assert!(planner.mark_finished(1).is_ok());

    // Mark one as failed
    let unfinished = planner.mark_failed(2).unwrap();
    assert_eq!(unfinished, 350..400);

    // Check final state
    // Failed chunk is partially retained: chunk1(finished), chunk2(failed but downloaded portion retained), chunk3(still running)
    assert_eq!(planner.get_chunks_count(), 3);
    assert_eq!(planner.get_active_runners_count(), 1); // Only runner 3 is still running

    // Check failed chunk state
    let available = planner.get_available_ranges();
    assert!(available.contains(&(350..400))); // Unfinished portion should be available
    assert!(available.contains(&(600..1000))); // Unallocated portion should be available
}

#[test]
fn test_chunk_splitting_and_reallocation() {
    let mut planner = ChunkPlanner::new(1000);

    // Allocate a large chunk
    assert!(planner.allocate_chunk(0..800, Some(1)));
    assert!(planner.update_progress(1, 200).is_ok());

    // Split chunk
    let new_range = planner.split_chunk(1, 500, 2).unwrap();
    assert_eq!(new_range, 500..800);

    // Check state after splitting
    assert_eq!(planner.get_chunks_count(), 2);

    let chunk1 = planner.get_runner_state(1).unwrap();
    assert_eq!(chunk1.allocated, 0..500);
    assert_eq!(chunk1.downloaded, 0..200);

    let chunk2 = planner.get_runner_state(2).unwrap();
    assert_eq!(chunk2.allocated, 500..800);
    assert_eq!(chunk2.downloaded, 500..500);

    // Continue downloading
    assert!(planner.update_progress(1, 300).is_ok());
    assert!(planner.update_progress(2, 100).is_ok());

    // Complete download
    assert!(planner.mark_finished(1).is_ok());
    assert!(planner.update_progress(2, 200).is_ok());
    assert!(planner.mark_finished(2).is_ok());

    // Allocate remaining space
    assert!(planner.allocate_chunk(800..1000, Some(3)));
    assert!(planner.update_progress(3, 200).is_ok());
    assert!(planner.mark_finished(3).is_ok());

    // Check completion state
    assert!(planner.is_complete());
    assert_eq!(planner.get_total_downloaded(), 1000);
}

#[test]
fn test_failure_recovery_workflow() {
    let mut planner = ChunkPlanner::new(1000);

    // Allocate multiple chunks
    assert!(planner.allocate_chunk(0..300, Some(1)));
    assert!(planner.allocate_chunk(300..600, Some(2)));
    assert!(planner.allocate_chunk(600..900, Some(3)));

    // Partial download
    assert!(planner.update_progress(1, 100).is_ok());
    assert!(planner.update_progress(2, 200).is_ok());
    assert!(planner.update_progress(3, 50).is_ok());

    // Runner 2 failed
    let unfinished = planner.mark_failed(2).unwrap();
    assert_eq!(unfinished, 500..600);

    // Check available ranges
    let available = planner.get_available_ranges();
    assert!(available.iter().any(|r| r.start <= 500 && r.end >= 600));
    assert!(available.contains(&(900..1000)));

    // Reallocate failed portion
    assert!(planner.allocate_chunk(500..600, Some(4)));
    assert!(planner.update_progress(4, 100).is_ok());
    assert!(planner.mark_finished(4).is_ok());

    // Complete remaining download
    assert!(planner.update_progress(1, 200).is_ok());
    assert!(planner.mark_finished(1).is_ok());
    assert!(planner.update_progress(3, 250).is_ok());
    assert!(planner.mark_finished(3).is_ok());

    // Allocate final space
    assert!(planner.allocate_chunk(900..1000, Some(5)));
    assert!(planner.update_progress(5, 100).is_ok());
    assert!(planner.mark_finished(5).is_ok());

    // Check completion state
    assert!(planner.is_complete());

    // Check that downloaded ranges are continuous
    let downloaded = planner.get_downloaded_ranges();
    assert_eq!(downloaded, vec![0..1000]);
}

#[test]
fn test_find_chunk_to_split() {
    let mut planner = ChunkPlanner::new(10 * 1024 * 1024); // 10MB total

    // When no chunks exist, entire file is available, should return available range
    let result = planner.find_chunk_to_split(100);
    assert!(result.is_some());
    let (runner_id, range) = result.unwrap();
    assert_eq!(runner_id, None); // Should return available range instead of runner
    assert!(range.end - range.start >= 100);

    // Allocate some chunks, leaving gaps
    let chunk_size = 3 * 1024 * 1024; // 3MB
    assert!(planner.allocate_chunk(0..chunk_size, Some(1)));
    assert!(planner.mark_running(1).is_ok());
    assert!(planner.allocate_chunk(2 * chunk_size..3 * chunk_size, Some(2)));
    assert!(planner.mark_running(2).is_ok());

    // Should return available range when available ranges exist
    let result = planner.find_chunk_to_split(100);
    assert!(result.is_some());
    let (runner_id, range) = result.unwrap();
    assert_eq!(runner_id, None);
    // Check if range is reasonable, exact match not required
    assert!(range.end - range.start >= 100);

    // Allocate all available space
    assert!(planner.allocate_chunk(chunk_size..2 * chunk_size, Some(3)));
    assert!(planner.mark_running(3).is_ok());
    assert!(planner.allocate_chunk(3 * chunk_size..10 * 1024 * 1024, Some(4)));
    assert!(planner.mark_running(4).is_ok());

    // Add small download progress, retain large space for splitting
    assert!(planner.update_progress(1, 500 * 1024).is_ok()); // 500KB
    assert!(planner.update_progress(2, 600 * 1024).is_ok()); // 600KB
    assert!(planner.update_progress(4, 700 * 1024).is_ok()); // 700KB

    // Should now find chunk with most remaining work
    let result = planner.find_chunk_to_split(DEFAULT_MIN_CHUNK_SIZE);
    assert!(result.is_some());
    let (runner_id, _) = result.unwrap();
    assert!(runner_id.is_some());

    // Test edge case: required chunk size close to minimum but insufficient remaining space
    // Complete all chunks first, so no splittable chunks remain
    assert!(
        planner
            .update_progress(1, 3 * 1024 * 1024 - 500 * 1024)
            .is_ok()
    );
    assert!(
        planner
            .update_progress(2, 3 * 1024 * 1024 - 600 * 1024)
            .is_ok()
    );
    assert!(planner.update_progress(3, 3 * 1024 * 1024).is_ok());
    assert!(
        planner
            .update_progress(4, 3 * 1024 * 1024 + 1024 * 1024 - 700 * 1024)
            .is_ok()
    );

    // Should now have no chunks large enough to split
    let result = planner.find_chunk_to_split(DEFAULT_MIN_CHUNK_SIZE);
    assert!(result.is_none());
}

#[test]
fn test_get_incomplete_states() {
    let mut planner = ChunkPlanner::new(10 * 1024 * 1024); // 10MB total size
    let large_chunk_size = 3 * 1024 * 1024; // 3MB per chunk

    // Allocate some large chunks to meet splitting conditions
    assert!(planner.allocate_chunk(0..large_chunk_size, Some(1)));
    assert!(planner.allocate_chunk(large_chunk_size..2 * large_chunk_size, Some(2)));
    assert!(planner.allocate_chunk(2 * large_chunk_size..3 * large_chunk_size, Some(3)));

    // Add some download progress, but retain sufficient remaining space for splitting
    assert!(planner.update_progress(1, 500 * 1024).is_ok()); // 500KB downloaded
    assert!(planner.update_progress(2, 1024 * 1024).is_ok()); // 1MB downloaded

    // Mark one as finished
    assert!(planner.update_progress(3, large_chunk_size).is_ok());
    assert!(planner.mark_finished(3).is_ok());

    // Get incomplete states
    let incomplete = planner.get_incomplete_states(None);
    assert_eq!(incomplete.len(), 2);

    // Check results
    let incomplete_ids: Vec<_> = incomplete.iter().map(|(id, _)| *id).collect();
    assert!(incomplete_ids.contains(&1));
    assert!(incomplete_ids.contains(&2));
    assert!(!incomplete_ids.contains(&3));
}

#[test]
fn test_try_arrange_chunk_by_length() {
    let mut planner = ChunkPlanner::new(1000);

    // Allocate some chunks, leaving gaps
    assert!(planner.allocate_chunk(0..200, Some(1)));
    assert!(planner.allocate_chunk(400..600, Some(2)));

    // Try to arrange blocks of different lengths
    assert_eq!(planner.try_arrange_chunk_by_length(150), Some(200..350));
    assert_eq!(planner.try_arrange_chunk_by_length(200), Some(200..400));

    // Check lengths that cannot be arranged within current available ranges
    assert_eq!(planner.try_arrange_chunk_by_length(250), Some(600..850));
    assert_eq!(planner.try_arrange_chunk_by_length(400), Some(600..1000));

    // Lengths that cannot be arranged (exceed maximum available range)
    assert_eq!(planner.try_arrange_chunk_by_length(500), None); // Maximum available range is 400 bytes
}

// === Helper function tests ===

#[test]
#[allow(clippy::single_range_in_vec_init)]
fn test_merge_adjacent_ranges() {
    // Empty vector
    assert_eq!(merge_adjacent_ranges(vec![]), vec![]);

    // Single range
    assert_eq!(merge_adjacent_ranges(vec![0..100]), vec![0..100]);

    // Adjacent ranges
    assert_eq!(
        merge_adjacent_ranges(vec![0..100, 100..200, 200..300]),
        vec![0..300]
    );

    // Overlapping ranges
    assert_eq!(
        merge_adjacent_ranges(vec![0..150, 100..200, 180..300]),
        vec![0..300]
    );

    // Separate ranges
    assert_eq!(
        merge_adjacent_ranges(vec![0..100, 200..300, 400..500]),
        vec![0..100, 200..300, 400..500]
    );

    // Unordered input
    assert_eq!(
        merge_adjacent_ranges(vec![200..300, 0..100, 100..200]),
        vec![0..300]
    );
}

#[test]
fn test_convert_generic_range_to_std_range() {
    let generic_range = GenericRange::from(100..500);
    let std_range = convert_generic_range_to_std_range(&generic_range);
    assert_eq!(std_range, 100..500);
}

// === Integration tests ===

#[test]
fn test_complete_download_workflow() {
    let mut planner = ChunkPlanner::new(1000);

    // Simulate complete download workflow

    // 1. Initial allocation
    assert!(planner.allocate_chunk(0..500, Some(1)));
    assert!(planner.allocate_chunk(500..1000, Some(2)));

    // 2. Partial download
    assert!(planner.update_progress(1, 200).is_ok());
    assert!(planner.update_progress(2, 100).is_ok());

    // 3. Runner 1 failed, reallocate
    let unfinished = planner.mark_failed(1).unwrap();
    assert_eq!(unfinished, 200..500);

    // Check available ranges
    let available = planner.get_available_ranges();
    assert!(available.contains(&(200..500)));

    // Reallocate failed portion
    assert!(planner.allocate_chunk(200..500, Some(3)));

    // 4. Continue downloading
    assert!(planner.update_progress(2, 400).is_ok());
    assert!(planner.update_progress(3, 300).is_ok());

    // 5. Complete download
    assert!(planner.mark_finished(2).is_ok());
    assert!(planner.mark_finished(3).is_ok());

    // 6. Verify completion state
    assert!(planner.is_complete());
    assert_eq!(planner.get_total_downloaded(), 1000);

    let downloaded = planner.get_downloaded_ranges();
    assert_eq!(downloaded, vec![0..1000]);
}

#[test]
fn test_progress_overflow_protection() {
    let mut planner = ChunkPlanner::new(1000);

    // Allocate a small chunk
    assert!(planner.allocate_chunk(0..100, Some(1)));

    // Try to download data exceeding allocated size
    assert!(planner.update_progress(1, 150).is_ok());

    // Check that download amount is limited to allocated size
    let state = planner.get_runner_state(1).unwrap();
    assert_eq!(state.downloaded, 0..100);
    assert!(state.is_complete());
}

#[test]
fn test_large_number_of_chunks() {
    let mut planner = ChunkPlanner::new(10000);

    // Allocate many small chunks
    let chunk_size = 100;
    let num_chunks = 100usize;

    for i in 0..num_chunks {
        let start = (i * chunk_size) as u64;
        let end = ((i + 1) * chunk_size) as u64;
        assert!(planner.allocate_chunk(start..end, Some(i + 1)));
    }

    assert_eq!(planner.get_chunks_count(), num_chunks);
    assert_eq!(planner.get_active_runners_count(), num_chunks);

    // Randomly update some progress
    for i in (0..num_chunks).step_by(10) {
        assert!(planner.update_progress(i + 1, 50).is_ok());
    }

    // Mark some as finished
    for i in (0..num_chunks).step_by(20) {
        assert!(planner.update_progress(i + 1, 50).is_ok());
        assert!(planner.mark_finished(i + 1).is_ok());
    }

    // Check statistics
    assert!(planner.get_total_downloaded() > 0);
    assert!(planner.get_active_runners_count() < num_chunks);
}

#[test]
fn test_pending_chunk_allocation() {
    let mut planner = ChunkPlanner::new(1000);

    // Allocate pending chunk
    assert!(planner.allocate_pending_chunk(0..300, 1));
    assert_eq!(planner.get_chunks_count(), 1);
    assert_eq!(planner.get_active_runners_count(), 1);

    // Check state is pending
    let state = planner.get_runner_state(1).unwrap();
    assert_eq!(state.allocated, 0..300);
    assert_eq!(state.status, ChunkStatus::Pending);
}

#[test]
fn test_pending_to_running_transition() {
    let mut planner = ChunkPlanner::new(1000);

    // Allocate pending chunk
    assert!(planner.allocate_pending_chunk(0..500, 1));
    let state = planner.get_runner_state(1).unwrap();
    assert_eq!(state.status, ChunkStatus::Pending);

    // Mark as running
    assert!(planner.mark_running(1).is_ok());

    // Check state is now running
    let state = planner.get_runner_state(1).unwrap();
    assert_eq!(state.status, ChunkStatus::Running);
    assert_eq!(state.allocated, 0..500);
}

#[test]
fn test_pending_chunk_failure() {
    let mut planner = ChunkPlanner::new(1000);

    // Allocate pending chunk
    assert!(planner.allocate_pending_chunk(100..500, 1));

    // Mark as failed (simulating connection failure)
    let unfinished = planner.mark_failed(1).unwrap();
    assert_eq!(unfinished, 100..500);

    // Chunk should be removed
    assert!(planner.get_runner_state(1).is_none());
    assert_eq!(planner.get_chunks_count(), 0);
}

#[test]
fn test_multiple_pending_chunks() {
    let mut planner = ChunkPlanner::new(1000);

    // Allocate multiple pending chunks
    assert!(planner.allocate_pending_chunk(0..250, 1));
    assert!(planner.allocate_pending_chunk(250..500, 2));
    assert!(planner.allocate_pending_chunk(500..750, 3));
    assert!(planner.allocate_pending_chunk(750..1000, 4));

    assert_eq!(planner.get_chunks_count(), 4);
    assert_eq!(planner.get_active_runners_count(), 4);

    // Transition some to running
    assert!(planner.mark_running(1).is_ok());
    assert!(planner.mark_running(3).is_ok());

    // Check states
    assert_eq!(
        planner.get_runner_state(1).unwrap().status,
        ChunkStatus::Running
    );
    assert_eq!(
        planner.get_runner_state(2).unwrap().status,
        ChunkStatus::Pending
    );
    assert_eq!(
        planner.get_runner_state(3).unwrap().status,
        ChunkStatus::Running
    );
    assert_eq!(
        planner.get_runner_state(4).unwrap().status,
        ChunkStatus::Pending
    );

    // Active count should still be 4 (pending is also active)
    assert_eq!(planner.get_active_runners_count(), 4);
}

#[test]
fn test_pending_then_progress_update() {
    let mut planner = ChunkPlanner::new(1000);

    // Allocate pending chunk
    assert!(planner.allocate_pending_chunk(0..500, 1));

    // Mark as running
    assert!(planner.mark_running(1).is_ok());

    // Update progress
    assert!(planner.update_progress(1, 100).is_ok());
    assert!(planner.update_progress(1, 200).is_ok());

    let state = planner.get_runner_state(1).unwrap();
    assert_eq!(state.downloaded, 0..300);
    assert_eq!(state.status, ChunkStatus::Running);
}
