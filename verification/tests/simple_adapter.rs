use bolt_load::adapter::{AdapterError, UnretryableError};
use bolt_load::simple_adapter::{
    calculate_blake3, create_deterministic_content, SimpleTestAdapter, SimpleTestAdapterBuilder,
    SpeedLimit,
};
use bytes::Bytes;

fn collect(stream: Vec<Bytes>) -> Vec<u8> {
    let mut data = Vec::new();
    for piece in stream {
        data.extend_from_slice(&piece);
    }
    data
}

#[test]
fn test_simple_test_adapter_basic_functionality() {
    let size = 1024;
    let adapter = SimpleTestAdapter::new(size);

    // Test basic properties
    assert_eq!(adapter.content.len(), size);
    assert_eq!(adapter.call_count(), 0);

    // Test expected hash is calculated correctly
    let expected_hash = calculate_blake3(&adapter.content);
    assert_eq!(adapter.expected_hash(), &expected_hash);

    // Test that content is deterministic
    let adapter2 = SimpleTestAdapter::new(size);
    assert_eq!(adapter.content, adapter2.content);
    assert_eq!(adapter.expected_hash(), adapter2.expected_hash());
}

#[test]
fn test_retrieve_meta_success() {
    let size = 2048;
    let mut adapter = SimpleTestAdapter::new(size).with_filename("custom_test.bin".to_string());

    let meta = adapter.retrieve_meta().unwrap();

    assert_eq!(meta.content_size, size as u64);
    assert_eq!(meta.filename, Some("custom_test.bin".to_string()));
    assert_eq!(adapter.call_count(), 1);
}

#[test]
fn test_retrieve_meta_failure() {
    let mut adapter = SimpleTestAdapter::new(1024).with_failure(true);

    let result = adapter.retrieve_meta();
    assert!(result.is_err());

    match result.unwrap_err() {
        UnretryableError::Internal { message } => {
            assert_eq!(message, "Simulated meta retrieval failure");
        }
        _ => panic!("Expected Internal error"),
    }

    assert_eq!(adapter.call_count(), 1);
}

#[test]
fn simple_test_is_range_stream_available() {
    // Test range support enabled
    let mut adapter_with_range = SimpleTestAdapter::new(1024).with_range_support(true);
    assert!(adapter_with_range.is_range_stream_available());
    assert_eq!(adapter_with_range.call_count(), 1);

    // Test range support disabled
    let mut adapter_without_range = SimpleTestAdapter::new(1024).with_range_support(false);
    assert!(!adapter_without_range.is_range_stream_available());
    assert_eq!(adapter_without_range.call_count(), 1);
}

#[test]
fn test_full_stream_success_with_hash_verification() {
    let size = 4096;
    let mut adapter = SimpleTestAdapter::new(size);
    let expected_hash = adapter.expected_hash().to_string();

    let stream = adapter.full_stream().unwrap();
    assert_eq!(adapter.call_count(), 1);

    // Collect all data from stream
    let downloaded_data = collect(stream);

    // Verify downloaded data
    assert_eq!(downloaded_data.len(), size);
    assert_eq!(downloaded_data, *adapter.content);

    // Verify hash
    let actual_hash = calculate_blake3(&downloaded_data);
    assert_eq!(actual_hash, expected_hash);
}

#[test]
fn test_full_stream_failure() {
    let mut adapter = SimpleTestAdapter::new(1024).with_failure(true);

    let result = adapter.full_stream();
    assert!(result.is_err());

    match result.err().unwrap() {
        AdapterError::Unretryable { source: UnretryableError::Internal { message } } => {
            assert_eq!(message, "Simulated stream failure");
        }
        _ => panic!("Expected Unretryable Internal error"),
    }

    assert_eq!(adapter.call_count(), 1);
}

#[test]
fn test_range_stream_success_with_hash_verification() {
    let size = 8192;
    let mut adapter = SimpleTestAdapter::new(size).with_range_support(true);

    let start = 1000u64;
    let end = 3000u64;
    let expected_range_data = adapter.content[start as usize..end as usize].to_vec();

    let stream = adapter.range_stream(start, end).unwrap();
    assert_eq!(adapter.call_count(), 1);

    // Collect all data from stream
    let downloaded_data = collect(stream);

    // Verify range data
    assert_eq!(downloaded_data.len(), (end - start) as usize);
    assert_eq!(downloaded_data, expected_range_data);

    // Verify hash of range data
    let expected_range_hash = calculate_blake3(&expected_range_data);
    let actual_hash = calculate_blake3(&downloaded_data);
    assert_eq!(actual_hash, expected_range_hash);
}

#[test]
fn test_range_stream_not_supported() {
    let mut adapter = SimpleTestAdapter::new(1024).with_range_support(false);

    let result = adapter.range_stream(0, 500);
    assert!(result.is_err());

    match result.err().unwrap() {
        AdapterError::Unretryable { source: UnretryableError::Internal { message } } => {
            assert_eq!(message, "Range requests not supported");
        }
        _ => panic!("Expected Unretryable Internal error"),
    }

    assert_eq!(adapter.call_count(), 1);
}

#[test]
fn test_range_stream_edge_cases() {
    let size = 1000;
    let mut adapter = SimpleTestAdapter::new(size).with_range_support(true);

    // Test range that exceeds content size
    let start = 800u64;
    let end = 1500u64; // Beyond content size
    let expected_data = adapter.content[start as usize..].to_vec();

    let stream = adapter.range_stream(start, end).unwrap();
    assert_eq!(collect(stream), expected_data);

    // Test zero-length range
    let stream = adapter.range_stream(500, 500).unwrap();
    assert!(stream.is_empty()); // Should be empty

    assert_eq!(adapter.call_count(), 2);
}

#[test]
fn test_large_adapter() {
    let mut adapter = SimpleTestAdapterBuilder::large_with_range_support().build().unwrap();
    let expected_size = 100 * 1024 * 1024; // 100MB

    assert_eq!(adapter.content.len(), expected_size);

    // Test meta retrieval
    let meta = adapter.retrieve_meta().unwrap();
    assert_eq!(meta.content_size, expected_size as u64);

    // Test a small range to avoid excessive memory usage in tests
    let start = 50 * 1024 * 1024u64; // 50MB
    let end = start + 1024; // 1KB range
    let expected_data = adapter.content[start as usize..end as usize].to_vec();

    let stream = adapter.range_stream(start, end).unwrap();
    let downloaded_data = collect(stream);

    assert_eq!(downloaded_data, expected_data);
    let expected_hash = calculate_blake3(&expected_data);
    let actual_hash = calculate_blake3(&downloaded_data);
    assert_eq!(actual_hash, expected_hash);
}

#[test]
fn test_call_count_tracking() {
    let mut adapter = SimpleTestAdapter::new(1024);

    assert_eq!(adapter.call_count(), 0);

    // Each method call should increment call count
    let _ = adapter.is_range_stream_available();
    assert_eq!(adapter.call_count(), 1);

    let _ = adapter.retrieve_meta();
    assert_eq!(adapter.call_count(), 2);

    let _ = adapter.full_stream();
    assert_eq!(adapter.call_count(), 3);

    let _ = adapter.range_stream(0, 100);
    assert_eq!(adapter.call_count(), 4);

    // A clone may start to count anew
    assert_eq!(adapter.clone_reset_count().call_count(), 0);
}

#[test]
fn test_configuration_chain() {
    let mut adapter = SimpleTestAdapter::new(2048)
        .with_range_support(false)
        .with_failure(true)
        .with_filename("chained_config.bin".to_string());

    // Test configured values
    assert!(!adapter.is_range_stream_available());
    assert!(adapter.retrieve_meta().is_err());

    // Test that range requests fail due to disabled support
    let range_result = adapter.range_stream(0, 100);
    assert!(range_result.is_err());
}

#[test]
fn test_deterministic_content_generation() {
    // Test that content generation is truly deterministic
    let content1 = create_deterministic_content(1000);
    let content2 = create_deterministic_content(1000);
    assert_eq!(content1, content2);

    // Test different sizes produce different total content
    let content_small = create_deterministic_content(100);
    let content_large = create_deterministic_content(200);
    assert_ne!(content_small.len(), content_large.len());
    // The first 100 bytes should be the same since it's deterministic
    assert_eq!(content_small, content_large[..100]);

    // Test hash calculation consistency
    let hash1 = calculate_blake3(&content1);
    let hash2 = calculate_blake3(&content2);
    assert_eq!(hash1, hash2);
}

#[test]
fn the_content_counts_in_little_endian_words() {
    let content = create_deterministic_content(19);
    assert_eq!(content, vec![0, 0, 0, 0, 0, 0, 0, 0, 1, 0, 0, 0, 0, 0, 0, 0, 2, 0, 0]);
    let longer = create_deterministic_content(8 * 258);
    assert_eq!(longer[8 * 257..], [1, 1, 0, 0, 0, 0, 0, 0]);
}

#[test]
fn the_digest_of_nothing_is_known() {
    assert_eq!(
        calculate_blake3(b""),
        "af1349b9f5f9a1a6a0404dea36dcc9499bcb25c9adc112b7cc9a93cae41f3262"
    );
    assert_eq!(calculate_blake3(b"").len(), 64);
}

#[test]
fn test_chunk_size_behavior() {
    let mut adapter = SimpleTestAdapter::new(10000); // 10KB content
    let stream = adapter.full_stream().unwrap();

    let mut chunk_count = 0;
    let mut total_size = 0;

    for chunk in stream {
        chunk_count += 1;
        total_size += chunk.len();

        // Each chunk should be at most the configured chunk size (8KB by default)
        assert!(chunk.len() <= 8192);
    }

    assert_eq!(total_size, 10000);
    // With 10KB content and 8KB chunks, we should have 2 chunks (8KB + 2KB)
    assert_eq!(chunk_count, 2);
}

#[test]
fn test_concurrent_access() {
    let mut adapter = SimpleTestAdapter::new(1024).with_range_support(true);

    for i in 0..5usize {
        let start = i * 100;
        let end = start + 100;
        let data = collect(adapter.range_stream(start as u64, end as u64).unwrap());
        assert_eq!(data, &adapter.content[start..end]);
    }

    // Call count should reflect all the range_stream calls
    assert_eq!(adapter.call_count(), 5);
}

#[test]
fn a_builder_needs_a_content_size() {
    let error = SimpleTestAdapterBuilder::new().build().unwrap_err();
    assert!(!error.message().is_empty());
}

#[test]
fn a_limited_builder_limits_its_streams() {
    let adapter = SimpleTestAdapterBuilder::new()
        .content_size(200 * 1024)
        .chunk_size(8192)
        .max_speed(80 * 1024)
        .max_per_stream_speed(50 * 1024)
        .build()
        .unwrap();
    let whole: SpeedLimit = adapter.rate_limit.unwrap();
    assert_eq!(whole.per_second, 80 * 1024);
    let one: SpeedLimit = adapter.stream_limit().unwrap();
    assert_eq!(one.per_second, 50 * 1024);

    let free = SimpleTestAdapterBuilder::new().content_size(100).build().unwrap();
    assert!(free.rate_limit.is_none());
    assert!(free.stream_limit().is_none());
}
