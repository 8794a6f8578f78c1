use program_deployer::chunks::{chunk_payload, Chunk, ChunkPlan, PlanError};

fn sample_image(len: usize) -> Vec<u8> {
    (0..len).map(|i| (i * 31 % 251) as u8).collect()
}

#[test]
fn ten_kib_image_in_chunks_of_900_bytes() {
    let plan = ChunkPlan::new(10240, 900).unwrap();
    assert_eq!(plan.count(), 12);
    let chunks = plan.chunks();
    assert_eq!(chunks.len(), 12);
    assert_eq!(chunks[0], Chunk { offset: 0, len: 900 });
    assert_eq!(chunks[1], Chunk { offset: 900, len: 900 });
    assert_eq!(chunks[10], Chunk { offset: 9000, len: 900 });
    assert_eq!(chunks[11], Chunk { offset: 9900, len: 340 });
}

#[test]
fn empty_image_has_no_chunks() {
    let plan = ChunkPlan::new(0, 900).unwrap();
    assert_eq!(plan.count(), 0);
    assert!(plan.chunks().is_empty());
    assert_eq!(plan.chunk(0), None);
}

#[test]
fn empty_image_needs_no_chunk_size() {
    let plan = ChunkPlan::new(0, 0).unwrap();
    assert_eq!(plan.count(), 0);
}

#[test]
fn zero_chunk_size_is_refused_for_an_image_with_bytes() {
    assert_eq!(ChunkPlan::new(1, 0).unwrap_err(), PlanError::ZeroChunkSize);
}

#[test]
fn image_beyond_32_bit_offsets_is_refused() {
    let too_large = u32::MAX as usize + 1;
    assert_eq!(ChunkPlan::new(too_large, 900).unwrap_err(), PlanError::ImageTooLarge);
    assert_eq!(ChunkPlan::new(too_large, 0).unwrap_err(), PlanError::ImageTooLarge);
    assert!(ChunkPlan::new(u32::MAX as usize, 1 << 20).is_ok());
}

#[test]
fn last_chunk_is_full_when_the_length_is_a_multiple() {
    let plan = ChunkPlan::new(2700, 900).unwrap();
    assert_eq!(plan.count(), 3);
    assert_eq!(plan.chunk(2), Some(Chunk { offset: 1800, len: 900 }));
    assert_eq!(plan.chunk(3), None);
}

#[test]
fn chunk_size_larger_than_the_image_gives_one_chunk() {
    let plan = ChunkPlan::new(5, 900).unwrap();
    assert_eq!(plan.chunks(), vec![Chunk { offset: 0, len: 5 }]);
}

#[test]
fn plan_remembers_what_it_was_made_of() {
    let plan = ChunkPlan::new(10240, 900).unwrap();
    assert_eq!(plan.image_len(), 10240);
    assert_eq!(plan.chunk_size(), 900);
}

#[test]
fn payloads_in_offset_order_rebuild_the_image() {
    for (len, size) in [(10240usize, 900usize), (1, 1), (7, 3), (9, 3), (1000, 1), (5, 64)] {
        let image = sample_image(len);
        let plan = ChunkPlan::new(image.len(), size).unwrap();
        let mut rebuilt = Vec::new();
        let mut expected_offset = 0usize;
        for chunk in plan.chunks() {
            assert_eq!(chunk.offset as usize, expected_offset);
            assert!(chunk.len > 0 && chunk.len <= size);
            rebuilt.extend(chunk_payload(&image, chunk).unwrap());
            expected_offset += chunk.len;
        }
        assert_eq!(expected_offset, len);
        assert_eq!(rebuilt, image);
    }
}

#[test]
fn payload_of_a_chunk_outside_the_image_is_none() {
    let image = sample_image(10);
    assert_eq!(chunk_payload(&image, Chunk { offset: 8, len: 3 }), None);
    assert_eq!(chunk_payload(&image, Chunk { offset: 11, len: 0 }), None);
    assert_eq!(chunk_payload(&image, Chunk { offset: 10, len: 0 }), Some(vec![]));
    assert_eq!(chunk_payload(&image, Chunk { offset: 8, len: 2 }), Some(image[8..10].to_vec()));
    assert_eq!(chunk_payload(&image, Chunk { offset: 3, len: usize::MAX }), None);
}
