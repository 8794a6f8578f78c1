use program_deployer::chunks::{chunk_payload, ChunkPlan};
use program_deployer::staging::{
    program_account_size, staging_capacity, OutOfBounds, ProgramAccount, StagingBuffer,
    PROGRAM_ACCOUNT_LEN, PROGRAM_DATA_HEADER_LEN,
};

#[test]
fn capacity_is_the_header_and_the_image() {
    assert_eq!(PROGRAM_DATA_HEADER_LEN, 45);
    assert_eq!(staging_capacity(0), 45);
    assert_eq!(staging_capacity(10240), 10285);
    assert_eq!(staging_capacity(usize::MAX - 45), usize::MAX);
    assert_eq!(staging_capacity(usize::MAX - 44), usize::MAX);
    assert_eq!(staging_capacity(usize::MAX), usize::MAX);
}

#[test]
fn program_account_has_a_fixed_size() {
    assert_eq!(PROGRAM_ACCOUNT_LEN, 36);
    assert_eq!(program_account_size(), 36);
}

#[test]
fn new_buffer_is_zeroed() {
    let buffer = StagingBuffer::create(5);
    assert_eq!(buffer.len(), 5);
    assert_eq!(buffer.content(), &vec![0u8; 5]);
    assert_eq!(StagingBuffer::create(0).len(), 0);
}

#[test]
fn write_replaces_the_bytes_it_covers() {
    let mut buffer = StagingBuffer::create(6);
    assert_eq!(buffer.write(2, &vec![7, 8, 9]), Ok(()));
    assert_eq!(buffer.content(), &vec![0, 0, 7, 8, 9, 0]);
    assert_eq!(buffer.write(4, &vec![1, 2]), Ok(()));
    assert_eq!(buffer.content(), &vec![0, 0, 7, 8, 1, 2]);
    assert_eq!(buffer.write(6, &vec![]), Ok(()));
    assert_eq!(buffer.content(), &vec![0, 0, 7, 8, 1, 2]);
}

#[test]
fn write_outside_the_buffer_changes_nothing() {
    let mut buffer = StagingBuffer::create(4);
    buffer.write(0, &vec![1, 2, 3, 4]).unwrap();
    assert_eq!(buffer.write(2, &vec![9, 9, 9]), Err(OutOfBounds { end: 5, len: 4 }));
    assert_eq!(buffer.write(5, &vec![]), Err(OutOfBounds { end: 5, len: 4 }));
    assert_eq!(buffer.write(u32::MAX, &vec![1]), Err(OutOfBounds { end: u32::MAX as usize + 1, len: 4 }));
    assert_eq!(buffer.content(), &vec![1, 2, 3, 4]);
}

#[test]
fn same_write_again_leaves_the_buffer_unchanged() {
    let mut buffer = StagingBuffer::create(8);
    buffer.write(0, &vec![5; 8]).unwrap();
    buffer.write(3, &vec![1, 2, 3]).unwrap();
    let once = buffer.content().clone();
    buffer.write(3, &vec![1, 2, 3]).unwrap();
    assert_eq!(buffer.content(), &once);
    assert_eq!(once, vec![5, 5, 5, 1, 2, 3, 5, 5]);
}

#[test]
fn writes_to_separate_ranges_land_in_any_order() {
    let mut forward = StagingBuffer::create(6);
    forward.write(0, &vec![1, 2]).unwrap();
    forward.write(4, &vec![3, 4]).unwrap();
    let mut backward = StagingBuffer::create(6);
    backward.write(4, &vec![3, 4]).unwrap();
    backward.write(0, &vec![1, 2]).unwrap();
    assert_eq!(forward, backward);
}

#[test]
fn all_planned_writes_stage_the_image() {
    let image: Vec<u8> = (0..1000u32).map(|i| (i * 7 % 256) as u8).collect();
    let plan = ChunkPlan::new(image.len(), 64).unwrap();
    let mut buffer = StagingBuffer::create(image.len());
    for chunk in plan.chunks() {
        buffer.write(chunk.offset, &chunk_payload(&image, chunk).unwrap()).unwrap();
    }
    assert_eq!(buffer.content(), &image);
}

#[test]
fn promoted_buffer_becomes_an_executable_account() {
    let mut buffer = StagingBuffer::create(3);
    buffer.write(0, &vec![1, 2, 3]).unwrap();
    let account = ProgramAccount::promote(buffer);
    assert!(account.executable());
    assert_eq!(account.content_len(), 3);
    assert_eq!(account.content(), &vec![1, 2, 3]);
}
