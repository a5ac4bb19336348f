use mai::Buffer;

#[test]
fn test_restack() {
    let mut buffer: Buffer = Buffer::new();
    buffer.extend(&[0u8, 1, 2, 3, 4, 5]);
    println!("Buffer: {:?}", buffer);
    assert_eq!(6, buffer.len());
    buffer.restack(3);
    assert_eq!(3, buffer.len());
    assert_eq!(buffer.bytes(), &[3, 4, 5]);
}

#[test]
fn test_restack_nothing_consumed() {
    let mut buffer: Buffer = Buffer::new();
    buffer.extend(&[0u8, 1, 2, 3, 4, 5]);
    println!("Buffer: {:?}", buffer);
    assert_eq!(6, buffer.len());
    buffer.restack(0);
    assert_eq!(6, buffer.len());
    assert_eq!(buffer.bytes(), &[0, 1, 2, 3, 4, 5]);
}

#[test]
fn test_restack_everything_consumed() {
    let mut buffer: Buffer = Buffer::new();
    buffer.extend(&[0u8, 1, 2, 3, 4, 5]);
    println!("Buffer: {:?}", buffer);
    assert_eq!(6, buffer.len());
    buffer.restack(6);
    assert_eq!(0, buffer.len());
    assert_eq!(buffer.bytes(), &[]);
}

#[test]
fn new_buffer_is_empty_with_default_capacity() {
    let mut buffer = Buffer::new();
    assert_eq!(buffer.len(), 0);
    assert_eq!(buffer.remaining().len(), 16 * 1024);
}

#[test]
fn with_capacity_gives_zeroed_free_space() {
    let mut buffer = Buffer::with_capacity(4);
    assert_eq!(buffer.len(), 0);
    assert_eq!(buffer.remaining(), &[0u8, 0, 0, 0]);
}

#[test]
fn push_appends_one_byte() {
    let mut buffer = Buffer::with_capacity(3);
    buffer.push(7);
    buffer.push(8);
    assert_eq!(buffer.bytes(), &[7, 8]);
    assert_eq!(buffer.remaining().len(), 1);
}

#[test]
fn extend_fills_exactly_to_capacity() {
    let mut buffer = Buffer::with_capacity(4);
    buffer.extend(&[1, 2]);
    buffer.extend(&[3, 4]);
    assert_eq!(buffer.bytes(), &[1, 2, 3, 4]);
    assert_eq!(buffer.remaining().len(), 0);
}

#[test]
fn remaining_writes_land_after_content() {
    let mut buffer = Buffer::with_capacity(5);
    buffer.extend(&[1, 2]);
    {
        let free = buffer.remaining();
        assert_eq!(free.len(), 3);
        free[0] = 9;
        free[1] = 10;
    }
    assert_eq!(buffer.bytes(), &[1, 2]);
    buffer.set_size(4);
    assert_eq!(buffer.bytes(), &[1, 2, 9, 10]);
}

#[test]
fn set_size_exposes_storage_prefix() {
    let mut buffer = Buffer::with_capacity(4);
    buffer.extend(&[5, 6, 7]);
    buffer.set_size(1);
    assert_eq!(buffer.bytes(), &[5]);
    buffer.set_size(3);
    assert_eq!(buffer.bytes(), &[5, 6, 7]);
}

#[test]
fn truncate_keeps_prefix() {
    let mut buffer = Buffer::with_capacity(8);
    buffer.extend(&[1, 2, 3, 4]);
    buffer.truncate(2);
    assert_eq!(buffer.bytes(), &[1, 2]);
    buffer.truncate(2);
    assert_eq!(buffer.bytes(), &[1, 2]);
}

#[test]
fn reset_empties_content() {
    let mut buffer = Buffer::with_capacity(8);
    buffer.extend(&[1, 2, 3]);
    buffer.reset();
    assert_eq!(buffer.len(), 0);
    assert_eq!(buffer.bytes(), &[]);
    assert_eq!(buffer.remaining().len(), 8);
}

#[test]
fn restack_then_extend_appends_after_rest() {
    let mut buffer = Buffer::with_capacity(6);
    buffer.extend(&[1, 2, 3, 4, 5, 6]);
    buffer.restack(4);
    buffer.extend(&[7, 8]);
    assert_eq!(buffer.bytes(), &[5, 6, 7, 8]);
}
