use multistorageclient::error::StorageError;
use multistorageclient::reassembly::{replay, write_at, write_offset, Arrival};
use multistorageclient::transfer::split;

fn source() -> Vec<u8> {
    (0..23u32).map(|i| (i * 11 % 256) as u8).collect()
}

fn arrivals_in(order: &[usize], chunk_size: usize) -> Vec<Arrival> {
    let parts = split(&source(), chunk_size);
    order.iter().map(|&i| Ok((i as u64, parts[i].clone()))).collect()
}

#[test]
fn write_offset_is_index_times_chunk_size() {
    assert_eq!(write_offset(0, 5), Some(0));
    assert_eq!(write_offset(3, 5), Some(15));
    assert_eq!(write_offset(u64::MAX, 1), Some(u64::MAX));
    assert_eq!(write_offset(u64::MAX, 2), None);
    assert_eq!(write_offset(1 << 32, 1 << 32), None);
}

#[test]
fn write_at_overwrites_in_place() {
    let mut image = vec![9u8; 6];
    write_at(&mut image, 2, &vec![1u8, 2, 3]);
    assert_eq!(image, vec![9u8, 9, 1, 2, 3, 9]);
}

#[test]
fn write_at_extends_the_image_with_zeros() {
    let mut image = vec![9u8; 2];
    write_at(&mut image, 4, &vec![1u8, 2]);
    assert_eq!(image, vec![9u8, 9, 0, 0, 1, 2]);
}

#[test]
fn write_at_of_nothing_changes_nothing() {
    let mut image = vec![9u8; 2];
    write_at(&mut image, 7, &Vec::new());
    assert_eq!(image, vec![9u8, 9]);
}

#[test]
fn out_of_order_arrival_gives_the_same_file() {
    let chunk_size = 5usize;
    let mut in_order = vec![0u8; source().len()];
    assert!(replay(&mut in_order, chunk_size as u64, arrivals_in(&[0, 1, 2, 3, 4], chunk_size)).is_ok());

    let mut chunk_three_first = vec![0u8; source().len()];
    assert!(replay(
        &mut chunk_three_first,
        chunk_size as u64,
        arrivals_in(&[3, 0, 4, 2, 1], chunk_size)
    )
    .is_ok());

    assert_eq!(in_order, source());
    assert_eq!(chunk_three_first, in_order);
}

#[test]
fn a_chunk_that_arrives_twice_does_no_harm() {
    let chunk_size = 4usize;
    let mut image = vec![0xffu8; source().len()];
    assert!(replay(
        &mut image,
        chunk_size as u64,
        arrivals_in(&[5, 2, 2, 0, 1, 4, 3, 5], chunk_size)
    )
    .is_ok());
    assert_eq!(image, source());
}

#[test]
fn the_first_failure_stops_the_writer() {
    let chunk_size = 5usize;
    let parts = split(&source(), chunk_size);
    let arrivals: Vec<Arrival> = vec![
        Ok((1, parts[1].clone())),
        Err(StorageError::NotFound("first".to_string())),
        Ok((0, parts[0].clone())),
        Err(StorageError::IoError("second".to_string())),
    ];
    let mut image = vec![0u8; source().len()];
    match replay(&mut image, chunk_size as u64, arrivals) {
        Err(StorageError::NotFound(m)) => assert_eq!(m, "first"),
        _ => panic!("expected the first failure"),
    }
    // Only the chunk that came before the failure was written.
    assert_eq!(&image[5..10], &source()[5..10]);
    assert_eq!(&image[0..5], &[0u8; 5]);
}

#[test]
fn no_arrival_leaves_the_image_as_it_is() {
    let mut image = vec![7u8; 3];
    assert!(replay(&mut image, 4, Vec::new()).is_ok());
    assert_eq!(image, vec![7u8; 3]);
}
