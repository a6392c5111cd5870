use linuxftools::error::{Error, Operation};
use linuxftools::mmap::{MapRequest, Mmap, Protection, Sharing};

#[test]
fn request_at_page_start_is_mapped_as_it_is() {
    let request = Mmap::request(8192, 100, 4096).unwrap();
    assert_eq!(request.aligned_offset(), 8192);
    assert_eq!(request.aligned_length(), 100);
}

#[test]
fn request_inside_a_page_is_widened_to_the_page_start() {
    let request = Mmap::request(5000, 100, 4096).unwrap();
    assert_eq!(request.aligned_offset(), 4096);
    assert_eq!(request.aligned_length(), 100 + 904);
}

#[test]
fn residency_mapping_has_no_access_and_is_shared() {
    let request = Mmap::request(0, 1, 4096).unwrap();
    assert_eq!(request.protection(), Protection::NoAccess);
    assert_eq!(request.sharing(), Sharing::Shared);
}

#[test]
fn request_keeps_the_access_and_sharing_it_was_made_with() {
    let request = MapRequest::new(10, Protection::ReadWrite, Sharing::Private, 0, 4096).unwrap();
    assert_eq!(request.protection(), Protection::ReadWrite);
    assert_eq!(request.sharing(), Sharing::Private);
    assert_eq!(request.aligned_length(), 10);
}

#[test]
fn empty_range_at_page_start_is_refused() {
    assert_eq!(Mmap::request(0, 0, 4096).err(), Some(Error::InvalidArgument));
    assert_eq!(Mmap::request(8192, 0, 4096).err(), Some(Error::InvalidArgument));
}

#[test]
fn empty_range_inside_a_page_still_maps_the_front_of_the_page() {
    let request = Mmap::request(4097, 0, 4096).unwrap();
    assert_eq!(request.aligned_offset(), 4096);
    assert_eq!(request.aligned_length(), 1);
}

#[test]
fn region_begins_where_the_request_began() {
    let request = Mmap::request(5000, 100, 4096).unwrap();
    let region = Mmap::map(&request, Ok(0x7000_0000)).unwrap();
    assert_eq!(region.as_ptr(), 0x7000_0000 + 904);
    assert_eq!(region.len(), 100);
    assert!(!region.is_empty());
}

#[test]
fn release_covers_exactly_what_was_mapped() {
    let request = Mmap::request(5000, 100, 4096).unwrap();
    let region = Mmap::map(&request, Ok(0x7000_0000)).unwrap();
    assert_eq!(region.unmap(), (0x7000_0000, 1004));
    let request = Mmap::request(0, 12288, 4096).unwrap();
    let region = Mmap::map(&request, Ok(0x1000)).unwrap();
    assert_eq!(region.unmap(), (0x1000, 12288));
}

#[test]
fn region_of_an_empty_range_is_empty() {
    let request = Mmap::request(4097, 0, 4096).unwrap();
    let region = Mmap::map(&request, Ok(0x2000)).unwrap();
    assert!(region.is_empty());
    assert_eq!(region.len(), 0);
    assert_eq!(region.as_ptr(), 0x2001);
}

#[test]
fn refused_mapping_carries_the_error_number() {
    let request = Mmap::request(0, 100, 4096).unwrap();
    let error = Mmap::map(&request, Err(12)).err();
    assert_eq!(error, Some(Error::OsError { operation: Operation::Mmap, code: 12 }));
}
