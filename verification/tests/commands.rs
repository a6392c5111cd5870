use linuxftools::commands::{Fadvise, Fallocate};
use linuxftools::error::Error;
use linuxftools::filesystem::{Advise, AdviseRequest, AllocateRequest, Platform};

#[test]
fn fadvise_without_a_range_covers_the_file() {
    let command = Fadvise {
        file_name: String::from("data.bin"),
        advise: Advise::DontNeed,
        offset: None,
        length: None,
    };
    assert_eq!(
        command.run(Platform::Linux, 123_456),
        Ok(AdviseRequest { advise: Advise::DontNeed, offset: 0, len: 123_456 })
    );
}

#[test]
fn fadvise_with_a_range_keeps_it() {
    let command = Fadvise {
        file_name: String::from("data.bin"),
        advise: Advise::Sequential,
        offset: Some(4096),
        length: Some(100),
    };
    assert_eq!(
        command.run(Platform::Linux, 123_456),
        Ok(AdviseRequest { advise: Advise::Sequential, offset: 4096, len: 100 })
    );
}

#[test]
fn fadvise_is_unsupported_elsewhere() {
    let command = Fadvise {
        file_name: String::from("data.bin"),
        advise: Advise::Normal,
        offset: None,
        length: None,
    };
    assert_eq!(command.run(Platform::Other, 10), Err(Error::Unsupported));
}

#[test]
fn fallocate_reserves_from_the_start_and_keeps_the_size() {
    let command = Fallocate { file_name: String::from("data.bin"), length: 8192 };
    assert_eq!(
        command.run(Platform::Linux),
        Ok(AllocateRequest { keep_size: true, offset: 0, len: 8192 })
    );
    assert_eq!(command.run(Platform::Other), Err(Error::Unsupported));
}

#[test]
fn fadvise_range_is_known_before_the_platform_is_asked() {
    let whole = Fadvise {
        file_name: String::from("data.bin"),
        advise: Advise::Random,
        offset: None,
        length: None,
    };
    assert_eq!(whole.range(123_456), (0, 123_456));
    let part = Fadvise {
        file_name: String::from("data.bin"),
        advise: Advise::Random,
        offset: Some(512),
        length: Some(1024),
    };
    assert_eq!(part.range(123_456), (512, 1024));
    let tail = Fadvise {
        file_name: String::from("data.bin"),
        advise: Advise::Random,
        offset: Some(512),
        length: None,
    };
    assert_eq!(tail.range(123_456), (512, 123_456));
}
