use flow_rt::graphs::instructions::InMemoryGraphImageBuilder;

#[test]
fn test_create_headers_for_binary() {
    let img = InMemoryGraphImageBuilder::new()
        .add_library("nmap")
        .add_library("some_other_lib")
        .add_library("another_lib")
        .add_library("yet_another_lib")
        .to_binary();

    println!("{img:0x?}");
}

#[test]
fn image_header_has_magic_count_and_terminated_names() {
    let img = InMemoryGraphImageBuilder::new().add_library("nmap").add_library("ab").to_binary();
    let mut expected: Vec<u8> = b"GRAPHIL".to_vec();
    expected.extend_from_slice(&[2, 0, 0, 0]);
    expected.extend_from_slice(b"nmap\0ab\0");
    assert_eq!(img, expected);
}

#[test]
fn image_header_of_empty_builder() {
    let img = InMemoryGraphImageBuilder::new().to_binary();
    assert_eq!(img, vec![0x47, 0x52, 0x41, 0x50, 0x48, 0x49, 0x4c, 0, 0, 0, 0]);
}
