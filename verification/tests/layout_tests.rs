use worker_lib::layout::{check_layout, payload, LayoutHeader, LAYOUT_SIZE, MAGIC, VERSION};

fn header(magic: u32, version: u32, channel_size: u64) -> LayoutHeader {
    LayoutHeader { magic, version, channel_size }
}

#[test]
fn verify_needs_magic_and_version() {
    assert!(header(MAGIC, VERSION, 0).verify());
    assert!(!header(MAGIC, 2, 0).verify());
    assert!(!header(0, VERSION, 0).verify());
}

#[test]
fn check_layout_accepts_known_layout() {
    match check_layout(header(MAGIC, VERSION, 4096)) {
        Ok(h) => {
            assert!(h.verify());
            assert_eq!(h.channel_size, 4096);
        }
        Err(_) => panic!("layout refused"),
    }
}

#[test]
fn check_layout_refuses_wrong_magic() {
    match check_layout(header(0, 1, 4096)) {
        Ok(_) => panic!("layout accepted"),
        Err(e) => {
            assert_eq!(e.magic, 0);
            assert_eq!(e.version, 1);
            assert_eq!(
                e.message(),
                "Unsupported layout: magic = 0x000000, version = 0x000001"
            );
        }
    }
}

#[test]
fn check_layout_refuses_wrong_version() {
    match check_layout(header(MAGIC, 2, 4096)) {
        Ok(_) => panic!("layout accepted"),
        Err(e) => {
            assert_eq!(e.magic, MAGIC);
            assert_eq!(e.version, 2);
            assert_eq!(
                e.message(),
                "Unsupported layout: magic = 0x95abe799, version = 0x000002"
            );
        }
    }
}

#[test]
fn message_pads_to_six_hex_digits_only() {
    match check_layout(header(0x1234567, 0xabc, 0)) {
        Ok(_) => panic!("layout accepted"),
        Err(e) => assert_eq!(
            e.message(),
            "Unsupported layout: magic = 0x1234567, version = 0x000abc"
        ),
    }
}

#[test]
fn header_words_in_native_order() {
    // The header as the host writes it: native-order words.
    let mut bytes = vec![0u8; LAYOUT_SIZE];
    bytes[0..4].copy_from_slice(&MAGIC.to_ne_bytes());
    bytes[4..8].copy_from_slice(&VERSION.to_ne_bytes());
    let h = header(
        u32::from_ne_bytes(bytes[0..4].try_into().unwrap()),
        u32::from_ne_bytes(bytes[4..8].try_into().unwrap()),
        0,
    );
    assert!(check_layout(h).is_ok());
}

#[test]
fn payload_is_what_follows_the_header() {
    let mut bytes = vec![0u8; LAYOUT_SIZE];
    bytes.extend_from_slice(&[0, 1, 2, 3, 4]);
    assert_eq!(payload(&bytes), &[0u8, 1, 2, 3, 4]);
    assert_eq!(payload(&bytes[..LAYOUT_SIZE]).len(), 0);
}
