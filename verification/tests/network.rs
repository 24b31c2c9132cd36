use netpack::network::{
    DataFormat, EncryptionKinds, NetworkPackage, NetworkReadError, PackageFlags, StringEncoding,
    TooLargeError,
};
use netpack::version::Version;

fn sample_package(
    encrypt_extra: Vec<u8>,
    content_extra: Vec<u8>,
    data: Vec<u8>,
) -> NetworkPackage {
    NetworkPackage::new(
        Version::new(1, 0, 0),
        PackageFlags { base64: false },
        StringEncoding::UTF8,
        DataFormat::JSON,
        EncryptionKinds::Unencrypted,
        encrypt_extra,
        content_extra,
        data,
    )
    .unwrap()
}

#[test]
fn test_network_package() {}

#[test]
fn test_header_constants() {
    assert_eq!(NetworkPackage::header_size(), 9);
    assert_eq!(NetworkPackage::max_data_size(), u32::MAX - 9);
}

#[test]
fn test_concrete_vector_encode() {
    let p = sample_package(vec![], vec![], vec![0x7B, 0x7D]);
    let mut out: Vec<u8> = Vec::new();
    p.write_to_stream(&mut out);
    assert_eq!(
        out,
        vec![0x00, 0x00, 0x00, 0x0B, 0x01, 0x00, 0x00, 0x00, 0x02, 0x01, 0x00, 0x00, 0x00, 0x7B, 0x7D]
    );
}

#[test]
fn test_concrete_vector_decode() {
    let bytes =
        vec![0x00, 0x00, 0x00, 0x0B, 0x01, 0x00, 0x00, 0x00, 0x02, 0x01, 0x00, 0x00, 0x00, 0x7B, 0x7D];
    let (p, end) = NetworkPackage::read_from_stream(&bytes, 0).unwrap();
    assert_eq!(end, 15);
    assert_eq!(*p.version(), Version::new(1, 0, 0));
    assert_eq!(*p.flags(), PackageFlags { base64: false });
    assert_eq!(*p.str_encode(), StringEncoding::UTF8);
    assert_eq!(*p.data_kind(), DataFormat::JSON);
    assert_eq!(*p.encrypt(), EncryptionKinds::Unencrypted);
    assert!(p.encrypt_extra().is_empty());
    assert!(p.content_extra().is_empty());
    assert_eq!(p.data(), &vec![0x7B, 0x7D]);
}

#[test]
fn test_round_trip_with_extras() {
    let p = NetworkPackage::new(
        Version::new(3, 2, 1),
        PackageFlags { base64: true },
        StringEncoding::UTF16LE,
        DataFormat::Binary,
        EncryptionKinds::AES,
        vec![9, 8, 7],
        vec![42],
        vec![1, 2, 3, 4, 5],
    )
    .unwrap();
    let mut out: Vec<u8> = Vec::new();
    p.write_to_stream(&mut out);
    assert_eq!(out.len(), 4 + 9 + 3 + 1 + 5);

    let (q, end) = NetworkPackage::read_from_stream(&out, 0).unwrap();
    assert_eq!(end, out.len());
    assert_eq!(*q.version(), Version::new(3, 2, 1));
    assert_eq!(*q.flags(), PackageFlags { base64: true });
    assert_eq!(*q.str_encode(), StringEncoding::UTF16LE);
    assert_eq!(*q.data_kind(), DataFormat::Binary);
    assert_eq!(*q.encrypt(), EncryptionKinds::AES);
    assert_eq!(q.encrypt_extra(), &vec![9, 8, 7]);
    assert_eq!(q.content_extra(), &vec![42]);
    assert_eq!(q.data(), &vec![1, 2, 3, 4, 5]);
}

#[test]
fn test_multiplexing_two_packages() {
    let p1 = sample_package(vec![], vec![], vec![10, 20, 30]);
    let p2 = NetworkPackage::new(
        Version::new(2, 0, 0),
        PackageFlags { base64: true },
        StringEncoding::ASCII,
        DataFormat::CSV,
        EncryptionKinds::RSA,
        vec![1],
        vec![],
        vec![99],
    )
    .unwrap();

    let mut stream: Vec<u8> = Vec::new();
    p1.write_to_stream(&mut stream);
    let first_len = stream.len();
    p2.write_to_stream(&mut stream);

    let (q1, end1) = NetworkPackage::read_from_stream(&stream, 0).unwrap();
    assert_eq!(end1, first_len);
    assert_eq!(q1.data(), &vec![10, 20, 30]);

    let (q2, end2) = NetworkPackage::read_from_stream(&stream, end1).unwrap();
    assert_eq!(end2, stream.len());
    assert_eq!(*q2.version(), Version::new(2, 0, 0));
    assert_eq!(q2.encrypt_extra(), &vec![1]);
    assert_eq!(q2.data(), &vec![99]);
}

#[test]
fn test_encrypt_extra_too_large() {
    let r = NetworkPackage::new(
        Version::new(1, 0, 0),
        PackageFlags { base64: false },
        StringEncoding::Unspecified,
        DataFormat::Unspecified,
        EncryptionKinds::Unencrypted,
        vec![0; 256],
        vec![],
        vec![],
    );
    assert_eq!(r.unwrap_err(), TooLargeError::new("encrypt_extra", 256, 255));
}

#[test]
fn test_content_extra_too_large() {
    let r = NetworkPackage::new(
        Version::new(1, 0, 0),
        PackageFlags { base64: false },
        StringEncoding::Unspecified,
        DataFormat::Unspecified,
        EncryptionKinds::Unencrypted,
        vec![],
        vec![0; 256],
        vec![],
    );
    assert_eq!(r.unwrap_err(), TooLargeError::new("content_extra", 256, 255));
}

#[test]
fn test_too_large_error_accessors() {
    let e = TooLargeError::new("data", 300, 255);
    assert_eq!(e.field(), "data");
    assert_eq!(e.total_size(), 300);
    assert_eq!(e.allowed_max(), 255);
}

#[test]
fn test_truncated_stream() {
    // A 4-byte length prefix and only 3 header bytes.
    let bytes = vec![0x00, 0x00, 0x00, 0x0B, 0x01, 0x00, 0x00];
    let r = NetworkPackage::read_from_stream(&bytes, 0);
    assert_eq!(r.unwrap_err(), NetworkReadError::UnexpectedEof);
}

#[test]
fn test_adversarial_total_length() {
    // A full header whose declared total (5) is smaller than the header
    // size (9).
    let bytes = vec![0x00, 0x00, 0x00, 0x05, 0x01, 0x00, 0x00, 0x00, 0x02, 0x01, 0x00, 0x00, 0x00];
    let r = NetworkPackage::read_from_stream(&bytes, 0);
    assert_eq!(r.unwrap_err(), NetworkReadError::MalformedLength);
}

#[test]
fn test_extras_exceed_total() {
    // total = 9 exactly covers the header, yet one extra byte is declared
    // and present: the derived payload length underflows.
    let bytes =
        vec![0x00, 0x00, 0x00, 0x09, 0x01, 0x00, 0x00, 0x00, 0x02, 0x01, 0x00, 0x01, 0x00, 0xAA];
    let r = NetworkPackage::read_from_stream(&bytes, 0);
    assert_eq!(r.unwrap_err(), NetworkReadError::MalformedLength);
}

#[test]
fn test_truncated_extras() {
    // Three extra bytes declared, one present.
    let bytes =
        vec![0x00, 0x00, 0x00, 0x0C, 0x01, 0x00, 0x00, 0x00, 0x02, 0x01, 0x00, 0x03, 0x00, 0xAA];
    let r = NetworkPackage::read_from_stream(&bytes, 0);
    assert_eq!(r.unwrap_err(), NetworkReadError::UnexpectedEof);
}

#[test]
fn test_truncated_payload() {
    // total = 11 declares two payload bytes; only one is present.
    let bytes =
        vec![0x00, 0x00, 0x00, 0x0B, 0x01, 0x00, 0x00, 0x00, 0x02, 0x01, 0x00, 0x00, 0x00, 0x7B];
    let r = NetworkPackage::read_from_stream(&bytes, 0);
    assert_eq!(r.unwrap_err(), NetworkReadError::UnexpectedEof);
}

#[test]
fn test_unknown_tags() {
    let mut bytes =
        vec![0x00, 0x00, 0x00, 0x0B, 0x01, 0x00, 0x00, 0x00, 0x02, 0x01, 0x00, 0x00, 0x00, 0x7B, 0x7D];
    bytes[7] = 2; // flags with an undefined bit
    let r = NetworkPackage::read_from_stream(&bytes, 0);
    assert_eq!(r.unwrap_err(), NetworkReadError::MissingElement("flags".to_string()));

    bytes[7] = 0;
    bytes[8] = 6; // string encoding out of range
    let r = NetworkPackage::read_from_stream(&bytes, 0);
    assert_eq!(r.unwrap_err(), NetworkReadError::MissingElement("str_encode".to_string()));

    bytes[8] = 2;
    bytes[9] = 6; // data format out of range
    let r = NetworkPackage::read_from_stream(&bytes, 0);
    assert_eq!(r.unwrap_err(), NetworkReadError::MissingElement("data_kind".to_string()));

    bytes[9] = 1;
    bytes[10] = 3; // encryption kind out of range
    let r = NetworkPackage::read_from_stream(&bytes, 0);
    assert_eq!(r.unwrap_err(), NetworkReadError::MissingElement("encrypt".to_string()));
}

#[test]
fn test_tag_bytes_round_trip() {
    let encodings = [
        (StringEncoding::Unspecified, 0u8),
        (StringEncoding::ASCII, 1),
        (StringEncoding::UTF8, 2),
        (StringEncoding::UTF16LE, 3),
        (StringEncoding::UTF16BE, 4),
        (StringEncoding::UTF32, 5),
    ];
    for (e, b) in encodings {
        assert_eq!(e.to_byte(), b);
        assert_eq!(StringEncoding::from_byte(b), Some(e));
    }
    assert_eq!(StringEncoding::from_byte(6), None);

    let formats = [
        (DataFormat::Unspecified, 0u8),
        (DataFormat::JSON, 1),
        (DataFormat::XML, 2),
        (DataFormat::CSV, 3),
        (DataFormat::TSV, 4),
        (DataFormat::Binary, 5),
    ];
    for (f, b) in formats {
        assert_eq!(f.to_byte(), b);
        assert_eq!(DataFormat::from_byte(b), Some(f));
    }
    assert_eq!(DataFormat::from_byte(6), None);

    let kinds = [
        (EncryptionKinds::Unencrypted, 0u8),
        (EncryptionKinds::RSA, 1),
        (EncryptionKinds::AES, 2),
    ];
    for (k, b) in kinds {
        assert_eq!(k.to_byte(), b);
        assert_eq!(EncryptionKinds::from_byte(b), Some(k));
    }
    assert_eq!(EncryptionKinds::from_byte(3), None);

    assert_eq!(PackageFlags { base64: false }.to_byte(), 0);
    assert_eq!(PackageFlags { base64: true }.to_byte(), 1);
    assert_eq!(PackageFlags::from_byte(0), Some(PackageFlags { base64: false }));
    assert_eq!(PackageFlags::from_byte(1), Some(PackageFlags { base64: true }));
    assert_eq!(PackageFlags::from_byte(2), None);
}

#[test]
fn test_decode_at_offset_ignores_leading_bytes() {
    let p = sample_package(vec![], vec![], vec![7]);
    let mut stream: Vec<u8> = vec![0xFF, 0xFF, 0xFF];
    let lead = stream.len();
    p.write_to_stream(&mut stream);
    let (q, end) = NetworkPackage::read_from_stream(&stream, lead).unwrap();
    assert_eq!(end, stream.len());
    assert_eq!(q.data(), &vec![7]);
}

#[test]
fn test_trailing_bytes_left_untouched() {
    let p = sample_package(vec![], vec![], vec![7, 8]);
    let mut stream: Vec<u8> = Vec::new();
    p.write_to_stream(&mut stream);
    let frame = stream.len();
    stream.push(0xEE);
    let (_, end) = NetworkPackage::read_from_stream(&stream, 0).unwrap();
    assert_eq!(end, frame);
}
