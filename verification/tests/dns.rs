use stalkermap::dns::compressor::{CompressorErrors, MessageCompressor, PointerMap};
use stalkermap::dns::resolver::{
    DnsHeaderFlags, DnsMessage, OpCodeOptions, RecordType,
};
use stalkermap::dns::transporter::{ServerConfig, TransporterErrors};

#[test]
fn test_compressor_basic_compression() {
    let mut message = Vec::new();
    let mut pointer_map = PointerMap::new();

    let name = "example.com";
    MessageCompressor::compress(name, &mut message, &mut pointer_map).unwrap();

    // "example" = 7, "com" = 3, null terminator
    let expected = [
        7u8, b'e', b'x', b'a', b'm', b'p', b'l', b'e', 3u8, b'c', b'o', b'm', 0u8,
    ];
    assert_eq!(message, expected);
}

#[test]
fn test_compressor_compression_with_pointer() {
    let mut message = Vec::new();
    let mut pointer_map = PointerMap::new();

    MessageCompressor::compress("example.com", &mut message, &mut pointer_map).unwrap();
    let first_len = message.len();

    // Reusing the same name should produce a pointer
    MessageCompressor::compress("example.com", &mut message, &mut pointer_map).unwrap();

    // The pointer is 2 bytes with top bits 11
    let pointer_bytes = &message[first_len..];
    assert_eq!(pointer_bytes.len(), 2);
    assert_eq!(pointer_bytes[0] >> 6, 0b11); // top 2 bits are 11
}

#[test]
fn test_compressor_label_too_long() {
    let mut message = Vec::new();
    let mut pointer_map = PointerMap::new();

    let long_label = "a".repeat(64); // >63 bytes
    let name = format!("{}.com", long_label);
    let result = MessageCompressor::compress(&name, &mut message, &mut pointer_map);
    assert!(matches!(result, Err(CompressorErrors::LabelTooLong(_))));
}

#[test]
fn test_compressor_name_too_long() {
    let mut message = Vec::new();
    let mut pointer_map = PointerMap::new();

    // 256 bytes name
    let long_name = format!("{}.", "a".repeat(256));
    let result = MessageCompressor::compress(&long_name, &mut message, &mut pointer_map);
    assert!(matches!(result, Err(CompressorErrors::InvalidName(_))));
}

#[test]
fn test_compressor_root_label() {
    let mut message = Vec::new();
    let mut pointer_map = PointerMap::new();

    MessageCompressor::compress(".", &mut message, &mut pointer_map).unwrap();
    assert_eq!(message, vec![0u8]);

    message.clear();
    MessageCompressor::compress("", &mut message, &mut pointer_map).unwrap();
    assert_eq!(message, vec![0u8]);
}

#[test]
fn test_compressor_multiple_labels_and_suffixes() {
    let mut message = Vec::new();
    let mut pointer_map = PointerMap::new();

    MessageCompressor::compress("www.example.com", &mut message, &mut pointer_map).unwrap();
    let len_after_first = message.len();

    // Reuse "example.com", should produce pointer only for suffix
    MessageCompressor::compress("mail.example.com", &mut message, &mut pointer_map).unwrap();

    assert!(message.len() > len_after_first);
    // Check that suffix "example.com" was replaced by pointer
    let pointer_pos = len_after_first + 1 + 4; // mail has 4 bytes
    let pointer_bytes = &message[pointer_pos..pointer_pos + 2];
    assert_eq!(pointer_bytes[0] >> 6, 0b11); // top 2 bits is 11
}

#[test]
fn resolver_test_record_type_to_bytes() {
    let record_a = RecordType::A;
    let bytes = record_a.to_bytes();
    assert_eq!(bytes, [0x00, 0x01]); // A = 1 in big-endian

    let record_txt = RecordType::Txt;
    let bytes = record_txt.to_bytes();
    assert_eq!(bytes, [0x00, 0x10]); // TXT = 16 in big-endian
}

#[test]
fn resolver_test_dns_header_flags_encode_decode() {
    let flags = DnsHeaderFlags {
        qr: true,
        opcode: 2,
        aa: true,
        tc: false,
        rd: true,
        ra: false,
        z: 3,
        rcode: 5,
    };

    let decoded = DnsHeaderFlags::from_u16(flags.to_u16());

    assert_eq!(decoded.qr, flags.qr);
    assert_eq!(decoded.opcode, flags.opcode);
    assert_eq!(decoded.aa, flags.aa);
    assert_eq!(decoded.tc, flags.tc);
    assert_eq!(decoded.rd, flags.rd);
    assert_eq!(decoded.ra, flags.ra);
    assert_eq!(decoded.z, flags.z);
    assert_eq!(decoded.rcode, flags.rcode);
}

#[test]
fn agnostic_test_record_type_to_bytes() {
    let record_a = RecordType::A;
    let bytes = record_a.to_bytes();
    assert_eq!(bytes, [0x00, 0x01]); // A = 1 in big-endian

    let record_txt = RecordType::Txt;
    let bytes = record_txt.to_bytes();
    assert_eq!(bytes, [0x00, 0x10]); // TXT = 16 in big-endian
}

#[test]
fn agnostic_test_dns_header_flags_encode_decode() {
    let flags = DnsHeaderFlags {
        qr: true,
        opcode: OpCodeOptions::ServerStatusRequest.value(),
        aa: true,
        tc: false,
        rd: true,
        ra: false,
        z: 3,
        rcode: 5,
    };

    let decoded = DnsHeaderFlags::from_u16(flags.to_u16());

    assert_eq!(decoded.qr, flags.qr);
    assert_eq!(decoded.opcode, flags.opcode);
    assert_eq!(decoded.aa, flags.aa);
    assert_eq!(decoded.tc, flags.tc);
    assert_eq!(decoded.rd, flags.rd);
    assert_eq!(decoded.ra, flags.ra);
    assert_eq!(decoded.z, flags.z);
    assert_eq!(decoded.rcode, flags.rcode);
}

#[test]
fn standard_test_record_type_to_bytes() {
    let record_a = RecordType::A;
    let bytes = record_a.code().to_be_bytes();
    assert_eq!(bytes, [0x00, 0x01]); // A = 1 in big-endian

    let record_txt = RecordType::Txt;
    let bytes = record_txt.code().to_be_bytes();
    assert_eq!(bytes, [0x00, 0x10]); // TXT = 16 in big-endian
}

#[test]
fn standard_test_dns_header_flags_encode_decode() {
    let flags = DnsHeaderFlags {
        qr: true,
        opcode: OpCodeOptions::ServerStatusRequest.value(),
        aa: true,
        tc: false,
        rd: true,
        ra: false,
        z: 3,
        rcode: 5,
    };

    let decoded = DnsHeaderFlags::from_u16(flags.to_u16());

    assert_eq!(decoded.qr, flags.qr);
    assert_eq!(decoded.opcode, flags.opcode);
    assert_eq!(decoded.aa, flags.aa);
    assert_eq!(decoded.tc, flags.tc);
    assert_eq!(decoded.rd, flags.rd);
    assert_eq!(decoded.ra, flags.ra);
    assert_eq!(decoded.z, flags.z);
    assert_eq!(decoded.rcode, flags.rcode);
}

#[test]
fn agnostic_test_dns_message_new_query() {
    let msg = DnsMessage::new_query("example.com", RecordType::A, OpCodeOptions::StandardQuery);

    assert_eq!(msg.header.qd_count, 1);
    assert_eq!(msg.header.an_count, 0);
    assert_eq!(msg.header.ns_count, 0);
    assert_eq!(msg.header.ar_count, 0);

    assert_eq!(msg.question.name, "example.com");
    assert_eq!(msg.question.record_type, RecordType::A.code());
    assert_eq!(msg.question.class, 1);

    assert!(msg.answer.is_empty());
    assert!(msg.authority.is_empty());
    assert!(msg.additional.is_empty());
}

#[test]
fn agnostic_test_dns_message_encode_query() {
    let msg = DnsMessage::new_query("example.com", RecordType::A, OpCodeOptions::StandardQuery);
    let bytes = msg.encode_query();

    // At least 12 bytes from header + question
    assert!(bytes.len() > 12);

    // Verify ID on header
    let id = u16::from_be_bytes([bytes[0], bytes[1]]);
    assert_eq!(id, msg.header.id);

    // Verify flags on header
    let flags = u16::from_be_bytes([bytes[2], bytes[3]]);
    assert_eq!(flags, msg.header.flags);

    // Verify qd_count
    let qd_count = u16::from_be_bytes([bytes[4], bytes[5]]);
    assert_eq!(qd_count, msg.header.qd_count);

    assert!(!bytes[12..].is_empty());
}

#[test]
fn agnostic_test_dns_message_new_query_different_record_types() {
    let record_types = [
        RecordType::A,
        RecordType::Mx,
        RecordType::Txt,
        RecordType::Cname,
        RecordType::Ns,
    ];

    for &rec in record_types.iter() {
        let msg = DnsMessage::new_query("example.com", rec, OpCodeOptions::StandardQuery);

        assert_eq!(msg.question.name, "example.com");
        assert_eq!(msg.question.record_type, rec.code());
        assert_eq!(msg.question.class, 1);

        assert_eq!(msg.header.qd_count, 1);
        assert_eq!(msg.header.an_count, 0);
        assert_eq!(msg.header.ns_count, 0);
        assert_eq!(msg.header.ar_count, 0);

        assert!(msg.answer.is_empty());
        assert!(msg.authority.is_empty());
        assert!(msg.additional.is_empty());

        let bytes = msg.encode_query();
        assert!(bytes.len() > 12);
        let encoded_type = u16::from_be_bytes([bytes[bytes.len() - 4], bytes[bytes.len() - 3]]);
        assert_eq!(encoded_type, rec.code());
    }
}

#[test]
fn standard_test_dns_message_new_query() {
    let msg = DnsMessage::new_query("example.com", RecordType::A, OpCodeOptions::StandardQuery);

    assert_eq!(msg.header.qd_count, 1);
    assert_eq!(msg.header.an_count, 0);
    assert_eq!(msg.header.ns_count, 0);
    assert_eq!(msg.header.ar_count, 0);

    assert_eq!(msg.question.name, "example.com");
    assert_eq!(msg.question.record_type, RecordType::A.code());
    assert_eq!(msg.question.class, 1);

    assert!(msg.answer.is_empty());
    assert!(msg.authority.is_empty());
    assert!(msg.additional.is_empty());
}

#[test]
fn standard_test_dns_message_encode_query() {
    let msg = DnsMessage::new_query("example.com", RecordType::A, OpCodeOptions::StandardQuery);
    let bytes = msg.encode_query();

    // At least 12 bytes from header + question
    assert!(bytes.len() > 12);

    // Verify ID on header
    let id = u16::from_be_bytes([bytes[0], bytes[1]]);
    assert_eq!(id, msg.header.id);

    // Verify flags on header
    let flags = u16::from_be_bytes([bytes[2], bytes[3]]);
    assert_eq!(flags, msg.header.flags);

    // Verify qd_count
    let qd_count = u16::from_be_bytes([bytes[4], bytes[5]]);
    assert_eq!(qd_count, msg.header.qd_count);

    assert!(!bytes[12..].is_empty());
}

#[test]
fn standard_test_dns_message_new_query_different_record_types() {
    let record_types = [
        RecordType::A,
        RecordType::Mx,
        RecordType::Txt,
        RecordType::Cname,
        RecordType::Ns,
    ];

    for &rec in record_types.iter() {
        let msg = DnsMessage::new_query("example.com", rec, OpCodeOptions::StandardQuery);

        assert_eq!(msg.question.name, "example.com");
        assert_eq!(msg.question.record_type, rec.code());
        assert_eq!(msg.question.class, 1);

        assert_eq!(msg.header.qd_count, 1);
        assert_eq!(msg.header.an_count, 0);
        assert_eq!(msg.header.ns_count, 0);
        assert_eq!(msg.header.ar_count, 0);

        assert!(msg.answer.is_empty());
        assert!(msg.authority.is_empty());
        assert!(msg.additional.is_empty());

        let bytes = msg.encode_query();
        assert!(bytes.len() > 12);
        let encoded_type = u16::from_be_bytes([bytes[bytes.len() - 4], bytes[bytes.len() - 3]]);
        assert_eq!(encoded_type, rec.code());
    }
}

#[test]
fn test_transporter_default_servers() {
    let config = ServerConfig::new();
    assert!(!config.has_custom_servers());
    let servers = config.get_servers();
    assert_eq!(servers.len(), 8);
    assert_eq!(servers[0], "8.8.8.8:53");
    assert_eq!(servers[2], "[2001:4860:4860::8888]:53");
}

#[test]
fn test_transporter_set_and_reset_servers() {
    let mut config = ServerConfig::new();
    let ok = config.set_servers(vec!["8.8.8.8:53".to_string(), "1.1.1.1:53".to_string()]);
    assert!(ok.is_ok());
    assert!(config.has_custom_servers());
    assert_eq!(config.get_servers(), vec!["8.8.8.8:53", "1.1.1.1:53"]);

    config.reset_servers();
    assert!(!config.has_custom_servers());
    assert_eq!(config.get_servers().len(), 8);
}

#[test]
fn test_transporter_rejects_invalid_server() {
    let mut config = ServerConfig::new();
    let res = config.set_servers(vec!["8.8.8.8:53".to_string(), "not-an-address".to_string()]);
    match res {
        Err(TransporterErrors::InvalidServer(s)) => {
            assert_eq!(s, "not-an-address");
        }
        _ => panic!("an invalid entry must be rejected"),
    }
    assert!(!config.has_custom_servers());
    assert!(config
        .set_servers(vec!["[::1]:53".to_string()])
        .is_ok());
    let err = TransporterErrors::InvalidServer("x".to_string());
    assert_eq!(err.message(), "The server x is invalid");
}

#[test]
fn test_dns_query_wire_layout() {
    let msg = DnsMessage::new_query("example.com", RecordType::A, OpCodeOptions::StandardQuery);
    let bytes = msg.encode_query();
    // header (12) + name (13) + type (2) + class (2)
    assert_eq!(bytes.len(), 29);
    assert_eq!(
        &bytes[12..25],
        &[7u8, b'e', b'x', b'a', b'm', b'p', b'l', b'e', 3u8, b'c', b'o', b'm', 0u8]
    );
    assert_eq!(&bytes[25..29], &[0u8, 1, 0, 1]);
    // A standard recursive query packs to 0x0100.
    assert_eq!(msg.header.flags, 0x0100);
}
