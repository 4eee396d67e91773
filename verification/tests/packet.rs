use tftpff::error::{ParseError, TftpError};
use tftpff::packet::{Data, Error, InitialPacket, Mode, ReadPacket, WritePacket, ACK};

#[test]
fn test_parse_wrq_ok() {
    // opcode=2, filename=Cargo.toml, mode=netascii
    let s = [
        0x00, 0x02, 0x43, 0x61, 0x72, 0x67, 0x6f, 0x2e, 0x74, 0x6f, 0x6d, 0x6c, 0x00, 0x6e, 0x65,
        0x74, 0x61, 0x73, 0x63, 0x69, 0x69, 0x00,
    ];
    let res = WritePacket::parse(&s).unwrap();
    assert_eq!(res.filename, "Cargo.toml");
    assert_eq!(res.mode, Mode::NETASCII);
}

#[test]
fn test_parse_wrq_with_illegal_mode() {
    // opcode=2, filename=Cargo.toml, mode=n (illegal)
    let s = [
        0x00, 0x02, 0x43, 0x61, 0x72, 0x67, 0x6f, 0x2e, 0x74, 0x6f, 0x6d, 0x6c, 0x00, 0x6e, 0x00,
    ];
    let res = WritePacket::parse(&s);
    assert!(res.is_err());
}

#[test]
fn test_parse_wrq_only_use_filename() {
    // opcode=2, filename=/foo/bar.txt, mode=netascii
    let s = [
        0x00, 0x02, 0x2f, 0x66, 0x6f, 0x6f, 0x2f, 0x62, 0x61, 0x72, 0x2e, 0x74, 0x78, 0x74, 0x00,
        0x6e, 0x65, 0x74, 0x61, 0x73, 0x63, 0x69, 0x69, 0x00,
    ];
    let res = WritePacket::parse(&s).unwrap();
    assert_eq!(res.filename, "bar.txt");
    assert_eq!(res.mode, Mode::NETASCII);
}

#[test]
fn test_parse_rrq_ok() {
    // opcode=1, filename=Cargo.toml, mode=netascii
    let s = [
        0x00, 0x01, 0x43, 0x61, 0x72, 0x67, 0x6f, 0x2e, 0x74, 0x6f, 0x6d, 0x6c, 0x00, 0x6e, 0x65,
        0x74, 0x61, 0x73, 0x63, 0x69, 0x69, 0x00,
    ];
    let res = ReadPacket::parse(&s).unwrap();
    assert_eq!(res.filename, "Cargo.toml");
    assert_eq!(res.mode, Mode::NETASCII);
}

#[test]
fn test_parse_rrq_with_illegal_mode() {
    // opcode=1, filename=Cargo.toml, mode=n (illegal)
    let s = [
        0x00, 0x01, 0x43, 0x61, 0x72, 0x67, 0x6f, 0x2e, 0x74, 0x6f, 0x6d, 0x6c, 0x00, 0x6e, 0x00,
    ];
    let res = ReadPacket::parse(&s);
    assert!(res.is_err());
}

#[test]
fn test_parse_rrq_only_use_filename() {
    // opcode=1, filename=/foo/bar.txt, mode=netascii
    let s = [
        0x00, 0x01, 0x2f, 0x66, 0x6f, 0x6f, 0x2f, 0x62, 0x61, 0x72, 0x2e, 0x74, 0x78, 0x74, 0x00,
        0x6e, 0x65, 0x74, 0x61, 0x73, 0x63, 0x69, 0x69, 0x00,
    ];
    let res = ReadPacket::parse(&s).unwrap();
    assert_eq!(res.filename, "bar.txt");
    assert_eq!(res.mode, Mode::NETASCII);
}

#[test]
fn test_parse_ack() {
    let s = [0x00, 0x04, 0x00, 0x01];
    let ack = ACK::parse(&s).unwrap();
    assert_eq!(ack.block(), 1);
}

#[test]
fn test_encode_ack() {
    let ack = ACK::new(1);
    assert_eq!(ack.encode(), vec![0x00, 0x04, 0x00, 0x01]);
}

#[test]
fn test_parse_data() {
    let s = [0x00, 0x03, 0x00, 0x01, 0x68, 0x65, 0x6c, 0x6c, 0x6f];
    let mode = Mode::OCTET;
    let data = Data::parse(&s, &mode).unwrap();
    assert_eq!(data.block(), 1);
    assert_eq!(data.data(), &s[4..]);
}

#[test]
fn test_parse_data_netascii() {
    let s = [
        vec![0x00, 0x03, 0x00, 0x01],
        vec![b'a', b'\r', b'\0', b'a', b'\r', b'\n', b'a'],
    ]
    .concat();
    let mode = Mode::NETASCII;
    let data = Data::parse(&s, &mode).unwrap();
    assert_eq!(data.block(), 1);
    assert_eq!(data.data(), &vec![b'a', b'\r', b'a', b'\n', b'a']);
}

#[test]
fn test_encode_data() {
    let data = Data::new(1, &b"hello"[..]);
    let mode = Mode::OCTET;
    assert_eq!(
        data.encode(&mode),
        vec![0x00, 0x03, 0x00, 0x01, 0x68, 0x65, 0x6c, 0x6c, 0x6f]
    );
}

#[test]
fn test_encode_data_netascii() {
    let data = Data::new(1, &vec![b'a', b'\r', b'a', b'\n', b'a']);
    let mode = Mode::NETASCII;
    assert_eq!(
        data.encode(&mode),
        [
            vec![0x00, 0x03, 0x00, 0x01],
            vec![b'a', b'\r', b'\0', b'a', b'\r', b'\n', b'a']
        ]
        .concat(),
    );
}

#[test]
fn test_parse_error() {
    let data = [
        vec![0x00, 0x05, 0x00, 0x01],
        "File not found".to_string().as_bytes().to_vec(),
        vec![b'\0'],
    ]
    .concat();

    let pkt = Error::parse(&data).unwrap();
    assert_eq!(pkt.error_code(), 1);
    assert_eq!(pkt.message(), "File not found");
}

#[test]
fn test_encode_error() {
    let err = Error::new(TftpError::FileNotFound, "File not found".to_string());
    assert_eq!(
        err.encode(),
        [
            vec![0x00, 0x05, 0x00, 0x01],
            "File not found".to_string().as_bytes().to_vec(),
            vec![b'\0'],
        ]
        .concat(),
    );
}

#[test]
fn test_request_encode_is_bit_exact() {
    let rrq = ReadPacket::new("f.bin".to_string(), Mode::OCTET);
    assert_eq!(rrq.encode(), b"\x00\x01f.bin\x00octet\x00".to_vec());
    let wrq = WritePacket::new("bar.txt".to_string(), Mode::NETASCII);
    assert_eq!(wrq.encode(), b"\x00\x02bar.txt\x00netascii\x00".to_vec());
}

#[test]
fn test_request_roundtrip() {
    let rrq = ReadPacket::new("foo.txt".to_string(), Mode::OCTET);
    let back = ReadPacket::parse(&rrq.encode()).unwrap();
    assert_eq!(back.filename, "foo.txt");
    assert_eq!(back.mode, Mode::OCTET);
    let wrq = WritePacket::new("bar.txt".to_string(), Mode::NETASCII);
    let back = WritePacket::parse(&wrq.encode()).unwrap();
    assert_eq!(back.filename, "bar.txt");
    assert_eq!(back.mode, Mode::NETASCII);
}

#[test]
fn test_request_refusals() {
    assert_eq!(ReadPacket::parse(&[0x00]).unwrap_err(), ParseError::TooShort);
    assert_eq!(ReadPacket::parse(&[]).unwrap_err(), ParseError::TooShort);
    assert_eq!(
        ReadPacket::parse(b"\x00\x02a\x00octet\x00").unwrap_err(),
        ParseError::IllegalOpcode
    );
    assert_eq!(
        WritePacket::parse(b"\x00\x01a\x00octet\x00").unwrap_err(),
        ParseError::IllegalOpcode
    );
    // trailing NUL missing
    assert_eq!(
        ReadPacket::parse(b"\x00\x01a\x00octet").unwrap_err(),
        ParseError::IllegalFormat
    );
    // no NUL at all
    assert_eq!(ReadPacket::parse(b"\x00\x01a").unwrap_err(), ParseError::IllegalFormat);
    assert_eq!(ReadPacket::parse(b"\x00\x01").unwrap_err(), ParseError::IllegalFormat);
    // bytes behind the second NUL
    assert_eq!(
        ReadPacket::parse(b"\x00\x01a\x00octet\x00x").unwrap_err(),
        ParseError::IllegalFormat
    );
    // a third field
    assert_eq!(
        ReadPacket::parse(b"\x00\x01a\x00octet\x00x\x00").unwrap_err(),
        ParseError::IllegalFormat
    );
    assert_eq!(
        ReadPacket::parse(b"\x00\x01a\x00mail\x00").unwrap_err(),
        ParseError::UnknownMode
    );
    assert_eq!(
        ReadPacket::parse(b"\x00\x01\x00octet\x00").unwrap_err(),
        ParseError::IllegalFilename
    );
}

#[test]
fn test_filename_sanitised() {
    let name = |raw: &[u8]| {
        let s = [&[0u8, 1u8][..], raw, &b"\0octet\0"[..]].concat();
        ReadPacket::parse(&s).map(|p| p.filename)
    };
    assert_eq!(name(b"a").unwrap(), "a");
    assert_eq!(name(b"../../etc/passwd").unwrap(), "passwd");
    assert_eq!(name(b"foo.txt/.").unwrap(), "foo.txt");
    assert_eq!(name(b"foo.txt/.//").unwrap(), "foo.txt");
    assert_eq!(name(b"dir/").unwrap(), "dir");
    assert_eq!(name(b"./a").unwrap(), "a");
    assert_eq!(name(b"a/.b/.").unwrap(), ".b");
    assert_eq!(name(b"a.").unwrap(), "a.");
    assert_eq!(name(b"...").unwrap(), "...");
    assert_eq!(name(b"..").unwrap_err(), ParseError::IllegalFilename);
    assert_eq!(name(b"foo.txt/..").unwrap_err(), ParseError::IllegalFilename);
    assert_eq!(name(b"/").unwrap_err(), ParseError::IllegalFilename);
    assert_eq!(name(b"//").unwrap_err(), ParseError::IllegalFilename);
    assert_eq!(name(b".").unwrap_err(), ParseError::IllegalFilename);
    assert_eq!(name(b"./").unwrap_err(), ParseError::IllegalFilename);
    assert_eq!(name(b"").unwrap_err(), ParseError::IllegalFilename);
}

#[test]
fn test_filename_agrees_with_path() {
    let raws: [&str; 12] = [
        "a", "/foo/bar.txt", "x/./", "x/..", "..", ".", "/", "", "a//b//", ".hidden", "a/..b", "./.",
    ];
    for raw in raws.iter() {
        let s = [&[0u8, 2u8][..], raw.as_bytes(), &b"\0octet\0"[..]].concat();
        let expected = std::path::Path::new(raw)
            .file_name()
            .map(|n| n.to_string_lossy().into_owned());
        assert_eq!(WritePacket::parse(&s).ok().map(|p| p.filename), expected);
    }
}

#[test]
fn test_filename_lossy() {
    // an ill-formed byte is replaced, a well-formed sequence is kept
    let s = [&[0u8, 1u8][..], &[b'a', 0xff, b'b'][..], &b"\0octet\0"[..]].concat();
    assert_eq!(ReadPacket::parse(&s).unwrap().filename, "a\u{fffd}b");
    let s = [&[0u8, 1u8][..], "d/\u{e9}t\u{e9}".as_bytes(), &b"\0octet\0"[..]].concat();
    assert_eq!(ReadPacket::parse(&s).unwrap().filename, "\u{e9}t\u{e9}");
}

#[test]
fn test_mode_parse_and_encode() {
    assert_eq!(Mode::parse(b"netascii"), Some(Mode::NETASCII));
    assert_eq!(Mode::parse(b"octet"), Some(Mode::OCTET));
    assert_eq!(Mode::parse(b"OCTET"), Some(Mode::OCTET));
    assert_eq!(Mode::parse(b"NetAscii"), Some(Mode::NETASCII));
    assert_eq!(Mode::parse(b"mail"), None);
    assert_eq!(Mode::parse(b""), None);
    assert_eq!(Mode::parse(b"octe"), None);
    assert_eq!(Mode::parse(b"octets"), None);
    assert_eq!(Mode::parse(b"oc\x14et"), None);
    assert_eq!(Mode::NETASCII.encode(), b"netascii".to_vec());
    assert_eq!(Mode::OCTET.encode(), b"octet".to_vec());
    assert_eq!(Mode::NETASCII.name(), "netascii");
    assert_eq!(Mode::OCTET.name(), "octet");
}

#[test]
fn test_initial_packet() {
    match InitialPacket::parse(b"\x00\x01f.bin\x00octet\x00").unwrap() {
        InitialPacket::RRQ(p) => {
            assert_eq!(p.filename, "f.bin");
            assert_eq!(p.mode, Mode::OCTET);
        }
        InitialPacket::WRQ(_) => panic!("a read request was sent"),
    }
    match InitialPacket::parse(b"\x00\x02g.txt\x00netascii\x00").unwrap() {
        InitialPacket::WRQ(p) => {
            assert_eq!(p.filename, "g.txt");
            assert_eq!(p.mode, Mode::NETASCII);
        }
        InitialPacket::RRQ(_) => panic!("a write request was sent"),
    }
    assert_eq!(
        InitialPacket::parse(&[0x00, 0x04, 0x00, 0x01]).unwrap_err(),
        ParseError::IllegalOpcode
    );
    assert_eq!(InitialPacket::parse(&[0x00]).unwrap_err(), ParseError::TooShort);
    assert_eq!(
        InitialPacket::parse(b"\x00\x01f.bin\x00mail\x00").unwrap_err(),
        ParseError::UnknownMode
    );
}

#[test]
fn test_ack_edges() {
    assert_eq!(ACK::new(0xABCD).encode(), vec![0x00, 0x04, 0xAB, 0xCD]);
    assert_eq!(ACK::parse(&[0x00, 0x04, 0xAB, 0xCD]).unwrap().block(), 0xABCD);
    assert_eq!(ACK::parse(&[0x00, 0x04, 0xFF, 0xFF]).unwrap().block(), 65535);
    assert_eq!(ACK::parse(&[0x00, 0x04, 0x00]).unwrap_err(), ParseError::TooShort);
    assert_eq!(ACK::parse(&[0x00]).unwrap_err(), ParseError::TooShort);
    assert_eq!(ACK::parse(&[0x00, 0x03, 0x00, 0x01]).unwrap_err(), ParseError::IllegalOpcode);
    assert_eq!(ACK::parse(&[0x01, 0x04, 0x00, 0x01]).unwrap_err(), ParseError::IllegalOpcode);
}

#[test]
fn test_data_edges() {
    let full = [vec![0x00, 0x03, 0x12, 0x34], vec![b'x'; 512]].concat();
    let data = Data::parse(&full, &Mode::OCTET).unwrap();
    assert_eq!(data.block(), 0x1234);
    assert_eq!(data.data().len(), 512);
    let long = [vec![0x00, 0x03, 0x00, 0x01], vec![b'x'; 513]].concat();
    assert_eq!(Data::parse(&long, &Mode::OCTET).unwrap_err(), ParseError::PayloadTooLong);
    assert_eq!(ParseError::PayloadTooLong.tftp_error(), TftpError::IllegalTftpOp);
    let empty = Data::parse(&[0x00, 0x03, 0x00, 0x07], &Mode::OCTET).unwrap();
    assert_eq!(empty.block(), 7);
    assert_eq!(empty.data().len(), 0);
    assert_eq!(Data::parse(&[0x00, 0x03, 0x00], &Mode::OCTET).unwrap_err(), ParseError::TooShort);
    assert_eq!(
        Data::parse(&[0x00, 0x04, 0x00, 0x01], &Mode::OCTET).unwrap_err(),
        ParseError::IllegalOpcode
    );
    assert_eq!(
        Data::parse(&[0x00, 0x03, 0x00, 0x01, b'\r', b'x'], &Mode::NETASCII).unwrap_err(),
        ParseError::IllegalNetascii
    );
    assert_eq!(
        Data::parse(&[0x00, 0x03, 0x00, 0x01, b'a', b'\r'], &Mode::NETASCII).unwrap_err(),
        ParseError::IllegalNetascii
    );
    assert_eq!(Data::parse_netascii(b"a\r\0a\r\na").unwrap(), b"a\ra\na".to_vec());
    assert_eq!(Data::encode_netascii(b"a\ra\na"), b"a\r\0a\r\na".to_vec());
}

#[test]
fn test_error_edges() {
    assert_eq!(Error::parse(&[0x00, 0x05, 0x00, 0x08, 0x00]).unwrap_err(), ParseError::IllegalErrorCode);
    assert_eq!(Error::parse(&[0x00, 0x05, 0x00, 0x01, b'a']).unwrap_err(), ParseError::IllegalFormat);
    assert_eq!(Error::parse(&[0x00, 0x05, 0x00, 0x00]).unwrap_err(), ParseError::IllegalFormat);
    assert_eq!(Error::parse(&[0x00, 0x05, 0x00]).unwrap_err(), ParseError::TooShort);
    assert_eq!(Error::parse(&[0x00, 0x04, 0x00, 0x01, 0x00]).unwrap_err(), ParseError::IllegalOpcode);
    let pkt = Error::parse(&[0x00, 0x05, 0x00, 0x05, 0x00]).unwrap();
    assert_eq!(pkt.error_code(), 5);
    assert_eq!(pkt.message(), "");
    let pkt = Error::parse(&[0x00, 0x05, 0x00, 0x02, b'n', 0xff, 0x00]).unwrap();
    assert_eq!(pkt.message(), "n\u{fffd}");
    let sent = Error::new(TftpError::UnknownTid, "unknown transfer id".to_string());
    let back = Error::parse(&sent.encode()).unwrap();
    assert_eq!(back.error_code(), 5);
    assert_eq!(back.message(), "unknown transfer id");
}

#[test]
fn test_error_codes() {
    let all = [
        TftpError::Others,
        TftpError::FileNotFound,
        TftpError::AccessViolation,
        TftpError::DiskNoSpace,
        TftpError::IllegalTftpOp,
        TftpError::UnknownTid,
        TftpError::FileExists,
        TftpError::NoSuchUser,
    ];
    for (i, e) in all.iter().enumerate() {
        assert_eq!(e.error_code(), i as u16);
        assert_eq!(TftpError::from_u16(i as u16), Some(*e));
    }
    assert_eq!(TftpError::from_u16(8), None);
    assert_eq!(TftpError::from_u16(65535), None);
    assert_eq!(TftpError::FileNotFound.name(), "TftpError::FileNotFound");
    assert_eq!(TftpError::Others.name(), "TftpError::Others");
    assert_eq!(ParseError::IllegalFilename.tftp_error(), TftpError::AccessViolation);
    assert_eq!(ParseError::UnknownMode.tftp_error(), TftpError::IllegalTftpOp);
}
