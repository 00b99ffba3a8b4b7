use gatekeeper::codec::{
    encode_datagram, read_datagram, decode_connect_reply, decode_connect_request, decode_method_candidates, decode_method_selection,
    encode_connect_reply, encode_connect_request, encode_method_candidates, encode_method_selection,
};
use gatekeeper::error::Error;
use gatekeeper::model::{
    Address, Command, ConnectError, ConnectReply, ConnectRequest, IpAddr, Method, MethodCandidates,
    MethodSelection, ProtocolVersion, UdpDatagram,
};
use gatekeeper::raw_message::{AddrType, AuthMethods, ResponseCode, SockCommand};
use gatekeeper::stream::{BufferStream, ReadWriteStream};

fn v5() -> ProtocolVersion {
    ProtocolVersion(5)
}

#[test]
fn buffer_stream() {
    let input = vec![
        5, 1, 0, 5, 6, 0, 1, 2, 0x6a, 0xef, 0xff, 5, 1, 0, 1, 1, 2, 3, 4, 0, 5, 5, 1, 0, 3, 11, b'e', b'x',
        b'a', b'm', b'p', b'l', b'e', b'.', b'c', b'o', b'm', 0x7d, 0x6c, 5, 2, 0, 1, 0, 0, 0, 0, 0x1f, 0x90,
        5, 3, 0, 3, 11, b'e', b'x', b'a', b'm', b'p', b'l', b'e', b'.', b'c', b'o', b'm', 0x7, 0xe4,
    ];
    let mut strm = ReadWriteStream::new(BufferStream::with_buffer(input.clone(), vec![]));
    assert_eq!(
        strm.recv_method_candidates().unwrap(),
        MethodCandidates { version: v5(), method: vec![Method::NoAuth] }
    );
    assert_eq!(
        strm.recv_method_candidates().unwrap(),
        MethodCandidates {
            version: v5(),
            method: vec![
                Method::NoAuth,
                Method::GssApi,
                Method::UserPass,
                Method::IANAMethod(0x6a),
                Method::Private(0xef),
                Method::NoMethods
            ]
        }
    );
    assert_eq!(
        strm.recv_connect_request().unwrap(),
        ConnectRequest {
            version: v5(),
            command: Command::Connect,
            connect_to: Address::IpAddr(IpAddr::v4(1, 2, 3, 4), 5)
        }
    );
    assert_eq!(
        strm.recv_connect_request().unwrap(),
        ConnectRequest {
            version: v5(),
            command: Command::Connect,
            connect_to: Address::Domain("example.com".into(), 32108)
        }
    );
    assert_eq!(
        strm.recv_connect_request().unwrap(),
        ConnectRequest {
            version: v5(),
            command: Command::Bind,
            connect_to: Address::IpAddr(IpAddr::v4(0, 0, 0, 0), 8080)
        }
    );
    assert_eq!(
        strm.recv_connect_request().unwrap(),
        ConnectRequest {
            version: v5(),
            command: Command::UdpAssociate,
            connect_to: Address::Domain("example.com".into(), 2020)
        }
    );
    for m in [
        Method::NoAuth,
        Method::GssApi,
        Method::UserPass,
        Method::IANAMethod(0x7f),
        Method::Private(0xfe),
        Method::NoMethods,
    ] {
        strm.send_method_selection(MethodSelection { version: v5(), method: m }).unwrap();
    }
    strm.send_connect_reply(ConnectReply {
        version: v5(),
        connect_result: Ok(()),
        server_addr: Address::IpAddr(IpAddr::v4(127, 0, 0, 1), 1080),
    })
    .unwrap();
    strm.send_connect_reply(ConnectReply {
        version: v5(),
        connect_result: Err(ConnectError::ServerFailure),
        server_addr: Address::Domain("example.com".into(), 8335),
    })
    .unwrap();

    let inner = strm.into_inner();
    assert_eq!(inner.read_position(), input.len());
    let out_exp: Vec<u8> = [5, 0]
        .iter()
        .chain([5, 1].iter())
        .chain([5, 2].iter())
        .chain([5, 0x7f].iter())
        .chain([5, 0xfe].iter())
        .chain([5, 0xff].iter())
        .chain([5, 0, 0, 1, 127, 0, 0, 1, 0x4, 0x38].iter())
        .chain(
            [5, 1, 0, 3, 11, b'e', b'x', b'a', b'm', b'p', b'l', b'e', b'.', b'c', b'o', b'm', 0x20, 0x8f].iter(),
        )
        .cloned()
        .collect();
    assert_eq!(inner.written(), &out_exp);
}

#[test]
fn short_input_is_an_io_error_and_consumes_nothing() {
    let mut strm = ReadWriteStream::new(BufferStream::with_buffer(vec![5, 1, 0, 3, 11, b'e'], vec![]));
    assert_eq!(strm.recv_connect_request().unwrap_err(), Error::Io);
    assert_eq!(strm.stream().read_position(), 0);
    strm.stream().push_input(&mut b"xample.com\x00\x50".to_vec());
    assert_eq!(
        strm.recv_connect_request().unwrap().connect_to,
        Address::Domain("example.com".into(), 80)
    );
    assert_eq!(strm.stream().read_position(), 18);
}

#[test]
fn malformed_fields_are_format_errors() {
    assert!(matches!(decode_connect_request(&[5, 9, 0, 1]), Err(Error::MessageFormat { .. })));
    assert!(matches!(decode_connect_request(&[5, 1, 1, 1]), Err(Error::MessageFormat { .. })));
    assert!(matches!(decode_connect_request(&[5, 1, 0, 2, 0]), Err(Error::MessageFormat { .. })));
    assert!(matches!(decode_connect_reply(&[5, 9, 0, 1]), Err(Error::MessageFormat { .. })));
    assert!(matches!(decode_method_candidates(&[5, 0]), Err(Error::MessageFormat { .. })));
    assert_eq!(decode_method_candidates(&[5, 2, 0]).unwrap_err(), Error::Io);
    assert_eq!(decode_method_selection(&[5]).unwrap_err(), Error::Io);
}

#[test]
fn round_trips() {
    let cands = MethodCandidates::new(&[Method::NoAuth, Method::IANAMethod(0x10), Method::Private(0x90)]);
    let bytes = encode_method_candidates(&cands).unwrap();
    assert_eq!(bytes, vec![5, 3, 0, 0x10, 0x90]);
    assert_eq!(decode_method_candidates(&bytes).unwrap(), (cands, 5));

    let sel = MethodSelection { version: v5(), method: Method::UserPass };
    let bytes = encode_method_selection(sel);
    assert_eq!(decode_method_selection(&bytes).unwrap(), (sel, 2));

    let v6 = Address::IpAddr(IpAddr::v6([0x2001, 0xdb8, 0, 0, 0, 0, 0, 1]), 443);
    let req = ConnectRequest::bind(v6.clone());
    let bytes = encode_connect_request(&req).unwrap();
    assert_eq!(bytes.len(), 22);
    assert_eq!(&bytes[..6], &[5, 2, 0, 4, 0x20, 0x01]);
    assert_eq!(decode_connect_request(&bytes).unwrap(), (req, 22));

    let rep = ConnectReply {
        version: v5(),
        connect_result: Err(ConnectError::TtlExpired),
        server_addr: Address::Domain("h\u{e9}llo".into(), 7),
    };
    let bytes = encode_connect_reply(&rep).unwrap();
    assert_eq!(bytes, vec![5, 6, 0, 3, 6, b'h', 0xc3, 0xa9, b'l', b'l', b'o', 0, 7]);
    let (back, n) = decode_connect_reply(&bytes).unwrap();
    assert_eq!(n, bytes.len());
    assert_eq!(back, rep);
}

#[test]
fn invalid_utf8_domain_is_decoded_lossily() {
    let (req, _) = decode_connect_request(&[5, 1, 0, 3, 2, b'a', 0xff, 0, 1]).unwrap();
    assert_eq!(req.connect_to, Address::Domain("a\u{fffd}".into(), 1));
}

#[test]
fn oversized_inputs_are_rejected_on_write() {
    let long = "a".repeat(256);
    let req = ConnectRequest::connect_to(Address::Domain(long, 80));
    assert!(matches!(encode_connect_request(&req), Err(Error::InvalidInput { .. })));
    let ok = ConnectRequest::connect_to(Address::Domain("a".repeat(255), 80));
    assert_eq!(encode_connect_request(&ok).unwrap().len(), 3 + 2 + 255 + 2);
    let none = MethodCandidates::new(&[]);
    assert!(matches!(encode_method_candidates(&none), Err(Error::InvalidInput { .. })));
    let many = MethodCandidates::new(&vec![Method::NoAuth; 256]);
    assert!(matches!(encode_method_candidates(&many), Err(Error::InvalidInput { .. })));
}

#[test]
fn field_codes() {
    assert_eq!(ResponseCode::from_u8(5).unwrap(), ResponseCode::ConnectionRefused);
    assert_eq!(ResponseCode::ConnectionRefused.code(), 5);
    assert_eq!(ResponseCode::from_u8(9).unwrap_err().value, 9);
    assert_eq!(ResponseCode::from_result(Err(ConnectError::ConnectionNotAllowed)), ResponseCode::RuleFailure);
    assert_eq!(AuthMethods::from_u8(0x80), AuthMethods::Private(0x80));
    assert_eq!(AuthMethods::from_u8(0x7f).code(), 0x7f);
    assert_eq!(AuthMethods::NoMethods.code(), 0xff);
    assert_eq!(AddrType::try_from_u8(4).unwrap(), AddrType::V6);
    assert!(AddrType::try_from_u8(2).is_err());
    assert_eq!(SockCommand::try_from_u8(3).unwrap(), SockCommand::UdpAssociate);
    assert_eq!(SockCommand::Bind.code(), 2);
    assert_eq!(Method::from_code(0x03), Method::IANAMethod(0x03));
    assert_eq!(Method::from_code(0xfe), Method::Private(0xfe));
}

#[test]
fn udp_datagram_header() {
    let d = UdpDatagram {
        frag: 0,
        dst_addr: Address::IpAddr(IpAddr::v6([7, 6, 5, 4, 3, 2, 1, 0]), 835),
        data: b"payload".to_vec(),
    };
    let bytes = encode_datagram(&d).unwrap();
    assert_eq!(&bytes[..4], &[0, 0, 0, 4]);
    assert_eq!(&bytes[20..22], &[0x03, 0x43]);
    assert_eq!(read_datagram(&bytes).unwrap(), d);
    assert!(matches!(read_datagram(&[0, 1, 0, 1]), Err(Error::MessageFormat { .. })));
    assert_eq!(read_datagram(&[0, 0, 0, 1, 1, 2]).unwrap_err(), Error::Io);
}
