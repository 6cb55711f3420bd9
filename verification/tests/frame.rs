use cdrs::error::{Context, Error};
use cdrs::frame::{parse_frame, parse_header, Flag, Frame, Opcode, Version};
use cdrs::response::ResponseBody;

#[test]
fn version_bytes() {
    assert_eq!(Version::Request.as_byte(), 0x04);
    assert_eq!(Version::Response.as_byte(), 0x84);
    assert_eq!(Version::from(vec![0x04]), Ok(Version::Request));
    assert_eq!(Version::from(vec![0x84]), Ok(Version::Response));
}

#[test]
fn version_of_unknown_byte_is_an_error() {
    assert_eq!(Version::from(vec![0x05]), Err(Error::Decode(Context::Version)));
}

#[test]
fn version_of_wrong_width_is_an_error() {
    assert_eq!(Version::from(vec![]), Err(Error::Decode(Context::Version)));
    assert_eq!(Version::from(vec![0x04, 0x04]), Err(Error::Decode(Context::Version)));
}

#[test]
fn flag_bytes() {
    assert_eq!(Flag::Compression.as_byte(), 0x01);
    assert_eq!(Flag::Tracing.as_byte(), 0x02);
    assert_eq!(Flag::CustomPayload.as_byte(), 0x04);
    assert_eq!(Flag::Warning.as_byte(), 0x08);
    assert_eq!(Flag::Ignore.as_byte(), 0x00);
    assert_eq!(Flag::from(vec![0x01]), Ok(vec![Flag::Compression]));
    assert_eq!(Flag::from(vec![0x02]), Ok(vec![Flag::Tracing]));
    assert_eq!(Flag::from(vec![0x04]), Ok(vec![Flag::CustomPayload]));
    assert_eq!(Flag::from(vec![0x08]), Ok(vec![Flag::Warning]));
}

#[test]
fn flag_byte_is_a_set_of_bits() {
    assert_eq!(Flag::from(vec![0x03]), Ok(vec![Flag::Compression, Flag::Tracing]));
    assert_eq!(Flag::from(vec![0x0a]), Ok(vec![Flag::Tracing, Flag::Warning]));
    assert_eq!(
        Flag::from(vec![0x0f]),
        Ok(vec![Flag::Compression, Flag::Tracing, Flag::CustomPayload, Flag::Warning])
    );
    assert_eq!(Flag::from(vec![0x00]), Ok(vec![]));
}

#[test]
fn unknown_flag_bits_are_ignored() {
    assert_eq!(Flag::from(vec![0xf0]), Ok(vec![]));
    assert_eq!(Flag::from(vec![0x83]), Ok(vec![Flag::Compression, Flag::Tracing]));
    assert_eq!(
        Flag::from(vec![0xff]),
        Ok(vec![Flag::Compression, Flag::Tracing, Flag::CustomPayload, Flag::Warning])
    );
    assert_eq!(Flag::get_collection(0x14), vec![Flag::CustomPayload]);
}

#[test]
fn flag_of_wrong_width_is_an_error() {
    assert_eq!(Flag::from(vec![0x01, 0x02]), Err(Error::Decode(Context::Flag)));
}

#[test]
fn opcode_bytes_round_trip() {
    let all = [
        (Opcode::Error, 0x00u8),
        (Opcode::Startup, 0x01),
        (Opcode::Ready, 0x02),
        (Opcode::Authenticate, 0x03),
        (Opcode::Options, 0x05),
        (Opcode::Supported, 0x06),
        (Opcode::Query, 0x07),
        (Opcode::Result, 0x08),
        (Opcode::Prepare, 0x09),
        (Opcode::Execute, 0x0A),
        (Opcode::Register, 0x0B),
        (Opcode::Event, 0x0C),
        (Opcode::Batch, 0x0D),
        (Opcode::AuthChallenge, 0x0E),
        (Opcode::AuthResponse, 0x0F),
        (Opcode::AuthSuccess, 0x10),
    ];
    for (opcode, byte) in all {
        assert_eq!(opcode.as_byte(), byte);
        assert_eq!(Opcode::from(vec![byte]), Ok(opcode));
    }
}

#[test]
fn opcode_of_unknown_byte_is_an_error() {
    assert_eq!(Opcode::from(vec![0x04]), Err(Error::Decode(Context::Opcode)));
    assert_eq!(Opcode::from(vec![0x11]), Err(Error::Decode(Context::Opcode)));
    assert_eq!(Opcode::from(vec![]), Err(Error::Decode(Context::Opcode)));
}

#[test]
fn frame_bytes_have_header_then_body() {
    let frame = Frame {
        version: Version::Request,
        flags: 0,
        opcode: Opcode::Query,
        stream: 0,
        body: vec![1, 2, 3],
    };
    assert_eq!(frame.into_cbytes(), vec![0x04, 0x00, 0x00, 0x00, 0x07, 0, 0, 0, 3, 1, 2, 3]);
}

#[test]
fn header_length_is_body_length() {
    let frame = Frame {
        version: Version::Response,
        flags: 0x02,
        opcode: Opcode::Result,
        stream: 258,
        body: vec![7; 300],
    };
    let bytes = frame.into_cbytes();
    assert_eq!(bytes.len(), 9 + 300);
    assert_eq!(&bytes[0..9], &[0x84, 0x02, 0x01, 0x02, 0x08, 0x00, 0x00, 0x01, 0x2C]);
    assert_eq!(parse_header(&bytes, Version::Response), Ok(300));
}

#[test]
fn frame_round_trip() {
    let frame = Frame {
        version: Version::Response,
        flags: 0x0a,
        opcode: Opcode::Supported,
        stream: -2,
        body: vec![0xde, 0xad, 0xbe, 0xef],
    };
    let bytes = frame.into_cbytes();
    assert_eq!(&bytes[2..4], &[0xff, 0xfe]);
    let back = parse_frame(&bytes, Version::Response).unwrap();
    assert_eq!(back.version, Version::Response);
    assert_eq!(back.flags, 0x0a);
    assert_eq!(back.opcode, Opcode::Supported);
    assert_eq!(back.stream, -2);
    assert_eq!(back.body, vec![0xde, 0xad, 0xbe, 0xef]);
    assert!(back.has_flag(Flag::Tracing));
    assert!(back.has_flag(Flag::Warning));
    assert!(!back.has_flag(Flag::Compression));
    assert!(!back.has_flag(Flag::Ignore));
    assert_eq!(back.get_flags(), vec![Flag::Tracing, Flag::Warning]);
}

#[test]
fn frame_of_the_other_side_is_refused() {
    let bytes = [0x04, 0, 0, 0, 0x02, 0, 0, 0, 0];
    assert_eq!(
        parse_frame(&bytes, Version::Response).err(),
        Some(Error::Decode(Context::Version))
    );
}

#[test]
fn short_header_is_refused() {
    let bytes = [0x84, 0, 0, 0, 0x02, 0, 0, 0];
    assert_eq!(parse_header(&bytes, Version::Response), Err(Error::Decode(Context::Header)));
}

#[test]
fn unknown_opcode_in_header_is_refused() {
    let bytes = [0x84, 0, 0, 0, 0x04, 0, 0, 0, 0];
    assert_eq!(parse_header(&bytes, Version::Response), Err(Error::Decode(Context::Opcode)));
}

#[test]
fn negative_length_is_refused() {
    let bytes = [0x84, 0, 0, 0, 0x02, 0xff, 0xff, 0xff, 0xff];
    assert_eq!(parse_header(&bytes, Version::Response), Err(Error::Decode(Context::Length)));
}

#[test]
fn body_of_another_length_is_refused() {
    let bytes = [0x84, 0, 0, 0, 0x02, 0, 0, 0, 2, 1];
    assert_eq!(
        parse_frame(&bytes, Version::Response).err(),
        Some(Error::Decode(Context::Body))
    );
    let bytes = [0x84, 0, 0, 0, 0x02, 0, 0, 0, 0, 1];
    assert_eq!(
        parse_frame(&bytes, Version::Response).err(),
        Some(Error::Decode(Context::Body))
    );
}

#[test]
fn ready_decode() {
    let bytes = [0x84, 0x00, 0x00, 0x00, 0x02, 0x00, 0x00, 0x00, 0x00];
    let frame = parse_frame(&bytes, Version::Response).unwrap();
    assert!(matches!(frame.get_body(), Ok(ResponseBody::Ready)));
}

#[test]
fn ready_with_a_body_is_refused() {
    let frame = Frame {
        version: Version::Response,
        flags: 0,
        opcode: Opcode::Ready,
        stream: 0,
        body: vec![0],
    };
    assert_eq!(frame.get_body().err(), Some(Error::Decode(Context::Trailing)));
}

#[test]
fn body_of_a_request_opcode_is_refused() {
    let frame = Frame {
        version: Version::Response,
        flags: 0,
        opcode: Opcode::Query,
        stream: 0,
        body: vec![],
    };
    assert_eq!(frame.get_body().err(), Some(Error::Decode(Context::Opcode)));
}
