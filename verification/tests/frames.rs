use tridactyl_native::frame::{
    encode_frame, frame_response, read_length, receive, write_length, ByteOrder, Expect, Received,
};
use tridactyl_native::message::Response;

#[test]
fn native_order_is_that_of_the_machine() {
    let expected = if 1u32.to_ne_bytes() == 1u32.to_le_bytes() {
        ByteOrder::Little
    } else {
        ByteOrder::Big
    };
    assert_eq!(ByteOrder::native(), expected);
    assert_eq!(write_length(0x01020304, ByteOrder::native()), 0x01020304u32.to_ne_bytes().to_vec());
    assert_eq!(read_length(&0x01020304u32.to_ne_bytes(), ByteOrder::native()), 0x01020304);
}

#[test]
fn the_bytes_of_one_tell_the_order() {
    assert_eq!(ByteOrder::writing_one_as(1u32.to_le_bytes()), ByteOrder::Little);
    assert_eq!(ByteOrder::writing_one_as(1u32.to_be_bytes()), ByteOrder::Big);
    assert_eq!(ByteOrder::writing_one_as(1u32.to_ne_bytes()), ByteOrder::native());
    assert_eq!(ByteOrder::writing_one_as([1, 0, 0, 0]), ByteOrder::Little);
    assert_eq!(ByteOrder::writing_one_as([0, 0, 0, 1]), ByteOrder::Big);
}

#[test]
fn lengths_are_written_in_both_orders() {
    assert_eq!(write_length(0x01020304, ByteOrder::Little), vec![4, 3, 2, 1]);
    assert_eq!(write_length(0x01020304, ByteOrder::Big), vec![1, 2, 3, 4]);
    assert_eq!(write_length(0, ByteOrder::Little), vec![0, 0, 0, 0]);
    assert_eq!(write_length(u32::MAX, ByteOrder::Big), vec![255, 255, 255, 255]);
    assert_eq!(write_length(256, ByteOrder::Little), vec![0, 1, 0, 0]);
}

#[test]
fn lengths_are_read_in_both_orders() {
    assert_eq!(read_length(&[4, 3, 2, 1], ByteOrder::Little), 0x01020304);
    assert_eq!(read_length(&[4, 3, 2, 1], ByteOrder::Big), 0x04030201);
    assert_eq!(read_length(&[255, 255, 255, 255], ByteOrder::Little), u32::MAX);
    assert_eq!(read_length(&[0, 0, 1, 0], ByteOrder::Big), 256);
}

#[test]
fn a_length_survives_writing_and_reading() {
    for order in [ByteOrder::Little, ByteOrder::Big] {
        for length in [0u32, 1, 255, 256, 65535, 65536, 16777215, 16777216, 0xdeadbeef, u32::MAX] {
            assert_eq!(read_length(&write_length(length, order), order), length);
        }
    }
}

#[test]
fn expect_says_how_many_bytes_it_wants() {
    assert_eq!(Expect::Header.bytes_wanted(), 4);
    assert_eq!(Expect::Payload(17).bytes_wanted(), 17);
}

#[test]
fn a_header_announces_its_payload() {
    assert_eq!(
        receive(Expect::Header, Some(vec![5, 0, 0, 0]), ByteOrder::Little),
        Received::Await(Expect::Payload(5))
    );
    assert_eq!(
        receive(Expect::Header, Some(vec![5, 0, 0, 0]), ByteOrder::Big),
        Received::Await(Expect::Payload(0x05000000))
    );
}

#[test]
fn a_frame_of_length_zero_holds_no_message() {
    assert_eq!(
        receive(Expect::Header, Some(vec![0, 0, 0, 0]), ByteOrder::Little),
        Received::Await(Expect::Header)
    );
}

#[test]
fn a_complete_payload_is_delivered() {
    assert_eq!(
        receive(Expect::Payload(2), Some(vec![123, 125]), ByteOrder::Little),
        Received::Deliver(vec![123, 125])
    );
}

#[test]
fn a_frame_longer_than_the_input_closes_the_session() {
    assert_eq!(receive(Expect::Payload(10), Some(vec![1, 2, 3]), ByteOrder::Little), Received::Closed);
    assert_eq!(receive(Expect::Payload(10), Some(vec![]), ByteOrder::Little), Received::Closed);
    assert_eq!(receive(Expect::Payload(10), None, ByteOrder::Little), Received::Closed);
}

#[test]
fn an_input_that_ends_in_a_header_closes_the_session() {
    assert_eq!(receive(Expect::Header, Some(vec![1, 0]), ByteOrder::Little), Received::Closed);
    assert_eq!(receive(Expect::Header, None, ByteOrder::Big), Received::Closed);
}

#[test]
fn more_bytes_than_asked_for_close_the_session() {
    assert_eq!(receive(Expect::Header, Some(vec![1, 0, 0, 0, 0]), ByteOrder::Little), Received::Closed);
    assert_eq!(receive(Expect::Payload(1), Some(vec![1, 2]), ByteOrder::Little), Received::Closed);
}

#[test]
fn a_frame_is_the_length_and_the_payload() {
    assert_eq!(encode_frame(b"{}", ByteOrder::Little), Some(vec![2, 0, 0, 0, 123, 125]));
    assert_eq!(encode_frame(b"{}", ByteOrder::Big), Some(vec![0, 0, 0, 2, 123, 125]));
    assert_eq!(encode_frame(b"", ByteOrder::Little), Some(vec![0, 0, 0, 0]));
}

#[test]
fn what_is_framed_is_received() {
    let payload = "{\"cmd\":\"version\"}".as_bytes().to_vec();
    for order in [ByteOrder::Little, ByteOrder::Big] {
        let frame = encode_frame(&payload, order).unwrap();
        let next = receive(Expect::Header, Some(frame[..4].to_vec()), order);
        assert_eq!(next, Received::Await(Expect::Payload(payload.len() as u32)));
        assert_eq!(
            receive(Expect::Payload(payload.len() as u32), Some(frame[4..].to_vec()), order),
            Received::Deliver(payload.clone())
        );
    }
}

#[test]
fn a_reply_is_framed_as_its_json() {
    let reply = Response::with_code("mkdir", 0);
    let text = "{\"cmd\":\"mkdir\",\"code\":0}";
    let mut expected = vec![text.len() as u8, 0, 0, 0];
    expected.extend_from_slice(text.as_bytes());
    assert_eq!(frame_response(&reply, ByteOrder::Little), Some(expected));
}

#[test]
fn the_length_of_a_frame_counts_bytes() {
    let mut reply = Response::new("env");
    reply.put("content", tridactyl_native::message::Item::Text("ä".to_string()));
    let frame = frame_response(&reply, ByteOrder::Little).unwrap();
    assert_eq!(frame[0] as usize, "{\"cmd\":\"env\",\"content\":\"ä\"}".len());
    assert_eq!(frame.len(), 4 + frame[0] as usize);
}
