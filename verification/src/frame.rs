//! The wire format: every message is a length of four bytes, in the byte order of
//! the machine, and then as many bytes of UTF-8 as the length says.

use vstd::prelude::*;
use vstd::utf8::encode_utf8;
use crate::message::{json_text, render, Response};

verus! {

/// The order in which the bytes of a length are written.
#[derive(Clone, Copy, Debug, PartialEq, Eq, Structural)]
pub enum ByteOrder {
    /// The lowest byte first.
    Little,
    /// The highest byte first.
    Big,
}

/// The four bytes of a length, the lowest first.
pub open spec fn low_first(length: u32) -> Seq<u8> {
    seq![
        (length % 256) as u8,
        (length / 256 % 256) as u8,
        (length / 65536 % 256) as u8,
        (length / 16777216) as u8,
    ]
}

/// The four bytes that a length is written as.
pub open spec fn header_of(length: u32, order: ByteOrder) -> Seq<u8> {
    match order {
        ByteOrder::Little => low_first(length),
        ByteOrder::Big => low_first(length).reverse(),
    }
}

/// The number that four bytes stand for, the lowest first.
pub open spec fn number_of(bytes: Seq<u8>) -> int {
    bytes[0] + 256 * bytes[1] + 65536 * bytes[2] + 16777216 * bytes[3]
}

/// The length that a header of four bytes gives.
pub open spec fn length_in(header: Seq<u8>, order: ByteOrder) -> int {
    match order {
        ByteOrder::Little => number_of(header),
        ByteOrder::Big => number_of(header.reverse()),
    }
}

/// `u32::to_ne_bytes`: the bytes of a number in the byte order of the machine, which
/// is one of the two orders.
#[verifier::external_body]
fn native_bytes(number: u32) -> (bytes: [u8; 4])
    ensures
        bytes@ == header_of(number, ByteOrder::Little) || bytes@ == header_of(
            number,
            ByteOrder::Big,
        ),
{
    number.to_ne_bytes()
}

impl ByteOrder {
    /// The byte order of the machine that this runs on.
    pub fn native() -> ByteOrder {
        ByteOrder::writing_one_as(native_bytes(1))
    }

    /// The byte order that writes the number one as the given bytes.
    pub fn writing_one_as(one: [u8; 4]) -> (order: ByteOrder)
        ensures
            order == order_of_one(one@),
            one@ == header_of(1, ByteOrder::Little) || one@ == header_of(1, ByteOrder::Big)
                ==> one@ == header_of(1, order),
    {
        if one[0] == 1 {
            ByteOrder::Little
        } else {
            ByteOrder::Big
        }
    }
}

/// The byte order that writes the number one as the given four bytes: the lowest
/// byte first where the first byte is the one, the highest byte first where it is
/// not.
pub open spec fn order_of_one(one: Seq<u8>) -> ByteOrder {
    if one[0] == 1 {
        ByteOrder::Little
    } else {
        ByteOrder::Big
    }
}

/// Reads the length that a header gives.
pub fn read_length(header: &[u8], order: ByteOrder) -> (length: u32)
    requires
        header@.len() == 4,
    ensures
        length == length_in(header@, order),
{
    let (b0, b1, b2, b3) = match order {
        ByteOrder::Little => (header[0], header[1], header[2], header[3]),
        ByteOrder::Big => (header[3], header[2], header[1], header[0]),
    };
    (b0 as u32) + 256 * (b1 as u32) + 65536 * (b2 as u32) + 16777216 * (b3 as u32)
}

/// Writes a length as a header.
pub fn write_length(length: u32, order: ByteOrder) -> (header: Vec<u8>)
    ensures
        header@ == header_of(length, order),
{
    let b0 = (length % 256) as u8;
    let b1 = (length / 256 % 256) as u8;
    let b2 = (length / 65536 % 256) as u8;
    let b3 = (length / 16777216) as u8;
    let mut header: Vec<u8> = Vec::new();
    match order {
        ByteOrder::Little => {
            header.push(b0);
            header.push(b1);
            header.push(b2);
            header.push(b3);
        },
        ByteOrder::Big => {
            header.push(b3);
            header.push(b2);
            header.push(b1);
            header.push(b0);
        },
    }
    assert(header@ == header_of(length, order));
    header
}

/// A header gives back the length that it was written for.
pub proof fn lemma_length_round_trip(length: u32, order: ByteOrder)
    ensures
        header_of(length, order).len() == 4,
        length_in(header_of(length, order), order) == length,
{
    assert(low_first(length).reverse().reverse() == low_first(length));
}

/// The digits of a number to the base 256 are the bytes that it was made of.
proof fn lemma_digits(b0: int, b1: int, b2: int, b3: int)
    requires
        0 <= b0 < 256,
        0 <= b1 < 256,
        0 <= b2 < 256,
        0 <= b3 < 256,
    ensures
        0 <= b0 + 256 * b1 + 65536 * b2 + 16777216 * b3 <= u32::MAX,
        (b0 + 256 * b1 + 65536 * b2 + 16777216 * b3) % 256 == b0,
        (b0 + 256 * b1 + 65536 * b2 + 16777216 * b3) / 256 % 256 == b1,
        (b0 + 256 * b1 + 65536 * b2 + 16777216 * b3) / 65536 % 256 == b2,
        (b0 + 256 * b1 + 65536 * b2 + 16777216 * b3) / 16777216 == b3,
{
    let number = b0 + 256 * b1 + 65536 * b2 + 16777216 * b3;
    assert(number == b0 + 256 * (b1 + 256 * b2 + 65536 * b3));
    assert(number / 256 == b1 + 256 * b2 + 65536 * b3);
    assert(number / 256 == b1 + 256 * (b2 + 256 * b3));
    assert(number / 65536 == b2 + 256 * b3) by {
        assert(number == (b0 + 256 * b1) + 65536 * (b2 + 256 * b3));
    }
    assert(number / 16777216 == b3) by {
        assert(number == (b0 + 256 * b1 + 65536 * b2) + 16777216 * b3);
    }
}

/// Four bytes are the header of the length that they give, and of no other.
pub proof fn lemma_header_round_trip(header: Seq<u8>, order: ByteOrder)
    requires
        header.len() == 4,
    ensures
        0 <= length_in(header, order) <= u32::MAX,
        header_of(length_in(header, order) as u32, order) == header,
{
    let bytes = match order {
        ByteOrder::Little => header,
        ByteOrder::Big => header.reverse(),
    };
    lemma_digits(bytes[0] as int, bytes[1] as int, bytes[2] as int, bytes[3] as int);
    let length = number_of(bytes) as u32;
    assert(low_first(length) == bytes);
    assert(header.reverse().reverse() == header);
}

/// What the host waits for on its input.
#[derive(Clone, Copy, Debug, PartialEq, Eq, Structural)]
pub enum Expect {
    /// The four bytes of a length.
    Header,
    /// The bytes of a message of the given length, which is not 0.
    Payload(u32),
}

impl Expect {
    /// How many bytes are waited for.
    pub open spec fn size(self) -> nat {
        match self {
            Expect::Header => 4,
            Expect::Payload(length) => length as nat,
        }
    }

    /// How many bytes to read next.
    pub fn bytes_wanted(&self) -> (wanted: usize)
        ensures
            wanted == self.size(),
    {
        match self {
            Expect::Header => 4,
            Expect::Payload(length) => *length as usize,
        }
    }
}

/// What a read on the input led to.
#[derive(Clone, Debug, PartialEq, Eq)]
pub enum Received {
    /// The input ended, or gave fewer bytes than a frame needs: the session is over.
    Closed,
    /// There is more to read before a message is complete. After a header that
    /// gives the length 0 this is the next header: such a frame holds no message.
    Await(Expect),
    /// The bytes of one message.
    Deliver(Vec<u8>),
}

/// The view of a `Received`.
pub enum ReceivedView {
    Closed,
    Await(Expect),
    Deliver(Seq<u8>),
}

impl View for Received {
    type V = ReceivedView;

    open spec fn view(&self) -> ReceivedView {
        match self {
            Received::Closed => ReceivedView::Closed,
            Received::Await(expect) => ReceivedView::Await(*expect),
            Received::Deliver(payload) => ReceivedView::Deliver(payload@),
        }
    }
}

/// Where the bytes that a read gave lead from what was waited for. A read that gave
/// nothing, or not the number of bytes waited for, closes the session.
pub open spec fn accepted(
    expect: Expect,
    chunk: Option<Seq<u8>>,
    order: ByteOrder,
) -> ReceivedView {
    match chunk {
        Some(bytes) if bytes.len() == expect.size() => match expect {
            Expect::Header => if length_in(bytes, order) == 0 {
                ReceivedView::Await(Expect::Header)
            } else {
                ReceivedView::Await(Expect::Payload(length_in(bytes, order) as u32))
            },
            Expect::Payload(_) => ReceivedView::Deliver(bytes),
        },
        _ => ReceivedView::Closed,
    }
}

/// A chunk of bytes that may be missing, by its view.
pub open spec fn chunk_view(chunk: Option<Vec<u8>>) -> Option<Seq<u8>> {
    match chunk {
        Some(bytes) => Some(bytes@),
        None => None,
    }
}

/// Takes the bytes that a read gave, or the news that it gave none.
pub fn receive(expect: Expect, chunk: Option<Vec<u8>>, order: ByteOrder) -> (received: Received)
    ensures
        received@ == accepted(expect, chunk_view(chunk), order),
{
    match chunk {
        Some(bytes) => {
            if bytes.len() != expect.bytes_wanted() {
                return Received::Closed;
            }
            match expect {
                Expect::Header => {
                    let length = read_length(bytes.as_slice(), order);
                    if length == 0 {
                        Received::Await(Expect::Header)
                    } else {
                        Received::Await(Expect::Payload(length))
                    }
                },
                Expect::Payload(_) => Received::Deliver(bytes),
            }
        },
        None => Received::Closed,
    }
}

/// The frame that carries a payload: its length, then the payload. A payload whose
/// length does not fit in four bytes has no frame.
pub open spec fn framed(payload: Seq<u8>, order: ByteOrder) -> Option<Seq<u8>> {
    if payload.len() <= u32::MAX {
        Some(header_of(payload.len() as u32, order) + payload)
    } else {
        None
    }
}

/// Frames a payload.
pub fn encode_frame(payload: &[u8], order: ByteOrder) -> (frame: Option<Vec<u8>>)
    ensures
        chunk_view(frame) == framed(payload@, order),
{
    if payload.len() > u32::MAX as usize {
        return None;
    }
    let mut frame = write_length(payload.len() as u32, order);
    let ghost header = frame@;
    let mut at: usize = 0;
    while at < payload.len()
        invariant
            at <= payload@.len(),
            frame@ == header + payload@.take(at as int),
        decreases payload.len() - at,
    {
        frame.push(payload[at]);
        assert(payload@.take(at + 1) == payload@.take(at as int).push(payload@[at as int]));
        at += 1;
    }
    assert(payload@.take(at as int) == payload@);
    Some(frame)
}

/// Frames a reply: its JSON text, as UTF-8, behind its length.
pub fn frame_response(response: &Response, order: ByteOrder) -> (frame: Option<Vec<u8>>)
    ensures
        chunk_view(frame) == framed(encode_utf8(json_text(response@)), order),
{
    let rendered = render(response);
    encode_frame(rendered.as_str().as_bytes(), order)
}

} // verus!
