//! Network addresses, packets, and the byte stream that packets are built
//! from and read back out of. Numbers travel most significant byte first;
//! text travels as its length in bytes and then its UTF-8 bytes.

use vstd::prelude::*;
use vstd::string::StringExecFns;
use vstd::string::StringSliceAdditionalSpecFns;
use vstd::utf8::{decode_utf8, encode_utf8, encode_utf8_decode_utf8, encode_utf8_valid_utf8, valid_utf8};

verus! {

/// The character of a decimal digit.
pub open spec fn digit_char(d: nat) -> char {
    if d == 0 {
        '0'
    } else if d == 1 {
        '1'
    } else if d == 2 {
        '2'
    } else if d == 3 {
        '3'
    } else if d == 4 {
        '4'
    } else if d == 5 {
        '5'
    } else if d == 6 {
        '6'
    } else if d == 7 {
        '7'
    } else if d == 8 {
        '8'
    } else {
        '9'
    }
}

/// A number written in decimal, without leading zeros.
pub open spec fn decimal(n: nat) -> Seq<char>
    decreases n,
{
    if n < 10 {
        seq![digit_char(n)]
    } else {
        decimal(n / 10) + seq![digit_char(n % 10)]
    }
}

/// An address written out: the four parts of the IP separated by dots, a
/// colon, the port.
pub open spec fn address_text(ip: Seq<u8>, port: u16) -> Seq<char> {
    decimal(ip[0] as nat) + seq!['.'] + decimal(ip[1] as nat) + seq!['.'] + decimal(ip[2] as nat)
        + seq!['.'] + decimal(ip[3] as nat) + seq![':'] + decimal(port as nat)
}

fn digit_text(d: u16) -> (text: &'static str)
    requires
        d < 10,
    ensures
        text@ == seq![digit_char(d as nat)],
{
    proof {
        reveal_strlit("0");
        reveal_strlit("1");
        reveal_strlit("2");
        reveal_strlit("3");
        reveal_strlit("4");
        reveal_strlit("5");
        reveal_strlit("6");
        reveal_strlit("7");
        reveal_strlit("8");
        reveal_strlit("9");
    }
    let text = if d == 0 {
        "0"
    } else if d == 1 {
        "1"
    } else if d == 2 {
        "2"
    } else if d == 3 {
        "3"
    } else if d == 4 {
        "4"
    } else if d == 5 {
        "5"
    } else if d == 6 {
        "6"
    } else if d == 7 {
        "7"
    } else if d == 8 {
        "8"
    } else {
        "9"
    };
    assert(text@ =~= seq![digit_char(d as nat)]);
    text
}

/// Appends `n` in decimal.
fn push_decimal(out: &mut String, n: u16)
    ensures
        final(out)@ == old(out)@ + decimal(n as nat),
    decreases n,
{
    if n >= 10 {
        push_decimal(out, n / 10);
    }
    out.append(digit_text(n % 10));
    assert(out@ =~= old(out)@ + decimal(n as nat));
}

/// An IPv4 address and a port.
#[derive(Clone, Copy, PartialEq, Eq, Hash, Debug)]
pub struct ArkAddress {
    pub ip: [u8; 4],
    pub port: u16,
}

impl ArkAddress {
    pub fn new(ip: [u8; 4], port: u16) -> (address: Self)
        ensures
            address.ip == ip,
            address.port == port,
    {
        Self { ip, port }
    }

    /// The address written out, as in "127.0.0.1:53640".
    pub fn to_string(&self) -> (text: String)
        ensures
            text@ == address_text(self.ip@, self.port),
    {
        proof {
            reveal_strlit(".");
            reveal_strlit(":");
        }
        let mut text = String::new();
        push_decimal(&mut text, self.ip[0] as u16);
        text.append(".");
        push_decimal(&mut text, self.ip[1] as u16);
        text.append(".");
        push_decimal(&mut text, self.ip[2] as u16);
        text.append(".");
        push_decimal(&mut text, self.ip[3] as u16);
        text.append(":");
        push_decimal(&mut text, self.port);
        assert(text@ =~= address_text(self.ip@, self.port));
        text
    }
}

/// A packet: its bytes.
pub struct ArkPacket {
    pub data: Vec<u8>,
}

impl ArkPacket {
    pub fn new() -> (packet: Self)
        ensures
            packet.data@ == Seq::<u8>::empty(),
    {
        Self { data: Vec::new() }
    }

    /// An empty packet with room for `capacity` bytes.
    pub fn with_capacity(capacity: usize) -> (packet: Self)
        ensures
            packet.data@ == Seq::<u8>::empty(),
    {
        Self { data: Vec::with_capacity(capacity) }
    }

    pub fn from_data(data: Vec<u8>) -> (packet: Self)
        ensures
            packet.data == data,
    {
        Self { data }
    }

    pub fn size(&self) -> (size: usize)
        ensures
            size == self.data@.len(),
    {
        self.data.len()
    }

    pub fn clear(&mut self)
        ensures
            final(self).data@ == Seq::<u8>::empty(),
    {
        self.data.clear();
    }

    /// The packet of the `len` bytes from position `start` on.
    pub fn sub_packet(&self, start: usize, len: usize) -> (packet: ArkPacket)
        requires
            start + len <= self.data@.len(),
        ensures
            packet.data@ == self.data@.subrange(start as int, start + len),
    {
        let total = self.data.len();
        let mut data: Vec<u8> = Vec::with_capacity(len);
        let mut i: usize = 0;
        while i < len
            invariant
                i <= len,
                total == self.data@.len(),
                start + len <= total,
                data@ =~= self.data@.subrange(start as int, start + i),
            decreases len - i,
        {
            data.push(self.data[start + i]);
            i += 1;
        }
        ArkPacket::from_data(data)
    }
}

impl Clone for ArkPacket {
    fn clone(&self) -> (packet: Self)
        ensures
            packet.data@ == self.data@,
    {
        Self { data: self.data.clone() }
    }
}

/// The two bytes of `v`, most significant first.
pub open spec fn be16(v: u16) -> Seq<u8> {
    seq![(v / 256) as u8, (v % 256) as u8]
}

/// The number whose two bytes are the first two of `b`.
pub open spec fn from_be16(b: Seq<u8>) -> u16 {
    (b[0] * 256 + b[1]) as u16
}

/// The four bytes of `v`, most significant first.
pub open spec fn be32(v: u32) -> Seq<u8> {
    seq![
        (v / 16777216) as u8,
        ((v / 65536) % 256) as u8,
        ((v / 256) % 256) as u8,
        (v % 256) as u8,
    ]
}

/// The number whose four bytes are the first four of `b`.
pub open spec fn from_be32(b: Seq<u8>) -> u32 {
    (b[0] * 16777216 + b[1] * 65536 + b[2] * 256 + b[3]) as u32
}

/// The bit pattern of `v` in two's complement.
pub open spec fn bits_of(v: i32) -> u32 {
    if v >= 0 {
        v as u32
    } else {
        (v + 0x1_0000_0000) as u32
    }
}

/// The number whose bit pattern in two's complement is `bits`.
pub open spec fn from_bits(bits: u32) -> i32 {
    if bits <= 0x7fff_ffff {
        bits as i32
    } else {
        (bits - 0x1_0000_0000) as i32
    }
}

/// The length that travels in front of a text of `len` bytes: the low 32
/// bits of `len`.
pub open spec fn length_prefix(len: nat) -> u32 {
    (len % 0x1_0000_0000) as u32
}

/// A text as it travels: length, then UTF-8 bytes.
pub open spec fn text_frame(text: Seq<char>) -> Seq<u8> {
    be32(length_prefix(encode_utf8(text).len())) + encode_utf8(text)
}

/// The text that `String::from_utf8_lossy` makes of `bytes`.
pub uninterp spec fn lossy_text(bytes: Seq<u8>) -> Seq<char>;

/// `String::from_utf8_lossy`, made into an owned string: the result is a
/// function of the bytes alone, and for valid UTF-8 it is the text that the
/// bytes encode.
#[verifier::external_body]
fn text_from_bytes(bytes: &Vec<u8>) -> (text: String)
    ensures
        text@ == lossy_text(bytes@),
        valid_utf8(bytes@) ==> text@ == decode_utf8(bytes@),
{
    String::from_utf8_lossy(bytes).to_string()
}

fn append_bytes(data: &mut Vec<u8>, bytes: &[u8])
    ensures
        final(data)@ == old(data)@ + bytes@,
{
    let n = bytes.len();
    let mut i: usize = 0;
    while i < n
        invariant
            i <= n,
            n == bytes@.len(),
            data@ =~= old(data)@ + bytes@.take(i as int),
        decreases n - i,
    {
        data.push(bytes[i]);
        i += 1;
    }
    assert(bytes@.take(n as int) =~= bytes@);
}

/// Takes the first `n` bytes off `data`.
fn take_front(data: &mut Vec<u8>, n: usize) -> (front: Vec<u8>)
    requires
        n <= old(data)@.len(),
    ensures
        front@ == old(data)@.take(n as int),
        final(data)@ == old(data)@.skip(n as int),
{
    let mut rest = data.split_off(n);
    std::mem::swap(data, &mut rest);
    assert(rest@ =~= old(data)@.take(n as int));
    assert(data@ =~= old(data)@.skip(n as int));
    rest
}

/// A queue of bytes: written at the back, read from the front.
pub struct ArkStream {
    data: Vec<u8>,
}

impl View for ArkStream {
    type V = Seq<u8>;

    closed spec fn view(&self) -> Seq<u8> {
        self.data@
    }
}

impl ArkStream {
    pub fn new() -> (stream: Self)
        ensures
            stream@ == Seq::<u8>::empty(),
    {
        Self { data: Vec::new() }
    }

    pub fn write_u8(&mut self, value: u8)
        ensures
            final(self)@ == old(self)@.push(value),
    {
        self.data.push(value);
    }

    /// Writes `value`, most significant byte first.
    pub fn write_u16(&mut self, value: u16)
        ensures
            final(self)@ == old(self)@ + be16(value),
    {
        self.data.push((value / 256) as u8);
        self.data.push((value % 256) as u8);
        assert(self@ =~= old(self)@ + be16(value));
    }

    /// Writes `value`, most significant byte first.
    pub fn write_u32(&mut self, value: u32)
        ensures
            final(self)@ == old(self)@ + be32(value),
    {
        self.data.push((value / 16777216) as u8);
        self.data.push(((value / 65536) % 256) as u8);
        self.data.push(((value / 256) % 256) as u8);
        self.data.push((value % 256) as u8);
        assert(self@ =~= old(self)@ + be32(value));
    }

    /// Writes the two's complement of `value`, most significant byte first.
    pub fn write_i32(&mut self, value: i32)
        ensures
            final(self)@ == old(self)@ + be32(bits_of(value)),
    {
        let bits: u32 = if value >= 0 {
            value as u32
        } else {
            (value as i64 + 0x1_0000_0000) as u32
        };
        self.write_u32(bits);
    }

    /// Writes the length of `value` in bytes, then its UTF-8 bytes.
    pub fn write_string(&mut self, value: &str)
        ensures
            final(self)@ == old(self)@ + text_frame(value@),
    {
        let bytes = value.as_bytes();
        let len: u32 = (bytes.len() as u64 % 0x1_0000_0000) as u32;
        self.write_u32(len);
        append_bytes(&mut self.data, bytes);
        assert(self@ =~= old(self)@ + text_frame(value@));
    }

    pub fn write_bytes(&mut self, bytes: &[u8])
        ensures
            final(self)@ == old(self)@ + bytes@,
    {
        append_bytes(&mut self.data, bytes);
    }

    /// Takes the first byte, if there is one.
    pub fn read_u8(&mut self) -> (value: Option<u8>)
        ensures
            old(self)@.len() < 1 ==> value is None && final(self)@ == old(self)@,
            old(self)@.len() >= 1 ==> value == Some(old(self)@[0]) && final(self)@ == old(self)@.skip(1),
    {
        if self.data.len() == 0 {
            None
        } else {
            let first = self.data.remove(0);
            assert(self@ =~= old(self)@.skip(1));
            Some(first)
        }
    }

    /// Takes the first two bytes, if there are two, as a number.
    pub fn read_u16(&mut self) -> (value: Option<u16>)
        ensures
            old(self)@.len() < 2 ==> value is None && final(self)@ == old(self)@,
            old(self)@.len() >= 2 ==> value == Some(from_be16(old(self)@)) && final(self)@ == old(self)@.skip(2),
    {
        if self.data.len() < 2 {
            None
        } else {
            let value: u16 = self.data[0] as u16 * 256 + self.data[1] as u16;
            let _front = take_front(&mut self.data, 2);
            Some(value)
        }
    }

    /// Takes the first four bytes, if there are four, as a number.
    pub fn read_u32(&mut self) -> (value: Option<u32>)
        ensures
            old(self)@.len() < 4 ==> value is None && final(self)@ == old(self)@,
            old(self)@.len() >= 4 ==> value == Some(from_be32(old(self)@)) && final(self)@ == old(self)@.skip(4),
    {
        if self.data.len() < 4 {
            None
        } else {
            let value: u32 = self.data[0] as u32 * 16777216 + self.data[1] as u32 * 65536
                + self.data[2] as u32 * 256 + self.data[3] as u32;
            let _front = take_front(&mut self.data, 4);
            Some(value)
        }
    }

    /// Takes the first four bytes, if there are four, as a number in two's
    /// complement.
    pub fn read_i32(&mut self) -> (value: Option<i32>)
        ensures
            old(self)@.len() < 4 ==> value is None && final(self)@ == old(self)@,
            old(self)@.len() >= 4 ==> value == Some(from_bits(from_be32(old(self)@))) && final(self)@ == old(self)@.skip(4),
    {
        match self.read_u32() {
            None => None,
            Some(bits) => {
                let value: i32 = if bits <= 0x7fff_ffff {
                    bits as i32
                } else {
                    (bits as i64 - 0x1_0000_0000) as i32
                };
                Some(value)
            },
        }
    }

    /// Takes a length and then that many bytes as text. Where fewer than four
    /// bytes are there, nothing is taken. Where the length is there but not
    /// that many bytes behind it, the length is taken and no text is made.
    pub fn read_string(&mut self) -> (value: Option<String>)
        ensures
            final(self)@ == string_rest(old(self)@),
            match value {
                Some(text) => string_body(old(self)@) matches Some(bytes) && text@ == lossy_text(
                    bytes,
                ) && (valid_utf8(bytes) ==> text@ == decode_utf8(bytes)),
                None => string_body(old(self)@) is None,
            },
    {
        match self.read_u32() {
            None => None,
            Some(len) => {
                if self.data.len() < len as usize {
                    None
                } else {
                    let bytes = take_front(&mut self.data, len as usize);
                    assert(bytes@ =~= old(self)@.subrange(4, 4 + len));
                    assert(self@ =~= old(self)@.skip(4 + len));
                    Some(text_from_bytes(&bytes))
                }
            },
        }
    }

    /// What is still to be read.
    pub fn remaining_data(&self) -> (bytes: &[u8])
        ensures
            bytes@ == self@,
    {
        self.data.as_slice()
    }

    pub fn clear(&mut self)
        ensures
            final(self)@ == Seq::<u8>::empty(),
    {
        self.data.clear();
    }

    /// The packet of what is still to be read.
    pub fn to_packet(self) -> (packet: ArkPacket)
        ensures
            packet.data@ == self@,
    {
        ArkPacket::from_data(self.data)
    }

    /// The stream that reads `packet` from its first byte on.
    pub fn from_packet(packet: ArkPacket) -> (stream: Self)
        ensures
            stream@ == packet.data@,
    {
        Self { data: packet.data }
    }
}

/// The first byte of the packet that tells a peer that it is disconnected.
pub const DISCONNECT_PACKET_TYPE: u8 = 0xFF;

/// The packet that tells a peer that it is disconnected, and why: the type
/// byte, then the reason as text.
pub fn disconnect_packet(reason: &str) -> (packet: ArkPacket)
    ensures
        packet.data@ == seq![DISCONNECT_PACKET_TYPE] + text_frame(reason@),
{
    let mut stream = ArkStream::new();
    stream.write_u8(DISCONNECT_PACKET_TYPE);
    stream.write_string(reason);
    let packet = stream.to_packet();
    assert(packet.data@ =~= seq![DISCONNECT_PACKET_TYPE] + text_frame(reason@));
    packet
}

/// The bytes of the text at the front of `data`: there are four bytes of
/// length and then at least that many bytes.
pub open spec fn string_body(data: Seq<u8>) -> Option<Seq<u8>> {
    if data.len() >= 4 && data.len() - 4 >= from_be32(data) {
        Some(data.subrange(4, 4 + from_be32(data)))
    } else {
        None
    }
}

/// What `read_string` leaves of `data`.
pub open spec fn string_rest(data: Seq<u8>) -> Seq<u8> {
    if data.len() < 4 {
        data
    } else if data.len() - 4 < from_be32(data) {
        data.skip(4)
    } else {
        data.skip(4 + from_be32(data))
    }
}

/// A number of sixteen bits is read back as it was written.
pub proof fn law_u16_round_trip(v: u16, rest: Seq<u8>)
    ensures
        from_be16(be16(v) + rest) == v,
        (be16(v) + rest).skip(2) == rest,
{
    assert((be16(v) + rest)[0] == be16(v)[0]);
    assert((be16(v) + rest)[1] == be16(v)[1]);
    assert((be16(v) + rest).skip(2) =~= rest);
}

/// A number of thirty-two bits is read back as it was written.
pub proof fn law_u32_round_trip(v: u32, rest: Seq<u8>)
    ensures
        from_be32(be32(v) + rest) == v,
        (be32(v) + rest).skip(4) == rest,
{
    let b = be32(v) + rest;
    assert(b[0] == be32(v)[0] && b[1] == be32(v)[1] && b[2] == be32(v)[2] && b[3] == be32(v)[3]);
    assert(b.skip(4) =~= rest);
}

/// A signed number is read back as it was written.
pub proof fn law_i32_round_trip(v: i32, rest: Seq<u8>)
    ensures
        from_bits(from_be32(be32(bits_of(v)) + rest)) == v,
{
    law_u32_round_trip(bits_of(v), rest);
}

/// A text of fewer than 2^32 bytes is read back as it was written, and what
/// was written behind it is left.
pub proof fn law_string_round_trip(text: Seq<char>, rest: Seq<u8>)
    requires
        encode_utf8(text).len() < 0x1_0000_0000,
    ensures
        string_body(text_frame(text) + rest) == Some(encode_utf8(text)),
        valid_utf8(encode_utf8(text)),
        decode_utf8(encode_utf8(text)) == text,
        string_rest(text_frame(text) + rest) == rest,
{
    let bytes = encode_utf8(text);
    let len = length_prefix(bytes.len());
    let data = text_frame(text) + rest;
    assert(data =~= be32(len) + (bytes + rest));
    law_u32_round_trip(len, bytes + rest);
    assert(data.subrange(4, 4 + len) =~= bytes);
    assert(data.skip(4 + len) =~= rest);
    encode_utf8_valid_utf8(text);
    encode_utf8_decode_utf8(text);
}

} // verus!
