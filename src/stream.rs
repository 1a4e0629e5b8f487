use vstd::prelude::*;
use vstd::slice::{slice_subrange, slice_to_vec};
use vstd::utf8::{decode_utf8, valid_utf8};

use crate::error::HeaderError;
use crate::header::{parse_header, Header, HEADER_LEN};
use crate::message::{
    frame_len, lemma_msg_round_trip, msg_bytes, msg_wf, topic_end, Msg, MsgModel,
};
use crate::text::string_from_utf8;

verus! {

/// Size of the first chunk that a reader takes from the stream.
pub const FIRST_CHUNK_LEN: usize = 512;

/// Why reading one message from a stream failed.
#[derive(Debug, Clone, Copy, PartialEq, Eq, Structural)]
pub enum ReadError {
    /// The peer closed the stream before a message began.
    Closed,
    /// The header was refused.
    Header(HeaderError),
    /// The stream ended before the whole message arrived.
    ShortRead,
}

/// The topic that bytes `b` name: their characters when they are valid
/// UTF-8, else the empty topic, which routes nowhere.
pub open spec fn soft_topic(b: Seq<u8>) -> Seq<char> {
    if valid_utf8(b) {
        decode_utf8(b)
    } else {
        Seq::empty()
    }
}

/// How many bytes the message that starts with `chunk` takes in all.
pub open spec fn needed_len(chunk: Seq<u8>) -> Result<int, ReadError> {
    if chunk.len() == 0 {
        Err(ReadError::Closed)
    } else {
        match parse_header(chunk) {
            Err(e) => Err(ReadError::Header(e)),
            Ok(h) => Ok(frame_len(h)),
        }
    }
}

/// The message that a reader makes of bytes `b` taken from a stream: the
/// header is checked, a topic that is not UTF-8 becomes the empty topic, and
/// bytes after the message are not looked at.
pub open spec fn read_frame(b: Seq<u8>) -> Result<MsgModel, ReadError> {
    if b.len() == 0 {
        Err(ReadError::Closed)
    } else {
        match parse_header(b) {
            Err(e) => Err(ReadError::Header(e)),
            Ok(h) => if b.len() < frame_len(h) {
                Err(ReadError::ShortRead)
            } else {
                Ok(
                    MsgModel {
                        header: h,
                        topic: soft_topic(b.subrange(HEADER_LEN as int, topic_end(h))),
                        message: b.subrange(topic_end(h), frame_len(h)),
                    },
                )
            },
        }
    }
}

/// Returns how many bytes in all the message that starts with `chunk` takes,
/// header included; fails on an empty chunk (the peer closed the stream) and
/// on a refused header.
pub fn needed_bytes(chunk: &[u8]) -> (r: Result<usize, ReadError>)
    ensures
        r is Ok <==> needed_len(chunk@) is Ok,
        r matches Ok(n) ==> n == needed_len(chunk@)->Ok_0,
        r matches Err(e) ==> needed_len(chunk@) == Err::<int, ReadError>(e),
{
    if chunk.len() == 0 {
        return Err(ReadError::Closed);
    }
    match Header::parse(chunk) {
        Ok(h) => Ok(HEADER_LEN + h.topic_length as usize + h.message_length as usize),
        Err(e) => Err(ReadError::Header(e)),
    }
}

/// Makes a message, without attachments, of the bytes read from a stream.
/// A topic that is not valid UTF-8 becomes the empty topic.
pub fn message_from_frame(b: &[u8]) -> (r: Result<Msg, ReadError>)
    ensures
        r is Ok <==> read_frame(b@) is Ok,
        r matches Ok(m) ==> m@ == read_frame(b@)->Ok_0 && m.channel is None && m.client_id is None,
        r matches Err(e) ==> read_frame(b@) == Err::<MsgModel, ReadError>(e),
{
    if b.len() == 0 {
        return Err(ReadError::Closed);
    }
    let header = match Header::parse(b) {
        Ok(h) => h,
        Err(e) => {
            return Err(ReadError::Header(e));
        },
    };
    let topic_end: usize = HEADER_LEN + header.topic_length as usize;
    let end: usize = topic_end + header.message_length as usize;
    if b.len() < end {
        return Err(ReadError::ShortRead);
    }
    let topic = match string_from_utf8(slice_to_vec(slice_subrange(b, HEADER_LEN, topic_end))) {
        Some(t) => t,
        None => String::new(),
    };
    let message = slice_to_vec(slice_subrange(b, topic_end, end));
    Ok(Msg { header, topic, message, channel: None, client_id: None })
}

/// A reader takes back every message that the encoder writes, whatever
/// follows it on the stream, and knows its length from its first bytes.
pub proof fn lemma_read_encoded(m: MsgModel, rest: Seq<u8>)
    requires
        msg_wf(m),
    ensures
        read_frame(msg_bytes(m) + rest) == Ok::<MsgModel, ReadError>(m),
        needed_len(msg_bytes(m) + rest) == Ok::<int, ReadError>(msg_bytes(m).len() as int),
{
    let b = msg_bytes(m);
    let br = b + rest;
    lemma_msg_round_trip(m);
    assert(br.subrange(0, 8) =~= b.subrange(0, 8));
    assert(parse_header(br) == parse_header(b.subrange(0, 8)));
    assert(parse_header(b) == parse_header(b.subrange(0, 8)));
    let h = m.header;
    assert(br.subrange(HEADER_LEN as int, topic_end(h)) =~= b.subrange(HEADER_LEN as int, topic_end(h)));
    assert(br.subrange(topic_end(h), frame_len(h)) =~= b.subrange(topic_end(h), frame_len(h)));
}

} // verus!
