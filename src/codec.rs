//! The wire form of an envelope: a MessagePack array of its five fields, in
//! the order method, request target, version code, headers, body.
use vstd::prelude::*;
use vstd::utf8::encode_utf8;

use crate::envelope::{
    header_seq, is_fullpath, is_fullpath_str, is_method, is_method_str, is_stripped_header,
    is_stripped_name, RequestMessage, Version,
};

verus! {

/// rmp_serde's error for a value it could not write, carried opaque.
#[verifier::external_type_specification]
#[verifier::external_body]
pub struct ExEncodeError(rmp_serde::encode::Error);

/// rmp_serde's error for bytes it could not read, carried opaque.
#[verifier::external_type_specification]
#[verifier::external_body]
pub struct ExDecodeError(rmp_serde::decode::Error);

/// The fields of an envelope as plain values.
pub type EnvelopeParts = (Seq<char>, Seq<char>, u32, Seq<(Seq<char>, Seq<char>)>, Seq<u8>);

/// The bytes that MessagePack gives for the array of the five fields.
pub uninterp spec fn msgpack_encoding(parts: EnvelopeParts) -> Seq<u8>;

/// The five fields that MessagePack reads from `bytes`, if they hold such an
/// array.
pub uninterp spec fn msgpack_decoding(bytes: Seq<u8>) -> Option<EnvelopeParts>;

/// Whether every length that MessagePack writes for these fields fits the
/// `u32` it is written as: the byte lengths of the strings, the number of
/// headers and the length of the body.
pub open spec fn fits_wire(p: EnvelopeParts) -> bool {
    &&& encode_utf8(p.0).len() <= u32::MAX
    &&& encode_utf8(p.1).len() <= u32::MAX
    &&& p.3.len() <= u32::MAX
    &&& forall|i: int|
        0 <= i < p.3.len() ==> encode_utf8((#[trigger] p.3[i]).0).len() <= u32::MAX
            && encode_utf8(p.3[i].1).len() <= u32::MAX
    &&& p.4.len() <= u32::MAX
}

/// Where every length of the fields `p` fits the wire, MessagePack reads
/// `bytes` back as exactly those fields.
pub open spec fn read_back(bytes: Seq<u8>, p: EnvelopeParts) -> bool {
    fits_wire(p) ==> msgpack_decoding(bytes) == Some(p)
}

/// Relies on rmp_serde::to_vec to write the tuple of the five fields as a
/// MessagePack array (a tuple and a struct with these fields give the same
/// bytes; the version code is written as an unsigned integer). Writing into a
/// `Vec` never fails, and where every length fits its `u32`, rmp_serde's
/// reading of the same tuple type gives the fields back.
#[verifier::external_body]
fn pack(
    method: &String,
    fullpath: &String,
    version: u32,
    headers: &Vec<(String, String)>,
    body: &Vec<u8>,
) -> (r: Result<Vec<u8>, rmp_serde::encode::Error>)
    ensures
        r is Ok,
        r matches Ok(b) ==> b@ == msgpack_encoding(
            (method@, fullpath@, version, header_seq(headers@), body@),
        ),
        r matches Ok(b) ==> read_back(
            b@,
            (method@, fullpath@, version, header_seq(headers@), body@),
        ),
{
    rmp_serde::to_vec(&(method, fullpath, version, headers, body))
}

/// Relies on rmp_serde::from_slice to read a MessagePack array of the five
/// fields; what it reads depends on the bytes alone.
#[verifier::external_body]
fn unpack(bytes: &[u8]) -> (r: Result<
    (String, String, u32, Vec<(String, String)>, Vec<u8>),
    rmp_serde::decode::Error,
>)
    ensures
        r is Ok <==> msgpack_decoding(bytes@) is Some,
        r matches Ok(p) ==> msgpack_decoding(bytes@) == Some(
            (p.0@, p.1@, p.2, header_seq(p.3@), p.4@),
        ),
{
    rmp_serde::from_slice(bytes)
}

/// Why bytes are not an envelope.
#[derive(Clone, Copy, Debug, PartialEq, Eq, Structural)]
pub enum DecodeError {
    /// The bytes are not a MessagePack array of the five fields.
    Malformed,
    /// The method is not a non-empty token.
    InvalidMethod,
    /// The request target does not begin with `/`.
    InvalidTarget,
    /// The version code is outside the table.
    UnknownVersion,
    /// A header has a name that capture strips.
    StrippedHeader,
}

/// Whether no header of the sequence has a stripped name.
pub open spec fn no_stripped_names(headers: Seq<(Seq<char>, Seq<char>)>) -> bool {
    forall|i: int| 0 <= i < headers.len() ==> !is_stripped_name(#[trigger] headers[i].0)
}

/// The first envelope invariant that decoded fields break, if any.
pub open spec fn parts_error(p: EnvelopeParts) -> Option<DecodeError> {
    if !is_method(p.0) {
        Some(DecodeError::InvalidMethod)
    } else if !is_fullpath(p.1) {
        Some(DecodeError::InvalidTarget)
    } else if p.2 > 4 {
        Some(DecodeError::UnknownVersion)
    } else if !no_stripped_names(p.3) {
        Some(DecodeError::StrippedHeader)
    } else {
        None
    }
}

impl RequestMessage {
    /// The fields as plain values.
    pub open spec fn parts(&self) -> EnvelopeParts {
        (self.method@, self.fullpath@, self.version.0, self.header_view(), self.body@)
    }

    /// Builds an envelope from decoded fields, checking its invariants.
    pub fn from_parts(
        method: String,
        fullpath: String,
        version: u32,
        headers: Vec<(String, String)>,
        body: Vec<u8>,
    ) -> (r: Result<RequestMessage, DecodeError>)
        ensures
            ({
                let p = (method@, fullpath@, version, header_seq(headers@), body@);
                match parts_error(p) {
                    Some(e) => r == Err::<RequestMessage, DecodeError>(e),
                    None => r matches Ok(m) && m.parts() == p && m.wf(),
                }
            }),
    {
        if !is_method_str(method.as_str()) {
            return Err(DecodeError::InvalidMethod);
        }
        if !is_fullpath_str(fullpath.as_str()) {
            return Err(DecodeError::InvalidTarget);
        }
        if version > 4 {
            return Err(DecodeError::UnknownVersion);
        }
        let mut i: usize = 0;
        while i < headers.len()
            invariant
                is_method(method@),
                is_fullpath(fullpath@),
                version <= 4,
                i <= headers@.len(),
                forall|j: int| 0 <= j < i ==> !is_stripped_name(#[trigger] headers@[j].0@),
            decreases headers@.len() - i,
        {
            if is_stripped_header(headers[i].0.as_str()) {
                proof {
                    assert(header_seq(headers@)[i as int].0 == headers@[i as int].0@);
                    assert(is_stripped_name(header_seq(headers@)[i as int].0));
                    assert(!no_stripped_names(header_seq(headers@)));
                }
                return Err(DecodeError::StrippedHeader);
            }
            i = i + 1;
        }
        proof {
            assert forall|j: int| 0 <= j < header_seq(headers@).len() implies !is_stripped_name(
                #[trigger] header_seq(headers@)[j].0,
            ) by {
                assert(header_seq(headers@)[j].0 == headers@[j].0@);
            }
        }
        Ok(RequestMessage { method, fullpath, version: Version(version), headers, body })
    }
}

impl RequestMessage {
    /// A copy of the envelope.
    pub fn duplicate(&self) -> (r: RequestMessage)
        ensures
            r.parts() == self.parts(),
            r.wf() == self.wf(),
    {
        let mut headers: Vec<(String, String)> = Vec::new();
        let mut i: usize = 0;
        while i < self.headers.len()
            invariant
                i <= self.headers@.len(),
                header_seq(headers@) == header_seq(self.headers@.take(i as int)),
            decreases self.headers@.len() - i,
        {
            let h = &self.headers[i];
            headers.push((h.0.clone(), h.1.clone()));
            proof {
                assert(header_seq(self.headers@.take(i + 1)) =~= header_seq(self.headers@.take(i as int)).push((h.0@, h.1@)));
                assert(header_seq(headers@) =~= header_seq(self.headers@.take(i + 1)));
            }
            i = i + 1;
        }
        let mut body: Vec<u8> = Vec::new();
        let mut j: usize = 0;
        while j < self.body.len()
            invariant
                j <= self.body@.len(),
                body@ == self.body@.take(j as int),
            decreases self.body@.len() - j,
        {
            body.push(self.body[j]);
            proof {
                assert(self.body@.take(j + 1) =~= self.body@.take(j as int).push(self.body@[j as int]));
            }
            j = j + 1;
        }
        proof {
            assert(self.headers@.take(self.headers@.len() as int) =~= self.headers@);
            assert(self.body@.take(self.body@.len() as int) =~= self.body@);
        }
        let r = RequestMessage {
            method: self.method.clone(),
            fullpath: self.fullpath.clone(),
            version: self.version,
            headers,
            body,
        };
        proof {
            lemma_parts_error_iff_wf(r);
            lemma_parts_error_iff_wf(*self);
        }
        r
    }
}

/// An envelope's fields pass the checks of decoding exactly when the envelope
/// keeps its invariants.
pub proof fn lemma_parts_error_iff_wf(m: RequestMessage)
    ensures
        parts_error(m.parts()) is None <==> m.wf(),
{
    if m.wf() {
        assert forall|j: int| 0 <= j < m.header_view().len() implies !is_stripped_name(
            #[trigger] m.header_view()[j].0,
        ) by {
            assert(m.header_view()[j].0 == m.headers@[j].0@);
        }
    }
    if parts_error(m.parts()) is None {
        assert forall|j: int| 0 <= j < m.headers@.len() implies !is_stripped_name(
            #[trigger] m.headers@[j].0@,
        ) by {
            assert(m.header_view()[j].0 == m.headers@[j].0@);
        }
    }
}

/// Writes an envelope as one binary frame's payload. For an envelope that
/// keeps its invariants and whose lengths fit the wire, reading the bytes back
/// gives its fields again, and decoding accepts them.
pub fn encode_message(msg: &RequestMessage) -> (r: Vec<u8>)
    ensures
        r@ == msgpack_encoding(msg.parts()),
        fits_wire(msg.parts()) ==> msgpack_decoding(r@) == Some(msg.parts()),
        msg.wf() && fits_wire(msg.parts()) ==> decode_outcome(msgpack_decoding(r@)) is None,
{
    proof {
        lemma_parts_error_iff_wf(*msg);
    }
    match pack(&msg.method, &msg.fullpath, msg.version.0, &msg.headers, &msg.body) {
        Ok(b) => b,
        Err(_) => {
            assert(false);
            Vec::new()
        },
    }
}

/// The outcome of decoding bytes whose MessagePack reading is `decoded`.
pub open spec fn decode_outcome(decoded: Option<EnvelopeParts>) -> Option<DecodeError> {
    match decoded {
        None => Some(DecodeError::Malformed),
        Some(p) => parts_error(p),
    }
}

/// Reads an envelope from one binary frame's payload: the bytes must hold the
/// MessagePack array of the five fields, and the fields must keep the
/// envelope's invariants.
pub fn decode_message(bytes: &[u8]) -> (r: Result<RequestMessage, DecodeError>)
    ensures
        match decode_outcome(msgpack_decoding(bytes@)) {
            Some(e) => r == Err::<RequestMessage, DecodeError>(e),
            None => r matches Ok(m) && Some(m.parts()) == msgpack_decoding(bytes@) && m.wf(),
        },
{
    match unpack(bytes) {
        Ok(p) => RequestMessage::from_parts(p.0, p.1, p.2, p.3, p.4),
        Err(_) => Err(DecodeError::Malformed),
    }
}

} // verus!
