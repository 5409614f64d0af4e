use vstd::prelude::*;

verus! {

/// The byte that ends a frame on the wire.
pub const NEWLINE: u8 = 10;

/// The byte that a line may carry before its newline; it is not part of the frame.
pub const CARRIAGE_RETURN: u8 = 13;

/// A command sent by a client to the daemon.
#[derive(Clone, Copy, Debug, PartialEq, Eq, Structural)]
pub enum IpcRequest {
    Status,
    Inhibit,
    Uninhibit,
    Kill,
}

/// An answer the daemon may give to a client.
#[derive(Clone, Copy, Debug, PartialEq, Eq, Structural)]
pub enum IpcResponse {
    Success,
    Failure,
}

/// Why a frame does not hold a request.
#[derive(Clone, Copy, Debug, PartialEq, Eq, Structural)]
pub enum DecodeError {
    /// The bytes are not one encoded variant index.
    Malformed,
    /// The variant index names no request.
    UnknownVariant,
}

/// The variant index that stands for a request on the wire.
pub open spec fn tag_of(r: IpcRequest) -> u8 {
    match r {
        IpcRequest::Status => 0,
        IpcRequest::Inhibit => 1,
        IpcRequest::Uninhibit => 2,
        IpcRequest::Kill => 3,
    }
}

/// The request that a variant index stands for, if any.
pub open spec fn request_of_tag(t: u8) -> Option<IpcRequest> {
    if t == 0 {
        Some(IpcRequest::Status)
    } else if t == 1 {
        Some(IpcRequest::Inhibit)
    } else if t == 2 {
        Some(IpcRequest::Uninhibit)
    } else if t == 3 {
        Some(IpcRequest::Kill)
    } else {
        None
    }
}

/// The bytes of an encoded request: its variant index as one byte.
pub open spec fn encoding(r: IpcRequest) -> Seq<u8> {
    seq![tag_of(r)]
}

/// What decoding a frame gives.
pub open spec fn decoding(b: Seq<u8>) -> Result<IpcRequest, DecodeError> {
    if b.len() != 1 {
        Err(DecodeError::Malformed)
    } else {
        match request_of_tag(b[0]) {
            Some(r) => Ok(r),
            None => Err(DecodeError::UnknownVariant),
        }
    }
}

/// Relies on `bitcode::encode::<u8>`: a lone `u8` is written as that one byte.
#[verifier::external_body]
fn bitcode_encode_byte(v: u8) -> (r: Vec<u8>)
    ensures
        r@ == seq![v],
{
    bitcode::encode(&v)
}

/// Relies on `bitcode::decode::<u8>`: it accepts exactly one byte and gives it back.
#[verifier::external_body]
fn bitcode_decode_byte(b: &[u8]) -> (r: Option<u8>)
    ensures
        r == (if b@.len() == 1 {
            Some(b@[0])
        } else {
            None::<u8>
        }),
{
    bitcode::decode::<u8>(b).ok()
}

/// Encodes a request for the wire.
pub fn encode(r: &IpcRequest) -> (out: Vec<u8>)
    ensures
        out@ == encoding(*r),
        !out@.contains(NEWLINE),
{
    let tag: u8 = match r {
        IpcRequest::Status => 0,
        IpcRequest::Inhibit => 1,
        IpcRequest::Uninhibit => 2,
        IpcRequest::Kill => 3,
    };
    let out = bitcode_encode_byte(tag);
    assert(!out@.contains(NEWLINE)) by {
        assert(out@.len() == 1 && out@[0] != NEWLINE);
    }
    out
}

/// Decodes one frame into a request.
pub fn decode(b: &[u8]) -> (r: Result<IpcRequest, DecodeError>)
    ensures
        r == decoding(b@),
        forall|q: IpcRequest| b@ == encoding(q) ==> r == Ok::<IpcRequest, DecodeError>(q),
{
    match bitcode_decode_byte(b) {
        None => Err(DecodeError::Malformed),
        Some(t) => {
            if t == 0 {
                Ok(IpcRequest::Status)
            } else if t == 1 {
                Ok(IpcRequest::Inhibit)
            } else if t == 2 {
                Ok(IpcRequest::Uninhibit)
            } else if t == 3 {
                Ok(IpcRequest::Kill)
            } else {
                Err(DecodeError::UnknownVariant)
            }
        },
    }
}

/// Decoding the encoding of any request gives that request back.
pub proof fn lemma_round_trip(r: IpcRequest)
    ensures
        decoding(encoding(r)) == Ok::<IpcRequest, DecodeError>(r),
        !encoding(r).contains(NEWLINE),
{
    assert(encoding(r)[0] == tag_of(r));
}

/// The bytes a client writes for one request: its encoding, then a newline.
pub fn frame(r: &IpcRequest) -> (out: Vec<u8>)
    ensures
        out@ == encoding(*r).push(NEWLINE),
{
    let mut out = encode(r);
    out.push(NEWLINE);
    out
}

} // verus!
