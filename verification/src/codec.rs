//! Building command frames and parsing the byte layout of each response.
//!
//! A command frame is a fixed header (class, instruction, two parameter
//! bytes) followed by an operation-specific payload.  A response is a raw
//! byte sequence whose layout depends on the operation that was sent; every
//! declared length field is checked against the bytes that are actually
//! there before anything is sliced.

use vstd::prelude::*;

use vstd::bytes::spec_u64_to_le_bytes;
use vstd::bytes::u64_to_le_bytes;
use vstd::slice::slice_index_get;
use vstd::slice::slice_subrange;
use vstd::slice::slice_to_vec;
use vstd::utf8::decode_utf8;
use vstd::utf8::valid_utf8;

use crate::errors::ProtocolError;

verus! {

/// The instruction class shared by every command of this protocol.
pub const INSTRUCTION_CLASS: u8 = 0x80;

/// The four operations of the exchange.
#[derive(Clone, Copy, Debug, PartialEq, Eq, Structural)]
pub enum Operation {
    GetInfo,
    Authenticate,
    Commit,
    Terminate,
}

/// The operation-specific request data handed to [`build_command`].
#[derive(Debug)]
pub enum RequestParams {
    /// No request data (used by `GetInfo` and `Terminate`).
    Empty,
    /// The 32-byte challenge scalar of an `Authenticate` request.
    Challenge(Vec<u8>),
    /// The value of a `Commit` request, sent as 8 little-endian bytes.
    Value(u64),
}

/// An outbound command frame, immutable once built.
#[derive(Debug)]
pub struct Command {
    pub cla: u8,
    pub ins: u8,
    pub p1: u8,
    pub p2: u8,
    pub data: Vec<u8>,
}

/// The instruction code of each operation.
pub open spec fn spec_instruction_code(op: Operation) -> u8 {
    match op {
        Operation::GetInfo => 0x01,
        Operation::Authenticate => 0x02,
        Operation::Commit => 0x03,
        Operation::Terminate => 0x04,
    }
}

/// Whether the request data has the shape that the operation calls for,
/// lengths aside.
pub open spec fn params_shape_fits(op: Operation, params: RequestParams) -> bool {
    match (op, params) {
        (Operation::GetInfo, RequestParams::Empty) => true,
        (Operation::Authenticate, RequestParams::Challenge(_)) => true,
        (Operation::Commit, RequestParams::Value(_)) => true,
        (Operation::Terminate, RequestParams::Empty) => true,
        _ => false,
    }
}

/// Whether the request data can be framed at all: the right shape, and a
/// challenge of exactly 32 bytes.
pub open spec fn params_fit(op: Operation, params: RequestParams) -> bool {
    &&& params_shape_fits(op, params)
    &&& (params matches RequestParams::Challenge(c) ==> c@.len() == 32)
}

/// The payload that [`build_command`] frames for fitting request data.
pub open spec fn spec_request_payload(op: Operation, params: RequestParams) -> Seq<u8> {
    match params {
        RequestParams::Empty => if op is Terminate {
            seq![0u8]
        } else {
            Seq::<u8>::empty()
        },
        RequestParams::Challenge(c) => c@,
        RequestParams::Value(v) => spec_u64_to_le_bytes(v),
    }
}

/// Builds the command frame for one operation: class `0x80`, the
/// operation's instruction code, zero parameter bytes, and the payload of
/// the request data.  Request data of the wrong shape is refused as
/// `UnsupportedOperation`; a challenge that is not exactly 32 bytes as
/// `InvalidEncoding`.
pub fn build_command(op: Operation, params: &RequestParams) -> (r: Result<
    Command,
    ProtocolError,
>)
    ensures
        r is Ok <==> params_fit(op, *params),
        r is Ok ==> {
            &&& r.unwrap().cla == INSTRUCTION_CLASS
            &&& r.unwrap().ins == spec_instruction_code(op)
            &&& r.unwrap().p1 == 0
            &&& r.unwrap().p2 == 0
            &&& r.unwrap().data@ == spec_request_payload(op, *params)
        },
        !params_shape_fits(op, *params) ==> r == Err::<Command, ProtocolError>(
            ProtocolError::UnsupportedOperation,
        ),
        params_shape_fits(op, *params) && !params_fit(op, *params) ==> r == Err::<
            Command,
            ProtocolError,
        >(ProtocolError::InvalidEncoding),
{
    let ins = instruction_code(op);
    match (op, params) {
        (Operation::GetInfo, RequestParams::Empty) => Ok(
            Command { cla: INSTRUCTION_CLASS, ins, p1: 0, p2: 0, data: Vec::new() },
        ),
        (Operation::Authenticate, RequestParams::Challenge(c)) => {
            if c.len() != 32 {
                Err(ProtocolError::InvalidEncoding)
            } else {
                let data = slice_to_vec(c.as_slice());
                Ok(Command { cla: INSTRUCTION_CLASS, ins, p1: 0, p2: 0, data })
            }
        },
        (Operation::Commit, RequestParams::Value(v)) => {
            let data = u64_to_le_bytes(*v);
            Ok(Command { cla: INSTRUCTION_CLASS, ins, p1: 0, p2: 0, data })
        },
        (Operation::Terminate, RequestParams::Empty) => {
            let mut data: Vec<u8> = Vec::new();
            data.push(0u8);
            assert(data@ =~= seq![0u8]);
            Ok(Command { cla: INSTRUCTION_CLASS, ins, p1: 0, p2: 0, data })
        },
        _ => Err(ProtocolError::UnsupportedOperation),
    }
}

/// The instruction code that [`build_command`] puts in the frame.
pub fn instruction_code(op: Operation) -> (c: u8)
    ensures
        c == spec_instruction_code(op),
{
    match op {
        Operation::GetInfo => 0x01,
        Operation::Authenticate => 0x02,
        Operation::Commit => 0x03,
        Operation::Terminate => 0x04,
    }
}

/// Maps an instruction code back to its operation; codes outside the
/// protocol's table are `UnsupportedOperation`.
pub fn operation_from_code(code: u8) -> (r: Result<Operation, ProtocolError>)
    ensures
        r is Ok <==> 0x01 <= code <= 0x04,
        r is Ok ==> spec_instruction_code(r.unwrap()) == code,
        !(0x01 <= code <= 0x04) ==> r == Err::<Operation, ProtocolError>(
            ProtocolError::UnsupportedOperation,
        ),
{
    if code == 0x01 {
        Ok(Operation::GetInfo)
    } else if code == 0x02 {
        Ok(Operation::Authenticate)
    } else if code == 0x03 {
        Ok(Operation::Commit)
    } else if code == 0x04 {
        Ok(Operation::Terminate)
    } else {
        Err(ProtocolError::UnsupportedOperation)
    }
}

/// The fields parsed out of one response, by operation.
#[derive(Debug)]
pub enum ParsedResponse {
    /// `GetInfo`: the device's name and package version strings.
    Info { name: String, package: String },
    /// `Authenticate`: the three raw 32-byte fields, unvalidated.
    Auth { public_key: Vec<u8>, signature_scalar: Vec<u8>, nonce: Vec<u8> },
    /// `Commit`: the raw 32-byte commitment point, unvalidated.
    Commit { point: Vec<u8> },
    /// `Terminate`: the reply is device-defined and not interpreted.
    Terminate,
}

/// A `GetInfo` response is `[reserved][nameLength][name][packageLength]
/// [package]`; both declared lengths must fit inside the bytes on hand.
pub open spec fn get_info_well_formed(b: Seq<u8>) -> bool {
    &&& b.len() >= 2
    &&& b.len() >= 3 + b[1]
    &&& b.len() >= 3 + b[1] + b[2 + b[1]]
}

/// The name bytes of a well-formed `GetInfo` response.
pub open spec fn get_info_name_bytes(b: Seq<u8>) -> Seq<u8> {
    b.subrange(2, 2 + b[1])
}

/// The package bytes of a well-formed `GetInfo` response.
pub open spec fn get_info_package_bytes(b: Seq<u8>) -> Seq<u8> {
    b.subrange(3 + b[1], 3 + b[1] + b[2 + b[1]])
}

/// A `GetInfo` response parses iff its lengths fit and both text fields
/// are valid UTF-8.
pub open spec fn get_info_parses(b: Seq<u8>) -> bool {
    &&& get_info_well_formed(b)
    &&& valid_utf8(get_info_name_bytes(b))
    &&& valid_utf8(get_info_package_bytes(b))
}

/// Parses the byte layout of a response to `op`.
///
/// * `GetInfo`: name and package strings, their declared lengths checked
///   against the available bytes (`MalformedResponse` otherwise) and their
///   text decoded as UTF-8 (`InvalidEncoding` otherwise).
/// * `Authenticate`: a reserved byte, then public key, signature scalar and
///   nonce, 32 bytes each; shorter responses are `MalformedResponse`.
/// * `Commit`: a reserved byte, then a 32-byte commitment point; shorter
///   responses are `MalformedResponse`.
/// * `Terminate`: the reply is not interpreted.
pub fn parse_response(op: Operation, raw: &[u8]) -> (r: Result<ParsedResponse, ProtocolError>)
    ensures
        op is GetInfo ==> {
            &&& r is Ok <==> get_info_parses(raw@)
            &&& !get_info_well_formed(raw@) ==> r == Err::<ParsedResponse, ProtocolError>(
                ProtocolError::MalformedResponse,
            )
            &&& get_info_well_formed(raw@) && !get_info_parses(raw@) ==> r == Err::<
                ParsedResponse,
                ProtocolError,
            >(ProtocolError::InvalidEncoding)
            &&& r is Ok ==> (r.unwrap() matches ParsedResponse::Info { name, package }
                && name@ == decode_utf8(get_info_name_bytes(raw@)) && package@ == decode_utf8(
                get_info_package_bytes(raw@),
            ))
        },
        op is Authenticate ==> {
            &&& r is Ok <==> raw@.len() >= 97
            &&& raw@.len() < 97 ==> r == Err::<ParsedResponse, ProtocolError>(
                ProtocolError::MalformedResponse,
            )
            &&& r is Ok ==> (r.unwrap() matches ParsedResponse::Auth {
                public_key,
                signature_scalar,
                nonce,
            } && public_key@ == raw@.subrange(1, 33) && signature_scalar@ == raw@.subrange(33, 65)
                && nonce@ == raw@.subrange(65, 97))
        },
        op is Commit ==> {
            &&& r is Ok <==> raw@.len() >= 33
            &&& raw@.len() < 33 ==> r == Err::<ParsedResponse, ProtocolError>(
                ProtocolError::MalformedResponse,
            )
            &&& r is Ok ==> (r.unwrap() matches ParsedResponse::Commit { point } && point@
                == raw@.subrange(1, 33))
        },
        op is Terminate ==> r is Ok && r.unwrap() is Terminate,
{
    match op {
        Operation::GetInfo => parse_get_info(raw),
        Operation::Authenticate => {
            if raw.len() < 97 {
                Err(ProtocolError::MalformedResponse)
            } else {
                let public_key = slice_to_vec(slice_subrange(raw, 1, 33));
                let signature_scalar = slice_to_vec(slice_subrange(raw, 33, 65));
                let nonce = slice_to_vec(slice_subrange(raw, 65, 97));
                Ok(ParsedResponse::Auth { public_key, signature_scalar, nonce })
            }
        },
        Operation::Commit => {
            if raw.len() < 33 {
                Err(ProtocolError::MalformedResponse)
            } else {
                let point = slice_to_vec(slice_subrange(raw, 1, 33));
                Ok(ParsedResponse::Commit { point })
            }
        },
        Operation::Terminate => Ok(ParsedResponse::Terminate),
    }
}

/// The `GetInfo` arm of [`parse_response`].
fn parse_get_info(raw: &[u8]) -> (r: Result<ParsedResponse, ProtocolError>)
    ensures
        r is Ok <==> get_info_parses(raw@),
        !get_info_well_formed(raw@) ==> r == Err::<ParsedResponse, ProtocolError>(
            ProtocolError::MalformedResponse,
        ),
        get_info_well_formed(raw@) && !get_info_parses(raw@) ==> r == Err::<
            ParsedResponse,
            ProtocolError,
        >(ProtocolError::InvalidEncoding),
        r is Ok ==> (r.unwrap() matches ParsedResponse::Info { name, package } && name@
            == decode_utf8(get_info_name_bytes(raw@)) && package@ == decode_utf8(
            get_info_package_bytes(raw@),
        )),
{
    if raw.len() < 2 {
        return Err(ProtocolError::MalformedResponse);
    }
    let name_len = *slice_index_get(raw, 1) as usize;
    if raw.len() < name_len + 3 {
        return Err(ProtocolError::MalformedResponse);
    }
    let package_len = *slice_index_get(raw, name_len + 2) as usize;
    if raw.len() < name_len + 3 + package_len {
        return Err(ProtocolError::MalformedResponse);
    }
    let name_bytes = slice_subrange(raw, 2, 2 + name_len);
    let package_bytes = slice_subrange(raw, name_len + 3, name_len + 3 + package_len);
    let name = decode_utf8_bytes(name_bytes);
    let package = decode_utf8_bytes(package_bytes);
    match (name, package) {
        (Some(name), Some(package)) => Ok(ParsedResponse::Info { name, package }),
        _ => Err(ProtocolError::InvalidEncoding),
    }
}

/// Relies on std's `str::from_utf8`: it returns `Ok` exactly when the bytes
/// are valid UTF-8, and the resulting string is their decoding.
#[verifier::external_body]
fn decode_utf8_bytes(b: &[u8]) -> (r: Option<String>)
    ensures
        r is Some <==> valid_utf8(b@),
        r is Some ==> r.unwrap()@ == decode_utf8(b@),
{
    match std::str::from_utf8(b) {
        Ok(s) => Some(s.to_string()),
        Err(_) => None,
    }
}

} // verus!
