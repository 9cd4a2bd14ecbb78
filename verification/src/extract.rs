//! Typed request and response wrappers around the negotiated wire format,
//! and the rejections that decoding and encoding can end in.

use std::marker::PhantomData;
use vstd::prelude::*;
use crate::content_type::ApiContentType;
use crate::status::STATUS_INTERNAL_SERVER_ERROR;
use crate::status::STATUS_NOT_ACCEPTABLE;
use crate::status::STATUS_OK;

verus! {

/// `BytesRejection` of axum: why a request body could not be read. Carried
/// through as it is; nothing inside it is looked at.
#[verifier::external_type_specification]
#[verifier::external_body]
pub struct ExBytesRejection(axum::extract::rejection::BytesRejection);

/// `DecodeError` of prost: why bytes are no binary encoding of a payload.
/// Carried through as it is.
#[verifier::external_type_specification]
#[verifier::external_body]
pub struct ExDecodeError(prost::DecodeError);

/// `Error` of serde_json: why a payload could not be read from or written
/// as structured text. Carried through as it is.
#[verifier::external_type_specification]
#[verifier::external_body]
pub struct ExJsonError(serde_json::Error);

/// Why a request or a response was refused.
pub enum ApiRejection {
    /// No acceptable wire format.
    ContentType,
    /// The body could not be read.
    Bytes(axum::extract::rejection::BytesRejection),
    /// The bytes are no valid binary encoding of the payload.
    ProstDecode(prost::DecodeError),
    /// The bytes are no valid structured text of the payload, or the payload
    /// could not be written as structured text.
    SerdeDecode(serde_json::Error),
}

/// The status and the text that a rejection is answered with.
pub struct RejectionResponse {
    pub status: u16,
    pub body: String,
}

/// The status that axum answers a `BytesRejection` with: what
/// `BytesRejection::status` returns for it, as a number. Each kind of
/// rejection has one fixed status.
pub uninterp spec fn bytes_rejection_status_of(
    rejection: axum::extract::rejection::BytesRejection,
) -> u16;

/// The message of a `prost::DecodeError`: what its `Display` writes, which
/// is made of the description and the path of fields that the error holds.
pub uninterp spec fn decode_error_text_of(error: prost::DecodeError) -> Seq<char>;

/// `BytesRejection::status` of axum, as a number. Claims that it is the
/// rejection's status, and that this is a status code: from 100 to 999.
#[verifier::external_body]
fn bytes_rejection_status(rejection: &axum::extract::rejection::BytesRejection) -> (status: u16)
    ensures
        status == bytes_rejection_status_of(*rejection),
        100 <= status <= 999,
{
    rejection.status().as_u16()
}

/// `BytesRejection::body_text` of axum. Nothing is claimed of the text, and
/// it has no name: it ends in the `Display` of the error that the transport
/// met, which may be of any type and, for an error of the operating system,
/// is a text that the operating system supplies, so that one rejection need
/// not read the same on every machine.
#[verifier::external_body]
fn bytes_rejection_text(rejection: &axum::extract::rejection::BytesRejection) -> String {
    rejection.body_text()
}

/// The message of a `prost::DecodeError`, through its `Display`. Claims that
/// it is the error's message.
#[verifier::external_body]
fn prost_error_text(error: &prost::DecodeError) -> (text: String)
    ensures
        text@ == decode_error_text_of(*error),
{
    error.to_string()
}

/// The message of a `serde_json::Error`, through its `Display`. Nothing is
/// claimed of the text, and it has no name: such an error may hold an I/O
/// error, whose text the operating system supplies, so that one error need
/// not read the same on every machine.
#[verifier::external_body]
fn json_error_text(error: &serde_json::Error) -> String {
    error.to_string()
}

impl From<axum::extract::rejection::BytesRejection> for ApiRejection {
    fn from(value: axum::extract::rejection::BytesRejection) -> (rejection: ApiRejection) {
        ApiRejection::Bytes(value)
    }
}

impl vstd::std_specs::convert::FromSpecImpl<axum::extract::rejection::BytesRejection> for ApiRejection {
    open spec fn obeys_from_spec() -> bool {
        true
    }

    open spec fn from_spec(value: axum::extract::rejection::BytesRejection) -> ApiRejection {
        ApiRejection::Bytes(value)
    }
}

impl From<prost::DecodeError> for ApiRejection {
    fn from(value: prost::DecodeError) -> (rejection: ApiRejection) {
        ApiRejection::ProstDecode(value)
    }
}

impl vstd::std_specs::convert::FromSpecImpl<prost::DecodeError> for ApiRejection {
    open spec fn obeys_from_spec() -> bool {
        true
    }

    open spec fn from_spec(value: prost::DecodeError) -> ApiRejection {
        ApiRejection::ProstDecode(value)
    }
}

impl From<serde_json::Error> for ApiRejection {
    fn from(value: serde_json::Error) -> (rejection: ApiRejection) {
        ApiRejection::SerdeDecode(value)
    }
}

impl vstd::std_specs::convert::FromSpecImpl<serde_json::Error> for ApiRejection {
    open spec fn obeys_from_spec() -> bool {
        true
    }

    open spec fn from_spec(value: serde_json::Error) -> ApiRejection {
        ApiRejection::SerdeDecode(value)
    }
}

/// The status that a rejection is answered with: 406 where no format was
/// acceptable, the transport's own status where the body could not be read,
/// and 500 where decoding or encoding failed.
pub open spec fn spec_status(rejection: ApiRejection) -> u16 {
    match rejection {
        ApiRejection::ContentType => STATUS_NOT_ACCEPTABLE,
        ApiRejection::Bytes(unread) => bytes_rejection_status_of(unread),
        ApiRejection::ProstDecode(_) => STATUS_INTERNAL_SERVER_ERROR,
        ApiRejection::SerdeDecode(_) => STATUS_INTERNAL_SERVER_ERROR,
    }
}

/// The text that a rejection is answered with, given the message of the
/// error that it holds: a fixed text where no format was acceptable, and
/// else that message.
pub open spec fn spec_body(rejection: ApiRejection, message: Seq<char>) -> Seq<char> {
    match rejection {
        ApiRejection::ContentType => "Invalid content type"@,
        _ => message,
    }
}

impl ApiRejection {
    /// The message of the error that this rejection holds; empty where it
    /// holds none. For a failure of the binary decoder it is that error's
    /// own message; of the two other messages nothing is known here.
    pub fn message(&self) -> (text: String)
        ensures
            self is ContentType ==> text@ == Seq::<char>::empty(),
            self matches ApiRejection::ProstDecode(error) ==> text@ == decode_error_text_of(
                *error,
            ),
    {
        match self {
            ApiRejection::ContentType => String::new(),
            ApiRejection::Bytes(rejection) => bytes_rejection_text(rejection),
            ApiRejection::ProstDecode(error) => prost_error_text(error),
            ApiRejection::SerdeDecode(error) => json_error_text(error),
        }
    }

    /// The response for this rejection, given the message of the error that
    /// it holds: the rejection's status, with the fixed text where no format
    /// was acceptable and with the message in every other case.
    pub fn response_with(self, message: String) -> (response: RejectionResponse)
        ensures
            response.status == spec_status(self),
            response.body@ == spec_body(self, message@),
            100 <= response.status <= 999,
    {
        match self {
            ApiRejection::ContentType => RejectionResponse {
                status: STATUS_NOT_ACCEPTABLE,
                body: "Invalid content type".to_owned(),
            },
            ApiRejection::Bytes(rejection) => RejectionResponse {
                status: bytes_rejection_status(&rejection),
                body: message,
            },
            ApiRejection::ProstDecode(_) => RejectionResponse {
                status: STATUS_INTERNAL_SERVER_ERROR,
                body: message,
            },
            ApiRejection::SerdeDecode(_) => RejectionResponse {
                status: STATUS_INTERNAL_SERVER_ERROR,
                body: message,
            },
        }
    }

    /// The response for this rejection: 406 with a fixed text where no
    /// format was acceptable, the transport's own status and text where the
    /// body could not be read, and 500 with the error's message where
    /// decoding or encoding failed. Of the transport's text and of the
    /// message of a failure in structured text nothing is known here; what
    /// becomes of them is stated by [`ApiRejection::response_with`].
    pub fn into_response(self) -> (response: RejectionResponse)
        ensures
            response.status == spec_status(self),
            100 <= response.status <= 999,
            self is ContentType ==> response.body@ == "Invalid content type"@,
            self matches ApiRejection::ProstDecode(error) ==> response.body@
                == decode_error_text_of(error),
    {
        let message = self.message();
        self.response_with(message)
    }
}

/// A request body together with the format it is to be read in. The typed
/// payload is decoded on demand.
pub struct ApiRequest<T> {
    /// The raw body.
    pub bytes: Vec<u8>,
    /// The format that the body is in.
    pub content_type: ApiContentType,
    pub _phantom: PhantomData<T>,
}

impl<T> ApiRequest<T> {
    /// The format for a request, given what negotiation selected: a request
    /// for which nothing was selected is refused.
    pub fn accept(negotiated: Option<ApiContentType>) -> (accepted: Result<
        ApiContentType,
        ApiRejection,
    >)
        ensures
            match negotiated {
                Some(content_type) => accepted == Ok::<ApiContentType, ApiRejection>(content_type),
                None => accepted == Err::<ApiContentType, ApiRejection>(ApiRejection::ContentType),
            },
    {
        match negotiated {
            Some(content_type) => Ok(content_type),
            None => Err(ApiRejection::ContentType),
        }
    }

    /// Wraps a request from what negotiation selected and from what reading
    /// the body gave. A request for which nothing was selected is refused
    /// whatever the body; a body that could not be read is refused with the
    /// transport's own rejection.
    pub fn from_request(
        negotiated: Option<ApiContentType>,
        body: Result<Vec<u8>, axum::extract::rejection::BytesRejection>,
    ) -> (request: Result<Self, ApiRejection>)
        ensures
            match (negotiated, body) {
                (None, _) => request == Err::<Self, ApiRejection>(ApiRejection::ContentType),
                (Some(_), Err(rejection)) => request == Err::<Self, ApiRejection>(
                    ApiRejection::Bytes(rejection),
                ),
                (Some(content_type), Ok(bytes)) => request is Ok && request->Ok_0.content_type
                    == content_type && request->Ok_0.bytes == bytes,
            },
    {
        let content_type = match negotiated {
            Some(content_type) => content_type,
            None => {
                return Err(ApiRejection::ContentType);
            },
        };
        match body {
            Ok(bytes) => Ok(ApiRequest { bytes, content_type, _phantom: PhantomData }),
            Err(rejection) => Err(ApiRejection::from(rejection)),
        }
    }
}

/// Which decoder is to read a request's body.
#[derive(Debug, Clone, Copy, PartialEq, Eq, Structural)]
pub enum DecodeStep {
    /// Read the body as structured text.
    ParseStructured,
    /// Read the body as binary encoding.
    ParseBinary,
}

/// What decoding a request body came to, by the decoder that ran.
pub enum Decoded<T> {
    /// The decoder of structured text ran.
    Structured(Result<T, serde_json::Error>),
    /// The decoder of the binary encoding ran.
    Binary(Result<T, prost::DecodeError>),
}

impl<T> Decoded<T> {
    /// The format whose decoder ran.
    pub open spec fn format(&self) -> ApiContentType {
        match self {
            Decoded::Structured(_) => ApiContentType::Json,
            Decoded::Binary(_) => ApiContentType::Proto,
        }
    }
}

impl<T> ApiRequest<T> {
    /// The decoder that is to read this request's body: that of the
    /// request's format.
    pub fn decode_step(&self) -> (step: DecodeStep)
        ensures
            step == match self.content_type {
                ApiContentType::Json => DecodeStep::ParseStructured,
                ApiContentType::Proto => DecodeStep::ParseBinary,
            },
    {
        match self.content_type {
            ApiContentType::Json => DecodeStep::ParseStructured,
            ApiContentType::Proto => DecodeStep::ParseBinary,
        }
    }

    /// The payload of the request, given what the decoder of the request's
    /// format made of the body: the format and the value, or the rejection
    /// that belongs to the decoder that failed.
    pub fn data(self, decoded: Decoded<T>) -> (data: Result<(ApiContentType, T), ApiRejection>)
        requires
            decoded.format() == self.content_type,
        ensures
            data == match decoded {
                Decoded::Structured(Ok(value)) => Ok::<(ApiContentType, T), ApiRejection>(
                    (ApiContentType::Json, value),
                ),
                Decoded::Structured(Err(error)) => Err(ApiRejection::SerdeDecode(error)),
                Decoded::Binary(Ok(value)) => Ok((ApiContentType::Proto, value)),
                Decoded::Binary(Err(error)) => Err(ApiRejection::ProstDecode(error)),
            },
    {
        match decoded {
            Decoded::Structured(Ok(value)) => Ok((self.content_type, value)),
            Decoded::Structured(Err(error)) => Err(ApiRejection::from(error)),
            Decoded::Binary(Ok(value)) => Ok((self.content_type, value)),
            Decoded::Binary(Err(error)) => Err(ApiRejection::from(error)),
        }
    }
}

/// A payload in its canonical binary encoding, together with the format in
/// which it is to be sent. The stored bytes are never changed: structured
/// text is made from them only when the response is written.
pub struct ApiResponse<T> {
    /// The payload, in binary encoding.
    pub bytes: Vec<u8>,
    /// The format to send it in.
    pub content_type: ApiContentType,
    pub _phantom: PhantomData<T>,
}

/// What writing a stored payload as structured text came to.
pub enum Transcoded {
    /// The payload as structured text.
    Done(Vec<u8>),
    /// The stored bytes are no binary encoding of the payload.
    Undecodable(prost::DecodeError),
    /// The payload could not be written as structured text.
    Unwritable(serde_json::Error),
}

/// A response as it goes out.
pub enum ApiReply {
    /// The payload, with the format that its bytes are in.
    Payload { status: u16, content_type: ApiContentType, body: Vec<u8> },
    /// The payload could not be written in the format asked for.
    Rejected(ApiRejection),
}

/// What is to be done with a response next.
pub enum ResponseStep {
    /// Send this reply.
    Send(ApiReply),
    /// Write the payload that these bytes encode as structured text, and
    /// reply with [`structured_reply`].
    Transcode(Vec<u8>),
}

/// The reply to a response that was asked for as structured text, given what
/// transcoding came to: the text with status 200, or the rejection that
/// belongs to the step that failed.
pub fn structured_reply(transcoded: Transcoded) -> (reply: ApiReply)
    ensures
        reply == match transcoded {
            Transcoded::Done(body) => ApiReply::Payload {
                status: STATUS_OK,
                content_type: ApiContentType::Json,
                body,
            },
            Transcoded::Undecodable(error) => ApiReply::Rejected(ApiRejection::ProstDecode(error)),
            Transcoded::Unwritable(error) => ApiReply::Rejected(ApiRejection::SerdeDecode(error)),
        },
{
    match transcoded {
        Transcoded::Done(body) => ApiReply::Payload {
            status: STATUS_OK,
            content_type: ApiContentType::Json,
            body,
        },
        Transcoded::Undecodable(error) => ApiReply::Rejected(ApiRejection::from(error)),
        Transcoded::Unwritable(error) => ApiReply::Rejected(ApiRejection::from(error)),
    }
}

impl<T> ApiResponse<T> {
    /// Wraps a payload in binary encoding, to be sent as `content_type`.
    pub fn new(bytes: Vec<u8>, content_type: ApiContentType) -> (response: Self)
        ensures
            response.bytes == bytes,
            response.content_type == content_type,
    {
        ApiResponse { bytes, content_type, _phantom: PhantomData }
    }

    /// Starts the response. A payload asked for in binary encoding goes out
    /// as it is stored, with status 200. One asked for as structured text
    /// has to be transcoded first, from the bytes as they are stored.
    pub fn into_response(self) -> (step: ResponseStep)
        ensures
            step == match self.content_type {
                ApiContentType::Proto => ResponseStep::Send(
                    ApiReply::Payload {
                        status: STATUS_OK,
                        content_type: ApiContentType::Proto,
                        body: self.bytes,
                    },
                ),
                ApiContentType::Json => ResponseStep::Transcode(self.bytes),
            },
    {
        match self.content_type {
            ApiContentType::Proto => ResponseStep::Send(
                ApiReply::Payload {
                    status: STATUS_OK,
                    content_type: self.content_type,
                    body: self.bytes,
                },
            ),
            ApiContentType::Json => ResponseStep::Transcode(self.bytes),
        }
    }
}

} // verus!
