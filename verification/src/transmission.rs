//! The transmission API's data model: messages, recipients, and the
//! decoded form of the provider's reply.

pub mod message;
pub mod models;
pub mod response;

pub use self::message::{Attachment, Content, Message, Options, StartTime};
pub use self::models::{EmailAddress, Recipient, RecipientSet, Recipients};
pub use self::response::{
    decode_response, decode_response_body,
    ApiError, ApiResponse, MalformedResponseError, ResponseError, TransmissionResponse,
};
