//! Client-side data model for a transactional-email provider's
//! bulk-send ("transmission") API: building a message, keeping its
//! recipient list deduplicated by address, projecting it onto the wire
//! JSON shape, and decoding the provider's reply.

pub mod json;
pub mod transmission;
