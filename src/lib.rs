//! A minimal HTTP/1.1 server core: request-line parsing, routing and
//! response formatting, each stated against a mathematical model.

pub mod text;
pub mod clock;
pub mod response;
pub mod create_responses;
pub mod routes;
pub mod router;
pub mod handler;
pub mod intake;
