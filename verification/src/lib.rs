//! The request pipeline of an image service: a multipart form comes in, one
//! transform is applied to the image it uploads, and the result goes out
//! encoded as PNG.
//!
//! The pipeline works on plain values. A form is a list of
//! [`multipart::Field`]s, an answer is a [`response::Response`], and
//! [`handlers::process_image`] leads from the one to the other. Reading the
//! form from a connection and writing the answer to it is left to the
//! program that serves.
//!
//! - [`text`]: UTF-8, numerals, comparison of strings.
//! - [`multipart`]: fields and the stream of them.
//! - [`request`]: the request that the fields of a form make, with its
//!   defaults.
//! - [`operation`]: the table of operations.
//! - [`imaging`]: the calls into the `image` crate, with the contracts that
//!   are taken on trust.
//! - [`img_ops`]: the border, and the transforms that are carried out on the
//!   spot.
//! - [`utils`]: taking the image and the request out of a form, decoding,
//!   encoding, wrapping the answer.
//! - [`handlers`]: the pipeline as a whole, and the greeting.
//! - [`models`], [`response`]: the records that go in and out.
pub mod handlers;
pub mod imaging;
pub mod img_ops;
pub mod models;
pub mod multipart;
pub mod operation;
pub mod request;
pub mod response;
pub mod text;
pub mod utils;
