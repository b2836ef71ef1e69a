//! The records that cross the service's boundary as JSON.
use vstd::prelude::*;

verus! {

/// A visitor, as the greeting endpoint receives one.
#[derive(Clone, Debug, PartialEq, Eq)]
pub struct User {
    pub name: String,
    pub age: u32,
}

/// What the greeting endpoint answers.
#[derive(Clone, Debug, PartialEq, Eq)]
pub struct UserResponse {
    pub message: String,
}

/// The rectangle of a crop: its top left corner and its size, in pixels of
/// the uploaded image.
#[derive(Clone, Copy, Debug, PartialEq, Eq, Structural)]
pub struct CropData {
    pub x: u32,
    pub y: u32,
    pub width: u32,
    pub height: u32,
}

} // verus!
