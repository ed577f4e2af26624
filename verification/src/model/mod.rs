pub mod coords;
pub mod metadata;
pub mod source;
pub mod webcam;
