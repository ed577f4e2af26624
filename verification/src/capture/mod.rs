pub mod input;
pub mod input_recorder;
pub mod source_enum;
pub mod ffmpeg;
pub mod finalizer;
