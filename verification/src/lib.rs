pub mod capture;
pub mod commands;
pub mod model;
pub mod paths;
pub mod recording;
pub mod text;
pub mod zoom;
