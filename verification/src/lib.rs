//! Recording, sharing and recovery logic of a portable screen recorder.
pub mod audio;
pub mod capture;
pub mod clock;
pub mod history;
pub mod http;
pub mod models;
pub mod portable;
pub mod recording;
pub mod recovery;
pub mod settings;
pub mod share;
pub mod share_server;
pub mod sort;
pub mod stamp;
pub mod sources;
pub mod text;
