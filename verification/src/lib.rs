//! The verified core of Chronicle, a daemon that keeps a searchable record of
//! what a computer showed and heard.

pub mod audio;
pub mod capture;
pub mod container;
pub mod ipc;
pub mod ocr;
pub mod storage;
pub mod text;
pub mod transcription;
