//! The rules of a network of conversations, verified: who may say what to whom, what waits for
//! those who are away, and how sound and images are prepared on their way.
pub mod audio;
pub mod colour;
pub mod community;
pub mod conversation;
pub mod data;
pub mod encoding;
pub mod error;
pub mod file_name;
pub mod http;
pub mod identity;
pub mod ids;
pub mod image;
pub mod ordered;
pub mod shuttle;
pub mod signal;
pub mod text;
