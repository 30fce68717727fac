//! Wi-Fi health diagnostics: parsers that turn the text of the operating
//! system's network tools into a link-state and path-quality snapshot, and an
//! interference analysis that classifies signal quality and channel
//! congestion and suggests remedies.
pub mod text;
pub mod num;
pub mod interference;
pub mod patterns;
pub mod network;
pub mod wifi;
pub mod neighbors;
