//! Beaglewing: one keyboard, mouse and clipboard for two machines.
//!
//! The desktop captures input at a screen edge and sends it to a small USB
//! bridge, which plays it to the other machine as an ordinary keyboard and
//! pointer. The clipboard follows over a second, independent channel.
//!
//! This library is what the programs decide and compute: protocols, state
//! machines and the content that they carry. Devices, sockets, files and
//! clipboards belong to the programs around it, which hand in what happened
//! and carry out what comes back.

// The input path: what the desktop captures, and what the bridge plays.
pub mod hidmap;
pub mod protocol;
pub mod hid;
pub mod bridge;
pub mod bridge_laws;
pub mod report_laws;
pub mod geometry;
pub mod emergency;
pub mod capture;
pub mod router;
pub mod router_laws;
pub mod input_laws;
pub mod portal;
pub mod selftest;

// The clipboard channel: frames, transfers and flow control.
pub mod le;
pub mod clipframe;
pub mod transfer;
pub mod reassembly;
pub mod transfer_laws;
pub mod wire_laws;
pub mod flow;
pub mod relay;

// What is copied: text, images and files.
pub mod text;
pub mod text_laws;
pub mod decimal;
pub mod order;
pub mod signature;
pub mod uri;
pub mod uri_laws;
pub mod paths;
pub mod files;
pub mod images;
pub mod hdrop;
pub mod selection;
pub mod content_laws;

// The two ends of the clipboard channel, and the status icon.
pub mod offers;
pub mod agent;
pub mod agent_laws;
pub mod helper;
pub mod helper_laws;
pub mod channel_laws;
pub mod tray;
pub mod desktop_laws;
