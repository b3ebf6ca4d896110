//! The configuration the host keeps on disk.
//!
//! The library only models the values: which port the control surface
//! listens on, where the player's IPC endpoint lives, and how the window
//! behaves. Reading and writing the settings file is the host's business.

use vstd::prelude::*;

verus! {

/// Where to reach the player: the path of its IPC socket or pipe. The
/// library treats it as an opaque string.
#[derive(Debug, Clone)]
pub struct MpvSettings {
    pub pipe: String,
}

/// Everything the host persists between runs.
#[derive(Debug, Clone)]
pub struct Settings {
    pub port: u16,
    pub mpv: Option<MpvSettings>,
    pub autohide: Option<bool>,
    pub window_size: Option<(u32, u32)>,
}

/// The settings used when no settings file exists or it cannot be read.
pub fn get_default_settings() -> (r: Settings)
    ensures
        r.port == 7920,
        r.mpv matches Some(m) && m.pipe@ == "/tmp/mpvsocket"@,
        r.autohide == Some(true),
        r.window_size == Some((320u32, 600u32)),
{
    Settings {
        port: 7920,
        mpv: Some(MpvSettings { pipe: String::from_str("/tmp/mpvsocket") }),
        autohide: Some(true),
        window_size: Some((320, 600)),
    }
}

} // verus!
