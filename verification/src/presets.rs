//! The presets the app ships with.

use vstd::prelude::*;

verus! {

/// The default presets shipped with the app, seeded on first run so there is
/// immediately something to click (host `.245`, no gateway —
/// correct for flat AV LANs).
pub const DEFAULT_PRESETS_JSON: &'static str = r##"{
  "version": 1,
  "presets": [
    { "id": "coda", "name": "Coda Audio", "color": "#3B82F6", "mode": "static", "ip": "192.168.0.245", "prefix": 24 },
    { "id": "dlive", "name": "dLive", "mode": "static", "ip": "192.168.1.245", "prefix": 24 },
    { "id": "video", "name": "Video", "mode": "static", "ip": "192.168.10.245", "prefix": 24 },
    { "id": "lighting-24", "name": "Lighting (/24)", "mode": "static", "ip": "10.0.0.245", "prefix": 24 },
    { "id": "lighting-8", "name": "Lighting (/8)", "mode": "static", "ip": "10.0.0.245", "prefix": 8 },
    { "id": "artnet-24", "name": "Art-Net (/24)", "mode": "static", "ip": "2.0.0.245", "prefix": 24 },
    { "id": "artnet-8", "name": "Art-Net (/8)", "mode": "static", "ip": "2.0.0.245", "prefix": 8 },
    { "id": "dhcp", "name": "Automatic (DHCP)", "mode": "dhcp" }
  ]
}"##;

} // verus!
