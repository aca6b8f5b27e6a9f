//! LANSwitch core: the data model, strict input validation, subnet arithmetic,
//! the argv vectors for the native network tools, and the decisions of the
//! privileged helper and the tray menu. Shared by the unprivileged app and the
//! privileged helper; running tools, sockets and files is theirs.

pub mod commands;
pub mod discover;
pub mod helper;
pub mod ipv4;
pub mod laws;
pub mod laws_fields;
pub mod laws_more;
pub mod presets;
pub mod text;
pub mod tray;
pub mod types;
pub mod validate;

pub use types::{
    ApplyRequest, HelperRequest, HelperResponse, Interface, Mode, Preset, PresetsFile,
};
pub use validate::{
    mask_to_prefix, parse_subnet, prefix_to_mask, validate_apply, validate_interface_name,
    ValidationError,
};
pub use presets::DEFAULT_PRESETS_JSON;
