pub mod device;
pub mod keybindings;
pub mod pointer;

pub use device::GestureConfig;
pub use keybindings::{
    keysym_from_name, parse_vt_switch, KeyAction, KeyPattern, Keybindings, Modifiers,
};
pub use pointer::{find_target_at, PointerFocusTarget};
