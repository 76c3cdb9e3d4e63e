pub mod protocol;

pub use protocol::{handle_request, IpcEventMessage, IpcRequest, IpcResponse};
