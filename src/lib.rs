pub mod dispatch;
pub mod framing;
pub mod handler;
pub mod inhibitor;
pub mod ipc;
pub mod path;

pub use dispatch::{ExitStatus, LoopEvent, LoopState, Signal};
pub use handler::{ConnectionHandler, Step};
pub use inhibitor::{BackendCall, CallOutcome, Inhibitor};
pub use ipc::{DecodeError, IpcRequest, IpcResponse};
pub use path::socket_path;
