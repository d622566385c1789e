//! A single-threaded reactive runtime for interactive terminal programs in the
//! Model-Update-View style: a streaming decoder turns raw terminal bytes into
//! key events, a message bus routes typed messages to subscribed handlers, and
//! a program runtime drains messages, executes the commands they produce, and
//! re-renders after every pass.

pub mod ansi;
pub mod buf;
pub mod command;
pub mod error;
pub mod event_loop;
pub mod frame;
pub mod handle;
pub mod keycode;
pub mod message;
pub mod model;
pub mod program;
pub mod request;
pub mod stream;
pub mod time;
pub mod update;

pub use buf::Buf;
pub use buf::ConvertBuf;
pub use keycode::is_shift;
pub use keycode::KeyCode;
pub use keycode::KeyCodeParser;
pub use keycode::KeyName;
pub use message::Message;
pub use message::MessageType;
pub use frame::Frame;
pub use frame::FrameHandler;
pub use model::Model;
pub use command::Command;
pub use command::Terminate;
pub use command::execute;
pub use program::Program;
pub use program::ProgramContext;
pub use program::ProgramInner;
pub use update::UpdateBroker;
pub use update::UpdateHandler;
pub use error::Errno;
pub use error::ProgramError;
pub use error::TUIError;
pub use event_loop::ConfigurationOption;
pub use event_loop::Loop;
pub use event_loop::RunMode;
pub use handle::CheckHandle;
pub use handle::Handle;
pub use handle::HandleType;
pub use handle::IHandle;
pub use handle::verify_handle_type;
pub use request::FileSystemRequestType;
pub use request::OpenMode;
pub use request::OpenOption;
pub use request::OpenOptionSet;
pub use request::RequestType;
pub use stream::Mode;
pub use stream::TTYStream;
pub use stream::VTerminal;
pub use stream::WriteRequest;
