//! A reader that can seek inside a bounded prefix of a stream that cannot.

pub mod capture;
pub mod prefix;
pub mod reader;
pub mod source;
pub mod state;

pub use capture::{CaptureState, PrefixCapture, BUFFER_SIZE, LINE_FEED};
pub use prefix::PrefixBuffer;
pub use reader::{ends_with_last_chunk, holds_start_of, SeekRead, SeekableReader};
pub use source::{hands_out, ByteSource, MemorySource, Traced};
pub use state::{PrefixState, SeekFrom, Step, StreamSeekError};
