//! Decoder for RIFF/WAVE audio containers held in memory.

pub mod error;
pub mod format;
pub mod samples;
pub mod stream;
pub mod wave;

pub use error::FormatFault;
pub use error::WaveError;
pub use format::FormatChunk;
pub use format::FormatTag;
pub use samples::WaveData;
pub use stream::ByteStream;
pub use wave::load_wave;
pub use wave::Wave;
