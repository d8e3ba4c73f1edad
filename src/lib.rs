//! Core types and traits shared by image decoders: the pixel layouts, the
//! container format tags, progress reports and the streaming read protocol.
pub mod colortype;
pub mod decoder;
pub mod error;
pub mod format;
pub mod memory;

pub use colortype::{ColorType, ExtendedColorType};
pub use decoder::{chunk_size, ByteReader, ImageDecoder, ImageDecoderExt, Progress, READ_WINDOW};
pub use error::{ImageError, ImageResult};
pub use format::ImageFormat;
pub use memory::{MemoryDecoder, MemoryReader};
