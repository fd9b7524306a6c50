//! Least-significant-bit steganography: hide a byte payload in the low bits
//! of a carrier file's sample bytes, and recover it again.
//!
//! One payload bit is stored per carrier byte. A 32-bit length field comes
//! first, so that the decoder knows where the payload ends. The bytes
//! before the format's offset, the upper seven bits of every byte, and the
//! bytes behind the last payload bit are never changed.
//!
//! This hides data from a casual look only. The bits are there for anyone
//! who reads them, and a carrier that is compressed again loses them.

pub mod args;
pub mod bits;
pub mod codec;
pub mod error;
pub mod format;
pub mod laws;
pub mod text;

pub use args::{parse_args, ArgsError, Options};
pub use bits::update_host_byte;
pub use codec::{decode, decode_message, encode, encode_message, has_capacity};
pub use error::StegError;
pub use format::{file_pixel_offset, get_file_type, CarrierFormat};
