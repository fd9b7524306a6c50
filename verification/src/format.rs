//! Carrier formats: which formats are known, where their sample data
//! begins, and how a file name tells its format.
//!
//! The offsets are fixed per format; no header field is parsed. For `png`
//! the offset skips the eight signature bytes only, so that the frame lands
//! in the first chunk of a real PNG file and not in its pixel data.

use vstd::prelude::*;
use vstd::string::*;

use crate::error::StegError;
use crate::text::is_literal;

verus! {

/// Length of the BMP header that is left untouched.
pub const BMP_HEADER_LEN: usize = 54;

/// Length of the PNG signature that is left untouched.
pub const PNG_HEADER_LEN: usize = 8;

/// A carrier format that the codec can write into.
#[derive(Clone, Copy, Debug, PartialEq, Eq, Structural)]
pub enum CarrierFormat {
    /// Windows bitmap. Its file and info headers take the first 54 bytes.
    Bmp,
    /// Portable Network Graphics. Only the signature of 8 bytes is skipped:
    /// the frame overwrites low bits in the chunk that follows it.
    Png,
}

impl CarrierFormat {
    /// Offset of the first byte that may carry a payload bit.
    pub open spec fn spec_pixel_offset(self) -> usize {
        match self {
            CarrierFormat::Bmp => BMP_HEADER_LEN,
            CarrierFormat::Png => PNG_HEADER_LEN,
        }
    }

    /// The format that an identifier names, if it names one. Identifiers
    /// are lower case: `bmp` and `png`.
    pub open spec fn spec_from_id(id: Seq<char>) -> Option<CarrierFormat> {
        if id == "bmp"@ {
            Some(CarrierFormat::Bmp)
        } else if id == "png"@ {
            Some(CarrierFormat::Png)
        } else {
            None
        }
    }

    /// Offset of the first byte that may carry a payload bit: the number of
    /// header bytes to skip.
    #[verifier::when_used_as_spec(spec_pixel_offset)]
    pub fn pixel_offset(self) -> (offset: usize)
        ensures
            offset == self.spec_pixel_offset(),
    {
        match self {
            CarrierFormat::Bmp => BMP_HEADER_LEN,
            CarrierFormat::Png => PNG_HEADER_LEN,
        }
    }

    /// Looks a format up by its identifier.
    pub fn from_id(id: &String) -> (r: Result<CarrierFormat, StegError>)
        ensures
            CarrierFormat::spec_from_id(id@) matches Some(format) ==> r == Ok::<
                CarrierFormat,
                StegError,
            >(format),
            CarrierFormat::spec_from_id(id@) is None ==> r == Err::<CarrierFormat, StegError>(
                StegError::UnsupportedFormat,
            ),
    {
        if is_literal(id, "bmp") {
            Ok(CarrierFormat::Bmp)
        } else if is_literal(id, "png") {
            Ok(CarrierFormat::Png)
        } else {
            Err(StegError::UnsupportedFormat)
        }
    }
}

/// The offset at which a carrier of the format named `id` takes payload
/// bits, if `id` names a known format.
pub open spec fn offset_of(id: Seq<char>) -> Option<usize> {
    match CarrierFormat::spec_from_id(id) {
        Some(format) => Some(format.spec_pixel_offset()),
        None => None,
    }
}

/// Whether `i` is the place of the one and only `.` in `name`.
pub open spec fn is_only_dot(name: Seq<char>, i: int) -> bool {
    &&& 0 <= i < name.len()
    &&& name[i] == '.'
    &&& forall|j: int| 0 <= j < name.len() && name[j] == '.' ==> j == i
}

/// Resolves a format identifier to the zero-based offset at which the
/// carrier's sample data begins: 54 for `bmp`, 8 for `png`. Any other
/// identifier is refused with `UnsupportedFormat`.
pub fn file_pixel_offset(file_type: &String) -> (r: Result<usize, StegError>)
    ensures
        offset_of(file_type@) matches Some(offset) ==> r == Ok::<usize, StegError>(offset),
        offset_of(file_type@) is None ==> r == Err::<usize, StegError>(
            StegError::UnsupportedFormat,
        ),
{
    match CarrierFormat::from_id(file_type) {
        Ok(format) => Ok(format.pixel_offset()),
        Err(e) => Err(e),
    }
}

/// Takes the format identifier from a file name: the text behind its `.`.
///
/// The name has to hold exactly one `.`; a name with none or with several
/// is refused with `AmbiguousFileType`.
pub fn get_file_type(s: &String) -> (r: Result<String, StegError>)
    ensures
        r matches Ok(ext) ==> exists|i: int| is_only_dot(s@, i) && ext@ == s@.skip(i + 1),
        r matches Err(e) ==> e == StegError::AmbiguousFileType && forall|i: int|
            !is_only_dot(s@, i),
{
    let name = s.as_str();
    let total = name.unicode_len();
    let mut seen: bool = false;
    let mut dot_at: usize = 0;
    let mut i: usize = 0;
    for c in it: name.chars()
        invariant
            it.seq() == s@,
            total == s@.len(),
            i == it.index(),
            !seen ==> forall|j: int| 0 <= j < i ==> s@[j] != '.',
            seen ==> dot_at < i && is_only_dot(s@.take(i as int), dot_at as int),
    {
        if c == '.' {
            if seen {
                return Err(StegError::AmbiguousFileType);
            }
            seen = true;
            dot_at = i;
        }
        i += 1;
    }
    if !seen {
        return Err(StegError::AmbiguousFileType);
    }
    assert(s@.take(i as int) == s@);
    let ext = name.substring_char(dot_at + 1, total);
    Ok(ext.to_owned())
}

} // verus!
