//! The codec selector: from the kind of an archive to the decoder or encoder
//! of its compression container.
//!
//! The codecs themselves are those of `flate2`, `bzip2` and `lzma`; the
//! functions that call them are trusted, and say so.

use std::io::Read;
use std::io::Write;
use vstd::prelude::*;
use crate::error::ArchiveError;
use crate::kind::ArchiveType;

verus! {

#[verifier::external_type_specification]
#[verifier::external_body]
pub struct ExIoError(std::io::Error);

#[verifier::external_type_specification]
#[verifier::external_body]
pub struct ExLzmaError(lzma::LzmaError);

/// The preset at which xz streams are compressed.
pub const XZ_PRESET: u32 = 6;

/// What `flate2`'s gzip decoder reads out of the compressed bytes `data`:
/// the decoded bytes, or nothing where it reports an error.
pub uninterp spec fn gzip_decoded(data: Seq<u8>) -> Option<Seq<u8>>;

/// What `flate2`'s gzip encoder makes of the bytes `data` at its default
/// level: the compressed bytes, or nothing where it reports an error.
pub uninterp spec fn gzip_encoded(data: Seq<u8>) -> Option<Seq<u8>>;

/// What `bzip2`'s decoder reads out of the compressed bytes `data`: the
/// decoded bytes, or nothing where it reports an error.
pub uninterp spec fn bzip2_decoded(data: Seq<u8>) -> Option<Seq<u8>>;

/// What `bzip2`'s encoder makes of the bytes `data` at its default level: the
/// compressed bytes, or nothing where it reports an error.
pub uninterp spec fn bzip2_encoded(data: Seq<u8>) -> Option<Seq<u8>>;

/// Reads `data` to the end through `flate2::read::GzDecoder`. Trusted: the
/// decoder's answer depends on the bytes alone, and is the one that
/// `gzip_decoded` names. It decodes the first member of the stream.
#[verifier::external_body]
fn gzip_decode(data: &[u8]) -> (r: Result<Vec<u8>, std::io::Error>)
    ensures
        match r {
            Ok(bytes) => gzip_decoded(data@) == Some(bytes@),
            Err(_) => gzip_decoded(data@) is None,
        },
{
    let mut bytes = Vec::new();
    flate2::read::GzDecoder::new(data).read_to_end(&mut bytes)?;
    Ok(bytes)
}

/// Writes `data` through `flate2::write::GzEncoder` at the default level and
/// finishes the stream. Trusted: the encoder's answer depends on the bytes
/// alone (its header holds no time and no file name), and is the one that
/// `gzip_encoded` names.
#[verifier::external_body]
fn gzip_encode(data: &[u8]) -> (r: Result<Vec<u8>, std::io::Error>)
    ensures
        match r {
            Ok(bytes) => gzip_encoded(data@) == Some(bytes@),
            Err(_) => gzip_encoded(data@) is None,
        },
{
    let mut encoder = flate2::write::GzEncoder::new(Vec::new(), flate2::Compression::default());
    encoder.write_all(data)?;
    encoder.finish()
}

/// Reads `data` to the end through `bzip2::read::BzDecoder`. Trusted: the
/// decoder's answer depends on the bytes alone, and is the one that
/// `bzip2_decoded` names.
#[verifier::external_body]
fn bzip2_decode(data: &[u8]) -> (r: Result<Vec<u8>, std::io::Error>)
    ensures
        match r {
            Ok(bytes) => bzip2_decoded(data@) == Some(bytes@),
            Err(_) => bzip2_decoded(data@) is None,
        },
{
    let mut bytes = Vec::new();
    bzip2::read::BzDecoder::new(data).read_to_end(&mut bytes)?;
    Ok(bytes)
}

/// Writes `data` through `bzip2::write::BzEncoder` at the default level and
/// finishes the stream. Trusted: the encoder's answer depends on the bytes
/// alone, and is the one that `bzip2_encoded` names.
#[verifier::external_body]
fn bzip2_encode(data: &[u8]) -> (r: Result<Vec<u8>, std::io::Error>)
    ensures
        match r {
            Ok(bytes) => bzip2_encoded(data@) == Some(bytes@),
            Err(_) => bzip2_encoded(data@) is None,
        },
{
    let mut encoder = bzip2::write::BzEncoder::new(Vec::new(), bzip2::Compression::default());
    encoder.write_all(data)?;
    encoder.finish()
}

/// Reads `data` to the end through `lzma::LzmaReader::new_decompressor`.
/// Trusted, and nothing is claimed of the result: the work is done by the
/// machine's liblzma, so the same bytes need not be answered alike everywhere.
#[verifier::external_body]
fn xz_decode(data: &[u8]) -> Result<Vec<u8>, lzma::LzmaError> {
    let mut bytes = Vec::new();
    lzma::LzmaReader::new_decompressor(data)?.read_to_end(&mut bytes)?;
    Ok(bytes)
}

/// Writes `data` through `lzma::LzmaWriter::new_compressor` at `preset` and
/// finishes the stream. Trusted, and nothing is claimed of the result: the
/// work is done by the machine's liblzma.
#[verifier::external_body]
fn xz_encode(data: &[u8], preset: u32) -> Result<Vec<u8>, lzma::LzmaError> {
    let mut encoder = lzma::LzmaWriter::new_compressor(Vec::new(), preset)?;
    encoder.write_all(data)?;
    encoder.finish()
}

/// An opened archive: the tar stream that its compression container held.
#[derive(Debug, PartialEq, Eq)]
pub struct Archive {
    pub image: Vec<u8>,
}

impl View for Archive {
    type V = Seq<u8>;

    open spec fn view(&self) -> Seq<u8> {
        self.image@
    }
}

/// Whether `r` is what opening an archive gives when its decoder answered
/// `decoded`: the archive over the decoded stream, or the report of a
/// malformed stream.
pub open spec fn opened_as(r: Result<Archive, ArchiveError>, decoded: Option<Seq<u8>>) -> bool {
    match decoded {
        Some(image) => r matches Ok(archive) && archive@ == image,
        None => r matches Err(e) && e == ArchiveError::MalformedStream,
    }
}

/// Whether `r` is what packing a tar stream gives when its encoder answered
/// `encoded`: the compressed bytes, or the report of a failed write.
pub open spec fn packed_as(r: Result<Vec<u8>, ArchiveError>, encoded: Option<Seq<u8>>) -> bool {
    match encoded {
        Some(bytes) => r matches Ok(out) && out@ == bytes,
        None => r matches Err(e) && e == ArchiveError::WriteFailed,
    }
}

/// The archive over what a decoder answered.
pub fn archive_from<E>(decoded: Result<Vec<u8>, E>) -> (r: Result<Archive, ArchiveError>)
    ensures
        match decoded {
            Ok(image) => opened_as(r, Some(image@)),
            Err(_) => opened_as(r, None),
        },
{
    match decoded {
        Ok(image) => Ok(Archive { image }),
        Err(_) => Err(ArchiveError::MalformedStream),
    }
}

/// The compressed bytes that an encoder answered.
pub fn packed_from<E>(encoded: Result<Vec<u8>, E>) -> (r: Result<Vec<u8>, ArchiveError>)
    ensures
        match encoded {
            Ok(bytes) => packed_as(r, Some(bytes@)),
            Err(_) => packed_as(r, None),
        },
{
    match encoded {
        Ok(bytes) => Ok(bytes),
        Err(_) => Err(ArchiveError::WriteFailed),
    }
}

/// Opens the archive that the bytes `data` hold, by the decoder of
/// `archive_type`.
///
/// With an unknown kind nothing is decoded. A gzip or bzip2 archive opens as
/// its decoder answers. Of an xz archive the contract says only that it
/// either opens or is reported as malformed.
pub fn open_archive(data: &[u8], archive_type: ArchiveType) -> (r: Result<Archive, ArchiveError>)
    ensures
        match archive_type {
            ArchiveType::Gz => opened_as(r, gzip_decoded(data@)),
            ArchiveType::Bz2 => opened_as(r, bzip2_decoded(data@)),
            ArchiveType::Xz => r is Ok || opened_as(r, None),
            ArchiveType::Unknown => r matches Err(e) && e == ArchiveError::UnknownArchiveType,
        },
{
    match archive_type {
        ArchiveType::Gz => archive_from(gzip_decode(data)),
        ArchiveType::Bz2 => archive_from(bzip2_decode(data)),
        ArchiveType::Xz => archive_from(xz_decode(data)),
        ArchiveType::Unknown => Err(ArchiveError::UnknownArchiveType),
    }
}

/// Packs the tar stream `image` into the compression container of
/// `archive_type`.
///
/// With an unknown kind nothing is encoded. A gzip or bzip2 container is what
/// its encoder answers. Of an xz container the contract says only that it is
/// either made or reported as failed.
pub fn pack_archive(image: &[u8], archive_type: ArchiveType) -> (r: Result<Vec<u8>, ArchiveError>)
    ensures
        match archive_type {
            ArchiveType::Gz => packed_as(r, gzip_encoded(image@)),
            ArchiveType::Bz2 => packed_as(r, bzip2_encoded(image@)),
            ArchiveType::Xz => r is Ok || packed_as(r, None),
            ArchiveType::Unknown => r matches Err(e) && e == ArchiveError::UnknownArchiveType,
        },
{
    match archive_type {
        ArchiveType::Gz => packed_from(gzip_encode(image)),
        ArchiveType::Bz2 => packed_from(bzip2_encode(image)),
        ArchiveType::Xz => packed_from(xz_encode(image, XZ_PRESET)),
        ArchiveType::Unknown => Err(ArchiveError::UnknownArchiveType),
    }
}

} // verus!
