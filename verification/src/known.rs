//! Format tag resolution and dynamic construction: the closed enumeration
//! of container formats this build knows, the identifier evidence that
//! resolves to a tag, and the per-tag constructors and metadata
//! completion.

use vstd::prelude::*;
use crate::util::bytes_eq;
use crate::error::PhonicError;
use crate::bytes::ByteSource;
use crate::format::Format;
use crate::format::FormatReader;
use crate::format::FormatChunk;
use crate::format::FormatData;
use crate::format::SingleStreamFormat;
use crate::stream::KnownCodec;
use crate::stream::StreamSpecBuilder;
use crate::wave::WaveFormat;
use crate::wave::fill_wave_format_data;
use crate::wave::wave_identifiers;
use crate::wave::wave_extensions_spec;
use crate::wave::wave_mime_types_spec;
use crate::wave::wave_markers_spec;
use crate::wave::parse_header_spec;

verus! {

/// The closed enumeration of container formats this build knows.
#[derive(Debug, Clone, Copy, PartialEq, Eq, Hash, Structural)]
#[non_exhaustive]
pub enum KnownFormat {
    Wave,
}

/// One piece of identifying evidence for a container format: a file
/// extension, a declared MIME type, or leading magic bytes, all carried as
/// plain bytes.
#[derive(Debug)]
pub enum FormatIdentifier {
    FileExtension(Vec<u8>),
    MimeType(Vec<u8>),
    Marker(Vec<u8>),
}

/// The static identifier table of one format: the file extensions, MIME
/// types and magic markers that resolve to it.
#[derive(Debug)]
pub struct FormatIdentifiers {
    pub file_extensions: Vec<Vec<u8>>,
    pub mime_types: Vec<Vec<u8>>,
    pub markers: Vec<Vec<u8>>,
}

/// The byte views of a list of identifiers.
pub open spec fn id_list_view(l: Seq<Vec<u8>>) -> Seq<Seq<u8>> {
    l.map_values(|v: Vec<u8>| v@)
}

/// Whether `v`'s bytes occur in the list `l`.
pub open spec fn id_list_has(l: Seq<Vec<u8>>, v: Seq<u8>) -> bool {
    id_list_view(l).contains(v)
}

/// Whether a table accepts a piece of evidence: the evidence's bytes occur
/// in the list of its kind.
pub open spec fn table_accepts(t: FormatIdentifiers, id: FormatIdentifier) -> bool {
    match id {
        FormatIdentifier::FileExtension(v) => id_list_has(t.file_extensions@, v@),
        FormatIdentifier::MimeType(v) => id_list_has(t.mime_types@, v@),
        FormatIdentifier::Marker(v) => id_list_has(t.markers@, v@),
    }
}

/// Whether `v`'s bytes occur in `list`.
fn list_has(list: &Vec<Vec<u8>>, v: &Vec<u8>) -> (r: bool)
    ensures
        r == id_list_has(list@, v@),
{
    let n = list.len();
    let mut i: usize = 0;
    while i < n
        invariant
            n == list@.len(),
            i <= n,
            forall|j: int| 0 <= j < i ==> id_list_view(list@)[j] != v@,
        decreases n - i,
    {
        if bytes_eq(&list[i], v) {
            proof {
                assert(id_list_view(list@)[i as int] == v@);
            }
            return true;
        }
        i = i + 1;
    }
    proof {
        assert(forall|j: int| 0 <= j < list@.len() ==> id_list_view(list@)[j] != v@);
    }
    false
}

impl FormatIdentifiers {
    /// Whether this table accepts the given evidence.
    pub fn contains(&self, id: &FormatIdentifier) -> (r: bool)
        ensures
            r == table_accepts(*self, *id),
    {
        match id {
            FormatIdentifier::FileExtension(v) => list_has(&self.file_extensions, v),
            FormatIdentifier::MimeType(v) => list_has(&self.mime_types, v),
            FormatIdentifier::Marker(v) => list_has(&self.markers, v),
        }
    }
}

impl KnownFormat {
    /// Whether a piece of evidence resolves to this tag: its bytes occur
    /// in the tag's registered table of the matching kind.
    pub open spec fn identifies_spec(self, id: FormatIdentifier) -> bool {
        match self {
            KnownFormat::Wave => match id {
                FormatIdentifier::FileExtension(v) => wave_extensions_spec().contains(v@),
                FormatIdentifier::MimeType(v) => wave_mime_types_spec().contains(v@),
                FormatIdentifier::Marker(v) => wave_markers_spec().contains(v@),
            },
        }
    }

    /// The static identifier table registered for this tag.
    pub fn identifiers(&self) -> (r: FormatIdentifiers)
        ensures
            forall|id: FormatIdentifier| table_accepts(r, id) == self.identifies_spec(id),
    {
        let r = match self {
            KnownFormat::Wave => wave_identifiers(),
        };
        r
    }

    /// Resolution: scans the registered tables and returns the first tag
    /// whose table accepts the evidence; no match is `NotFound`.
    pub fn try_from_identifier(id: &FormatIdentifier) -> (r: Result<KnownFormat, PhonicError>)
        ensures
            KnownFormat::Wave.identifies_spec(*id) ==> r == Result::<
                KnownFormat,
                PhonicError,
            >::Ok(KnownFormat::Wave),
            !KnownFormat::Wave.identifies_spec(*id) ==> r == Result::<
                KnownFormat,
                PhonicError,
            >::Err(PhonicError::NotFound),
    {
        let table = KnownFormat::Wave.identifiers();
        if table.contains(id) {
            Ok(KnownFormat::Wave)
        } else {
            Err(PhonicError::NotFound)
        }
    }

    /// Metadata completion dispatch: the resolved tag's completion routine
    /// fills and validates the fields it owns; a description without a tag
    /// is left untouched.
    pub fn fill_data(data: FormatData) -> (r: Result<FormatData, PhonicError>)
        ensures
            match data.format {
                Option::Some(f) => match f {
                    KnownFormat::Wave => (r matches Result::Ok(d) && {
                        &&& d.format == Option::Some(KnownFormat::Wave)
                        &&& d.tracks@.len() == data.tracks@.len()
                        &&& forall|j: int|
                            0 <= j < data.tracks@.len() ==> d.tracks@[j] == (StreamSpecBuilder {
                                codec: Option::Some(KnownCodec::Pcm),
                                ..data.tracks@[j]
                            })
                    }),
                },
                Option::None => (r matches Result::Ok(d) && d == data),
            },
    {
        match data.format {
            Option::Some(f) => match f {
                KnownFormat::Wave => fill_wave_format_data(data),
            },
            Option::None => Ok(data),
        }
    }

    /// Dynamic construction: dispatches to this tag's format constructor
    /// over any blocking byte source.
    pub fn from_byte_source<T: ByteSource>(&self, inner: T) -> (r: Result<
        KnownFormatReader<T>,
        PhonicError,
    >)
        ensures
            match r {
                Result::Ok(f) => {
                    &&& *self == KnownFormat::Wave
                    &&& f.data_view().format == Option::Some(KnownFormat::Wave)
                    &&& f.data_view().tracks@.len() == 1
                    &&& 44 <= inner.remaining_bytes().len()
                    &&& (parse_header_spec(inner.remaining_bytes().take(44)) matches Option::Some(h)
                        && {
                        &&& h.fmt.block_align > 0
                        &&& f.data_view().tracks@[0] == (StreamSpecBuilder {
                            codec: Option::Some(KnownCodec::Pcm),
                            decoded_spec: Option::Some(
                                WaveFormat::<T>::decoded_spec_of(h),
                            ),
                            block_align: Option::Some(h.fmt.block_align),
                            compression_ratio: Option::None,
                        })
                    })
                },
                Result::Err(_) => true,
            },
    {
        match self {
            KnownFormat::Wave => {
                let wave = match WaveFormat::read(inner) {
                    Result::Ok(w) => w,
                    Result::Err(e) => {
                        return Err(e);
                    },
                };
                Ok(KnownFormatReader::Wave(wave.into_format()))
            },
        }
    }
}

/// A dynamically constructed chunked reader: one variant per constructible
/// format tag.
pub enum KnownFormatReader<T> {
    Wave(SingleStreamFormat<WaveFormat<T>>),
}

impl<T: ByteSource> Format for KnownFormatReader<T> {
    open spec fn data_view(&self) -> FormatData {
        match self {
            KnownFormatReader::Wave(f) => f.data_view(),
        }
    }

    fn data(&self) -> (d: &FormatData) {
        match self {
            KnownFormatReader::Wave(f) => f.data(),
        }
    }
}

impl<T: ByteSource> FormatReader for KnownFormatReader<T> {
    open spec fn streams(&self) -> Seq<Seq<u8>> {
        match self {
            KnownFormatReader::Wave(f) => f.streams(),
        }
    }

    open spec fn format_retries(&self) -> nat {
        match self {
            KnownFormatReader::Wave(f) => f.format_retries(),
        }
    }

    proof fn streams_match_tracks(&self) {
        match self {
            KnownFormatReader::Wave(f) => f.streams_match_tracks(),
        }
    }

    fn read_chunk(&mut self, buf: &mut Vec<u8>) -> (r: Result<FormatChunk, PhonicError>) {
        match self {
            KnownFormatReader::Wave(f) => f.read_chunk(buf),
        }
    }
}

} // verus!
