use vstd::prelude::*;

use crate::provider::search::{ProviderError, ProviderProgress};
use crate::source::ArtworkFormat;
use crate::text::{append, owned};

verus! {

/// A source of front-cover artwork for release groups.
pub trait ArtworkProvider {
    fn front<Q: ProviderProgress>(
        &mut self,
        release_group_id: &str,
        progress: &mut Q,
    ) -> Result<Option<ProviderArtwork>, ProviderError>;
}

/// An artwork provider with a record, kept in reasoning only, of every release
/// group whose cover it was asked for and what it answered, in order. The
/// provider itself can be reached only through `front`, which adds to the record.
pub struct RecordedArtworkProvider<P> {
    provider: P,
    asked: Ghost<Seq<(Seq<char>, Result<Option<ProviderArtwork>, ProviderError>)>>,
}

impl<P: ArtworkProvider> RecordedArtworkProvider<P> {
    /// `provider`, not yet asked for anything.
    pub fn new(provider: P) -> (r: Self)
        ensures
            r.asked().len() == 0,
    {
        RecordedArtworkProvider { provider, asked: Ghost(Seq::empty()) }
    }

    /// The release groups whose covers the provider was asked for, each with its answer.
    pub closed spec fn asked(&self) -> Seq<(Seq<char>, Result<Option<ProviderArtwork>, ProviderError>)> {
        self.asked@
    }

    /// Asks the provider for a release group's front cover.
    pub fn front<Q: ProviderProgress>(&mut self, release_group_id: &str, progress: &mut Q) -> (r: Result<
        Option<ProviderArtwork>,
        ProviderError,
    >)
        ensures
            final(self).asked() == old(self).asked().push((release_group_id@, r)),
    {
        let answer = self.provider.front(release_group_id, progress);
        self.asked = Ghost(self.asked@.push((release_group_id@, answer)));
        answer
    }
}

/// Artwork a provider supplied: its bytes, format and pixel dimensions.
#[derive(Debug, PartialEq, Eq)]
pub struct ProviderArtwork {
    pub bytes: Vec<u8>,
    pub format: ArtworkFormat,
    pub dimensions: (u32, u32),
}

impl Clone for ProviderArtwork {
    fn clone(&self) -> (r: Self)
        ensures
            r.bytes@ == self.bytes@,
            r.format == self.format,
            r.dimensions == self.dimensions,
    {
        ProviderArtwork { bytes: self.bytes.clone(), format: self.format, dimensions: self.dimensions }
    }
}

/// What `image::guess_format` recognises in `bytes` by their magic numbers: one of
/// the artwork formats, another format (by its name), or nothing (None).
pub uninterp spec fn guessed_format(bytes: Seq<u8>) -> Option<Result<ArtworkFormat, Seq<char>>>;

/// What `image::load_from_memory_with_format` decodes from `bytes` in `format`: the
/// image's width and height, or nothing (None) when they do not decode.
pub uninterp spec fn decoded_dimensions(bytes: Seq<u8>, format: ArtworkFormat) -> Option<(u32, u32)>;

/// Calls `image::guess_format` and tells its answer apart: an artwork format, another
/// format by its debug name, or the crate's error text (which this does not state).
#[verifier::external_body]
fn guess_format(bytes: &[u8]) -> (r: Result<Result<ArtworkFormat, String>, String>)
    ensures
        match r {
            Ok(Ok(f)) => guessed_format(bytes@) == Some(Ok::<ArtworkFormat, Seq<char>>(f)),
            Ok(Err(name)) => guessed_format(bytes@) == Some(Err::<ArtworkFormat, Seq<char>>(name@)),
            Err(_) => guessed_format(bytes@) is None,
        },
{
    match image::guess_format(bytes) {
        Ok(image::ImageFormat::Jpeg) => Ok(Ok(ArtworkFormat::Jpeg)),
        Ok(image::ImageFormat::Png) => Ok(Ok(ArtworkFormat::Png)),
        Ok(image::ImageFormat::WebP) => Ok(Ok(ArtworkFormat::WebP)),
        Ok(image::ImageFormat::Gif) => Ok(Ok(ArtworkFormat::Gif)),
        Ok(other) => Ok(Err(format!("{other:?}"))),
        Err(error) => Err(error.to_string()),
    }
}

/// Calls `image::load_from_memory_with_format` and reads the width and height of
/// the image; on failure, the crate's error text (which this does not state).
#[verifier::external_body]
fn decode_dimensions(bytes: &[u8], format: ArtworkFormat) -> (r: Result<(u32, u32), String>)
    ensures
        match r {
            Ok(d) => decoded_dimensions(bytes@, format) == Some(d),
            Err(_) => decoded_dimensions(bytes@, format) is None,
        },
{
    let format = match format {
        ArtworkFormat::Jpeg => image::ImageFormat::Jpeg,
        ArtworkFormat::Png => image::ImageFormat::Png,
        ArtworkFormat::WebP => image::ImageFormat::WebP,
        ArtworkFormat::Gif => image::ImageFormat::Gif,
    };
    image::load_from_memory_with_format(bytes, format)
        .map(|image| (image.width(), image.height()))
        .map_err(|error| error.to_string())
}

/// Reads downloaded artwork: its format must be one accepted for artwork, and it
/// must decode; the artwork keeps the bytes as they came, in their native format.
pub fn decode(bytes: Vec<u8>) -> (r: Result<ProviderArtwork, ProviderError>)
    ensures
        match guessed_format(bytes@) {
            None => r matches Err(ProviderError::InvalidResponse(m)) && m@.take(16) == "artwork format: "@,
            Some(Err(name)) => r matches Err(ProviderError::InvalidResponse(m)) && m@ == "unsupported artwork format "@ + name,
            Some(Ok(format)) => match decoded_dimensions(bytes@, format) {
                Some(d) => r matches Ok(a) && a.bytes@ == bytes@ && a.format == format && a.dimensions == d,
                None => r matches Err(ProviderError::InvalidResponse(m)) && m@.take(15) == "artwork image: "@,
            },
        },
{
    let format = match guess_format(bytes.as_slice()) {
        Ok(Ok(f)) => f,
        Ok(Err(name)) => {
            let mut text = owned("unsupported artwork format ");
            append(&mut text, name.as_str());
            return Err(ProviderError::InvalidResponse(text));
        },
        Err(message) => {
            let mut text = owned("artwork format: ");
            proof {
                reveal_strlit("artwork format: ");
            }
            append(&mut text, message.as_str());
            assert(text@.take(16) =~= "artwork format: "@);
            return Err(ProviderError::InvalidResponse(text));
        },
    };
    match decode_dimensions(bytes.as_slice(), format) {
        Ok(dimensions) => Ok(ProviderArtwork { bytes, format, dimensions }),
        Err(message) => {
            let mut text = owned("artwork image: ");
            proof {
                reveal_strlit("artwork image: ");
            }
            append(&mut text, message.as_str());
            assert(text@.take(15) =~= "artwork image: "@);
            Err(ProviderError::InvalidResponse(text))
        },
    }
}

/// The Cover Art Archive URL of a release group's front cover, 1200 pixels wide.
pub fn front_cover_url(release_group_id: &str) -> (r: String)
    ensures
        r@ == "https://coverartarchive.org/release-group/"@ + release_group_id@ + "/front-1200"@,
{
    let mut url = owned("https://coverartarchive.org/release-group/");
    append(&mut url, release_group_id);
    append(&mut url, "/front-1200");
    url
}

/// What the archive's answer means for a front cover: downloaded bytes are decoded;
/// "not found" means the group has no cover; any other failure stays an error.
pub fn front_cover(download: Result<Vec<u8>, ProviderError>) -> (r: Result<Option<ProviderArtwork>, ProviderError>)
    ensures
        match download {
            Ok(bytes) => match guessed_format(bytes@) {
                Some(Ok(format)) => match decoded_dimensions(bytes@, format) {
                    Some(d) => r matches Ok(Some(a)) && a.bytes@ == bytes@ && a.format == format && a.dimensions == d,
                    None => r matches Err(ProviderError::InvalidResponse(_)),
                },
                _ => r matches Err(ProviderError::InvalidResponse(_)),
            },
            Err(ProviderError::HttpStatus { status, .. }) => if status == 404 {
                r matches Ok(None)
            } else {
                r matches Err(ProviderError::HttpStatus { status: s, .. }) && s == status
            },
            Err(e) => r == Err::<Option<ProviderArtwork>, ProviderError>(e),
        },
{
    match download {
        Ok(bytes) => match decode(bytes) {
            Ok(artwork) => Ok(Some(artwork)),
            Err(error) => Err(error),
        },
        Err(ProviderError::HttpStatus { operation, status }) => if status == 404 {
            Ok(None)
        } else {
            Err(ProviderError::HttpStatus { operation, status })
        },
        Err(error) => Err(error),
    }
}

} // verus!
