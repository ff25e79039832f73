use vstd::prelude::*;
use vstd::slice::slice_to_vec;
use crate::errors::Error;
use crate::ident::{hyphenated, Uuid};
use crate::models::{Image, StoredFile};
use crate::store::{has_file, has_image, Store};

verus! {

/// Longest side of a thumbnail, in pixels.
pub const THUMBNAIL_SIDE: u32 = 200;

pub const IMAGE_URI_PREFIX: &'static str = "/images/";

pub const IMAGE_DIR: &'static str = "./images/";

pub const THUMBNAIL_DIR: &'static str = "./thumbs/";

pub const THUMBNAIL_SUFFIX: &'static str = ".png";

/// The MD5 digest of a run of bytes, read as one number with the first
/// byte of the digest in the highest place.
pub uninterp spec fn md5_digest(bytes: Seq<u8>) -> u128;

/// Calls `md5::compute` and reads the sixteen bytes of the digest as a
/// number in big-endian order.
#[verifier::external_body]
fn digest_of(buf: &[u8]) -> (hash: u128)
    ensures
        hash == md5_digest(buf@),
{
    u128::from_be_bytes(md5::compute(buf).0)
}

/// The error of the image codecs, `image::ImageError`, carried as it is.
#[verifier::external_type_specification]
#[verifier::external_body]
pub struct ExImageError(image::ImageError);

/// Whether a thumbnail within a box can be made of a run of bytes: whether
/// the codecs of the `image` crate read the bytes as a picture, and as one
/// whose kind of pixel the PNG encoder writes.
pub uninterp spec fn thumbnail_succeeds(bytes: Seq<u8>, width: u32, height: u32) -> bool;

/// The width and the height of the picture that the codecs of the `image`
/// crate read from a run of bytes.
pub uninterp spec fn picture_size(bytes: Seq<u8>) -> (u32, u32);

/// Calls `image::load_from_memory`, `DynamicImage::resize`, which keeps the
/// aspect ratio and scales to the largest size within the box, and
/// `PngEncoder::write_image`, which writes the PNG signature and a header
/// with the size that it was given. Whether the three succeed depends on
/// the bytes and the box alone: the first decodes under the crate's own
/// limits, the second cannot fail, and the third fails only on the kind of
/// pixel that was decoded. Of the pixels nothing is stated: the filter
/// works in floating point.
#[verifier::external_body]
fn thumbnail_of(buf: &[u8], width: u32, height: u32) -> (out: Result<Vec<u8>, image::ImageError>)
    requires
        width > 0,
        height > 0,
    ensures
        out is Ok <==> thumbnail_succeeds(buf@, width, height),
        out is Ok ==> is_png_within(out->Ok_0@, width, height),
        out is Ok ==> scaled_to_fit(
            picture_size(buf@),
            be32(out->Ok_0@, 16),
            be32(out->Ok_0@, 20),
            width,
            height,
        ),
{
    let picture = image::load_from_memory(buf)?;
    let small = picture.resize(width, height, image::imageops::FilterType::Lanczos3);
    let mut out = Vec::new();
    let encoder = image::codecs::png::PngEncoder::new(&mut out);
    image::ImageEncoder::write_image(
        encoder,
        small.as_bytes(),
        small.width(),
        small.height(),
        small.color(),
    )?;
    Ok(out)
}

/// Formats an error of the image codecs with its `Display`.
#[verifier::external_body]
fn image_error_text(fault: &image::ImageError) -> (words: String) {
    fault.to_string()
}

impl Store {
    /// Whether `after` is this store once the image of that digest has been
    /// stored with the given thumbnail, or with the fault that kept the
    /// thumbnail from being made. An image that is recorded already changes
    /// nothing. Otherwise the original is put on file; then, on a fault,
    /// nothing more is done; else the thumbnail is put on file and at last
    /// the image is recorded.
    pub open spec fn recorded(
        self,
        after: Store,
        hash: Uuid,
        original: Seq<u8>,
        thumbnail: Result<Seq<u8>, Error>,
    ) -> bool {
        if has_image(self.images@, hash) {
            after == self
        } else {
            &&& after.originals@.len() == self.originals@.len() + 1
            &&& after.originals@.drop_last() == self.originals@
            &&& after.originals@.last().hash == hash
            &&& after.originals@.last().bytes@ == original
            &&& match thumbnail {
                Ok(small) => {
                    &&& after.thumbnails@.len() == self.thumbnails@.len() + 1
                    &&& after.thumbnails@.drop_last() == self.thumbnails@
                    &&& after.thumbnails@.last().hash == hash
                    &&& after.thumbnails@.last().bytes@ == small
                    &&& after.images@ == self.images@.push(Image { hash })
                },
                Err(_) => after.thumbnails == self.thumbnails && after.images == self.images,
            }
            &&& after.boards == self.boards
            &&& after.posts == self.posts
            &&& after.replies == self.replies
            &&& after.bans == self.bans
            &&& after.captchas == self.captchas
            &&& after.users == self.users
            &&& after.sessions == self.sessions
        }
    }
}

/// The bytes of an optional thumbnail.
pub open spec fn thumbnail_bytes(thumbnail: Result<Vec<u8>, Error>) -> Result<Seq<u8>, Error> {
    match thumbnail {
        Ok(small) => Ok(small@),
        Err(fault) => Err(fault),
    }
}

/// Storing an image a second time changes nothing: once an image has been
/// recorded, whatever is stored under its digest leaves the store as it is.
pub proof fn storing_twice_is_storing_once(
    first: Store,
    second: Store,
    third: Store,
    hash: Uuid,
    original: Seq<u8>,
    small: Seq<u8>,
    again: Result<Seq<u8>, Error>,
)
    requires
        first.recorded(second, hash, original, Ok(small)),
        second.recorded(third, hash, original, again),
    ensures
        has_image(second.images@, hash),
        third == second,
{
    if !has_image(first.images@, hash) {
        let n = first.images@.len() as int;
        assert(second.images@[n].hash == hash);
    }
}

proof fn lemma_push_keeps_file(files: Seq<StoredFile>, file: StoredFile, hash: Uuid)
    requires
        has_file(files, hash),
    ensures
        has_file(files.push(file), hash),
{
    let i = choose|i: int| 0 <= i < files.len() && (#[trigger] files[i]).hash == hash;
    assert(files.push(file)[i] == files[i]);
}

proof fn lemma_push_keeps_files(images: Seq<Image>, files: Seq<StoredFile>, file: StoredFile)
    requires
        forall|k: int| 0 <= k < images.len() ==> has_file(files, (#[trigger] images[k]).hash),
    ensures
        forall|k: int|
            0 <= k < images.len() ==> has_file(files.push(file), (#[trigger] images[k]).hash),
{
    assert forall|k: int| 0 <= k < images.len() implies has_file(
        files.push(file),
        (#[trigger] images[k]).hash,
    ) by {
        lemma_push_keeps_file(files, file, images[k].hash);
    }
}

impl Image {
    /// Stores an image under its digest, given the thumbnail that was made
    /// of it or the fault that kept it from being made.
    pub fn record(
        hash: Uuid,
        original: &[u8],
        thumbnail: Result<Vec<u8>, Error>,
        store: &mut Store,
    ) -> (out: Result<Image, Error>)
        requires
            old(store).wf(),
        ensures
            final(store).wf(),
            old(store).recorded(*final(store), hash, original@, thumbnail_bytes(thumbnail)),
            out == match thumbnail {
                Ok(_) => Ok::<Image, Error>(Image { hash }),
                Err(fault) => if has_image(old(store).images@, hash) {
                    Ok::<Image, Error>(Image { hash })
                } else {
                    Err::<Image, Error>(fault)
                },
            },
    {
        if store.knows_image(hash) {
            return Ok(Image { hash });
        }
        let ghost before = *store;
        let file = StoredFile { hash, bytes: slice_to_vec(original) };
        store.originals.push(file);
        proof {
            assert(store.originals@.drop_last() == before.originals@);
            lemma_push_keeps_files(before.images@, before.originals@, file);
        }
        match thumbnail {
            Err(fault) => Err(fault),
            Ok(small) => {
                let thumb = StoredFile { hash, bytes: small };
                store.thumbnails.push(thumb);
                store.images.push(Image { hash });
                proof {
                    assert(store.thumbnails@.drop_last() == before.thumbnails@);
                    lemma_push_keeps_files(before.images@, before.thumbnails@, thumb);
                    let images = store.images@;
                    assert(store.thumbnails@[store.thumbnails@.len() - 1].hash == hash);
                    assert forall|j: int|
                        0 <= j < store.posts@.len() && (#[trigger] store.posts@[j]).image
                            is Some implies has_image(images, store.posts@[j].image->0) by {
                        let wanted = store.posts@[j].image->0;
                        let i = choose|i: int|
                            0 <= i < before.images@.len() && (#[trigger] before.images@[i]).hash
                                == wanted;
                        assert(images[i] == before.images@[i]);
                    }
                }
                Ok(Image { hash })
            },
        }
    }

    /// The digest under which a run of bytes is stored.
    pub fn digest(buf: &[u8]) -> (hash: Uuid)
        ensures
            hash == Uuid(md5_digest(buf@)),
    {
        Uuid(digest_of(buf))
    }

    /// Makes the thumbnail of a picture: a PNG that fits a square of 200
    /// pixels and keeps the aspect ratio. Bytes that are no picture give
    /// the fault of the codec.
    pub fn thumbnail(buf: &[u8]) -> (out: Result<Vec<u8>, Error>)
        ensures
            out is Ok <==> thumbnail_succeeds(buf@, THUMBNAIL_SIDE, THUMBNAIL_SIDE),
            match out {
                Ok(small) => is_png_within(small@, THUMBNAIL_SIDE, THUMBNAIL_SIDE)
                    && scaled_to_fit(
                    picture_size(buf@),
                    be32(small@, 16),
                    be32(small@, 20),
                    THUMBNAIL_SIDE,
                    THUMBNAIL_SIDE,
                ),
                Err(fault) => fault is Image,
            },
    {
        match thumbnail_of(buf, THUMBNAIL_SIDE, THUMBNAIL_SIDE) {
            Ok(small) => Ok(small),
            Err(fault) => Err(Error::Image(image_error_text(&fault))),
        }
    }

    /// Stores an image under the digest of its bytes, with a thumbnail that
    /// fits a square of 200 pixels and keeps the aspect ratio. Bytes that
    /// are stored already are not decoded or written again, and succeed.
    /// Other bytes succeed where a thumbnail can be made of them; bytes
    /// that are no picture leave their original on file and record nothing.
    pub fn from_buf(buf: &[u8], store: &mut Store) -> (out: Result<Image, Error>)
        requires
            old(store).wf(),
        ensures
            final(store).wf(),
            has_image(old(store).images@, Uuid(md5_digest(buf@))) ==> *final(store) == *old(store)
                && out == Ok::<Image, Error>(Image { hash: Uuid(md5_digest(buf@)) }),
            !has_image(old(store).images@, Uuid(md5_digest(buf@))) ==> (out is Ok
                <==> thumbnail_succeeds(buf@, THUMBNAIL_SIDE, THUMBNAIL_SIDE)),
            match out {
                Ok(image) => image.hash == Uuid(md5_digest(buf@)) && has_image(
                    final(store).images@,
                    image.hash,
                ) && exists|small: Seq<u8>|
                    is_png_within(small, THUMBNAIL_SIDE, THUMBNAIL_SIDE) && (!has_image(
                        old(store).images@,
                        image.hash,
                    ) ==> scaled_to_fit(
                        picture_size(buf@),
                        be32(small, 16),
                        be32(small, 20),
                        THUMBNAIL_SIDE,
                        THUMBNAIL_SIDE,
                    )) && old(store).recorded(*final(store), image.hash, buf@, Ok(small)),
                Err(fault) => fault is Image && old(store).recorded(
                    *final(store),
                    Uuid(md5_digest(buf@)),
                    buf@,
                    Err(fault),
                ),
            },
    {
        let hash = Image::digest(buf);
        if store.knows_image(hash) {
            proof {
                lemma_smallest_png();
                assert(old(store).recorded(*store, hash, buf@, Ok(smallest_png())));
            }
            return Ok(Image { hash });
        }
        let thumbnail = Image::thumbnail(buf);
        let ghost made = thumbnail_bytes(thumbnail);
        let out = Image::record(hash, buf, thumbnail, store);
        proof {
            match made {
                Ok(small) => {
                    let n = old(store).images@.len() as int;
                    assert(store.images@[n].hash == hash);
                    assert(is_png_within(small, THUMBNAIL_SIDE, THUMBNAIL_SIDE) && scaled_to_fit(
                        picture_size(buf@),
                        be32(small, 16),
                        be32(small, 20),
                        THUMBNAIL_SIDE,
                        THUMBNAIL_SIDE,
                    ) && old(store).recorded(*store, hash, buf@, Ok(small)));
                },
                Err(_) => {},
            }
        }
        out
    }

    /// The digest of the image.
    pub fn hash(&self) -> (hash: Uuid)
        ensures
            hash == self.hash,
    {
        self.hash
    }

    /// The address under which the image is served.
    pub fn uri(&self) -> (uri: String)
        ensures
            uri@ == IMAGE_URI_PREFIX@ + hyphenated(self.hash.0),
    {
        let name = self.hash.hyphenated();
        String::from_str(IMAGE_URI_PREFIX).concat(name.as_str())
    }

    /// The path of the file that holds the original.
    pub fn original_path(&self) -> (path: String)
        ensures
            path@ == IMAGE_DIR@ + hyphenated(self.hash.0),
    {
        let name = self.hash.hyphenated();
        String::from_str(IMAGE_DIR).concat(name.as_str())
    }

    /// The path of the file that holds the thumbnail.
    pub fn thumbnail_path(&self) -> (path: String)
        ensures
            path@ == THUMBNAIL_DIR@ + hyphenated(self.hash.0) + THUMBNAIL_SUFFIX@,
    {
        let name = self.hash.hyphenated();
        String::from_str(THUMBNAIL_DIR).concat(name.as_str()).concat(THUMBNAIL_SUFFIX)
    }
}

/// The eight bytes with which every PNG stream opens.
pub open spec fn png_signature() -> Seq<u8> {
    seq![137u8, 80u8, 78u8, 71u8, 13u8, 10u8, 26u8, 10u8]
}

/// The number that the four bytes from place `at` on hold, the most
/// significant first.
pub open spec fn be32(bytes: Seq<u8>, at: int) -> int {
    bytes[at] * 16777216 + bytes[at + 1] * 65536 + bytes[at + 2] * 256 + bytes[at + 3]
}

/// Whether a picture of the given width and height, scaled to `tw` by `th`
/// pixels, has kept its aspect ratio and taken the largest size within a
/// box: one side fills the box, and the other is less than one pixel from
/// the length that the ratio gives it.
pub open spec fn scaled_to_fit(size: (u32, u32), tw: int, th: int, width: u32, height: u32) -> bool {
    let w = size.0 as int;
    let h = size.1 as int;
    w >= 1 && h >= 1 ==> {
        ||| tw == width && -w < th * w - h * width < w
        ||| th == height && -h < tw * h - w * height < h
    }
}

/// The opening of the PNG stream of a picture of one pixel.
pub open spec fn smallest_png() -> Seq<u8> {
    seq![
        137u8, 80u8, 78u8, 71u8, 13u8, 10u8, 26u8, 10u8, 0u8, 0u8, 0u8, 13u8, 73u8, 72u8, 68u8,
        82u8, 0u8, 0u8, 0u8, 1u8, 0u8, 0u8, 0u8, 1u8,
    ]
}

/// The opening of a picture of one pixel fits every box.
pub proof fn lemma_smallest_png()
    ensures
        is_png_within(smallest_png(), THUMBNAIL_SIDE, THUMBNAIL_SIDE),
{
    assert(smallest_png().subrange(0, 8) =~= png_signature());
}

/// Whether the bytes open as a PNG stream does: with the signature, and
/// after it a header chunk that gives a picture of at least one pixel each
/// way and of no more than `width` by `height`. The header's width stands
/// in the bytes 16 to 19 of the stream, its height in the bytes 20 to 23.
pub open spec fn is_png_within(bytes: Seq<u8>, width: u32, height: u32) -> bool {
    &&& bytes.len() >= 24
    &&& bytes.subrange(0, 8) == png_signature()
    &&& 1 <= be32(bytes, 16) <= width
    &&& 1 <= be32(bytes, 20) <= height
}

} // verus!
