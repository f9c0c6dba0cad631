//! A loaded image file: its path, display name, type, full image, thumbnail
//! and hash, and the rules by which one is put together.

use crate::naming::{
    occurs_at, extension_of, file_extension, is_last_segment, remove_all, without_occurrences,
};
use crate::raster::{
    image_color, is_byte_kind, pixmap_new, ColorKind,
    channel, image_bytes, image_dimensions, image_samples, image_size, in_bounds, pixel_at,
    pixmap_byte_len, pixmap_data, pixmap_height, pixmap_pixel, pixmap_size, pixmap_width,
    resize_nearest, resized_within, rgba_image_new, rgba_into_dynamic, rgba_pixels,
    rgba_put_pixel, rgba_samples, rgba_size,
};
use std::hash::DefaultHasher;
use std::hash::Hasher;
use vstd::std_specs::hash::DefaultHasherAdditionalSpecFns;
use image::DynamicImage;
use resvg::tiny_skia::Pixmap;
use vstd::prelude::*;

verus! {

/// An image file as the application holds it.
#[derive(Debug, Clone, PartialEq)]
pub struct File {
    /// Where the file was read from (empty for an image made in memory).
    pub path: String,
    /// The file's name without its extension.
    pub filename: String,
    /// The file's MIME type, or `.dynamic` for an image made in memory.
    pub extension: String,
    /// The image at full size.
    pub dynamic_image: DynamicImage,
    /// The image at thumbnail size.
    pub thumbnail: DynamicImage,
    /// A hash of the image's size and samples.
    pub hash: u64,
}

/// The MIME type of SVG documents.
pub open spec fn svg_mime() -> Seq<char> {
    "image/svg+xml"@
}

/// The text after the last dot of `name` is `svg`: its extension is `.svg`.
pub open spec fn has_svg_extension(name: Seq<char>) -> bool {
    is_last_segment(name, '.', seq!['s', 'v', 'g'])
}

/// The text ".dynamic", the type given to an image made in memory.
pub open spec fn dynamic_type() -> Seq<char> {
    ".dynamic"@
}

/// The raw samples of the image converted from a pixmap `width` by
/// `height` whose buffer is `data`: the buffer's first width-times-height
/// pixels, row by row, with the premultiplied channels as they are; pixels
/// whose index does not fit in `u32` stay zero.
pub open spec fn pixmap_image_samples(data: Seq<u8>, width: u32, height: u32) -> Seq<u8> {
    Seq::new(
        (width * height * 4) as nat,
        |i: int|
            if i / 4 <= u32::MAX {
                data[i]
            } else {
                0u8
            },
    )
}

/// The pixel the conversion of a pixmap of width `w` puts at `k`.
pub open spec fn copied_pixel(data: Seq<u8>, w: u32, k: (u32, u32)) -> (u8, u8, u8, u8) {
    if w * k.1 + k.0 <= u32::MAX {
        pixel_at(data, w * k.1 + k.0)
    } else {
        (0u8, 0u8, 0u8, 0u8)
    }
}

/// The four little-endian bytes of a `u32`.
pub open spec fn le_bytes(x: u32) -> Seq<u8> {
    seq![(x & 0xff) as u8, ((x >> 8) & 0xff) as u8, ((x >> 16) & 0xff) as u8, (x >> 24) as u8]
}

/// The hash of an image of the given size and raw samples: a fresh
/// `DefaultHasher` fed the width, the height and the samples.
pub open spec fn sample_hash(size: (u32, u32), samples: Seq<u8>) -> u64 {
    DefaultHasher::spec_finish(seq![le_bytes(size.0), le_bytes(size.1), samples])
}

/// What `File::new` makes of its inputs: the given path, the name with
/// every occurrence of its extension removed, the MIME type as type, the
/// full image and its hash, and as thumbnail the rendered SVG thumbnail for a
/// `.svg` name, else the full image fitted into the thumbnail square.
pub open spec fn made_by_new(
    res: File,
    path: Seq<char>,
    file_name: Seq<char>,
    mime_type: Seq<char>,
    dynamic_image: DynamicImage,
    svg_thumbnail: Option<DynamicImage>,
    thumbnail_size: i32,
) -> bool {
    &&& res.path@ == path
    &&& exists|ext: Seq<char>|
        extension_of(file_name, ext) && res.filename@ == without_occurrences(file_name, ext)
    &&& res.extension@ == mime_type
    &&& res.dynamic_image == dynamic_image
    &&& res.hash == sample_hash(image_size(dynamic_image), image_samples(dynamic_image))
    &&& has_svg_extension(file_name) ==> res.thumbnail == svg_thumbnail.unwrap()
    &&& !has_svg_extension(file_name) ==> resized_within(
        dynamic_image,
        res.thumbnail,
        thumbnail_size as u32,
        thumbnail_size as u32,
    )
}

/// Law: two files made by `File::new` from the same inputs agree in path,
/// name, type, full image and hash, and in the thumbnail: the same rendered
/// SVG thumbnail, or scaled thumbnails of the same pixel kind, fitting the
/// same bounds, and with the same size and samples for byte-sample images.
pub proof fn law_new_is_repeatable(
    f1: File,
    f2: File,
    path: Seq<char>,
    file_name: Seq<char>,
    mime_type: Seq<char>,
    dynamic_image: DynamicImage,
    svg_thumbnail: Option<DynamicImage>,
    thumbnail_size: i32,
)
    requires
        made_by_new(f1, path, file_name, mime_type, dynamic_image, svg_thumbnail, thumbnail_size),
        made_by_new(f2, path, file_name, mime_type, dynamic_image, svg_thumbnail, thumbnail_size),
    ensures
        f1.path@ == f2.path@,
        f1.filename@ == f2.filename@,
        f1.extension@ == f2.extension@,
        f1.dynamic_image == f2.dynamic_image,
        f1.hash == f2.hash,
        has_svg_extension(file_name) ==> f1.thumbnail == f2.thumbnail,
        !has_svg_extension(file_name) ==> resized_within(
            dynamic_image,
            f1.thumbnail,
            thumbnail_size as u32,
            thumbnail_size as u32,
        ) && resized_within(
            dynamic_image,
            f2.thumbnail,
            thumbnail_size as u32,
            thumbnail_size as u32,
        ),
        !has_svg_extension(file_name) ==> image_color(f1.thumbnail) == image_color(f2.thumbnail),
        !has_svg_extension(file_name) && is_byte_kind(image_color(dynamic_image)) ==> image_size(
            f1.thumbnail,
        ) == image_size(f2.thumbnail) && image_samples(f1.thumbnail) == image_samples(
            f2.thumbnail,
        ),
{
    let e1 = choose|ext: Seq<char>|
        extension_of(file_name, ext) && f1.filename@ == without_occurrences(file_name, ext);
    let e2 = choose|ext: Seq<char>|
        extension_of(file_name, ext) && f2.filename@ == without_occurrences(file_name, ext);
    crate::naming::lemma_last_segment_unique(file_name, '.', e1.drop_first(), e2.drop_first());
    assert(e1 =~= seq![e1[0]] + e1.drop_first());
    assert(e2 =~= seq![e2[0]] + e2.drop_first());
}

/// Law: the hash of an image depends only on its size and raw samples:
/// two images that agree in both get the same hash.
pub proof fn law_hash_depends_only_on_content(a: DynamicImage, b: DynamicImage)
    requires
        image_size(a) == image_size(b),
        image_samples(a) == image_samples(b),
    ensures
        sample_hash(image_size(a), image_samples(a)) == sample_hash(image_size(b), image_samples(b)),
{
}

/// Law: the hash of an image is what a fresh `DefaultHasher` gives after
/// being fed, in three writes, the width, the height and every raw sample of
/// the image, none left out.
pub proof fn law_hash_feeds_every_sample(size: (u32, u32), samples: Seq<u8>)
    ensures
        sample_hash(size, samples) == DefaultHasher::spec_finish(
            seq![le_bytes(size.0), le_bytes(size.1), samples],
        ),
{
}

/// Law: the four bytes written for a `u32` encode it, least significant
/// first, so different numbers are written differently.
pub proof fn law_le_bytes_encode(x: u32)
    ensures
        le_bytes(x).len() == 4,
        x == le_bytes(x)[0] + 256 * le_bytes(x)[1] + 65536 * le_bytes(x)[2] + 16777216 * le_bytes(
            x,
        )[3],
{
    assert(x == (x & 0xff) as u8 + 256 * ((x >> 8) & 0xff) as u8 + 65536 * ((x >> 16) & 0xff) as u8
        + 16777216 * (x >> 24) as u8) by (bit_vector);
}

/// Law: two images feed the hasher the same input only when they have the
/// same size and the same samples; images that differ in any sample, or in
/// size, are hashed from different inputs.
pub proof fn law_hash_input_distinguishes_images(
    size1: (u32, u32),
    samples1: Seq<u8>,
    size2: (u32, u32),
    samples2: Seq<u8>,
)
    ensures
        seq![le_bytes(size1.0), le_bytes(size1.1), samples1] == seq![
            le_bytes(size2.0),
            le_bytes(size2.1),
            samples2,
        ] ==> size1 == size2 && samples1 == samples2,
{
    let in1 = seq![le_bytes(size1.0), le_bytes(size1.1), samples1];
    let in2 = seq![le_bytes(size2.0), le_bytes(size2.1), samples2];
    if in1 == in2 {
        assert(in1[0] == in2[0]);
        assert(in1[1] == in2[1]);
        assert(in1[2] == in2[2]);
        law_le_bytes_encode(size1.0);
        law_le_bytes_encode(size2.0);
        law_le_bytes_encode(size1.1);
        law_le_bytes_encode(size2.1);
    }
}

/// Law: a file made by `File::new` from a name `stem.seg`, where `seg` holds
/// no dot and the extension `.seg` occurs in the name only as its ending, is
/// named `stem`: exactly the extension after the last dot is removed.
pub proof fn law_new_names_file_by_stem(
    res: File,
    path: Seq<char>,
    stem: Seq<char>,
    seg: Seq<char>,
    mime_type: Seq<char>,
    dynamic_image: DynamicImage,
    svg_thumbnail: Option<DynamicImage>,
    thumbnail_size: i32,
)
    requires
        !seg.contains('.'),
        forall|i: int|
            0 <= i < stem.len() ==> #[trigger] (stem + seq!['.'] + seg).subrange(
                i,
                i + seg.len() + 1,
            ) != seq!['.'] + seg,
        made_by_new(
            res,
            path,
            stem + seq!['.'] + seg,
            mime_type,
            dynamic_image,
            svg_thumbnail,
            thumbnail_size,
        ),
    ensures
        res.filename@ == stem,
        res.filename@ + seq!['.'] + seg == stem + seq!['.'] + seg,
{
    let name = stem + seq!['.'] + seg;
    let ext = seq!['.'] + seg;
    let e = choose|e: Seq<char>|
        extension_of(name, e) && res.filename@ == without_occurrences(name, e);
    assert(is_last_segment(name, '.', seg)) by {
        assert(name.skip(name.len() - seg.len()) =~= seg);
        assert(name[name.len() - seg.len() - 1] == '.');
    }
    crate::naming::lemma_last_segment_unique(name, '.', e.drop_first(), seg);
    assert(e =~= ext);
    assert(name.contains('.')) by {
        assert(name[stem.len() as int] == '.');
    }
    assert forall|i: int| occurs_at(name, ext, i) implies i == name.len() - ext.len() by {
        if i < stem.len() {
            assert(name.subrange(i, i + seg.len() + 1) != ext);
        } else if i > stem.len() {
            assert(i + ext.len() > name.len());
        }
    }
    crate::naming::law_stem_and_extension_rebuild_name(name, ext);
    let f = res.filename@;
    assert(f + ext == name);
    assert(f.len() == stem.len());
    assert forall|j: int| 0 <= j < f.len() implies f[j] == stem[j] by {
        assert((f + ext)[j] == name[j]);
    }
    assert(f =~= stem);
}

/// Law: a file made by `File::new` from a name without a dot keeps the whole
/// name.
pub proof fn law_new_keeps_dotless_name(
    res: File,
    path: Seq<char>,
    file_name: Seq<char>,
    mime_type: Seq<char>,
    dynamic_image: DynamicImage,
    svg_thumbnail: Option<DynamicImage>,
    thumbnail_size: i32,
)
    requires
        !file_name.contains('.'),
        made_by_new(res, path, file_name, mime_type, dynamic_image, svg_thumbnail, thumbnail_size),
    ensures
        res.filename@ == file_name,
{
    let e = choose|e: Seq<char>|
        extension_of(file_name, e) && res.filename@ == without_occurrences(file_name, e);
    crate::naming::law_dotless_name_kept(file_name, e);
}

/// `s` written `n` times in a row.
pub open spec fn repeated(s: Seq<char>, n: nat) -> Seq<char>
    decreases n,
{
    if n == 0 {
        Seq::empty()
    } else {
        s + repeated(s, (n - 1) as nat)
    }
}

/// Removal goes past a prefix in which no occurrence can start, keeping it.
proof fn lemma_removal_keeps_free_prefix(t: Seq<char>, r: Seq<char>, pat: Seq<char>)
    requires
        pat.len() > 0,
        forall|i: int| 0 <= i < t.len() ==> t[i] != pat[0],
    ensures
        without_occurrences(t + r, pat) == t + without_occurrences(r, pat),
    decreases t.len(),
{
    let s = t + r;
    if t.len() == 0 {
        assert(s =~= r);
        assert(t + without_occurrences(r, pat) =~= without_occurrences(r, pat));
    } else {
        let rest = t.drop_first();
        lemma_removal_keeps_free_prefix(rest, r, pat);
        assert(s.skip(1) =~= rest + r);
        if s.len() >= pat.len() {
            assert(s.take(pat.len() as int)[0] != pat[0]);
        } else {
            crate::naming::law_absent_pattern_kept(rest + r, pat);
            assert forall|i: int| !occurs_at(rest + r, pat, i) by {}
        }
        assert(t + without_occurrences(r, pat) =~= seq![s[0]] + (rest + without_occurrences(
            r,
            pat,
        )));
    }
}

/// Removing a text from that text written `n` times leaves nothing.
proof fn lemma_removal_of_repeats(pat: Seq<char>, n: nat)
    requires
        pat.len() > 0,
    ensures
        without_occurrences(repeated(pat, n), pat) == Seq::<char>::empty(),
    decreases n,
{
    let s = repeated(pat, n);
    if n == 0 {
    } else {
        lemma_removal_of_repeats(pat, (n - 1) as nat);
        assert(s.take(pat.len() as int) =~= pat);
        assert(s.skip(pat.len() as int) =~= repeated(pat, (n - 1) as nat));
    }
}

/// Law: a file made by `File::new` from a dot-free stem followed by its
/// extension written once or more (`a.png`, `a.png.png`, ...) is named by the
/// stem alone: every occurrence of the extension is removed, not only the last.
pub proof fn law_new_removes_every_extension(
    res: File,
    path: Seq<char>,
    stem: Seq<char>,
    seg: Seq<char>,
    copies: nat,
    mime_type: Seq<char>,
    dynamic_image: DynamicImage,
    svg_thumbnail: Option<DynamicImage>,
    thumbnail_size: i32,
)
    requires
        !stem.contains('.'),
        !seg.contains('.'),
        copies >= 1,
        made_by_new(
            res,
            path,
            stem + repeated(seq!['.'] + seg, copies),
            mime_type,
            dynamic_image,
            svg_thumbnail,
            thumbnail_size,
        ),
    ensures
        res.filename@ == stem,
{
    let ext = seq!['.'] + seg;
    let tail = repeated(ext, copies);
    let name = stem + tail;
    assert(tail =~= ext + repeated(ext, (copies - 1) as nat));
    let e = choose|e: Seq<char>|
        extension_of(name, e) && res.filename@ == without_occurrences(name, e);
    assert(is_last_segment(name, '.', seg)) by {
        lemma_repeated_ends_with(ext, copies);
        let k = tail.len() - ext.len();
        assert(tail.skip(k)[0] == ext[0]);
        assert(name[name.len() - seg.len() - 1] == tail[k]);
        assert forall|j: int| 0 <= j < seg.len() implies name.skip(name.len() - seg.len())[j]
            == seg[j] by {
            assert(tail.skip(k)[1 + j] == ext[1 + j]);
            assert(name[name.len() - seg.len() + j] == tail[k + 1 + j]);
        }
        assert(name.skip(name.len() - seg.len()) =~= seg);
    }
    crate::naming::lemma_last_segment_unique(name, '.', e.drop_first(), seg);
    assert(e =~= ext);
    assert forall|i: int| 0 <= i < stem.len() implies stem[i] != ext[0] by {
        if stem[i] == '.' {
            assert(stem.contains('.'));
        }
    }
    lemma_removal_keeps_free_prefix(stem, tail, ext);
    lemma_removal_of_repeats(ext, copies);
    assert(stem + Seq::<char>::empty() =~= stem);
}

/// `pat` written `n >= 1` times ends with `pat`.
proof fn lemma_repeated_ends_with(pat: Seq<char>, n: nat)
    requires
        n >= 1,
    ensures
        repeated(pat, n).len() >= pat.len(),
        repeated(pat, n).skip(repeated(pat, n).len() - pat.len()) == pat,
    decreases n,
{
    if n == 1 {
        assert(repeated(pat, 0) =~= Seq::<char>::empty());
        assert(repeated(pat, 1) =~= pat);
        assert(pat.skip(0) =~= pat);
    } else {
        lemma_repeated_ends_with(pat, (n - 1) as nat);
        let r = repeated(pat, (n - 1) as nat);
        assert(repeated(pat, n).skip(repeated(pat, n).len() - pat.len()) =~= r.skip(
            r.len() - pat.len(),
        ));
    }
}

/// Row-major indexing: pixel `p` of an image `w` wide lies in row `p / w`,
/// column `p % w`.
proof fn lemma_row_major(p: int, w: int, h: int)
    requires
        0 <= p < w * h,
        w > 0,
    ensures
        0 <= p % w < w,
        0 <= p / w < h,
        w * (p / w) + p % w == p,
{
    vstd::arithmetic::div_mod::lemma_fundamental_div_mod(p, w);
    vstd::arithmetic::div_mod::lemma_mod_pos_bound(p, w);
    vstd::arithmetic::div_mod::lemma_div_pos_is_pos(p, w);
    vstd::arithmetic::div_mod::lemma_multiply_divide_lt(p, w, h);
}

/// Whether the two texts are equal.
fn same_text(a: &str, b: &str) -> (res: bool)
    ensures
        res == (a@ == b@),
{
    String::from_str(a) == String::from_str(b)
}

/// The bytes of a `u32`, least significant first.
fn u32_bytes(x: u32) -> (bytes: Vec<u8>)
    ensures
        bytes@ == le_bytes(x),
{
    let mut bytes: Vec<u8> = Vec::new();
    bytes.push((x & 0xff) as u8);
    bytes.push(((x >> 8) & 0xff) as u8);
    bytes.push(((x >> 16) & 0xff) as u8);
    bytes.push((x >> 24) as u8);
    bytes
}

impl File {
    /// The hash of an image: its width, height and raw samples fed to a fresh
    /// `DefaultHasher`.
    pub fn create_hash(image: &DynamicImage) -> (hash: u64)
        ensures
            hash == sample_hash(image_size(*image), image_samples(*image)),
            hash == DefaultHasher::spec_finish(
                seq![
                    le_bytes(image_size(*image).0),
                    le_bytes(image_size(*image).1),
                    image_samples(*image),
                ],
            ),
    {
        let size = image_dimensions(image);
        let width_bytes = u32_bytes(size.0);
        let height_bytes = u32_bytes(size.1);
        let samples = image_bytes(image);
        let mut hasher = DefaultHasher::new();
        hasher.write(width_bytes.as_slice());
        hasher.write(height_bytes.as_slice());
        hasher.write(samples);
        assert(hasher@ =~= seq![le_bytes(size.0), le_bytes(size.1), image_samples(*image)]);
        hasher.finish()
    }

    /// The path of the file as text.
    pub fn path_str(&self) -> (res: String)
        ensures
            res@ == self.path@,
    {
        self.path.clone()
    }

    /// Whether the main image is rendered from SVG: the MIME type is
    /// `image/svg+xml`. Otherwise it is opened as a raster file.
    pub fn renders_as_svg(mime_type: Option<&str>) -> (res: bool)
        ensures
            res == (mime_type is Some && mime_type.unwrap()@ == svg_mime()),
    {
        match mime_type {
            Some(m) => {
                same_text(m, "image/svg+xml")
            },
            None => false,
        }
    }

    /// Whether the thumbnail is rendered from SVG: the file's extension is
    /// `.svg`. Otherwise it is the main image scaled down.
    pub fn thumbnail_from_svg(file_name: &str) -> (res: bool)
        ensures
            res == has_svg_extension(file_name@),
    {
        let ext = file_extension(file_name);
        let svg = ".svg";
        proof {
            reveal_strlit(".svg");
            if has_svg_extension(file_name@) {
                assert(ext@.drop_first() =~= seq!['s', 'v', 'g']) by {
                    crate::naming::lemma_last_segment_unique(
                        file_name@,
                        '.',
                        ext@.drop_first(),
                        seq!['s', 'v', 'g'],
                    );
                }
                assert(ext@ =~= svg@);
            }
            if ext@ == svg@ {
                assert(ext@.drop_first() =~= seq!['s', 'v', 'g']);
            }
        }
        ext == String::from_str(svg)
    }

    /// The thumbnail of an image: the image scaled with nearest-neighbour
    /// sampling to fit a square of `thumbnail_size` (taken as `u32`).
    fn scaled_thumbnail(image: &DynamicImage, thumbnail_size: i32) -> (res: DynamicImage)
        ensures
            resized_within(*image, res, thumbnail_size as u32, thumbnail_size as u32),
    {
        let side = thumbnail_size as u32;
        resize_nearest(image, side, side)
    }

    /// Puts a file together from what was read for it: its path, its name,
    /// its MIME type and the full image. The name loses every occurrence of
    /// its extension; the type field takes the MIME type. The thumbnail is
    /// `svg_thumbnail` when the extension is `.svg`, else the full image
    /// scaled to fit `thumbnail_size`.
    pub fn new(
        path: String,
        file_name: &str,
        mime_type: String,
        dynamic_image: DynamicImage,
        svg_thumbnail: Option<DynamicImage>,
        thumbnail_size: i32,
    ) -> (res: File)
        requires
            has_svg_extension(file_name@) ==> svg_thumbnail is Some,
        ensures
            made_by_new(
                res,
                path@,
                file_name@,
                mime_type@,
                dynamic_image,
                svg_thumbnail,
                thumbnail_size,
            ),
    {
        let ext = file_extension(file_name);
        let name_no_extension = remove_all(file_name, ext.as_str());
        let hash = Self::create_hash(&dynamic_image);
        let thumbnail = if Self::thumbnail_from_svg(file_name) {
            match svg_thumbnail {
                Some(t) => t,
                None => Self::scaled_thumbnail(&dynamic_image, thumbnail_size),
            }
        } else {
            Self::scaled_thumbnail(&dynamic_image, thumbnail_size)
        };
        File {
            path,
            filename: name_no_extension,
            extension: mime_type,
            dynamic_image,
            thumbnail,
            hash,
        }
    }

    /// A file for an image made in memory: empty path, type `.dynamic`, the
    /// given name, and the image scaled to fit `thumbnail_size` as thumbnail.
    pub fn from_image(image: DynamicImage, thumbnail_size: i32, filename: &str) -> (res: File)
        ensures
            res.path@ == Seq::<char>::empty(),
            res.extension@ == dynamic_type(),
            res.filename@ == filename@,
            res.dynamic_image == image,
            res.hash == sample_hash(image_size(image), image_samples(image)),
            resized_within(image, res.thumbnail, thumbnail_size as u32, thumbnail_size as u32),
    {
        let thumbnail = Self::scaled_thumbnail(&image, thumbnail_size);
        let hash = Self::create_hash(&image);
        let extension = String::from_str(".dynamic");
        File {
            path: String::new(),
            extension,
            filename: String::from_str(filename),
            hash,
            dynamic_image: image,
            thumbnail,
        }
    }

    /// A blank pixmap `size` pixels square to render into (what
    /// `Pixmap::new(size as u32, size as u32)` gives): `None` where the size
    /// is zero, negative, or too wide for a row to fit in `i32` bytes, and
    /// where the whole buffer would not fit in one allocation.
    pub fn new_pixmap(size: i32) -> (pixmap: Option<Pixmap>)
        ensures
            pixmap is Some <==> (size > 0 && size * 4 <= i32::MAX && size * size * 4
                <= isize::MAX),
            pixmap matches Some(p) ==> {
                &&& pixmap_size(p) == (size as u32, size as u32)
                &&& pixmap_data(p) == Seq::new(
                    (size as u32 * size as u32 * 4) as nat,
                    |i: int| 0u8,
                )
            },
    {
        if size <= 0 || size > 536870911 {
            return None;
        }
        let side = size as u32;
        let wide = side as u64;
        proof {
            assert(wide * wide * 4 <= 1152921500311879684) by (nonlinear_arith)
                requires
                    wide <= 536870911,
            ;
        }
        if wide * wide * 4 > isize::MAX as u64 {
            return None;
        }
        pixmap_new(side, side)
    }

    /// Copies a rendered pixmap into an RGBA image of the same size, pixel
    /// by pixel, keeping the pixmap's premultiplied channels as they are.
    /// The pixmap's buffer must hold whole pixels (reading a pixel panics
    /// otherwise).
    pub fn pixmap_to_image(pixmap: Pixmap) -> (image: DynamicImage)
        requires
            pixmap_data(pixmap).len() % 4 == 0,
        ensures
            image_size(image) == pixmap_size(pixmap),
            image_color(image) == ColorKind::Rgba8,
            image_samples(image) == pixmap_image_samples(
                pixmap_data(pixmap),
                pixmap_size(pixmap).0,
                pixmap_size(pixmap).1,
            ),
    {
        let width = pixmap_width(&pixmap);
        let height = pixmap_height(&pixmap);
        let ghost data = pixmap_data(pixmap);
        let ghost size = (width, height);
        let mut img = rgba_image_new(width, height);
        let mut y: u32 = 0;
        while y < height
            invariant
                y <= height,
                size == (width, height),
                width == pixmap_size(pixmap).0,
                data == pixmap_data(pixmap),
                data.len() % 4 == 0,
                width * height * 4 <= data.len(),
                rgba_size(img) == size,
                forall|k: (u32, u32)| #[trigger]
                    rgba_pixels(img).contains_key(k) <==> in_bounds(size, k),
                forall|k: (u32, u32)|
                    in_bounds(size, k) && k.1 < y ==> #[trigger] rgba_pixels(img)[k]
                        == copied_pixel(data, width, k),
                forall|k: (u32, u32)|
                    in_bounds(size, k) && k.1 >= y ==> #[trigger] rgba_pixels(img)[k] == (
                        0u8,
                        0u8,
                        0u8,
                        0u8,
                    ),
            decreases height - y,
        {
            let mut x: u32 = 0;
            while x < width
                invariant
                    x <= width,
                    y < height,
                    size == (width, height),
                    width == pixmap_size(pixmap).0,
                    data == pixmap_data(pixmap),
                    data.len() % 4 == 0,
                    width * height * 4 <= data.len(),
                    rgba_size(img) == size,
                    forall|k: (u32, u32)| #[trigger]
                        rgba_pixels(img).contains_key(k) <==> in_bounds(size, k),
                    forall|k: (u32, u32)|
                        in_bounds(size, k) && (k.1 < y || (k.1 == y && k.0 < x))
                            ==> #[trigger] rgba_pixels(img)[k] == copied_pixel(data, width, k),
                    forall|k: (u32, u32)|
                        in_bounds(size, k) && (k.1 > y || (k.1 == y && k.0 >= x))
                            ==> #[trigger] rgba_pixels(img)[k] == (0u8, 0u8, 0u8, 0u8),
                decreases width - x,
            {
                proof {
                    assert(width * y + x < width * height) by (nonlinear_arith)
                        requires
                            x < width,
                            y < height,
                    ;
                }
                match pixmap_pixel(&pixmap, x, y) {
                    Some(px) => {
                        rgba_put_pixel(&mut img, x, y, px);
                    },
                    None => {},
                }
                x = x + 1;
            }
            y = y + 1;
        }
        let ghost final_pixels = rgba_pixels(img);
        let image = rgba_into_dynamic(img);
        proof {
            let target = pixmap_image_samples(data, width, height);
            let got = rgba_samples(final_pixels, size);
            assert(got.len() == target.len());
            assert forall|i: int| 0 <= i < got.len() implies got[i] == target[i] by {
                let p = i / 4;
                assert(0 <= p < width * height) by (nonlinear_arith)
                    requires
                        0 <= i < width * height * 4,
                        p == i / 4,
                ;
                vstd::arithmetic::div_mod::lemma_fundamental_div_mod(i, 4);
                lemma_row_major(p, width as int, height as int);
                let k = ((p % (width as int)) as u32, (p / (width as int)) as u32);
                assert(in_bounds(size, k));
                assert(final_pixels[k] == copied_pixel(data, width, k));
            }
            assert(got =~= target);
        }
        image
    }

    /// The image of a pixmap as `pixmap_to_image` makes it, or `None` where
    /// the pixmap's buffer does not hold whole pixels (where reading a pixel
    /// would panic).
    pub fn try_pixmap_to_image(pixmap: Pixmap) -> (image: Option<DynamicImage>)
        ensures
            image is None <==> pixmap_data(pixmap).len() % 4 != 0,
            image matches Some(img) ==> {
                &&& image_size(img) == pixmap_size(pixmap)
                &&& image_color(img) == ColorKind::Rgba8
                &&& image_samples(img) == pixmap_image_samples(
                    pixmap_data(pixmap),
                    pixmap_size(pixmap).0,
                    pixmap_size(pixmap).1,
                )
            },
    {
        if pixmap_byte_len(&pixmap) % 4 == 0 {
            Some(Self::pixmap_to_image(pixmap))
        } else {
            None
        }
    }
}

} // verus!
