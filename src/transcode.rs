//! Per-file transcode decisions: decode by content, skip pages that are
//! already compact, normalise the pixel layout and downscale.
use vstd::prelude::*;

use crate::quality::SIZE_BUDGET;
use crate::resize::{reduced_dims, resize_plan};

verus! {

#[verifier::external_type_specification]
#[verifier::external_body]
pub struct ExDynamicImage(image::DynamicImage);

/// What the image crate decodes from these bytes: the width, height and
/// pixel layout of the picture, or none when they do not decode as an image.
pub uninterp spec fn decoded_page(b: Seq<u8>) -> Option<(nat, nat, Layout)>;

/// Whether the image crate decodes these bytes as an image.
pub open spec fn decodes_as_image(b: Seq<u8>) -> bool {
    decoded_page(b) is Some
}

/// The layout a page is encoded in: its own when the encoder takes it, else
/// 8-bit RGB.
pub open spec fn encode_layout(l: Layout) -> Layout {
    if encoder_layout(l) {
        l
    } else {
        Layout::Rgb8
    }
}

/// The magic bytes that make the image crate report WebP: "RIFF".
pub open spec fn has_riff_signature(b: Seq<u8>) -> bool {
    b.len() >= 4 && b[0] == 0x52u8 && b[1] == 0x49u8 && b[2] == 0x46u8 && b[3] == 0x46u8
}

/// A file already in the output format and under the size budget.
pub open spec fn is_compact(b: Seq<u8>) -> bool {
    has_riff_signature(b) && b.len() < SIZE_BUDGET
}

/// Whether a file gets re-encoded: it decodes as an image and is not
/// already compact.
pub open spec fn would_encode(b: Seq<u8>) -> bool {
    decodes_as_image(b) && !is_compact(b)
}

/// A page that is already compact is never re-encoded, so a second run over
/// output whose pages all fit the budget replaces nothing.
pub proof fn lemma_compact_never_reencoded(b: Seq<u8>)
    requires
        is_compact(b),
    ensures
        !would_encode(b),
{
}

/// When every file of an archive either does not decode as an image or is
/// already compact (a tree of text files, or one that an earlier run
/// produced), no file is re-encoded.
pub proof fn lemma_nothing_to_encode(files: Seq<Seq<u8>>)
    requires
        forall|i: int| 0 <= i < files.len() ==> !decodes_as_image(#[trigger] files[i]) || is_compact(files[i]),
    ensures
        forall|i: int| 0 <= i < files.len() ==> !would_encode(#[trigger] files[i]),
{
}

/// Pixel layouts, as far as the encoder cares.
#[derive(PartialEq, Eq, Structural, Debug, Clone, Copy)]
pub enum Layout {
    Rgb8,
    Rgba8,
    Other,
}

/// A layout that the encoder takes as it is.
pub open spec fn encoder_layout(l: Layout) -> bool {
    l == Layout::Rgb8 || l == Layout::Rgba8
}

/// A decoded picture with its size and pixel layout as plain values, read
/// from the picture whenever one is made.
pub struct Page {
    image: image::DynamicImage,
    width: u32,
    height: u32,
    layout: Layout,
}

/// Size and layout of a page.
pub struct PageView {
    pub width: nat,
    pub height: nat,
    pub layout: Layout,
}

impl View for Page {
    type V = PageView;

    closed spec fn view(&self) -> PageView {
        PageView { width: self.width as nat, height: self.height as nat, layout: self.layout }
    }
}

impl Page {
    /// Width in pixels.
    pub fn width(&self) -> (r: u32)
        ensures
            r == self@.width,
    {
        self.width
    }

    /// Height in pixels.
    pub fn height(&self) -> (r: u32)
        ensures
            r == self@.height,
    {
        self.height
    }

    /// Pixel layout.
    pub fn layout(&self) -> (r: Layout)
        ensures
            r == self@.layout,
    {
        self.layout
    }

    /// The picture itself, for the encoder.
    pub fn image(&self) -> &image::DynamicImage {
        &self.image
    }
}

/// What to do with one file of the working tree.
pub enum Prepared {
    /// The bytes do not decode as an image: leave the file alone.
    NotImage,
    /// Already in the output format and small enough: leave it alone.
    AlreadyCompact,
    /// Encode this page, laid out and sized for the encoder.
    Encode(Page),
}

/// Relies on image::load_from_memory (format guessed from the content, then
/// decoded; the outcome depends on the bytes alone), with the size read by
/// DynamicImage::width/height and the layout by DynamicImage::color.
#[verifier::external_body]
fn decode_image(bytes: &[u8]) -> (r: Option<Page>)
    ensures
        r is Some == decoded_page(bytes@) is Some,
        r matches Some(p) ==> decoded_page(bytes@) == Some((p@.width, p@.height, p@.layout)),
{
    let image = image::load_from_memory(bytes).ok()?;
    let layout = match image.color() {
        image::ColorType::Rgb8 => Layout::Rgb8,
        image::ColorType::Rgba8 => Layout::Rgba8,
        _ => Layout::Other,
    };
    Some(Page { width: image.width(), height: image.height(), layout, image })
}

/// Relies on image::guess_format: its table of magic bytes maps a leading
/// "RIFF" to WebP, and no earlier entry starts with 'R'.
#[verifier::external_body]
fn guessed_webp(bytes: &[u8]) -> (r: bool)
    ensures
        r == has_riff_signature(bytes@),
{
    matches!(image::guess_format(bytes), Ok(image::ImageFormat::WebP))
}

/// Relies on DynamicImage::to_rgb8: the same picture, pixel for pixel, as
/// 8-bit RGB.
#[verifier::external_body]
fn to_rgb8_page(p: &Page) -> (r: Page)
    ensures
        r@ == (PageView { width: p@.width, height: p@.height, layout: Layout::Rgb8 }),
{
    let image = image::DynamicImage::ImageRgb8(p.image.to_rgb8());
    Page { width: image.width(), height: image.height(), layout: Layout::Rgb8, image }
}

/// Relies on DynamicImage::resize_exact with the Lanczos3 filter: a
/// resampled picture of exactly the given size, in the same pixel type.
#[verifier::external_body]
fn resize_exact_lanczos(p: &Page, width: u32, height: u32) -> (r: Page)
    ensures
        r@ == (PageView { width: width as nat, height: height as nat, layout: p@.layout }),
{
    let image = p.image.resize_exact(width, height, image::imageops::FilterType::Lanczos3);
    Page { width: image.width(), height: image.height(), layout: p.layout, image }
}

/// Whether the encoder needs the pixels converted to 8-bit RGB first: it
/// takes 8-bit RGB and RGBA only.
pub fn needs_rgb_conversion(layout: Layout) -> (r: bool)
    ensures
        r == !encoder_layout(layout),
{
    match layout {
        Layout::Rgb8 => false,
        Layout::Rgba8 => false,
        Layout::Other => true,
    }
}

/// Whether a file's bytes are already compact, so that re-encoding would only
/// lose quality.
pub fn already_compact(bytes: &[u8]) -> (r: bool)
    ensures
        r == is_compact(bytes@),
{
    bytes.len() < SIZE_BUDGET && guessed_webp(bytes)
}

/// Downscales a page to the resize target when it is at least that high.
pub fn reduce_size(page: Page, target: u32) -> (r: Page)
    ensures
        (r@.width, r@.height) == reduced_dims(page@.width, page@.height, target as nat),
        r@.layout == page@.layout,
{
    let (w, h) = (page.width(), page.height());
    let (nw, nh) = resize_plan(w, h, target);
    if nw == w && nh == h {
        page
    } else {
        resize_exact_lanczos(&page, nw, nh)
    }
}

/// Decides what becomes of one file: bytes that do not decode are left
/// alone, as are compact ones; any other image is brought to a layout the
/// encoder takes and downscaled to the target height.
pub fn prepare_page(bytes: &[u8], target: u32) -> (r: Prepared)
    ensures
        (r is NotImage) == !decodes_as_image(bytes@),
        (r is AlreadyCompact) == (decodes_as_image(bytes@) && is_compact(bytes@)),
        (r is Encode) == would_encode(bytes@),
        r matches Prepared::Encode(p) ==> decoded_page(bytes@) is Some && p@.layout
            == encode_layout(decoded_page(bytes@)->Some_0.2) && (p@.width, p@.height)
            == reduced_dims(decoded_page(bytes@)->Some_0.0, decoded_page(bytes@)->Some_0.1, target as nat),
{
    let page = match decode_image(bytes) {
        Some(page) => page,
        None => {
            return Prepared::NotImage;
        },
    };
    if already_compact(bytes) {
        return Prepared::AlreadyCompact;
    }
    let page = if needs_rgb_conversion(page.layout()) {
        to_rgb8_page(&page)
    } else {
        page
    };
    Prepared::Encode(reduce_size(page, target))
}

} // verus!
