//! From a mask description to the text of its document and to a raster.

use vstd::prelude::*;
use vstd::string::StringSliceAdditionalSpecFns;
use vstd::utf8::{decode_utf8, valid_utf8};
use crate::mask::MaskConfig;
use crate::svg::{build_document, mask_document};
use crate::xml::{declaration_bytes, declaration_text, document_bytes, generate_document};

verus! {

/// Why a mask could not be rendered.
#[derive(Clone, Copy, Debug, PartialEq, Eq, Structural)]
pub enum RenderError {
    /// The rasteriser refused the document.
    Svg,
    /// No raster of the size can be made: a side is zero, or the size is
    /// beyond what the rasteriser holds.
    Size,
    /// The bytes of a raster are not four for each pixel.
    Raster,
}

/// An RGBA raster with premultiplied alpha, row by row, four bytes per pixel.
#[derive(Debug)]
pub struct MaskBuffer {
    pub width: u32,
    pub height: u32,
    pub data: Vec<u8>,
}

impl MaskBuffer {
    /// The buffer holds exactly four bytes for each pixel.
    pub open spec fn well_formed(&self) -> bool {
        self.data@.len() == 4 * self.width * self.height
    }

    /// A buffer of the given size over `data`, where `data` has four bytes
    /// for each pixel.
    pub fn from_raw(width: u32, height: u32, data: Vec<u8>) -> (r: Option<MaskBuffer>)
        ensures
            r is Some <==> data@.len() == 4 * width * height,
            r matches Some(m) ==> m.well_formed() && m.width == width && m.height == height
                && m.data == data,
    {
        assert(4 * width * height == 4 * (width * height) && 0 <= width * height <= 0xffff_ffff
            * 0xffff_ffff) by (nonlinear_arith)
            requires
                0 <= width <= 0xffff_ffff,
                0 <= height <= 0xffff_ffff,
        ;
        let pixels: u128 = width as u128 * height as u128;
        if data.len() as u128 == 4 * pixels {
            Some(MaskBuffer { width, height, data })
        } else {
            None
        }
    }

    /// The width in pixels.
    pub fn width(&self) -> (w: u32)
        ensures
            w == self.width,
    {
        self.width
    }

    /// The height in pixels.
    pub fn height(&self) -> (h: u32)
        ensures
            h == self.height,
    {
        self.height
    }

    /// The bytes of the buffer.
    pub fn into_raw(self) -> (data: Vec<u8>)
        ensures
            data == self.data,
    {
        self.data
    }
}

/// The declaration that begins a written document.
pub open spec fn xml_declaration() -> Seq<u8> {
    "<?xml version=\"1.1\" encoding=\"UTF-8\"?>".spec_bytes()
}

/// The text of a written document without its declaration: `None` where the
/// bytes do not begin with the declaration or the rest is not UTF-8.
pub open spec fn svg_text(bytes: Seq<u8>) -> Option<Seq<char>> {
    let head = xml_declaration();
    if head.is_prefix_of(bytes) && valid_utf8(bytes.skip(head.len() as int)) {
        Some(decode_utf8(bytes.skip(head.len() as int)))
    } else {
        None
    }
}

/// The text of the document of a mask at the given size, as it is written
/// with the encoding label `UTF-8`, without the declaration.
pub open spec fn mask_svg_text(mask: MaskConfig, width: int, height: int) -> Seq<char> {
    decode_utf8(
        document_bytes("UTF-8"@, mask_document(mask, width, height)).skip(
            xml_declaration().len() as int,
        ),
    )
}

/// The declaration that is stripped is the one that is written for the
/// encoding label `UTF-8`.
pub proof fn lemma_declaration_utf8()
    ensures
        declaration_bytes("UTF-8"@) == xml_declaration(),
{
    reveal_strlit("<?xml version=\"1.1\" encoding=\"UTF-8\"?>");
    reveal_strlit("<?xml version=\"1.1\" encoding=\"");
    reveal_strlit("UTF-8");
    reveal_strlit("\"?>");
    assert(declaration_text("UTF-8"@) =~= "<?xml version=\"1.1\" encoding=\"UTF-8\"?>"@);
}

/// Whether a pixmap of the given size can be made: no side is zero, a row of
/// four bytes a pixel fits a 32-bit signed integer, and the whole fits the
/// address space.
pub open spec fn pixmap_size_ok(width: u32, height: u32) -> bool {
    &&& width >= 1
    &&& height >= 1
    &&& 4 * width <= i32::MAX
    &&& 4 * width * height <= usize::MAX
}

#[verifier::external_type_specification]
#[verifier::external_body]
pub struct ExFromUtf8Error(std::string::FromUtf8Error);

#[verifier::external_type_specification]
#[verifier::external_body]
pub struct ExSvgError(usvg::Error);

/// `String::from_utf8`: succeeds exactly on well-formed UTF-8, and the string
/// then holds the characters that the bytes encode.
#[verifier::external_body]
fn string_from_utf8(bytes: Vec<u8>) -> (r: Result<String, std::string::FromUtf8Error>)
    ensures
        r is Ok <==> valid_utf8(bytes@),
        r matches Ok(s) ==> s@ == decode_utf8(bytes@),
{
    String::from_utf8(bytes)
}

#[verifier::external_type_specification]
#[verifier::external_body]
pub struct ExTree(usvg::Tree);

#[verifier::external_type_specification]
#[verifier::external_body]
pub struct ExPixmap(tiny_skia::Pixmap);

/// The bytes that a pixmap of `tiny_skia` holds: premultiplied RGBA, row by row.
pub uninterp spec fn pixmap_data(pixmap: tiny_skia::Pixmap) -> Seq<u8>;

/// Whether `usvg` accepts a document, with the default options but for the
/// font database, which holds the given font and no other.
pub uninterp spec fn svg_parses(svg: Seq<char>, font_data: Seq<u8>) -> bool;

/// `usvg::Tree::from_str`, with the default options but for the font
/// database, which holds the given font and no other
/// (`fontdb::Database::load_font_data`). Whether the document is accepted
/// depends on its text and the font alone; nothing is claimed of which
/// documents are accepted, nor of the tree.
#[verifier::external_body]
fn parse_tree(svg: &str, font_data: Vec<u8>) -> (r: Result<usvg::Tree, usvg::Error>)
    ensures
        r is Ok <==> svg_parses(svg@, font_data@),
{
    let mut options = usvg::Options::default();
    options.fontdb_mut().load_font_data(font_data);
    usvg::Tree::from_str(svg, &options)
}

/// `tiny_skia::Pixmap::new`: a pixmap is made exactly where no side is zero,
/// the bytes of a row fit a 32-bit signed integer and the bytes of all rows
/// fit a `usize`; it holds four bytes for each pixel.
#[verifier::external_body]
fn new_pixmap(width: u32, height: u32) -> (r: Option<tiny_skia::Pixmap>)
    ensures
        r is Some <==> pixmap_size_ok(width, height),
        r matches Some(pixmap) ==> pixmap_data(pixmap).len() == 4 * width * height,
{
    tiny_skia::Pixmap::new(width, height)
}

/// `resvg::render` with the identity transform: draws the tree into the
/// pixmap, which keeps its size. Nothing is claimed of what is drawn.
#[verifier::external_body]
fn render_tree(tree: &usvg::Tree, pixmap: &mut tiny_skia::Pixmap)
    ensures
        pixmap_data(*final(pixmap)).len() == pixmap_data(*old(pixmap)).len(),
{
    resvg::render(tree, tiny_skia::Transform::default(), &mut pixmap.as_mut())
}

/// `tiny_skia::Pixmap::take`: the bytes of the pixmap.
#[verifier::external_body]
fn take_pixmap(pixmap: tiny_skia::Pixmap) -> (data: Vec<u8>)
    ensures
        data@ == pixmap_data(pixmap),
{
    pixmap.take()
}

/// The text of a written document without its declaration.
pub fn svg_from_document(bytes: Vec<u8>) -> (r: Option<String>)
    ensures
        match r {
            Some(s) => svg_text(bytes@) == Some(s@),
            None => svg_text(bytes@) is None,
        },
{
    let head = "<?xml version=\"1.1\" encoding=\"UTF-8\"?>".as_bytes();
    let n = head.len();
    if bytes.len() < n {
        return None;
    }
    let mut i: usize = 0;
    while i < n
        invariant
            i <= n == head@.len() <= bytes@.len(),
            head@ == xml_declaration(),
            forall|j: int| 0 <= j < i ==> head@[j] == bytes@[j],
        decreases n - i,
    {
        if head[i] != bytes[i] {
            assert(!(head@ =~= bytes@.subrange(0, n as int)));
            return None;
        }
        i += 1;
    }
    assert(head@ =~= bytes@.subrange(0, n as int));
    let mut rest: Vec<u8> = Vec::new();
    let mut k: usize = n;
    while k < bytes.len()
        invariant
            n <= k <= bytes@.len(),
            rest@ == bytes@.subrange(n as int, k as int),
        decreases bytes@.len() - k,
    {
        rest.push(bytes[k]);
        assert(rest@ =~= bytes@.subrange(n as int, k + 1));
        k += 1;
    }
    assert(rest@ =~= bytes@.skip(n as int));
    match string_from_utf8(rest) {
        Ok(text) => Some(text),
        Err(_) => None,
    }
}

/// The text of the document of a mask at the given size, without the
/// declaration: the document is the one that `mask_document` describes,
/// written with the encoding label `UTF-8`.
pub fn generate_mask_svg(mask: MaskConfig, width: u32, height: u32) -> (s: String)
    requires
        mask.fits(width, height),
    ensures
        s@ == mask_svg_text(mask, width as int, height as int),
{
    let root = build_document(&mask, width, height);
    let bytes = generate_document("UTF-8", root).unwrap();
    proof {
        lemma_declaration_utf8();
    }
    svg_from_document(bytes).unwrap()
}

/// A mask of the given size over the bytes that the rasteriser returned.
pub fn mask_from_raster(data: Vec<u8>, width: u32, height: u32) -> (r: Result<
    MaskBuffer,
    RenderError,
>)
    ensures
        r is Ok <==> data@.len() == 4 * width * height,
        r matches Ok(m) ==> m.well_formed() && m.width == width && m.height == height && m.data
            == data,
        r matches Err(e) ==> e == RenderError::Raster,
{
    match MaskBuffer::from_raw(width, height, data) {
        Some(m) => Ok(m),
        None => Err(RenderError::Raster),
    }
}

/// Renders a mask at the given size, with `font_data` as the only font that
/// text can be set in. The rasteriser may refuse the document; a raster that
/// is too large cannot be made; otherwise the raster has exactly the size
/// asked for.
pub fn generate_mask(mask: MaskConfig, width: u32, height: u32, font_data: Vec<u8>) -> (r: Result<
    MaskBuffer,
    RenderError,
>)
    requires
        mask.fits(width, height),
        width >= 1,
        height >= 1,
    ensures
        !svg_parses(mask_svg_text(mask, width as int, height as int), font_data@) ==> r == Err::<
            MaskBuffer,
            RenderError,
        >(RenderError::Svg),
        svg_parses(mask_svg_text(mask, width as int, height as int), font_data@)
            && !pixmap_size_ok(width, height) ==> r == Err::<MaskBuffer, RenderError>(
            RenderError::Size,
        ),
        svg_parses(mask_svg_text(mask, width as int, height as int), font_data@) && pixmap_size_ok(
            width,
            height,
        ) ==> (r matches Ok(m) && m.well_formed() && m.width == width && m.height == height),
{
    let svg = generate_mask_svg(mask, width, height);
    let tree = match parse_tree(svg.as_str(), font_data) {
        Ok(tree) => tree,
        Err(_) => {
            return Err(RenderError::Svg);
        },
    };
    let mut pixmap = match new_pixmap(width, height) {
        Some(pixmap) => pixmap,
        None => {
            return Err(RenderError::Size);
        },
    };
    render_tree(&tree, &mut pixmap);
    mask_from_raster(take_pixmap(pixmap), width, height)
}

} // verus!
