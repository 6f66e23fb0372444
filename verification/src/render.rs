//! The renderer: a module grid becomes SVG markup or a PNG data URL.

use crate::capacity::capacity_report;
use crate::encoder::{encode, fits, qr_modules, ModuleGrid, SYMBOL_WIDTH};
use base64::engine::general_purpose::STANDARD;
use base64::Engine;
use image::codecs::png::PngEncoder;
use image::{ExtendedColorType, ImageEncoder, Luma};
use qrcode::render::{svg, Renderer};
use qrcode::Color;
use crate::text::{ends_with, starts_with};
use vstd::prelude::*;
use vstd::string::StringExecFns;
use vstd::string::StringSliceAdditionalSpecFns;

verus! {

/// Light modules that surround the symbol on each side.
pub const QUIET_ZONE: usize = 4;

/// The least width and height of the SVG, in its own units.
pub const SVG_MIN_SIDE: u32 = 300;

/// The least width and height of the PNG, in pixels.
pub const PNG_MIN_SIDE: u32 = 400;

/// The formats that an image can be asked for in.
#[derive(Clone, Copy, Debug, PartialEq, Eq, Structural)]
pub enum Format {
    Svg,
    Png,
}

/// The format that a name stands for: `svg` and `png`, nothing else.
pub open spec fn format_named(name: Seq<char>) -> Option<Format> {
    if name == "svg"@ {
        Some(Format::Svg)
    } else if name == "png"@ {
        Some(Format::Png)
    } else {
        None
    }
}

impl Format {
    /// Reads a format's name; `None` for any name but `svg` and `png`.
    pub fn parse(name: &str) -> (f: Option<Format>)
        ensures
            f == format_named(name@),
    {
        let given = String::from_str(name);
        if given == String::from_str("svg") {
            Some(Format::Svg)
        } else if given == String::from_str("png") {
            Some(Format::Png)
        } else {
            None
        }
    }
}

/// Side of one module in the image, so that the symbol with its quiet zone
/// is at least `min_side` wide: `min_side` divided by the modules across,
/// rounded up, and at least one.
pub open spec fn unit_for(width: int, min_side: int) -> int {
    let across = width + 2 * QUIET_ZONE;
    if (min_side + across - 1) / across >= 1 {
        (min_side + across - 1) / across
    } else {
        1
    }
}

/// Side of the image of a symbol of `width` modules.
pub open spec fn side_for(width: int, min_side: int) -> int {
    (width + 2 * QUIET_ZONE) * unit_for(width, min_side)
}

/// The grey value of the pixel in column `x` of row `y`: black inside a
/// dark module, white elsewhere and in the quiet zone.
pub open spec fn shade(cells: Seq<bool>, width: int, unit: int, x: int, y: int) -> u8 {
    let column = x / unit - QUIET_ZONE;
    let row = y / unit - QUIET_ZONE;
    if 0 <= column < width && 0 <= row < width && cells[row * width + column] {
        0
    } else {
        255
    }
}

/// The pixels of the grey image of a grid, row by row.
pub open spec fn raster_pixels(cells: Seq<bool>, width: int, min_side: int) -> Seq<u8> {
    let unit = unit_for(width, min_side);
    let side = side_for(width, min_side);
    Seq::new((side * side) as nat, |i: int| shade(cells, width, unit, i % side, i / side))
}

/// A square grey image with one byte for each pixel, row by row.
pub struct Raster {
    pub side: u32,
    pub pixels: Vec<u8>,
}

impl Raster {
    /// There is one byte for each pixel of the square.
    pub open spec fn wf(&self) -> bool {
        self.pixels@.len() == self.side * self.side
    }
}

/// The markup that the SVG renderer writes for a grid with a quiet zone of
/// `QUIET_ZONE` modules, at least `SVG_MIN_SIDE` units wide and high, with
/// dark modules in `#000000` on `#ffffff`.
pub uninterp spec fn svg_markup(cells: Seq<bool>, width: int) -> Seq<char>;

/// How every SVG that the renderer writes begins: the XML declaration and
/// the opening of the root element.
pub open spec fn svg_head() -> Seq<char> {
    "<?xml version=\"1.0\" standalone=\"yes\"?><svg xmlns=\"http://www.w3.org/2000/svg\""@
}

/// How every SVG that the renderer writes ends: the end of the path of dark
/// modules and the closing of the root element.
pub open spec fn svg_tail() -> Seq<char> {
    "\"/></svg>"@
}

/// Whether a text has the frame of an SVG document.
pub open spec fn is_svg_document(markup: Seq<char>) -> bool {
    starts_with(markup, svg_head()) && ends_with(markup, svg_tail())
}

/// The PNG file that the PNG encoder writes for an 8-bit grey image of the
/// given pixels, or `None` where it refuses the image.
pub uninterp spec fn png_stream(pixels: Seq<u8>, width: int, height: int) -> Option<Seq<u8>>;

/// The 64 digits of base64, in the order of their values.
pub open spec fn base64_digit(value: int) -> char {
    "ABCDEFGHIJKLMNOPQRSTUVWXYZabcdefghijklmnopqrstuvwxyz0123456789+/"@[value]
}

/// Base64 with the standard alphabet and padding: each three bytes become
/// four digits of six bits; a last group of one or two bytes is filled up
/// with `=`.
pub open spec fn base64_text(bytes: Seq<u8>) -> Seq<char>
    decreases bytes.len(),
{
    if bytes.len() == 0 {
        Seq::empty()
    } else if bytes.len() == 1 {
        let a = bytes[0] as int;
        seq![base64_digit(a / 4), base64_digit(a % 4 * 16), '=', '=']
    } else if bytes.len() == 2 {
        let a = bytes[0] as int;
        let b = bytes[1] as int;
        seq![
            base64_digit(a / 4),
            base64_digit(a % 4 * 16 + b / 16),
            base64_digit(b % 16 * 4),
            '=',
        ]
    } else {
        let a = bytes[0] as int;
        let b = bytes[1] as int;
        let c = bytes[2] as int;
        seq![
            base64_digit(a / 4),
            base64_digit(a % 4 * 16 + b / 16),
            base64_digit(b % 16 * 4 + c / 64),
            base64_digit(c % 64),
        ] + base64_text(bytes.skip(3))
    }
}

/// Length of the base64 text of `n` bytes.
pub open spec fn base64_len(n: int) -> int {
    4 * ((n + 2) / 3)
}

/// The data URL of a PNG file.
pub open spec fn data_url_text(png: Seq<u8>) -> Seq<char> {
    "data:image/png;base64,"@ + base64_text(png)
}

/// Calls `qrcode::render::Renderer::<svg::Color>::new` on the grid's
/// modules with a quiet zone of four, then `min_dimensions(300, 300)`,
/// `dark_color`, `light_color` and `build`.
///
/// Trusted: the markup is a function of the modules and the width alone,
/// named `svg_markup`; it begins with the XML declaration and the opening
/// of the `svg` element and ends with that element's closing tag. The
/// renderer panics unless the modules form a square of `width`, which
/// `requires` rules out.
#[verifier::external_body]
fn svg_of(cells: &[bool], width: usize) -> (markup: String)
    requires
        1 <= width <= SYMBOL_WIDTH,
        cells@.len() == width * width,
    ensures
        markup@ == svg_markup(cells@, width as int),
        is_svg_document(markup@),
{
    let mut colors = Vec::with_capacity(cells.len());
    for dark in cells {
        colors.push(if *dark { Color::Dark } else { Color::Light });
    }
    Renderer::<svg::Color>::new(&colors, width, 4)
        .min_dimensions(300, 300)
        .dark_color(svg::Color("#000000"))
        .light_color(svg::Color("#ffffff"))
        .build()
}

/// Calls `qrcode::render::Renderer::<image::Luma<u8>>::new` on the grid's
/// modules with a quiet zone of four, then `min_dimensions(400, 400)` and
/// `build`, and takes the image's width and its raw bytes.
///
/// Trusted: every module becomes a square of `unit_for` pixels, black for
/// a dark module on a white ground, with the quiet zone around; the image
/// is `side_for` pixels wide and high and stored row by row.
#[verifier::external_body]
fn luma_of(cells: &[bool], width: usize) -> (image: Raster)
    requires
        1 <= width <= SYMBOL_WIDTH,
        cells@.len() == width * width,
    ensures
        image.side == side_for(width as int, PNG_MIN_SIDE as int),
        image.pixels@ == raster_pixels(cells@, width as int, PNG_MIN_SIDE as int),
{
    let mut colors = Vec::with_capacity(cells.len());
    for dark in cells {
        colors.push(if *dark { Color::Dark } else { Color::Light });
    }
    let image = Renderer::<Luma<u8>>::new(&colors, width, 4).min_dimensions(400, 400).build();
    Raster { side: image.width(), pixels: image.into_raw() }
}

/// Calls `image::codecs::png::PngEncoder::new` on a fresh buffer and
/// `write_image` with `ExtendedColorType::L8`.
///
/// Trusted: the file is a function of the pixels and the dimensions alone,
/// named `png_stream`; any error of the encoder is reported as `None`. The
/// encoder panics unless there is one byte for each pixel, which `requires`
/// rules out.
#[verifier::external_body]
fn png_of(pixels: &[u8], width: u32, height: u32) -> (file: Option<Vec<u8>>)
    requires
        pixels@.len() == width * height,
    ensures
        match file {
            Some(bytes) => png_stream(pixels@, width as int, height as int) == Some(bytes@),
            None => png_stream(pixels@, width as int, height as int) is None,
        },
{
    let mut bytes = Vec::new();
    match PngEncoder::new(&mut bytes).write_image(pixels, width, height, ExtendedColorType::L8) {
        Ok(()) => Some(bytes),
        Err(_) => None,
    }
}

/// Calls `base64::Engine::encode` on `base64::engine::general_purpose::STANDARD`.
///
/// Trusted: the text is the base64 of the bytes with the standard alphabet
/// and padding. The engine panics where the length of the text does not fit
/// a `usize`, which `requires` rules out.
#[verifier::external_body]
fn base64_of(bytes: &[u8]) -> (text: String)
    requires
        base64_len(bytes@.len() as int) <= usize::MAX,
    ensures
        text@ == base64_text(bytes@),
{
    STANDARD.encode(bytes)
}

/// What `generate_qr` hands back for a request that succeeded.
#[derive(Clone, Debug)]
pub enum Rendered {
    /// SVG markup, to be sent as it is.
    Svg { markup: String },
    /// A PNG file as a data URL, with the file's length in bytes.
    Png { data_url: String, size_bytes: usize },
}

/// A rendered image as plain text and numbers.
pub enum Artifact {
    Svg { markup: Seq<char> },
    Png { data_url: Seq<char>, size_bytes: nat },
}

impl View for Rendered {
    type V = Artifact;

    open spec fn view(&self) -> Artifact {
        match self {
            Rendered::Svg { markup } => Artifact::Svg { markup: markup@ },
            Rendered::Png { data_url, size_bytes } => Artifact::Png {
                data_url: data_url@,
                size_bytes: *size_bytes as nat,
            },
        }
    }
}

impl Rendered {
    /// The media type of the response: the SVG is sent as it is, the PNG
    /// inside a JSON envelope.
    pub open spec fn media_type(&self) -> Seq<char> {
        match self {
            Rendered::Svg { .. } => "image/svg+xml"@,
            Rendered::Png { .. } => "application/json"@,
        }
    }

    /// The cache directive of the response: an SVG may be kept by anyone
    /// for an hour.
    pub open spec fn cache_directive(&self) -> Option<Seq<char>> {
        match self {
            Rendered::Svg { .. } => Some("public, max-age=3600"@),
            Rendered::Png { .. } => None,
        }
    }

    /// The media type of the response.
    pub fn content_type(&self) -> (t: &'static str)
        ensures
            t@ == self.media_type(),
    {
        match self {
            Rendered::Svg { .. } => "image/svg+xml",
            Rendered::Png { .. } => "application/json",
        }
    }

    /// The cache directive of the response, if it has one.
    pub fn cache_control(&self) -> (c: Option<&'static str>)
        ensures
            match c {
                Some(text) => self.cache_directive() == Some(text@),
                None => self.cache_directive() is None,
            },
    {
        match self {
            Rendered::Svg { .. } => Some("public, max-age=3600"),
            Rendered::Png { .. } => None,
        }
    }
}

/// Why no image was made.
#[derive(Clone, Copy, Debug, PartialEq, Eq, Structural)]
pub enum GenerateError {
    /// The data does not fit into any symbol.
    CapacityExceeded { byte_count: usize },
    /// The format is neither `svg` nor `png`.
    InvalidFormat,
    /// The PNG file could not be written.
    Encoding,
}

/// The image of a grid in a format.
pub open spec fn rendering(cells: Seq<bool>, width: int, format: Format) -> Result<
    Artifact,
    GenerateError,
> {
    match format {
        Format::Svg => Ok(Artifact::Svg { markup: svg_markup(cells, width) }),
        Format::Png => {
            let side = side_for(width, PNG_MIN_SIDE as int);
            match png_stream(raster_pixels(cells, width, PNG_MIN_SIDE as int), side, side) {
                Some(png) => if base64_len(png.len() as int) <= usize::MAX {
                    Ok(Artifact::Png { data_url: data_url_text(png), size_bytes: png.len() })
                } else {
                    Err(GenerateError::Encoding)
                },
                None => Err(GenerateError::Encoding),
            }
        },
    }
}

/// What a request for the image of `data` in the format named `format`
/// yields. Data that does not fit is reported before the format is looked
/// at.
pub open spec fn generated(data: Seq<u8>, format: Seq<char>) -> Result<Artifact, GenerateError> {
    match qr_modules(data) {
        None => Err(GenerateError::CapacityExceeded { byte_count: data.len() as usize }),
        Some(cells) => match format_named(format) {
            None => Err(GenerateError::InvalidFormat),
            Some(f) => rendering(cells, SYMBOL_WIDTH as int, f),
        },
    }
}

/// The image of a symbol is at least as wide as asked for, and wider by no
/// more than one pixel for each module across.
pub proof fn lemma_side_bounds(width: int, min_side: int)
    requires
        1 <= width,
        0 <= min_side,
    ensures
        min_side <= side_for(width, min_side),
        side_for(width, min_side) <= min_side + width + 2 * QUIET_ZONE,
        1 <= unit_for(width, min_side),
{
    let across = width + 2 * QUIET_ZONE;
    let q = (min_side + across - 1) / across;
    vstd::arithmetic::div_mod::lemma_fundamental_div_mod(min_side + across - 1, across);
    vstd::arithmetic::div_mod::lemma_mod_bound(min_side + across - 1, across);
    assert(across * q + (min_side + across - 1) % across == min_side + across - 1);
    if q >= 1 {
        assert(side_for(width, min_side) == across * q);
    } else {
        assert(across * q <= 0) by (nonlinear_arith)
            requires
                across > 0,
                q <= 0,
        ;
        assert(side_for(width, min_side) == across * 1);
    }
}

/// The base64 text of `n` bytes has four characters for each three bytes
/// begun.
pub proof fn lemma_base64_len(bytes: Seq<u8>)
    ensures
        base64_text(bytes).len() == base64_len(bytes.len() as int),
    decreases bytes.len(),
{
    if bytes.len() >= 3 {
        lemma_base64_len(bytes.skip(3));
    }
}

/// A grid as SVG markup.
pub fn render_svg(grid: &ModuleGrid) -> (markup: String)
    requires
        grid.wf(),
    ensures
        markup@ == svg_markup(grid.cells@, grid.width as int),
        is_svg_document(markup@),
        markup@.len() > 0,
{
    proof {
        reveal_strlit("\"/></svg>");
    }
    svg_of(grid.cells.as_slice(), grid.width)
}

/// A grid as a grey image of at least `PNG_MIN_SIDE` pixels each way.
pub fn rasterize(grid: &ModuleGrid) -> (image: Raster)
    requires
        grid.wf(),
    ensures
        image.wf(),
        image.side >= PNG_MIN_SIDE,
        image.side == side_for(grid.width as int, PNG_MIN_SIDE as int),
        image.pixels@ == raster_pixels(grid.cells@, grid.width as int, PNG_MIN_SIDE as int),
{
    proof {
        lemma_side_bounds(grid.width as int, PNG_MIN_SIDE as int);
    }
    luma_of(grid.cells.as_slice(), grid.width)
}

/// A grey image as a PNG file; `None` where the encoder refuses it.
pub fn encode_png(image: &Raster) -> (file: Option<Vec<u8>>)
    requires
        image.wf(),
    ensures
        match file {
            Some(bytes) => png_stream(image.pixels@, image.side as int, image.side as int) == Some(
                bytes@,
            ),
            None => png_stream(image.pixels@, image.side as int, image.side as int) is None,
        },
{
    png_of(image.pixels.as_slice(), image.side, image.side)
}

/// Whether the base64 text of `n` bytes has a length that a `usize` holds.
pub fn base64_fits(n: usize) -> (ok: bool)
    ensures
        ok == (base64_len(n as int) <= usize::MAX),
{
    let groups: usize = n / 3 + if n % 3 > 0 {
        1
    } else {
        0
    };
    assert(groups == (n + 2) / 3);
    groups <= usize::MAX / 4
}

/// A PNG file as a data URL.
pub fn data_url(png: &[u8]) -> (url: String)
    requires
        base64_len(png@.len() as int) <= usize::MAX,
    ensures
        url@ == data_url_text(png@),
{
    let text = base64_of(png);
    String::from_str("data:image/png;base64,").concat(text.as_str())
}

/// Renders a grid in a format.
pub fn render(grid: &ModuleGrid, format: Format) -> (r: Result<Rendered, GenerateError>)
    requires
        grid.wf(),
    ensures
        match r {
            Ok(image) => rendering(grid.cells@, grid.width as int, format) == Ok::<
                Artifact,
                GenerateError,
            >(image@),
            Err(e) => rendering(grid.cells@, grid.width as int, format) == Err::<
                Artifact,
                GenerateError,
            >(e),
        },
        r matches Ok(Rendered::Svg { markup }) ==> is_svg_document(markup@),
{
    match format {
        Format::Svg => Ok(Rendered::Svg { markup: render_svg(grid) }),
        Format::Png => {
            let image = rasterize(grid);
            match encode_png(&image) {
                Some(png) => {
                    if base64_fits(png.len()) {
                        Ok(Rendered::Png { data_url: data_url(png.as_slice()), size_bytes: png.len() })
                    } else {
                        Err(GenerateError::Encoding)
                    }
                },
                None => Err(GenerateError::Encoding),
            }
        },
    }
}

/// Makes the image of `data` in the format named `format`.
pub fn generate_qr(data: &str, format: &str) -> (r: Result<Rendered, GenerateError>)
    ensures
        match r {
            Ok(image) => generated(data.spec_bytes(), format@) == Ok::<Artifact, GenerateError>(
                image@,
            ),
            Err(e) => generated(data.spec_bytes(), format@) == Err::<Artifact, GenerateError>(e),
        },
        r matches Ok(Rendered::Svg { markup }) ==> is_svg_document(markup@),
{
    match encode(data.as_bytes()) {
        Err(e) => Err(GenerateError::CapacityExceeded { byte_count: e.byte_count }),
        Ok(grid) => match Format::parse(format) {
            None => Err(GenerateError::InvalidFormat),
            Some(f) => render(&grid, f),
        },
    }
}

/// Data that fits is never refused for its size, and its SVG is always
/// made.
pub proof fn lemma_fitting_data_generates(data: Seq<u8>, format: Seq<char>)
    requires
        fits(data),
    ensures
        !(generated(data, format) is Err && generated(data, format)->Err_0
            is CapacityExceeded),
        generated(data, "svg"@) is Ok,
        format_named(format) is Some ==> generated(data, format) is Ok || generated(
            data,
            format,
        ) == Err::<Artifact, GenerateError>(GenerateError::Encoding),
{
}

/// A format that is neither `svg` nor `png` yields an error and no image,
/// whatever the data.
pub proof fn lemma_unknown_format_fails(data: Seq<u8>, format: Seq<char>)
    requires
        format_named(format) is None,
    ensures
        generated(data, format) is Err,
        fits(data) ==> generated(data, format) == Err::<Artifact, GenerateError>(
            GenerateError::InvalidFormat,
        ),
{
}

/// Whatever the capacity report calls within the limit can be generated:
/// the request for its SVG succeeds, and no format fails for its size.
pub proof fn lemma_within_limit_generates(data: Seq<u8>, chars: int, format: Seq<char>)
    requires
        capacity_report(data, chars).is_within_limit,
    ensures
        generated(data, "svg"@) is Ok,
        generated(data, format) is Ok || generated(data, format) == Err::<Artifact, GenerateError>(
            GenerateError::InvalidFormat,
        ) || generated(data, format) == Err::<Artifact, GenerateError>(GenerateError::Encoding),
{
    lemma_fitting_data_generates(data, format);
}

} // verus!
