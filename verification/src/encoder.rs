//! The encoder adapter: bytes in, a module grid or a capacity failure out.

use qrcode::{Color, EcLevel, QrCode, Version};
use vstd::prelude::*;

verus! {

/// Bytes that the largest symbol holds at the lowest error-correction level
/// when every byte is stored in byte mode.
pub const THEORETICAL_MAX: usize = 2953;

/// Modules per side of the largest symbol (version 40).
pub const SYMBOL_WIDTH: usize = 177;

/// The modules that the QR encoder produces for `data` in a version 40
/// symbol at error-correction level L, row by row with `true` for a dark
/// module, or `None` where `data` does not fit into that symbol.
pub uninterp spec fn qr_modules(data: Seq<u8>) -> Option<Seq<bool>>;

/// Whether `data` can be encoded at all.
pub open spec fn fits(data: Seq<u8>) -> bool {
    qr_modules(data) is Some
}

/// A square grid of dark and light modules, stored row by row.
pub struct ModuleGrid {
    pub width: usize,
    pub cells: Vec<bool>,
}

impl ModuleGrid {
    /// A grid is well formed when it is a square of at least one and at most
    /// `SYMBOL_WIDTH` modules per side.
    pub open spec fn wf(&self) -> bool {
        &&& 1 <= self.width <= SYMBOL_WIDTH
        &&& self.cells@.len() == self.width * self.width
    }

    /// Builds a grid from its side length and its modules; `None` unless the
    /// two describe a well-formed square.
    pub fn new(width: usize, cells: Vec<bool>) -> (r: Option<ModuleGrid>)
        ensures
            r is Some <==> 1 <= width <= SYMBOL_WIDTH && cells@.len() == width * width,
            r matches Some(g) ==> g.width == width && g.cells@ == cells@ && g.wf(),
    {
        if 1 <= width && width <= SYMBOL_WIDTH {
            proof {
                lemma_square_bound(width as int, width as int);
            }
            if cells.len() == width * width {
                return Some(ModuleGrid { width, cells });
            }
        }
        None
    }

    /// Whether the module in column `x` of row `y` is dark.
    pub open spec fn dark_at(&self, x: int, y: int) -> bool {
        self.cells@[y * self.width + x]
    }

    /// Reads the module in column `x` of row `y`.
    pub fn is_dark(&self, x: usize, y: usize) -> (d: bool)
        requires
            self.wf(),
            x < self.width,
            y < self.width,
        ensures
            d == self.dark_at(x as int, y as int),
    {
        proof {
            lemma_square_bound(y as int, self.width as int);
            lemma_cell_index(x as int, y as int, self.width as int);
        }
        self.cells[y * self.width + x]
    }
}

/// A product of two side lengths stays within the largest symbol's area.
pub proof fn lemma_square_bound(a: int, b: int)
    requires
        0 <= a <= SYMBOL_WIDTH,
        0 <= b <= SYMBOL_WIDTH,
    ensures
        0 <= a * b <= SYMBOL_WIDTH * SYMBOL_WIDTH,
        SYMBOL_WIDTH * SYMBOL_WIDTH == 31329,
{
    assert(0 <= a * b <= 177 * 177) by (nonlinear_arith)
        requires
            0 <= a <= 177,
            0 <= b <= 177,
    ;
}

/// A column and a row inside a square of side `w` index a cell of it.
pub proof fn lemma_cell_index(x: int, y: int, w: int)
    requires
        0 <= x < w,
        0 <= y < w,
    ensures
        0 <= y * w + x < w * w,
{
    assert(0 <= y * w + x < w * w) by (nonlinear_arith)
        requires
            0 <= x < w,
            0 <= y < w,
    ;
}

/// The input was too long for any symbol.
#[derive(Clone, Copy, Debug)]
pub struct CapacityExceeded {
    /// Length of the rejected input in bytes.
    pub byte_count: usize,
}

/// Calls `qrcode::QrCode::with_version` with `Version::Normal(40)` and
/// `EcLevel::L` and hands back the symbol's modules as booleans.
///
/// Trusted: the result is a function of `data` alone, named `qr_modules`; a
/// version 40 symbol has `SYMBOL_WIDTH` modules per side, so a successful
/// encoding holds `SYMBOL_WIDTH * SYMBOL_WIDTH` modules. Every failure of the
/// encoder is reported as `None`.
#[verifier::external_body]
fn qr_symbol(data: &[u8]) -> (r: Option<Vec<bool>>)
    ensures
        match r {
            Some(cells) => qr_modules(data@) == Some(cells@) && cells@.len() == SYMBOL_WIDTH
                * SYMBOL_WIDTH,
            None => qr_modules(data@) is None,
        },
{
    match QrCode::with_version(data, Version::Normal(40), EcLevel::L) {
        Ok(code) => {
            let mut cells = Vec::new();
            for color in code.into_colors() {
                cells.push(match color {
                    Color::Dark => true,
                    Color::Light => false,
                });
            }
            Some(cells)
        },
        Err(_) => None,
    }
}

/// Encodes `data` into the largest symbol at the lowest error-correction
/// level. Any failure of the encoder means that the data did not fit.
pub fn encode(data: &[u8]) -> (r: Result<ModuleGrid, CapacityExceeded>)
    ensures
        match r {
            Ok(grid) => qr_modules(data@) == Some(grid.cells@) && grid.width == SYMBOL_WIDTH
                && grid.wf(),
            Err(e) => !fits(data@) && e.byte_count == data@.len(),
        },
{
    match qr_symbol(data) {
        Some(cells) => Ok(ModuleGrid { width: SYMBOL_WIDTH, cells }),
        None => Err(CapacityExceeded { byte_count: data.len() }),
    }
}

/// Whether `data` can be encoded; the probe that the capacity search repeats.
pub fn encodes(data: &[u8]) -> (ok: bool)
    ensures
        ok == fits(data@),
{
    qr_symbol(data).is_some()
}

} // verus!
