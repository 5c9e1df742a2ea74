//! A QR code as a raster image, for printers without QR codes of their own.

use qrcode::{types::Color, QrCode};
use vstd::prelude::*;
use vstd::string::*;

use crate::models::{KioskError, KioskResult};
use crate::printer::job::print_error;

verus! {

/// The blank modules around a code.
pub const RASTER_QUIET_ZONE_MODULES: usize = 4;

/// The largest width of a module, in dots.
pub const RASTER_MAX_SCALE: usize = 4;

/// The width of the image that is aimed at, in dots.
pub const RASTER_MAX_WIDTH_DOTS: usize = 384;

/// The modules of the QR code for some data: how many there are on a side, and whether each is
/// dark, row by row; or the text of the error.
pub uninterp spec fn qr_modules(data: Seq<u8>) -> Result<(usize, Seq<bool>), Seq<char>>;

/// The number of modules on a side of a QR code.
pub open spec fn is_qr_width(width: int) -> bool {
    21 <= width <= 177
}

/// The views of what the encoder gave.
pub open spec fn modules_view(r: Result<(usize, Vec<bool>), String>) -> Result<
    (usize, Seq<bool>),
    Seq<char>,
> {
    match r {
        Ok(g) => Ok((g.0, g.1@)),
        Err(t) => Err(t@),
    }
}

/// `qrcode::QrCode::new`, with `width` and `to_colors` of the code: a square of modules of one
/// of the sizes of a QR code. Which modules are dark, and the text of an error, are named, not
/// stated. The number of bits of the data has to be countable.
#[verifier::external_body]
fn encode_qr(data: &[u8]) -> (r: Result<(usize, Vec<bool>), String>)
    requires
        data@.len() <= usize::MAX / 16,
    ensures
        modules_view(r) == qr_modules(data@),
        r matches Ok(g) ==> is_qr_width(g.0 as int) && g.1@.len() == g.0 * g.0,
{
    match QrCode::new(data) {
        Ok(code) => {
            let dark = code.to_colors().into_iter().map(|c| c == Color::Dark).collect();
            Ok((code.width(), dark))
        },
        Err(e) => Err(e.to_string()),
    }
}

/// The modules of a row of the image, the blank ones included.
pub open spec fn modules_across(width: int) -> int {
    width + 2 * RASTER_QUIET_ZONE_MODULES
}

/// The width of a module, in dots.
pub open spec fn scale_of(width: int) -> int {
    let fitting = RASTER_MAX_WIDTH_DOTS as int / modules_across(width);
    if fitting < 1 {
        1
    } else if fitting > RASTER_MAX_SCALE {
        RASTER_MAX_SCALE as int
    } else {
        fitting
    }
}

/// The width and the height of the image, in dots.
pub open spec fn image_dots(width: int) -> int {
    modules_across(width) * scale_of(width)
}

/// The bytes of a row of the image.
pub open spec fn row_length(width: int) -> int {
    (image_dots(width) + 7) / 8
}

/// Whether a dot of the image is dark.
pub open spec fn is_dark(width: int, dark: Seq<bool>, x: int, y: int) -> bool {
    let q = RASTER_QUIET_ZONE_MODULES as int;
    let mx = x / scale_of(width) - q;
    let my = y / scale_of(width) - q;
    x < image_dots(width) && 0 <= mx < width && 0 <= my < width && dark[my * width + mx]
}

/// One dot in its byte: the leftmost is the highest bit.
pub open spec fn dot_bit(width: int, dark: Seq<bool>, x: int, y: int, weight: int) -> int {
    if is_dark(width, dark, x, y) {
        weight
    } else {
        0
    }
}

/// Eight dots of a row.
pub open spec fn image_byte(width: int, dark: Seq<bool>, b: int, y: int) -> u8 {
    (dot_bit(width, dark, 8 * b, y, 128) + dot_bit(width, dark, 8 * b + 1, y, 64) + dot_bit(
        width,
        dark,
        8 * b + 2,
        y,
        32,
    ) + dot_bit(width, dark, 8 * b + 3, y, 16) + dot_bit(width, dark, 8 * b + 4, y, 8) + dot_bit(
        width,
        dark,
        8 * b + 5,
        y,
        4,
    ) + dot_bit(width, dark, 8 * b + 6, y, 2) + dot_bit(width, dark, 8 * b + 7, y, 1)) as u8
}

/// A row of the image.
pub open spec fn image_row(width: int, dark: Seq<bool>, y: int) -> Seq<u8> {
    Seq::new(row_length(width) as nat, |b: int| image_byte(width, dark, b, y))
}

/// The first rows of the image.
pub open spec fn image_rows(width: int, dark: Seq<bool>, n: nat) -> Seq<u8>
    decreases n,
{
    if n == 0 {
        Seq::empty()
    } else {
        image_rows(width, dark, (n - 1) as nat) + image_row(width, dark, n - 1)
    }
}

/// The command that prints the image: its size, then its rows.
pub open spec fn image_bytes(width: int, dark: Seq<bool>) -> Seq<u8> {
    seq![
        0x1du8,
        0x76u8,
        0x30u8,
        0x00u8,
        (row_length(width) % 256) as u8,
        (row_length(width) / 256) as u8,
        (image_dots(width) % 256) as u8,
        (image_dots(width) / 256) as u8,
    ] + image_rows(width, dark, image_dots(width) as nat)
}

proof fn lemma_scale(width: int)
    requires
        is_qr_width(width),
    ensures
        2 <= scale_of(width) <= 4,
        29 <= modules_across(width) <= 185,
        58 <= image_dots(width) <= 740,
{
    let m = modules_across(width);
    let s = scale_of(width);
    assert(384int / m >= 2) by (nonlinear_arith)
        requires
            0 < m <= 185,
    ;
    assert(58 <= m * s <= 740) by (nonlinear_arith)
        requires
            29 <= m <= 185,
            2 <= s <= 4,
    ;
}

fn dot(width: usize, dark: &[bool], scale: usize, dots: usize, x: usize, y: usize, weight: u8) ->
    (r: u8)
    requires
        is_qr_width(width as int),
        dark@.len() == width * width,
        scale == scale_of(width as int),
        dots == image_dots(width as int),
        x < 10_000,
        y < 10_000,
    ensures
        r == dot_bit(width as int, dark@, x as int, y as int, weight as int),
{
    proof {
        lemma_scale(width as int);
    }
    if x >= dots {
        return 0;
    }
    let mx = x / scale;
    let my = y / scale;
    let q = RASTER_QUIET_ZONE_MODULES;
    if mx < q || mx >= q + width || my < q || my >= q + width {
        return 0;
    }
    let cx: usize = mx - q;
    let cy: usize = my - q;
    assert(cy * width + cx < width * width && cy * width < 40_000) by (nonlinear_arith)
        requires
            0 <= cx < width,
            0 <= cy < width,
            width <= 177,
    ;
    if dark[cy * width + cx] {
        weight
    } else {
        0
    }
}

fn eight_dots(width: usize, dark: &[bool], scale: usize, dots: usize, b: usize, y: usize) -> (r:
    u8)
    requires
        is_qr_width(width as int),
        dark@.len() == width * width,
        scale == scale_of(width as int),
        dots == image_dots(width as int),
        b < 1_000,
        y < 10_000,
    ensures
        r == image_byte(width as int, dark@, b as int, y as int),
{
    let x: usize = 8 * b;
    let high: u8 = dot(width, dark, scale, dots, x, y, 128) + dot(
        width,
        dark,
        scale,
        dots,
        x + 1,
        y,
        64,
    ) + dot(width, dark, scale, dots, x + 2, y, 32) + dot(width, dark, scale, dots, x + 3, y, 16);
    let low: u8 = dot(width, dark, scale, dots, x + 4, y, 8) + dot(
        width,
        dark,
        scale,
        dots,
        x + 5,
        y,
        4,
    ) + dot(width, dark, scale, dots, x + 6, y, 2) + dot(width, dark, scale, dots, x + 7, y, 1);
    high + low
}

/// Appends the image of a code, given its modules.
pub fn append_grid(output: &mut Vec<u8>, width: usize, dark: &[bool])
    requires
        is_qr_width(width as int),
        dark@.len() == width * width,
    ensures
        final(output)@ == old(output)@ + image_bytes(width as int, dark@),
{
    let ghost w = width as int;
    proof {
        lemma_scale(w);
    }
    let across: usize = width + 2 * RASTER_QUIET_ZONE_MODULES;
    let fitting: usize = RASTER_MAX_WIDTH_DOTS / across;
    let scale: usize = if fitting < 1 {
        1
    } else if fitting > RASTER_MAX_SCALE {
        RASTER_MAX_SCALE
    } else {
        fitting
    };
    assert(across * scale == image_dots(w));
    let dots: usize = across * scale;
    let length: usize = (dots + 7) / 8;
    output.push(0x1d);
    output.push(0x76);
    output.push(0x30);
    output.push(0x00);
    output.push((length % 256) as u8);
    output.push((length / 256) as u8);
    output.push((dots % 256) as u8);
    output.push((dots / 256) as u8);
    let ghost head = output@;
    let mut y: usize = 0;
    assert(output@ =~= head + image_rows(w, dark@, 0));
    while y < dots
        invariant
            w == width,
            is_qr_width(w),
            dark@.len() == width * width,
            scale == scale_of(w),
            dots == image_dots(w),
            dots <= 740,
            length == row_length(w),
            y <= dots,
            output@ == head + image_rows(w, dark@, y as nat),
        decreases dots - y,
    {
        let ghost before = output@;
        let mut b: usize = 0;
        assert(output@ =~= before + image_row(w, dark@, y as int).take(0));
        while b < length
            invariant
                w == width,
                is_qr_width(w),
                dark@.len() == width * width,
                scale == scale_of(w),
                dots == image_dots(w),
                dots <= 740,
                length == row_length(w),
                y < dots,
                b <= length,
                output@ == before + image_row(w, dark@, y as int).take(b as int),
            decreases length - b,
        {
            let ghost row = image_row(w, dark@, y as int);
            let byte = eight_dots(width, dark, scale, dots, b, y);
            output.push(byte);
            assert(row.take(b + 1) =~= row.take(b as int).push(byte));
            assert(output@ =~= before + row.take(b + 1));
            b = b + 1;
        }
        proof {
            let row = image_row(w, dark@, y as int);
            assert(row.take(length as int) =~= row);
            assert(output@ =~= head + image_rows(w, dark@, (y + 1) as nat));
        }
        y = y + 1;
    }
    assert(output@ =~= old(output)@ + image_bytes(w, dark@));
}

/// Appends data as the image of a QR code; nothing where the data cannot be encoded.
pub fn append_raster_qr(output: &mut Vec<u8>, data: &[u8]) -> (r: KioskResult<()>)
    requires
        data@.len() <= usize::MAX / 16,
    ensures
        match qr_modules(data@) {
            Ok(g) => r is Ok && final(output)@ == old(output)@ + image_bytes(g.0 as int, g.1),
            Err(t) => {
                &&& r matches Err(e)
                &&& e@ == print_error("cannot encode QR token: "@ + t)
                &&& final(output)@ == old(output)@
            },
        },
{
    match encode_qr(data) {
        Ok((width, dark)) => {
            append_grid(output, width, &dark);
            Ok(())
        },
        Err(t) => Err(
            KioskError::Print("cannot encode QR token: ".to_string().concat(t.as_str())),
        ),
    }
}

} // verus!
