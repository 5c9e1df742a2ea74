//! The reply to a Setup Request: what a note on each channel is worth.

use vstd::prelude::*;
use vstd::slice::slice_subrange;
use vstd::string::*;

use crate::models::{hardware, ErrorView, KioskResult};
use crate::nv9::RESPONSE_OK;
use crate::text::{decimal, decimal_u64, hex2, hex_byte};

verus! {

/// The value of a note on each channel, in channel order.
#[derive(Debug)]
pub struct SetupData {
    pub channel_values: Vec<i64>,
}

/// A three-byte number, most significant byte first.
pub open spec fn u24(b: Seq<u8>, at: int) -> int {
    b[at] * 65536 + b[at + 1] * 256 + b[at + 2]
}

/// A four-byte number, least significant byte first.
pub open spec fn u32_le(b: Seq<u8>, at: int) -> int {
    b[at] + b[at + 1] * 256 + b[at + 2] * 65536 + b[at + 3] * 16777216
}

/// Three bytes as a number, most significant byte first.
pub fn u24_be(bytes: &[u8]) -> (r: i64)
    requires
        bytes@.len() >= 3,
    ensures
        r == u24(bytes@, 0),
        0 <= r < 16777216,
{
    bytes[0] as i64 * 65536 + bytes[1] as i64 * 256 + bytes[2] as i64
}

/// The multiplier of the channel bytes: the value multiplier where it is set, else the real
/// value multiplier, else one.
pub open spec fn multiplier(r: Seq<u8>, n: int) -> int {
    if u24(r, 9) > 0 {
        u24(r, 9)
    } else if u24(r, 13 + 2 * n) > 0 {
        u24(r, 13 + 2 * n)
    } else {
        1
    }
}

/// What a Setup Request reply says. Layout: status, unit (1), firmware (4), country (3),
/// multiplier (3), channel count n (1), channel bytes (n), security (n), real multiplier (3),
/// protocol (1), then, on units that report it, country codes (3n) and the value of each
/// channel as a four-byte number (4n), which is preferred.
pub open spec fn setup_values(r: Seq<u8>) -> Result<Seq<i64>, Seq<char>> {
    let n = r[12] as int;
    if r.len() == 0 {
        Err("NV9 Setup Request returned an empty response"@)
    } else if r[0] != RESPONSE_OK {
        Err("NV9 Setup Request returned SSP response 0x"@ + hex2(r[0], true))
    } else if r.len() < 13 {
        Err("malformed NV9 Setup Request response (fixed header is incomplete)"@)
    } else if n == 0 || n > 16 {
        Err(
            "malformed NV9 Setup Request response (invalid channel count "@ + decimal(n) + ")"@,
        )
    } else if r.len() < 17 + 2 * n {
        Err(
            "malformed NV9 Setup Request response (expected at least "@ + decimal(17 + 2 * n)
                + " bytes)"@,
        )
    } else if r.len() >= 17 + 9 * n {
        Ok(Seq::new(n as nat, |i: int| u32_le(r, 17 + 5 * n + 4 * i) as i64))
    } else {
        Ok(Seq::new(n as nat, |i: int| (r[13 + i] * multiplier(r, n)) as i64))
    }
}

/// Reads the channel values out of a Setup Request reply.
pub fn parse_setup_response(response: &[u8]) -> (r: KioskResult<SetupData>)
    ensures
        match setup_values(response@) {
            Ok(values) => r matches Ok(d) && d.channel_values@ == values,
            Err(text) => r matches Err(e) && e@ == ErrorView::Hardware(text),
        },
        r matches Ok(d) ==> 1 <= d.channel_values@.len() <= 16 && forall|i: int|
            0 <= i < d.channel_values@.len() ==> 0 <= #[trigger] d.channel_values@[i],
{
    if response.len() == 0 {
        return Err(hardware("NV9 Setup Request returned an empty response".to_string()));
    }
    if response[0] != RESPONSE_OK {
        return Err(
            hardware(
                "NV9 Setup Request returned SSP response 0x".to_string().concat(
                    hex_byte(response[0], true).as_str(),
                ),
            ),
        );
    }
    if response.len() < 13 {
        return Err(
            hardware(
                "malformed NV9 Setup Request response (fixed header is incomplete)".to_string(),
            ),
        );
    }
    let n: usize = response[12] as usize;
    if n == 0 || n > 16 {
        return Err(
            hardware(
                "malformed NV9 Setup Request response (invalid channel count ".to_string().concat(
                    decimal_u64(n as u64).as_str(),
                ).concat(")"),
            ),
        );
    }
    let required: usize = 17 + 2 * n;
    if response.len() < required {
        return Err(
            hardware(
                "malformed NV9 Setup Request response (expected at least ".to_string().concat(
                    decimal_u64(required as u64).as_str(),
                ).concat(" bytes)"),
            ),
        );
    }
    let ghost expected = setup_values(response@)->Ok_0;
    let mut channel_values: Vec<i64> = Vec::new();
    let mut i: usize = 0;
    if response.len() >= 17 + 9 * n {
        while i < n
            invariant
                i <= n <= 16,
                n == response@[12],
                response@.len() >= 17 + 9 * n,
                expected == Seq::new(
                    n as nat,
                    |j: int| u32_le(response@, 17 + 5 * n + 4 * j) as i64,
                ),
                channel_values@ == expected.take(i as int),
                forall|j: int| 0 <= j < i ==> 0 <= #[trigger] channel_values@[j],
            decreases n - i,
        {
            let at: usize = 17 + 5 * n + 4 * i;
            let value: i64 = response[at] as i64 + response[at + 1] as i64 * 256 + response[at
                + 2] as i64 * 65536 + response[at + 3] as i64 * 16777216;
            channel_values.push(value);
            i = i + 1;
            assert(channel_values@ =~= expected.take(i as int));
        }
    } else {
        let first = u24_be(slice_subrange(response, 9, 12));
        let second = u24_be(slice_subrange(response, 13 + 2 * n, 16 + 2 * n));
        let factor: i64 = if first > 0 {
            first
        } else if second > 0 {
            second
        } else {
            1
        };
        while i < n
            invariant
                i <= n <= 16,
                n == response@[12],
                response@.len() >= 17 + 2 * n,
                factor == multiplier(response@, n as int),
                0 < factor < 16777216,
                expected == Seq::new(
                    n as nat,
                    |j: int| (response@[13 + j] * multiplier(response@, n as int)) as i64,
                ),
                channel_values@ == expected.take(i as int),
                forall|j: int| 0 <= j < i ==> 0 <= #[trigger] channel_values@[j],
            decreases n - i,
        {
            let raw: i64 = response[13 + i] as i64;
            assert(0 <= raw * factor <= 255 * 16777216) by (nonlinear_arith)
                requires
                    0 <= raw <= 255,
                    0 < factor < 16777216,
            ;
            channel_values.push(raw * factor);
            i = i + 1;
            assert(channel_values@ =~= expected.take(i as int));
        }
    }
    assert(expected.take(n as int) =~= expected);
    Ok(SetupData { channel_values })
}

// ---------------------------------------------------------------------------
// Inhibit masks
// ---------------------------------------------------------------------------

/// Whether the channel with index `i` takes notes.
pub open spec fn usable(values: Seq<i64>, i: int) -> bool {
    0 <= i < values.len() && values[i] > 0
}

/// One where the channel takes notes, else zero.
pub open spec fn weight(values: Seq<i64>, i: int) -> int {
    if usable(values, i) {
        1
    } else {
        0
    }
}

/// The inhibit mask of the eight channels from `first` on, lowest channel in the lowest bit.
pub open spec fn mask_of(values: Seq<i64>, first: int) -> u8 {
    (weight(values, first) + 2 * weight(values, first + 1) + 4 * weight(values, first + 2) + 8
        * weight(values, first + 3) + 16 * weight(values, first + 4) + 32 * weight(
        values,
        first + 5,
    ) + 64 * weight(values, first + 6) + 128 * weight(values, first + 7)) as u8
}

fn flag(values: &[i64], i: usize) -> (r: u8)
    ensures
        r == weight(values@, i as int),
        r <= 1,
{
    if i < values.len() && values[i] > 0 {
        1
    } else {
        0
    }
}

fn mask8(values: &[i64], first: usize) -> (r: u8)
    requires
        first <= 8,
    ensures
        r == mask_of(values@, first as int),
{
    flag(values, first) + 2 * flag(values, first + 1) + 4 * flag(values, first + 2) + 8 * flag(
        values,
        first + 3,
    ) + 16 * flag(values, first + 4) + 32 * flag(values, first + 5) + 64 * flag(values, first + 6)
        + 128 * flag(values, first + 7)
}

/// The two inhibit masks: channels one to eight, then nine to sixteen; a set bit enables.
pub fn inhibit_masks(values: &[i64]) -> (r: (u8, u8))
    ensures
        r.0 == mask_of(values@, 0),
        r.1 == mask_of(values@, 8),
{
    (mask8(values, 0), mask8(values, 8))
}

/// Bit `k` of a mask is set exactly where its channel takes notes, so a channel without a
/// value stays inhibited.
pub proof fn law_mask_bit_enables_channel(values: Seq<i64>, first: int, k: u8)
    requires
        k < 8,
    ensures
        (mask_of(values, first) >> k) & 1 == 1 <==> usable(values, first + k),
{
    let a = weight(values, first) as u8;
    let b = weight(values, first + 1) as u8;
    let c = weight(values, first + 2) as u8;
    let d = weight(values, first + 3) as u8;
    let e = weight(values, first + 4) as u8;
    let f = weight(values, first + 5) as u8;
    let g = weight(values, first + 6) as u8;
    let h = weight(values, first + 7) as u8;
    let m = (a + 2 * b + 4 * c + 8 * d + 16 * e + 32 * f + 64 * g + 128 * h) as u8;
    assert(m == mask_of(values, first));
    let w = weight(values, first + k) as u8;
    assert((m >> k) & 1 == w) by (bit_vector)
        requires
            a <= 1 && b <= 1 && c <= 1 && d <= 1 && e <= 1 && f <= 1 && g <= 1 && h <= 1,
            m == (a + 2 * b + 4 * c + 8 * d + 16 * e + 32 * f + 64 * g + 128 * h) as u8,
            k < 8,
            k == 0 ==> w == a,
            k == 1 ==> w == b,
            k == 2 ==> w == c,
            k == 3 ==> w == d,
            k == 4 ==> w == e,
            k == 5 ==> w == f,
            k == 6 ==> w == g,
            k == 7 ==> w == h,
    ;
}

} // verus!
