//! The color encoder: linear light to display-encoded bytes.
//!
//! Linear light is held in 16-bit fixed point, `LINEAR_ONE` standing for
//! 1.0. A level is encoded with the sRGB transfer function, rounded to the
//! nearest byte, through a table of the levels at which each byte begins.
use vstd::prelude::*;
use crate::tile::Tile;

verus! {

/// The linear light level that stands for 1.0.
pub const LINEAR_ONE: u16 = 65535;

/// Entry `b` is the least linear level whose encoding is byte `b + 1` or
/// more.
pub open spec fn srgb_thresholds() -> Seq<u16> {
    seq![
        10u16, 30, 50, 70, 90, 110, 130, 150, 170, 189,
        209, 230, 253, 276, 301, 327, 354, 382, 412, 443,
        475, 509, 544, 580, 618, 657, 698, 740, 783, 828,
        875, 923, 972, 1023, 1075, 1129, 1185, 1242, 1300, 1360,
        1422, 1486, 1551, 1617, 1685, 1755, 1827, 1900, 1975, 2052,
        2130, 2210, 2292, 2376, 2461, 2548, 2637, 2727, 2820, 2914,
        3010, 3108, 3208, 3309, 3412, 3518, 3625, 3734, 3844, 3957,
        4072, 4188, 4307, 4427, 4550, 4674, 4800, 4928, 5059, 5191,
        5325, 5461, 5599, 5740, 5882, 6026, 6173, 6321, 6471, 6624,
        6778, 6935, 7094, 7255, 7418, 7583, 7750, 7919, 8091, 8265,
        8440, 8618, 8798, 8981, 9165, 9352, 9541, 9732, 9925, 10121,
        10318, 10518, 10720, 10925, 11132, 11341, 11552, 11765, 11981, 12199,
        12420, 12643, 12868, 13095, 13325, 13557, 13791, 14028, 14267, 14508,
        14752, 14998, 15247, 15498, 15751, 16007, 16265, 16525, 16788, 17054,
        17321, 17592, 17864, 18139, 18417, 18697, 18980, 19264, 19552, 19842,
        20134, 20429, 20727, 21027, 21329, 21634, 21942, 22252, 22564, 22880,
        23197, 23518, 23840, 24166, 24494, 24824, 25158, 25493, 25832, 26173,
        26516, 26862, 27211, 27563, 27917, 28273, 28633, 28995, 29359, 29727,
        30097, 30469, 30845, 31223, 31603, 31987, 32373, 32762, 33153, 33547,
        33944, 34344, 34747, 35152, 35560, 35970, 36384, 36800, 37219, 37640,
        38065, 38492, 38922, 39355, 39790, 40229, 40670, 41114, 41561, 42011,
        42463, 42918, 43377, 43838, 44301, 44768, 45238, 45710, 46185, 46663,
        47144, 47628, 48115, 48605, 49097, 49593, 50091, 50592, 51096, 51604,
        52114, 52627, 53142, 53661, 54183, 54708, 55235, 55766, 56300, 56836,
        57376, 57918, 58464, 59012, 59564, 60118, 60675, 61236, 61799, 62366,
        62935, 63508, 64083, 64662, 65244
    ]
}

/// Byte `b` is the encoding of level `n`: `n` lies at or above where `b`
/// begins and below where `b + 1` begins.
pub open spec fn encodes_to(n: u16, b: u8) -> bool {
    &&& (b == 0 || srgb_thresholds()[b - 1] <= n)
    &&& (b == 255 || n < srgb_thresholds()[b as int])
}

/// The thresholds rise strictly.
proof fn lemma_thresholds_rise_step()
    ensures
        srgb_thresholds().len() == 255,
        forall|i: int| 0 <= i < 254 ==> #[trigger] srgb_thresholds()[i] < srgb_thresholds()[i + 1],
        srgb_thresholds()[0] >= 1,
{
}

/// Thresholds further along the table are higher.
proof fn lemma_thresholds_rise(i: int, j: int)
    requires
        0 <= i < j < 255,
    ensures
        srgb_thresholds()[i] < srgb_thresholds()[j],
    decreases j - i,
{
    lemma_thresholds_rise_step();
    if i + 1 < j {
        lemma_thresholds_rise(i + 1, j);
    }
}

/// A level has at most one encoding.
proof fn lemma_encoding_unique(n: u16, a: u8, b: u8)
    requires
        encodes_to(n, a),
        encodes_to(n, b),
    ensures
        a == b,
{
    lemma_thresholds_rise_step();
    if a < b {
        if a as int <= b - 1 {
            if (a as int) < b - 1 {
                lemma_thresholds_rise(a as int, b - 1);
            }
        }
    } else if b < a {
        if (b as int) < a - 1 {
            lemma_thresholds_rise(b as int, a - 1);
        }
    }
}

/// The display-encoded byte of linear level `n`.
pub open spec fn srgb_byte(n: u16) -> u8 {
    choose|b: u8| encodes_to(n, b)
}

/// The encoding table in executable form.
fn threshold_table() -> (t: [u16; 255])
    ensures
        t@ == srgb_thresholds(),
{
    let t: [u16; 255] = [
        10, 30, 50, 70, 90, 110, 130, 150, 170, 189,
        209, 230, 253, 276, 301, 327, 354, 382, 412, 443,
        475, 509, 544, 580, 618, 657, 698, 740, 783, 828,
        875, 923, 972, 1023, 1075, 1129, 1185, 1242, 1300, 1360,
        1422, 1486, 1551, 1617, 1685, 1755, 1827, 1900, 1975, 2052,
        2130, 2210, 2292, 2376, 2461, 2548, 2637, 2727, 2820, 2914,
        3010, 3108, 3208, 3309, 3412, 3518, 3625, 3734, 3844, 3957,
        4072, 4188, 4307, 4427, 4550, 4674, 4800, 4928, 5059, 5191,
        5325, 5461, 5599, 5740, 5882, 6026, 6173, 6321, 6471, 6624,
        6778, 6935, 7094, 7255, 7418, 7583, 7750, 7919, 8091, 8265,
        8440, 8618, 8798, 8981, 9165, 9352, 9541, 9732, 9925, 10121,
        10318, 10518, 10720, 10925, 11132, 11341, 11552, 11765, 11981, 12199,
        12420, 12643, 12868, 13095, 13325, 13557, 13791, 14028, 14267, 14508,
        14752, 14998, 15247, 15498, 15751, 16007, 16265, 16525, 16788, 17054,
        17321, 17592, 17864, 18139, 18417, 18697, 18980, 19264, 19552, 19842,
        20134, 20429, 20727, 21027, 21329, 21634, 21942, 22252, 22564, 22880,
        23197, 23518, 23840, 24166, 24494, 24824, 25158, 25493, 25832, 26173,
        26516, 26862, 27211, 27563, 27917, 28273, 28633, 28995, 29359, 29727,
        30097, 30469, 30845, 31223, 31603, 31987, 32373, 32762, 33153, 33547,
        33944, 34344, 34747, 35152, 35560, 35970, 36384, 36800, 37219, 37640,
        38065, 38492, 38922, 39355, 39790, 40229, 40670, 41114, 41561, 42011,
        42463, 42918, 43377, 43838, 44301, 44768, 45238, 45710, 46185, 46663,
        47144, 47628, 48115, 48605, 49097, 49593, 50091, 50592, 51096, 51604,
        52114, 52627, 53142, 53661, 54183, 54708, 55235, 55766, 56300, 56836,
        57376, 57918, 58464, 59012, 59564, 60118, 60675, 61236, 61799, 62366,
        62935, 63508, 64083, 64662, 65244
    ];
    assert(t@ =~= srgb_thresholds());
    t
}

/// The display-encoded byte of linear level `n`: the sRGB transfer function
/// of `n / LINEAR_ONE`, rounded to the nearest byte.
pub fn encode_level(n: u16) -> (b: u8)
    ensures
        encodes_to(n, b),
        b == srgb_byte(n),
{
    let t = threshold_table();
    let mut lo: usize = 0;
    let mut hi: usize = 255;
    while lo < hi
        invariant
            t@ == srgb_thresholds(),
            lo <= hi <= 255,
            lo == 0 || srgb_thresholds()[lo - 1] <= n,
            hi == 255 || n < srgb_thresholds()[hi as int],
        decreases hi - lo,
    {
        let mid = lo + (hi - lo) / 2;
        if t[mid] <= n {
            lo = mid + 1;
        } else {
            hi = mid;
        }
    }
    let b = lo as u8;
    proof {
        assert(encodes_to(n, b));
        lemma_encoding_unique(n, b, srgb_byte(n));
    }
    b
}

/// Black stays black and full intensity becomes the largest byte, and a
/// brighter level never gets a smaller byte.
pub proof fn lemma_encoding_bounds(n: u16, m: u16)
    ensures
        srgb_byte(0) == 0,
        srgb_byte(LINEAR_ONE) == 255,
        n <= m ==> srgb_byte(n) <= srgb_byte(m),
{
    lemma_thresholds_rise_step();
    lemma_srgb_byte_exists(0);
    lemma_srgb_byte_exists(LINEAR_ONE);
    lemma_srgb_byte_exists(n);
    lemma_srgb_byte_exists(m);
    assert(encodes_to(0, 0));
    lemma_encoding_unique(0, 0, srgb_byte(0));
    assert(encodes_to(LINEAR_ONE, 255));
    lemma_encoding_unique(LINEAR_ONE, 255, srgb_byte(LINEAR_ONE));
    let a = srgb_byte(n);
    let b = srgb_byte(m);
    if n <= m && a > b {
        if (b as int) < a - 1 {
            lemma_thresholds_rise(b as int, a - 1);
        }
    }
}

/// Every level has an encoding.
proof fn lemma_srgb_byte_exists(n: u16)
    ensures
        encodes_to(n, srgb_byte(n)),
{
    lemma_encoding_from(n, 0);
}

/// A level at or above where byte `lo` begins has an encoding.
proof fn lemma_encoding_from(n: u16, lo: int)
    requires
        0 <= lo <= 255,
        lo == 0 || srgb_thresholds()[lo - 1] <= n,
    ensures
        exists|b: u8| encodes_to(n, b),
    decreases 255 - lo,
{
    lemma_thresholds_rise_step();
    if lo == 255 || n < srgb_thresholds()[lo] {
        assert(encodes_to(n, lo as u8));
    } else {
        lemma_encoding_from(n, lo + 1);
    }
}

/// Encodes a linear light buffer value by value.
pub fn encode_buffer(linear: &Vec<u16>) -> (encoded: Vec<u8>)
    ensures
        encoded.len() == linear.len(),
        forall|k: int| 0 <= k < linear.len() ==> #[trigger] encoded@[k] == srgb_byte(linear@[k]),
{
    let mut encoded: Vec<u8> = Vec::with_capacity(linear.len());
    let mut k: usize = 0;
    while k < linear.len()
        invariant
            k <= linear.len(),
            encoded.len() == k,
            forall|m: int| 0 <= m < k ==> #[trigger] encoded@[m] == srgb_byte(linear@[m]),
        decreases linear.len() - k,
    {
        encoded.push(encode_level(linear[k]));
        k = k + 1;
    }
    encoded
}

impl Tile {
    /// Fills the display-encoded buffer from the linear light buffer.
    pub fn encode(&mut self)
        requires
            old(self).wf(),
        ensures
            final(self).wf(),
            final(self).dims == old(self).dims,
            final(self).pos == old(self).pos,
            final(self).img@ == old(self).img@,
            forall|k: int|
                0 <= k < final(self).srgb.len() ==> #[trigger] final(self).srgb@[k] == srgb_byte(
                    final(self).img@[k],
                ),
    {
        self.srgb = encode_buffer(&self.img);
    }
}

} // verus!
