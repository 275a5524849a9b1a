//! Decode aircraft positions encoded in Compact Position Reporting (CPR)
//! format.
//!
//! A position report holds 17-bit fractions of a latitude zone and of a
//! longitude zone. An even and an odd report divide the globe into 60 and 59
//! latitude zones, so the two together tell which zone the aircraft is in.
//! All of it is computed exactly, on integers.

use vstd::prelude::*;
use vstd::arithmetic::div_mod::{
    lemma_fundamental_div_mod, lemma_fundamental_div_mod_converse, lemma_mod_bound,
};
use crate::types::{CPRFrame, Parity};

verus! {

/// Number of steps in one CPR zone: 2^17.
pub const CPR_MAX: i64 = 131_072;

/// Number of latitude zones between the equator and a pole, as an even
/// report counts them.
pub const NZ: i64 = 15;

/// The latitudes at which the number of longitude zones drops by one, in
/// units of 10^-8 degrees, from the equator towards the pole. Below the first
/// there are 59 zones; at the last and above there is one.
pub const NL_BREAKPOINTS: [u64; 58] = [
    1_047_047_130, 1_482_817_437, 1_818_626_357, 2_102_939_493,
    2_354_504_487, 2_582_924_707, 2_793_898_710, 2_991_135_686,
    3_177_209_708, 3_353_993_436, 3_522_899_598, 3_685_025_108,
    3_841_241_892, 3_992_256_684, 4_138_651_832, 4_280_914_012,
    4_419_454_951, 4_554_626_723, 4_686_733_252, 4_816_039_128,
    4_942_776_439, 5_067_150_166, 5_189_342_469, 5_309_516_153,
    5_427_817_472, 5_544_378_444, 5_659_318_756, 5_772_747_354,
    5_884_763_776, 5_995_459_277, 6_104_917_774, 6_213_216_659,
    6_320_427_479, 6_426_616_523, 6_531_845_310, 6_636_171_008,
    6_739_646_774, 6_842_322_022, 6_944_242_631, 7_045_451_075,
    7_145_986_473, 7_245_884_545, 7_345_177_442, 7_443_893_416,
    7_542_056_257, 7_639_684_391, 7_736_789_461, 7_833_374_083,
    7_929_428_225, 8_024_923_213, 8_119_801_349, 8_213_956_981,
    8_307_199_445, 8_399_173_563, 8_489_166_191, 8_575_541_621,
    8_653_536_998, 8_700_000_000,
];

/// An angle as a signed fraction of a full turn.
pub struct Turn {
    pub numerator: int,
    pub denominator: int,
}

impl Turn {
    /// The numerator without its sign.
    pub open spec fn size(self) -> int {
        if self.numerator < 0 {
            -self.numerator
        } else {
            self.numerator
        }
    }

    /// Whether the size of the angle is less than `limit` hundred-millionths
    /// of a degree.
    pub open spec fn below(self, limit: int) -> bool {
        self.size() * 36_000_000_000 < limit * self.denominator
    }

    /// Whether the angle is at least `low` quarter turns and less than `high`
    /// quarter turns.
    pub open spec fn within_quarters(self, low: int, high: int) -> bool {
        low * self.denominator <= 4 * self.numerator < high * self.denominator
    }

    /// The angle one full turn back, where this one has reached `quarters`
    /// quarter turns; else the angle itself.
    pub open spec fn wrapped_at(self, quarters: int) -> Turn {
        if 4 * self.numerator >= quarters * self.denominator {
            Turn { numerator: self.numerator - self.denominator, denominator: self.denominator }
        } else {
            self
        }
    }
}

/// An angle held exactly, as `numerator / denominator` of a full turn:
/// `360 * numerator / denominator` degrees. The denominator is positive.
#[derive(Debug, Clone, Copy, PartialEq, Eq, Structural)]
pub struct Angle {
    numerator: i64,
    denominator: i64,
}

impl View for Angle {
    type V = Turn;

    closed spec fn view(&self) -> Turn {
        Turn { numerator: self.numerator as int, denominator: self.denominator as int }
    }
}

impl Angle {
    #[verifier::type_invariant]
    spec fn positive_denominator(&self) -> bool {
        self.denominator > 0
    }

    /// The angle `numerator / denominator` of a full turn; none unless the
    /// denominator is positive.
    pub fn new(numerator: i64, denominator: i64) -> (angle: Option<Angle>)
        ensures
            match angle {
                Some(a) => denominator > 0 && a@ == (Turn {
                    numerator: numerator as int,
                    denominator: denominator as int,
                }),
                None => denominator <= 0,
            },
    {
        if denominator > 0 {
            Some(Angle { numerator, denominator })
        } else {
            None
        }
    }

    /// The number of parts of a full turn that make the angle.
    pub fn numerator(&self) -> (n: i64)
        ensures
            n == self@.numerator,
    {
        self.numerator
    }

    /// The number of parts into which the full turn is divided.
    pub fn denominator(&self) -> (d: i64)
        ensures
            d == self@.denominator,
            d > 0,
    {
        proof {
            use_type_invariant(self);
        }
        self.denominator
    }
}

/// A resolved position: latitude and longitude as exact angles, north and
/// east positive.
#[derive(Debug, Clone, Copy, PartialEq, Eq, Structural)]
pub struct GeoPosition {
    pub latitude: Angle,
    pub longitude: Angle,
}

/// What a [`GeoPosition`] holds.
pub struct GeoModel {
    pub latitude: Turn,
    pub longitude: Turn,
}

impl View for GeoPosition {
    type V = GeoModel;

    open spec fn view(&self) -> GeoModel {
        GeoModel { latitude: self.latitude@, longitude: self.longitude@ }
    }
}

/// The number of longitude zones at a latitude, looking at the breakpoints
/// from index `k` on.
pub open spec fn zones_from(lat: Turn, k: int) -> int
    decreases 58 - k,
{
    if k < 0 || k >= 58 {
        1
    } else if lat.below(NL_BREAKPOINTS[k] as int) {
        59 - k
    } else {
        zones_from(lat, k + 1)
    }
}

/// NL: the number of longitude zones at a latitude. It depends on the size
/// of the latitude only, is 59 near the equator and falls to 1 near the poles.
pub open spec fn zones(lat: Turn) -> int {
    zones_from(lat, 0)
}

/// From index `k` on, the count that is found is the first one whose
/// breakpoint lies above the latitude.
proof fn lemma_zones_from(lat: Turn, k: int)
    requires
        0 <= k <= 58,
    ensures
        1 <= zones_from(lat, k) <= 59 - k || (k == 58 && zones_from(lat, k) == 1),
        forall|i: int|
            k <= i < 58 && 59 - i > zones_from(lat, k) ==> !lat.below(
                #[trigger] NL_BREAKPOINTS[i] as int,
            ),
        zones_from(lat, k) >= 2 ==> lat.below(NL_BREAKPOINTS[59 - zones_from(lat, k)] as int),
    decreases 58 - k,
{
    if k < 58 && !lat.below(NL_BREAKPOINTS[k] as int) {
        lemma_zones_from(lat, k + 1);
    }
}

/// Towards a pole the number of longitude zones never grows, and it is the
/// same north and south of the equator: a latitude at least as large in size
/// as another has at most as many zones.
pub proof fn lemma_zones_fall_towards_pole(near: Turn, far: Turn)
    requires
        near.denominator > 0,
        far.denominator > 0,
        near.size() * far.denominator <= far.size() * near.denominator,
    ensures
        1 <= zones(far) <= zones(near) <= 59,
{
    lemma_zones_from(near, 0);
    lemma_zones_from(far, 0);
    if zones(far) >= 2 {
        let limit = NL_BREAKPOINTS[59 - zones(far)] as int;
        assert(far.below(limit));
        let (n, nd, f, fd) = (near.size(), near.denominator, far.size(), far.denominator);
        assert(n * 36_000_000_000 < limit * nd) by (nonlinear_arith)
            requires
                nd > 0,
                fd > 0,
                n >= 0,
                f >= 0,
                n * fd <= f * nd,
                f * 36_000_000_000 < limit * fd,
        ;
        assert(near.below(limit));
    }
}

/// Computes NL for a latitude.
pub fn cpr_nl(lat: Angle) -> (nl: u64)
    ensures
        nl == zones(lat@),
        1 <= nl <= 59,
{
    proof {
        use_type_invariant(&lat);
    }
    let size: u128 = if lat.numerator < 0 {
        (-(lat.numerator as i128)) as u128
    } else {
        lat.numerator as u128
    };
    let scaled: u128 = size * 36_000_000_000;
    let mut k: usize = 0;
    while k < 58
        invariant
            k <= 58,
            lat.denominator > 0,
            scaled == (if lat.numerator < 0 {
                -lat.numerator
            } else {
                lat.numerator as int
            }) * 36_000_000_000,
            zones(lat@) == zones_from(lat@, k as int),
        decreases 58 - k,
    {
        let limit: u64 = NL_BREAKPOINTS[k];
        assert(limit as int * lat.denominator as int <= 0xffff_ffff_ffff_ffff * 0x7fff_ffff_ffff_ffff)
            by (nonlinear_arith)
            requires
                0 <= limit <= 0xffff_ffff_ffff_ffff,
                0 < lat.denominator <= 0x7fff_ffff_ffff_ffff,
        ;
        if scaled < (limit as u128) * (lat.denominator as u128) {
            return 59 - k as u64;
        }
        k = k + 1;
    }
    1
}

/// The zone index that two fractions give: the floor of
/// `zones_a * a / 2^17 - zones_b * b / 2^17 + 1/2`.
pub open spec fn zone_index(a: int, zones_a: int, b: int, zones_b: int) -> int {
    (zones_a * a - zones_b * b + 65536) / 131072
}

/// The angle of the fraction `raw` of zone `index`, where `zone_count` zones
/// make a full turn. The zones are counted round the circle: index
/// `zone_count` is zone 0 again, and index -1 is the last zone.
pub open spec fn zone_angle(index: int, zone_count: int, raw: int) -> Turn {
    Turn { numerator: (index % zone_count) * 131072 + raw, denominator: zone_count * 131072 }
}

/// The latitude that an even and an odd report give together, taken from the
/// report of parity `latest`. From three quarter turns on it is counted
/// backwards, so that southern latitudes are negative.
pub open spec fn resolved_latitude(even: int, odd: int, latest: Parity) -> Turn {
    let j = zone_index(even, 4 * NZ - 1, odd, 4 * NZ as int);
    match latest {
        Parity::Even => zone_angle(j, 4 * NZ as int, even).wrapped_at(3),
        Parity::Odd => zone_angle(j, 4 * NZ - 1, odd).wrapped_at(3),
    }
}

/// The number of longitude zones that a report of parity `latest` counts at
/// a latitude with `nl` zones: `nl` for an even one, one less for an odd
/// one, and never less than one.
pub open spec fn longitude_zones(nl: int, latest: Parity) -> int {
    let n = match latest {
        Parity::Even => nl,
        Parity::Odd => nl - 1,
    };
    if n < 1 {
        1
    } else {
        n
    }
}

/// The longitude that an even and an odd report give together at the
/// latitude `lat`, taken from the report of parity `latest`. From half a turn
/// on it is counted backwards, so that western longitudes are negative.
pub open spec fn resolved_longitude(lat: Turn, even: int, odd: int, latest: Parity) -> Turn {
    let nl = zones(lat);
    let m = zone_index(even, nl - 1, odd, nl);
    let raw = match latest {
        Parity::Even => even,
        Parity::Odd => odd,
    };
    zone_angle(m, longitude_zones(nl, latest), raw).wrapped_at(2)
}

/// The position that two reports give, the second being the later one: none
/// unless one is even and the other odd.
pub open spec fn resolved_position(first: CPRFrame, second: CPRFrame) -> Option<GeoModel> {
    if first.parity == second.parity {
        None
    } else {
        let (even, odd) = match second.parity {
            Parity::Even => (second.position, first.position),
            Parity::Odd => (first.position, second.position),
        };
        let latitude = resolved_latitude(
            even.latitude as int,
            odd.latitude as int,
            second.parity,
        );
        Some(
            GeoModel {
                latitude,
                longitude: resolved_longitude(
                    latitude,
                    even.longitude as int,
                    odd.longitude as int,
                    second.parity,
                ),
            },
        )
    }
}

/// A zone angle that is counted backwards from `quarters` quarter turns on
/// lies between `quarters` less four, and `quarters`, quarter turns.
proof fn lemma_zone_angle_in_range(index: int, zone_count: int, raw: int, quarters: int)
    requires
        zone_count >= 1,
        0 <= raw < 131072,
        0 <= quarters <= 4,
    ensures
        zone_angle(index, zone_count, raw).wrapped_at(quarters).within_quarters(
            quarters - 4,
            quarters,
        ),
{
    lemma_mod_bound(index, zone_count);
    let n = (index % zone_count) * 131072 + raw;
    let d = zone_count * 131072;
    assert(0 <= n < d);
    assert(quarters * d - 4 * d == (quarters - 4) * d) by (nonlinear_arith);
    assert(0 <= quarters * d && (quarters - 4) * d <= 0) by (nonlinear_arith)
        requires
            0 <= quarters <= 4,
            0 <= d,
    ;
}

/// For two reports of opposite parity whose coordinates are 17-bit
/// quantities, the resolved latitude is at least -90 degrees and less than
/// 270 degrees, and the resolved longitude is at least -180 degrees and less
/// than 180 degrees.
pub proof fn lemma_resolved_position_in_range(first: CPRFrame, second: CPRFrame)
    requires
        first.wf(),
        second.wf(),
        first.parity != second.parity,
    ensures
        resolved_position(first, second) matches Some(p) && p.latitude.within_quarters(-1, 3)
            && p.longitude.within_quarters(-2, 2),
{
    let (even, odd) = match second.parity {
        Parity::Even => (second.position, first.position),
        Parity::Odd => (first.position, second.position),
    };
    let j = zone_index(even.latitude as int, 4 * NZ - 1, odd.latitude as int, 4 * NZ as int);
    lemma_zone_angle_in_range(j, 4 * NZ as int, even.latitude as int, 3);
    lemma_zone_angle_in_range(j, 4 * NZ - 1, odd.latitude as int, 3);
    let latitude = resolved_latitude(even.latitude as int, odd.latitude as int, second.parity);
    let nl = zones(latitude);
    let m = zone_index(even.longitude as int, nl - 1, odd.longitude as int, nl);
    lemma_zone_angle_in_range(
        m,
        longitude_zones(nl, second.parity),
        even.longitude as int,
        2,
    );
    lemma_zone_angle_in_range(m, longitude_zones(nl, second.parity), odd.longitude as int, 2);
}

/// The floor of `x / 2^17`.
fn floor_div_cpr(x: i64) -> (q: i64)
    requires
        -0x1_0000_0000_0000 < x < 0x1_0000_0000_0000,
    ensures
        q == x / 131072,
{
    if x >= 0 {
        x / CPR_MAX
    } else {
        -((CPR_MAX - 1 - x) / CPR_MAX)
    }
}

/// Computes [`zone_index`] for two raw coordinates.
fn cpr_zone_index(a: u32, zones_a: i64, b: u32, zones_b: i64) -> (index: i64)
    requires
        0 <= zones_a <= 60,
        0 <= zones_b <= 60,
    ensures
        index == zone_index(a as int, zones_a as int, b as int, zones_b as int),
        -0x1_0000_0000 < index < 0x1_0000_0000,
{
    assert(0 <= zones_a * a <= 60 * 0xffff_ffff) by (nonlinear_arith)
        requires
            0 <= zones_a <= 60,
            0 <= a <= 0xffff_ffff,
    ;
    assert(0 <= zones_b * b <= 60 * 0xffff_ffff) by (nonlinear_arith)
        requires
            0 <= zones_b <= 60,
            0 <= b <= 0xffff_ffff,
    ;
    floor_div_cpr(zones_a * (a as i64) - zones_b * (b as i64) + 65536)
}

/// Computes [`zone_angle`], counted backwards from `quarters` quarter turns on.
fn cpr_zone_angle(index: i64, zone_count: i64, raw: u32, quarters: i64) -> (angle: Angle)
    requires
        -0x1_0000_0000 < index < 0x1_0000_0000,
        1 <= zone_count <= 60,
        2 <= quarters <= 3,
    ensures
        angle@ == zone_angle(index as int, zone_count as int, raw as int).wrapped_at(
            quarters as int,
        ),
{
    let r: i64 = if index >= 0 {
        index % zone_count
    } else {
        let back: i64 = (-index) % zone_count;
        proof {
            let (x, z) = (index as int, zone_count as int);
            let q = (-x) / z;
            lemma_fundamental_div_mod(-x, z);
            if back == 0 {
                assert(x == (-q) * z + 0) by (nonlinear_arith)
                    requires
                        -x == z * q,
                ;
                lemma_fundamental_div_mod_converse(x, z, -q, 0);
            } else {
                assert(x == (-q - 1) * z + (z - back)) by (nonlinear_arith)
                    requires
                        -x == z * q + back,
                ;
                lemma_fundamental_div_mod_converse(x, z, -q - 1, z - back);
            }
        }
        if back == 0 {
            0
        } else {
            zone_count - back
        }
    };
    let numerator: i64 = r * CPR_MAX + raw as i64;
    let denominator: i64 = zone_count * CPR_MAX;
    assert(0 <= quarters * denominator <= 3 * denominator) by (nonlinear_arith)
        requires
            2 <= quarters <= 3,
            0 < denominator,
    ;
    if 4 * numerator >= quarters * denominator {
        Angle { numerator: numerator - denominator, denominator }
    } else {
        Angle { numerator, denominator }
    }
}

/// Computes the longitude of the later report at the latitude `lat`, and
/// returns both.
pub fn get_lat_lon(lat: Angle, cpr_lon_even: u32, cpr_lon_odd: u32, parity: &Parity) -> (r: (
    Angle,
    Angle,
))
    ensures
        r.0 == lat,
        r.1@ == resolved_longitude(lat@, cpr_lon_even as int, cpr_lon_odd as int, *parity),
{
    let nl: i64 = cpr_nl(lat) as i64;
    let (ni, c): (i64, u32) = match parity {
        Parity::Even => (nl, cpr_lon_even),
        Parity::Odd => (if nl - 1 < 1 { 1 } else { nl - 1 }, cpr_lon_odd),
    };
    let m: i64 = cpr_zone_index(cpr_lon_even, nl - 1, cpr_lon_odd, nl);
    (lat, cpr_zone_angle(m, ni, c, 2))
}

/// Calculates a globally unambiguous position based on a pair of frames
/// containing position information encoded in CPR format. A position is
/// returned when passed a tuple containing two frames of opposite parity
/// (even and odd). The frames in the tuple should be ordered according to
/// when they were received: the first frame being the oldest frame and the
/// second frame being the latest. That both are of one aircraft is the
/// caller's to see to.
pub fn get_position(cpr_frames: (&CPRFrame, &CPRFrame)) -> (position: Option<GeoPosition>)
    ensures
        position.is_none() <==> cpr_frames.0.parity == cpr_frames.1.parity,
        match position {
            Some(p) => resolved_position(*cpr_frames.0, *cpr_frames.1) == Some(p@),
            None => resolved_position(*cpr_frames.0, *cpr_frames.1).is_none(),
        },
{
    let latest_frame = cpr_frames.1;
    let (even_frame, odd_frame) = match (cpr_frames.0.parity, cpr_frames.1.parity) {
        (Parity::Even, Parity::Odd) => (cpr_frames.0, cpr_frames.1),
        (Parity::Odd, Parity::Even) => (cpr_frames.1, cpr_frames.0),
        _ => { return None; },
    };
    let j: i64 = cpr_zone_index(
        even_frame.position.latitude,
        4 * NZ - 1,
        odd_frame.position.latitude,
        4 * NZ,
    );
    let lat: Angle = match latest_frame.parity {
        Parity::Even => cpr_zone_angle(j, 4 * NZ, even_frame.position.latitude, 3),
        Parity::Odd => cpr_zone_angle(j, 4 * NZ - 1, odd_frame.position.latitude, 3),
    };
    let (latitude, longitude) = get_lat_lon(
        lat,
        even_frame.position.longitude,
        odd_frame.position.longitude,
        &latest_frame.parity,
    );
    Some(GeoPosition { latitude, longitude })
}

} // verus!
