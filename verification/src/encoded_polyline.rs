//! The compact polyline text format: an ordered coordinate sequence written
//! as printable ASCII, at a declared precision of 1e-5 or 1e-6 degrees.
//!
//! Each point is written as the pair of differences (latitude first) from
//! the previous point, in units of the declared precision; each difference
//! is zigzag-folded to a non-negative number and emitted in five-bit chunks,
//! low chunk first, each chunk offset by 63, with bit 32 marking that more
//! chunks follow.

use vstd::prelude::*;
use vstd::string::StringSliceAdditionalSpecFns;

use crate::geom::{valid_geometry, Coordinate};

verus! {

/// Folds a signed value into a non-negative one, interleaving the two signs.
pub open spec fn zigzag(v: int) -> nat {
    if v >= 0 {
        (2 * v) as nat
    } else {
        (-2 * v - 1) as nat
    }
}

/// The inverse fold.
pub open spec fn unzigzag(n: nat) -> int {
    if n % 2 == 0 {
        (n / 2) as int
    } else {
        -(((n + 1) / 2) as int)
    }
}

/// The five-bit chunk bytes of `n`, low chunk first, each offset by 63,
/// with bit 32 set on every chunk but the last.
pub open spec fn chunk_bytes(n: nat) -> Seq<u8>
    decreases n,
{
    if n < 32 {
        seq![(n + 63) as u8]
    } else {
        seq![(32 + n % 32 + 63) as u8] + chunk_bytes(n / 32)
    }
}

/// The bytes of one signed difference.
pub open spec fn encode_value(v: int) -> Seq<u8> {
    chunk_bytes(zigzag(v))
}

/// How many millionths of a degree one unit of the declared precision is.
pub open spec fn unit_e6(precision: u32) -> int {
    if precision == 5 {
        10
    } else {
        1
    }
}

/// A coordinate component rescaled from millionths of a degree to the
/// declared precision, rounding halves away from zero.
pub open spec fn scale_to(v: int, precision: u32) -> int {
    if precision == 5 {
        if v >= 0 {
            (v + 5) / 10
        } else {
            -((-v + 5) / 10)
        }
    } else {
        v
    }
}

/// The encoded bytes of a whole geometry, written after a previous point of
/// already-scaled components `prev_lat` and `prev_lon`.
pub open spec fn encode_from(
    coords: Seq<Coordinate>,
    i: int,
    prev_lat: int,
    prev_lon: int,
    precision: u32,
) -> Seq<u8>
    decreases coords.len() - i,
{
    if i < 0 || i >= coords.len() {
        Seq::empty()
    } else {
        let la = scale_to(coords[i].lat_e6 as int, precision);
        let lo = scale_to(coords[i].lon_e6 as int, precision);
        encode_value(la - prev_lat) + encode_value(lo - prev_lon) + encode_from(
            coords,
            i + 1,
            la,
            lo,
            precision,
        )
    }
}

/// The full encoding of a geometry.
pub open spec fn spec_encode(coords: Seq<Coordinate>, precision: u32) -> Seq<u8> {
    encode_from(coords, 0, 0, 0, precision)
}

/// Reads one zigzag-folded value off the front of the bytes: at most `fuel`
/// chunks, each a printable byte; `None` on anything else.
pub open spec fn parse_chunks(b: Seq<u8>, fuel: nat) -> Option<(nat, Seq<u8>)>
    decreases fuel,
{
    if fuel == 0 || b.len() == 0 {
        None
    } else {
        let c = b[0];
        if c < 63 || c > 126 {
            None
        } else {
            let x = (c - 63) as nat;
            if x < 32 {
                Some((x, b.drop_first()))
            } else {
                match parse_chunks(b.drop_first(), (fuel - 1) as nat) {
                    None => None,
                    Some((hi, rest)) => Some(((((x - 32) as nat) + 32 * hi) as nat, rest)),
                }
            }
        }
    }
}

/// Reads point pairs until the bytes are used up, accumulating absolute
/// positions; `None` on malformed bytes or positions off the globe.
pub open spec fn decode_from(
    b: Seq<u8>,
    prev_lat: int,
    prev_lon: int,
    precision: u32,
) -> Option<Seq<Coordinate>>
    decreases b.len(),
{
    if b.len() == 0 {
        Some(Seq::empty())
    } else {
        match parse_chunks(b, 12) {
            None => None,
            Some((nlat, rest1)) => match parse_chunks(rest1, 12) {
                None => None,
                Some((nlon, rest2)) => {
                    let lat = prev_lat + unzigzag(nlat);
                    let lon = prev_lon + unzigzag(nlon);
                    if -90000000 <= lat * unit_e6(precision) <= 90000000 && -180000000 <= lon
                        * unit_e6(precision) <= 180000000 && rest2.len() < b.len() {
                        let c = Coordinate {
                            lon_e6: (lon * unit_e6(precision)) as i64,
                            lat_e6: (lat * unit_e6(precision)) as i64,
                        };
                        match decode_from(rest2, lat, lon, precision) {
                            None => None,
                            Some(tail) => Some(seq![c] + tail),
                        }
                    } else {
                        None
                    }
                },
            },
        }
    }
}

pub open spec fn spec_decode(b: Seq<u8>, precision: u32) -> Option<Seq<Coordinate>> {
    decode_from(b, 0, 0, precision)
}

/// Why a polyline text was rejected.
#[derive(Clone, Copy, Debug, PartialEq, Eq, Structural)]
pub enum PolylineError {
    /// A coordinate handed to the encoder lies off the globe.
    InvalidCoordinate,
    /// A byte outside the printable chunk range, a truncated chunk
    /// sequence, or a decoded position off the globe.
    InvalidText,
}

pub open spec fn pow32(k: nat) -> nat
    decreases k,
{
    if k == 0 {
        1
    } else {
        32 * pow32((k - 1) as nat)
    }
}

/// Appends the chunk bytes of one signed difference.
fn push_value(out: &mut Vec<u8>, v: i64)
    requires
        -720000000 <= v <= 720000000,
    ensures
        final(out)@ == old(out)@ + encode_value(v as int),
{
    let mut n: u64 = if v >= 0 {
        (2 * v) as u64
    } else {
        2 * ((-v) as u64) - 1
    };
    proof {
        assert(n == zigzag(v as int));
    }
    let ghost n0 = n as nat;
    let ghost base = out@;
    while n >= 32
        invariant
            base + chunk_bytes(n0) =~= out@ + chunk_bytes(n as nat),
        decreases n,
    {
        let ghost before = out@;
        out.push((32 + (n % 32) + 63) as u8);
        proof {
            assert(chunk_bytes(n as nat) =~= seq![(32 + (n as nat) % 32 + 63) as u8]
                + chunk_bytes((n as nat) / 32));
            assert(before + chunk_bytes(n as nat) =~= out@ + chunk_bytes((n as nat) / 32));
        }
        n = n / 32;
    }
    out.push((n + 63) as u8);
    proof {
        assert(chunk_bytes(n as nat) =~= seq![((n as nat) + 63) as u8]);
        assert(out@ =~= base + chunk_bytes(n0));
    }
}

/// Rescales a component from millionths of a degree to the declared
/// precision.
fn scale_component(v: i64, precision: u32) -> (r: i64)
    requires
        precision == 5 || precision == 6,
        -180000000 <= v <= 180000000,
    ensures
        r == scale_to(v as int, precision),
        -180000000 <= r <= 180000000,
{
    if precision == 5 {
        if v >= 0 {
            (v + 5) / 10
        } else {
            -((-v + 5) / 10)
        }
    } else {
        v
    }
}

/// Writes a geometry as polyline bytes; rejected exactly when some
/// coordinate lies off the globe.
pub fn encode_coordinates_bytes(coords: &Vec<Coordinate>, precision: u32) -> (r: Result<
    Vec<u8>,
    PolylineError,
>)
    requires
        precision == 5 || precision == 6,
    ensures
        r is Ok <==> valid_geometry(coords@),
        r is Ok ==> r.unwrap()@ == spec_encode(coords@, precision),
        r is Err ==> r == Err::<Vec<u8>, PolylineError>(PolylineError::InvalidCoordinate),
{
    let mut i: usize = 0;
    while i < coords.len()
        invariant
            i <= coords@.len(),
            forall|j: int| 0 <= j < i ==> (#[trigger] coords@[j]).valid(),
        decreases coords@.len() - i,
    {
        let c = coords[i];
        if c.lon_e6 < -180000000 || c.lon_e6 > 180000000 || c.lat_e6 < -90000000 || c.lat_e6
            > 90000000 {
            return Err(PolylineError::InvalidCoordinate);
        }
        i = i + 1;
    }
    let mut out: Vec<u8> = Vec::new();
    let mut prev_lat: i64 = 0;
    let mut prev_lon: i64 = 0;
    let mut i: usize = 0;
    proof {
        assert(valid_geometry(coords@));
    }
    while i < coords.len()
        invariant
            i <= coords@.len(),
            valid_geometry(coords@),
            precision == 5 || precision == 6,
            i > 0 ==> prev_lat == scale_to(coords@[i - 1].lat_e6 as int, precision) && prev_lon
                == scale_to(coords@[i - 1].lon_e6 as int, precision),
            i == 0 ==> prev_lat == 0 && prev_lon == 0,
            -180000000 <= prev_lat <= 180000000,
            -180000000 <= prev_lon <= 180000000,
            out@ + encode_from(coords@, i as int, prev_lat as int, prev_lon as int, precision)
                =~= spec_encode(coords@, precision),
        decreases coords@.len() - i,
    {
        let c = coords[i];
        let la = scale_component(c.lat_e6, precision);
        let lo = scale_component(c.lon_e6, precision);
        let ghost before = out@;
        push_value(&mut out, la - prev_lat);
        push_value(&mut out, lo - prev_lon);
        proof {
            assert(encode_from(coords@, i as int, prev_lat as int, prev_lon as int, precision)
                =~= encode_value(la - prev_lat) + encode_value(lo - prev_lon) + encode_from(
                coords@,
                i as int + 1,
                la as int,
                lo as int,
                precision,
            ));
        }
        prev_lat = la;
        prev_lon = lo;
        i = i + 1;
    }
    proof {
        assert(encode_from(coords@, coords@.len() as int, prev_lat as int, prev_lon as int,
            precision) =~= Seq::<u8>::empty());
        assert(out@ =~= spec_encode(coords@, precision));
    }
    Ok(out)
}

/// Reads one folded value starting at `pos`; mirrors `parse_chunks`.
fn parse_value(b: &[u8], pos: usize, fuel: u32) -> (r: Option<(u64, usize)>)
    requires
        pos <= b@.len(),
        fuel <= 12,
    ensures
        match parse_chunks(b@.skip(pos as int), fuel as nat) {
            None => r is None,
            Some((n, rest)) => {
                &&& r is Some
                &&& r.unwrap().0 == n
                &&& n < pow32(fuel as nat)
                &&& pos < r.unwrap().1 <= b@.len()
                &&& rest =~= b@.skip(r.unwrap().1 as int)
            },
        },
    decreases fuel,
{
    if fuel == 0 || pos == b.len() {
        return None;
    }
    let c = b[pos];
    if c < 63 || c > 126 {
        proof {
            assert(b@.skip(pos as int)[0] == c);
        }
        return None;
    }
    let x = c - 63;
    proof {
        assert(b@.skip(pos as int).drop_first() =~= b@.skip(pos as int + 1));
        lemma_pow32_pos(fuel as nat);
    }
    if x < 32 {
        Some((x as u64, pos + 1))
    } else {
        match parse_value(b, pos + 1, fuel - 1) {
            None => None,
            Some((hi, np)) => {
                proof {
                    assert(32 * pow32((fuel - 1) as nat) == pow32(fuel as nat));
                    assert(((x - 32) as nat) + 32 * (hi as nat) < pow32(fuel as nat))
                        by (nonlinear_arith)
                        requires
                            (hi as nat) < pow32((fuel - 1) as nat),
                            32 * pow32((fuel - 1) as nat) == pow32(fuel as nat),
                            ((x - 32) as nat) < 32,
                    ;
                }
                Some(((x - 32) as u64 + 32 * hi, np))
            },
        }
    }
}

proof fn lemma_pow32_pos(k: nat)
    ensures
        0 < pow32(k),
        k <= 12 ==> pow32(k) <= 1152921504606846976,
    decreases k,
{
    if k > 0 {
        lemma_pow32_pos((k - 1) as nat);
        if k <= 12 {
            lemma_pow32_le_12(k);
        }
    }
}

proof fn lemma_pow32_le_12(k: nat)
    requires
        k <= 12,
    ensures
        pow32(k) <= 1152921504606846976,
    decreases 12 - k,
{
    if k == 12 {
        assert(pow32(12) == 1152921504606846976) by {
            reveal_with_fuel(pow32, 13);
        }
    } else {
        lemma_pow32_le_12(k + 1);
        assert(pow32(k + 1) == 32 * pow32(k));
    }
}

/// Reads polyline bytes back into a geometry; rejected exactly where the
/// bytes are not a well-formed writing of positions on the globe.
pub fn decode_polyline_bytes(b: &[u8], precision: u32) -> (r: Result<Vec<Coordinate>, PolylineError>)
    requires
        precision == 5 || precision == 6,
    ensures
        r is Ok <==> spec_decode(b@, precision) is Some,
        r is Ok ==> Some(r.unwrap()@) == spec_decode(b@, precision),
        r is Ok ==> valid_geometry(r.unwrap()@),
        r is Err ==> r == Err::<Vec<Coordinate>, PolylineError>(PolylineError::InvalidText),
{
    let unit: i64 = if precision == 5 {
        10
    } else {
        1
    };
    let bound_lat: i64 = 90000000 / unit;
    let bound_lon: i64 = 180000000 / unit;
    let mut out: Vec<Coordinate> = Vec::new();
    let mut pos: usize = 0;
    let mut prev_lat: i64 = 0;
    let mut prev_lon: i64 = 0;
    proof {
        assert(b@.skip(0) =~= b@);
    }
    while pos < b.len()
        invariant
            pos <= b@.len(),
            precision == 5 || precision == 6,
            unit == unit_e6(precision),
            bound_lat == 90000000int / (unit as int),
            bound_lon == 180000000int / (unit as int),
            -bound_lat <= prev_lat <= bound_lat,
            -bound_lon <= prev_lon <= bound_lon,
            valid_geometry(out@),
            match decode_from(b@.skip(pos as int), prev_lat as int, prev_lon as int, precision) {
                None => spec_decode(b@, precision) is None,
                Some(tail) => spec_decode(b@, precision) == Some(out@ + tail),
            },
        decreases b@.len() - pos,
    {
        let ghost rest0 = b@.skip(pos as int);
        let Some((nlat, pos1)) = parse_value(b, pos, 12) else {
            return Err(PolylineError::InvalidText);
        };
        let Some((nlon, pos2)) = parse_value(b, pos1, 12) else {
            return Err(PolylineError::InvalidText);
        };
        proof {
            lemma_pow32_pos(12);
        }
        let dlat = unfold_value(nlat);
        let dlon = unfold_value(nlon);
        let lat = prev_lat + dlat;
        let lon = prev_lon + dlon;
        if lat < -bound_lat || lat > bound_lat || lon < -bound_lon || lon > bound_lon {
            return Err(PolylineError::InvalidText);
        }
        out.push(Coordinate { lon_e6: lon * unit, lat_e6: lat * unit });
        proof {
            let tail0 = decode_from(rest0, prev_lat as int, prev_lon as int, precision);
            assert(b@.skip(pos2 as int).len() < rest0.len());
        }
        prev_lat = lat;
        prev_lon = lon;
        pos = pos2;
    }
    proof {
        assert(b@.skip(pos as int).len() == 0);
        assert(b@.skip(pos as int) =~= Seq::<u8>::empty());
        assert(out@ + Seq::<Coordinate>::empty() =~= out@);
    }
    Ok(out)
}

/// Unfolds a zigzagged value; the fold keeps magnitudes under `2^59`, so
/// the arithmetic stays in range.
fn unfold_value(n: u64) -> (r: i64)
    requires
        n < 1152921504606846976,
    ensures
        r == unzigzag(n as nat),
        -576460752303423488 <= r <= 576460752303423487,
{
    if n % 2 == 0 {
        (n / 2) as i64
    } else {
        -(((n + 1) / 2) as i64)
    }
}

/// The characters that a run of ASCII bytes reads as.
pub open spec fn chars_of_bytes(b: Seq<u8>) -> Seq<char> {
    Seq::new(b.len(), |i: int| b[i] as char)
}

/// Every byte of an encoded polyline is printable ASCII.
proof fn lemma_chunk_bytes_printable(n: nat)
    ensures
        forall|i: int|
            0 <= i < chunk_bytes(n).len() ==> 63 <= #[trigger] chunk_bytes(n)[i] <= 126,
    decreases n,
{
    if n >= 32 {
        lemma_chunk_bytes_printable(n / 32);
        assert(forall|i: int|
            1 <= i < chunk_bytes(n).len() ==> chunk_bytes(n)[i] == chunk_bytes(n / 32)[i - 1]);
    }
}

proof fn lemma_encode_printable(coords: Seq<Coordinate>, i: int, pl: int, po: int, precision: u32)
    ensures
        forall|j: int|
            0 <= j < encode_from(coords, i, pl, po, precision).len() ==> 63 <= #[trigger] encode_from(
                coords,
                i,
                pl,
                po,
                precision,
            )[j] <= 126,
    decreases coords.len() - i,
{
    if 0 <= i < coords.len() {
        let la = scale_to(coords[i].lat_e6 as int, precision);
        let lo = scale_to(coords[i].lon_e6 as int, precision);
        lemma_chunk_bytes_printable(zigzag(la - pl));
        lemma_chunk_bytes_printable(zigzag(lo - po));
        lemma_encode_printable(coords, i + 1, la, lo, precision);
        let e = encode_from(coords, i, pl, po, precision);
        let a = encode_value(la - pl);
        let b = encode_value(lo - po);
        let c = encode_from(coords, i + 1, la, lo, precision);
        assert forall|j: int| 0 <= j < e.len() implies 63 <= #[trigger] e[j] <= 126 by {
            if j < a.len() {
                assert(e[j] == a[j]);
            } else if j < a.len() + b.len() {
                assert(e[j] == b[j - a.len()]);
            } else {
                assert(e[j] == c[j - a.len() - b.len()]);
            }
        }
    }
}

/// Relies on std's `String::from_utf8`: ASCII bytes read back as the same
/// characters, one per byte.
#[verifier::external_body]
fn ascii_string_from_bytes(v: Vec<u8>) -> (r: String)
    requires
        forall|i: int| 0 <= i < v@.len() ==> v@[i] < 128,
    ensures
        r@ == chars_of_bytes(v@),
{
    String::from_utf8(v).unwrap()
}

/// Writes a geometry as compact polyline text; rejected exactly when some
/// coordinate lies off the globe.
pub fn encode_coordinates(coords: &Vec<Coordinate>, precision: u32) -> (r: Result<
    String,
    PolylineError,
>)
    requires
        precision == 5 || precision == 6,
    ensures
        r is Ok <==> valid_geometry(coords@),
        r is Ok ==> r.unwrap()@ == chars_of_bytes(spec_encode(coords@, precision)),
        r is Err ==> r == Err::<String, PolylineError>(PolylineError::InvalidCoordinate),
{
    match encode_coordinates_bytes(coords, precision) {
        Ok(bytes) => {
            proof {
                lemma_encode_printable(coords@, 0, 0, 0, precision);
            }
            Ok(ascii_string_from_bytes(bytes))
        },
        Err(e) => Err(e),
    }
}

/// Reads compact polyline text back into a geometry; the text is taken by
/// its UTF-8 bytes, so any character outside the printable chunk range is
/// rejected.
pub fn decode_polyline(s: &str, precision: u32) -> (r: Result<Vec<Coordinate>, PolylineError>)
    requires
        precision == 5 || precision == 6,
    ensures
        r is Ok <==> spec_decode(s.spec_bytes(), precision) is Some,
        r is Ok ==> Some(r.unwrap()@) == spec_decode(s.spec_bytes(), precision),
        r is Ok ==> valid_geometry(r.unwrap()@),
        r is Err ==> r == Err::<Vec<Coordinate>, PolylineError>(PolylineError::InvalidText),
{
    let bytes = s.as_bytes();
    decode_polyline_bytes(bytes, precision)
}

/// The reading a coordinate comes back as after one encode/decode round
/// trip: itself at 1e-6 precision, its nearest 1e-5 neighbour at 1e-5.
pub open spec fn round_coordinate(c: Coordinate, precision: u32) -> Coordinate {
    Coordinate {
        lon_e6: (scale_to(c.lon_e6 as int, precision) * unit_e6(precision)) as i64,
        lat_e6: (scale_to(c.lat_e6 as int, precision) * unit_e6(precision)) as i64,
    }
}

pub open spec fn round_geometry(coords: Seq<Coordinate>, precision: u32) -> Seq<Coordinate> {
    Seq::new(coords.len(), |i: int| round_coordinate(coords[i], precision))
}

proof fn lemma_unzigzag_zigzag(v: int)
    ensures
        unzigzag(zigzag(v)) == v,
{
}

/// Reading the chunk bytes of a folded value off the front of any byte
/// run gives the value back and leaves the run.
proof fn lemma_parse_chunks_roundtrip(n: nat, rest: Seq<u8>, fuel: nat)
    requires
        1 <= fuel <= 12,
        n < pow32(fuel),
    ensures
        parse_chunks(chunk_bytes(n) + rest, fuel) == Some((n, rest)),
    decreases n,
{
    if n < 32 {
        let b = chunk_bytes(n) + rest;
        assert(b[0] == (n + 63) as u8);
        assert(63 <= b[0] <= 94);
        assert(b.drop_first() =~= rest);
    } else {
        assert(n / 32 < pow32((fuel - 1) as nat)) by (nonlinear_arith)
            requires
                n < pow32(fuel),
                pow32(fuel) == 32 * pow32((fuel - 1) as nat),
                n >= 32,
        ;
        assert(fuel - 1 >= 1) by {
            assert(pow32(1) == 32) by {
                reveal_with_fuel(pow32, 2);
            }
            if fuel == 1 {
                assert(n < 32);
            }
        }
        lemma_parse_chunks_roundtrip(n / 32, rest, (fuel - 1) as nat);
        let b = chunk_bytes(n) + rest;
        assert(b[0] == (32 + n % 32 + 63) as u8);
        assert(95 <= b[0] <= 126);
        assert(b.drop_first() =~= chunk_bytes(n / 32) + rest);
        assert((b[0] - 63) as nat - 32 + 32 * (n / 32) == n);
    }
}

/// Decoding what was encoded from vertex `i` on, after a shared previous
/// point, reads back exactly the rounded remaining vertices.
proof fn lemma_decode_encode_from(
    coords: Seq<Coordinate>,
    i: int,
    prev_lat: int,
    prev_lon: int,
    precision: u32,
)
    requires
        precision == 5 || precision == 6,
        valid_geometry(coords),
        0 <= i <= coords.len(),
        -90000000 <= prev_lat * unit_e6(precision) <= 90000000,
        -180000000 <= prev_lon * unit_e6(precision) <= 180000000,
    ensures
        decode_from(encode_from(coords, i, prev_lat, prev_lon, precision), prev_lat, prev_lon,
            precision) == Some(round_geometry(coords, precision).skip(i)),
    decreases coords.len() - i,
{
    let e = encode_from(coords, i, prev_lat, prev_lon, precision);
    if i >= coords.len() {
        assert(e =~= Seq::<u8>::empty());
        assert(round_geometry(coords, precision).skip(i) =~= Seq::<Coordinate>::empty());
    } else {
        assert(coords[i].valid());
        let la = scale_to(coords[i].lat_e6 as int, precision);
        let lo = scale_to(coords[i].lon_e6 as int, precision);
        assert(-90000000 <= la * unit_e6(precision) <= 90000000 && -180000000 <= lo * unit_e6(
            precision,
        ) <= 180000000) by (nonlinear_arith)
            requires
                precision == 5 || precision == 6,
                la == scale_to(coords[i].lat_e6 as int, precision),
                lo == scale_to(coords[i].lon_e6 as int, precision),
                -90000000 <= coords[i].lat_e6 <= 90000000,
                -180000000 <= coords[i].lon_e6 <= 180000000,
        ;
        let dla = la - prev_lat;
        let dlo = lo - prev_lon;
        assert(zigzag(dla) < pow32(12) && zigzag(dlo) < pow32(12)) by {
            lemma_pow32_le_12(12);
            assert(pow32(12) == 1152921504606846976) by {
                reveal_with_fuel(pow32, 13);
            }
        }
        let rest1 = encode_value(dlo) + encode_from(coords, i + 1, la, lo, precision);
        assert(e =~= encode_value(dla) + rest1);
        lemma_parse_chunks_roundtrip(zigzag(dla), rest1, 12);
        let rest2 = encode_from(coords, i + 1, la, lo, precision);
        assert(rest1 =~= encode_value(dlo) + rest2);
        lemma_parse_chunks_roundtrip(zigzag(dlo), rest2, 12);
        lemma_unzigzag_zigzag(dla);
        lemma_unzigzag_zigzag(dlo);
        assert(prev_lat + unzigzag(zigzag(dla)) == la);
        assert(prev_lon + unzigzag(zigzag(dlo)) == lo);
        assert(e.len() > 0);
        assert(rest2.len() < e.len()) by {
            assert(encode_value(dla).len() >= 1);
            assert(encode_value(dlo).len() >= 1);
        }
        lemma_decode_encode_from(coords, i + 1, la, lo, precision);
        let c = Coordinate {
            lon_e6: (lo * unit_e6(precision)) as i64,
            lat_e6: (la * unit_e6(precision)) as i64,
        };
        assert(c == round_coordinate(coords[i], precision));
        assert(decode_from(e, prev_lat, prev_lon, precision) == Some(
            seq![c] + round_geometry(coords, precision).skip(i + 1),
        ));
        assert(seq![c] + round_geometry(coords, precision).skip(i + 1) =~= round_geometry(
            coords,
            precision,
        ).skip(i));
    }
}

/// Encoding a coordinate sequence and decoding it reproduces the original
/// coordinates within the declared precision: exactly at 1e-6, and to
/// within half of 1e-5 of a degree on each component at 1e-5.
pub proof fn lemma_polyline_round_trip(coords: Seq<Coordinate>, precision: u32)
    requires
        precision == 5 || precision == 6,
        valid_geometry(coords),
    ensures
        spec_decode(spec_encode(coords, precision), precision) == Some(
            round_geometry(coords, precision),
        ),
        precision == 6 ==> spec_decode(spec_encode(coords, 6), 6) == Some(coords),
        forall|i: int|
            0 <= i < coords.len() ==> {
                let r = #[trigger] round_geometry(coords, precision)[i];
                &&& -5 <= r.lon_e6 - coords[i].lon_e6 <= 5
                &&& -5 <= r.lat_e6 - coords[i].lat_e6 <= 5
            },
{
    lemma_decode_encode_from(coords, 0, 0, 0, precision);
    assert(round_geometry(coords, precision).skip(0) =~= round_geometry(coords, precision));
    if precision == 6 {
        assert(round_geometry(coords, 6) =~= coords);
    }
    assert forall|i: int| 0 <= i < coords.len() implies {
        let r = #[trigger] round_geometry(coords, precision)[i];
        &&& -5 <= r.lon_e6 - coords[i].lon_e6 <= 5
        &&& -5 <= r.lat_e6 - coords[i].lat_e6 <= 5
    } by {
        assert(coords[i].valid());
    }
}

} // verus!
