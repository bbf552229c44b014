//! The mesh loader: a line-oriented text format into a flat triangle list.
//!
//! A line `v x y z` appends a vertex (three decimal numbers, stored as
//! fixed-point); a line `f i j k` appends one triangle from three 1-based
//! references into the vertices so far; any other leading token is ignored.
//! Numbers are plain decimals — an optional sign, up to thirteen integer
//! digits and up to nine fraction digits, no exponent — truncated toward
//! zero onto the fixed-point grid. A malformed or missing numeric field and
//! an out-of-range vertex reference are structured errors, not aborts.
//!
//! The contract of [`Mesh::from_str`] is exact: the result equals the
//! recursive specification [`parse_mesh_spec`] over the input bytes.

use vstd::prelude::*;
use vstd::string::StringSliceAdditionalSpecFns;
use crate::fx::{FX_ONE, sat, tdiv};
use crate::triangle::{Triangle, tri_with};
use crate::vec::{Vec3, vec3_raw};

verus! {

/// Why a mesh source was rejected.
#[derive(Clone, Copy, PartialEq, Eq, Structural, Debug)]
pub enum MeshError {
    /// A numeric field of a `v` or `f` line is missing or not a number this
    /// format accepts.
    MalformedNumber,
    /// A face references a vertex that does not exist (zero, or beyond the
    /// vertices read so far).
    IndexOutOfRange,
}

/// The index of the first `sep` at or after `i` and before `end`, or `end`.
pub open spec fn scan_to(s: Seq<u8>, i: int, end: int, sep: u8) -> int
    decreases end - i,
{
    if i < 0 || i >= end {
        end
    } else if s[i] == sep {
        i
    } else {
        scan_to(s, i + 1, end, sep)
    }
}

/// `scan_to` stays between its start and its end, stops on `sep` or at the
/// end, and skips no separator.
pub proof fn lemma_scan_to(s: Seq<u8>, i: int, end: int, sep: u8)
    requires
        0 <= i <= end,
    ensures
        i <= scan_to(s, i, end, sep) <= end,
        scan_to(s, i, end, sep) < end ==> s[scan_to(s, i, end, sep)] == sep,
        forall|k: int| i <= k < scan_to(s, i, end, sep) ==> s[k] != sep,
    decreases end - i,
{
    if i < end && s[i] != sep {
        lemma_scan_to(s, i + 1, end, sep);
    }
}

/// Is this byte a decimal digit?
pub open spec fn is_digit(b: u8) -> bool {
    48 <= b <= 57
}

/// Every byte in `[a, b)` is a digit.
pub open spec fn all_digits(s: Seq<u8>, a: int, b: int) -> bool {
    forall|k: int| a <= k < b ==> is_digit(s[k])
}

/// The value of the digit run in `[a, b)`.
pub open spec fn digits_val(s: Seq<u8>, a: int, b: int) -> int
    decreases b - a,
{
    if b <= a {
        0
    } else {
        digits_val(s, a, b - 1) * 10 + (s[b - 1] - 48)
    }
}

/// Ten to the `k`.
pub open spec fn pow10(k: nat) -> int
    decreases k,
{
    if k == 0 {
        1
    } else {
        10 * pow10((k - 1) as nat)
    }
}

/// A digit run's value is nonnegative and below ten to its length.
pub proof fn lemma_digits_val_bound(s: Seq<u8>, a: int, b: int)
    requires
        a <= b,
        all_digits(s, a, b),
    ensures
        0 <= digits_val(s, a, b) < pow10((b - a) as nat),
    decreases b - a,
{
    if a < b {
        lemma_digits_val_bound(s, a, b - 1);
        assert(is_digit(s[b - 1]));
        assert(pow10((b - a) as nat) == 10 * pow10((b - a - 1) as nat));
    }
}

/// Ten to the power is monotone in the exponent.
pub proof fn lemma_pow10_le(a: nat, b: nat)
    requires
        a <= b,
    ensures
        0 < pow10(a) <= pow10(b),
    decreases b,
{
    if a == b {
        lemma_pow10_pos(a);
    } else {
        lemma_pow10_le(a, (b - 1) as nat);
    }
}

/// Ten to any power is positive.
pub proof fn lemma_pow10_pos(a: nat)
    ensures
        pow10(a) > 0,
    decreases a,
{
    if a > 0 {
        lemma_pow10_pos((a - 1) as nat);
    }
}

/// The decimal number written in `[a, b)`, as a raw fixed-point value:
/// an optional sign, then integer digits and fraction digits around an
/// optional dot — at least one digit in all, at most thirteen before the
/// dot and nine after — scaled by one unit and truncated toward zero.
pub open spec fn parse_dec_at(s: Seq<u8>, a: int, b: int) -> Option<int> {
    let neg = a < b && s[a] == 45;
    let a1 = if a < b && (s[a] == 45 || s[a] == 43) {
        a + 1
    } else {
        a
    };
    let d = scan_to(s, a1, b, 46);
    let fstart = if d < b {
        d + 1
    } else {
        b
    };
    let ilen = d - a1;
    let flen = b - fstart;
    if all_digits(s, a1, d) && all_digits(s, fstart, b) && ilen + flen > 0 && ilen <= 13 && flen
        <= 9 {
        let scaled = digits_val(s, a1, d) * pow10(flen as nat) + digits_val(s, fstart, b);
        let mag = tdiv(scaled * (FX_ONE as int), pow10(flen as nat));
        Some(sat(if neg {
            -mag
        } else {
            mag
        }))
    } else {
        None
    }
}

/// The 1-based vertex reference written in `[a, b)`: one to thirteen plain
/// digits.
pub open spec fn parse_index_at(s: Seq<u8>, a: int, b: int) -> Option<int> {
    if all_digits(s, a, b) && 0 < b - a <= 13 {
        Some(digits_val(s, a, b))
    } else {
        None
    }
}

/// What one line `[i, j)` does to the vertex and triangle lists built so
/// far: a `v` line appends a vertex, an `f` line appends a triangle from
/// three existing vertices, anything else changes nothing; field checks run
/// left to right, presence before content.
pub open spec fn parse_line_at(
    s: Seq<u8>,
    i: int,
    j: int,
    verts: Seq<Vec3>,
    tris: Seq<Triangle>,
) -> Result<(Seq<Vec3>, Seq<Triangle>), MeshError> {
    let e0 = scan_to(s, i, j, 32);
    if e0 - i == 1 && s[i] == 118 {
        if e0 >= j {
            Err(MeshError::MalformedNumber)
        } else {
            let e1 = scan_to(s, e0 + 1, j, 32);
            match parse_dec_at(s, e0 + 1, e1) {
                None => Err(MeshError::MalformedNumber),
                Some(x) => if e1 >= j {
                    Err(MeshError::MalformedNumber)
                } else {
                    let e2 = scan_to(s, e1 + 1, j, 32);
                    match parse_dec_at(s, e1 + 1, e2) {
                        None => Err(MeshError::MalformedNumber),
                        Some(y) => if e2 >= j {
                            Err(MeshError::MalformedNumber)
                        } else {
                            let e3 = scan_to(s, e2 + 1, j, 32);
                            match parse_dec_at(s, e2 + 1, e3) {
                                None => Err(MeshError::MalformedNumber),
                                Some(z) => Ok((verts.push(vec3_raw(x, y, z)), tris)),
                            }
                        },
                    }
                },
            }
        }
    } else if e0 - i == 1 && s[i] == 102 {
        if e0 >= j {
            Err(MeshError::MalformedNumber)
        } else {
            let e1 = scan_to(s, e0 + 1, j, 32);
            match parse_index_at(s, e0 + 1, e1) {
                None => Err(MeshError::MalformedNumber),
                Some(i1) => if !(1 <= i1 <= verts.len()) {
                    Err(MeshError::IndexOutOfRange)
                } else if e1 >= j {
                    Err(MeshError::MalformedNumber)
                } else {
                    let e2 = scan_to(s, e1 + 1, j, 32);
                    match parse_index_at(s, e1 + 1, e2) {
                        None => Err(MeshError::MalformedNumber),
                        Some(i2) => if !(1 <= i2 <= verts.len()) {
                            Err(MeshError::IndexOutOfRange)
                        } else if e2 >= j {
                            Err(MeshError::MalformedNumber)
                        } else {
                            let e3 = scan_to(s, e2 + 1, j, 32);
                            match parse_index_at(s, e2 + 1, e3) {
                                None => Err(MeshError::MalformedNumber),
                                Some(i3) => if !(1 <= i3 <= verts.len()) {
                                    Err(MeshError::IndexOutOfRange)
                                } else {
                                    Ok(
                                        (
                                            verts,
                                            tris.push(
                                                tri_with(
                                                    verts[i1 - 1],
                                                    verts[i2 - 1],
                                                    verts[i3 - 1],
                                                    crate::triangle::Color {
                                                        r: 0u8,
                                                        g: 0u8,
                                                        b: 0u8,
                                                        a: 255u8,
                                                    },
                                                ),
                                            ),
                                        ),
                                    )
                                },
                            }
                        },
                    }
                },
            }
        }
    } else {
        Ok((verts, tris))
    }
}

/// The rest of the parse from byte `i` on, given the lists built so far.
pub open spec fn parse_from(s: Seq<u8>, i: int, verts: Seq<Vec3>, tris: Seq<Triangle>) -> Result<
    Seq<Triangle>,
    MeshError,
>
    decreases s.len() + 1 - i,
    via parse_from_decreases
{
    if i < 0 || i >= s.len() {
        Ok(tris)
    } else {
        let j = scan_to(s, i, s.len() as int, 10);
        match parse_line_at(s, i, j, verts, tris) {
            Err(e) => Err(e),
            Ok((v2, t2)) => parse_from(s, j + 1, v2, t2),
        }
    }
}

#[via_fn]
proof fn parse_from_decreases(s: Seq<u8>, i: int, verts: Seq<Vec3>, tris: Seq<Triangle>) {
    if 0 <= i < s.len() {
        lemma_scan_to(s, i, s.len() as int, 10);
    }
}

/// The whole parse of a mesh source: the triangles it defines, or its first
/// error.
pub open spec fn parse_mesh_spec(s: Seq<u8>) -> Result<Seq<Triangle>, MeshError> {
    parse_from(s, 0, Seq::<Vec3>::empty(), Seq::<Triangle>::empty())
}

/// An ordered list of triangles, immutable after load.
pub struct Mesh {
    triangles: Vec<Triangle>,
}

impl View for Mesh {
    type V = Seq<Triangle>;

    closed spec fn view(&self) -> Seq<Triangle> {
        self.triangles@
    }
}

impl Mesh {
    /// A mesh over the given triangles.
    pub fn new(triangles: Vec<Triangle>) -> (m: Mesh)
        ensures
            m@ == triangles@,
    {
        Mesh { triangles }
    }

    /// The triangles, in face order.
    pub fn triangles(&self) -> (r: &Vec<Triangle>)
        ensures
            r@ == self@,
    {
        &self.triangles
    }

    /// How many triangles the mesh holds.
    pub fn len(&self) -> (n: usize)
        ensures
            n == self@.len(),
    {
        self.triangles.len()
    }

    /// Parse a mesh source; the result is exactly what [`parse_mesh_spec`]
    /// states for the text's bytes.
    #[verifier::rlimit(80)]
    pub fn from_str(src: &str) -> (res: Result<Mesh, MeshError>)
        ensures
            ({
                let p = parse_mesh_spec(src.spec_bytes());
                match res {
                    Ok(m) => p == Ok::<Seq<Triangle>, MeshError>(m@),
                    Err(e) => p == Err::<Seq<Triangle>, MeshError>(e),
                }
            }),
    {
        let bytes: &[u8] = src.as_bytes();
        let n: usize = bytes.len();
        let mut verts: Vec<Vec3> = Vec::new();
        let mut tris: Vec<Triangle> = Vec::new();
        let mut i: usize = 0;
        while i < n
            invariant
                n == bytes@.len(),
                bytes@ == src.spec_bytes(),
                i <= n + 1,
                parse_from(bytes@, i as int, verts@, tris@) == parse_mesh_spec(bytes@),
            decreases n + 1 - i,
        {
            proof {
                lemma_scan_to(bytes@, i as int, n as int, 10);
            }
            let j = scan_byte(bytes, i, n, 10);
            match parse_one_line(bytes, i, j, &mut verts, &mut tris) {
                Err(e) => {
                    return Err(e);
                },
                Ok(_) => {
                },
            }
            if j < n {
                i = j + 1;
            } else {
                proof {
                    assert(parse_from(bytes@, j as int + 1, verts@, tris@) == parse_from(
                        bytes@,
                        n as int,
                        verts@,
                        tris@,
                    ));
                }
                i = n;
            }
        }
        Ok(Mesh { triangles: tris })
    }
}

/// The index of the first `sep` at or after `from` and before `end`, or
/// `end`.
fn scan_byte(bytes: &[u8], from: usize, end: usize, sep: u8) -> (r: usize)
    requires
        from <= end <= bytes@.len(),
    ensures
        r as int == scan_to(bytes@, from as int, end as int, sep),
        from <= r <= end,
{
    let mut k: usize = from;
    while k < end
        invariant
            from <= k <= end <= bytes@.len(),
            scan_to(bytes@, from as int, end as int, sep) == scan_to(
                bytes@,
                k as int,
                end as int,
                sep,
            ),
        decreases end - k,
    {
        if bytes[k] == sep {
            return k;
        }
        k += 1;
    }
    end
}

/// Parse the decimal number in `[a, b)` into a raw fixed-point value, as
/// [`parse_dec_at`] states.
fn parse_dec_exec(bytes: &[u8], a: usize, b: usize) -> (r: Option<i64>)
    requires
        a <= b <= bytes@.len(),
    ensures
        match r {
            Some(v) => parse_dec_at(bytes@, a as int, b as int) == Some(v as int),
            None => parse_dec_at(bytes@, a as int, b as int) is None,
        },
{
    let ghost s = bytes@;
    let mut p: usize = a;
    let mut neg: bool = false;
    if p < b && (bytes[p] == 45 || bytes[p] == 43) {
        neg = bytes[p] == 45;
        p += 1;
    }
    proof {
        lemma_scan_to(s, p as int, b as int, 46);
    }
    let d = scan_byte(bytes, p, b, 46);
    if d - p > 13 {
        return None;
    }
    let fstart: usize = if d < b {
        d + 1
    } else {
        b
    };
    if b - fstart > 9 {
        return None;
    }
    if d - p == 0 && b - fstart == 0 {
        return None;
    }
    let ipart = match digits_exec(bytes, p, d) {
        Some(v) => v,
        None => {
            return None;
        },
    };
    let fpart = match digits_exec(bytes, fstart, b) {
        Some(v) => v,
        None => {
            return None;
        },
    };
    let flen: usize = b - fstart;
    let p10 = pow10_exec(flen);
    proof {
        reveal_with_fuel(pow10, 15);
        lemma_digits_val_bound(s, p as int, d as int);
        lemma_digits_val_bound(s, fstart as int, b as int);
        lemma_pow10_le(flen as nat, 9nat);
        lemma_pow10_le((d - p) as nat, 13nat);
        assert(pow10(9nat) == 1000000000);
        assert(pow10(13nat) == 10000000000000);
        assert((ipart as int) * (p10 as int) <= 10000000000000000000000int) by (nonlinear_arith)
            requires
                0 <= ipart as int <= 10000000000000,
                0 < p10 as int <= 1000000000,
        ;
    }
    let scaled: i128 = (ipart as i128) * (p10 as i128) + (fpart as i128);
    let num: i128 = scaled * (FX_ONE as i128);
    let q: i128 = crate::fx::tdiv128(num, p10 as i128);
    let mag: i64 = crate::fx::sat128(if neg {
        -q
    } else {
        q
    });
    Some(mag)
}

/// Parse the 1-based index in `[a, b)`, as [`parse_index_at`] states.
fn parse_index_exec(bytes: &[u8], a: usize, b: usize) -> (r: Option<u64>)
    requires
        a <= b <= bytes@.len(),
    ensures
        match r {
            Some(v) => parse_index_at(bytes@, a as int, b as int) == Some(v as int),
            None => parse_index_at(bytes@, a as int, b as int) is None,
        },
{
    if b - a == 0 || b - a > 13 {
        return None;
    }
    match digits_exec(bytes, a, b) {
        Some(v) => Some(v),
        None => None,
    }
}

/// The value of the digit run in `[a, b)`, or nothing when a byte is no
/// digit; at most thirteen digits.
fn digits_exec(bytes: &[u8], a: usize, b: usize) -> (r: Option<u64>)
    requires
        a <= b <= bytes@.len(),
        b - a <= 13,
    ensures
        match r {
            Some(v) => all_digits(bytes@, a as int, b as int) && v as int == digits_val(
                bytes@,
                a as int,
                b as int,
            ),
            None => !all_digits(bytes@, a as int, b as int),
        },
{
    let ghost s = bytes@;
    let mut val: u64 = 0;
    let mut k: usize = a;
    while k < b
        invariant
            a <= k <= b <= s.len(),
            b - a <= 13,
            s == bytes@,
            all_digits(s, a as int, k as int),
            val as int == digits_val(s, a as int, k as int),
        decreases b - k,
    {
        let c = bytes[k];
        if c < 48 || c > 57 {
            return None;
        }
        proof {
            lemma_digits_val_bound(s, a as int, k as int);
            lemma_pow10_le((k - a) as nat, 12nat);
            reveal_with_fuel(pow10, 15);
        }
        val = val * 10 + ((c - 48) as u64);
        k += 1;
    }
    Some(val)
}

/// Ten to the `k`, executable.
fn pow10_exec(k: usize) -> (r: u64)
    requires
        k <= 9,
    ensures
        r as int == pow10(k as nat),
{
    let mut r: u64 = 1;
    let mut t: usize = 0;
    while t < k
        invariant
            t <= k <= 9,
            r as int == pow10(t as nat),
        decreases k - t,
    {
        proof {
            lemma_pow10_le(t as nat, 8nat);
            reveal_with_fuel(pow10, 15);
        }
        r = r * 10;
        t += 1;
    }
    r
}

/// Apply one line `[i, j)` to the vertex and triangle lists, as
/// [`parse_line_at`] states.
fn parse_one_line(
    bytes: &[u8],
    i: usize,
    j: usize,
    verts: &mut Vec<Vec3>,
    tris: &mut Vec<Triangle>,
) -> (r: Result<(), MeshError>)
    requires
        i <= j <= bytes@.len(),
    ensures
        match r {
            Ok(u) => parse_line_at(bytes@, i as int, j as int, old(verts)@, old(tris)@) == Ok::<
                _,
                MeshError,
            >((final(verts)@, final(tris)@)),
            Err(e) => parse_line_at(bytes@, i as int, j as int, old(verts)@, old(tris)@) == Err::<
                (Seq<Vec3>, Seq<Triangle>),
                _,
            >(e) && final(verts)@ == old(verts)@ && final(tris)@ == old(tris)@,
        },
{
    let ghost s = bytes@;
    proof {
        lemma_scan_to(s, i as int, j as int, 32);
    }
    let e0 = scan_byte(bytes, i, j, 32);
    let is_v = e0 - i == 1 && bytes[i] == 118;
    let is_f = e0 - i == 1 && bytes[i] == 102;
    if is_v {
        if e0 >= j {
            return Err(MeshError::MalformedNumber);
        }
        proof {
            lemma_scan_to(s, e0 + 1, j as int, 32);
        }
        let e1 = scan_byte(bytes, e0 + 1, j, 32);
        let x = match parse_dec_exec(bytes, e0 + 1, e1) {
            Some(v) => v,
            None => {
                return Err(MeshError::MalformedNumber);
            },
        };
        if e1 >= j {
            return Err(MeshError::MalformedNumber);
        }
        proof {
            lemma_scan_to(s, e1 + 1, j as int, 32);
        }
        let e2 = scan_byte(bytes, e1 + 1, j, 32);
        let y = match parse_dec_exec(bytes, e1 + 1, e2) {
            Some(v) => v,
            None => {
                return Err(MeshError::MalformedNumber);
            },
        };
        if e2 >= j {
            return Err(MeshError::MalformedNumber);
        }
        proof {
            lemma_scan_to(s, e2 + 1, j as int, 32);
        }
        let e3 = scan_byte(bytes, e2 + 1, j, 32);
        let z = match parse_dec_exec(bytes, e2 + 1, e3) {
            Some(v) => v,
            None => {
                return Err(MeshError::MalformedNumber);
            },
        };
        verts.push(Vec3::new(crate::fx::Fx::from_raw(x), crate::fx::Fx::from_raw(y), crate::fx::Fx::from_raw(z)));
        Ok(())
    } else if is_f {
        if e0 >= j {
            return Err(MeshError::MalformedNumber);
        }
        proof {
            lemma_scan_to(s, e0 + 1, j as int, 32);
        }
        let e1 = scan_byte(bytes, e0 + 1, j, 32);
        let i1 = match parse_index_exec(bytes, e0 + 1, e1) {
            Some(v) => v,
            None => {
                return Err(MeshError::MalformedNumber);
            },
        };
        if i1 < 1 || i1 > verts.len() as u64 {
            return Err(MeshError::IndexOutOfRange);
        }
        if e1 >= j {
            return Err(MeshError::MalformedNumber);
        }
        proof {
            lemma_scan_to(s, e1 + 1, j as int, 32);
        }
        let e2 = scan_byte(bytes, e1 + 1, j, 32);
        let i2 = match parse_index_exec(bytes, e1 + 1, e2) {
            Some(v) => v,
            None => {
                return Err(MeshError::MalformedNumber);
            },
        };
        if i2 < 1 || i2 > verts.len() as u64 {
            return Err(MeshError::IndexOutOfRange);
        }
        if e2 >= j {
            return Err(MeshError::MalformedNumber);
        }
        proof {
            lemma_scan_to(s, e2 + 1, j as int, 32);
        }
        let e3 = scan_byte(bytes, e2 + 1, j, 32);
        let i3 = match parse_index_exec(bytes, e2 + 1, e3) {
            Some(v) => v,
            None => {
                return Err(MeshError::MalformedNumber);
            },
        };
        if i3 < 1 || i3 > verts.len() as u64 {
            return Err(MeshError::IndexOutOfRange);
        }
        let p1 = verts[(i1 - 1) as usize];
        let p2 = verts[(i2 - 1) as usize];
        let p3 = verts[(i3 - 1) as usize];
        tris.push(Triangle::new(p1, p2, p3));
        Ok(())
    } else {
        Ok(())
    }
}

} // verus!
