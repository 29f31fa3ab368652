//! Annex-B bitstream handling: splitting a byte stream into NAL units,
//! extracting the H.264/H.265 parameter sets a container needs, and the
//! length-prefixed framing used inside containers.
//!
//! Reference: ITU-T H.264 Annex B frames NAL units with the start-code
//! prefixes `00 00 01` and `00 00 00 01`; a unit runs to the next start
//! code or the end of the stream.

use vstd::prelude::*;

use crate::error::CliError;

verus! {

/// NAL unit type of an H.264 sequence parameter set.
pub const NAL_TYPE_SPS_H264: u8 = 7;

/// NAL unit type of an H.264 picture parameter set.
pub const NAL_TYPE_PPS_H264: u8 = 8;

/// NAL unit type of an H.265 sequence parameter set.
pub const NAL_TYPE_SPS_H265: u8 = 33;

/// NAL unit type of an H.265 picture parameter set.
pub const NAL_TYPE_PPS_H265: u8 = 34;

/// The length of the start code at index `i`: four bytes for
/// `00 00 00 01`, three for `00 00 01`, none otherwise.
pub open spec fn spec_start_code_at(s: Seq<u8>, i: int) -> Option<int> {
    if i + 3 < s.len() && s[i] == 0 && s[i + 1] == 0 && s[i + 2] == 0 && s[i + 3] == 1 {
        Some(4)
    } else if i + 2 < s.len() && s[i] == 0 && s[i + 1] == 0 && s[i + 2] == 1 {
        Some(3)
    } else {
        None
    }
}

/// The position and length of the first start code at or after `i`.
pub open spec fn spec_next_start(s: Seq<u8>, i: int) -> Option<(int, int)>
    decreases s.len() - i,
{
    if i < 0 || i >= s.len() {
        None
    } else {
        match spec_start_code_at(s, i) {
            Some(l) => Some((i, l)),
            None => spec_next_start(s, i + 1),
        }
    }
}

proof fn lemma_next_start_bounds(s: Seq<u8>, i: int)
    ensures
        spec_next_start(s, i) matches Some(pl) ==> i <= pl.0 && pl.0 + pl.1 <= s.len() && 3
            <= pl.1,
    decreases s.len() - i,
{
    if 0 <= i < s.len() {
        if spec_start_code_at(s, i) is None {
            lemma_next_start_bounds(s, i + 1);
        }
    }
}

/// The NAL units of the stream from index `i` on: the bytes between each
/// start code and the next one (or the stream's end), with empty units
/// dropped.
pub open spec fn spec_nal_units(s: Seq<u8>, i: int) -> Seq<Seq<u8>>
    decreases s.len() - i, 1int
        via spec_nal_units_decreases
{
    match spec_next_start(s, i) {
        None => Seq::empty(),
        Some(pl) => {
            let start = pl.0 + pl.1;
            match spec_next_start(s, start) {
                None => if start < s.len() {
                    seq![s.subrange(start, s.len() as int)]
                } else {
                    Seq::empty()
                },
                Some(ql) => if start < ql.0 {
                    seq![s.subrange(start, ql.0)] + spec_nal_units(s, ql.0)
                } else {
                    spec_nal_units(s, ql.0)
                },
            }
        },
    }
}

#[via_fn]
proof fn spec_nal_units_decreases(s: Seq<u8>, i: int) {
    lemma_next_start_bounds(s, i);
    match spec_next_start(s, i) {
        Some(pl) => {
            lemma_next_start_bounds(s, pl.0 + pl.1);
        },
        None => {},
    }
}

/// Skipping a non-start-code byte does not change where the next start
/// code lies, nor the units parsed from there.
proof fn lemma_nal_units_skip(s: Seq<u8>, i: int)
    requires
        0 <= i < s.len(),
        spec_start_code_at(s, i) is None,
    ensures
        spec_next_start(s, i) == spec_next_start(s, i + 1),
        spec_nal_units(s, i) == spec_nal_units(s, i + 1),
{
}

/// Detects an Annex-B start code at `pos`: the length of the start code,
/// or nothing.
pub fn detect_start_code(data: &[u8], pos: usize) -> (r: Option<usize>)
    ensures
        r is Some <==> spec_start_code_at(data@, pos as int) is Some,
        r matches Some(l) ==> Some(l as int) == spec_start_code_at(data@, pos as int),
{
    let n = data.len();
    if n > 3 && pos < n - 3 && data[pos] == 0 && data[pos + 1] == 0 && data[pos + 2] == 0
        && data[pos + 3] == 1 {
        Some(4)
    } else if n > 2 && pos < n - 2 && data[pos] == 0 && data[pos + 1] == 0 && data[pos + 2] == 1 {
        Some(3)
    } else {
        None
    }
}

/// Splits an Annex-B stream into its NAL units, without the start codes.
/// Bytes before the first start code are ignored; a unit runs to the next
/// start code or the end of the stream; consecutive start codes yield no
/// empty unit.
#[verifier::loop_isolation(false)]
pub fn parse_nal_units<'a>(data: &'a [u8]) -> (r: Result<Vec<&'a [u8]>, CliError>)
    ensures
        r matches Ok(nals),
        r matches Ok(nals) ==> nals@.map_values(|sl: &[u8]| sl@) =~~= spec_nal_units(data@, 0),
{
    let ghost s = data@;
    let n = data.len();
    let mut out: Vec<&'a [u8]> = Vec::new();
    let mut i: usize = 0;
    while i < n
        invariant
            0 <= i <= n,
            out@.map_values(|sl: &[u8]| sl@) + spec_nal_units(s, i as int) =~~= spec_nal_units(
                s,
                0,
            ),
        decreases n - i,
    {
        let sc = detect_start_code(data, i);
        match sc {
            None => {
                proof {
                    lemma_nal_units_skip(s, i as int);
                }
                i = i + 1;
            },
            Some(l) => {
                proof {
                    lemma_next_start_bounds(s, i as int);
                }
                let start = i + l;
                let mut j = start;
                while j < n && detect_start_code(data, j).is_none()
                    invariant
                        start <= j <= n,
                        forall|k: int|
                            start <= k < j ==> spec_start_code_at(s, k) is None,
                    decreases n - j,
                {
                    j = j + 1;
                }
                proof {
                    lemma_next_start_from(s, start as int, j as int);
                }
                if start < j {
                    let nal = vstd::slice::slice_subrange(data, start, j);
                    out.push(nal);
                    proof {
                        assert(out@.map_values(|sl: &[u8]| sl@) =~~= old_map_push(
                            out@,
                            s.subrange(start as int, j as int),
                        ));
                    }
                }
                proof {
                    if j < n {
                        assert(spec_next_start(s, j as int) matches Some(ql) && ql.0 == j);
                        assert(spec_next_start(s, start as int) == spec_next_start(s, j as int));
                    } else {
                        assert(spec_next_start(s, start as int) is None);
                        assert(spec_nal_units(s, j as int) =~~= Seq::<Seq<u8>>::empty());
                    }
                }
                i = j;
            },
        }
    }
    proof {
        assert(spec_nal_units(s, n as int) =~~= Seq::<Seq<u8>>::empty());
    }
    Ok(out)
}

/// The mapped view of a descriptor vector with its last element restored.
spec fn old_map_push(v: Seq<&[u8]>, last: Seq<u8>) -> Seq<Seq<u8>>
    recommends
        v.len() > 0,
{
    v.subrange(0, v.len() - 1).map_values(|sl: &[u8]| sl@).push(last)
}

/// A start code found by scanning is the next one: if nothing matches
/// before `j`, searching from `i` equals searching from `j`.
proof fn lemma_next_start_from(s: Seq<u8>, i: int, j: int)
    requires
        0 <= i <= j <= s.len(),
        forall|k: int| i <= k < j ==> spec_start_code_at(s, k) is None,
    ensures
        spec_next_start(s, i) == spec_next_start(s, j),
    decreases j - i,
{
    if i < j {
        lemma_next_start_from(s, i + 1, j);
    }
}

/// Sequence and picture parameter sets pulled out of a bitstream.
#[derive(Debug, Clone)]
pub struct ParameterSets {
    /// The sequence parameter set, without its start code.
    pub sps: Vec<u8>,
    /// The picture parameter set, without its start code.
    pub pps: Vec<u8>,
}

/// The NAL unit type of a unit's first byte: the low five bits for H.264,
/// bits one through six for H.265.
pub open spec fn spec_nal_type(first: u8, h265: bool) -> u8 {
    if h265 {
        ((first >> 1) & 0x3f) as u8
    } else {
        (first & 0x1f) as u8
    }
}

/// The parameter sets found by walking the units in order, keeping the
/// most recent of each kind, and stopping once both are present.
pub open spec fn spec_extract(
    nals: Seq<Seq<u8>>,
    i: int,
    sps: Option<Seq<u8>>,
    pps: Option<Seq<u8>>,
    h265: bool,
) -> (Option<Seq<u8>>, Option<Seq<u8>>)
    decreases nals.len() - i,
{
    if i < 0 || i >= nals.len() || (sps is Some && pps is Some) {
        (sps, pps)
    } else {
        let nal = nals[i];
        if nal.len() == 0 {
            spec_extract(nals, i + 1, sps, pps, h265)
        } else {
            let ty = spec_nal_type(nal[0], h265);
            let sps_t = if h265 {
                NAL_TYPE_SPS_H265
            } else {
                NAL_TYPE_SPS_H264
            };
            let pps_t = if h265 {
                NAL_TYPE_PPS_H265
            } else {
                NAL_TYPE_PPS_H264
            };
            if ty == sps_t {
                spec_extract(nals, i + 1, Some(nal), pps, h265)
            } else if ty == pps_t {
                spec_extract(nals, i + 1, sps, Some(nal), h265)
            } else {
                spec_extract(nals, i + 1, sps, pps, h265)
            }
        }
    }
}

#[verifier::loop_isolation(false)]
fn extract_parameter_sets(data: &[u8], h265: bool) -> (r: Result<ParameterSets, CliError>)
    ensures
        ({
            let outcome = spec_extract(spec_nal_units(data@, 0), 0, None, None, h265);
            &&& (r is Ok <==> (outcome.0 is Some && outcome.1 is Some))
            &&& (r matches Ok(p) ==> Some(p.sps@) == outcome.0 && Some(p.pps@) == outcome.1)
            &&& (r is Err ==> r->Err_0 is General)
        }),
{
    let nals = match parse_nal_units(data) {
        Ok(v) => v,
        Err(e) => {
            return Err(e);
        },
    };
    let ghost nv = nals@.map_values(|sl: &[u8]| sl@);
    let n = nals.len();
    let mut sps: Option<&[u8]> = None;
    let mut pps: Option<&[u8]> = None;
    let mut i: usize = 0;
    while i < n && !(sps.is_some() && pps.is_some())
        invariant
            0 <= i <= n,
            n == nals@.len(),
            nv == nals@.map_values(|sl: &[u8]| sl@),
            sps matches Some(x) ==> nv.contains(x@),
            spec_extract(nv, 0, None, None, h265) == spec_extract(
                nv,
                i as int,
                match sps {
                    Some(x) => Some(x@),
                    None => None,
                },
                match pps {
                    Some(x) => Some(x@),
                    None => None,
                },
                h265,
            ),
        decreases n - i,
    {
        let nal = nals[i];
        proof {
            assert(nv[i as int] == nal@);
        }
        if nal.len() > 0 {
            let ty: u8 = if h265 {
                (nal[0] >> 1) & 0x3f
            } else {
                nal[0] & 0x1f
            };
            let sps_t: u8 = if h265 {
                NAL_TYPE_SPS_H265
            } else {
                NAL_TYPE_SPS_H264
            };
            let pps_t: u8 = if h265 {
                NAL_TYPE_PPS_H265
            } else {
                NAL_TYPE_PPS_H264
            };
            if ty == sps_t {
                sps = Some(nal);
            } else if ty == pps_t {
                pps = Some(nal);
            }
        }
        i = i + 1;
    }
    match (sps, pps) {
        (Some(s), Some(p)) => {
            proof {
                assert(spec_extract(
                    nv,
                    i as int,
                    Some(s@),
                    Some(p@),
                    h265,
                ) == (Some(s@), Some(p@)));
            }
            Ok(
                ParameterSets {
                    sps: vstd::slice::slice_to_vec(s),
                    pps: vstd::slice::slice_to_vec(p),
                },
            )
        },
        _ => {
            proof {
                lemma_extract_stuck(nv, i as int, match sps {
                    Some(x) => Some(x@),
                    None => None,
                }, match pps {
                    Some(x) => Some(x@),
                    None => None,
                }, h265);
            }
            Err(CliError::General("Failed to find parameter sets in stream".to_owned()))
        },
    }
}

/// Walking past the end with a kind still missing leaves it missing.
proof fn lemma_extract_stuck(
    nals: Seq<Seq<u8>>,
    i: int,
    sps: Option<Seq<u8>>,
    pps: Option<Seq<u8>>,
    h265: bool,
)
    requires
        i >= nals.len() || !(sps is Some && pps is Some),
        i >= nals.len(),
    ensures
        spec_extract(nals, i, sps, pps, h265) == (sps, pps),
{
}

/// Extracts the sequence and picture parameter sets from an H.264 Annex-B
/// stream; fails when either is absent.
pub fn extract_parameter_sets_h264(data: &[u8]) -> (r: Result<ParameterSets, CliError>)
    ensures
        ({
            let outcome = spec_extract(spec_nal_units(data@, 0), 0, None, None, false);
            &&& (r is Ok <==> (outcome.0 is Some && outcome.1 is Some))
            &&& (r matches Ok(p) ==> Some(p.sps@) == outcome.0 && Some(p.pps@) == outcome.1)
            &&& (r is Err ==> r->Err_0 is General)
        }),
{
    extract_parameter_sets(data, false)
}

/// Extracts the sequence and picture parameter sets from an H.265 Annex-B
/// stream; fails when either is absent.
pub fn extract_parameter_sets_h265(data: &[u8]) -> (r: Result<ParameterSets, CliError>)
    ensures
        ({
            let outcome = spec_extract(spec_nal_units(data@, 0), 0, None, None, true);
            &&& (r is Ok <==> (outcome.0 is Some && outcome.1 is Some))
            &&& (r matches Ok(p) ==> Some(p.sps@) == outcome.0 && Some(p.pps@) == outcome.1)
            &&& (r is Err ==> r->Err_0 is General)
        }),
{
    extract_parameter_sets(data, true)
}

/// The big-endian four-byte encoding of a length.
pub open spec fn spec_be32(n: u32) -> Seq<u8> {
    seq![((n >> 24) & 0xff) as u8, ((n >> 16) & 0xff) as u8, ((n >> 8) & 0xff) as u8, (n
        & 0xff) as u8]
}

/// Reframes one NAL unit from Annex-B to the length-prefixed form used in
/// containers: a four-byte big-endian length followed by the unit's bytes.
#[verifier::loop_isolation(false)]
pub fn nal_to_avcc(nal: &[u8]) -> (r: Vec<u8>)
    requires
        nal@.len() <= 0xffffffff,
    ensures
        r@ =~= spec_be32(nal@.len() as u32) + nal@,
{
    let n = nal.len() as u32;
    let mut out: Vec<u8> = Vec::new();
    out.push(((n >> 24) & 0xff) as u8);
    out.push(((n >> 16) & 0xff) as u8);
    out.push(((n >> 8) & 0xff) as u8);
    out.push((n & 0xff) as u8);
    let mut i: usize = 0;
    while i < nal.len()
        invariant
            i <= nal@.len(),
            out@ =~= spec_be32(nal@.len() as u32) + nal@.subrange(0, i as int),
        decreases nal@.len() - i,
    {
        out.push(nal[i]);
        proof {
            assert(out@ =~= spec_be32(nal@.len() as u32) + nal@.subrange(0, i + 1));
        }
        i = i + 1;
    }
    proof {
        assert(nal@.subrange(0, nal@.len() as int) =~= nal@);
    }
    out
}

} // verus!
