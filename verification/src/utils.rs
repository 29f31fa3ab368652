//! Command-line parsing helpers: resolutions, format codes, bitrates, codec
//! aliases and frame-size estimates, with exact byte-level specifications.

use vstd::prelude::*;

use crate::decoder;
use crate::decoder::Decoder;
use crate::encoder;
use crate::encoder::{Encoder, VSLEncoderProfileEnum};
use crate::error::CliError;
use crate::fourcc::{fourcc_bytes, fourcc_value};
use vstd::string::StringSliceAdditionalSpecFns;

verus! {

/// Whether a byte is an ASCII decimal digit.
pub open spec fn is_digit(b: u8) -> bool {
    0x30 <= b && b <= 0x39
}

/// Whether every byte is an ASCII decimal digit.
pub open spec fn all_digits(s: Seq<u8>) -> bool {
    forall|i: int| 0 <= i < s.len() ==> is_digit(#[trigger] s[i])
}

/// The value of one digit byte; non-digits count as zero.
pub open spec fn digit_val(b: u8) -> nat {
    if is_digit(b) {
        (b - 0x30) as nat
    } else {
        0
    }
}

/// The decimal value of a digit string.
pub open spec fn dec_val(s: Seq<u8>) -> nat
    decreases s.len(),
{
    if s.len() == 0 {
        0
    } else {
        dec_val(s.drop_last()) * 10 + digit_val(s.last())
    }
}

/// A prefix of a digit string never has a larger value than a longer one.
proof fn lemma_dec_val_prefix(s: Seq<u8>, i: int, j: int)
    requires
        0 <= i <= j <= s.len(),
    ensures
        dec_val(s.subrange(0, i)) <= dec_val(s.subrange(0, j)),
    decreases j - i,
{
    if i < j {
        lemma_dec_val_prefix(s, i, j - 1);
        let a = s.subrange(0, j - 1);
        let b = s.subrange(0, j);
        assert(b.drop_last() =~= a);
        assert(dec_val(b) == dec_val(a) * 10 + digit_val(b.last()));
    }
}

/// The byte string parsed as an unsigned 32-bit decimal number: defined
/// when it is non-empty, all digits, and in range.
pub open spec fn spec_parse_u32(s: Seq<u8>) -> Option<u32> {
    if s.len() > 0 && all_digits(s) && dec_val(s) <= 0xffffffff {
        Some(dec_val(s) as u32)
    } else {
        None
    }
}

/// Parses `b[lo..hi]` as an unsigned 32-bit decimal number.
#[verifier::loop_isolation(false)]
pub fn parse_u32_digits(b: &[u8], lo: usize, hi: usize) -> (r: Option<u32>)
    requires
        lo <= hi <= b@.len(),
    ensures
        r == spec_parse_u32(b@.subrange(lo as int, hi as int)),
{
    let ghost s = b@.subrange(lo as int, hi as int);
    if lo == hi {
        return None;
    }
    let mut acc: u64 = 0;
    let mut i: usize = lo;
    while i < hi
        invariant
            lo <= i <= hi <= b@.len(),
            s == b@.subrange(lo as int, hi as int),
            acc <= 0xffffffff,
            all_digits(s.subrange(0, i - lo)),
            acc == dec_val(s.subrange(0, i - lo)),
        decreases hi - i,
    {
        let ghost pre = s.subrange(0, i - lo);
        let ghost cur = s.subrange(0, i + 1 - lo);
        let c = b[i];
        proof {
            assert(cur.drop_last() =~= pre);
            assert(cur.last() == c);
        }
        if c < 0x30 || c > 0x39 {
            proof {
                assert(s[i - lo] == c);
                assert(!all_digits(s));
            }
            return None;
        }
        acc = acc * 10 + ((c - 0x30) as u64);
        proof {
            assert(dec_val(cur) == dec_val(pre) * 10 + digit_val(c));
            assert forall|j: int| 0 <= j < cur.len() implies is_digit(#[trigger] cur[j]) by {
                if j < pre.len() {
                    assert(pre[j] == cur[j]);
                }
            }
        }
        if acc > 0xffffffff {
            proof {
                lemma_dec_val_prefix(s, i + 1 - lo, s.len() as int);
                assert(s.subrange(0, s.len() as int) =~= s);
                assert(dec_val(s) >= dec_val(cur));
            }
            return None;
        }
        i = i + 1;
    }
    proof {
        assert(s.subrange(0, (hi - lo) as int) =~= s);
    }
    Some(acc as u32)
}

/// The first index at or after `i` holding byte `b`, if any.
pub open spec fn find_byte(s: Seq<u8>, b: u8, i: int) -> Option<int>
    decreases s.len() - i,
{
    if i < 0 || i >= s.len() {
        None
    } else if s[i] == b {
        Some(i)
    } else {
        find_byte(s, b, i + 1)
    }
}

proof fn lemma_find_byte_from(s: Seq<u8>, b: u8, i: int)
    requires
        0 <= i <= s.len(),
        forall|j: int| 0 <= j < i ==> s[j] != b,
    ensures
        find_byte(s, b, 0) == find_byte(s, b, i),
    decreases i,
{
    if i > 0 {
        lemma_find_byte_from(s, b, i - 1);
    }
}

#[verifier::loop_isolation(false)]
/// When a byte is found, the index is in range, holds the byte, and nothing
/// before it does.
proof fn lemma_find_byte_found(s: Seq<u8>, b: u8, i: int)
    requires
        0 <= i,
    ensures
        find_byte(s, b, i) matches Some(k) ==> i <= k < s.len() && s[k] == b,
    decreases s.len() - i,
{
    if i < s.len() && s[i] != b {
        lemma_find_byte_found(s, b, i + 1);
    }
}

fn find_byte_exec(b: &[u8], target: u8) -> (r: Option<usize>)
    ensures
        r is Some <==> find_byte(b@, target, 0) is Some,
        r matches Some(k) ==> Some(k as int) == find_byte(b@, target, 0),
{
    let n = b.len();
    let mut i: usize = 0;
    while i < n
        invariant
            n == b@.len(),
            i <= n,
            forall|j: int| 0 <= j < i ==> b@[j] != target,
        decreases n - i,
    {
        if b[i] == target {
            proof {
                lemma_find_byte_from(b@, target, i as int);
            }
            return Some(i);
        }
        i = i + 1;
    }
    proof {
        lemma_find_byte_from(b@, target, n as int);
    }
    None
}

/// A width and height parsed from a byte string around the separator at
/// index `k`: both sides must be positive decimal numbers that fit the
/// signed accessors.
pub open spec fn spec_dims_at(s: Seq<u8>, k: int) -> Option<(i32, i32)> {
    let w = spec_parse_u32(s.subrange(0, k));
    let h = spec_parse_u32(s.subrange(k + 1, s.len() as int));
    match (w, h) {
        (Some(wv), Some(hv)) => if 1 <= wv <= 0x7fffffff && 1 <= hv <= 0x7fffffff {
            Some((wv as i32, hv as i32))
        } else {
            None
        },
        _ => None,
    }
}

/// A resolution parsed from text: the digits around the first `x`, or, when
/// no `x` occurs, around the first `*`.
pub open spec fn spec_parse_resolution(s: Seq<u8>) -> Option<(i32, i32)> {
    match find_byte(s, 0x78, 0) {
        Some(k) => spec_dims_at(s, k),
        None => match find_byte(s, 0x2a, 0) {
            Some(k) => spec_dims_at(s, k),
            None => None,
        },
    }
}

/// Parses a resolution of the form `WxH` or `W*H`, with positive decimal
/// dimensions.
pub fn parse_resolution(s: &str) -> (r: Result<(i32, i32), CliError>)
    ensures
        r is Ok <==> spec_parse_resolution(s.spec_bytes()) is Some,
        r matches Ok(d) ==> Some(d) == spec_parse_resolution(s.spec_bytes()),
        r is Err ==> r->Err_0 is InvalidArgs,
{
    let b = s.as_bytes();
    let sep: Option<usize> = match find_byte_exec(b, 0x78) {
        Some(k) => Some(k),
        None => find_byte_exec(b, 0x2a),
    };
    match sep {
        Some(k) => {
            proof {
                lemma_find_byte_found(b@, 0x78, 0);
                lemma_find_byte_found(b@, 0x2a, 0);
            }
            let blen = b.len();
            let w = parse_u32_digits(b, 0, k);
            let h = parse_u32_digits(b, k + 1, blen);
            match (w, h) {
                (Some(wv), Some(hv)) => {
                    if 1 <= wv && wv <= 0x7fffffff && 1 <= hv && hv <= 0x7fffffff {
                        Ok((wv as i32, hv as i32))
                    } else {
                        Err(
                            CliError::InvalidArgs(
                                "Resolution dimensions must be positive".to_owned(),
                            ),
                        )
                    }
                },
                _ => Err(CliError::InvalidArgs("Invalid resolution".to_owned())),
            }
        },
        None => Err(
            CliError::InvalidArgs("Invalid resolution format (expected WxH or W*H)".to_owned()),
        ),
    }
}

/// Converts a four-character format string to its little-endian integer
/// code; any other byte length is rejected.
pub fn fourcc_from_str(s: &str) -> (r: Result<u32, CliError>)
    ensures
        r is Ok <==> s.spec_bytes().len() == 4,
        r matches Ok(v) ==> v == fourcc_value(s.spec_bytes()),
        r is Err ==> r->Err_0 is InvalidArgs,
{
    let b = s.as_bytes();
    if b.len() != 4 {
        return Err(CliError::InvalidArgs("FOURCC must be exactly 4 characters".to_owned()));
    }
    Ok((b[0] as u32) | ((b[1] as u32) << 8) | ((b[2] as u32) << 16) | ((b[3] as u32) << 24))
}

/// Renders an integer format code as its four characters, each byte taken
/// as the character with the same value.
pub fn fourcc_to_str(fourcc: u32) -> (r: String)
    ensures
        r@.len() == 4,
        forall|i: int| 0 <= i < 4 ==> r@[i] == (#[trigger] fourcc_bytes(fourcc)[i]) as char,
{
    let f = crate::fourcc::FourCC::from_u32(fourcc);
    f.display()
}

/// The ASCII-lowercased form of one byte.
pub open spec fn lower_byte(b: u8) -> u8 {
    if 0x41 <= b && b <= 0x5a {
        (b + 0x20) as u8
    } else {
        b
    }
}

/// The ASCII-lowercased form of a byte string.
pub open spec fn lower_bytes(s: Seq<u8>) -> Seq<u8> {
    s.map_values(|b: u8| lower_byte(b))
}

#[verifier::loop_isolation(false)]
fn lower_exec(b: &[u8]) -> (r: Vec<u8>)
    ensures
        r@ =~= lower_bytes(b@),
{
    let n = b.len();
    let mut out: Vec<u8> = Vec::new();
    let mut i: usize = 0;
    while i < n
        invariant
            n == b@.len(),
            i <= n,
            out@.len() == i,
            forall|j: int| 0 <= j < i ==> out@[j] == lower_byte(#[trigger] b@[j]),
        decreases n - i,
    {
        let c = b[i];
        if 0x41 <= c && c <= 0x5a {
            out.push(c + 0x20);
        } else {
            out.push(c);
        }
        i = i + 1;
    }
    out
}

/// Whether a byte is ASCII whitespace.
pub open spec fn is_ws(b: u8) -> bool {
    b == 0x20 || (0x09 <= b && b <= 0x0d)
}

/// The first index at or after `i` holding a non-whitespace byte.
pub open spec fn skip_ws(s: Seq<u8>, i: int) -> int
    decreases s.len() - i,
{
    if i < 0 || i >= s.len() {
        i
    } else if is_ws(s[i]) {
        skip_ws(s, i + 1)
    } else {
        i
    }
}

/// One past the last non-whitespace byte before `i`.
pub open spec fn rskip_ws(s: Seq<u8>, i: int) -> int
    decreases i,
{
    if i <= 0 {
        0
    } else if is_ws(s[i - 1]) {
        rskip_ws(s, i - 1)
    } else {
        i
    }
}

/// The byte string without leading and trailing ASCII whitespace.
pub open spec fn trimmed(s: Seq<u8>) -> Seq<u8> {
    let lo = skip_ws(s, 0);
    let hi = rskip_ws(s, s.len() as int);
    if lo >= hi {
        Seq::empty()
    } else {
        s.subrange(lo, hi)
    }
}

proof fn lemma_skip_ws_from(s: Seq<u8>, i: int)
    requires
        0 <= i <= s.len(),
        forall|j: int| 0 <= j < i ==> is_ws(s[j]),
    ensures
        skip_ws(s, 0) == skip_ws(s, i),
    decreases i,
{
    if i > 0 {
        lemma_skip_ws_from(s, i - 1);
    }
}

proof fn lemma_rskip_le(s: Seq<u8>, i: int)
    requires
        0 <= i,
    ensures
        0 <= rskip_ws(s, i) <= i,
    decreases i,
{
    if i > 0 && is_ws(s[i - 1]) {
        lemma_rskip_le(s, i - 1);
    }
}

proof fn lemma_rskip_ws_from(s: Seq<u8>, i: int)
    requires
        0 <= i <= s.len(),
        forall|j: int| i <= j < s.len() ==> is_ws(s[j]),
    ensures
        rskip_ws(s, s.len() as int) == rskip_ws(s, i),
    decreases s.len() - i,
{
    if i < s.len() {
        lemma_rskip_ws_from(s, i + 1);
    }
}

#[verifier::loop_isolation(false)]
fn trim_bounds(b: &[u8], from: usize, to: usize) -> (r: (usize, usize))
    requires
        from <= to <= b@.len(),
    ensures
        from <= r.0 && r.0 <= r.1 && r.1 <= to,
        ({
            let s = b@.subrange(from as int, to as int);
            trimmed(s) == b@.subrange(r.0 as int, r.1 as int)
        }),
{
    let ghost s = b@.subrange(from as int, to as int);
    let mut lo: usize = from;
    while lo < to && is_ws_exec(b[lo])
        invariant
            from <= lo <= to <= b@.len(),
            forall|j: int| 0 <= j < lo - from ==> is_ws(#[trigger] s[j]),
        decreases to - lo,
    {
        proof {
            assert(s[lo - from] == b@[lo as int]);
        }
        lo = lo + 1;
    }
    proof {
        lemma_skip_ws_from(s, lo - from);
        if lo < to {
            assert(s[lo - from] == b@[lo as int]);
            assert(!is_ws(s[lo - from]));
        }
        assert(skip_ws(s, 0) == lo - from);
    }
    let mut hi: usize = to;
    while hi > lo && is_ws_exec(b[hi - 1])
        invariant
            from <= lo <= hi <= to <= b@.len(),
            forall|j: int| hi - from <= j < s.len() ==> is_ws(#[trigger] s[j]),
        decreases hi,
    {
        proof {
            assert(s[hi - 1 - from] == b@[hi - 1]);
        }
        hi = hi - 1;
    }
    proof {
        lemma_rskip_ws_from(s, hi - from);
        if hi > lo {
            assert(s[hi - 1 - from] == b@[hi - 1]);
            assert(!is_ws(s[hi - 1 - from]));
            assert(rskip_ws(s, hi - from) == hi - from);
            assert(trimmed(s) =~= b@.subrange(lo as int, hi as int));
        } else {
            assert(lo == to && hi == to);
            assert(skip_ws(s, 0) == s.len());
            lemma_rskip_le(s, s.len() as int);
            assert(trimmed(s) =~= Seq::<u8>::empty());
            assert(b@.subrange(lo as int, hi as int) =~= Seq::<u8>::empty());
        }
    }
    (lo, hi)
}

fn is_ws_exec(b: u8) -> (r: bool)
    ensures
        r == is_ws(b),
{
    b == 0x20 || (0x09 <= b && b <= 0x0d)
}

/// The lowercase suffix `kbps`.
pub open spec fn kbps_suffix() -> Seq<u8> {
    seq![0x6bu8, 0x62u8, 0x70u8, 0x73u8]
}

/// The lowercase suffix `mbps`.
pub open spec fn mbps_suffix() -> Seq<u8> {
    seq![0x6du8, 0x62u8, 0x70u8, 0x73u8]
}

/// A bitrate parsed from text, in kbps: a number with an `Mbps` suffix
/// counts a thousandfold, a number with a `kbps` suffix or none counts as
/// is; suffixes are case-insensitive, the number before a suffix may be
/// padded with whitespace, and a value past the counter's width is
/// rejected.
pub open spec fn spec_parse_bitrate(s: Seq<u8>) -> Option<u32> {
    let l = lower_bytes(s);
    if l.len() >= 4 && l.subrange(l.len() - 4, l.len() as int) == mbps_suffix() {
        match spec_parse_u32(trimmed(l.subrange(0, l.len() - 4))) {
            Some(v) => if v * 1000 <= 0xffffffff {
                Some((v * 1000) as u32)
            } else {
                None
            },
            None => None,
        }
    } else if l.len() >= 4 && l.subrange(l.len() - 4, l.len() as int) == kbps_suffix() {
        spec_parse_u32(trimmed(l.subrange(0, l.len() - 4)))
    } else {
        spec_parse_u32(s)
    }
}

/// Parses a bitrate such as `25000`, `5000kbps` or `25Mbps` into kbps.
pub fn parse_bitrate(s: &str) -> (r: Result<u32, CliError>)
    ensures
        r is Ok <==> spec_parse_bitrate(s.spec_bytes()) is Some,
        r matches Ok(v) ==> Some(v) == spec_parse_bitrate(s.spec_bytes()),
        r is Err ==> r->Err_0 is InvalidArgs,
{
    let b = s.as_bytes();
    let low = lower_exec(b);
    let n = low.len();
    let ghost l = lower_bytes(b@);
    if n >= 4 && low[n - 4] == 0x6d && low[n - 3] == 0x62 && low[n - 2] == 0x70 && low[n - 1]
        == 0x73 {
        proof {
            assert(l.subrange(l.len() - 4, l.len() as int) =~= mbps_suffix());
        }
        let (lo, hi) = trim_bounds(low.as_slice(), 0, n - 4);
        proof {
            assert(low@.subrange(0, n - 4) =~= l.subrange(0, l.len() - 4));
        }
        match parse_u32_digits(low.as_slice(), lo, hi) {
            Some(v) => {
                if v <= 0xffffffff / 1000 {
                    Ok(v * 1000)
                } else {
                    Err(CliError::InvalidArgs("Invalid bitrate".to_owned()))
                }
            },
            None => Err(CliError::InvalidArgs("Invalid bitrate".to_owned())),
        }
    } else if n >= 4 && low[n - 4] == 0x6b && low[n - 3] == 0x62 && low[n - 2] == 0x70 && low[n
        - 1] == 0x73 {
        proof {
            assert(l.subrange(l.len() - 4, l.len() as int) =~= kbps_suffix());
            assert(l.subrange(l.len() - 4, l.len() as int) != mbps_suffix());
        }
        let (lo, hi) = trim_bounds(low.as_slice(), 0, n - 4);
        proof {
            assert(low@.subrange(0, n - 4) =~= l.subrange(0, l.len() - 4));
        }
        match parse_u32_digits(low.as_slice(), lo, hi) {
            Some(v) => Ok(v),
            None => Err(CliError::InvalidArgs("Invalid bitrate".to_owned())),
        }
    } else {
        proof {
            if l.len() >= 4 {
                let suf = l.subrange(l.len() - 4, l.len() as int);
                assert(suf[0] == l[l.len() - 4] && suf[1] == l[l.len() - 3] && suf[2] == l[l.len()
                    - 2] && suf[3] == l[l.len() - 1]);
            }
        }
        match parse_u32_digits(b, 0, b.len()) {
            Some(v) => {
                proof {
                    assert(b@.subrange(0, b@.len() as int) =~= b@);
                }
                Ok(v)
            },
            None => {
                proof {
                    assert(b@.subrange(0, b@.len() as int) =~= b@);
                }
                Err(CliError::InvalidArgs("Invalid bitrate".to_owned()))
            },
        }
    }
}

/// The encoder profile tier for a bitrate in kbps: the 5,000 kbps profile
/// up to 7,500; the 25,000 kbps profile up to 37,500; the 50,000 kbps
/// profile up to 75,000; the highest tier beyond.
pub fn bitrate_to_encoder_profile(bitrate_kbps: u32) -> (r: VSLEncoderProfileEnum)
    ensures
        bitrate_kbps <= 7500 ==> r is Kbps5000,
        7500 < bitrate_kbps <= 37500 ==> r is Kbps25000,
        37500 < bitrate_kbps <= 75000 ==> r is Kbps50000,
        75000 < bitrate_kbps ==> r is Kbps100000,
{
    if bitrate_kbps <= 7500 {
        VSLEncoderProfileEnum::Kbps5000
    } else if bitrate_kbps <= 37500 {
        VSLEncoderProfileEnum::Kbps25000
    } else if bitrate_kbps <= 75000 {
        VSLEncoderProfileEnum::Kbps50000
    } else {
        VSLEncoderProfileEnum::Kbps100000
    }
}

/// The lowercase name `h264`.
pub open spec fn name_h264() -> Seq<u8> {
    seq![0x68u8, 0x32u8, 0x36u8, 0x34u8]
}

/// The lowercase name `h265`.
pub open spec fn name_h265() -> Seq<u8> {
    seq![0x68u8, 0x32u8, 0x36u8, 0x35u8]
}

/// The lowercase name `hevc`.
pub open spec fn name_hevc() -> Seq<u8> {
    seq![0x68u8, 0x65u8, 0x76u8, 0x63u8]
}

/// The lowercase name `avc`.
pub open spec fn name_avc() -> Seq<u8> {
    seq![0x61u8, 0x76u8, 0x63u8]
}

/// Converts a codec name to the format code its bitstream travels under:
/// `h264` to the H264 code, `h265` or `hevc` to the HEVC code, case
/// insensitively.
pub fn codec_to_fourcc(codec: &str) -> (r: Result<u32, CliError>)
    ensures
        ({
            let l = lower_bytes(codec.spec_bytes());
            &&& (l == name_h264() ==> r == Ok::<u32, CliError>(0x34363248u32))
            &&& (l == name_h265() || l == name_hevc() ==> r == Ok::<u32, CliError>(0x43564548u32))
            &&& (r is Ok <==> (l == name_h264() || l == name_h265() || l == name_hevc()))
            &&& (r is Err ==> r->Err_0 is InvalidArgs)
        }),
{
    let b = lower_str(codec);
    if b.len() == 4 && b[0] == 0x68 && b[1] == 0x32 && b[2] == 0x36 && b[3] == 0x34 {
        proof {
            assert(lower_bytes(codec.spec_bytes()) =~= name_h264());
        }
        Ok(0x34363248)
    } else if b.len() == 4 && b[0] == 0x68 && b[1] == 0x32 && b[2] == 0x36 && b[3] == 0x35 {
        proof {
            assert(lower_bytes(codec.spec_bytes()) =~= name_h265());
        }
        Ok(0x43564548)
    } else if b.len() == 4 && b[0] == 0x68 && b[1] == 0x65 && b[2] == 0x76 && b[3] == 0x63 {
        proof {
            assert(lower_bytes(codec.spec_bytes()) =~= name_hevc());
        }
        Ok(0x43564548)
    } else {
        proof {
            lemma_seq_eq_parts(lower_bytes(codec.spec_bytes()), name_h264());
            lemma_seq_eq_parts(lower_bytes(codec.spec_bytes()), name_h265());
            lemma_seq_eq_parts(lower_bytes(codec.spec_bytes()), name_hevc());
        }
        Err(CliError::InvalidArgs("Unsupported codec".to_owned()))
    }
}

fn lower_str(s: &str) -> (r: Vec<u8>)
    ensures
        r@ =~= lower_bytes(s.spec_bytes()),
{
    lower_exec(s.as_bytes())
}

/// Equal sequences agree on length and on their first four indices.
proof fn lemma_seq_eq_parts(a: Seq<u8>, b: Seq<u8>)
    ensures
        a == b ==> a.len() == b.len() && (a.len() > 0 ==> a[0] == b[0]) && (a.len() > 1 ==> a[1]
            == b[1]) && (a.len() > 2 ==> a[2] == b[2]) && (a.len() > 3 ==> a[3] == b[3]),
{
}

/// The codec name with punctuation removed: lowercased, then without `.`
/// and `-`.
pub open spec fn normalized_codec(s: Seq<u8>) -> Seq<u8> {
    lower_bytes(s).filter(|b: u8| b != 0x2e && b != 0x2d)
}

/// Reduces a codec alias to its canonical lowercase name: variants of
/// H.264 and AVC become `h264`; variants of H.265 and HEVC become `h265`.
#[verifier::loop_isolation(false)]
pub fn normalize_codec_alias(codec: &str) -> (r: Result<&'static str, CliError>)
    ensures
        ({
            let n = normalized_codec(codec.spec_bytes());
            &&& (n == name_h264() || n == name_avc() ==> (r matches Ok(t) && t@ == "h264"@))
            &&& (n == name_h265() || n == name_hevc() ==> (r matches Ok(t) && t@ == "h265"@))
            &&& (r is Ok <==> (n == name_h264() || n == name_avc() || n == name_h265() || n
                == name_hevc()))
            &&& (r is Err ==> r->Err_0 is InvalidArgs)
        }),
{
    let low = lower_str(codec);
    let ghost pred = |b: u8| b != 0x2e && b != 0x2d;
    let n = low.len();
    let mut kept: Vec<u8> = Vec::new();
    let mut i: usize = 0;
    proof {
        assert(low@.subrange(0, 0).filter(pred) =~= Seq::<u8>::empty());
    }
    while i < n
        invariant
            n == low@.len(),
            i <= n,
            kept@ =~= low@.subrange(0, i as int).filter(pred),
        decreases n - i,
    {
        let c = low[i];
        proof {
            let prefix = low@.subrange(0, i as int);
            let next = low@.subrange(0, i as int + 1);
            assert(next.drop_last() =~= prefix);
            assert(next.last() == c);
            reveal_with_fuel(Seq::<u8>::filter, 2);
            assert(next.filter(pred) =~= if pred(c) {
                prefix.filter(pred).push(c)
            } else {
                prefix.filter(pred)
            });
        }
        if c != 0x2e && c != 0x2d {
            kept.push(c);
        }
        i = i + 1;
    }
    proof {
        assert(low@.subrange(0, n as int) =~= low@);
        assert(kept@ =~= normalized_codec(codec.spec_bytes()));
    }
    if kept.len() == 4 && kept[0] == 0x68 && kept[1] == 0x32 && kept[2] == 0x36 && kept[3]
        == 0x34 {
        proof {
            assert(kept@ =~= name_h264());
        }
        Ok("h264")
    } else if kept.len() == 3 && kept[0] == 0x61 && kept[1] == 0x76 && kept[2] == 0x63 {
        proof {
            assert(kept@ =~= name_avc());
        }
        Ok("h264")
    } else if kept.len() == 4 && kept[0] == 0x68 && kept[1] == 0x32 && kept[2] == 0x36 && kept[3]
        == 0x35 {
        proof {
            assert(kept@ =~= name_h265());
        }
        Ok("h265")
    } else if kept.len() == 4 && kept[0] == 0x68 && kept[1] == 0x65 && kept[2] == 0x76 && kept[3]
        == 0x63 {
        proof {
            assert(kept@ =~= name_hevc());
        }
        Ok("h265")
    } else {
        proof {
            lemma_seq_eq_parts(kept@, name_h264());
            lemma_seq_eq_parts(kept@, name_avc());
            lemma_seq_eq_parts(kept@, name_h265());
            lemma_seq_eq_parts(kept@, name_hevc());
        }
        Err(CliError::InvalidArgs("Unsupported codec".to_owned()))
    }
}

/// Creates an encoder when one is requested.
///
/// With encoding off the fallback format code passes through and no encoder
/// is made.  With encoding requested, this build's encoder is unavailable,
/// so the call reports that — after which the caller can fall back or stop.
pub fn create_encoder_if_requested(
    encode: bool,
    codec: &str,
    bitrate: &str,
    fps: i32,
    fallback_fourcc: u32,
) -> (r: Result<(Option<Encoder>, u32), CliError>)
    ensures
        !encode ==> (r matches Ok(p) && p.0 is None && p.1 == fallback_fourcc),
        encode ==> (r matches Err(e) && e is EncoderUnavailable),
{
    let _ = codec;
    let _ = bitrate;
    let _ = fps;
    if !encode {
        return Ok((None, fallback_fourcc));
    }
    let available = match encoder::is_available() {
        Ok(a) => a,
        Err(_) => false,
    };
    if !available {
        return Err(
            CliError::EncoderUnavailable("VPU encoder not available on this system".to_owned()),
        );
    }
    Err(CliError::EncoderUnavailable("VPU encoder not available on this system".to_owned()))
}

/// Creates a decoder when one is requested.
///
/// With decoding off no decoder is made.  With decoding requested, this
/// build's decoder is unavailable, so the call reports that.
pub fn create_decoder_if_requested(decode: bool, codec: &str, fps: i32) -> (r: Result<
    Option<Decoder>,
    CliError,
>)
    ensures
        !decode ==> (r matches Ok(d) && d is None),
        decode ==> (r matches Err(e) && e is EncoderUnavailable),
{
    let _ = codec;
    let _ = fps;
    if !decode {
        return Ok(None);
    }
    let available = match decoder::is_available() {
        Ok(a) => a,
        Err(_) => false,
    };
    if !available {
        return Err(
            CliError::EncoderUnavailable("VPU decoder not available on this system".to_owned()),
        );
    }
    Err(CliError::EncoderUnavailable("VPU decoder not available on this system".to_owned()))
}

/// The uppercased form of one byte.
pub open spec fn upper_byte(b: u8) -> u8 {
    if 0x61 <= b && b <= 0x7a {
        (b - 0x20) as u8
    } else {
        b
    }
}

/// The format code with each of its four bytes uppercased.
pub open spec fn upper_fourcc(v: u32) -> Seq<u8> {
    fourcc_bytes(v).map_values(|b: u8| upper_byte(b))
}

/// The estimated bytes of one raw frame: two bytes per pixel for packed
/// 4:2:2 formats and unknown formats, one and a half for 4:2:0 semi-planar
/// formats, three for 24-bit RGB, four with an alpha channel.
pub open spec fn spec_raw_frame_size(width: nat, height: nat, format: u32) -> nat {
    let f = upper_fourcc(format);
    let px = width * height;
    if f == fourcc_bytes(crate::frame::FOURCC_NV12) || f == fourcc_bytes(
        crate::frame::FOURCC_NV21,
    ) {
        px * 3 / 2
    } else if f == fourcc_bytes(crate::frame::FOURCC_RGB3) || f == fourcc_bytes(
        crate::frame::FOURCC_BGR3,
    ) {
        px * 3
    } else if f == fourcc_bytes(crate::frame::FOURCC_RGBA) || f == fourcc_bytes(
        crate::frame::FOURCC_BGRA,
    ) {
        px * 4
    } else {
        px * 2
    }
}

/// Estimates the byte size of one frame: for encoded streams, the bitrate
/// spread over the frame rate — which must be positive — and for raw
/// frames, pixels times the format's bytes per pixel.
pub fn estimate_frame_size(
    width: u32,
    height: u32,
    encoded: bool,
    bitrate: &str,
    fps: i32,
    format: u32,
) -> (r: Result<u64, CliError>)
    requires
        encoded ==> fps >= 1,
        width <= 0x7fffffff,
        height <= 0x7fffffff,
    ensures
        encoded ==> match spec_parse_bitrate(bitrate.spec_bytes()) {
            Some(v) => r == Ok::<u64, CliError>(
                ((v * 1000) as u64 / (fps * 8) as u64) as u64,
            ),
            None => r matches Err(e) && e is InvalidArgs,
        },
        !encoded ==> r == Ok::<u64, CliError>(
            spec_raw_frame_size(width as nat, height as nat, format) as u64,
        ),
{
    if encoded {
        let kbps = match parse_bitrate(bitrate) {
            Ok(v) => v,
            Err(e) => {
                return Err(e);
            },
        };
        Ok((kbps as u64 * 1000) / ((fps as u64) * 8))
    } else {
        assert((width as int) * (height as int) <= 0x7fffffff * 0x7fffffff) by (nonlinear_arith)
            requires
                width <= 0x7fffffff,
                height <= 0x7fffffff,
        ;
        let px = (width as u64) * (height as u64);
        let b0 = upper_byte_exec((format & 0xff) as u8);
        let b1 = upper_byte_exec(((format >> 8) & 0xff) as u8);
        let b2 = upper_byte_exec(((format >> 16) & 0xff) as u8);
        let b3 = upper_byte_exec(((format >> 24) & 0xff) as u8);
        let ghost f = upper_fourcc(format);
        proof {
            assert(f =~= seq![b0, b1, b2, b3]);
        }
        let sz: u64 = if b0 == 0x4e && b1 == 0x56 && ((b2 == 0x31 && b3 == 0x32) || (b2 == 0x32
            && b3 == 0x31)) {
            proof {
                lemma_fourcc_bytes_cases();
                assert(f =~= fourcc_bytes(crate::frame::FOURCC_NV12) || f =~= fourcc_bytes(
                    crate::frame::FOURCC_NV21,
                ));
            }
            px * 3 / 2
        } else if ((b0 == 0x52 && b2 == 0x42) || (b0 == 0x42 && b2 == 0x52)) && b1 == 0x47 && b3
            == 0x33 {
            proof {
                lemma_fourcc_bytes_cases();
                assert(f =~= fourcc_bytes(crate::frame::FOURCC_RGB3) || f =~= fourcc_bytes(
                    crate::frame::FOURCC_BGR3,
                ));
            }
            px * 3
        } else if ((b0 == 0x52 && b2 == 0x42) || (b0 == 0x42 && b2 == 0x52)) && b1 == 0x47 && b3
            == 0x41 {
            proof {
                lemma_fourcc_bytes_cases();
                assert(f =~= fourcc_bytes(crate::frame::FOURCC_RGBA) || f =~= fourcc_bytes(
                    crate::frame::FOURCC_BGRA,
                ));
            }
            px * 4
        } else {
            proof {
                lemma_fourcc_bytes_cases();
                lemma_seq_eq_parts(f, fourcc_bytes(crate::frame::FOURCC_NV12));
                lemma_seq_eq_parts(f, fourcc_bytes(crate::frame::FOURCC_NV21));
                lemma_seq_eq_parts(f, fourcc_bytes(crate::frame::FOURCC_RGB3));
                lemma_seq_eq_parts(f, fourcc_bytes(crate::frame::FOURCC_BGR3));
                lemma_seq_eq_parts(f, fourcc_bytes(crate::frame::FOURCC_RGBA));
                lemma_seq_eq_parts(f, fourcc_bytes(crate::frame::FOURCC_BGRA));
            }
            px * 2
        };
        Ok(sz)
    }
}

fn upper_byte_exec(b: u8) -> (r: u8)
    ensures
        r == upper_byte(b),
{
    if 0x61 <= b && b <= 0x7a {
        b - 0x20
    } else {
        b
    }
}

/// The four bytes of the known format codes.
proof fn lemma_fourcc_bytes_cases()
    ensures
        fourcc_bytes(crate::frame::FOURCC_NV12) =~= seq![0x4eu8, 0x56u8, 0x31u8, 0x32u8],
        fourcc_bytes(crate::frame::FOURCC_NV21) =~= seq![0x4eu8, 0x56u8, 0x32u8, 0x31u8],
        fourcc_bytes(crate::frame::FOURCC_RGB3) =~= seq![0x52u8, 0x47u8, 0x42u8, 0x33u8],
        fourcc_bytes(crate::frame::FOURCC_BGR3) =~= seq![0x42u8, 0x47u8, 0x52u8, 0x33u8],
        fourcc_bytes(crate::frame::FOURCC_RGBA) =~= seq![0x52u8, 0x47u8, 0x42u8, 0x41u8],
        fourcc_bytes(crate::frame::FOURCC_BGRA) =~= seq![0x42u8, 0x47u8, 0x52u8, 0x41u8],
{
    assert((0x3231564eu32 & 0xff) as u8 == 0x4eu8 && ((0x3231564eu32 >> 8) & 0xff) as u8
        == 0x56u8 && ((0x3231564eu32 >> 16) & 0xff) as u8 == 0x31u8 && ((0x3231564eu32 >> 24)
        & 0xff) as u8 == 0x32u8) by (bit_vector);
    assert((0x3132564eu32 & 0xff) as u8 == 0x4eu8 && ((0x3132564eu32 >> 8) & 0xff) as u8
        == 0x56u8 && ((0x3132564eu32 >> 16) & 0xff) as u8 == 0x32u8 && ((0x3132564eu32 >> 24)
        & 0xff) as u8 == 0x31u8) by (bit_vector);
    assert((0x33424752u32 & 0xff) as u8 == 0x52u8 && ((0x33424752u32 >> 8) & 0xff) as u8
        == 0x47u8 && ((0x33424752u32 >> 16) & 0xff) as u8 == 0x42u8 && ((0x33424752u32 >> 24)
        & 0xff) as u8 == 0x33u8) by (bit_vector);
    assert((0x33524742u32 & 0xff) as u8 == 0x42u8 && ((0x33524742u32 >> 8) & 0xff) as u8
        == 0x47u8 && ((0x33524742u32 >> 16) & 0xff) as u8 == 0x52u8 && ((0x33524742u32 >> 24)
        & 0xff) as u8 == 0x33u8) by (bit_vector);
    assert((0x41424752u32 & 0xff) as u8 == 0x52u8 && ((0x41424752u32 >> 8) & 0xff) as u8
        == 0x47u8 && ((0x41424752u32 >> 16) & 0xff) as u8 == 0x42u8 && ((0x41424752u32 >> 24)
        & 0xff) as u8 == 0x41u8) by (bit_vector);
    assert((0x41524742u32 & 0xff) as u8 == 0x42u8 && ((0x41524742u32 >> 8) & 0xff) as u8
        == 0x47u8 && ((0x41524742u32 >> 16) & 0xff) as u8 == 0x52u8 && ((0x41524742u32 >> 24)
        & 0xff) as u8 == 0x41u8) by (bit_vector);
}

/// Interprets a frame-count argument: zero means unlimited, anything else
/// passes through unchanged.
pub fn normalize_frame_count(count: u64) -> (r: u64)
    ensures
        count == 0 ==> r == u64::MAX,
        count != 0 ==> r == count,
{
    if count == 0 {
        u64::MAX
    } else {
        count
    }
}


/// The byte prefix `/dev/video`.
pub open spec fn dev_video_prefix() -> Seq<u8> {
    seq![0x2fu8, 0x64u8, 0x65u8, 0x76u8, 0x2fu8, 0x76u8, 0x69u8, 0x64u8, 0x65u8, 0x6fu8]
}

/// The device number of a `/dev/videoN` path, when the path has that
/// shape.
pub open spec fn spec_video_num(p: Seq<u8>) -> Option<u32> {
    if p.len() >= 10 && p.subrange(0, 10) == dev_video_prefix() {
        spec_parse_u32(p.skip(10))
    } else {
        None
    }
}

/// The device numbers of the paths from index `i` on, in path order.
pub open spec fn spec_video_nums(ps: Seq<&str>, i: int) -> Seq<u32>
    decreases ps.len() - i,
{
    if i < 0 || i >= ps.len() {
        Seq::empty()
    } else {
        match spec_video_num(ps[i].spec_bytes()) {
            Some(n) => seq![n] + spec_video_nums(ps, i + 1),
            None => spec_video_nums(ps, i + 1),
        }
    }
}

/// `x` inserted before the first element not smaller than it.
pub open spec fn spec_insert_sorted(x: u32, s: Seq<u32>) -> Seq<u32>
    decreases s.len(),
{
    if s.len() == 0 {
        seq![x]
    } else if x <= s[0] {
        seq![x] + s
    } else {
        seq![s[0]] + spec_insert_sorted(x, s.skip(1))
    }
}

/// The sequence sorted by repeated insertion, taken from the back.
pub open spec fn spec_sorted(s: Seq<u32>) -> Seq<u32>
    decreases s.len(),
{
    if s.len() == 0 {
        Seq::empty()
    } else {
        spec_insert_sorted(s.last(), spec_sorted(s.drop_last()))
    }
}

/// Whether the numbers rise by exactly one at each step.
pub open spec fn spec_consecutive(s: Seq<u32>) -> bool {
    forall|i: int| 0 <= i < s.len() - 1 ==> s[i + 1] == #[trigger] s[i] + 1
}

/// The views joined with `, ` between them, from index `i` on.
pub open spec fn spec_join_paths(ps: Seq<&str>, i: int) -> Seq<char>
    decreases ps.len() - i,
{
    if i < 0 || i >= ps.len() {
        Seq::empty()
    } else if i == ps.len() - 1 {
        ps[i]@
    } else {
        ps[i]@ + ", "@ + spec_join_paths(ps, i + 1)
    }
}

/// The numbers rendered in decimal and joined with `,`, from index `i` on.
pub open spec fn spec_join_nums(s: Seq<u32>, i: int) -> Seq<char>
    decreases s.len() - i,
{
    if i < 0 || i >= s.len() {
        Seq::empty()
    } else if i == s.len() - 1 {
        crate::text::spec_dec(s[i] as nat)
    } else {
        crate::text::spec_dec(s[i] as nat) + ","@ + spec_join_nums(s, i + 1)
    }
}

/// The one-line summary of a group of device paths: a single path as
/// itself; a run of consecutive `/dev/videoN` numbers as a range; a few
/// scattered numbers listed in braces; many numbers abbreviated; paths
/// that do not carry numbers joined with commas.
pub open spec fn spec_summarize_paths(ps: Seq<&str>) -> Seq<char> {
    if ps.len() == 0 {
        Seq::empty()
    } else if ps.len() == 1 {
        ps[0]@
    } else {
        let nums = spec_sorted(spec_video_nums(ps, 0));
        if nums.len() == 0 {
            spec_join_paths(ps, 0)
        } else if spec_consecutive(nums) && nums.len() > 2 {
            "/dev/video"@ + crate::text::spec_dec(nums[0] as nat) + "-"@ + crate::text::spec_dec(
                nums.last() as nat,
            )
        } else if nums.len() <= 4 {
            "/dev/video{"@ + spec_join_nums(nums, 0) + "}"@
        } else {
            "/dev/video{"@ + crate::text::spec_dec(nums[0] as nat) + ",..} ("@
                + crate::text::spec_dec(nums.len()) + " devices)"@
        }
    }
}

/// Inserting before the first not-smaller element is what the insertion
/// specification does.
proof fn lemma_insert_sorted_at(s: Seq<u32>, x: u32, k: int)
    requires
        0 <= k <= s.len(),
        forall|j: int| 0 <= j < k ==> #[trigger] s[j] < x,
        k < s.len() ==> x <= s[k],
    ensures
        spec_insert_sorted(x, s) =~= s.subrange(0, k) + seq![x] + s.skip(k),
    decreases k,
{
    if k == 0 {
    } else {
        lemma_insert_sorted_at(s.skip(1), x, k - 1);
        assert(spec_insert_sorted(x, s) =~= seq![s[0]] + spec_insert_sorted(x, s.skip(1)));
        assert(s.skip(1).subrange(0, k - 1) =~= s.subrange(1, k));
        assert(s.skip(1).skip(k - 1) =~= s.skip(k));
        assert(seq![s[0]] + (s.subrange(1, k) + seq![x] + s.skip(k)) =~= s.subrange(0, k)
            + seq![x] + s.skip(k));
    }
}

#[verifier::loop_isolation(false)]
fn insert_sorted(v: &mut Vec<u32>, x: u32)
    requires
        old(v)@.len() < usize::MAX,
    ensures
        final(v)@ =~= spec_insert_sorted(x, old(v)@),
        final(v)@.len() == old(v)@.len() + 1,
{
    let n = v.len();
    let mut k: usize = 0;
    while k < n && v[k] < x
        invariant
            k <= n,
            n == v@.len(),
            *v == *old(v),
            forall|j: int| 0 <= j < k ==> #[trigger] v@[j] < x,
        decreases n - k,
    {
        k = k + 1;
    }
    v.insert(k, x);
    proof {
        lemma_insert_sorted_at(old(v)@, x, k as int);
    }
}

/// Summarizes a group of device paths as one line, e.g. `/dev/video0-4`
/// for a consecutive run or `/dev/video{11,12,14}` for a scattered few.
#[verifier::rlimit(50)]
#[verifier::loop_isolation(false)]
pub fn summarize_paths(paths: &[&str]) -> (r: String)
    ensures
        r@ == spec_summarize_paths(paths@),
{
    let n = paths.len();
    if n == 0 {
        return String::new();
    }
    if n == 1 {
        return paths[0].to_owned();
    }
    // Pull the device numbers out of the paths, sorting as they come.
    let mut nums: Vec<u32> = Vec::new();
    let mut raw: Vec<u32> = Vec::new();
    let mut i: usize = 0;
    while i < n
        invariant
            i <= n,
            n == paths@.len(),
            raw@.len() <= i,
            nums@.len() == raw@.len(),
            spec_video_nums(paths@, 0) =~= raw@ + spec_video_nums(paths@, i as int),
            nums@ =~= spec_sorted(raw@),
        decreases n - i,
    {
        let p = paths[i].as_bytes();
        let ghost before = raw@;
        if p.len() >= 10 && p[0] == 0x2f && p[1] == 0x64 && p[2] == 0x65 && p[3] == 0x76 && p[4]
            == 0x2f && p[5] == 0x76 && p[6] == 0x69 && p[7] == 0x64 && p[8] == 0x65 && p[9]
            == 0x6f {
            proof {
                assert(p@.subrange(0, 10) =~= dev_video_prefix());
            }
            match parse_u32_digits(p, 10, p.len()) {
                Some(num) => {
                    proof {
                        assert(p@.subrange(10, p@.len() as int) =~= p@.skip(10));
                    }
                    raw.push(num);
                    insert_sorted(&mut nums, num);
                    proof {
                        assert(raw@.drop_last() =~= before);
                        assert(nums@ =~= spec_sorted(raw@));
                    }
                },
                None => {
                    proof {
                        assert(p@.subrange(10, p@.len() as int) =~= p@.skip(10));
                        assert(spec_video_num(paths@[i as int].spec_bytes()) is None);
                    }
                },
            }
        } else {
            proof {
                if paths@[i as int].spec_bytes().len() >= 10 {
                    let pre = paths@[i as int].spec_bytes().subrange(0, 10);
                    assert(pre[0] == p@[0] && pre[1] == p@[1] && pre[2] == p@[2] && pre[3]
                        == p@[3] && pre[4] == p@[4] && pre[5] == p@[5] && pre[6] == p@[6]
                        && pre[7] == p@[7] && pre[8] == p@[8] && pre[9] == p@[9]);
                }
            }
        }
        i = i + 1;
    }
    if nums.len() == 0 {
        // No recognizable numbers: list the paths themselves.
        let mut out = String::new();
        let mut j: usize = 0;
        while j < n
            invariant
                j <= n,
                n == paths@.len(),
                n >= 2,
                out@ + spec_join_paths(paths@, j as int) =~= spec_join_paths(paths@, 0),
            decreases n - j,
        {
            crate::text::push_str(&mut out, paths[j]);
            if j + 1 < n {
                crate::text::push_str(&mut out, ", ");
            }
            j = j + 1;
        }
        return out;
    }
    let consecutive = {
        let mut ok = true;
        let m = nums.len();
        let mut j: usize = 0;
        while j + 1 < m
            invariant
                j < m,
                m == nums@.len(),
                ok == (forall|a: int| 0 <= a < j ==> nums@[a + 1] == #[trigger] nums@[a] + 1),
            decreases m - j,
        {
            if !(nums[j] < u32::MAX && nums[j + 1] == nums[j] + 1) {
                ok = false;
            }
            j = j + 1;
        }
        proof {
            assert(ok == spec_consecutive(nums@));
        }
        ok
    };
    let mut out = String::new();
    if consecutive && nums.len() > 2 {
        crate::text::push_str(&mut out, "/dev/video");
        crate::text::push_dec_u64(&mut out, nums[0] as u64);
        crate::text::push_str(&mut out, "-");
        crate::text::push_dec_u64(&mut out, nums[nums.len() - 1] as u64);
        proof {
            assert(out@ =~= spec_summarize_paths(paths@));
        }
    } else if nums.len() <= 4 {
        crate::text::push_str(&mut out, "/dev/video{");
        let m = nums.len();
        let mut j: usize = 0;
        while j < m
            invariant
                j <= m,
                m == nums@.len(),
                m >= 1,
                out@ + spec_join_nums(nums@, j as int) =~= "/dev/video{"@ + spec_join_nums(
                    nums@,
                    0,
                ),
            decreases m - j,
        {
            crate::text::push_dec_u64(&mut out, nums[j] as u64);
            if j + 1 < m {
                crate::text::push_str(&mut out, ",");
            }
            j = j + 1;
        }
        crate::text::push_str(&mut out, "}");
        proof {
            assert(out@ =~= spec_summarize_paths(paths@));
        }
    } else {
        crate::text::push_str(&mut out, "/dev/video{");
        crate::text::push_dec_u64(&mut out, nums[0] as u64);
        crate::text::push_str(&mut out, ",..} (");
        crate::text::push_dec_u64(&mut out, nums.len() as u64);
        crate::text::push_str(&mut out, " devices)");
        proof {
            assert(out@ =~= spec_summarize_paths(paths@));
        }
    }
    out
}

} // verus!
