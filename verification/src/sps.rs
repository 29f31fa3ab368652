//! H.264 sequence-parameter-set parsing: a most-significant-bit-first bit
//! reader with exponential-Golomb decoding, and the walk through the SPS
//! syntax that yields the coded resolution.
//!
//! Reference: ITU-T H.264, sequence parameter set syntax.  The resolution
//! is coded in macroblock units after the profile, chroma and picture-order
//! fields, so those are read and discarded on the way.

use vstd::prelude::*;

use crate::error::CliError;

verus! {

/// Whether the bit at absolute bit position `p` is set, reading each byte
/// most significant bit first.
pub open spec fn spec_bit(s: Seq<u8>, p: int) -> bool {
    ((s[p / 8] >> ((7 - (p % 8)) as u8)) & 1) == 1
}

/// One bit read at position `p`: past the end of the data the reader
/// yields `false` and stays in place, otherwise it yields the bit and
/// advances.
pub open spec fn spec_read_bit(s: Seq<u8>, p: int) -> (bool, int) {
    if p / 8 >= s.len() {
        (false, p)
    } else {
        (spec_bit(s, p), p + 1)
    }
}

/// The position after skipping `n` bits.
pub open spec fn spec_skip_bits(s: Seq<u8>, p: int, n: nat) -> int
    decreases n,
{
    if n == 0 {
        p
    } else {
        spec_skip_bits(s, spec_read_bit(s, p).1, (n - 1) as nat)
    }
}

/// `n` bits read as a big-endian value, and the position after them.
pub open spec fn spec_read_bits(s: Seq<u8>, p: int, n: nat) -> (u32, int)
    decreases n,
{
    if n == 0 {
        (0, p)
    } else {
        let prev = spec_read_bits(s, p, (n - 1) as nat);
        let (b, p2) = spec_read_bit(s, prev.1);
        ((((prev.0 << 1) | (if b {
            1u32
        } else {
            0u32
        }))) as u32, p2)
    }
}

/// The count of zero bits before the next set bit, allowing at most
/// `limit` zeros: `None` when the budget runs out, as it does at the end
/// of the data, where the reader yields zeros forever.
pub open spec fn spec_count_zeros(s: Seq<u8>, p: int, limit: nat) -> (Option<nat>, int)
    decreases limit,
{
    let (b, p1) = spec_read_bit(s, p);
    if b {
        (Some(0nat), p1)
    } else if limit == 0 {
        (None, p1)
    } else {
        let rest = spec_count_zeros(s, p1, (limit - 1) as nat);
        match rest.0 {
            Some(z) => (Some((z + 1) as nat), rest.1),
            None => (None, rest.1),
        }
    }
}

/// An unsigned exponential-Golomb value: `z` leading zeros followed by a
/// one and `z` further bits code `2^z - 1` plus those bits.
pub open spec fn spec_read_ue(s: Seq<u8>, p: int) -> (Option<u32>, int) {
    let (zeros, p1) = spec_count_zeros(s, p, 31);
    match zeros {
        None => (None, p1),
        Some(z) => if z == 0 {
            (Some(0u32), p1)
        } else {
            let (v, p2) = spec_read_bits(s, p1, z);
            (Some((((1u32 << (z as u32)) - 1) + v) as u32), p2)
        },
    }
}

/// The signed value an unsigned exponential-Golomb value maps to: even
/// codes count down from minus one, odd codes up from one.
pub open spec fn spec_se_value(ue: u32) -> int {
    if ue % 2 == 0 {
        -((ue as int + 2) / 2)
    } else {
        (ue as int + 2) / 2
    }
}

/// A most-significant-bit-first reader over a byte slice.
pub struct BitReader<'a> {
    data: &'a [u8],
    byte_pos: usize,
    bit_pos: u8,
}

impl<'a> BitReader<'a> {
    /// The bytes being read.
    pub closed spec fn data_spec(&self) -> Seq<u8> {
        self.data@
    }

    /// The absolute bit position.
    pub closed spec fn pos(&self) -> int {
        self.byte_pos * 8 + self.bit_pos
    }

    /// Position bookkeeping stays in step with the data.
    pub closed spec fn inv(&self) -> bool {
        self.bit_pos < 8 && self.byte_pos <= self.data@.len()
    }

    /// A reader at the start of `data`.
    pub fn new(data: &'a [u8]) -> (r: BitReader<'a>)
        ensures
            r.inv(),
            r.data_spec() == data@,
            r.pos() == 0,
    {
        BitReader { data, byte_pos: 0, bit_pos: 0 }
    }

    /// Reads one bit; past the end of the data this yields `false` and
    /// does not advance.
    pub fn read_bit(&mut self) -> (r: bool)
        requires
            old(self).inv(),
        ensures
            final(self).inv(),
            final(self).data_spec() == old(self).data_spec(),
            (r, final(self).pos()) == spec_read_bit(old(self).data_spec(), old(self).pos()),
    {
        if self.byte_pos >= self.data.len() {
            return false;
        }
        let bit = (self.data[self.byte_pos] >> (7 - self.bit_pos)) & 1;
        proof {
            let ghost p = old(self).pos();
            let ghost by_pos = self.byte_pos as int;
            let ghost bi_pos = self.bit_pos as int;
            assert(p / 8 == by_pos && p % 8 == bi_pos) by (nonlinear_arith)
                requires
                    p == by_pos * 8 + bi_pos,
                    0 <= bi_pos < 8,
                    0 <= by_pos,
            ;
        }
        self.bit_pos = self.bit_pos + 1;
        if self.bit_pos == 8 {
            self.bit_pos = 0;
            self.byte_pos = self.byte_pos + 1;
        }
        bit == 1
    }

    /// Skips `n` bits.
    pub fn skip_bits(&mut self, n: usize)
        requires
            old(self).inv(),
        ensures
            final(self).inv(),
            final(self).data_spec() == old(self).data_spec(),
            final(self).pos() == spec_skip_bits(old(self).data_spec(), old(self).pos(), n as nat),
    {
        let mut i: usize = 0;
        while i < n
            invariant
                i <= n,
                self.inv(),
                self.data_spec() == old(self).data_spec(),
                spec_skip_bits(old(self).data_spec(), old(self).pos(), n as nat)
                    == spec_skip_bits(self.data_spec(), self.pos(), (n - i) as nat),
            decreases n - i,
        {
            let ghost pre = *self;
            let _ = self.read_bit();
            proof {
                assert(spec_skip_bits(pre.data_spec(), pre.pos(), (n - i) as nat)
                    == spec_skip_bits(self.data_spec(), self.pos(), (n - i - 1) as nat));
            }
            i = i + 1;
        }
    }

    /// Reads `n` bits as a big-endian value; more than 32 is refused.
    pub fn read_bits(&mut self, n: usize) -> (r: Option<u32>)
        requires
            old(self).inv(),
        ensures
            final(self).inv(),
            final(self).data_spec() == old(self).data_spec(),
            n > 32 ==> r is None && *final(self) == *old(self),
            n <= 32 ==> (r, final(self).pos()) == {
                let (v, p) = spec_read_bits(old(self).data_spec(), old(self).pos(), n as nat);
                (Some(v), p)
            },
    {
        if n > 32 {
            return None;
        }
        let mut result: u32 = 0;
        let mut i: usize = 0;
        while i < n
            invariant
                i <= n <= 32,
                self.inv(),
                self.data_spec() == old(self).data_spec(),
                (result, self.pos()) == spec_read_bits(
                    old(self).data_spec(),
                    old(self).pos(),
                    i as nat,
                ),
            decreases n - i,
        {
            let b = self.read_bit();
            result = (result << 1) | (if b {
                1u32
            } else {
                0u32
            });
            i = i + 1;
        }
        Some(result)
    }

    /// Reads an unsigned exponential-Golomb value; an implausible run of
    /// zeros — as at the end of the data — yields `None`.
    pub fn read_ue(&mut self) -> (r: Option<u32>)
        requires
            old(self).inv(),
        ensures
            final(self).inv(),
            final(self).data_spec() == old(self).data_spec(),
            (r, final(self).pos()) == spec_read_ue(old(self).data_spec(), old(self).pos()),
    {
        let ghost s = old(self).data_spec();
        let ghost p0 = old(self).pos();
        let mut zeros: u32 = 0;
        let mut done = false;
        let mut failed = false;
        while !done && !failed
            invariant
                self.inv(),
                zeros <= 31,
                self.data_spec() == s,
                done ==> spec_count_zeros(s, p0, 31) == (Some(zeros as nat), self.pos()),
                failed ==> spec_count_zeros(s, p0, 31) == (None::<nat>, self.pos()),
                !done && !failed ==> spec_count_zeros(s, p0, 31) == ({
                    let rest = spec_count_zeros(s, self.pos(), (31 - zeros) as nat);
                    match rest.0 {
                        Some(z) => (Some((z + zeros) as nat), rest.1),
                        None => (None::<nat>, rest.1),
                    }
                }),
            decreases 33 - zeros - (if done || failed {
                1int
            } else {
                0int
            }),
        {
            let ghost pre = *self;
            let b = self.read_bit();
            if b {
                proof {
                    assert(spec_count_zeros(s, pre.pos(), (31 - zeros) as nat) == (
                    Some(0nat), self.pos()));
                }
                done = true;
            } else if zeros >= 31 {
                proof {
                    assert(spec_count_zeros(s, pre.pos(), 0nat) == (None::<nat>, self.pos()));
                }
                failed = true;
            } else {
                proof {
                    let rest = spec_count_zeros(s, self.pos(), (31 - zeros - 1) as nat);
                    assert(spec_count_zeros(s, pre.pos(), (31 - zeros) as nat) == (match rest.0 {
                        Some(z) => (Some((z + 1) as nat), rest.1),
                        None => (None::<nat>, rest.1),
                    }));
                }
                zeros = zeros + 1;
            }
        }
        if failed {
            return None;
        }
        if zeros == 0 {
            return Some(0);
        }
        let ghost p1 = self.pos();
        let v = match self.read_bits(zeros as usize) {
            Some(v) => v,
            None => {
                return None;
            },
        };
        proof {
            lemma_read_bits_bound(s, p1, zeros as nat);
        }
        assert(((1u32 << zeros) - 1) + v <= 0xffffffffu32 && (1u32 << zeros) >= 1)
            by (bit_vector)
            requires
                1 <= zeros <= 31,
                (v as u64) < (1u64 << (zeros as u64)),
        ;
        Some(((1u32 << zeros) - 1) + v)
    }

    /// Reads a signed exponential-Golomb value.
    pub fn read_se(&mut self) -> (r: Option<i64>)
        requires
            old(self).inv(),
        ensures
            final(self).inv(),
            final(self).data_spec() == old(self).data_spec(),
            final(self).pos() == spec_read_ue(old(self).data_spec(), old(self).pos()).1,
            r is Some <==> spec_read_ue(old(self).data_spec(), old(self).pos()).0 is Some,
            r matches Some(v) ==> Some(v as int) == match spec_read_ue(
                old(self).data_spec(),
                old(self).pos(),
            ).0 {
                Some(ue) => Some(spec_se_value(ue)),
                None => None::<int>,
            },
    {
        let ue = match self.read_ue() {
            Some(u) => u,
            None => {
                return None;
            },
        };
        let magnitude: i64 = ((ue as i64) + 2) / 2;
        if ue % 2 == 0 {
            Some(-magnitude)
        } else {
            Some(magnitude)
        }
    }

    /// Skips over one scaling list by reading up to a fixed number of
    /// coded values; stops early when a value cannot be read.
    pub fn skip_scaling_list(&mut self)
        requires
            old(self).inv(),
        ensures
            final(self).inv(),
            final(self).data_spec() == old(self).data_spec(),
            final(self).pos() == spec_skip_scaling_list(old(self).data_spec(), old(self).pos()),
    {
        let mut i: usize = 0;
        while i < 64
            invariant
                i <= 64,
                self.inv(),
                self.data_spec() == old(self).data_spec(),
                spec_skip_scaling_list(old(self).data_spec(), old(self).pos())
                    == spec_skip_values(self.data_spec(), self.pos(), (64 - i) as nat),
            decreases 64 - i,
        {
            let ghost pre = *self;
            match self.read_ue() {
                Some(_) => {
                    proof {
                        assert(spec_skip_values(pre.data_spec(), pre.pos(), (64 - i) as nat)
                            == spec_skip_values(self.data_spec(), self.pos(), (64 - i
                            - 1) as nat));
                    }
                },
                None => {
                    return ;
                },
            }
            i = i + 1;
        }
    }
}

/// The position after reading up to `n` coded values, stopping where one
/// cannot be read.
pub open spec fn spec_skip_values(s: Seq<u8>, p: int, n: nat) -> int
    decreases n,
{
    if n == 0 {
        p
    } else {
        let (v, p1) = spec_read_ue(s, p);
        match v {
            None => p1,
            Some(_) => spec_skip_values(s, p1, (n - 1) as nat),
        }
    }
}

/// The position after skipping one scaling list.
pub open spec fn spec_skip_scaling_list(s: Seq<u8>, p: int) -> int {
    spec_skip_values(s, p, 64)
}

/// `n` bits read big-endian always fit below `2^n`.
proof fn lemma_read_bits_bound(s: Seq<u8>, p: int, n: nat)
    requires
        n <= 31,
    ensures
        (spec_read_bits(s, p, n).0 as u64) < (1u64 << (n as u64)),
    decreases n,
{
    if n == 0 {
        let v = spec_read_bits(s, p, 0).0;
        assert(v == 0u32);
        assert((0u32 as u64) < (1u64 << 0u64)) by (bit_vector);
    } else {
        lemma_read_bits_bound(s, p, (n - 1) as nat);
        let prev = spec_read_bits(s, p, (n - 1) as nat).0;
        let m: u64 = (n - 1) as u64;
        assert(((((prev << 1u32) | 1u32)) as u64) < (1u64 << ((m + 1) as u64)) && ((((prev
            << 1u32) | 0u32)) as u64) < (1u64 << ((m + 1) as u64))) by (bit_vector)
            requires
                m <= 30,
                (prev as u64) < (1u64 << m),
        ;
    }
}


/// The position after a run of scaling-list flags: each set flag is
/// followed by a list to skip.
pub open spec fn spec_scaling_lists(s: Seq<u8>, p: int, n: nat) -> int
    decreases n,
{
    if n == 0 {
        p
    } else {
        let (b, p1) = spec_read_bit(s, p);
        let p2 = if b {
            spec_skip_scaling_list(s, p1)
        } else {
            p1
        };
        spec_scaling_lists(s, p2, (n - 1) as nat)
    }
}

/// Whether the profile carries the chroma, bit-depth and scaling-matrix
/// fields in its sequence parameter set.
pub open spec fn spec_is_high_profile(profile_idc: u8) -> bool {
    profile_idc == 100 || profile_idc == 110 || profile_idc == 122 || profile_idc == 244
        || profile_idc == 44 || profile_idc == 83 || profile_idc == 86 || profile_idc == 118
        || profile_idc == 128 || profile_idc == 138 || profile_idc == 139 || profile_idc == 134
}

/// The position after the high-profile fields, when the profile has them:
/// chroma format, optional separate-colour-plane flag, the two bit depths,
/// the transform-bypass flag, and the scaling matrices when present.
pub open spec fn spec_high_profile_fields(s: Seq<u8>, p: int, profile_idc: u8) -> Option<int> {
    if !spec_is_high_profile(profile_idc) {
        Some(p)
    } else {
        let (chroma, p1) = spec_read_ue(s, p);
        match chroma {
            None => None,
            Some(cf) => {
                let p2 = if cf == 3 {
                    spec_skip_bits(s, p1, 1)
                } else {
                    p1
                };
                let (luma, p3) = spec_read_ue(s, p2);
                match luma {
                    None => None,
                    Some(_) => {
                        let (chroma_depth, p4) = spec_read_ue(s, p3);
                        match chroma_depth {
                            None => None,
                            Some(_) => {
                                let p5 = spec_skip_bits(s, p4, 1);
                                let (flag, p6) = spec_read_bit(s, p5);
                                if flag {
                                    Some(
                                        spec_scaling_lists(
                                            s,
                                            p6,
                                            if cf != 3 {
                                                8nat
                                            } else {
                                                12nat
                                            },
                                        ),
                                    )
                                } else {
                                    Some(p6)
                                }
                            },
                        }
                    },
                }
            },
        }
    }
}

/// The position after `n` signed coded values; `None` when one cannot be
/// read.
pub open spec fn spec_skip_se_values(s: Seq<u8>, p: int, n: nat) -> Option<int>
    decreases n,
{
    if n == 0 {
        Some(p)
    } else {
        let (v, p1) = spec_read_ue(s, p);
        match v {
            None => None,
            Some(_) => spec_skip_se_values(s, p1, (n - 1) as nat),
        }
    }
}

/// The position after the picture-order-count fields: the frame-number
/// length, the count type, and the fields that type brings with it.
pub open spec fn spec_poc_fields(s: Seq<u8>, p: int) -> Option<int> {
    let (log2mfn, p1) = spec_read_ue(s, p);
    match log2mfn {
        None => None,
        Some(_) => {
            let (ty, p2) = spec_read_ue(s, p1);
            match ty {
                None => None,
                Some(t) => if t == 0 {
                    let (v, p3) = spec_read_ue(s, p2);
                    match v {
                        None => None,
                        Some(_) => Some(p3),
                    }
                } else if t == 1 {
                    let p3 = spec_skip_bits(s, p2, 1);
                    let (a, p4) = spec_read_ue(s, p3);
                    match a {
                        None => None,
                        Some(_) => {
                            let (b, p5) = spec_read_ue(s, p4);
                            match b {
                                None => None,
                                Some(_) => {
                                    let (nref, p6) = spec_read_ue(s, p5);
                                    match nref {
                                        None => None,
                                        Some(k) => spec_skip_se_values(s, p6, k as nat),
                                    }
                                },
                            }
                        },
                    }
                } else {
                    Some(p2)
                },
            }
        },
    }
}

/// The resolution coded in a sequence parameter set, in pixels: the
/// macroblock counts after the profile, chroma and picture-order fields,
/// times sixteen, with the height doubled for interlaced video.  `None`
/// for a truncated or implausible set.
pub open spec fn spec_sps_resolution(s: Seq<u8>) -> Option<(i32, i32)> {
    if s.len() < 4 {
        None
    } else {
        let body = s.skip(1);
        let p0 = spec_skip_bits(body, 0, 16);
        let (spsid, p1) = spec_read_ue(body, p0);
        match spsid {
            None => None,
            Some(_) => match spec_high_profile_fields(body, p1, s[1]) {
                None => None,
                Some(p2) => match spec_poc_fields(body, p2) {
                    None => None,
                    Some(p3) => {
                        let (nref, p4) = spec_read_ue(body, p3);
                        match nref {
                            None => None,
                            Some(_) => {
                                let p5 = spec_skip_bits(body, p4, 1);
                                let (wm, p6) = spec_read_ue(body, p5);
                                match wm {
                                    None => None,
                                    Some(w) => {
                                        let (hm, p7) = spec_read_ue(body, p6);
                                        match hm {
                                            None => None,
                                            Some(h) => {
                                                let (fmo, _p8) = spec_read_bit(body, p7);
                                                let width = (w + 1) * 16;
                                                let height = if fmo {
                                                    (h + 1) * 16
                                                } else {
                                                    (h + 1) * 32
                                                };
                                                if width <= 0x7fffffff && height <= 0x7fffffff {
                                                    Some((width as i32, height as i32))
                                                } else {
                                                    None
                                                }
                                            },
                                        }
                                    },
                                }
                            },
                        }
                    },
                },
            },
        }
    }
}

#[verifier::loop_isolation(false)]
fn parse_scaling_matrices(reader: &mut BitReader<'_>, chroma_format_idc: u32)
    requires
        old(reader).inv(),
    ensures
        final(reader).inv(),
        final(reader).data_spec() == old(reader).data_spec(),
        final(reader).pos() == spec_scaling_lists(
            old(reader).data_spec(),
            old(reader).pos(),
            if chroma_format_idc != 3 {
                8nat
            } else {
                12nat
            },
        ),
{
    let num_lists: usize = if chroma_format_idc != 3 {
        8
    } else {
        12
    };
    let mut i: usize = 0;
    while i < num_lists
        invariant
            i <= num_lists,
            reader.inv(),
            reader.data_spec() == old(reader).data_spec(),
            spec_scaling_lists(
                old(reader).data_spec(),
                old(reader).pos(),
                num_lists as nat,
            ) == spec_scaling_lists(reader.data_spec(), reader.pos(), (num_lists - i) as nat),
        decreases num_lists - i,
    {
        let ghost pre = *reader;
        let b = reader.read_bit();
        if b {
            reader.skip_scaling_list();
        }
        proof {
            assert(spec_scaling_lists(pre.data_spec(), pre.pos(), (num_lists - i) as nat)
                == spec_scaling_lists(reader.data_spec(), reader.pos(), (num_lists - i
                - 1) as nat));
        }
        i = i + 1;
    }
}

fn parse_high_profile_fields(reader: &mut BitReader<'_>, profile_idc: u8) -> (r: Result<
    (),
    CliError,
>)
    requires
        old(reader).inv(),
    ensures
        final(reader).inv(),
        final(reader).data_spec() == old(reader).data_spec(),
        ({
            let outcome = spec_high_profile_fields(
                old(reader).data_spec(),
                old(reader).pos(),
                profile_idc,
            );
            &&& (r is Ok <==> outcome is Some)
            &&& (outcome matches Some(p) ==> final(reader).pos() == p)
            &&& (r is Err ==> r->Err_0 is General)
        }),
{
    let high = profile_idc == 100 || profile_idc == 110 || profile_idc == 122 || profile_idc
        == 244 || profile_idc == 44 || profile_idc == 83 || profile_idc == 86 || profile_idc
        == 118 || profile_idc == 128 || profile_idc == 138 || profile_idc == 139 || profile_idc
        == 134;
    if !high {
        return Ok(());
    }
    let chroma_format_idc = match reader.read_ue() {
        Some(v) => v,
        None => {
            return Err(CliError::General("Failed to read chroma format".to_owned()));
        },
    };
    if chroma_format_idc == 3 {
        reader.skip_bits(1);
    }
    if reader.read_ue().is_none() {
        return Err(CliError::General("Failed to read luma bit depth".to_owned()));
    }
    if reader.read_ue().is_none() {
        return Err(CliError::General("Failed to read chroma bit depth".to_owned()));
    }
    reader.skip_bits(1);
    let flag = reader.read_bit();
    if flag {
        parse_scaling_matrices(reader, chroma_format_idc);
    }
    Ok(())
}

#[verifier::loop_isolation(false)]
fn parse_poc_type_1(reader: &mut BitReader<'_>) -> (r: Result<(), CliError>)
    requires
        old(reader).inv(),
    ensures
        final(reader).inv(),
        final(reader).data_spec() == old(reader).data_spec(),
        ({
            let p2 = old(reader).pos();
            let s = old(reader).data_spec();
            let p3 = spec_skip_bits(s, p2, 1);
            let outcome = match spec_read_ue(s, p3).0 {
                None => None::<int>,
                Some(_) => {
                    let p4 = spec_read_ue(s, p3).1;
                    match spec_read_ue(s, p4).0 {
                        None => None::<int>,
                        Some(_) => {
                            let p5 = spec_read_ue(s, p4).1;
                            match spec_read_ue(s, p5).0 {
                                None => None::<int>,
                                Some(k) => spec_skip_se_values(
                                    s,
                                    spec_read_ue(s, p5).1,
                                    k as nat,
                                ),
                            }
                        },
                    }
                },
            };
            &&& (r is Ok <==> outcome is Some)
            &&& (outcome matches Some(p) ==> final(reader).pos() == p)
            &&& (r is Err ==> r->Err_0 is General)
        }),
{
    reader.skip_bits(1);
    if reader.read_se().is_none() {
        return Err(CliError::General("Failed to read reference offset".to_owned()));
    }
    if reader.read_se().is_none() {
        return Err(CliError::General("Failed to read field offset".to_owned()));
    }
    let num_ref = match reader.read_ue() {
        Some(v) => v,
        None => {
            return Err(CliError::General("Failed to read reference count".to_owned()));
        },
    };
    let ghost s = old(reader).data_spec();
    let ghost start = reader.pos();
    let mut i: u32 = 0;
    while i < num_ref
        invariant
            i <= num_ref,
            reader.inv(),
            reader.data_spec() == s,
            spec_skip_se_values(s, start, num_ref as nat) == spec_skip_se_values(
                s,
                reader.pos(),
                (num_ref - i) as nat,
            ),
        decreases num_ref - i,
    {
        let ghost pre = *reader;
        if reader.read_se().is_none() {
            proof {
                assert(spec_skip_se_values(s, pre.pos(), (num_ref - i) as nat) is None);
            }
            return Err(CliError::General("Failed to read reference offset".to_owned()));
        }
        proof {
            assert(spec_skip_se_values(s, pre.pos(), (num_ref - i) as nat)
                == spec_skip_se_values(s, reader.pos(), (num_ref - i - 1) as nat));
        }
        i = i + 1;
    }
    Ok(())
}


fn parse_poc_type_0(reader: &mut BitReader<'_>) -> (r: Result<(), CliError>)
    requires
        old(reader).inv(),
    ensures
        final(reader).inv(),
        final(reader).data_spec() == old(reader).data_spec(),
        ({
            let outcome = spec_read_ue(old(reader).data_spec(), old(reader).pos());
            &&& (r is Ok <==> outcome.0 is Some)
            &&& (outcome.0 is Some ==> final(reader).pos() == outcome.1)
            &&& (r is Err ==> r->Err_0 is General)
        }),
{
    if reader.read_ue().is_none() {
        return Err(CliError::General("Failed to read picture order length".to_owned()));
    }
    Ok(())
}

fn parse_pic_order_cnt_fields(reader: &mut BitReader<'_>) -> (r: Result<(), CliError>)
    requires
        old(reader).inv(),
    ensures
        final(reader).inv(),
        final(reader).data_spec() == old(reader).data_spec(),
        ({
            let outcome = spec_poc_fields(old(reader).data_spec(), old(reader).pos());
            &&& (r is Ok <==> outcome is Some)
            &&& (outcome matches Some(p) ==> final(reader).pos() == p)
            &&& (r is Err ==> r->Err_0 is General)
        }),
{
    if reader.read_ue().is_none() {
        return Err(CliError::General("Failed to read frame number length".to_owned()));
    }
    let poc_type = match reader.read_ue() {
        Some(v) => v,
        None => {
            return Err(CliError::General("Failed to read picture order type".to_owned()));
        },
    };
    if poc_type == 0 {
        parse_poc_type_0(reader)
    } else if poc_type == 1 {
        parse_poc_type_1(reader)
    } else {
        Ok(())
    }
}

/// Reads the resolution coded in an H.264 sequence parameter set.
///
/// The set must hold at least its header; the profile, chroma and
/// picture-order fields are read and discarded on the way to the
/// macroblock counts, which give the size in pixels — doubled in height
/// for interlaced video.  A truncated or implausible set is rejected.
pub fn detect_resolution_from_sps(sps: &[u8]) -> (r: Result<(i32, i32), CliError>)
    ensures
        r is Ok <==> spec_sps_resolution(sps@) is Some,
        r matches Ok(d) ==> Some(d) == spec_sps_resolution(sps@),
        r is Err ==> r->Err_0 is General,
{
    if sps.len() < 4 {
        return Err(CliError::General("SPS too short to parse resolution".to_owned()));
    }
    let body = vstd::slice::slice_subrange(sps, 1, sps.len());
    proof {
        assert(body@ =~= sps@.skip(1));
    }
    let mut reader = BitReader::new(body);
    reader.skip_bits(16);
    if reader.read_ue().is_none() {
        return Err(CliError::General("Failed to read parameter set id".to_owned()));
    }
    let profile_idc = sps[1];
    if parse_high_profile_fields(&mut reader, profile_idc).is_err() {
        return Err(CliError::General("Failed to read profile fields".to_owned()));
    }
    if parse_pic_order_cnt_fields(&mut reader).is_err() {
        return Err(CliError::General("Failed to read picture order fields".to_owned()));
    }
    if reader.read_ue().is_none() {
        return Err(CliError::General("Failed to read reference frame count".to_owned()));
    }
    reader.skip_bits(1);
    let width_mbs = match reader.read_ue() {
        Some(v) => v,
        None => {
            return Err(CliError::General("Failed to read coded width".to_owned()));
        },
    };
    let height_map_units = match reader.read_ue() {
        Some(v) => v,
        None => {
            return Err(CliError::General("Failed to read coded height".to_owned()));
        },
    };
    let frame_mbs_only = reader.read_bit();
    let width: u64 = (width_mbs as u64 + 1) * 16;
    let height: u64 = if frame_mbs_only {
        (height_map_units as u64 + 1) * 16
    } else {
        (height_map_units as u64 + 1) * 32
    };
    if width > 0x7fffffff || height > 0x7fffffff {
        return Err(CliError::General("Implausible coded resolution".to_owned()));
    }
    Ok((width as i32, height as i32))
}

} // verus!
