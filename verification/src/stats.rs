//! The fixed stat block of a soldier record: twelve 4-byte little-endian
//! unsigned integers in a fixed order, six "current" values followed by the
//! same six attributes as "original" (base/training) values.

use vstd::bytes::*;
use vstd::prelude::*;

use crate::wire::{read_u32, sp_u32, push_u32_le};
use crate::DecodeError;

verus! {

/// Live and base values of the six soldier attributes. "Current" values may
/// be raised above the "original" ones by equipment or recovery.
#[derive(Clone, Copy, Debug, PartialEq, Eq, Structural)]
pub struct SoldierStats {
    pub time_units_current: u32,
    pub health_current: u32,
    pub strength_current: u32,
    pub accuracy_current: u32,
    pub reflexes_current: u32,
    pub bravery_current: u32,
    pub time_units_original: u32,
    pub health_original: u32,
    pub strength_original: u32,
    pub accuracy_original: u32,
    pub reflexes_original: u32,
    pub bravery_original: u32,
}

/// The 48-byte wire form of a stat block: each field in declaration order as
/// 4 little-endian bytes.
pub open spec fn spec_serialise_stats(s: SoldierStats) -> Seq<u8> {
    spec_u32_to_le_bytes(s.time_units_current) + spec_u32_to_le_bytes(s.health_current)
        + spec_u32_to_le_bytes(s.strength_current) + spec_u32_to_le_bytes(s.accuracy_current)
        + spec_u32_to_le_bytes(s.reflexes_current) + spec_u32_to_le_bytes(s.bravery_current)
        + spec_u32_to_le_bytes(s.time_units_original) + spec_u32_to_le_bytes(s.health_original)
        + spec_u32_to_le_bytes(s.strength_original) + spec_u32_to_le_bytes(s.accuracy_original)
        + spec_u32_to_le_bytes(s.reflexes_original) + spec_u32_to_le_bytes(s.bravery_original)
}

/// Decoding of a stat block at `pos`: twelve consecutive little-endian
/// integers, or `TruncatedInput` when fewer than 48 bytes remain.
pub open spec fn spec_parse_stats(input: Seq<u8>, pos: int) -> Result<
    (SoldierStats, int),
    DecodeError,
> {
    match sp_u32(input, pos) {
        Ok((time_units_current, p1)) => match sp_u32(input, p1) {
            Ok((health_current, p2)) => match sp_u32(input, p2) {
                Ok((strength_current, p3)) => match sp_u32(input, p3) {
                    Ok((accuracy_current, p4)) => match sp_u32(input, p4) {
                        Ok((reflexes_current, p5)) => match sp_u32(input, p5) {
                            Ok((bravery_current, p6)) => match sp_u32(input, p6) {
                                Ok((time_units_original, p7)) => match sp_u32(input, p7) {
                                    Ok((health_original, p8)) => match sp_u32(input, p8) {
                                        Ok((strength_original, p9)) => match sp_u32(input, p9) {
                                            Ok((accuracy_original, p10)) => match sp_u32(
                                                input,
                                                p10,
                                            ) {
                                                Ok((reflexes_original, p11)) => match sp_u32(
                                                    input,
                                                    p11,
                                                ) {
                                                    Ok((bravery_original, p12)) => Ok(
                                                        (
                                                            SoldierStats {
                                                                time_units_current,
                                                                health_current,
                                                                strength_current,
                                                                accuracy_current,
                                                                reflexes_current,
                                                                bravery_current,
                                                                time_units_original,
                                                                health_original,
                                                                strength_original,
                                                                accuracy_original,
                                                                reflexes_original,
                                                                bravery_original,
                                                            },
                                                            p12,
                                                        ),
                                                    ),
                                                    Err(e) => Err(e),
                                                },
                                                Err(e) => Err(e),
                                            },
                                            Err(e) => Err(e),
                                        },
                                        Err(e) => Err(e),
                                    },
                                    Err(e) => Err(e),
                                },
                                Err(e) => Err(e),
                            },
                            Err(e) => Err(e),
                        },
                        Err(e) => Err(e),
                    },
                    Err(e) => Err(e),
                },
                Err(e) => Err(e),
            },
            Err(e) => Err(e),
        },
        Err(e) => Err(e),
    }
}

/// A successful stat-block decode consumes exactly 48 bytes within the input.
pub proof fn lemma_parse_stats_bounds(input: Seq<u8>, pos: int)
    requires
        spec_parse_stats(input, pos) is Ok,
    ensures
        ({
            let (s, end) = spec_parse_stats(input, pos)->Ok_0;
            0 <= pos && end == pos + 48 && end <= input.len()
        }),
{
}

impl SoldierStats {
    /// Encode the stat block into its 48-byte wire form.
    pub fn serialise(&self) -> (out: Vec<u8>)
        ensures
            out@ == spec_serialise_stats(*self),
    {
        let mut out: Vec<u8> = Vec::new();
        push_u32_le(&mut out, self.time_units_current);
        push_u32_le(&mut out, self.health_current);
        push_u32_le(&mut out, self.strength_current);
        push_u32_le(&mut out, self.accuracy_current);
        push_u32_le(&mut out, self.reflexes_current);
        push_u32_le(&mut out, self.bravery_current);
        push_u32_le(&mut out, self.time_units_original);
        push_u32_le(&mut out, self.health_original);
        push_u32_le(&mut out, self.strength_original);
        push_u32_le(&mut out, self.accuracy_original);
        push_u32_le(&mut out, self.reflexes_original);
        push_u32_le(&mut out, self.bravery_original);
        proof {
            assert(out@ =~= spec_serialise_stats(*self));
        }
        out
    }
}

/// Decode a stat block at `pos`.
pub fn parse_soldier_stats(input: &[u8], pos: usize) -> (r: Result<
    (SoldierStats, usize),
    DecodeError,
>)
    ensures
        match r {
            Ok((s, p)) => {
                &&& spec_parse_stats(input@, pos as int) == Ok::<_, DecodeError>((s, p as int))
                &&& p <= input@.len()
            },
            Err(e) => spec_parse_stats(input@, pos as int) == Err::<(SoldierStats, int), _>(e),
        },
{
    let (time_units_current, p) = match read_u32(input, pos) {
        Ok(v) => v,
        Err(e) => {
            return Err(e);
        },
    };
    let (health_current, p) = match read_u32(input, p) {
        Ok(v) => v,
        Err(e) => {
            return Err(e);
        },
    };
    let (strength_current, p) = match read_u32(input, p) {
        Ok(v) => v,
        Err(e) => {
            return Err(e);
        },
    };
    let (accuracy_current, p) = match read_u32(input, p) {
        Ok(v) => v,
        Err(e) => {
            return Err(e);
        },
    };
    let (reflexes_current, p) = match read_u32(input, p) {
        Ok(v) => v,
        Err(e) => {
            return Err(e);
        },
    };
    let (bravery_current, p) = match read_u32(input, p) {
        Ok(v) => v,
        Err(e) => {
            return Err(e);
        },
    };
    let (time_units_original, p) = match read_u32(input, p) {
        Ok(v) => v,
        Err(e) => {
            return Err(e);
        },
    };
    let (health_original, p) = match read_u32(input, p) {
        Ok(v) => v,
        Err(e) => {
            return Err(e);
        },
    };
    let (strength_original, p) = match read_u32(input, p) {
        Ok(v) => v,
        Err(e) => {
            return Err(e);
        },
    };
    let (accuracy_original, p) = match read_u32(input, p) {
        Ok(v) => v,
        Err(e) => {
            return Err(e);
        },
    };
    let (reflexes_original, p) = match read_u32(input, p) {
        Ok(v) => v,
        Err(e) => {
            return Err(e);
        },
    };
    let (bravery_original, p) = match read_u32(input, p) {
        Ok(v) => v,
        Err(e) => {
            return Err(e);
        },
    };
    Ok(
        (
            SoldierStats {
                time_units_current,
                health_current,
                strength_current,
                accuracy_current,
                reflexes_current,
                bravery_current,
                time_units_original,
                health_original,
                strength_original,
                accuracy_original,
                reflexes_original,
                bravery_original,
            },
            p,
        ),
    )
}

/// Re-encoding a decoded stat block reproduces the 48 bytes it came from.
pub proof fn lemma_stats_round_trip(input: Seq<u8>, pos: int)
    requires
        spec_parse_stats(input, pos) is Ok,
    ensures
        ({
            let (s, end) = spec_parse_stats(input, pos)->Ok_0;
            spec_serialise_stats(s) == input.subrange(pos, end)
        }),
{
    lemma_auto_spec_u32_to_from_le_bytes();
    let (s, end) = spec_parse_stats(input, pos)->Ok_0;
    assert(spec_serialise_stats(s) =~= input.subrange(pos, end));
}

} // verus!
