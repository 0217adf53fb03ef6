//! Codec for a single fixed-layout "Soldier" record.
//!
//! A record is delimited by two literal markers. Between them come the typed
//! fields in a fixed order; after the gender byte, everything up to the end
//! marker is per-soldier state that has not been reverse-engineered and is
//! captured verbatim. The two fixed-width opaque filler blocks are captured
//! and replayed as well, so that re-encoding an unmodified record is
//! byte-exact.

use vstd::bytes::*;
use vstd::prelude::*;
use vstd::utf8::encode_utf8;

use crate::stats::{
    lemma_parse_stats_bounds, lemma_stats_round_trip, parse_soldier_stats, spec_parse_stats,
    spec_serialise_stats, SoldierStats,
};
use crate::wire::{
    lemma_length_data_segment, lemma_scan_past_segment, lemma_string_segment, lemma_subrange_glue,
    lemma_u32_segment, push_bytes, push_length_prefixed, push_u32_le, read_length_data,
    read_string, read_u32, scan_past, sp_length_data, sp_scan_past, sp_string, sp_tag, sp_take,
    sp_u32, spec_length_prefixed, tag_at, take_bytes,
};
use crate::DecodeError;

verus! {

/// Width of the opaque filler block between `xp` and the age field. An
/// earlier format revision used 38 bytes here, so the width is a named
/// constant rather than a literal spread through the codec.
pub const OPAQUE_BLOCK_A_LEN: usize = 36;

/// Width of the opaque filler block after `experience`.
pub const OPAQUE_BLOCK_B_LEN: usize = 4;

/// The record start marker: `MARK`, 7, three zero bytes, `Soldier`.
pub open spec fn soldier_start_bytes() -> Seq<u8> {
    seq![
        0x4du8, 0x41u8, 0x52u8, 0x4bu8, 0x07u8, 0x00u8, 0x00u8, 0x00u8, 0x53u8, 0x6fu8, 0x6cu8,
        0x64u8, 0x69u8, 0x65u8, 0x72u8,
    ]
}

/// The record end marker: `MARK`, 8, three zero bytes, `Soldier2`.
pub open spec fn soldier_end_bytes() -> Seq<u8> {
    seq![
        0x4du8, 0x41u8, 0x52u8, 0x4bu8, 0x08u8, 0x00u8, 0x00u8, 0x00u8, 0x53u8, 0x6fu8, 0x6cu8,
        0x64u8, 0x69u8, 0x65u8, 0x72u8, 0x32u8,
    ]
}

/// The record start marker as a byte vector.
pub fn soldier_start() -> (v: Vec<u8>)
    ensures
        v@ == soldier_start_bytes(),
{
    let mut v: Vec<u8> = Vec::new();
    v.push(0x4d);
    v.push(0x41);
    v.push(0x52);
    v.push(0x4b);
    v.push(0x07);
    v.push(0x00);
    v.push(0x00);
    v.push(0x00);
    v.push(0x53);
    v.push(0x6f);
    v.push(0x6c);
    v.push(0x64);
    v.push(0x69);
    v.push(0x65);
    v.push(0x72);
    proof {
        assert(v@ =~= soldier_start_bytes());
    }
    v
}

/// The record end marker as a byte vector.
pub fn soldier_end() -> (v: Vec<u8>)
    ensures
        v@ == soldier_end_bytes(),
{
    let mut v: Vec<u8> = Vec::new();
    v.push(0x4d);
    v.push(0x41);
    v.push(0x52);
    v.push(0x4b);
    v.push(0x08);
    v.push(0x00);
    v.push(0x00);
    v.push(0x00);
    v.push(0x53);
    v.push(0x6f);
    v.push(0x6c);
    v.push(0x64);
    v.push(0x69);
    v.push(0x65);
    v.push(0x72);
    v.push(0x32);
    proof {
        assert(v@ =~= soldier_end_bytes());
    }
    v
}

/// A soldier's gender, stored on the wire as a single byte: 0 female, 1 male.
/// Any other byte value is an `InvalidEnum` decode fault.
#[derive(Clone, Copy, Debug, PartialEq, Eq, Structural)]
pub enum Gender {
    Female,
    Male,
}

/// The wire byte of a gender value.
pub open spec fn spec_gender_byte(g: Gender) -> u8 {
    match g {
        Gender::Female => 0,
        Gender::Male => 1,
    }
}

/// Mathematical model of a soldier record: every typed field as a plain
/// value, every opaque span as the byte sequence captured from the file.
pub struct SoldierModel {
    pub id: u32,
    pub nationality: Seq<char>,
    pub name: Seq<char>,
    pub race: Seq<u8>,
    pub face_number: u32,
    pub nation: Seq<u8>,
    pub stats: SoldierStats,
    pub xp: u32,
    pub opaque_block_a: Seq<u8>,
    pub age_bits: u32,
    pub regiment: Seq<u8>,
    pub experience: Seq<u8>,
    pub opaque_block_b: Seq<u8>,
    pub carrier: Seq<u8>,
    pub unknown_number: u32,
    pub another_unknown_number: u32,
    pub gender: Gender,
    pub remaining_bytes: Seq<u8>,
}

impl SoldierModel {
    /// Every length-prefixed field is short enough for its 4-byte length
    /// prefix. Decoded records always satisfy this, since each such length
    /// was itself read from a 4-byte prefix.
    pub open spec fn wf(self) -> bool {
        &&& encode_utf8(self.nationality).len() <= u32::MAX
        &&& encode_utf8(self.name).len() <= u32::MAX
        &&& self.race.len() <= u32::MAX
        &&& self.nation.len() <= u32::MAX
        &&& self.regiment.len() <= u32::MAX
        &&& self.experience.len() <= u32::MAX
        &&& self.carrier.len() <= u32::MAX
    }
}

/// One combatant record. String fields must be UTF-8; the raw byte-string
/// fields tolerate any bytes. `age_bits` holds the 4-byte age field as its
/// little-endian bit pattern: the game stores an IEEE-754 value there, which
/// callers that display it may reinterpret, while the codec itself preserves
/// the bits exactly.
#[derive(Clone, Debug, PartialEq)]
pub struct Soldier {
    pub id: u32,
    pub nationality: String,
    pub name: String,
    pub race: Vec<u8>,
    pub face_number: u32,
    pub nation: Vec<u8>,
    pub stats: SoldierStats,
    pub xp: u32,
    pub opaque_block_a: Vec<u8>,
    pub age_bits: u32,
    pub regiment: Vec<u8>,
    pub experience: Vec<u8>,
    pub opaque_block_b: Vec<u8>,
    pub carrier: Vec<u8>,
    pub unknown_number: u32,
    pub another_unknown_number: u32,
    pub gender: Gender,
    pub remaining_bytes: Vec<u8>,
}

impl View for Soldier {
    type V = SoldierModel;

    open spec fn view(&self) -> SoldierModel {
        SoldierModel {
            id: self.id,
            nationality: self.nationality@,
            name: self.name@,
            race: self.race@,
            face_number: self.face_number,
            nation: self.nation@,
            stats: self.stats,
            xp: self.xp,
            opaque_block_a: self.opaque_block_a@,
            age_bits: self.age_bits,
            regiment: self.regiment@,
            experience: self.experience@,
            opaque_block_b: self.opaque_block_b@,
            carrier: self.carrier@,
            unknown_number: self.unknown_number,
            another_unknown_number: self.another_unknown_number,
            gender: self.gender,
            remaining_bytes: self.remaining_bytes@,
        }
    }
}

impl DeepView for Soldier {
    type V = SoldierModel;

    open spec fn deep_view(&self) -> SoldierModel {
        self.view()
    }
}

/// The wire form of a soldier record: start marker, each field in order
/// (length prefixes recomputed from the field contents), the captured opaque
/// spans verbatim, then the end marker.
pub open spec fn spec_serialise_soldier(m: SoldierModel) -> Seq<u8>
    recommends
        m.wf(),
{
    soldier_start_bytes() + spec_u32_to_le_bytes(m.id) + spec_length_prefixed(
        encode_utf8(m.nationality),
    ) + spec_length_prefixed(encode_utf8(m.name)) + spec_length_prefixed(m.race)
        + spec_u32_to_le_bytes(m.face_number) + spec_length_prefixed(m.nation)
        + spec_serialise_stats(m.stats) + spec_u32_to_le_bytes(m.xp) + m.opaque_block_a
        + spec_u32_to_le_bytes(m.age_bits) + spec_length_prefixed(m.regiment)
        + spec_length_prefixed(m.experience) + m.opaque_block_b + spec_length_prefixed(m.carrier)
        + spec_u32_to_le_bytes(m.unknown_number) + spec_u32_to_le_bytes(m.another_unknown_number)
        + seq![spec_gender_byte(m.gender)] + m.remaining_bytes + soldier_end_bytes()
}

/// Decoding of a soldier record at `pos`: the start marker must sit exactly
/// at `pos`, the fixed fields follow in order, and everything between the
/// gender byte and the first occurrence of the end marker is captured as
/// `remaining_bytes`. The result pairs the record with the position just past
/// the end marker.
///
/// The definition is kept opaque: callers reason through `parse_soldier`'s
/// contract and `lemma_soldier_round_trip` rather than by unfolding the long
/// match chain.
#[verifier::opaque]
pub open spec fn spec_parse_soldier(input: Seq<u8>, pos: int) -> Result<
    (SoldierModel, int),
    DecodeError,
> {
    match sp_tag(input, soldier_start_bytes(), pos) {
        Ok(p1) => match sp_u32(input, p1) {
            Ok((id, p2)) => match sp_string(input, p2) {
                Ok((nationality, p3)) => match sp_string(input, p3) {
                    Ok((name, p4)) => match sp_length_data(input, p4) {
                        Ok((race, p5)) => match sp_u32(input, p5) {
                            Ok((face_number, p6)) => match sp_length_data(input, p6) {
                                Ok((nation, p7)) => match spec_parse_stats(input, p7) {
                                    Ok((stats, p8)) => match sp_u32(input, p8) {
                                        Ok((xp, p9)) => match sp_take(
                                            input,
                                            p9,
                                            OPAQUE_BLOCK_A_LEN as int,
                                        ) {
                                            Ok((opaque_block_a, p10)) => match sp_u32(input, p10) {
                                                Ok((age_bits, p11)) => match sp_length_data(
                                                    input,
                                                    p11,
                                                ) {
                                                    Ok((regiment, p12)) => match sp_length_data(
                                                        input,
                                                        p12,
                                                    ) {
                                                        Ok((experience, p13)) => match sp_take(
                                                            input,
                                                            p13,
                                                            OPAQUE_BLOCK_B_LEN as int,
                                                        ) {
                                                            Ok(
                                                                (opaque_block_b, p14),
                                                            ) => match sp_length_data(input, p14) {
                                                                Ok((carrier, p15)) => match sp_u32(
                                                                    input,
                                                                    p15,
                                                                ) {
                                                                    Ok(
                                                                        (unknown_number, p16),
                                                                    ) => match sp_u32(input, p16) {
                                                                        Ok(
                                                                            (
                                                                                another_unknown_number,
                                                                                p17,
                                                                            ),
                                                                        ) => match sp_take(
                                                                            input,
                                                                            p17,
                                                                            1,
                                                                        ) {
                                                                            Ok(
                                                                                (gb, p18),
                                                                            ) => if gb[0] == 0 || gb[0]
                                                                                == 1 {
                                                                                match sp_scan_past(
                                                                                    input,
                                                                                    soldier_end_bytes(),
                                                                                    p18,
                                                                                ) {
                                                                                    Ok(
                                                                                        (
                                                                                            remaining_bytes,
                                                                                            p19,
                                                                                        ),
                                                                                    ) => Ok(
                                                                                        (
                                                                                            SoldierModel {
                                                                                                id,
                                                                                                nationality,
                                                                                                name,
                                                                                                race,
                                                                                                face_number,
                                                                                                nation,
                                                                                                stats,
                                                                                                xp,
                                                                                                opaque_block_a,
                                                                                                age_bits,
                                                                                                regiment,
                                                                                                experience,
                                                                                                opaque_block_b,
                                                                                                carrier,
                                                                                                unknown_number,
                                                                                                another_unknown_number,
                                                                                                gender: if gb[0]
                                                                                                    == 1 {
                                                                                                    Gender::Male
                                                                                                } else {
                                                                                                    Gender::Female
                                                                                                },
                                                                                                remaining_bytes,
                                                                                            },
                                                                                            p19,
                                                                                        ),
                                                                                    ),
                                                                                    Err(e) => Err(
                                                                                        e,
                                                                                    ),
                                                                                }
                                                                            } else {
                                                                                Err(
                                                                                    DecodeError::InvalidEnum,
                                                                                )
                                                                            },
                                                                            Err(e) => Err(e),
                                                                        },
                                                                        Err(e) => Err(e),
                                                                    },
                                                                    Err(e) => Err(e),
                                                                },
                                                                Err(e) => Err(e),
                                                            },
                                                            Err(e) => Err(e),
                                                        },
                                                        Err(e) => Err(e),
                                                    },
                                                    Err(e) => Err(e),
                                                },
                                                Err(e) => Err(e),
                                            },
                                            Err(e) => Err(e),
                                        },
                                        Err(e) => Err(e),
                                    },
                                    Err(e) => Err(e),
                                },
                                Err(e) => Err(e),
                            },
                            Err(e) => Err(e),
                        },
                        Err(e) => Err(e),
                    },
                    Err(e) => Err(e),
                },
                Err(e) => Err(e),
            },
            Err(e) => Err(e),
        },
        Err(e) => Err(e),
    }
}

/// Decode one soldier record at `pos`.
pub fn parse_soldier(input: &[u8], pos: usize) -> (r: Result<(Soldier, usize), DecodeError>)
    ensures
        match r {
            Ok((s, p)) => {
                &&& spec_parse_soldier(input@, pos as int) == Ok::<_, DecodeError>((s@, p as int))
                &&& p <= input@.len()
            },
            Err(e) => spec_parse_soldier(input@, pos as int) == Err::<(SoldierModel, int), _>(e),
        },
{
    proof {
        reveal(spec_parse_soldier);
    }
    let start_marker = soldier_start();
    if !tag_at(input, start_marker.as_slice(), pos) {
        return Err(DecodeError::MarkerNotFound);
    }
    let n = input.len();
    proof {
        assert(pos + soldier_start_bytes().len() <= n);
    }
    let p = pos + start_marker.len();
    let (id, p) = match read_u32(input, p) {
        Ok(v) => v,
        Err(e) => {
            return Err(e);
        },
    };
    let (nationality, p) = match read_string(input, p) {
        Ok(v) => v,
        Err(e) => {
            return Err(e);
        },
    };
    let (name, p) = match read_string(input, p) {
        Ok(v) => v,
        Err(e) => {
            return Err(e);
        },
    };
    let (race, p) = match read_length_data(input, p) {
        Ok(v) => v,
        Err(e) => {
            return Err(e);
        },
    };
    let (face_number, p) = match read_u32(input, p) {
        Ok(v) => v,
        Err(e) => {
            return Err(e);
        },
    };
    let (nation, p) = match read_length_data(input, p) {
        Ok(v) => v,
        Err(e) => {
            return Err(e);
        },
    };
    let (stats, p) = match parse_soldier_stats(input, p) {
        Ok(v) => v,
        Err(e) => {
            return Err(e);
        },
    };
    let (xp, p) = match read_u32(input, p) {
        Ok(v) => v,
        Err(e) => {
            return Err(e);
        },
    };
    let (opaque_block_a, p) = match take_bytes(input, p, OPAQUE_BLOCK_A_LEN) {
        Ok(v) => v,
        Err(e) => {
            return Err(e);
        },
    };
    let (age_bits, p) = match read_u32(input, p) {
        Ok(v) => v,
        Err(e) => {
            return Err(e);
        },
    };
    let (regiment, p) = match read_length_data(input, p) {
        Ok(v) => v,
        Err(e) => {
            return Err(e);
        },
    };
    let (experience, p) = match read_length_data(input, p) {
        Ok(v) => v,
        Err(e) => {
            return Err(e);
        },
    };
    let (opaque_block_b, p) = match take_bytes(input, p, OPAQUE_BLOCK_B_LEN) {
        Ok(v) => v,
        Err(e) => {
            return Err(e);
        },
    };
    let (carrier, p) = match read_length_data(input, p) {
        Ok(v) => v,
        Err(e) => {
            return Err(e);
        },
    };
    let (unknown_number, p) = match read_u32(input, p) {
        Ok(v) => v,
        Err(e) => {
            return Err(e);
        },
    };
    let (another_unknown_number, p) = match read_u32(input, p) {
        Ok(v) => v,
        Err(e) => {
            return Err(e);
        },
    };
    let (gender_bytes, p) = match take_bytes(input, p, 1) {
        Ok(v) => v,
        Err(e) => {
            return Err(e);
        },
    };
    let gb = gender_bytes[0];
    if gb != 0 && gb != 1 {
        return Err(DecodeError::InvalidEnum);
    }
    let gender = if gb == 1 {
        Gender::Male
    } else {
        Gender::Female
    };
    let end_marker = soldier_end();
    let (remaining_bytes, p) = match scan_past(input, end_marker.as_slice(), p) {
        Ok(v) => v,
        Err(e) => {
            return Err(e);
        },
    };
    Ok(
        (
            Soldier {
                id,
                nationality,
                name,
                race,
                face_number,
                nation,
                stats,
                xp,
                opaque_block_a,
                age_bits,
                regiment,
                experience,
                opaque_block_b,
                carrier,
                unknown_number,
                another_unknown_number,
                gender,
                remaining_bytes,
            },
            p,
        ),
    )
}

impl Soldier {
    /// Encode the record into its wire form, recomputing every length prefix
    /// from the current content of its field.
    pub fn serialise(&self) -> (out: Vec<u8>)
        requires
            self@.wf(),
        ensures
            out@ == spec_serialise_soldier(self@),
    {
        let mut out = soldier_start();
        push_u32_le(&mut out, self.id);
        push_length_prefixed(&mut out, self.nationality.as_str().as_bytes());
        push_length_prefixed(&mut out, self.name.as_str().as_bytes());
        push_length_prefixed(&mut out, self.race.as_slice());
        push_u32_le(&mut out, self.face_number);
        push_length_prefixed(&mut out, self.nation.as_slice());
        let mut stats = self.stats.serialise();
        out.append(&mut stats);
        push_u32_le(&mut out, self.xp);
        push_bytes(&mut out, self.opaque_block_a.as_slice());
        push_u32_le(&mut out, self.age_bits);
        push_length_prefixed(&mut out, self.regiment.as_slice());
        push_length_prefixed(&mut out, self.experience.as_slice());
        push_bytes(&mut out, self.opaque_block_b.as_slice());
        push_length_prefixed(&mut out, self.carrier.as_slice());
        push_u32_le(&mut out, self.unknown_number);
        push_u32_le(&mut out, self.another_unknown_number);
        let gb: u8 = match self.gender {
            Gender::Female => 0,
            Gender::Male => 1,
        };
        out.push(gb);
        push_bytes(&mut out, self.remaining_bytes.as_slice());
        let mut end_marker = soldier_end();
        out.append(&mut end_marker);
        proof {
            assert(out@ =~= spec_serialise_soldier(self@));
        }
        out
    }
}

/// Re-encoding a decoded soldier record reproduces exactly the bytes the
/// record was decoded from: every opaque span is replayed verbatim and every
/// length prefix is recomputed to its original value. A successful decode
/// also always makes progress and stays within the input.
pub proof fn lemma_soldier_round_trip(input: Seq<u8>, pos: int)
    requires
        spec_parse_soldier(input, pos) is Ok,
    ensures
        ({
            let (m, end) = spec_parse_soldier(input, pos)->Ok_0;
            &&& 0 <= pos < end <= input.len()
            &&& m.wf()
            &&& spec_serialise_soldier(m) == input.subrange(pos, end)
        }),
{
    reveal(spec_parse_soldier);
    let (m, end) = spec_parse_soldier(input, pos)->Ok_0;
    let start = soldier_start_bytes();
    let endm = soldier_end_bytes();
    let p1 = sp_tag(input, start, pos)->Ok_0;
    let (id, p2) = sp_u32(input, p1)->Ok_0;
    let (nationality, p3) = sp_string(input, p2)->Ok_0;
    let (name, p4) = sp_string(input, p3)->Ok_0;
    let (race, p5) = sp_length_data(input, p4)->Ok_0;
    let (face_number, p6) = sp_u32(input, p5)->Ok_0;
    let (nation, p7) = sp_length_data(input, p6)->Ok_0;
    let (stats, p8) = spec_parse_stats(input, p7)->Ok_0;
    let (xp, p9) = sp_u32(input, p8)->Ok_0;
    let (block_a, p10) = sp_take(input, p9, OPAQUE_BLOCK_A_LEN as int)->Ok_0;
    let (age_bits, p11) = sp_u32(input, p10)->Ok_0;
    let (regiment, p12) = sp_length_data(input, p11)->Ok_0;
    let (experience, p13) = sp_length_data(input, p12)->Ok_0;
    let (block_b, p14) = sp_take(input, p13, OPAQUE_BLOCK_B_LEN as int)->Ok_0;
    let (carrier, p15) = sp_length_data(input, p14)->Ok_0;
    let (unknown_number, p16) = sp_u32(input, p15)->Ok_0;
    let (another_unknown_number, p17) = sp_u32(input, p16)->Ok_0;
    let (gb, p18) = sp_take(input, p17, 1)->Ok_0;
    let (remaining, p19) = sp_scan_past(input, endm, p18)->Ok_0;

    lemma_u32_segment(input, p1);
    lemma_string_segment(input, p2);
    lemma_string_segment(input, p3);
    lemma_length_data_segment(input, p4);
    lemma_u32_segment(input, p5);
    lemma_length_data_segment(input, p6);
    lemma_parse_stats_bounds(input, p7);
    lemma_stats_round_trip(input, p7);
    lemma_u32_segment(input, p8);
    lemma_u32_segment(input, p10);
    lemma_length_data_segment(input, p11);
    lemma_length_data_segment(input, p12);
    lemma_length_data_segment(input, p14);
    lemma_u32_segment(input, p15);
    lemma_u32_segment(input, p16);
    lemma_scan_past_segment(input, endm, p18);

    let s2 = start + spec_u32_to_le_bytes(id);
    assert(s2 == input.subrange(pos, p2)) by {
        lemma_subrange_glue(input, pos, p1, p2);
    }
    let s3 = s2 + spec_length_prefixed(encode_utf8(nationality));
    assert(s3 == input.subrange(pos, p3)) by {
        lemma_subrange_glue(input, pos, p2, p3);
    }
    let s4 = s3 + spec_length_prefixed(encode_utf8(name));
    assert(s4 == input.subrange(pos, p4)) by {
        lemma_subrange_glue(input, pos, p3, p4);
    }
    let s5 = s4 + spec_length_prefixed(race);
    assert(s5 == input.subrange(pos, p5)) by {
        lemma_subrange_glue(input, pos, p4, p5);
    }
    let s6 = s5 + spec_u32_to_le_bytes(face_number);
    assert(s6 == input.subrange(pos, p6)) by {
        lemma_subrange_glue(input, pos, p5, p6);
    }
    let s7 = s6 + spec_length_prefixed(nation);
    assert(s7 == input.subrange(pos, p7)) by {
        lemma_subrange_glue(input, pos, p6, p7);
    }
    let s8 = s7 + spec_serialise_stats(stats);
    assert(s8 == input.subrange(pos, p8)) by {
        lemma_subrange_glue(input, pos, p7, p8);
    }
    let s9 = s8 + spec_u32_to_le_bytes(xp);
    assert(s9 == input.subrange(pos, p9)) by {
        lemma_subrange_glue(input, pos, p8, p9);
    }
    let s10 = s9 + block_a;
    assert(s10 == input.subrange(pos, p10)) by {
        lemma_subrange_glue(input, pos, p9, p10);
    }
    let s11 = s10 + spec_u32_to_le_bytes(age_bits);
    assert(s11 == input.subrange(pos, p11)) by {
        lemma_subrange_glue(input, pos, p10, p11);
    }
    let s12 = s11 + spec_length_prefixed(regiment);
    assert(s12 == input.subrange(pos, p12)) by {
        lemma_subrange_glue(input, pos, p11, p12);
    }
    let s13 = s12 + spec_length_prefixed(experience);
    assert(s13 == input.subrange(pos, p13)) by {
        lemma_subrange_glue(input, pos, p12, p13);
    }
    let s14 = s13 + block_b;
    assert(s14 == input.subrange(pos, p14)) by {
        lemma_subrange_glue(input, pos, p13, p14);
    }
    let s15 = s14 + spec_length_prefixed(carrier);
    assert(s15 == input.subrange(pos, p15)) by {
        lemma_subrange_glue(input, pos, p14, p15);
    }
    let s16 = s15 + spec_u32_to_le_bytes(unknown_number);
    assert(s16 == input.subrange(pos, p16)) by {
        lemma_subrange_glue(input, pos, p15, p16);
    }
    let s17 = s16 + spec_u32_to_le_bytes(another_unknown_number);
    assert(s17 == input.subrange(pos, p17)) by {
        lemma_subrange_glue(input, pos, p16, p17);
    }
    let s18 = s17 + seq![spec_gender_byte(m.gender)];
    assert(s18 == input.subrange(pos, p18)) by {
        assert(seq![spec_gender_byte(m.gender)] =~= input.subrange(p17, p18));
        lemma_subrange_glue(input, pos, p17, p18);
    }
    let s19 = s18 + remaining;
    let s20 = s19 + endm;
    assert(s20 == input.subrange(pos, p19)) by {
        assert(s19 + endm =~= s18 + (remaining + endm));
        lemma_subrange_glue(input, pos, p18, p19);
    }
    assert(spec_serialise_soldier(m) == s20);
}

} // verus!
