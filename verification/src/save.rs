//! Codec for the enclosing save file.
//!
//! A save file is a fixed 8-byte header, a length-prefixed save name, an
//! opaque span terminated by a literal sentinel, a length-prefixed save-time
//! span, one scalar, the iron-man flag byte, an opaque span up to the first
//! soldier record, the soldier records back to back, and an opaque tail that
//! extends to the end of the file. Soldier records carry no count: they are
//! recognised purely by a start-marker lookahead.

use vstd::bytes::*;
use vstd::prelude::*;
use vstd::utf8::encode_utf8;

use crate::soldier::{
    lemma_soldier_round_trip, parse_soldier, soldier_start, soldier_start_bytes,
    spec_parse_soldier, spec_serialise_soldier, Soldier, SoldierModel,
};
use crate::wire::{
    lemma_length_data_segment, lemma_scan_past_segment, lemma_scan_to_segment, lemma_string_segment,
    lemma_subrange_glue, lemma_u32_segment, matches_at, push_bytes, push_length_prefixed,
    push_u32_le, read_length_data, read_string, read_u32, scan_past, scan_to, sp_length_data,
    sp_scan_past, sp_scan_to, sp_string, sp_take, sp_u32, spec_length_prefixed, tag_at, take_bytes,
};
use crate::DecodeError;

verus! {

/// The ASCII sentinel that terminates the opaque feature-guards span:
/// `FeatureGuards2`. It is a constant of the format, re-emitted on encode but
/// not stored in the model.
pub open spec fn feature_guards_end_bytes() -> Seq<u8> {
    seq![
        0x46u8, 0x65u8, 0x61u8, 0x74u8, 0x75u8, 0x72u8, 0x65u8, 0x47u8, 0x75u8, 0x61u8, 0x72u8,
        0x64u8, 0x73u8, 0x32u8,
    ]
}

/// The feature-guards sentinel as a byte vector.
pub fn feature_guards_end() -> (v: Vec<u8>)
    ensures
        v@ == feature_guards_end_bytes(),
{
    let mut v: Vec<u8> = Vec::new();
    v.push(0x46);
    v.push(0x65);
    v.push(0x61);
    v.push(0x74);
    v.push(0x75);
    v.push(0x72);
    v.push(0x65);
    v.push(0x47);
    v.push(0x75);
    v.push(0x61);
    v.push(0x72);
    v.push(0x64);
    v.push(0x73);
    v.push(0x32);
    proof {
        assert(v@ =~= feature_guards_end_bytes());
    }
    v
}

/// Mathematical model of a whole save file.
pub struct SaveModel {
    pub file_start: Seq<u8>,
    pub save_name: Seq<char>,
    pub feature_guards: Seq<u8>,
    pub save_time: Seq<u8>,
    pub unknown: u32,
    pub iron_man: bool,
    pub before_soldiers: Seq<u8>,
    pub soldiers: Seq<SoldierModel>,
    pub after_soldiers: Seq<u8>,
}

impl SaveModel {
    /// The length-prefixed fields are short enough for their 4-byte prefixes
    /// and every soldier is itself well formed. Decoded saves always satisfy
    /// this.
    pub open spec fn wf(self) -> bool {
        &&& encode_utf8(self.save_name).len() <= u32::MAX
        &&& self.save_time.len() <= u32::MAX
        &&& forall|i: int| 0 <= i < self.soldiers.len() ==> #[trigger] self.soldiers[i].wf()
    }
}

/// The whole-file model. Every opaque span is captured verbatim so that
/// re-encoding an unmodified save reproduces the original file byte for byte.
#[derive(Clone, Debug, PartialEq)]
pub struct Save {
    pub file_start: Vec<u8>,
    pub save_name: String,
    pub feature_guards: Vec<u8>,
    pub save_time: Vec<u8>,
    pub unknown: u32,
    pub iron_man: bool,
    pub before_soldiers: Vec<u8>,
    pub soldiers: Vec<Soldier>,
    pub after_soldiers: Vec<u8>,
}

impl View for Save {
    type V = SaveModel;

    open spec fn view(&self) -> SaveModel {
        SaveModel {
            file_start: self.file_start@,
            save_name: self.save_name@,
            feature_guards: self.feature_guards@,
            save_time: self.save_time@,
            unknown: self.unknown,
            iron_man: self.iron_man,
            before_soldiers: self.before_soldiers@,
            soldiers: self.soldiers.deep_view(),
            after_soldiers: self.after_soldiers@,
        }
    }
}

/// Wire form of a sequence of soldier records: their encodings back to back.
pub open spec fn spec_serialise_soldiers(ms: Seq<SoldierModel>) -> Seq<u8>
    decreases ms.len(),
{
    if ms.len() == 0 {
        Seq::empty()
    } else {
        spec_serialise_soldier(ms[0]) + spec_serialise_soldiers(ms.drop_first())
    }
}

/// Appending one record to a sequence appends its encoding to the wire form.
pub proof fn lemma_serialise_soldiers_push(ms: Seq<SoldierModel>, m: SoldierModel)
    ensures
        spec_serialise_soldiers(ms.push(m)) == spec_serialise_soldiers(ms)
            + spec_serialise_soldier(m),
    decreases ms.len(),
{
    if ms.len() == 0 {
        assert(ms.push(m)[0] == m);
        assert(ms.push(m).drop_first() =~= Seq::<SoldierModel>::empty());
        assert(spec_serialise_soldiers(ms.push(m).drop_first()) == Seq::<u8>::empty());
        assert(spec_serialise_soldier(m) + Seq::<u8>::empty() =~= spec_serialise_soldier(m));
        assert(Seq::<u8>::empty() + spec_serialise_soldier(m) =~= spec_serialise_soldier(m));
    } else {
        assert(ms.push(m)[0] == ms[0]);
        assert(ms.push(m).drop_first() =~= ms.drop_first().push(m));
        lemma_serialise_soldiers_push(ms.drop_first(), m);
        assert(spec_serialise_soldiers(ms.push(m).drop_first()) == spec_serialise_soldiers(
            ms.drop_first(),
        ) + spec_serialise_soldier(m));
        let a = spec_serialise_soldier(ms[0]);
        let b = spec_serialise_soldiers(ms.drop_first());
        let c = spec_serialise_soldier(m);
        assert(a + (b + c) =~= (a + b) + c);
    }
}

/// Decoding of the soldier-record region at `pos`: records are decoded back
/// to back for as long as the remaining input begins with the start marker,
/// and the loop stops without error the first time it does not.
pub open spec fn spec_parse_soldiers(input: Seq<u8>, pos: int) -> Result<
    (Seq<SoldierModel>, int),
    DecodeError,
>
    decreases input.len() - pos + 1,
    via spec_parse_soldiers_decreases
{
    if matches_at(input, soldier_start_bytes(), pos) {
        match spec_parse_soldier(input, pos) {
            Ok((m, p)) => match spec_parse_soldiers(input, p) {
                Ok((rest, q)) => Ok((seq![m] + rest, q)),
                Err(e) => Err(e),
            },
            Err(e) => Err(e),
        }
    } else {
        Ok((Seq::empty(), pos))
    }
}

#[via_fn]
proof fn spec_parse_soldiers_decreases(input: Seq<u8>, pos: int) {
    if matches_at(input, soldier_start_bytes(), pos) {
        if spec_parse_soldier(input, pos) is Ok {
            lemma_soldier_round_trip(input, pos);
        }
    }
}

/// Re-encoding a decoded soldier-record region reproduces exactly the bytes
/// it was decoded from; the region decode also never moves backwards and
/// leaves every decoded record well formed.
pub proof fn lemma_soldiers_round_trip(input: Seq<u8>, pos: int)
    requires
        0 <= pos <= input.len(),
        spec_parse_soldiers(input, pos) is Ok,
    ensures
        ({
            let (ms, q) = spec_parse_soldiers(input, pos)->Ok_0;
            &&& pos <= q <= input.len()
            &&& forall|i: int| 0 <= i < ms.len() ==> #[trigger] ms[i].wf()
            &&& spec_serialise_soldiers(ms) == input.subrange(pos, q)
        }),
    decreases input.len() - pos + 1,
{
    let (ms, q) = spec_parse_soldiers(input, pos)->Ok_0;
    if matches_at(input, soldier_start_bytes(), pos) {
        lemma_soldier_round_trip(input, pos);
        let (m, p) = spec_parse_soldier(input, pos)->Ok_0;
        lemma_soldiers_round_trip(input, p);
        let (rest, _) = spec_parse_soldiers(input, p)->Ok_0;
        assert(ms[0] == m);
        assert(ms.drop_first() =~= rest);
        lemma_subrange_glue(input, pos, p, q);
    } else {
        assert(input.subrange(pos, pos) =~= Seq::<u8>::empty());
    }
}

/// Decoding of a whole save file. The after-soldiers tail is whatever follows
/// the last record, so a successful decode always consumes the entire input.
pub open spec fn spec_parse_save(input: Seq<u8>) -> Result<SaveModel, DecodeError> {
    match sp_take(input, 0, 8) {
        Ok((file_start, p1)) => match sp_string(input, p1) {
            Ok((save_name, p2)) => match sp_scan_past(input, feature_guards_end_bytes(), p2) {
                Ok((feature_guards, p3)) => match sp_length_data(input, p3) {
                    Ok((save_time, p4)) => match sp_u32(input, p4) {
                        Ok((unknown, p5)) => match sp_take(input, p5, 1) {
                            Ok((ib, p6)) => if ib[0] == 0 || ib[0] == 1 {
                                match sp_scan_to(input, soldier_start_bytes(), p6) {
                                    Ok((before_soldiers, p7)) => match spec_parse_soldiers(
                                        input,
                                        p7,
                                    ) {
                                        Ok((soldiers, p8)) => Ok(
                                            SaveModel {
                                                file_start,
                                                save_name,
                                                feature_guards,
                                                save_time,
                                                unknown,
                                                iron_man: ib[0] == 1,
                                                before_soldiers,
                                                soldiers,
                                                after_soldiers: input.subrange(
                                                    p8,
                                                    input.len() as int,
                                                ),
                                            },
                                        ),
                                        Err(e) => Err(e),
                                    },
                                    Err(e) => Err(e),
                                }
                            } else {
                                Err(DecodeError::InvalidEnum)
                            },
                            Err(e) => Err(e),
                        },
                        Err(e) => Err(e),
                    },
                    Err(e) => Err(e),
                },
                Err(e) => Err(e),
            },
            Err(e) => Err(e),
        },
        Err(e) => Err(e),
    }
}

/// Wire form of a whole save: every field in file order, the save-name and
/// save-time length prefixes recomputed, the sentinel re-emitted, each
/// soldier's encoding concatenated, then the captured tail.
pub open spec fn spec_serialise_save(m: SaveModel) -> Seq<u8>
    recommends
        m.wf(),
{
    m.file_start + spec_length_prefixed(encode_utf8(m.save_name)) + m.feature_guards
        + feature_guards_end_bytes() + spec_length_prefixed(m.save_time) + spec_u32_to_le_bytes(
        m.unknown,
    ) + seq![
        if m.iron_man {
            1u8
        } else {
            0u8
        },
    ] + m.before_soldiers + spec_serialise_soldiers(m.soldiers) + m.after_soldiers
}

/// Round trip: re-encoding any save that the parser accepts reproduces the
/// input file byte for byte, and the decoded model is always well formed, so
/// it can be re-encoded.
pub proof fn lemma_save_round_trip(input: Seq<u8>)
    requires
        spec_parse_save(input) is Ok,
    ensures
        ({
            let m = spec_parse_save(input)->Ok_0;
            &&& m.wf()
            &&& spec_serialise_save(m) == input
        }),
{
    let m = spec_parse_save(input)->Ok_0;
    let sentinel = feature_guards_end_bytes();
    let (file_start, p1) = sp_take(input, 0, 8)->Ok_0;
    let (save_name, p2) = sp_string(input, p1)->Ok_0;
    let (feature_guards, p3) = sp_scan_past(input, sentinel, p2)->Ok_0;
    let (save_time, p4) = sp_length_data(input, p3)->Ok_0;
    let (unknown, p5) = sp_u32(input, p4)->Ok_0;
    let (ib, p6) = sp_take(input, p5, 1)->Ok_0;
    let (before_soldiers, p7) = sp_scan_to(input, soldier_start_bytes(), p6)->Ok_0;
    let (soldiers, p8) = spec_parse_soldiers(input, p7)->Ok_0;

    lemma_string_segment(input, p1);
    lemma_scan_past_segment(input, sentinel, p2);
    lemma_length_data_segment(input, p3);
    lemma_u32_segment(input, p4);
    lemma_scan_to_segment(input, soldier_start_bytes(), p6);
    lemma_soldiers_round_trip(input, p7);

    let s2 = file_start + spec_length_prefixed(encode_utf8(save_name));
    assert(s2 == input.subrange(0, p2)) by {
        lemma_subrange_glue(input, 0, p1, p2);
    }
    let s4 = s2 + feature_guards + sentinel;
    assert(s4 == input.subrange(0, p3)) by {
        assert(s2 + feature_guards + sentinel =~= s2 + (feature_guards + sentinel));
        lemma_subrange_glue(input, 0, p2, p3);
    }
    let s5 = s4 + spec_length_prefixed(save_time);
    assert(s5 == input.subrange(0, p4)) by {
        lemma_subrange_glue(input, 0, p3, p4);
    }
    let s6 = s5 + spec_u32_to_le_bytes(unknown);
    assert(s6 == input.subrange(0, p5)) by {
        lemma_subrange_glue(input, 0, p4, p5);
    }
    let s7 = s6 + seq![
        if m.iron_man {
            1u8
        } else {
            0u8
        },
    ];
    assert(s7 == input.subrange(0, p6)) by {
        assert(seq![
            if m.iron_man {
                1u8
            } else {
                0u8
            },
        ] =~= input.subrange(p5, p6));
        lemma_subrange_glue(input, 0, p5, p6);
    }
    let s8 = s7 + before_soldiers;
    assert(s8 == input.subrange(0, p7)) by {
        lemma_subrange_glue(input, 0, p6, p7);
    }
    let s9 = s8 + spec_serialise_soldiers(soldiers);
    assert(s9 == input.subrange(0, p8)) by {
        lemma_subrange_glue(input, 0, p7, p8);
    }
    let s10 = s9 + m.after_soldiers;
    assert(s10 == input) by {
        lemma_subrange_glue(input, 0, p8, input.len() as int);
        assert(input.subrange(0, input.len() as int) =~= input);
    }
    assert(spec_serialise_save(m) == s10);
}

/// Idempotence of re-decoding: decoding what a decoded save re-encodes to
/// gives back the same model, field for field.
pub proof fn lemma_parse_save_idempotent(input: Seq<u8>)
    requires
        spec_parse_save(input) is Ok,
    ensures
        ({
            let m = spec_parse_save(input)->Ok_0;
            spec_parse_save(spec_serialise_save(m)) == Ok::<SaveModel, DecodeError>(m)
        }),
{
    lemma_save_round_trip(input);
}

/// Decode soldier records back to back from `pos` for as long as the input
/// there begins with the start marker.
#[verifier::loop_isolation(false)]
fn parse_soldier_region(input: &[u8], pos: usize) -> (r: Result<
    (Vec<Soldier>, usize),
    DecodeError,
>)
    requires
        pos <= input@.len(),
    ensures
        match r {
            Ok((ss, p)) => {
                &&& spec_parse_soldiers(input@, pos as int) == Ok::<_, DecodeError>(
                    (ss.deep_view(), p as int),
                )
                &&& p <= input@.len()
            },
            Err(e) => spec_parse_soldiers(input@, pos as int) == Err::<
                (Seq<SoldierModel>, int),
                _,
            >(e),
        },
{
    let start_marker = soldier_start();
    let mut soldiers: Vec<Soldier> = Vec::new();
    let mut p = pos;
    proof {
        let r0 = spec_parse_soldiers(input@, pos as int);
        if r0 is Ok {
            let (rest, q) = r0->Ok_0;
            assert(soldiers.deep_view() + rest =~= rest);
        }
    }
    while tag_at(input, start_marker.as_slice(), p)
        invariant
            p <= input@.len(),
            spec_parse_soldiers(input@, pos as int) == (match spec_parse_soldiers(
                input@,
                p as int,
            ) {
                Ok((rest, q)) => Ok::<_, DecodeError>((soldiers.deep_view() + rest, q)),
                Err(e) => Err::<(Seq<SoldierModel>, int), _>(e),
            }),
        decreases input@.len() - p,
    {
        proof {
            assert(matches_at(input@, soldier_start_bytes(), p as int));
        }
        match parse_soldier(input, p) {
            Ok((s, np)) => {
                proof {
                    lemma_soldier_round_trip(input@, p as int);
                }
                let ghost old_dv = soldiers.deep_view();
                soldiers.push(s);
                p = np;
                proof {
                    assert(soldiers.deep_view() =~= old_dv.push(s@));
                    let r_next = spec_parse_soldiers(input@, p as int);
                    if r_next is Ok {
                        let (rest, q) = r_next->Ok_0;
                        assert(old_dv + (seq![s@] + rest) =~= old_dv.push(s@) + rest);
                    }
                }
            },
            Err(e) => {
                return Err(e);
            },
        }
    }
    proof {
        let r_here = spec_parse_soldiers(input@, p as int);
        let (rest, q) = r_here->Ok_0;
        assert(soldiers.deep_view() + rest =~= soldiers.deep_view());
    }
    Ok((soldiers, p))
}

/// Decode a whole save file.
#[verifier::loop_isolation(false)]
pub fn parse_save(input: &[u8]) -> (r: Result<Save, DecodeError>)
    ensures
        match r {
            Ok(s) => spec_parse_save(input@) == Ok::<_, DecodeError>(s@),
            Err(e) => spec_parse_save(input@) == Err::<SaveModel, _>(e),
        },
{
    let (file_start, p) = match take_bytes(input, 0, 8) {
        Ok(v) => v,
        Err(e) => {
            return Err(e);
        },
    };
    let (save_name, p) = match read_string(input, p) {
        Ok(v) => v,
        Err(e) => {
            return Err(e);
        },
    };
    let sentinel = feature_guards_end();
    let (feature_guards, p) = match scan_past(input, sentinel.as_slice(), p) {
        Ok(v) => v,
        Err(e) => {
            return Err(e);
        },
    };
    let (save_time, p) = match read_length_data(input, p) {
        Ok(v) => v,
        Err(e) => {
            return Err(e);
        },
    };
    let (unknown, p) = match read_u32(input, p) {
        Ok(v) => v,
        Err(e) => {
            return Err(e);
        },
    };
    let (iron_man_bytes, p) = match take_bytes(input, p, 1) {
        Ok(v) => v,
        Err(e) => {
            return Err(e);
        },
    };
    let ib = iron_man_bytes[0];
    if ib != 0 && ib != 1 {
        return Err(DecodeError::InvalidEnum);
    }
    let iron_man = ib == 1;
    let start_marker = soldier_start();
    let (before_soldiers, p) = match scan_to(input, start_marker.as_slice(), p) {
        Ok(v) => v,
        Err(e) => {
            return Err(e);
        },
    };
    let (soldiers, p) = match parse_soldier_region(input, p) {
        Ok(v) => v,
        Err(e) => {
            return Err(e);
        },
    };
    let n = input.len();
    let (after_soldiers, _p) = match take_bytes(input, p, n - p) {
        Ok(v) => v,
        Err(e) => {
            return Err(e);
        },
    };
    Ok(
        Save {
            file_start,
            save_name,
            feature_guards,
            save_time,
            unknown,
            iron_man,
            before_soldiers,
            soldiers,
            after_soldiers,
        },
    )
}

impl Save {
    /// Encode the save into its wire form.
    #[verifier::loop_isolation(false)]
    pub fn serialise(&self) -> (out: Vec<u8>)
        requires
            self@.wf(),
        ensures
            out@ == spec_serialise_save(self@),
    {
        let mut out: Vec<u8> = Vec::new();
        push_bytes(&mut out, self.file_start.as_slice());
        push_length_prefixed(&mut out, self.save_name.as_str().as_bytes());
        push_bytes(&mut out, self.feature_guards.as_slice());
        let mut sentinel = feature_guards_end();
        out.append(&mut sentinel);
        push_length_prefixed(&mut out, self.save_time.as_slice());
        push_u32_le(&mut out, self.unknown);
        let ib: u8 = if self.iron_man {
            1
        } else {
            0
        };
        out.push(ib);
        push_bytes(&mut out, self.before_soldiers.as_slice());
        let ghost prefix = out@;
        let mut i: usize = 0;
        while i < self.soldiers.len()
            invariant
                self@.wf(),
                i <= self.soldiers@.len(),
                out@ == prefix + spec_serialise_soldiers(self.soldiers.deep_view().take(i as int)),
            decreases self.soldiers@.len() - i,
        {
            proof {
                assert(self@.soldiers[i as int].wf());
                assert(self@.soldiers[i as int] == self.soldiers@[i as int]@);
            }
            let mut enc = self.soldiers[i].serialise();
            out.append(&mut enc);
            proof {
                let dv = self.soldiers.deep_view();
                assert(dv.take(i + 1) =~= dv.take(i as int).push(dv[i as int]));
                lemma_serialise_soldiers_push(dv.take(i as int), dv[i as int]);
            }
            i += 1;
        }
        proof {
            let dv = self.soldiers.deep_view();
            assert(dv.take(dv.len() as int) =~= dv);
        }
        push_bytes(&mut out, self.after_soldiers.as_slice());
        proof {
            assert(out@ =~= spec_serialise_save(self@));
        }
        out
    }

    /// Look a soldier up by `id`. Ids are not guaranteed unique by the
    /// format; among soldiers sharing the requested id, the one at the
    /// highest index is returned.
    pub fn get_soldier(&self, id: u32) -> (r: Option<&Soldier>)
        ensures
            (r is Some) <==> (exists|i: int|
                0 <= i < self@.soldiers.len() && #[trigger] self@.soldiers[i].id == id),
            match r {
                Some(s) => exists|i: int|
                    {
                        &&& 0 <= i < self@.soldiers.len()
                        &&& s@ == #[trigger] self@.soldiers[i]
                        &&& self@.soldiers[i].id == id
                        &&& forall|j: int|
                            i < j < self@.soldiers.len() ==> #[trigger] self@.soldiers[j].id != id
                    },
                None => true,
            },
    {
        let mut i = self.soldiers.len();
        while i > 0
            invariant
                i <= self.soldiers@.len(),
                forall|j: int|
                    i <= j < self@.soldiers.len() ==> #[trigger] self@.soldiers[j].id != id,
            decreases i,
        {
            i = i - 1;
            if self.soldiers[i].id == id {
                proof {
                    assert(self@.soldiers[i as int] == self.soldiers@[i as int]@);
                    assert(self@.soldiers[i as int].id == id);
                }
                return Some(&self.soldiers[i]);
            }
            proof {
                assert(self@.soldiers[i as int] == self.soldiers@[i as int]@);
            }
        }
        None
    }

    /// Mutable lookup by `id`, with the same last-match-wins choice as
    /// `get_soldier`: the caller may edit the returned record in place, and
    /// the save afterwards differs from the old one exactly in that record.
    #[verifier::loop_isolation(false)]
    pub fn get_soldier_mut(&mut self, id: u32) -> (r: Option<&mut Soldier>)
        ensures
            (r is Some) <==> (exists|i: int|
                0 <= i < old(self)@.soldiers.len() && #[trigger] old(self)@.soldiers[i].id == id),
            r is None ==> *final(self) == *old(self),
            r matches Some(s) ==> exists|i: int|
                {
                    &&& 0 <= i < old(self)@.soldiers.len()
                    &&& (#[trigger] old(self)@.soldiers[i]).id == id
                    &&& forall|j: int|
                        i < j < old(self)@.soldiers.len() ==> #[trigger] old(
                            self,
                        )@.soldiers[j].id != id
                    &&& *s == old(self).soldiers@[i]
                    &&& final(self).soldiers@ == old(self).soldiers@.update(i, *final(s))
                    &&& final(self).file_start == old(self).file_start
                    &&& final(self).save_name == old(self).save_name
                    &&& final(self).feature_guards == old(self).feature_guards
                    &&& final(self).save_time == old(self).save_time
                    &&& final(self).unknown == old(self).unknown
                    &&& final(self).iron_man == old(self).iron_man
                    &&& final(self).before_soldiers == old(self).before_soldiers
                    &&& final(self).after_soldiers == old(self).after_soldiers
                },
    {
        let mut i = self.soldiers.len();
        while i > 0
            invariant
                *self == *old(self),
                i <= self.soldiers@.len(),
                forall|j: int|
                    i <= j < self@.soldiers.len() ==> #[trigger] self@.soldiers[j].id != id,
            decreases i,
        {
            i = i - 1;
            if self.soldiers[i].id == id {
                proof {
                    assert(self@.soldiers[i as int] == self.soldiers@[i as int]@);
                    assert(self@.soldiers[i as int].id == id);
                }
                return Some(&mut self.soldiers[i]);
            }
            proof {
                assert(self@.soldiers[i as int] == self.soldiers@[i as int]@);
            }
        }
        None
    }

}

} // verus!
