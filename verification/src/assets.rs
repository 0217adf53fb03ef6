//! Lookup tables over the game's installed assets.
//!
//! The codec itself has no dependency on assets: these tables only serve the
//! editor, which resolves a soldier's keys against localized strings, flag
//! images and portrait images for display. Scanning the install directory and
//! parsing the asset files is the caller's concern; this module holds the
//! scanned results as plain values and gives them exact lookup semantics.

use vstd::prelude::*;
use vstd::utf8::encode_utf8;

use crate::soldier::Gender;
use crate::wire::bytes_eq;

verus! {

/// A localized string and the key it is filed under.
#[derive(Debug, PartialEq, Eq)]
pub struct KeyedString {
    pub key: String,
    pub string: String,
}

impl Clone for KeyedString {
    fn clone(&self) -> (r: Self)
        ensures
            r == *self,
    {
        KeyedString { key: self.key.clone(), string: self.string.clone() }
    }
}

/// A file path and the key it is filed under, such as a flag image keyed by
/// its country name.
#[derive(Debug, PartialEq, Eq)]
pub struct KeyedPath {
    pub key: String,
    pub path: String,
}

impl Clone for KeyedPath {
    fn clone(&self) -> (r: Self)
        ensures
            r == *self,
    {
        KeyedPath { key: self.key.clone(), path: self.path.clone() }
    }
}

/// A portrait image: the race it belongs to, its index within the race and
/// gender bucket, and the image's path.
#[derive(Debug, PartialEq, Eq)]
pub struct FacePath {
    pub race: String,
    pub id: u32,
    pub path: String,
}

impl Clone for FacePath {
    fn clone(&self) -> (r: Self)
        ensures
            r == *self,
    {
        FacePath { race: self.race.clone(), id: self.id, path: self.path.clone() }
    }
}

/// True when the characters of `prefix` open the characters of `s`.
pub open spec fn spec_has_prefix(s: Seq<char>, prefix: Seq<char>) -> bool {
    prefix.is_prefix_of(s)
}

/// True exactly when `prefix` opens `s`.
pub fn str_has_prefix(s: &str, prefix: &str) -> (r: bool)
    ensures
        r == spec_has_prefix(s@, prefix@),
{
    let n = s.unicode_len();
    let m = prefix.unicode_len();
    if m > n {
        return false;
    }
    let mut i: usize = 0;
    while i < m
        invariant
            n == s@.len(),
            m == prefix@.len(),
            m <= n,
            i <= m,
            forall|k: int| 0 <= k < i ==> s@[k] == prefix@[k],
        decreases m - i,
    {
        if s.get_char(i) != prefix.get_char(i) {
            proof {
                if spec_has_prefix(s@, prefix@) {
                    assert(s@.subrange(0, prefix@.len() as int)[i as int] == s@[i as int]);
                }
            }
            return false;
        }
        i += 1;
    }
    proof {
        assert(s@.subrange(0, prefix@.len() as int) =~= prefix@);
    }
    true
}

/// True exactly when the two strings hold the same characters.
pub fn str_eq(a: &str, b: &str) -> (r: bool)
    ensures
        r == (a@ == b@),
{
    let n = a.unicode_len();
    let m = b.unicode_len();
    if n != m {
        return false;
    }
    let mut i: usize = 0;
    while i < n
        invariant
            n == a@.len(),
            n == b@.len(),
            i <= n,
            forall|k: int| 0 <= k < i ==> a@[k] == b@[k],
        decreases n - i,
    {
        if a.get_char(i) != b.get_char(i) {
            return false;
        }
        i += 1;
    }
    proof {
        assert(a@ =~= b@);
    }
    true
}

impl KeyedString {
    /// Display text for this entry: the string alone where it equals its key,
    /// otherwise the string with the key after it in parentheses.
    pub open spec fn spec_label(self) -> Seq<char> {
        if self.key@ == self.string@ {
            self.string@
        } else {
            self.string@ + " ("@ + self.key@ + ")"@
        }
    }

    /// Render the display text for this entry.
    pub fn label(&self) -> (r: String)
        ensures
            r@ == self.spec_label(),
    {
        if str_eq(self.key.as_str(), self.string.as_str()) {
            self.string.clone()
        } else {
            let r = self.string.clone().concat(" (");
            let r = r.concat(self.key.as_str());
            r.concat(")")
        }
    }
}

impl Gender {
    /// Display name of this gender.
    pub fn label(&self) -> (r: &'static str)
        ensures
            r@ == match *self {
                Gender::Female => "Female"@,
                Gender::Male => "Male"@,
            },
    {
        match self {
            Gender::Female => "Female",
            Gender::Male => "Male",
        }
    }
}

/// The entries of `list` whose key opens with `prefix`, in their original
/// order.
pub open spec fn keys_with_prefix(list: Seq<KeyedString>, prefix: Seq<char>) -> Seq<KeyedString> {
    list.filter(|ks: KeyedString| spec_has_prefix(ks.key@, prefix))
}

/// Copy the entries of `list` whose key opens with `prefix`, keeping their
/// order.
fn filter_by_key_prefix(list: &Vec<KeyedString>, prefix: &str) -> (r: Vec<KeyedString>)
    ensures
        r@ == keys_with_prefix(list@, prefix@),
{
    let mut out: Vec<KeyedString> = Vec::new();
    proof {
        reveal(Seq::filter);
        assert(list@.take(0) =~= Seq::<KeyedString>::empty());
    }
    let mut i: usize = 0;
    while i < list.len()
        invariant
            i <= list@.len(),
            out@ == keys_with_prefix(list@.take(i as int), prefix@),
        decreases list@.len() - i,
    {
        let keep = str_has_prefix(list[i].key.as_str(), prefix);
        if keep {
            let entry = list[i].clone();
            out.push(entry);
        }
        proof {
            reveal(Seq::filter);
            assert(list@.take(i + 1).drop_last() =~= list@.take(i as int));
            assert(list@.take(i + 1).last() == list@[i as int]);
        }
        i += 1;
    }
    proof {
        assert(list@.take(list@.len() as int) =~= list@);
    }
    out
}

/// The asset tables the editor resolves against: every localized string, the
/// regiment and experience subsets of them, the flag images, and the portrait
/// images by gender.
#[derive(Debug)]
pub struct Assets {
    pub asset_path: String,
    pub all_strings: Vec<KeyedString>,
    pub regiment_names: Vec<KeyedString>,
    pub experience_names: Vec<KeyedString>,
    pub flags: Vec<KeyedPath>,
    pub male_faces: Vec<FacePath>,
    pub female_faces: Vec<FacePath>,
}

/// The portrait list that serves the given gender.
pub open spec fn spec_faces_of(a: Assets, g: Gender) -> Seq<FacePath> {
    match g {
        Gender::Male => a.male_faces@,
        Gender::Female => a.female_faces@,
    }
}

/// True when a portrait entry serves the given race key and index.
pub open spec fn spec_face_matches(fp: FacePath, race: Seq<u8>, id: u32) -> bool {
    &&& encode_utf8(fp.race@) == race
    &&& fp.id == id
}

impl Assets {
    /// Assemble the tables from scanned parts, deriving the regiment and
    /// experience name subsets from the full string table by their key
    /// prefixes.
    pub fn from_parts(
        asset_path: String,
        all_strings: Vec<KeyedString>,
        flags: Vec<KeyedPath>,
        male_faces: Vec<FacePath>,
        female_faces: Vec<FacePath>,
    ) -> (r: Assets)
        ensures
            r.asset_path == asset_path,
            r.all_strings == all_strings,
            r.regiment_names@ == keys_with_prefix(all_strings@, "regiment."@),
            r.experience_names@ == keys_with_prefix(all_strings@, "experience."@),
            r.flags == flags,
            r.male_faces == male_faces,
            r.female_faces == female_faces,
    {
        let regiment_names = filter_by_key_prefix(&all_strings, "regiment.");
        let experience_names = filter_by_key_prefix(&all_strings, "experience.");
        Assets {
            asset_path,
            all_strings,
            regiment_names,
            experience_names,
            flags,
            male_faces,
            female_faces,
        }
    }

    /// Look a localized string up by its key. Among entries sharing the key,
    /// the one at the highest index is returned.
    pub fn string_by_key(&self, s: &str) -> (r: Option<&KeyedString>)
        ensures
            (r is Some) <==> (exists|i: int|
                0 <= i < self.all_strings@.len() && #[trigger] self.all_strings@[i].key@ == s@),
            match r {
                Some(ks) => exists|i: int|
                    {
                        &&& 0 <= i < self.all_strings@.len()
                        &&& *ks == #[trigger] self.all_strings@[i]
                        &&& self.all_strings@[i].key@ == s@
                        &&& forall|j: int|
                            i < j < self.all_strings@.len()
                                ==> #[trigger] self.all_strings@[j].key@ != s@
                    },
                None => true,
            },
    {
        let mut i = self.all_strings.len();
        while i > 0
            invariant
                i <= self.all_strings@.len(),
                forall|j: int|
                    i <= j < self.all_strings@.len() ==> #[trigger] self.all_strings@[j].key@
                        != s@,
            decreases i,
        {
            i = i - 1;
            if str_eq(self.all_strings[i].key.as_str(), s) {
                return Some(&self.all_strings[i]);
            }
        }
        None
    }

    /// Look a portrait up by race key, index, and gender. Among entries that
    /// match, the one at the highest index is returned.
    pub fn get_face(&self, race: &Vec<u8>, id: u32, gender: Gender) -> (r: Option<&FacePath>)
        ensures
            ({
                let faces = spec_faces_of(*self, gender);
                &&& ((r is Some) <==> (exists|i: int|
                    0 <= i < faces.len() && #[trigger] spec_face_matches(faces[i], race@, id)))
                &&& match r {
                    Some(fp) => exists|i: int|
                        {
                            &&& 0 <= i < faces.len()
                            &&& *fp == faces[i]
                            &&& #[trigger] spec_face_matches(faces[i], race@, id)
                            &&& forall|j: int|
                                i < j < faces.len() ==> !(#[trigger] spec_face_matches(
                                    faces[j],
                                    race@,
                                    id,
                                ))
                        },
                    None => true,
                }
            }),
    {
        let faces = match gender {
            Gender::Male => &self.male_faces,
            Gender::Female => &self.female_faces,
        };
        let mut i = faces.len();
        while i > 0
            invariant
                faces@ == spec_faces_of(*self, gender),
                i <= faces@.len(),
                forall|j: int|
                    i <= j < faces@.len() ==> !(#[trigger] spec_face_matches(faces@[j], race@, id)),
            decreases i,
        {
            i = i - 1;
            let fp = &faces[i];
            if fp.id == id && bytes_eq(fp.race.as_str().as_bytes(), race.as_slice()) {
                proof {
                    assert(spec_face_matches(faces@[i as int], race@, id));
                }
                return Some(&faces[i]);
            }
        }
        None
    }
}

} // verus!
