//! A store of fingerprints recorded under section names, against which
//! freshly read bytes are checked later.
//!
//! A name that was never recorded is reported as unknown, which is not the
//! same finding as a digest that differs from the recorded one.

use crate::digest::{sha256, sha256_digest};
use crate::table::NameTable;
use crate::text::bytes_eq;
use vstd::prelude::*;
use vstd::slice::slice_to_vec;

verus! {

/// A section name with the digest recorded for it.
#[derive(Debug, Clone, PartialEq, Eq)]
pub struct SectionFingerprint {
    pub section_name: String,
    pub hash: Vec<u8>,
}

/// What a check of fresh bytes against the store finds.
#[derive(Debug, Clone, Copy, PartialEq, Eq, Structural)]
pub enum VerifyOutcome {
    /// The digest of the bytes is the recorded one.
    Verified,
    /// A digest is recorded under the name, and it is another one.
    IntegrityViolation,
    /// Nothing is recorded under the name.
    UnknownSection,
}

/// The store of recorded fingerprints.
pub struct KdvVerifier {
    pub fingerprints: NameTable<Vec<u8>>,
}

/// The finding for a name and a digest, given what is recorded.
pub open spec fn outcome_of(recorded: Map<Seq<char>, Seq<u8>>, name: Seq<char>, digest: Seq<u8>) -> VerifyOutcome {
    if !recorded.contains_key(name) {
        VerifyOutcome::UnknownSection
    } else if recorded[name] == digest {
        VerifyOutcome::Verified
    } else {
        VerifyOutcome::IntegrityViolation
    }
}

/// What is recorded after the first `n` of `sections` were recorded on top
/// of `base`, each under its name with the digest of its content. Of two
/// sections with one name the later one stays.
pub open spec fn record_all(base: Map<Seq<char>, Seq<u8>>, sections: Seq<(String, Vec<u8>)>, n: nat) -> Map<Seq<char>, Seq<u8>>
    decreases n,
{
    if n == 0 {
        base
    } else {
        record_all(base, sections, (n - 1) as nat).insert(
            sections[n - 1].0@,
            sha256(sections[n - 1].1@),
        )
    }
}

impl KdvVerifier {
    /// Whether the store is well formed; every store made by `new` and
    /// changed by the methods of this type is.
    pub open spec fn wf(&self) -> bool {
        self.fingerprints.wf()
    }

    /// The digests recorded, by name.
    pub open spec fn recorded(&self) -> Map<Seq<char>, Seq<u8>> {
        Map::new(
            |name: Seq<char>| self.fingerprints@.contains_key(name),
            |name: Seq<char>| self.fingerprints@[name]@,
        )
    }

    /// An empty store.
    pub fn new() -> (r: KdvVerifier)
        ensures
            r.wf(),
            r.recorded() == Map::<Seq<char>, Seq<u8>>::empty(),
    {
        let r = KdvVerifier { fingerprints: NameTable::new() };
        assert(r.recorded() =~= Map::<Seq<char>, Seq<u8>>::empty());
        r
    }

    /// The SHA-256 digest of `data`.
    pub fn compute_hash(data: &[u8]) -> (r: Vec<u8>)
        ensures
            r@ == sha256(data@),
    {
        let digest = sha256_digest(data);
        slice_to_vec(digest.as_slice())
    }

    /// The fingerprint of a section: its name with the digest of its content.
    pub fn fingerprint_of(name: &str, content: &[u8]) -> (r: SectionFingerprint)
        ensures
            r.section_name@ == name@,
            r.hash@ == sha256(content@),
    {
        SectionFingerprint { section_name: name.to_owned(), hash: Self::compute_hash(content) }
    }

    /// Records a fingerprint, in place of what was recorded under its name.
    pub fn record(&mut self, fingerprint: SectionFingerprint)
        requires
            old(self).wf(),
        ensures
            final(self).wf(),
            final(self).recorded() == old(self).recorded().insert(
                fingerprint.section_name@,
                fingerprint.hash@,
            ),
    {
        let ghost name = fingerprint.section_name@;
        let ghost hash = fingerprint.hash@;
        self.fingerprints.insert(fingerprint.section_name, fingerprint.hash);
        assert(self.recorded() =~= old(self).recorded().insert(name, hash));
    }

    /// Records the digest of each section's content under the section's name.
    pub fn load_initial_fingerprints(&mut self, sections: &[(String, Vec<u8>)])
        requires
            old(self).wf(),
        ensures
            final(self).wf(),
            final(self).recorded() == record_all(
                old(self).recorded(),
                sections@,
                sections@.len(),
            ),
    {
        let mut i: usize = 0;
        while i < sections.len()
            invariant
                i <= sections@.len(),
                self.wf(),
                self.recorded() == record_all(old(self).recorded(), sections@, i as nat),
            decreases sections@.len() - i,
        {
            let fingerprint = Self::fingerprint_of(sections[i].0.as_str(), sections[i].1.as_slice());
            self.record(fingerprint);
            i += 1;
        }
    }

    /// The finding for `name` when the bytes read for it have digest `digest`.
    pub fn compare(&self, name: &str, digest: &[u8]) -> (r: VerifyOutcome)
        requires
            self.wf(),
        ensures
            r == outcome_of(self.recorded(), name@, digest@),
    {
        match self.fingerprints.get(name) {
            None => VerifyOutcome::UnknownSection,
            Some(expected) => {
                if bytes_eq(expected.as_slice(), digest) {
                    VerifyOutcome::Verified
                } else {
                    VerifyOutcome::IntegrityViolation
                }
            },
        }
    }

    /// The finding for `name` and the bytes freshly read for it.
    pub fn check(&self, name: &str, content: &[u8]) -> (r: VerifyOutcome)
        requires
            self.wf(),
        ensures
            r == outcome_of(self.recorded(), name@, sha256(content@)),
    {
        let current = Self::compute_hash(content);
        self.compare(name, current.as_slice())
    }

    /// Whether a digest is recorded under `name` and is the digest of
    /// `content`.
    pub fn verify(&self, name: &str, content: &[u8]) -> (r: bool)
        requires
            self.wf(),
        ensures
            r == (self.recorded().contains_key(name@) && self.recorded()[name@] == sha256(
                content@,
            )),
    {
        match self.check(name, content) {
            VerifyOutcome::Verified => true,
            _ => false,
        }
    }
}

/// A section that was recorded and is then checked with the same content is
/// verified; one checked with content of another digest is a violation; and a
/// name that was never recorded is unknown whatever the content.
pub proof fn lemma_recorded_then_checked(recorded: Map<Seq<char>, Seq<u8>>, name: Seq<char>, content: Seq<u8>, other: Seq<u8>)
    ensures
        outcome_of(recorded.insert(name, sha256(content)), name, sha256(content))
            == VerifyOutcome::Verified,
        sha256(other) != sha256(content) ==> outcome_of(
            recorded.insert(name, sha256(content)),
            name,
            sha256(other),
        ) == VerifyOutcome::IntegrityViolation,
        !recorded.contains_key(name) ==> outcome_of(recorded, name, sha256(content))
            == VerifyOutcome::UnknownSection,
{
}

} // verus!
