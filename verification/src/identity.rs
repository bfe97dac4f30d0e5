//! File identities: composing the numbers with which the operating system
//! names a file object into one comparable identity.

use vstd::prelude::*;
use crate::decimal::{dec_seq, is_digit_char, lemma_dec_seq_digits, lemma_dec_seq_injective,
    lemma_dec_seq_len, u64_to_decimal};

verus! {

/// The raw numbers a metadata query reports for a file object, by platform
/// family. Obtaining them is I/O and happens outside this library; a caller
/// hands them in as plain values.
#[derive(Clone, Copy, PartialEq, Eq, Structural, Debug)]
pub enum RawFileInfo {
    /// A POSIX metadata query: device identifier and inode number.
    Posix { device: u64, inode: u64 },
    /// A Windows by-handle query: volume serial number and the two 32-bit
    /// halves of the file index.
    Windows { volume_serial: u32, index_high: u32, index_low: u32 },
}

impl RawFileInfo {
    /// The identifier of the volume that holds the file object: the device
    /// identifier on POSIX, the volume serial number on Windows.
    pub open spec fn primary_spec(self) -> nat {
        match self {
            RawFileInfo::Posix { device, .. } => device as nat,
            RawFileInfo::Windows { volume_serial, .. } => volume_serial as nat,
        }
    }

    /// The number of the file object within its volume: the inode number on
    /// POSIX, the 64-bit file index on Windows, rebuilt from its halves.
    pub open spec fn secondary_spec(self) -> nat {
        match self {
            RawFileInfo::Posix { inode, .. } => inode as nat,
            RawFileInfo::Windows { index_high, index_low, .. } => index_high as nat * 0x1_0000_0000
                + index_low as nat,
        }
    }
}

/// An identity for one file object: equal identities name the same object,
/// distinct identities name distinct objects (at the moment both were
/// resolved, on one live filesystem).
#[derive(Clone, Copy, PartialEq, Eq, Structural, Debug)]
pub struct FileIdentity {
    /// Device identifier (POSIX) or volume serial number (Windows).
    pub primary: u64,
    /// Inode number (POSIX) or 64-bit file index (Windows).
    pub secondary: u64,
}

/// The identity string for a pair of numbers: both in decimal, joined by ':'.
pub open spec fn identity_seq(primary: nat, secondary: nat) -> Seq<char> {
    dec_seq(primary) + seq![':'] + dec_seq(secondary)
}

/// Rebuilds a 64-bit file index from the two 32-bit halves the operating
/// system reports.
pub fn compose_file_index(high: u32, low: u32) -> (r: u64)
    ensures
        r == high as nat * 0x1_0000_0000 + low as nat,
        r == ((high as u64) << 32u64) | (low as u64),
{
    proof {
        assert(((high as u64) << 32u64) | (low as u64) == high as nat * 0x1_0000_0000
            + low as nat) by (bit_vector);
    }
    ((high as u64) << 32) | (low as u64)
}

impl FileIdentity {
    /// The identity string this identity encodes to.
    pub open spec fn encode_spec(self) -> Seq<char> {
        identity_seq(self.primary as nat, self.secondary as nat)
    }

    /// The identity for the numbers a metadata query reported.
    pub fn from_raw(info: RawFileInfo) -> (id: FileIdentity)
        ensures
            id.primary as nat == info.primary_spec(),
            id.secondary as nat == info.secondary_spec(),
    {
        match info {
            RawFileInfo::Posix { device, inode } => FileIdentity { primary: device, secondary: inode },
            RawFileInfo::Windows { volume_serial, index_high, index_low } => FileIdentity {
                primary: volume_serial as u64,
                secondary: compose_file_index(index_high, index_low),
            },
        }
    }

    /// Encodes the identity as the string `"<primary>:<secondary>"`, both
    /// numbers in decimal. Callers should treat the string as an opaque
    /// token and compare it only for equality.
    pub fn encode(&self) -> (s: String)
        ensures
            s@ == self.encode_spec(),
    {
        proof {
            reveal_strlit(":");
        }
        let mut s = u64_to_decimal(self.primary);
        s.append(":");
        let tail = u64_to_decimal(self.secondary);
        s.append(tail.as_str());
        proof {
            assert(":"@ =~= seq![':']);
            assert(s@ =~= self.encode_spec());
        }
        s
    }
}

/// What resolution returns for a metadata result: no identity where the
/// query failed (or the platform is unsupported), and the identity of the
/// reported numbers where it succeeded.
pub open spec fn resolve_spec(info: Option<RawFileInfo>) -> Option<Seq<char>> {
    match info {
        None => None,
        Some(i) => Some(identity_seq(i.primary_spec(), i.secondary_spec())),
    }
}

/// Resolves a metadata result to an identity. A failed query — whatever its
/// cause: missing path, permission denied, I/O error, unsupported platform —
/// arrives here as `None` and yields no identity; a successful one always
/// yields an identity, for directories as for regular files.
pub fn resolve(info: Option<RawFileInfo>) -> (r: Option<FileIdentity>)
    ensures
        r is Some <==> info is Some,
        r is Some ==> r.unwrap().primary as nat == info.unwrap().primary_spec()
            && r.unwrap().secondary as nat == info.unwrap().secondary_spec(),
        r is Some ==> r.unwrap().encode_spec() == resolve_spec(info).unwrap(),
{
    match info {
        None => None,
        Some(i) => Some(FileIdentity::from_raw(i)),
    }
}

/// Resolves a metadata result to an identity string, the form callers
/// compare. The result is `Some` exactly where the metadata query
/// succeeded, and its content is pinned by `resolve_spec`.
pub fn identity_of(info: Option<RawFileInfo>) -> (r: Option<String>)
    ensures
        r is Some <==> info is Some,
        r is Some ==> r.unwrap()@ == resolve_spec(info).unwrap(),
{
    match resolve(info) {
        None => None,
        Some(id) => Some(id.encode()),
    }
}

/// Two metadata results that report the same numbers — as two paths that are
/// hard links to one file object do — resolve to the same identity.
pub proof fn lemma_same_object_same_identity(a: RawFileInfo, b: RawFileInfo)
    requires
        a.primary_spec() == b.primary_spec(),
        a.secondary_spec() == b.secondary_spec(),
    ensures
        resolve_spec(Some(a)) == resolve_spec(Some(b)),
{
}

/// Resolution depends on the reported numbers alone: equal metadata results
/// give equal outcomes, so resolving an untouched file twice gives the same
/// identity both times.
pub proof fn lemma_resolve_deterministic(a: Option<RawFileInfo>, b: Option<RawFileInfo>)
    requires
        a == b,
    ensures
        resolve_spec(a) == resolve_spec(b),
{
}

/// The identity string determines the numbers: two pairs encode to the same
/// string only if they are the same pair. So distinct file objects —
/// distinct in device/volume or in inode/index — have distinct identity
/// strings.
pub proof fn lemma_identity_seq_injective(p1: nat, s1: nat, p2: nat, s2: nat)
    requires
        identity_seq(p1, s1) == identity_seq(p2, s2),
    ensures
        p1 == p2,
        s1 == s2,
{
    lemma_dec_seq_len(p1);
    lemma_dec_seq_len(p2);
    lemma_dec_seq_len(s1);
    lemma_dec_seq_len(s2);
    lemma_dec_seq_digits(p1);
    lemma_dec_seq_digits(p2);
    let t1 = identity_seq(p1, s1);
    let t2 = identity_seq(p2, s2);
    let l1 = dec_seq(p1).len() as int;
    let l2 = dec_seq(p2).len() as int;
    assert(t1.len() == l1 + 1 + dec_seq(s1).len());
    assert(t2.len() == l2 + 1 + dec_seq(s2).len());
    assert(t1[l1] == ':');
    assert(t2[l2] == ':');
    if l1 < l2 {
        assert(t2[l1] == dec_seq(p2)[l1]);
        assert(is_digit_char(dec_seq(p2)[l1]));
        assert(false);
    }
    if l2 < l1 {
        assert(t1[l2] == dec_seq(p1)[l2]);
        assert(is_digit_char(dec_seq(p1)[l2]));
        assert(false);
    }
    assert(dec_seq(p1) =~= dec_seq(p2)) by {
        assert forall|i: int| 0 <= i < l1 implies dec_seq(p1)[i] == dec_seq(p2)[i] by {
            assert(t1[i] == dec_seq(p1)[i]);
            assert(t2[i] == dec_seq(p2)[i]);
        }
    }
    assert(dec_seq(s1) =~= dec_seq(s2)) by {
        assert forall|i: int| 0 <= i < dec_seq(s1).len() implies dec_seq(s1)[i] == dec_seq(s2)[i] by {
            assert(t1[l1 + 1 + i] == dec_seq(s1)[i]);
            assert(t2[l2 + 1 + i] == dec_seq(s2)[i]);
        }
    }
    lemma_dec_seq_injective(p1, p2);
    lemma_dec_seq_injective(s1, s2);
}

/// A file identity and its string encoding determine each other: two
/// identities encode to the same string exactly when they are the same
/// identity.
pub proof fn lemma_encode_injective(a: FileIdentity, b: FileIdentity)
    ensures
        a.encode_spec() == b.encode_spec() <==> a == b,
{
    if a.encode_spec() == b.encode_spec() {
        lemma_identity_seq_injective(
            a.primary as nat,
            a.secondary as nat,
            b.primary as nat,
            b.secondary as nat,
        );
    }
}

/// Distinct file objects — distinct in their primary or secondary number —
/// resolve to distinct identities.
pub proof fn lemma_distinct_objects_distinct_identities(a: RawFileInfo, b: RawFileInfo)
    requires
        a.primary_spec() != b.primary_spec() || a.secondary_spec() != b.secondary_spec(),
    ensures
        resolve_spec(Some(a)) != resolve_spec(Some(b)),
{
    if resolve_spec(Some(a)) == resolve_spec(Some(b)) {
        lemma_identity_seq_injective(
            a.primary_spec(),
            a.secondary_spec(),
            b.primary_spec(),
            b.secondary_spec(),
        );
    }
}

} // verus!
