//! Identity model: fixed-width fingerprints and the two addressable entity
//! kinds of the ledger (account addresses and contract addresses).

use vstd::prelude::*;
use vstd::string::StrSliceExecFns;

use crate::error::Error;

verus! {

/// A fixed-width 32-byte content identifier, used for asset ids and for
/// account and contract addresses.
#[derive(Debug)]
pub struct Fingerprint {
    bytes: Vec<u8>,
}

impl View for Fingerprint {
    type V = Seq<u8>;

    closed spec fn view(&self) -> Seq<u8> {
        self.bytes@
    }
}

/// Whether `c` is an ASCII hexadecimal digit.
pub open spec fn is_hex_digit(c: char) -> bool {
    ('0' <= c && c <= '9') || ('a' <= c && c <= 'f') || ('A' <= c && c <= 'F')
}

/// The numeric value of a hexadecimal digit.
pub open spec fn hex_val(c: char) -> u8 {
    if '0' <= c && c <= '9' {
        (c as u8 - '0' as u8) as u8
    } else if 'a' <= c && c <= 'f' {
        (c as u8 - 'a' as u8 + 10) as u8
    } else {
        (c as u8 - 'A' as u8 + 10) as u8
    }
}

/// Whether `s` is a canonical textual fingerprint: 66 characters, a `0x`
/// prefix, and 64 hexadecimal digits.
pub open spec fn valid_fingerprint_text(s: Seq<char>) -> bool {
    &&& s.len() == 66
    &&& s[0] == '0'
    &&& s[1] == 'x'
    &&& forall|i: int| 2 <= i < 66 ==> is_hex_digit(#[trigger] s[i])
}

/// The 32 bytes denoted by a canonical textual fingerprint.
pub open spec fn fingerprint_of_text(s: Seq<char>) -> Seq<u8> {
    Seq::new(32, |i: int| (hex_val(s[2 + 2 * i]) * 16 + hex_val(s[3 + 2 * i])) as u8)
}

impl Fingerprint {
    /// The all-zero fingerprint.
    pub fn zeroed() -> (r: Fingerprint)
        ensures
            r@.len() == 32,
            forall|i: int| 0 <= i < 32 ==> r@[i] == 0u8,
    {
        let mut bytes: Vec<u8> = Vec::new();
        let mut i: usize = 0;
        while i < 32
            invariant
                i <= 32,
                bytes@.len() == i,
                forall|j: int| 0 <= j < i ==> bytes@[j] == 0u8,
            decreases 32 - i,
        {
            bytes.push(0u8);
            i = i + 1;
        }
        Fingerprint { bytes }
    }

    /// A copy of this fingerprint.
    pub fn dup(&self) -> (r: Fingerprint)
        ensures
            r@ == self@,
    {
        let mut bytes: Vec<u8> = Vec::new();
        let mut i: usize = 0;
        while i < self.bytes.len()
            invariant
                i <= self.bytes@.len(),
                bytes@ == self.bytes@.subrange(0, i as int),
            decreases self.bytes@.len() - i,
        {
            bytes.push(self.bytes[i]);
            assert(bytes@ =~= self.bytes@.subrange(0, i + 1));
            i = i + 1;
        }
        assert(bytes@ =~= self.bytes@);
        Fingerprint { bytes }
    }

    /// Whether two fingerprints denote the same bytes.
    pub fn matches(&self, other: &Fingerprint) -> (r: bool)
        ensures
            r == (self@ == other@),
    {
        if self.bytes.len() != other.bytes.len() {
            assert(self@ !~= other@);
            return false;
        }
        let mut i: usize = 0;
        while i < self.bytes.len()
            invariant
                i <= self.bytes@.len(),
                self.bytes@.len() == other.bytes@.len(),
                forall|j: int| 0 <= j < i ==> self.bytes@[j] == other.bytes@[j],
            decreases self.bytes@.len() - i,
        {
            if self.bytes[i] != other.bytes[i] {
                return false;
            }
            i = i + 1;
        }
        assert(self@ =~= other@);
        true
    }

    /// Wraps raw bytes as a fingerprint.
    pub fn from_bytes(bytes: Vec<u8>) -> (r: Fingerprint)
        ensures
            r@ == bytes@,
    {
        Fingerprint { bytes }
    }

    /// The underlying bytes.
    pub fn as_bytes(&self) -> (r: &Vec<u8>)
        ensures
            r@ == self@,
    {
        &self.bytes
    }
}

impl PartialEq for Fingerprint {
    fn eq(&self, other: &Fingerprint) -> (r: bool) {
        self.matches(other)
    }
}

impl vstd::std_specs::cmp::PartialEqSpecImpl for Fingerprint {
    open spec fn obeys_eq_spec() -> bool {
        true
    }

    open spec fn eq_spec(&self, other: &Fingerprint) -> bool {
        self@ == other@
    }
}

/// Reads one hexadecimal digit; fails on any other character.
fn parse_hex_digit(c: char) -> (r: Result<u8, Error>)
    ensures
        r is Ok <==> is_hex_digit(c),
        r is Ok ==> r->Ok_0 == hex_val(c),
        r is Err ==> r->Err_0 == Error::MalformedFingerprint,
{
    if '0' <= c && c <= '9' {
        Ok(c as u8 - '0' as u8)
    } else if 'a' <= c && c <= 'f' {
        Ok(c as u8 - 'a' as u8 + 10)
    } else if 'A' <= c && c <= 'F' {
        Ok(c as u8 - 'A' as u8 + 10)
    } else {
        Err(Error::MalformedFingerprint)
    }
}

/// Parses a textual fingerprint into its fixed-width form.
///
/// Fails with `MalformedFingerprint` when the text is not exactly the
/// canonical length or is not `0x` followed by 64 hexadecimal digits.
pub fn parse_fingerprint(s: &str) -> (r: Result<Fingerprint, Error>)
    ensures
        r is Ok <==> valid_fingerprint_text(s@),
        r is Ok ==> r->Ok_0@ == fingerprint_of_text(s@) && r->Ok_0@.len() == 32,
        r is Err ==> r->Err_0 == Error::MalformedFingerprint,
{
    if s.unicode_len() != 66 {
        return Err(Error::MalformedFingerprint);
    }
    if s.get_char(0) != '0' || s.get_char(1) != 'x' {
        return Err(Error::MalformedFingerprint);
    }
    let mut bytes: Vec<u8> = Vec::new();
    let mut i: usize = 0;
    while i < 32
        invariant
            i <= 32,
            s@.len() == 66,
            bytes@.len() == i,
            forall|j: int| 2 <= j < 2 + 2 * i ==> is_hex_digit(#[trigger] s@[j]),
            forall|j: int|
                0 <= j < i ==> bytes@[j] == (hex_val(s@[2 + 2 * j]) * 16 + hex_val(
                    s@[3 + 2 * j],
                )) as u8,
        decreases 32 - i,
    {
        let hi = match parse_hex_digit(s.get_char(2 + 2 * i)) {
            Ok(v) => v,
            Err(e) => {
                assert(!is_hex_digit(s@[2 + 2 * (i as int)]));
                return Err(e);
            },
        };
        let lo = match parse_hex_digit(s.get_char(3 + 2 * i)) {
            Ok(v) => v,
            Err(e) => {
                assert(!is_hex_digit(s@[3 + 2 * (i as int)]));
                return Err(e);
            },
        };
        assert(hi < 16 && lo < 16) by {
            assert(is_hex_digit(s@[2 + 2 * (i as int)]));
            assert(is_hex_digit(s@[3 + 2 * (i as int)]));
        }
        bytes.push(hi * 16 + lo);
        i = i + 1;
    }
    assert(forall|j: int| 2 <= j < 66 ==> is_hex_digit(#[trigger] s@[j]));
    assert(bytes@ =~= fingerprint_of_text(s@));
    Ok(Fingerprint { bytes })
}

/// The two kinds of mint recipient a command can name.
#[derive(Clone, Copy, PartialEq, Eq, Structural, Debug)]
pub enum IdentityKind {
    Address,
    Contract,
}

/// A ledger-level addressable entity: an account or a contract.
#[derive(Debug)]
pub enum IdentityRef {
    AccountAddress(Fingerprint),
    ContractAddress(Fingerprint),
}

/// The abstract key of an identity: its kind and its fingerprint bytes.
pub open spec fn id_key(r: IdentityRef) -> (bool, Seq<u8>) {
    match r {
        IdentityRef::AccountAddress(fp) => (false, fp@),
        IdentityRef::ContractAddress(fp) => (true, fp@),
    }
}

/// The abstract key of an account address.
pub open spec fn account_key(addr: Seq<u8>) -> (bool, Seq<u8>) {
    (false, addr)
}

impl IdentityRef {
    /// Builds the identity variant matching the given kind. No further
    /// validation is performed; address-space collisions are the contract's
    /// concern.
    pub fn from_kind(kind: IdentityKind, fp: Fingerprint) -> (r: IdentityRef)
        ensures
            kind == IdentityKind::Address ==> r is AccountAddress,
            kind == IdentityKind::Contract ==> r is ContractAddress,
            id_key(r).1 == fp@,
    {
        match kind {
            IdentityKind::Address => IdentityRef::AccountAddress(fp),
            IdentityKind::Contract => IdentityRef::ContractAddress(fp),
        }
    }

    /// A copy of this identity.
    pub fn dup(&self) -> (r: IdentityRef)
        ensures
            id_key(r) == id_key(*self),
            r is AccountAddress <==> self is AccountAddress,
    {
        match self {
            IdentityRef::AccountAddress(fp) => IdentityRef::AccountAddress(fp.dup()),
            IdentityRef::ContractAddress(fp) => IdentityRef::ContractAddress(fp.dup()),
        }
    }

    /// The fingerprint of the identity, whichever kind it is.
    pub fn fingerprint(&self) -> (r: &Fingerprint)
        ensures
            r@ == id_key(*self).1,
    {
        match self {
            IdentityRef::AccountAddress(fp) => fp,
            IdentityRef::ContractAddress(fp) => fp,
        }
    }
}

} // verus!
