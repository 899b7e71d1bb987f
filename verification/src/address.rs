use crate::big_endian::{
    be_digits, be_value, lemma_be_digits_len, lemma_be_value_bound, lemma_digits_of_value,
    lemma_radix_sixteen, lemma_value_of_digits, push_be_digits, read_sixteen,
};
use vstd::prelude::*;

verus! {

/// What an address names.
#[derive(Clone, Copy, Debug, PartialEq, Eq, Structural)]
pub enum AddressKind {
    Account,
    Contract,
}

/// A principal or a contract, named by its kind and its 256-bit key.
/// The key is held as two halves, the more significant one first.
#[derive(Clone, Copy, Debug, PartialEq, Eq, Structural)]
pub struct Address {
    pub kind: AddressKind,
    pub key_hi: u128,
    pub key_lo: u128,
}

/// What the encoding of an address starts with: the tag of an address among the host's
/// values, the tag of its kind, and for an account the tag of its key type.
pub open spec fn xdr_head(kind: AddressKind) -> Seq<u8> {
    match kind {
        AddressKind::Account => seq![0u8, 0, 0, 18, 0, 0, 0, 0, 0, 0, 0, 0],
        AddressKind::Contract => seq![0u8, 0, 0, 18, 0, 0, 0, 1],
    }
}

/// The encoding of an address as a host value in XDR: the head for its kind, then the 32
/// bytes of its key.
pub open spec fn xdr_of(address: Address) -> Seq<u8> {
    xdr_head(address.kind) + be_digits(address.key_hi as nat, 16) + be_digits(
        address.key_lo as nat,
        16,
    )
}

/// The length of the head: 12 bytes for an account, 8 for a contract.
pub open spec fn xdr_head_len(kind: AddressKind) -> int {
    match kind {
        AddressKind::Account => 12,
        AddressKind::Contract => 8,
    }
}

/// The encoding of an account is 44 bytes long, that of a contract 40: the head, the
/// first half of the key, the second half.
pub proof fn lemma_xdr_shape(address: Address)
    ensures
        xdr_head(address.kind).len() == xdr_head_len(address.kind),
        xdr_of(address).len() == xdr_head_len(address.kind) + 32,
        xdr_of(address).subrange(0, xdr_head_len(address.kind)) == xdr_head(address.kind),
        xdr_of(address).subrange(xdr_head_len(address.kind), xdr_head_len(address.kind) + 16)
            == be_digits(address.key_hi as nat, 16),
        xdr_of(address).subrange(
            xdr_head_len(address.kind) + 16,
            xdr_head_len(address.kind) + 32,
        ) == be_digits(address.key_lo as nat, 16),
{
    let head = xdr_head(address.kind);
    let n = xdr_head_len(address.kind);
    let hi = be_digits(address.key_hi as nat, 16);
    let lo = be_digits(address.key_lo as nat, 16);
    lemma_be_digits_len(address.key_hi as nat, 16);
    lemma_be_digits_len(address.key_lo as nat, 16);
    assert(xdr_of(address).subrange(0, n) =~= head);
    assert(xdr_of(address).subrange(n, n + 16) =~= hi);
    assert(xdr_of(address).subrange(n + 16, n + 32) =~= lo);
}

/// Different addresses have different encodings.
pub proof fn lemma_xdr_is_injective(a: Address, b: Address)
    requires
        xdr_of(a) == xdr_of(b),
    ensures
        a == b,
{
    lemma_xdr_shape(a);
    lemma_xdr_shape(b);
    lemma_radix_sixteen();
    lemma_value_of_digits(a.key_hi as nat, 16);
    lemma_value_of_digits(b.key_hi as nat, 16);
    lemma_value_of_digits(a.key_lo as nat, 16);
    lemma_value_of_digits(b.key_lo as nat, 16);
}

impl Address {
    /// The encoding of the address.
    pub fn to_xdr(&self) -> (bytes: Vec<u8>)
        ensures
            bytes@ == xdr_of(*self),
    {
        let mut bytes: Vec<u8> = Vec::new();
        bytes.push(0);
        bytes.push(0);
        bytes.push(0);
        bytes.push(18);
        bytes.push(0);
        bytes.push(0);
        bytes.push(0);
        match self.kind {
            AddressKind::Account => {
                bytes.push(0);
                bytes.push(0);
                bytes.push(0);
                bytes.push(0);
                bytes.push(0);
            },
            AddressKind::Contract => {
                bytes.push(1);
            },
        }
        assert(bytes@ =~= xdr_head(self.kind));
        push_be_digits(&mut bytes, self.key_hi, 16);
        push_be_digits(&mut bytes, self.key_lo, 16);
        bytes
    }

    /// The address that `bytes` encode, if they encode one: the inverse of `to_xdr`.
    pub fn from_xdr(bytes: &Vec<u8>) -> (address: Option<Address>)
        ensures
            match address {
                Some(a) => bytes@ == xdr_of(a),
                None => forall|a: Address| bytes@ != xdr_of(a),
            },
    {
        let len = bytes.len();
        let kind = if len == 44 {
            AddressKind::Account
        } else if len == 40 {
            AddressKind::Contract
        } else {
            proof {
                assert forall|a: Address| bytes@ != xdr_of(a) by {
                    lemma_xdr_shape(a);
                }
            }
            return None;
        };
        let head_len: usize = len - 32;
        let head_fits = bytes[0] == 0 && bytes[1] == 0 && bytes[2] == 0 && bytes[3] == 18
            && bytes[4] == 0 && bytes[5] == 0 && bytes[6] == 0 && match kind {
            AddressKind::Account => bytes[7] == 0 && bytes[8] == 0 && bytes[9] == 0 && bytes[10]
                == 0 && bytes[11] == 0,
            AddressKind::Contract => bytes[7] == 1,
        };
        if !head_fits {
            proof {
                assert forall|a: Address| bytes@ != xdr_of(a) by {
                    lemma_xdr_shape(a);
                    if bytes@ == xdr_of(a) {
                        let head = xdr_of(a).subrange(0, xdr_head_len(a.kind));
                        assert(a.kind == kind);
                        assert(forall|i: int| 0 <= i < head.len() ==> head[i] == bytes@[i]);
                        assert(head[3] == 18);
                        assert(head[7] == bytes@[7]);
                    }
                }
            }
            return None;
        }
        let key_hi = read_sixteen(bytes, head_len);
        let key_lo = read_sixteen(bytes, head_len + 16);
        let address = Address { kind, key_hi, key_lo };
        proof {
            let hi = bytes@.subrange(head_len as int, head_len + 16);
            let lo = bytes@.subrange(head_len + 16, head_len + 32);
            lemma_digits_of_value(hi);
            lemma_digits_of_value(lo);
            assert(bytes@.subrange(0, head_len as int) =~= xdr_head(kind));
            assert(bytes@ =~= bytes@.subrange(0, head_len as int) + hi + lo);
        }
        Some(address)
    }
}


/// Every address of `wanted` occurs in `given`.
pub open spec fn all_among(wanted: Seq<Address>, given: Seq<Address>) -> bool {
    forall|i: int| 0 <= i < wanted.len() ==> given.contains(#[trigger] wanted[i])
}

/// Whether `who` occurs among the first `end` entries of `list`.
pub fn contains_before(list: &Vec<Address>, end: usize, who: Address) -> (found: bool)
    requires
        end <= list@.len(),
    ensures
        found == list@.take(end as int).contains(who),
{
    let mut i: usize = 0;
    while i < end
        invariant
            i <= end <= list@.len(),
            forall|j: int| 0 <= j < i ==> list@[j] != who,
        decreases end - i,
    {
        if list[i] == who {
            assert(list@.take(end as int)[i as int] == who);
            return true;
        }
        i += 1;
    }
    false
}

/// Whether `who` occurs in `list`.
pub fn contains_address(list: &Vec<Address>, who: Address) -> (found: bool)
    ensures
        found == list@.contains(who),
{
    assert(list@.take(list@.len() as int) =~= list@);
    contains_before(list, list.len(), who)
}

/// Whether every address of `wanted` occurs in `given`.
pub fn all_contained(wanted: &Vec<Address>, given: &Vec<Address>) -> (all: bool)
    ensures
        all == all_among(wanted@, given@),
{
    let mut i: usize = 0;
    while i < wanted.len()
        invariant
            i <= wanted@.len(),
            forall|j: int| 0 <= j < i ==> given@.contains(#[trigger] wanted@[j]),
        decreases wanted.len() - i,
    {
        if !contains_address(given, wanted[i]) {
            return false;
        }
        i += 1;
    }
    true
}

/// The number of different addresses in `list`: one that is written twice counts once.
pub fn count_distinct(list: &Vec<Address>) -> (n: usize)
    ensures
        n == list@.to_set().len(),
{
    let mut n: usize = 0;
    let mut i: usize = 0;
    assert(list@.take(0).to_set() =~= Set::<Address>::empty());
    while i < list.len()
        invariant
            i <= list@.len(),
            n <= i,
            n == list@.take(i as int).to_set().len(),
        decreases list.len() - i,
    {
        let seen = contains_before(list, i, list[i]);
        proof {
            let before = list@.take(i as int);
            let next = list@[i as int];
            assert(list@.take(i + 1) =~= before.push(next));
            before.lemma_push_to_set_commute(next);
            vstd::seq_lib::seq_to_set_is_finite(before);
            assert(before.to_set().contains(next) == before.contains(next));
        }
        if !seen {
            n += 1;
        }
        i += 1;
    }
    assert(list@.take(list@.len() as int) =~= list@);
    n
}

} // verus!
