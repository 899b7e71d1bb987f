use beenergy::address::{Address, AddressKind};
use beenergy::big_endian::{push_be_digits, read_sixteen};
use soroban_sdk::xdr::{FromXdr, ToXdr};
use soroban_sdk::{Address as HostAddress, Bytes, Env};

const SEQUENCE_HI: u128 = 0x0102_0304_0506_0708_090a_0b0c_0d0e_0f10;
const SEQUENCE_LO: u128 = 0x1112_1314_1516_1718_191a_1b1c_1d1e_1f20;

/// Addresses with the keys 0, 1 2 3 .. 32 and all ones, as the host writes them.
fn samples() -> Vec<(&'static str, Address)> {
    let account = |key_hi, key_lo| Address { kind: AddressKind::Account, key_hi, key_lo };
    let contract = |key_hi, key_lo| Address { kind: AddressKind::Contract, key_hi, key_lo };
    vec![
        ("GAAAAAAAAAAAAAAAAAAAAAAAAAAAAAAAAAAAAAAAAAAAAAAAAAAAAWHF", account(0, 0)),
        ("CAAAAAAAAAAAAAAAAAAAAAAAAAAAAAAAAAAAAAAAAAAAAAAAAAAABSC4", contract(0, 0)),
        (
            "GAAQEAYEAUDAOCAJBIFQYDIOB4IBCEQTCQKRMFYYDENBWHA5DYPSABOV",
            account(SEQUENCE_HI, SEQUENCE_LO),
        ),
        (
            "CAAQEAYEAUDAOCAJBIFQYDIOB4IBCEQTCQKRMFYYDENBWHA5DYPSBFLM",
            contract(SEQUENCE_HI, SEQUENCE_LO),
        ),
        (
            "GD7777777777777777777777777777777777777777777777777773DB",
            account(u128::MAX, u128::MAX),
        ),
        (
            "CD7777777777777777777777777777777777777777777777777767GY",
            contract(u128::MAX, u128::MAX),
        ),
    ]
}

#[test]
fn the_encoding_is_the_hosts() {
    let env = Env::default();
    for (strkey, address) in samples() {
        let host = HostAddress::from_str(&env, strkey);
        let xdr = host.clone().to_xdr(&env);
        let mut bytes = vec![0u8; xdr.len() as usize];
        xdr.copy_into_slice(&mut bytes);
        assert_eq!(address.to_xdr(), bytes);
        assert_eq!(Address::from_xdr(&bytes), Some(address));
        let back = HostAddress::from_xdr(&env, &Bytes::from_slice(&env, &address.to_xdr()));
        assert!(back.is_ok());
        assert!(back.unwrap() == host);
    }
}

#[test]
fn the_encoding_byte_by_byte() {
    let account = Address { kind: AddressKind::Account, key_hi: SEQUENCE_HI, key_lo: SEQUENCE_LO };
    let mut expected = vec![0u8, 0, 0, 18, 0, 0, 0, 0, 0, 0, 0, 0];
    expected.extend(1u8..=32);
    assert_eq!(account.to_xdr(), expected);
    assert_eq!(account.to_xdr().len(), 44);

    let contract = Address { kind: AddressKind::Contract, key_hi: 1, key_lo: 2 };
    let mut expected = vec![0u8, 0, 0, 18, 0, 0, 0, 1];
    expected.extend([0u8; 15]);
    expected.push(1);
    expected.extend([0u8; 15]);
    expected.push(2);
    assert_eq!(contract.to_xdr(), expected);
    assert_eq!(contract.to_xdr().len(), 40);
}

#[test]
fn decoding_inverts_encoding() {
    for (_, address) in samples() {
        assert_eq!(Address::from_xdr(&address.to_xdr()), Some(address));
    }
    let odd = Address { kind: AddressKind::Contract, key_hi: 1 << 127, key_lo: 255 };
    assert_eq!(Address::from_xdr(&odd.to_xdr()), Some(odd));
}

#[test]
fn decoding_takes_nothing_but_encodings() {
    let account = Address { kind: AddressKind::Account, key_hi: 7, key_lo: 9 };
    let contract = Address { kind: AddressKind::Contract, key_hi: 7, key_lo: 9 };
    for good in [account.to_xdr(), contract.to_xdr()] {
        assert!(Address::from_xdr(&good).is_some());
        // Any other byte in the head.
        for position in 0..good.len() - 32 {
            let mut bad = good.clone();
            bad[position] ^= 1;
            assert_eq!(Address::from_xdr(&bad), None);
            let mut bad = good.clone();
            bad[position] = 0xff;
            assert_eq!(Address::from_xdr(&bad), None);
        }
        // Any other length.
        let mut long = good.clone();
        long.push(0);
        assert_eq!(Address::from_xdr(&long), None);
        let mut short = good.clone();
        short.pop();
        assert_eq!(Address::from_xdr(&short), None);
        assert_eq!(Address::from_xdr(&good[..good.len() - 4].to_vec()), None);
    }
    assert_eq!(Address::from_xdr(&Vec::new()), None);
    assert_eq!(Address::from_xdr(&vec![0u8; 40]), None);
    assert_eq!(Address::from_xdr(&vec![0u8; 44]), None);
    // The head of a contract before 36 bytes, the head of an account before 28.
    let mut mixed = vec![0u8, 0, 0, 18, 0, 0, 0, 1];
    mixed.extend([0u8; 36]);
    assert_eq!(Address::from_xdr(&mixed), None);
    let mut mixed = vec![0u8, 0, 0, 18, 0, 0, 0, 0, 0, 0, 0, 0];
    mixed.extend([0u8; 28]);
    assert_eq!(Address::from_xdr(&mixed), None);
}

#[test]
fn sixteen_digits_there_and_back() {
    for n in [0u128, 1, 255, 256, SEQUENCE_HI, u128::MAX - 1, u128::MAX] {
        let mut bytes = vec![0xaau8, 0xbb];
        push_be_digits(&mut bytes, n, 16);
        assert_eq!(bytes.len(), 18);
        assert_eq!(&bytes[2..], &n.to_be_bytes());
        assert_eq!(read_sixteen(&bytes, 2), n);
    }
    let mut bytes = Vec::new();
    push_be_digits(&mut bytes, 0x0102_0304, 2);
    assert_eq!(bytes, vec![3, 4]);
    push_be_digits(&mut bytes, 5, 0);
    assert_eq!(bytes, vec![3, 4]);
}
