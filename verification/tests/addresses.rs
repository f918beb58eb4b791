use evm_impl::address::{address_from_digest, create2_address, create_address};
use evm_impl::primitives::{H160, H256, U256};
use sha3::Digest;

fn unhex(text: &str) -> Vec<u8> {
    let digits: Vec<u8> = text
        .bytes()
        .map(|c| match c {
            b'0'..=b'9' => c - b'0',
            b'a'..=b'f' => c - b'a' + 10,
            _ => panic!("not a digit"),
        })
        .collect();
    digits.chunks(2).map(|pair| pair[0] * 16 + pair[1]).collect()
}

fn address(text: &str) -> H160 {
    unhex(text).try_into().unwrap()
}

fn word(text: &str) -> U256 {
    let bytes = unhex(text);
    let mut limbs = [0u64; 4];
    for (i, chunk) in bytes.chunks(8).enumerate() {
        limbs[3 - i] = u64::from_be_bytes(chunk.try_into().unwrap());
    }
    U256 { limbs }
}

fn keccak(data: &[u8]) -> H256 {
    sha3::Keccak256::digest(data).into()
}

const ZERO_SALT: &str = "0000000000000000000000000000000000000000000000000000000000000000";

#[test]
fn create_addresses_of_one_caller() {
    let caller = address("6ac7ea33f8831ea9dcc53393aaa88b25a785dbf0");
    assert_eq!(create_address(caller, 0), address("cd234a471b72ba2f1ccf0a70fcaba648a5eecd8d"));
    assert_eq!(create_address(caller, 1), address("343c43a37d37dff08ae8c4a11544c718abb4fcf8"));
    assert_eq!(create_address(caller, 2), address("f778b86fa74e846c4f0a1fbd1335fe81c00a0c91"));
    assert_eq!(create_address(caller, 3), address("fffd933a0bc612844eaf0c6fe3e5b8e9b6c1d19c"));
}

#[test]
fn create_address_hashes_the_list_of_caller_and_nonce() {
    let caller = [0x11; 20];
    for (nonce, encoded) in [
        (0u64, vec![0x80]),
        (1, vec![0x01]),
        (0x7f, vec![0x7f]),
        (0x80, vec![0x81, 0x80]),
        (0x100, vec![0x82, 0x01, 0x00]),
        (u64::MAX, vec![0x88, 0xff, 0xff, 0xff, 0xff, 0xff, 0xff, 0xff, 0xff]),
    ] {
        let mut list = vec![0xc0 + 21 + encoded.len() as u8, 0x94];
        list.extend_from_slice(&caller);
        list.extend_from_slice(&encoded);
        assert_eq!(create_address(caller, nonce), keccak(&list)[12..]);
    }
}

#[test]
fn create_addresses_differ_by_caller_and_nonce() {
    let first = create_address([1; 20], 5);
    assert_ne!(first, create_address([1; 20], 6));
    assert_ne!(first, create_address([2; 20], 5));
}

#[test]
fn create2_of_zeros() {
    assert_eq!(
        create2_address([0; 20], keccak(&[0]), word(ZERO_SALT)),
        address("4d1a2e2bb4f88f0250f26ffff098b0b30b26bf38")
    );
}

#[test]
fn create2_depends_on_the_caller() {
    assert_eq!(
        create2_address(
            address("deadbeef00000000000000000000000000000000"),
            keccak(&[0]),
            word(ZERO_SALT)
        ),
        address("b928f69bb1d91cd65274e3c79d8986362984fda3")
    );
}

#[test]
fn create2_depends_on_the_salt() {
    assert_eq!(
        create2_address(
            address("deadbeef00000000000000000000000000000000"),
            keccak(&[0]),
            word("000000000000000000000000feed000000000000000000000000000000000000")
        ),
        address("d04116cdd17bebe565eb2422f2497e06cc1c9833")
    );
}

#[test]
fn create2_depends_on_the_init_code() {
    assert_eq!(
        create2_address([0; 20], keccak(&[0xde, 0xad, 0xbe, 0xef]), word(ZERO_SALT)),
        address("70f2b2914a2a4b783faefb75f459a580616fcb5e")
    );
}

#[test]
fn create2_with_everything() {
    assert_eq!(
        create2_address(
            address("00000000000000000000000000000000deadbeef"),
            keccak(&[0xde, 0xad, 0xbe, 0xef]),
            word("00000000000000000000000000000000000000000000000000000000cafebabe")
        ),
        address("60f3f640a8508fc6a86d45df051962668e1e8ac7")
    );
}

#[test]
fn create_and_create2_differ() {
    let caller = [7; 20];
    assert_ne!(
        create_address(caller, 0),
        create2_address(caller, keccak(&[]), word(ZERO_SALT))
    );
}

#[test]
fn an_address_is_the_end_of_a_digest() {
    let mut digest = [0; 32];
    for i in 0..32 {
        digest[i] = i as u8;
    }
    let address = address_from_digest(&digest);
    assert_eq!((address[0], address[19]), (12, 31));
}
