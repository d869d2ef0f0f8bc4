use commit_verify::{Digest, Sha256};
use ultrasonic::contract::ConstMismatch;
use ultrasonic::{
    AuthToken, CellAddr, CodexId, Consensus, ConstU32, ContractId, ContractName, Fe256, FromSliceError, LibId,
    LibSite, Opid, TextForm, TypeName,
};

fn digest(data: &[u8]) -> [u8; 32] { Sha256::digest(data).into() }

#[test]
fn opid_display() {
    let id = Opid::from_byte_array(digest(b"test"));
    assert_eq!(id.to_baid64_string(), "n4bQgYhMfWWaL_qgxVrQFaO~TxsrC4Is0V1sFbDwCgg");
    assert_eq!(
        id.to_baid64_string_as(Opid::text_form().toggle_prefix()),
        "usop:n4bQgYhMfWWaL_qgxVrQFaO~TxsrC4Is0V1sFbDwCgg"
    );
    assert_eq!(
        id.to_baid64_string_as(Opid::text_form().toggle_mnemonic()),
        "n4bQgYhMfWWaL_qgxVrQFaO~TxsrC4Is0V1sFbDwCgg#nova-impact-simon"
    );
}

#[test]
fn codex_id_display() {
    let id = CodexId::from_byte_array(digest(b"test"));
    assert_eq!(id.to_baid64_string(), "n4bQgYhM-fWWaL_q-gxVrQFa-O~TxsrC-4Is0V1s-FbDwCgg#berlin-river-delta");
    assert_eq!(
        id.to_baid64_string_as(CodexId::text_form().toggle_prefix()),
        "codex:n4bQgYhM-fWWaL_q-gxVrQFa-O~TxsrC-4Is0V1s-FbDwCgg#berlin-river-delta"
    );
    assert_eq!(
        id.to_baid64_string_as(CodexId::text_form().toggle_mnemonic()),
        "n4bQgYhM-fWWaL_q-gxVrQFa-O~TxsrC-4Is0V1s-FbDwCgg"
    );
}

#[test]
fn contract_id_display() {
    let id = ContractId::from_byte_array(digest(b"test"));
    assert_eq!(id.to_baid64_string(), "contract:n4bQgYhM-fWWaL_q-gxVrQFa-O~TxsrC-4Is0V1s-FbDwCgg");
    assert_eq!(
        id.to_baid64_string_as(ContractId::text_form().toggle_prefix()),
        "n4bQgYhM-fWWaL_q-gxVrQFa-O~TxsrC-4Is0V1s-FbDwCgg"
    );
    assert_eq!(
        id.to_baid64_string_as(ContractId::text_form().toggle_mnemonic()),
        "contract:n4bQgYhM-fWWaL_q-gxVrQFa-O~TxsrC-4Is0V1s-FbDwCgg#fractal-fashion-capsule"
    );
}

#[test]
fn dumb_identifiers_as_text() {
    assert_eq!(Opid::from_byte_array([0; 32]).to_baid64_string(), "AAAAAAAAAAAAAAAAAAAAAAAAAAAAAAAAAAAAAAAAAAA");
    assert_eq!(
        ContractId::from_byte_array([0; 32]).to_baid64_string(),
        "contract:AAAAAAAA-AAAAAAA-AAAAAAA-AAAAAAA-AAAAAAA-AAAAAAA"
    );
    assert_eq!(
        AuthToken::from_fe256(Fe256::zero()).to_baid64_string(),
        "at:AAAAAAAA-AAAAAAAA-AAAAAAAA-AAAAAAAA-AAAAAAAA-1EFBiQ"
    );
}

#[test]
fn text_forms() {
    let form = Opid::text_form();
    assert_eq!(form, TextForm {
        chunking: false,
        chunk_first: 8,
        chunk_len: 7,
        prefix: false,
        mnemonic: false,
        embed_checksum: false
    });
    assert_eq!(form.toggle_prefix().toggle_prefix(), form);
    assert_eq!(form.toggle_mnemonic().toggle_mnemonic(), form);
    assert!(form.toggle_prefix().prefix);
    assert!(form.toggle_mnemonic().mnemonic);
    assert!(AuthToken::text_form().embed_checksum);
    assert_eq!(AuthToken::text_form().chunk_len, 8);
    assert!(CodexId::text_form().mnemonic && CodexId::text_form().chunking);
    assert!(ContractId::text_form().prefix && !ContractId::text_form().mnemonic);
}

#[test]
fn identifiers_from_and_to_bytes() {
    let bytes = digest(b"bytes");
    assert_eq!(Opid::from_byte_array(bytes).to_byte_array(), bytes);
    assert_eq!(CodexId::from_byte_array(bytes).to_byte_array(), bytes);
    assert_eq!(ContractId::from_byte_array(bytes).to_byte_array(), bytes);
    assert_eq!(LibId::from_byte_array(bytes).to_byte_array(), bytes);
    assert!(Opid::from_byte_array(bytes).is(&Opid::from_byte_array(bytes)));
    assert!(!Opid::from_byte_array(bytes).is(&Opid::from_byte_array([0; 32])));
    assert!(ContractId::from_byte_array(bytes).is(&ContractId::from_byte_array(bytes)));
    assert!(!ContractId::from_byte_array(bytes).is(&ContractId::placeholder()));
    assert!(CodexId::from_byte_array(bytes).is(&CodexId::from_byte_array(bytes)));
    assert!(LibId::from_byte_array(bytes).is(&LibId::from_byte_array(bytes)));
    let site = LibSite::new(LibId::from_byte_array(bytes), 7);
    assert_eq!(site.lib_id.to_byte_array(), bytes);
    assert_eq!(site.offset, 7);
}

#[test]
fn opid_copy_from_slice() {
    let bytes = digest(b"slice");
    assert_eq!(Opid::copy_from_slice(&bytes), Ok(Opid::from_byte_array(bytes)));
    assert_eq!(Opid::copy_from_slice(&bytes[..31]), Err(FromSliceError { expected: 32, actual: 31 }));
    assert_eq!(Opid::copy_from_slice(&[0u8; 33]), Err(FromSliceError { expected: 32, actual: 33 }));
    assert_eq!(Opid::copy_from_slice(&[]), Err(FromSliceError { expected: 32, actual: 0 }));
}

#[test]
fn cell_addr_bytes() {
    let addr = CellAddr::new(Opid::from_byte_array(digest(b"addr")), 0xABCD);
    let bytes = addr.to_bytes();
    assert_eq!(&bytes[..32], &digest(b"addr")[..]);
    assert_eq!(&bytes[32..], &[0xCD, 0xAB]);
    assert_eq!(CellAddr::from_bytes(bytes), addr);
    assert_eq!(CellAddr::from_bytes([0; 34]), CellAddr::new(Opid::from_byte_array([0; 32]), 0));
    let mut last = [0u8; 34];
    last[33] = 1;
    assert_eq!(CellAddr::from_bytes(last).pos, 256);
}

#[test]
fn consensus_names_and_tags() {
    assert_eq!(Consensus::from_str("none"), Ok(Consensus::Absent));
    assert_eq!(Consensus::from_str("bitcoin"), Ok(Consensus::Bitcoin));
    assert_eq!(Consensus::from_str("liquid"), Ok(Consensus::Liquid));
    assert_eq!(Consensus::from_str("prime"), Ok(Consensus::Prime));
    assert_eq!(Consensus::from_str("Bitcoin"), Err("Bitcoin".to_owned()));
    assert_eq!(Consensus::from_str(""), Err(String::new()));
    assert_eq!(Consensus::from_str("primes"), Err("primes".to_owned()));
    for consensus in [Consensus::Absent, Consensus::Bitcoin, Consensus::Liquid, Consensus::Prime] {
        let name = String::from_utf8(consensus.name()).unwrap();
        assert_eq!(Consensus::from_str(&name), Ok(consensus));
        assert_eq!(Consensus::from_tag(consensus.tag()), Some(consensus));
    }
    assert_eq!(Consensus::Absent.tag(), 0);
    assert_eq!(Consensus::Bitcoin.tag(), 0x10);
    assert_eq!(Consensus::Liquid.tag(), 0x11);
    assert_eq!(Consensus::Prime.tag(), 0x20);
    assert_eq!(Consensus::from_tag(1), None);
    assert_eq!(Consensus::from_tag(0x21), None);
}

#[test]
fn const_u32_holds_its_constant() {
    assert_eq!(ConstU32::<7>::new().get(), 7);
    assert_eq!(ConstU32::<7>::default().get(), 7);
    assert_eq!(ConstU32::<0>::new().clone().get(), 0);
    assert_eq!(ConstU32::<7>::from_u32(7), Ok(ConstU32::<7>::new()));
    assert_eq!(ConstU32::<7>::from_u32(8), Err(ConstMismatch { expected: 7, found: 8 }));
    assert_eq!(ConstU32::<{ u32::MAX }>::from_u32(0), Err(ConstMismatch { expected: u32::MAX, found: 0 }));
}

#[test]
fn type_names() {
    assert!(TypeName::from_str("MyContract").is_some());
    assert!(TypeName::from_str("_private9").is_some());
    assert!(TypeName::from_str("X").is_some());
    assert!(TypeName::from_str("").is_none());
    assert!(TypeName::from_str("lower").is_none());
    assert!(TypeName::from_str("9Nine").is_none());
    assert!(TypeName::from_str("With space").is_none());
    assert!(TypeName::from_str("Dash-ed").is_none());
    assert!(TypeName::from_bytes(&[b'A'; 100]).is_some());
    assert!(TypeName::from_bytes(&[b'A'; 101]).is_none());
    let name = TypeName::from_str("Named_1").unwrap();
    assert_eq!(name.as_bytes(), b"Named_1");
    assert_eq!(name.clone(), name);
    let mut out = vec![];
    ContractName::Named(name).encode(&mut out);
    assert_eq!(out, [&[1u8, 7][..], b"Named_1"].concat());
    let mut out = vec![];
    ContractName::Unnamed.encode(&mut out);
    assert_eq!(out, [0u8]);
    for text in ["MyContract", "_private9", "X", "", "lower", "9Nine", "With space"] {
        assert_eq!(TypeName::from_str(text).is_some(), strict_encoding::TypeName::try_from(text.to_owned()).is_ok());
    }
}

#[test]
fn auth_tokens_are_ordered_by_integer() {
    let a = AuthToken::from_fe256(Fe256::from_u32(0x01FF));
    let b = AuthToken::from_fe256(Fe256::from_u32(0x0200));
    assert!(a < b);
    assert!(b > a);
    assert!(a <= a);
    assert_eq!(a.partial_cmp(&b), Some(core::cmp::Ordering::Less));
    assert_eq!(b.partial_cmp(&a), Some(core::cmp::Ordering::Greater));
    assert_eq!(a.partial_cmp(&a), Some(core::cmp::Ordering::Equal));
    let theirs_a = amplify::num::u256::from_le_bytes(a.to_fe256().to_le_bytes());
    let theirs_b = amplify::num::u256::from_le_bytes(b.to_fe256().to_le_bytes());
    assert_eq!(a.partial_cmp(&b), theirs_a.partial_cmp(&theirs_b));
}
