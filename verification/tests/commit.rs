use std::collections::BTreeMap;
use std::str::FromStr;

use amplify::confinement::{SmallBlob, SmallVec, TinyOrdMap, TinyString};
use amplify::num::u256;
use commit_verify::{CommitEncode, CommitEngine, CommitId, Digest, DigestExt, MerkleHash, Sha256};
use strict_encoding::stl::AsciiPrintable;
use strict_encoding::{RString, StrictEncode, StrictType, StrictWriter, TypeName};
use ultrasonic::commit::merklize;
use ultrasonic::operation::{merkle_root_of, MerkleLeaf};
use ultrasonic::{
    AuthToken, CellAddr, Codex, CodexId, Consensus, ContractId, ContractMeta, ContractName, CoreConfig, Fe256,
    Genesis, Identity, Input, Issue, LibId, LibSite, Operation, Opid, RawData, ReservedBytes, StateCell,
    StateData, StateValue,
};

const MERKLE_TAG: &str = "urn:ubideco:merkle:node#2024-01-31";
const STRICT_TAG: &str = "urn:ubideco:strict-types:value-hash#2024-02-10";
const OPID_TAG: &str = "urn:ubideco:ultrasonic:operation#2024-11-14";
const CODEX_TAG: &str = "urn:ubideco:sonic:codex#2025-05-15";
const CONTRACT_TAG: &str = "urn:ubideco:sonic:contract#2024-11-16";

fn enc<T: StrictEncode>(value: &T) -> Vec<u8> {
    value
        .strict_encode(StrictWriter::in_memory::<{ usize::MAX }>())
        .unwrap()
        .unbox()
        .unconfine()
}

fn tagged(tag: &str, data: &[u8]) -> [u8; 32] { Sha256::from_tag(tag).with_raw(data).finish() }

fn bytes32(seed: u8) -> [u8; 32] { core::array::from_fn(|i| seed.wrapping_mul(31).wrapping_add(i as u8)) }

fn fe(seed: u8) -> Fe256 {
    let mut bytes = bytes32(seed);
    bytes[31] = 0;
    Fe256::from_le_bytes(bytes)
}

fn their_fe(value: Fe256) -> zkaluvm::fe256 { zkaluvm::fe256::from(value.to_le_bytes()) }

fn their_site(site: LibSite) -> zkaluvm::alu::LibSite {
    zkaluvm::alu::LibSite::new(zkaluvm::alu::LibId::from(site.lib_id.to_byte_array()), site.offset)
}

fn value_bytes(value: StateValue) -> Vec<u8> {
    let items = value.to_vec();
    let mut out = vec![items.len() as u8];
    for item in items {
        out.extend(enc(&their_fe(item)));
    }
    out
}

fn addr_bytes(addr: CellAddr) -> Vec<u8> {
    let mut out = enc(&zkaluvm::alu::LibId::from(addr.opid.to_byte_array()));
    out.extend(enc(&addr.pos));
    out
}

fn input_bytes(input: Input) -> Vec<u8> {
    let mut out = addr_bytes(input.addr);
    out.extend(value_bytes(input.witness));
    out
}

fn cell_bytes(cell: StateCell) -> Vec<u8> {
    let mut out = value_bytes(cell.data);
    out.extend(enc(&their_fe(cell.auth.to_fe256())));
    out.extend(enc(&cell.lock.map(their_site)));
    out
}

fn data_bytes(data: &StateData) -> Vec<u8> {
    let mut out = value_bytes(data.value);
    match &data.raw {
        None => out.extend(enc(&Option::<SmallBlob>::None)),
        Some(raw) => {
            let blob = SmallBlob::try_from(raw.as_slice().to_vec()).unwrap();
            out.extend(tagged(STRICT_TAG, &enc(&blob)));
        }
    }
    out
}

/// A leaf that commits to raw bytes the way a strict-encoded type with a Merkle identifier does.
#[derive(Clone, Debug)]
struct Leaf(Vec<u8>);

impl StrictType for Leaf {
    const STRICT_LIB_NAME: &'static str = "Test";
    fn strict_name() -> Option<TypeName> { Some(TypeName::from("Leaf")) }
}

impl CommitEncode for Leaf {
    type CommitmentId = MerkleHash;

    fn commit_encode(&self, e: &mut CommitEngine) {
        for byte in &self.0 {
            e.commit_to_serialized(byte);
        }
    }
}

fn their_root(leaves: Vec<Vec<u8>>) -> [u8; 32] {
    let leaves: SmallVec<Leaf> = SmallVec::try_from(leaves.into_iter().map(Leaf).collect::<Vec<_>>()).unwrap();
    MerkleHash::merklize(&leaves).to_byte_array()
}

fn sample_addr(seed: u8) -> CellAddr { CellAddr::new(Opid::from_byte_array(bytes32(seed)), seed as u16 * 257 + 3) }

fn sample_site(seed: u8) -> LibSite { LibSite::new(LibId::from_byte_array(bytes32(seed)), 0x1234 + seed as u16) }

fn sample_value(seed: u8) -> StateValue {
    let items: Vec<Fe256> = (0..(seed % 5)).map(|i| fe(seed.wrapping_add(i))).collect();
    StateValue::from_iter(&items)
}

fn sample_cell(seed: u8) -> StateCell {
    StateCell {
        data: sample_value(seed),
        auth: AuthToken::from_fe256(fe(seed.wrapping_add(100))),
        lock: if seed % 2 == 0 { Some(sample_site(seed)) } else { None },
    }
}

fn sample_data(seed: u8) -> StateData {
    StateData {
        value: sample_value(seed),
        raw: if seed % 2 == 0 { None } else { Some(RawData::from_vec(vec![seed; seed as usize * 3]).unwrap()) },
    }
}

fn sample_operation() -> Operation {
    Operation {
        version: ReservedBytes::new(),
        contract_id: ContractId::from_byte_array(bytes32(200)),
        call_id: 0xBEEF,
        nonce: fe(77),
        destructible_in: vec![
            Input { addr: sample_addr(1), witness: sample_value(1) },
            Input { addr: sample_addr(2), witness: sample_value(4) },
            Input { addr: sample_addr(3), witness: sample_value(0) },
        ],
        immutable_in: vec![sample_addr(9)],
        destructible_out: (0..5).map(sample_cell).collect(),
        immutable_out: (0..2).map(sample_data).collect(),
    }
}

fn their_opid(op: &Operation) -> [u8; 32] {
    let mut data = enc(&commit_verify::ReservedBytes::<1>::default());
    data.extend(enc(&zkaluvm::alu::LibId::from(op.contract_id.to_byte_array())));
    data.extend(enc(&op.call_id));
    data.extend(enc(&their_fe(op.nonce)));
    data.extend(their_root(op.destructible_in.iter().map(|i| input_bytes(*i)).collect()));
    data.extend(their_root(op.immutable_in.iter().map(|a| addr_bytes(*a)).collect()));
    data.extend(their_root(op.destructible_out.iter().map(|c| cell_bytes(*c)).collect()));
    data.extend(their_root(op.immutable_out.iter().map(data_bytes).collect()));
    tagged(OPID_TAG, &data)
}

#[test]
fn canonical_bytes_follow_strict_encoding() {
    for seed in 0..10u8 {
        let mut out = vec![];
        sample_value(seed).encode(&mut out);
        assert_eq!(out, value_bytes(sample_value(seed)));

        let mut out = vec![0xAA];
        sample_addr(seed).encode(&mut out);
        assert_eq!(&out[1..], &addr_bytes(sample_addr(seed))[..]);
        assert_eq!(sample_addr(seed).to_bytes().to_vec(), addr_bytes(sample_addr(seed)));
        assert_eq!(CellAddr::from_bytes(sample_addr(seed).to_bytes()), sample_addr(seed));

        let mut out = vec![];
        sample_site(seed).encode(&mut out);
        assert_eq!(out, enc(&their_site(sample_site(seed))));

        let mut out = vec![];
        sample_cell(seed).encode(&mut out);
        assert_eq!(out, cell_bytes(sample_cell(seed)));

        let mut out = vec![];
        sample_data(seed).commit_encode(&mut out);
        assert_eq!(out, data_bytes(&sample_data(seed)));

        let input = Input { addr: sample_addr(seed), witness: sample_value(seed) };
        let mut out = vec![];
        input.encode(&mut out);
        assert_eq!(out, input_bytes(input));
    }
    let config = CoreConfig { halt: true, complexity_lim: Some(10_000_000) };
    let mut out = vec![];
    config.encode(&mut out);
    assert_eq!(out, enc(&zkaluvm::alu::CoreConfig { halt: true, complexity_lim: Some(10_000_000) }));
    let config = CoreConfig { halt: false, complexity_lim: None };
    let mut out = vec![];
    config.encode(&mut out);
    assert_eq!(out, enc(&zkaluvm::alu::CoreConfig { halt: false, complexity_lim: None }));
    let mut out = vec![];
    ReservedBytes::<14>::new().encode(&mut out);
    assert_eq!(out, enc(&commit_verify::ReservedBytes::<14>::default()));
    assert!(ReservedBytes::<2>::accepts(&[0, 0]));
    assert!(!ReservedBytes::<2>::accepts(&[0, 1]));
    assert!(!ReservedBytes::<2>::accepts(&[0]));
}

#[test]
fn leaves_are_tagged_hashes_of_canonical_bytes() {
    for seed in 0..6u8 {
        assert_eq!(sample_addr(seed).merkle_leaf(), tagged(MERKLE_TAG, &addr_bytes(sample_addr(seed))));
        assert_eq!(sample_cell(seed).merkle_leaf(), tagged(MERKLE_TAG, &cell_bytes(sample_cell(seed))));
        assert_eq!(sample_data(seed).merkle_leaf(), tagged(MERKLE_TAG, &data_bytes(&sample_data(seed))));
        assert_eq!(
            Leaf(addr_bytes(sample_addr(seed))).commit_id().to_byte_array(),
            sample_addr(seed).merkle_leaf()
        );
    }
    let raw = RawData::from_vec(vec![7; 300]).unwrap();
    let blob = SmallBlob::try_from(vec![7u8; 300]).unwrap();
    assert_eq!(raw.commit_id(), tagged(STRICT_TAG, &enc(&blob)));
    let mut out = vec![];
    raw.encode(&mut out);
    assert_eq!(out, enc(&blob));
}

#[test]
fn tags_are_those_of_commit_verify() {
    use_tags();
}

fn use_tags() {
    assert_eq!(ultrasonic::commit::MERKLE_TAG, <MerkleHash as commit_verify::CommitmentId>::TAG);
    assert_eq!(ultrasonic::commit::STRICT_TAG, <commit_verify::StrictHash as commit_verify::CommitmentId>::TAG);
    assert_eq!(MERKLE_TAG, ultrasonic::commit::MERKLE_TAG);
    assert_eq!(STRICT_TAG, ultrasonic::commit::STRICT_TAG);
    assert_eq!(OPID_TAG, ultrasonic::operation::OPID_TAG);
    assert_eq!(CODEX_TAG, ultrasonic::codex::CODEX_TAG);
    assert_eq!(CONTRACT_TAG, ultrasonic::issue::CONTRACT_TAG);
}

#[test]
fn merkle_root_is_that_of_commit_verify() {
    for n in [0usize, 1, 2, 3, 4, 5, 6, 7, 8, 9, 16, 17, 33, 100] {
        let addrs: Vec<CellAddr> = (0..n).map(|i| sample_addr(i as u8)).collect();
        let ours = merkle_root_of(&addrs);
        let theirs = their_root(addrs.iter().map(|a| addr_bytes(*a)).collect());
        assert_eq!(ours, theirs, "{n} leaves");
        let leaves: Vec<[u8; 32]> = addrs.iter().map(|a| a.merkle_leaf()).collect();
        assert_eq!(merklize(&leaves), theirs);
    }
}

#[test]
fn opid_commits_to_every_part() {
    let op = sample_operation();
    assert_eq!(op.opid().to_byte_array(), their_opid(&op));
    assert_eq!(op.clone().opid(), op.opid());

    let mut other = sample_operation();
    other.call_id = 1;
    assert_ne!(other.opid(), op.opid());
    let mut other = sample_operation();
    other.nonce = fe(78);
    assert_ne!(other.opid(), op.opid());
    let mut other = sample_operation();
    other.contract_id = ContractId::from_byte_array(bytes32(201));
    assert_ne!(other.opid(), op.opid());
    let mut other = sample_operation();
    other.destructible_in.pop();
    assert_ne!(other.opid(), op.opid());
    assert_eq!(other.opid().to_byte_array(), their_opid(&other));
    let mut other = sample_operation();
    other.immutable_in.clear();
    assert_ne!(other.opid(), op.opid());
    assert_eq!(other.opid().to_byte_array(), their_opid(&other));
    let mut other = sample_operation();
    other.destructible_out.swap(0, 1);
    assert_ne!(other.opid(), op.opid());
    let mut other = sample_operation();
    other.immutable_out[1].raw = None;
    assert_ne!(other.opid(), op.opid());
    assert_eq!(other.opid().to_byte_array(), their_opid(&other));
}

#[test]
fn empty_operation_opid() {
    let op = Operation {
        version: ReservedBytes::new(),
        contract_id: ContractId::from_byte_array([0; 32]),
        call_id: 0,
        nonce: Fe256::zero(),
        destructible_in: vec![],
        immutable_in: vec![],
        destructible_out: vec![],
        immutable_out: vec![],
    };
    assert_eq!(op.opid().to_byte_array(), their_opid(&op));
}

fn sample_genesis() -> Genesis {
    Genesis {
        version: ReservedBytes::new(),
        codex_id: CodexId::from_byte_array(bytes32(5)),
        call_id: 3,
        nonce: fe(11),
        blank1: ReservedBytes::new(),
        blank2: ReservedBytes::new(),
        destructible_out: (0..3).map(sample_cell).collect(),
        immutable_out: (0..3).map(sample_data).collect(),
    }
}

fn dumb_genesis() -> Genesis {
    Genesis {
        version: ReservedBytes::new(),
        codex_id: CodexId::from_byte_array([0; 32]),
        call_id: 0,
        nonce: Fe256::zero(),
        blank1: ReservedBytes::new(),
        blank2: ReservedBytes::new(),
        destructible_out: vec![],
        immutable_out: vec![],
    }
}

#[test]
fn genesis_opid() {
    let contract_id = ContractId::from_byte_array([0; 32]);
    let genesis = dumb_genesis();
    assert_eq!(genesis.opid(contract_id), genesis.to_operation(contract_id).opid());
    let other_contract_id = ContractId::from_byte_array(Sha256::digest(b"test").into());
    assert_ne!(genesis.opid(contract_id), genesis.to_operation(other_contract_id).opid())
}

#[test]
fn genesis_becomes_an_operation_without_inputs() {
    for cid in [ContractId::from_byte_array([0; 32]), ContractId::placeholder(), ContractId::from_byte_array(bytes32(1))] {
        let genesis = sample_genesis();
        let op = genesis.to_operation(cid);
        assert!(op.destructible_in.is_empty());
        assert!(op.immutable_in.is_empty());
        assert_eq!(op.contract_id, cid);
        assert_eq!(op.call_id, genesis.call_id);
        assert_eq!(op.nonce, genesis.nonce);
        assert_eq!(op.destructible_out, genesis.destructible_out);
        assert_eq!(op.immutable_out, genesis.immutable_out);
        assert_eq!(genesis.opid(cid).to_byte_array(), their_opid(&op));
    }
    assert_eq!(ContractId::placeholder().to_byte_array(), [0xFF; 32]);
}

fn sample_codex() -> Codex {
    Codex {
        version: ReservedBytes::new(),
        name: "Sample codex".to_owned(),
        developer: Identity::from_str("ssi:someone").unwrap(),
        timestamp: -1_700_000_000,
        field_order: Fe256::from_le_bytes(bytes32(9)),
        input_config: CoreConfig { halt: true, complexity_lim: Some(10_000_000) },
        verification_config: CoreConfig { halt: false, complexity_lim: None },
        verifiers: vec![(0, sample_site(1)), (7, sample_site(2)), (0x1234, sample_site(3))],
    }
}

fn their_codex_bytes(codex: &Codex) -> Vec<u8> {
    let mut data = enc(&commit_verify::ReservedBytes::<1>::default());
    data.extend(enc(&TinyString::try_from(codex.name.clone()).unwrap()));
    let developer = String::from_utf8(codex.developer.as_bytes().to_vec()).unwrap();
    data.extend(enc(&SmallBlob::try_from(developer.into_bytes()).unwrap()));
    data.extend(enc(&codex.timestamp));
    data.extend(enc(&u256::from_le_bytes(codex.field_order.to_le_bytes())));
    data.extend(enc(&zkaluvm::alu::CoreConfig {
        halt: codex.input_config.halt,
        complexity_lim: codex.input_config.complexity_lim,
    }));
    data.extend(enc(&zkaluvm::alu::CoreConfig {
        halt: codex.verification_config.halt,
        complexity_lim: codex.verification_config.complexity_lim,
    }));
    let map: BTreeMap<u16, zkaluvm::alu::LibSite> =
        codex.verifiers.iter().map(|(call, site)| (*call, their_site(*site))).collect();
    data.extend(enc(&TinyOrdMap::try_from(map).unwrap()));
    data
}

#[test]
fn codex_id_commits_to_every_field() {
    let codex = sample_codex();
    let mut out = vec![];
    codex.encode(&mut out);
    assert_eq!(out, their_codex_bytes(&codex));
    let id = codex.codex_id();
    assert_eq!(id.to_byte_array(), tagged(CODEX_TAG, &their_codex_bytes(&codex)));
    assert_eq!(codex.clone().codex_id(), id);

    let mut other = sample_codex();
    other.name = "Sample codeX".to_owned();
    assert_ne!(other.codex_id(), id);
    let mut other = sample_codex();
    other.developer = Identity::default();
    assert_ne!(other.codex_id(), id);
    assert_eq!(other.codex_id().to_byte_array(), tagged(CODEX_TAG, &their_codex_bytes(&other)));
    let mut other = sample_codex();
    other.timestamp += 1;
    assert_ne!(other.codex_id(), id);
    let mut other = sample_codex();
    other.field_order = Fe256::from_le_bytes(bytes32(10));
    assert_ne!(other.codex_id(), id);
    let mut other = sample_codex();
    other.input_config.complexity_lim = None;
    assert_ne!(other.codex_id(), id);
    let mut other = sample_codex();
    other.verification_config.halt = true;
    assert_ne!(other.codex_id(), id);
    let mut other = sample_codex();
    other.verifiers.pop();
    assert_ne!(other.codex_id(), id);
    assert_eq!(other.codex_id().to_byte_array(), tagged(CODEX_TAG, &their_codex_bytes(&other)));
    let mut other = sample_codex();
    other.verifiers[1].1.offset += 1;
    assert_ne!(other.codex_id(), id);
}

#[test]
fn identity_is_written_as_a_restricted_string() {
    for text in ["ssi:anonymous", "a", "Some Body <some@body.org>"] {
        let theirs = RString::<AsciiPrintable, AsciiPrintable, 1, 4096>::from_str(text).unwrap();
        let ours = Identity::from_str(text).unwrap();
        let mut out = vec![];
        ours.encode(&mut out);
        assert_eq!(out, enc(&theirs));
        assert_eq!(ours.as_bytes(), text.as_bytes());
    }
    assert!(Identity::from_str("").is_none());
    assert!(Identity::from_str("tab\there").is_none());
    assert!(Identity::from_str("caf\u{e9}").is_none());
    assert!(Identity::from_bytes(&[b'a'; 4096]).is_some());
    assert!(Identity::from_bytes(&[b'a'; 4097]).is_none());
    assert!(Identity::default().is_anonymous());
    assert!(Identity::default().is_empty());
    assert!(Identity::from_str("ssi:anonymous").unwrap().is_anonymous());
    assert!(!Identity::from_str("ssi:anonymouse").unwrap().is_anonymous());
    assert!(!Identity::from_str("ssi:anonymou").unwrap().is_empty());
}

#[test]
fn codex_finds_its_verifiers() {
    let codex = sample_codex();
    assert_eq!(codex.entry_point(0), Some(sample_site(1)));
    assert_eq!(codex.entry_point(7), Some(sample_site(2)));
    assert_eq!(codex.entry_point(0x1234), Some(sample_site(3)));
    assert_eq!(codex.entry_point(1), None);
    assert_eq!(codex.entry_point(0xFFFF), None);
}

fn sample_issue() -> Issue {
    Issue {
        version: ReservedBytes::new(),
        meta: ContractMeta {
            testnet: true,
            consensus: Consensus::Bitcoin,
            reserved: ReservedBytes::new(),
            timestamp: 1_732_000_000,
            name: ContractName::Named(ultrasonic::TypeName::from_str("MyContract_1").unwrap()),
            issuer: Identity::default(),
        },
        codex: sample_codex(),
        genesis: sample_genesis(),
    }
}

fn their_meta_bytes(meta: &ContractMeta) -> Vec<u8> {
    let mut data = enc(&meta.testnet);
    data.push(meta.consensus.tag());
    data.extend(enc(&commit_verify::ReservedBytes::<14>::default()));
    data.extend(enc(&meta.timestamp));
    match &meta.name {
        ContractName::Unnamed => data.push(0),
        ContractName::Named(name) => {
            data.push(1);
            let text = String::from_utf8(name.as_bytes().to_vec()).unwrap();
            data.extend(enc(&TypeName::try_from(text).unwrap()));
        }
    }
    data.extend(enc(&SmallBlob::try_from(meta.issuer.as_bytes().to_vec()).unwrap()));
    data
}

fn their_contract_id(issue: &Issue) -> [u8; 32] {
    let mut data = enc(&commit_verify::ReservedBytes::<1>::default());
    data.extend(their_meta_bytes(&issue.meta));
    data.extend(tagged(CODEX_TAG, &their_codex_bytes(&issue.codex)));
    data.extend(their_opid(&issue.genesis.to_operation(ContractId::from_byte_array([0xFF; 32]))));
    tagged(CONTRACT_TAG, &data)
}

#[test]
fn contract_id_commits_to_meta_codex_and_genesis() {
    let issue = sample_issue();
    let mut out = vec![];
    issue.meta.encode(&mut out);
    assert_eq!(out, their_meta_bytes(&issue.meta));
    assert_eq!(out.len(), 24 + 2 + 12 + 2 + 13);
    let id = issue.contract_id();
    assert_eq!(id.to_byte_array(), their_contract_id(&issue));
    assert_eq!(issue.genesis_opid(), issue.genesis.opid(id));
    assert_ne!(issue.genesis_opid(), issue.genesis.opid(ContractId::placeholder()));

    let mut other = sample_issue();
    other.meta.testnet = false;
    assert_ne!(other.contract_id(), id);
    let mut other = sample_issue();
    other.meta.consensus = Consensus::Liquid;
    assert_ne!(other.contract_id(), id);
    let mut other = sample_issue();
    other.meta.name = ContractName::Unnamed;
    assert_ne!(other.contract_id(), id);
    assert_eq!(other.contract_id().to_byte_array(), their_contract_id(&other));
    let mut other = sample_issue();
    other.codex.timestamp = 0;
    assert_ne!(other.contract_id(), id);
    let mut other = sample_issue();
    other.genesis.nonce = fe(12);
    assert_ne!(other.contract_id(), id);

    // the codex id of the genesis stands in no commitment of the issue
    let mut other = sample_issue();
    other.genesis.codex_id = CodexId::from_byte_array(bytes32(6));
    assert_eq!(other.contract_id(), id);
}

#[test]
fn same_parts_same_contract_id() {
    let a = sample_issue();
    let mut b = sample_issue();
    b.genesis.codex_id = CodexId::from_byte_array([9; 32]);
    assert_eq!(a.codex.codex_id(), b.codex.codex_id());
    assert_eq!(a.genesis.opid(ContractId::placeholder()), b.genesis.opid(ContractId::placeholder()));
    assert_eq!(a.contract_id(), b.contract_id());
}
