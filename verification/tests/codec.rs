use amplify::confinement::SmallBlob;
use strict_encoding::{StrictEncode, StrictWriter};
use ultrasonic::codec::{read_list, read_lock, write_list, Canonical};
use ultrasonic::issue_bytes::{read_contract_name, read_identity};
use ultrasonic::{
    AuthToken, CellAddr, Codex, CodexId, Consensus, ContractId, ContractMeta, ContractName, CoreConfig, Fe256,
    Genesis, Identity, Input, Issue, LibId, LibSite, Operation, Opid, RawData, ReservedBytes, StateCell,
    StateData, StateValue, TypeName,
};

fn enc<T: StrictEncode>(value: &T) -> Vec<u8> {
    value
        .strict_encode(StrictWriter::in_memory::<{ usize::MAX }>())
        .unwrap()
        .unbox()
        .unconfine()
}

fn bytes32(seed: u8) -> [u8; 32] { core::array::from_fn(|i| seed.wrapping_mul(37).wrapping_add(i as u8)) }

fn fe(seed: u8) -> Fe256 { Fe256::from_le_bytes(bytes32(seed)) }

fn their_fe(value: Fe256) -> zkaluvm::fe256 { zkaluvm::fe256::from(value.to_le_bytes()) }

fn value(seed: u8) -> StateValue {
    let items: Vec<Fe256> = (0..(seed % 5)).map(|i| fe(seed.wrapping_add(i))).collect();
    StateValue::from_iter(&items)
}

fn addr(seed: u8) -> CellAddr { CellAddr::new(Opid::from_byte_array(bytes32(seed)), 1000 + seed as u16) }

fn site(seed: u8) -> LibSite { LibSite::new(LibId::from_byte_array(bytes32(seed)), 7 * seed as u16) }

fn cell(seed: u8) -> StateCell {
    StateCell {
        data: value(seed),
        auth: AuthToken::from_fe256(fe(seed.wrapping_add(50))),
        lock: if seed % 3 == 0 { None } else { Some(site(seed)) },
    }
}

fn data(seed: u8) -> StateData {
    StateData {
        value: value(seed),
        raw: match seed % 3 {
            0 => None,
            1 => Some(RawData::from_vec(vec![]).unwrap()),
            _ => Some(RawData::from_vec(vec![seed; 5 * seed as usize]).unwrap()),
        },
    }
}

fn operation(din: usize, iin: usize, dout: usize, iout: usize) -> Operation {
    Operation {
        version: ReservedBytes::new(),
        contract_id: ContractId::from_byte_array(bytes32(99)),
        call_id: 0x0102,
        nonce: fe(98),
        destructible_in: (0..din).map(|i| Input { addr: addr(i as u8), witness: value(i as u8 + 1) }).collect(),
        immutable_in: (0..iin).map(|i| addr(100 + i as u8)).collect(),
        destructible_out: (0..dout).map(|i| cell(i as u8)).collect(),
        immutable_out: (0..iout).map(|i| data(i as u8)).collect(),
    }
}

fn their_value(v: StateValue) -> Vec<u8> {
    let items = v.to_vec();
    let mut out = vec![items.len() as u8];
    for item in items {
        out.extend(enc(&their_fe(item)));
    }
    out
}

fn their_addr(a: CellAddr) -> Vec<u8> {
    let mut out = enc(&zkaluvm::alu::LibId::from(a.opid.to_byte_array()));
    out.extend(enc(&a.pos));
    out
}

fn their_cell(c: StateCell) -> Vec<u8> {
    let mut out = their_value(c.data);
    out.extend(enc(&their_fe(c.auth.to_fe256())));
    out.extend(enc(&c.lock.map(|s| {
        zkaluvm::alu::LibSite::new(zkaluvm::alu::LibId::from(s.lib_id.to_byte_array()), s.offset)
    })));
    out
}

fn their_data(d: &StateData) -> Vec<u8> {
    let mut out = their_value(d.value);
    out.extend(enc(&d.raw.as_ref().map(|raw| SmallBlob::try_from(raw.as_slice().to_vec()).unwrap())));
    out
}

fn their_list(items: Vec<Vec<u8>>) -> Vec<u8> {
    let mut out = enc(&(items.len() as u16));
    for item in items {
        out.extend(item);
    }
    out
}

fn their_operation(op: &Operation) -> Vec<u8> {
    let mut out = enc(&commit_verify::ReservedBytes::<1>::default());
    out.extend(enc(&zkaluvm::alu::LibId::from(op.contract_id.to_byte_array())));
    out.extend(enc(&op.call_id));
    out.extend(enc(&their_fe(op.nonce)));
    out.extend(their_list(
        op.destructible_in
            .iter()
            .map(|i| [their_addr(i.addr), their_value(i.witness)].concat())
            .collect(),
    ));
    out.extend(their_list(op.immutable_in.iter().map(|a| their_addr(*a)).collect()));
    out.extend(their_list(op.destructible_out.iter().map(|c| their_cell(*c)).collect()));
    out.extend(their_list(op.immutable_out.iter().map(their_data).collect()));
    out
}

fn written<T: Canonical>(item: &T) -> Vec<u8> {
    let mut out = vec![];
    item.write(&mut out);
    out
}

fn round_trip<T: Canonical + PartialEq + std::fmt::Debug>(item: T, expected: Vec<u8>) {
    let bytes = written(&item);
    assert_eq!(bytes, expected);
    // alone, and in the middle of other bytes
    assert_eq!(T::read(&bytes, 0), Some((item, bytes.len())));
    let padded = [&[0xEE, 0xEE, 0xEE][..], &bytes, &[0xDD; 40]].concat();
    let (again, end) = T::read(&padded, 3).unwrap();
    assert_eq!(written(&again), bytes);
    assert_eq!(end, 3 + bytes.len());
    // nothing can be read where the bytes are cut short
    for cut in 0..bytes.len() {
        assert!(T::read(&bytes[..cut], 0).is_none(), "cut at {cut}");
    }
    assert!(T::read(&bytes, bytes.len() + 1).is_none());
}

#[test]
fn state_round_trips() {
    for seed in 0..12u8 {
        round_trip(value(seed), their_value(value(seed)));
        round_trip(addr(seed), their_addr(addr(seed)));
        round_trip(site(seed), [&bytes32(seed)[..], &(7 * seed as u16).to_le_bytes()].concat());
        round_trip(cell(seed), their_cell(cell(seed)));
        round_trip(data(seed), their_data(&data(seed)));
        let input = Input { addr: addr(seed), witness: value(seed) };
        round_trip(input, [their_addr(addr(seed)), their_value(value(seed))].concat());
    }
    let raw = RawData::from_vec(vec![9; 1000]).unwrap();
    round_trip(raw, enc(&SmallBlob::try_from(vec![9u8; 1000]).unwrap()));
    let largest = RawData::from_vec(vec![1; 0xFFFF]).unwrap();
    let bytes = written(&largest);
    assert_eq!(bytes.len(), 2 + 0xFFFF);
    assert_eq!(RawData::read(&bytes, 0), Some((largest, bytes.len())));
}

#[test]
fn malformed_state_is_not_read() {
    // a value has at most four elements
    let mut bytes = vec![5u8];
    bytes.extend([0u8; 5 * 32]);
    assert_eq!(StateValue::decode(&bytes, 0), None);
    bytes[0] = 4;
    assert!(StateValue::decode(&bytes, 0).is_some());
    assert_eq!(StateValue::decode(&[], 0), None);
    assert_eq!(StateValue::decode(&[0], 0), Some((StateValue::Unit, 1)));
    assert_eq!(StateValue::decode(&[0], 1), None);
    assert_eq!(StateValue::decode(&[1], 0), None);
    // a lock is there or not
    assert_eq!(read_lock(&[0], 0), Some((None, 1)));
    assert_eq!(read_lock(&[2], 0), None);
    assert_eq!(read_lock(&[1], 0), None);
    assert_eq!(read_lock(&[], 0), None);
    let some = [&[1u8][..], &written(&site(3))].concat();
    assert_eq!(read_lock(&some, 0), Some((Some(site(3)), 35)));
    // raw data is there or not
    let mut bytes = their_value(value(2));
    bytes.push(2);
    assert_eq!(StateData::read(&bytes, 0), None);
    // raw data holds as many bytes as it says
    assert_eq!(RawData::read(&[3, 0, 1, 2], 0), None);
    assert_eq!(RawData::read(&[3, 0, 1, 2, 3], 0), Some((RawData::from_vec(vec![1, 2, 3]).unwrap(), 5)));
    assert_eq!(RawData::read(&[0], 0), None);
}

#[test]
fn lists_round_trip() {
    for n in [0usize, 1, 2, 7, 300] {
        let items: Vec<CellAddr> = (0..n).map(|i| addr(i as u8)).collect();
        let mut bytes = vec![];
        write_list(&items, &mut bytes);
        assert_eq!(bytes, their_list(items.iter().map(|a| their_addr(*a)).collect()));
        assert_eq!(read_list::<CellAddr>(&bytes, 0), Some((items, bytes.len())));
        if n > 0 {
            assert_eq!(read_list::<CellAddr>(&bytes[..bytes.len() - 1], 0), None);
        }
    }
    let items: Vec<StateData> = (0..20).map(data).collect();
    let mut bytes = vec![0xAA];
    write_list(&items, &mut bytes);
    assert_eq!(read_list::<StateData>(&bytes, 1), Some((items, bytes.len())));
    assert_eq!(read_list::<StateData>(&[1, 0], 0), None);
    assert_eq!(read_list::<StateData>(&[0], 0), None);
    assert_eq!(read_list::<StateCell>(&[0, 0, 9], 0), Some((vec![], 2)));
}

#[test]
fn operations_round_trip() {
    for (din, iin, dout, iout) in [(0, 0, 0, 0), (1, 0, 0, 0), (0, 1, 0, 0), (0, 0, 1, 0), (0, 0, 0, 1), (3, 2, 5, 4)] {
        let op = operation(din, iin, dout, iout);
        let mut bytes = vec![];
        op.encode(&mut bytes);
        assert_eq!(bytes, their_operation(&op));
        let (back, end) = Operation::decode(&bytes, 0).unwrap();
        assert_eq!(end, bytes.len());
        assert_eq!(back, op);
        assert_eq!(back.opid(), op.opid());
        assert_eq!(op.recode(), op);
        for cut in 0..bytes.len() {
            assert!(Operation::decode(&bytes[..cut], 0).is_none());
        }
        // an unknown version is refused
        let mut other = bytes.clone();
        other[0] = 1;
        assert_eq!(Operation::decode(&other, 0), None);
    }
}

#[test]
fn genesis_round_trips_and_is_written_as_an_operation() {
    let genesis = Genesis {
        version: ReservedBytes::new(),
        codex_id: CodexId::from_byte_array(bytes32(77)),
        call_id: 9,
        nonce: fe(5),
        blank1: ReservedBytes::new(),
        blank2: ReservedBytes::new(),
        destructible_out: (0..4).map(cell).collect(),
        immutable_out: (0..4).map(data).collect(),
    };
    let mut bytes = vec![];
    genesis.encode(&mut bytes);
    let as_operation = genesis.to_operation(ContractId::from_byte_array(bytes32(77)));
    assert_eq!(bytes, their_operation(&as_operation));
    let (back, end) = Genesis::decode(&bytes, 0).unwrap();
    assert_eq!(end, bytes.len());
    assert_eq!(back, genesis);
    let cid = ContractId::from_byte_array(bytes32(1));
    assert_eq!(back.opid(cid), genesis.opid(cid));
    // an operation with inputs is no genesis
    let mut bytes = vec![];
    operation(1, 0, 2, 2).encode(&mut bytes);
    assert_eq!(Genesis::decode(&bytes, 0), None);
    let mut bytes = vec![];
    operation(0, 1, 2, 2).encode(&mut bytes);
    assert_eq!(Genesis::decode(&bytes, 0), None);
    let mut bytes = vec![];
    operation(0, 0, 2, 2).encode(&mut bytes);
    assert!(Genesis::decode(&bytes, 0).is_some());
}

fn codex(name: &str, verifiers: Vec<(u16, LibSite)>) -> Codex {
    Codex {
        version: ReservedBytes::new(),
        name: name.to_owned(),
        developer: Identity::from_str("ssi:dev").unwrap(),
        timestamp: -5,
        field_order: fe(200),
        input_config: CoreConfig { halt: true, complexity_lim: Some(0x0102_0304_0506_0708) },
        verification_config: CoreConfig { halt: false, complexity_lim: None },
        verifiers,
    }
}

#[test]
fn codex_round_trips() {
    for name in ["", "Codex", "Zweit\u{e4}ltester \u{2603}"] {
        for n in [0usize, 1, 3, 255] {
            let verifiers: Vec<(u16, LibSite)> = (0..n).map(|i| (3 * i as u16 + 1, site(i as u8))).collect();
            let c = codex(name, verifiers);
            let mut bytes = vec![0x55];
            c.encode(&mut bytes);
            let (back, end) = Codex::decode(&bytes, 1).unwrap();
            assert_eq!(end, bytes.len());
            assert_eq!(back, c);
            assert_eq!(back.codex_id(), c.codex_id());
            assert_eq!(c.recode(), c);
            if n < 4 {
                for cut in 1..bytes.len() {
                    assert!(Codex::decode(&bytes[..cut], 1).is_none());
                }
            }
        }
    }
}

#[test]
fn malformed_codex_is_not_read() {
    let c = codex("Name", vec![(1, site(1)), (2, site(2))]);
    let mut good = vec![];
    c.encode(&mut good);
    assert!(Codex::decode(&good, 0).is_some());
    // an unknown version
    let mut bytes = good.clone();
    bytes[0] = 1;
    assert!(Codex::decode(&bytes, 0).is_none());
    // a name that is no UTF-8
    let mut bytes = good.clone();
    bytes[2] = 0xFF;
    assert!(Codex::decode(&bytes, 0).is_none());
    // a developer that is no printable ASCII
    let mut bytes = good.clone();
    bytes[2 + 4 + 2] = 0x07;
    assert!(Codex::decode(&bytes, 0).is_none());
    // verifiers out of order, or twice for one call
    let item = |call: u16, s: LibSite| [&call.to_le_bytes()[..], &written(&s)].concat();
    let tail = good.len() - 2 * 36;
    let swapped = [&good[..tail], &item(2, site(2))[..], &item(1, site(1))].concat();
    assert!(Codex::decode(&swapped, 0).is_none());
    let twice = [&good[..tail], &item(1, site(1))[..], &item(1, site(2))].concat();
    assert!(Codex::decode(&twice, 0).is_none());
    let ordered = [&good[..tail], &item(1, site(1))[..], &item(2, site(2))].concat();
    assert_eq!(ordered, good);
}

#[test]
fn configurations_round_trip() {
    for config in [
        CoreConfig { halt: false, complexity_lim: None },
        CoreConfig { halt: true, complexity_lim: None },
        CoreConfig { halt: true, complexity_lim: Some(0) },
        CoreConfig { halt: false, complexity_lim: Some(u64::MAX) },
        CoreConfig { halt: true, complexity_lim: Some(10_000_000) },
    ] {
        let mut bytes = vec![];
        config.encode(&mut bytes);
        assert_eq!(CoreConfig::decode(&bytes, 0), Some((config, bytes.len())));
        for cut in 0..bytes.len() {
            assert_eq!(CoreConfig::decode(&bytes[..cut], 0), None);
        }
    }
    assert_eq!(CoreConfig::decode(&[2, 0], 0), None);
    assert_eq!(CoreConfig::decode(&[0, 2], 0), None);
    assert_eq!(ultrasonic::bytes::get_u64(&[1, 2, 3, 4, 5, 6, 7, 8], 0), Some((0x0807_0605_0403_0201, 8)));
    assert_eq!(ultrasonic::bytes::get_i64(&[0xFF; 8], 0), Some((-1, 8)));
    assert_eq!(ultrasonic::bytes::get_i64(&[0xFF; 7], 0), None);
    assert_eq!(ultrasonic::bytes::get_u16(&[0x34, 0x12], 0), Some((0x1234, 2)));
}

fn meta(name: Option<&str>, consensus: Consensus, testnet: bool) -> ContractMeta {
    ContractMeta {
        testnet,
        consensus,
        reserved: ReservedBytes::new(),
        timestamp: 1_700_000_000,
        name: match name {
            None => ContractName::Unnamed,
            Some(text) => ContractName::Named(TypeName::from_str(text).unwrap()),
        },
        issuer: Identity::from_str("ssi:issuer").unwrap(),
    }
}

#[test]
fn metadata_round_trip() {
    for name in [None, Some("A"), Some("Some_Contract9")] {
        for consensus in [Consensus::Absent, Consensus::Bitcoin, Consensus::Liquid, Consensus::Prime] {
            for testnet in [false, true] {
                let m = meta(name, consensus, testnet);
                let mut bytes = vec![];
                m.encode(&mut bytes);
                assert_eq!(ContractMeta::decode(&bytes, 0), Some((m, bytes.len())));
                for cut in 0..bytes.len() {
                    assert!(ContractMeta::decode(&bytes[..cut], 0).is_none());
                }
            }
        }
    }
    let mut good = vec![];
    meta(Some("Name"), Consensus::Bitcoin, true).encode(&mut good);
    for (at, byte) in [(0usize, 2u8), (1, 0x12), (2, 1), (15, 1), (24, 2), (25, 0), (26, b'a')] {
        let mut bytes = good.clone();
        bytes[at] = byte;
        assert!(ContractMeta::decode(&bytes, 0).is_none(), "byte {at}");
    }
    assert_eq!(read_contract_name(&[0], 0), Some((ContractName::Unnamed, 1)));
    assert_eq!(read_contract_name(&[1, 1, b'x'], 0), None);
    assert_eq!(
        read_contract_name(&[1, 1, b'X'], 0),
        Some((ContractName::Named(TypeName::from_str("X").unwrap()), 3))
    );
    assert_eq!(read_identity(&[1, 0, b'x'], 0), Some((Identity::from_str("x").unwrap(), 3)));
    assert_eq!(read_identity(&[0, 0], 0), None);
    assert_eq!(read_identity(&[1, 0, 0x7F], 0), None);
}

#[test]
fn issues_round_trip() {
    let issue = Issue {
        version: ReservedBytes::new(),
        meta: meta(Some("Issued"), Consensus::Liquid, false),
        codex: codex("The codex", vec![(0, site(1)), (9, site(2))]),
        genesis: Genesis {
            version: ReservedBytes::new(),
            codex_id: CodexId::from_byte_array(bytes32(33)),
            call_id: 0,
            nonce: fe(1),
            blank1: ReservedBytes::new(),
            blank2: ReservedBytes::new(),
            destructible_out: (0..3).map(cell).collect(),
            immutable_out: (0..3).map(data).collect(),
        },
    };
    let mut bytes = vec![];
    issue.encode(&mut bytes);
    let mut parts = vec![0u8];
    issue.meta.encode(&mut parts);
    issue.codex.encode(&mut parts);
    issue.genesis.encode(&mut parts);
    assert_eq!(bytes, parts);
    let (back, end) = Issue::decode(&bytes, 0).unwrap();
    assert_eq!(end, bytes.len());
    assert_eq!(back, issue);
    assert_eq!(back.contract_id(), issue.contract_id());
    assert_eq!(back.genesis_opid(), issue.genesis_opid());
    for cut in 0..bytes.len() {
        assert!(Issue::decode(&bytes[..cut], 0).is_none());
    }
    let mut other = bytes.clone();
    other[0] = 7;
    assert!(Issue::decode(&other, 0).is_none());
}
