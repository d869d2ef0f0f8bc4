//! Reading and writing the issue of a contract in canonical bytes.

use vstd::prelude::*;
use crate::bytes::{copy_range, get_i64, get_u16, i64_le, is_prefix_at, lemma_prefix_concat, put_slice, u16_le, zeros};
use crate::codec::{genesis_bytes, operation_admits};
use crate::codex::{Codex, CodexView};
use crate::codex_bytes::codex_admits;
use crate::issue::{
    contract_name_encoding, is_type_name, Consensus, ContractId, ContractMeta, ContractMetaView, ContractName,
    Issue, TypeName,
};
use crate::operation::Genesis;
use crate::site::ReservedBytes;
use crate::util::{is_identity, Identity};

verus! {

/// Whether metadata can hold `m`: a name, where there is one, is the name of a type, and the
/// issuer is an identity.
pub open spec fn meta_admits(m: ContractMetaView) -> bool {
    &&& m.name matches Some(name) ==> is_type_name(name)
    &&& is_identity(m.issuer)
}

/// Reads the name of a contract from its canonical bytes at `pos`.
pub fn read_contract_name(bytes: &[u8], pos: usize) -> (r: Option<(ContractName, usize)>)
    ensures
        r matches Some((name, end)) ==> {
            &&& name@ matches Some(text) ==> is_type_name(text)
            &&& end == pos + contract_name_encoding(name@).len()
            &&& is_prefix_at(contract_name_encoding(name@), bytes@, pos as int)
        },
        forall|name: Option<Seq<u8>>|
            (name matches Some(text) ==> is_type_name(text)) && #[trigger] is_prefix_at(
                contract_name_encoding(name),
                bytes@,
                pos as int,
            ) ==> (r matches Some((n, end)) && n@ == name),
{
    proof {
        assert forall|name: Option<Seq<u8>>|
            (name matches Some(text) ==> is_type_name(text)) && #[trigger] is_prefix_at(
                contract_name_encoding(name),
                bytes@,
                pos as int,
            ) implies {
            &&& pos < bytes@.len()
            &&& bytes@[pos as int] == (if name is Some { 1u8 } else { 0u8 })
            &&& (name matches Some(text) ==> pos + 2 + text.len() <= bytes@.len() && bytes@[pos + 1]
                == text.len() as u8 && bytes@.subrange(pos + 2, pos + 2 + text.len()) == text)
        } by {
            let e = contract_name_encoding(name);
            assert(bytes@.subrange(pos as int, pos + e.len())[0] == e[0]);
            if let Some(text) = name {
                assert(bytes@.subrange(pos as int, pos + e.len())[1] == e[1]);
                lemma_prefix_concat(seq![1u8, text.len() as u8], text, bytes@, pos as int);
            }
        }
    }
    if pos >= bytes.len() {
        return None;
    }
    let tag = bytes[pos];
    if tag == 0 {
        assert(bytes@.subrange(pos as int, pos + 1) =~= seq![0u8]);
        return Some((ContractName::Unnamed, pos + 1));
    }
    if tag != 1 || bytes.len() - pos < 2 {
        return None;
    }
    let len = bytes[pos + 1] as usize;
    if bytes.len() - pos - 2 < len {
        return None;
    }
    let text = copy_range(bytes, pos + 2, len);
    match TypeName::from_bytes(text.as_slice()) {
        None => None,
        Some(name) => {
            proof {
                let head = seq![1u8, name@.len() as u8];
                assert(bytes@.subrange(pos as int, pos + 2) =~= head);
                assert(contract_name_encoding(Some(name@)) =~= head + name@);
                lemma_prefix_concat(head, name@, bytes@, pos as int);
            }
            Some((ContractName::Named(name), pos + 2 + len))
        },
    }
}

/// Reads an identity from its canonical bytes at `pos`.
pub fn read_identity(bytes: &[u8], pos: usize) -> (r: Option<(Identity, usize)>)
    ensures
        r matches Some((id, end)) ==> {
            &&& is_identity(id@)
            &&& end == pos + Identity::encoding_of(id@).len()
            &&& is_prefix_at(Identity::encoding_of(id@), bytes@, pos as int)
        },
        forall|text: Seq<u8>|
            is_identity(text) && #[trigger] is_prefix_at(Identity::encoding_of(text), bytes@, pos as int) ==> (
            r matches Some((id, end)) && id@ == text),
{
    proof {
        assert forall|text: Seq<u8>|
            is_identity(text) && #[trigger] is_prefix_at(
                Identity::encoding_of(text),
                bytes@,
                pos as int,
            ) implies is_prefix_at(u16_le(text.len() as u16), bytes@, pos as int) && is_prefix_at(
            text,
            bytes@,
            pos + 2,
        ) by {
            lemma_prefix_concat(u16_le(text.len() as u16), text, bytes@, pos as int);
        }
    }
    let (n, start) = match get_u16(bytes, pos) {
        Some(x) => x,
        None => {
            return None;
        },
    };
    let len = n as usize;
    if bytes.len() - start < len {
        assert forall|text: Seq<u8>|
            is_identity(text) && #[trigger] is_prefix_at(
                Identity::encoding_of(text),
                bytes@,
                pos as int,
            ) implies false by {
            assert(text.len() as u16 == n);
        }
        return None;
    }
    let text = copy_range(bytes, start, len);
    match Identity::from_bytes(text.as_slice()) {
        None => {
            assert forall|t: Seq<u8>|
                is_identity(t) && #[trigger] is_prefix_at(Identity::encoding_of(t), bytes@, pos as int) implies false by {
                assert(t.len() as u16 == n);
                assert(t =~= text@);
            }
            None
        },
        Some(id) => {
            proof {
                lemma_prefix_concat(u16_le(n), id@, bytes@, pos as int);
                assert forall|t: Seq<u8>|
                    is_identity(t) && #[trigger] is_prefix_at(
                        Identity::encoding_of(t),
                        bytes@,
                        pos as int,
                    ) implies t == id@ by {
                    assert(t.len() as u16 == n);
                    assert(t =~= text@);
                }
            }
            Some((id, start + len))
        },
    }
}

impl ContractMeta {
    /// Reads metadata from their canonical bytes at `pos`: the metadata whose bytes stand there,
    /// and the position behind them; nothing where no metadata's bytes stand there.
    pub fn decode(bytes: &[u8], pos: usize) -> (r: Option<(ContractMeta, usize)>)
        ensures
            r matches Some((meta, end)) ==> {
                &&& meta_admits(meta@)
                &&& end == pos + meta@.encoding().len()
                &&& is_prefix_at(meta@.encoding(), bytes@, pos as int)
            },
            forall|m: ContractMetaView|
                meta_admits(m) && #[trigger] is_prefix_at(m.encoding(), bytes@, pos as int) ==> (
                r matches Some((meta, end)) && meta@ == m),
    {
        proof {
            assert forall|m: ContractMetaView|
                meta_admits(m) && #[trigger] is_prefix_at(m.encoding(), bytes@, pos as int) implies {
                &&& pos + 16 <= bytes@.len()
                &&& bytes@[pos as int] == (if m.testnet { 1u8 } else { 0u8 })
                &&& bytes@[pos + 1] == m.consensus.tag_spec()
                &&& bytes@.subrange(pos + 2, pos + 16) == zeros(14)
                &&& is_prefix_at(i64_le(m.timestamp), bytes@, pos + 16)
                &&& is_prefix_at(contract_name_encoding(m.name), bytes@, pos + 24)
                &&& is_prefix_at(
                    Identity::encoding_of(m.issuer),
                    bytes@,
                    pos + 24 + contract_name_encoding(m.name).len(),
                )
            } by {
                let head = seq![if m.testnet { 1u8 } else { 0u8 }, m.consensus.tag_spec()];
                let a = head + zeros(14);
                let b = a + i64_le(m.timestamp);
                let c = b + contract_name_encoding(m.name);
                assert(i64_le(m.timestamp).len() == 8);
                lemma_prefix_concat(c, Identity::encoding_of(m.issuer), bytes@, pos as int);
                lemma_prefix_concat(b, contract_name_encoding(m.name), bytes@, pos as int);
                lemma_prefix_concat(a, i64_le(m.timestamp), bytes@, pos as int);
                lemma_prefix_concat(head, zeros(14), bytes@, pos as int);
                assert(bytes@.subrange(pos as int, pos + 2)[0] == head[0]);
                assert(bytes@.subrange(pos as int, pos + 2)[1] == head[1]);
            }
        }
        if bytes.len() < 16 || pos > bytes.len() - 16 {
            return None;
        }
        let testnet = bytes[pos];
        if testnet > 1 {
            return None;
        }
        let consensus = match Consensus::from_tag(bytes[pos + 1]) {
            Some(x) => x,
            None => {
                return None;
            },
        };
        if !ReservedBytes::<14>::accepts(slice_of(bytes, pos + 2, pos + 16)) {
            return None;
        }
        let (timestamp, at1) = match get_i64(bytes, pos + 16) {
            Some(x) => x,
            None => {
                return None;
            },
        };
        let (name, at2) = match read_contract_name(bytes, at1) {
            Some(x) => x,
            None => {
                return None;
            },
        };
        let (issuer, end) = match read_identity(bytes, at2) {
            Some(x) => x,
            None => {
                return None;
            },
        };
        let meta = ContractMeta {
            testnet: testnet == 1,
            consensus,
            reserved: ReservedBytes::new(),
            timestamp,
            name,
            issuer,
        };
        proof {
            let m = meta@;
            let head = seq![if m.testnet { 1u8 } else { 0u8 }, m.consensus.tag_spec()];
            let a = head + zeros(14);
            let b = a + i64_le(m.timestamp);
            let c = b + contract_name_encoding(m.name);
            assert(i64_le(m.timestamp).len() == 8);
            assert(bytes@.subrange(pos as int, pos + 2) =~= head);
            lemma_prefix_concat(head, zeros(14), bytes@, pos as int);
            lemma_prefix_concat(a, i64_le(m.timestamp), bytes@, pos as int);
            lemma_prefix_concat(b, contract_name_encoding(m.name), bytes@, pos as int);
            lemma_prefix_concat(c, Identity::encoding_of(m.issuer), bytes@, pos as int);
            assert forall|w: ContractMetaView|
                meta_admits(w) && #[trigger] is_prefix_at(w.encoding(), bytes@, pos as int) implies w == m by {
                assert(w.consensus.tag_spec() == m.consensus.tag_spec());
                assert(w.name == m.name);
            }
        }
        Some((meta, end))
    }
}

/// The bytes of `bytes` from `from` up to `to`.
fn slice_of(bytes: &[u8], from: usize, to: usize) -> (r: &[u8])
    requires
        from <= to <= bytes@.len(),
    ensures
        r@ == bytes@.subrange(from as int, to as int),
{
    vstd::slice::slice_subrange(bytes, from, to)
}

/// The canonical bytes of the issue of a contract: the version byte, the metadata, the codex
/// and the genesis.
pub open spec fn issue_bytes(meta: ContractMetaView, codex: CodexView, genesis: Genesis) -> Seq<u8> {
    zeros(1) + (meta.encoding() + (codex.encoding() + genesis_bytes(
        genesis.codex_id,
        genesis.operation_view(ContractId::placeholder_spec()),
    )))
}

impl Issue {
    /// The canonical bytes of the issue.
    pub open spec fn encoding(&self) -> Seq<u8> {
        issue_bytes(self.meta@, self.codex@, self.genesis)
    }

    /// Appends the canonical bytes of the issue to `out`.
    pub fn encode(&self, out: &mut Vec<u8>)
        requires
            self.wf(),
        ensures
            final(out)@ == old(out)@ + self.encoding(),
    {
        self.version.encode(out);
        self.meta.encode(out);
        self.codex.encode(out);
        self.genesis.encode(out);
        assert(out@ =~= old(out)@ + self.encoding());
    }

    /// Reads an issue from its canonical bytes at `pos`: the issue whose bytes stand there, and
    /// the position behind them; nothing where no issue's bytes stand there.
    pub fn decode(bytes: &[u8], pos: usize) -> (r: Option<(Issue, usize)>)
        ensures
            r matches Some((issue, end)) ==> {
                &&& issue.wf()
                &&& meta_admits(issue.meta@)
                &&& codex_admits(issue.codex@)
                &&& end == pos + issue.encoding().len()
                &&& is_prefix_at(issue.encoding(), bytes@, pos as int)
            },
            forall|meta: ContractMetaView, codex: CodexView, genesis: Genesis|
                meta_admits(meta) && codex_admits(codex) && operation_admits(
                    genesis.operation_view(ContractId::placeholder_spec()),
                ) && #[trigger] is_prefix_at(issue_bytes(meta, codex, genesis), bytes@, pos as int) ==> {
                    &&& r matches Some((issue, end))
                    &&& issue.meta@ == meta
                    &&& issue.codex@ == codex
                    &&& issue.genesis.codex_id == genesis.codex_id
                    &&& issue.genesis.operation_view(ContractId::placeholder_spec()) == genesis.operation_view(
                        ContractId::placeholder_spec(),
                    )
                },
    {
        let ghost cid = ContractId::placeholder_spec();
        proof {
            assert forall|meta: ContractMetaView, codex: CodexView, genesis: Genesis|
                meta_admits(meta) && codex_admits(codex) && operation_admits(genesis.operation_view(cid))
                    && #[trigger] is_prefix_at(issue_bytes(meta, codex, genesis), bytes@, pos as int) implies {
                &&& pos < bytes@.len()
                &&& bytes@[pos as int] == 0
                &&& is_prefix_at(meta.encoding(), bytes@, pos + 1)
                &&& is_prefix_at(codex.encoding(), bytes@, pos + 1 + meta.encoding().len())
                &&& is_prefix_at(
                    genesis_bytes(genesis.codex_id, genesis.operation_view(cid)),
                    bytes@,
                    pos + 1 + meta.encoding().len() + codex.encoding().len(),
                )
            } by {
                let g = genesis_bytes(genesis.codex_id, genesis.operation_view(cid));
                lemma_prefix_concat(zeros(1), meta.encoding() + (codex.encoding() + g), bytes@, pos as int);
                lemma_prefix_concat(meta.encoding(), codex.encoding() + g, bytes@, pos + 1);
                lemma_prefix_concat(codex.encoding(), g, bytes@, pos + 1 + meta.encoding().len());
                assert(bytes@.subrange(pos as int, pos + 1)[0] == zeros(1)[0]);
            }
        }
        if pos >= bytes.len() || bytes[pos] != 0 {
            return None;
        }
        let (meta, at1) = match ContractMeta::decode(bytes, pos + 1) {
            Some(x) => x,
            None => {
                return None;
            },
        };
        let (codex, at2) = match Codex::decode(bytes, at1) {
            Some(x) => x,
            None => {
                return None;
            },
        };
        let (genesis, end) = match Genesis::decode(bytes, at2) {
            Some(x) => x,
            None => {
                return None;
            },
        };
        let issue = Issue { version: ReservedBytes::new(), meta, codex, genesis };
        proof {
            let g = genesis_bytes(issue.genesis.codex_id, issue.genesis.operation_view(cid));
            assert(bytes@.subrange(pos as int, pos + 1) =~= zeros(1));
            lemma_prefix_concat(issue.codex@.encoding(), g, bytes@, at1 as int);
            lemma_prefix_concat(issue.meta@.encoding(), issue.codex@.encoding() + g, bytes@, pos + 1);
            lemma_prefix_concat(
                zeros(1),
                issue.meta@.encoding() + (issue.codex@.encoding() + g),
                bytes@,
                pos as int,
            );
        }
        Some((issue, end))
    }
}

} // verus!
