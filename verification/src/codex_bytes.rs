//! Reading a codex from its canonical bytes.

use vstd::prelude::*;
use vstd::utf8::{encode_utf8, valid_utf8};
use crate::bytes::{copy_range, get_bytes32, get_i64, get_u16, get_u64, i64_le, is_prefix_at, lemma_prefix_concat, u16_le, u64_le, zeros};
use crate::codec::{items_admit, items_bytes, models, read_items, Canonical};
use crate::codex::{verifiers_bytes, Codex, CodexView};
use crate::fe::Fe256;
use crate::operation::CallId;
use crate::site::{LibSite, ReservedBytes};
use crate::util::{is_identity, Identity};
use crate::vm::CoreConfig;

verus! {

/// Calls `String::from_utf8`: the string whose UTF-8 bytes are `bytes`, where they are the
/// UTF-8 bytes of a string, else nothing.
#[verifier::external_body]
fn utf8_string(bytes: Vec<u8>) -> (r: Option<String>)
    ensures
        r is Some <==> valid_utf8(bytes@),
        r matches Some(s) ==> encode_utf8(s@) == bytes@,
{
    match String::from_utf8(bytes) {
        Ok(s) => Some(s),
        Err(_) => None,
    }
}

impl CoreConfig {
    /// Reads a configuration from its canonical bytes at `pos`: the configuration whose bytes
    /// stand there, and the position behind them; nothing where no configuration's bytes stand
    /// there.
    pub fn decode(bytes: &[u8], pos: usize) -> (r: Option<(CoreConfig, usize)>)
        ensures
            r matches Some((c, end)) ==> end == pos + c.encoding().len() && is_prefix_at(
                c.encoding(),
                bytes@,
                pos as int,
            ),
            forall|c: CoreConfig| #[trigger]
                is_prefix_at(c.encoding(), bytes@, pos as int) ==> r == Some(
                    (c, (pos + c.encoding().len()) as usize),
                ),
    {
        proof {
            assert forall|c: CoreConfig| #[trigger] is_prefix_at(c.encoding(), bytes@, pos as int) implies {
                &&& pos + 2 <= bytes@.len()
                &&& bytes@[pos as int] == (if c.halt { 1u8 } else { 0u8 })
                &&& bytes@[pos + 1] == (if c.complexity_lim is Some { 1u8 } else { 0u8 })
                &&& (c.complexity_lim matches Some(lim) ==> is_prefix_at(u64_le(lim), bytes@, pos + 2))
            } by {
                let e = c.encoding();
                assert(bytes@.subrange(pos as int, pos + e.len())[0] == e[0]);
                assert(bytes@.subrange(pos as int, pos + e.len())[1] == e[1]);
                if let Some(lim) = c.complexity_lim {
                    assert(e =~= seq![if c.halt { 1u8 } else { 0u8 }, 1u8] + u64_le(lim));
                    lemma_prefix_concat(seq![if c.halt { 1u8 } else { 0u8 }, 1u8], u64_le(lim), bytes@, pos as int);
                }
            }
        }
        if bytes.len() < 2 || pos > bytes.len() - 2 {
            return None;
        }
        let halt = bytes[pos];
        let tag = bytes[pos + 1];
        if halt > 1 || tag > 1 {
            return None;
        }
        if tag == 0 {
            let c = CoreConfig { halt: halt == 1, complexity_lim: None };
            assert(bytes@.subrange(pos as int, pos + 2) =~= c.encoding());
            Some((c, pos + 2))
        } else {
            match get_u64(bytes, pos + 2) {
                None => None,
                Some((lim, end)) => {
                    let c = CoreConfig { halt: halt == 1, complexity_lim: Some(lim) };
                    proof {
                        let head = seq![if c.halt { 1u8 } else { 0u8 }, 1u8];
                        assert(c.encoding() =~= head + u64_le(lim));
                        assert(bytes@.subrange(pos as int, pos + 2) =~= head);
                        lemma_prefix_concat(head, u64_le(lim), bytes@, pos as int);
                    }
                    Some((c, end))
                },
            }
        }
    }
}

impl Canonical for (CallId, LibSite) {
    type Model = (CallId, LibSite);

    open spec fn model(&self) -> (CallId, LibSite) {
        *self
    }

    open spec fn admits(m: (CallId, LibSite)) -> bool {
        true
    }

    open spec fn bytes_of(m: (CallId, LibSite)) -> Seq<u8> {
        u16_le(m.0) + m.1.encoding()
    }

    fn write(&self, out: &mut Vec<u8>) {
        crate::bytes::put_u16(out, self.0);
        self.1.encode(out);
        assert(out@ =~= old(out)@ + (u16_le(self.0) + self.1.encoding()));
    }

    fn read(bytes: &[u8], pos: usize) -> (r: Option<(Self, usize)>) {
        proof {
            assert forall|m: (CallId, LibSite)| #[trigger]
                is_prefix_at(Self::bytes_of(m), bytes@, pos as int) implies is_prefix_at(
                u16_le(m.0),
                bytes@,
                pos as int,
            ) && is_prefix_at(LibSite::bytes_of(m.1), bytes@, pos + 2) by {
                lemma_prefix_concat(u16_le(m.0), m.1.encoding(), bytes@, pos as int);
            }
        }
        let (call_id, at) = match get_u16(bytes, pos) {
            Some(x) => x,
            None => {
                return None;
            },
        };
        let (site, end) = match LibSite::read(bytes, at) {
            Some(x) => x,
            None => {
                return None;
            },
        };
        proof {
            lemma_prefix_concat(u16_le(call_id), site.encoding(), bytes@, pos as int);
        }
        Some(((call_id, site), end))
    }
}

/// The canonical bytes of a list of verifiers are those of its items, one after the other.
pub proof fn lemma_verifiers_bytes_as_items(verifiers: Seq<(CallId, LibSite)>)
    ensures
        verifiers_bytes(verifiers) == items_bytes::<(CallId, LibSite)>(verifiers),
    decreases verifiers.len(),
{
    if verifiers.len() > 0 {
        lemma_verifiers_bytes_as_items(verifiers.drop_last());
        assert(verifiers_bytes(verifiers) =~= items_bytes::<(CallId, LibSite)>(verifiers));
    }
}

/// Whether the calls of a list of verifiers are in strictly ascending order.
pub open spec fn ascending(verifiers: Seq<(CallId, LibSite)>) -> bool {
    forall|i: int, j: int|
        0 <= i < j < verifiers.len() ==> (#[trigger] verifiers[i]).0 < (#[trigger] verifiers[j]).0
}

/// Whether the calls of a list of verifiers are in strictly ascending order.
pub fn is_ascending(verifiers: &Vec<(CallId, LibSite)>) -> (r: bool)
    ensures
        r == ascending(verifiers@),
{
    if verifiers.len() < 2 {
        return true;
    }
    let mut i: usize = 1;
    while i < verifiers.len()
        invariant
            1 <= i <= verifiers.len(),
            ascending(verifiers@.take(i as int)),
        decreases verifiers.len() - i,
    {
        if verifiers[i - 1].0 >= verifiers[i].0 {
            return false;
        }
        proof {
            let t = verifiers@.take(i + 1);
            assert forall|a: int, b: int| 0 <= a < b < t.len() implies (#[trigger] t[a]).0 < (#[trigger] t[b]).0 by {
                if b < i {
                    assert(verifiers@.take(i as int)[a].0 < verifiers@.take(i as int)[b].0);
                } else if a < i - 1 {
                    assert(verifiers@.take(i as int)[a].0 < verifiers@.take(i as int)[i - 1].0);
                }
            }
        }
        i = i + 1;
    }
    assert(verifiers@.take(verifiers.len() as int) =~= verifiers@);
    true
}

/// Whether a codex can hold `v`: the name is a string of at most 255 bytes of UTF-8, the
/// developer an identity, and the at most 255 verifiers stand in the order of their calls.
pub open spec fn codex_admits(v: CodexView) -> bool {
    &&& v.wf()
    &&& valid_utf8(v.name)
    &&& is_identity(v.developer)
}

/// Reads the verifiers of a codex from their canonical bytes at `pos`.
fn read_verifiers(bytes: &[u8], pos: usize) -> (r: Option<(Vec<(CallId, LibSite)>, usize)>)
    ensures
        r matches Some((vs, end)) ==> {
            &&& vs@.len() <= 255
            &&& ascending(vs@)
            &&& end == pos + 1 + verifiers_bytes(vs@).len()
            &&& is_prefix_at(seq![vs@.len() as u8] + verifiers_bytes(vs@), bytes@, pos as int)
        },
        forall|v: CodexView|
            v.wf() && #[trigger] is_prefix_at(v.verifiers_part(), bytes@, pos as int) ==> {
                &&& r matches Some((vs, end))
                &&& vs@ == v.verifiers
            },
{
    proof {
        assert forall|v: CodexView|
            v.wf() && #[trigger] is_prefix_at(v.verifiers_part(), bytes@, pos as int) implies {
            &&& pos < bytes@.len()
            &&& bytes@[pos as int] == v.verifiers.len() as u8
            &&& is_prefix_at(items_bytes::<(CallId, LibSite)>(v.verifiers), bytes@, pos + 1)
            &&& items_admit::<(CallId, LibSite)>(v.verifiers)
        } by {
            let e = v.verifiers_part();
            assert(bytes@.subrange(pos as int, pos + e.len())[0] == e[0]);
            lemma_prefix_concat(seq![v.verifiers.len() as u8], verifiers_bytes(v.verifiers), bytes@, pos as int);
            lemma_verifiers_bytes_as_items(v.verifiers);
        }
    }
    if pos >= bytes.len() {
        return None;
    }
    let n = bytes[pos];
    let (vs, end) = match read_items::<(CallId, LibSite)>(bytes, pos + 1, n as u16) {
        Some(x) => x,
        None => {
            return None;
        },
    };
    assert(models(vs@) =~= vs@);
    if !is_ascending(&vs) {
        return None;
    }
    proof {
        lemma_verifiers_bytes_as_items(vs@);
        assert(bytes@.subrange(pos as int, pos + 1) =~= seq![vs@.len() as u8]);
        lemma_prefix_concat(seq![vs@.len() as u8], verifiers_bytes(vs@), bytes@, pos as int);
    }
    Some((vs, end))
}

/// A codex that holds nothing yet.
fn blank_codex() -> (r: Codex)
    ensures
        r@.verifiers.len() == 0,
{
    Codex {
        version: ReservedBytes::new(),
        name: String::new(),
        developer: Identity::default(),
        timestamp: 0,
        field_order: Fe256::zero(),
        input_config: CoreConfig { halt: false, complexity_lim: None },
        verification_config: CoreConfig { halt: false, complexity_lim: None },
        verifiers: Vec::new(),
    }
}

/// Reads the two configurations and the verifiers of a codex from their canonical bytes at
/// `pos`; what else a codex holds is left blank.
fn read_configs(bytes: &[u8], pos: usize) -> (r: Option<(Codex, usize)>)
    ensures
        r matches Some((c, end)) ==> {
            &&& c@.verifiers.len() <= 255
            &&& ascending(c@.verifiers)
            &&& end == pos + c@.configs_part().len()
            &&& is_prefix_at(c@.configs_part(), bytes@, pos as int)
        },
        forall|v: CodexView|
            v.wf() && #[trigger] is_prefix_at(v.configs_part(), bytes@, pos as int) ==> {
                &&& r matches Some((c, end))
                &&& c@.input_config == v.input_config
                &&& c@.verification_config == v.verification_config
                &&& c@.verifiers == v.verifiers
            },
{
    proof {
        assert forall|v: CodexView|
            v.wf() && #[trigger] is_prefix_at(v.configs_part(), bytes@, pos as int) implies {
            &&& is_prefix_at(v.input_config.encoding(), bytes@, pos as int)
            &&& is_prefix_at(
                v.verification_config.encoding(),
                bytes@,
                pos + v.input_config.encoding().len(),
            )
            &&& is_prefix_at(
                v.verifiers_part(),
                bytes@,
                pos + v.input_config.encoding().len() + v.verification_config.encoding().len(),
            )
        } by {
            lemma_prefix_concat(
                v.input_config.encoding(),
                v.verification_config.encoding() + v.verifiers_part(),
                bytes@,
                pos as int,
            );
            lemma_prefix_concat(
                v.verification_config.encoding(),
                v.verifiers_part(),
                bytes@,
                pos + v.input_config.encoding().len(),
            );
        }
    }
    let (input_config, at1) = match CoreConfig::decode(bytes, pos) {
        Some(x) => x,
        None => {
            return None;
        },
    };
    let (verification_config, at2) = match CoreConfig::decode(bytes, at1) {
        Some(x) => x,
        None => {
            return None;
        },
    };
    let (verifiers, end) = match read_verifiers(bytes, at2) {
        Some(x) => x,
        None => {
            return None;
        },
    };
    let mut codex = blank_codex();
    codex.input_config = input_config;
    codex.verification_config = verification_config;
    codex.verifiers = verifiers;
    proof {
        let v = codex@;
        lemma_prefix_concat(v.verification_config.encoding(), v.verifiers_part(), bytes@, at1 as int);
        lemma_prefix_concat(
            v.input_config.encoding(),
            v.verification_config.encoding() + v.verifiers_part(),
            bytes@,
            pos as int,
        );
    }
    Some((codex, end))
}

/// Reads a codex from the timestamp on from its canonical bytes at `pos`; name and developer
/// are left blank.
fn read_numbers(bytes: &[u8], pos: usize) -> (r: Option<(Codex, usize)>)
    ensures
        r matches Some((c, end)) ==> {
            &&& c@.verifiers.len() <= 255
            &&& ascending(c@.verifiers)
            &&& end == pos + c@.numbers_part().len()
            &&& is_prefix_at(c@.numbers_part(), bytes@, pos as int)
        },
        forall|v: CodexView|
            v.wf() && #[trigger] is_prefix_at(v.numbers_part(), bytes@, pos as int) ==> {
                &&& r matches Some((c, end))
                &&& c@.timestamp == v.timestamp
                &&& c@.field_order == v.field_order
                &&& c@.input_config == v.input_config
                &&& c@.verification_config == v.verification_config
                &&& c@.verifiers == v.verifiers
            },
{
    proof {
        assert forall|v: CodexView|
            v.wf() && #[trigger] is_prefix_at(v.numbers_part(), bytes@, pos as int) implies {
            &&& is_prefix_at(i64_le(v.timestamp), bytes@, pos as int)
            &&& is_prefix_at(v.field_order.bytes@, bytes@, pos + 8)
            &&& is_prefix_at(v.configs_part(), bytes@, pos + 40)
        } by {
            assert(i64_le(v.timestamp).len() == 8);
            lemma_prefix_concat(i64_le(v.timestamp), v.field_order@ + v.configs_part(), bytes@, pos as int);
            lemma_prefix_concat(v.field_order@, v.configs_part(), bytes@, pos + 8);
        }
    }
    let (timestamp, at1) = match get_i64(bytes, pos) {
        Some(x) => x,
        None => {
            return None;
        },
    };
    let (field_order, at2) = match get_bytes32(bytes, at1) {
        Some(x) => x,
        None => {
            return None;
        },
    };
    let (mut codex, end) = match read_configs(bytes, at2) {
        Some(x) => x,
        None => {
            return None;
        },
    };
    codex.timestamp = timestamp;
    codex.field_order = Fe256 { bytes: field_order };
    proof {
        let v = codex@;
        assert(i64_le(v.timestamp).len() == 8);
        lemma_prefix_concat(v.field_order@, v.configs_part(), bytes@, at1 as int);
        lemma_prefix_concat(i64_le(v.timestamp), v.field_order@ + v.configs_part(), bytes@, pos as int);
    }
    Some((codex, end))
}

/// Reads a codex from the developer on from its canonical bytes at `pos`; the name is left
/// blank.
fn read_developer(bytes: &[u8], pos: usize) -> (r: Option<(Codex, usize)>)
    ensures
        r matches Some((c, end)) ==> {
            &&& c@.verifiers.len() <= 255
            &&& ascending(c@.verifiers)
            &&& is_identity(c@.developer)
            &&& end == pos + c@.developer_part().len()
            &&& is_prefix_at(c@.developer_part(), bytes@, pos as int)
        },
        forall|v: CodexView|
            v.wf() && is_identity(v.developer) && #[trigger] is_prefix_at(
                v.developer_part(),
                bytes@,
                pos as int,
            ) ==> {
                &&& r matches Some((c, end))
                &&& c@.developer == v.developer
                &&& c@.timestamp == v.timestamp
                &&& c@.field_order == v.field_order
                &&& c@.input_config == v.input_config
                &&& c@.verification_config == v.verification_config
                &&& c@.verifiers == v.verifiers
            },
{
    proof {
        assert forall|v: CodexView|
            v.wf() && is_identity(v.developer) && #[trigger] is_prefix_at(
                v.developer_part(),
                bytes@,
                pos as int,
            ) implies {
            &&& is_prefix_at(u16_le(v.developer.len() as u16), bytes@, pos as int)
            &&& is_prefix_at(v.developer, bytes@, pos + 2)
            &&& is_prefix_at(v.numbers_part(), bytes@, pos + 2 + v.developer.len())
        } by {
            lemma_prefix_concat(
                u16_le(v.developer.len() as u16),
                v.developer + v.numbers_part(),
                bytes@,
                pos as int,
            );
            lemma_prefix_concat(v.developer, v.numbers_part(), bytes@, pos + 2);
        }
    }
    let (n, start) = match get_u16(bytes, pos) {
        Some(x) => x,
        None => {
            return None;
        },
    };
    let len = n as usize;
    if bytes.len() - start < len {
        assert forall|v: CodexView|
            v.wf() && is_identity(v.developer) && #[trigger] is_prefix_at(
                v.developer_part(),
                bytes@,
                pos as int,
            ) implies false by {
            assert(v.developer.len() as u16 == n);
        }
        return None;
    }
    let text = copy_range(bytes, start, len);
    let developer = match Identity::from_bytes(text.as_slice()) {
        Some(x) => x,
        None => {
            assert forall|v: CodexView|
                v.wf() && is_identity(v.developer) && #[trigger] is_prefix_at(
                    v.developer_part(),
                    bytes@,
                    pos as int,
                ) implies false by {
                assert(v.developer.len() as u16 == n);
                assert(v.developer =~= text@);
            }
            return None;
        },
    };
    let (mut codex, end) = match read_numbers(bytes, start + len) {
        Some(x) => x,
        None => {
            assert forall|v: CodexView|
                v.wf() && is_identity(v.developer) && #[trigger] is_prefix_at(
                    v.developer_part(),
                    bytes@,
                    pos as int,
                ) implies false by {
                assert(v.developer.len() as u16 == n);
            }
            return None;
        },
    };
    codex.developer = developer;
    proof {
        let v = codex@;
        lemma_prefix_concat(v.developer, v.numbers_part(), bytes@, start as int);
        lemma_prefix_concat(u16_le(n), v.developer + v.numbers_part(), bytes@, pos as int);
        assert forall|w: CodexView|
            w.wf() && is_identity(w.developer) && #[trigger] is_prefix_at(
                w.developer_part(),
                bytes@,
                pos as int,
            ) implies w.developer == v.developer && is_prefix_at(w.numbers_part(), bytes@, start + len) by {
            assert(w.developer.len() as u16 == n);
            assert(w.developer =~= text@);
        }
    }
    Some((codex, end))
}

impl Codex {
    /// Reads a codex from its canonical bytes at `pos`: the codex whose bytes stand there, and
    /// the position behind them; nothing where no codex's bytes stand there.
    pub fn decode(bytes: &[u8], pos: usize) -> (r: Option<(Codex, usize)>)
        ensures
            r matches Some((c, end)) ==> {
                &&& codex_admits(c@)
                &&& end == pos + c@.encoding().len()
                &&& is_prefix_at(c@.encoding(), bytes@, pos as int)
            },
            forall|v: CodexView|
                codex_admits(v) && #[trigger] is_prefix_at(v.encoding(), bytes@, pos as int) ==> {
                    &&& r matches Some((c, end))
                    &&& c@ == v
                },
    {
        proof {
            assert forall|v: CodexView|
                codex_admits(v) && #[trigger] is_prefix_at(v.encoding(), bytes@, pos as int) implies {
                &&& pos + 2 <= bytes@.len()
                &&& bytes@[pos as int] == 0
                &&& bytes@[pos + 1] == v.name.len() as u8
                &&& is_prefix_at(v.name, bytes@, pos + 2)
                &&& is_prefix_at(v.developer_part(), bytes@, pos + 2 + v.name.len())
            } by {
                lemma_prefix_concat(zeros(1), v.name_part(), bytes@, pos as int);
                lemma_prefix_concat(seq![v.name.len() as u8], v.name + v.developer_part(), bytes@, pos + 1);
                lemma_prefix_concat(v.name, v.developer_part(), bytes@, pos + 2);
                assert(bytes@.subrange(pos as int, pos + 1)[0] == zeros(1)[0]);
                assert(bytes@.subrange(pos + 1, pos + 2)[0] == seq![v.name.len() as u8][0]);
            }
        }
        if bytes.len() < 2 || pos > bytes.len() - 2 || bytes[pos] != 0 {
            return None;
        }
        let len = bytes[pos + 1] as usize;
        let start = pos + 2;
        if bytes.len() - start < len {
            return None;
        }
        let text = copy_range(bytes, start, len);
        let ghost name_bytes = text@;
        let name = match utf8_string(text) {
            Some(x) => x,
            None => {
                assert forall|v: CodexView|
                    codex_admits(v) && #[trigger] is_prefix_at(v.encoding(), bytes@, pos as int) implies false by {
                    assert(v.name =~= name_bytes);
                }
                return None;
            },
        };
        let (mut codex, end) = match read_developer(bytes, start + len) {
            Some(x) => x,
            None => {
                return None;
            },
        };
        codex.name = name;
        proof {
            let v = codex@;
            assert(v.name == name_bytes);
            assert(bytes@.subrange(pos as int, pos + 1) =~= zeros(1));
            assert(bytes@.subrange(pos + 1, pos + 2) =~= seq![v.name.len() as u8]);
            lemma_prefix_concat(v.name, v.developer_part(), bytes@, pos + 2);
            lemma_prefix_concat(seq![v.name.len() as u8], v.name + v.developer_part(), bytes@, pos + 1);
            lemma_prefix_concat(zeros(1), v.name_part(), bytes@, pos as int);
            assert forall|w: CodexView|
                codex_admits(w) && #[trigger] is_prefix_at(w.encoding(), bytes@, pos as int) implies w == v by {
                assert(w.name =~= name_bytes);
                assert(is_prefix_at(w.developer_part(), bytes@, start + len));
            }
        }
        Some((codex, end))
    }

    /// Writes the codex in canonical bytes and reads it back: what comes back holds what the
    /// codex holds, and so has its identifier.
    pub fn recode(&self) -> (r: Codex)
        requires
            self@.wf(),
        ensures
            r@ == self@,
            r@.codex_id() == self@.codex_id(),
    {
        let mut out: Vec<u8> = Vec::new();
        self.encode(&mut out);
        let _ = self.developer.as_bytes();
        proof {
            vstd::utf8::encode_utf8_valid_utf8(self.name@);
            assert(out@ =~= self@.encoding());
            assert(out@.subrange(0, out@.len() as int) =~= out@);
            assert(is_prefix_at(self@.encoding(), out@, 0));
            assert(codex_admits(self@));
        }
        match Codex::decode(out.as_slice(), 0) {
            Some((codex, _)) => codex,
            None => self.clone(),
        }
    }
}

} // verus!
