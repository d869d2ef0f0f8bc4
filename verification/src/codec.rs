//! Reading and writing the data in canonical bytes.
//!
//! Every type of data has one way to be written. What was written can be read back: reading
//! gives the value whose bytes stand at the place, and nothing where no value's bytes stand
//! there.

use vstd::prelude::*;
use crate::bytes::{copy_range, get_bytes32, get_u16, is_prefix_at, lemma_prefix_concat, put_slice, put_u16, u16_le};
use crate::fe::Fe256;
use crate::bytes::zeros;
use crate::codex::CodexId;
use crate::issue::ContractId;
use crate::operation::{data_views, CallId, CellAddr, Genesis, Input, Operation, OperationView, Opid};
use crate::site::ReservedBytes;
use crate::site::{LibId, LibSite};
use crate::state::{lock_encoding, AuthToken, RawData, StateCell, StateData, StateDataView, StateValue};

verus! {

/// Data with canonical bytes.
pub trait Canonical: Sized {
    /// What a value holds, as far as its bytes tell.
    type Model;

    /// What the value holds.
    spec fn model(&self) -> Self::Model;

    /// Whether a value of the type can hold `m`.
    spec fn admits(m: Self::Model) -> bool;

    /// The canonical bytes of a value that holds `m`.
    spec fn bytes_of(m: Self::Model) -> Seq<u8>;

    /// Appends the canonical bytes of the value to `out`.
    fn write(&self, out: &mut Vec<u8>)
        ensures
            final(out)@ == old(out)@ + Self::bytes_of(self.model()),
    ;

    /// Reads a value from its canonical bytes at `pos`: the value whose bytes stand there, and
    /// the position behind them; nothing where no value's bytes stand there.
    fn read(bytes: &[u8], pos: usize) -> (r: Option<(Self, usize)>)
        ensures
            r matches Some((v, end)) ==> {
                &&& Self::admits(v.model())
                &&& end == pos + Self::bytes_of(v.model()).len()
                &&& is_prefix_at(Self::bytes_of(v.model()), bytes@, pos as int)
            },
            forall|m: Self::Model|
                Self::admits(m) && #[trigger] is_prefix_at(Self::bytes_of(m), bytes@, pos as int) ==> {
                    &&& r matches Some((v, end))
                    &&& v.model() == m
                },
    ;
}

impl Canonical for StateValue {
    type Model = StateValue;

    open spec fn model(&self) -> StateValue {
        *self
    }

    open spec fn admits(m: StateValue) -> bool {
        true
    }

    open spec fn bytes_of(m: StateValue) -> Seq<u8> {
        m.encoding()
    }

    fn write(&self, out: &mut Vec<u8>) {
        self.encode(out);
    }

    fn read(bytes: &[u8], pos: usize) -> (r: Option<(Self, usize)>) {
        StateValue::decode(bytes, pos)
    }
}

impl Canonical for CellAddr {
    type Model = CellAddr;

    open spec fn model(&self) -> CellAddr {
        *self
    }

    open spec fn admits(m: CellAddr) -> bool {
        true
    }

    open spec fn bytes_of(m: CellAddr) -> Seq<u8> {
        m.encoding()
    }

    fn write(&self, out: &mut Vec<u8>) {
        self.encode(out);
    }

    fn read(bytes: &[u8], pos: usize) -> (r: Option<(Self, usize)>) {
        proof {
            assert forall|m: CellAddr| #[trigger]
                is_prefix_at(m.encoding(), bytes@, pos as int) implies is_prefix_at(m.opid@, bytes@, pos as int)
                && is_prefix_at(u16_le(m.pos), bytes@, pos + 32) by {
                lemma_prefix_concat(m.opid@, u16_le(m.pos), bytes@, pos as int);
            }
        }
        let (opid, at) = match get_bytes32(bytes, pos) {
            Some(x) => x,
            None => {
                return None;
            },
        };
        let (n, end) = match get_u16(bytes, at) {
            Some(x) => x,
            None => {
                return None;
            },
        };
        let addr = CellAddr { opid: Opid { bytes: opid }, pos: n };
        proof {
            lemma_prefix_concat(addr.opid@, u16_le(addr.pos), bytes@, pos as int);
            assert forall|m: CellAddr| #[trigger] is_prefix_at(m.encoding(), bytes@, pos as int) implies m
                == addr by {
                assert(is_prefix_at(m.opid.bytes@, bytes@, pos as int));
            }
        }
        Some((addr, end))
    }
}

impl Canonical for LibSite {
    type Model = LibSite;

    open spec fn model(&self) -> LibSite {
        *self
    }

    open spec fn admits(m: LibSite) -> bool {
        true
    }

    open spec fn bytes_of(m: LibSite) -> Seq<u8> {
        m.encoding()
    }

    fn write(&self, out: &mut Vec<u8>) {
        self.encode(out);
    }

    fn read(bytes: &[u8], pos: usize) -> (r: Option<(Self, usize)>) {
        proof {
            assert forall|m: LibSite| #[trigger]
                is_prefix_at(m.encoding(), bytes@, pos as int) implies is_prefix_at(m.lib_id@, bytes@, pos as int)
                && is_prefix_at(u16_le(m.offset), bytes@, pos + 32) by {
                lemma_prefix_concat(m.lib_id@, u16_le(m.offset), bytes@, pos as int);
            }
        }
        let (id, at) = match get_bytes32(bytes, pos) {
            Some(x) => x,
            None => {
                return None;
            },
        };
        let (offset, end) = match get_u16(bytes, at) {
            Some(x) => x,
            None => {
                return None;
            },
        };
        let site = LibSite { lib_id: LibId { bytes: id }, offset };
        proof {
            lemma_prefix_concat(site.lib_id@, u16_le(site.offset), bytes@, pos as int);
            assert forall|m: LibSite| #[trigger] is_prefix_at(m.encoding(), bytes@, pos as int) implies m
                == site by {
                assert(is_prefix_at(m.lib_id.bytes@, bytes@, pos as int));
            }
        }
        Some((site, end))
    }
}

/// Reads an optional script position from its canonical bytes at `pos`.
pub fn read_lock(bytes: &[u8], pos: usize) -> (r: Option<(Option<LibSite>, usize)>)
    ensures
        r matches Some((lock, end)) ==> end == pos + lock_encoding(lock).len() && is_prefix_at(
            lock_encoding(lock),
            bytes@,
            pos as int,
        ),
        forall|lock: Option<LibSite>| #[trigger]
            is_prefix_at(lock_encoding(lock), bytes@, pos as int) ==> (r matches Some((l, end)) && l == lock),
{
    proof {
        assert forall|lock: Option<LibSite>| #[trigger]
            is_prefix_at(lock_encoding(lock), bytes@, pos as int) implies pos < bytes@.len() && bytes@[pos as int]
            == lock_encoding(lock)[0] && (lock matches Some(site) ==> is_prefix_at(
            site.encoding(),
            bytes@,
            pos + 1,
        )) by {
            let e = lock_encoding(lock);
            assert(bytes@.subrange(pos as int, pos + e.len())[0] == e[0]);
            if let Some(site) = lock {
                lemma_prefix_concat(seq![1u8], site.encoding(), bytes@, pos as int);
            }
        }
    }
    if pos >= bytes.len() {
        return None;
    }
    let tag = bytes[pos];
    if tag == 0 {
        assert(bytes@.subrange(pos as int, pos + 1) =~= seq![0u8]);
        assert forall|lock: Option<LibSite>| #[trigger]
            is_prefix_at(lock_encoding(lock), bytes@, pos as int) implies lock is None by {
            assert(lock_encoding(lock)[0] == 0u8);
        }
        Some((None, pos + 1))
    } else if tag == 1 {
        assert forall|lock: Option<LibSite>| #[trigger]
            is_prefix_at(lock_encoding(lock), bytes@, pos as int) implies lock is Some by {
            assert(lock_encoding(lock)[0] == 1u8);
        }
        match LibSite::read(bytes, pos + 1) {
            Some((site, end)) => {
                proof {
                    assert(bytes@.subrange(pos as int, pos + 1) =~= seq![1u8]);
                    lemma_prefix_concat(seq![1u8], site.encoding(), bytes@, pos as int);
                    assert forall|lock: Option<LibSite>| #[trigger]
                        is_prefix_at(lock_encoding(lock), bytes@, pos as int) implies lock == Some(site) by {
                        assert(is_prefix_at(LibSite::bytes_of(lock->0), bytes@, pos + 1));
                    }
                }
                Some((Some(site), end))
            },
            None => {
                assert forall|lock: Option<LibSite>| #[trigger]
                    is_prefix_at(lock_encoding(lock), bytes@, pos as int) implies false by {
                    assert(is_prefix_at(LibSite::bytes_of(lock->0), bytes@, pos + 1));
                }
                None
            },
        }
    } else {
        assert forall|lock: Option<LibSite>| #[trigger]
            is_prefix_at(lock_encoding(lock), bytes@, pos as int) implies false by {
            assert(lock_encoding(lock)[0] == tag);
        }
        None
    }
}

impl Canonical for StateCell {
    type Model = StateCell;

    open spec fn model(&self) -> StateCell {
        *self
    }

    open spec fn admits(m: StateCell) -> bool {
        true
    }

    open spec fn bytes_of(m: StateCell) -> Seq<u8> {
        m.encoding()
    }

    fn write(&self, out: &mut Vec<u8>) {
        self.encode(out);
    }

    fn read(bytes: &[u8], pos: usize) -> (r: Option<(Self, usize)>) {
        proof {
            assert forall|m: StateCell| #[trigger] is_prefix_at(m.encoding(), bytes@, pos as int) implies {
                &&& is_prefix_at(m.data.encoding(), bytes@, pos as int)
                &&& is_prefix_at(m.auth.0@, bytes@, pos + m.data.encoding().len())
                &&& is_prefix_at(lock_encoding(m.lock), bytes@, pos + m.data.encoding().len() + 32)
            } by {
                lemma_prefix_concat(m.data.encoding() + m.auth.0@, lock_encoding(m.lock), bytes@, pos as int);
                lemma_prefix_concat(m.data.encoding(), m.auth.0@, bytes@, pos as int);
            }
        }
        let (data, at) = match StateValue::decode(bytes, pos) {
            Some(x) => x,
            None => {
                return None;
            },
        };
        let (auth, at2) = match get_bytes32(bytes, at) {
            Some(x) => x,
            None => {
                return None;
            },
        };
        let (lock, end) = match read_lock(bytes, at2) {
            Some(x) => x,
            None => {
                return None;
            },
        };
        let cell = StateCell { data, auth: AuthToken(Fe256 { bytes: auth }), lock };
        proof {
            lemma_prefix_concat(cell.data.encoding(), cell.auth.0@, bytes@, pos as int);
            lemma_prefix_concat(cell.data.encoding() + cell.auth.0@, lock_encoding(cell.lock), bytes@, pos as int);
            assert forall|m: StateCell| #[trigger] is_prefix_at(m.encoding(), bytes@, pos as int) implies m
                == cell by {
                assert(m.data == data);
                assert(is_prefix_at(m.auth.0.bytes@, bytes@, at as int));
            }
        }
        Some((cell, end))
    }
}

impl Canonical for Input {
    type Model = Input;

    open spec fn model(&self) -> Input {
        *self
    }

    open spec fn admits(m: Input) -> bool {
        true
    }

    open spec fn bytes_of(m: Input) -> Seq<u8> {
        m.encoding()
    }

    fn write(&self, out: &mut Vec<u8>) {
        self.encode(out);
    }

    fn read(bytes: &[u8], pos: usize) -> (r: Option<(Self, usize)>) {
        proof {
            assert forall|m: Input| #[trigger] is_prefix_at(m.encoding(), bytes@, pos as int) implies {
                &&& is_prefix_at(CellAddr::bytes_of(m.addr), bytes@, pos as int)
                &&& is_prefix_at(m.witness.encoding(), bytes@, pos + m.addr.encoding().len())
            } by {
                lemma_prefix_concat(m.addr.encoding(), m.witness.encoding(), bytes@, pos as int);
            }
        }
        let (addr, at) = match CellAddr::read(bytes, pos) {
            Some(x) => x,
            None => {
                return None;
            },
        };
        let (witness, end) = match StateValue::decode(bytes, at) {
            Some(x) => x,
            None => {
                return None;
            },
        };
        let input = Input { addr, witness };
        proof {
            lemma_prefix_concat(input.addr.encoding(), input.witness.encoding(), bytes@, pos as int);
            assert forall|m: Input| #[trigger] is_prefix_at(m.encoding(), bytes@, pos as int) implies m
                == input by {
                assert(m.addr == addr);
            }
        }
        Some((input, end))
    }
}

impl Canonical for RawData {
    type Model = Seq<u8>;

    open spec fn model(&self) -> Seq<u8> {
        self@
    }

    open spec fn admits(m: Seq<u8>) -> bool {
        m.len() <= 0xFFFF
    }

    open spec fn bytes_of(m: Seq<u8>) -> Seq<u8> {
        RawData::encoding_of(m)
    }

    fn write(&self, out: &mut Vec<u8>) {
        self.encode(out);
    }

    fn read(bytes: &[u8], pos: usize) -> (r: Option<(Self, usize)>) {
        proof {
            assert forall|m: Seq<u8>|
                m.len() <= 0xFFFF && #[trigger] is_prefix_at(
                    RawData::encoding_of(m),
                    bytes@,
                    pos as int,
                ) implies is_prefix_at(u16_le(m.len() as u16), bytes@, pos as int) && is_prefix_at(
                m,
                bytes@,
                pos + 2,
            ) by {
                lemma_prefix_concat(u16_le(m.len() as u16), m, bytes@, pos as int);
            }
        }
        let (n, start) = match get_u16(bytes, pos) {
            Some(x) => x,
            None => {
                return None;
            },
        };
        let len = n as usize;
        if bytes.len() - start < len {
            assert forall|m: Seq<u8>|
                m.len() <= 0xFFFF && #[trigger] is_prefix_at(
                    RawData::encoding_of(m),
                    bytes@,
                    pos as int,
                ) implies false by {
                assert(m.len() as u16 == n);
            }
            return None;
        }
        let data = copy_range(bytes, start, len);
        let ghost content = data@;
        let raw = match RawData::from_vec(data) {
            Some(raw) => raw,
            None => {
                return None;
            },
        };
        proof {
            lemma_prefix_concat(u16_le(n), content, bytes@, pos as int);
            assert forall|m: Seq<u8>|
                m.len() <= 0xFFFF && #[trigger] is_prefix_at(
                    RawData::encoding_of(m),
                    bytes@,
                    pos as int,
                ) implies m == content by {
                assert(m.len() as u16 == n);
                assert(m =~= content);
            }
        }
        Some((raw, start + len))
    }
}

/// The canonical bytes of optional raw data: a zero byte for none; else a one byte and the bytes
/// of the data.
pub open spec fn raw_bytes(raw: Option<Seq<u8>>) -> Seq<u8> {
    match raw {
        None => seq![0u8],
        Some(data) => seq![1u8] + RawData::encoding_of(data),
    }
}

/// The canonical bytes of immutable state: the value, then the optional raw data.
pub open spec fn state_data_bytes(data: StateDataView) -> Seq<u8> {
    data.value.encoding() + raw_bytes(data.raw)
}

impl Canonical for StateData {
    type Model = StateDataView;

    open spec fn model(&self) -> StateDataView {
        self@
    }

    open spec fn admits(m: StateDataView) -> bool {
        m.raw matches Some(data) ==> data.len() <= 0xFFFF
    }

    open spec fn bytes_of(m: StateDataView) -> Seq<u8> {
        state_data_bytes(m)
    }

    fn write(&self, out: &mut Vec<u8>) {
        self.value.encode(out);
        match &self.raw {
            None => {
                out.push(0u8);
            },
            Some(raw) => {
                out.push(1u8);
                raw.encode(out);
            },
        }
        assert(out@ =~= old(out)@ + state_data_bytes(self@));
    }

    fn read(bytes: &[u8], pos: usize) -> (r: Option<(Self, usize)>) {
        proof {
            assert forall|m: StateDataView|
                Self::admits(m) && #[trigger] is_prefix_at(state_data_bytes(m), bytes@, pos as int) implies {
                &&& is_prefix_at(m.value.encoding(), bytes@, pos as int)
                &&& is_prefix_at(raw_bytes(m.raw), bytes@, pos + m.value.encoding().len())
            } by {
                lemma_prefix_concat(m.value.encoding(), raw_bytes(m.raw), bytes@, pos as int);
            }
        }
        let (value, at) = match StateValue::decode(bytes, pos) {
            Some(x) => x,
            None => {
                return None;
            },
        };
        proof {
            assert forall|m: StateDataView|
                Self::admits(m) && #[trigger] is_prefix_at(state_data_bytes(m), bytes@, pos as int) implies {
                &&& m.value == value
                &&& at < bytes@.len()
                &&& bytes@[at as int] == raw_bytes(m.raw)[0]
                &&& (m.raw matches Some(data) ==> is_prefix_at(RawData::bytes_of(data), bytes@, at + 1))
            } by {
                let e = raw_bytes(m.raw);
                assert(bytes@.subrange(at as int, at + e.len())[0] == e[0]);
                if let Some(data) = m.raw {
                    lemma_prefix_concat(seq![1u8], RawData::encoding_of(data), bytes@, at as int);
                }
            }
        }
        if at >= bytes.len() {
            return None;
        }
        let tag = bytes[at];
        if tag == 0 {
            let data = StateData { value, raw: None };
            proof {
                assert(bytes@.subrange(at as int, at + 1) =~= seq![0u8]);
                lemma_prefix_concat(value.encoding(), raw_bytes(None), bytes@, pos as int);
                assert forall|m: StateDataView|
                    Self::admits(m) && #[trigger] is_prefix_at(state_data_bytes(m), bytes@, pos as int) implies m
                    == data@ by {
                    assert(raw_bytes(m.raw)[0] == 0u8);
                }
            }
            Some((data, at + 1))
        } else if tag == 1 {
            match RawData::read(bytes, at + 1) {
                Some((raw, end)) => {
                    let ghost content = raw@;
                    let data = StateData { value, raw: Some(raw) };
                    proof {
                        assert(bytes@.subrange(at as int, at + 1) =~= seq![1u8]);
                        lemma_prefix_concat(seq![1u8], RawData::encoding_of(content), bytes@, at as int);
                        lemma_prefix_concat(value.encoding(), raw_bytes(Some(content)), bytes@, pos as int);
                        assert forall|m: StateDataView|
                            Self::admits(m) && #[trigger] is_prefix_at(
                                state_data_bytes(m),
                                bytes@,
                                pos as int,
                            ) implies m == data@ by {
                            assert(raw_bytes(m.raw)[0] == 1u8);
                            assert(m.raw is Some);
                        }
                    }
                    Some((data, end))
                },
                None => {
                    assert forall|m: StateDataView|
                        Self::admits(m) && #[trigger] is_prefix_at(
                            state_data_bytes(m),
                            bytes@,
                            pos as int,
                        ) implies false by {
                        assert(raw_bytes(m.raw)[0] == 1u8);
                        assert(m.raw is Some);
                    }
                    None
                },
            }
        } else {
            assert forall|m: StateDataView|
                Self::admits(m) && #[trigger] is_prefix_at(state_data_bytes(m), bytes@, pos as int) implies false by {
                assert(raw_bytes(m.raw)[0] == tag);
            }
            None
        }
    }
}

/// What the items of a list hold, in order.
pub open spec fn models<T: Canonical>(items: Seq<T>) -> Seq<T::Model> {
    items.map_values(|item: T| item.model())
}

/// The canonical bytes of the items of a list, one item after the other.
pub open spec fn items_bytes<T: Canonical>(ms: Seq<T::Model>) -> Seq<u8>
    decreases ms.len(),
{
    if ms.len() == 0 {
        seq![]
    } else {
        items_bytes::<T>(ms.drop_last()) + T::bytes_of(ms.last())
    }
}

/// The canonical bytes of a list: the number of its items in two little-endian bytes, then the
/// items.
pub open spec fn list_bytes<T: Canonical>(ms: Seq<T::Model>) -> Seq<u8> {
    u16_le(ms.len() as u16) + items_bytes::<T>(ms)
}

/// Whether each of `ms` is what an item can hold.
pub open spec fn items_admit<T: Canonical>(ms: Seq<T::Model>) -> bool {
    forall|i: int| 0 <= i < ms.len() ==> T::admits(#[trigger] ms[i])
}

/// Whether a list can hold `ms`: at most 65535 items, each of which an item can hold.
pub open spec fn list_admits<T: Canonical>(ms: Seq<T::Model>) -> bool {
    ms.len() <= 0xFFFF && items_admit::<T>(ms)
}

/// Where the bytes of the items of a list stand, the bytes of its first `k` items stand, and
/// behind them the bytes of the next item.
pub proof fn lemma_items_prefix<T: Canonical>(ms: Seq<T::Model>, k: int, s: Seq<u8>, pos: int)
    requires
        0 <= k < ms.len(),
        is_prefix_at(items_bytes::<T>(ms), s, pos),
    ensures
        is_prefix_at(items_bytes::<T>(ms.take(k)), s, pos),
        is_prefix_at(T::bytes_of(ms[k]), s, pos + items_bytes::<T>(ms.take(k)).len()),
    decreases ms.len(),
{
    let head = ms.drop_last();
    lemma_prefix_concat(items_bytes::<T>(head), T::bytes_of(ms.last()), s, pos);
    if k == ms.len() - 1 {
        assert(ms.take(k) =~= head);
    } else {
        lemma_items_prefix::<T>(head, k, s, pos);
        assert(head.take(k) =~= ms.take(k));
    }
}

/// Appends the canonical bytes of a list of at most 65535 items to `out`.
pub fn write_list<T: Canonical>(items: &Vec<T>, out: &mut Vec<u8>)
    requires
        items@.len() <= 0xFFFF,
    ensures
        final(out)@ == old(out)@ + list_bytes::<T>(models(items@)),
{
    let n = items.len();
    put_u16(out, n as u16);
    let ghost head = out@;
    let ghost ms = models(items@);
    let mut i: usize = 0;
    assert(out@ =~= head + items_bytes::<T>(ms.take(0)));
    while i < n
        invariant
            i <= n,
            n == items@.len(),
            ms == models(items@),
            out@ == head + items_bytes::<T>(ms.take(i as int)),
        decreases n - i,
    {
        let ghost before = out@;
        items[i].write(out);
        i = i + 1;
        proof {
            let t = ms.take(i as int);
            assert(t.drop_last() =~= ms.take(i - 1));
            assert(t.last() == items@[i - 1].model());
            assert(out@ =~= head + items_bytes::<T>(t));
        }
    }
    assert(ms.take(n as int) =~= ms);
    assert(out@ =~= old(out)@ + list_bytes::<T>(ms));
}

/// Reads `n` items from their canonical bytes at `start`: the items whose bytes stand there,
/// one after the other, and the position behind them; nothing where no such items' bytes stand
/// there.
pub fn read_items<T: Canonical>(bytes: &[u8], start: usize, n: u16) -> (r: Option<(Vec<T>, usize)>)
    requires
        start <= bytes@.len(),
    ensures
        r matches Some((items, end)) ==> {
            &&& items@.len() == n
            &&& items_admit::<T>(models(items@))
            &&& end == start + items_bytes::<T>(models(items@)).len()
            &&& is_prefix_at(items_bytes::<T>(models(items@)), bytes@, start as int)
        },
        forall|ms: Seq<T::Model>|
            ms.len() == n && items_admit::<T>(ms) && #[trigger] is_prefix_at(
                items_bytes::<T>(ms),
                bytes@,
                start as int,
            ) ==> {
                &&& r matches Some((items, end))
                &&& models(items@) == ms
            },
{
    let mut items: Vec<T> = Vec::new();
    let mut at: usize = start;
    let mut i: u16 = 0;
    assert(models(items@) =~= Seq::<T::Model>::empty());
    assert(bytes@.subrange(start as int, start as int) =~= items_bytes::<T>(models(items@)));
    while i < n
        invariant
            i <= n,
            start <= bytes@.len(),
            items@.len() == i,
            at == start + items_bytes::<T>(models(items@)).len(),
            is_prefix_at(items_bytes::<T>(models(items@)), bytes@, start as int),
            items_admit::<T>(models(items@)),
            forall|ms: Seq<T::Model>|
                ms.len() == n && items_admit::<T>(ms) && #[trigger] is_prefix_at(
                    items_bytes::<T>(ms),
                    bytes@,
                    start as int,
                ) ==> ms.take(i as int) == models(items@),
        decreases n - i,
    {
        let ghost old_models = models(items@);
        proof {
            assert forall|ms: Seq<T::Model>|
                ms.len() == n && items_admit::<T>(ms) && #[trigger] is_prefix_at(
                    items_bytes::<T>(ms),
                    bytes@,
                    start as int,
                ) implies T::admits(ms[i as int]) && is_prefix_at(T::bytes_of(ms[i as int]), bytes@, at as int) by {
                lemma_items_prefix::<T>(ms, i as int, bytes@, start as int);
            }
        }
        match T::read(bytes, at) {
            None => {
                return None;
            },
            Some((item, next)) => {
                let ghost m = item.model();
                items.push(item);
                proof {
                    let new_models = models(items@);
                    assert(new_models =~= old_models.push(m));
                    assert(new_models.drop_last() =~= old_models);
                    assert(items_bytes::<T>(new_models) == items_bytes::<T>(old_models) + T::bytes_of(m));
                    lemma_prefix_concat(items_bytes::<T>(old_models), T::bytes_of(m), bytes@, start as int);
                    assert forall|ms: Seq<T::Model>|
                        ms.len() == n && items_admit::<T>(ms) && #[trigger] is_prefix_at(
                            items_bytes::<T>(ms),
                            bytes@,
                            start as int,
                        ) implies ms.take(i + 1) == new_models by {
                        assert(ms[i as int] == m);
                        assert(ms.take(i + 1) =~= ms.take(i as int).push(ms[i as int]));
                    }
                }
                at = next;
                i = i + 1;
            },
        }
    }
    proof {
        let ms0 = models(items@);
        assert forall|ms: Seq<T::Model>|
            ms.len() == n && items_admit::<T>(ms) && #[trigger] is_prefix_at(
                items_bytes::<T>(ms),
                bytes@,
                start as int,
            ) implies ms == ms0 by {
            assert(ms.take(n as int) =~= ms);
        }
    }
    Some((items, at))
}

/// Reads a list from its canonical bytes at `pos`: the list whose bytes stand there, and the
/// position behind them; nothing where no list's bytes stand there.
pub fn read_list<T: Canonical>(bytes: &[u8], pos: usize) -> (r: Option<(Vec<T>, usize)>)
    ensures
        r matches Some((items, end)) ==> {
            &&& list_admits::<T>(models(items@))
            &&& end == pos + list_bytes::<T>(models(items@)).len()
            &&& is_prefix_at(list_bytes::<T>(models(items@)), bytes@, pos as int)
        },
        forall|ms: Seq<T::Model>|
            list_admits::<T>(ms) && #[trigger] is_prefix_at(list_bytes::<T>(ms), bytes@, pos as int) ==> {
                &&& r matches Some((items, end))
                &&& models(items@) == ms
            },
{
    proof {
        assert forall|ms: Seq<T::Model>|
            list_admits::<T>(ms) && #[trigger] is_prefix_at(
                list_bytes::<T>(ms),
                bytes@,
                pos as int,
            ) implies is_prefix_at(u16_le(ms.len() as u16), bytes@, pos as int) && is_prefix_at(
            items_bytes::<T>(ms),
            bytes@,
            pos + 2,
        ) by {
            lemma_prefix_concat(u16_le(ms.len() as u16), items_bytes::<T>(ms), bytes@, pos as int);
        }
    }
    let (n, start) = match get_u16(bytes, pos) {
        Some(x) => x,
        None => {
            return None;
        },
    };
    assert forall|ms: Seq<T::Model>|
        list_admits::<T>(ms) && #[trigger] is_prefix_at(list_bytes::<T>(ms), bytes@, pos as int) implies ms.len()
        == n && is_prefix_at(items_bytes::<T>(ms), bytes@, start as int) by {
        assert(ms.len() as u16 == n);
    }
    match read_items::<T>(bytes, start, n) {
        None => None,
        Some((items, end)) => {
            proof {
                lemma_prefix_concat(u16_le(n), items_bytes::<T>(models(items@)), bytes@, pos as int);
            }
            Some((items, end))
        },
    }
}

/// Whether an operation can hold `v`: no list holds more than 65535 items, and no raw data
/// more than 65535 bytes.
pub open spec fn operation_admits(v: OperationView) -> bool {
    &&& v.wf()
    &&& list_admits::<StateData>(v.immutable_out)
}

/// The canonical bytes of the outputs of an operation: the list of the destructible ones, then
/// the list of the immutable ones.
pub open spec fn outputs_bytes(v: OperationView) -> Seq<u8> {
    list_bytes::<StateCell>(v.destructible_out) + list_bytes::<StateData>(v.immutable_out)
}

/// The canonical bytes of the inputs and outputs of an operation: the list of the destructible
/// inputs, the list of the immutable ones, then the outputs.
pub open spec fn state_bytes(v: OperationView) -> Seq<u8> {
    list_bytes::<Input>(v.destructible_in) + (list_bytes::<CellAddr>(v.immutable_in) + outputs_bytes(v))
}

/// The canonical bytes of an operation from the call on: the call in two little-endian bytes,
/// the nonce, then inputs and outputs.
pub open spec fn call_bytes(v: OperationView) -> Seq<u8> {
    u16_le(v.call_id) + (v.nonce@ + state_bytes(v))
}

/// The canonical bytes of an operation: the version byte, the contract identifier, the call,
/// the nonce, and the four lists.
pub open spec fn operation_bytes(v: OperationView) -> Seq<u8> {
    zeros(1) + (v.contract_id@ + call_bytes(v))
}

/// The canonical bytes of a genesis: the version byte, the codex identifier, the call, the
/// nonce, two reserved zero bytes for each of the two lists of inputs that a genesis does not
/// have, and the outputs.
pub open spec fn genesis_bytes(codex_id: CodexId, v: OperationView) -> Seq<u8> {
    zeros(1) + (codex_id@ + (u16_le(v.call_id) + (v.nonce@ + (zeros(2) + (zeros(2) + outputs_bytes(v))))))
}

/// A genesis is written as the operation that it becomes, with the codex identifier in the
/// place of the contract identifier.
pub proof fn lemma_genesis_bytes_as_operation(genesis: Genesis, contract_id: ContractId)
    requires
        contract_id@ == genesis.codex_id@,
    ensures
        genesis_bytes(genesis.codex_id, genesis.operation_view(contract_id)) == operation_bytes(
            genesis.operation_view(contract_id),
        ),
{
    let v = genesis.operation_view(contract_id);
    assert(items_bytes::<Input>(v.destructible_in) =~= Seq::<u8>::empty());
    assert(items_bytes::<CellAddr>(v.immutable_in) =~= Seq::<u8>::empty());
    assert(list_bytes::<Input>(v.destructible_in) =~= zeros(2));
    assert(list_bytes::<CellAddr>(v.immutable_in) =~= zeros(2));
}

/// Where the bytes of an operation stand, each of its parts stands at its place.
pub proof fn lemma_operation_parts(v: OperationView, s: Seq<u8>, pos: int)
    requires
        is_prefix_at(operation_bytes(v), s, pos),
    ensures
        is_prefix_at(zeros(1), s, pos),
        is_prefix_at(v.contract_id@, s, pos + 1),
        is_prefix_at(u16_le(v.call_id), s, pos + 33),
        is_prefix_at(v.nonce@, s, pos + 35),
        is_prefix_at(state_bytes(v), s, pos + 67),
{
    lemma_prefix_concat(zeros(1), v.contract_id@ + call_bytes(v), s, pos);
    lemma_prefix_concat(v.contract_id@, call_bytes(v), s, pos + 1);
    lemma_prefix_concat(u16_le(v.call_id), v.nonce@ + state_bytes(v), s, pos + 33);
    lemma_prefix_concat(v.nonce@, state_bytes(v), s, pos + 35);
}

/// Where the bytes of inputs and outputs stand, each of the four lists stands at its place.
pub proof fn lemma_state_parts(v: OperationView, s: Seq<u8>, pos: int)
    requires
        is_prefix_at(state_bytes(v), s, pos),
    ensures
        is_prefix_at(list_bytes::<Input>(v.destructible_in), s, pos),
        is_prefix_at(
            list_bytes::<CellAddr>(v.immutable_in),
            s,
            pos + list_bytes::<Input>(v.destructible_in).len(),
        ),
        is_prefix_at(
            outputs_bytes(v),
            s,
            pos + list_bytes::<Input>(v.destructible_in).len() + list_bytes::<CellAddr>(v.immutable_in).len(),
        ),
{
    let a = list_bytes::<Input>(v.destructible_in);
    let b = list_bytes::<CellAddr>(v.immutable_in);
    lemma_prefix_concat(a, b + outputs_bytes(v), s, pos);
    lemma_prefix_concat(b, outputs_bytes(v), s, pos + a.len());
}

/// Appends the canonical bytes of the outputs of an operation to `out`.
fn write_outputs(destructible_out: &Vec<StateCell>, immutable_out: &Vec<StateData>, out: &mut Vec<u8>)
    requires
        destructible_out@.len() <= 0xFFFF,
        immutable_out@.len() <= 0xFFFF,
    ensures
        final(out)@ == old(out)@ + (list_bytes::<StateCell>(destructible_out@) + list_bytes::<StateData>(
            data_views(immutable_out@),
        )),
{
    write_list(destructible_out, out);
    write_list(immutable_out, out);
    assert(models(destructible_out@) =~= destructible_out@);
    assert(models(immutable_out@) =~= data_views(immutable_out@));
    assert(out@ =~= old(out)@ + (list_bytes::<StateCell>(destructible_out@) + list_bytes::<StateData>(
        data_views(immutable_out@),
    )));
}

/// Reads the outputs of an operation from their canonical bytes at `pos`.
fn read_outputs(bytes: &[u8], pos: usize) -> (r: Option<(Vec<StateCell>, Vec<StateData>, usize)>)
    ensures
        r matches Some((dout, iout, end)) ==> {
            &&& dout@.len() <= 0xFFFF
            &&& list_admits::<StateData>(data_views(iout@))
            &&& end == pos + (list_bytes::<StateCell>(dout@) + list_bytes::<StateData>(data_views(iout@))).len()
            &&& is_prefix_at(
                list_bytes::<StateCell>(dout@) + list_bytes::<StateData>(data_views(iout@)),
                bytes@,
                pos as int,
            )
        },
        forall|v: OperationView|
            operation_admits(v) && #[trigger] is_prefix_at(outputs_bytes(v), bytes@, pos as int) ==> {
                &&& r matches Some((dout, iout, end))
                &&& dout@ == v.destructible_out
                &&& data_views(iout@) == v.immutable_out
            },
{
    proof {
        assert forall|v: OperationView|
            operation_admits(v) && #[trigger] is_prefix_at(outputs_bytes(v), bytes@, pos as int) implies {
            &&& list_admits::<StateCell>(v.destructible_out)
            &&& is_prefix_at(list_bytes::<StateCell>(v.destructible_out), bytes@, pos as int)
            &&& is_prefix_at(
                list_bytes::<StateData>(v.immutable_out),
                bytes@,
                pos + list_bytes::<StateCell>(v.destructible_out).len(),
            )
        } by {
            lemma_prefix_concat(
                list_bytes::<StateCell>(v.destructible_out),
                list_bytes::<StateData>(v.immutable_out),
                bytes@,
                pos as int,
            );
        }
    }
    let (dout, at) = match read_list::<StateCell>(bytes, pos) {
        Some(x) => x,
        None => {
            return None;
        },
    };
    assert(models(dout@) =~= dout@);
    let (iout, end) = match read_list::<StateData>(bytes, at) {
        Some(x) => x,
        None => {
            return None;
        },
    };
    assert(models(iout@) =~= data_views(iout@));
    proof {
        lemma_prefix_concat(
            list_bytes::<StateCell>(dout@),
            list_bytes::<StateData>(data_views(iout@)),
            bytes@,
            pos as int,
        );
    }
    Some((dout, iout, end))
}

/// No raw data of a list of immutable state takes more than 65535 bytes.
pub fn raw_data_bounded(items: &Vec<StateData>)
    ensures
        forall|i: int| 0 <= i < items@.len() ==> StateData::admits(#[trigger] data_views(items@)[i]),
{
    let mut i: usize = 0;
    while i < items.len()
        invariant
            i <= items.len(),
            forall|j: int| 0 <= j < i ==> StateData::admits(#[trigger] data_views(items@)[j]),
        decreases items.len() - i,
    {
        match &items[i].raw {
            None => {},
            Some(raw) => {
                let _ = raw.as_slice();
            },
        }
        i = i + 1;
    }
}

impl Operation {
    /// Writes the operation in canonical bytes and reads it back: what comes back holds what
    /// the operation holds, and so has its identifier.
    pub fn recode(&self) -> (r: Operation)
        requires
            self@.wf(),
        ensures
            r@ == self@,
            r@.opid() == self@.opid(),
    {
        let mut out: Vec<u8> = Vec::new();
        self.encode(&mut out);
        raw_data_bounded(&self.immutable_out);
        proof {
            assert(out@ =~= operation_bytes(self@));
            assert(out@.subrange(0, out@.len() as int) =~= out@);
            assert(is_prefix_at(operation_bytes(self@), out@, 0));
            assert(operation_admits(self@));
        }
        match Operation::decode(out.as_slice(), 0) {
            Some((op, _)) => op,
            None => self.copy(),
        }
    }

    /// Appends the canonical bytes of the operation to `out`.
    pub fn encode(&self, out: &mut Vec<u8>)
        requires
            self@.wf(),
        ensures
            final(out)@ == old(out)@ + operation_bytes(self@),
    {
        self.version.encode(out);
        put_slice(out, self.contract_id.bytes.as_slice());
        put_u16(out, self.call_id);
        put_slice(out, self.nonce.bytes.as_slice());
        let ghost head = out@;
        assert(head =~= old(out)@ + zeros(1) + self@.contract_id@ + u16_le(self@.call_id) + self@.nonce@);
        write_list(&self.destructible_in, out);
        write_list(&self.immutable_in, out);
        assert(models(self.destructible_in@) =~= self@.destructible_in);
        assert(models(self.immutable_in@) =~= self@.immutable_in);
        let ghost mid = out@;
        assert(mid =~= head + list_bytes::<Input>(self@.destructible_in) + list_bytes::<CellAddr>(
            self@.immutable_in,
        ));
        write_outputs(&self.destructible_out, &self.immutable_out, out);
        assert(out@ == mid + outputs_bytes(self@));
        assert(out@ =~= head + state_bytes(self@));
        assert(out@ =~= old(out)@ + operation_bytes(self@));
    }

    /// Reads an operation from its canonical bytes at `pos`: the operation whose bytes stand
    /// there, and the position behind them; nothing where no operation's bytes stand there.
    pub fn decode(bytes: &[u8], pos: usize) -> (r: Option<(Operation, usize)>)
        ensures
            r matches Some((op, end)) ==> {
                &&& operation_admits(op@)
                &&& end == pos + operation_bytes(op@).len()
                &&& is_prefix_at(operation_bytes(op@), bytes@, pos as int)
            },
            forall|v: OperationView|
                operation_admits(v) && #[trigger] is_prefix_at(operation_bytes(v), bytes@, pos as int) ==> {
                    &&& r matches Some((op, end))
                    &&& op@ == v
                },
    {
        proof {
            assert forall|v: OperationView|
                operation_admits(v) && #[trigger] is_prefix_at(operation_bytes(v), bytes@, pos as int) implies {
                &&& pos < bytes@.len()
                &&& bytes@[pos as int] == 0
                &&& is_prefix_at(v.contract_id.bytes@, bytes@, pos + 1)
                &&& is_prefix_at(u16_le(v.call_id), bytes@, pos + 33)
                &&& is_prefix_at(v.nonce.bytes@, bytes@, pos + 35)
                &&& list_admits::<Input>(v.destructible_in)
                &&& list_admits::<CellAddr>(v.immutable_in)
                &&& is_prefix_at(list_bytes::<Input>(v.destructible_in), bytes@, pos + 67)
                &&& is_prefix_at(
                    list_bytes::<CellAddr>(v.immutable_in),
                    bytes@,
                    pos + 67 + list_bytes::<Input>(v.destructible_in).len(),
                )
                &&& is_prefix_at(
                    outputs_bytes(v),
                    bytes@,
                    pos + 67 + list_bytes::<Input>(v.destructible_in).len() + list_bytes::<CellAddr>(
                        v.immutable_in,
                    ).len(),
                )
            } by {
                lemma_operation_parts(v, bytes@, pos as int);
                lemma_state_parts(v, bytes@, pos + 67);
                assert(bytes@.subrange(pos as int, pos + 1)[0] == zeros(1)[0]);
            }
        }
        if pos >= bytes.len() || bytes[pos] != 0 {
            return None;
        }
        let (contract_id, at1) = match get_bytes32(bytes, pos + 1) {
            Some(x) => x,
            None => {
                return None;
            },
        };
        let (call_id, at2) = match get_u16(bytes, at1) {
            Some(x) => x,
            None => {
                return None;
            },
        };
        let (nonce, at3) = match get_bytes32(bytes, at2) {
            Some(x) => x,
            None => {
                return None;
            },
        };
        let (destructible_in, at4) = match read_list::<Input>(bytes, at3) {
            Some(x) => x,
            None => {
                return None;
            },
        };
        assert(models(destructible_in@) =~= destructible_in@);
        let (immutable_in, at5) = match read_list::<CellAddr>(bytes, at4) {
            Some(x) => x,
            None => {
                return None;
            },
        };
        assert(models(immutable_in@) =~= immutable_in@);
        let (destructible_out, immutable_out, end) = match read_outputs(bytes, at5) {
            Some(x) => x,
            None => {
                return None;
            },
        };
        let op = Operation {
            version: ReservedBytes::new(),
            contract_id: ContractId { bytes: contract_id },
            call_id,
            nonce: Fe256 { bytes: nonce },
            destructible_in,
            immutable_in,
            destructible_out,
            immutable_out,
        };
        proof {
            let v = op@;
            assert(bytes@.subrange(pos as int, pos + 1) =~= zeros(1));
            let a = list_bytes::<Input>(v.destructible_in);
            let b = list_bytes::<CellAddr>(v.immutable_in);
            lemma_prefix_concat(b, outputs_bytes(v), bytes@, at4 as int);
            lemma_prefix_concat(a, b + outputs_bytes(v), bytes@, at3 as int);
            lemma_prefix_concat(v.nonce@, state_bytes(v), bytes@, at2 as int);
            lemma_prefix_concat(u16_le(v.call_id), v.nonce@ + state_bytes(v), bytes@, at1 as int);
            lemma_prefix_concat(v.contract_id@, call_bytes(v), bytes@, pos + 1);
            lemma_prefix_concat(zeros(1), v.contract_id@ + call_bytes(v), bytes@, pos as int);
            assert forall|w: OperationView|
                operation_admits(w) && #[trigger] is_prefix_at(operation_bytes(w), bytes@, pos as int) implies w
                == v by {
                assert(w.contract_id.bytes == contract_id);
                assert(w.nonce.bytes == nonce);
                assert(w.destructible_in == v.destructible_in);
                assert(w.immutable_in == v.immutable_in);
                assert(is_prefix_at(outputs_bytes(w), bytes@, at5 as int));
            }
        }
        Some((op, end))
    }
}

impl Genesis {
    /// Appends the canonical bytes of the genesis to `out`.
    pub fn encode(&self, out: &mut Vec<u8>)
        requires
            self.wf(),
        ensures
            forall|contract_id: ContractId|
                final(out)@ == old(out)@ + #[trigger] genesis_bytes(
                    self.codex_id,
                    self.operation_view(contract_id),
                ),
    {
        self.version.encode(out);
        put_slice(out, self.codex_id.bytes.as_slice());
        put_u16(out, self.call_id);
        put_slice(out, self.nonce.bytes.as_slice());
        self.blank1.encode(out);
        self.blank2.encode(out);
        let ghost head = out@;
        assert(head =~= old(out)@ + zeros(1) + self.codex_id@ + u16_le(self.call_id) + self.nonce@ + zeros(2)
            + zeros(2));
        write_outputs(&self.destructible_out, &self.immutable_out, out);
        assert forall|contract_id: ContractId|
            out@ == old(out)@ + #[trigger] genesis_bytes(self.codex_id, self.operation_view(contract_id)) by {
            let v = self.operation_view(contract_id);
            assert(out@ == head + outputs_bytes(v));
            assert(out@ =~= old(out)@ + genesis_bytes(self.codex_id, v));
        }
    }

    /// Reads a genesis from its canonical bytes at `pos`: the genesis whose bytes stand there,
    /// and the position behind them; nothing where no genesis's bytes stand there.
    pub fn decode(bytes: &[u8], pos: usize) -> (r: Option<(Genesis, usize)>)
        ensures
            r matches Some((genesis, end)) ==> {
                &&& genesis.wf()
                &&& forall|contract_id: ContractId|
                    is_prefix_at(
                        #[trigger] genesis_bytes(genesis.codex_id, genesis.operation_view(contract_id)),
                        bytes@,
                        pos as int,
                    ) && end == pos + genesis_bytes(genesis.codex_id, genesis.operation_view(contract_id)).len()
            },
            forall|other: Genesis, contract_id: ContractId|
                operation_admits(other.operation_view(contract_id)) && #[trigger] is_prefix_at(
                    genesis_bytes(other.codex_id, other.operation_view(contract_id)),
                    bytes@,
                    pos as int,
                ) ==> {
                    &&& r matches Some((genesis, end))
                    &&& genesis.codex_id == other.codex_id
                    &&& genesis.operation_view(contract_id) == other.operation_view(contract_id)
                },
    {
        match Operation::decode(bytes, pos) {
            None => {
                proof {
                    assert forall|other: Genesis, contract_id: ContractId|
                        operation_admits(other.operation_view(contract_id)) && #[trigger] is_prefix_at(
                            genesis_bytes(other.codex_id, other.operation_view(contract_id)),
                            bytes@,
                            pos as int,
                        ) implies false by {
                        let cid = ContractId { bytes: other.codex_id.bytes };
                        lemma_genesis_bytes_as_operation(other, cid);
                        assert(operation_admits(other.operation_view(cid)));
                        assert(outputs_bytes(other.operation_view(cid)) == outputs_bytes(
                            other.operation_view(contract_id),
                        ));
                        assert(genesis_bytes(other.codex_id, other.operation_view(cid)) == genesis_bytes(
                            other.codex_id,
                            other.operation_view(contract_id),
                        ));
                        assert(is_prefix_at(operation_bytes(other.operation_view(cid)), bytes@, pos as int));
                    }
                }
                None
            },
            Some((op, end)) => {
                if op.destructible_in.len() != 0 || op.immutable_in.len() != 0 {
                    proof {
                        assert forall|other: Genesis, contract_id: ContractId|
                            operation_admits(other.operation_view(contract_id)) && #[trigger] is_prefix_at(
                                genesis_bytes(other.codex_id, other.operation_view(contract_id)),
                                bytes@,
                                pos as int,
                            ) implies false by {
                            let cid = ContractId { bytes: other.codex_id.bytes };
                            lemma_genesis_bytes_as_operation(other, cid);
                            assert(operation_admits(other.operation_view(cid)));
                            assert(genesis_bytes(other.codex_id, other.operation_view(cid)) == genesis_bytes(
                                other.codex_id,
                                other.operation_view(contract_id),
                            ));
                            assert(is_prefix_at(operation_bytes(other.operation_view(cid)), bytes@, pos as int));
                            assert(op@ == other.operation_view(cid));
                        }
                    }
                    return None;
                }
                let genesis = Genesis {
                    version: ReservedBytes::new(),
                    codex_id: CodexId { bytes: op.contract_id.bytes },
                    call_id: op.call_id,
                    nonce: op.nonce,
                    blank1: ReservedBytes::new(),
                    blank2: ReservedBytes::new(),
                    destructible_out: op.destructible_out,
                    immutable_out: op.immutable_out,
                };
                proof {
                    let own = ContractId { bytes: genesis.codex_id.bytes };
                    assert(op@.destructible_in =~= Seq::<Input>::empty());
                    assert(op@.immutable_in =~= Seq::<CellAddr>::empty());
                    assert(genesis.operation_view(own) == op@);
                    lemma_genesis_bytes_as_operation(genesis, own);
                    assert forall|contract_id: ContractId|
                        is_prefix_at(
                            #[trigger] genesis_bytes(genesis.codex_id, genesis.operation_view(contract_id)),
                            bytes@,
                            pos as int,
                        ) && end == pos + genesis_bytes(
                            genesis.codex_id,
                            genesis.operation_view(contract_id),
                        ).len() by {
                        assert(genesis_bytes(genesis.codex_id, genesis.operation_view(contract_id))
                            == genesis_bytes(genesis.codex_id, genesis.operation_view(own)));
                    }
                    assert forall|other: Genesis, contract_id: ContractId|
                        operation_admits(other.operation_view(contract_id)) && #[trigger] is_prefix_at(
                            genesis_bytes(other.codex_id, other.operation_view(contract_id)),
                            bytes@,
                            pos as int,
                        ) implies genesis.codex_id == other.codex_id && genesis.operation_view(contract_id)
                        == other.operation_view(contract_id) by {
                        let cid = ContractId { bytes: other.codex_id.bytes };
                        lemma_genesis_bytes_as_operation(other, cid);
                        assert(operation_admits(other.operation_view(cid)));
                        assert(genesis_bytes(other.codex_id, other.operation_view(cid)) == genesis_bytes(
                            other.codex_id,
                            other.operation_view(contract_id),
                        ));
                        assert(is_prefix_at(operation_bytes(other.operation_view(cid)), bytes@, pos as int));
                        assert(op@ == other.operation_view(cid));
                        assert(genesis.codex_id.bytes == other.codex_id.bytes);
                    }
                }
                Some((genesis, end))
            },
        }
    }
}

} // verus!
