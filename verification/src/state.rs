//! Contract state: values, destructible cells, immutable data, tokens of authority.

use vstd::prelude::*;
use crate::bytes::{get_bytes32, is_prefix_at, u16_le, put_u16, put_slice, zeros};
use crate::commit::{merkle_leaf_hash, merkle_leaf_sha256, strict_hash, strict_sha256};
use crate::fe::Fe256;
use crate::site::LibSite;
use crate::text::{baid64_string, TextForm};

verus! {

/// Human-readable identifier in the text of an authorization token.
pub const AUTH_HRI: &'static str = "at";

/// Authorization token that controls the access to a destructible memory cell.
///
/// The token is a field element. A token made from 30 bytes holds them as its low bytes and has
/// two zero bytes on top.
#[derive(Clone, Copy, PartialEq, Eq, Hash, Debug)]
pub struct AuthToken(pub Fe256);

impl AuthToken {
    /// Whether the token stands for 30 bytes: its two top bytes are zero.
    pub open spec fn is_bytes30(&self) -> bool {
        self.0@[30] == 0 && self.0@[31] == 0
    }

    /// The token as a field element.
    pub open spec fn to_fe256_spec(&self) -> Fe256 {
        self.0
    }

    /// The integer that the token stands for.
    pub open spec fn as_nat(&self) -> nat {
        self.0.as_nat()
    }

    /// The token that is the field element `fe`.
    pub fn from_fe256(fe: Fe256) -> (r: Self)
        ensures
            r.0 == fe,
    {
        AuthToken(fe)
    }

    /// The token as a field element.
    pub fn to_fe256(&self) -> (r: Fe256)
        ensures
            r == self.0,
    {
        self.0
    }

    /// The token made of 30 bytes of raw data.
    pub fn from_byte_array(bytes: [u8; 30]) -> (r: Self)
        ensures
            r.0@ == bytes@ + zeros(2),
            r.is_bytes30(),
    {
        let mut buf = [0u8; 32];
        let mut i: usize = 0;
        while i < 30
            invariant
                i <= 30,
                forall|j: int| 0 <= j < i ==> buf@[j] == bytes@[j],
                forall|j: int| i <= j < 32 ==> buf@[j] == 0u8,
            decreases 30 - i,
        {
            buf[i] = bytes[i];
            i = i + 1;
        }
        let r = AuthToken(Fe256::from_le_bytes(buf));
        assert(r.0@ =~= bytes@ + zeros(2));
        r
    }

    /// The 30 low bytes of the token.
    pub fn to_byte_array(&self) -> (r: [u8; 30])
        ensures
            r@ == self.0@.take(30),
    {
        let mut buf = [0u8; 30];
        let mut i: usize = 0;
        while i < 30
            invariant
                i <= 30,
                forall|j: int| 0 <= j < i ==> buf@[j] == self.0.bytes@[j],
            decreases 30 - i,
        {
            buf[i] = self.0.bytes[i];
            i = i + 1;
        }
        assert(buf@ =~= self.0@.take(30));
        buf
    }

    /// How the token is written by default: with the prefix, in chunks of eight characters,
    /// with the checksum inside, without mnemonic.
    pub open spec fn text_form_spec() -> TextForm {
        TextForm {
            chunking: true,
            chunk_first: 8,
            chunk_len: 8,
            prefix: true,
            mnemonic: false,
            embed_checksum: true,
        }
    }

    /// How the value is written by default.
    pub fn text_form() -> (r: TextForm)
        ensures
            r == Self::text_form_spec(),
            r.fits(30),
    {
        TextForm {
            chunking: true,
            chunk_first: 8,
            chunk_len: 8,
            prefix: true,
            mnemonic: false,
            embed_checksum: true,
        }
    }

    /// The text of the token in the form `form`: that of its 30 low bytes.
    pub open spec fn text(&self, form: TextForm) -> Seq<char> {
        form.text_of(AUTH_HRI@, self.0@.take(30))
    }

    /// The token as text, in its default form.
    pub fn to_baid64_string(&self) -> (r: String)
        ensures
            r@ == self.text(Self::text_form_spec()),
    {
        self.to_baid64_string_as(Self::text_form())
    }

    /// The token as text, in the form `form`.
    pub fn to_baid64_string_as(&self, form: TextForm) -> (r: String)
        requires
            form.fits(30),
        ensures
            r@ == self.text(form),
    {
        proof {
            reveal_strlit("at");
        }
        baid64_string(AUTH_HRI, self.to_byte_array(), form)
    }

    /// Whether `self` comes before `other` in the order of the 256-bit integers that the two
    /// tokens stand for. This order serves host data structures only.
    pub fn is_below(&self, other: &AuthToken) -> (r: bool)
        ensures
            r == (self.0.as_nat() < other.0.as_nat()),
    {
        self.0.is_below(&other.0)
    }
}

/// A token made from 30 bytes gives them back.
pub proof fn lemma_auth_token_bytes_round_trip(bytes: [u8; 30], token: AuthToken)
    requires
        token.0@ == bytes@ + zeros(2),
    ensures
        token.0@.take(30) == bytes@,
{
    assert(token.0@.take(30) =~= bytes@);
}

/// A token that stands for 30 bytes is the token made from its own 30 low bytes.
pub proof fn lemma_auth_token_round_trip(token: AuthToken)
    requires
        token.is_bytes30(),
    ensures
        token.0@ == token.0@.take(30) + zeros(2),
{
    assert(token.0@ =~= token.0@.take(30) + zeros(2));
}

/// A value stored in a single memory cell: up to four field elements.
#[derive(Clone, Copy, PartialEq, Eq, Hash, Debug, Default)]
pub enum StateValue {
    /// A unit value.
    #[default]
    Unit,
    /// A single field element.
    Single { first: Fe256 },
    /// A tuple of two field elements.
    Double { first: Fe256, second: Fe256 },
    /// A tuple of three field elements.
    Triple { first: Fe256, second: Fe256, third: Fe256 },
    /// A tuple of four field elements.
    Quadripple { first: Fe256, second: Fe256, third: Fe256, fourth: Fe256 },
}

impl View for StateValue {
    type V = Seq<Fe256>;

    /// The elements of the value, in order.
    open spec fn view(&self) -> Seq<Fe256> {
        match *self {
            StateValue::Unit => seq![],
            StateValue::Single { first } => seq![first],
            StateValue::Double { first, second } => seq![first, second],
            StateValue::Triple { first, second, third } => seq![first, second, third],
            StateValue::Quadripple { first, second, third, fourth } => seq![first, second, third, fourth],
        }
    }
}

impl StateValue {
    /// The value that holds the elements of `items`, in order.
    pub open spec fn of(items: Seq<Fe256>) -> StateValue
        recommends
            items.len() <= 4,
    {
        if items.len() == 0 {
            StateValue::Unit
        } else if items.len() == 1 {
            StateValue::Single { first: items[0] }
        } else if items.len() == 2 {
            StateValue::Double { first: items[0], second: items[1] }
        } else if items.len() == 3 {
            StateValue::Triple { first: items[0], second: items[1], third: items[2] }
        } else {
            StateValue::Quadripple { first: items[0], second: items[1], third: items[2], fourth: items[3] }
        }
    }

    /// The element at `pos`, if the value has one there.
    pub open spec fn get_spec(&self, pos: int) -> Option<Fe256> {
        if 0 <= pos < self@.len() {
            Some(self@[pos])
        } else {
            None
        }
    }

    /// The value that holds the elements of `items`, in order.
    pub fn from_iter(items: &[Fe256]) -> (r: Self)
        requires
            items@.len() <= 4,
        ensures
            r@ == items@,
            r == Self::of(items@),
    {
        let len = items.len();
        let first = if len > 0 { Some(items[0]) } else { None };
        let second = if len > 1 { Some(items[1]) } else { None };
        let third = if len > 2 { Some(items[2]) } else { None };
        let fourth = if len > 3 { Some(items[3]) } else { None };
        let r = match (first, second, third, fourth) {
            (Some(first), Some(second), Some(third), Some(fourth)) => StateValue::Quadripple {
                first,
                second,
                third,
                fourth,
            },
            (Some(first), Some(second), Some(third), _) => StateValue::Triple { first, second, third },
            (Some(first), Some(second), _, _) => StateValue::Double { first, second },
            (Some(first), _, _, _) => StateValue::Single { first },
            _ => StateValue::Unit,
        };
        assert(r@ =~= items@);
        r
    }

    /// A value of two elements: a type `ty` and data `val`.
    pub fn new(ty: Fe256, val: Fe256) -> (r: Self)
        ensures
            r == (StateValue::Double { first: ty, second: val }),
    {
        StateValue::Double { first: ty, second: val }
    }

    /// The number of elements in the value.
    pub fn len(&self) -> (r: u8)
        ensures
            r == self@.len(),
            r <= 4,
    {
        match *self {
            StateValue::Unit => 0,
            StateValue::Single { .. } => 1,
            StateValue::Double { .. } => 2,
            StateValue::Triple { .. } => 3,
            StateValue::Quadripple { .. } => 4,
        }
    }

    /// The element at `pos`, if the value has one there.
    pub fn get(&self, pos: u8) -> (r: Option<Fe256>)
        ensures
            r == self.get_spec(pos as int),
            r is Some <==> pos < self@.len(),
    {
        match (*self, pos) {
            (StateValue::Single { first }, 0)
            | (StateValue::Double { first, .. }, 0)
            | (StateValue::Triple { first, .. }, 0)
            | (StateValue::Quadripple { first, .. }, 0) => Some(first),
            (StateValue::Double { second, .. }, 1)
            | (StateValue::Triple { second, .. }, 1)
            | (StateValue::Quadripple { second, .. }, 1) => Some(second),
            (StateValue::Triple { third, .. }, 2) | (StateValue::Quadripple { third, .. }, 2) => Some(
                third,
            ),
            (StateValue::Quadripple { fourth, .. }, 3) => Some(fourth),
            _ => None,
        }
    }

    /// The elements of the value, in order.
    pub fn to_vec(&self) -> (r: Vec<Fe256>)
        ensures
            r@ == self@,
    {
        let r = match *self {
            StateValue::Unit => Vec::new(),
            StateValue::Single { first } => vec![first],
            StateValue::Double { first, second } => vec![first, second],
            StateValue::Triple { first, second, third } => vec![first, second, third],
            StateValue::Quadripple { first, second, third, fourth } => vec![first, second, third, fourth],
        };
        assert(r@ =~= self@);
        r
    }

    /// The bytes of the elements of `items`, one element after the other.
    pub open spec fn element_bytes(items: Seq<Fe256>) -> Seq<u8>
        decreases items.len(),
    {
        if items.len() == 0 {
            seq![]
        } else {
            Self::element_bytes(items.drop_last()) + items.last()@
        }
    }

    /// Canonical bytes: the number of elements in one byte, then each element's 32 bytes.
    pub open spec fn encoding(&self) -> Seq<u8> {
        seq![self@.len() as u8] + Self::element_bytes(self@)
    }

    /// Reads a value from its canonical bytes at `pos`: the value whose bytes stand there, and
    /// the position behind them; nothing where no value's bytes stand there.
    pub fn decode(bytes: &[u8], pos: usize) -> (r: Option<(StateValue, usize)>)
        ensures
            r matches Some((v, end)) ==> end == pos + v.encoding().len() && is_prefix_at(
                v.encoding(),
                bytes@,
                pos as int,
            ),
            forall|v: StateValue| #[trigger]
                is_prefix_at(v.encoding(), bytes@, pos as int) ==> r == Some(
                    (v, (pos + v.encoding().len()) as usize),
                ),
    {
        if pos >= bytes.len() {
            assert forall|v: StateValue| #[trigger]
                is_prefix_at(v.encoding(), bytes@, pos as int) implies false by {
                assert(v.encoding().len() >= 1);
            }
            return None;
        }
        let n = bytes[pos];
        if n > 4 || bytes.len() - pos - 1 < 32 * (n as usize) {
            assert forall|v: StateValue| #[trigger]
                is_prefix_at(v.encoding(), bytes@, pos as int) implies false by {
                lemma_element_bytes(v@);
                assert(v.encoding()[0] == bytes@.subrange(pos as int, pos + v.encoding().len())[0]);
            }
            return None;
        }
        let mut items: Vec<Fe256> = Vec::new();
        let mut at: usize = pos + 1;
        let mut i: u8 = 0;
        while i < n
            invariant
                i <= n,
                n <= 4,
                pos + 1 + 32 * n <= bytes.len(),
                at == pos + 1 + 32 * i,
                items@.len() == i,
                forall|j: int| 0 <= j < i ==> (#[trigger] items@[j])@ == bytes@.subrange(
                    pos + 1 + 32 * j,
                    pos + 1 + 32 * j + 32,
                ),
            decreases n - i,
        {
            let (el, next) = get_bytes32(bytes, at).unwrap();
            items.push(Fe256::from_le_bytes(el));
            at = next;
            i = i + 1;
        }
        let value = StateValue::from_iter(items.as_slice());
        proof {
            lemma_element_bytes(value@);
            let e = value.encoding();
            let eb = StateValue::element_bytes(value@);
            assert(e.len() == 1 + 32 * n);
            assert forall|k: int| 0 <= k < e.len() implies bytes@[pos + k] == e[k] by {
                if k > 0 {
                    let j = (k - 1) / 32;
                    let o = (k - 1) % 32;
                    assert(eb.subrange(32 * j, 32 * j + 32)[o] == eb[32 * j + o]);
                    assert(bytes@.subrange(pos + 1 + 32 * j, pos + 1 + 32 * j + 32)[o] == bytes@[pos + 1 + 32
                        * j + o]);
                    assert(value@[j]@ == items@[j]@);
                }
            }
            assert(bytes@.subrange(pos as int, pos + e.len()) =~= e);
            assert forall|v: StateValue| #[trigger]
                is_prefix_at(v.encoding(), bytes@, pos as int) implies v == value by {
                lemma_element_bytes(v@);
                let ev = v.encoding();
                assert(ev[0] == bytes@.subrange(pos as int, pos + ev.len())[0]);
                assert(v@.len() == n);
                assert(ev.len() == e.len());
                lemma_state_value_encoding_injective(v, value);
            }
        }
        Some((value, at))
    }

    /// Appends the canonical bytes to `out`.
    pub fn encode(&self, out: &mut Vec<u8>)
        ensures
            final(out)@ == old(out)@ + self.encoding(),
    {
        let n = self.len();
        out.push(n);
        let mut i: u8 = 0;
        assert(out@ =~= old(out)@ + seq![n] + Self::element_bytes(self@.take(0)));
        while i < n
            invariant
                i <= n,
                n == self@.len(),
                out@ == old(out)@ + seq![n] + Self::element_bytes(self@.take(i as int)),
            decreases n - i,
        {
            let el = self.get(i).unwrap();
            put_slice(out, el.bytes.as_slice());
            i = i + 1;
            proof {
                let t = self@.take(i as int);
                assert(t.drop_last() =~= self@.take(i - 1));
                assert(t.last() == el);
                assert(out@ =~= old(out)@ + seq![n] + Self::element_bytes(t));
            }
        }
        assert(self@.take(n as int) =~= self@);
        assert(out@ =~= old(out)@ + self.encoding());
    }
}

/// The bytes of a list of elements take 32 bytes for each, and each element stands at its place.
pub proof fn lemma_element_bytes(items: Seq<Fe256>)
    ensures
        StateValue::element_bytes(items).len() == 32 * items.len(),
        forall|i: int|
            0 <= i < items.len() ==> #[trigger] StateValue::element_bytes(items).subrange(32 * i, 32 * i + 32)
                == items[i]@,
    decreases items.len(),
{
    if items.len() > 0 {
        let head = items.drop_last();
        lemma_element_bytes(head);
        let all = StateValue::element_bytes(items);
        assert(all == StateValue::element_bytes(head) + items.last()@);
        assert forall|i: int| 0 <= i < items.len() implies #[trigger] all.subrange(32 * i, 32 * i + 32)
            == items[i]@ by {
            if i < items.len() - 1 {
                assert(all.subrange(32 * i, 32 * i + 32) =~= StateValue::element_bytes(head).subrange(
                    32 * i,
                    32 * i + 32,
                ));
                assert(head[i] == items[i]);
            } else {
                assert(all.subrange(32 * i, 32 * i + 32) =~= items.last()@);
            }
        }
    }
}

/// Canonical bytes tell values apart.
pub proof fn lemma_state_value_encoding_injective(a: StateValue, b: StateValue)
    requires
        a.encoding() == b.encoding(),
    ensures
        a == b,
{
    lemma_element_bytes(a@);
    lemma_element_bytes(b@);
    let ea = StateValue::element_bytes(a@);
    let eb = StateValue::element_bytes(b@);
    lemma_state_value_of_view(a);
    lemma_state_value_of_view(b);
    assert(a.encoding()[0] == a@.len() as u8);
    assert(b.encoding()[0] == b@.len() as u8);
    assert(a@.len() == b@.len());
    assert(ea =~= a.encoding().skip(1));
    assert(eb =~= b.encoding().skip(1));
    assert forall|j: int| 0 <= j < a@.len() implies a@[j] == b@[j] by {
        assert(ea.subrange(32 * j, 32 * j + 32) == a@[j]@);
        assert(eb.subrange(32 * j, 32 * j + 32) == b@[j]@);
        assert(a@[j].bytes =~= b@[j].bytes);
    }
    assert(a@ =~= b@);
    lemma_state_value_of_view(a);
    lemma_state_value_of_view(b);
}

/// A value made from a list of at most four elements holds that list.
pub proof fn lemma_state_value_of(items: Seq<Fe256>)
    requires
        items.len() <= 4,
    ensures
        StateValue::of(items)@ == items,
{
    assert(StateValue::of(items)@ =~= items);
}

/// A value is the value made from its own elements.
pub proof fn lemma_state_value_of_view(v: StateValue)
    ensures
        StateValue::of(v@) == v,
        v@.len() <= 4,
{
}

/// Read-once, access-controlled memory cell: the destructible part of the contract state.
#[derive(Clone, Copy, PartialEq, Eq, Hash, Debug)]
pub struct StateCell {
    /// Value stored in the memory cell.
    pub data: StateValue,
    /// Token of authority controlling the access to the memory cell.
    pub auth: AuthToken,
    /// Further access conditions: a script that has to succeed before the cell is consumed.
    pub lock: Option<LibSite>,
}

/// Canonical bytes of an optional script position: a zero byte for none, else a one byte and the
/// position's bytes.
pub open spec fn lock_encoding(lock: Option<LibSite>) -> Seq<u8> {
    match lock {
        None => seq![0u8],
        Some(site) => seq![1u8] + site.encoding(),
    }
}

impl StateCell {
    /// Canonical bytes: the data, the token, the lock.
    pub open spec fn encoding(&self) -> Seq<u8> {
        self.data.encoding() + self.auth.0@ + lock_encoding(self.lock)
    }

    /// The cell as a leaf of a Merkle tree: the tagged hash of its canonical bytes.
    pub open spec fn leaf(&self) -> Seq<u8> {
        merkle_leaf_sha256(self.encoding())
    }

    /// Appends the canonical bytes to `out`.
    pub fn encode(&self, out: &mut Vec<u8>)
        ensures
            final(out)@ == old(out)@ + self.encoding(),
    {
        self.data.encode(out);
        put_slice(out, self.auth.0.bytes.as_slice());
        match self.lock {
            None => {
                out.push(0u8);
            },
            Some(site) => {
                out.push(1u8);
                site.encode(out);
            },
        }
        assert(out@ =~= old(out)@ + self.encoding());
    }

    /// The cell as a leaf of a Merkle tree.
    pub fn merkle_leaf(&self) -> (r: [u8; 32])
        ensures
            r@ == self.leaf(),
    {
        let mut out: Vec<u8> = Vec::new();
        self.encode(&mut out);
        assert(out@ =~= self.encoding());
        merkle_leaf_hash(out.as_slice())
    }
}

/// Raw data of an immutable memory cell: at most 65535 bytes, which no script can read.
#[derive(PartialEq, Eq, Hash, Debug)]
pub struct RawData {
    bytes: Vec<u8>,
}

impl View for RawData {
    type V = Seq<u8>;

    closed spec fn view(&self) -> Seq<u8> {
        self.bytes@
    }
}

impl Clone for RawData {
    fn clone(&self) -> (r: Self)
        ensures
            r@ == self@,
    {
        self.copy()
    }
}

impl RawData {
    #[verifier::type_invariant]
    spec fn bounded(&self) -> bool {
        self.bytes@.len() <= 0xFFFF
    }

    /// The raw data that holds `bytes`; none where there are more than 65535 of them.
    pub fn from_vec(bytes: Vec<u8>) -> (r: Option<Self>)
        ensures
            r is Some <==> bytes@.len() <= 0xFFFF,
            r is Some ==> r->0@ == bytes@,
    {
        if bytes.len() <= 0xFFFF {
            Some(RawData { bytes })
        } else {
            None
        }
    }

    /// The bytes of the data.
    pub fn as_slice(&self) -> (r: &[u8])
        ensures
            r@ == self@,
            r@.len() <= 0xFFFF,
    {
        proof {
            use_type_invariant(self);
        }
        self.bytes.as_slice()
    }

    /// A copy of the data.
    pub fn copy(&self) -> (r: Self)
        ensures
            r@ == self@,
    {
        proof {
            use_type_invariant(self);
        }
        let mut bytes: Vec<u8> = Vec::new();
        put_slice(&mut bytes, self.bytes.as_slice());
        assert(bytes@ =~= self.bytes@);
        RawData { bytes }
    }

    /// Canonical bytes of raw data `bytes`: their number in two little-endian bytes, then the
    /// bytes.
    pub open spec fn encoding_of(bytes: Seq<u8>) -> Seq<u8> {
        u16_le(bytes.len() as u16) + bytes
    }

    /// The identifier of raw data `bytes`: the tagged hash of its canonical bytes.
    pub open spec fn id_of(bytes: Seq<u8>) -> Seq<u8> {
        strict_sha256(Self::encoding_of(bytes))
    }

    /// Appends the canonical bytes to `out`.
    pub fn encode(&self, out: &mut Vec<u8>)
        ensures
            final(out)@ == old(out)@ + Self::encoding_of(self@),
    {
        let s = self.as_slice();
        put_u16(out, s.len() as u16);
        put_slice(out, s);
        assert(out@ =~= old(out)@ + Self::encoding_of(self@));
    }

    /// The identifier of the data: the one thing of it that enters a commitment.
    pub fn commit_id(&self) -> (r: [u8; 32])
        ensures
            r@ == Self::id_of(self@),
    {
        let mut out: Vec<u8> = Vec::new();
        self.encode(&mut out);
        assert(out@ =~= Self::encoding_of(self@));
        strict_hash(out.as_slice())
    }
}

/// What a `StateData` holds: the value and the bytes of the raw data.
pub ghost struct StateDataView {
    pub value: StateValue,
    pub raw: Option<Seq<u8>>,
}

impl StateDataView {
    /// What enters a commitment: the value's canonical bytes, then a zero byte where there is no
    /// raw data, else the identifier of the raw data.
    pub open spec fn commitment(&self) -> Seq<u8> {
        self.value.encoding() + match self.raw {
            None => seq![0u8],
            Some(bytes) => RawData::id_of(bytes),
        }
    }

    /// The data as a leaf of a Merkle tree: the tagged hash of what enters a commitment.
    pub open spec fn leaf(&self) -> Seq<u8> {
        merkle_leaf_sha256(self.commitment())
    }
}

/// State kept in an immutable memory cell.
#[derive(PartialEq, Eq, Hash, Debug)]
pub struct StateData {
    /// The part of the state that scripts can read, in the form of field elements.
    pub value: StateValue,
    /// Optional raw state, which scripts cannot read.
    pub raw: Option<RawData>,
}

impl View for StateData {
    type V = StateDataView;

    open spec fn view(&self) -> StateDataView {
        StateDataView {
            value: self.value,
            raw: match self.raw {
                None => None,
                Some(raw) => Some(raw@),
            },
        }
    }
}

impl Clone for StateData {
    fn clone(&self) -> (r: Self)
        ensures
            r@ == self@,
    {
        self.copy()
    }
}

impl StateData {
    /// State of two elements, a type `ty` and data `val`, without raw data.
    pub fn new(ty: Fe256, val: Fe256) -> (r: Self)
        ensures
            r@ == (StateDataView { value: StateValue::Double { first: ty, second: val }, raw: None }),
    {
        StateData { value: StateValue::new(ty, val), raw: None }
    }

    /// State of two elements, a type `ty` and data `val`, with raw data.
    pub fn with_raw(ty: Fe256, val: Fe256, raw: RawData) -> (r: Self)
        ensures
            r@ == (StateDataView {
                value: StateValue::Double { first: ty, second: val },
                raw: Some(raw@),
            }),
    {
        StateData { value: StateValue::new(ty, val), raw: Some(raw) }
    }

    /// A copy of the state.
    pub fn copy(&self) -> (r: Self)
        ensures
            r@ == self@,
    {
        let raw = match &self.raw {
            None => None,
            Some(raw) => Some(raw.copy()),
        };
        StateData { value: self.value, raw }
    }

    /// Appends to `out` what enters a commitment.
    pub fn commit_encode(&self, out: &mut Vec<u8>)
        ensures
            final(out)@ == old(out)@ + self@.commitment(),
    {
        self.value.encode(out);
        match &self.raw {
            None => {
                out.push(0u8);
            },
            Some(raw) => {
                let id = raw.commit_id();
                put_slice(out, id.as_slice());
            },
        }
        assert(out@ =~= old(out)@ + self@.commitment());
    }

    /// The state as a leaf of a Merkle tree.
    pub fn merkle_leaf(&self) -> (r: [u8; 32])
        ensures
            r@ == self@.leaf(),
    {
        let mut out: Vec<u8> = Vec::new();
        self.commit_encode(&mut out);
        assert(out@ =~= self@.commitment());
        merkle_leaf_hash(out.as_slice())
    }
}

} // verus!
