//! CBOR items as plain values, read and written by `ciborium`.

use vstd::prelude::*;

verus! {

/// A CBOR item. Floats, tags and null, which no body of the protocol uses,
/// are all `Other`.
#[derive(Debug)]
pub enum Cbor {
    Integer(i128),
    Bytes(Vec<u8>),
    Text(String),
    Bool(bool),
    Array(Vec<Cbor>),
    Dict(Vec<(Cbor, Cbor)>),
    Other,
}

/// What a CBOR item holds.
pub enum CborView {
    Integer(int),
    Bytes(Seq<u8>),
    Text(Seq<char>),
    Bool(bool),
    Array(Seq<CborView>),
    Dict(Seq<(CborView, CborView)>),
    Other,
}

impl Cbor {
    /// The item as a mathematical value.
    pub open spec fn view(&self) -> CborView
        decreases self,
    {
        match self {
            Cbor::Integer(n) => CborView::Integer(*n as int),
            Cbor::Bytes(b) => CborView::Bytes(b@),
            Cbor::Text(t) => CborView::Text(t@),
            Cbor::Bool(b) => CborView::Bool(*b),
            Cbor::Array(items) => CborView::Array(
                Seq::new(
                    items@.len(),
                    |i: int|
                        if 0 <= i < items@.len() {
                            items@[i].view()
                        } else {
                            CborView::Other
                        },
                ),
            ),
            Cbor::Dict(entries) => CborView::Dict(
                Seq::new(
                    entries@.len(),
                    |i: int|
                        if 0 <= i < entries@.len() {
                            (entries@[i].0.view(), entries@[i].1.view())
                        } else {
                            (CborView::Other, CborView::Other)
                        },
                ),
            ),
            Cbor::Other => CborView::Other,
        }
    }
}

/// Whether `v` can be written: integers in CBOR's own range, none of the
/// items that `Other` stands for, and at most `levels` arrays and maps one
/// inside the other.
pub open spec fn writable(v: CborView, levels: nat) -> bool
    decreases levels,
{
    match v {
        CborView::Integer(n) => -0x1_0000_0000_0000_0000 <= n < 0x1_0000_0000_0000_0000,
        CborView::Bytes(_) => true,
        CborView::Text(_) => true,
        CborView::Bool(_) => true,
        CborView::Array(items) => levels > 0 && forall|i: int|
            #![trigger items[i]]
            0 <= i < items.len() ==> writable(items[i], (levels - 1) as nat),
        CborView::Dict(entries) => levels > 0 && forall|i: int|
            #![trigger entries[i]]
            0 <= i < entries.len() ==> writable(entries[i].0, (levels - 1) as nat) && writable(
                entries[i].1,
                (levels - 1) as nat,
            ),
        CborView::Other => false,
    }
}

/// `ciborium`'s own item type.
#[verifier::external_type_specification]
#[verifier::external_body]
pub struct ExValue(ciborium::value::Value);

/// What a `ciborium` item holds.
pub uninterp spec fn value_content(value: ciborium::value::Value) -> CborView;

/// The bytes that `ciborium` writes for an item.
pub uninterp spec fn cbor_encoding(item: CborView) -> Seq<u8>;

/// The item that `ciborium` reads at the start of a byte string, if there is
/// one.
pub uninterp spec fn cbor_decoding(bytes: Seq<u8>) -> Option<CborView>;

/// How many arrays and maps one inside the other `ciborium` reads.
pub const NESTING_LIMIT: u32 = 256;

/// `ciborium::de::from_reader`: reads one item, or fails, by the bytes alone.
#[verifier::external_body]
fn read_value(bytes: &[u8]) -> (value: Option<ciborium::value::Value>)
    ensures
        match value {
            Some(v) => cbor_decoding(bytes@) == Some(value_content(v)),
            None => cbor_decoding(bytes@) is None,
        },
{
    ciborium::de::from_reader(bytes).ok()
}

/// `ciborium::ser::into_writer` into a vector, which does not fail: the bytes
/// depend on the item alone, and `ciborium` reads the same item back from
/// them where it is nested no deeper than it reads.
#[verifier::external_body]
fn write_value(value: &ciborium::value::Value) -> (bytes: Vec<u8>)
    requires
        writable(value_content(*value), NESTING_LIMIT as nat),
    ensures
        bytes@ == cbor_encoding(value_content(*value)),
        cbor_decoding(bytes@) == Some(value_content(*value)),
{
    let mut buf = Vec::new();
    ciborium::ser::into_writer(value, &mut buf).expect("writing to a vector does not fail");
    buf
}

/// Takes a `ciborium::value::Value` apart, variant by variant.
#[verifier::external_body]
fn item_of_value(value: ciborium::value::Value) -> (item: Cbor)
    ensures
        item@ == value_content(value),
{
    match value {
        ciborium::value::Value::Integer(n) => Cbor::Integer(n.into()),
        ciborium::value::Value::Bytes(b) => Cbor::Bytes(b),
        ciborium::value::Value::Text(t) => Cbor::Text(t),
        ciborium::value::Value::Bool(b) => Cbor::Bool(b),
        ciborium::value::Value::Array(a) => Cbor::Array(a.into_iter().map(item_of_value).collect()),
        ciborium::value::Value::Map(m) => Cbor::Dict(
            m.into_iter().map(|e| (item_of_value(e.0), item_of_value(e.1))).collect(),
        ),
        _ => Cbor::Other,
    }
}

/// Builds the `ciborium::value::Value` that holds what `item` holds. An
/// integer of CBOR's own range becomes a `ciborium::value::Integer`.
#[verifier::external_body]
fn value_of_item(item: &Cbor) -> (value: ciborium::value::Value)
    requires
        writable(item@, NESTING_LIMIT as nat),
    ensures
        value_content(value) == item@,
{
    match item {
        Cbor::Integer(n) => ciborium::value::Value::Integer((*n).try_into().unwrap()),
        Cbor::Bytes(b) => ciborium::value::Value::Bytes(b.clone()),
        Cbor::Text(t) => ciborium::value::Value::Text(t.clone()),
        Cbor::Bool(b) => ciborium::value::Value::Bool(*b),
        Cbor::Array(a) => ciborium::value::Value::Array(a.iter().map(value_of_item).collect()),
        Cbor::Dict(m) => ciborium::value::Value::Map(
            m.iter().map(|e| (value_of_item(&e.0), value_of_item(&e.1))).collect(),
        ),
        Cbor::Other => ciborium::value::Value::Null,
    }
}

/// Reads one CBOR item from the start of `bytes`.
pub fn decode(bytes: &[u8]) -> (item: Option<Cbor>)
    ensures
        match item {
            Some(i) => cbor_decoding(bytes@) == Some(i@),
            None => cbor_decoding(bytes@) is None,
        },
{
    match read_value(bytes) {
        Some(value) => Some(item_of_value(value)),
        None => None,
    }
}

/// Writes `item` as CBOR; reading the bytes gives the item back.
pub fn encode(item: &Cbor) -> (bytes: Vec<u8>)
    requires
        writable(item@, NESTING_LIMIT as nat),
    ensures
        bytes@ == cbor_encoding(item@),
        cbor_decoding(bytes@) == Some(item@),
{
    let value: ciborium::value::Value = value_of_item(item);
    write_value(&value)
}

/// What the entries of a map hold.
pub open spec fn entries_view(entries: Seq<(Cbor, Cbor)>) -> Seq<(CborView, CborView)> {
    Seq::new(entries.len(), |i: int| (entries[i].0@, entries[i].1@))
}

/// What the items of an array hold.
pub open spec fn items_view(items: Seq<Cbor>) -> Seq<CborView> {
    Seq::new(items.len(), |i: int| items[i]@)
}

/// A map holds what its entries hold.
pub proof fn lemma_dict_view(item: Cbor)
    ensures
        item matches Cbor::Dict(entries) ==> item@ == CborView::Dict(entries_view(entries@)),
{
    if let Cbor::Dict(entries) = item {
        assert(item@->Dict_0 =~= entries_view(entries@));
    }
}

/// An array holds what its items hold.
pub proof fn lemma_array_view(item: Cbor)
    ensures
        item matches Cbor::Array(items) ==> item@ == CborView::Array(items_view(items@)),
{
    if let Cbor::Array(items) = item {
        assert(item@->Array_0 =~= items_view(items@));
    }
}

/// A map under construction.
#[derive(Debug)]
pub struct DictBuilder {
    entries: Vec<(Cbor, Cbor)>,
}

impl DictBuilder {
    /// The entries so far.
    pub closed spec fn view(&self) -> Seq<(CborView, CborView)> {
        entries_view(self.entries@)
    }

    /// A map without entries.
    pub fn new() -> (dict: Self)
        ensures
            dict@ == Seq::<(CborView, CborView)>::empty(),
    {
        let dict = DictBuilder { entries: Vec::new() };
        assert(dict@ =~= Seq::<(CborView, CborView)>::empty());
        dict
    }

    /// Adds an entry with a text key.
    pub fn put(&mut self, key: &str, value: Cbor)
        ensures
            final(self)@ == old(self)@.push((CborView::Text(key@), value@)),
    {
        let key_item: Cbor = text(key);
        self.entries.push((key_item, value));
        assert(self@ =~= old(self)@.push((CborView::Text(key@), value@)));
    }

    /// The map.
    pub fn finish(self) -> (item: Cbor)
        ensures
            item@ == CborView::Dict(self@),
    {
        let item = Cbor::Dict(self.entries);
        proof {
            lemma_dict_view(item);
        }
        item
    }
}

/// An array under construction.
#[derive(Debug)]
pub struct ArrayBuilder {
    items: Vec<Cbor>,
}

impl ArrayBuilder {
    /// The items so far.
    pub closed spec fn view(&self) -> Seq<CborView> {
        items_view(self.items@)
    }

    /// An array without items.
    pub fn new() -> (array: Self)
        ensures
            array@ == Seq::<CborView>::empty(),
    {
        let array = ArrayBuilder { items: Vec::new() };
        assert(array@ =~= Seq::<CborView>::empty());
        array
    }

    /// Adds an item.
    pub fn put(&mut self, item: Cbor)
        ensures
            final(self)@ == old(self)@.push(item@),
    {
        self.items.push(item);
        assert(self@ =~= old(self)@.push(item@));
    }

    /// The array.
    pub fn finish(self) -> (item: Cbor)
        ensures
            item@ == CborView::Array(self@),
    {
        let item = Cbor::Array(self.items);
        proof {
            lemma_array_view(item);
        }
        item
    }
}

/// A text item.
pub fn text(s: &str) -> (item: Cbor)
    ensures
        item@ == CborView::Text(s@),
{
    Cbor::Text(s.to_owned())
}

/// A byte-string item.
pub fn bytes(b: &[u8]) -> (item: Cbor)
    ensures
        item@ == CborView::Bytes(b@),
{
    Cbor::Bytes(vstd::slice::slice_to_vec(b))
}

/// An unsigned integer item.
pub fn uint(n: u64) -> (item: Cbor)
    ensures
        item@ == CborView::Integer(n as int),
{
    Cbor::Integer(n as i128)
}

} // verus!
