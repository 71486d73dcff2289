//! Fields of a body that is a map: unknown keys and keys that are no text are
//! passed over, the last of several entries with one key counts, and a known
//! key with a value of the wrong kind spoils the body.

use vstd::prelude::*;

use crate::bytes::key_from_slice;
use crate::cbor;
use crate::cbor::{ArrayBuilder, Cbor, CborView};
use crate::federation::peering;
use crate::federation::peering::{PeerDecision, TerminationReason};
use crate::text::same_text;

verus! {

/// What kind of value a field takes.
#[derive(Clone, Copy, Debug, PartialEq, Eq)]
pub enum FieldKind {
    Text,
    Texts,
    /// A byte string of this length.
    Bytes(usize),
    /// An integer that fits into 64 bits without a sign.
    Uint,
    /// A truth value.
    Flag,
    /// The answer to a peering request.
    Decision,
    /// Why a peering ends.
    Reason,
}

/// A field of a map.
pub enum Field {
    /// No entry has the key.
    Absent,
    /// An entry with the key has a value of the wrong kind.
    Bad,
    /// The value of the last entry with the key.
    Is(CborView),
}

/// Whether a value is of a kind.
pub open spec fn is_of_kind(v: CborView, kind: FieldKind) -> bool {
    match kind {
        FieldKind::Text => v is Text,
        FieldKind::Texts => match v {
            CborView::Array(items) => forall|i: int|
                0 <= i < items.len() ==> (#[trigger] items[i]) is Text,
            _ => false,
        },
        FieldKind::Bytes(n) => match v {
            CborView::Bytes(b) => b.len() == n,
            _ => false,
        },
        FieldKind::Uint => match v {
            CborView::Integer(n) => 0 <= n <= u64::MAX,
            _ => false,
        },
        FieldKind::Flag => v is Bool,
        FieldKind::Decision => match v {
            CborView::Text(t) => peering::decision_of(t) is Some,
            _ => false,
        },
        FieldKind::Reason => match v {
            CborView::Text(t) => peering::reason_of(t) is Some,
            _ => false,
        },
    }
}

/// The field `key` of a map.
pub open spec fn field(
    entries: Seq<(CborView, CborView)>,
    key: Seq<char>,
    kind: FieldKind,
) -> Field
    decreases entries.len(),
{
    if entries.len() == 0 {
        Field::Absent
    } else {
        let before = field(entries.drop_last(), key, kind);
        if entries.last().0 == CborView::Text(key) {
            if before is Bad || !is_of_kind(entries.last().1, kind) {
                Field::Bad
            } else {
                Field::Is(entries.last().1)
            }
        } else {
            before
        }
    }
}

/// An entry more changes the field that it names, and no other.
pub proof fn lemma_field_push()
    ensures
        forall|e: Seq<(CborView, CborView)>, k: Seq<char>, v: CborView, key: Seq<char>, kind: FieldKind|
            #[trigger] field(e.push((CborView::Text(k), v)), key, kind) == (if k == key {
                if field(e, key, kind) is Bad || !is_of_kind(v, kind) {
                    Field::Bad
                } else {
                    Field::Is(v)
                }
            } else {
                field(e, key, kind)
            }),
        forall|key: Seq<char>, kind: FieldKind| #[trigger]
            field(Seq::empty(), key, kind) is Absent,
{
    assert forall|e: Seq<(CborView, CborView)>, k: Seq<char>, v: CborView, key: Seq<char>, kind: FieldKind|
        #[trigger] field(e.push((CborView::Text(k), v)), key, kind) == (if k == key {
            if field(e, key, kind) is Bad || !is_of_kind(v, kind) {
                Field::Bad
            } else {
                Field::Is(v)
            }
        } else {
            field(e, key, kind)
        }) by {
        assert(e.push((CborView::Text(k), v)).drop_last() =~= e);
    }
}

/// A field of a map, with its value by reference.
pub enum FieldRef<'a> {
    Absent,
    Bad,
    Is(&'a Cbor),
}

impl<'a> FieldRef<'a> {
    /// The field.
    pub open spec fn view(&self) -> Field {
        match self {
            FieldRef::Absent => Field::Absent,
            FieldRef::Bad => Field::Bad,
            FieldRef::Is(v) => Field::Is(v@),
        }
    }
}

fn all_texts(items: &Vec<Cbor>) -> (yes: bool)
    ensures
        yes == (forall|i: int| 0 <= i < items@.len() ==> (#[trigger] items@[i])@ is Text),
{
    let mut i: usize = 0;
    while i < items.len()
        invariant
            i <= items.len(),
            forall|j: int| 0 <= j < i ==> (#[trigger] items@[j])@ is Text,
        decreases items.len() - i,
    {
        match &items[i] {
            Cbor::Text(_) => {},
            _ => {
                assert(!(items@[i as int]@ is Text));
                return false;
            },
        }
        i += 1;
    }
    true
}

fn of_kind(v: &Cbor, kind: FieldKind) -> (yes: bool)
    ensures
        yes == is_of_kind(v@, kind),
{
    match kind {
        FieldKind::Text => matches!(v, Cbor::Text(_)),
        FieldKind::Texts => match v {
            Cbor::Array(items) => {
                proof {
                    cbor::lemma_array_view(*v);
                }
                let ghost inner = v@->Array_0;
                assert(forall|i: int|
                    0 <= i < items@.len() ==> inner[i] == (#[trigger] items@[i])@);
                let yes: bool = all_texts(items);
                proof {
                    if yes {
                        assert forall|i: int| 0 <= i < inner.len() implies (
                        #[trigger] inner[i]) is Text by {
                            assert(items@[i]@ is Text);
                        }
                    } else {
                        let i = choose|i: int|
                            0 <= i < items@.len() && !((#[trigger] items@[i])@ is Text);
                        assert(!(inner[i] is Text));
                    }
                }
                yes
            },
            _ => false,
        },
        FieldKind::Bytes(n) => match v {
            Cbor::Bytes(b) => b.len() == n,
            _ => false,
        },
        FieldKind::Uint => match v {
            Cbor::Integer(n) => 0 <= *n && *n <= u64::MAX as i128,
            _ => false,
        },
        FieldKind::Flag => matches!(v, Cbor::Bool(_)),
        FieldKind::Decision => match v {
            Cbor::Text(t) => PeerDecision::parse(t.as_str()).is_some(),
            _ => false,
        },
        FieldKind::Reason => match v {
            Cbor::Text(t) => TerminationReason::parse(t.as_str()).is_some(),
            _ => false,
        },
    }
}

/// The field `key` of a map.
pub fn find_field<'a>(entries: &'a Vec<(Cbor, Cbor)>, key: &str, kind: FieldKind) -> (found:
    FieldRef<'a>)
    ensures
        found@ == field(cbor::entries_view(entries@), key@, kind),
{
    let ghost all = cbor::entries_view(entries@);
    let mut found: FieldRef<'a> = FieldRef::Absent;
    let mut i: usize = 0;
    assert(all.take(0) =~= Seq::<(CborView, CborView)>::empty());
    while i < entries.len()
        invariant
            i <= entries.len(),
            all == cbor::entries_view(entries@),
            found@ == field(all.take(i as int), key@, kind),
        decreases entries.len() - i,
    {
        assert(all.take(i + 1).drop_last() =~= all.take(i as int));
        assert(all.take(i + 1).last() == (entries@[i as int].0@, entries@[i as int].1@));
        let named: bool = match &entries[i].0 {
            Cbor::Text(name) => same_text(name.as_str(), key),
            _ => false,
        };
        if named {
            let spoiled: bool = matches!(found, FieldRef::Bad);
            if spoiled || !of_kind(&entries[i].1, kind) {
                found = FieldRef::Bad;
            } else {
                found = FieldRef::Is(&entries[i].1);
            }
        }
        i += 1;
    }
    assert(all.take(i as int) =~= all);
    found
}

/// What a list of strings holds.
pub open spec fn texts_view(list: Seq<String>) -> Seq<Seq<char>> {
    Seq::new(list.len(), |i: int| list[i]@)
}

/// An array of texts.
pub open spec fn texts_item(list: Seq<Seq<char>>) -> CborView {
    CborView::Array(Seq::new(list.len(), |i: int| CborView::Text(list[i])))
}

/// The texts of an item, where it is an array of texts.
pub open spec fn texts_of(item: CborView) -> Option<Seq<Seq<char>>> {
    match item {
        CborView::Array(items) => if forall|i: int|
            0 <= i < items.len() ==> (#[trigger] items[i]) is Text {
            Some(Seq::new(items.len(), |i: int| items[i]->Text_0))
        } else {
            None
        },
        _ => None,
    }
}

/// An array of texts reads back as the texts that it was made of.
pub proof fn law_texts_read_back(list: Seq<Seq<char>>)
    ensures
        texts_of(texts_item(list)) == Some(list),
        is_of_kind(texts_item(list), FieldKind::Texts),
{
    let items = texts_item(list)->Array_0;
    assert(forall|i: int| 0 <= i < items.len() ==> (#[trigger] items[i]) is Text);
    assert(texts_of(texts_item(list))->Some_0 =~= list);
}

/// The texts of an item, where it is an array of texts.
pub fn text_array(item: &Cbor) -> (list: Option<Vec<String>>)
    ensures
        match list {
            Some(l) => texts_of(item@) == Some(texts_view(l@)),
            None => texts_of(item@) is None,
        },
{
    match item {
        Cbor::Array(items) => {
            proof {
                cbor::lemma_array_view(*item);
            }
            let ghost inner = item@->Array_0;
            let mut out: Vec<String> = Vec::new();
            let mut i: usize = 0;
            while i < items.len()
                invariant
                    i <= items.len(),
                    inner == cbor::items_view(items@),
                    item@ == CborView::Array(inner),
                    out@.len() == i,
                    forall|j: int|
                        0 <= j < i ==> (#[trigger] inner[j]) is Text && out@[j]@
                            == inner[j]->Text_0,
                decreases items.len() - i,
            {
                assert(inner[i as int] == items@[i as int]@);
                match &items[i] {
                    Cbor::Text(t) => {
                        out.push(t.clone());
                    },
                    _ => {
                        assert(!(inner[i as int] is Text));
                        return None;
                    },
                }
                i += 1;
            }
            assert(texts_of(item@)->Some_0 =~= texts_view(out@));
            Some(out)
        },
        _ => None,
    }
}

/// An array of texts.
pub fn texts(list: &[String]) -> (item: Cbor)
    ensures
        item@ == texts_item(texts_view(list@)),
{
    let mut items = ArrayBuilder::new();
    let mut i: usize = 0;
    while i < list.len()
        invariant
            i <= list.len(),
            items@.len() == i,
            forall|j: int| 0 <= j < i ==> #[trigger] items@[j] == CborView::Text(list@[j]@),
        decreases list.len() - i,
    {
        items.put(cbor::text(list[i].as_str()));
        i += 1;
    }
    let item: Cbor = items.finish();
    assert(item@->Array_0 =~= texts_item(texts_view(list@))->Array_0);
    item
}

/// Whether a map with text keys holds plain values and arrays of texts.
pub open spec fn is_plain(entries: Seq<(CborView, CborView)>) -> bool {
    forall|i: int|
        #![trigger entries[i]]
        0 <= i < entries.len() ==> entries[i].0 is Text && (is_of_kind(
            entries[i].1,
            FieldKind::Text,
        ) || entries[i].1 is Bytes || entries[i].1 is Bool || is_of_kind(entries[i].1, FieldKind::Uint) || is_of_kind(
            entries[i].1,
            FieldKind::Texts,
        ))
}

/// A map of plain values can be written.
pub proof fn lemma_plain_is_writable(entries: Seq<(CborView, CborView)>)
    requires
        is_plain(entries),
    ensures
        cbor::writable(CborView::Dict(entries), cbor::NESTING_LIMIT as nat),
{
    reveal_with_fuel(cbor::writable, 3);
}

/// A field of a kind holds a value of that kind.
pub proof fn lemma_field_kind(e: Seq<(CborView, CborView)>, key: Seq<char>, kind: FieldKind)
    ensures
        field(e, key, kind) matches Field::Is(v) ==> is_of_kind(v, kind),
    decreases e.len(),
{
    if e.len() > 0 {
        lemma_field_kind(e.drop_last(), key, kind);
    }
}

/// The text of an optional text field.
pub open spec fn text_in(f: Field) -> Option<Seq<char>> {
    match f {
        Field::Is(v) => Some(v->Text_0),
        _ => None,
    }
}

/// The texts of an optional field of texts.
pub open spec fn texts_in(f: Field) -> Option<Seq<Seq<char>>> {
    match f {
        Field::Is(v) => texts_of(v),
        _ => None,
    }
}

/// What an optional text holds.
pub open spec fn optional_text(t: Option<String>) -> Option<Seq<char>> {
    match t {
        Some(s) => Some(s@),
        None => None,
    }
}

/// Another copy of an optional text.
pub fn copy_optional_text(t: &Option<String>) -> (copy: Option<String>)
    ensures
        optional_text(copy) == optional_text(*t),
{
    match t {
        Some(text) => Some(text.clone()),
        None => None,
    }
}

/// What an optional list of texts holds.
pub open spec fn optional_texts(t: Option<Vec<String>>) -> Option<Seq<Seq<char>>> {
    match t {
        Some(l) => Some(texts_view(l@)),
        None => None,
    }
}

/// A text field, if the map has it and it is sound.
pub fn text_field(entries: &Vec<(Cbor, Cbor)>, key: &str) -> (text: Option<String>)
    ensures
        optional_text(text) == text_in(
            field(cbor::entries_view(entries@), key@, FieldKind::Text),
        ),
{
    proof {
        lemma_field_kind(cbor::entries_view(entries@), key@, FieldKind::Text);
    }
    match find_field(entries, key, FieldKind::Text) {
        FieldRef::Is(Cbor::Text(t)) => Some(t.clone()),
        _ => None,
    }
}

/// A field of texts, if the map has it and it is sound.
pub fn texts_field(entries: &Vec<(Cbor, Cbor)>, key: &str) -> (list: Option<Vec<String>>)
    ensures
        optional_texts(list) == texts_in(
            field(cbor::entries_view(entries@), key@, FieldKind::Texts),
        ),
        list is Some <==> field(cbor::entries_view(entries@), key@, FieldKind::Texts) is Is,
{
    proof {
        lemma_field_kind(cbor::entries_view(entries@), key@, FieldKind::Texts);
    }
    match find_field(entries, key, FieldKind::Texts) {
        FieldRef::Is(v) => text_array(v),
        _ => None,
    }
}

/// A number field, if the map has it and it is sound.
pub fn uint_field(entries: &Vec<(Cbor, Cbor)>, key: &str) -> (n: Option<u64>)
    ensures
        match field(cbor::entries_view(entries@), key@, FieldKind::Uint) {
            Field::Is(v) => n == Some(v->Integer_0 as u64),
            _ => n is None,
        },
{
    proof {
        lemma_field_kind(cbor::entries_view(entries@), key@, FieldKind::Uint);
    }
    match find_field(entries, key, FieldKind::Uint) {
        FieldRef::Is(Cbor::Integer(i)) => Some(*i as u64),
        _ => None,
    }
}

/// A flag field, if the map has it and it is sound.
pub fn flag_field(entries: &Vec<(Cbor, Cbor)>, key: &str) -> (flag: Option<bool>)
    ensures
        match field(cbor::entries_view(entries@), key@, FieldKind::Flag) {
            Field::Is(v) => flag == Some(v->Bool_0),
            _ => flag is None,
        },
{
    proof {
        lemma_field_kind(cbor::entries_view(entries@), key@, FieldKind::Flag);
    }
    match find_field(entries, key, FieldKind::Flag) {
        FieldRef::Is(Cbor::Bool(b)) => Some(*b),
        _ => None,
    }
}

/// A key field, if the map has it and it is sound.
pub fn key_field(entries: &Vec<(Cbor, Cbor)>, key: &str) -> (bytes: Option<[u8; 32]>)
    ensures
        match field(cbor::entries_view(entries@), key@, FieldKind::Bytes(32)) {
            Field::Is(v) => bytes matches Some(b) && b@ == v->Bytes_0,
            _ => bytes is None,
        },
{
    proof {
        lemma_field_kind(cbor::entries_view(entries@), key@, FieldKind::Bytes(32));
    }
    match find_field(entries, key, FieldKind::Bytes(32)) {
        FieldRef::Is(Cbor::Bytes(b)) => key_from_slice(b.as_slice()),
        _ => None,
    }
}

/// A request-id field, if the map has it and it is sound.
pub fn id_field(entries: &Vec<(Cbor, Cbor)>, key: &str) -> (bytes: Option<[u8; 16]>)
    ensures
        match field(cbor::entries_view(entries@), key@, FieldKind::Bytes(16)) {
            Field::Is(v) => bytes matches Some(b) && b@ == v->Bytes_0,
            _ => bytes is None,
        },
{
    proof {
        lemma_field_kind(cbor::entries_view(entries@), key@, FieldKind::Bytes(16));
    }
    match find_field(entries, key, FieldKind::Bytes(16)) {
        FieldRef::Is(Cbor::Bytes(b)) => {
            let mut out: [u8; 16] = [0u8; 16];
            let mut i: usize = 0;
            while i < 16
                invariant
                    i <= 16,
                    b@.len() == 16,
                    forall|j: int| 0 <= j < i ==> out@[j] == b@[j],
                decreases 16 - i,
            {
                out[i] = b[i];
                i += 1;
            }
            assert(out@ =~= b@);
            Some(out)
        },
        _ => None,
    }
}

/// An entry more counts for the field that it names, and for no other: a value
/// of the right kind takes the place of an earlier one, and one of the wrong
/// kind spoils the field for good.
pub proof fn law_the_last_entry_counts<'a>(
    entries: &'a Vec<(Cbor, Cbor)>,
    key: &str,
    kind: FieldKind,
    before: FieldRef<'a>,
    more: &'a Vec<(Cbor, Cbor)>,
    after: FieldRef<'a>,
    name: CborView,
    value: CborView,
)
    requires
        call_ensures(find_field, (entries, key, kind), before),
        call_ensures(find_field, (more, key, kind), after),
        cbor::entries_view(more@) == cbor::entries_view(entries@).push((name, value)),
    ensures
        name != CborView::Text(key@) ==> after@ == before@,
        name == CborView::Text(key@) && before@ is Bad ==> after@ is Bad,
        name == CborView::Text(key@) && !(before@ is Bad) && is_of_kind(value, kind) ==> after@
            == Field::Is(value),
        name == CborView::Text(key@) && !is_of_kind(value, kind) ==> after@ is Bad,
        entries@.len() == 0 ==> before@ is Absent,
{
    let e = cbor::entries_view(entries@);
    assert(e.push((name, value)).drop_last() =~= e);
}

/// Each kind takes its own values: a text, an array of nothing but texts, a
/// byte string of the length, a number of 64 bits without a sign, a truth
/// value, or one of the words for a decision or a reason.
pub proof fn law_kinds_take_their_values(v: CborView, n: usize)
    ensures
        is_of_kind(v, FieldKind::Text) <==> v is Text,
        is_of_kind(v, FieldKind::Bytes(n)) <==> (v matches CborView::Bytes(b) && b.len() == n),
        is_of_kind(v, FieldKind::Uint) <==> (v matches CborView::Integer(i) && 0 <= i
            < 0x1_0000_0000_0000_0000),
        is_of_kind(v, FieldKind::Flag) <==> v is Bool,
        is_of_kind(v, FieldKind::Texts) <==> (v matches CborView::Array(items) && forall|i: int|
            0 <= i < items.len() ==> (#[trigger] items[i]) is Text),
        is_of_kind(v, FieldKind::Decision) <==> (v matches CborView::Text(t) && (t == "accept"@ || t
            == "reject"@)),
        is_of_kind(v, FieldKind::Reason) <==> (v matches CborView::Text(t) && (t
            == "operator_initiated"@ || t == "compromise_response"@ || t == "policy_violation"@)),
{
}

/// An item is a list of texts exactly where it is an array of nothing but
/// texts: those, in their order.
pub proof fn law_lists_of_texts_are_read(item: &Cbor, list: Option<Vec<String>>, i: int)
    requires
        call_ensures(text_array, (item,), list),
    ensures
        list is Some <==> (item@ matches CborView::Array(items) && forall|j: int|
            0 <= j < items.len() ==> (#[trigger] items[j]) is Text),
        list matches Some(l) ==> (item@ matches CborView::Array(items) && l@.len() == items.len()
            && (0 <= i < items.len() ==> items[i] == CborView::Text(l@[i]@))),
{
    if let Some(l) = list {
        let items = item@->Array_0;
        let texts = Seq::new(items.len(), |j: int| items[j]->Text_0);
        assert(texts_view(l@) == texts);
        assert(texts_view(l@).len() == l@.len());
        if 0 <= i < items.len() {
            assert(texts_view(l@)[i] == l@[i]@);
            assert(texts[i] == items[i]->Text_0);
        }
    }
}

} // verus!
