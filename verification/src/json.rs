//! JSON values, as plain data.
//!
//! A [`Json`] holds what a parsed JSON document holds. Objects keep their
//! fields in increasing order of the keys, which is the order in which they
//! are written out. The contracts speak of a [`JsonView`], the same tree over
//! sequences of characters.
use crate::text::{chars_of, same};
use vstd::prelude::*;

verus! {

/// `serde_json::Number`, carried through for numbers that are no integers.
#[verifier::external_type_specification]
#[verifier::external_body]
pub struct ExNumber(serde_json::Number);

/// `serde_json::Number::clone`: the same number.
pub assume_specification[ <serde_json::Number as Clone>::clone ](n: &serde_json::Number) -> (r:
    serde_json::Number)
    ensures
        r == *n,
;

/// A JSON number: an integer from zero up, an integer below zero, or a number
/// with a fraction or an exponent.
#[derive(Debug, PartialEq)]
pub enum JsonNumber {
    Unsigned(u64),
    Negative(i64),
    Real(serde_json::Number),
}

/// A JSON value.
#[derive(Debug, PartialEq)]
pub enum Json {
    Null,
    Bool(bool),
    Number(JsonNumber),
    Str(String),
    Array(Vec<Json>),
    Object(Vec<(String, Json)>),
}

/// What a [`Json`] stands for.
pub enum JsonView {
    Null,
    Bool(bool),
    Number(JsonNumber),
    Str(Seq<char>),
    Array(Seq<JsonView>),
    Object(Seq<(Seq<char>, JsonView)>),
}

/// The tree that a value stands for.
pub open spec fn tree(j: Json) -> JsonView
    decreases j,
{
    match j {
        Json::Null => JsonView::Null,
        Json::Bool(b) => JsonView::Bool(b),
        Json::Number(n) => JsonView::Number(n),
        Json::Str(s) => JsonView::Str(s@),
        Json::Array(items) => JsonView::Array(
            Seq::new(
                items@.len(),
                |i: int|
                    if 0 <= i < items@.len() {
                        tree(items@[i])
                    } else {
                        JsonView::Null
                    },
            ),
        ),
        Json::Object(fields) => JsonView::Object(
            Seq::new(
                fields@.len(),
                |i: int|
                    if 0 <= i < fields@.len() {
                        (fields@[i].0@, tree(fields@[i].1))
                    } else {
                        (Seq::empty(), JsonView::Null)
                    },
            ),
        ),
    }
}

impl View for Json {
    type V = JsonView;

    open spec fn view(&self) -> JsonView {
        tree(*self)
    }
}

/// What a list of values stands for.
pub open spec fn items_view(items: Seq<Json>) -> Seq<JsonView> {
    Seq::new(items.len(), |i: int| items[i]@)
}

/// What a list of fields stands for.
pub open spec fn fields_view(fields: Seq<(String, Json)>) -> Seq<(Seq<char>, JsonView)> {
    Seq::new(fields.len(), |i: int| (fields[i].0@, fields[i].1@))
}

/// An array stands for the array of what its items stand for.
pub broadcast proof fn lemma_array_view(items: Vec<Json>)
    ensures
        #[trigger] Json::Array(items)@ == JsonView::Array(items_view(items@)),
{
    reveal_with_fuel(tree, 2);
    match Json::Array(items)@ {
        JsonView::Array(s) => assert(s =~= items_view(items@)),
        _ => {},
    }
}

/// An object stands for the object of what its fields stand for.
pub broadcast proof fn lemma_object_view(fields: Vec<(String, Json)>)
    ensures
        #[trigger] Json::Object(fields)@ == JsonView::Object(fields_view(fields@)),
{
    reveal_with_fuel(tree, 2);
    match Json::Object(fields)@ {
        JsonView::Object(s) => assert(s =~= fields_view(fields@)),
        _ => {},
    }
}

// ── Fields of an object ─────────────────────────────────────────────────

/// `a` comes before `b`: the order of the first characters that differ, and a
/// text before its continuations.
pub open spec fn key_before(a: Seq<char>, b: Seq<char>) -> bool
    decreases a.len(),
{
    if b.len() == 0 {
        false
    } else if a.len() == 0 {
        true
    } else if a[0] == b[0] {
        key_before(a.skip(1), b.skip(1))
    } else {
        a[0] < b[0]
    }
}

/// Every key comes before the keys behind it, so none occurs twice.
pub open spec fn sorted(fields: Seq<(Seq<char>, JsonView)>) -> bool {
    forall|i: int, j: int|
        0 <= i < j < fields.len() ==> key_before(#[trigger] fields[i].0, #[trigger] fields[j].0)
}

/// The value of the field `key`.
pub open spec fn lookup(fields: Seq<(Seq<char>, JsonView)>, key: Seq<char>) -> Option<JsonView>
    decreases fields.len(),
{
    if fields.len() == 0 {
        None
    } else if fields[0].0 == key {
        Some(fields[0].1)
    } else {
        lookup(fields.skip(1), key)
    }
}

/// The fields with `key` set to `value`: in place where the key is known, else
/// at its place in the order.
pub open spec fn inserted(
    fields: Seq<(Seq<char>, JsonView)>,
    key: Seq<char>,
    value: JsonView,
) -> Seq<(Seq<char>, JsonView)>
    decreases fields.len(),
{
    if fields.len() == 0 {
        seq![(key, value)]
    } else if fields[0].0 == key {
        seq![(key, value)] + fields.skip(1)
    } else if key_before(key, fields[0].0) {
        seq![(key, value)] + fields
    } else {
        seq![fields[0]] + inserted(fields.skip(1), key, value)
    }
}

/// The fields without `key`.
pub open spec fn removed(fields: Seq<(Seq<char>, JsonView)>, key: Seq<char>) -> Seq<
    (Seq<char>, JsonView),
>
    decreases fields.len(),
{
    if fields.len() == 0 {
        fields
    } else if fields[0].0 == key {
        fields.skip(1)
    } else {
        seq![fields[0]] + removed(fields.skip(1), key)
    }
}

/// The keys, in order, as JSON strings.
pub open spec fn key_list(fields: Seq<(Seq<char>, JsonView)>) -> Seq<JsonView> {
    Seq::new(fields.len(), |i: int| JsonView::Str(fields[i].0))
}

/// The object made by setting the given fields one after the other.
pub open spec fn built(entries: Seq<(Seq<char>, JsonView)>) -> Seq<(Seq<char>, JsonView)>
    decreases entries.len(),
{
    if entries.len() == 0 {
        entries
    } else {
        inserted(built(entries.drop_last()), entries.last().0, entries.last().1)
    }
}

impl JsonView {
    /// The field `key` of an object; `None` when there is none or when the
    /// value is no object.
    pub open spec fn get(self, key: Seq<char>) -> Option<JsonView> {
        match self {
            JsonView::Object(fields) => lookup(fields, key),
            _ => None,
        }
    }

    /// The text of a string.
    pub open spec fn text(self) -> Option<Seq<char>> {
        match self {
            JsonView::Str(s) => Some(s),
            _ => None,
        }
    }

    /// The items of an array.
    pub open spec fn items(self) -> Option<Seq<JsonView>> {
        match self {
            JsonView::Array(items) => Some(items),
            _ => None,
        }
    }

    /// The fields of an object.
    pub open spec fn fields(self) -> Option<Seq<(Seq<char>, JsonView)>> {
        match self {
            JsonView::Object(fields) => Some(fields),
            _ => None,
        }
    }

    /// An integer from zero up.
    pub open spec fn unsigned(self) -> Option<u64> {
        match self {
            JsonView::Number(JsonNumber::Unsigned(n)) => Some(n),
            _ => None,
        }
    }

    /// The text of the field `key`, when it is a string.
    pub open spec fn text_at(self, key: Seq<char>) -> Option<Seq<char>> {
        match self.get(key) {
            Some(v) => v.text(),
            None => None,
        }
    }

    /// The items of the field `key`, when it is an array.
    pub open spec fn items_at(self, key: Seq<char>) -> Option<Seq<JsonView>> {
        match self.get(key) {
            Some(v) => v.items(),
            None => None,
        }
    }

    /// Every object in the value has its keys in order, each once, and an integer
    /// that is written as a negative one is below zero.
    pub open spec fn well_formed(self) -> bool
        decreases self,
    {
        match self {
            JsonView::Array(items) => forall|i: int|
                0 <= i < items.len() ==> (#[trigger] items[i]).well_formed(),
            JsonView::Object(fields) => {
                &&& sorted(fields)
                &&& forall|i: int|
                    0 <= i < fields.len() ==> (#[trigger] fields[i]).1.well_formed()
            },
            JsonView::Number(JsonNumber::Negative(i)) => i < 0,
            _ => true,
        }
    }
}

/// The number `n` as a JSON value.
pub open spec fn json_unsigned(n: u64) -> JsonView {
    JsonView::Number(JsonNumber::Unsigned(n))
}

// ── Laws of the fields ──────────────────────────────────────────────────

/// No key comes before itself.
proof fn lemma_key_irreflexive(a: Seq<char>)
    ensures
        !key_before(a, a),
    decreases a.len(),
{
    if a.len() > 0 {
        lemma_key_irreflexive(a.skip(1));
    }
}

/// Of two different keys one comes before the other.
proof fn lemma_key_total(a: Seq<char>, b: Seq<char>)
    requires
        a != b,
    ensures
        key_before(a, b) || key_before(b, a),
    decreases a.len(),
{
    if a.len() > 0 && b.len() > 0 {
        if a[0] == b[0] {
            if a.skip(1) == b.skip(1) {
                assert(a =~= seq![a[0]] + a.skip(1));
                assert(b =~= seq![b[0]] + b.skip(1));
            }
            lemma_key_total(a.skip(1), b.skip(1));
        }
    } else {
        assert(a.len() == 0 && b.len() == 0 ==> a =~= b);
    }
}

/// The order of keys is transitive.
proof fn lemma_key_transitive(a: Seq<char>, b: Seq<char>, c: Seq<char>)
    requires
        key_before(a, b),
        key_before(b, c),
    ensures
        key_before(a, c),
    decreases a.len(),
{
    if a.len() > 0 && a[0] == b[0] && b[0] == c[0] {
        lemma_key_transitive(a.skip(1), b.skip(1), c.skip(1));
    }
}

/// A field that was set is found with its new value, and every other field is
/// as it was.
pub proof fn law_lookup_after_insert(
    fields: Seq<(Seq<char>, JsonView)>,
    key: Seq<char>,
    value: JsonView,
    other: Seq<char>,
)
    ensures
        lookup(inserted(fields, key, value), other) == (if other == key {
            Some(value)
        } else {
            lookup(fields, other)
        }),
    decreases fields.len(),
{
    let out = inserted(fields, key, value);
    if fields.len() == 0 {
        assert(out.skip(1) =~= fields);
        assert(lookup(fields, other) is None);
    } else if fields[0].0 == key {
        assert(out.skip(1) =~= fields.skip(1));
    } else if key_before(key, fields[0].0) {
        assert(out.skip(1) =~= fields);
    } else {
        law_lookup_after_insert(fields.skip(1), key, value, other);
        assert(out.skip(1) =~= inserted(fields.skip(1), key, value));
    }
}

/// Each key of the result of setting a field is the new key or an old one.
pub proof fn lemma_inserted_keys(
    fields: Seq<(Seq<char>, JsonView)>,
    key: Seq<char>,
    value: JsonView,
    i: int,
)
    requires
        0 <= i < inserted(fields, key, value).len(),
    ensures
        inserted(fields, key, value)[i] == (key, value) || exists|j: int|
            0 <= j < fields.len() && inserted(fields, key, value)[i] == fields[j],
    decreases fields.len(),
{
    let out = inserted(fields, key, value);
    if fields.len() == 0 {
    } else if fields[0].0 == key {
        if i > 0 {
            assert(out[i] == fields[i]);
        }
    } else if key_before(key, fields[0].0) {
        if i > 0 {
            assert(out[i] == fields[i - 1]);
        }
    } else if i == 0 {
        assert(out[0] == fields[0]);
    } else {
        let rest = inserted(fields.skip(1), key, value);
        assert(out[i] == rest[i - 1]);
        lemma_inserted_keys(fields.skip(1), key, value, i - 1);
        if rest[i - 1] != (key, value) {
            let j = choose|j: int|
                0 <= j < fields.skip(1).len() && rest[i - 1] == fields.skip(1)[j];
            assert(fields.skip(1)[j] == fields[j + 1]);
        }
    }
}

/// Setting a field keeps the keys in order, each once.
pub proof fn law_insert_keeps_order(
    fields: Seq<(Seq<char>, JsonView)>,
    key: Seq<char>,
    value: JsonView,
)
    requires
        sorted(fields),
    ensures
        sorted(inserted(fields, key, value)),
    decreases fields.len(),
{
    let out = inserted(fields, key, value);
    if fields.len() == 0 {
    } else if fields[0].0 == key {
        assert forall|i: int, j: int| 0 <= i < j < out.len() implies key_before(
            #[trigger] out[i].0,
            #[trigger] out[j].0,
        ) by {
            assert(out[i].0 == fields[i].0);
            assert(out[j].0 == fields[j].0);
        }
    } else if key_before(key, fields[0].0) {
        assert forall|i: int, j: int| 0 <= i < j < out.len() implies key_before(
            #[trigger] out[i].0,
            #[trigger] out[j].0,
        ) by {
            assert(out[j].0 == fields[j - 1].0);
            if i > 0 {
                assert(out[i].0 == fields[i - 1].0);
            } else if j > 1 {
                assert(key_before(fields[0].0, fields[j - 1].0));
                lemma_key_transitive(key, fields[0].0, fields[j - 1].0);
            }
        }
    } else {
        let rest = inserted(fields.skip(1), key, value);
        assert(sorted(fields.skip(1))) by {
            assert forall|i: int, j: int| 0 <= i < j < fields.skip(1).len() implies key_before(
                #[trigger] fields.skip(1)[i].0,
                #[trigger] fields.skip(1)[j].0,
            ) by {
                assert(fields.skip(1)[i] == fields[i + 1]);
                assert(fields.skip(1)[j] == fields[j + 1]);
            }
        }
        law_insert_keeps_order(fields.skip(1), key, value);
        lemma_key_total(key, fields[0].0);
        assert forall|i: int, j: int| 0 <= i < j < out.len() implies key_before(
            #[trigger] out[i].0,
            #[trigger] out[j].0,
        ) by {
            assert(out[j] == rest[j - 1]);
            if i > 0 {
                assert(out[i] == rest[i - 1]);
            } else {
                lemma_inserted_keys(fields.skip(1), key, value, j - 1);
                if rest[j - 1] != (key, value) {
                    let k = choose|k: int|
                        0 <= k < fields.skip(1).len() && rest[j - 1] == fields.skip(1)[k];
                    assert(fields.skip(1)[k] == fields[k + 1]);
                    assert(key_before(fields[0].0, fields[k + 1].0));
                }
            }
        }
    }
}

/// A key that no field has is not found.
proof fn lemma_lookup_none(fields: Seq<(Seq<char>, JsonView)>, key: Seq<char>)
    requires
        forall|i: int| 0 <= i < fields.len() ==> (#[trigger] fields[i]).0 != key,
    ensures
        lookup(fields, key) is None,
    decreases fields.len(),
{
    if fields.len() > 0 {
        assert(fields[0].0 != key);
        assert forall|i: int| 0 <= i < fields.skip(1).len() implies (#[trigger] fields.skip(
            1,
        )[i]).0 != key by {
            assert(fields.skip(1)[i] == fields[i + 1]);
        }
        lemma_lookup_none(fields.skip(1), key);
    }
}

/// Setting a field to a well-formed value keeps an object well formed.
pub proof fn law_insert_keeps_well_formed(
    fields: Seq<(Seq<char>, JsonView)>,
    key: Seq<char>,
    value: JsonView,
)
    requires
        JsonView::Object(fields).well_formed(),
        value.well_formed(),
    ensures
        JsonView::Object(inserted(fields, key, value)).well_formed(),
{
    law_insert_keeps_order(fields, key, value);
    let out = inserted(fields, key, value);
    assert forall|i: int| 0 <= i < out.len() implies (#[trigger] out[i]).1.well_formed() by {
        lemma_inserted_keys(fields, key, value, i);
    }
}

/// Each field that is left after taking one out is an old one.
proof fn lemma_removed_fields(fields: Seq<(Seq<char>, JsonView)>, key: Seq<char>, i: int)
    requires
        0 <= i < removed(fields, key).len(),
    ensures
        exists|j: int| 0 <= j < fields.len() && removed(fields, key)[i] == fields[j],
    decreases fields.len(),
{
    let out = removed(fields, key);
    if fields[0].0 == key {
        assert(out[i] == fields[i + 1]);
    } else if i == 0 {
        assert(out[0] == fields[0]);
    } else {
        let rest = removed(fields.skip(1), key);
        assert(out[i] == rest[i - 1]);
        lemma_removed_fields(fields.skip(1), key, i - 1);
        let j = choose|j: int| 0 <= j < fields.skip(1).len() && rest[i - 1] == fields.skip(1)[j];
        assert(fields.skip(1)[j] == fields[j + 1]);
    }
}

/// Taking a field out keeps the keys in order, each once.
pub proof fn law_remove_keeps_order(fields: Seq<(Seq<char>, JsonView)>, key: Seq<char>)
    requires
        sorted(fields),
    ensures
        sorted(removed(fields, key)),
    decreases fields.len(),
{
    let out = removed(fields, key);
    if fields.len() > 0 {
        assert(sorted(fields.skip(1))) by {
            assert forall|i: int, j: int| 0 <= i < j < fields.skip(1).len() implies key_before(
                #[trigger] fields.skip(1)[i].0,
                #[trigger] fields.skip(1)[j].0,
            ) by {
                assert(fields.skip(1)[i] == fields[i + 1]);
                assert(fields.skip(1)[j] == fields[j + 1]);
            }
        }
        if fields[0].0 != key {
            let rest = removed(fields.skip(1), key);
            law_remove_keeps_order(fields.skip(1), key);
            assert forall|i: int, j: int| 0 <= i < j < out.len() implies key_before(
                #[trigger] out[i].0,
                #[trigger] out[j].0,
            ) by {
                assert(out[j] == rest[j - 1]);
                if i > 0 {
                    assert(out[i] == rest[i - 1]);
                } else {
                    lemma_removed_fields(fields.skip(1), key, j - 1);
                    let k = choose|k: int|
                        0 <= k < fields.skip(1).len() && rest[j - 1] == fields.skip(1)[k];
                    assert(fields.skip(1)[k] == fields[k + 1]);
                }
            }
        }
    }
}

/// Taking out a field that is not there changes nothing.
pub proof fn law_removing_nothing_changes_nothing(
    fields: Seq<(Seq<char>, JsonView)>,
    key: Seq<char>,
)
    requires
        lookup(fields, key) is None,
    ensures
        removed(fields, key) == fields,
    decreases fields.len(),
{
    if fields.len() > 0 {
        law_removing_nothing_changes_nothing(fields.skip(1), key);
        assert(seq![fields[0]] + fields.skip(1) =~= fields);
    }
}

/// Setting a field to the value that it has changes nothing.
pub proof fn law_setting_the_same_changes_nothing(
    fields: Seq<(Seq<char>, JsonView)>,
    key: Seq<char>,
    value: JsonView,
)
    requires
        sorted(fields),
        lookup(fields, key) == Some(value),
    ensures
        inserted(fields, key, value) == fields,
    decreases fields.len(),
{
    if fields[0].0 == key {
        assert(seq![(key, value)] + fields.skip(1) =~= fields);
    } else {
        lemma_found_is_a_field(fields, key);
        let j = choose|j: int| 0 <= j < fields.len() && #[trigger] fields[j] == (key, value);
        assert(key_before(fields[0].0, fields[j].0));
        if key_before(key, fields[0].0) {
            lemma_key_transitive(key, fields[0].0, key);
            lemma_key_irreflexive(key);
        }
        assert forall|a: int, b: int| 0 <= a < b < fields.skip(1).len() implies key_before(
            #[trigger] fields.skip(1)[a].0,
            #[trigger] fields.skip(1)[b].0,
        ) by {
            assert(fields.skip(1)[a] == fields[a + 1]);
            assert(fields.skip(1)[b] == fields[b + 1]);
        }
        law_setting_the_same_changes_nothing(fields.skip(1), key, value);
        assert(seq![fields[0]] + fields.skip(1) =~= fields);
    }
}

/// Taking a field out keeps an object well formed.
pub proof fn law_remove_keeps_well_formed(fields: Seq<(Seq<char>, JsonView)>, key: Seq<char>)
    requires
        JsonView::Object(fields).well_formed(),
    ensures
        JsonView::Object(removed(fields, key)).well_formed(),
{
    law_remove_keeps_order(fields, key);
    let out = removed(fields, key);
    assert forall|i: int| 0 <= i < out.len() implies (#[trigger] out[i]).1.well_formed() by {
        lemma_removed_fields(fields, key, i);
    }
}

/// An object that is made by setting fields to well-formed values is well formed.
pub proof fn law_built_objects_are_well_formed(entries: Seq<(Seq<char>, JsonView)>)
    requires
        forall|i: int| 0 <= i < entries.len() ==> (#[trigger] entries[i]).1.well_formed(),
    ensures
        JsonView::Object(built(entries)).well_formed(),
    decreases entries.len(),
{
    if entries.len() > 0 {
        let shorter = entries.drop_last();
        assert forall|i: int| 0 <= i < shorter.len() implies (#[trigger] shorter[i]).1.well_formed()
            by {
            assert(shorter[i] == entries[i]);
        }
        law_built_objects_are_well_formed(shorter);
        assert(entries[entries.len() - 1].1.well_formed());
        law_insert_keeps_well_formed(built(shorter), entries.last().0, entries.last().1);
    }
}

/// A field of a well-formed object is well formed.
pub proof fn law_fields_are_well_formed(value: JsonView, key: Seq<char>)
    requires
        value.well_formed(),
    ensures
        value.get(key) matches Some(v) ==> v.well_formed(),
{
    match value {
        JsonView::Object(fields) => if lookup(fields, key) is Some {
            lemma_found_is_a_field(fields, key);
        },
        _ => {},
    }
}

/// A field that is found stands among the fields.
pub proof fn lemma_found_is_a_field(fields: Seq<(Seq<char>, JsonView)>, key: Seq<char>)
    requires
        lookup(fields, key) is Some,
    ensures
        exists|i: int|
            0 <= i < fields.len() && #[trigger] fields[i] == (key, lookup(fields, key)->0),
    decreases fields.len(),
{
    if fields[0].0 == key {
        assert(fields[0] == (key, lookup(fields, key)->0));
    } else {
        lemma_found_is_a_field(fields.skip(1), key);
        let i = choose|i: int|
            0 <= i < fields.skip(1).len() && #[trigger] fields.skip(1)[i] == (
                key,
                lookup(fields, key)->0,
            );
        assert(fields.skip(1)[i] == fields[i + 1]);
    }
}

/// In an object every field is found under its key.
pub proof fn law_every_field_is_found(fields: Seq<(Seq<char>, JsonView)>, i: int)
    requires
        sorted(fields),
        0 <= i < fields.len(),
    ensures
        lookup(fields, fields[i].0) == Some(fields[i].1),
    decreases fields.len(),
{
    if i > 0 {
        assert(key_before(fields[0].0, fields[i].0));
        lemma_key_irreflexive(fields[0].0);
        assert forall|a: int, b: int| 0 <= a < b < fields.skip(1).len() implies key_before(
            #[trigger] fields.skip(1)[a].0,
            #[trigger] fields.skip(1)[b].0,
        ) by {
            assert(fields.skip(1)[a] == fields[a + 1]);
            assert(fields.skip(1)[b] == fields[b + 1]);
        }
        law_every_field_is_found(fields.skip(1), i - 1);
        assert(fields.skip(1)[i - 1] == fields[i]);
    }
}

/// A field that was taken out is gone, and every other field is as it was.
pub proof fn law_lookup_after_remove(
    fields: Seq<(Seq<char>, JsonView)>,
    key: Seq<char>,
    other: Seq<char>,
)
    requires
        sorted(fields),
    ensures
        lookup(removed(fields, key), other) == (if other == key {
            None
        } else {
            lookup(fields, other)
        }),
    decreases fields.len(),
{
    if fields.len() > 0 {
        assert(sorted(fields.skip(1))) by {
            assert forall|i: int, j: int| 0 <= i < j < fields.skip(1).len() implies key_before(
                #[trigger] fields.skip(1)[i].0,
                #[trigger] fields.skip(1)[j].0,
            ) by {
                assert(fields.skip(1)[i] == fields[i + 1]);
                assert(fields.skip(1)[j] == fields[j + 1]);
            }
        }
        if fields[0].0 == key {
            if other == key {
                assert forall|i: int| 0 <= i < fields.skip(1).len() implies (
                #[trigger] fields.skip(1)[i]).0 != key by {
                    assert(fields.skip(1)[i] == fields[i + 1]);
                    assert(key_before(fields[0].0, fields[i + 1].0));
                    lemma_key_irreflexive(key);
                }
                lemma_lookup_none(fields.skip(1), key);
            }
        } else {
            law_lookup_after_remove(fields.skip(1), key, other);
            assert(removed(fields, key).skip(1) =~= removed(fields.skip(1), key));
        }
    }
}

// ── What an object is ───────────────────────────────────────────────────

/// A key is not found exactly when no field has it.
pub proof fn law_absent_keys_are_not_found(fields: Seq<(Seq<char>, JsonView)>, key: Seq<char>)
    ensures
        lookup(fields, key) is None <==> forall|i: int|
            0 <= i < fields.len() ==> (#[trigger] fields[i]).0 != key,
{
    if lookup(fields, key) is Some {
        lemma_found_is_a_field(fields, key);
    } else {
        lemma_not_found(fields, key);
    }
    if forall|i: int| 0 <= i < fields.len() ==> (#[trigger] fields[i]).0 != key {
        lemma_lookup_none(fields, key);
    }
}

/// A key that is not found is that of no field.
proof fn lemma_not_found(fields: Seq<(Seq<char>, JsonView)>, key: Seq<char>)
    requires
        lookup(fields, key) is None,
    ensures
        forall|i: int| 0 <= i < fields.len() ==> (#[trigger] fields[i]).0 != key,
    decreases fields.len(),
{
    if fields.len() > 0 {
        lemma_not_found(fields.skip(1), key);
        assert forall|i: int| 0 <= i < fields.len() implies (#[trigger] fields[i]).0 != key by {
            if i > 0 {
                assert(fields[i] == fields.skip(1)[i - 1]);
            }
        }
    }
}

/// The fields behind the first one are in order, and hold what the fields hold but for
/// the first key.
proof fn lemma_rest_of_fields(fields: Seq<(Seq<char>, JsonView)>, key: Seq<char>)
    requires
        sorted(fields),
        fields.len() > 0,
    ensures
        sorted(fields.skip(1)),
        lookup(fields.skip(1), key) == (if key == fields[0].0 {
            None
        } else {
            lookup(fields, key)
        }),
{
    assert forall|a: int, b: int| 0 <= a < b < fields.skip(1).len() implies key_before(
        #[trigger] fields.skip(1)[a].0,
        #[trigger] fields.skip(1)[b].0,
    ) by {
        assert(fields.skip(1)[a] == fields[a + 1]);
        assert(fields.skip(1)[b] == fields[b + 1]);
    }
    if key == fields[0].0 {
        lemma_key_irreflexive(key);
        assert forall|i: int| 0 <= i < fields.skip(1).len() implies (#[trigger] fields.skip(
            1,
        )[i]).0 != key by {
            assert(fields.skip(1)[i] == fields[i + 1]);
            assert(key_before(fields[0].0, fields[i + 1].0));
        }
        lemma_lookup_none(fields.skip(1), key);
    }
}

/// The first key of sorted fields that hold `key` does not come behind it.
proof fn lemma_first_key_is_least(fields: Seq<(Seq<char>, JsonView)>, key: Seq<char>)
    requires
        sorted(fields),
        lookup(fields, key) is Some,
    ensures
        fields.len() > 0,
        !key_before(key, fields[0].0),
{
    lemma_found_is_a_field(fields, key);
    let j = choose|j: int|
        0 <= j < fields.len() && #[trigger] fields[j] == (key, lookup(fields, key)->0);
    lemma_key_irreflexive(key);
    if j > 0 && key_before(key, fields[0].0) {
        assert(key_before(fields[0].0, fields[j].0));
        lemma_key_transitive(key, fields[0].0, key);
    }
}

/// An object is what its fields are: two objects in which every key finds the same are
/// the same.
pub proof fn law_objects_are_their_fields(
    a: Seq<(Seq<char>, JsonView)>,
    b: Seq<(Seq<char>, JsonView)>,
)
    requires
        sorted(a),
        sorted(b),
        forall|key: Seq<char>| #[trigger] lookup(a, key) == lookup(b, key),
    ensures
        a == b,
    decreases a.len(),
{
    if a.len() == 0 {
        if b.len() > 0 {
            assert(lookup(a, b[0].0) == lookup(b, b[0].0));
        }
        assert(a =~= b);
    } else {
        assert(lookup(a, a[0].0) == lookup(b, a[0].0));
        lemma_first_key_is_least(b, a[0].0);
        assert(lookup(a, b[0].0) == lookup(b, b[0].0));
        lemma_first_key_is_least(a, b[0].0);
        if a[0].0 != b[0].0 {
            lemma_key_total(a[0].0, b[0].0);
        }
        assert forall|key: Seq<char>| #[trigger] lookup(a.skip(1), key) == lookup(b.skip(1), key) by {
            lemma_rest_of_fields(a, key);
            lemma_rest_of_fields(b, key);
            assert(lookup(a, key) == lookup(b, key));
        }
        lemma_rest_of_fields(a, a[0].0);
        lemma_rest_of_fields(b, b[0].0);
        law_objects_are_their_fields(a.skip(1), b.skip(1));
        assert(a =~= seq![a[0]] + a.skip(1));
        assert(b =~= seq![b[0]] + b.skip(1));
    }
}

/// The order of keys is a strict total order: no key comes before itself, of two keys
/// one comes before the other, and what comes before a key comes before those behind
/// it.
pub proof fn law_keys_are_totally_ordered(a: Seq<char>, b: Seq<char>, c: Seq<char>)
    ensures
        !key_before(a, a),
        a == b || key_before(a, b) || key_before(b, a),
        key_before(a, b) && key_before(b, c) ==> key_before(a, c),
{
    lemma_key_irreflexive(a);
    if a != b {
        lemma_key_total(a, b);
    }
    if key_before(a, b) && key_before(b, c) {
        lemma_key_transitive(a, b, c);
    }
}

/// The order of two keys is that of the first characters in which they differ, and a
/// key comes before its continuations.
pub proof fn law_keys_are_ordered_by_characters(
    common: Seq<char>,
    x: char,
    y: char,
    a: Seq<char>,
    b: Seq<char>,
)
    ensures
        x < y ==> key_before(common + seq![x] + a, common + seq![y] + b),
        key_before(common, common + seq![x] + a),
    decreases common.len(),
{
    let left = common + seq![x] + a;
    let right = common + seq![y] + b;
    if common.len() > 0 {
        law_keys_are_ordered_by_characters(common.skip(1), x, y, a, b);
        assert(left.skip(1) =~= common.skip(1) + seq![x] + a);
        assert(right.skip(1) =~= common.skip(1) + seq![y] + b);
    }
}

/// The keys of an object, listed, are the keys under which something is found, one
/// for each field.
pub proof fn law_key_lists_name_the_fields(fields: Seq<(Seq<char>, JsonView)>, key: Seq<char>)
    ensures
        key_list(fields).len() == fields.len(),
        key_list(fields).contains(JsonView::Str(key)) <==> lookup(fields, key) is Some,
        forall|i: int|
            0 <= i < fields.len() ==> #[trigger] key_list(fields)[i] == JsonView::Str(fields[i].0),
{
    law_absent_keys_are_not_found(fields, key);
    if lookup(fields, key) is Some {
        lemma_found_is_a_field(fields, key);
        let i = choose|i: int|
            0 <= i < fields.len() && #[trigger] fields[i] == (key, lookup(fields, key)->0);
        assert(key_list(fields)[i] == JsonView::Str(key));
    }
    if key_list(fields).contains(JsonView::Str(key)) {
        let i = choose|i: int|
            0 <= i < key_list(fields).len() && key_list(fields)[i] == JsonView::Str(key);
        assert(fields[i].0 == key);
    }
}

/// An object that is built from entries holds the last value that is given for a key,
/// and no other key.
pub proof fn law_built_objects_hold_the_last_entries(
    before: Seq<(Seq<char>, JsonView)>,
    entry: (Seq<char>, JsonView),
    behind: Seq<(Seq<char>, JsonView)>,
    key: Seq<char>,
)
    requires
        forall|i: int| 0 <= i < behind.len() ==> (#[trigger] behind[i]).0 != key,
    ensures
        entry.0 == key ==> lookup(built(before.push(entry) + behind), key) == Some(entry.1),
        lookup(built(behind), key) is None,
    decreases behind.len(),
{
    let all = before.push(entry) + behind;
    if behind.len() == 0 {
        assert(all =~= before.push(entry));
        assert(all.drop_last() =~= before);
        law_lookup_after_insert(built(before), entry.0, entry.1, key);
    } else {
        let shorter = behind.drop_last();
        assert forall|i: int| 0 <= i < shorter.len() implies (#[trigger] shorter[i]).0 != key by {
            assert(shorter[i] == behind[i]);
        }
        law_built_objects_hold_the_last_entries(before, entry, shorter, key);
        assert(all.drop_last() =~= before.push(entry) + shorter);
        assert(behind[behind.len() - 1].0 != key);
        law_lookup_after_insert(
            built(before.push(entry) + shorter),
            behind.last().0,
            behind.last().1,
            key,
        );
        law_lookup_after_insert(built(shorter), behind.last().0, behind.last().1, key);
    }
}

/// A value is read as what it is, whatever it holds, and as nothing else.
pub proof fn law_values_are_read_as_what_they_are(
    value: JsonView,
    s: Seq<char>,
    items: Seq<JsonView>,
    fields: Seq<(Seq<char>, JsonView)>,
    n: u64,
)
    ensures
        value.text() == Some(s) <==> value == JsonView::Str(s),
        value.items() == Some(items) <==> value == JsonView::Array(items),
        value.fields() == Some(fields) <==> value == JsonView::Object(fields),
        value.unsigned() == Some(n) <==> value == json_unsigned(n),
        json_unsigned(n) == JsonView::Number(JsonNumber::Unsigned(n)),
{
}

/// A field is read from an object as its field is found, and from nothing else; its
/// text and its items are those of the value in it.
pub proof fn law_fields_are_read_from_objects(value: JsonView, key: Seq<char>)
    ensures
        value is Object ==> value.get(key) == lookup(value->Object_0, key),
        !(value is Object) ==> value.get(key) is None,
        forall|s: Seq<char>| #[trigger]
            value.text_at(key) == Some(s) <==> value.get(key) == Some(JsonView::Str(s)),
        forall|items: Seq<JsonView>| #[trigger]
            value.items_at(key) == Some(items) <==> value.get(key) == Some(JsonView::Array(items)),
{
}

/// A list of values stands for the list of what they stand for, one for one, and a list
/// of fields for the list of their keys and values.
pub proof fn law_views_keep_every_item(items: Vec<Json>, fields: Vec<(String, Json)>)
    ensures
        Json::Array(items)@ matches JsonView::Array(s) && s.len() == items@.len() && forall|i: int|
            0 <= i < s.len() ==> #[trigger] s[i] == items@[i]@,
        Json::Object(fields)@ matches JsonView::Object(s) && s.len() == fields@.len() && forall|
            i: int,
        |
            0 <= i < s.len() ==> #[trigger] s[i] == (fields@[i].0@, fields@[i].1@),
{
    broadcast use {lemma_array_view, lemma_object_view};

}

/// A null, a truth value, a number and a string stand for themselves.
pub proof fn law_views_keep_the_rest(b: bool, n: JsonNumber, s: String)
    ensures
        Json::Null@ == JsonView::Null,
        Json::Bool(b)@ == JsonView::Bool(b),
        Json::Number(n)@ == JsonView::Number(n),
        Json::Str(s)@ == JsonView::Str(s@),
{
}

// ── Copying ─────────────────────────────────────────────────────────────

impl Clone for JsonNumber {
    fn clone(&self) -> (r: JsonNumber)
        ensures
            r == *self,
    {
        match self {
            JsonNumber::Unsigned(n) => JsonNumber::Unsigned(*n),
            JsonNumber::Negative(i) => JsonNumber::Negative(*i),
            JsonNumber::Real(n) => JsonNumber::Real(n.clone()),
        }
    }
}

impl Clone for Json {
    fn clone(&self) -> (r: Json)
        ensures
            r@ == self@,
        decreases self,
    {
        broadcast use {lemma_array_view, lemma_object_view};

        match self {
            Json::Null => Json::Null,
            Json::Bool(b) => Json::Bool(*b),
            Json::Number(n) => Json::Number(n.clone()),
            Json::Str(s) => Json::Str(s.clone()),
            Json::Array(items) => {
                let mut out: Vec<Json> = Vec::new();
                let mut i: usize = 0;
                while i < items.len()
                    invariant
                        *self == Json::Array(*items),
                        i <= items@.len(),
                        items_view(out@) == items_view(items@).take(i as int),
                    decreases items@.len() - i,
                {
                    assert(decreases_to!(*self => self->Array_0@[i as int]));
                    let ghost done = items_view(out@);
                    let item: Json = items[i].clone();
                    out.push(item);
                    i += 1;
                    assert(items_view(out@) =~= done.push(item@));
                    assert(items_view(out@) =~= items_view(items@).take(i as int));
                }
                assert(items_view(out@) =~= items_view(items@));
                Json::Array(out)
            },
            Json::Object(fields) => {
                let mut out: Vec<(String, Json)> = Vec::new();
                let mut i: usize = 0;
                while i < fields.len()
                    invariant
                        *self == Json::Object(*fields),
                        i <= fields@.len(),
                        fields_view(out@) == fields_view(fields@).take(i as int),
                    decreases fields@.len() - i,
                {
                    assert(decreases_to!(*self => self->Object_0@[i as int].1));
                    let ghost done = fields_view(out@);
                    let key: String = fields[i].0.clone();
                    let value: Json = fields[i].1.clone();
                    out.push((key, value));
                    i += 1;
                    assert(fields_view(out@) =~= done.push((key@, value@)));
                    assert(fields_view(out@) =~= fields_view(fields@).take(i as int));
                }
                assert(fields_view(out@) =~= fields_view(fields@));
                Json::Object(out)
            },
        }
    }
}

// ── Working with fields ─────────────────────────────────────────────────

/// True exactly when `a` comes before `b`.
fn comes_before(a: &str, b: &str) -> (r: bool)
    ensures
        r == key_before(a@, b@),
{
    let left: Vec<char> = chars_of(a);
    let right: Vec<char> = chars_of(b);
    let mut i: usize = 0;
    assert(left@.skip(0) == left@);
    assert(right@.skip(0) == right@);
    while i < left.len() && i < right.len()
        invariant
            left@ == a@,
            right@ == b@,
            i <= left@.len(),
            i <= right@.len(),
            key_before(a@, b@) == key_before(left@.skip(i as int), right@.skip(i as int)),
        decreases left@.len() - i,
    {
        if left[i] != right[i] {
            return left[i] < right[i];
        }
        assert(left@.skip(i as int).skip(1) == left@.skip(i + 1));
        assert(right@.skip(i as int).skip(1) == right@.skip(i + 1));
        i += 1;
    }
    i < right.len()
}

/// The value of the field `key`.
pub fn find_field<'a>(fields: &'a Vec<(String, Json)>, key: &str) -> (r: Option<&'a Json>)
    ensures
        match r {
            Some(v) => lookup(fields_view(fields@), key@) == Some(v@),
            None => lookup(fields_view(fields@), key@) is None,
        },
{
    let ghost all = fields_view(fields@);
    let mut i: usize = 0;
    assert(all.skip(0) == all);
    while i < fields.len()
        invariant
            all == fields_view(fields@),
            i <= fields@.len(),
            lookup(all, key@) == lookup(all.skip(i as int), key@),
        decreases fields@.len() - i,
    {
        assert(all.skip(i as int)[0] == all[i as int]);
        assert(all.skip(i as int).skip(1) == all.skip(i + 1));
        if same(fields[i].0.as_str(), key) {
            return Some(&fields[i].1);
        }
        i += 1;
    }
    None
}

/// No fields.
pub fn no_fields() -> (r: Vec<(String, Json)>)
    ensures
        fields_view(r@) == Seq::<(Seq<char>, JsonView)>::empty(),
{
    let r: Vec<(String, Json)> = Vec::new();
    assert(fields_view(r@) =~= Seq::empty());
    r
}

/// Where no key up to `i` is `key` or comes behind it, setting `key` leaves
/// the first `i` fields alone.
proof fn lemma_inserted_behind(
    fields: Seq<(Seq<char>, JsonView)>,
    key: Seq<char>,
    value: JsonView,
    i: int,
)
    requires
        0 <= i <= fields.len(),
        forall|j: int|
            0 <= j < i ==> (#[trigger] fields[j]).0 != key && !key_before(key, fields[j].0),
    ensures
        inserted(fields, key, value) == fields.take(i) + inserted(fields.skip(i), key, value),
    decreases i,
{
    if i == 0 {
        assert(fields.skip(0) == fields);
        assert(inserted(fields, key, value) =~= fields.take(0) + inserted(
            fields.skip(0),
            key,
            value,
        ));
    } else {
        assert(fields[0].0 != key && !key_before(key, fields[0].0));
        assert forall|j: int| 0 <= j < i - 1 implies (#[trigger] fields.skip(1)[j]).0 != key
            && !key_before(key, fields.skip(1)[j].0) by {
            assert(fields.skip(1)[j] == fields[j + 1]);
        }
        lemma_inserted_behind(fields.skip(1), key, value, i - 1);
        assert(fields.skip(1).skip(i - 1) == fields.skip(i));
        assert(seq![fields[0]] + (fields.skip(1).take(i - 1) + inserted(
            fields.skip(i),
            key,
            value,
        )) =~= fields.take(i) + inserted(fields.skip(i), key, value));
    }
}

/// Sets the field `key` to `value`.
pub fn insert_field(fields: &mut Vec<(String, Json)>, key: &str, value: Json)
    ensures
        fields_view(final(fields)@) == inserted(fields_view(old(fields)@), key@, value@),
{
    let ghost before = fields_view(fields@);
    let mut i: usize = 0;
    while i < fields.len() && !same(fields[i].0.as_str(), key) && !comes_before(
        key,
        fields[i].0.as_str(),
    )
        invariant
            before == fields_view(fields@),
            i <= fields@.len(),
            forall|j: int|
                0 <= j < i ==> (#[trigger] before[j]).0 != key@ && !key_before(key@, before[j].0),
        decreases fields@.len() - i,
    {
        assert(before[i as int].0 == fields@[i as int].0@);
        i += 1;
    }
    proof {
        lemma_inserted_behind(before, key@, value@, i as int);
        if i < before.len() {
            assert(before.skip(i as int)[0] == before[i as int]);
        }
    }
    let field: (String, Json) = (key.to_owned(), value);
    if i < fields.len() && same(fields[i].0.as_str(), key) {
        fields.set(i, field);
        assert(fields_view(fields@) =~= inserted(before, key@, value@));
    } else {
        fields.insert(i, field);
        assert(fields_view(fields@) =~= inserted(before, key@, value@));
    }
}

/// Where none of the first `i` keys is `key`, taking `key` out leaves them
/// alone.
proof fn lemma_removed_behind(fields: Seq<(Seq<char>, JsonView)>, key: Seq<char>, i: int)
    requires
        0 <= i <= fields.len(),
        forall|j: int| 0 <= j < i ==> (#[trigger] fields[j]).0 != key,
    ensures
        removed(fields, key) == fields.take(i) + removed(fields.skip(i), key),
        lookup(fields, key) == lookup(fields.skip(i), key),
    decreases i,
{
    if i == 0 {
        assert(fields.skip(0) == fields);
        assert(removed(fields, key) =~= fields.take(0) + removed(fields.skip(0), key));
    } else {
        assert(fields[0].0 != key);
        assert forall|j: int| 0 <= j < i - 1 implies (#[trigger] fields.skip(1)[j]).0 != key by {
            assert(fields.skip(1)[j] == fields[j + 1]);
        }
        lemma_removed_behind(fields.skip(1), key, i - 1);
        assert(fields.skip(1).skip(i - 1) == fields.skip(i));
        assert(seq![fields[0]] + (fields.skip(1).take(i - 1) + removed(fields.skip(i), key))
            =~= fields.take(i) + removed(fields.skip(i), key));
    }
}

/// Takes the field `key` out and hands back its value.
pub fn remove_field(fields: &mut Vec<(String, Json)>, key: &str) -> (r: Option<Json>)
    ensures
        fields_view(final(fields)@) == removed(fields_view(old(fields)@), key@),
        match r {
            Some(v) => lookup(fields_view(old(fields)@), key@) == Some(v@),
            None => lookup(fields_view(old(fields)@), key@) is None,
        },
{
    let ghost before = fields_view(fields@);
    let mut i: usize = 0;
    while i < fields.len() && !same(fields[i].0.as_str(), key)
        invariant
            before == fields_view(fields@),
            i <= fields@.len(),
            forall|j: int| 0 <= j < i ==> (#[trigger] before[j]).0 != key@,
        decreases fields@.len() - i,
    {
        assert(before[i as int].0 == fields@[i as int].0@);
        i += 1;
    }
    proof {
        lemma_removed_behind(before, key@, i as int);
        if i < before.len() {
            assert(before.skip(i as int)[0] == before[i as int]);
        }
    }
    if i < fields.len() {
        let field: (String, Json) = fields.remove(i);
        assert(fields_view(fields@) =~= removed(before, key@));
        Some(field.1)
    } else {
        assert(fields_view(fields@) =~= removed(before, key@));
        None
    }
}

impl Json {
    /// The object made by setting the given fields one after the other.
    pub fn object(entries: Vec<(&str, Json)>) -> (r: Json)
        ensures
            r@ == JsonView::Object(
                built(Seq::new(entries@.len(), |i: int| (entries@[i].0@, entries@[i].1@))),
            ),
    {
        broadcast use lemma_object_view;

        let ghost all = Seq::new(entries@.len(), |i: int| (entries@[i].0@, entries@[i].1@));
        let mut fields: Vec<(String, Json)> = Vec::new();
        let mut i: usize = 0;
        assert(fields_view(fields@) =~= built(all.take(0)));
        while i < entries.len()
            invariant
                i <= entries@.len(),
                all == Seq::new(entries@.len(), |i: int| (entries@[i].0@, entries@[i].1@)),
                fields_view(fields@) == built(all.take(i as int)),
            decreases entries@.len() - i,
        {
            insert_field(&mut fields, entries[i].0, entries[i].1.clone());
            assert(all.take(i + 1).drop_last() == all.take(i as int));
            i += 1;
        }
        assert(all.take(i as int) == all);
        Json::Object(fields)
    }

    /// A JSON string.
    pub fn string(s: &str) -> (r: Json)
        ensures
            r@ == JsonView::Str(s@),
    {
        Json::Str(s.to_owned())
    }

    /// A JSON integer from zero up.
    pub fn unsigned(n: u64) -> (r: Json)
        ensures
            r@ == json_unsigned(n),
    {
        Json::Number(JsonNumber::Unsigned(n))
    }

    /// The field `key` of an object.
    pub fn get(&self, key: &str) -> (r: Option<&Json>)
        ensures
            match r {
                Some(v) => self@.get(key@) == Some(v@),
                None => self@.get(key@) is None,
            },
    {
        broadcast use lemma_object_view;

        match self {
            Json::Object(fields) => find_field(fields, key),
            _ => None,
        }
    }

    /// The text of a string.
    pub fn as_str(&self) -> (r: Option<&str>)
        ensures
            match r {
                Some(s) => self@.text() == Some(s@),
                None => self@.text() is None,
            },
    {
        match self {
            Json::Str(s) => Some(s.as_str()),
            _ => None,
        }
    }

    /// The items of an array.
    pub fn as_array(&self) -> (r: Option<&Vec<Json>>)
        ensures
            match r {
                Some(items) => self@.items() == Some(items_view(items@)),
                None => self@.items() is None,
            },
    {
        broadcast use lemma_array_view;

        match self {
            Json::Array(items) => Some(items),
            _ => None,
        }
    }

    /// The fields of an object.
    pub fn as_object(&self) -> (r: Option<&Vec<(String, Json)>>)
        ensures
            match r {
                Some(fields) => self@.fields() == Some(fields_view(fields@)),
                None => self@.fields() is None,
            },
    {
        broadcast use lemma_object_view;

        match self {
            Json::Object(fields) => Some(fields),
            _ => None,
        }
    }

    /// An integer from zero up.
    pub fn as_u64(&self) -> (r: Option<u64>)
        ensures
            r == self@.unsigned(),
    {
        match self {
            Json::Number(JsonNumber::Unsigned(n)) => Some(*n),
            _ => None,
        }
    }

    /// The text of the field `key`, when it is a string.
    pub fn str_at(&self, key: &str) -> (r: Option<&str>)
        ensures
            match r {
                Some(s) => self@.text_at(key@) == Some(s@),
                None => self@.text_at(key@) is None,
            },
    {
        match self.get(key) {
            Some(v) => v.as_str(),
            None => None,
        }
    }

    /// The items of the field `key`, when it is an array.
    pub fn array_at(&self, key: &str) -> (r: Option<&Vec<Json>>)
        ensures
            match r {
                Some(items) => self@.items_at(key@) == Some(items_view(items@)),
                None => self@.items_at(key@) is None,
            },
    {
        match self.get(key) {
            Some(v) => v.as_array(),
            None => None,
        }
    }

    /// True exactly when the field `key` is the string `text`.
    pub fn says(&self, key: &str, text: &str) -> (r: bool)
        ensures
            r == (self@.text_at(key@) == Some(text@)),
    {
        match self.str_at(key) {
            Some(s) => same(s, text),
            None => false,
        }
    }
}

// ── Text ────────────────────────────────────────────────────────────────

/// `serde_json::Value`, the value that the JSON reader and writer work on.
#[verifier::external_type_specification]
#[verifier::external_body]
pub struct ExValue(serde_json::Value);

/// Changes a `serde_json::Value` into a [`Json`], variant by variant. Nothing
/// is claimed of it by itself: it is the last step of [`parse`].
#[verifier::external_body]
fn from_value(value: serde_json::Value) -> (r: Json) {
    match value {
        serde_json::Value::Null => Json::Null,
        serde_json::Value::Bool(b) => Json::Bool(b),
        serde_json::Value::Number(n) => Json::Number(match (n.as_u64(), n.as_i64()) {
            (Some(u), _) => JsonNumber::Unsigned(u),
            (None, Some(i)) => JsonNumber::Negative(i),
            (None, None) => JsonNumber::Real(n),
        }),
        serde_json::Value::String(s) => Json::Str(s),
        serde_json::Value::Array(items) => Json::Array(items.into_iter().map(from_value).collect()),
        serde_json::Value::Object(fields) => Json::Object(fields.into_iter().map(|f| (f.0, from_value(f.1))).collect()),
    }
}

/// Changes a [`Json`] into a `serde_json::Value`, variant by variant. Nothing
/// is claimed of it by itself: it is the first step of [`to_text`].
#[verifier::external_body]
fn to_value(json: &Json) -> (r: serde_json::Value) {
    match json {
        Json::Null => serde_json::Value::Null,
        Json::Bool(b) => serde_json::Value::Bool(*b),
        Json::Number(JsonNumber::Unsigned(u)) => serde_json::Value::from(*u),
        Json::Number(JsonNumber::Negative(i)) => serde_json::Value::from(*i),
        Json::Number(JsonNumber::Real(n)) => serde_json::Value::Number(n.clone()),
        Json::Str(s) => serde_json::Value::String(s.clone()),
        Json::Array(items) => serde_json::Value::Array(items.iter().map(to_value).collect()),
        Json::Object(fields) => serde_json::Value::Object(fields.iter().map(|f| (f.0.clone(), to_value(&f.1))).collect()),
    }
}

/// What `serde_json::from_slice` reads from the bytes: a value, or the text of
/// its error.
pub uninterp spec fn parsed(bytes: Seq<u8>) -> Result<JsonView, Seq<char>>;

/// `serde_json::from_slice` into a `Value`: the value or the text of the error,
/// a function of the bytes alone. The value is well formed: `serde_json` keeps the
/// fields of an object in a map that is ordered by the keys, and tells integers
/// below zero from the others.
#[verifier::external_body]
pub(crate) fn parse(bytes: &[u8]) -> (r: Result<Json, String>)
    ensures
        match r {
            Ok(json) => parsed(bytes@) == Ok::<JsonView, Seq<char>>(json@) && json@.well_formed(),
            Err(error) => parsed(bytes@) == Err::<JsonView, Seq<char>>(error@),
        },
{
    serde_json::from_slice(bytes).map(from_value).map_err(|e| e.to_string())
}

/// What `serde_json::from_str` has against the text; `None` when it is JSON.
pub uninterp spec fn syntax_error(text: Seq<char>) -> Option<Seq<char>>;

/// `serde_json::from_str` into a `Value` that is thrown away: the text of the
/// error, a function of the characters alone, or nothing when the text is JSON.
#[verifier::external_body]
pub(crate) fn check_syntax(text: &str) -> (r: Option<String>)
    ensures
        match r {
            Some(error) => syntax_error(text@) == Some(error@),
            None => syntax_error(text@) is None,
        },
{
    serde_json::from_str::<serde_json::Value>(text).map_err(|e| e.to_string()).err()
}

/// What `serde_json` writes for a value, without white space.
pub uninterp spec fn compact(value: JsonView) -> Seq<char>;

/// `serde_json::Value::to_string`: the compact JSON text, a function of the
/// value alone.
#[verifier::external_body]
pub(crate) fn to_text(json: &Json) -> (r: String)
    ensures
        r@ == compact(json@),
{
    to_value(json).to_string()
}

} // verus!
