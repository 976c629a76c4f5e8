//! JSON values as the service sends them. The parser and the printer are
//! `serde_json`'s, called through the trusted functions at the end of this
//! file; what is read from a value, and how it is reshaped, is verified here.

use vstd::prelude::*;
use vstd::string::StringExecFns;
use crate::error::ComciganError;

verus! {

/// The parser's own number. It is carried along as it is where it is no
/// whole number from zero up.
#[verifier::external_type_specification]
#[verifier::external_body]
pub struct ExParsedNumber(serde_json::Number);

/// A number of a JSON text, as a mathematical value: a whole number from
/// zero up, or any other number as the parser holds it.
pub enum NumberView {
    Whole(int),
    Other(serde_json::Number),
}

/// A JSON value as a mathematical tree.
#[verifier::ext_equal]
pub enum Json {
    Null,
    Bool(bool),
    Number(NumberView),
    Text(Seq<char>),
    Array(Seq<Json>),
    Object(Seq<(Seq<char>, Json)>),
}

/// A number of a JSON text. The whole numbers from zero up are the ones
/// that the service's protocol uses; a number below zero or a real number is
/// kept as the parser made it.
#[derive(Debug, PartialEq, Eq)]
pub enum JsonNumber {
    Unsigned(u64),
    Other(serde_json::Number),
}

impl View for JsonNumber {
    type V = NumberView;

    open spec fn view(&self) -> NumberView {
        match *self {
            JsonNumber::Unsigned(n) => NumberView::Whole(n as int),
            JsonNumber::Other(n) => NumberView::Other(n),
        }
    }
}

impl Clone for JsonNumber {
    fn clone(&self) -> (out: Self)
        ensures
            out@ == self@,
    {
        match self {
            JsonNumber::Unsigned(n) => JsonNumber::Unsigned(*n),
            JsonNumber::Other(n) => JsonNumber::Other(copy_number(n)),
        }
    }
}

/// A JSON value. The entries of an object are kept in the order of their
/// keys.
#[derive(Debug, PartialEq, Eq)]
pub enum JsonValue {
    Null,
    Bool(bool),
    Number(JsonNumber),
    String(String),
    Array(Vec<JsonValue>),
    Object(Vec<(String, JsonValue)>),
}

impl View for JsonValue {
    type V = Json;

    open spec fn view(&self) -> Json
        decreases self,
    {
        match self {
            JsonValue::Null => Json::Null,
            JsonValue::Bool(b) => Json::Bool(*b),
            JsonValue::Number(n) => Json::Number(n@),
            JsonValue::String(s) => Json::Text(s@),
            JsonValue::Array(items) => Json::Array(
                Seq::new(
                    items@.len(),
                    |i: int|
                        if 0 <= i < items@.len() {
                            items@[i].view()
                        } else {
                            Json::Null
                        },
                ),
            ),
            JsonValue::Object(entries) => Json::Object(
                Seq::new(
                    entries@.len(),
                    |i: int|
                        if 0 <= i < entries@.len() {
                            (entries@[i].0@, entries@[i].1.view())
                        } else {
                            (Seq::empty(), Json::Null)
                        },
                ),
            ),
        }
    }
}

/// The trees of a list of values.
pub open spec fn trees(values: Seq<JsonValue>) -> Seq<Json> {
    Seq::new(values.len(), |i: int| values[i]@)
}

/// What an array holds is the trees of its items.
pub proof fn lemma_array_view(value: JsonValue)
    requires
        value is Array,
    ensures
        value@ == Json::Array(trees(value->Array_0@)),
{
    assert(value@->Array_0 =~= trees(value->Array_0@));
}

/// The keys and trees of a list of entries.
pub open spec fn members(entries: Seq<(String, JsonValue)>) -> Seq<(Seq<char>, Json)> {
    Seq::new(entries.len(), |i: int| (entries[i].0@, entries[i].1@))
}

/// What an object holds is the keys and trees of its entries.
pub proof fn lemma_object_view(value: JsonValue)
    requires
        value is Object,
    ensures
        value@ == Json::Object(members(value->Object_0@)),
{
    reveal_with_fuel(<JsonValue as View>::view, 2);
    assert(value@->Object_0 =~= members(value->Object_0@));
}

impl JsonValue {
    /// A deep copy of the value.
    pub fn duplicate(&self) -> (out: JsonValue)
        ensures
            out@ == self@,
        decreases self,
    {
        match self {
            JsonValue::Null => JsonValue::Null,
            JsonValue::Bool(b) => JsonValue::Bool(*b),
            JsonValue::Number(n) => JsonValue::Number(n.clone()),
            JsonValue::String(s) => JsonValue::String(s.clone()),
            JsonValue::Array(items) => {
                let mut copy: Vec<JsonValue> = Vec::new();
                let mut i: usize = 0;
                while i < items.len()
                    invariant
                        self is Array,
                        self->Array_0 == *items,
                        i <= items.len(),
                        copy@.len() == i,
                        forall|k: int| 0 <= k < i ==> (#[trigger] copy@[k])@ == items@[k]@,
                    decreases items.len() - i,
                {
                    let item = items[i].duplicate();
                    copy.push(item);
                    i = i + 1;
                }
                let out = JsonValue::Array(copy);
                assert(out@->Array_0 =~= self@->Array_0);
                out
            },
            JsonValue::Object(entries) => {
                let mut copy: Vec<(String, JsonValue)> = Vec::new();
                let mut i: usize = 0;
                while i < entries.len()
                    invariant
                        self is Object,
                        self->Object_0 == *entries,
                        i <= entries.len(),
                        copy@.len() == i,
                        forall|k: int|
                            0 <= k < i ==> (#[trigger] copy@[k]).0@ == entries@[k].0@ && copy@[k].1@
                                == entries@[k].1@,
                    decreases entries.len() - i,
                {
                    let item = entries[i].1.duplicate();
                    copy.push((entries[i].0.clone(), item));
                    i = i + 1;
                }
                let out = JsonValue::Object(copy);
                proof {
                    reveal_with_fuel(<JsonValue as View>::view, 2);
                }
                assert forall|k: int| 0 <= k < entries@.len() implies out@->Object_0[k]
                    == self@->Object_0[k] by {
                    assert(copy@[k].0@ == entries@[k].0@);
                }
                assert(out@->Object_0 =~= self@->Object_0);
                out
            },
        }
    }
}

/// The tree under the first entry of `entries` that has the key.
pub open spec fn first_with_key(entries: Seq<(Seq<char>, Json)>, key: Seq<char>) -> Option<Json>
    decreases entries.len(),
{
    if entries.len() == 0 {
        None
    } else if entries[0].0 == key {
        Some(entries[0].1)
    } else {
        first_with_key(entries.drop_first(), key)
    }
}

/// The tree that an object holds under a key; `None` where the tree is no
/// object or has no such key.
pub open spec fn field_of(tree: Json, key: Seq<char>) -> Option<Json> {
    match tree {
        Json::Object(entries) => first_with_key(entries, key),
        _ => None,
    }
}

/// The number of a timetable cell or an id: a whole number that fits 32
/// bits.
pub open spec fn code_of(tree: Json) -> Option<u32> {
    match tree {
        Json::Number(NumberView::Whole(n)) => if 0 <= n <= u32::MAX {
            Some(n as u32)
        } else {
            None
        },
        _ => None,
    }
}

/// The text of a JSON string.
pub open spec fn text_of(tree: Json) -> Option<Seq<char>> {
    match tree {
        Json::Text(text) => Some(text),
        _ => None,
    }
}

/// The deepest nesting of arrays and objects that a document may have.
/// The parser itself gives up beyond it.
pub const DEPTH_LIMIT: usize = 128;

/// Whether the arrays and objects of a tree are nested no deeper than
/// `depth`.
pub open spec fn within_depth(tree: Json, depth: nat) -> bool
    decreases depth,
{
    match tree {
        Json::Array(items) => depth > 0 && forall|i: int|
            0 <= i < items.len() ==> within_depth(#[trigger] items[i], (depth - 1) as nat),
        Json::Object(entries) => depth > 0 && forall|i: int|
            0 <= i < entries.len() ==> within_depth((#[trigger] entries[i]).1, (depth - 1) as nat),
        _ => true,
    }
}

/// The items of an array are nested one level less deeply than the array.
pub proof fn lemma_within_depth_item(tree: Json, depth: nat, i: int)
    requires
        within_depth(tree, depth),
        tree is Array,
        0 <= i < tree->Array_0.len(),
    ensures
        depth > 0,
        within_depth(tree->Array_0[i], (depth - 1) as nat),
{
    reveal_with_fuel(within_depth, 2);
    let items = tree->Array_0;
    assert(tree == Json::Array(items));
    assert(within_depth(items[i], (depth - 1) as nat));
}

/// The trees under the keys of an object are nested one level less deeply
/// than the object.
pub proof fn lemma_within_depth_member(tree: Json, depth: nat, i: int)
    requires
        within_depth(tree, depth),
        tree is Object,
        0 <= i < tree->Object_0.len(),
    ensures
        depth > 0,
        within_depth(tree->Object_0[i].1, (depth - 1) as nat),
{
    reveal_with_fuel(within_depth, 2);
    let entries = tree->Object_0;
    assert(tree == Json::Object(entries));
    assert(within_depth(entries[i].1, (depth - 1) as nat));
}

/// What a text is read as: its document, or a malformed payload where the
/// parser refuses it or it is nested too deeply.
pub open spec fn parsed(document: Option<Json>) -> Result<Json, ComciganError> {
    match document {
        Some(tree) => if within_depth(tree, DEPTH_LIMIT as nat) {
            Ok(tree)
        } else {
            Err(ComciganError::MalformedPayload)
        },
        None => Err(ComciganError::MalformedPayload),
    }
}

/// One level of a value of the parser: its kind, with its parts as the
/// parser holds them.
pub enum Node {
    Null,
    Bool(bool),
    Number(JsonNumber),
    Text(String),
    Array(Vec<serde_json::Value>),
    Object(Vec<(String, serde_json::Value)>),
}

/// The trees of a list of the parser's values.
pub open spec fn value_trees(values: Seq<serde_json::Value>) -> Seq<Json> {
    Seq::new(values.len(), |i: int| value_tree(values[i]))
}

/// The keys and trees of a list of the parser's entries.
pub open spec fn value_members(entries: Seq<(String, serde_json::Value)>) -> Seq<
    (Seq<char>, Json),
> {
    Seq::new(entries.len(), |i: int| (entries[i].0@, value_tree(entries[i].1)))
}

/// The tree of one level over the trees of its parts.
pub open spec fn node_tree(node: Node) -> Json {
    match node {
        Node::Null => Json::Null,
        Node::Bool(b) => Json::Bool(b),
        Node::Number(n) => Json::Number(n@),
        Node::Text(text) => Json::Text(text@),
        Node::Array(items) => Json::Array(value_trees(items@)),
        Node::Object(entries) => Json::Object(value_members(entries@)),
    }
}

/// Whether one level is as the parser makes it: a number that it keeps as
/// its own is no whole number from zero up, and the keys of an object rise
/// strictly.
pub open spec fn node_canonical(node: Node) -> bool {
    match node {
        Node::Number(n) => number_canonical(n@),
        Node::Object(entries) => keys_rise(value_members(entries@)),
        _ => true,
    }
}

/// Reads a value of the parser into a `JsonValue`, level by level, where it
/// is nested no deeper than `depth`.
pub fn import(value: &serde_json::Value, depth: usize) -> (out: Option<JsonValue>)
    ensures
        out is Some <==> within_depth(value_tree(*value), depth as nat),
        out matches Some(read) ==> read@ == value_tree(*value) && well_formed(read@),
    decreases depth,
{
    match open_value(value) {
        Node::Null => Some(JsonValue::Null),
        Node::Bool(b) => Some(JsonValue::Bool(b)),
        Node::Number(n) => Some(JsonValue::Number(n)),
        Node::Text(text) => Some(JsonValue::String(text)),
        Node::Array(items) => {
            if depth == 0 {
                return None;
            }
            let mut read: Vec<JsonValue> = Vec::new();
            let mut i: usize = 0;
            while i < items.len()
                invariant
                    depth > 0,
                    i <= items.len(),
                    value_tree(*value) == Json::Array(value_trees(items@)),
                    read@.len() == i,
                    forall|k: int|
                        0 <= k < i ==> (#[trigger] read@[k])@ == value_tree(items@[k])
                            && well_formed(read@[k]@) && within_depth(
                            read@[k]@,
                            (depth - 1) as nat,
                        ),
                decreases items.len() - i,
            {
                match import(&items[i], depth - 1) {
                    Some(item) => {
                        read.push(item);
                    },
                    None => {
                        proof {
                            if within_depth(value_tree(*value), depth as nat) {
                                lemma_within_depth_item(value_tree(*value), depth as nat, i as int);
                            }
                        }
                        return None;
                    },
                }
                i = i + 1;
            }
            let out = JsonValue::Array(read);
            proof {
                lemma_array_view(out);
                assert(trees(read@) =~= value_trees(items@));
                assert forall|k: int| 0 <= k < trees(read@).len() implies well_formed(
                    #[trigger] trees(read@)[k],
                ) by {
                    assert(well_formed(read@[k]@));
                }
                assert forall|k: int| 0 <= k < trees(read@).len() implies within_depth(
                    #[trigger] trees(read@)[k],
                    (depth - 1) as nat,
                ) by {
                    assert(within_depth(read@[k]@, (depth - 1) as nat));
                }
            }
            Some(out)
        },
        Node::Object(entries) => {
            if depth == 0 {
                return None;
            }
            let mut read: Vec<(String, JsonValue)> = Vec::new();
            let mut i: usize = 0;
            while i < entries.len()
                invariant
                    depth > 0,
                    i <= entries.len(),
                    value_tree(*value) == Json::Object(value_members(entries@)),
                    read@.len() == i,
                    forall|k: int|
                        0 <= k < i ==> (#[trigger] read@[k]).0@ == entries@[k].0@ && read@[k].1@
                            == value_tree(entries@[k].1) && well_formed(read@[k].1@)
                            && within_depth(read@[k].1@, (depth - 1) as nat),
                decreases entries.len() - i,
            {
                match import(&entries[i].1, depth - 1) {
                    Some(item) => {
                        read.push((entries[i].0.clone(), item));
                    },
                    None => {
                        proof {
                            if within_depth(value_tree(*value), depth as nat) {
                                lemma_within_depth_member(
                                    value_tree(*value),
                                    depth as nat,
                                    i as int,
                                );
                            }
                        }
                        return None;
                    },
                }
                i = i + 1;
            }
            let out = JsonValue::Object(read);
            proof {
                lemma_object_view(out);
                assert forall|k: int| 0 <= k < read@.len() implies members(read@)[k]
                    == value_members(entries@)[k] by {
                    assert(read@[k].0@ == entries@[k].0@);
                }
                assert(members(read@) =~= value_members(entries@));
                assert forall|k: int| 0 <= k < members(read@).len() implies well_formed(
                    (#[trigger] members(read@)[k]).1,
                ) by {
                    assert(well_formed(read@[k].1@));
                }
                assert forall|k: int| 0 <= k < members(read@).len() implies within_depth(
                    (#[trigger] members(read@)[k]).1,
                    (depth - 1) as nat,
                ) by {
                    assert(within_depth(read@[k].1@, (depth - 1) as nat));
                }
            }
            Some(out)
        },
    }
}

/// Builds the value of the parser for a `JsonValue`, level by level. For a
/// well-formed value it holds the same tree.
pub fn export(value: &JsonValue) -> (out: serde_json::Value)
    ensures
        well_formed(value@) ==> value_tree(out) == value@,
    decreases value,
{
    match value {
        JsonValue::Null => build_value(Node::Null),
        JsonValue::Bool(b) => build_value(Node::Bool(*b)),
        JsonValue::Number(n) => build_value(Node::Number(n.clone())),
        JsonValue::String(text) => build_value(Node::Text(text.clone())),
        JsonValue::Array(items) => {
            proof {
                lemma_array_view(*value);
            }
            let mut built: Vec<serde_json::Value> = Vec::new();
            let mut i: usize = 0;
            while i < items.len()
                invariant
                    value is Array,
                    value->Array_0 == *items,
                    value@ == Json::Array(trees(items@)),
                    i <= items.len(),
                    built@.len() == i,
                    well_formed(value@) ==> forall|k: int|
                        0 <= k < i ==> value_tree(#[trigger] built@[k]) == items@[k]@,
                decreases items.len() - i,
            {
                proof {
                    if well_formed(value@) {
                        lemma_well_formed_item(value@, i as int);
                    }
                }
                let item = export(&items[i]);
                built.push(item);
                i = i + 1;
            }
            proof {
                if well_formed(value@) {
                    assert(value_trees(built@) =~= trees(items@));
                }
            }
            build_value(Node::Array(built))
        },
        JsonValue::Object(entries) => {
            proof {
                lemma_object_view(*value);
            }
            let mut built: Vec<(String, serde_json::Value)> = Vec::new();
            let mut i: usize = 0;
            while i < entries.len()
                invariant
                    value is Object,
                    value->Object_0 == *entries,
                    value@ == Json::Object(members(entries@)),
                    i <= entries.len(),
                    built@.len() == i,
                    forall|k: int| 0 <= k < i ==> (#[trigger] built@[k]).0@ == entries@[k].0@,
                    well_formed(value@) ==> forall|k: int|
                        0 <= k < i ==> value_tree((#[trigger] built@[k]).1) == entries@[k].1@,
                decreases entries.len() - i,
            {
                proof {
                    if well_formed(value@) {
                        lemma_well_formed_member(value@, i as int);
                    }
                }
                let item = export(&entries[i].1);
                built.push((entries[i].0.clone(), item));
                i = i + 1;
            }
            proof {
                if well_formed(value@) {
                    assert forall|k: int| 0 <= k < built@.len() implies value_members(built@)[k]
                        == members(entries@)[k] by {
                        assert(built@[k].0@ == entries@[k].0@);
                        assert(value_tree(built@[k].1) == entries@[k].1@);
                    }
                    assert(value_members(built@) =~= members(entries@));
                    lemma_well_formed_keys(value@);
                }
            }
            build_value(Node::Object(built))
        },
    }
}

/// Reads a text as JSON. A text that is no JSON is a malformed payload.
pub fn parse_json(text: &str) -> (out: Result<JsonValue, ComciganError>)
    ensures
        match out {
            Ok(value) => parsed(document_of(text@)) == Ok::<Json, ComciganError>(value@)
                && well_formed(value@),
            Err(e) => parsed(document_of(text@)) == Err::<Json, ComciganError>(e),
        },
{
    match read_value(text) {
        Ok(value) => match import(&value, DEPTH_LIMIT) {
            Some(read) => Ok(read),
            None => Err(ComciganError::MalformedPayload),
        },
        Err(_) => Err(ComciganError::MalformedPayload),
    }
}

impl JsonValue {
    /// The value as compact JSON text: a string in quotes, a number in
    /// digits.
    pub fn to_text(&self) -> (out: String)
        ensures
            well_formed(self@) ==> out@ == json_text(self@),
    {
        let value = export(self);
        write_value(&value)
    }

    /// The value under a key of an object.
    pub fn get(&self, key: &str) -> (out: Option<&JsonValue>)
        ensures
            match out {
                Some(value) => field_of(self@, key@) == Some(value@),
                None => field_of(self@, key@) is None,
            },
    {
        match self {
            JsonValue::Object(entries) => {
                proof {
                    lemma_object_view(*self);
                }
                let wanted = String::from_str(key);
                let ghost all = members(entries@);
                let mut i: usize = 0;
                assert(all.skip(0) =~= all);
                while i < entries.len()
                    invariant
                        i <= entries.len(),
                        wanted@ == key@,
                        all == members(entries@),
                        self@ == Json::Object(all),
                        first_with_key(all, key@) == first_with_key(all.skip(i as int), key@),
                    decreases entries.len() - i,
                {
                    proof {
                        assert(all.skip(i as int)[0] == all[i as int]);
                        assert(all.skip(i as int).drop_first() =~= all.skip(i + 1));
                    }
                    if entries[i].0 == wanted {
                        return Some(&entries[i].1);
                    }
                    i = i + 1;
                }
                assert(all.skip(i as int).len() == 0);
                None
            },
            _ => None,
        }
    }

    /// The value as the number of a timetable cell or an id.
    pub fn as_code(&self) -> (out: Option<u32>)
        ensures
            out == code_of(self@),
    {
        match self {
            JsonValue::Number(JsonNumber::Unsigned(n)) => {
                if *n <= 0xffff_ffff {
                    Some(*n as u32)
                } else {
                    None
                }
            },
            _ => None,
        }
    }

    /// The text of a string, copied.
    pub fn as_text(&self) -> (out: Option<String>)
        ensures
            match out {
                Some(text) => text_of(self@) == Some(text@),
                None => text_of(self@) is None,
            },
    {
        match self {
            JsonValue::String(text) => Some(text.clone()),
            _ => None,
        }
    }
}

impl Clone for JsonValue {
    fn clone(&self) -> (out: Self)
        ensures
            out@ == self@,
    {
        self.duplicate()
    }
}

/// Whether `a` comes before `b` in the order of code points, compared
/// character by character, a proper prefix first.
pub open spec fn text_precedes(a: Seq<char>, b: Seq<char>) -> bool {
    exists|k: int|
        0 <= k <= a.len() && k <= b.len() && a.take(k) == b.take(k) && #[trigger] key_step(a, b, k)
}

/// Whether `a` and `b`, equal before position `k`, part there with `a`
/// first: `a` ends, or holds the smaller character.
pub open spec fn key_step(a: Seq<char>, b: Seq<char>, k: int) -> bool {
    k < b.len() && (k == a.len() || (a[k] as u32) < (b[k] as u32))
}

/// Whether the keys of a list of entries rise strictly.
pub open spec fn keys_rise(entries: Seq<(Seq<char>, Json)>) -> bool {
    forall|i: int, j: int|
        0 <= i < j < entries.len() ==> text_precedes(
            (#[trigger] entries[i]).0,
            (#[trigger] entries[j]).0,
        )
}

/// Whether a number is held as the parser holds it: one that is kept as
/// the parser's own is no whole number from zero up.
pub open spec fn number_canonical(number: NumberView) -> bool {
    match number {
        NumberView::Whole(_) => true,
        NumberView::Other(kept) => unsigned_of(kept) is None,
    }
}

/// Whether a tree is one that the parser can have made: its numbers are
/// held as the parser holds them, and the keys of every object rise
/// strictly.
pub open spec fn well_formed(tree: Json) -> bool
    decreases tree,
{
    match tree {
        Json::Number(number) => number_canonical(number),
        Json::Array(items) => forall|i: int|
            0 <= i < items.len() ==> well_formed(#[trigger] items[i]),
        Json::Object(entries) => {
            &&& forall|i: int| 0 <= i < entries.len() ==> well_formed((#[trigger] entries[i]).1)
            &&& keys_rise(entries)
        },
        _ => true,
    }
}

/// The items of a well-formed array are well-formed.
pub proof fn lemma_well_formed_item(tree: Json, i: int)
    requires
        well_formed(tree),
        tree is Array,
        0 <= i < tree->Array_0.len(),
    ensures
        well_formed(tree->Array_0[i]),
{
    reveal_with_fuel(well_formed, 2);
    let items = tree->Array_0;
    assert(tree == Json::Array(items));
    assert(well_formed(items[i]));
}

/// The trees under the keys of a well-formed object are well-formed.
pub proof fn lemma_well_formed_member(tree: Json, i: int)
    requires
        well_formed(tree),
        tree is Object,
        0 <= i < tree->Object_0.len(),
    ensures
        well_formed(tree->Object_0[i].1),
{
    reveal_with_fuel(well_formed, 2);
    let entries = tree->Object_0;
    assert(tree == Json::Object(entries));
    assert(well_formed(entries[i].1));
}

/// The keys of a well-formed object rise strictly.
pub proof fn lemma_well_formed_keys(tree: Json)
    requires
        well_formed(tree),
        tree is Object,
    ensures
        keys_rise(tree->Object_0),
{
}

/// The tree under a key of well-formed entries is well-formed.
pub proof fn lemma_entry_well_formed(entries: Seq<(Seq<char>, Json)>, key: Seq<char>)
    requires
        forall|i: int| 0 <= i < entries.len() ==> well_formed((#[trigger] entries[i]).1),
        first_with_key(entries, key) is Some,
    ensures
        well_formed(first_with_key(entries, key)->Some_0),
    decreases entries.len(),
{
    if entries.len() > 0 {
        if entries[0].0 == key {
            assert(well_formed(entries[0].1));
        } else {
            let rest = entries.drop_first();
            assert forall|i: int| 0 <= i < rest.len() implies well_formed(
                (#[trigger] rest[i]).1,
            ) by {
                assert(rest[i] == entries[i + 1]);
            }
            lemma_entry_well_formed(rest, key);
        }
    }
}

/// The tree under a key of a well-formed object is well-formed.
pub proof fn lemma_field_well_formed(tree: Json, key: Seq<char>)
    requires
        well_formed(tree),
        field_of(tree, key) is Some,
    ensures
        well_formed(field_of(tree, key)->Some_0),
{
    reveal_with_fuel(well_formed, 2);
    match tree {
        Json::Object(entries) => {
            lemma_entry_well_formed(entries, key);
        },
        _ => {},
    }
}

/// The parser's own value. Nothing is read from it but through
/// `open_value`.
#[verifier::external_type_specification]
#[verifier::external_body]
pub struct ExParsedValue(serde_json::Value);

/// The parser's own error. Nothing is read from it.
#[verifier::external_type_specification]
#[verifier::external_body]
pub struct ExParseError(serde_json::Error);

/// What `serde_json::Number::as_u64` returns for a number: its value where
/// it is a whole number from zero up.
pub uninterp spec fn unsigned_of(number: serde_json::Number) -> Option<int>;

/// The document that `serde_json::from_str` reads from a text, or `None`
/// where it refuses the text.
pub uninterp spec fn document_of(text: Seq<char>) -> Option<Json>;

/// The tree that a value of `serde_json` holds.
pub uninterp spec fn value_tree(value: serde_json::Value) -> Json;

/// The text that `serde_json` prints for a value that holds the tree.
pub uninterp spec fn json_text(tree: Json) -> Seq<char>;

/// `serde_json::from_str` to a `serde_json::Value`: the document of the
/// text, or the parser's error. The outcome depends on the text alone.
#[verifier::external_body]
pub(crate) fn read_value(text: &str) -> (read: Result<serde_json::Value, serde_json::Error>)
    ensures
        match read {
            Ok(value) => document_of(text@) == Some(value_tree(value)),
            Err(_) => document_of(text@) is None,
        },
{
    serde_json::from_str::<serde_json::Value>(text)
}

/// `serde_json::Number`'s `clone`: the same number.
#[verifier::external_body]
pub(crate) fn copy_number(number: &serde_json::Number) -> (out: serde_json::Number)
    ensures
        out == *number,
{
    number.clone()
}

/// Opens one level of a value of `serde_json`: its variant, with its
/// fields copied as they are. A number is told apart by `as_u64`; the
/// entries of an object come in the order in which its map hands them out,
/// which is the order of the keys.
#[verifier::external_body]
pub(crate) fn open_value(value: &serde_json::Value) -> (node: Node)
    ensures
        node_tree(node) == value_tree(*value),
        node_canonical(node),
        node matches Node::Number(JsonNumber::Other(kept)) ==> unsigned_of(kept) is None,
{
    match value {
        serde_json::Value::Null => Node::Null,
        serde_json::Value::Bool(b) => Node::Bool(*b),
        serde_json::Value::Number(n) => Node::Number(
            match n.as_u64() {
                Some(u) => JsonNumber::Unsigned(u),
                None => JsonNumber::Other(n.clone()),
            },
        ),
        serde_json::Value::String(s) => Node::Text(s.clone()),
        serde_json::Value::Array(a) => Node::Array(a.clone()),
        serde_json::Value::Object(m) => Node::Object(
            m.iter().map(|(k, v)| (k.clone(), v.clone())).collect(),
        ),
    }
}

/// Makes the value of `serde_json` of one level: the variant of its kind
/// around its fields. Where the level is as the parser makes it, the value
/// holds the level's tree.
#[verifier::external_body]
pub(crate) fn build_value(node: Node) -> (out: serde_json::Value)
    ensures
        node_canonical(node) ==> value_tree(out) == node_tree(node),
{
    match node {
        Node::Null => serde_json::Value::Null,
        Node::Bool(b) => serde_json::Value::Bool(b),
        Node::Number(JsonNumber::Unsigned(u)) => serde_json::Value::from(u),
        Node::Number(JsonNumber::Other(n)) => serde_json::Value::Number(n),
        Node::Text(s) => serde_json::Value::String(s),
        Node::Array(a) => serde_json::Value::Array(a),
        Node::Object(m) => serde_json::Value::Object(m.into_iter().collect()),
    }
}

/// `serde_json::Value`'s `to_string`: the value as compact JSON text. The
/// text depends on the tree alone.
#[verifier::external_body]
pub(crate) fn write_value(value: &serde_json::Value) -> (out: String)
    ensures
        out@ == json_text(value_tree(*value)),
{
    value.to_string()
}

} // verus!
