//! JSON documents: a tree of plain values, read from text and written as text
//! by `serde_json`.

use serde_json::{Number, Value};
use vstd::prelude::*;

use crate::text;
use crate::text::same_text;

verus! {

/// `serde_json::Value`: one JSON value, carried through without a look inside.
#[verifier::external_type_specification]
#[verifier::external_body]
pub struct ExValue(serde_json::Value);

/// `serde_json::Number`: one JSON number, carried through without a look inside.
#[verifier::external_type_specification]
#[verifier::external_body]
pub struct ExNumber(serde_json::Number);

/// `serde_json::Error`: why a text is not JSON.
#[verifier::external_type_specification]
#[verifier::external_body]
pub struct ExJsonError(serde_json::Error);

/// What a JSON document says.
#[verifier::ext_equal]
pub enum JsonView {
    Null,
    Bool(bool),
    /// A number that `i64` holds.
    Integer(i64),
    /// Any other number, by its text.
    Wide(Seq<char>),
    Text(Seq<char>),
    Array(Seq<JsonView>),
    /// The members, in the order in which the object lists them.
    Object(Seq<(Seq<char>, JsonView)>),
}

/// What a `Value` of `serde_json` holds.
pub uninterp spec fn json_tree(value: Value) -> JsonView;

/// The integer that a `Number` of `serde_json` holds, if `i64` has it.
pub uninterp spec fn number_i64(number: Number) -> Option<i64>;

/// The text of a `Number` of `serde_json`.
pub uninterp spec fn number_text(number: Number) -> Seq<char>;

/// What a `Number` of `serde_json` says.
pub open spec fn number_tree(number: Number) -> JsonView {
    match number_i64(number) {
        Some(integer) => JsonView::Integer(integer),
        None => JsonView::Wide(number_text(number)),
    }
}

/// What a `serde_json::Error` prints.
pub uninterp spec fn json_error_text(error: serde_json::Error) -> Seq<char>;

/// What `serde_json::from_slice` reads in some bytes: the document, or what its
/// error prints.
pub uninterp spec fn json_parsed(bytes: Seq<u8>) -> Result<JsonView, Seq<char>>;

/// The compact text in which `serde_json` writes a document.
pub uninterp spec fn json_text(tree: JsonView) -> Seq<char>;

/// The indented text in which `serde_json::to_vec_pretty` writes a document.
pub uninterp spec fn json_pretty(tree: JsonView) -> Seq<u8>;

/// A JSON document.
#[derive(Debug)]
pub enum Json {
    Null,
    Bool(bool),
    /// A number that `i64` holds.
    Integer(i64),
    /// Any other number.
    Wide(Number),
    Text(String),
    Array(Vec<Json>),
    /// The members, in ascending order of their names.
    Object(Vec<(String, Json)>),
}

impl View for Json {
    type V = JsonView;

    open spec fn view(&self) -> JsonView
        decreases self,
    {
        match self {
            Json::Null => JsonView::Null,
            Json::Bool(b) => JsonView::Bool(*b),
            Json::Integer(i) => JsonView::Integer(*i),
            Json::Wide(n) => number_tree(*n),
            Json::Text(s) => JsonView::Text(s@),
            Json::Array(items) => JsonView::Array(
                Seq::new(
                    items@.len(),
                    |i: int|
                        if 0 <= i < items@.len() {
                            items@[i].view()
                        } else {
                            arbitrary()
                        },
                ),
            ),
            Json::Object(members) => JsonView::Object(
                Seq::new(
                    members@.len(),
                    |i: int|
                        if 0 <= i < members@.len() {
                            (members@[i].0@, members@[i].1.view())
                        } else {
                            arbitrary()
                        },
                ),
            ),
        }
    }
}

impl Clone for Json {
    fn clone(&self) -> (copy: Self)
        ensures
            copy@ == self@,
        decreases self,
    {
        match self {
            Json::Null => Json::Null,
            Json::Bool(b) => Json::Bool(*b),
            Json::Integer(i) => Json::Integer(*i),
            Json::Wide(n) => Json::Wide(number_copy(n)),
            Json::Text(s) => Json::Text(s.clone()),
            Json::Array(items) => {
                let mut copies: Vec<Json> = Vec::new();
                for i in 0..items.len()
                    invariant
                        self == Json::Array(*items),
                        copies@.len() == i,
                        forall|j: int| 0 <= j < i ==> (#[trigger] copies@[j])@ == items@[j]@,
                {
                    assert(decreases_to!(self => self->Array_0@[i as int]));
                    copies.push(items[i].clone());
                }
                proof {
                    lemma_array_view(*items);
                    lemma_array_view(copies);
                    assert(items_view(copies@) =~= items_view(items@));
                }
                Json::Array(copies)
            },
            Json::Object(members) => {
                let mut copies: Vec<(String, Json)> = Vec::new();
                for i in 0..members.len()
                    invariant
                        self == Json::Object(*members),
                        copies@.len() == i,
                        forall|j: int|
                            0 <= j < i ==> (#[trigger] copies@[j]).0@ == members@[j].0@
                                && copies@[j].1@ == members@[j].1@,
                {
                    assert(decreases_to!(self => self->Object_0@[i as int].1));
                    copies.push((members[i].0.clone(), members[i].1.clone()));
                }
                proof {
                    lemma_object_view(*members);
                    lemma_object_view(copies);
                    assert(members_view(copies@) =~= members_view(members@));
                }
                Json::Object(copies)
            },
        }
    }
}

/// What the items of an array say.
pub open spec fn items_view(items: Seq<Json>) -> Seq<JsonView> {
    items.map_values(|item: Json| item@)
}

/// What the members of an object say.
pub open spec fn members_view(members: Seq<(String, Json)>) -> Seq<(Seq<char>, JsonView)> {
    members.map_values(|member: (String, Json)| (member.0@, member.1@))
}

/// What an array says, item by item.
pub proof fn lemma_array_view(items: Vec<Json>)
    ensures
        Json::Array(items)@ == JsonView::Array(items_view(items@)),
{
    reveal_with_fuel(<Json as View>::view, 2);
    assert(Json::Array(items)@->Array_0 =~= items_view(items@));
}

/// What an object says, member by member.
pub proof fn lemma_object_view(members: Vec<(String, Json)>)
    ensures
        Json::Object(members)@ == JsonView::Object(members_view(members@)),
{
    reveal_with_fuel(<Json as View>::view, 2);
    assert(Json::Object(members)@->Object_0 =~= members_view(members@));
}

/// Whether the members of an object stand in ascending order of their names.
pub open spec fn ascending(members: Seq<(Seq<char>, JsonView)>) -> bool {
    forall|i: int|
        #![trigger members[i]]
        0 <= i < members.len() - 1 ==> text::before(members[i].0, members[i + 1].0)
}

impl JsonView {
    /// Whether every object in the document lists its members in ascending
    /// order of their names.
    pub open spec fn ordered(self) -> bool
        decreases self,
    {
        match self {
            JsonView::Array(items) => forall|i: int|
                0 <= i < items.len() ==> (#[trigger] items[i]).ordered(),
            JsonView::Object(members) => ascending(members) && forall|i: int|
                0 <= i < members.len() ==> (#[trigger] members[i]).1.ordered(),
            _ => true,
        }
    }
}

impl JsonView {
    /// Whether arrays and objects nest at most `levels` deep.
    pub open spec fn within(self, levels: nat) -> bool
        decreases self,
    {
        match self {
            JsonView::Array(items) => levels > 0 && forall|i: int|
                0 <= i < items.len() ==> (#[trigger] items[i]).within((levels - 1) as nat),
            JsonView::Object(members) => levels > 0 && forall|i: int|
                0 <= i < members.len() ==> (#[trigger] members[i]).1.within((levels - 1) as nat),
            _ => true,
        }
    }

    /// Whether every number in the document is an integer.
    pub open spec fn integral(self) -> bool
        decreases self,
    {
        match self {
            JsonView::Wide(text) => forall|i: int|
                0 <= i < text.len() ==> '0' <= #[trigger] text[i] <= '9',
            JsonView::Array(items) => forall|i: int|
                0 <= i < items.len() ==> (#[trigger] items[i]).integral(),
            JsonView::Object(members) => forall|i: int|
                0 <= i < members.len() ==> (#[trigger] members[i]).1.integral(),
            _ => true,
        }
    }
}

proof fn lemma_ordered_item(items: Seq<JsonView>, i: int)
    requires
        JsonView::Array(items).ordered(),
        0 <= i < items.len(),
    ensures
        items[i].ordered(),
{
    reveal_with_fuel(JsonView::ordered, 2);
    let tree = JsonView::Array(items);
    assert(tree->Array_0[i] == items[i]);
    assert(tree->Array_0[i].ordered());
}

proof fn lemma_ordered_member(members: Seq<(Seq<char>, JsonView)>, i: int)
    requires
        JsonView::Object(members).ordered(),
        0 <= i < members.len(),
    ensures
        members[i].1.ordered(),
{
    reveal_with_fuel(JsonView::ordered, 2);
}

/// The value of the first member that bears a name.
pub open spec fn lookup(members: Seq<(Seq<char>, JsonView)>, name: Seq<char>) -> Option<JsonView>
    decreases members.len(),
{
    if members.len() == 0 {
        None
    } else if members[0].0 == name {
        Some(members[0].1)
    } else {
        lookup(members.drop_first(), name)
    }
}

/// A name that stands before another one in an object in order.
proof fn lemma_ascending_apart(members: Seq<(Seq<char>, JsonView)>, i: int, j: int)
    requires
        ascending(members),
        0 <= i < j < members.len(),
    ensures
        text::before(members[i].0, members[j].0),
    decreases j - i,
{
    assert(text::before(members[i].0, members[i + 1].0));
    if i + 1 < j {
        lemma_ascending_apart(members, i + 1, j);
        text::lemma_before_transitive(members[i].0, members[i + 1].0, members[j].0);
    }
}

/// What is found under a name that no earlier member bears.
proof fn lemma_lookup_at(members: Seq<(Seq<char>, JsonView)>, i: int)
    requires
        0 <= i < members.len(),
        forall|j: int| 0 <= j < i ==> (#[trigger] members[j]).0 != members[i].0,
    ensures
        lookup(members, members[i].0) == Some(members[i].1),
    decreases i,
{
    if i > 0 {
        let rest = members.drop_first();
        assert(members[0].0 != members[i].0);
        assert forall|j: int| 0 <= j < i - 1 implies (#[trigger] rest[j]).0 != rest[i - 1].0 by {
            assert(rest[j] == members[j + 1]);
        }
        lemma_lookup_at(rest, i - 1);
    }
}

/// Each member of an object in order is found under its name.
pub proof fn law_member_by_name(members: Seq<(Seq<char>, JsonView)>, i: int)
    requires
        ascending(members),
        0 <= i < members.len(),
    ensures
        JsonView::Object(members).member(members[i].0) == Some(members[i].1),
{
    assert forall|j: int| 0 <= j < i implies (#[trigger] members[j]).0 != members[i].0 by {
        lemma_ascending_apart(members, j, i);
        text::lemma_before_irreflexive(members[i].0);
    }
    lemma_lookup_at(members, i);
}

/// Nothing is found under a name that no member bears.
pub proof fn law_no_member_of_another_name(
    members: Seq<(Seq<char>, JsonView)>,
    name: Seq<char>,
)
    requires
        forall|i: int| 0 <= i < members.len() ==> (#[trigger] members[i]).0 != name,
    ensures
        JsonView::Object(members).member(name) is None,
    decreases members.len(),
{
    if members.len() > 0 {
        let rest = members.drop_first();
        assert(members[0].0 != name);
        assert forall|i: int| 0 <= i < rest.len() implies (#[trigger] rest[i]).0 != name by {
            assert(rest[i] == members[i + 1]);
        }
        law_no_member_of_another_name(rest, name);
    }
}

impl JsonView {
    /// The member of an object that bears a name; nothing of any other value.
    pub open spec fn member(self, name: Seq<char>) -> Option<JsonView> {
        match self {
            JsonView::Object(members) => lookup(members, name),
            _ => None,
        }
    }

    /// The value of the first member of an object.
    pub open spec fn first_member(self) -> Option<JsonView> {
        match self {
            JsonView::Object(members) => if members.len() > 0 {
                Some(members[0].1)
            } else {
                None
            },
            _ => None,
        }
    }

    /// The text, where the value is one.
    pub open spec fn text(self) -> Option<Seq<char>> {
        match self {
            JsonView::Text(text) => Some(text),
            _ => None,
        }
    }

    /// The number, where the value is one that `i64` holds.
    pub open spec fn integer(self) -> Option<i64> {
        match self {
            JsonView::Integer(integer) => Some(integer),
            _ => None,
        }
    }

    /// The truth value, where the value is one.
    pub open spec fn boolean(self) -> Option<bool> {
        match self {
            JsonView::Bool(boolean) => Some(boolean),
            _ => None,
        }
    }
}

/// What a member that may be missing says.
pub open spec fn json_view(json: Option<&Json>) -> Option<JsonView> {
    match json {
        Some(json) => Some(json@),
        None => None,
    }
}

/// A member of a value that may be missing.
pub open spec fn member_of(value: Option<JsonView>, name: Seq<char>) -> Option<JsonView> {
    match value {
        Some(value) => value.member(name),
        None => None,
    }
}

/// The first member of a value that may be missing.
pub open spec fn first_member_of(value: Option<JsonView>) -> Option<JsonView> {
    match value {
        Some(value) => value.first_member(),
        None => None,
    }
}

/// The text of a value that may be missing.
pub open spec fn text_of(value: Option<JsonView>) -> Option<Seq<char>> {
    match value {
        Some(value) => value.text(),
        None => None,
    }
}

/// The integer of a value that may be missing.
pub open spec fn integer_of(value: Option<JsonView>) -> Option<i64> {
    match value {
        Some(value) => value.integer(),
        None => None,
    }
}

/// The truth value of a value that may be missing.
pub open spec fn boolean_of(value: Option<JsonView>) -> Option<bool> {
    match value {
        Some(value) => value.boolean(),
        None => None,
    }
}

/// One level of a `Value`, its parts still closed.
pub enum Layer {
    Null,
    Bool(bool),
    Numeric(Number),
    Text(String),
    Array(Vec<Value>),
    Object(Vec<(String, Value)>),
}

impl Layer {
    /// What a value says whose outermost level is this one.
    pub open spec fn tree(self) -> JsonView {
        match self {
            Layer::Null => JsonView::Null,
            Layer::Bool(b) => JsonView::Bool(b),
            Layer::Numeric(n) => number_tree(n),
            Layer::Text(s) => JsonView::Text(s@),
            Layer::Array(items) => JsonView::Array(items@.map_values(|v: Value| json_tree(v))),
            Layer::Object(members) => JsonView::Object(
                members@.map_values(|m: (String, Value)| (m.0@, json_tree(m.1))),
            ),
        }
    }
}

/// Opens the outermost level of a `serde_json::Value` by its variants. The
/// map inside an object is a `BTreeMap`: it lists its members in ascending
/// order of their names.
#[verifier::external_body]
fn open_value(value: Value) -> (layer: Layer)
    ensures
        layer.tree() == json_tree(value),
        layer.tree() matches JsonView::Object(members) ==> ascending(members),
{
    match value {
        Value::Null => Layer::Null,
        Value::Bool(b) => Layer::Bool(b),
        Value::Number(n) => Layer::Numeric(n),
        Value::String(s) => Layer::Text(s),
        Value::Array(items) => Layer::Array(items),
        Value::Object(members) => Layer::Object(members.into_iter().collect()),
    }
}

/// Builds a `serde_json::Value` by its variants. Members in ascending order of
/// their names are pairwise different, so the map keeps them all, in that
/// order.
#[verifier::external_body]
fn close_value(layer: Layer) -> (value: Value)
    requires
        layer.tree() matches JsonView::Object(members) ==> ascending(members),
    ensures
        json_tree(value) == layer.tree(),
{
    match layer {
        Layer::Null => Value::Null,
        Layer::Bool(b) => Value::Bool(b),
        Layer::Numeric(n) => Value::Number(n),
        Layer::Text(s) => Value::String(s),
        Layer::Array(items) => Value::Array(items),
        Layer::Object(members) => Value::Object(members.into_iter().collect()),
    }
}

/// `serde_json::Number::as_i64` gives the number where it is an integer that
/// `i64` holds, and nothing otherwise.
#[verifier::external_body]
fn number_as_i64(number: &Number) -> (integer: Option<i64>)
    ensures
        integer == number_i64(*number),
{
    number.as_i64()
}

/// `serde_json::Number::from` makes a number of an `i64`.
#[verifier::external_body]
fn number_from_i64(integer: i64) -> (number: Number)
    ensures
        number_i64(number) == Some(integer),
{
    Number::from(integer)
}

/// `serde_json::Number::clone` copies a number.
#[verifier::external_body]
fn number_copy(number: &Number) -> (copy: Number)
    ensures
        number_i64(copy) == number_i64(*number),
        number_text(copy) == number_text(*number),
{
    number.clone()
}

/// What a parse came to: what the document says, or what the error prints.
pub open spec fn parse_outcome(parsed: Result<Value, serde_json::Error>) -> Result<
    JsonView,
    Seq<char>,
> {
    match parsed {
        Ok(value) => Ok(json_tree(value)),
        Err(error) => Err(json_error_text(error)),
    }
}

/// `serde_json::from_slice` reads one JSON document, with white space around
/// it, and nothing else. It refuses a document with 128 levels of arrays and
/// objects inside one another.
#[verifier::external_body]
fn parse_value(bytes: &[u8]) -> (parsed: Result<Value, serde_json::Error>)
    ensures
        parse_outcome(parsed) == json_parsed(bytes@),
        parsed matches Ok(value) ==> json_tree(value).within(127),
{
    serde_json::from_slice(bytes)
}

/// A `serde_json::Error` prints what is wrong with the text, and where.
#[verifier::external_body]
fn error_text(error: &serde_json::Error) -> (text: String)
    ensures
        text@ == json_error_text(*error),
{
    error.to_string()
}

/// Whether a text stands on one line.
pub open spec fn one_line(text: Seq<char>) -> bool {
    forall|i: int| 0 <= i < text.len() ==> #[trigger] text[i] != '\n'
}

/// A `serde_json::Value` prints itself as compact JSON, on one line: a line feed
/// in a text is escaped, and none is put between the parts.
#[verifier::external_body]
fn print_value(value: &Value) -> (text: String)
    ensures
        text@ == json_text(json_tree(*value)),
        one_line(text@),
{
    value.to_string()
}

/// The outcome of reading a document.
pub open spec fn read_as(tree: JsonView) -> Result<JsonView, Seq<char>> {
    Ok(tree)
}

/// `serde_json::to_vec_pretty` writes a value as indented JSON; that of a
/// `Value` into memory does not fail. `serde_json::from_slice` reads the same
/// document in what it wrote, with a line feed behind it, where every number is
/// an integer and the document is not nested too deep to be read at all. Of
/// other numbers, which are floating point, nothing is said.
#[verifier::external_body]
fn pretty_value(value: &Value) -> (printed: Result<Vec<u8>, serde_json::Error>)
    ensures
        printed is Ok,
        printed->Ok_0@ == json_pretty(json_tree(*value)),
        (json_tree(*value).integral() && json_tree(*value).within(127)) ==> json_parsed(
            printed->Ok_0@.push(10),
        ) == read_as(json_tree(*value)),
{
    serde_json::to_vec_pretty(value)
}

/// Opens a value all the way down.
fn from_value(value: Value) -> (json: Json)
    ensures
        json@ == json_tree(value),
        json@.ordered(),
    decreases json_tree(value),
{
    match open_value(value) {
        Layer::Null => Json::Null,
        Layer::Bool(b) => Json::Bool(b),
        Layer::Numeric(n) => match number_as_i64(&n) {
            Some(i) => Json::Integer(i),
            None => Json::Wide(n),
        },
        Layer::Text(s) => Json::Text(s),
        Layer::Array(values) => {
            let ghost tree = json_tree(value)->Array_0;
            let mut items: Vec<Json> = Vec::new();
            for v in it: values
                invariant
                    it.seq() == values@,
                    json_tree(value) == JsonView::Array(tree),
                    tree == values@.map_values(|v: Value| json_tree(v)),
                    items@.len() == it.index(),
                    forall|j: int|
                        0 <= j < it.index() ==> (#[trigger] items@[j])@ == tree[j]
                            && items@[j]@.ordered(),
            {
                assert(json_tree(v) == tree[it.index()]);
                assert(decreases_to!(json_tree(value) => json_tree(value)->Array_0[it.index()]));
                items.push(from_value(v));
            }
            let json = Json::Array(items);
            assert(json@->Array_0 =~= tree);
            assert forall|j: int| 0 <= j < tree.len() implies (#[trigger] tree[j]).ordered() by {
                assert(items@[j]@ == tree[j]);
            }
            json
        },
        Layer::Object(values) => {
            let ghost tree = json_tree(value)->Object_0;
            let mut members: Vec<(String, Json)> = Vec::new();
            for v in it: values
                invariant
                    it.seq() == values@,
                    json_tree(value) == JsonView::Object(tree),
                    tree == values@.map_values(|m: (String, Value)| (m.0@, json_tree(m.1))),
                    members@.len() == it.index(),
                    forall|j: int|
                        0 <= j < it.index() ==> (#[trigger] members@[j]).0@ == tree[j].0
                            && members@[j].1@ == tree[j].1 && members@[j].1@.ordered(),
            {
                assert((v.0@, json_tree(v.1)) == tree[it.index()]);
                assert(decreases_to!(json_tree(value) => json_tree(value)->Object_0[it.index()].1));
                members.push((v.0, from_value(v.1)));
            }
            let json = Json::Object(members);
            assert(json@->Object_0 =~= tree);
            assert forall|j: int| 0 <= j < tree.len() implies (#[trigger] tree[j]).1.ordered() by {
                assert(members@[j].1@ == tree[j].1);
            }
            json
        },
    }
}

/// Closes a document into a value.
fn to_value(json: &Json) -> (value: Value)
    requires
        json@.ordered(),
    ensures
        json_tree(value) == json@,
    decreases json,
{
    match json {
        Json::Null => close_value(Layer::Null),
        Json::Bool(b) => close_value(Layer::Bool(*b)),
        Json::Integer(i) => close_value(Layer::Numeric(number_from_i64(*i))),
        Json::Wide(n) => close_value(Layer::Numeric(number_copy(n))),
        Json::Text(s) => close_value(Layer::Text(s.clone())),
        Json::Array(items) => {
            proof {
                lemma_array_view(*items);
            }
            let ghost tree = items_view(items@);
            let mut values: Vec<Value> = Vec::new();
            for i in 0..items.len()
                invariant
                    json == Json::Array(*items),
                    tree == items_view(items@),
                    JsonView::Array(tree).ordered(),
                    values@.len() == i,
                    forall|j: int| 0 <= j < i ==> json_tree(#[trigger] values@[j]) == tree[j],
            {
                proof {
                    lemma_ordered_item(tree, i as int);
                }
                assert(decreases_to!(json => json->Array_0@[i as int]));
                values.push(to_value(&items[i]));
            }
            let layer = Layer::Array(values);
            assert(layer.tree()->Array_0 =~= tree);
            close_value(layer)
        },
        Json::Object(members) => {
            proof {
                lemma_object_view(*members);
            }
            let ghost tree = members_view(members@);
            let mut values: Vec<(String, Value)> = Vec::new();
            for i in 0..members.len()
                invariant
                    json == Json::Object(*members),
                    tree == members_view(members@),
                    JsonView::Object(tree).ordered(),
                    values@.len() == i,
                    forall|j: int|
                        0 <= j < i ==> (#[trigger] values@[j]).0@ == tree[j].0 && json_tree(
                            values@[j].1,
                        ) == tree[j].1,
            {
                proof {
                    lemma_ordered_member(tree, i as int);
                }
                assert(decreases_to!(json => json->Object_0@[i as int].1));
                values.push((members[i].0.clone(), to_value(&members[i].1)));
            }
            let layer = Layer::Object(values);
            assert(layer.tree()->Object_0 =~= tree);
            close_value(layer)
        },
    }
}

/// Why a text is not the JSON that was looked for.
#[derive(Debug)]
pub struct JsonError {
    pub message: String,
}

impl Json {
    /// Reads a document.
    pub fn parse(bytes: &[u8]) -> (parsed: Result<Json, JsonError>)
        ensures
            parsed matches Ok(json) ==> json_parsed(bytes@) is Ok && json@ == json_parsed(
                bytes@,
            )->Ok_0 && json@.ordered() && json@.within(127),
            parsed matches Err(error) ==> json_parsed(bytes@) is Err && error.message@
                == json_parsed(bytes@)->Err_0,
    {
        match parse_value(bytes) {
            Ok(value) => Ok(from_value(value)),
            Err(error) => Err(JsonError { message: error_text(&error) }),
        }
    }

    /// The document as compact text.
    pub fn to_text(&self) -> (text: String)
        requires
            self@.ordered(),
        ensures
            text@ == json_text(self@),
            one_line(text@),
    {
        print_value(&to_value(self))
    }

    /// The document as indented text.
    pub fn to_pretty(&self) -> (bytes: Vec<u8>)
        requires
            self@.ordered(),
        ensures
            bytes@ == json_pretty(self@),
            self@.integral() && self@.within(127) ==> json_parsed(bytes@.push(10)) == read_as(
                self@,
            ),
    {
        match pretty_value(&to_value(self)) {
            Ok(bytes) => bytes,
            Err(_) => Vec::new(),
        }
    }

    /// The member of an object that bears a name.
    pub fn get(&self, name: &str) -> (member: Option<&Json>)
        ensures
            json_view(member) == self@.member(name@),
    {
        match self {
            Json::Object(members) => {
                proof {
                    lemma_object_view(*members);
                }
                let ghost tree = members_view(members@);
                assert(tree.skip(0) =~= tree);
                for i in 0..members.len()
                    invariant
                        tree == members_view(members@),
                        lookup(tree, name@) == lookup(tree.skip(i as int), name@),
                        self@ == JsonView::Object(tree),
                {
                    assert(tree.skip(i as int)[0] == tree[i as int]);
                    assert(tree.skip(i as int).drop_first() =~= tree.skip(i + 1));
                    if same_text(members[i].0.as_str(), name) {
                        return Some(&members[i].1);
                    }
                }
                None
            },
            _ => None,
        }
    }

    /// The value of the first member of an object.
    pub fn first(&self) -> (value: Option<&Json>)
        ensures
            json_view(value) == self@.first_member(),
    {
        match self {
            Json::Object(members) => {
                proof {
                    lemma_object_view(*members);
                }
                if members.len() > 0 {
                    assert(members_view(members@)[0].1 == members@[0].1@);
                    Some(&members[0].1)
                } else {
                    None
                }
            },
            _ => None,
        }
    }

    /// The text, where the value is one.
    pub fn as_str(&self) -> (text: Option<&str>)
        ensures
            text.deep_view() == self@.text(),
    {
        match self {
            Json::Text(text) => Some(text.as_str()),
            _ => None,
        }
    }

    /// The number, where the value is one that `i64` holds.
    pub fn as_i64(&self) -> (integer: Option<i64>)
        ensures
            integer == self@.integer(),
    {
        match self {
            Json::Integer(integer) => Some(*integer),
            Json::Wide(number) => number_as_i64(number),
            _ => None,
        }
    }

    /// The truth value, where the value is one.
    pub fn as_bool(&self) -> (boolean: Option<bool>)
        ensures
            boolean == self@.boolean(),
    {
        match self {
            Json::Bool(boolean) => Some(*boolean),
            _ => None,
        }
    }
}

/// An integer that may be missing.
pub open spec fn integer_or_null(integer: Option<i64>) -> JsonView {
    match integer {
        Some(integer) => JsonView::Integer(integer),
        None => JsonView::Null,
    }
}

/// A truth value that may be missing.
pub open spec fn boolean_or_null(boolean: Option<bool>) -> JsonView {
    match boolean {
        Some(boolean) => JsonView::Bool(boolean),
        None => JsonView::Null,
    }
}

/// A text that may be missing.
pub open spec fn text_or_null(text: Option<Seq<char>>) -> JsonView {
    match text {
        Some(text) => JsonView::Text(text),
        None => JsonView::Null,
    }
}

/// Texts in a row.
pub open spec fn text_array(texts: Seq<Seq<char>>) -> JsonView {
    JsonView::Array(texts.map_values(|text: Seq<char>| JsonView::Text(text)))
}

pub(crate) fn integer_json(integer: Option<i64>) -> (json: Json)
    ensures
        json@ == integer_or_null(integer),
{
    match integer {
        Some(integer) => Json::Integer(integer),
        None => Json::Null,
    }
}

pub(crate) fn boolean_json(boolean: Option<bool>) -> (json: Json)
    ensures
        json@ == boolean_or_null(boolean),
{
    match boolean {
        Some(boolean) => Json::Bool(boolean),
        None => Json::Null,
    }
}

pub(crate) fn text_json(text: Option<&str>) -> (json: Json)
    ensures
        json@ == text_or_null(text.deep_view()),
{
    match text {
        Some(text) => Json::Text(text.to_owned()),
        None => Json::Null,
    }
}

pub(crate) fn texts_json(texts: &Vec<String>) -> (json: Json)
    ensures
        json@ == text_array(texts.deep_view()),
{
    let mut items: Vec<Json> = Vec::new();
    for i in 0..texts.len()
        invariant
            items@.len() == i,
            forall|j: int| 0 <= j < i ==> (#[trigger] items@[j])@ == JsonView::Text(texts@[j]@),
    {
        items.push(Json::Text(texts[i].clone()));
    }
    proof {
        lemma_array_view(items);
        assert(items_view(items@) =~= texts.deep_view().map_values(
            |text: Seq<char>| JsonView::Text(text),
        ));
    }
    Json::Array(items)
}

/// An object of two members.
pub(crate) fn pair(first: &str, one: Json, second: &str, other: Json) -> (object: Json)
    requires
        text::before(first@, second@),
        one@.ordered(),
        other@.ordered(),
    ensures
        object@ == JsonView::Object(seq![(first@, one@), (second@, other@)]),
        object@.ordered(),
{
    let mut members: Vec<(String, Json)> = Vec::new();
    members.push((first.to_owned(), one));
    members.push((second.to_owned(), other));
    proof {
        lemma_object_view(members);
        assert(members_view(members@) =~= seq![(first@, one@), (second@, other@)]);
        reveal_with_fuel(JsonView::ordered, 2);
    }
    Json::Object(members)
}

/// An object of one member.
pub(crate) fn single(name: &str, value: Json) -> (object: Json)
    requires
        value@.ordered(),
    ensures
        object@ == JsonView::Object(seq![(name@, value@)]),
        object@.ordered(),
{
    let mut members: Vec<(String, Json)> = Vec::new();
    members.push((name.to_owned(), value));
    proof {
        lemma_object_view(members);
        assert(members_view(members@) =~= seq![(name@, value@)]);
        reveal_with_fuel(JsonView::ordered, 2);
    }
    Json::Object(members)
}

/// The member of a value that may be missing.
pub(crate) fn get_in<'a>(json: Option<&'a Json>, name: &str) -> (member: Option<&'a Json>)
    ensures
        json_view(member) == member_of(json_view(json), name@),
{
    match json {
        Some(json) => json.get(name),
        None => None,
    }
}

/// The first member of a value that may be missing.
pub(crate) fn first_in<'a>(json: Option<&'a Json>) -> (member: Option<&'a Json>)
    ensures
        json_view(member) == first_member_of(json_view(json)),
{
    match json {
        Some(json) => json.first(),
        None => None,
    }
}

/// The text of a value that may be missing.
pub(crate) fn str_in<'a>(json: Option<&'a Json>) -> (text: Option<&'a str>)
    ensures
        text.deep_view() == text_of(json_view(json)),
{
    match json {
        Some(json) => json.as_str(),
        None => None,
    }
}

/// The integer of a value that may be missing.
pub(crate) fn i64_in(json: Option<&Json>) -> (integer: Option<i64>)
    ensures
        integer == integer_of(json_view(json)),
{
    match json {
        Some(json) => json.as_i64(),
        None => None,
    }
}

/// The truth value of a value that may be missing.
pub(crate) fn bool_in(json: Option<&Json>) -> (boolean: Option<bool>)
    ensures
        boolean == boolean_of(json_view(json)),
{
    match json {
        Some(json) => json.as_bool(),
        None => None,
    }
}

} // verus!
