//! JSON values, seen as the nodes that can be reached through the keys of nested objects.

use vstd::prelude::*;

use crate::text;

verus! {

/// `serde_json::Value`: a JSON value.
#[verifier::external_type_specification]
#[verifier::external_body]
pub struct ExValue(serde_json::Value);

/// How many bytes of a JSON text are read at most.
pub const TEXT_LIMIT: usize = 0x7fff_ffff;

/// What stands at one place of a JSON value.
pub enum JsonNode {
    Null,
    Bool(bool),
    /// A number that is held as an integer.
    Integer(int),
    /// Any other number, as it is printed.
    Float(Seq<char>),
    Text(Seq<char>),
    Array,
    Object,
}

/// What a `serde_json::Value` holds: for each path of object keys that leads somewhere, the node
/// that it leads to. The empty path leads to the value itself. The elements of arrays are not
/// reached by keys and are left out.
pub uninterp spec fn json_nodes(value: serde_json::Value) -> Map<Seq<Seq<char>>, JsonNode>;

/// What `serde_json::from_str` reads from a text; `None` where the text is no JSON.
pub uninterp spec fn json_of_text(text: Seq<char>) -> Option<Map<Seq<Seq<char>>, JsonNode>>;

/// The node at the top.
pub open spec fn root(nodes: Map<Seq<Seq<char>>, JsonNode>) -> JsonNode {
    nodes[Seq::<Seq<char>>::empty()]
}

/// What is left of `nodes` below the key `key` of the top node.
pub open spec fn below(nodes: Map<Seq<Seq<char>>, JsonNode>, key: Seq<char>) -> Map<
    Seq<Seq<char>>,
    JsonNode,
> {
    Map::new(
        |path: Seq<Seq<char>>| nodes.contains_key(seq![key] + path),
        |path: Seq<Seq<char>>| nodes[seq![key] + path],
    )
}

/// The member `key` of the top node, where that is an object with such a member.
pub open spec fn member(nodes: Map<Seq<Seq<char>>, JsonNode>, key: Seq<char>) -> Option<
    Map<Seq<Seq<char>>, JsonNode>,
> {
    if nodes.contains_key(seq![key]) {
        Some(below(nodes, key))
    } else {
        None
    }
}

/// The text of a string node.
pub open spec fn node_text(node: JsonNode) -> Option<Seq<char>> {
    match node {
        JsonNode::Text(t) => Some(t),
        _ => None,
    }
}

/// The number of an integer node, where it is an `i64`.
pub open spec fn node_i64(node: JsonNode) -> Option<i64> {
    match node {
        JsonNode::Integer(n) => if i64::MIN <= n <= i64::MAX {
            Some(n as i64)
        } else {
            None
        },
        _ => None,
    }
}

/// A number node as it is printed.
pub open spec fn node_number_text(node: JsonNode) -> Option<Seq<char>> {
    match node {
        JsonNode::Integer(n) => Some(text::signed_decimal(n)),
        JsonNode::Float(t) => Some(t),
        _ => None,
    }
}

/// `serde_json::from_str`: the value that a JSON text stands for. What it holds is the function
/// `json_of_text` of the text; that there is no value is where the text is no JSON. The parser
/// counts the digits of a long number in 31 bits, hence the limit.
#[verifier::external_body]
pub(crate) fn parse_json(text: &str) -> (r: Option<serde_json::Value>)
    requires
        vstd::utf8::encode_utf8(text@).len() <= TEXT_LIMIT,
    ensures
        match r {
            Some(value) => json_of_text(text@) == Some(json_nodes(value)),
            None => json_of_text(text@) is None,
        },
{
    serde_json::from_str(text).ok()
}

/// `serde_json::Value::get` with a string: the member of that name, where the value is an object
/// that has it.
#[verifier::external_body]
pub(crate) fn json_member<'a>(value: &'a serde_json::Value, key: &str) -> (r: Option<
    &'a serde_json::Value,
>)
    ensures
        match r {
            Some(found) => member(json_nodes(*value), key@) == Some(json_nodes(*found)),
            None => member(json_nodes(*value), key@) is None,
        },
{
    value.get(key)
}

/// `serde_json::Value::as_str`: the text of a string.
#[verifier::external_body]
pub(crate) fn json_text(value: &serde_json::Value) -> (r: Option<&str>)
    ensures
        match r {
            Some(t) => node_text(root(json_nodes(*value))) == Some(t@),
            None => node_text(root(json_nodes(*value))) is None,
        },
{
    value.as_str()
}

/// `serde_json::Value::as_i64`: the number of an integer within the bounds of `i64`.
#[verifier::external_body]
pub(crate) fn json_integer(value: &serde_json::Value) -> (r: Option<i64>)
    ensures
        r == node_i64(root(json_nodes(*value))),
{
    value.as_i64()
}

/// `serde_json::Number`'s `to_string`: an integer is printed in decimal, any other number as the
/// node holds it.
#[verifier::external_body]
pub(crate) fn json_number_text(value: &serde_json::Value) -> (r: Option<String>)
    ensures
        text::option_view(r) == node_number_text(root(json_nodes(*value))),
{
    match value {
        serde_json::Value::Number(number) => Some(number.to_string()),
        _ => None,
    }
}

/// A text that is not empty, or a number as it is printed.
pub open spec fn scalar_text(node: JsonNode) -> Option<Seq<char>> {
    match node {
        JsonNode::Text(t) => if t.len() > 0 {
            Some(t)
        } else {
            None
        },
        _ => node_number_text(node),
    }
}

/// The text of a string that is not empty, or a number as it is printed.
pub fn value_as_string(value: &serde_json::Value) -> (r: Option<String>)
    ensures
        text::option_view(r) == scalar_text(root(json_nodes(*value))),
{
    if let Some(t) = json_text(value) {
        if t.is_empty() {
            None
        } else {
            Some(t.to_owned())
        }
    } else {
        json_number_text(value)
    }
}

/// The text of the member `key`, where that is a string.
pub open spec fn member_text(nodes: Map<Seq<Seq<char>>, JsonNode>, key: Seq<char>) -> Option<
    Seq<char>,
> {
    match member(nodes, key) {
        Some(found) => node_text(root(found)),
        None => None,
    }
}

/// The text of the first of the members `keys` that is a string; nothing where none is.
pub open spec fn first_text(
    nodes: Map<Seq<Seq<char>>, JsonNode>,
    keys: Seq<Seq<char>>,
) -> Seq<char>
    decreases keys.len(),
{
    if keys.len() == 0 {
        Seq::empty()
    } else {
        match member_text(nodes, keys[0]) {
            Some(t) => t,
            None => first_text(nodes, keys.skip(1)),
        }
    }
}

/// The text of the first of the members `keys` that is a string; the empty string where none is.
pub fn json_string(value: &serde_json::Value, keys: &[&str]) -> (r: String)
    ensures
        r@ == first_text(json_nodes(*value), text::str_views(keys@)),
{
    let ghost nodes = json_nodes(*value);
    let ghost all = text::str_views(keys@);
    let mut i: usize = 0;
    assert(all.skip(0) == all);
    while i < keys.len()
        invariant
            i <= keys@.len(),
            nodes == json_nodes(*value),
            all == text::str_views(keys@),
            first_text(nodes, all) == first_text(nodes, all.skip(i as int)),
        decreases keys@.len() - i,
    {
        if let Some(found) = json_member(value, keys[i]) {
            if let Some(t) = json_text(found) {
                return t.to_owned();
            }
        }
        assert(all.skip(i as int).skip(1) == all.skip(i + 1));
        i = i + 1;
    }
    String::new()
}

/// The number of the member `key`, which is an integer or the decimal text of one; zero where
/// there is none.
pub open spec fn member_i64(nodes: Map<Seq<Seq<char>>, JsonNode>, key: Seq<char>) -> i64 {
    match member(nodes, key) {
        Some(found) => match node_i64(root(found)) {
            Some(n) => n,
            None => match node_text(root(found)) {
                Some(t) => match text::i64_of(t) {
                    Some(n) => n,
                    None => 0,
                },
                None => 0,
            },
        },
        None => 0,
    }
}

/// The number of the member `key`, which is an integer or the decimal text of one; zero where
/// there is none.
pub fn json_i64(value: &serde_json::Value, key: &str) -> (r: i64)
    ensures
        r == member_i64(json_nodes(*value), key@),
{
    if let Some(found) = json_member(value, key) {
        if let Some(n) = json_integer(found) {
            return n;
        }
        if let Some(t) = json_text(found) {
            if let Some(n) = text::parse_i64(t) {
                return n;
            }
        }
    }
    0
}

// ---------------------------------------------------------------------------------------------
// Laws
// ---------------------------------------------------------------------------------------------

/// An integer reads the same, whether it is given as a number or as its decimal text.
pub proof fn law_numbers_may_be_texts(
    nodes: Map<Seq<Seq<char>>, JsonNode>,
    key: Seq<char>,
    n: i64,
)
    requires
        member(nodes, key) matches Some(found) && (root(found) == JsonNode::Integer(n as int)
            || root(found) == JsonNode::Text(text::signed_decimal(n as int))),
    ensures
        member_i64(nodes, key) == n,
{
    text::lemma_signed_decimal_reads_back(n);
}

/// The first of the keys that holds a text decides: what stands under the keys behind it does not
/// matter.
pub proof fn law_first_key_decides(
    nodes: Map<Seq<Seq<char>>, JsonNode>,
    keys: Seq<Seq<char>>,
    more: Seq<Seq<char>>,
)
    requires
        exists|i: int| 0 <= i < keys.len() && #[trigger] member_text(nodes, keys[i]) is Some,
    ensures
        first_text(nodes, keys + more) == first_text(nodes, keys),
    decreases keys.len(),
{
    assert((keys + more)[0] == keys[0]);
    if member_text(nodes, keys[0]) is None {
        let i = choose|i: int| 0 <= i < keys.len() && #[trigger] member_text(nodes, keys[i]) is Some;
        let rest = keys.skip(1);
        assert(rest[i - 1] == keys[i]);
        assert((keys + more).skip(1) == rest + more);
        law_first_key_decides(nodes, rest, more);
    }
}

} // verus!
