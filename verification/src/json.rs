use vstd::prelude::*;

use crate::text::{
    chars_of, owned, parse_u64, parsed_u64, push_chars, string_of, trim, trim_range,
};

verus! {

/// A JSON document as recognition responses carry it. Numbers that are not unsigned integers
/// fitting 64 bits are only known to be numbers; object members keep their order.
pub enum JsonValue {
    Null,
    Bool(bool),
    UInt(u64),
    OtherNumber,
    Str(String),
    Array(Vec<JsonValue>),
    Object(Vec<(String, JsonValue)>),
}

/// The member `key` of an object (the first one, should the key repeat); none for other values.
pub open spec fn json_get(v: JsonValue, key: Seq<char>) -> Option<JsonValue> {
    match v {
        JsonValue::Object(members) => {
            if exists|i: int| 0 <= i < members@.len() && (#[trigger] members@[i]).0@ == key {
                Some(members@[first_member(members@, key)].1)
            } else {
                None
            }
        },
        _ => None,
    }
}

pub open spec fn json_str(v: Option<JsonValue>) -> Option<Seq<char>> {
    match v {
        Some(JsonValue::Str(s)) => Some(s@),
        _ => None,
    }
}

pub open spec fn json_items(v: Option<JsonValue>) -> Option<Seq<JsonValue>> {
    match v {
        Some(JsonValue::Array(items)) => Some(items@),
        _ => None,
    }
}

/// `Value::as_u64`, falling back to a decimal string.
pub open spec fn json_u64_of(v: Option<JsonValue>) -> Option<u64> {
    match v {
        Some(JsonValue::UInt(n)) => Some(n),
        Some(JsonValue::Str(s)) => parsed_u64(s@),
        _ => None,
    }
}

pub open spec fn json_bool_of(v: Option<JsonValue>) -> Option<bool> {
    match v {
        Some(JsonValue::Bool(b)) => Some(b),
        _ => None,
    }
}

/// Position of the first member named `key`.
pub open spec fn first_member(members: Seq<(String, JsonValue)>, key: Seq<char>) -> int {
    choose|k: int|
        0 <= k < members.len() && (#[trigger] members[k]).0@ == key && forall|j: int|
            0 <= j < k ==> (#[trigger] members[j]).0@ != key
}

proof fn lemma_first_member(members: Seq<(String, JsonValue)>, key: Seq<char>, i: int)
    requires
        0 <= i < members.len(),
        members[i].0@ == key,
        forall|j: int| 0 <= j < i ==> (#[trigger] members[j]).0@ != key,
    ensures
        first_member(members, key) == i,
{
    let k = first_member(members, key);
    assert(0 <= k < members.len() && members[k].0@ == key && forall|j: int|
        0 <= j < k ==> (#[trigger] members[j]).0@ != key);
    if k < i {
        assert(members[k].0@ != key);
    }
    if k > i {
        assert(members[i].0@ != key);
    }
}

proof fn lemma_get_member(members: Vec<(String, JsonValue)>, key: Seq<char>, i: int)
    requires
        0 <= i < members@.len(),
        members@[i].0@ == key,
    ensures
        json_get(JsonValue::Object(members), key) == Some(
            members@[first_member(members@, key)].1,
        ),
{
    lemma_first_member_exists(members@, key, i);
}

proof fn lemma_first_member_exists(members: Seq<(String, JsonValue)>, key: Seq<char>, w: int)
    requires
        0 <= w < members.len(),
        members[w].0@ == key,
    ensures
        exists|k: int|
            0 <= k < members.len() && (#[trigger] members[k]).0@ == key && forall|j: int|
                0 <= j < k ==> (#[trigger] members[j]).0@ != key,
    decreases w,
{
    if exists|j: int| 0 <= j < w && (#[trigger] members[j]).0@ == key {
        let j = choose|j: int| 0 <= j < w && (#[trigger] members[j]).0@ == key;
        lemma_first_member_exists(members, key, j);
    } else {
        assert(forall|j: int| 0 <= j < w ==> (#[trigger] members[j]).0@ != key);
    }
}

impl JsonValue {
    /// The member `key` of an object (`Value::get` with a string key).
    pub fn get(&self, key: &str) -> (r: Option<&JsonValue>)
        ensures
            match r {
                Some(x) => json_get(*self, key@) == Some(*x),
                None => json_get(*self, key@) is None,
            },
    {
        match self {
            JsonValue::Object(members) => {
                let k = owned(key);
                let mut i: usize = 0;
                while i < members.len()
                    invariant
                        i <= members.len(),
                        k@ == key@,
                        *self == JsonValue::Object(*members),
                        forall|j: int| 0 <= j < i ==> (#[trigger] members@[j]).0@ != key@,
                    decreases members.len() - i,
                {
                    if members[i].0 == k {
                        proof {
                            assert(members@[i as int].0@ == key@);
                            lemma_first_member(members@, key@, i as int);
                            lemma_get_member(*members, key@, i as int);
                        }
                        return Some(&members[i].1);
                    }
                    i = i + 1;
                }
                None
            },
            _ => None,
        }
    }
}

/// `v.and_then(Value::as_str)`.
pub fn as_str(v: Option<&JsonValue>) -> (r: Option<&String>)
    ensures
        match r {
            Some(s) => json_str(match v {
                Some(x) => Some(*x),
                None => None,
            }) == Some(s@),
            None => json_str(match v {
                Some(x) => Some(*x),
                None => None,
            }) is None,
        },
{
    match v {
        Some(JsonValue::Str(s)) => Some(s),
        _ => None,
    }
}

pub open spec fn opt(v: Option<&JsonValue>) -> Option<JsonValue> {
    match v {
        Some(x) => Some(*x),
        None => None,
    }
}

/// `v.and_then(Value::as_array)`.
pub fn as_array(v: Option<&JsonValue>) -> (r: Option<&Vec<JsonValue>>)
    ensures
        match r {
            Some(items) => json_items(opt(v)) == Some(items@),
            None => json_items(opt(v)) is None,
        },
{
    match v {
        Some(JsonValue::Array(items)) => Some(items),
        _ => None,
    }
}

/// A number field: an unsigned integer, or a string holding one.
pub fn json_u64(v: Option<&JsonValue>) -> (r: Option<u64>)
    ensures
        r == json_u64_of(opt(v)),
{
    match v {
        Some(JsonValue::UInt(n)) => Some(*n),
        Some(JsonValue::Str(s)) => parse_u64(s.as_str()),
        _ => None,
    }
}

// ---------------------------------------------------------------------------
// Recognised text
// ---------------------------------------------------------------------------

/// The concatenation of the pieces.
pub open spec fn concat(parts: Seq<Seq<char>>) -> Seq<char>
    decreases parts.len(),
{
    if parts.len() == 0 {
        Seq::empty()
    } else {
        concat(parts.drop_last()) + parts.last()
    }
}

/// The pieces trimmed and joined without separator, blank ones dropped.
pub open spec fn joined_text(parts: Seq<Seq<char>>) -> Seq<char> {
    concat(parts.map_values(|p: Seq<char>| trim(p)))
}

pub open spec fn non_empty(t: Seq<char>) -> Option<Seq<char>> {
    if t.len() == 0 {
        None
    } else {
        Some(t)
    }
}

/// Trimmed `text`, or none when it is blank.
pub fn non_empty_text(text: &str) -> (r: Option<String>)
    ensures
        match r {
            Some(s) => non_empty(trim(text@)) == Some(s@),
            None => non_empty(trim(text@)) is None,
        },
{
    let v = chars_of(text);
    let (a, b) = trim_range(&v);
    if a == b {
        None
    } else {
        Some(string_of(&v, a, b))
    }
}

/// The pieces trimmed and joined without separator, or none when nothing is left.
pub fn joined_parts(parts: Vec<String>) -> (r: Option<String>)
    ensures
        match r {
            Some(s) => non_empty(joined_text(parts@.map_values(|p: String| p@))) == Some(s@),
            None => non_empty(joined_text(parts@.map_values(|p: String| p@))) is None,
        },
{
    let ghost views = parts@.map_values(|p: String| p@);
    let ghost trims = views.map_values(|p: Seq<char>| trim(p));
    let mut text = String::new();
    let mut i: usize = 0;
    while i < parts.len()
        invariant
            i <= parts.len(),
            views == parts@.map_values(|p: String| p@),
            trims == views.map_values(|p: Seq<char>| trim(p)),
            text@ == concat(trims.take(i as int)),
        decreases parts.len() - i,
    {
        let v = chars_of(parts[i].as_str());
        let (a, b) = trim_range(&v);
        push_chars(&mut text, &v, a, b);
        assert(trims.take(i + 1).drop_last() =~= trims.take(i as int));
        assert(trims[i as int] == trim(parts@[i as int]@));
        i = i + 1;
    }
    assert(trims.take(parts.len() as int) =~= trims);
    let n = chars_of(text.as_str()).len();
    if n == 0 {
        None
    } else {
        Some(text)
    }
}

/// The `text` members of the items of an array of utterances.
pub open spec fn utterance_texts(v: Option<JsonValue>) -> Seq<Seq<char>> {
    match json_items(v) {
        Some(items) => texts_of(items),
        None => Seq::empty(),
    }
}

pub open spec fn texts_of(items: Seq<JsonValue>) -> Seq<Seq<char>>
    decreases items.len(),
{
    if items.len() == 0 {
        Seq::empty()
    } else {
        texts_of(items.drop_last()) + match json_str(json_get(items.last(), "text"@)) {
            Some(t) => seq![t],
            None => Seq::empty(),
        }
    }
}

/// Pieces of a result that is an array: each item's `text`, or else the texts of its
/// `utterances`.
pub open spec fn item_parts(items: Seq<JsonValue>) -> Seq<Seq<char>>
    decreases items.len(),
{
    if items.len() == 0 {
        Seq::empty()
    } else {
        item_parts(items.drop_last()) + match json_str(json_get(items.last(), "text"@)) {
            Some(t) => seq![t],
            None => utterance_texts(json_get(items.last(), "utterances"@)),
        }
    }
}

/// The recognised text of a response: its `text`, else `result.text`, else the joined texts
/// of `result.utterances`, else, for an array `result`, the joined texts of its items.
pub open spec fn doubao_text(value: JsonValue) -> Option<Seq<char>> {
    match json_str(json_get(value, "text"@)) {
        Some(t) => non_empty(trim(t)),
        None => match json_get(value, "result"@) {
            Some(result) => match json_str(json_get(result, "text"@)) {
                Some(t) => non_empty(trim(t)),
                None => {
                    let parts = utterance_texts(json_get(result, "utterances"@));
                    if parts.len() > 0 {
                        non_empty(joined_text(parts))
                    } else {
                        match json_items(Some(result)) {
                            Some(items) => non_empty(joined_text(item_parts(items))),
                            None => None,
                        }
                    }
                },
            },
            None => None,
        },
    }
}

/// Appends the `text` members of an array of utterances to `parts`.
pub fn collect_utterance_text(value: Option<&JsonValue>, parts: &mut Vec<String>)
    ensures
        final(parts)@.map_values(|p: String| p@) == old(parts)@.map_values(|p: String| p@)
            + utterance_texts(opt(value)),
{
    match as_array(value) {
        Some(items) => {
            let mut i: usize = 0;
            while i < items.len()
                invariant
                    i <= items.len(),
                    parts@.map_values(|p: String| p@) == old(parts)@.map_values(|p: String| p@)
                        + texts_of(items@.take(i as int)),
                decreases items.len() - i,
            {
                assert(items@.take(i + 1).drop_last() =~= items@.take(i as int));
                let ghost before = parts@;
                match as_str(items[i].get("text")) {
                    Some(t) => {
                        parts.push(t.clone());
                        assert(parts@.map_values(|p: String| p@) =~= before.map_values(
                            |p: String| p@,
                        ).push(t@));
                    },
                    None => {},
                }
                i = i + 1;
            }
            assert(items@.take(items@.len() as int) =~= items@);
        },
        None => {
            assert(parts@.map_values(|p: String| p@) =~= old(parts)@.map_values(|p: String| p@)
                + Seq::<Seq<char>>::empty());
        },
    }
}

/// The recognised text of a response (see `doubao_text`).
pub fn extract_doubao_text(value: &JsonValue) -> (r: Option<String>)
    ensures
        match r {
            Some(s) => doubao_text(*value) == Some(s@),
            None => doubao_text(*value) is None,
        },
{
    if let Some(text) = as_str(value.get("text")) {
        return non_empty_text(text.as_str());
    }
    if let Some(result) = value.get("result") {
        if let Some(text) = as_str(result.get("text")) {
            return non_empty_text(text.as_str());
        }
        let mut parts: Vec<String> = Vec::new();
        collect_utterance_text(result.get("utterances"), &mut parts);
        assert(parts@.map_values(|p: String| p@) =~= utterance_texts(json_get(*result, "utterances"@)));
        if parts.len() > 0 {
            return joined_parts(parts);
        }
        if let Some(items) = as_array(Some(result)) {
            let mut i: usize = 0;
            while i < items.len()
                invariant
                    i <= items.len(),
                    parts@.map_values(|p: String| p@) == item_parts(items@.take(i as int)),
                decreases items.len() - i,
            {
                assert(items@.take(i + 1).drop_last() =~= items@.take(i as int));
                let ghost before = parts@;
                match as_str(items[i].get("text")) {
                    Some(t) => {
                        parts.push(t.clone());
                        assert(parts@.map_values(|p: String| p@) =~= before.map_values(
                            |p: String| p@,
                        ).push(t@));
                    },
                    None => {
                        collect_utterance_text(items[i].get("utterances"), &mut parts);
                    },
                }
                i = i + 1;
            }
            assert(items@.take(items@.len() as int) =~= items@);
            return joined_parts(parts);
        }
    }
    None
}

// ---------------------------------------------------------------------------
// Utterances
// ---------------------------------------------------------------------------

/// A recognised utterance with its time span in milliseconds.
#[derive(Debug)]
pub struct DoubaoUtterance {
    pub start_ms: u64,
    pub end_ms: u64,
    pub text: String,
    pub definite: bool,
}

pub open spec fn utterance_view(u: DoubaoUtterance) -> (u64, u64, Seq<char>, bool) {
    (u.start_ms, u.end_ms, u.text@, u.definite)
}

/// The utterance an item describes: it needs a `text` that is not blank; missing times are 0
/// and a missing `definite` is false.
pub open spec fn utterance_of(item: JsonValue) -> Option<(u64, u64, Seq<char>, bool)> {
    match json_str(json_get(item, "text"@)) {
        Some(t) => if trim(t).len() == 0 {
            None
        } else {
            Some(
                (
                    match json_u64_of(json_get(item, "start_time"@)) {
                        Some(n) => n,
                        None => 0,
                    },
                    match json_u64_of(json_get(item, "end_time"@)) {
                        Some(n) => n,
                        None => 0,
                    },
                    trim(t),
                    match json_bool_of(json_get(item, "definite"@)) {
                        Some(b) => b,
                        None => false,
                    },
                ),
            )
        },
        None => None,
    }
}

pub open spec fn utterances_of(items: Seq<JsonValue>) -> Seq<(u64, u64, Seq<char>, bool)>
    decreases items.len(),
{
    if items.len() == 0 {
        Seq::empty()
    } else {
        utterances_of(items.drop_last()) + match utterance_of(items.last()) {
            Some(u) => seq![u],
            None => Seq::empty(),
        }
    }
}

/// The utterances of an array value; none for anything else.
pub open spec fn utterances_in(v: Option<JsonValue>) -> Seq<(u64, u64, Seq<char>, bool)> {
    match json_items(v) {
        Some(items) => utterances_of(items),
        None => Seq::empty(),
    }
}

/// The utterances of the items of an array result, in order.
pub open spec fn item_utterances(items: Seq<JsonValue>) -> Seq<(u64, u64, Seq<char>, bool)>
    decreases items.len(),
{
    if items.len() == 0 {
        Seq::empty()
    } else {
        item_utterances(items.drop_last()) + utterances_in(json_get(items.last(), "utterances"@))
    }
}

/// The utterances of a response: those of `result.utterances`, then, for an array `result`,
/// those of each item's `utterances`.
pub open spec fn doubao_utterances(value: JsonValue) -> Seq<(u64, u64, Seq<char>, bool)> {
    match json_get(value, "result"@) {
        Some(result) => utterances_in(json_get(result, "utterances"@)) + match json_items(
            Some(result),
        ) {
            Some(items) => item_utterances(items),
            None => Seq::empty(),
        },
        None => Seq::empty(),
    }
}

fn json_bool(v: Option<&JsonValue>) -> (r: Option<bool>)
    ensures
        r == json_bool_of(opt(v)),
{
    match v {
        Some(JsonValue::Bool(b)) => Some(*b),
        _ => None,
    }
}

/// Appends the utterances of an array value to `output`.
pub fn collect_utterances(value: Option<&JsonValue>, output: &mut Vec<DoubaoUtterance>)
    ensures
        final(output)@.map_values(|u: DoubaoUtterance| utterance_view(u)) == old(
            output,
        )@.map_values(|u: DoubaoUtterance| utterance_view(u)) + utterances_in(opt(value)),
{
    let items = match as_array(value) {
        Some(items) => items,
        None => {
            assert(output@.map_values(|u: DoubaoUtterance| utterance_view(u)) =~= old(
                output,
            )@.map_values(|u: DoubaoUtterance| utterance_view(u)) + Seq::<
                (u64, u64, Seq<char>, bool),
            >::empty());
            return;
        },
    };
    let mut i: usize = 0;
    while i < items.len()
        invariant
            i <= items.len(),
            output@.map_values(|u: DoubaoUtterance| utterance_view(u)) == old(output)@.map_values(
                |u: DoubaoUtterance| utterance_view(u),
            ) + utterances_of(items@.take(i as int)),
        decreases items.len() - i,
    {
        assert(items@.take(i + 1).drop_last() =~= items@.take(i as int));
        let item = &items[i];
        let ghost before = output@;
        match as_str(item.get("text")) {
            Some(t) => {
                let v = chars_of(t.as_str());
                let (a, b) = trim_range(&v);
                if a < b {
                    let start_ms = match json_u64(item.get("start_time")) {
                        Some(n) => n,
                        None => 0,
                    };
                    let end_ms = match json_u64(item.get("end_time")) {
                        Some(n) => n,
                        None => 0,
                    };
                    let definite = match json_bool(item.get("definite")) {
                        Some(b) => b,
                        None => false,
                    };
                    let u = DoubaoUtterance { start_ms, end_ms, text: string_of(&v, a, b), definite };
                    let ghost uv = utterance_view(u);
                    output.push(u);
                    assert(output@.map_values(|u: DoubaoUtterance| utterance_view(u)) =~= before.map_values(
                        |u: DoubaoUtterance| utterance_view(u),
                    ).push(uv));
                } else {
                    assert(utterance_of(items@[i as int]) is None);
                }
            },
            None => {},
        }
        i = i + 1;
    }
    assert(items@.take(items@.len() as int) =~= items@);
}

/// The utterances of a response (see `doubao_utterances`).
pub fn extract_doubao_utterances(value: &JsonValue) -> (r: Vec<DoubaoUtterance>)
    ensures
        r@.map_values(|u: DoubaoUtterance| utterance_view(u)) == doubao_utterances(*value),
{
    let mut output: Vec<DoubaoUtterance> = Vec::new();
    if let Some(result) = value.get("result") {
        collect_utterances(result.get("utterances"), &mut output);
        if let Some(items) = as_array(Some(result)) {
            let ghost first = output@.map_values(|u: DoubaoUtterance| utterance_view(u));
            let mut i: usize = 0;
            while i < items.len()
                invariant
                    i <= items.len(),
                    output@.map_values(|u: DoubaoUtterance| utterance_view(u)) == first
                        + item_utterances(items@.take(i as int)),
                decreases items.len() - i,
            {
                assert(items@.take(i + 1).drop_last() =~= items@.take(i as int));
                collect_utterances(items[i].get("utterances"), &mut output);
                i = i + 1;
            }
            assert(items@.take(items@.len() as int) =~= items@);
        } else {
            assert(output@.map_values(|u: DoubaoUtterance| utterance_view(u)) =~= output@.map_values(
                |u: DoubaoUtterance| utterance_view(u),
            ) + Seq::<(u64, u64, Seq<char>, bool)>::empty());
        }
    } else {
        assert(output@.map_values(|u: DoubaoUtterance| utterance_view(u)) =~= Seq::<
            (u64, u64, Seq<char>, bool),
        >::empty());
    }
    output
}

/// What a server response frame carries: its recognised text, its utterances, and whether it
/// is the last one.
pub struct ParsedServerFrame {
    pub text: Option<String>,
    pub utterances: Vec<DoubaoUtterance>,
    pub is_last: bool,
}

/// Reads the recognised text and utterances out of a decoded response.
pub fn read_server_response(value: &JsonValue, is_last: bool) -> (f: ParsedServerFrame)
    ensures
        match f.text {
            Some(t) => doubao_text(*value) == Some(t@),
            None => doubao_text(*value) is None,
        },
        f.utterances@.map_values(|u: DoubaoUtterance| utterance_view(u)) == doubao_utterances(
            *value,
        ),
        f.is_last == is_last,
{
    let utterances = extract_doubao_utterances(value);
    ParsedServerFrame { text: extract_doubao_text(value), utterances, is_last }
}

} // verus!
