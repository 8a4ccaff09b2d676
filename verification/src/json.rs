//! A JSON document model with key-path lookup and compact rendering.

use vstd::prelude::*;

use crate::text::str_eq;

verus! {

/// A JSON value.  Numbers keep the text they were written with; object
/// members keep their order.
#[derive(Debug)]
pub enum JsonValue {
    Null,
    Bool(bool),
    Number(String),
    String(String),
    Array(Vec<JsonValue>),
    Object(Vec<(String, JsonValue)>),
}

/// A parsed JSON document.
pub type JsonData = JsonValue;

/// Hexadecimal digit (lower case) of a value below 16.
pub open spec fn hex_digit(d: int) -> char {
    if d < 10 {
        (0x30 + d) as char
    } else {
        (0x61 + d - 10) as char
    }
}

/// How a character stands inside a JSON string literal.
pub open spec fn json_escape_char(c: char) -> Seq<char> {
    if c == '"' {
        seq!['\\', '"']
    } else if c == '\\' {
        seq!['\\', '\\']
    } else if c == '\u{08}' {
        seq!['\\', 'b']
    } else if c == '\t' {
        seq!['\\', 't']
    } else if c == '\n' {
        seq!['\\', 'n']
    } else if c == '\u{0c}' {
        seq!['\\', 'f']
    } else if c == '\r' {
        seq!['\\', 'r']
    } else if (c as u32) < 0x20 {
        seq!['\\', 'u', '0', '0', hex_digit(((c as u32) / 16) as int), hex_digit(((c as u32) % 16) as int)]
    } else {
        seq![c]
    }
}

/// The characters of `s`, each escaped as a JSON string literal needs.
pub open spec fn json_escaped(s: Seq<char>) -> Seq<char>
    decreases s.len(),
{
    if s.len() == 0 {
        Seq::empty()
    } else {
        json_escape_char(s[0]) + json_escaped(s.drop_first())
    }
}

/// The JSON string literal of `s`.
pub open spec fn json_quoted(s: Seq<char>) -> Seq<char> {
    seq!['"'] + json_escaped(s) + seq!['"']
}

/// `serde_json::to_string` on a string slice: the JSON string literal of
/// `s`, with `"` and `\` escaped by a backslash, the control characters
/// backspace, tab, line feed, form feed and carriage return as `\b`, `\t`,
/// `\n`, `\f`, `\r`, the other characters below U+0020 as `\u00XX` with
/// lower-case hex digits, and every other character as it is.
#[verifier::external_body]
pub(crate) fn quoted(s: &str) -> (r: String)
    ensures
        r@ == json_quoted(s@),
{
    match serde_json::to_string(s) {
        Ok(t) => t,
        Err(_) => String::new(),
    }
}

/// Compact JSON text of a value, as `serde_json` renders it.
pub open spec fn json_text(v: JsonValue) -> Seq<char>
    decreases v,
{
    match v {
        JsonValue::Null => "null"@,
        JsonValue::Bool(b) => if b {
            "true"@
        } else {
            "false"@
        },
        JsonValue::Number(t) => t@,
        JsonValue::String(s) => json_quoted(s@),
        JsonValue::Array(items) => "["@ + items_text(items@) + "]"@,
        JsonValue::Object(members) => "{"@ + members_text(members@) + "}"@,
    }
}

/// Comma-separated texts of array items.
pub open spec fn items_text(items: Seq<JsonValue>) -> Seq<char>
    decreases items,
{
    if items.len() == 0 {
        Seq::empty()
    } else if items.len() == 1 {
        json_text(items[0])
    } else {
        json_text(items[0]) + ","@ + items_text(items.subrange(1, items.len() as int))
    }
}

/// Comma-separated `"key":value` texts of object members.
pub open spec fn members_text(members: Seq<(String, JsonValue)>) -> Seq<char>
    decreases members,
{
    if members.len() == 0 {
        Seq::empty()
    } else if members.len() == 1 {
        json_quoted(members[0].0@) + ":"@ + json_text(members[0].1)
    } else {
        json_quoted(members[0].0@) + ":"@ + json_text(members[0].1) + ","@ + members_text(
            members.subrange(1, members.len() as int),
        )
    }
}

} // verus!

verus! {

proof fn lemma_items_text_push(s: Seq<JsonValue>, x: JsonValue)
    ensures
        items_text(s.push(x)) == if s.len() == 0 {
            json_text(x)
        } else {
            items_text(s) + ","@ + json_text(x)
        },
    decreases s.len(),
{
    if s.len() == 0 {
    } else if s.len() == 1 {
        assert(s.push(x).subrange(1, 2) =~= seq![x]);
        assert(s.push(x)[0] == s[0]);
        assert(seq![x][0] == x);
        assert(items_text(seq![x]) == json_text(x));
        assert(items_text(s.push(x)) =~= items_text(s) + ","@ + json_text(x));
    } else {
        let t = s.subrange(1, s.len() as int);
        assert(s.push(x).subrange(1, s.len() as int + 1) =~= t.push(x));
        lemma_items_text_push(t, x);
        assert(s.push(x)[0] == s[0]);
        assert(items_text(s.push(x)) =~= items_text(s) + ","@ + json_text(x));
    }
}

proof fn lemma_members_text_push(s: Seq<(String, JsonValue)>, x: (String, JsonValue))
    ensures
        members_text(s.push(x)) == if s.len() == 0 {
            json_quoted(x.0@) + ":"@ + json_text(x.1)
        } else {
            members_text(s) + ","@ + (json_quoted(x.0@) + ":"@ + json_text(x.1))
        },
    decreases s.len(),
{
    if s.len() == 0 {
    } else if s.len() == 1 {
        assert(s.push(x).subrange(1, 2) =~= seq![x]);
        assert(s.push(x)[0] == s[0]);
        assert(seq![x][0] == x);
        assert(members_text(seq![x]) == json_quoted(x.0@) + ":"@ + json_text(x.1));
        assert(members_text(s.push(x)) =~= members_text(s) + ","@ + (json_quoted(x.0@) + ":"@ + json_text(x.1)));
    } else {
        let t = s.subrange(1, s.len() as int);
        assert(s.push(x).subrange(1, s.len() as int + 1) =~= t.push(x));
        lemma_members_text_push(t, x);
        assert(s.push(x)[0] == s[0]);
        assert(members_text(s.push(x)) =~= members_text(s) + ","@ + (json_quoted(x.0@) + ":"@ + json_text(x.1)));
    }
}

/// Appends the compact JSON text of `v` to `out`.
pub fn write_json(v: &JsonValue, out: &mut String)
    ensures
        final(out)@ == old(out)@ + json_text(*v),
    decreases v,
{
    match v {
        JsonValue::Null => {
            out.append("null");
        },
        JsonValue::Bool(b) => {
            if *b {
                out.append("true");
            } else {
                out.append("false");
            }
        },
        JsonValue::Number(t) => {
            out.append(t.as_str());
        },
        JsonValue::String(s) => {
            let q = quoted(s.as_str());
            out.append(q.as_str());
        },
        JsonValue::Array(items) => {
            let ghost start = out@;
            out.append("[");
            let mut i: usize = 0;
            assert(items@.subrange(0, 0) =~= Seq::<JsonValue>::empty());
            while i < items.len()
                invariant
                    i <= items@.len(),
                    out@ == start + "["@ + items_text(items@.subrange(0, i as int)),
                    *v == JsonValue::Array(*items),
                decreases items@.len() - i,
            {
                assert(items@.subrange(0, i + 1) =~= items@.subrange(0, i as int).push(items@[i as int]));
                proof {
                    lemma_items_text_push(items@.subrange(0, i as int), items@[i as int]);
                }
                if i > 0 {
                    out.append(",");
                }
                assert(decreases_to!(*v => (*v)->Array_0));
                assert(decreases_to!(*items => items@));
                assert(decreases_to!(items@ => items@[i as int]));
                assert(decreases_to!(*v => items@[i as int]));
                write_json(&items[i], out);
                i = i + 1;
            }
            assert(items@.subrange(0, items@.len() as int) =~= items@);
            out.append("]");
        },
        JsonValue::Object(members) => {
            let ghost start = out@;
            out.append("{");
            let mut i: usize = 0;
            assert(members@.subrange(0, 0) =~= Seq::<(String, JsonValue)>::empty());
            while i < members.len()
                invariant
                    i <= members@.len(),
                    out@ == start + "{"@ + members_text(members@.subrange(0, i as int)),
                    *v == JsonValue::Object(*members),
                decreases members@.len() - i,
            {
                assert(members@.subrange(0, i + 1) =~= members@.subrange(0, i as int).push(members@[i as int]));
                proof {
                    lemma_members_text_push(members@.subrange(0, i as int), members@[i as int]);
                }
                if i > 0 {
                    out.append(",");
                }
                let q = quoted(members[i].0.as_str());
                out.append(q.as_str());
                out.append(":");
                assert(decreases_to!(*v => (*v)->Object_0));
                assert(decreases_to!(*members => members@));
                assert(decreases_to!(members@ => members@[i as int]));
                assert(decreases_to!(members@[i as int] => members@[i as int].1));
                assert(decreases_to!(*v => members@[i as int].1));
                write_json(&members[i].1, out);
                i = i + 1;
            }
            assert(members@.subrange(0, members@.len() as int) =~= members@);
            out.append("}");
        },
    }
}

/// Compact JSON text of a value.
pub fn json_as_string(json_data: &JsonData) -> (r: String)
    ensures
        r@ == json_text(*json_data),
{
    let mut out = String::new();
    write_json(json_data, &mut out);
    assert(out@ =~= json_text(*json_data));
    out
}

} // verus!

verus! {

/// The value of the first member of `members` named `key`.
pub open spec fn member_value(members: Seq<(String, JsonValue)>, key: Seq<char>) -> Option<JsonValue>
    decreases members.len(),
{
    if members.len() == 0 {
        None
    } else if members[0].0@ == key {
        Some(members[0].1)
    } else {
        member_value(members.drop_first(), key)
    }
}

/// `Value::get` with a key: the member named `key` of an object; `None` for
/// an object without it and for any other value.
pub open spec fn json_get(v: JsonValue, key: Seq<char>) -> Option<JsonValue> {
    match v {
        JsonValue::Object(members) => member_value(members@, key),
        _ => None,
    }
}

/// The value reached from `v` by following the keys in order.
pub open spec fn json_path(v: JsonValue, keys: Seq<Seq<char>>) -> Option<JsonValue>
    decreases keys.len(),
{
    if keys.len() == 0 {
        Some(v)
    } else {
        match json_get(v, keys[0]) {
            Some(w) => json_path(w, keys.drop_first()),
            None => None,
        }
    }
}

/// The characters of each key.
pub open spec fn keys_view(keys: Seq<&str>) -> Seq<Seq<char>> {
    keys.map_values(|k: &str| k@)
}

/// Takes the member named `key` out of `v`.
fn take_member(v: JsonValue, key: &str) -> (r: Option<JsonValue>)
    ensures
        r == json_get(v, key@),
{
    match v {
        JsonValue::Object(mut members) => {
            let ghost orig = members@;
            let mut j: usize = 0;
            assert(orig.skip(0) =~= orig);
            while j < members.len()
                invariant
                    members@ == orig,
                    j <= orig.len(),
                    json_get(v, key@) == member_value(orig, key@),
                    member_value(orig, key@) == member_value(orig.skip(j as int), key@),
                decreases orig.len() - j,
            {
                assert(orig.skip(j as int).drop_first() =~= orig.skip(j + 1));
                assert(orig.skip(j as int)[0] == orig[j as int]);
                if str_eq(members[j].0.as_str(), key) {
                    let entry = members.remove(j);
                    assert(entry == orig[j as int]);
                    assert(member_value(orig.skip(j as int), key@) == Some(entry.1));
                    return Some(entry.1);
                }
                j = j + 1;
            }
            None
        },
        _ => None,
    }
}

/// Follows `keys` from `json_data`, one object member per key.
pub fn json_find(json_data: JsonData, keys: &[&str]) -> (r: Option<JsonData>)
    ensures
        r == json_path(json_data, keys_view(keys@)),
{
    let ghost all = keys_view(keys@);
    let mut value = json_data;
    let mut i: usize = 0;
    assert(all.skip(0) =~= all);
    while i < keys.len()
        invariant
            i <= keys@.len(),
            all == keys_view(keys@),
            json_path(json_data, all) == json_path(value, all.skip(i as int)),
        decreases keys@.len() - i,
    {
        let key = keys[i];
        assert(all.skip(i as int)[0] == key@);
        assert(all.skip(i as int).drop_first() =~= all.skip(i + 1));
        match take_member(value, key) {
            Some(v) => {
                value = v;
            },
            None => {
                return None;
            },
        }
        i = i + 1;
    }
    assert(all.skip(i as int) =~= Seq::<Seq<char>>::empty());
    Some(value)
}

/// Following a path made of two parts is following the first part, then
/// the second from where the first ends.
pub proof fn lemma_json_path_concat(v: JsonValue, first: Seq<Seq<char>>, second: Seq<Seq<char>>)
    ensures
        json_path(v, first + second) == match json_path(v, first) {
            Some(w) => json_path(w, second),
            None => None,
        },
    decreases first.len(),
{
    if first.len() == 0 {
        assert(first + second =~= second);
    } else {
        assert((first + second)[0] == first[0]);
        assert((first + second).drop_first() =~= first.drop_first() + second);
        match json_get(v, first[0]) {
            Some(w) => lemma_json_path_concat(w, first.drop_first(), second),
            None => {},
        }
    }
}

/// `s` holds no line feed.
pub open spec fn single_line(s: Seq<char>) -> bool {
    forall|i: int| 0 <= i < s.len() ==> s[i] != '\n'
}

/// No number of `v` is written with a line feed in its text.
pub open spec fn numbers_single_line(v: JsonValue) -> bool
    decreases v,
{
    match v {
        JsonValue::Number(t) => single_line(t@),
        JsonValue::Array(items) => items_single_line(items@),
        JsonValue::Object(members) => members_single_line(members@),
        _ => true,
    }
}

/// No number of the items is written with a line feed in its text.
pub open spec fn items_single_line(items: Seq<JsonValue>) -> bool
    decreases items,
{
    if items.len() == 0 {
        true
    } else {
        numbers_single_line(items[0]) && items_single_line(items.subrange(1, items.len() as int))
    }
}

/// No number of the members' values is written with a line feed in its
/// text.
pub open spec fn members_single_line(members: Seq<(String, JsonValue)>) -> bool
    decreases members,
{
    if members.len() == 0 {
        true
    } else {
        numbers_single_line(members[0].1) && members_single_line(members.subrange(1, members.len() as int))
    }
}

proof fn lemma_single_line_concat(a: Seq<char>, b: Seq<char>)
    requires
        single_line(a),
        single_line(b),
    ensures
        single_line(a + b),
{
    assert forall|i: int| 0 <= i < (a + b).len() implies (a + b)[i] != '\n' by {
        if i < a.len() {
            assert((a + b)[i] == a[i]);
        } else {
            assert((a + b)[i] == b[i - a.len()]);
        }
    }
}

proof fn lemma_escaped_single_line(s: Seq<char>)
    ensures
        single_line(json_escaped(s)),
    decreases s.len(),
{
    reveal_strlit("null");
    if s.len() > 0 {
        let e = json_escape_char(s[0]);
        assert(single_line(e)) by {
            if (s[0] as u32) < 0x20 && s[0] != '\u{08}' && s[0] != '\t' && s[0] != '\n' && s[0] != '\u{0c}' && s[0] != '\r' {
                let c = s[0] as u32;
                assert(c / 16 < 16 && c % 16 < 16);
                assert(e[4] == hex_digit((c / 16) as int) && e[5] == hex_digit((c % 16) as int));
            }
        }
        lemma_escaped_single_line(s.drop_first());
        lemma_single_line_concat(e, json_escaped(s.drop_first()));
    }
}

proof fn lemma_quoted_single_line(s: Seq<char>)
    ensures
        single_line(json_quoted(s)),
{
    lemma_escaped_single_line(s);
    lemma_single_line_concat(seq!['"'], json_escaped(s));
    lemma_single_line_concat(seq!['"'] + json_escaped(s), seq!['"']);
}

/// Compact JSON text is one line: it holds no line feed, whenever the
/// numbers in the value are written without one.
pub proof fn lemma_json_text_single_line(v: JsonValue)
    requires
        numbers_single_line(v),
    ensures
        single_line(json_text(v)),
    decreases v,
{
    reveal_strlit("null");
    reveal_strlit("true");
    reveal_strlit("false");
    reveal_strlit("[");
    reveal_strlit("]");
    reveal_strlit("{");
    reveal_strlit("}");
    match v {
        JsonValue::String(s) => lemma_quoted_single_line(s@),
        JsonValue::Array(items) => {
            lemma_items_text_single_line(items@);
            lemma_single_line_concat("["@, items_text(items@));
            lemma_single_line_concat("["@ + items_text(items@), "]"@);
        },
        JsonValue::Object(members) => {
            lemma_members_text_single_line(members@);
            lemma_single_line_concat("{"@, members_text(members@));
            lemma_single_line_concat("{"@ + members_text(members@), "}"@);
        },
        _ => {},
    }
}

proof fn lemma_items_text_single_line(items: Seq<JsonValue>)
    requires
        items_single_line(items),
    ensures
        single_line(items_text(items)),
    decreases items,
{
    reveal_strlit(",");
    if items.len() > 0 {
        lemma_json_text_single_line(items[0]);
        if items.len() > 1 {
            let rest = items.subrange(1, items.len() as int);
            lemma_items_text_single_line(rest);
            lemma_single_line_concat(json_text(items[0]), ","@);
            lemma_single_line_concat(json_text(items[0]) + ","@, items_text(rest));
        }
    }
}

proof fn lemma_members_text_single_line(members: Seq<(String, JsonValue)>)
    requires
        members_single_line(members),
    ensures
        single_line(members_text(members)),
    decreases members,
{
    reveal_strlit(",");
    reveal_strlit(":");
    if members.len() > 0 {
        let m = members[0];
        lemma_json_text_single_line(m.1);
        lemma_quoted_single_line(m.0@);
        lemma_single_line_concat(json_quoted(m.0@), ":"@);
        lemma_single_line_concat(json_quoted(m.0@) + ":"@, json_text(m.1));
        if members.len() > 1 {
            let rest = members.subrange(1, members.len() as int);
            lemma_members_text_single_line(rest);
            lemma_single_line_concat(json_quoted(m.0@) + ":"@ + json_text(m.1), ","@);
            lemma_single_line_concat(json_quoted(m.0@) + ":"@ + json_text(m.1) + ","@, members_text(rest));
        }
    }
}

} // verus!
