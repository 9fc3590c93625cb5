//! JSON text in the compact form that `serde_json` writes: the canonical
//! encoding of signed protocol payloads.

use vstd::prelude::*;
use crate::text::{hex_digit, is_digit, lemma_split_eq, push_char, push_str, str_eq};

verus! {

/// A JSON value. Numbers keep the text `serde_json` gives them; object
/// members keep their order. A value that comes from a `serde_json` map is
/// `json_canonical`: its keys are strictly increasing, so none occurs twice.
pub enum JsonValue {
    Null,
    Bool(bool),
    Number(String),
    String(String),
    Array(Vec<JsonValue>),
    Object(Vec<JsonMember>),
}

/// One `"key": value` member of a JSON object.
pub struct JsonMember {
    pub key: String,
    pub value: JsonValue,
}

/// How `serde_json` escapes one character inside a string literal.
pub open spec fn escape_char(c: char) -> Seq<char> {
    let u = c as u32;
    if c == '"' {
        seq!['\\', '"']
    } else if c == '\\' {
        seq!['\\', '\\']
    } else if u == 0x08 {
        seq!['\\', 'b']
    } else if u == 0x09 {
        seq!['\\', 't']
    } else if u == 0x0a {
        seq!['\\', 'n']
    } else if u == 0x0c {
        seq!['\\', 'f']
    } else if u == 0x0d {
        seq!['\\', 'r']
    } else if u < 0x20 {
        seq!['\\', 'u', '0', '0', hex_digit(u as int / 16), hex_digit(u as int % 16)]
    } else {
        seq![c]
    }
}

/// The escaped body of a string literal.
pub open spec fn escape(s: Seq<char>) -> Seq<char>
    decreases s.len(),
{
    if s.len() == 0 {
        Seq::empty()
    } else {
        escape(s.drop_last()) + escape_char(s.last())
    }
}

/// A JSON string literal.
pub open spec fn json_string(s: Seq<char>) -> Seq<char> {
    seq!['"'] + escape(s) + seq!['"']
}

/// The literal `null`.
pub open spec fn json_null() -> Seq<char> {
    seq!['n', 'u', 'l', 'l']
}

/// A JSON value in compact form.
pub open spec fn json_value(v: JsonValue) -> Seq<char>
    decreases v,
{
    match v {
        JsonValue::Null => json_null(),
        JsonValue::Bool(b) => if b {
            seq!['t', 'r', 'u', 'e']
        } else {
            seq!['f', 'a', 'l', 's', 'e']
        },
        JsonValue::Number(t) => t@,
        JsonValue::String(s) => json_string(s@),
        JsonValue::Array(a) => seq!['['] + json_items(a@) + seq![']'],
        JsonValue::Object(m) => seq!['{'] + json_members(m@) + seq!['}'],
    }
}

/// Comma-separated array elements.
pub open spec fn json_items(s: Seq<JsonValue>) -> Seq<char>
    decreases s,
{
    if s.len() == 0 {
        Seq::empty()
    } else {
        let prefix = json_items(s.drop_last());
        (if s.len() == 1 {
            prefix
        } else {
            prefix + seq![',']
        }) + json_value(s.last())
    }
}

/// Comma-separated `"key":value` object members.
pub open spec fn json_members(s: Seq<JsonMember>) -> Seq<char>
    decreases s,
{
    if s.len() == 0 {
        Seq::empty()
    } else {
        let prefix = json_members(s.drop_last());
        (if s.len() == 1 {
            prefix
        } else {
            prefix + seq![',']
        }) + json_string(s.last().key@) + seq![':'] + json_value(s.last().value)
    }
}

} // verus!

verus! {

/// Appends the escaped form of one character.
pub fn write_escaped_char(out: &mut String, c: char)
    ensures
        final(out)@ == old(out)@ + escape_char(c),
{
    let u = c as u32;
    if c == '"' {
        push_char(out, '\\');
        push_char(out, '"');
    } else if c == '\\' {
        push_char(out, '\\');
        push_char(out, '\\');
    } else if u == 0x08 {
        push_char(out, '\\');
        push_char(out, 'b');
    } else if u == 0x09 {
        push_char(out, '\\');
        push_char(out, 't');
    } else if u == 0x0a {
        push_char(out, '\\');
        push_char(out, 'n');
    } else if u == 0x0c {
        push_char(out, '\\');
        push_char(out, 'f');
    } else if u == 0x0d {
        push_char(out, '\\');
        push_char(out, 'r');
    } else if u < 0x20 {
        push_char(out, '\\');
        push_char(out, 'u');
        push_char(out, '0');
        push_char(out, '0');
        let b = u as u8;
        push_char(out, nibble(b / 16));
        push_char(out, nibble(b % 16));
    } else {
        push_char(out, c);
    }
}

fn nibble(n: u8) -> (c: char)
    requires
        n < 16,
    ensures
        c == hex_digit(n as int),
{
    if n < 10 {
        ((48u8 + n) as char)
    } else {
        ((87u8 + n) as char)
    }
}

/// Appends a JSON string literal.
pub fn write_json_string(out: &mut String, s: &str)
    ensures
        final(out)@ == old(out)@ + json_string(s@),
{
    let ghost start = out@;
    push_char(out, '"');
    for c in iter: s.chars()
        invariant
            iter.seq() == s@,
            out@ == start + seq!['"'] + escape(s@.take(iter.index())),
    {
        write_escaped_char(out, c);
        assert(s@.take(iter.index() + 1).drop_last() == s@.take(iter.index()));
    }
    assert(s@.take(s@.len() as int) == s@);
    push_char(out, '"');
    assert(out@ == start + json_string(s@));
}

/// Appends the literal `null`.
pub fn write_json_null(out: &mut String)
    ensures
        final(out)@ == old(out)@ + json_null(),
{
    push_char(out, 'n');
    push_char(out, 'u');
    push_char(out, 'l');
    push_char(out, 'l');
}

/// Appends a JSON value in compact form.
pub fn write_json_value(out: &mut String, v: &JsonValue)
    ensures
        final(out)@ == old(out)@ + json_value(*v),
    decreases v,
{
    let ghost start = out@;
    match v {
        JsonValue::Null => write_json_null(out),
        JsonValue::Bool(b) => {
            if *b {
                push_char(out, 't');
                push_char(out, 'r');
                push_char(out, 'u');
                push_char(out, 'e');
            } else {
                push_char(out, 'f');
                push_char(out, 'a');
                push_char(out, 'l');
                push_char(out, 's');
                push_char(out, 'e');
            }
        },
        JsonValue::Number(t) => push_str(out, t.as_str()),
        JsonValue::String(s) => write_json_string(out, s.as_str()),
        JsonValue::Array(a) => {
            push_char(out, '[');
            let n = a.len();
            let mut i: usize = 0;
            while i < n
                invariant
                    n == a@.len(),
                    i <= n,
                    *v == JsonValue::Array(*a),
                    out@ == start + seq!['['] + json_items(a@.take(i as int)),
                decreases n - i,
            {
                assert(a@.take(i + 1).drop_last() == a@.take(i as int));
                if i > 0 {
                    push_char(out, ',');
                }
                proof {
                    assert(decreases_to!(*v => v->Array_0));
                    assert(decreases_to!(*a => a@));
                    assert(decreases_to!(a@ => a@[i as int]));
                }
                write_json_value(out, &a[i]);
                i = i + 1;
            }
            assert(a@.take(n as int) == a@);
            push_char(out, ']');
        },
        JsonValue::Object(m) => {
            push_char(out, '{');
            let n = m.len();
            let mut i: usize = 0;
            while i < n
                invariant
                    n == m@.len(),
                    i <= n,
                    *v == JsonValue::Object(*m),
                    out@ == start + seq!['{'] + json_members(m@.take(i as int)),
                decreases n - i,
            {
                assert(m@.take(i + 1).drop_last() == m@.take(i as int));
                if i > 0 {
                    push_char(out, ',');
                }
                write_json_string(out, m[i].key.as_str());
                push_char(out, ':');
                proof {
                    assert(decreases_to!(*v => v->Object_0));
                    assert(decreases_to!(*m => m@));
                    assert(decreases_to!(m@ => m@[i as int]));
                    assert(decreases_to!(m@[i as int] => m@[i as int].value));
                }
                write_json_value(out, &m[i].value);
                i = i + 1;
            }
            assert(m@.take(n as int) == m@);
            push_char(out, '}');
        },
    }
}

} // verus!

verus! {

/// The text of the string member `key` of an object, as
/// `value.get(key).and_then(Value::as_str)` reads it: the first member with
/// that key decides.
pub open spec fn members_str(m: Seq<JsonMember>, key: Seq<char>) -> Option<Seq<char>>
    decreases m.len(),
{
    if m.len() == 0 {
        None
    } else if m[0].key@ == key {
        match m[0].value {
            JsonValue::String(s) => Some(s@),
            _ => None,
        }
    } else {
        members_str(m.drop_first(), key)
    }
}

/// `members_str` of an object; nothing for any other value.
pub open spec fn str_field(v: JsonValue, key: Seq<char>) -> Option<Seq<char>> {
    match v {
        JsonValue::Object(m) => members_str(m@, key),
        _ => None,
    }
}

/// Reads the string member `key` of a JSON object.
pub fn get_str_field(v: &JsonValue, key: &str) -> (res: Option<String>)
    ensures
        match res {
            Some(s) => str_field(*v, key@) == Some(s@),
            None => str_field(*v, key@) is None,
        },
{
    match v {
        JsonValue::Object(m) => {
            let n = m.len();
            let mut i: usize = 0;
            assert(m@.skip(0) == m@);
            while i < n
                invariant
                    n == m@.len(),
                    i <= n,
                    *v == JsonValue::Object(*m),
                    members_str(m@, key@) == members_str(m@.skip(i as int), key@),
                decreases n - i,
            {
                assert(m@.skip(i as int)[0] == m@[i as int]);
                if str_eq(&m[i].key, key) {
                    return match &m[i].value {
                        JsonValue::String(s) => Some(s.clone()),
                        _ => None,
                    };
                }
                assert(m@.skip(i as int).drop_first() == m@.skip(i + 1));
                i = i + 1;
            }
            None
        },
        _ => None,
    }
}

} // verus!

verus! {

proof fn lemma_escape_first(s: Seq<char>)
    requires
        s.len() > 0,
    ensures
        escape(s) == escape_char(s[0]) + escape(s.drop_first()),
    decreases s.len(),
{
    if s.len() == 1 {
        assert(s.drop_last() =~= Seq::<char>::empty());
        assert(s.drop_first() =~= Seq::<char>::empty());
        assert(escape(s) =~= escape_char(s[0]) + escape(s.drop_first()));
    } else {
        lemma_escape_first(s.drop_last());
        assert(s.drop_last().drop_first() =~= s.drop_first().drop_last());
        assert(s.drop_first().last() == s.last());
        assert(s.drop_last()[0] == s[0]);
        assert(escape(s) =~= escape_char(s[0]) + escape(s.drop_first()));
    }
}

proof fn lemma_hex_digit_injective(a: int, b: int)
    requires
        0 <= a < 16,
        0 <= b < 16,
        hex_digit(a) == hex_digit(b),
    ensures
        a == b,
{
    assert(hex_digit(a) as int == if a < 10 { 48 + a } else { 87 + a });
    assert(hex_digit(b) as int == if b < 10 { 48 + b } else { 87 + b });
}

proof fn lemma_escape_char_shape(c: char)
    ensures
        escape_char(c).len() > 0,
        escape_char(c)[0] != '"',
        escape_char(c)[0] != '\\' ==> escape_char(c) == seq![c],
{
}

/// The escaped form of a character is never a proper prefix of another's:
/// it decides the character.
proof fn lemma_escape_char_prefix(c1: char, c2: char, x1: Seq<char>, x2: Seq<char>)
    requires
        escape_char(c1) + x1 == escape_char(c2) + x2,
    ensures
        c1 == c2,
        x1 == x2,
{
    let t = escape_char(c1) + x1;
    let e1 = escape_char(c1);
    let e2 = escape_char(c2);
    lemma_escape_char_shape(c1);
    lemma_escape_char_shape(c2);
    assert(t[0] == e1[0]);
    assert(t[0] == e2[0]);
    if e1[0] == '\\' {
        assert(t[1] == e1[1]);
        assert(t[1] == e2[1]);
        let u1 = c1 as u32;
        let u2 = c2 as u32;
        if e1[1] == 'u' {
            assert(t[4] == e1[4]);
            assert(t[4] == e2[4]);
            assert(t[5] == e1[5]);
            assert(t[5] == e2[5]);
            lemma_hex_digit_injective(u1 as int / 16, u2 as int / 16);
            lemma_hex_digit_injective(u1 as int % 16, u2 as int % 16);
            assert(u1 == u2);
        }
        assert(u1 == u2);
    }
    assert(c1 == c2);
    lemma_split_eq(e1, x1, e2, x2);
}

proof fn lemma_escape_delimited(s1: Seq<char>, s2: Seq<char>, r1: Seq<char>, r2: Seq<char>)
    requires
        escape(s1) + (seq!['"'] + r1) == escape(s2) + (seq!['"'] + r2),
    ensures
        s1 == s2,
        r1 == r2,
    decreases s1.len(),
{
    let t = escape(s1) + (seq!['"'] + r1);
    if s1.len() == 0 {
        assert(escape(s1) =~= Seq::<char>::empty());
        assert(t[0] == '"');
        if s2.len() > 0 {
            lemma_escape_first(s2);
            lemma_escape_char_shape(s2[0]);
            assert(t[0] == escape_char(s2[0])[0]);
        }
        assert(escape(s2) =~= Seq::<char>::empty());
        assert(s1 =~= s2);
        assert(seq!['"'] + r1 =~= t);
        assert(seq!['"'] + r2 =~= t);
        lemma_split_eq(seq!['"'], r1, seq!['"'], r2);
    } else {
        lemma_escape_first(s1);
        lemma_escape_char_shape(s1[0]);
        if s2.len() == 0 {
            assert(escape(s2) =~= Seq::<char>::empty());
            assert(t[0] == escape_char(s1[0])[0]);
            assert(false);
        }
        lemma_escape_first(s2);
        let rest1 = escape(s1.drop_first()) + (seq!['"'] + r1);
        let rest2 = escape(s2.drop_first()) + (seq!['"'] + r2);
        assert(t =~= escape_char(s1[0]) + rest1);
        assert(t =~= escape_char(s2[0]) + rest2);
        lemma_escape_char_prefix(s1[0], s2[0], rest1, rest2);
        lemma_escape_delimited(s1.drop_first(), s2.drop_first(), r1, r2);
        assert(s1 =~= seq![s1[0]] + s1.drop_first());
        assert(s2 =~= seq![s2[0]] + s2.drop_first());
    }
}

/// A JSON string literal ends where its closing quote is: whatever follows
/// it, the literal decides the string.
pub proof fn lemma_json_string_prefix(s1: Seq<char>, s2: Seq<char>, r1: Seq<char>, r2: Seq<char>)
    requires
        json_string(s1) + r1 == json_string(s2) + r2,
    ensures
        s1 == s2,
        r1 == r2,
{
    let t = json_string(s1) + r1;
    assert(t =~= seq!['"'] + (escape(s1) + (seq!['"'] + r1)));
    assert(t =~= seq!['"'] + (escape(s2) + (seq!['"'] + r2)));
    lemma_split_eq(seq!['"'], escape(s1) + (seq!['"'] + r1), seq!['"'], escape(s2) + (seq!['"'] + r2));
    lemma_escape_delimited(s1, s2, r1, r2);
}

} // verus!

verus! {

/// A character of a JSON number.
pub open spec fn is_number_char(c: char) -> bool {
    is_digit(c) || c == '-' || c == '+' || c == '.' || c == 'e' || c == 'E'
}

/// Number text as `serde_json` writes it: a digit or a minus sign first,
/// and only number characters.
pub open spec fn number_text(t: Seq<char>) -> bool {
    &&& t.len() > 0
    &&& (is_digit(t[0]) || t[0] == '-')
    &&& forall|i: int| 0 <= i < t.len() ==> is_number_char(#[trigger] t[i])
}

/// Every number in the value is number text.
pub open spec fn json_valid(v: JsonValue) -> bool
    decreases v,
{
    match v {
        JsonValue::Number(t) => number_text(t@),
        JsonValue::Array(a) => items_valid(a@),
        JsonValue::Object(m) => members_valid(m@),
        _ => true,
    }
}

/// Every number in the elements is number text.
pub open spec fn items_valid(s: Seq<JsonValue>) -> bool
    decreases s,
{
    if s.len() == 0 {
        true
    } else {
        items_valid(s.drop_last()) && json_valid(s.last())
    }
}

/// Every number in the members' values is number text.
pub open spec fn members_valid(s: Seq<JsonMember>) -> bool
    decreases s,
{
    if s.len() == 0 {
        true
    } else {
        members_valid(s.drop_last()) && json_valid(s.last().value)
    }
}

/// Two JSON values hold the same thing: the same kind, the same strings and
/// number texts, the same elements in order, and the same keys with the same
/// values in order.
pub open spec fn json_same(a: JsonValue, b: JsonValue) -> bool
    decreases a,
{
    match a {
        JsonValue::Null => b is Null,
        JsonValue::Bool(x) => b == JsonValue::Bool(x),
        JsonValue::Number(t) => b matches JsonValue::Number(u) && t@ == u@,
        JsonValue::String(t) => b matches JsonValue::String(u) && t@ == u@,
        JsonValue::Array(x) => b matches JsonValue::Array(y) && items_same(x@, y@),
        JsonValue::Object(x) => b matches JsonValue::Object(y) && members_same(x@, y@),
    }
}

/// Two element lists hold the same values, in order.
pub open spec fn items_same(s1: Seq<JsonValue>, s2: Seq<JsonValue>) -> bool
    decreases s1,
{
    if s1.len() == 0 {
        s2.len() == 0
    } else {
        s2.len() > 0 && json_same(s1[0], s2[0]) && items_same(s1.drop_first(), s2.drop_first())
    }
}

/// Two member lists hold the same keys with the same values, in order.
pub open spec fn members_same(s1: Seq<JsonMember>, s2: Seq<JsonMember>) -> bool
    decreases s1,
{
    if s1.len() == 0 {
        s2.len() == 0
    } else {
        &&& s2.len() > 0
        &&& s1[0].key@ == s2[0].key@
        &&& json_same(s1[0].value, s2[0].value)
        &&& members_same(s1.drop_first(), s2.drop_first())
    }
}

/// What may follow a JSON value inside a document.
pub open spec fn is_terminator(c: char) -> bool {
    c == ',' || c == ']' || c == '}'
}

proof fn lemma_items_first(s: Seq<JsonValue>)
    requires
        s.len() > 0,
    ensures
        json_items(s) == json_value(s[0]) + (if s.len() == 1 {
            Seq::<char>::empty()
        } else {
            seq![','] + json_items(s.drop_first())
        }),
        items_valid(s) == (json_valid(s[0]) && items_valid(s.drop_first())),
    decreases s.len(),
{
    if s.len() == 1 {
        assert(s.drop_last() =~= Seq::<JsonValue>::empty());
        assert(s.drop_first() =~= Seq::<JsonValue>::empty());
        assert(json_items(s) =~= json_value(s[0]));
    } else {
        lemma_items_first(s.drop_last());
        assert(s.drop_last().drop_first() =~= s.drop_first().drop_last());
        assert(s.drop_first().last() == s.last());
        assert(s.drop_last()[0] == s[0]);
        if s.len() == 2 {
            assert(s.drop_first().drop_last() =~= Seq::<JsonValue>::empty());
        }
        assert(json_items(s) =~= json_value(s[0]) + (seq![','] + json_items(s.drop_first())));
    }
}

/// The text of one object member.
pub open spec fn member_text(m: JsonMember) -> Seq<char> {
    json_string(m.key@) + seq![':'] + json_value(m.value)
}

proof fn lemma_members_first(s: Seq<JsonMember>)
    requires
        s.len() > 0,
    ensures
        json_members(s) == member_text(s[0]) + (if s.len() == 1 {
            Seq::<char>::empty()
        } else {
            seq![','] + json_members(s.drop_first())
        }),
        members_valid(s) == (json_valid(s[0].value) && members_valid(s.drop_first())),
    decreases s.len(),
{
    if s.len() == 1 {
        assert(s.drop_last() =~= Seq::<JsonMember>::empty());
        assert(s.drop_first() =~= Seq::<JsonMember>::empty());
        assert(json_members(s) =~= member_text(s[0]));
    } else {
        lemma_members_first(s.drop_last());
        assert(s.drop_last().drop_first() =~= s.drop_first().drop_last());
        assert(s.drop_first().last() == s.last());
        assert(s.drop_last()[0] == s[0]);
        assert(json_members(s) =~= json_members(s.drop_last()) + seq![','] + member_text(s.last()));
        if s.len() == 2 {
            assert(s.drop_first().drop_last() =~= Seq::<JsonMember>::empty());
            assert(json_members(s.drop_first()) =~= member_text(s.last()));
        } else {
            assert(json_members(s.drop_first()) =~= json_members(s.drop_first().drop_last()) + seq![',']
                + member_text(s.last()));
        }
        assert(json_members(s) =~= member_text(s[0]) + (seq![','] + json_members(s.drop_first())));
    }
}

proof fn lemma_value_first(v: JsonValue)
    requires
        json_valid(v),
    ensures
        json_value(v).len() > 0,
        !is_terminator(json_value(v)[0]),
        json_value(v)[0] == 'n' ==> v is Null,
        json_value(v)[0] == 't' ==> v == JsonValue::Bool(true),
        json_value(v)[0] == 'f' ==> v == JsonValue::Bool(false),
        json_value(v)[0] == '"' ==> v is String,
        json_value(v)[0] == '[' ==> v is Array,
        json_value(v)[0] == '{' ==> v is Object,
        (is_digit(json_value(v)[0]) || json_value(v)[0] == '-') ==> v is Number,
        v is Number ==> (is_digit(json_value(v)[0]) || json_value(v)[0] == '-'),
{
    match v {
        JsonValue::Array(a) => {
            assert(json_value(v)[0] == '[');
        },
        JsonValue::Object(m) => {
            assert(json_value(v)[0] == '{');
        },
        JsonValue::String(s) => {
            assert(json_value(v)[0] == '"');
        },
        _ => {},
    }
}

proof fn lemma_number_prefix(t1: Seq<char>, t2: Seq<char>, r1: Seq<char>, r2: Seq<char>)
    requires
        number_text(t1),
        number_text(t2),
        t1 + r1 == t2 + r2,
        r1.len() > 0,
        r2.len() > 0,
        is_terminator(r1[0]),
        is_terminator(r2[0]),
    ensures
        t1 == t2,
        r1 == r2,
{
    let t = t1 + r1;
    if t1.len() < t2.len() {
        assert(t[t1.len() as int] == r1[0]);
        assert(t[t1.len() as int] == t2[t1.len() as int]);
    }
    if t2.len() < t1.len() {
        assert(t[t2.len() as int] == r2[0]);
        assert(t[t2.len() as int] == t1[t2.len() as int]);
    }
    lemma_split_eq(t1, r1, t2, r2);
}

/// A valid JSON value ends where it ends: followed by a comma or a closing
/// bracket or brace, its text is decided.
pub proof fn lemma_value_prefix(v1: JsonValue, v2: JsonValue, r1: Seq<char>, r2: Seq<char>)
    requires
        json_valid(v1),
        json_valid(v2),
        json_value(v1) + r1 == json_value(v2) + r2,
        r1.len() > 0,
        r2.len() > 0,
        is_terminator(r1[0]),
        is_terminator(r2[0]),
    ensures
        json_value(v1) == json_value(v2),
        json_same(v1, v2),
        r1 == r2,
    decreases v1,
{
    let t = json_value(v1) + r1;
    lemma_value_first(v1);
    lemma_value_first(v2);
    assert(t[0] == json_value(v1)[0]);
    assert(t[0] == json_value(v2)[0]);
    match v1 {
        JsonValue::Null => {
            lemma_split_eq(json_value(v1), r1, json_value(v2), r2);
        },
        JsonValue::Bool(b) => {
            lemma_split_eq(json_value(v1), r1, json_value(v2), r2);
        },
        JsonValue::Number(n1) => {
            let n2 = v2->Number_0;
            lemma_number_prefix(n1@, n2@, r1, r2);
        },
        JsonValue::String(s1) => {
            let s2 = v2->String_0;
            lemma_json_string_prefix(s1@, s2@, r1, r2);
        },
        JsonValue::Array(a1) => {
            let a2 = v2->Array_0;
            let rest1 = json_items(a1@) + (seq![']'] + r1);
            let rest2 = json_items(a2@) + (seq![']'] + r2);
            assert(t =~= seq!['['] + rest1);
            assert(t =~= seq!['['] + rest2);
            lemma_split_eq(seq!['['], rest1, seq!['['], rest2);
            lemma_items_prefix(a1@, a2@, r1, r2);
        },
        JsonValue::Object(m1) => {
            let m2 = v2->Object_0;
            let rest1 = json_members(m1@) + (seq!['}'] + r1);
            let rest2 = json_members(m2@) + (seq!['}'] + r2);
            assert(t =~= seq!['{'] + rest1);
            assert(t =~= seq!['{'] + rest2);
            lemma_split_eq(seq!['{'], rest1, seq!['{'], rest2);
            lemma_members_prefix(m1@, m2@, r1, r2);
        },
    }
}

/// Array elements end at their closing bracket.
pub proof fn lemma_items_prefix(s1: Seq<JsonValue>, s2: Seq<JsonValue>, r1: Seq<char>, r2: Seq<char>)
    requires
        items_valid(s1),
        items_valid(s2),
        json_items(s1) + (seq![']'] + r1) == json_items(s2) + (seq![']'] + r2),
    ensures
        json_items(s1) == json_items(s2),
        items_same(s1, s2),
        r1 == r2,
    decreases s1,
{
    let t = json_items(s1) + (seq![']'] + r1);
    if s1.len() == 0 || s2.len() == 0 {
        if s1.len() == 0 {
            assert(t[0] == ']');
        } else {
            assert(t =~= json_items(s2) + (seq![']'] + r2));
            assert(t[0] == ']');
        }
        if s1.len() > 0 {
            lemma_items_first(s1);
            lemma_value_first(s1[0]);
            assert(t[0] == json_value(s1[0])[0]);
        }
        if s2.len() > 0 {
            lemma_items_first(s2);
            lemma_value_first(s2[0]);
            assert(t[0] == json_value(s2[0])[0]);
        }
        lemma_split_eq(seq![']'], r1, seq![']'], r2);
        assert(s1.len() == 0 && s2.len() == 0);
        assert(items_same(s1, s2));
    } else {
        lemma_items_first(s1);
        lemma_items_first(s2);
        let tail1 = if s1.len() == 1 {
            seq![']'] + r1
        } else {
            seq![','] + (json_items(s1.drop_first()) + (seq![']'] + r1))
        };
        let tail2 = if s2.len() == 1 {
            seq![']'] + r2
        } else {
            seq![','] + (json_items(s2.drop_first()) + (seq![']'] + r2))
        };
        assert(t =~= json_value(s1[0]) + tail1);
        assert(t =~= json_value(s2[0]) + tail2);
        lemma_value_prefix(s1[0], s2[0], tail1, tail2);
        if s1.len() == 1 || s2.len() == 1 {
            assert(tail1[0] == tail2[0]);
            lemma_split_eq(seq![']'], r1, seq![']'], r2);
            assert(s1.len() == 1 && s2.len() == 1);
            assert(s1.drop_first().len() == 0 && s2.drop_first().len() == 0);
            assert(items_same(s1.drop_first(), s2.drop_first()));
        } else {
            lemma_split_eq(
                seq![','],
                json_items(s1.drop_first()) + (seq![']'] + r1),
                seq![','],
                json_items(s2.drop_first()) + (seq![']'] + r2),
            );
            lemma_items_prefix(s1.drop_first(), s2.drop_first(), r1, r2);
        }
    }
}

/// Object members end at their closing brace.
#[verifier::rlimit(40)]
pub proof fn lemma_members_prefix(s1: Seq<JsonMember>, s2: Seq<JsonMember>, r1: Seq<char>, r2: Seq<char>)
    requires
        members_valid(s1),
        members_valid(s2),
        json_members(s1) + (seq!['}'] + r1) == json_members(s2) + (seq!['}'] + r2),
    ensures
        json_members(s1) == json_members(s2),
        members_same(s1, s2),
        r1 == r2,
    decreases s1,
{
    let t = json_members(s1) + (seq!['}'] + r1);
    if s1.len() == 0 || s2.len() == 0 {
        if s1.len() == 0 {
            assert(t[0] == '}');
        } else {
            assert(t =~= json_members(s2) + (seq!['}'] + r2));
            assert(t[0] == '}');
        }
        if s1.len() > 0 {
            lemma_members_first(s1);
            assert(t[0] == member_text(s1[0])[0]);
        }
        if s2.len() > 0 {
            lemma_members_first(s2);
            assert(t[0] == member_text(s2[0])[0]);
        }
        lemma_split_eq(seq!['}'], r1, seq!['}'], r2);
        assert(s1.len() == 0 && s2.len() == 0);
        assert(members_same(s1, s2));
    } else {
        lemma_members_first(s1);
        lemma_members_first(s2);
        let tail1 = if s1.len() == 1 {
            seq!['}'] + r1
        } else {
            seq![','] + (json_members(s1.drop_first()) + (seq!['}'] + r1))
        };
        let tail2 = if s2.len() == 1 {
            seq!['}'] + r2
        } else {
            seq![','] + (json_members(s2.drop_first()) + (seq!['}'] + r2))
        };
        let after1 = seq![':'] + (json_value(s1[0].value) + tail1);
        let after2 = seq![':'] + (json_value(s2[0].value) + tail2);
        assert(t =~= json_string(s1[0].key@) + after1);
        assert(t =~= json_string(s2[0].key@) + after2);
        lemma_json_string_prefix(s1[0].key@, s2[0].key@, after1, after2);
        lemma_split_eq(seq![':'], json_value(s1[0].value) + tail1, seq![':'], json_value(s2[0].value) + tail2);
        lemma_value_prefix(s1[0].value, s2[0].value, tail1, tail2);
        if s1.len() == 1 || s2.len() == 1 {
            assert(tail1[0] == tail2[0]);
            lemma_split_eq(seq!['}'], r1, seq!['}'], r2);
            assert(s1.len() == 1 && s2.len() == 1);
            assert(s1.drop_first().len() == 0 && s2.drop_first().len() == 0);
            assert(members_same(s1.drop_first(), s2.drop_first()));
        } else {
            lemma_split_eq(
                seq![','],
                json_members(s1.drop_first()) + (seq!['}'] + r1),
                seq![','],
                json_members(s2.drop_first()) + (seq!['}'] + r2),
            );
            lemma_members_prefix(s1.drop_first(), s2.drop_first(), r1, r2);
        }
    }
}

} // verus!

verus! {

/// `a` comes before `b` when their characters are compared one by one by
/// code point, a proper prefix first: the order of their UTF-8 bytes, in
/// which `serde_json`'s map keeps its keys.
pub open spec fn text_less(a: Seq<char>, b: Seq<char>) -> bool
    decreases a.len(),
{
    if a.len() == 0 {
        b.len() > 0
    } else if b.len() == 0 {
        false
    } else if a[0] != b[0] {
        (a[0] as u32) < (b[0] as u32)
    } else {
        text_less(a.drop_first(), b.drop_first())
    }
}

/// Every object in the value has strictly increasing keys, so no key occurs
/// twice in one object.
pub open spec fn json_canonical(v: JsonValue) -> bool
    decreases v,
{
    match v {
        JsonValue::Array(a) => items_canonical(a@),
        JsonValue::Object(m) => members_canonical(m@),
        _ => true,
    }
}

/// Every element is canonical.
pub open spec fn items_canonical(s: Seq<JsonValue>) -> bool
    decreases s,
{
    if s.len() == 0 {
        true
    } else {
        items_canonical(s.drop_last()) && json_canonical(s.last())
    }
}

/// The keys are strictly increasing and every value is canonical.
pub open spec fn members_canonical(s: Seq<JsonMember>) -> bool
    decreases s,
{
    if s.len() == 0 {
        true
    } else {
        &&& members_canonical(s.drop_last())
        &&& json_canonical(s.last().value)
        &&& s.len() > 1 ==> text_less(s[s.len() - 2].key@, s.last().key@)
    }
}

} // verus!
