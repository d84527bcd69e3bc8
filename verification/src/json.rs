//! A JSON value and its parser. Object member order is preserved, since the
//! precedence of conditional exports is key insertion order; numbers are
//! kept as their literal text, since the resolver never computes with them.
//! Escapes of the form `\uXXXX` are decoded, a surrogate pair standing for
//! one character; a lone or misordered surrogate makes the text unparseable.
//!
//! The parsing functions carry a fuel bound that falls by one per nesting
//! level and per later element of an array or object. A document's nesting
//! and element count are both below its length, so the fuel chosen by
//! `spec_json_parse` — the text's length plus one — never runs out.

use vstd::prelude::*;

verus! {

/// A JSON value with member order preserved.
pub enum JsonValue {
    Null,
    Bool(bool),
    /// A number, kept as its literal text.
    Num(String),
    Str(String),
    Arr(Vec<JsonValue>),
    Obj(Vec<(String, JsonValue)>),
}

/// Spec-level image of `JsonValue`.
pub enum JsonModel {
    Null,
    Bool(bool),
    Num(Seq<char>),
    Str(Seq<char>),
    Arr(Seq<JsonModel>),
    Obj(Seq<(Seq<char>, JsonModel)>),
}

/// The model of a value.
pub open spec fn jm_of(v: JsonValue) -> JsonModel
    decreases v,
{
    match v {
        JsonValue::Null => JsonModel::Null,
        JsonValue::Bool(b) => JsonModel::Bool(b),
        JsonValue::Num(s) => JsonModel::Num(s@),
        JsonValue::Str(s) => JsonModel::Str(s@),
        JsonValue::Arr(items) => JsonModel::Arr(jm_of_seq(items@)),
        JsonValue::Obj(members) => JsonModel::Obj(jm_of_members(members@)),
    }
}

/// The models of a sequence of values.
pub open spec fn jm_of_seq(items: Seq<JsonValue>) -> Seq<JsonModel>
    decreases items,
{
    if items.len() == 0 {
        Seq::empty()
    } else {
        seq![jm_of(items[0])] + jm_of_seq(items.skip(1))
    }
}

/// The models of a sequence of members.
pub open spec fn jm_of_members(ms: Seq<(String, JsonValue)>) -> Seq<(Seq<char>, JsonModel)>
    decreases ms,
{
    if ms.len() == 0 {
        Seq::empty()
    } else {
        seq![(ms[0].0@, jm_of(ms[0].1))] + jm_of_members(ms.skip(1))
    }
}

impl View for JsonValue {
    type V = JsonModel;

    open spec fn view(&self) -> JsonModel {
        jm_of(*self)
    }
}

/// Element models line up with elements.
pub proof fn lemma_jm_of_seq_index(items: Seq<JsonValue>)
    ensures
        jm_of_seq(items).len() == items.len(),
        forall|i: int| 0 <= i < items.len() ==> jm_of_seq(items)[i] == jm_of(#[trigger] items[i]),
    decreases items,
{
    if items.len() > 0 {
        lemma_jm_of_seq_index(items.skip(1));
        assert forall|i: int| 0 <= i < items.len() implies jm_of_seq(items)[i] == jm_of(
            #[trigger] items[i],
        ) by {
            if i > 0 {
                assert(items.skip(1)[i - 1] == items[i]);
            }
        }
    }
}

/// Member models line up with members.
pub proof fn lemma_jm_of_members_index(ms: Seq<(String, JsonValue)>)
    ensures
        jm_of_members(ms).len() == ms.len(),
        forall|i: int|
            0 <= i < ms.len() ==> jm_of_members(ms)[i] == ((#[trigger] ms[i]).0@, jm_of(ms[i].1)),
    decreases ms,
{
    if ms.len() > 0 {
        lemma_jm_of_members_index(ms.skip(1));
        assert forall|i: int| 0 <= i < ms.len() implies jm_of_members(ms)[i] == ((
        #[trigger] ms[i]).0@, jm_of(ms[i].1)) by {
            if i > 0 {
                assert(ms.skip(1)[i - 1] == ms[i]);
            }
        }
    }
}

/// The value of the first member with the given key.
pub open spec fn find_member(ms: Seq<(Seq<char>, JsonModel)>, key: Seq<char>) -> Option<JsonModel>
    decreases ms.len(),
{
    if ms.len() == 0 {
        Option::None
    } else if ms[0].0 == key {
        Option::Some(ms[0].1)
    } else {
        find_member(ms.skip(1), key)
    }
}

/// The value of the first member with the given key.
pub fn obj_get<'a>(members: &'a Vec<(String, JsonValue)>, key: &str) -> (r: Option<
    &'a JsonValue,
>)
    ensures
        match r {
            Option::Some(v) => find_member(jm_of_members(members@), key@) == Option::Some(v@),
            Option::None => find_member(jm_of_members(members@), key@) is None,
        },
{
    let kv = crate::chars::str_to_chars(key);
    let ghost model = jm_of_members(members@);
    proof {
        lemma_jm_of_members_index(members@);
        assert(model.skip(0) =~= model);
    }
    let mut i: usize = 0;
    while i < members.len()
        invariant
            i <= members@.len(),
            kv@ == key@,
            model == jm_of_members(members@),
            model.len() == members@.len(),
            forall|j: int|
                0 <= j < members@.len() ==> model[j] == ((#[trigger] members@[j]).0@, jm_of(
                    members@[j].1,
                )),
            find_member(model, key@) == find_member(model.skip(i as int), key@),
        decreases members@.len() - i,
    {
        let cand = crate::chars::str_to_chars(members[i].0.as_str());
        proof {
            assert(model.skip(i as int)[0] == model[i as int]);
        }
        if crate::chars::chars_eq(&cand, &kv) {
            return Option::Some(&members[i].1);
        }
        proof {
            assert(model.skip(i as int).skip(1) =~= model.skip(i as int + 1));
        }
        i = i + 1;
    }
    proof {
        assert(model.skip(i as int).len() == 0);
    }
    Option::None
}

/// A JSON whitespace character.
pub open spec fn is_json_ws(c: char) -> bool {
    c == ' ' || c == '\t' || c == '\n' || c == '\r'
}

/// The first index at or after `i` holding something other than whitespace.
pub open spec fn skip_ws(s: Seq<char>, i: int) -> int
    decreases s.len() - i,
{
    if i < 0 || i >= s.len() || !is_json_ws(s[i]) {
        i
    } else {
        skip_ws(s, i + 1)
    }
}

/// The first index at or after `i` holding something other than whitespace.
pub fn skip_ws_exec(s: &Vec<char>, i: usize) -> (r: usize)
    requires
        i <= s@.len(),
    ensures
        r == skip_ws(s@, i as int),
        i <= r <= s@.len(),
    decreases s@.len() - i,
{
    if i == s.len() || !(s[i] == ' ' || s[i] == '\t' || s[i] == '\n' || s[i] == '\r') {
        i
    } else {
        skip_ws_exec(s, i + 1)
    }
}

/// A decimal digit.
pub open spec fn is_digit(c: char) -> bool {
    ('0' as u32) <= (c as u32) <= ('9' as u32)
}

/// The first index at or after `i` holding a non-digit.
pub open spec fn scan_digits(s: Seq<char>, i: int) -> int
    decreases s.len() - i,
{
    if i < 0 || i >= s.len() || !is_digit(s[i]) {
        i
    } else {
        scan_digits(s, i + 1)
    }
}

/// The first index at or after `i` holding a non-digit.
pub fn scan_digits_exec(s: &Vec<char>, i: usize) -> (r: usize)
    requires
        i <= s@.len(),
    ensures
        r == scan_digits(s@, i as int),
        i <= r <= s@.len(),
    decreases s@.len() - i,
{
    if i == s.len() || !((s[i] as u32) >= ('0' as u32) && (s[i] as u32) <= ('9' as u32)) {
        i
    } else {
        scan_digits_exec(s, i + 1)
    }
}

/// The end of a JSON number starting at `i`: an optional minus, an integer
/// part, an optional fraction and an optional exponent; or nothing, when no
/// well-formed number starts there.
pub open spec fn number_end(s: Seq<char>, i: int) -> Option<int> {
    let a = if i < s.len() && s[i] == '-' {
        i + 1
    } else {
        i
    };
    let b = scan_digits(s, a);
    if b == a {
        Option::None
    } else {
        let c = if b < s.len() && s[b] == '.' {
            scan_digits(s, b + 1)
        } else {
            b
        };
        if b < s.len() && s[b] == '.' && c == b + 1 {
            Option::None
        } else {
            let d = if c < s.len() && (s[c] == 'e' || s[c] == 'E') {
                let e = if c + 1 < s.len() && (s[c + 1] == '+' || s[c + 1] == '-') {
                    c + 2
                } else {
                    c + 1
                };
                scan_digits(s, e)
            } else {
                c
            };
            if c < s.len() && (s[c] == 'e' || s[c] == 'E') {
                let e = if c + 1 < s.len() && (s[c + 1] == '+' || s[c + 1] == '-') {
                    c + 2
                } else {
                    c + 1
                };
                if d == e {
                    Option::None
                } else {
                    Option::Some(d)
                }
            } else {
                Option::Some(d)
            }
        }
    }
}

/// The end of a JSON number starting at `i`.
pub fn number_end_exec(s: &Vec<char>, i: usize) -> (r: Option<usize>)
    requires
        i <= s@.len(),
    ensures
        match r {
            Option::Some(j) => number_end(s@, i as int) == Option::Some(j as int) && i <= j
                <= s@.len(),
            Option::None => number_end(s@, i as int) is None,
        },
{
    let a = if i < s.len() && s[i] == '-' {
        i + 1
    } else {
        i
    };
    let b = scan_digits_exec(s, a);
    if b == a {
        return Option::None;
    }
    let c = if b < s.len() && s[b] == '.' {
        scan_digits_exec(s, b + 1)
    } else {
        b
    };
    if b < s.len() && s[b] == '.' && c == b + 1 {
        return Option::None;
    }
    if c < s.len() && (s[c] == 'e' || s[c] == 'E') {
        let e = if c + 1 < s.len() && (s[c + 1] == '+' || s[c + 1] == '-') {
            c + 2
        } else {
            c + 1
        };
        let d = scan_digits_exec(s, e);
        if d == e {
            Option::None
        } else {
            Option::Some(d)
        }
    } else {
        Option::Some(c)
    }
}

/// The character with the given scalar code.
pub uninterp spec fn char_of_code(x: u32) -> char;

/// Relies on std's char::from_u32: the character with the given code, or
/// nothing for a surrogate code or one above the scalar maximum.
pub assume_specification[ char::from_u32 ](i: u32) -> (r: Option<char>)
    ensures
        match r {
            Option::Some(c) => c == char_of_code(i) && c as u32 == i,
            Option::None => 0xD800 <= i < 0xE000 || i > 0x10FFFF,
        },
;

/// A hexadecimal digit.
pub open spec fn is_hex(c: char) -> bool {
    (('0' as u32) <= (c as u32) <= ('9' as u32)) || (('a' as u32) <= (c as u32) <= ('f' as u32))
        || (('A' as u32) <= (c as u32) <= ('F' as u32))
}

/// The value of a hexadecimal digit.
pub open spec fn hex_val(c: char) -> int {
    if ('0' as u32) <= (c as u32) <= ('9' as u32) {
        (c as u32) - ('0' as u32)
    } else if ('a' as u32) <= (c as u32) <= ('f' as u32) {
        (c as u32) - ('a' as u32) + 10
    } else {
        (c as u32) - ('A' as u32) + 10
    }
}

/// Four hexadecimal digits stand at `i`.
pub open spec fn hex4_ok(s: Seq<char>, i: int) -> bool {
    i >= 0 && i + 4 <= s.len() && is_hex(s[i]) && is_hex(s[i + 1]) && is_hex(s[i + 2]) && is_hex(
        s[i + 3],
    )
}

/// The value of the four hexadecimal digits at `i`.
pub open spec fn hex4(s: Seq<char>, i: int) -> int {
    hex_val(s[i]) * 4096 + hex_val(s[i + 1]) * 256 + hex_val(s[i + 2]) * 16 + hex_val(s[i + 3])
}

/// The value of one hexadecimal digit.
pub fn hex_val_exec(c: char) -> (r: Option<u32>)
    ensures
        match r {
            Option::Some(v) => is_hex(c) && v == hex_val(c) && v < 16,
            Option::None => !is_hex(c),
        },
{
    let x = c as u32;
    if x >= ('0' as u32) && x <= ('9' as u32) {
        Option::Some(x - ('0' as u32))
    } else if x >= ('a' as u32) && x <= ('f' as u32) {
        Option::Some(x - ('a' as u32) + 10)
    } else if x >= ('A' as u32) && x <= ('F' as u32) {
        Option::Some(x - ('A' as u32) + 10)
    } else {
        Option::None
    }
}

/// The value of the four hexadecimal digits at `i`, when they are there.
fn read_hex4(s: &Vec<char>, i: usize) -> (r: Option<u32>)
    requires
        i <= s@.len(),
    ensures
        match r {
            Option::Some(v) => hex4_ok(s@, i as int) && v == hex4(s@, i as int) && v < 0x10000,
            Option::None => !hex4_ok(s@, i as int),
        },
{
    if s.len() - i < 4 {
        return Option::None;
    }
    let a = match hex_val_exec(s[i]) {
        Option::Some(v) => v,
        Option::None => {
            return Option::None;
        },
    };
    let b = match hex_val_exec(s[i + 1]) {
        Option::Some(v) => v,
        Option::None => {
            return Option::None;
        },
    };
    let c = match hex_val_exec(s[i + 2]) {
        Option::Some(v) => v,
        Option::None => {
            return Option::None;
        },
    };
    let d = match hex_val_exec(s[i + 3]) {
        Option::Some(v) => v,
        Option::None => {
            return Option::None;
        },
    };
    Option::Some(a * 4096 + b * 256 + c * 16 + d)
}

/// What a single-character escape denotes.
pub open spec fn esc_char(c: char) -> Option<char> {
    if c == '"' {
        Option::Some('"')
    } else if c == '\\' {
        Option::Some('\\')
    } else if c == '/' {
        Option::Some('/')
    } else if c == 'b' {
        Option::Some('\u{0008}')
    } else if c == 'f' {
        Option::Some('\u{000c}')
    } else if c == 'n' {
        Option::Some('\n')
    } else if c == 'r' {
        Option::Some('\r')
    } else if c == 't' {
        Option::Some('\t')
    } else {
        Option::None
    }
}

/// What a single-character escape denotes.
fn esc_char_exec(c: char) -> (r: Option<char>)
    ensures
        r == esc_char(c),
{
    if c == '"' {
        Option::Some('"')
    } else if c == '\\' {
        Option::Some('\\')
    } else if c == '/' {
        Option::Some('/')
    } else if c == 'b' {
        Option::Some('\u{0008}')
    } else if c == 'f' {
        Option::Some('\u{000c}')
    } else if c == 'n' {
        Option::Some('\n')
    } else if c == 'r' {
        Option::Some('\r')
    } else if c == 't' {
        Option::Some('\t')
    } else {
        Option::None
    }
}

/// The characters of a string body starting after the opening quote, and
/// the index after the closing quote. Raw control characters, unknown
/// escapes (among them `\u`) and an unterminated body give nothing.
pub open spec fn str_chars(s: Seq<char>, i: int) -> Option<(Seq<char>, int)>
    decreases s.len() - i,
{
    if i < 0 || i >= s.len() {
        Option::None
    } else if s[i] == '"' {
        Option::Some((Seq::empty(), i + 1))
    } else if s[i] == '\\' {
        if i + 1 >= s.len() {
            Option::None
        } else if s[i + 1] == 'u' {
            if hex4_ok(s, i + 2) {
                let v = hex4(s, i + 2);
                if 0xD800 <= v < 0xDC00 {
                    if i + 12 <= s.len() && s[i + 6] == '\\' && s[i + 7] == 'u' && hex4_ok(
                        s,
                        i + 8,
                    ) {
                        let w = hex4(s, i + 8);
                        if 0xDC00 <= w < 0xE000 {
                            let code = 0x10000 + (v - 0xD800) * 0x400 + (w - 0xDC00);
                            match str_chars(s, i + 12) {
                                Option::None => Option::None,
                                Option::Some(p) => Option::Some(
                                    (seq![char_of_code(code as u32)] + p.0, p.1),
                                ),
                            }
                        } else {
                            Option::None
                        }
                    } else {
                        Option::None
                    }
                } else if 0xDC00 <= v < 0xE000 {
                    Option::None
                } else {
                    match str_chars(s, i + 6) {
                        Option::None => Option::None,
                        Option::Some(p) => Option::Some(
                            (seq![char_of_code(v as u32)] + p.0, p.1),
                        ),
                    }
                }
            } else {
                Option::None
            }
        } else {
            match esc_char(s[i + 1]) {
                Option::None => Option::None,
                Option::Some(c) => match str_chars(s, i + 2) {
                    Option::None => Option::None,
                    Option::Some(p) => Option::Some((seq![c] + p.0, p.1)),
                },
            }
        }
    } else if (s[i] as u32) < 32 {
        Option::None
    } else {
        match str_chars(s, i + 1) {
            Option::None => Option::None,
            Option::Some(p) => Option::Some((seq![s[i]] + p.0, p.1)),
        }
    }
}

/// The characters of a string body starting after the opening quote.
pub fn str_chars_exec(s: &Vec<char>, i: usize) -> (r: Option<(Vec<char>, usize)>)
    requires
        i <= s@.len(),
    ensures
        match r {
            Option::Some(p) => str_chars(s@, i as int) == Option::Some((p.0@, p.1 as int)) && i
                < p.1 <= s@.len(),
            Option::None => str_chars(s@, i as int) is None,
        },
    decreases s@.len() - i,
{
    if i == s.len() {
        return Option::None;
    }
    let c = s[i];
    if c == '"' {
        return Option::Some((Vec::new(), i + 1));
    }
    if c == '\\' {
        if i + 1 == s.len() {
            return Option::None;
        }
        if s[i + 1] == 'u' {
            let v = match read_hex4(s, i + 2) {
                Option::None => {
                    return Option::None;
                },
                Option::Some(v) => v,
            };
            if v >= 0xD800 && v < 0xDC00 {
                if s.len() - i >= 12 && s[i + 6] == '\\' && s[i + 7] == 'u' {
                    let w = match read_hex4(s, i + 8) {
                        Option::None => {
                            return Option::None;
                        },
                        Option::Some(w) => w,
                    };
                    if w >= 0xDC00 && w < 0xE000 {
                        let code: u32 = 0x10000 + (v - 0xD800) * 0x400 + (w - 0xDC00);
                        let ch = match char::from_u32(code) {
                            Option::Some(ch) => ch,
                            Option::None => {
                                proof {
                                    assert(false);
                                }
                                return Option::None;
                            },
                        };
                        match str_chars_exec(s, i + 12) {
                            Option::None => Option::None,
                            Option::Some(p) => {
                                let (mut body, j) = p;
                                let ghost old_body = body@;
                                body.insert(0, ch);
                                proof {
                                    assert(body@ =~= seq![ch] + old_body);
                                }
                                Option::Some((body, j))
                            },
                        }
                    } else {
                        Option::None
                    }
                } else {
                    Option::None
                }
            } else if v >= 0xDC00 && v < 0xE000 {
                Option::None
            } else {
                let ch = match char::from_u32(v) {
                    Option::Some(ch) => ch,
                    Option::None => {
                        proof {
                            assert(false);
                        }
                        return Option::None;
                    },
                };
                match str_chars_exec(s, i + 6) {
                    Option::None => Option::None,
                    Option::Some(p) => {
                        let (mut body, j) = p;
                        let ghost old_body = body@;
                        body.insert(0, ch);
                        proof {
                            assert(body@ =~= seq![ch] + old_body);
                        }
                        Option::Some((body, j))
                    },
                }
            }
        } else {
        match esc_char_exec(s[i + 1]) {
            Option::None => Option::None,
            Option::Some(e) => {
                match str_chars_exec(s, i + 2) {
                    Option::None => Option::None,
                    Option::Some(p) => {
                        let (mut body, j) = p;
                        let ghost old_body = body@;
                        body.insert(0, e);
                        proof {
                            assert(body@ =~= seq![e] + old_body);
                        }
                        Option::Some((body, j))
                    },
                }
            },
        }
        }
    } else if (c as u32) < 32 {
        Option::None
    } else {
        match str_chars_exec(s, i + 1) {
            Option::None => Option::None,
            Option::Some(p) => {
                let (mut body, j) = p;
                let ghost old_body = body@;
                body.insert(0, c);
                proof {
                    assert(body@ =~= seq![c] + old_body);
                }
                Option::Some((body, j))
            },
        }
    }
}

/// A value starting at `i` (whitespace already skipped), and the index just
/// after it.
pub open spec fn j_value(s: Seq<char>, i: int, n: nat) -> Option<(JsonModel, int)>
    decreases n, 0int,
{
    if n == 0 {
        Option::None
    } else if i < 0 || i >= s.len() {
        Option::None
    } else if s[i] == '{' {
        let j = skip_ws(s, i + 1);
        if j < s.len() && s[j] == '}' {
            Option::Some((JsonModel::Obj(Seq::empty()), j + 1))
        } else {
            match j_members(s, j, (n - 1) as nat) {
                Option::None => Option::None,
                Option::Some(p) => Option::Some((JsonModel::Obj(p.0), p.1)),
            }
        }
    } else if s[i] == '[' {
        let j = skip_ws(s, i + 1);
        if j < s.len() && s[j] == ']' {
            Option::Some((JsonModel::Arr(Seq::empty()), j + 1))
        } else {
            match j_items(s, j, (n - 1) as nat) {
                Option::None => Option::None,
                Option::Some(p) => Option::Some((JsonModel::Arr(p.0), p.1)),
            }
        }
    } else if s[i] == '"' {
        match str_chars(s, i + 1) {
            Option::None => Option::None,
            Option::Some(p) => Option::Some((JsonModel::Str(p.0), p.1)),
        }
    } else if s[i] == 't' {
        if i + 4 <= s.len() && s.subrange(i, i + 4) == "true"@ {
            Option::Some((JsonModel::Bool(true), i + 4))
        } else {
            Option::None
        }
    } else if s[i] == 'f' {
        if i + 5 <= s.len() && s.subrange(i, i + 5) == "false"@ {
            Option::Some((JsonModel::Bool(false), i + 5))
        } else {
            Option::None
        }
    } else if s[i] == 'n' {
        if i + 4 <= s.len() && s.subrange(i, i + 4) == "null"@ {
            Option::Some((JsonModel::Null, i + 4))
        } else {
            Option::None
        }
    } else if s[i] == '-' || is_digit(s[i]) {
        match number_end(s, i) {
            Option::None => Option::None,
            Option::Some(e) => Option::Some((JsonModel::Num(s.subrange(i, e)), e)),
        }
    } else {
        Option::None
    }
}

/// The members of an object from the first key on, and the index just after
/// the closing brace.
pub open spec fn j_members(s: Seq<char>, i: int, n: nat) -> Option<
    (Seq<(Seq<char>, JsonModel)>, int),
>
    decreases n, 1int,
{
    if n == 0 {
        Option::None
    } else if i < 0 || i >= s.len() || s[i] != '"' {
        Option::None
    } else {
        match str_chars(s, i + 1) {
            Option::None => Option::None,
            Option::Some(kp) => {
                let j = skip_ws(s, kp.1);
                if j >= s.len() || s[j] != ':' {
                    Option::None
                } else {
                    match j_value(s, skip_ws(s, j + 1), n) {
                        Option::None => Option::None,
                        Option::Some(vp) => {
                            let j2 = skip_ws(s, vp.1);
                            if j2 < s.len() && s[j2] == ',' {
                                match j_members(s, skip_ws(s, j2 + 1), (n - 1) as nat) {
                                    Option::None => Option::None,
                                    Option::Some(rp) => Option::Some(
                                        (seq![(kp.0, vp.0)] + rp.0, rp.1),
                                    ),
                                }
                            } else if j2 < s.len() && s[j2] == '}' {
                                Option::Some((seq![(kp.0, vp.0)], j2 + 1))
                            } else {
                                Option::None
                            }
                        },
                    }
                }
            },
        }
    }
}

/// The items of an array from the first element on, and the index just
/// after the closing bracket.
pub open spec fn j_items(s: Seq<char>, i: int, n: nat) -> Option<(Seq<JsonModel>, int)>
    decreases n, 1int,
{
    if n == 0 {
        Option::None
    } else {
        match j_value(s, i, n) {
            Option::None => Option::None,
            Option::Some(vp) => {
                let j = skip_ws(s, vp.1);
                if j < s.len() && s[j] == ',' {
                    match j_items(s, skip_ws(s, j + 1), (n - 1) as nat) {
                        Option::None => Option::None,
                        Option::Some(rp) => Option::Some((seq![vp.0] + rp.0, rp.1)),
                    }
                } else if j < s.len() && s[j] == ']' {
                    Option::Some((seq![vp.0], j + 1))
                } else {
                    Option::None
                }
            },
        }
    }
}

/// The parse of a whole text: one value surrounded by whitespace.
pub open spec fn spec_json_parse(s: Seq<char>) -> Option<JsonModel> {
    match j_value(s, skip_ws(s, 0), (s.len() + 1) as nat) {
        Option::None => Option::None,
        Option::Some(p) => {
            if skip_ws(s, p.1) == s.len() {
                Option::Some(p.0)
            } else {
                Option::None
            }
        },
    }
}

/// A value starting at `i`.
fn j_value_exec(s: &Vec<char>, i: usize, n: u128) -> (r: Option<(JsonValue, usize)>)
    requires
        i <= s@.len(),
    ensures
        match r {
            Option::Some(p) => j_value(s@, i as int, n as nat) == Option::Some(
                (p.0@, p.1 as int),
            ) && p.1 <= s@.len(),
            Option::None => j_value(s@, i as int, n as nat) is None,
        },
    decreases n, 0int,
{
    if n == 0 || i == s.len() {
        return Option::None;
    }
    let c = s[i];
    if c == '{' {
        let j = skip_ws_exec(s, i + 1);
        if j < s.len() && s[j] == '}' {
            proof {
                assert(jm_of_members(Seq::<(String, JsonValue)>::empty())
                    =~= Seq::<(Seq<char>, JsonModel)>::empty());
            }
            return Option::Some((JsonValue::Obj(Vec::new()), j + 1));
        }
        match j_members_exec(s, j, n - 1) {
            Option::None => Option::None,
            Option::Some(p) => Option::Some((JsonValue::Obj(p.0), p.1)),
        }
    } else if c == '[' {
        let j = skip_ws_exec(s, i + 1);
        if j < s.len() && s[j] == ']' {
            proof {
                assert(jm_of_seq(Seq::<JsonValue>::empty()) =~= Seq::<JsonModel>::empty());
            }
            return Option::Some((JsonValue::Arr(Vec::new()), j + 1));
        }
        match j_items_exec(s, j, n - 1) {
            Option::None => Option::None,
            Option::Some(p) => Option::Some((JsonValue::Arr(p.0), p.1)),
        }
    } else if c == '"' {
        match str_chars_exec(s, i + 1) {
            Option::None => Option::None,
            Option::Some(p) => Option::Some(
                (JsonValue::Str(crate::chars::chars_to_string(&p.0)), p.1),
            ),
        }
    } else if c == 't' {
        if s.len() - i >= 4 {
            let lit = crate::chars::subrange_chars(s, i, i + 4);
            if crate::chars::chars_eq_str(&lit, "true") {
                return Option::Some((JsonValue::Bool(true), i + 4));
            }
        }
        Option::None
    } else if c == 'f' {
        if s.len() - i >= 5 {
            let lit = crate::chars::subrange_chars(s, i, i + 5);
            if crate::chars::chars_eq_str(&lit, "false") {
                return Option::Some((JsonValue::Bool(false), i + 5));
            }
        }
        Option::None
    } else if c == 'n' {
        if s.len() - i >= 4 {
            let lit = crate::chars::subrange_chars(s, i, i + 4);
            if crate::chars::chars_eq_str(&lit, "null") {
                return Option::Some((JsonValue::Null, i + 4));
            }
        }
        Option::None
    } else if c == '-' || ((c as u32) >= ('0' as u32) && (c as u32) <= ('9' as u32)) {
        match number_end_exec(s, i) {
            Option::None => Option::None,
            Option::Some(e) => {
                let lit = crate::chars::subrange_chars(s, i, e);
                Option::Some((JsonValue::Num(crate::chars::chars_to_string(&lit)), e))
            },
        }
    } else {
        Option::None
    }
}

/// The members of an object from the first key on.
fn j_members_exec(s: &Vec<char>, i: usize, n: u128) -> (r: Option<
    (Vec<(String, JsonValue)>, usize),
>)
    requires
        i <= s@.len(),
    ensures
        match r {
            Option::Some(p) => j_members(s@, i as int, n as nat) == Option::Some(
                (jm_of_members(p.0@), p.1 as int),
            ) && p.1 <= s@.len(),
            Option::None => j_members(s@, i as int, n as nat) is None,
        },
    decreases n, 1int,
{
    if n == 0 || i == s.len() {
        return Option::None;
    }
    if s[i] != '"' {
        return Option::None;
    }
    let kp = match str_chars_exec(s, i + 1) {
        Option::None => {
            return Option::None;
        },
        Option::Some(kp) => kp,
    };
    let j = skip_ws_exec(s, kp.1);
    if j == s.len() || s[j] != ':' {
        return Option::None;
    }
    let start = skip_ws_exec(s, j + 1);
    let vp = match j_value_exec(s, start, n) {
        Option::None => {
            return Option::None;
        },
        Option::Some(vp) => vp,
    };
    let key = crate::chars::chars_to_string(&kp.0);
    let j2 = skip_ws_exec(s, vp.1);
    if j2 < s.len() && s[j2] == ',' {
        let rest_start = skip_ws_exec(s, j2 + 1);
        match j_members_exec(s, rest_start, n - 1) {
            Option::None => Option::None,
            Option::Some(rp) => {
                let (mut rest, end) = rp;
                let ghost old_rest = rest@;
                rest.insert(0, (key, vp.0));
                proof {
                    assert(rest@.skip(1) =~= old_rest);
                    assert(rest@[0].0@ == kp.0@);
                    assert(jm_of_members(rest@) =~= seq![(kp.0@, jm_of(rest@[0].1))]
                        + jm_of_members(old_rest));
                }
                Option::Some((rest, end))
            },
        }
    } else if j2 < s.len() && s[j2] == '}' {
        let mut one: Vec<(String, JsonValue)> = Vec::new();
        one.push((key, vp.0));
        proof {
            assert(one@.skip(1) =~= Seq::<(String, JsonValue)>::empty());
            assert(jm_of_members(Seq::<(String, JsonValue)>::empty())
                =~= Seq::<(Seq<char>, JsonModel)>::empty());
            assert(jm_of_members(one@) =~= seq![(kp.0@, jm_of(one@[0].1))]);
        }
        Option::Some((one, j2 + 1))
    } else {
        Option::None
    }
}

/// The items of an array from the first element on.
fn j_items_exec(s: &Vec<char>, i: usize, n: u128) -> (r: Option<(Vec<JsonValue>, usize)>)
    requires
        i <= s@.len(),
    ensures
        match r {
            Option::Some(p) => j_items(s@, i as int, n as nat) == Option::Some(
                (jm_of_seq(p.0@), p.1 as int),
            ) && p.1 <= s@.len(),
            Option::None => j_items(s@, i as int, n as nat) is None,
        },
    decreases n, 1int,
{
    if n == 0 {
        return Option::None;
    }
    let vp = match j_value_exec(s, i, n) {
        Option::None => {
            return Option::None;
        },
        Option::Some(vp) => vp,
    };
    let j = skip_ws_exec(s, vp.1);
    if j < s.len() && s[j] == ',' {
        let rest_start = skip_ws_exec(s, j + 1);
        match j_items_exec(s, rest_start, n - 1) {
            Option::None => Option::None,
            Option::Some(rp) => {
                let (mut rest, end) = rp;
                let ghost old_rest = rest@;
                rest.insert(0, vp.0);
                proof {
                    assert(rest@.skip(1) =~= old_rest);
                    assert(jm_of_seq(rest@) =~= seq![jm_of(rest@[0])] + jm_of_seq(old_rest));
                }
                Option::Some((rest, end))
            },
        }
    } else if j < s.len() && s[j] == ']' {
        let mut one: Vec<JsonValue> = Vec::new();
        one.push(vp.0);
        proof {
            assert(one@.skip(1) =~= Seq::<JsonValue>::empty());
            assert(jm_of_seq(Seq::<JsonValue>::empty()) =~= Seq::<JsonModel>::empty());
            assert(jm_of_seq(one@) =~= seq![jm_of(one@[0])]);
        }
        Option::Some((one, j + 1))
    } else {
        Option::None
    }
}

/// Parses a whole JSON text: one value surrounded by whitespace, or nothing
/// when the text is not well-formed.
pub fn json_parse(text: &str) -> (r: Option<JsonValue>)
    ensures
        match r {
            Option::Some(v) => spec_json_parse(text@) == Option::Some(v@),
            Option::None => spec_json_parse(text@) is None,
        },
{
    let s = crate::chars::str_to_chars(text);
    let n: u128 = (s.len() as u128) + 1;
    let start = skip_ws_exec(&s, 0);
    match j_value_exec(&s, start, n) {
        Option::None => Option::None,
        Option::Some(p) => {
            let end = skip_ws_exec(&s, p.1);
            if end == s.len() {
                Option::Some(p.0)
            } else {
                Option::None
            }
        },
    }
}


/// A copy of the value, equal in model.
#[verifier::loop_isolation(false)]
pub fn json_clone(v: &JsonValue) -> (r: JsonValue)
    ensures
        r@ == v@,
    decreases v,
{
    broadcast use vstd::std_specs::vec::group_vec_axioms;

    match v {
        JsonValue::Null => JsonValue::Null,
        JsonValue::Bool(b) => JsonValue::Bool(*b),
        JsonValue::Num(s) => JsonValue::Num(s.clone()),
        JsonValue::Str(s) => JsonValue::Str(s.clone()),
        JsonValue::Arr(items) => {
            let mut out: Vec<JsonValue> = Vec::new();
            let mut i: usize = 0;
            proof {
                lemma_jm_of_seq_index(items@);
                lemma_jm_of_seq_index(out@);
            }
            while i < items.len()
                invariant
                    i <= items@.len(),
                    out@.len() == i,
                    forall|j: int| 0 <= j < i ==> jm_of(#[trigger] out@[j]) == jm_of(items@[j]),
                decreases items@.len() - i,
            {
                let c = json_clone(&items[i]);
                out.push(c);
                i = i + 1;
            }
            proof {
                lemma_jm_of_seq_index(items@);
                lemma_jm_of_seq_index(out@);
                assert forall|j: int| 0 <= j < items@.len() implies jm_of_seq(out@)[j]
                    == jm_of_seq(items@)[j] by {
                    assert(jm_of_seq(out@)[j] == jm_of(out@[j]));
                    assert(jm_of_seq(items@)[j] == jm_of(items@[j]));
                }
                assert(jm_of_seq(out@) =~= jm_of_seq(items@));
            }
            JsonValue::Arr(out)
        },
        JsonValue::Obj(members) => {
            let mut out: Vec<(String, JsonValue)> = Vec::new();
            let mut i: usize = 0;
            while i < members.len()
                invariant
                    i <= members@.len(),
                    out@.len() == i,
                    forall|j: int|
                        0 <= j < i ==> jm_of(#[trigger] out@[j].1) == jm_of(members@[j].1)
                            && out@[j].0@ == members@[j].0@,
                decreases members@.len() - i,
            {
                let k = members[i].0.clone();
                let c = json_clone(&members[i].1);
                out.push((k, c));
                i = i + 1;
            }
            proof {
                lemma_jm_of_members_index(members@);
                lemma_jm_of_members_index(out@);
                assert forall|j: int| 0 <= j < members@.len() implies jm_of_members(out@)[j]
                    == jm_of_members(members@)[j] by {
                    assert(jm_of_members(out@)[j] == (out@[j].0@, jm_of(out@[j].1)));
                    assert(jm_of_members(members@)[j] == (members@[j].0@, jm_of(members@[j].1)));
                }
                assert(jm_of_members(out@) =~= jm_of_members(members@));
            }
            JsonValue::Obj(out)
        },
    }
}

} // verus!
