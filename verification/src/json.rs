//! Flat JSON objects with string fields: the shape of the broker's payloads.
//!
//! The broker stores booking and notify payloads, and posts the outbound
//! request body, as JSON objects whose members are all strings. This module
//! renders such objects (`render_json_object`), parses them back
//! (`parse_json_object`), and proves that parsing inverts rendering.

use vstd::prelude::*;

use crate::strutil::push_char;

verus! {

/// The lowercase hexadecimal digit character for `d`.
pub open spec fn hex_digit(d: int) -> char {
    if d == 0 {
        '0'
    } else if d == 1 {
        '1'
    } else if d == 2 {
        '2'
    } else if d == 3 {
        '3'
    } else if d == 4 {
        '4'
    } else if d == 5 {
        '5'
    } else if d == 6 {
        '6'
    } else if d == 7 {
        '7'
    } else if d == 8 {
        '8'
    } else if d == 9 {
        '9'
    } else if d == 10 {
        'a'
    } else if d == 11 {
        'b'
    } else if d == 12 {
        'c'
    } else if d == 13 {
        'd'
    } else if d == 14 {
        'e'
    } else {
        'f'
    }
}

/// The numeric value of a lowercase hexadecimal digit, or -1.
pub open spec fn hex_val(c: char) -> int {
    if c == '0' {
        0
    } else if c == '1' {
        1
    } else if c == '2' {
        2
    } else if c == '3' {
        3
    } else if c == '4' {
        4
    } else if c == '5' {
        5
    } else if c == '6' {
        6
    } else if c == '7' {
        7
    } else if c == '8' {
        8
    } else if c == '9' {
        9
    } else if c == 'a' {
        10
    } else if c == 'b' {
        11
    } else if c == 'c' {
        12
    } else if c == 'd' {
        13
    } else if c == 'e' {
        14
    } else if c == 'f' {
        15
    } else {
        -1
    }
}

/// The control character with scalar value `code`.
pub open spec fn low_char(code: int) -> char {
    if code == 0 {
        '\u{00}'
    } else if code == 1 {
        '\u{01}'
    } else if code == 2 {
        '\u{02}'
    } else if code == 3 {
        '\u{03}'
    } else if code == 4 {
        '\u{04}'
    } else if code == 5 {
        '\u{05}'
    } else if code == 6 {
        '\u{06}'
    } else if code == 7 {
        '\u{07}'
    } else if code == 8 {
        '\u{08}'
    } else if code == 9 {
        '\u{09}'
    } else if code == 10 {
        '\u{0a}'
    } else if code == 11 {
        '\u{0b}'
    } else if code == 12 {
        '\u{0c}'
    } else if code == 13 {
        '\u{0d}'
    } else if code == 14 {
        '\u{0e}'
    } else if code == 15 {
        '\u{0f}'
    } else if code == 16 {
        '\u{10}'
    } else if code == 17 {
        '\u{11}'
    } else if code == 18 {
        '\u{12}'
    } else if code == 19 {
        '\u{13}'
    } else if code == 20 {
        '\u{14}'
    } else if code == 21 {
        '\u{15}'
    } else if code == 22 {
        '\u{16}'
    } else if code == 23 {
        '\u{17}'
    } else if code == 24 {
        '\u{18}'
    } else if code == 25 {
        '\u{19}'
    } else if code == 26 {
        '\u{1a}'
    } else if code == 27 {
        '\u{1b}'
    } else if code == 28 {
        '\u{1c}'
    } else if code == 29 {
        '\u{1d}'
    } else if code == 30 {
        '\u{1e}'
    } else {
        '\u{1f}'
    }
}

/// How one character appears inside a JSON string literal: quote, backslash
/// and the common control characters get their two-character escapes, the
/// remaining control characters a `\u00..` escape, and everything else stands
/// for itself.
pub open spec fn json_escape_char(c: char) -> Seq<char> {
    if c == '"' {
        seq!['\\', '"']
    } else if c == '\\' {
        seq!['\\', '\\']
    } else if c == '\n' {
        seq!['\\', 'n']
    } else if c == '\r' {
        seq!['\\', 'r']
    } else if c == '\t' {
        seq!['\\', 't']
    } else if (c as u32) < 32 {
        seq!['\\', 'u', '0', '0', hex_digit((c as u32) as int / 16), hex_digit((c as u32) as int % 16)]
    } else {
        seq![c]
    }
}

/// The body of a JSON string literal for `s`.
pub open spec fn json_escape(s: Seq<char>) -> Seq<char>
    decreases s.len(),
{
    if s.len() == 0 {
        Seq::<char>::empty()
    } else {
        json_escape_char(s[0]) + json_escape(s.drop_first())
    }
}

/// The JSON string literal for `s`, quotes included.
pub open spec fn json_string(s: Seq<char>) -> Seq<char> {
    seq!['"'] + json_escape(s) + seq!['"']
}

/// One object member: `"key":"value"`.
pub open spec fn json_field(f: (Seq<char>, Seq<char>)) -> Seq<char> {
    json_string(f.0) + seq![':'] + json_string(f.1)
}

/// The members after the first, each preceded by a comma.
pub open spec fn json_fields_rest(fields: Seq<(Seq<char>, Seq<char>)>) -> Seq<char>
    decreases fields.len(),
{
    if fields.len() == 0 {
        Seq::<char>::empty()
    } else {
        seq![','] + json_field(fields[0]) + json_fields_rest(fields.drop_first())
    }
}

/// The compact rendering of a flat object with string members.
pub open spec fn json_object(fields: Seq<(Seq<char>, Seq<char>)>) -> Seq<char> {
    if fields.len() == 0 {
        seq!['{', '}']
    } else {
        seq!['{'] + json_field(fields[0]) + json_fields_rest(fields.drop_first()) + seq!['}']
    }
}

/// The character-sequence view of a list of string pairs.
pub open spec fn pairs_view(v: Seq<(String, String)>) -> Seq<(Seq<char>, Seq<char>)> {
    v.map_values(|p: (String, String)| (p.0@, p.1@))
}

/// Parse of a string-literal body, entered after the opening quote: the
/// decoded content and what follows the closing quote. Accepts the escapes
/// the renderer emits and refuses raw control characters.
pub open spec fn sp_string(s: Seq<char>) -> Option<(Seq<char>, Seq<char>)>
    decreases s.len(),
{
    if s.len() == 0 {
        None
    } else if s[0] == '"' {
        Some((Seq::<char>::empty(), s.drop_first()))
    } else if s[0] == '\\' {
        if s.len() < 2 {
            None
        } else {
            let e = s[1];
            if e == '"' || e == '\\' || e == 'n' || e == 'r' || e == 't' {
                let c = if e == '"' {
                    '"'
                } else if e == '\\' {
                    '\\'
                } else if e == 'n' {
                    '\n'
                } else if e == 'r' {
                    '\r'
                } else {
                    '\t'
                };
                match sp_string(s.skip(2)) {
                    Some(p) => Some((seq![c] + p.0, p.1)),
                    None => None,
                }
            } else if e == 'u' {
                if s.len() < 6 {
                    None
                } else if s[2] == '0' && s[3] == '0' && 0 <= hex_val(s[4]) < 2 && hex_val(s[5])
                    >= 0 {
                    match sp_string(s.skip(6)) {
                        Some(p) => Some(
                            (seq![low_char(hex_val(s[4]) * 16 + hex_val(s[5]))] + p.0, p.1),
                        ),
                        None => None,
                    }
                } else {
                    None
                }
            } else {
                None
            }
        }
    } else if (s[0] as u32) < 32 {
        None
    } else {
        match sp_string(s.drop_first()) {
            Some(p) => Some((seq![s[0]] + p.0, p.1)),
            None => None,
        }
    }
}

/// A parsed string literal consumes at least its closing quote.
pub proof fn lemma_sp_string_shrinks(s: Seq<char>)
    ensures
        sp_string(s) is Some ==> (sp_string(s)->0).1.len() < s.len(),
    decreases s.len(),
{
    if s.len() == 0 {
    } else if s[0] == '"' {
    } else if s[0] == '\\' {
        if s.len() >= 2 {
            lemma_sp_string_shrinks(s.skip(2));
            if s.len() >= 6 {
                lemma_sp_string_shrinks(s.skip(6));
            }
        }
    } else {
        lemma_sp_string_shrinks(s.drop_first());
    }
}

/// Parse of the members of a non-empty object, entered after the opening
/// brace: the fields and what follows the closing brace.
pub open spec fn sp_members(s: Seq<char>) -> Option<(Seq<(Seq<char>, Seq<char>)>, Seq<char>)>
    decreases s.len(),
    via sp_members_decreases
{
    if s.len() == 0 || s[0] != '"' {
        None
    } else {
        match sp_string(s.drop_first()) {
            None => None,
            Some(kp) => {
                let key = kp.0;
                let r1 = kp.1;
                if r1.len() < 2 || r1[0] != ':' || r1[1] != '"' {
                    None
                } else {
                    match sp_string(r1.skip(2)) {
                        None => None,
                        Some(vp) => {
                            let value = vp.0;
                            let r2 = vp.1;
                            if r2.len() == 0 {
                                None
                            } else if r2[0] == '}' {
                                Some((seq![(key, value)], r2.drop_first()))
                            } else if r2[0] == ',' {
                                match sp_members(r2.drop_first()) {
                                    None => None,
                                    Some(fp) => Some((seq![(key, value)] + fp.0, fp.1)),
                                }
                            } else {
                                None
                            }
                        },
                    }
                }
            },
        }
    }
}

#[via_fn]
proof fn sp_members_decreases(s: Seq<char>) {
    if s.len() != 0 && s[0] == '"' {
        lemma_sp_string_shrinks(s.drop_first());
        if sp_string(s.drop_first()) is Some {
            let r1 = (sp_string(s.drop_first())->0).1;
            if r1.len() >= 2 && r1[0] == ':' && r1[1] == '"' {
                lemma_sp_string_shrinks(r1.skip(2));
            }
        }
    }
}

/// Parse of a whole flat object with string members; the entire input must be
/// consumed.
pub open spec fn sp_object(s: Seq<char>) -> Option<Seq<(Seq<char>, Seq<char>)>> {
    if s.len() < 2 || s[0] != '{' {
        None
    } else if s[1] == '}' {
        if s.len() == 2 {
            Some(Seq::<(Seq<char>, Seq<char>)>::empty())
        } else {
            None
        }
    } else {
        match sp_members(s.drop_first()) {
            None => None,
            Some(fp) => if fp.1.len() == 0 {
                Some(fp.0)
            } else {
                None
            },
        }
    }
}

/// The value of the first member named `key`, if any.
pub open spec fn spec_get_field(fields: Seq<(Seq<char>, Seq<char>)>, key: Seq<char>) -> Option<
    Seq<char>,
>
    decreases fields.len(),
{
    if fields.len() == 0 {
        None
    } else if fields[0].0 == key {
        Some(fields[0].1)
    } else {
        spec_get_field(fields.drop_first(), key)
    }
}

proof fn lemma_hex_roundtrip(d: int)
    requires
        0 <= d < 16,
    ensures
        hex_val(hex_digit(d)) == d,
{
}

proof fn lemma_low_char_roundtrip(c: char)
    requires
        (c as u32) < 32,
    ensures
        low_char((c as u32) as int) == c,
{
}

/// Parsing a rendered string literal recovers the content and what follows.
proof fn lemma_sp_string_render(content: Seq<char>, tail: Seq<char>)
    ensures
        sp_string(json_escape(content) + seq!['"'] + tail) == Some((content, tail)),
    decreases content.len(),
{
    let s = json_escape(content) + seq!['"'] + tail;
    if content.len() == 0 {
        assert(json_escape(content) =~= Seq::<char>::empty());
        assert(s =~= seq!['"'] + tail);
        assert(s[0] == '"');
        assert(s.drop_first() =~= tail);
    } else {
        let c = content[0];
        let rest = content.drop_first();
        let s2 = json_escape(rest) + seq!['"'] + tail;
        assert(json_escape(content) == json_escape_char(c) + json_escape(rest));
        assert(s =~= json_escape_char(c) + s2);
        lemma_sp_string_render(rest, tail);
        if c == '"' {
            assert(s[0] == '\\' && s[1] == '"');
            assert(s.skip(2) =~= s2);
            assert(seq!['"'] + rest =~= content);
        } else if c == '\\' {
            assert(s[0] == '\\' && s[1] == '\\');
            assert(s.skip(2) =~= s2);
            assert(seq!['\\'] + rest =~= content);
        } else if c == '\n' {
            assert(s[0] == '\\' && s[1] == 'n');
            assert(s.skip(2) =~= s2);
            assert(seq!['\n'] + rest =~= content);
        } else if c == '\r' {
            assert(s[0] == '\\' && s[1] == 'r');
            assert(s.skip(2) =~= s2);
            assert(seq!['\r'] + rest =~= content);
        } else if c == '\t' {
            assert(s[0] == '\\' && s[1] == 't');
            assert(s.skip(2) =~= s2);
            assert(seq!['\t'] + rest =~= content);
        } else if (c as u32) < 32 {
            let v = (c as u32) as int;
            assert(s[0] == '\\' && s[1] == 'u');
            assert(s[2] == '0' && s[3] == '0');
            assert(s[4] == hex_digit(v / 16) && s[5] == hex_digit(v % 16));
            lemma_hex_roundtrip(v / 16);
            lemma_hex_roundtrip(v % 16);
            assert(hex_val(s[4]) == v / 16 && hex_val(s[5]) == v % 16);
            assert(0 <= hex_val(s[4]) < 2);
            assert(hex_val(s[4]) * 16 + hex_val(s[5]) == v);
            lemma_low_char_roundtrip(c);
            assert(s.skip(6) =~= s2);
            assert(seq![c] + rest =~= content);
        } else {
            assert(s[0] == c);
            assert(s.drop_first() =~= s2);
            assert(seq![c] + rest =~= content);
        }
    }
}

/// Parsing rendered members recovers the fields and what follows the
/// closing brace.
proof fn lemma_sp_members_render(fields: Seq<(Seq<char>, Seq<char>)>, tail: Seq<char>)
    requires
        fields.len() >= 1,
    ensures
        sp_members(
            json_field(fields[0]) + json_fields_rest(fields.drop_first()) + seq!['}'] + tail,
        ) == Some((fields, tail)),
    decreases fields.len(),
{
    let f0 = fields[0];
    let rem = json_fields_rest(fields.drop_first()) + seq!['}'] + tail;
    let s = json_field(fields[0]) + json_fields_rest(fields.drop_first()) + seq!['}'] + tail;
    assert(s =~= json_field(f0) + rem);
    assert(s[0] == '"');
    let r1 = seq![':'] + json_string(f0.1) + rem;
    assert(s.drop_first() =~= json_escape(f0.0) + seq!['"'] + r1);
    lemma_sp_string_render(f0.0, r1);
    assert(sp_string(s.drop_first()) == Some((f0.0, r1)));
    assert(r1[0] == ':');
    assert(r1[1] == '"');
    assert(r1.len() >= 2);
    assert(r1.skip(2) =~= json_escape(f0.1) + seq!['"'] + rem);
    lemma_sp_string_render(f0.1, rem);
    assert(sp_string(r1.skip(2)) == Some((f0.1, rem)));
    if fields.len() == 1 {
        assert(fields.drop_first() =~= Seq::<(Seq<char>, Seq<char>)>::empty());
        assert(json_fields_rest(fields.drop_first()) =~= Seq::<char>::empty());
        assert(rem =~= seq!['}'] + tail);
        assert(rem[0] == '}');
        assert(rem.drop_first() =~= tail);
        assert((f0.0, f0.1) == f0);
        assert(seq![(f0.0, f0.1)] =~= fields);
    } else {
        let dropped = fields.drop_first();
        assert(json_fields_rest(dropped) == seq![','] + json_field(dropped[0])
            + json_fields_rest(dropped.drop_first()));
        assert(rem[0] == ',');
        assert(rem.drop_first() =~= json_field(dropped[0]) + json_fields_rest(
            dropped.drop_first(),
        ) + seq!['}'] + tail);
        lemma_sp_members_render(dropped, tail);
        assert(sp_members(rem.drop_first()) == Some((dropped, tail)));
        assert((f0.0, f0.1) == f0);
        assert(seq![(f0.0, f0.1)] + dropped =~= fields);
    }
}

/// Parsing inverts rendering: the parser recovers exactly the fields an
/// object was rendered from, in order.
pub proof fn lemma_json_object_roundtrip(fields: Seq<(Seq<char>, Seq<char>)>)
    ensures
        sp_object(json_object(fields)) == Some(fields),
{
    let s = json_object(fields);
    if fields.len() == 0 {
        assert(s[0] == '{' && s[1] == '}' && s.len() == 2);
        assert(sp_object(s) == Some(Seq::<(Seq<char>, Seq<char>)>::empty()));
        assert(Seq::<(Seq<char>, Seq<char>)>::empty() =~= fields);
    } else {
        assert(json_field(fields[0])[0] == '"');
        assert(s[0] == '{');
        assert(s[1] == '"');
        assert(s.len() >= 2);
        assert(s.drop_first() =~= json_field(fields[0]) + json_fields_rest(fields.drop_first())
            + seq!['}'] + Seq::<char>::empty());
        lemma_sp_members_render(fields, Seq::<char>::empty());
        assert(sp_members(s.drop_first()) == Some((fields, Seq::<char>::empty())));
    }
}

fn hex_digit_char(d: u32) -> (c: char)
    requires
        d < 16,
    ensures
        c == hex_digit(d as int),
{
    if d == 0 {
        '0'
    } else if d == 1 {
        '1'
    } else if d == 2 {
        '2'
    } else if d == 3 {
        '3'
    } else if d == 4 {
        '4'
    } else if d == 5 {
        '5'
    } else if d == 6 {
        '6'
    } else if d == 7 {
        '7'
    } else if d == 8 {
        '8'
    } else if d == 9 {
        '9'
    } else if d == 10 {
        'a'
    } else if d == 11 {
        'b'
    } else if d == 12 {
        'c'
    } else if d == 13 {
        'd'
    } else if d == 14 {
        'e'
    } else {
        'f'
    }
}

fn hex_val_exec(c: char) -> (r: Option<u32>)
    ensures
        match r {
            Option::Some(v) => v < 16 && hex_val(c) == v as int,
            Option::None => hex_val(c) == -1,
        },
{
    if c == '0' {
        Option::Some(0)
    } else if c == '1' {
        Option::Some(1)
    } else if c == '2' {
        Option::Some(2)
    } else if c == '3' {
        Option::Some(3)
    } else if c == '4' {
        Option::Some(4)
    } else if c == '5' {
        Option::Some(5)
    } else if c == '6' {
        Option::Some(6)
    } else if c == '7' {
        Option::Some(7)
    } else if c == '8' {
        Option::Some(8)
    } else if c == '9' {
        Option::Some(9)
    } else if c == 'a' {
        Option::Some(10)
    } else if c == 'b' {
        Option::Some(11)
    } else if c == 'c' {
        Option::Some(12)
    } else if c == 'd' {
        Option::Some(13)
    } else if c == 'e' {
        Option::Some(14)
    } else if c == 'f' {
        Option::Some(15)
    } else {
        Option::None
    }
}

fn low_char_exec(code: u32) -> (c: char)
    requires
        code < 32,
    ensures
        c == low_char(code as int),
{
    if code == 0 {
        '\u{00}'
    } else if code == 1 {
        '\u{01}'
    } else if code == 2 {
        '\u{02}'
    } else if code == 3 {
        '\u{03}'
    } else if code == 4 {
        '\u{04}'
    } else if code == 5 {
        '\u{05}'
    } else if code == 6 {
        '\u{06}'
    } else if code == 7 {
        '\u{07}'
    } else if code == 8 {
        '\u{08}'
    } else if code == 9 {
        '\u{09}'
    } else if code == 10 {
        '\u{0a}'
    } else if code == 11 {
        '\u{0b}'
    } else if code == 12 {
        '\u{0c}'
    } else if code == 13 {
        '\u{0d}'
    } else if code == 14 {
        '\u{0e}'
    } else if code == 15 {
        '\u{0f}'
    } else if code == 16 {
        '\u{10}'
    } else if code == 17 {
        '\u{11}'
    } else if code == 18 {
        '\u{12}'
    } else if code == 19 {
        '\u{13}'
    } else if code == 20 {
        '\u{14}'
    } else if code == 21 {
        '\u{15}'
    } else if code == 22 {
        '\u{16}'
    } else if code == 23 {
        '\u{17}'
    } else if code == 24 {
        '\u{18}'
    } else if code == 25 {
        '\u{19}'
    } else if code == 26 {
        '\u{1a}'
    } else if code == 27 {
        '\u{1b}'
    } else if code == 28 {
        '\u{1c}'
    } else if code == 29 {
        '\u{1d}'
    } else if code == 30 {
        '\u{1e}'
    } else {
        '\u{1f}'
    }
}

/// Decodes a string-literal body starting at `i` (just past the opening
/// quote), appending the content to `acc`; yields the position just past the
/// closing quote.
fn p_string(s: &str, i: usize, acc: &mut String) -> (r: Option<usize>)
    requires
        i <= s@.len(),
    ensures
        match r {
            Option::Some(j) => {
                &&& i < j <= s@.len()
                &&& sp_string(s@.skip(i as int)) is Some
                &&& final(acc)@ == old(acc)@ + (sp_string(s@.skip(i as int))->0).0
                &&& (sp_string(s@.skip(i as int))->0).1 == s@.skip(j as int)
            },
            Option::None => sp_string(s@.skip(i as int)) is None,
        },
    decreases s@.len() - i,
{
    let len = s.unicode_len();
    let ghost t = s@.skip(i as int);
    if i == len {
        proof {
            assert(t.len() == 0);
        }
        return Option::None;
    }
    let c = s.get_char(i);
    proof {
        assert(t[0] == s@[i as int]);
        assert(t.drop_first() =~= s@.skip(i as int + 1));
    }
    if c == '"' {
        proof {
            assert(final(acc)@ =~= old(acc)@ + (sp_string(t)->0).0);
        }
        return Option::Some(i + 1);
    }
    if c == '\\' {
        if i + 1 == len {
            proof {
                assert(t.len() < 2);
            }
            return Option::None;
        }
        let e = s.get_char(i + 1);
        proof {
            assert(t[1] == s@[i as int + 1]);
        }
        if e == '"' || e == '\\' || e == 'n' || e == 'r' || e == 't' {
            let decoded = if e == '"' {
                '"'
            } else if e == '\\' {
                '\\'
            } else if e == 'n' {
                '\n'
            } else if e == 'r' {
                '\r'
            } else {
                '\t'
            };
            push_char(acc, decoded);
            let ghost mid = acc@;
            proof {
                assert(t.skip(2) =~= s@.skip(i as int + 2));
            }
            match p_string(s, i + 2, acc) {
                Option::Some(j) => {
                    proof {
                        assert(final(acc)@ =~= old(acc)@ + (sp_string(t)->0).0);
                    }
                    return Option::Some(j);
                },
                Option::None => {
                    return Option::None;
                },
            }
        } else if e == 'u' {
            if len - i < 6 {
                proof {
                    assert(t.len() < 6);
                }
                return Option::None;
            }
            let c2 = s.get_char(i + 2);
            let c3 = s.get_char(i + 3);
            let h1 = s.get_char(i + 4);
            let h2 = s.get_char(i + 5);
            proof {
                assert(t[2] == s@[i as int + 2]);
                assert(t[3] == s@[i as int + 3]);
                assert(t[4] == s@[i as int + 4]);
                assert(t[5] == s@[i as int + 5]);
            }
            if c2 != '0' || c3 != '0' {
                return Option::None;
            }
            let v1 = hex_val_exec(h1);
            let v2 = hex_val_exec(h2);
            match v1 {
                Option::None => Option::None,
                Option::Some(a) => {
                    if a >= 2 {
                        return Option::None;
                    }
                    match v2 {
                        Option::None => Option::None,
                        Option::Some(b) => {
                            let code = a * 16 + b;
                            push_char(acc, low_char_exec(code));
                            proof {
                                assert(t.skip(6) =~= s@.skip(i as int + 6));
                            }
                            match p_string(s, i + 6, acc) {
                                Option::Some(j) => {
                                    proof {
                                        assert(final(acc)@ =~= old(acc)@ + (sp_string(t)->0).0);
                                    }
                                    Option::Some(j)
                                },
                                Option::None => Option::None,
                            }
                        },
                    }
                },
            }
        } else {
            Option::None
        }
    } else if (c as u32) < 32 {
        Option::None
    } else {
        push_char(acc, c);
        match p_string(s, i + 1, acc) {
            Option::Some(j) => {
                proof {
                    assert(final(acc)@ =~= old(acc)@ + (sp_string(t)->0).0);
                }
                Option::Some(j)
            },
            Option::None => Option::None,
        }
    }
}

/// Parses the members of a non-empty object starting at `i` (just past the
/// opening brace), appending the pairs to `fields`; yields the position just
/// past the closing brace.
fn p_members(s: &str, i: usize, fields: &mut Vec<(String, String)>) -> (r: Option<usize>)
    requires
        i <= s@.len(),
    ensures
        match r {
            Option::Some(j) => {
                &&& i < j <= s@.len()
                &&& sp_members(s@.skip(i as int)) is Some
                &&& pairs_view(final(fields)@) == pairs_view(old(fields)@) + (sp_members(
                    s@.skip(i as int),
                )->0).0
                &&& (sp_members(s@.skip(i as int))->0).1 == s@.skip(j as int)
            },
            Option::None => sp_members(s@.skip(i as int)) is None,
        },
    decreases s@.len() - i,
{
    let len = s.unicode_len();
    let ghost t = s@.skip(i as int);
    if i == len {
        return Option::None;
    }
    let c = s.get_char(i);
    proof {
        assert(t[0] == s@[i as int]);
        assert(t.drop_first() =~= s@.skip(i as int + 1));
    }
    if c != '"' {
        return Option::None;
    }
    let mut key = String::new();
    let j1 = match p_string(s, i + 1, &mut key) {
        Option::Some(j) => j,
        Option::None => {
            return Option::None;
        },
    };
    let ghost r1 = s@.skip(j1 as int);
    if len - j1 < 2 {
        proof {
            assert(r1.len() < 2);
        }
        return Option::None;
    }
    let cc = s.get_char(j1);
    let cq = s.get_char(j1 + 1);
    proof {
        assert(r1[0] == s@[j1 as int]);
        assert(r1[1] == s@[j1 as int + 1]);
    }
    if cc != ':' || cq != '"' {
        return Option::None;
    }
    let mut val = String::new();
    proof {
        assert(r1.skip(2) =~= s@.skip(j1 as int + 2));
    }
    let j2 = match p_string(s, j1 + 2, &mut val) {
        Option::Some(j) => j,
        Option::None => {
            return Option::None;
        },
    };
    let ghost r2 = s@.skip(j2 as int);
    if j2 == len {
        proof {
            assert(r2.len() == 0);
        }
        return Option::None;
    }
    let c2 = s.get_char(j2);
    proof {
        assert(r2[0] == s@[j2 as int]);
        assert(r2.drop_first() =~= s@.skip(j2 as int + 1));
    }
    if c2 == '}' {
        let ghost pre = fields@;
        fields.push((key, val));
        proof {
            assert(pairs_view(fields@) =~= pairs_view(pre) + (sp_members(t)->0).0);
        }
        return Option::Some(j2 + 1);
    }
    if c2 == ',' {
        let ghost pre = fields@;
        fields.push((key, val));
        let ghost mid = fields@;
        proof {
            assert(pairs_view(mid) =~= pairs_view(pre).push(
                (mid[pre.len() as int].0@, mid[pre.len() as int].1@),
            ));
        }
        match p_members(s, j2 + 1, fields) {
            Option::Some(j3) => {
                proof {
                    assert(pairs_view(final(fields)@) =~= pairs_view(pre) + (sp_members(t)->0).0);
                }
                return Option::Some(j3);
            },
            Option::None => {
                return Option::None;
            },
        }
    }
    Option::None
}

/// Parses a complete flat JSON object with string members, in the exact shape
/// the renderer emits.
pub fn parse_json_object(s: &str) -> (r: Option<Vec<(String, String)>>)
    ensures
        match r {
            Option::Some(fields) => sp_object(s@) == Some(pairs_view(fields@)),
            Option::None => sp_object(s@) is None,
        },
{
    let len = s.unicode_len();
    if len < 2 {
        return Option::None;
    }
    let c0 = s.get_char(0);
    if c0 != '{' {
        return Option::None;
    }
    let c1 = s.get_char(1);
    if c1 == '}' {
        if len == 2 {
            let fields: Vec<(String, String)> = Vec::new();
            proof {
                assert(pairs_view(fields@) =~= Seq::<(Seq<char>, Seq<char>)>::empty());
            }
            return Option::Some(fields);
        }
        return Option::None;
    }
    let mut fields: Vec<(String, String)> = Vec::new();
    let ghost pre = fields@;
    proof {
        assert(s@.drop_first() =~= s@.skip(1));
    }
    match p_members(s, 1, &mut fields) {
        Option::Some(j) => {
            if j == len {
                proof {
                    assert(s@.skip(j as int).len() == 0);
                    assert(pairs_view(fields@) =~= (sp_members(s@.skip(1))->0).0);
                }
                Option::Some(fields)
            } else {
                proof {
                    assert(s@.skip(j as int).len() != 0);
                }
                Option::None
            }
        },
        Option::None => Option::None,
    }
}

proof fn lemma_spec_get_field_skip(fields: Seq<(Seq<char>, Seq<char>)>, key: Seq<char>, i: int)
    requires
        0 <= i <= fields.len(),
        forall|j: int| 0 <= j < i ==> fields[j].0 != key,
    ensures
        spec_get_field(fields, key) == spec_get_field(fields.skip(i), key),
    decreases i,
{
    if i > 0 {
        assert(fields.len() > 0);
        assert(fields[0].0 != key);
        assert(forall|j: int|
            0 <= j < i - 1 ==> fields.drop_first()[j] == fields[j + 1]);
        lemma_spec_get_field_skip(fields.drop_first(), key, i - 1);
        assert(fields.drop_first().skip(i - 1) =~= fields.skip(i));
    } else {
        assert(fields.skip(0) =~= fields);
    }
}

/// The value of the first member named `key`, if any.
pub fn get_field(fields: &Vec<(String, String)>, key: &str) -> (r: Option<String>)
    ensures
        match r {
            Option::Some(v) => spec_get_field(pairs_view(fields@), key@) == Some(v@),
            Option::None => spec_get_field(pairs_view(fields@), key@) is None,
        },
{
    let n = fields.len();
    let mut i: usize = 0;
    while i < n
        invariant
            0 <= i <= n,
            n == fields@.len(),
            forall|j: int| 0 <= j < i ==> pairs_view(fields@)[j].0 != key@,
        decreases n - i,
    {
        if crate::strutil::str_eq(fields[i].0.as_str(), key) {
            proof {
                lemma_spec_get_field_skip(pairs_view(fields@), key@, i as int);
                assert(pairs_view(fields@).skip(i as int)[0] == pairs_view(fields@)[i as int]);
            }
            return Option::Some(fields[i].1.clone());
        }
        i = i + 1;
    }
    proof {
        lemma_spec_get_field_skip(pairs_view(fields@), key@, n as int);
        assert(pairs_view(fields@).skip(n as int).len() == 0);
    }
    Option::None
}

/// Appends the escaped body of `s` from position `i` on.
fn write_escaped_from(out: &mut String, s: &str, i: usize)
    requires
        i <= old(out)@.len() + s@.len(),
        i <= s@.len(),
    ensures
        final(out)@ == old(out)@ + json_escape(s@.skip(i as int)),
    decreases s@.len() - i,
{
    if i == s.unicode_len() {
        proof {
            assert(s@.skip(i as int) =~= Seq::<char>::empty());
            assert(final(out)@ =~= old(out)@ + json_escape(s@.skip(i as int)));
        }
    } else {
        let ghost pre = out@;
        let c = s.get_char(i);
        proof {
            assert(s@.skip(i as int)[0] == s@[i as int]);
            assert(s@.skip(i as int).drop_first() =~= s@.skip(i as int + 1));
        }
        if c == '"' {
            push_char(out, '\\');
            push_char(out, '"');
        } else if c == '\\' {
            push_char(out, '\\');
            push_char(out, '\\');
        } else if c == '\n' {
            push_char(out, '\\');
            push_char(out, 'n');
        } else if c == '\r' {
            push_char(out, '\\');
            push_char(out, 'r');
        } else if c == '\t' {
            push_char(out, '\\');
            push_char(out, 't');
        } else if (c as u32) < 32 {
            let v = c as u32;
            push_char(out, '\\');
            push_char(out, 'u');
            push_char(out, '0');
            push_char(out, '0');
            push_char(out, hex_digit_char(v / 16));
            push_char(out, hex_digit_char(v % 16));
        } else {
            push_char(out, c);
        }
        proof {
            assert(out@ =~= pre + json_escape_char(c));
        }
        write_escaped_from(out, s, i + 1);
        proof {
            assert(final(out)@ =~= old(out)@ + json_escape(s@.skip(i as int)));
        }
    }
}

/// Appends the JSON string literal for `s`, quotes included.
pub fn write_json_string(out: &mut String, s: &str)
    ensures
        final(out)@ == old(out)@ + json_string(s@),
{
    push_char(out, '"');
    write_escaped_from(out, s, 0);
    push_char(out, '"');
    proof {
        assert(s@.skip(0) =~= s@);
        assert(final(out)@ =~= old(out)@ + json_string(s@));
    }
}

fn write_json_field(out: &mut String, key: &str, value: &str)
    ensures
        final(out)@ == old(out)@ + json_field((key@, value@)),
{
    write_json_string(out, key);
    push_char(out, ':');
    write_json_string(out, value);
    proof {
        assert(final(out)@ =~= old(out)@ + json_field((key@, value@)));
    }
}

fn write_fields_rest(out: &mut String, fields: &Vec<(String, String)>, i: usize)
    requires
        1 <= i <= fields@.len(),
    ensures
        final(out)@ == old(out)@ + json_fields_rest(pairs_view(fields@).skip(i as int)),
    decreases fields@.len() - i,
{
    if i == fields.len() {
        proof {
            assert(pairs_view(fields@).skip(i as int) =~= Seq::<(Seq<char>, Seq<char>)>::empty());
            assert(final(out)@ =~= old(out)@ + json_fields_rest(pairs_view(fields@).skip(i as int)));
        }
    } else {
        let ghost pre = out@;
        push_char(out, ',');
        write_json_field(out, fields[i].0.as_str(), fields[i].1.as_str());
        proof {
            assert(pairs_view(fields@).skip(i as int)[0] == (fields@[i as int].0@, fields@[i as int].1@));
            assert(pairs_view(fields@).skip(i as int).drop_first() =~= pairs_view(fields@).skip(
                i as int + 1,
            ));
            assert(out@ =~= pre + seq![','] + json_field(pairs_view(fields@).skip(i as int)[0]));
        }
        write_fields_rest(out, fields, i + 1);
        proof {
            assert(final(out)@ =~= old(out)@ + json_fields_rest(pairs_view(fields@).skip(i as int)));
        }
    }
}

/// The compact JSON rendering of a flat object with the given string members,
/// in the given order.
pub fn render_json_object(fields: &Vec<(String, String)>) -> (r: String)
    ensures
        r@ == json_object(pairs_view(fields@)),
{
    let mut out = String::new();
    push_char(&mut out, '{');
    if fields.len() == 0 {
        push_char(&mut out, '}');
        proof {
            assert(out@ =~= json_object(pairs_view(fields@)));
        }
        return out;
    }
    write_json_field(&mut out, fields[0].0.as_str(), fields[0].1.as_str());
    proof {
        assert(pairs_view(fields@)[0] == (fields@[0].0@, fields@[0].1@));
    }
    write_fields_rest(&mut out, fields, 1);
    push_char(&mut out, '}');
    proof {
        assert(pairs_view(fields@).skip(1) =~= pairs_view(fields@).drop_first());
        assert(out@ =~= json_object(pairs_view(fields@)));
    }
    out
}

} // verus!
