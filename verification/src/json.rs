//! JSON values: the document model the tool outputs are decoded into and
//! the report is emitted from, with a verified serializer and parser.
//!
//! Numbers are kept as their literal token so that no precision is lost and
//! nothing in the library depends on floating point.

use vstd::prelude::*;
use crate::strutil::push_char;
use crate::strutil::chars_of;

verus! {

/// Mathematical model of a JSON document.
pub enum Jv {
    Null,
    Bool(bool),
    Num(Seq<char>),
    Str(Seq<char>),
    Arr(Seq<Jv>),
    Obj(Seq<(Seq<char>, Jv)>),
}

/// A JSON document. Object members keep their textual order; duplicate keys
/// are kept as they came.
pub enum Json {
    Null,
    Bool(bool),
    Num(String),
    Str(String),
    Arr(Vec<Json>),
    Obj(Vec<(String, Json)>),
}

pub open spec fn json_view(j: Json) -> Jv
    decreases j,
{
    match j {
        Json::Null => Jv::Null,
        Json::Bool(b) => Jv::Bool(b),
        Json::Num(t) => Jv::Num(t@),
        Json::Str(s) => Jv::Str(s@),
        Json::Arr(es) => Jv::Arr(j_views(es@)),
        Json::Obj(ps) => Jv::Obj(m_views(ps@)),
    }
}

/// Views of a sequence of documents.
pub open spec fn j_views(es: Seq<Json>) -> Seq<Jv>
    decreases es,
{
    Seq::new(es.len(), |i: int| if 0 <= i < es.len() { json_view(es[i]) } else { Jv::Null })
}

/// Views of a sequence of members.
pub open spec fn m_views(ps: Seq<(String, Json)>) -> Seq<(Seq<char>, Jv)>
    decreases ps,
{
    Seq::new(
        ps.len(),
        |i: int| if 0 <= i < ps.len() { (ps[i].0@, json_view(ps[i].1)) } else { (Seq::empty(), Jv::Null) },
    )
}

impl View for Json {
    type V = Jv;

    open spec fn view(&self) -> Jv {
        json_view(*self)
    }
}

pub open spec fn is_digit(c: char) -> bool {
    '0' <= c && c <= '9'
}

/// Characters a number token may be made of.
pub open spec fn is_num_char(c: char) -> bool {
    is_digit(c) || c == '-' || c == '+' || c == '.' || c == 'e' || c == 'E'
}

/// A plausible number token: what the serializer may write back verbatim.
pub open spec fn is_num_token(t: Seq<char>) -> bool {
    &&& t.len() > 0
    &&& (t[0] == '-' || is_digit(t[0]))
    &&& forall|i: int| 0 <= i < t.len() ==> is_num_char(#[trigger] t[i])
}

/// Well-formed documents: every number token is plausible.
pub open spec fn wf_jv(v: Jv) -> bool
    decreases v,
{
    match v {
        Jv::Null => true,
        Jv::Bool(_) => true,
        Jv::Num(t) => is_num_token(t),
        Jv::Str(_) => true,
        Jv::Arr(es) => forall|i: int| 0 <= i < es.len() ==> wf_jv(#[trigger] es[i]),
        Jv::Obj(ps) => forall|i: int| 0 <= i < ps.len() ==> wf_jv(#[trigger] ps[i].1),
    }
}

pub open spec fn hex_digit(n: int) -> char {
    if n == 0 { '0' } else if n == 1 { '1' } else if n == 2 { '2' } else if n == 3 { '3' }
    else if n == 4 { '4' } else if n == 5 { '5' } else if n == 6 { '6' } else if n == 7 { '7' }
    else if n == 8 { '8' } else if n == 9 { '9' } else if n == 10 { 'a' } else if n == 11 { 'b' }
    else if n == 12 { 'c' } else if n == 13 { 'd' } else if n == 14 { 'e' } else { 'f' }
}

/// Value of a hexadecimal digit; 16 marks a character that is none.
pub open spec fn hex_val(c: char) -> int {
    if c == '0' { 0 } else if c == '1' { 1 } else if c == '2' { 2 } else if c == '3' { 3 }
    else if c == '4' { 4 } else if c == '5' { 5 } else if c == '6' { 6 } else if c == '7' { 7 }
    else if c == '8' { 8 } else if c == '9' { 9 }
    else if c == 'a' || c == 'A' { 10 } else if c == 'b' || c == 'B' { 11 }
    else if c == 'c' || c == 'C' { 12 } else if c == 'd' || c == 'D' { 13 }
    else if c == 'e' || c == 'E' { 14 } else if c == 'f' || c == 'F' { 15 }
    else { 16 }
}

/// How one character of a string is written inside quotes.
pub open spec fn escape_char(c: char) -> Seq<char> {
    if c == '"' {
        seq!['\\', '"']
    } else if c == '\\' {
        seq!['\\', '\\']
    } else if (c as u32) < 0x20 {
        seq!['\\', 'u', '0', '0', hex_digit((c as u32) as int / 16), hex_digit((c as u32) as int % 16)]
    } else {
        seq![c]
    }
}

pub open spec fn escape_seq(s: Seq<char>) -> Seq<char>
    decreases s.len(),
{
    if s.len() == 0 {
        Seq::empty()
    } else {
        escape_char(s[0]) + escape_seq(s.drop_first())
    }
}

pub proof fn lemma_escape_snoc(s: Seq<char>, c: char)
    ensures
        escape_seq(s.push(c)) == escape_seq(s) + escape_char(c),
    decreases s.len(),
{
    if s.len() == 0 {
        assert(s.push(c).drop_first() =~= Seq::<char>::empty());
        assert(escape_seq(Seq::<char>::empty()) == Seq::<char>::empty());
        assert(s =~= Seq::<char>::empty());
        assert(s.push(c)[0] == c);
        assert(escape_seq(s.push(c)) =~= escape_seq(s) + escape_char(c));
    } else {
        assert(s.push(c).drop_first() =~= s.drop_first().push(c));
        lemma_escape_snoc(s.drop_first(), c);
        assert(escape_seq(s.push(c)) =~= escape_seq(s) + escape_char(c));
    }
}

/// The serialized text of a document: compact JSON, no added whitespace.
pub open spec fn emit_jv(v: Jv) -> Seq<char>
    decreases v,
{
    match v {
        Jv::Null => seq!['n', 'u', 'l', 'l'],
        Jv::Bool(b) => if b {
            seq!['t', 'r', 'u', 'e']
        } else {
            seq!['f', 'a', 'l', 's', 'e']
        },
        Jv::Num(t) => t,
        Jv::Str(s) => seq!['"'] + escape_seq(s) + seq!['"'],
        Jv::Arr(es) => seq!['['] + emit_items(es, 0) + seq![']'],
        Jv::Obj(ps) => seq!['{'] + emit_members(ps, 0) + seq!['}'],
    }
}

/// Elements `es[k..]` of an array, comma separated.
pub open spec fn emit_items(es: Seq<Jv>, k: int) -> Seq<char>
    decreases es, es.len() - k,
{
    if k < 0 || k >= es.len() {
        Seq::empty()
    } else if k == es.len() - 1 {
        emit_jv(es[k])
    } else {
        emit_jv(es[k]) + seq![','] + emit_items(es, k + 1)
    }
}

/// One `"key":value` member.
pub open spec fn emit_member(p: (Seq<char>, Jv)) -> Seq<char>
    decreases p,
{
    seq!['"'] + escape_seq(p.0) + seq!['"', ':'] + emit_jv(p.1)
}

/// Members `ps[k..]` of an object, comma separated.
pub open spec fn emit_members(ps: Seq<(Seq<char>, Jv)>, k: int) -> Seq<char>
    decreases ps, ps.len() - k,
{
    if k < 0 || k >= ps.len() {
        Seq::empty()
    } else if k == ps.len() - 1 {
        emit_member(ps[k])
    } else {
        emit_member(ps[k]) + seq![','] + emit_members(ps, k + 1)
    }
}

fn hex_digit_char(n: u32) -> (c: char)
    requires
        n < 16,
    ensures
        c == hex_digit(n as int),
{
    if n == 0 { '0' } else if n == 1 { '1' } else if n == 2 { '2' } else if n == 3 { '3' }
    else if n == 4 { '4' } else if n == 5 { '5' } else if n == 6 { '6' } else if n == 7 { '7' }
    else if n == 8 { '8' } else if n == 9 { '9' } else if n == 10 { 'a' } else if n == 11 { 'b' }
    else if n == 12 { 'c' } else if n == 13 { 'd' } else if n == 14 { 'e' } else { 'f' }
}

/// Writes the escaped form of `s` (without the surrounding quotes).
fn emit_escaped(s: &str, out: &mut String)
    ensures
        final(out)@ == old(out)@ + escape_seq(s@),
{
    let cs = chars_of(s);
    let mut i: usize = 0;
    while i < cs.len()
        invariant
            i <= cs.len(),
            cs@ == s@,
            out@ == old(out)@ + escape_seq(cs@.take(i as int)),
        decreases cs.len() - i,
    {
        let c = cs[i];
        if c == '"' {
            push_char(out, '\\');
            push_char(out, '"');
        } else if c == '\\' {
            push_char(out, '\\');
            push_char(out, '\\');
        } else if (c as u32) < 0x20 {
            push_char(out, '\\');
            push_char(out, 'u');
            push_char(out, '0');
            push_char(out, '0');
            push_char(out, hex_digit_char((c as u32) / 16));
            push_char(out, hex_digit_char((c as u32) % 16));
        } else {
            push_char(out, c);
        }
        proof {
            lemma_escape_snoc(cs@.take(i as int), c);
            assert(cs@.take(i as int).push(c) =~= cs@.take(i as int + 1));
            assert(out@ =~= old(out)@ + escape_seq(cs@.take(i as int + 1)));
        }
        i = i + 1;
    }
    proof {
        assert(cs@.take(cs@.len() as int) =~= s@);
    }
}

/// Writes the serialized text of `j` at the end of `out`.
pub fn emit_into(j: &Json, out: &mut String)
    ensures
        final(out)@ == old(out)@ + emit_jv(j@),
    decreases j,
{
    match j {
        Json::Null => {
            out.append("null");
            proof {
                reveal_strlit("null");
                assert("null"@ =~= seq!['n', 'u', 'l', 'l']);
            }
        }
        Json::Bool(b) => {
            if *b {
                out.append("true");
                proof {
                    reveal_strlit("true");
                    assert("true"@ =~= seq!['t', 'r', 'u', 'e']);
                }
            } else {
                out.append("false");
                proof {
                    reveal_strlit("false");
                    assert("false"@ =~= seq!['f', 'a', 'l', 's', 'e']);
                }
            }
        }
        Json::Num(t) => {
            out.append(t.as_str());
        }
        Json::Str(s) => {
            push_char(out, '"');
            emit_escaped(s.as_str(), out);
            push_char(out, '"');
            proof {
                assert(j@ == Jv::Str(s@));
                assert(out@ =~= old(out)@ + emit_jv(j@));
            }
        }
        Json::Arr(es) => {
            push_char(out, '[');
            emit_items_into(es, 0, out);
            push_char(out, ']');
            proof {
                assert(j@ == Jv::Arr(j_views(es@)));
                assert(out@ =~= old(out)@ + emit_jv(j@));
            }
        }
        Json::Obj(ps) => {
            push_char(out, '{');
            emit_members_into(ps, 0, out);
            push_char(out, '}');
            proof {
                assert(j@ == Jv::Obj(m_views(ps@)));
                assert(out@ =~= old(out)@ + emit_jv(j@));
            }
        }
    }
}

fn emit_items_into(es: &Vec<Json>, k: usize, out: &mut String)
    requires
        k <= es@.len(),
    ensures
        final(out)@ == old(out)@ + emit_items(j_views(es@), k as int),
    decreases es, es@.len() - k,
{
    proof {
        assert(j_views(es@).len() == es@.len());
    }
    if k < es.len() {
        emit_into(&es[k], out);
        if k + 1 < es.len() {
            push_char(out, ',');
            emit_items_into(es, k + 1, out);
        }
        proof {
            assert(j_views(es@)[k as int] == json_view(es@[k as int]));
            assert(out@ =~= old(out)@ + emit_items(j_views(es@), k as int));
        }
    } else {
        proof {
            assert(out@ =~= old(out)@ + emit_items(j_views(es@), k as int));
        }
    }
}

fn emit_members_into(ps: &Vec<(String, Json)>, k: usize, out: &mut String)
    requires
        k <= ps@.len(),
    ensures
        final(out)@ == old(out)@ + emit_members(m_views(ps@), k as int),
    decreases ps, ps@.len() - k,
{
    proof {
        assert(m_views(ps@).len() == ps@.len());
    }
    if k < ps.len() {
        let p = &ps[k];
        push_char(out, '"');
        emit_escaped(p.0.as_str(), out);
        push_char(out, '"');
        push_char(out, ':');
        proof {
            assert(out@ =~= old(out)@ + seq!['"'] + escape_seq(ps@[k as int].0@) + seq!['"', ':']);
        }
        emit_into(&p.1, out);
        if k + 1 < ps.len() {
            push_char(out, ',');
            emit_members_into(ps, k + 1, out);
        }
        proof {
            assert(m_views(ps@)[k as int] == (ps@[k as int].0@, json_view(ps@[k as int].1)));
            assert(emit_member(m_views(ps@)[k as int]) == seq!['"'] + escape_seq(ps@[k as int].0@)
                + seq!['"', ':'] + emit_jv(json_view(ps@[k as int].1)));
            assert(out@ =~= old(out)@ + emit_members(m_views(ps@), k as int));
        }
    } else {
        proof {
            assert(out@ =~= old(out)@ + emit_members(m_views(ps@), k as int));
        }
    }
}

/// Serializes a document: compact JSON text.
pub fn to_json_string(j: &Json) -> (r: String)
    ensures
        r@ == emit_jv(j@),
{
    let mut out = String::new();
    emit_into(j, &mut out);
    out
}

/// JSON whitespace.
pub open spec fn is_ws(c: char) -> bool {
    c == ' ' || c == '\t' || c == '\n' || c == '\r'
}

/// First position at or after `i` holding no whitespace.
pub open spec fn skip_ws(s: Seq<char>, i: int) -> int
    decreases s.len() - i,
{
    if 0 <= i < s.len() && is_ws(s[i]) {
        skip_ws(s, i + 1)
    } else {
        i
    }
}

pub proof fn lemma_skip_ws_bounds(s: Seq<char>, i: int)
    requires
        0 <= i <= s.len(),
    ensures
        i <= skip_ws(s, i) <= s.len(),
    decreases s.len() - i,
{
    if i < s.len() && is_ws(s[i]) {
        lemma_skip_ws_bounds(s, i + 1);
    }
}

/// First position at or after `i` holding no number character.
pub open spec fn num_end(s: Seq<char>, i: int) -> int
    decreases s.len() - i,
{
    if 0 <= i < s.len() && is_num_char(s[i]) {
        num_end(s, i + 1)
    } else {
        i
    }
}

pub proof fn lemma_num_end_bounds(s: Seq<char>, i: int)
    requires
        0 <= i <= s.len(),
    ensures
        i <= num_end(s, i) <= s.len(),
        forall|k: int| i <= k < num_end(s, i) ==> is_num_char(#[trigger] s[k]),
        num_end(s, i) < s.len() ==> !is_num_char(s[num_end(s, i)]),
    decreases s.len() - i,
{
    if i < s.len() && is_num_char(s[i]) {
        lemma_num_end_bounds(s, i + 1);
    }
}

/// The character an escape letter stands for; `None` marks a bad escape.
pub open spec fn unescape_simple(c: char) -> Option<char> {
    if c == '"' { Some('"') }
    else if c == '\\' { Some('\\') }
    else if c == '/' { Some('/') }
    else if c == 'n' { Some('\n') }
    else if c == 't' { Some('\t') }
    else if c == 'r' { Some('\r') }
    else if c == 'b' { Some('\u{8}') }
    else if c == 'f' { Some('\u{c}') }
    else { None }
}

/// Reads string content from `i` (just past the opening quote) to the
/// closing quote; yields the unescaped characters and the position just
/// past the closing quote.
pub open spec fn parse_string(s: Seq<char>, i: int) -> Option<(Seq<char>, int)>
    decreases s.len() - i,
{
    if i < 0 || i >= s.len() {
        None
    } else if s[i] == '"' {
        Some((Seq::empty(), i + 1))
    } else if s[i] == '\\' {
        if i + 1 >= s.len() {
            None
        } else if s[i + 1] == 'u' {
            if i + 5 >= s.len() {
                None
            } else if hex_val(s[i + 2]) < 16 && hex_val(s[i + 3]) < 16 && hex_val(s[i + 4]) < 16
                && hex_val(s[i + 5]) < 16 {
                let code = hex_val(s[i + 2]) * 4096 + hex_val(s[i + 3]) * 256 + hex_val(s[i + 4])
                    * 16 + hex_val(s[i + 5]);
                if vstd::utf8::is_scalar(code as u32) {
                    match parse_string(s, i + 6) {
                        Some((rest, j)) => Some((seq![(code as u32) as char] + rest, j)),
                        None => None,
                    }
                } else {
                    None
                }
            } else {
                None
            }
        } else {
            match unescape_simple(s[i + 1]) {
                Some(c) => match parse_string(s, i + 2) {
                    Some((rest, j)) => Some((seq![c] + rest, j)),
                    None => None,
                },
                None => None,
            }
        }
    } else if (s[i] as u32) < 0x20 {
        None
    } else {
        match parse_string(s, i + 1) {
            Some((rest, j)) => Some((seq![s[i]] + rest, j)),
            None => None,
        }
    }
}

pub proof fn lemma_parse_string_bounds(s: Seq<char>, i: int)
    requires
        0 <= i <= s.len(),
    ensures
        parse_string(s, i) matches Some((t, j)) ==> i < j <= s.len(),
    decreases s.len() - i,
{
    if i < s.len() {
        if s[i] == '\\' {
            if i + 1 < s.len() && s[i + 1] == 'u' && i + 5 < s.len() {
                lemma_parse_string_bounds(s, i + 6);
            }
            if i + 1 < s.len() {
                lemma_parse_string_bounds(s, i + 2);
            }
        } else {
            lemma_parse_string_bounds(s, i + 1);
        }
    }
}

/// Reads the value starting exactly at `i`; yields it and the position just
/// past it.
pub open spec fn parse_value(s: Seq<char>, i: int) -> Option<(Jv, int)>
    decreases s.len() - i, 2int,
{
    if i < 0 || i >= s.len() {
        None
    } else if s[i] == 'n' {
        if i + 3 < s.len() && s[i + 1] == 'u' && s[i + 2] == 'l' && s[i + 3] == 'l' {
            Some((Jv::Null, i + 4))
        } else {
            None
        }
    } else if s[i] == 't' {
        if i + 3 < s.len() && s[i + 1] == 'r' && s[i + 2] == 'u' && s[i + 3] == 'e' {
            Some((Jv::Bool(true), i + 4))
        } else {
            None
        }
    } else if s[i] == 'f' {
        if s.len() - i > 4 && s[i + 1] == 'a' && s[i + 2] == 'l' && s[i + 3] == 's' && s[i + 4]
            == 'e' {
            Some((Jv::Bool(false), i + 5))
        } else {
            None
        }
    } else if s[i] == '"' {
        match parse_string(s, i + 1) {
            Some((t, j)) => Some((Jv::Str(t), j)),
            None => None,
        }
    } else if s[i] == '-' || is_digit(s[i]) {
        Some((Jv::Num(s.subrange(i, num_end(s, i))), num_end(s, i)))
    } else if s[i] == '[' {
        let j = skip_ws(s, i + 1);
        if j < i + 1 || j > s.len() {
            None
        } else if j < s.len() && s[j] == ']' {
            Some((Jv::Arr(Seq::empty()), j + 1))
        } else {
            match parse_elems(s, j) {
                Some((es, j2)) => Some((Jv::Arr(es), j2)),
                None => None,
            }
        }
    } else if s[i] == '{' {
        let j = skip_ws(s, i + 1);
        if j < i + 1 || j > s.len() {
            None
        } else if j < s.len() && s[j] == '}' {
            Some((Jv::Obj(Seq::empty()), j + 1))
        } else {
            match parse_membs(s, j) {
                Some((ps, j2)) => Some((Jv::Obj(ps), j2)),
                None => None,
            }
        }
    } else {
        None
    }
}

/// Reads `value (, value)* ]` starting at the first value.
pub open spec fn parse_elems(s: Seq<char>, i: int) -> Option<(Seq<Jv>, int)>
    decreases s.len() - i, 3int,
{
    if i < 0 || i > s.len() {
        None
    } else {
        match parse_value(s, i) {
            None => None,
            Some((v, i2)) => {
                if i2 <= i || i2 > s.len() {
                    None
                } else {
                    let j = skip_ws(s, i2);
                    if j < i2 || j > s.len() {
                        None
                    } else if j < s.len() && s[j] == ',' {
                        let j2 = skip_ws(s, j + 1);
                        if j2 < j + 1 || j2 > s.len() {
                            None
                        } else {
                            match parse_elems(s, j2) {
                                Some((rest, j3)) => Some((seq![v] + rest, j3)),
                                None => None,
                            }
                        }
                    } else if j < s.len() && s[j] == ']' {
                        Some((seq![v], j + 1))
                    } else {
                        None
                    }
                }
            },
        }
    }
}

/// Reads `"key" : value (, member)* }` starting at the first key's quote.
pub open spec fn parse_membs(s: Seq<char>, i: int) -> Option<(Seq<(Seq<char>, Jv)>, int)>
    decreases s.len() - i, 3int,
{
    if i < 0 || i >= s.len() || s[i] != '"' {
        None
    } else {
        match parse_string(s, i + 1) {
            None => None,
            Some((key, i2)) => {
                if i2 <= i + 1 || i2 > s.len() {
                    None
                } else {
                    let j = skip_ws(s, i2);
                    if j < i2 || j > s.len() {
                        None
                    } else if j < s.len() && s[j] == ':' {
                        let j2 = skip_ws(s, j + 1);
                        if j2 < j + 1 || j2 > s.len() {
                            None
                        } else {
                            match parse_value(s, j2) {
                                None => None,
                                Some((v, i3)) => {
                                    if i3 <= j2 || i3 > s.len() {
                                        None
                                    } else {
                                        let jj = skip_ws(s, i3);
                                        if jj < i3 || jj > s.len() {
                                            None
                                        } else if jj < s.len() && s[jj] == ',' {
                                            let jn = skip_ws(s, jj + 1);
                                            if jn < jj + 1 || jn > s.len() {
                                                None
                                            } else {
                                                match parse_membs(s, jn) {
                                                    Some((rest, j3)) => Some(
                                                        (seq![(key, v)] + rest, j3),
                                                    ),
                                                    None => None,
                                                }
                                            }
                                        } else if jj < s.len() && s[jj] == '}' {
                                            Some((seq![(key, v)], jj + 1))
                                        } else {
                                            None
                                        }
                                    }
                                },
                            }
                        }
                    } else {
                        None
                    }
                }
            },
        }
    }
}

/// Reads a whole document: one value, possibly surrounded by whitespace.
pub open spec fn parse_json_spec(s: Seq<char>) -> Option<Jv> {
    let i = skip_ws(s, 0);
    match parse_value(s, i) {
        Some((v, j)) => {
            if 0 <= j <= s.len() && skip_ws(s, j) == s.len() {
                Some(v)
            } else {
                None
            }
        },
        None => None,
    }
}


fn skip_ws_x(s: &Vec<char>, i: usize) -> (r: usize)
    requires
        i <= s@.len(),
    ensures
        r as int == skip_ws(s@, i as int),
        i <= r <= s@.len(),
{
    let mut cur: usize = i;
    while cur < s.len() && (s[cur] == ' ' || s[cur] == '\t' || s[cur] == '\n' || s[cur] == '\r')
        invariant
            i <= cur <= s@.len(),
            skip_ws(s@, i as int) == skip_ws(s@, cur as int),
        decreases s@.len() - cur,
    {
        cur = cur + 1;
    }
    cur
}

fn num_end_x(s: &Vec<char>, i: usize) -> (r: usize)
    requires
        i <= s@.len(),
    ensures
        r as int == num_end(s@, i as int),
        i <= r <= s@.len(),
{
    let mut cur: usize = i;
    while cur < s.len() && (('0' <= s[cur] && s[cur] <= '9') || s[cur] == '-' || s[cur] == '+'
        || s[cur] == '.' || s[cur] == 'e' || s[cur] == 'E')
        invariant
            i <= cur <= s@.len(),
            num_end(s@, i as int) == num_end(s@, cur as int),
        decreases s@.len() - cur,
    {
        cur = cur + 1;
    }
    cur
}

fn hex_val_char(c: char) -> (r: u32)
    ensures
        r as int == hex_val(c),
{
    if c == '0' { 0 } else if c == '1' { 1 } else if c == '2' { 2 } else if c == '3' { 3 }
    else if c == '4' { 4 } else if c == '5' { 5 } else if c == '6' { 6 } else if c == '7' { 7 }
    else if c == '8' { 8 } else if c == '9' { 9 }
    else if c == 'a' || c == 'A' { 10 } else if c == 'b' || c == 'B' { 11 }
    else if c == 'c' || c == 'C' { 12 } else if c == 'd' || c == 'D' { 13 }
    else if c == 'e' || c == 'E' { 14 } else if c == 'f' || c == 'F' { 15 }
    else { 16 }
}

fn unescape_simple_x(c: char) -> (r: Option<char>)
    ensures
        r == unescape_simple(c),
{
    if c == '"' { Some('"') }
    else if c == '\\' { Some('\\') }
    else if c == '/' { Some('/') }
    else if c == 'n' { Some('\n') }
    else if c == 't' { Some('\t') }
    else if c == 'r' { Some('\r') }
    else if c == 'b' { Some('\u{8}') }
    else if c == 'f' { Some('\u{c}') }
    else { None }
}

fn parse_string_x(s: &Vec<char>, i: usize) -> (r: Option<(String, usize)>)
    requires
        i <= s@.len(),
    ensures
        r matches Some(p) ==> parse_string(s@, i as int) == Some((p.0@, p.1 as int)) && i < p.1
            <= s@.len(),
        r is None ==> parse_string(s@, i as int) is None,
{
    let mut acc: Vec<char> = Vec::new();
    let mut cur: usize = i;
    loop
        invariant
            i <= cur <= s@.len(),
            (match parse_string(s@, cur as int) {
                Some((t, j)) => parse_string(s@, i as int) == Some((acc@ + t, j)) && cur < j
                    <= s@.len(),
                None => parse_string(s@, i as int) is None,
            }) || (parse_string(s@, cur as int) matches Some((t, j)) && parse_string(
                s@,
                i as int,
            ) == Some((acc@ + t, j))),
        decreases s@.len() - cur,
    {
        proof {
            if parse_string(s@, cur as int) is Some {
                lemma_parse_string_bounds(s@, cur as int);
            }
        }
        if cur >= s.len() {
            return None;
        }
        let c = s[cur];
        if c == '"' {
            let out = crate::strutil::chars_to_string(&acc);
            proof {
                assert(acc@ + Seq::<char>::empty() =~= acc@);
            }
            return Some((out, cur + 1));
        } else if c == '\\' {
            if cur + 1 >= s.len() {
                return None;
            }
            let e = s[cur + 1];
            if e == 'u' {
                if s.len() - cur <= 5 {
                    return None;
                }
                let h2 = hex_val_char(s[cur + 2]);
                let h3 = hex_val_char(s[cur + 3]);
                let h4 = hex_val_char(s[cur + 4]);
                let h5 = hex_val_char(s[cur + 5]);
                if h2 >= 16 || h3 >= 16 || h4 >= 16 || h5 >= 16 {
                    return None;
                }
                let code: u32 = h2 * 4096 + h3 * 256 + h4 * 16 + h5;
                match crate::strutil::char_from_u32(code) {
                    None => {
                        return None;
                    },
                    Some(ch) => {
                        proof {
                            vstd::utf8::char_u32_cast(ch, code);
                            assert((code as char) == ch);
                        }
                        let ghost prev = acc@;
                        acc.push(ch);
                        proof {
                            match parse_string(s@, cur as int + 6) {
                                Some(pp) => {
                                    assert(prev + (seq![ch] + pp.0) =~= acc@ + pp.0);
                                },
                                None => {},
                            }
                        }
                        cur = cur + 6;
                    },
                }
            } else {
                match unescape_simple_x(e) {
                    None => {
                        return None;
                    },
                    Some(ch) => {
                        let ghost prev = acc@;
                        acc.push(ch);
                        proof {
                            match parse_string(s@, cur as int + 2) {
                                Some(pp) => {
                                    assert(prev + (seq![ch] + pp.0) =~= acc@ + pp.0);
                                },
                                None => {},
                            }
                        }
                        cur = cur + 2;
                    },
                }
            }
        } else if (c as u32) < 0x20 {
            return None;
        } else {
            let ghost prev = acc@;
            acc.push(c);
            proof {
                match parse_string(s@, cur as int + 1) {
                    Some(pp) => {
                        assert(prev + (seq![c] + pp.0) =~= acc@ + pp.0);
                    },
                    None => {},
                }
            }
            cur = cur + 1;
        }
    }
}

pub proof fn lemma_j_views_push(es: Seq<Json>, v: Json)
    ensures
        j_views(es.push(v)) == j_views(es) + seq![json_view(v)],
{
    assert(j_views(es.push(v)) =~= j_views(es) + seq![json_view(v)]);
}

pub proof fn lemma_m_views_push(ps: Seq<(String, Json)>, k: String, v: Json)
    ensures
        m_views(ps.push((k, v))) == m_views(ps) + seq![(k@, json_view(v))],
{
    assert(m_views(ps.push((k, v))) =~= m_views(ps) + seq![(k@, json_view(v))]);
}

fn parse_value_x(s: &Vec<char>, i: usize) -> (r: Option<(Json, usize)>)
    requires
        i <= s@.len(),
    ensures
        r matches Some(p) ==> parse_value(s@, i as int) == Some((p.0@, p.1 as int)) && i < p.1
            <= s@.len(),
        r is None ==> parse_value(s@, i as int) is None,
    decreases s@.len() - i,
{
    if i >= s.len() {
        return None;
    }
    let c = s[i];
    if c == 'n' {
        if s.len() - i > 3 && s[i + 1] == 'u' && s[i + 2] == 'l' && s[i + 3] == 'l' {
            Some((Json::Null, i + 4))
        } else {
            None
        }
    } else if c == 't' {
        if s.len() - i > 3 && s[i + 1] == 'r' && s[i + 2] == 'u' && s[i + 3] == 'e' {
            Some((Json::Bool(true), i + 4))
        } else {
            None
        }
    } else if c == 'f' {
        if s.len() - i > 4 && s[i + 1] == 'a' && s[i + 2] == 'l' && s[i + 3] == 's' && s[i + 4]
            == 'e' {
            Some((Json::Bool(false), i + 5))
        } else {
            None
        }
    } else if c == '"' {
        match parse_string_x(s, i + 1) {
            Some((t, j)) => Some((Json::Str(t), j)),
            None => None,
        }
    } else if c == '-' || ('0' <= c && c <= '9') {
        let e = num_end_x(s, i);
        let mut tok: Vec<char> = Vec::new();
        let mut k: usize = i;
        while k < e
            invariant
                i <= k <= e <= s@.len(),
                tok@ == s@.subrange(i as int, k as int),
            decreases e - k,
        {
            tok.push(s[k]);
            proof {
                assert(s@.subrange(i as int, k as int + 1) =~= s@.subrange(i as int, k as int)
                    + seq![s@[k as int]]);
            }
            k = k + 1;
        }
        let t = crate::strutil::chars_to_string(&tok);
        proof {
            assert(e as int == num_end(s@, i as int));
            lemma_num_end_bounds(s@, i as int);
            assert(i < e) by {
                assert(is_num_char(s@[i as int]));
                assert(num_end(s@, i as int) == num_end(s@, i as int + 1) || !is_num_char(
                    s@[i as int],
                ));
            }
        }
        Some((Json::Num(t), e))
    } else if c == '[' {
        let j0 = skip_ws_x(s, i + 1);
        if j0 < s.len() && s[j0] == ']' {
            let es: Vec<Json> = Vec::new();
            proof {
                assert(j_views(es@) =~= Seq::<Jv>::empty());
            }
            return Some((Json::Arr(es), j0 + 1));
        }
        let mut es: Vec<Json> = Vec::new();
        let mut cur: usize = j0;
        proof {
            assert(j_views(es@) =~= Seq::<Jv>::empty());
            match parse_elems(s@, cur as int) {
                Some(pp) => {
                    assert(j_views(es@) + pp.0 =~= pp.0);
                },
                None => {},
            }
        }
        loop
            invariant
                i < j0 <= cur <= s@.len(),
                j0 as int == skip_ws(s@, i as int + 1),
                s@[i as int] == '[',
                i < s@.len(),
                !(j0 < s@.len() && s@[j0 as int] == ']'),
                (match parse_elems(s@, cur as int) {
                    Some((vs, j2)) => parse_elems(s@, j0 as int) == Some((j_views(es@) + vs, j2)),
                    None => parse_elems(s@, j0 as int) is None,
                }),
            decreases s@.len() - cur,
        {
            match parse_value_x(s, cur) {
                None => {
                    return None;
                },
                Some((v, n)) => {
                    let ghost prev = es@;
                    es.push(v);
                    let j = skip_ws_x(s, n);
                    if j < s.len() && s[j] == ',' {
                        let j2 = skip_ws_x(s, j + 1);
                        proof {
                            lemma_j_views_push(prev, v);
                            match parse_elems(s@, j2 as int) {
                                Some(pp) => {
                                    assert(j_views(prev) + (seq![v@] + pp.0) =~= j_views(es@)
                                        + pp.0);
                                },
                                None => {},
                            }
                        }
                        cur = j2;
                    } else if j < s.len() && s[j] == ']' {
                        proof {
                            assert(parse_elems(s@, cur as int) == Some(
                                (seq![v@], j as int + 1),
                            ));
                            lemma_j_views_push(prev, v);
                            assert(j_views(prev) + seq![v@] =~= j_views(es@));
                        }
                        return Some((Json::Arr(es), j + 1));
                    } else {
                        return None;
                    }
                },
            }
        }
    } else if c == '{' {
        let j0 = skip_ws_x(s, i + 1);
        if j0 < s.len() && s[j0] == '}' {
            let ps: Vec<(String, Json)> = Vec::new();
            proof {
                assert(m_views(ps@) =~= Seq::<(Seq<char>, Jv)>::empty());
            }
            return Some((Json::Obj(ps), j0 + 1));
        }
        let mut ps: Vec<(String, Json)> = Vec::new();
        let mut cur: usize = j0;
        proof {
            assert(m_views(ps@) =~= Seq::<(Seq<char>, Jv)>::empty());
            match parse_membs(s@, cur as int) {
                Some(pp) => {
                    assert(m_views(ps@) + pp.0 =~= pp.0);
                },
                None => {},
            }
        }
        loop
            invariant
                i < j0 <= cur <= s@.len(),
                j0 as int == skip_ws(s@, i as int + 1),
                s@[i as int] == '{',
                i < s@.len(),
                !(j0 < s@.len() && s@[j0 as int] == '}'),
                (match parse_membs(s@, cur as int) {
                    Some((vs, j2)) => parse_membs(s@, j0 as int) == Some((m_views(ps@) + vs, j2)),
                    None => parse_membs(s@, j0 as int) is None,
                }),
            decreases s@.len() - cur,
        {
            if cur >= s.len() || s[cur] != '"' {
                return None;
            }
            match parse_string_x(s, cur + 1) {
                None => {
                    return None;
                },
                Some((key, i2)) => {
                    let j = skip_ws_x(s, i2);
                    if !(j < s.len() && s[j] == ':') {
                        return None;
                    }
                    let j2 = skip_ws_x(s, j + 1);
                    match parse_value_x(s, j2) {
                        None => {
                            return None;
                        },
                        Some((v, i3)) => {
                            let jj = skip_ws_x(s, i3);
                            let ghost prev = ps@;
                            let ghost keyv = key@;
                            let ghost vv = v@;
                            ps.push((key, v));
                            if jj < s.len() && s[jj] == ',' {
                                let jn = skip_ws_x(s, jj + 1);
                                proof {
                                    lemma_m_views_push(prev, ps@[prev.len() as int].0,
                                        ps@[prev.len() as int].1);
                                    match parse_membs(s@, jn as int) {
                                        Some(pp) => {
                                            assert(m_views(prev) + (seq![(keyv, vv)] + pp.0)
                                                =~= m_views(ps@) + pp.0);
                                        },
                                        None => {},
                                    }
                                }
                                cur = jn;
                            } else if jj < s.len() && s[jj] == '}' {
                                proof {
                                    assert(parse_membs(s@, cur as int) == Some(
                                        (seq![(keyv, vv)], jj as int + 1),
                                    ));
                                    lemma_m_views_push(prev, ps@[prev.len() as int].0,
                                        ps@[prev.len() as int].1);
                                    assert(m_views(prev) + seq![(keyv, vv)] =~= m_views(ps@));
                                }
                                return Some((Json::Obj(ps), jj + 1));
                            } else {
                                return None;
                            }
                        },
                    }
                },
            }
        }
    } else {
        None
    }
}

/// Parses a JSON document: one value, possibly surrounded by whitespace.
pub fn parse_json(s: &str) -> (r: Option<Json>)
    ensures
        r matches Some(j) ==> parse_json_spec(s@) == Some(j@),
        r is None ==> parse_json_spec(s@) is None,
{
    let cs = chars_of(s);
    let i = skip_ws_x(&cs, 0);
    match parse_value_x(&cs, i) {
        None => None,
        Some((j, n)) => {
            let e = skip_ws_x(&cs, n);
            if e == cs.len() {
                Some(j)
            } else {
                None
            }
        },
    }
}


/// Decimal spelling of a number.
pub open spec fn dec_chars(n: nat) -> Seq<char>
    decreases n,
{
    if n < 10 {
        seq![hex_digit(n as int)]
    } else {
        dec_chars(n / 10) + seq![hex_digit((n % 10) as int)]
    }
}

/// Prints a number in decimal.
pub fn u64_to_string(n: u64) -> (r: String)
    ensures
        r@ == dec_chars(n as nat),
    decreases n,
{
    if n < 10 {
        let mut r = String::new();
        push_char(&mut r, hex_digit_char(n as u32));
        proof {
            assert(r@ =~= dec_chars(n as nat));
        }
        r
    } else {
        let mut r = u64_to_string(n / 10);
        push_char(&mut r, hex_digit_char((n % 10) as u32));
        proof {
            assert(r@ =~= dec_chars(n as nat));
        }
        r
    }
}

/// A decimal spelling is a plausible number token.
pub proof fn lemma_dec_chars_is_num_token(n: nat)
    ensures
        is_num_token(dec_chars(n)),
    decreases n,
{
    if n < 10 {
        assert(is_digit(hex_digit(n as int)));
        assert(dec_chars(n)[0] == hex_digit(n as int));
    } else {
        lemma_dec_chars_is_num_token(n / 10);
        assert(is_digit(hex_digit((n % 10) as int)));
        assert(dec_chars(n)[0] == dec_chars(n / 10)[0]);
        assert(forall|i: int| 0 <= i < dec_chars(n).len() ==> is_num_char(
            #[trigger] dec_chars(n)[i],
        )) by {
            assert(forall|i: int| 0 <= i < dec_chars(n / 10).len() ==> dec_chars(n)[i]
                == #[trigger] dec_chars(n / 10)[i]);
            assert(dec_chars(n).last() == hex_digit((n % 10) as int));
        }
    }
}


/// A character that may follow a serialized value inside a document.
pub open spec fn is_delim(c: char) -> bool {
    c == ',' || c == ']' || c == '}'
}

/// A character a serialized value can start with.
pub open spec fn is_value_start(c: char) -> bool {
    c == 'n' || c == 't' || c == 'f' || c == '"' || c == '-' || is_digit(c) || c == '['
        || c == '{'
}

pub proof fn lemma_hex_roundtrip(n: int)
    requires
        0 <= n < 16,
    ensures
        hex_val(hex_digit(n)) == n,
{
}

/// A serialized well-formed value is never empty and starts with a value
/// character, which is neither whitespace, a delimiter, nor a colon.
pub proof fn lemma_emit_first(v: Jv)
    requires
        wf_jv(v),
    ensures
        emit_jv(v).len() > 0,
        is_value_start(emit_jv(v)[0]),
        !is_ws(emit_jv(v)[0]),
        !is_delim(emit_jv(v)[0]),
        emit_jv(v)[0] != ':',
{
    match v {
        Jv::Null => {
            assert(emit_jv(v)[0] == 'n');
        },
        Jv::Bool(b) => {
            if b {
                assert(emit_jv(v)[0] == 't');
            } else {
                assert(emit_jv(v)[0] == 'f');
            }
        },
        Jv::Num(t) => {
            assert(emit_jv(v)[0] == t[0]);
        },
        Jv::Str(st) => {
            assert(emit_jv(v)[0] == '"');
        },
        Jv::Arr(es) => {
            assert(emit_jv(v)[0] == '[');
        },
        Jv::Obj(ps) => {
            assert(emit_jv(v)[0] == '{');
        },
    }
}

pub proof fn lemma_num_end_exact(s: Seq<char>, i: int, j: int)
    requires
        0 <= i <= j <= s.len(),
        forall|k: int| i <= k < j ==> is_num_char(#[trigger] s[k]),
        j == s.len() || !is_num_char(s[j]),
    ensures
        num_end(s, i) == j,
    decreases j - i,
{
    if i < j {
        lemma_num_end_exact(s, i + 1, j);
    }
}

/// Both pieces of a decomposed window are windows themselves.
pub proof fn lemma_subrange_split(s: Seq<char>, i: int, a: Seq<char>, b: Seq<char>)
    requires
        0 <= i,
        i + a.len() + b.len() <= s.len(),
        s.subrange(i, i + a.len() + b.len()) == a + b,
    ensures
        s.subrange(i, i + a.len()) == a,
        s.subrange(i + a.len(), i + a.len() + b.len()) == b,
{
    let n = a.len() as int;
    let m = b.len() as int;
    assert forall|k: int| 0 <= k < n implies s.subrange(i, i + n)[k] == a[k] by {
        assert(s.subrange(i, i + n)[k] == s[i + k]);
        assert(s.subrange(i, i + n + m)[k] == s[i + k]);
        assert((a + b)[k] == a[k]);
    }
    assert(s.subrange(i, i + n) =~= a);
    assert forall|k: int| 0 <= k < m implies s.subrange(i + n, i + n + m)[k] == b[k] by {
        assert(s.subrange(i + n, i + n + m)[k] == s[i + n + k]);
        assert(s.subrange(i, i + n + m)[n + k] == s[i + (n + k)]);
        assert((a + b)[n + k] == b[k]);
    }
    assert(s.subrange(i + n, i + n + m) =~= b);
}

/// A character of a window is the corresponding character of the text.
pub proof fn lemma_subrange_char(s: Seq<char>, a: int, b: int, k: int)
    requires
        0 <= a <= b <= s.len(),
        0 <= k < b - a,
    ensures
        s[a + k] == s.subrange(a, b)[k],
{
}

/// Reading escaped string content back yields the original characters.
pub proof fn lemma_parse_escaped(s: Seq<char>, i: int, st: Seq<char>)
    requires
        0 <= i,
        i + escape_seq(st).len() < s.len(),
        s.subrange(i, i + escape_seq(st).len()) == escape_seq(st),
        s[i + escape_seq(st).len()] == '"',
    ensures
        parse_string(s, i) == Some((st, i + escape_seq(st).len() + 1)),
    decreases st.len(),
{
    let esc = escape_seq(st);
    if st.len() == 0 {
        assert(esc =~= Seq::<char>::empty());
        assert(s[i] == '"');
    } else {
        let c = st[0];
        let ec = escape_char(c);
        let rest = st.drop_first();
        let resc = escape_seq(rest);
        assert(esc == ec + resc);
        lemma_subrange_split(s, i, ec, resc);
        let i2 = i + ec.len() as int;
        assert(s[i2 + resc.len()] == '"');
        lemma_parse_escaped(s, i2, rest);
        if c == '"' {
            lemma_subrange_char(s, i, i2, 0);
            lemma_subrange_char(s, i, i2, 1);
            assert(s[i] == '\\' && s[i + 1] == '"');
            assert(unescape_simple(s[i + 1]) == Some('"'));
            assert(seq![c] + rest =~= st);
        } else if c == '\\' {
            lemma_subrange_char(s, i, i2, 0);
            lemma_subrange_char(s, i, i2, 1);
            assert(s[i] == '\\' && s[i + 1] == '\\');
            assert(unescape_simple(s[i + 1]) == Some('\\'));
            assert(seq![c] + rest =~= st);
        } else if (c as u32) < 0x20 {
            lemma_subrange_char(s, i, i2, 0);
            lemma_subrange_char(s, i, i2, 1);
            lemma_subrange_char(s, i, i2, 2);
            lemma_subrange_char(s, i, i2, 3);
            lemma_subrange_char(s, i, i2, 4);
            lemma_subrange_char(s, i, i2, 5);
            assert(s[i] == '\\' && s[i + 1] == 'u' && s[i + 2] == '0' && s[i + 3] == '0');
            assert(s[i + 4] == hex_digit((c as u32) as int / 16));
            assert(s[i + 5] == hex_digit((c as u32) as int % 16));
            lemma_hex_roundtrip((c as u32) as int / 16);
            lemma_hex_roundtrip((c as u32) as int % 16);
            let code = hex_val(s[i + 2]) * 4096 + hex_val(s[i + 3]) * 256 + hex_val(s[i + 4])
                * 16 + hex_val(s[i + 5]);
            assert(code == (c as u32) as int);
            vstd::utf8::char_is_scalar(c);
            assert(vstd::utf8::is_scalar(code as u32));
            vstd::utf8::char_u32_cast(c, code as u32);
            assert((code as u32) as char == c);
            assert(seq![c] + rest =~= st);
        } else {
            lemma_subrange_char(s, i, i2, 0);
            assert(s[i] == c);
            assert(seq![c] + rest =~= st);
        }
    }
}

/// The serialized elements from `k` on start with the first element's
/// serialization.
pub proof fn lemma_emit_items_first(es: Seq<Jv>, k: int)
    requires
        0 <= k < es.len(),
    ensures
        emit_items(es, k).len() >= emit_jv(es[k]).len(),
        forall|q: int| 0 <= q < emit_jv(es[k]).len() ==> #[trigger] emit_items(es, k)[q]
            == emit_jv(es[k])[q],
{
}

/// The serialized members from `k` on start with a quote.
pub proof fn lemma_emit_members_first(ps: Seq<(Seq<char>, Jv)>, k: int)
    requires
        0 <= k < ps.len(),
    ensures
        emit_members(ps, k).len() > 0,
        emit_members(ps, k)[0] == '"',
{
    assert(emit_member(ps[k])[0] == '"');
}

/// Reading a serialized well-formed value back, from its own position,
/// yields exactly that value.
pub proof fn lemma_parse_emit_value(s: Seq<char>, i: int, v: Jv)
    requires
        wf_jv(v),
        0 <= i,
        i + emit_jv(v).len() <= s.len(),
        s.subrange(i, i + emit_jv(v).len()) == emit_jv(v),
        i + emit_jv(v).len() == s.len() || is_delim(s[i + emit_jv(v).len()]),
    ensures
        parse_value(s, i) == Some((v, i + emit_jv(v).len())),
    decreases v,
{
    let e = emit_jv(v);
    let n = e.len() as int;
    lemma_emit_first(v);
    match v {
        Jv::Null => {
            lemma_subrange_char(s, i, i + n, 0);
            lemma_subrange_char(s, i, i + n, 1);
            lemma_subrange_char(s, i, i + n, 2);
            lemma_subrange_char(s, i, i + n, 3);
            assert(s[i] == 'n' && s[i + 1] == 'u' && s[i + 2] == 'l' && s[i + 3] == 'l');
        },
        Jv::Bool(b) => {
            lemma_subrange_char(s, i, i + n, 0);
            lemma_subrange_char(s, i, i + n, 1);
            lemma_subrange_char(s, i, i + n, 2);
            lemma_subrange_char(s, i, i + n, 3);
            if !b {
                lemma_subrange_char(s, i, i + n, 4);
            }
        },
        Jv::Num(t) => {
            assert forall|k: int| i <= k < i + n implies is_num_char(#[trigger] s[k]) by {
                lemma_subrange_char(s, i, i + n, k - i);
                assert(s[k] == t[k - i]);
            }
            lemma_subrange_char(s, i, i + n, 0);
            assert(s[i] == t[0]);
            assert(i + n == s.len() || !is_num_char(s[i + n]));
            lemma_num_end_exact(s, i, i + n);
        },
        Jv::Str(st) => {
            let esc = escape_seq(st);
            assert(e =~= seq!['"'] + (esc + seq!['"']));
            lemma_subrange_split(s, i, seq!['"'], esc + seq!['"']);
            lemma_subrange_split(s, i + 1, esc, seq!['"']);
            lemma_subrange_char(s, i, i + 1, 0);
            assert(s[i] == '"');
            lemma_subrange_char(s, i + 1 + esc.len(), i + n, 0);
            assert(s[i + 1 + esc.len()] == '"');
            lemma_parse_escaped(s, i + 1, st);
        },
        Jv::Arr(es) => {
            if es.len() == 0 {
                assert(emit_items(es, 0) == Seq::<char>::empty());
                assert(e =~= seq!['['] + (Seq::<char>::empty() + seq![']']));
                lemma_subrange_split(s, i, seq!['['], Seq::<char>::empty() + seq![']']);
                lemma_subrange_char(s, i, i + 1, 0);
                lemma_subrange_char(s, i + 1, i + 2, 0);
                assert((Seq::<char>::empty() + seq![']'])[0] == ']');
                assert(s[i] == '[' && s[i + 1] == ']');
                assert(skip_ws(s, i + 1) == i + 1);
                assert(es =~= Seq::<Jv>::empty());
                assert(v == Jv::Arr(Seq::<Jv>::empty()));
            } else {
                let items = emit_items(es, 0);
                assert(e =~= seq!['['] + (items + seq![']']));
                lemma_subrange_split(s, i, seq!['['], items + seq![']']);
                lemma_subrange_split(s, i + 1, items, seq![']']);
                lemma_subrange_char(s, i, i + 1, 0);
                assert(s[i] == '[');
                lemma_subrange_char(s, i + 1 + items.len(), i + n, 0);
                assert(s[i + 1 + items.len()] == ']');
                lemma_emit_first(es[0]);
                lemma_emit_items_first(es, 0);
                lemma_subrange_char(s, i + 1, i + 1 + items.len(), 0);
                assert(s[i + 1] == items[0] && items[0] == emit_jv(es[0])[0]);
                assert(!is_ws(s[i + 1]) && s[i + 1] != ']');
                assert(skip_ws(s, i + 1) == i + 1);
                lemma_parse_emit_items(s, i + 1, es, 0);
                assert(es.subrange(0, es.len() as int) =~= es);
            }
        },
        Jv::Obj(ps) => {
            if ps.len() == 0 {
                assert(emit_members(ps, 0) == Seq::<char>::empty());
                assert(e =~= seq!['{'] + (Seq::<char>::empty() + seq!['}']));
                lemma_subrange_split(s, i, seq!['{'], Seq::<char>::empty() + seq!['}']);
                lemma_subrange_char(s, i, i + 1, 0);
                lemma_subrange_char(s, i + 1, i + 2, 0);
                assert((Seq::<char>::empty() + seq!['}'])[0] == '}');
                assert(s[i] == '{' && s[i + 1] == '}');
                assert(skip_ws(s, i + 1) == i + 1);
                assert(ps =~= Seq::<(Seq<char>, Jv)>::empty());
                assert(v == Jv::Obj(Seq::<(Seq<char>, Jv)>::empty()));
            } else {
                let membs = emit_members(ps, 0);
                assert(e =~= seq!['{'] + (membs + seq!['}']));
                lemma_subrange_split(s, i, seq!['{'], membs + seq!['}']);
                lemma_subrange_split(s, i + 1, membs, seq!['}']);
                lemma_subrange_char(s, i, i + 1, 0);
                assert(s[i] == '{');
                lemma_subrange_char(s, i + 1 + membs.len(), i + n, 0);
                assert(s[i + 1 + membs.len()] == '}');
                lemma_emit_members_first(ps, 0);
                lemma_subrange_char(s, i + 1, i + 1 + membs.len(), 0);
                assert(s[i + 1] == membs[0] && membs[0] == '"');
                assert(!is_ws(s[i + 1]) && s[i + 1] != '}');
                assert(skip_ws(s, i + 1) == i + 1);
                lemma_parse_emit_membs(s, i + 1, ps, 0);
                assert(ps.subrange(0, ps.len() as int) =~= ps);
            }
        },
    }
}

/// Reading serialized elements back, up to the closing bracket, yields
/// exactly the remaining elements.
pub proof fn lemma_parse_emit_items(s: Seq<char>, i: int, es: Seq<Jv>, k: int)
    requires
        0 <= k < es.len(),
        forall|q: int| 0 <= q < es.len() ==> wf_jv(#[trigger] es[q]),
        0 <= i,
        i + emit_items(es, k).len() < s.len(),
        s.subrange(i, i + emit_items(es, k).len()) == emit_items(es, k),
        s[i + emit_items(es, k).len()] == ']',
    ensures
        parse_elems(s, i) == Some((es.subrange(k, es.len() as int), i + emit_items(es, k).len()
            + 1)),
    decreases es, es.len() - k,
{
    let items = emit_items(es, k);
    let ev = emit_jv(es[k]);
    lemma_emit_first(es[k]);
    if k == es.len() - 1 {
        assert(items == ev);
        lemma_parse_emit_value(s, i, es[k]);
        let i2 = i + ev.len() as int;
        assert(!is_ws(s[i2]));
        assert(skip_ws(s, i2) == i2);
        assert(parse_elems(s, i) == Some((seq![es[k]], i2 + 1)));
        assert(es.subrange(k, es.len() as int) =~= seq![es[k]]);
    } else {
        let rest = emit_items(es, k + 1);
        assert(items == ev + seq![','] + rest);
        assert(items =~= ev + (seq![','] + rest));
        lemma_subrange_split(s, i, ev, seq![','] + rest);
        let i2 = i + ev.len() as int;
        lemma_subrange_split(s, i2, seq![','], rest);
        lemma_subrange_char(s, i2, i2 + 1, 0);
        assert(s[i2] == ',');
        lemma_parse_emit_value(s, i, es[k]);
        assert(!is_ws(s[i2]));
        assert(skip_ws(s, i2) == i2);
        let i3 = i2 + 1;
        assert(s[i3 + rest.len()] == ']');
        lemma_emit_first(es[k + 1]);
        lemma_emit_items_first(es, k + 1);
        lemma_subrange_char(s, i3, i3 + rest.len(), 0);
        assert(s[i3] == rest[0] && rest[0] == emit_jv(es[k + 1])[0]);
        assert(!is_ws(s[i3]));
        assert(skip_ws(s, i3) == i3);
        lemma_parse_emit_items(s, i3, es, k + 1);
        assert(seq![es[k]] + es.subrange(k + 1, es.len() as int) =~= es.subrange(
            k,
            es.len() as int,
        ));
    }
}

/// Reading serialized members back, up to the closing brace, yields
/// exactly the remaining members.
pub proof fn lemma_parse_emit_membs(s: Seq<char>, i: int, ps: Seq<(Seq<char>, Jv)>, k: int)
    requires
        0 <= k < ps.len(),
        forall|q: int| 0 <= q < ps.len() ==> wf_jv(#[trigger] ps[q].1),
        0 <= i,
        i + emit_members(ps, k).len() < s.len(),
        s.subrange(i, i + emit_members(ps, k).len()) == emit_members(ps, k),
        s[i + emit_members(ps, k).len()] == '}',
    ensures
        parse_membs(s, i) == Some((ps.subrange(k, ps.len() as int), i + emit_members(
            ps,
            k,
        ).len() + 1)),
    decreases ps, ps.len() - k,
{
    let membs = emit_members(ps, k);
    let em = emit_member(ps[k]);
    let key = ps[k].0;
    let esc = escape_seq(key);
    let vv = ps[k].1;
    let ev = emit_jv(vv);
    assert(em == seq!['"'] + esc + seq!['"', ':'] + ev);
    if k == ps.len() - 1 {
        assert(membs == em);
    } else {
        assert(membs =~= em + (seq![','] + emit_members(ps, k + 1)));
        lemma_subrange_split(s, i, em, seq![','] + emit_members(ps, k + 1));
    }
    assert(s.subrange(i, i + em.len()) == em);
    assert(em =~= seq!['"'] + (esc + (seq!['"', ':'] + ev)));
    lemma_subrange_split(s, i, seq!['"'], esc + (seq!['"', ':'] + ev));
    lemma_subrange_split(s, i + 1, esc, seq!['"', ':'] + ev);
    let ie = i + 1 + esc.len() as int;
    lemma_subrange_split(s, ie, seq!['"', ':'], ev);
    lemma_subrange_char(s, i, i + 1, 0);
    assert(s[i] == '"');
    lemma_subrange_char(s, ie, ie + 2, 0);
    lemma_subrange_char(s, ie, ie + 2, 1);
    assert(s[ie] == '"' && s[ie + 1] == ':');
    lemma_parse_escaped(s, i + 1, key);
    let i2 = ie + 1;
    assert(parse_string(s, i + 1) == Some((key, i2)));
    assert(!is_ws(s[i2]));
    assert(skip_ws(s, i2) == i2);
    let i3 = i2 + 1;
    lemma_emit_first(vv);
    lemma_subrange_char(s, i3, i3 + ev.len(), 0);
    assert(s[i3] == ev[0]);
    assert(!is_ws(s[i3]));
    assert(skip_ws(s, i3) == i3);
    let i4 = i3 + ev.len() as int;
    if k == ps.len() - 1 {
        assert(s[i4] == '}');
        lemma_parse_emit_value(s, i3, vv);
        assert(!is_ws(s[i4]));
        assert(skip_ws(s, i4) == i4);
        assert(parse_membs(s, i) == Some((seq![(key, vv)], i4 + 1)));
        assert((key, vv) == ps[k]);
        assert(ps.subrange(k, ps.len() as int) =~= seq![(key, vv)]);
    } else {
        let rest = emit_members(ps, k + 1);
        let i5 = i4 + 1;
        lemma_subrange_split(s, i4, seq![','], rest);
        lemma_subrange_char(s, i4, i4 + 1, 0);
        assert(s[i4] == ',');
        lemma_parse_emit_value(s, i3, vv);
        assert(!is_ws(s[i4]));
        assert(skip_ws(s, i4) == i4);
        assert(s[i5 + rest.len()] == '}');
        lemma_emit_members_first(ps, k + 1);
        lemma_subrange_char(s, i5, i5 + rest.len(), 0);
        assert(s[i5] == rest[0] && rest[0] == '"');
        assert(!is_ws(s[i5]));
        assert(skip_ws(s, i5) == i5);
        lemma_parse_emit_membs(s, i5, ps, k + 1);
        assert((key, vv) == ps[k]);
        assert(seq![(key, vv)] + ps.subrange(k + 1, ps.len() as int) =~= ps.subrange(
            k,
            ps.len() as int,
        ));
    }
}

/// Round trip: parsing the serialized text of any well-formed document
/// yields that document again, so re-serializing it yields the same text.
pub proof fn lemma_parse_emit(v: Jv)
    requires
        wf_jv(v),
    ensures
        parse_json_spec(emit_jv(v)) == Some(v),
{
    let s = emit_jv(v);
    lemma_emit_first(v);
    assert(skip_ws(s, 0) == 0);
    assert(s.subrange(0, s.len() as int) =~= s);
    lemma_parse_emit_value(s, 0, v);
    assert(skip_ws(s, s.len() as int) == s.len());
}

} // verus!