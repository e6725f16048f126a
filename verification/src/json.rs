//! The JSON wire format: a value model, a serializer and a parser.
//!
//! Parameter maps, query expressions and response bodies all travel as JSON
//! text. The model keeps numbers as 64-bit signed integers: fractional or
//! out-of-range numbers are not representable and make a parse fail.

use crate::text::{char_from_u32, chars_to_string, str_to_chars};
use vstd::prelude::*;

verus! {

/// Mathematical model of a JSON value.
#[verifier::ext_equal]
pub enum SpecValue {
    Null,
    Bool(bool),
    Int(int),
    Str(Seq<char>),
    Arr(Seq<SpecValue>),
    Obj(Seq<(Seq<char>, SpecValue)>),
}

/// A JSON value: the payload of parameter maps and decoded response bodies.
pub enum JsonValue {
    Null,
    Bool(bool),
    Int(i64),
    Str(String),
    Arr(Vec<JsonValue>),
    Obj(Vec<(String, JsonValue)>),
}

/// Model of an exec JSON value.
pub open spec fn jv(v: JsonValue) -> SpecValue
    decreases v,
{
    match v {
        JsonValue::Null => SpecValue::Null,
        JsonValue::Bool(b) => SpecValue::Bool(b),
        JsonValue::Int(n) => SpecValue::Int(n as int),
        JsonValue::Str(s) => SpecValue::Str(s@),
        JsonValue::Arr(a) => SpecValue::Arr(jv_list(a@)),
        JsonValue::Obj(m) => SpecValue::Obj(jv_pairs(m@)),
    }
}

/// Model of a list of exec JSON values.
pub open spec fn jv_list(a: Seq<JsonValue>) -> Seq<SpecValue>
    decreases a,
{
    if a.len() == 0 {
        Seq::empty()
    } else {
        seq![jv(a[0])] + jv_list(a.subrange(1, a.len() as int))
    }
}

/// Model of a list of exec object members.
pub open spec fn jv_pairs(m: Seq<(String, JsonValue)>) -> Seq<(Seq<char>, SpecValue)>
    decreases m,
{
    if m.len() == 0 {
        Seq::empty()
    } else {
        seq![(m[0].0@, jv(m[0].1))] + jv_pairs(m.subrange(1, m.len() as int))
    }
}

/// `jv_list` maps indexwise.
pub proof fn lemma_jv_list_index(a: Seq<JsonValue>, i: int)
    requires
        0 <= i < a.len(),
    ensures
        jv_list(a).len() == a.len(),
        jv_list(a)[i] == jv(a[i]),
    decreases a.len(),
{
    lemma_jv_list_len(a);
    if i > 0 {
        lemma_jv_list_index(a.subrange(1, a.len() as int), i - 1);
    }
}

/// `jv_list` preserves length.
pub proof fn lemma_jv_list_len(a: Seq<JsonValue>)
    ensures
        jv_list(a).len() == a.len(),
    decreases a.len(),
{
    if a.len() > 0 {
        lemma_jv_list_len(a.subrange(1, a.len() as int));
    }
}

/// `jv_pairs` maps indexwise.
pub proof fn lemma_jv_pairs_index(m: Seq<(String, JsonValue)>, i: int)
    requires
        0 <= i < m.len(),
    ensures
        jv_pairs(m).len() == m.len(),
        jv_pairs(m)[i] == (m[i].0@, jv(m[i].1)),
    decreases m.len(),
{
    lemma_jv_pairs_len(m);
    if i > 0 {
        lemma_jv_pairs_index(m.subrange(1, m.len() as int), i - 1);
    }
}

/// `jv_list` of a list grown by one value.
pub proof fn lemma_jv_list_snoc(a: Seq<JsonValue>, x: JsonValue)
    ensures
        jv_list(a.push(x)) == jv_list(a) + seq![jv(x)],
    decreases a.len(),
{
    if a.len() == 0 {
        let t = a.push(x);
        assert(t.subrange(1, 1) =~= Seq::<JsonValue>::empty());
        assert(t[0] == x);
        assert(jv_list(Seq::<JsonValue>::empty()) == Seq::<SpecValue>::empty());
        assert(jv_list(t) == seq![jv(t[0])] + jv_list(t.subrange(1, 1)));
        assert(jv_list(t) =~= jv_list(a) + seq![jv(x)]);
    } else {
        assert(a.push(x).subrange(1, a.len() as int + 1) =~= a.subrange(1, a.len() as int).push(
            x));
        lemma_jv_list_snoc(a.subrange(1, a.len() as int), x);
        assert(jv_list(a.push(x)) =~= jv_list(a) + seq![jv(x)]);
    }
}

/// `jv_list` of a single value.
pub proof fn lemma_jv_list_singleton(x: JsonValue)
    ensures
        jv_list(seq![x]) == seq![jv(x)],
{
    assert(seq![x].subrange(1, 1) =~= Seq::<JsonValue>::empty());
    assert(jv_list(Seq::<JsonValue>::empty()) == Seq::<SpecValue>::empty());
    assert(jv_list(seq![x]) =~= seq![jv(x)]);
}

/// `jv_pairs` preserves length.
pub proof fn lemma_jv_pairs_len(m: Seq<(String, JsonValue)>)
    ensures
        jv_pairs(m).len() == m.len(),
    decreases m.len(),
{
    if m.len() > 0 {
        lemma_jv_pairs_len(m.subrange(1, m.len() as int));
    }
}

impl View for JsonValue {
    type V = SpecValue;

    open spec fn view(&self) -> SpecValue {
        jv(*self)
    }
}

/// Decimal digit characters, least significant last.
pub open spec fn spec_digits(n: nat) -> Seq<char>
    decreases n,
{
    if n < 10 {
        seq![digit_char(n)]
    } else {
        spec_digits(n / 10) + seq![digit_char(n % 10)]
    }
}

/// The character for a single decimal digit.
pub open spec fn digit_char(d: nat) -> char {
    if d == 0 { '0' }
    else if d == 1 { '1' }
    else if d == 2 { '2' }
    else if d == 3 { '3' }
    else if d == 4 { '4' }
    else if d == 5 { '5' }
    else if d == 6 { '6' }
    else if d == 7 { '7' }
    else if d == 8 { '8' }
    else { '9' }
}

/// The character for a single hexadecimal digit.
pub open spec fn hex_char(d: nat) -> char {
    if d < 10 { digit_char(d) }
    else if d == 10 { 'a' }
    else if d == 11 { 'b' }
    else if d == 12 { 'c' }
    else if d == 13 { 'd' }
    else if d == 14 { 'e' }
    else { 'f' }
}

/// Decimal form of an integer, with a leading minus sign when negative.
pub open spec fn spec_int_chars(n: int) -> Seq<char> {
    if n < 0 {
        seq!['-'] + spec_digits((-n) as nat)
    } else {
        spec_digits(n as nat)
    }
}

/// JSON escape of one string character.
pub open spec fn esc_char(c: char) -> Seq<char> {
    if c == '"' { seq!['\\', '"'] }
    else if c == '\\' { seq!['\\', '\\'] }
    else if c == '\u{8}' { seq!['\\', 'b'] }
    else if c == '\u{c}' { seq!['\\', 'f'] }
    else if c == '\n' { seq!['\\', 'n'] }
    else if c == '\r' { seq!['\\', 'r'] }
    else if c == '\t' { seq!['\\', 't'] }
    else if (c as u32) < 0x20 {
        seq!['\\', 'u', '0', '0', hex_char(((c as u32) / 16) as nat), hex_char(((c as u32) % 16) as nat)]
    } else {
        seq![c]
    }
}

/// JSON escape of a whole string body.
pub open spec fn esc_str(s: Seq<char>) -> Seq<char>
    decreases s.len(),
{
    if s.len() == 0 {
        Seq::empty()
    } else {
        esc_char(s[0]) + esc_str(s.subrange(1, s.len() as int))
    }
}

/// A JSON string literal: quoted and escaped.
pub open spec fn spec_str_lit(s: Seq<char>) -> Seq<char> {
    seq!['"'] + esc_str(s) + seq!['"']
}

/// Serialized form of a JSON value: the compact text with no added whitespace.
pub open spec fn spec_json(v: SpecValue) -> Seq<char>
    decreases v,
{
    match v {
        SpecValue::Null => seq!['n', 'u', 'l', 'l'],
        SpecValue::Bool(b) => if b { seq!['t', 'r', 'u', 'e'] } else { seq!['f', 'a', 'l', 's', 'e'] },
        SpecValue::Int(n) => spec_int_chars(n),
        SpecValue::Str(s) => spec_str_lit(s),
        SpecValue::Arr(a) => {
            if a.len() == 0 {
                seq!['[', ']']
            } else {
                seq!['['] + spec_items(a) + seq![']']
            }
        },
        SpecValue::Obj(m) => {
            if m.len() == 0 {
                seq!['{', '}']
            } else {
                seq!['{'] + spec_members(m) + seq!['}']
            }
        },
    }
}

/// Comma-separated serialized array items.
pub open spec fn spec_items(a: Seq<SpecValue>) -> Seq<char>
    decreases a,
{
    if a.len() == 0 {
        Seq::empty()
    } else if a.len() == 1 {
        spec_json(a[0])
    } else {
        spec_json(a[0]) + seq![','] + spec_items(a.subrange(1, a.len() as int))
    }
}

/// Comma-separated serialized object members.
pub open spec fn spec_members(m: Seq<(Seq<char>, SpecValue)>) -> Seq<char>
    decreases m,
{
    if m.len() == 0 {
        Seq::empty()
    } else if m.len() == 1 {
        spec_str_lit(m[0].0) + seq![':'] + spec_json(m[0].1)
    } else {
        spec_str_lit(m[0].0) + seq![':'] + spec_json(m[0].1) + seq![','] + spec_members(m.subrange(1, m.len() as int))
    }
}

/// Escaping distributes over appending one character.
proof fn lemma_esc_str_snoc(s: Seq<char>, c: char)
    ensures
        esc_str(s.push(c)) == esc_str(s) + esc_char(c),
    decreases s.len(),
{
    if s.len() == 0 {
        let t = s.push(c);
        assert(t.subrange(1, 1) =~= Seq::<char>::empty());
        assert(t[0] == c);
        assert(esc_str(Seq::<char>::empty()) == Seq::<char>::empty());
        assert(esc_str(t) == esc_char(t[0]) + esc_str(t.subrange(1, 1)));
        assert(esc_str(t) =~= esc_char(c));
        assert(esc_str(s) + esc_char(c) =~= esc_char(c));
    } else {
        assert(s.push(c).subrange(1, s.len() as int + 1) =~= s.subrange(1, s.len() as int).push(c));
        lemma_esc_str_snoc(s.subrange(1, s.len() as int), c);
        assert(esc_str(s.push(c)) =~= esc_str(s) + esc_char(c));
    }
}

/// Serialized items of a list grown by one element.
proof fn lemma_items_push(a: Seq<SpecValue>, x: SpecValue)
    requires
        a.len() >= 1,
    ensures
        spec_items(a.push(x)) == spec_items(a) + seq![','] + spec_json(x),
    decreases a.len(),
{
    if a.len() == 1 {
        assert(a.push(x).subrange(1, 2) =~= seq![x]);
        assert(spec_items(seq![x]) == spec_json(x));
        assert(spec_items(a.push(x)) =~= spec_items(a) + seq![','] + spec_json(x));
    } else {
        assert(a.push(x).subrange(1, a.len() as int + 1) =~= a.subrange(1, a.len() as int).push(x));
        lemma_items_push(a.subrange(1, a.len() as int), x);
        assert(spec_items(a.push(x)) =~= spec_items(a) + seq![','] + spec_json(x));
    }
}

/// Serialized members of an object grown by one member.
proof fn lemma_members_push(m: Seq<(Seq<char>, SpecValue)>, p: (Seq<char>, SpecValue))
    requires
        m.len() >= 1,
    ensures
        spec_members(m.push(p)) == spec_members(m) + seq![','] + spec_str_lit(p.0) + seq![':']
            + spec_json(p.1),
    decreases m.len(),
{
    if m.len() == 1 {
        assert(m.push(p).subrange(1, 2) =~= seq![p]);
        assert(spec_members(seq![p]) == spec_str_lit(p.0) + seq![':'] + spec_json(p.1));
        assert(spec_members(m.push(p)) =~= spec_members(m) + seq![','] + spec_str_lit(p.0)
            + seq![':'] + spec_json(p.1));
    } else {
        assert(m.push(p).subrange(1, m.len() as int + 1) =~= m.subrange(1, m.len() as int).push(p));
        lemma_members_push(m.subrange(1, m.len() as int), p);
        assert(spec_members(m.push(p)) =~= spec_members(m) + seq![','] + spec_str_lit(p.0)
            + seq![':'] + spec_json(p.1));
    }
}

/// The character for a decimal digit value.
fn digit_to_char(d: u64) -> (c: char)
    requires
        d < 10,
    ensures
        c == digit_char(d as nat),
{
    if d == 0 { '0' }
    else if d == 1 { '1' }
    else if d == 2 { '2' }
    else if d == 3 { '3' }
    else if d == 4 { '4' }
    else if d == 5 { '5' }
    else if d == 6 { '6' }
    else if d == 7 { '7' }
    else if d == 8 { '8' }
    else { '9' }
}

/// The character for a hexadecimal digit value.
fn hex_to_char(d: u32) -> (c: char)
    requires
        d < 16,
    ensures
        c == hex_char(d as nat),
{
    if d < 10 {
        digit_to_char(d as u64)
    } else if d == 10 { 'a' }
    else if d == 11 { 'b' }
    else if d == 12 { 'c' }
    else if d == 13 { 'd' }
    else if d == 14 { 'e' }
    else { 'f' }
}

/// Appends the decimal digits of `n`.
fn push_digits(n: u64, out: &mut Vec<char>)
    ensures
        final(out)@ == old(out)@ + spec_digits(n as nat),
    decreases n,
{
    if n < 10 {
        let c = digit_to_char(n);
        out.push(c);
        assert(out@ =~= old(out)@ + spec_digits(n as nat));
    } else {
        push_digits(n / 10, out);
        let c = digit_to_char(n % 10);
        out.push(c);
        assert(out@ =~= old(out)@ + spec_digits(n as nat));
    }
}

/// Appends the decimal form of `n`, minus sign included.
fn push_i64(n: i64, out: &mut Vec<char>)
    ensures
        final(out)@ == old(out)@ + spec_int_chars(n as int),
{
    if n < 0 {
        out.push('-');
        let m_wide: i128 = -(n as i128);
        let mag: u64 = m_wide as u64;
        assert(mag as nat == (-(n as int)) as nat);
        push_digits(mag, out);
        assert(out@ =~= old(out)@ + spec_int_chars(n as int));
    } else {
        push_digits(n as u64, out);
        assert(out@ =~= old(out)@ + spec_int_chars(n as int));
    }
}

/// Appends the escape of one string character.
fn push_esc_char(c: char, out: &mut Vec<char>)
    ensures
        final(out)@ == old(out)@ + esc_char(c),
{
    if c == '"' {
        out.push('\\');
        out.push('"');
    } else if c == '\\' {
        out.push('\\');
        out.push('\\');
    } else if c == '\u{8}' {
        out.push('\\');
        out.push('b');
    } else if c == '\u{c}' {
        out.push('\\');
        out.push('f');
    } else if c == '\n' {
        out.push('\\');
        out.push('n');
    } else if c == '\r' {
        out.push('\\');
        out.push('r');
    } else if c == '\t' {
        out.push('\\');
        out.push('t');
    } else {
        let u: u32 = c as u32;
        if u < 0x20 {
            out.push('\\');
            out.push('u');
            out.push('0');
            out.push('0');
            let h1 = hex_to_char(u / 16);
            out.push(h1);
            let h2 = hex_to_char(u % 16);
            out.push(h2);
        } else {
            out.push(c);
        }
    }
    assert(out@ =~= old(out)@ + esc_char(c));
}

/// Appends the escaped body of a string.
fn push_escaped(cs: &Vec<char>, out: &mut Vec<char>)
    ensures
        final(out)@ == old(out)@ + esc_str(cs@),
{
    let ghost base: Seq<char> = out@;
    let mut i: usize = 0;
    while i < cs.len()
        invariant
            i <= cs@.len(),
            out@ == base + esc_str(cs@.subrange(0, i as int)),
        decreases cs@.len() - i,
    {
        assert(esc_str(cs@.subrange(0, 0)) =~= Seq::<char>::empty());
        push_esc_char(cs[i], out);
        proof {
            lemma_esc_str_snoc(cs@.subrange(0, i as int), cs@[i as int]);
            assert(cs@.subrange(0, i + 1) =~= cs@.subrange(0, i as int).push(cs@[i as int]));
        }
        i = i + 1;
    }
    assert(cs@.subrange(0, cs@.len() as int) =~= cs@);
}

/// Appends a quoted, escaped JSON string literal.
fn push_str_lit(s: &str, out: &mut Vec<char>)
    ensures
        final(out)@ == old(out)@ + spec_str_lit(s@),
{
    out.push('"');
    let cs = str_to_chars(s);
    push_escaped(&cs, out);
    out.push('"');
    assert(out@ =~= old(out)@ + spec_str_lit(s@));
}

/// Appends the serialized form of a value.
#[verifier::loop_isolation(false)]
#[verifier::rlimit(50)]
fn write_json(v: &JsonValue, out: &mut Vec<char>)
    ensures
        final(out)@ == old(out)@ + spec_json(v@),
    decreases v,
{
    match v {
        JsonValue::Null => {
            out.push('n');
            out.push('u');
            out.push('l');
            out.push('l');
            assert(out@ =~= old(out)@ + spec_json(v@));
        },
        JsonValue::Bool(b) => {
            if *b {
                out.push('t');
                out.push('r');
                out.push('u');
                out.push('e');
            } else {
                out.push('f');
                out.push('a');
                out.push('l');
                out.push('s');
                out.push('e');
            }
            assert(out@ =~= old(out)@ + spec_json(v@));
        },
        JsonValue::Int(n) => {
            push_i64(*n, out);
        },
        JsonValue::Str(s) => {
            push_str_lit(s.as_str(), out);
        },
        JsonValue::Arr(a) => {
            out.push('[');
            if a.len() == 0 {
                out.push(']');
                assert(out@ =~= old(out)@ + spec_json(v@));
            } else {
                let ghost model: Seq<SpecValue> = jv_list(a@);
                proof {
                    lemma_jv_list_len(a@);
                }
                let ghost base: Seq<char> = out@;
                write_json(&a[0], out);
                proof {
                    lemma_jv_list_index(a@, 0);
                    assert(model.subrange(0, 1) =~= seq![model[0]]);
                }
                let mut i: usize = 1;
                while i < a.len()
                    invariant
                        1 <= i <= a@.len(),
                        model == jv_list(a@),
                        model.len() == a@.len(),
                        out@ == base + spec_items(model.subrange(0, i as int)),
                    decreases a@.len() - i,
                {
                    out.push(',');
                    write_json(&a[i], out);
                    proof {
                        lemma_jv_list_index(a@, i as int);
                        lemma_items_push(model.subrange(0, i as int), model[i as int]);
                        assert(model.subrange(0, i + 1) =~= model.subrange(0, i as int).push(
                            model[i as int]));
                    }
                    i = i + 1;
                }
                out.push(']');
                proof {
                    assert(model.subrange(0, model.len() as int) =~= model);
                    assert(out@ =~= old(out)@ + spec_json(v@));
                }
            }
        },
        JsonValue::Obj(m) => {
            out.push('{');
            if m.len() == 0 {
                out.push('}');
                assert(out@ =~= old(out)@ + spec_json(v@));
            } else {
                let ghost model: Seq<(Seq<char>, SpecValue)> = jv_pairs(m@);
                proof {
                    lemma_jv_pairs_len(m@);
                }
                let ghost base: Seq<char> = out@;
                push_str_lit(m[0].0.as_str(), out);
                out.push(':');
                write_json(&m[0].1, out);
                proof {
                    lemma_jv_pairs_index(m@, 0);
                    assert(model.subrange(0, 1) =~= seq![model[0]]);
                }
                let mut i: usize = 1;
                while i < m.len()
                    invariant
                        1 <= i <= m@.len(),
                        model == jv_pairs(m@),
                        model.len() == m@.len(),
                        out@ == base + spec_members(model.subrange(0, i as int)),
                    decreases m@.len() - i,
                {
                    out.push(',');
                    push_str_lit(m[i].0.as_str(), out);
                    out.push(':');
                    write_json(&m[i].1, out);
                    proof {
                        lemma_jv_pairs_index(m@, i as int);
                        lemma_members_push(model.subrange(0, i as int), model[i as int]);
                        assert(model.subrange(0, i + 1) =~= model.subrange(0, i as int).push(
                            model[i as int]));
                    }
                    i = i + 1;
                }
                out.push('}');
                proof {
                    assert(model.subrange(0, model.len() as int) =~= model);
                    assert(out@ =~= old(out)@ + spec_json(v@));
                }
            }
        },
    }
}

/// Decimal digit characters of an unsigned value.
pub fn u64_digit_chars(n: u64) -> (r: Vec<char>)
    ensures
        r@ == spec_digits(n as nat),
{
    let mut out: Vec<char> = Vec::new();
    push_digits(n, &mut out);
    proof {
        assert(out@ =~= spec_digits(n as nat));
    }
    out
}

/// Decimal text of an integer.
pub fn i64_to_string(n: i64) -> (r: String)
    ensures
        r@ == spec_int_chars(n as int),
{
    let mut out: Vec<char> = Vec::new();
    push_i64(n, &mut out);
    chars_to_string(&out)
}

/// Serialization is deterministic: any two texts that serialize the same
/// value are identical, character for character.
pub proof fn lemma_serialization_deterministic(
    v1: SpecValue,
    v2: SpecValue,
    r1: Seq<char>,
    r2: Seq<char>,
)
    requires
        v1 == v2,
        r1 == spec_json(v1),
        r2 == spec_json(v2),
    ensures
        r1 == r2,
{
}

impl JsonValue {
    /// Serializes the value to its compact JSON text.
    pub fn to_json_string(&self) -> (r: String)
        ensures
            r@ == spec_json(self@),
    {
        let mut out: Vec<char> = Vec::new();
        write_json(self, &mut out);
        chars_to_string(&out)
    }
}

/// JSON whitespace.
pub open spec fn is_ws(c: char) -> bool {
    c == ' ' || c == '\t' || c == '\n' || c == '\r'
}

/// Number of whitespace characters at position `i`.
pub open spec fn ws_count(s: Seq<char>, i: int) -> nat
    decreases s.len() - i,
{
    if 0 <= i < s.len() && is_ws(s[i]) {
        1 + ws_count(s, i + 1)
    } else {
        0
    }
}

/// First non-whitespace position at or after `i`.
pub open spec fn skip_ws(s: Seq<char>, i: int) -> int {
    i + ws_count(s, i)
}

/// A decimal digit character.
pub open spec fn is_digit(c: char) -> bool {
    48 <= (c as u32) <= 57
}

/// Value of a decimal digit character.
pub open spec fn digit_val(c: char) -> int {
    (c as u32) - 48
}

/// Number of digit characters at position `i`.
pub open spec fn digits_count(s: Seq<char>, i: int) -> nat
    decreases s.len() - i,
{
    if 0 <= i < s.len() && is_digit(s[i]) {
        1 + digits_count(s, i + 1)
    } else {
        0
    }
}

/// First non-digit position at or after `i`.
pub open spec fn digits_end(s: Seq<char>, i: int) -> int {
    i + digits_count(s, i)
}

/// Value of the digit run `s[i..e)`, most significant first.
pub open spec fn digits_value(s: Seq<char>, i: int, e: int) -> int
    decreases e - i,
{
    if i >= e {
        0
    } else {
        digits_value(s, i, e - 1) * 10 + digit_val(s[e - 1])
    }
}

/// Value of a hexadecimal digit character, or a negative number if it is none.
pub open spec fn hex_val(c: char) -> int {
    let u = c as u32;
    if 48 <= u <= 57 {
        u - 48
    } else if 97 <= u <= 102 {
        u - 87
    } else if 65 <= u <= 70 {
        u - 55
    } else {
        -1
    }
}

/// Parses a string body from `i` (just after the opening quote) up to and
/// including the closing quote: the decoded content and the position after it.
pub open spec fn spec_parse_string(s: Seq<char>, i: int) -> Option<(Seq<char>, int)>
    decreases s.len() - i,
{
    if !(0 <= i < s.len()) {
        None
    } else if s[i] == '"' {
        Some((Seq::empty(), i + 1))
    } else if s[i] == '\\' {
        if i + 1 < s.len() {
            let e = s[i + 1];
            if e == 'u' {
                if i + 5 < s.len() && hex_val(s[i + 2]) >= 0 && hex_val(s[i + 3]) >= 0 && hex_val(
                    s[i + 4]) >= 0 && hex_val(s[i + 5]) >= 0 {
                    let code = 4096 * hex_val(s[i + 2]) + 256 * hex_val(s[i + 3]) + 16 * hex_val(
                        s[i + 4]) + hex_val(s[i + 5]);
                    if code < 0xD800 || code >= 0xE000 {
                        match spec_parse_string(s, i + 6) {
                            Some((rest, j)) => Some((seq![((code as u32) as char)] + rest, j)),
                            None => None,
                        }
                    } else {
                        None
                    }
                } else {
                    None
                }
            } else {
                let rep: Option<char> = if e == '"' {
                    Some('"')
                } else if e == '\\' {
                    Some('\\')
                } else if e == '/' {
                    Some('/')
                } else if e == 'b' {
                    Some('\u{8}')
                } else if e == 'f' {
                    Some('\u{c}')
                } else if e == 'n' {
                    Some('\n')
                } else if e == 'r' {
                    Some('\r')
                } else if e == 't' {
                    Some('\t')
                } else {
                    None
                };
                match rep {
                    Some(c) => match spec_parse_string(s, i + 2) {
                        Some((rest, j)) => Some((seq![c] + rest, j)),
                        None => None,
                    },
                    None => None,
                }
            }
        } else {
            None
        }
    } else if (s[i] as u32) < 0x20 {
        None
    } else {
        match spec_parse_string(s, i + 1) {
            Some((rest, j)) => Some((seq![s[i]] + rest, j)),
            None => None,
        }
    }
}

/// Parses an integer starting at `i`: an optional minus sign and a digit run.
/// A fraction or exponent, a leading zero, or a value outside the signed
/// 64-bit range makes the parse fail.
pub open spec fn spec_parse_number(s: Seq<char>, i: int) -> Option<(SpecValue, int)> {
    let neg = 0 <= i < s.len() && s[i] == '-';
    let d0 = if neg {
        i + 1
    } else {
        i
    };
    let e = digits_end(s, d0);
    if e == d0 {
        None
    } else if s[d0] == '0' && e > d0 + 1 {
        None
    } else if e - d0 > 19 {
        None
    } else {
        let mag = digits_value(s, d0, e);
        let n: int = if neg {
            -mag
        } else {
            mag
        };
        if n < -0x8000000000000000 || n > 0x7fffffffffffffff {
            None
        } else if e < s.len() && (s[e] == '.' || s[e] == 'e' || s[e] == 'E') {
            None
        } else {
            Some((SpecValue::Int(n), e))
        }
    }
}

/// Parses one JSON value starting at `i`, leading whitespace allowed:
/// the value and the position just after it.
pub open spec fn spec_parse_value(s: Seq<char>, i: int) -> Option<(SpecValue, int)>
    decreases s.len() - i, 0int,
{
    let k = skip_ws(s, i);
    if k >= s.len() {
        None
    } else {
        let c = s[k];
        if c == 'n' {
            if k + 3 < s.len() && s[k + 1] == 'u' && s[k + 2] == 'l' && s[k + 3] == 'l' {
                Some((SpecValue::Null, k + 4))
            } else {
                None
            }
        } else if c == 't' {
            if k + 3 < s.len() && s[k + 1] == 'r' && s[k + 2] == 'u' && s[k + 3] == 'e' {
                Some((SpecValue::Bool(true), k + 4))
            } else {
                None
            }
        } else if c == 'f' {
            if k + 4 < s.len() && s[k + 1] == 'a' && s[k + 2] == 'l' && s[k + 3] == 's' && s[k + 4]
                == 'e' {
                Some((SpecValue::Bool(false), k + 5))
            } else {
                None
            }
        } else if c == '"' {
            match spec_parse_string(s, k + 1) {
                Some((cs, j)) => Some((SpecValue::Str(cs), j)),
                None => None,
            }
        } else if c == '-' || is_digit(c) {
            spec_parse_number(s, k)
        } else if c == '[' {
            let k2 = skip_ws(s, k + 1);
            if k2 < s.len() && s[k2] == ']' {
                Some((SpecValue::Arr(Seq::empty()), k2 + 1))
            } else {
                match spec_parse_elems(s, k + 1) {
                    Some((es, j)) => Some((SpecValue::Arr(es), j)),
                    None => None,
                }
            }
        } else if c == '{' {
            let k2 = skip_ws(s, k + 1);
            if k2 < s.len() && s[k2] == '}' {
                Some((SpecValue::Obj(Seq::empty()), k2 + 1))
            } else {
                match spec_parse_members(s, k + 1) {
                    Some((ms, j)) => Some((SpecValue::Obj(ms), j)),
                    None => None,
                }
            }
        } else {
            None
        }
    }
}

/// Parses the items of a non-empty array from `i` (just after `[` or a comma)
/// up to and including the closing bracket.
pub open spec fn spec_parse_elems(s: Seq<char>, i: int) -> Option<(Seq<SpecValue>, int)>
    decreases s.len() - i, 1int,
{
    match spec_parse_value(s, i) {
        None => None,
        Some((v, j0)) => {
            // a successful parse always advances; the guard keeps the measure
            // decreasing without appeal to that fact
            let j = if j0 > i {
                j0
            } else {
                i + 1
            };
            let k = skip_ws(s, j);
            if k < s.len() && s[k] == ',' {
                match spec_parse_elems(s, k + 1) {
                    None => None,
                    Some((rest, m)) => Some((seq![v] + rest, m)),
                }
            } else if k < s.len() && s[k] == ']' {
                Some((seq![v], k + 1))
            } else {
                None
            }
        },
    }
}

/// Parses the members of a non-empty object from `i` (just after `{` or a
/// comma) up to and including the closing brace.
pub open spec fn spec_parse_members(s: Seq<char>, i: int) -> Option<
    (Seq<(Seq<char>, SpecValue)>, int),
>
    decreases s.len() - i, 1int,
{
    let k = skip_ws(s, i);
    if k < s.len() && s[k] == '"' {
        match spec_parse_string(s, k + 1) {
            None => None,
            Some((key, j0)) => {
                let j = if j0 > k {
                    j0
                } else {
                    k + 1
                };
                let c2 = skip_ws(s, j);
                if c2 < s.len() && s[c2] == ':' {
                    match spec_parse_value(s, c2 + 1) {
                        None => None,
                        Some((v, m0)) => {
                            let m = if m0 > c2 {
                                m0
                            } else {
                                c2 + 1
                            };
                            let w = skip_ws(s, m);
                            if w < s.len() && s[w] == ',' {
                                match spec_parse_members(s, w + 1) {
                                    None => None,
                                    Some((rest, z)) => Some((seq![(key, v)] + rest, z)),
                                }
                            } else if w < s.len() && s[w] == '}' {
                                Some((seq![(key, v)], w + 1))
                            } else {
                                None
                            }
                        },
                    }
                } else {
                    None
                }
            },
        }
    } else {
        None
    }
}

/// Parses a whole JSON text: one value with nothing but whitespace around it.
pub open spec fn spec_parse_json(s: Seq<char>) -> Option<SpecValue> {
    match spec_parse_value(s, 0) {
        None => None,
        Some((v, j)) => if skip_ws(s, j) == s.len() {
            Some(v)
        } else {
            None
        },
    }
}

/// Whether `c` is JSON whitespace.
fn is_ws_char(c: char) -> (r: bool)
    ensures
        r == is_ws(c),
{
    c == ' ' || c == '\t' || c == '\n' || c == '\r'
}

/// Whether `c` is a decimal digit.
fn is_digit_char(c: char) -> (r: bool)
    ensures
        r == is_digit(c),
{
    let u: u32 = c as u32;
    48 <= u && u <= 57
}

/// Hexadecimal value of `c`, if it is a hexadecimal digit.
fn hex_val_char(c: char) -> (r: Option<u32>)
    ensures
        match r {
            Option::Some(h) => hex_val(c) == h as int && h < 16,
            Option::None => hex_val(c) < 0,
        },
{
    let u: u32 = c as u32;
    if 48 <= u && u <= 57 {
        Some(u - 48)
    } else if 97 <= u && u <= 102 {
        Some(u - 87)
    } else if 65 <= u && u <= 70 {
        Some(u - 55)
    } else {
        None
    }
}

/// Skips whitespace from `i`.
#[verifier::loop_isolation(false)]
fn skip_ws_exec(s: &Vec<char>, i: usize) -> (r: usize)
    requires
        i <= s@.len(),
    ensures
        i <= r <= s@.len(),
        r as int == skip_ws(s@, i as int),
{
    let mut k = i;
    while k < s.len() && is_ws_char(s[k])
        invariant
            i <= k <= s@.len(),
            skip_ws(s@, i as int) == skip_ws(s@, k as int),
        decreases s@.len() - k,
    {
        k = k + 1;
    }
    k
}

/// Skips a digit run from `i`.
#[verifier::loop_isolation(false)]
fn digits_end_exec(s: &Vec<char>, i: usize) -> (r: usize)
    requires
        i <= s@.len(),
    ensures
        i <= r <= s@.len(),
        r as int == digits_end(s@, i as int),
{
    let mut k = i;
    while k < s.len() && is_digit_char(s[k])
        invariant
            i <= k <= s@.len(),
            digits_end(s@, i as int) == digits_end(s@, k as int),
        decreases s@.len() - k,
    {
        k = k + 1;
    }
    k
}

/// Every position in a digit run holds a digit.
proof fn lemma_digits_run(s: Seq<char>, i: int)
    ensures
        forall|p: int| i <= p < digits_end(s, i) ==> is_digit(#[trigger] s[p]),
    decreases s.len() - i,
{
    if 0 <= i < s.len() && is_digit(s[i]) {
        lemma_digits_run(s, i + 1);
    }
}

/// Powers of ten.
pub open spec fn pow10(n: nat) -> int
    decreases n,
{
    if n == 0 {
        1
    } else {
        10 * pow10((n - 1) as nat)
    }
}

/// Powers of ten are positive.
pub proof fn lemma_pow10_pos(n: nat)
    ensures
        pow10(n) >= 1,
    decreases n,
{
    if n > 0 {
        lemma_pow10_pos((n - 1) as nat);
    }
}

/// Powers of ten grow with the exponent.
pub proof fn lemma_pow10_mono(a: nat, b: nat)
    requires
        a <= b,
    ensures
        pow10(a) <= pow10(b),
    decreases b,
{
    lemma_pow10_pos(a);
    if a < b {
        lemma_pow10_mono(a, (b - 1) as nat);
        lemma_pow10_pos((b - 1) as nat);
    }
}

/// A digit run of length `e - i` has a value below `pow10(e - i)`.
proof fn lemma_digits_value_bound(s: Seq<char>, i: int, e: int)
    requires
        i <= e,
        forall|p: int| i <= p < e ==> is_digit(#[trigger] s[p]),
    ensures
        0 <= digits_value(s, i, e) < pow10((e - i) as nat),
    decreases e - i,
{
    if i < e {
        lemma_digits_value_bound(s, i, e - 1);
    }
}

/// Parses a string body from `i`, just after the opening quote.
fn parse_string_exec(s: &Vec<char>, i: usize) -> (r: Option<(Vec<char>, usize)>)
    requires
        i <= s@.len(),
    ensures
        match r {
            Option::Some((cs, j)) => spec_parse_string(s@, i as int) == Option::Some(
                (cs@, j as int),
            ) && i < j <= s@.len(),
            Option::None => spec_parse_string(s@, i as int) is None,
        },
    decreases s@.len() - i,
{
    if i >= s.len() {
        return None;
    }
    let c = s[i];
    if c == '"' {
        let empty: Vec<char> = Vec::new();
        return Some((empty, i + 1));
    }
    if c == '\\' {
        if s.len() - i >= 2 {
            let e = s[i + 1];
            if e == 'u' {
                if s.len() - i >= 6 {
                    let h1 = match hex_val_char(s[i + 2]) {
                        Some(h) => h,
                        None => {
                            return None;
                        },
                    };
                    let h2 = match hex_val_char(s[i + 3]) {
                        Some(h) => h,
                        None => {
                            return None;
                        },
                    };
                    let h3 = match hex_val_char(s[i + 4]) {
                        Some(h) => h,
                        None => {
                            return None;
                        },
                    };
                    let h4 = match hex_val_char(s[i + 5]) {
                        Some(h) => h,
                        None => {
                            return None;
                        },
                    };
                    let code: u32 = 4096 * h1 + 256 * h2 + 16 * h3 + h4;
                    if code < 0xD800 || code >= 0xE000 {
                        match char_from_u32(code) {
                            Some(ch) => {
                                proof {
                                    vstd::utf8::char_u32_cast(ch, code);
                                }
                                match parse_string_exec(s, i + 6) {
                                    Some((mut rest, j)) => {
                                        let ghost rest0 = rest@;
                                        rest.insert(0, ch);
                                        proof {
                                            assert(rest@ =~= seq![ch] + rest0);
                                        }
                                        Some((rest, j))
                                    },
                                    None => None,
                                }
                            },
                            None => {
                                proof {
                                    assert(false);
                                }
                                None
                            },
                        }
                    } else {
                        None
                    }
                } else {
                    None
                }
            } else {
                let rep: Option<char> = if e == '"' {
                    Some('"')
                } else if e == '\\' {
                    Some('\\')
                } else if e == '/' {
                    Some('/')
                } else if e == 'b' {
                    Some('\u{8}')
                } else if e == 'f' {
                    Some('\u{c}')
                } else if e == 'n' {
                    Some('\n')
                } else if e == 'r' {
                    Some('\r')
                } else if e == 't' {
                    Some('\t')
                } else {
                    None
                };
                match rep {
                    Some(rc) => {
                        match parse_string_exec(s, i + 2) {
                            Some((mut rest, j)) => {
                                let ghost rest0 = rest@;
                                rest.insert(0, rc);
                                proof {
                                    assert(rest@ =~= seq![rc] + rest0);
                                }
                                Some((rest, j))
                            },
                            None => None,
                        }
                    },
                    None => None,
                }
            }
        } else {
            None
        }
    } else {
        let u: u32 = c as u32;
        if u < 0x20 {
            return None;
        }
        match parse_string_exec(s, i + 1) {
            Some((mut rest, j)) => {
                let ghost rest0 = rest@;
                rest.insert(0, c);
                proof {
                    assert(rest@ =~= seq![c] + rest0);
                }
                Some((rest, j))
            },
            None => None,
        }
    }
}

/// Parses an integer starting at `i`.
#[verifier::loop_isolation(false)]
fn parse_number_exec(s: &Vec<char>, i: usize) -> (r: Option<(JsonValue, usize)>)
    requires
        i <= s@.len(),
    ensures
        match r {
            Option::Some((v, j)) => spec_parse_number(s@, i as int) == Option::Some(
                (v@, j as int),
            ) && i < j <= s@.len(),
            Option::None => spec_parse_number(s@, i as int) is None,
        },
{
    let neg = i < s.len() && s[i] == '-';
    let d0: usize = if neg {
        i + 1
    } else {
        i
    };
    let e = digits_end_exec(s, d0);
    if e == d0 {
        return None;
    }
    if s[d0] == '0' && e > d0 + 1 {
        return None;
    }
    if e - d0 > 19 {
        return None;
    }
    proof {
        lemma_digits_run(s@, d0 as int);
    }
    let mut acc: u64 = 0;
    let mut p: usize = d0;
    while p < e
        invariant
            d0 <= p <= e,
            acc == digits_value(s@, d0 as int, p as int),
        decreases e - p,
    {
        proof {
            lemma_digits_value_bound(s@, d0 as int, p as int);
            lemma_pow10_mono((p - d0) as nat, 18);
            assert(pow10(18) == 1000000000000000000) by {
                reveal_with_fuel(pow10, 19);
            };
        }
        let d: u64 = (s[p] as u32 - 48) as u64;
        acc = acc * 10 + d;
        p = p + 1;
    }
    if !neg && acc > 9223372036854775807u64 {
        return None;
    }
    if neg && acc > 9223372036854775808u64 {
        return None;
    }
    if e < s.len() {
        let t = s[e];
        if t == '.' || t == 'e' || t == 'E' {
            return None;
        }
    }
    let n: i64 = if neg {
        if acc == 9223372036854775808u64 {
            i64::MIN
        } else {
            -(acc as i64)
        }
    } else {
        acc as i64
    };
    Some((JsonValue::Int(n), e))
}

/// Parses one JSON value starting at `i`.
fn parse_value_exec(s: &Vec<char>, i: usize) -> (r: Option<(JsonValue, usize)>)
    requires
        i <= s@.len(),
    ensures
        match r {
            Option::Some((v, j)) => spec_parse_value(s@, i as int) == Option::Some(
                (v@, j as int),
            ) && i < j <= s@.len(),
            Option::None => spec_parse_value(s@, i as int) is None,
        },
    decreases s@.len() - i, 0int,
{
    let k = skip_ws_exec(s, i);
    if k >= s.len() {
        return None;
    }
    let c = s[k];
    if c == 'n' {
        if s.len() - k >= 4 && s[k + 1] == 'u' && s[k + 2] == 'l' && s[k + 3] == 'l' {
            Some((JsonValue::Null, k + 4))
        } else {
            None
        }
    } else if c == 't' {
        if s.len() - k >= 4 && s[k + 1] == 'r' && s[k + 2] == 'u' && s[k + 3] == 'e' {
            Some((JsonValue::Bool(true), k + 4))
        } else {
            None
        }
    } else if c == 'f' {
        if s.len() - k >= 5 && s[k + 1] == 'a' && s[k + 2] == 'l' && s[k + 3] == 's' && s[k + 4]
            == 'e' {
            Some((JsonValue::Bool(false), k + 5))
        } else {
            None
        }
    } else if c == '"' {
        match parse_string_exec(s, k + 1) {
            Some((cs, j)) => {
                let st = chars_to_string(&cs);
                Some((JsonValue::Str(st), j))
            },
            None => None,
        }
    } else if c == '-' || is_digit_char(c) {
        parse_number_exec(s, k)
    } else if c == '[' {
        let k2 = skip_ws_exec(s, k + 1);
        if k2 < s.len() && s[k2] == ']' {
            let empty: Vec<JsonValue> = Vec::new();
            proof {
                assert(jv_list(Seq::<JsonValue>::empty()) =~= Seq::<SpecValue>::empty());
            }
            Some((JsonValue::Arr(empty), k2 + 1))
        } else {
            match parse_elems_exec(s, k + 1) {
                Some((es, j)) => Some((JsonValue::Arr(es), j)),
                None => None,
            }
        }
    } else if c == '{' {
        let k2 = skip_ws_exec(s, k + 1);
        if k2 < s.len() && s[k2] == '}' {
            let empty: Vec<(String, JsonValue)> = Vec::new();
            proof {
                assert(jv_pairs(Seq::<(String, JsonValue)>::empty()) =~= Seq::<
                    (Seq<char>, SpecValue),
                >::empty());
            }
            Some((JsonValue::Obj(empty), k2 + 1))
        } else {
            match parse_members_exec(s, k + 1) {
                Some((ms, j)) => Some((JsonValue::Obj(ms), j)),
                None => None,
            }
        }
    } else {
        None
    }
}

/// Parses the items of a non-empty array from `i`.
fn parse_elems_exec(s: &Vec<char>, i: usize) -> (r: Option<(Vec<JsonValue>, usize)>)
    requires
        i <= s@.len(),
    ensures
        match r {
            Option::Some((es, j)) => spec_parse_elems(s@, i as int) == Option::Some(
                (jv_list(es@), j as int),
            ) && i < j <= s@.len(),
            Option::None => spec_parse_elems(s@, i as int) is None,
        },
    decreases s@.len() - i, 1int,
{
    match parse_value_exec(s, i) {
        None => None,
        Some((v, j)) => {
            let k = skip_ws_exec(s, j);
            if k < s.len() && s[k] == ',' {
                match parse_elems_exec(s, k + 1) {
                    None => None,
                    Some((mut rest, m)) => {
                        let ghost rest0 = rest@;
                        rest.insert(0, v);
                        proof {
                            assert(rest@ =~= seq![v] + rest0);
                            assert((seq![v] + rest0).subrange(1, (seq![v] + rest0).len() as int)
                                =~= rest0);
                            assert(jv_list(rest@) =~= seq![jv(v)] + jv_list(rest0));
                        }
                        Some((rest, m))
                    },
                }
            } else if k < s.len() && s[k] == ']' {
                let mut es: Vec<JsonValue> = Vec::new();
                es.push(v);
                proof {
                    assert(es@.subrange(1, 1) =~= Seq::<JsonValue>::empty());
                    assert(jv_list(Seq::<JsonValue>::empty()) =~= Seq::<SpecValue>::empty());
                    assert(jv_list(es@) =~= seq![jv(v)]);
                }
                Some((es, k + 1))
            } else {
                None
            }
        },
    }
}

/// Parses the members of a non-empty object from `i`.
fn parse_members_exec(s: &Vec<char>, i: usize) -> (r: Option<(Vec<(String, JsonValue)>, usize)>)
    requires
        i <= s@.len(),
    ensures
        match r {
            Option::Some((ms, j)) => spec_parse_members(s@, i as int) == Option::Some(
                (jv_pairs(ms@), j as int),
            ) && i < j <= s@.len(),
            Option::None => spec_parse_members(s@, i as int) is None,
        },
    decreases s@.len() - i, 1int,
{
    let k = skip_ws_exec(s, i);
    if k < s.len() && s[k] == '"' {
        match parse_string_exec(s, k + 1) {
            None => None,
            Some((keycs, j)) => {
                let c2 = skip_ws_exec(s, j);
                if c2 < s.len() && s[c2] == ':' {
                    match parse_value_exec(s, c2 + 1) {
                        None => None,
                        Some((v, m)) => {
                            let w = skip_ws_exec(s, m);
                            let key = chars_to_string(&keycs);
                            if w < s.len() && s[w] == ',' {
                                match parse_members_exec(s, w + 1) {
                                    None => None,
                                    Some((mut rest, z)) => {
                                        let ghost rest0 = rest@;
                                        let ghost keyv = key@;
                                        let ghost vv = jv(v);
                                        rest.insert(0, (key, v));
                                        proof {
                                            assert(rest@.subrange(1, rest@.len() as int) =~= rest0);
                                            assert(jv_pairs(rest@) =~= seq![(keyv, vv)] + jv_pairs(
                                                rest0));
                                        }
                                        Some((rest, z))
                                    },
                                }
                            } else if w < s.len() && s[w] == '}' {
                                let mut ms: Vec<(String, JsonValue)> = Vec::new();
                                let ghost keyv = key@;
                                let ghost vv = jv(v);
                                ms.push((key, v));
                                proof {
                                    assert(ms@.subrange(1, 1) =~= Seq::<
                                        (String, JsonValue),
                                    >::empty());
                                    assert(jv_pairs(Seq::<(String, JsonValue)>::empty()) =~= Seq::<
                                        (Seq<char>, SpecValue),
                                    >::empty());
                                    assert(jv_pairs(ms@) =~= seq![(keyv, vv)]);
                                }
                                Some((ms, w + 1))
                            } else {
                                None
                            }
                        },
                    }
                } else {
                    None
                }
            },
        }
    } else {
        None
    }
}

impl JsonValue {
    /// Parses a whole JSON text; None when the text is not valid JSON of
    /// this model.
    pub fn parse_json(s: &str) -> (r: Option<JsonValue>)
        ensures
            match r {
                Option::Some(v) => spec_parse_json(s@) == Option::Some(v@),
                Option::None => spec_parse_json(s@) is None,
            },
    {
        let cs = str_to_chars(s);
        match parse_value_exec(&cs, 0) {
            None => None,
            Some((v, j)) => {
                let e = skip_ws_exec(&cs, j);
                if e == cs.len() {
                    Some(v)
                } else {
                    None
                }
            },
        }
    }
}

} // verus!
