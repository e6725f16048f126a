//! The parser inverts the serializer: parsing the serialized text of a value
//! yields the value back. The composite query builders re-parse their
//! sub-queries, so this is the fact that a well-formed serialized sub-query
//! is never dropped.

use crate::json::{
    digit_char, digit_val, digits_count, digits_end, digits_value, esc_char, esc_str, hex_char,
    hex_val, is_digit, is_ws, jv, jv_list, jv_pairs, pow10, skip_ws, spec_digits, spec_int_chars,
    spec_json, spec_parse_json, spec_parse_number, spec_parse_string, spec_parse_value,
    spec_str_lit, ws_count, JsonValue, SpecValue,
};
use vstd::prelude::*;

verus! {

/// Every integer in the value lies in the signed 64-bit range the parser
/// accepts.
pub open spec fn bounded_ints(v: SpecValue) -> bool
    decreases v,
{
    match v {
        SpecValue::Null => true,
        SpecValue::Bool(_) => true,
        SpecValue::Int(n) => -0x8000000000000000 <= n <= 0x7fffffffffffffff,
        SpecValue::Str(_) => true,
        SpecValue::Arr(a) => bounded_list(a),
        SpecValue::Obj(m) => bounded_pairs(m),
    }
}

/// `bounded_ints` over a list of values.
pub open spec fn bounded_list(a: Seq<SpecValue>) -> bool
    decreases a,
{
    a.len() == 0 || (bounded_ints(a[0]) && bounded_list(a.subrange(1, a.len() as int)))
}

/// `bounded_ints` over object members.
pub open spec fn bounded_pairs(m: Seq<(Seq<char>, SpecValue)>) -> bool
    decreases m,
{
    m.len() == 0 || (bounded_ints(m[0].1) && bounded_pairs(m.subrange(1, m.len() as int)))
}

/// A digit character carries its digit value.
proof fn lemma_digit_char_val(d: nat)
    requires
        d < 10,
    ensures
        is_digit(digit_char(d)),
        digit_val(digit_char(d)) == d,
        d >= 1 ==> digit_char(d) != '0',
{
}

/// A hexadecimal digit character carries its value.
proof fn lemma_hex_char_val(d: nat)
    requires
        d < 16,
    ensures
        hex_val(hex_char(d)) == d,
{
}

/// The decimal digits of a number are digits, led by a nonzero one unless
/// the number is a single digit.
proof fn lemma_spec_digits_chars(n: nat)
    ensures
        spec_digits(n).len() >= 1,
        forall|i: int| 0 <= i < spec_digits(n).len() ==> is_digit(#[trigger] spec_digits(n)[i]),
        n >= 10 ==> spec_digits(n)[0] != '0',
    decreases n,
{
    if n < 10 {
        lemma_digit_char_val(n);
    } else {
        lemma_spec_digits_chars(n / 10);
        lemma_digit_char_val(n % 10);
        assert(spec_digits(n) == spec_digits(n / 10) + seq![digit_char(n % 10)]);
        assert(spec_digits(n)[0] == spec_digits(n / 10)[0]);
        if n / 10 >= 10 {
        } else {
            lemma_digit_char_val((n / 10) as nat);
            assert(spec_digits(n / 10) == seq![digit_char((n / 10) as nat)]);
        }
        assert forall|i: int| 0 <= i < spec_digits(n).len() implies is_digit(
            #[trigger] spec_digits(n)[i],
        ) by {
            if i < spec_digits(n / 10).len() {
                assert(spec_digits(n)[i] == spec_digits(n / 10)[i]);
            } else {
                assert(spec_digits(n)[i] == digit_char(n % 10));
            }
        };
    }
}

/// A number below `pow10(k)` has at most `k` decimal digits.
proof fn lemma_spec_digits_len(n: nat, k: nat)
    requires
        1 <= k,
        n < pow10(k),
    ensures
        spec_digits(n).len() <= k,
    decreases n,
{
    if n < 10 {
    } else {
        assert(pow10(k) == 10 * pow10((k - 1) as nat));
        crate::json::lemma_pow10_pos((k - 1) as nat);
        if k == 1 {
            assert(pow10(1nat) == 10);
        }
        lemma_spec_digits_len(n / 10, (k - 1) as nat);
    }
}

/// Reading back a digit run that spells a number yields that number.
proof fn lemma_digits_value_of(s: Seq<char>, i: int, n: nat)
    requires
        0 <= i,
        i + spec_digits(n).len() <= s.len(),
        s.subrange(i, i + spec_digits(n).len()) == spec_digits(n),
    ensures
        digits_value(s, i, i + spec_digits(n).len()) == n,
    decreases n,
{
    let full = spec_digits(n);
    if n < 10 {
        assert(s[i] == full[0]);
        lemma_digit_char_val(n);
        assert(digits_value(s, i, i + 1) == digits_value(s, i, i) * 10 + digit_val(s[i]));
    } else {
        let pre = spec_digits(n / 10);
        assert(full == pre + seq![digit_char(n % 10)]);
        assert(s.subrange(i, i + pre.len() as int) =~= pre) by {
            assert forall|p: int| 0 <= p < pre.len() implies s.subrange(
                i,
                i + pre.len() as int,
            )[p] == pre[p] by {
                assert(s.subrange(i, i + full.len() as int)[p] == full[p]);
            };
        };
        lemma_digits_value_of(s, i, n / 10);
        lemma_digit_char_val(n % 10);
        assert(s[i + full.len() - 1] == full[full.len() - 1]);
        assert(digits_value(s, i, i + full.len() as int) == digits_value(
            s,
            i,
            i + full.len() - 1,
        ) * 10 + digit_val(s[i + full.len() - 1]));
    }
}

/// A digit run bounded by a non-digit ends exactly at the bound.
proof fn lemma_digits_end_run(s: Seq<char>, i: int, e: int)
    requires
        0 <= i <= e <= s.len(),
        forall|p: int| i <= p < e ==> is_digit(#[trigger] s[p]),
        e == s.len() || !is_digit(s[e]),
    ensures
        digits_end(s, i) == e,
    decreases e - i,
{
    if i < e {
        lemma_digits_end_run(s, i + 1, e);
        assert(digits_count(s, i) == 1 + digits_count(s, i + 1));
    } else {
        assert(digits_count(s, i) == 0);
    }
}

/// Whitespace skipping stands still on a non-whitespace character.
proof fn lemma_skip_ws_still(s: Seq<char>, i: int)
    requires
        0 <= i,
        i == s.len() || !is_ws(s[i]),
    ensures
        skip_ws(s, i) == i,
{
    assert(ws_count(s, i) == 0);
}

/// Position `e` cannot extend a number: the end of the text or a character
/// that is no digit, point or exponent mark.
pub open spec fn stops_number(s: Seq<char>, e: int) -> bool {
    e == s.len() || !(is_digit(s[e]) || s[e] == '.' || s[e] == 'e' || s[e] == 'E')
}

/// Parsing a serialized integer embedded at `i` yields it back.
proof fn lemma_number_rt(s: Seq<char>, i: int, n: int)
    requires
        -0x8000000000000000 <= n <= 0x7fffffffffffffff,
        0 <= i,
        i + spec_int_chars(n).len() <= s.len(),
        s.subrange(i, i + spec_int_chars(n).len()) == spec_int_chars(n),
        stops_number(s, i + spec_int_chars(n).len()),
    ensures
        spec_parse_number(s, i) == Some((SpecValue::Int(n), i + spec_int_chars(n).len())),
{
    let full = spec_int_chars(n);
    let mag: nat = if n < 0 {
        (-n) as nat
    } else {
        n as nat
    };
    assert(pow10(19) == 10000000000000000000) by {
        reveal_with_fuel(pow10, 20);
    };
    lemma_spec_digits_len(mag, 19);
    lemma_spec_digits_chars(mag);
    let d0 = if n < 0 {
        i + 1
    } else {
        i
    };
    let dl = spec_digits(mag).len();
    // the digit run sits at d0
    assert(s.subrange(d0, d0 + dl as int) =~= spec_digits(mag)) by {
        assert forall|p: int| 0 <= p < dl implies s.subrange(d0, d0 + dl as int)[p]
            == spec_digits(mag)[p] by {
            if n < 0 {
                assert(full == seq!['-'] + spec_digits(mag));
                assert(s.subrange(i, i + full.len() as int)[p + 1] == full[p + 1]);
            } else {
                assert(full == spec_digits(mag));
                assert(s.subrange(i, i + full.len() as int)[p] == full[p]);
            }
        };
    };
    assert forall|p: int| d0 <= p < d0 + dl implies is_digit(#[trigger] s[p]) by {
        assert(s[p] == spec_digits(mag)[p - d0]);
    };
    lemma_digits_end_run(s, d0, d0 + dl as int);
    lemma_digits_value_of(s, d0, mag);
    if n < 0 {
        assert(s[i] == full[0]);
        assert(full[0] == '-');
    } else {
        assert(s[i] == spec_digits(mag)[0]);
        assert(is_digit(s[i]));
        assert(s[i] != '-');
    }
    if mag >= 10 {
        assert(s[d0] != '0');
    }
}

/// Parsing an escaped string body embedded at `i`, up to its closing quote,
/// yields the content back.
proof fn lemma_string_rt(s: Seq<char>, i: int, content: Seq<char>)
    requires
        0 <= i,
        i + esc_str(content).len() + 1 <= s.len(),
        s.subrange(i, i + esc_str(content).len() + 1) == esc_str(content) + seq!['"'],
    ensures
        spec_parse_string(s, i) == Some((content, i + esc_str(content).len() + 1)),
    decreases content.len(),
{
    let full = esc_str(content) + seq!['"'];
    if content.len() == 0 {
        assert(esc_str(content) == Seq::<char>::empty());
        assert(s[i] == full[0]);
    } else {
        let c = content[0];
        let rest = content.subrange(1, content.len() as int);
        assert(esc_str(content) == esc_char(c) + esc_str(rest));
        let k = esc_char(c).len() as int;
        assert(s.subrange(i + k, i + esc_str(content).len() + 1) =~= esc_str(rest) + seq!['"'])
            by {
            assert forall|p: int| 0 <= p < esc_str(rest).len() + 1 implies s.subrange(
                i + k,
                i + esc_str(content).len() + 1,
            )[p] == (esc_str(rest) + seq!['"'])[p] by {
                assert(s.subrange(i, i + full.len() as int)[p + k] == full[p + k]);
            };
        };
        lemma_string_rt(s, i + k, rest);
        assert(seq![c] + rest =~= content);
        assert forall|p: int| 0 <= p < k implies s[i + p] == esc_char(c)[p] by {
            assert(s.subrange(i, i + full.len() as int)[p] == full[p]);
        };
        let u = c as u32;
        if c == '"' || c == '\\' || c == '\u{8}' || c == '\u{c}' || c == '\n' || c == '\r' || c
            == '\t' {
            assert(s[i] == '\\');
            assert(s[i + 1] == esc_char(c)[1]);
        } else if u < 0x20 {
            assert(esc_char(c) == seq![
                '\\',
                'u',
                '0',
                '0',
                hex_char((u / 16) as nat),
                hex_char((u % 16) as nat),
            ]);
            assert(s[i] == '\\' && s[i + 1] == 'u' && s[i + 2] == '0' && s[i + 3] == '0');
            assert(s[i + 4] == hex_char((u / 16) as nat));
            assert(s[i + 5] == hex_char((u % 16) as nat));
            lemma_hex_char_val((u / 16) as nat);
            lemma_hex_char_val((u % 16) as nat);
            assert(hex_val(s[i + 2]) == 0 && hex_val(s[i + 3]) == 0);
            let code = 4096 * hex_val(s[i + 2]) + 256 * hex_val(s[i + 3]) + 16 * hex_val(
                s[i + 4],
            ) + hex_val(s[i + 5]);
            assert(code == u);
            vstd::utf8::char_u32_cast(c, u);
            assert(((code as u32) as char) == c);
        } else {
            assert(esc_char(c) == seq![c]);
            assert(s[i] == c);
        }
    }
}

/// The characters of a window, addressed from its start.
proof fn lemma_window_chars(s: Seq<char>, i: int, w: Seq<char>)
    requires
        0 <= i,
        i + w.len() <= s.len(),
        s.subrange(i, i + w.len() as int) == w,
    ensures
        forall|p: int| 0 <= p < w.len() ==> s[i + p] == #[trigger] w[p],
{
    assert forall|p: int| 0 <= p < w.len() implies s[i + p] == #[trigger] w[p] by {
        assert(s.subrange(i, i + w.len() as int)[p] == w[p]);
    };
}

/// A window shifted into a larger established window.
proof fn lemma_sub_window(s: Seq<char>, i: int, w: Seq<char>, k: int, u: Seq<char>)
    requires
        0 <= i,
        i + w.len() <= s.len(),
        s.subrange(i, i + w.len() as int) == w,
        0 <= k,
        k + u.len() <= w.len(),
        forall|p: int| 0 <= p < u.len() ==> w[k + p] == #[trigger] u[p],
    ensures
        s.subrange(i + k, i + k + u.len() as int) == u,
{
    lemma_window_chars(s, i, w);
    assert(s.subrange(i + k, i + k + u.len() as int) =~= u) by {
        assert forall|p: int| 0 <= p < u.len() implies s.subrange(
            i + k,
            i + k + u.len() as int,
        )[p] == u[p] by {
            assert(w[k + p] == u[p]);
            assert(s[i + (k + p)] == w[k + p]);
        };
    };
}

/// Serialized text is never empty, and opens with a character that is no
/// whitespace, separator or closer.
proof fn lemma_spec_json_first(v: SpecValue)
    ensures
        spec_json(v).len() >= 1,
        !is_ws(spec_json(v)[0]),
        spec_json(v)[0] != ']',
        spec_json(v)[0] != '}',
        spec_json(v)[0] != ',',
        spec_json(v)[0] != ':',
{
    match v {
        SpecValue::Int(n) => {
            let mag: nat = if n < 0 {
                (-n) as nat
            } else {
                n as nat
            };
            lemma_spec_digits_chars(mag);
            if n >= 0 {
                assert(spec_json(v)[0] == spec_digits(mag)[0]);
                assert(is_digit(spec_json(v)[0]));
            }
        },
        SpecValue::Arr(a) => {
            if a.len() > 0 {
                assert(spec_json(v)[0] == (seq!['['] + crate::json::spec_items(a)
                    + seq![']'])[0]);
            }
        },
        SpecValue::Obj(m) => {
            if m.len() > 0 {
                assert(spec_json(v)[0] == (seq!['{'] + crate::json::spec_members(m)
                    + seq!['}'])[0]);
            }
        },
        _ => {},
    }
}

/// Parsing a serialized value embedded at `i` yields it back.
proof fn lemma_value_rt(s: Seq<char>, i: int, v: SpecValue)
    requires
        bounded_ints(v),
        0 <= i,
        i + spec_json(v).len() <= s.len(),
        s.subrange(i, i + spec_json(v).len()) == spec_json(v),
        stops_number(s, i + spec_json(v).len()),
    ensures
        spec_parse_value(s, i) == Some((v, i + spec_json(v).len())),
    decreases v, 0int,
{
    let full = spec_json(v);
    lemma_window_chars(s, i, full);
    lemma_spec_json_first(v);
    lemma_skip_ws_still(s, i);
    match v {
        SpecValue::Null => {
            assert(s[i + 0] == full[0] && s[i + 1] == full[1] && s[i + 2] == full[2] && s[i + 3]
                == full[3]);
        },
        SpecValue::Bool(b) => {
            if b {
                assert(s[i + 0] == full[0] && s[i + 1] == full[1] && s[i + 2] == full[2] && s[i
                    + 3] == full[3]);
            } else {
                assert(s[i + 0] == full[0] && s[i + 1] == full[1] && s[i + 2] == full[2] && s[i
                    + 3] == full[3] && s[i + 4] == full[4]);
            }
        },
        SpecValue::Int(n) => {
            lemma_number_rt(s, i, n);
            assert(s[i + 0] == full[0]);
            if n < 0 {
                assert(full[0] == '-');
            } else {
                lemma_spec_digits_chars(n as nat);
                assert(is_digit(full[0]));
            }
        },
        SpecValue::Str(content) => {
            assert(s[i + 0] == full[0]);
            assert(full == seq!['"'] + (esc_str(content) + seq!['"']));
            assert(full[0] == '"');
            let tail = esc_str(content) + seq!['"'];
            assert forall|p: int| 0 <= p < tail.len() implies full[1 + p] == #[trigger] tail[p]
                by {};
            lemma_sub_window(s, i, full, 1, tail);
            lemma_string_rt(s, i + 1, content);
        },
        SpecValue::Arr(a) => {
            assert(s[i + 0] == full[0]);
            if a.len() == 0 {
                assert(full == seq!['[', ']']);
                assert(s[i + 1] == full[1]);
                lemma_skip_ws_still(s, i + 1);
                assert(a =~= Seq::<SpecValue>::empty());
            } else {
                let items = crate::json::spec_items(a);
                assert(full == seq!['['] + (items + seq![']']));
                assert(full[0] == '[');
                let tail = items + seq![']'];
                assert forall|p: int| 0 <= p < tail.len() implies full[1 + p] == #[trigger] tail[p]
                    by {};
                lemma_sub_window(s, i, full, 1, tail);
                lemma_elems_rt(s, i + 1, a);
                lemma_items_first(a);
                assert(s[i + 1] == full[1]);
                assert(full[1] == items[0]);
                lemma_skip_ws_still(s, i + 1);
            }
        },
        SpecValue::Obj(m) => {
            assert(s[i + 0] == full[0]);
            if m.len() == 0 {
                assert(full == seq!['{', '}']);
                assert(s[i + 1] == full[1]);
                lemma_skip_ws_still(s, i + 1);
                assert(m =~= Seq::<(Seq<char>, SpecValue)>::empty());
            } else {
                let members = crate::json::spec_members(m);
                assert(full == seq!['{'] + (members + seq!['}']));
                assert(full[0] == '{');
                let tail = members + seq!['}'];
                assert forall|p: int| 0 <= p < tail.len() implies full[1 + p] == #[trigger] tail[p]
                    by {};
                lemma_sub_window(s, i, full, 1, tail);
                lemma_members_rt(s, i + 1, m);
                lemma_members_first(m);
                assert(s[i + 1] == full[1]);
                assert(full[1] == members[0]);
                lemma_skip_ws_still(s, i + 1);
            }
        },
    }
}

/// A non-empty item list opens with the first item's first character.
proof fn lemma_items_first(a: Seq<SpecValue>)
    requires
        a.len() >= 1,
    ensures
        crate::json::spec_items(a).len() >= 1,
        crate::json::spec_items(a)[0] == spec_json(a[0])[0],
        !is_ws(crate::json::spec_items(a)[0]),
        crate::json::spec_items(a)[0] != ']',
{
    lemma_spec_json_first(a[0]);
}

/// A non-empty member list opens with a quote.
proof fn lemma_members_first(m: Seq<(Seq<char>, SpecValue)>)
    requires
        m.len() >= 1,
    ensures
        crate::json::spec_members(m).len() >= 1,
        crate::json::spec_members(m)[0] == '"',
{
    assert(spec_str_lit(m[0].0) == seq!['"'] + esc_str(m[0].0) + seq!['"']);
    assert(spec_str_lit(m[0].0)[0] == '"');
    assert(crate::json::spec_members(m)[0] == spec_str_lit(m[0].0)[0]);
}

/// Parsing serialized array items embedded at `i`, up to the closing
/// bracket, yields them back.
proof fn lemma_elems_rt(s: Seq<char>, i: int, a: Seq<SpecValue>)
    requires
        a.len() >= 1,
        bounded_list(a),
        0 <= i,
        i + crate::json::spec_items(a).len() + 1 <= s.len(),
        s.subrange(i, i + crate::json::spec_items(a).len() + 1) == crate::json::spec_items(a)
            + seq![']'],
    ensures
        crate::json::spec_parse_elems(s, i) == Some(
            (a, i + crate::json::spec_items(a).len() + 1),
        ),
    decreases a, 1int,
{
    let items = crate::json::spec_items(a);
    let full = items + seq![']'];
    lemma_window_chars(s, i, full);
    let head = a[0];
    let hw = spec_json(head);
    let hl = hw.len() as int;
    lemma_spec_json_first(head);
    if a.len() == 1 {
        assert(items == hw);
        assert(full == hw + seq![']']);
        assert forall|p: int| 0 <= p < hw.len() implies full[0 + p] == #[trigger] hw[p] by {};
        lemma_sub_window(s, i, full, 0, hw);
        assert(s[i + hl] == full[hl]);
        assert(full[hl] == ']');
        lemma_value_rt(s, i, head);
        lemma_skip_ws_still(s, i + hl);
        assert(seq![head] =~= a);
    } else {
        let rest = a.subrange(1, a.len() as int);
        let rest_items = crate::json::spec_items(rest);
        assert(items == hw + seq![','] + rest_items);
        assert(full == (hw + seq![','] + rest_items) + seq![']']);
        assert forall|p: int| 0 <= p < hw.len() implies full[0 + p] == #[trigger] hw[p] by {};
        lemma_sub_window(s, i, full, 0, hw);
        assert(s[i + hl] == full[hl]);
        assert(full[hl] == ',');
        lemma_value_rt(s, i, head);
        lemma_skip_ws_still(s, i + hl);
        let tail = rest_items + seq![']'];
        assert forall|p: int| 0 <= p < tail.len() implies full[hl + 1 + p] == #[trigger] tail[p]
            by {
            if p < rest_items.len() {
                assert(tail[p] == rest_items[p]);
                assert(full[hl + 1 + p] == items[hl + 1 + p]);
                assert(items[hl + 1 + p] == rest_items[p]);
            } else {
                assert(tail[p] == ']');
                assert(full[hl + 1 + p] == ']');
            }
        };
        lemma_sub_window(s, i, full, hl + 1, tail);
        lemma_elems_rt(s, i + hl + 1, rest);
        assert(seq![head] + rest =~= a);
    }
}

/// Parsing serialized object members embedded at `i`, up to the closing
/// brace, yields them back.
proof fn lemma_members_rt(s: Seq<char>, i: int, m: Seq<(Seq<char>, SpecValue)>)
    requires
        m.len() >= 1,
        bounded_pairs(m),
        0 <= i,
        i + crate::json::spec_members(m).len() + 1 <= s.len(),
        s.subrange(i, i + crate::json::spec_members(m).len() + 1) == crate::json::spec_members(m)
            + seq!['}'],
    ensures
        crate::json::spec_parse_members(s, i) == Some(
            (m, i + crate::json::spec_members(m).len() + 1),
        ),
    decreases m, 1int,
{
    let members = crate::json::spec_members(m);
    let full = members + seq!['}'];
    lemma_window_chars(s, i, full);
    let key = m[0].0;
    let head = m[0].1;
    let lit = spec_str_lit(key);
    let ll = lit.len() as int;
    let hw = spec_json(head);
    let hl = hw.len() as int;
    lemma_spec_json_first(head);
    assert(lit == seq!['"'] + esc_str(key) + seq!['"']);
    if m.len() == 1 {
        assert(members == lit + seq![':'] + hw);
    } else {
        assert(members == lit + seq![':'] + hw + seq![','] + crate::json::spec_members(
            m.subrange(1, m.len() as int)));
    }
    assert(s[i + 0] == full[0]);
    assert(full[0] == members[0]);
    assert(members[0] == lit[0]);
    assert(lit[0] == '"');
    lemma_skip_ws_still(s, i);
    // the key's body with its closing quote
    let key_tail = esc_str(key) + seq!['"'];
    assert forall|p: int| 0 <= p < key_tail.len() implies full[1 + p] == #[trigger] key_tail[p]
        by {
        assert(full[1 + p] == members[1 + p]);
        assert(members[1 + p] == lit[1 + p]);
        if p < esc_str(key).len() {
            assert(lit[1 + p] == esc_str(key)[p]);
        } else {
            assert(lit[1 + p] == '"');
        }
    };
    lemma_sub_window(s, i, full, 1, key_tail);
    lemma_string_rt(s, i + 1, key);
    assert(s[i + ll] == full[ll]);
    assert(full[ll] == members[ll]);
    assert(members[ll] == ':');
    lemma_skip_ws_still(s, i + ll);
    let vk = ll + 1;
    assert forall|p: int| 0 <= p < hw.len() implies full[vk + p] == #[trigger] hw[p] by {
        assert(full[vk + p] == members[vk + p]);
        assert(members[vk + p] == hw[p]);
    };
    lemma_sub_window(s, i, full, vk, hw);
    assert(s[i + vk + hl] == full[vk + hl]);
    if m.len() == 1 {
        assert(full[vk + hl] == '}');
        lemma_value_rt(s, i + vk, head);
        lemma_skip_ws_still(s, i + vk + hl);
        assert(seq![(key, head)] =~= m);
    } else {
        let rest = m.subrange(1, m.len() as int);
        let rest_members = crate::json::spec_members(rest);
        assert(full[vk + hl] == members[vk + hl]);
        assert(members[vk + hl] == ',');
        lemma_value_rt(s, i + vk, head);
        lemma_skip_ws_still(s, i + vk + hl);
        let tail = rest_members + seq!['}'];
        assert forall|p: int| 0 <= p < tail.len() implies full[vk + hl + 1 + p]
            == #[trigger] tail[p] by {
            if p < rest_members.len() {
                assert(tail[p] == rest_members[p]);
                assert(full[vk + hl + 1 + p] == members[vk + hl + 1 + p]);
                assert(members[vk + hl + 1 + p] == rest_members[p]);
            } else {
                assert(tail[p] == '}');
                assert(full[vk + hl + 1 + p] == '}');
            }
        };
        lemma_sub_window(s, i, full, vk + hl + 1, tail);
        lemma_members_rt(s, i + vk + hl + 1, rest);
        assert(seq![(key, head)] + rest =~= m);
    }
}

/// Parsing the serialized text of a value yields the value back.
pub proof fn lemma_parse_of_serialized(v: SpecValue)
    requires
        bounded_ints(v),
    ensures
        spec_parse_json(spec_json(v)) == Some(v),
{
    let s = spec_json(v);
    assert(s.subrange(0, s.len() as int) =~= s);
    lemma_value_rt(s, 0, v);
    lemma_skip_ws_still(s, s.len() as int);
}

/// A composite query drops no well-formed sub-query: re-parsing a list of
/// serialized values yields exactly those values, in order.
pub proof fn lemma_parsed_list_of_serialized(vs: Seq<SpecValue>)
    requires
        forall|i: int| 0 <= i < vs.len() ==> bounded_ints(#[trigger] vs[i]),
    ensures
        crate::query::parsed_list(vs.map_values(|v: SpecValue| spec_json(v))) == vs,
    decreases vs.len(),
{
    let texts = vs.map_values(|v: SpecValue| spec_json(v));
    if vs.len() == 0 {
        assert(crate::query::parsed_list(texts) =~= vs);
    } else {
        lemma_parse_of_serialized(vs[0]);
        let rest = vs.subrange(1, vs.len() as int);
        lemma_parsed_list_of_serialized(rest);
        assert(texts.subrange(1, texts.len() as int) =~= rest.map_values(
            |v: SpecValue| spec_json(v),
        ));
        assert(texts[0] == spec_json(vs[0]));
        assert(crate::query::parsed_list(texts) =~= vs);
    }
}

/// The model of every exec value is bounded: its integers are 64-bit.
pub proof fn lemma_jv_bounded(v: JsonValue)
    ensures
        bounded_ints(jv(v)),
    decreases v,
{
    match v {
        JsonValue::Arr(a) => lemma_jv_bounded_list(a@),
        JsonValue::Obj(m) => lemma_jv_bounded_pairs(m@),
        _ => {},
    }
}

/// `lemma_jv_bounded` over a list.
proof fn lemma_jv_bounded_list(a: Seq<JsonValue>)
    ensures
        bounded_list(jv_list(a)),
    decreases a,
{
    if a.len() > 0 {
        lemma_jv_bounded(a[0]);
        lemma_jv_bounded_list(a.subrange(1, a.len() as int));
        assert(jv_list(a) == seq![jv(a[0])] + jv_list(a.subrange(1, a.len() as int)));
        assert(jv_list(a).subrange(1, jv_list(a).len() as int) =~= jv_list(
            a.subrange(1, a.len() as int)));
        assert(jv_list(a)[0] == jv(a[0]));
    }
}

/// `lemma_jv_bounded` over object members.
proof fn lemma_jv_bounded_pairs(m: Seq<(String, JsonValue)>)
    ensures
        bounded_pairs(jv_pairs(m)),
    decreases m,
{
    if m.len() > 0 {
        lemma_jv_bounded(m[0].1);
        lemma_jv_bounded_pairs(m.subrange(1, m.len() as int));
        assert(jv_pairs(m) == seq![(m[0].0@, jv(m[0].1))] + jv_pairs(
            m.subrange(1, m.len() as int)));
        assert(jv_pairs(m).subrange(1, jv_pairs(m).len() as int) =~= jv_pairs(
            m.subrange(1, m.len() as int)));
        assert(jv_pairs(m)[0] == (m[0].0@, jv(m[0].1)));
    }
}

/// Round trip at the exec model: parsing the serialized text of any value
/// the library can build yields that value's model back.
pub proof fn lemma_value_round_trip(v: JsonValue)
    ensures
        spec_parse_json(spec_json(jv(v))) == Some(jv(v)),
{
    lemma_jv_bounded(v);
    lemma_parse_of_serialized(jv(v));
}

} // verus!
