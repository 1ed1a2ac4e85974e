use vstd::prelude::*;

use crate::json::Json;
use crate::json::JsonSpec;

verus! {

/// The characters that may appear in a number token.
pub open spec fn is_num_char(c: char) -> bool {
    ('0' <= c && c <= '9') || c == '-' || c == '+' || c == '.' || c == 'e' || c == 'E'
}

/// Whether a number token may start with this character.
pub open spec fn is_num_start(c: char) -> bool {
    ('0' <= c && c <= '9') || c == '-'
}

/// The value of a lower-case hexadecimal digit, or -1.
pub open spec fn hex_val(c: char) -> int {
    if '0' <= c && c <= '9' {
        c as int - '0' as int
    } else if 'a' <= c && c <= 'f' {
        c as int - 'a' as int + 10
    } else {
        -1
    }
}

/// The character a short escape stands for, if the letter after the
/// backslash is one of the short escapes.
pub open spec fn esc_short(e: char) -> Option<char> {
    if e == '"' { Option::Some('"') }
    else if e == '\\' { Option::Some('\\') }
    else if e == 'b' { Option::Some('\u{8}') }
    else if e == 't' { Option::Some('\u{9}') }
    else if e == 'n' { Option::Some('\u{a}') }
    else if e == 'f' { Option::Some('\u{c}') }
    else if e == 'r' { Option::Some('\u{d}') }
    else { Option::None }
}

/// Parse the body of a string literal from position `i` (just past the
/// opening quote) up to and including the closing quote.  Returns the
/// decoded content and the position after the closing quote.  Escapes
/// are the ones `esc_char` produces: the short escapes and `\u00XX`
/// with `XX` below 0x20 in lower-case hexadecimal; unescaped control
/// characters are refused.
pub open spec fn sp_string_body(s: Seq<char>, i: int) -> Option<(Seq<char>, int)>
    decreases s.len() - i,
{
    if i < 0 || i >= s.len() {
        Option::None
    } else if s[i] == '"' {
        Option::Some((Seq::empty(), i + 1))
    } else if s[i] == '\\' {
        if i + 2 > s.len() {
            Option::None
        } else if s[i + 1] == 'u' {
            if i + 6 > s.len() {
                Option::None
            } else if s[i + 2] == '0' && s[i + 3] == '0' && hex_val(s[i + 4]) >= 0 && hex_val(
                s[i + 5],
            ) >= 0 && 16 * hex_val(s[i + 4]) + hex_val(s[i + 5]) < 32 {
                let code = 16 * hex_val(s[i + 4]) + hex_val(s[i + 5]);
                match sp_string_body(s, i + 6) {
                    Option::None => Option::None,
                    Option::Some((rest, j)) => Option::Some((seq![code as u8 as char] + rest, j)),
                }
            } else {
                Option::None
            }
        } else {
            match esc_short(s[i + 1]) {
                Option::None => Option::None,
                Option::Some(c) => match sp_string_body(s, i + 2) {
                    Option::None => Option::None,
                    Option::Some((rest, j)) => Option::Some((seq![c] + rest, j)),
                },
            }
        }
    } else if (s[i] as u32) < 32 {
        Option::None
    } else {
        match sp_string_body(s, i + 1) {
            Option::None => Option::None,
            Option::Some((rest, j)) => Option::Some((seq![s[i]] + rest, j)),
        }
    }
}

/// The position just past the run of number characters starting at `i`.
pub open spec fn sp_num_end(s: Seq<char>, i: int) -> int
    decreases s.len() - i,
{
    if i < 0 || i >= s.len() {
        i
    } else if is_num_char(s[i]) {
        sp_num_end(s, i + 1)
    } else {
        i
    }
}

/// Parse one JSON value from position `i`.  Returns the value and the
/// position just past its text.  The grammar is the compact form that
/// `json_text` renders: no whitespace anywhere, and a number token is
/// any unbroken run of number characters beginning with a digit or a
/// minus sign (its inner arrangement is not checked, since numbers
/// play no part in the document schema).
pub open spec fn sp_value(s: Seq<char>, i: int) -> Option<(JsonSpec, int)>
    decreases s.len() - i, 0int,
{
    if i < 0 || i >= s.len() {
        Option::None
    } else if s[i] == 'n' {
        if i + 4 <= s.len() && s[i + 1] == 'u' && s[i + 2] == 'l' && s[i + 3] == 'l' {
            Option::Some((JsonSpec::Null, i + 4))
        } else {
            Option::None
        }
    } else if s[i] == 't' {
        if i + 4 <= s.len() && s[i + 1] == 'r' && s[i + 2] == 'u' && s[i + 3] == 'e' {
            Option::Some((JsonSpec::Bool(true), i + 4))
        } else {
            Option::None
        }
    } else if s[i] == 'f' {
        if i + 5 <= s.len() && s[i + 1] == 'a' && s[i + 2] == 'l' && s[i + 3] == 's' && s[i + 4]
            == 'e' {
            Option::Some((JsonSpec::Bool(false), i + 5))
        } else {
            Option::None
        }
    } else if s[i] == '"' {
        match sp_string_body(s, i + 1) {
            Option::None => Option::None,
            Option::Some((content, j)) => Option::Some((JsonSpec::Str(content), j)),
        }
    } else if s[i] == '[' {
        if i + 1 < s.len() && s[i + 1] == ']' {
            Option::Some((JsonSpec::Arr(Seq::empty()), i + 2))
        } else {
            match sp_arr_items(s, i + 1) {
                Option::None => Option::None,
                Option::Some((elems, j)) => Option::Some((JsonSpec::Arr(elems), j)),
            }
        }
    } else if s[i] == '{' {
        if i + 1 < s.len() && s[i + 1] == '}' {
            Option::Some((JsonSpec::Obj(Seq::empty()), i + 2))
        } else {
            match sp_obj_items(s, i + 1) {
                Option::None => Option::None,
                Option::Some((pairs, j)) => Option::Some((JsonSpec::Obj(pairs), j)),
            }
        }
    } else if is_num_start(s[i]) {
        Option::Some((JsonSpec::Num(s.subrange(i, sp_num_end_clamped(s, i))), sp_num_end_clamped(s, i)))
    } else {
        Option::None
    }
}

/// `sp_num_end`, held inside the input: used so that the token is
/// well-defined without first proving where the scan stops.
pub open spec fn sp_num_end_clamped(s: Seq<char>, i: int) -> int {
    let e = sp_num_end(s, i + 1);
    if i + 1 <= e <= s.len() {
        e
    } else {
        i + 1
    }
}

/// Parse the elements of a non-empty array from position `i` (just past
/// the opening bracket or a comma) up to and including the closing
/// bracket.
pub open spec fn sp_arr_items(s: Seq<char>, i: int) -> Option<(Seq<JsonSpec>, int)>
    decreases s.len() - i, 1int,
{
    match sp_value(s, i) {
        Option::None => Option::None,
        Option::Some((v, j)) => {
            if !(i < j < s.len()) {
                Option::None
            } else if s[j] == ']' {
                Option::Some((seq![v], j + 1))
            } else if s[j] == ',' {
                match sp_arr_items(s, j + 1) {
                    Option::None => Option::None,
                    Option::Some((rest, k)) => Option::Some((seq![v] + rest, k)),
                }
            } else {
                Option::None
            }
        },
    }
}

/// Parse the bindings of a non-empty object from position `i` (just
/// past the opening brace or a comma) up to and including the closing
/// brace.
pub open spec fn sp_obj_items(s: Seq<char>, i: int) -> Option<(Seq<(Seq<char>, JsonSpec)>, int)>
    decreases s.len() - i, 1int,
{
    if !(0 <= i < s.len() && s[i] == '"') {
        Option::None
    } else {
        match sp_string_body(s, i + 1) {
            Option::None => Option::None,
            Option::Some((key, j)) => {
                if !(i + 1 < j < s.len() && s[j] == ':') {
                    Option::None
                } else {
                    match sp_value(s, j + 1) {
                        Option::None => Option::None,
                        Option::Some((v, k)) => {
                            if !(j + 1 < k < s.len()) {
                                Option::None
                            } else if s[k] == '}' {
                                Option::Some((seq![(key, v)], k + 1))
                            } else if s[k] == ',' {
                                match sp_obj_items(s, k + 1) {
                                    Option::None => Option::None,
                                    Option::Some((rest, m)) => Option::Some(
                                        (seq![(key, v)] + rest, m),
                                    ),
                                }
                            } else {
                                Option::None
                            }
                        },
                    }
                }
            },
        }
    }
}

/// Parse a complete text as one JSON value: the value's text must be
/// the whole input.
pub open spec fn sp_document(s: Seq<char>) -> Option<JsonSpec> {
    match sp_value(s, 0) {
        Option::None => Option::None,
        Option::Some((v, j)) => if j == s.len() {
            Option::Some(v)
        } else {
            Option::None
        },
    }
}

/// Whether a character may appear in a number token.
fn num_char(c: char) -> (r: bool)
    ensures
        r == is_num_char(c),
{
    ('0' <= c && c <= '9') || c == '-' || c == '+' || c == '.' || c == 'e' || c == 'E'
}

/// The value of a lower-case hexadecimal digit.
fn hex_val_char(c: char) -> (r: Option<u8>)
    ensures
        r is Some <==> hex_val(c) >= 0,
        r is Some ==> r->0 as int == hex_val(c) && r->0 < 16,
{
    if '0' <= c && c <= '9' {
        Option::Some((c as u32 - '0' as u32) as u8)
    } else if 'a' <= c && c <= 'f' {
        Option::Some((c as u32 - 'a' as u32 + 10) as u8)
    } else {
        Option::None
    }
}

/// Parse the body of a string literal, as `sp_string_body` describes.
fn p_string_body(s: &Vec<char>, i: usize) -> (r: Option<(Vec<char>, usize)>)
    requires
        i <= s@.len(),
    ensures
        match r {
            Option::Some((content, j)) => sp_string_body(s@, i as int) == Option::Some(
                (content@, j as int),
            ) && i < j <= s@.len(),
            Option::None => sp_string_body(s@, i as int) is None,
        },
    decreases s@.len() - i,
{
    if i >= s.len() {
        return Option::None;
    }
    let c = s[i];
    if c == '"' {
        return Option::Some((Vec::new(), i + 1));
    }
    if c == '\\' {
        if s.len() - i < 2 {
            return Option::None;
        }
        let e = s[i + 1];
        if e == 'u' {
            if s.len() - i < 6 {
                return Option::None;
            }
            if s[i + 2] != '0' || s[i + 3] != '0' {
                return Option::None;
            }
            let h1 = match hex_val_char(s[i + 4]) {
                Option::Some(h) => h,
                Option::None => { return Option::None; },
            };
            let h2 = match hex_val_char(s[i + 5]) {
                Option::Some(h) => h,
                Option::None => { return Option::None; },
            };
            let code: u8 = 16 * h1 + h2;
            if code >= 32 {
                return Option::None;
            }
            match p_string_body(s, i + 6) {
                Option::None => Option::None,
                Option::Some((mut rest, j)) => {
                    let ghost rest0 = rest@;
                    let mut content: Vec<char> = Vec::new();
                    content.push(code as char);
                    content.append(&mut rest);
                    proof {
                        let ci = 16 * hex_val(s@[i + 4]) + hex_val(s@[i + 5]);
                        assert(0 <= ci < 32);
                        assert(ci as u8 == code);
                        assert(content@ =~= seq![ci as u8 as char] + rest0);
                    }
                    Option::Some((content, j))
                },
            }
        } else {
            let dec: char = if e == '"' { '"' } else if e == '\\' { '\\' } else if e == 'b' {
                '\u{8}'
            } else if e == 't' { '\u{9}' } else if e == 'n' { '\u{a}' } else if e == 'f' {
                '\u{c}'
            } else if e == 'r' { '\u{d}' } else {
                return Option::None;
            };
            proof {
                assert(esc_short(s@[i + 1]) == Option::Some(dec));
            }
            match p_string_body(s, i + 2) {
                Option::None => Option::None,
                Option::Some((mut rest, j)) => {
                    let ghost rest0 = rest@;
                    let mut content: Vec<char> = Vec::new();
                    content.push(dec);
                    content.append(&mut rest);
                    proof {
                        assert(content@ =~= seq![dec] + rest0);
                    }
                    Option::Some((content, j))
                },
            }
        }
    } else if (c as u32) < 32 {
        Option::None
    } else {
        match p_string_body(s, i + 1) {
            Option::None => Option::None,
            Option::Some((mut rest, j)) => {
                let ghost rest0 = rest@;
                let mut content: Vec<char> = Vec::new();
                content.push(c);
                content.append(&mut rest);
                proof {
                    assert(content@ =~= seq![c] + rest0);
                }
                Option::Some((content, j))
            },
        }
    }
}

/// The position just past the run of number characters starting at `i`.
fn p_num_end(s: &Vec<char>, i: usize) -> (r: usize)
    requires
        i <= s@.len(),
    ensures
        r as int == sp_num_end(s@, i as int),
        i <= r <= s@.len(),
    decreases s@.len() - i,
{
    let mut j = i;
    while j < s.len() && num_char(s[j])
        invariant
            i <= j <= s@.len(),
            sp_num_end(s@, i as int) == sp_num_end(s@, j as int),
        decreases s@.len() - j,
    {
        j = j + 1;
    }
    j
}

/// The characters of `s` from `from` up to `to`.
fn copy_range(s: &Vec<char>, from: usize, to: usize) -> (r: Vec<char>)
    requires
        from <= to <= s@.len(),
    ensures
        r@ == s@.subrange(from as int, to as int),
{
    let mut r: Vec<char> = Vec::new();
    let mut k = from;
    while k < to
        invariant
            from <= k <= to <= s@.len(),
            r@ == s@.subrange(from as int, k as int),
        decreases to - k,
    {
        r.push(s[k]);
        k = k + 1;
        proof {
            assert(r@ =~= s@.subrange(from as int, k as int));
        }
    }
    r
}

/// Parse one JSON value, as `sp_value` describes.
fn p_value(s: &Vec<char>, i: usize) -> (r: Option<(Json, usize)>)
    requires
        i <= s@.len(),
    ensures
        match r {
            Option::Some((v, j)) => sp_value(s@, i as int) == Option::Some((v@, j as int)) && i < j
                <= s@.len(),
            Option::None => sp_value(s@, i as int) is None,
        },
    decreases s@.len() - i, 0int,
{
    if i >= s.len() {
        return Option::None;
    }
    let c = s[i];
    let rem = s.len() - i;
    if c == 'n' {
        if rem >= 4 && s[i + 1] == 'u' && s[i + 2] == 'l' && s[i + 3] == 'l' {
            Option::Some((Json::Null, i + 4))
        } else {
            Option::None
        }
    } else if c == 't' {
        if rem >= 4 && s[i + 1] == 'r' && s[i + 2] == 'u' && s[i + 3] == 'e' {
            Option::Some((Json::Bool(true), i + 4))
        } else {
            Option::None
        }
    } else if c == 'f' {
        if rem >= 5 && s[i + 1] == 'a' && s[i + 2] == 'l' && s[i + 3] == 's' && s[i + 4] == 'e' {
            Option::Some((Json::Bool(false), i + 5))
        } else {
            Option::None
        }
    } else if c == '"' {
        match p_string_body(s, i + 1) {
            Option::None => Option::None,
            Option::Some((content, j)) => Option::Some((Json::Str(content), j)),
        }
    } else if c == '[' {
        if rem >= 2 && s[i + 1] == ']' {
            proof {
                assert(crate::json::spec_list(Seq::<Json>::empty()) =~= Seq::<JsonSpec>::empty());
            }
            Option::Some((Json::Arr(Vec::new()), i + 2))
        } else {
            match p_arr_items(s, i + 1) {
                Option::None => Option::None,
                Option::Some((elems, j)) => Option::Some((Json::Arr(elems), j)),
            }
        }
    } else if c == '{' {
        if rem >= 2 && s[i + 1] == '}' {
            proof {
                assert(crate::json::spec_pairs(Seq::<(Vec<char>, Json)>::empty())
                    =~= Seq::<(Seq<char>, JsonSpec)>::empty());
            }
            Option::Some((Json::Obj(Vec::new()), i + 2))
        } else {
            match p_obj_items(s, i + 1) {
                Option::None => Option::None,
                Option::Some((pairs, j)) => Option::Some((Json::Obj(pairs), j)),
            }
        }
    } else if ('0' <= c && c <= '9') || c == '-' {
        let e = p_num_end(s, i + 1);
        let lex = copy_range(s, i, e);
        proof {
            assert(e as int == sp_num_end_clamped(s@, i as int));
        }
        Option::Some((Json::Num(lex), e))
    } else {
        Option::None
    }
}

/// Parse the elements of a non-empty array, as `sp_arr_items` describes.
fn p_arr_items(s: &Vec<char>, i: usize) -> (r: Option<(Vec<Json>, usize)>)
    requires
        i <= s@.len(),
    ensures
        match r {
            Option::Some((elems, j)) => sp_arr_items(s@, i as int) == Option::Some(
                (crate::json::spec_list(elems@), j as int),
            ) && i < j <= s@.len(),
            Option::None => sp_arr_items(s@, i as int) is None,
        },
    decreases s@.len() - i, 1int,
{
    match p_value(s, i) {
        Option::None => Option::None,
        Option::Some((v, j)) => {
            if j >= s.len() {
                return Option::None;
            }
            let d = s[j];
            if d == ']' {
                let mut elems: Vec<Json> = Vec::new();
                elems.push(v);
                proof {
                    assert(elems@.drop_first() =~= Seq::<Json>::empty());
                    assert(crate::json::spec_list(Seq::<Json>::empty())
                        =~= Seq::<JsonSpec>::empty());
                    assert(crate::json::spec_list(elems@) =~= seq![elems@[0].to_spec()]);
                }
                Option::Some((elems, j + 1))
            } else if d == ',' {
                match p_arr_items(s, j + 1) {
                    Option::None => Option::None,
                    Option::Some((mut rest, k)) => {
                        let ghost rest0 = rest@;
                        let ghost v0 = v;
                        let mut elems: Vec<Json> = Vec::new();
                        elems.push(v);
                        elems.append(&mut rest);
                        proof {
                            assert(elems@ =~= seq![v0] + rest0);
                            assert(elems@.drop_first() =~= rest0);
                            assert(crate::json::spec_list(elems@) =~= seq![v0.to_spec()]
                                + crate::json::spec_list(rest0));
                        }
                        Option::Some((elems, k))
                    },
                }
            } else {
                Option::None
            }
        },
    }
}

/// Parse the bindings of a non-empty object, as `sp_obj_items`
/// describes.
fn p_obj_items(s: &Vec<char>, i: usize) -> (r: Option<(Vec<(Vec<char>, Json)>, usize)>)
    requires
        i <= s@.len(),
    ensures
        match r {
            Option::Some((pairs, j)) => sp_obj_items(s@, i as int) == Option::Some(
                (crate::json::spec_pairs(pairs@), j as int),
            ) && i < j <= s@.len(),
            Option::None => sp_obj_items(s@, i as int) is None,
        },
    decreases s@.len() - i, 1int,
{
    if i >= s.len() {
        return Option::None;
    }
    if s[i] != '"' {
        return Option::None;
    }
    match p_string_body(s, i + 1) {
        Option::None => Option::None,
        Option::Some((key, j)) => {
            if j >= s.len() {
                return Option::None;
            }
            if j == i + 1 {
                return Option::None;
            }
            if s[j] != ':' {
                return Option::None;
            }
            match p_value(s, j + 1) {
                Option::None => Option::None,
                Option::Some((v, k)) => {
                    if k >= s.len() {
                        return Option::None;
                    }
                    let d = s[k];
                    if d == '}' {
                        let mut pairs: Vec<(Vec<char>, Json)> = Vec::new();
                        let ghost key0 = key@;
                        let ghost v0 = v;
                        pairs.push((key, v));
                        proof {
                            assert(pairs@.drop_first() =~= Seq::<(Vec<char>, Json)>::empty());
                            assert(crate::json::spec_pairs(Seq::<(Vec<char>, Json)>::empty())
                                =~= Seq::<(Seq<char>, JsonSpec)>::empty());
                            assert(crate::json::spec_pairs(pairs@) =~= seq![
                                (key0, v0.to_spec()),
                            ]);
                        }
                        Option::Some((pairs, k + 1))
                    } else if d == ',' {
                        match p_obj_items(s, k + 1) {
                            Option::None => Option::None,
                            Option::Some((mut rest, m)) => {
                                let ghost rest0 = rest@;
                                let ghost key0 = key@;
                                let ghost v0 = v;
                                let mut pairs: Vec<(Vec<char>, Json)> = Vec::new();
                                pairs.push((key, v));
                                pairs.append(&mut rest);
                                proof {
                                    assert(pairs@ =~= seq![(pairs@[0].0, pairs@[0].1)] + rest0);
                                    assert(pairs@.drop_first() =~= rest0);
                                    assert(crate::json::spec_pairs(pairs@) =~= seq![
                                        (key0, v0.to_spec()),
                                    ] + crate::json::spec_pairs(rest0));
                                }
                                Option::Some((pairs, m))
                            },
                        }
                    } else {
                        Option::None
                    }
                },
            }
        },
    }
}

/// Parse a complete text as one JSON value, as `sp_document` describes.
pub fn parse_document(s: &Vec<char>) -> (r: Option<Json>)
    ensures
        match r {
            Option::Some(v) => sp_document(s@) == Option::Some(v@),
            Option::None => sp_document(s@) is None,
        },
{
    match p_value(s, 0) {
        Option::None => Option::None,
        Option::Some((v, j)) => {
            if j == s.len() {
                Option::Some(v)
            } else {
                Option::None
            }
        },
    }
}

} // verus!
