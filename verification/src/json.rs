use vstd::prelude::*;

verus! {

/// The mathematical shape of a JSON value.
///
/// A number is kept as its literal text: the document schema never
/// reads a number, so its numeric value plays no part here.  A string
/// holds its decoded character content.  An object holds its bindings
/// in text order.
pub enum JsonSpec {
    Null,
    Bool(bool),
    Num(Seq<char>),
    Str(Seq<char>),
    Arr(Seq<JsonSpec>),
    Obj(Seq<(Seq<char>, JsonSpec)>),
}

/// An in-memory JSON value, the executable counterpart of `JsonSpec`.
pub enum Json {
    Null,
    Bool(bool),
    Num(Vec<char>),
    Str(Vec<char>),
    Arr(Vec<Json>),
    Obj(Vec<(Vec<char>, Json)>),
}

impl Json {
    pub open spec fn to_spec(self) -> JsonSpec
        decreases self, 0int,
    {
        match self {
            Json::Null => JsonSpec::Null,
            Json::Bool(b) => JsonSpec::Bool(b),
            Json::Num(lex) => JsonSpec::Num(lex@),
            Json::Str(s) => JsonSpec::Str(s@),
            Json::Arr(elems) => JsonSpec::Arr(spec_list(elems@)),
            Json::Obj(pairs) => JsonSpec::Obj(spec_pairs(pairs@)),
        }
    }
}

pub open spec fn spec_list(elems: Seq<Json>) -> Seq<JsonSpec>
    decreases elems, 1int,
{
    if elems.len() == 0 {
        Seq::empty()
    } else {
        seq![elems[0].to_spec()] + spec_list(elems.drop_first())
    }
}

pub open spec fn spec_pairs(pairs: Seq<(Vec<char>, Json)>) -> Seq<(Seq<char>, JsonSpec)>
    decreases pairs, 1int,
{
    if pairs.len() == 0 {
        Seq::empty()
    } else {
        seq![(pairs[0].0@, pairs[0].1.to_spec())] + spec_pairs(pairs.drop_first())
    }
}

impl View for Json {
    type V = JsonSpec;

    open spec fn view(&self) -> JsonSpec {
        (*self).to_spec()
    }
}

/// The lower-case hexadecimal digit for a value below sixteen.
pub open spec fn hex_digit(n: int) -> char {
    if n == 0 { '0' }
    else if n == 1 { '1' }
    else if n == 2 { '2' }
    else if n == 3 { '3' }
    else if n == 4 { '4' }
    else if n == 5 { '5' }
    else if n == 6 { '6' }
    else if n == 7 { '7' }
    else if n == 8 { '8' }
    else if n == 9 { '9' }
    else if n == 10 { 'a' }
    else if n == 11 { 'b' }
    else if n == 12 { 'c' }
    else if n == 13 { 'd' }
    else if n == 14 { 'e' }
    else { 'f' }
}

/// How one character of string content appears inside a JSON string
/// literal: the quote and the backslash take a two-character escape,
/// control characters take their short escape where one exists and a
/// `\u00XX` escape otherwise, and every other character stands as
/// itself.
pub open spec fn esc_char(c: char) -> Seq<char> {
    if c == '"' { seq!['\\', '"'] }
    else if c == '\\' { seq!['\\', '\\'] }
    else if c == '\u{8}' { seq!['\\', 'b'] }
    else if c == '\u{9}' { seq!['\\', 't'] }
    else if c == '\u{a}' { seq!['\\', 'n'] }
    else if c == '\u{c}' { seq!['\\', 'f'] }
    else if c == '\u{d}' { seq!['\\', 'r'] }
    else if (c as u32) < 32 {
        seq!['\\', 'u', '0', '0', hex_digit((c as u32) as int / 16), hex_digit((c as u32) as int % 16)]
    } else {
        seq![c]
    }
}

/// The escaped body of a JSON string literal.
pub open spec fn esc_str(s: Seq<char>) -> Seq<char>
    decreases s.len(),
{
    if s.len() == 0 {
        Seq::empty()
    } else {
        esc_char(s[0]) + esc_str(s.drop_first())
    }
}

/// A complete JSON string literal: the escaped body between quotes.
pub open spec fn str_text(s: Seq<char>) -> Seq<char> {
    seq!['"'] + esc_str(s) + seq!['"']
}

/// A character that stands as itself inside a JSON string literal.
pub open spec fn is_plain_char(c: char) -> bool {
    c != '"' && c != '\\' && (c as u32) >= 32
}

/// Escaping a sequence of plain characters changes nothing.
pub proof fn lemma_esc_str_plain(s: Seq<char>)
    requires
        forall|k: int| 0 <= k < s.len() ==> is_plain_char(s[k]),
    ensures
        esc_str(s) == s,
    decreases s.len(),
{
    if s.len() > 0 {
        assert(is_plain_char(s[0]));
        assert(esc_char(s[0]) =~= seq![s[0]]);
        lemma_esc_str_plain(s.drop_first());
        assert(esc_str(s) =~= seq![s[0]] + s.drop_first());
        assert(seq![s[0]] + s.drop_first() =~= s);
    }
}

/// Escaping one more character appends that character's escape.
pub proof fn lemma_esc_str_snoc(p: Seq<char>, c: char)
    ensures
        esc_str(p.push(c)) == esc_str(p) + esc_char(c),
    decreases p.len(),
{
    if p.len() == 0 {
        assert(p.push(c) =~= seq![c]);
        assert(p.push(c).drop_first() =~= Seq::<char>::empty());
        assert(esc_str(Seq::<char>::empty()) =~= Seq::<char>::empty());
        assert(esc_str(p.push(c)) =~= esc_char(c));
        assert(esc_str(p) + esc_char(c) =~= esc_char(c));
    } else {
        lemma_esc_str_snoc(p.drop_first(), c);
        assert(p.push(c).drop_first() =~= p.drop_first().push(c));
        assert(p.push(c)[0] == p[0]);
        assert(esc_str(p.push(c)) =~= esc_char(p[0]) + esc_str(p.drop_first().push(c)));
        assert(esc_str(p.push(c)) =~= esc_str(p) + esc_char(c));
    }
}

/// One more array element appends a comma and its rendering.
pub proof fn lemma_arr_items_snoc(elems: Seq<JsonSpec>, e: JsonSpec)
    requires
        elems.len() >= 1,
    ensures
        arr_items_text(elems.push(e)) == arr_items_text(elems) + seq![','] + json_text(e),
    decreases elems.len(),
{
    if elems.len() == 1 {
        assert(elems.push(e).drop_first() =~= seq![e]);
        assert(elems.push(e)[0] == elems[0]);
        assert(arr_items_text(seq![e]) == json_text(e));
        assert(arr_items_text(elems.push(e)) =~= json_text(elems[0]) + seq![','] + json_text(e));
        assert(arr_items_text(elems) == json_text(elems[0]));
    } else {
        lemma_arr_items_snoc(elems.drop_first(), e);
        assert(elems.push(e).drop_first() =~= elems.drop_first().push(e));
        assert(elems.push(e)[0] == elems[0]);
        assert(arr_items_text(elems.push(e)) =~= json_text(elems[0]) + seq![','] + arr_items_text(
            elems.drop_first().push(e),
        ));
        assert(arr_items_text(elems.push(e)) =~= arr_items_text(elems) + seq![','] + json_text(e));
    }
}

/// The compact rendering of a JSON value: no whitespace, object
/// bindings in their stored order, strings escaped as `esc_char`
/// describes.  This is the destination format of the converter.
pub open spec fn json_text(v: JsonSpec) -> Seq<char>
    decreases v, 0int,
{
    match v {
        JsonSpec::Null => seq!['n', 'u', 'l', 'l'],
        JsonSpec::Bool(b) => if b {
            seq!['t', 'r', 'u', 'e']
        } else {
            seq!['f', 'a', 'l', 's', 'e']
        },
        JsonSpec::Num(lex) => lex,
        JsonSpec::Str(s) => str_text(s),
        JsonSpec::Arr(elems) => if elems.len() == 0 {
            seq!['[', ']']
        } else {
            seq!['['] + arr_items_text(elems) + seq![']']
        },
        JsonSpec::Obj(pairs) => if pairs.len() == 0 {
            seq!['{', '}']
        } else {
            seq!['{'] + obj_items_text(pairs) + seq!['}']
        },
    }
}

/// The comma-separated renderings of the elements of a non-empty array.
pub open spec fn arr_items_text(elems: Seq<JsonSpec>) -> Seq<char>
    decreases elems, 1int,
{
    if elems.len() == 0 {
        Seq::empty()
    } else if elems.len() == 1 {
        json_text(elems[0])
    } else {
        json_text(elems[0]) + seq![','] + arr_items_text(elems.drop_first())
    }
}

/// The comma-separated renderings of the bindings of a non-empty object.
pub open spec fn obj_items_text(pairs: Seq<(Seq<char>, JsonSpec)>) -> Seq<char>
    decreases pairs, 1int,
{
    if pairs.len() == 0 {
        Seq::empty()
    } else if pairs.len() == 1 {
        str_text(pairs[0].0) + seq![':'] + json_text(pairs[0].1)
    } else {
        str_text(pairs[0].0) + seq![':'] + json_text(pairs[0].1) + seq![','] + obj_items_text(
            pairs.drop_first(),
        )
    }
}

} // verus!
