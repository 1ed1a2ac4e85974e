use vstd::prelude::*;

use crate::codec::spec_decode;
use crate::json::esc_char;
use crate::json::esc_str;
use crate::json::hex_digit;
use crate::json::json_text;
use crate::json::lemma_esc_str_plain;
use crate::json::str_text;
use crate::json::JsonSpec;
use crate::model::doc_json;
use crate::model::docs_json;
use crate::model::lemma_doc_json_text;
use crate::model::notes_key;
use crate::model::notes_value;
use crate::model::title_key;
use crate::model::DocSpec;
use crate::parse::esc_short;
use crate::parse::hex_val;
use crate::parse::sp_arr_items;
use crate::parse::sp_document;
use crate::parse::sp_obj_items;
use crate::parse::sp_string_body;
use crate::parse::sp_value;
use crate::validate::find_key;
use crate::validate::lemma_find_key_char;
use crate::validate::sv_doc;
use crate::validate::sv_docs;

verus! {

/// Reading back an emitted hexadecimal digit gives the value.
proof fn lemma_hex_roundtrip(n: int)
    requires
        0 <= n < 16,
    ensures
        hex_val(hex_digit(n)) == n,
{
}

/// The first character of a document's rendering.
proof fn lemma_doc_text_first(d: DocSpec)
    ensures
        json_text(doc_json(d))[0] == '{',
{
    lemma_doc_json_text(d);
    assert((seq!['{'] + str_text(title_key()) + seq![':'] + str_text(d.title) + seq![',']
        + str_text(notes_key()) + seq![':'] + json_text(notes_value(d)) + seq!['}'])[0] == '{');
}

/// Where a stretch of text equals three parts, each part stands at
/// its offset.
proof fn lemma_split3(s: Seq<char>, i: int, c1: Seq<char>, c2: Seq<char>, c3: Seq<char>)
    requires
        0 <= i,
        i + (c1 + c2 + c3).len() <= s.len(),
        s.subrange(i, i + (c1 + c2 + c3).len()) == c1 + c2 + c3,
    ensures
        s.subrange(i, i + c1.len()) == c1,
        s.subrange(i + c1.len(), i + c1.len() + c2.len()) == c2,
        s.subrange(i + c1.len() + c2.len(), i + c1.len() + c2.len() + c3.len()) == c3,
        forall|m: int| 0 <= m < c1.len() ==> s[i + m] == c1[m],
        forall|m: int| 0 <= m < c2.len() ==> s[i + c1.len() + m] == c2[m],
        forall|m: int| 0 <= m < c3.len() ==> s[i + c1.len() + c2.len() + m] == c3[m],
        c1.len() == 1 ==> s[i] == c1[0],
        c2.len() == 1 ==> s[i + c1.len()] == c2[0],
        c3.len() == 1 ==> s[i + c1.len() + c2.len()] == c3[0],
{
    let w = c1 + c2 + c3;
    assert forall|m: int| 0 <= m < w.len() implies s[i + m] == w[m] by {
        assert(s.subrange(i, i + w.len())[m] == s[i + m]);
    }
    assert forall|m: int| 0 <= m < c1.len() implies s[i + m] == c1[m] by {
        assert(w[m] == c1[m]);
    }
    assert forall|m: int| 0 <= m < c2.len() implies s[i + c1.len() + m] == c2[m] by {
        assert(w[c1.len() + m] == c2[m]);
    }
    assert forall|m: int| 0 <= m < c3.len() implies s[i + c1.len() + c2.len() + m] == c3[m] by {
        assert(w[c1.len() + c2.len() + m] == c3[m]);
    }
    assert(s.subrange(i, i + c1.len()) =~= c1);
    assert(s.subrange(i + c1.len(), i + c1.len() + c2.len()) =~= c2);
    assert(s.subrange(i + c1.len() + c2.len(), i + c1.len() + c2.len() + c3.len()) =~= c3);
    if c1.len() == 1 {
        assert(s.subrange(i, i + w.len())[0] == s[i + 0]);
        assert(w[0] == c1[0]);
    }
    if c2.len() == 1 {
        assert(s.subrange(i, i + w.len())[c1.len() as int] == s[i + c1.len()]);
        assert(w[c1.len() as int] == c2[0]);
    }
    if c3.len() == 1 {
        assert(s.subrange(i, i + w.len())[c1.len() + c2.len() as int] == s[i + c1.len() + c2.len()]);
        assert(w[c1.len() + c2.len() as int] == c3[0]);
    }
}

/// Where a stretch of text equals a document rendering's nine parts,
/// each part stands at its offset.
#[verifier::rlimit(60)]
proof fn lemma_split9(
    s: Seq<char>,
    i: int,
    c1: Seq<char>,
    c2: Seq<char>,
    c3: Seq<char>,
    c4: Seq<char>,
    c5: Seq<char>,
    c6: Seq<char>,
    c7: Seq<char>,
    c8: Seq<char>,
    c9: Seq<char>,
)
    requires
        0 <= i,
        i + (c1 + c2 + c3 + c4 + c5 + c6 + c7 + c8 + c9).len() <= s.len(),
        s.subrange(i, i + (c1 + c2 + c3 + c4 + c5 + c6 + c7 + c8 + c9).len()) == c1 + c2 + c3 + c4
            + c5 + c6 + c7 + c8 + c9,
    ensures
        forall|m: int| 0 <= m < c1.len() ==> s[i + m] == c1[m],
        forall|m: int| 0 <= m < c2.len() ==> s[i + c1.len() + m] == c2[m],
        forall|m: int| 0 <= m < c3.len() ==> s[i + c1.len() + c2.len() + m] == c3[m],
        forall|m: int| 0 <= m < c4.len() ==> s[i + c1.len() + c2.len() + c3.len() + m] == c4[m],
        forall|m: int|
            0 <= m < c5.len() ==> s[i + c1.len() + c2.len() + c3.len() + c4.len() + m] == c5[m],
        forall|m: int|
            0 <= m < c6.len() ==> s[i + c1.len() + c2.len() + c3.len() + c4.len() + c5.len() + m]
                == c6[m],
        forall|m: int|
            0 <= m < c7.len() ==> s[i + c1.len() + c2.len() + c3.len() + c4.len() + c5.len()
                + c6.len() + m] == c7[m],
        forall|m: int|
            0 <= m < c8.len() ==> s[i + c1.len() + c2.len() + c3.len() + c4.len() + c5.len()
                + c6.len() + c7.len() + m] == c8[m],
        forall|m: int|
            0 <= m < c9.len() ==> s[i + c1.len() + c2.len() + c3.len() + c4.len() + c5.len()
                + c6.len() + c7.len() + c8.len() + m] == c9[m],
        s.subrange(
            i + c1.len() + c2.len() + c3.len(),
            i + c1.len() + c2.len() + c3.len() + c4.len(),
        ) == c4,
        s.subrange(
            i + c1.len() + c2.len() + c3.len() + c4.len() + c5.len() + c6.len() + c7.len(),
            i + c1.len() + c2.len() + c3.len() + c4.len() + c5.len() + c6.len() + c7.len()
                + c8.len(),
        ) == c8,
        s.subrange(i + c1.len(), i + c1.len() + c2.len()) == c2,
        s.subrange(
            i + c1.len() + c2.len() + c3.len() + c4.len() + c5.len(),
            i + c1.len() + c2.len() + c3.len() + c4.len() + c5.len() + c6.len(),
        ) == c6,
        c1.len() == 1 ==> s[i] == c1[0],
        c3.len() == 1 ==> s[i + c1.len() + c2.len()] == c3[0],
        c5.len() == 1 ==> s[i + c1.len() + c2.len() + c3.len() + c4.len()] == c5[0],
        c7.len() == 1 ==> s[i + c1.len() + c2.len() + c3.len() + c4.len() + c5.len() + c6.len()]
            == c7[0],
        c9.len() == 1 ==> s[i + c1.len() + c2.len() + c3.len() + c4.len() + c5.len() + c6.len()
            + c7.len() + c8.len()] == c9[0],
{
    let w = c1 + c2 + c3 + c4 + c5 + c6 + c7 + c8 + c9;
    assert forall|m: int| 0 <= m < w.len() implies s[i + m] == w[m] by {
        assert(s.subrange(i, i + w.len())[m] == s[i + m]);
    }
    assert forall|m: int| 0 <= m < c1.len() implies s[i + m] == c1[m] by {
        assert(w[m] == c1[m]);
    }
    assert forall|m: int| 0 <= m < c2.len() implies s[i + c1.len() + m] == c2[m] by {
        assert(w[c1.len() + m] == c2[m]);
    }
    assert forall|m: int| 0 <= m < c3.len() implies s[i + c1.len() + c2.len() + m] == c3[m] by {
        assert(w[c1.len() + c2.len() + m] == c3[m]);
    }
    assert forall|m: int|
        0 <= m < c4.len() implies s[i + c1.len() + c2.len() + c3.len() + m] == c4[m] by {
        assert(w[c1.len() + c2.len() + c3.len() + m] == c4[m]);
    }
    assert forall|m: int|
        0 <= m < c5.len() implies s[i + c1.len() + c2.len() + c3.len() + c4.len() + m] == c5[m] by {
        assert(w[c1.len() + c2.len() + c3.len() + c4.len() + m] == c5[m]);
    }
    assert forall|m: int|
        0 <= m < c6.len() implies s[i + c1.len() + c2.len() + c3.len() + c4.len() + c5.len() + m]
        == c6[m] by {
        assert(w[c1.len() + c2.len() + c3.len() + c4.len() + c5.len() + m] == c6[m]);
    }
    assert forall|m: int|
        0 <= m < c7.len() implies s[i + c1.len() + c2.len() + c3.len() + c4.len() + c5.len()
        + c6.len() + m] == c7[m] by {
        assert(w[c1.len() + c2.len() + c3.len() + c4.len() + c5.len() + c6.len() + m] == c7[m]);
    }
    assert forall|m: int|
        0 <= m < c8.len() implies s[i + c1.len() + c2.len() + c3.len() + c4.len() + c5.len()
        + c6.len() + c7.len() + m] == c8[m] by {
        assert(w[c1.len() + c2.len() + c3.len() + c4.len() + c5.len() + c6.len() + c7.len() + m]
            == c8[m]);
    }
    assert forall|m: int|
        0 <= m < c9.len() implies s[i + c1.len() + c2.len() + c3.len() + c4.len() + c5.len()
        + c6.len() + c7.len() + c8.len() + m] == c9[m] by {
        assert(w[c1.len() + c2.len() + c3.len() + c4.len() + c5.len() + c6.len() + c7.len()
            + c8.len() + m] == c9[m]);
    }
    assert(s.subrange(i + c1.len(), i + c1.len() + c2.len()) =~= c2);
    assert(s.subrange(
        i + c1.len() + c2.len() + c3.len(),
        i + c1.len() + c2.len() + c3.len() + c4.len(),
    ) =~= c4);
    assert(s.subrange(
        i + c1.len() + c2.len() + c3.len() + c4.len() + c5.len(),
        i + c1.len() + c2.len() + c3.len() + c4.len() + c5.len() + c6.len(),
    ) =~= c6);
    assert(s.subrange(
        i + c1.len() + c2.len() + c3.len() + c4.len() + c5.len() + c6.len() + c7.len(),
        i + c1.len() + c2.len() + c3.len() + c4.len() + c5.len() + c6.len() + c7.len() + c8.len(),
    ) =~= c8);
    if c1.len() == 1 {
        assert(s.subrange(i, i + w.len())[0] == s[i + 0]);
        assert(w[0] == c1[0]);
    }
    if c3.len() == 1 {
        let o: int = c1.len() as int + c2.len();
        assert(s.subrange(i, i + w.len())[o] == s[i + o]);
        assert(w[o] == c3[0]);
    }
    if c5.len() == 1 {
        let o: int = c1.len() as int + c2.len() + c3.len() + c4.len();
        assert(s.subrange(i, i + w.len())[o] == s[i + o]);
        assert(w[o] == c5[0]);
    }
    if c7.len() == 1 {
        let o: int = c1.len() as int + c2.len() + c3.len() + c4.len() + c5.len() + c6.len();
        assert(s.subrange(i, i + w.len())[o] == s[i + o]);
        assert(w[o] == c7[0]);
    }
    if c9.len() == 1 {
        let o: int = c1.len() as int + c2.len() + c3.len() + c4.len() + c5.len() + c6.len() + c7.len()
            + c8.len();
        assert(s.subrange(i, i + w.len())[o] == s[i + o]);
        assert(w[o] == c9[0]);
    }
}

/// The string scanner reads back exactly what the escaper wrote: if
/// the text from `i` starts with the escaped content followed by a
/// closing quote, the scan yields the content and stops just past the
/// quote.
proof fn lemma_string_complete(content: Seq<char>, s: Seq<char>, i: int)
    requires
        0 <= i,
        i + esc_str(content).len() + 1 <= s.len(),
        s.subrange(i, i + esc_str(content).len()) == esc_str(content),
        s[i + esc_str(content).len()] == '"',
    ensures
        sp_string_body(s, i) == Option::Some(
            (content, i + esc_str(content).len() + 1),
        ),
    decreases content.len(),
{
    if content.len() == 0 {
        assert(esc_str(content) =~= Seq::<char>::empty());
        assert(s[i] == '"');
        assert(content =~= Seq::<char>::empty());
    } else {
        let c = content[0];
        let rest = content.drop_first();
        let e = esc_char(c);
        let b2 = esc_str(rest);
        assert(esc_str(content) == e + b2);
        let el = e.len();
        assert forall|m: int| 0 <= m < esc_str(content).len() implies s[i + m] == (e + b2)[m] by {
            assert(s.subrange(i, i + esc_str(content).len())[m] == s[i + m]);
        }
        assert(e + b2 + Seq::<char>::empty() =~= e + b2);
        lemma_split3(s, i, e, b2, Seq::empty());
        assert(s.subrange(i + el, i + el + b2.len()) == b2);
        assert(s[i + el + b2.len()] == '"');
        lemma_string_complete(rest, s, i + el);
        assert(sp_string_body(s, i + el) == Option::Some((rest, i + el + b2.len() + 1)));
        if c == '"' || c == '\\' || c == '\u{8}' || c == '\u{9}' || c == '\u{a}' || c == '\u{c}'
            || c == '\u{d}' {
            assert(el == 2);
            assert(e[0] == '\\');
            assert((e + b2)[0] == e[0]);
            assert((e + b2)[1] == e[1]);
            assert(s[i] == '\\');
            assert(s[i + 1] == e[1]);
            assert(e[1] != 'u');
            assert(esc_short(s[i + 1]) == Option::Some(c));
            assert(sp_string_body(s, i) == Option::Some((seq![c] + rest, i + el + b2.len() + 1)));
            assert(seq![c] + rest =~= content);
        } else if (c as u32) < 32 {
            let u = (c as u32) as int;
            assert(el == 6);
            assert((e + b2)[0] == e[0]);
            assert((e + b2)[1] == e[1]);
            assert((e + b2)[2] == e[2]);
            assert((e + b2)[3] == e[3]);
            assert((e + b2)[4] == e[4]);
            assert((e + b2)[5] == e[5]);
            assert(s[i] == '\\');
            assert(s[i + 1] == 'u');
            assert(s[i + 2] == '0');
            assert(s[i + 3] == '0');
            assert(s[i + 4] == hex_digit(u / 16));
            assert(s[i + 5] == hex_digit(u % 16));
            lemma_hex_roundtrip(u / 16);
            lemma_hex_roundtrip(u % 16);
            let code = 16 * hex_val(s[i + 4]) + hex_val(s[i + 5]);
            assert(code == u);
            assert(code < 32);
            vstd::utf8::char_u32_cast(c, c as u32);
            assert((code as u8) as char == c);
            assert(sp_string_body(s, i) == Option::Some(
                (seq![(code as u8) as char] + rest, i + el + b2.len() + 1),
            ));
            assert(seq![c] + rest =~= content);
        } else {
            assert(e =~= seq![c]);
            assert(el == 1);
            assert((e + b2)[0] == e[0]);
            assert(s[i] == c);
            assert(sp_string_body(s, i) == Option::Some((seq![c] + rest, i + 1 + b2.len() + 1)));
            assert(seq![c] + rest =~= content);
        }
    }
}

/// The parser reads back an emitted document: if the text from `i`
/// is the rendering of a document's JSON value, parsing at `i` yields
/// that value and stops just past it.
#[verifier::rlimit(100)]
proof fn lemma_doc_complete(d: DocSpec, s: Seq<char>, i: int)
    requires
        0 <= i,
        i + json_text(doc_json(d)).len() <= s.len(),
        s.subrange(i, i + json_text(doc_json(d)).len()) == json_text(doc_json(d)),
    ensures
        sp_value(s, i) == Option::Some((doc_json(d), i + json_text(doc_json(d)).len())),
    decreases d, 0int,
{
    let t = json_text(doc_json(d));
    let tl = t.len();
    lemma_doc_json_text(d);
    lemma_esc_str_plain(title_key());
    lemma_esc_str_plain(notes_key());
    let k1 = str_text(title_key());
    let tt = str_text(d.title);
    let k2 = str_text(notes_key());
    let bt = esc_str(d.title);
    let lt = bt.len();
    let nv = json_text(notes_value(d));
    let ln = nv.len();
    assert(k1.len() == 7);
    assert(k2.len() == 7);
    assert(tt.len() == lt + 2);
    assert(tl == 21 + lt + ln);
    lemma_split9(s, i, seq!['{'], k1, seq![':'], tt, seq![','], k2, seq![':'], nv, seq!['}']);
    assert(s[i] == '{');
    assert(s.subrange(i + 1, i + 8) == k1);
    assert(k1 == seq!['"'] + title_key() + seq!['"']);
    lemma_split3(s, i + 1, seq!['"'], title_key(), seq!['"']);
    assert(s[i + 1] == '"');
    assert(s.subrange(i + 2, i + 7) == title_key());
    assert(s[i + 7] == '"');
    lemma_string_complete(title_key(), s, i + 2);
    assert(sp_string_body(s, i + 2) == Option::Some((title_key(), i + 8)));
    assert(s[i + 8] == ':');
    assert(s.subrange(i + 9, i + 11 + lt) == tt);
    lemma_split3(s, i + 9, seq!['"'], bt, seq!['"']);
    assert(s[i + 9] == '"');
    assert(s.subrange(i + 10, i + 10 + lt) == bt);
    assert(s[i + 10 + lt] == '"');
    lemma_string_complete(d.title, s, i + 10);
    assert(sp_string_body(s, i + 10) == Option::Some((d.title, i + 11 + lt)));
    assert(sp_value(s, i + 9) == Option::Some((JsonSpec::Str(d.title), i + 11 + lt)));
    assert(s[i + 11 + lt] == ',');
    assert(s.subrange(i + 12 + lt, i + 19 + lt) == k2);
    assert(k2 == seq!['"'] + notes_key() + seq!['"']);
    lemma_split3(s, i + 12 + lt, seq!['"'], notes_key(), seq!['"']);
    assert(s[i + 12 + lt] == '"');
    assert(s.subrange(i + 13 + lt, i + 18 + lt) == notes_key());
    assert(s[i + 18 + lt] == '"');
    lemma_string_complete(notes_key(), s, i + 13 + lt);
    assert(sp_string_body(s, i + 13 + lt) == Option::Some((notes_key(), i + 19 + lt)));
    assert(s[i + 19 + lt] == ':');
    let p = i + 20 + lt;
    assert(s.subrange(p, p + ln) == nv);
    assert(s[p + ln] == '}');
    assert forall|m: int| 0 <= m < ln implies s[p + m] == nv[m] by {
        assert(s.subrange(p, p + ln)[m] == s[p + m]);
    }
    match d.children {
        Option::None => {
            assert(notes_value(d) == JsonSpec::Null);
            assert(nv =~= seq!['n', 'u', 'l', 'l']);
            assert(s[p] == 'n' && s[p + 1] == 'u' && s[p + 2] == 'l' && s[p + 3] == 'l');
            assert(sp_value(s, p) == Option::Some((JsonSpec::Null, p + 4)));
        },
        Option::Some(cs) => {
            assert(notes_value(d) == JsonSpec::Arr(docs_json(cs)));
            if cs.len() == 0 {
                assert(docs_json(cs).len() == 0);
                assert(nv =~= seq!['[', ']']);
                assert(s[p] == '[' && s[p + 1] == ']');
                assert(sp_value(s, p) == Option::Some((JsonSpec::Arr(docs_json(cs)), p + 2)));
            } else {
                crate::model::lemma_docs_json(cs);
                let items = crate::json::arr_items_text(docs_json(cs));
                assert(nv == seq!['['] + items + seq![']']);
                lemma_split3(s, p, seq!['['], items, seq![']']);
                assert(s[p] == '[');
                assert(s.subrange(p + 1, p + 1 + items.len()) == items);
                assert(s[p + 1 + items.len()] == ']');
                lemma_docs_complete(cs, s, p + 1);
                assert(sp_arr_items(s, p + 1) == Option::Some(
                    (docs_json(cs), p + 2 + items.len()),
                ));
                // the first element's text keeps the bracket branch
                // from matching an empty array
                let t0 = json_text(doc_json(cs[0]));
                lemma_doc_text_first(cs[0]);
                if cs.len() == 1 {
                    assert(docs_json(cs) =~= seq![doc_json(cs[0])]);
                    assert(items == t0);
                } else {
                    assert(docs_json(cs)[0] == doc_json(cs[0]));
                    assert(items == json_text(docs_json(cs)[0]) + seq![','] + crate::json::arr_items_text(docs_json(cs).drop_first()));
                    assert((json_text(docs_json(cs)[0]) + seq![','] + crate::json::arr_items_text(docs_json(cs).drop_first()))[0] == t0[0]);
                }
                assert(items[0] == '{');
                assert(s.subrange(p + 1, p + 1 + items.len())[0] == s[p + 1]);
                assert(s[p + 1] == '{');
                assert(sp_value(s, p) == Option::Some(
                    (JsonSpec::Arr(docs_json(cs)), p + 2 + items.len()),
                ));
            }
        },
    }
    assert(sp_value(s, p) == Option::Some((notes_value(d), p + ln)));
    // assemble the object: the notes binding, then both bindings
    let pairs2 = sp_obj_items(s, i + 12 + lt);
    assert(pairs2 == Option::Some((seq![(notes_key(), notes_value(d))], p + ln + 1)));
    let pairs1 = sp_obj_items(s, i + 1);
    assert(pairs1 == Option::Some(
        (
            seq![(title_key(), JsonSpec::Str(d.title))] + seq![(notes_key(), notes_value(d))],
            p + ln + 1,
        ),
    ));
    assert(seq![(title_key(), JsonSpec::Str(d.title))] + seq![(notes_key(), notes_value(d))]
        =~= seq![(title_key(), JsonSpec::Str(d.title)), (notes_key(), notes_value(d))]);
    assert(s[i + 1] != '}');
    assert(sp_value(s, i) == Option::Some((doc_json(d), p + ln + 1)));
    assert(p + ln + 1 == i + tl);
}

/// The parser reads back an emitted list of documents: if the text
/// from `i` is the comma-separated rendering of their JSON values
/// followed by a closing bracket, parsing the items at `i` yields
/// those values and stops just past the bracket.
proof fn lemma_docs_complete(ds: Seq<DocSpec>, s: Seq<char>, i: int)
    requires
        ds.len() >= 1,
        0 <= i,
        i + crate::json::arr_items_text(docs_json(ds)).len() + 1 <= s.len(),
        s.subrange(i, i + crate::json::arr_items_text(docs_json(ds)).len())
            == crate::json::arr_items_text(docs_json(ds)),
        s[i + crate::json::arr_items_text(docs_json(ds)).len()] == ']',
    ensures
        sp_arr_items(s, i) == Option::Some(
            (docs_json(ds), i + crate::json::arr_items_text(docs_json(ds)).len() + 1),
        ),
    decreases ds, 1int,
{
    crate::model::lemma_docs_json(ds);
    let items = crate::json::arr_items_text(docs_json(ds));
    let t0 = json_text(doc_json(ds[0]));
    assert forall|m: int| 0 <= m < items.len() implies s[i + m] == items[m] by {
        assert(s.subrange(i, i + items.len())[m] == s[i + m]);
    }
    if ds.len() == 1 {
        assert(docs_json(ds) =~= seq![doc_json(ds[0])]);
        assert(items == t0);
        assert(s.subrange(i, i + t0.len()) =~= t0);
        lemma_doc_complete(ds[0], s, i);
        assert(sp_value(s, i) == Option::Some((doc_json(ds[0]), i + t0.len())));
        assert(s[i + t0.len()] == ']');
        assert(seq![doc_json(ds[0])] =~= docs_json(ds));
    } else {
        assert(docs_json(ds) == seq![doc_json(ds[0])] + docs_json(ds.drop_first()));
        assert(docs_json(ds)[0] == doc_json(ds[0]));
        assert(docs_json(ds).drop_first() =~= docs_json(ds.drop_first()));
        assert(items == t0 + seq![','] + crate::json::arr_items_text(
            docs_json(ds.drop_first()),
        ));
        let rest_items = crate::json::arr_items_text(docs_json(ds.drop_first()));
        lemma_split3(s, i, t0, seq![','], rest_items);
        assert(s.subrange(i, i + t0.len()) == t0);
        lemma_doc_complete(ds[0], s, i);
        assert(sp_value(s, i) == Option::Some((doc_json(ds[0]), i + t0.len())));
        assert(s[i + t0.len()] == ',');
        let j = i + t0.len() + 1;
        assert(s.subrange(j, j + rest_items.len()) == rest_items);
        assert(s[j + rest_items.len()] == ']');
        lemma_docs_complete(ds.drop_first(), s, j);
        assert(sp_arr_items(s, j) == Option::Some(
            (docs_json(ds.drop_first()), j + rest_items.len() + 1),
        ));
        assert(seq![doc_json(ds[0])] + docs_json(ds.drop_first()) =~= docs_json(ds));
    }
}

/// The schema check reads back an emitted document: validating the
/// JSON value of a document gives the document again.
proof fn lemma_validate_doc_json(d: DocSpec)
    ensures
        sv_doc(doc_json(d)) == Option::Some(d),
    decreases d, 0int,
{
    let pairs = seq![(title_key(), JsonSpec::Str(d.title)), (notes_key(), notes_value(d))];
    assert(doc_json(d) == JsonSpec::Obj(pairs));
    assert(title_key()[0] != notes_key()[0]);
    assert(title_key() != notes_key());
    lemma_find_key_char(pairs, title_key(), 0, 0);
    assert(find_key(pairs, title_key(), 0) == 0);
    assert(pairs[0].0 != notes_key());
    lemma_find_key_char(pairs, notes_key(), 0, 1);
    assert(find_key(pairs, notes_key(), 0) == 1);
    match d.children {
        Option::None => {
            assert(notes_value(d) == JsonSpec::Null);
            assert(sv_doc(doc_json(d)) == Option::Some(
                DocSpec { title: d.title, children: Option::None },
            ));
            assert(DocSpec { title: d.title, children: Option::None } == d);
        },
        Option::Some(cs) => {
            assert(notes_value(d) == JsonSpec::Arr(docs_json(cs)));
            lemma_validate_docs_json(cs);
            assert(sv_doc(doc_json(d)) == Option::Some(
                DocSpec { title: d.title, children: Option::Some(cs) },
            ));
            assert(DocSpec { title: d.title, children: Option::Some(cs) } == d);
        },
    }
}

/// The schema check reads back an emitted list of documents.
proof fn lemma_validate_docs_json(ds: Seq<DocSpec>)
    ensures
        sv_docs(docs_json(ds)) == Option::Some(ds),
    decreases ds, 1int,
{
    crate::model::lemma_docs_json(ds);
    if ds.len() == 0 {
        assert(docs_json(ds).len() == 0);
        assert(Seq::<DocSpec>::empty() =~= ds);
    } else {
        assert(docs_json(ds)[0] == doc_json(ds[0]));
        lemma_validate_doc_json(ds[0]);
        assert(docs_json(ds).drop_first() =~= docs_json(ds.drop_first()));
        lemma_validate_docs_json(ds.drop_first());
        assert(seq![ds[0]] + ds.drop_first() =~= ds);
    }
}

/// Round trip: decoding the encoding of any document gives the
/// document back, the distinction between absent and empty children
/// included.  The encoding is the text `to_json` returns; the
/// decoding is the one `decode_json` performs.
pub proof fn lemma_round_trip(d: DocSpec)
    ensures
        spec_decode(json_text(doc_json(d))) == Option::Some(d),
{
    let t = json_text(doc_json(d));
    assert(t.subrange(0, t.len() as int) =~= t);
    lemma_doc_complete(d, t, 0);
    assert(sp_value(t, 0) == Option::Some((doc_json(d), t.len() as int)));
    assert(sp_document(t) == Option::Some(doc_json(d)));
    lemma_validate_doc_json(d);
}

/// A JSON object without a title binding never decodes, whatever
/// other bindings it holds.
pub proof fn lemma_reject_missing_title(pairs: Seq<(Seq<char>, JsonSpec)>)
    requires
        forall|k: int| 0 <= k < pairs.len() ==> pairs[k].0 != title_key(),
    ensures
        sv_doc(JsonSpec::Obj(pairs)) is None,
{
    lemma_find_key_char(pairs, title_key(), 0, pairs.len() as int);
}

/// A JSON object whose first title binding holds anything but a
/// string never decodes.
pub proof fn lemma_reject_nonstring_title(pairs: Seq<(Seq<char>, JsonSpec)>)
    requires
        0 <= find_key(pairs, title_key(), 0) < pairs.len(),
        !(pairs[find_key(pairs, title_key(), 0)].1 is Str),
    ensures
        sv_doc(JsonSpec::Obj(pairs)) is None,
{
}

} // verus!
