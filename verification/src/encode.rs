use vstd::prelude::*;

use crate::json::esc_char;
use crate::json::esc_str;
use crate::json::hex_digit;
use crate::json::json_text;
use crate::json::lemma_arr_items_snoc;
use crate::json::lemma_esc_str_plain;
use crate::json::lemma_esc_str_snoc;
use crate::json::str_text;
use crate::json::JsonSpec;
use crate::model::doc_json;
use crate::model::docs_json;
use crate::model::lemma_docs_json;
use crate::model::lemma_docs_json_snoc;
use crate::model::lemma_spec_doc_list;
use crate::model::notes_key;
use crate::model::spec_doc_list;
use crate::model::title_key;
use crate::model::Notes;

verus! {

use vstd::string::StrSliceExecFns;

broadcast use vstd::std_specs::vec::group_vec_axioms;

/// The lower-case hexadecimal digit character for a value below sixteen.
fn hex_digit_char(n: u8) -> (r: char)
    requires
        n < 16,
    ensures
        r == hex_digit(n as int),
{
    if n == 0 { '0' }
    else if n == 1 { '1' }
    else if n == 2 { '2' }
    else if n == 3 { '3' }
    else if n == 4 { '4' }
    else if n == 5 { '5' }
    else if n == 6 { '6' }
    else if n == 7 { '7' }
    else if n == 8 { '8' }
    else if n == 9 { '9' }
    else if n == 10 { 'a' }
    else if n == 11 { 'b' }
    else if n == 12 { 'c' }
    else if n == 13 { 'd' }
    else if n == 14 { 'e' }
    else { 'f' }
}

/// Append the escape of one character of string content.
fn push_escaped(out: &mut Vec<char>, c: char)
    ensures
        final(out)@ == old(out)@ + esc_char(c),
{
    if c == '"' {
        out.push('\\');
        out.push('"');
        proof {
            assert(out@ =~= old(out)@ + esc_char(c));
        }
    } else if c == '\\' {
        out.push('\\');
        out.push('\\');
        proof {
            assert(out@ =~= old(out)@ + esc_char(c));
        }
    } else if c == '\u{8}' {
        out.push('\\');
        out.push('b');
        proof {
            assert(out@ =~= old(out)@ + esc_char(c));
        }
    } else if c == '\u{9}' {
        out.push('\\');
        out.push('t');
        proof {
            assert(out@ =~= old(out)@ + esc_char(c));
        }
    } else if c == '\u{a}' {
        out.push('\\');
        out.push('n');
        proof {
            assert(out@ =~= old(out)@ + esc_char(c));
        }
    } else if c == '\u{c}' {
        out.push('\\');
        out.push('f');
        proof {
            assert(out@ =~= old(out)@ + esc_char(c));
        }
    } else if c == '\u{d}' {
        out.push('\\');
        out.push('r');
        proof {
            assert(out@ =~= old(out)@ + esc_char(c));
        }
    } else if (c as u32) < 32 {
        let code = c as u32;
        out.push('\\');
        out.push('u');
        out.push('0');
        out.push('0');
        out.push(hex_digit_char((code / 16) as u8));
        out.push(hex_digit_char((code % 16) as u8));
        proof {
            assert(out@ =~= old(out)@ + esc_char(c));
        }
    } else {
        out.push(c);
        proof {
            assert(out@ =~= old(out)@ + esc_char(c));
        }
    }
}

/// Append a complete JSON string literal holding the characters of `s`.
fn push_string_literal(s: &str, out: &mut Vec<char>)
    ensures
        final(out)@ == old(out)@ + str_text(s@),
{
    out.push('"');
    let n = s.unicode_len();
    let mut i: usize = 0;
    while i < n
        invariant
            n == s@.len(),
            i <= n,
            out@ == old(out)@ + seq!['"'] + esc_str(s@.subrange(0, i as int)),
        decreases n - i,
    {
        let c = s.get_char(i);
        push_escaped(out, c);
        proof {
            lemma_esc_str_snoc(s@.subrange(0, i as int), c);
            assert(s@.subrange(0, i as int).push(c) =~= s@.subrange(0, i as int + 1));
        }
        i = i + 1;
    }
    out.push('"');
    proof {
        assert(s@.subrange(0, n as int) =~= s@);
        assert(out@ =~= old(out)@ + str_text(s@));
    }
}

/// Append the opening brace and the title key's binding header.
fn push_title_header(out: &mut Vec<char>)
    ensures
        final(out)@ == old(out)@ + seq!['{'] + str_text(title_key()) + seq![':'],
{
    out.push('{');
    out.push('"');
    out.push('t');
    out.push('i');
    out.push('t');
    out.push('l');
    out.push('e');
    out.push('"');
    out.push(':');
    proof {
        lemma_esc_str_plain(title_key());
        assert(out@ =~= old(out)@ + seq!['{'] + str_text(title_key()) + seq![':']);
    }
}

/// Append the separator and the notes key's binding header.
fn push_notes_header(out: &mut Vec<char>)
    ensures
        final(out)@ == old(out)@ + seq![','] + str_text(notes_key()) + seq![':'],
{
    out.push(',');
    out.push('"');
    out.push('n');
    out.push('o');
    out.push('t');
    out.push('e');
    out.push('s');
    out.push('"');
    out.push(':');
    proof {
        lemma_esc_str_plain(notes_key());
        assert(out@ =~= old(out)@ + seq![','] + str_text(notes_key()) + seq![':']);
    }
}

/// Append the JSON rendering of a document.
#[verifier::loop_isolation(false)]
#[verifier::rlimit(100)]
fn push_doc(d: &Notes, out: &mut Vec<char>)
    ensures
        final(out)@ == old(out)@ + json_text(doc_json(d@)),
    decreases *d,
{
    let ghost base = out@;
    push_title_header(out);
    push_string_literal(title_str(d), out);
    push_notes_header(out);
    proof {
        assert(out@ =~= base + seq!['{'] + str_text(title_key()) + seq![':'] + str_text(d@.title)
            + seq![','] + str_text(notes_key()) + seq![':']);
    }
    let ghost mid = out@;
    match &d.notes {
        Option::None => {
            out.push('n');
            out.push('u');
            out.push('l');
            out.push('l');
            proof {
                assert(crate::model::notes_value(d@) == JsonSpec::Null);
                assert(out@ =~= mid + json_text(JsonSpec::Null));
            }
        },
        Option::Some(list) => {
            let ghost cs = spec_doc_list(list@);
            proof {
                lemma_spec_doc_list(list@);
                lemma_docs_json(cs);
            }
            out.push('[');
            let n = list.len();
            proof {
                assert(crate::model::notes_value(d@) == JsonSpec::Arr(docs_json(cs)));
            }
            if n == 0 {
                out.push(']');
                proof {
                    assert(docs_json(cs).len() == 0);
                    assert(out@ =~= mid + json_text(JsonSpec::Arr(docs_json(cs))));
                }
            } else {
                proof {
                    assert(decreases_to!(*d => d.notes));
                    assert(*list == d.notes->0);
                    assert(decreases_to!(*list => list@[0]));
                }
                push_doc(&list[0], out);
                proof {
                    lemma_docs_json(cs.subrange(0, 1));
                    assert(docs_json(cs.subrange(0, 1)).len() == 1);
                    assert(cs.subrange(0, 1)[0] == cs[0]);
                    assert(out@ =~= mid + seq!['['] + crate::json::arr_items_text(
                        docs_json(cs.subrange(0, 1)),
                    ));
                }
                let mut k: usize = 1;
                while k < n
                    invariant
                        1 <= k <= n,
                        n == list@.len(),
                        cs == spec_doc_list(list@),
                        cs.len() == n,
                        forall|m: int| 0 <= m < n ==> cs[m] == list@[m].to_spec(),
                        out@ == mid + seq!['['] + crate::json::arr_items_text(
                            docs_json(cs.subrange(0, k as int)),
                        ),
                    decreases n - k,
                {
                    out.push(',');
                    proof {
                        assert(decreases_to!(*d => d.notes));
                        assert(*list == d.notes->0);
                        assert(decreases_to!(*list => list@[k as int]));
                    }
                    push_doc(&list[k], out);
                    proof {
                        let pre = cs.subrange(0, k as int);
                        lemma_docs_json(pre);
                        assert(docs_json(pre).len() == k);
                        lemma_docs_json_snoc(pre, cs[k as int]);
                        lemma_arr_items_snoc(docs_json(pre), doc_json(cs[k as int]));
                        assert(pre.push(cs[k as int]) =~= cs.subrange(0, k as int + 1));
                        assert(out@ =~= mid + seq!['['] + crate::json::arr_items_text(
                            docs_json(cs.subrange(0, k as int + 1)),
                        ));
                    }
                    k = k + 1;
                }
                out.push(']');
                proof {
                    assert(cs.subrange(0, n as int) =~= cs);
                    assert(docs_json(cs).len() == n);
                    assert(out@ =~= mid + json_text(JsonSpec::Arr(docs_json(cs))));
                }
            }
        },
    }
    out.push('}');
    proof {
        let dv = d@;
        crate::model::lemma_doc_json_text(dv);
        assert(out@ =~= mid + json_text(crate::model::notes_value(dv)) + seq!['}']);
        assert(out@ =~= base + json_text(doc_json(dv)));
    }
}

/// Borrow the title of a document.
fn title_str(d: &Notes) -> (r: &str)
    ensures
        r@ == d@.title,
{
    d.title.as_str()
}

/// The JSON rendering of a document, as characters.
pub fn encode_doc_chars(d: &Notes) -> (r: Vec<char>)
    ensures
        r@ == json_text(doc_json(d@)),
{
    let mut out: Vec<char> = Vec::new();
    push_doc(d, &mut out);
    out
}

} // verus!
