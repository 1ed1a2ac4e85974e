use vstd::prelude::*;

use crate::json::spec_list;
use crate::json::spec_pairs;
use crate::json::Json;
use crate::json::JsonSpec;
use crate::model::notes_key;
use crate::model::spec_doc_list;
use crate::model::title_key;
use crate::model::DocSpec;
use crate::model::Notes;
use crate::strings::chars_eq_str;
use crate::strings::string_from_chars;

verus! {

broadcast use vstd::std_specs::vec::group_vec_axioms;

/// The first index at or after `i` whose binding uses `key`, or the
/// length if there is none.
pub open spec fn find_key(pairs: Seq<(Seq<char>, JsonSpec)>, key: Seq<char>, i: int) -> int
    decreases pairs.len() - i,
{
    if i < 0 || i >= pairs.len() {
        pairs.len() as int
    } else if pairs[i].0 == key {
        i
    } else {
        find_key(pairs, key, i + 1)
    }
}

/// Where the first match sits: if every binding before `r` misses the
/// key and `r` hits it (or is the length), the search returns `r`.
pub proof fn lemma_find_key_char(pairs: Seq<(Seq<char>, JsonSpec)>, key: Seq<char>, i: int, r: int)
    requires
        0 <= i <= r <= pairs.len(),
        forall|m: int| i <= m < r ==> pairs[m].0 != key,
        r < pairs.len() ==> pairs[r].0 == key,
    ensures
        find_key(pairs, key, i) == r,
    decreases r - i,
{
    if i < r {
        lemma_find_key_char(pairs, key, i + 1, r);
    }
}

/// Check a JSON value against the document schema.  The value must be
/// an object; its first `title` binding must hold a string; its first
/// `notes` binding, if any, must hold `null` (children absent) or an
/// array whose every element is itself a document.  Other bindings are
/// ignored.
pub open spec fn sv_doc(v: JsonSpec) -> Option<DocSpec>
    decreases v, 1int,
{
    match v {
        JsonSpec::Obj(pairs) => {
            let ti = find_key(pairs, title_key(), 0);
            if !(0 <= ti < pairs.len()) {
                Option::None
            } else {
                match pairs[ti].1 {
                    JsonSpec::Str(t) => {
                        let ni = find_key(pairs, notes_key(), 0);
                        if !(0 <= ni < pairs.len()) {
                            Option::Some(DocSpec { title: t, children: Option::None })
                        } else {
                            match pairs[ni].1 {
                                JsonSpec::Null => Option::Some(
                                    DocSpec { title: t, children: Option::None },
                                ),
                                JsonSpec::Arr(elems) => {
                                    proof {
                                        assert(0 <= ni < pairs.len());
                                        assert(decreases_to!(pairs => pairs[ni]));
                                        assert(decreases_to!(pairs[ni] => pairs[ni].1));
                                        assert(pairs[ni].1 == JsonSpec::Arr(elems));
                                        assert(decreases_to!(pairs[ni].1 => elems));
                                    }
                                    match sv_docs(elems) {
                                        Option::None => Option::None,
                                        Option::Some(ds) => Option::Some(
                                            DocSpec { title: t, children: Option::Some(ds) },
                                        ),
                                    }
                                },
                                _ => Option::None,
                            }
                        }
                    },
                    _ => Option::None,
                }
            }
        },
        _ => Option::None,
    }
}

/// Check every element of an array against the document schema.
pub open spec fn sv_docs(ds: Seq<JsonSpec>) -> Option<Seq<DocSpec>>
    decreases ds, 2int,
{
    if ds.len() == 0 {
        Option::Some(Seq::empty())
    } else {
        match sv_doc(ds[0]) {
            Option::None => Option::None,
            Option::Some(d) => match sv_docs(ds.drop_first()) {
                Option::None => Option::None,
                Option::Some(rest) => Option::Some(seq![d] + rest),
            },
        }
    }
}

/// The bindings' view, element by element.
pub proof fn lemma_spec_pairs(ps: Seq<(Vec<char>, Json)>)
    ensures
        spec_pairs(ps).len() == ps.len(),
        forall|k: int| 0 <= k < ps.len() ==> spec_pairs(ps)[k] == (ps[k].0@, ps[k].1.to_spec()),
    decreases ps.len(),
{
    if ps.len() > 0 {
        lemma_spec_pairs(ps.drop_first());
        assert forall|k: int| 0 <= k < ps.len() implies spec_pairs(ps)[k] == (
            ps[k].0@,
            ps[k].1.to_spec(),
        ) by {
            if k > 0 {
                assert(ps.drop_first()[k - 1] == ps[k]);
                assert(spec_pairs(ps)[k] == spec_pairs(ps.drop_first())[k - 1]);
            }
        }
    }
}

/// The elements' view, element by element.
pub proof fn lemma_spec_list(es: Seq<Json>)
    ensures
        spec_list(es).len() == es.len(),
        forall|k: int| 0 <= k < es.len() ==> spec_list(es)[k] == es[k].to_spec(),
    decreases es.len(),
{
    if es.len() > 0 {
        lemma_spec_list(es.drop_first());
        assert forall|k: int| 0 <= k < es.len() implies spec_list(es)[k] == es[k].to_spec() by {
            if k > 0 {
                assert(es.drop_first()[k - 1] == es[k]);
                assert(spec_list(es)[k] == spec_list(es.drop_first())[k - 1]);
            }
        }
    }
}

/// The first binding with this key, as an index, or the length.
fn find_key_vec(pairs: &Vec<(Vec<char>, Json)>, key: &str) -> (r: usize)
    ensures
        r as int == find_key(spec_pairs(pairs@), key@, 0),
        r <= pairs@.len(),
        r < pairs@.len() ==> spec_pairs(pairs@)[r as int].0 == key@,
{
    proof {
        lemma_spec_pairs(pairs@);
    }
    let n = pairs.len();
    let mut k: usize = 0;
    while k < n
        invariant
            n == pairs@.len(),
            k <= n,
            spec_pairs(pairs@).len() == n,
            forall|m: int| 0 <= m < n ==> spec_pairs(pairs@)[m] == (
                pairs@[m].0@,
                pairs@[m].1.to_spec(),
            ),
            forall|m: int| 0 <= m < k ==> spec_pairs(pairs@)[m].0 != key@,
        decreases n - k,
    {
        if chars_eq_str(&pairs[k].0, key) {
            proof {
                lemma_find_key_char(spec_pairs(pairs@), key@, 0, k as int);
            }
            return k;
        }
        k = k + 1;
    }
    proof {
        lemma_find_key_char(spec_pairs(pairs@), key@, 0, n as int);
    }
    n
}

/// Build a document from a JSON value, as `sv_doc` describes.
#[verifier::loop_isolation(false)]
#[verifier::rlimit(40)]
pub fn validate_doc(v: &Json) -> (r: Option<Notes>)
    ensures
        match r {
            Option::Some(n) => sv_doc(v@) == Option::Some(n@),
            Option::None => sv_doc(v@) is None,
        },
    decreases *v,
{
    match v {
        Json::Obj(pairs) => {
            proof {
                lemma_spec_pairs(pairs@);
            }
            let ghost sp = spec_pairs(pairs@);
            let ti = find_key_vec(pairs, "title");
            proof {
                reveal_strlit("title");
                assert("title"@ =~= title_key());
                assert(find_key(sp, title_key(), 0) == ti as int);
            }
            if ti >= pairs.len() {
                return Option::None;
            }
            match &pairs[ti].1 {
                Json::Str(tchars) => {
                    let title = string_from_chars(tchars);
                    let ni = find_key_vec(pairs, "notes");
                    proof {
                        reveal_strlit("notes");
                        assert("notes"@ =~= notes_key());
                        assert(find_key(sp, notes_key(), 0) == ni as int);
                    }
                    if ni >= pairs.len() {
                        return Option::Some(Notes { title, notes: Option::None });
                    }
                    match &pairs[ni].1 {
                        Json::Null => Option::Some(Notes { title, notes: Option::None }),
                        Json::Arr(elems) => {
                            proof {
                                lemma_spec_list(elems@);
                                assert(sp[ni as int].1 == JsonSpec::Arr(spec_list(elems@)));
                            }
                            let ghost se = spec_list(elems@);
                            let n = elems.len();
                            let mut children: Vec<Notes> = Vec::new();
                            let mut k: usize = 0;
                            proof {
                                assert(se.skip(0) =~= se);
                                assert(children@ =~= Seq::<Notes>::empty());
                                assert(spec_doc_list(children@) =~= Seq::<DocSpec>::empty());
                                if sv_docs(se) is Some {
                                    let rest = sv_docs(se)->0;
                                    assert(spec_doc_list(children@) + rest =~= rest);
                                }
                            }
                            while k < n
                                invariant
                                    n == elems@.len(),
                                    k <= n,
                                    se == spec_list(elems@),
                                    se.len() == n,
                                    forall|m: int| 0 <= m < n ==> se[m] == elems@[m].to_spec(),
                                    children@.len() == k,
                                    sv_docs(se) == (match sv_docs(se.skip(k as int)) {
                                        Option::None => Option::None::<Seq<DocSpec>>,
                                        Option::Some(rest) => Option::Some(
                                            spec_doc_list(children@) + rest,
                                        ),
                                    }),
                                decreases n - k,
                            {
                                proof {
                                    assert(*v == Json::Obj(*pairs));
                                    assert(decreases_to!(*pairs => pairs@[ni as int]));
                                    assert(decreases_to!(pairs@[ni as int].1 => *elems));
                                    assert(decreases_to!(*elems => elems@[k as int]));
                                }
                                match validate_doc(&elems[k]) {
                                    Option::None => {
                                        proof {
                                            assert(se.skip(k as int)[0] == se[k as int]);
                                            assert(sv_doc(se[k as int]) is None);
                                            assert(sv_docs(se.skip(k as int)) is None);
                                        }
                                        return Option::None;
                                    },
                                    Option::Some(child) => {
                                        let ghost children0 = children@;
                                        children.push(child);
                                        proof {
                                            let tail = se.skip(k as int);
                                            assert(tail[0] == se[k as int]);
                                            assert(tail.drop_first() =~= se.skip(k as int + 1));
                                            assert(sv_doc(tail[0]) == Option::Some(child@));
                                            crate::model::lemma_spec_doc_list_snoc(
                                                children0,
                                                child,
                                            );
                                            assert(children@ =~= children0.push(child));
                                            assert forall|rest: Seq<DocSpec>|
                                                true implies spec_doc_list(children0) + (
                                            seq![child@] + rest) =~= spec_doc_list(children@)
                                                + rest by {}
                                        }
                                        k = k + 1;
                                    },
                                }
                            }
                            proof {
                                assert(se.skip(n as int) =~= Seq::<JsonSpec>::empty());
                                assert(sv_docs(Seq::<JsonSpec>::empty()) == Option::Some(
                                    Seq::<DocSpec>::empty(),
                                ));
                                assert(spec_doc_list(children@) + Seq::<DocSpec>::empty()
                                    =~= spec_doc_list(children@));
                                assert(sv_docs(se) == Option::Some(spec_doc_list(children@)));
                            }
                            Option::Some(Notes { title, notes: Option::Some(children) })
                        },
                        _ => Option::None,
                    }
                },
                _ => Option::None,
            }
        },
        _ => Option::None,
    }
}

} // verus!
