use vstd::prelude::*;

use crate::json::JsonSpec;

verus! {

/// The mathematical shape of a document: a title and, optionally, an
/// ordered list of child documents.  An absent list and an empty list
/// are distinct states.
pub struct DocSpec {
    pub title: Seq<char>,
    pub children: Option<Seq<DocSpec>>,
}

/// A notes document: a required title and an optional ordered list of
/// child documents.  The tree is finite by construction.
pub struct Notes {
    pub title: String,
    pub notes: Option<Vec<Notes>>,
}

impl Notes {
    pub open spec fn to_spec(self) -> DocSpec
        decreases self, 0int,
    {
        DocSpec {
            title: self.title@,
            children: match self.notes {
                Option::None => Option::None,
                Option::Some(list) => Option::Some(spec_doc_list(list@)),
            },
        }
    }
}

pub open spec fn spec_doc_list(list: Seq<Notes>) -> Seq<DocSpec>
    decreases list, 1int,
{
    if list.len() == 0 {
        Seq::empty()
    } else {
        seq![list[0].to_spec()] + spec_doc_list(list.drop_first())
    }
}

impl View for Notes {
    type V = DocSpec;

    open spec fn view(&self) -> DocSpec {
        (*self).to_spec()
    }
}

/// The key under which a document's title is stored.
pub open spec fn title_key() -> Seq<char> {
    seq!['t', 'i', 't', 'l', 'e']
}

/// The key under which a document's children are stored.
pub open spec fn notes_key() -> Seq<char> {
    seq!['n', 'o', 't', 'e', 's']
}

/// The JSON value under the notes key: `null` for absent children,
/// the children's array otherwise.
pub open spec fn notes_value(d: DocSpec) -> JsonSpec
    decreases d, 0int,
{
    match d.children {
        Option::None => JsonSpec::Null,
        Option::Some(cs) => JsonSpec::Arr(docs_json(cs)),
    }
}

/// The JSON value that stands for a document: an object holding the
/// title and then the children, where absent children appear as `null`.
pub open spec fn doc_json(d: DocSpec) -> JsonSpec
    decreases d, 1int,
{
    JsonSpec::Obj(
        seq![(title_key(), JsonSpec::Str(d.title)), (notes_key(), notes_value(d))],
    )
}

pub open spec fn docs_json(ds: Seq<DocSpec>) -> Seq<JsonSpec>
    decreases ds, 2int,
{
    if ds.len() == 0 {
        Seq::empty()
    } else {
        seq![doc_json(ds[0])] + docs_json(ds.drop_first())
    }
}

/// The list view of a vector of documents, element by element.
pub proof fn lemma_spec_doc_list(l: Seq<Notes>)
    ensures
        spec_doc_list(l).len() == l.len(),
        forall|k: int| 0 <= k < l.len() ==> spec_doc_list(l)[k] == l[k].to_spec(),
    decreases l.len(),
{
    if l.len() > 0 {
        lemma_spec_doc_list(l.drop_first());
        assert forall|k: int| 0 <= k < l.len() implies spec_doc_list(l)[k] == l[k].to_spec() by {
            if k > 0 {
                assert(l.drop_first()[k - 1] == l[k]);
                assert(spec_doc_list(l)[k] == spec_doc_list(l.drop_first())[k - 1]);
            }
        }
    }
}

/// The JSON values of a list of documents, element by element.
pub proof fn lemma_docs_json(ds: Seq<DocSpec>)
    ensures
        docs_json(ds).len() == ds.len(),
        forall|k: int| 0 <= k < ds.len() ==> docs_json(ds)[k] == doc_json(ds[k]),
    decreases ds.len(),
{
    if ds.len() > 0 {
        lemma_docs_json(ds.drop_first());
        assert forall|k: int| 0 <= k < ds.len() implies docs_json(ds)[k] == doc_json(ds[k]) by {
            if k > 0 {
                assert(ds.drop_first()[k - 1] == ds[k]);
                assert(docs_json(ds)[k] == docs_json(ds.drop_first())[k - 1]);
            }
        }
    }
}

/// Appending a document appends its view.
pub proof fn lemma_spec_doc_list_snoc(l: Seq<Notes>, n: Notes)
    ensures
        spec_doc_list(l.push(n)) == spec_doc_list(l).push(n.to_spec()),
    decreases l.len(),
{
    if l.len() == 0 {
        assert(l.push(n).drop_first() =~= Seq::<Notes>::empty());
        assert(l.push(n)[0] == n);
        assert(spec_doc_list(Seq::<Notes>::empty()) =~= Seq::<DocSpec>::empty());
        assert(spec_doc_list(l.push(n)) =~= seq![n.to_spec()]);
        assert(spec_doc_list(l).push(n.to_spec()) =~= seq![n.to_spec()]);
    } else {
        lemma_spec_doc_list_snoc(l.drop_first(), n);
        assert(l.push(n).drop_first() =~= l.drop_first().push(n));
        assert(l.push(n)[0] == l[0]);
        assert(spec_doc_list(l.push(n)) =~= seq![l[0].to_spec()] + spec_doc_list(
            l.drop_first(),
        ).push(n.to_spec()));
        assert(spec_doc_list(l).push(n.to_spec()) =~= seq![l[0].to_spec()] + spec_doc_list(
            l.drop_first(),
        ).push(n.to_spec()));
    }
}

/// Appending a document appends its JSON value.
pub proof fn lemma_docs_json_snoc(ds: Seq<DocSpec>, d: DocSpec)
    ensures
        docs_json(ds.push(d)) == docs_json(ds).push(doc_json(d)),
    decreases ds.len(),
{
    if ds.len() == 0 {
        assert(ds.push(d).drop_first() =~= Seq::<DocSpec>::empty());
        assert(ds.push(d)[0] == d);
        assert(docs_json(Seq::<DocSpec>::empty()) =~= Seq::<JsonSpec>::empty());
        assert(docs_json(ds.push(d)) =~= seq![doc_json(d)]);
        assert(docs_json(ds).push(doc_json(d)) =~= seq![doc_json(d)]);
    } else {
        lemma_docs_json_snoc(ds.drop_first(), d);
        assert(ds.push(d).drop_first() =~= ds.drop_first().push(d));
        assert(ds.push(d)[0] == ds[0]);
        assert(docs_json(ds.push(d)) =~= seq![doc_json(ds[0])] + docs_json(ds.drop_first()).push(
            doc_json(d),
        ));
        assert(docs_json(ds).push(doc_json(d)) =~= seq![doc_json(ds[0])] + docs_json(
            ds.drop_first(),
        ).push(doc_json(d)));
    }
}

/// How a document's JSON object renders: the title binding, then the
/// notes binding.
pub proof fn lemma_doc_json_text(d: DocSpec)
    ensures
        crate::json::json_text(doc_json(d)) == seq!['{'] + crate::json::str_text(title_key())
            + seq![':'] + crate::json::str_text(d.title) + seq![','] + crate::json::str_text(
            notes_key(),
        ) + seq![':'] + crate::json::json_text(notes_value(d)) + seq!['}'],
{
    let pairs = seq![(title_key(), JsonSpec::Str(d.title)), (notes_key(), notes_value(d))];
    assert(doc_json(d) == JsonSpec::Obj(pairs));
    reveal_with_fuel(crate::json::obj_items_text, 3);
    assert(pairs.len() == 2);
    assert(pairs.drop_first() =~= seq![pairs[1]]);
    assert(crate::json::obj_items_text(seq![pairs[1]]) == crate::json::str_text(pairs[1].0) + seq![
        ':',
    ] + crate::json::json_text(pairs[1].1));
    assert(crate::json::obj_items_text(pairs) =~= crate::json::str_text(pairs[0].0) + seq![':']
        + crate::json::json_text(pairs[0].1) + seq![','] + crate::json::obj_items_text(
        pairs.drop_first(),
    ));
    assert(crate::json::json_text(pairs[0].1) == crate::json::str_text(d.title));
    assert(crate::json::json_text(doc_json(d)) =~= seq!['{'] + crate::json::obj_items_text(pairs)
        + seq!['}']);
    assert(crate::json::json_text(doc_json(d)) =~= seq!['{'] + crate::json::str_text(title_key())
        + seq![':'] + crate::json::str_text(d.title) + seq![','] + crate::json::str_text(
        notes_key(),
    ) + seq![':'] + crate::json::json_text(notes_value(d)) + seq!['}']);
}

} // verus!
