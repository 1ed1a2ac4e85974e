use vstd::prelude::*;

use crate::error::Error;
use crate::strings::chars_of;
use crate::strings::string_from_chars;

verus! {

use vstd::string::StringExecFns;

/// Whether `s` ends with `suffix`.
pub open spec fn has_suffix(s: Seq<char>, suffix: Seq<char>) -> bool {
    s.len() >= suffix.len() && s.subrange(s.len() - suffix.len(), s.len() as int) == suffix
}

pub open spec fn yaml_suffix() -> Seq<char> {
    seq!['.', 'y', 'a', 'm', 'l']
}

pub open spec fn yml_suffix() -> Seq<char> {
    seq!['.', 'y', 'm', 'l']
}

pub open spec fn json_suffix() -> Seq<char> {
    seq!['.', 'j', 's', 'o', 'n']
}

/// A file takes part in a directory conversion when its name ends in
/// `.yaml` or `.yml`, case-sensitively.
pub open spec fn spec_eligible(name: Seq<char>) -> bool {
    has_suffix(name, yaml_suffix()) || has_suffix(name, yml_suffix())
}

/// The index of the last dot of the name, or -1 if it has none.
pub open spec fn last_dot(s: Seq<char>) -> int
    decreases s.len(),
{
    if s.len() == 0 {
        -1
    } else if s[s.len() - 1] == '.' {
        s.len() - 1
    } else {
        last_dot(s.subrange(0, s.len() - 1))
    }
}

/// The output file name: the extension is replaced by `.json`.  A
/// name whose only dot is its first character has no extension, so
/// `.json` is appended instead.
pub open spec fn spec_derived(name: Seq<char>) -> Seq<char> {
    if last_dot(name) >= 1 {
        name.subrange(0, last_dot(name)) + json_suffix()
    } else {
        name + json_suffix()
    }
}

/// The last dot sits where a dot stands with no dot after it.
pub proof fn lemma_last_dot_at(s: Seq<char>, k: int)
    requires
        0 <= k < s.len(),
        s[k] == '.',
        forall|m: int| k < m < s.len() ==> s[m] != '.',
    ensures
        last_dot(s) == k,
    decreases s.len(),
{
    if k == s.len() - 1 {
    } else {
        let p = s.subrange(0, s.len() - 1);
        assert(s[s.len() - 1] != '.');
        assert(p[k] == '.');
        assert forall|m: int| k < m < p.len() implies p[m] != '.' by {
            assert(p[m] == s[m]);
        }
        lemma_last_dot_at(p, k);
    }
}

/// A name with no dot has no last dot.
pub proof fn lemma_no_dot(s: Seq<char>)
    requires
        forall|m: int| 0 <= m < s.len() ==> s[m] != '.',
    ensures
        last_dot(s) == -1,
    decreases s.len(),
{
    if s.len() > 0 {
        let p = s.subrange(0, s.len() - 1);
        assert forall|m: int| 0 <= m < p.len() implies p[m] != '.' by {
            assert(p[m] == s[m]);
        }
        lemma_no_dot(p);
    }
}

/// Whether this file name takes part in a directory conversion.
pub fn is_eligible_name(name: &str) -> (r: bool)
    ensures
        r == spec_eligible(name@),
{
    let cs = chars_of(name);
    let l = cs.len();
    let yaml = l >= 5 && cs[l - 5] == '.' && cs[l - 4] == 'y' && cs[l - 3] == 'a' && cs[l - 2]
        == 'm' && cs[l - 1] == 'l';
    let yml = l >= 4 && cs[l - 4] == '.' && cs[l - 3] == 'y' && cs[l - 2] == 'm' && cs[l - 1]
        == 'l';
    proof {
        if name@.len() >= 5 {
            assert(name@.subrange(name@.len() - 5, name@.len() as int) =~= yaml_suffix()
                <==> (name@[name@.len() - 5] == '.' && name@[name@.len() - 4] == 'y'
                && name@[name@.len() - 3] == 'a' && name@[name@.len() - 2] == 'm'
                && name@[name@.len() - 1] == 'l'));
        }
        if name@.len() >= 4 {
            assert(name@.subrange(name@.len() - 4, name@.len() as int) =~= yml_suffix()
                <==> (name@[name@.len() - 4] == '.' && name@[name@.len() - 3] == 'y'
                && name@[name@.len() - 2] == 'm' && name@[name@.len() - 1] == 'l'));
        }
    }
    yaml || yml
}

/// The output file name for an input file name, as `spec_derived`
/// describes.
pub fn derive_output_name(name: &str) -> (r: String)
    ensures
        r@ == spec_derived(name@),
{
    let cs = chars_of(name);
    let l = cs.len();
    let mut dot: usize = l;
    let mut i: usize = l;
    while i > 0
        invariant
            i <= l,
            l == name@.len(),
            cs@ == name@,
            dot == l || (i <= dot < l && name@[dot as int] == '.'),
            dot == l ==> forall|m: int| i <= m < l ==> name@[m] != '.',
            dot < l ==> forall|m: int| dot < m < l ==> name@[m] != '.',
        decreases i,
    {
        i = i - 1;
        if cs[i] == '.' && dot == l {
            dot = i;
        }
    }
    proof {
        if dot < l {
            lemma_last_dot_at(name@, dot as int);
        } else {
            lemma_no_dot(name@);
        }
    }
    let mut out: Vec<char> = Vec::new();
    let keep: usize = if dot != l && dot >= 1 {
        dot
    } else {
        l
    };
    let mut k: usize = 0;
    while k < keep
        invariant
            keep <= l,
            l == name@.len(),
            cs@ == name@,
            k <= keep,
            out@ == name@.subrange(0, k as int),
        decreases keep - k,
    {
        out.push(cs[k]);
        k = k + 1;
        proof {
            assert(out@ =~= name@.subrange(0, k as int));
        }
    }
    out.push('.');
    out.push('j');
    out.push('s');
    out.push('o');
    out.push('n');
    proof {
        if keep == l {
            assert(name@.subrange(0, l as int) =~= name@);
            assert(out@ =~= name@ + json_suffix());
        } else {
            assert(out@ =~= name@.subrange(0, keep as int) + json_suffix());
        }
    }
    string_from_chars(&out)
}

/// The conversion plan of a directory listing: each entry that is a
/// regular file with an eligible name becomes a pair of its name and
/// the derived output name, in the order given.
pub open spec fn spec_plan(es: Seq<(Seq<char>, bool)>) -> Seq<(Seq<char>, Seq<char>)>
    decreases es.len(),
{
    if es.len() == 0 {
        Seq::empty()
    } else {
        let head: Seq<(Seq<char>, Seq<char>)> = if es[0].1 && spec_eligible(es[0].0) {
            seq![(es[0].0, spec_derived(es[0].0))]
        } else {
            Seq::empty()
        };
        head + spec_plan(es.drop_first())
    }
}

/// One more entry extends the plan by its pair, or by nothing.
pub proof fn lemma_spec_plan_snoc(es: Seq<(Seq<char>, bool)>, e: (Seq<char>, bool))
    ensures
        spec_plan(es.push(e)) == spec_plan(es) + (if e.1 && spec_eligible(e.0) {
            seq![(e.0, spec_derived(e.0))]
        } else {
            Seq::<(Seq<char>, Seq<char>)>::empty()
        }),
    decreases es.len(),
{
    let tail: Seq<(Seq<char>, Seq<char>)> = if e.1 && spec_eligible(e.0) {
        seq![(e.0, spec_derived(e.0))]
    } else {
        Seq::empty()
    };
    if es.len() == 0 {
        assert(es.push(e).drop_first() =~= Seq::<(Seq<char>, bool)>::empty());
        assert(es.push(e)[0] == e);
        assert(spec_plan(Seq::<(Seq<char>, bool)>::empty()) =~= Seq::<(Seq<char>, Seq<char>)>::empty());
        assert(spec_plan(es.push(e)) =~= tail);
        assert(spec_plan(es) + tail =~= tail);
    } else {
        lemma_spec_plan_snoc(es.drop_first(), e);
        assert(es.push(e).drop_first() =~= es.drop_first().push(e));
        assert(es.push(e)[0] == es[0]);
        let head: Seq<(Seq<char>, Seq<char>)> = if es[0].1 && spec_eligible(es[0].0) {
            seq![(es[0].0, spec_derived(es[0].0))]
        } else {
            Seq::empty()
        };
        assert(spec_plan(es.push(e)) =~= head + (spec_plan(es.drop_first()) + tail));
        assert(spec_plan(es) + tail =~= head + (spec_plan(es.drop_first()) + tail));
    }
}

/// The names and kinds of a directory listing, as plain values.
pub open spec fn entries_view(es: Seq<(String, bool)>) -> Seq<(Seq<char>, bool)> {
    Seq::new(es.len(), |k: int| (es[k].0@, es[k].1))
}

/// The planned pairs, as plain values.
pub open spec fn pairs_view(ps: Seq<(String, String)>) -> Seq<(Seq<char>, Seq<char>)> {
    Seq::new(ps.len(), |k: int| (ps[k].0@, ps[k].1@))
}

/// Plan a directory conversion: keep the entries that are regular
/// files with an eligible name, derive each output name, and keep the
/// given order.  Each entry is a file name and whether it is a
/// regular file.
#[verifier::loop_isolation(false)]
pub fn plan_directory(entries: &Vec<(String, bool)>) -> (r: Vec<(String, String)>)
    ensures
        pairs_view(r@) == spec_plan(entries_view(entries@)),
{
    let ghost ev = entries_view(entries@);
    let mut r: Vec<(String, String)> = Vec::new();
    let n = entries.len();
    let mut i: usize = 0;
    proof {
        assert(ev.subrange(0, 0) =~= Seq::<(Seq<char>, bool)>::empty());
        assert(spec_plan(ev.subrange(0, 0)) =~= Seq::<(Seq<char>, Seq<char>)>::empty());
        assert(pairs_view(r@) =~= Seq::<(Seq<char>, Seq<char>)>::empty());
    }
    while i < n
        invariant
            i <= n,
            n == entries@.len(),
            pairs_view(r@) == spec_plan(ev.subrange(0, i as int)),
        decreases n - i,
    {
        let ghost r0 = r@;
        let (name, is_file) = &entries[i];
        if *is_file && is_eligible_name(name.as_str()) {
            let target = derive_output_name(name.as_str());
            r.push((name.clone(), target));
        }
        proof {
            lemma_spec_plan_snoc(ev.subrange(0, i as int), ev[i as int]);
            assert(ev.subrange(0, i as int).push(ev[i as int]) =~= ev.subrange(0, i as int + 1));
            assert(ev[i as int] == (entries@[i as int].0@, entries@[i as int].1));
            if entries@[i as int].1 && spec_eligible(entries@[i as int].0@) {
                assert(pairs_view(r@) =~= pairs_view(r0).push((r@[r0.len() as int].0@, r@[r0.len() as int].1@)));
                assert(pairs_view(r@) =~= spec_plan(ev.subrange(0, i as int + 1)));
            } else {
                assert(pairs_view(r@) =~= spec_plan(ev.subrange(0, i as int + 1)));
            }
        }
        i = i + 1;
    }
    proof {
        assert(ev.subrange(0, n as int) =~= ev);
    }
    r
}

/// The preconditions of a single file conversion, each with its own
/// failure: the input must exist, and the directory that is to hold
/// the output must exist.  The caller reports here what it found on
/// disk.
pub fn check_convert_preconditions(input_exists: bool, output_parent_exists: bool) -> (r: Result<
    (),
    Error,
>)
    ensures
        r is Ok <==> (input_exists && output_parent_exists),
        !input_exists ==> r is Err && r->Err_0 is IoError,
        input_exists && !output_parent_exists ==> r is Err && r->Err_0 is IoError,
{
    if !input_exists {
        Result::Err(Error::IoError(String::from_str("infile does not exist")))
    } else if !output_parent_exists {
        Result::Err(Error::IoError(String::from_str("outfile directory does not exist")))
    } else {
        Result::Ok(())
    }
}

} // verus!
