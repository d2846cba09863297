//! The read-only query operations over the documentation model: page-name
//! enumeration, type-name enumeration (deduplicated and sorted), and page
//! lookup by name.

use vstd::prelude::*;
use crate::model::{spec_error_message, Class, Docs, Field, Method, Overload, Parameter};
use crate::render::{spec_class_error, spec_class_renderable, spec_render_class};
use crate::text::{
    lemma_lex_lt_connected, lemma_lex_lt_irrefl, lemma_lex_lt_trans, lex_lt, str_eq, str_lex_lt,
};

verus! {

/// The entries are in strictly ascending lexicographic order; in particular
/// no entry occurs twice.
pub open spec fn strict_sorted(s: Seq<Seq<char>>) -> bool {
    forall|i: int, j: int| 0 <= i < j < s.len() ==> lex_lt(#[trigger] s[i], #[trigger] s[j])
}

/// The index of the first entry of the sorted list `r` that does not
/// precede `s`; the list's length when every entry precedes `s`.
fn lower_bound(r: &Vec<String>, s: &String) -> (j: usize)
    requires
        strict_sorted(r.deep_view()),
    ensures
        j <= r@.len(),
        forall|k: int| 0 <= k < j ==> lex_lt(#[trigger] r.deep_view()[k], s@),
        j < r@.len() ==> !lex_lt(r.deep_view()[j as int], s@),
{
    let n = r.len();
    let mut j: usize = 0;
    loop
        invariant
            j <= n,
            n == r@.len(),
            forall|k: int| 0 <= k < j ==> lex_lt(#[trigger] r.deep_view()[k], s@),
        decreases n - j,
    {
        if j == n {
            return j;
        }
        proof {
            assert(r.deep_view()[j as int] == r@[j as int]@);
        }
        if !str_lex_lt(r[j].as_str(), s.as_str()) {
            return j;
        }
        j = j + 1;
    }
}

/// Inserts `s` into the strictly sorted list `r`, keeping it strictly
/// sorted; an entry already present is left alone.
fn insert_unique_sorted(r: &mut Vec<String>, s: &String)
    requires
        strict_sorted(old(r).deep_view()),
    ensures
        strict_sorted(final(r).deep_view()),
        final(r).deep_view().to_set() == old(r).deep_view().to_set().insert(s@),
{
    let ghost dv = r.deep_view();
    let j = lower_bound(r, s);
    if j < r.len() {
        proof {
            assert(r.deep_view()[j as int] == r@[j as int]@);
        }
        if str_eq(r[j].as_str(), s.as_str()) {
            proof {
                assert(dv[j as int] == s@);
                assert(dv.to_set().contains(s@));
                assert(dv.to_set().insert(s@) =~= dv.to_set());
            }
            return ;
        }
    }
    proof {
        if j < dv.len() {
            assert(lex_lt(s@, dv[j as int])) by {
                if !lex_lt(s@, dv[j as int]) {
                    lemma_lex_lt_connected(dv[j as int], s@);
                }
            }
        }
    }
    r.insert(j, s.clone());
    proof {
        dv.insert_ensures(j as int, s@);
        let nv = r.deep_view();
        assert(nv =~= dv.insert(j as int, s@)) by {
            assert(nv.len() == dv.len() + 1);
            assert forall|k: int| 0 <= k < nv.len() implies nv[k] == dv.insert(j as int, s@)[k] by {
                if k < j {
                    assert(nv[k] == r@[k]@);
                } else if k == j {
                    assert(nv[k] == r@[k]@);
                } else {
                    assert(nv[k] == r@[k]@);
                    assert(dv.insert(j as int, s@)[k] == dv[k - 1]);
                }
            }
        }
        assert(strict_sorted(nv)) by {
            assert forall|x: int, y: int| 0 <= x < y < nv.len() implies lex_lt(nv[x], nv[y]) by {
                if y < j {
                    assert(lex_lt(dv[x], dv[y]));
                } else if y == j {
                    assert(nv[y] == s@);
                    assert(lex_lt(dv[x], s@));
                } else if x < j {
                    assert(nv[y] == dv[y - 1]);
                    if j <= y - 1 {
                        if x < j {
                            if j < dv.len() {
                                if y - 1 == j {
                                    lemma_lex_lt_trans(dv[x], s@, dv[y - 1]);
                                } else {
                                    assert(lex_lt(dv[x], dv[y - 1]));
                                }
                            }
                        }
                    }
                    assert(lex_lt(nv[x], nv[y]));
                } else if x == j {
                    assert(nv[x] == s@);
                    assert(nv[y] == dv[y - 1]);
                    assert(j <= y - 1 < dv.len());
                    if y - 1 == j {
                        assert(lex_lt(s@, dv[j as int]));
                    } else {
                        lemma_lex_lt_trans(s@, dv[j as int], dv[y - 1]);
                    }
                } else {
                    assert(nv[x] == dv[x - 1]);
                    assert(nv[y] == dv[y - 1]);
                    assert(lex_lt(dv[x - 1], dv[y - 1]));
                }
            }
        }
        assert(nv.to_set() =~= dv.to_set().insert(s@)) by {
            assert forall|e: Seq<char>| nv.to_set().contains(e) implies dv.to_set().insert(
                s@,
            ).contains(e) by {
                let k = choose|k: int| 0 <= k < nv.len() && nv[k] == e;
                if k < j {
                    assert(dv[k] == e);
                } else if k > j {
                    assert(dv[k - 1] == e);
                }
            }
            assert forall|e: Seq<char>| dv.to_set().insert(s@).contains(e) implies nv.to_set()
                .contains(e) by {
                if e == s@ {
                    assert(nv[j as int] == e);
                } else {
                    let k = choose|k: int| 0 <= k < dv.len() && dv[k] == e;
                    if k < j {
                        assert(nv[k] == e);
                    } else {
                        assert(nv[k + 1] == e);
                    }
                }
            }
        }
    }
}

/// Sorts the given names ascending by code point and removes duplicates:
/// the result is strictly sorted and holds exactly the input's entries.
pub fn unique(v: Vec<String>) -> (r: Vec<String>)
    ensures
        strict_sorted(r.deep_view()),
        r.deep_view().to_set() == v.deep_view().to_set(),
{
    let n = v.len();
    let mut r: Vec<String> = Vec::new();
    let mut i: usize = 0;
    while i < n
        invariant
            i <= n,
            n == v@.len(),
            strict_sorted(r.deep_view()),
            r.deep_view().to_set() == v.deep_view().take(i as int).to_set(),
        decreases n - i,
    {
        let ghost pre = v.deep_view().take(i as int);
        let ghost post = v.deep_view().take(i + 1 as int);
        insert_unique_sorted(&mut r, &v[i]);
        proof {
            assert(v.deep_view()[i as int] == v@[i as int]@);
            assert(post.drop_last() =~= pre);
            assert(post.last() == v.deep_view()[i as int]);
            assert(post.to_set() =~= pre.to_set().insert(v@[i as int]@)) by {
                assert forall|e: Seq<char>| post.to_set().contains(e) implies pre.to_set().insert(
                    v@[i as int]@,
                ).contains(e) by {
                    let k = choose|k: int| 0 <= k < post.len() && post[k] == e;
                    if k < i {
                        assert(pre[k] == e);
                    }
                }
                assert forall|e: Seq<char>| pre.to_set().insert(v@[i as int]@).contains(e) implies
                    post.to_set().contains(e) by {
                    if e == v@[i as int]@ {
                        assert(post[i as int] == e);
                    } else {
                        let k = choose|k: int| 0 <= k < pre.len() && pre[k] == e;
                        assert(post[k] == e);
                    }
                }
            }
        }
        i = i + 1;
    }
    proof {
        assert(v.deep_view().take(n as int) =~= v.deep_view());
    }
    r
}

/// The type tags of the first `n` parameters of one overload, in order.
pub open spec fn spec_overload_param_types(ps: Seq<Parameter>, n: int) -> Seq<Seq<char>>
    decreases n,
{
    if n <= 0 {
        Seq::empty()
    } else {
        spec_overload_param_types(ps, n - 1).push(ps[n - 1].type_tag@)
    }
}

/// The parameter types of the first `n` overloads, overload by overload.
pub open spec fn spec_overloads_param_types(os: Seq<Overload>, n: int) -> Seq<Seq<char>>
    decreases n,
{
    if n <= 0 {
        Seq::empty()
    } else {
        spec_overloads_param_types(os, n - 1) + spec_overload_param_types(
            os[n - 1].0@,
            os[n - 1].0@.len() as int,
        )
    }
}

/// The type names referenced by one method: its return types, then its
/// parameter types.
pub open spec fn spec_method_types(m: Method) -> Seq<Seq<char>> {
    m.returns.deep_view() + spec_overloads_param_types(m.parameters@, m.parameters@.len() as int)
}

/// The type names referenced by the first `n` methods of a class.
pub open spec fn spec_methods_types(ms: Seq<Method>, n: int) -> Seq<Seq<char>>
    decreases n,
{
    if n <= 0 {
        Seq::empty()
    } else {
        spec_methods_types(ms, n - 1) + spec_method_types(ms[n - 1])
    }
}

/// Every type name referenced by a class's methods, in traversal order,
/// duplicates kept.
pub open spec fn spec_class_types(c: Class) -> Seq<Seq<char>> {
    spec_methods_types(c.methods@, c.methods@.len() as int)
}

impl Class {
    /// Collects every return type and every parameter type referenced by
    /// this class's methods, in traversal order, duplicates kept.
    pub fn all_types(&self) -> (r: Vec<String>)
        ensures
            r.deep_view() == spec_class_types(*self),
    {
        let mut r: Vec<String> = Vec::new();
        let nm = self.methods.len();
        let mut i: usize = 0;
        while i < nm
            invariant
                i <= nm,
                nm == self.methods@.len(),
                r.deep_view() == spec_methods_types(self.methods@, i as int),
            decreases nm - i,
        {
            let ghost base = r.deep_view();
            let m = &self.methods[i];
            let nr = m.returns.len();
            let mut j: usize = 0;
            while j < nr
                invariant
                    j <= nr,
                    i < nm,
                    nm == self.methods@.len(),
                    m == &self.methods@[i as int],
                    nr == m.returns@.len(),
                    r.deep_view() == base + m.returns.deep_view().take(j as int),
                decreases nr - j,
            {
                let ghost pv = r@;
                let ghost pdv = r.deep_view();
                r.push(m.returns[j].clone());
                proof {
                    assert(r.deep_view() =~= pdv.push(m.returns@[j as int]@)) by {
                        assert(r@ == pv.push(m.returns@[j as int]));
                        assert forall|k: int| 0 <= k < pv.len() implies r.deep_view()[k] == pdv[k]
                        by {
                            assert(r@[k] == pv[k]);
                        }
                    }
                    assert(m.returns.deep_view()[j as int] == m.returns@[j as int]@);
                    assert(r.deep_view() =~= base + m.returns.deep_view().take(j + 1 as int));
                }
                j = j + 1;
            }
            proof {
                assert(m.returns.deep_view().take(nr as int) =~= m.returns.deep_view());
            }
            let ghost base_r = r.deep_view();
            let no = m.parameters.len();
            let mut k: usize = 0;
            while k < no
                invariant
                    k <= no,
                    i < nm,
                    nm == self.methods@.len(),
                    m == &self.methods@[i as int],
                    no == m.parameters@.len(),
                    base_r == base + m.returns.deep_view(),
                    r.deep_view() == base_r + spec_overloads_param_types(m.parameters@, k as int),
                decreases no - k,
            {
                let ghost base_o = r.deep_view();
                let o = &m.parameters[k];
                let np = o.0.len();
                let mut l: usize = 0;
                while l < np
                    invariant
                        l <= np,
                        k < no,
                        no == m.parameters@.len(),
                        o == &m.parameters@[k as int],
                        np == o.0@.len(),
                        r.deep_view() == base_o + spec_overload_param_types(o.0@, l as int),
                    decreases np - l,
                {
                    let ghost pv = r@;
                    let ghost pdv = r.deep_view();
                    r.push(o.0[l].type_tag.clone());
                    proof {
                        assert(r.deep_view() =~= pdv.push(o.0@[l as int].type_tag@)) by {
                            assert(r@ == pv.push(o.0@[l as int].type_tag));
                            assert forall|k: int| 0 <= k < pv.len() implies r.deep_view()[k]
                                == pdv[k] by {
                                assert(r@[k] == pv[k]);
                            }
                        }
                        assert(r.deep_view() =~= base_o + spec_overload_param_types(
                            o.0@,
                            l + 1 as int,
                        ));
                    }
                    l = l + 1;
                }
                proof {
                    assert(r.deep_view() =~= base_r + spec_overloads_param_types(
                        m.parameters@,
                        k + 1 as int,
                    ));
                }
                k = k + 1;
            }
            proof {
                assert(r.deep_view() =~= spec_methods_types(self.methods@, i + 1 as int));
            }
            i = i + 1;
        }
        r
    }
}

/// The names of the first `n` child classes of a field, in order.
pub open spec fn spec_children_names(cs: Seq<Class>, n: int) -> Seq<Seq<char>>
    decreases n,
{
    if n <= 0 {
        Seq::empty()
    } else {
        spec_children_names(cs, n - 1).push(cs[n - 1].name@)
    }
}

/// The page names contributed by the first `n` fields: the names of every
/// child class of each field whose type tag is not `Function`.
pub open spec fn spec_field_pages(fs: Seq<Field>, n: int) -> Seq<Seq<char>>
    decreases n,
{
    if n <= 0 {
        Seq::empty()
    } else {
        spec_field_pages(fs, n - 1) + (if fs[n - 1].type_tag@ == "Function"@ {
            Seq::empty()
        } else {
            spec_children_names(fs[n - 1].children@, fs[n - 1].children@.len() as int)
        })
    }
}

/// The page names of the documentation root: the names of the children of
/// every qualifying field of the global namespace, in declaration order,
/// duplicates kept. The built-in module is addressable by its reserved
/// name without being enumerated here.
pub open spec fn spec_pages(d: Docs) -> Seq<Seq<char>> {
    spec_field_pages(d.globals.fields@, d.globals.fields@.len() as int)
}

/// Lists the renderable page names, in declaration order.
pub fn get_pages(docs: &Docs) -> (r: Vec<String>)
    ensures
        r.deep_view() == spec_pages(*docs),
{
    let mut r: Vec<String> = Vec::new();
    let nf = docs.globals.fields.len();
    let mut i: usize = 0;
    while i < nf
        invariant
            i <= nf,
            nf == docs.globals.fields@.len(),
            r.deep_view() == spec_field_pages(docs.globals.fields@, i as int),
        decreases nf - i,
    {
        let ghost base = r.deep_view();
        let f = &docs.globals.fields[i];
        if !str_eq(f.type_tag.as_str(), "Function") {
            let nc = f.children.len();
            let mut j: usize = 0;
            while j < nc
                invariant
                    j <= nc,
                    i < nf,
                    nf == docs.globals.fields@.len(),
                    f == &docs.globals.fields@[i as int],
                    nc == f.children@.len(),
                    r.deep_view() == base + spec_children_names(f.children@, j as int),
                decreases nc - j,
            {
                let ghost pv = r@;
                let ghost pdv = r.deep_view();
                r.push(f.children[j].name.clone());
                proof {
                    assert(r.deep_view() =~= pdv.push(f.children@[j as int].name@)) by {
                        assert(r@ == pv.push(f.children@[j as int].name));
                        assert forall|k: int| 0 <= k < pv.len() implies r.deep_view()[k] == pdv[k]
                        by {
                            assert(r@[k] == pv[k]);
                        }
                    }
                    assert(r.deep_view() =~= base + spec_children_names(
                        f.children@,
                        j + 1 as int,
                    ));
                }
                j = j + 1;
            }
        }
        proof {
            assert(r.deep_view() =~= spec_field_pages(docs.globals.fields@, i + 1 as int));
        }
        i = i + 1;
    }
    r
}

/// The type names referenced from the first `n` child classes of a field.
pub open spec fn spec_children_types(cs: Seq<Class>, n: int) -> Seq<Seq<char>>
    decreases n,
{
    if n <= 0 {
        Seq::empty()
    } else {
        spec_children_types(cs, n - 1) + spec_class_types(cs[n - 1])
    }
}

/// The type names referenced from the first `n` fields' child pages; a
/// field of type `Function` contributes nothing.
pub open spec fn spec_field_types(fs: Seq<Field>, n: int) -> Seq<Seq<char>>
    decreases n,
{
    if n <= 0 {
        Seq::empty()
    } else {
        spec_field_types(fs, n - 1) + (if fs[n - 1].type_tag@ == "Function"@ {
            Seq::empty()
        } else {
            spec_children_types(fs[n - 1].children@, fs[n - 1].children@.len() as int)
        })
    }
}

/// Every type name referenced from the documentation's pages, in traversal
/// order, duplicates kept.
pub open spec fn spec_all_types(d: Docs) -> Seq<Seq<char>> {
    spec_field_types(d.globals.fields@, d.globals.fields@.len() as int)
}

/// Lists every type name referenced from the documentation's pages,
/// deduplicated and sorted ascending by code point.
pub fn get_types(docs: &Docs) -> (r: Vec<String>)
    ensures
        strict_sorted(r.deep_view()),
        r.deep_view().to_set() == spec_all_types(*docs).to_set(),
{
    let mut collected: Vec<String> = Vec::new();
    let nf = docs.globals.fields.len();
    let mut i: usize = 0;
    while i < nf
        invariant
            i <= nf,
            nf == docs.globals.fields@.len(),
            collected.deep_view() == spec_field_types(docs.globals.fields@, i as int),
        decreases nf - i,
    {
        let ghost base = collected.deep_view();
        let f = &docs.globals.fields[i];
        if !str_eq(f.type_tag.as_str(), "Function") {
            let nc = f.children.len();
            let mut j: usize = 0;
            while j < nc
                invariant
                    j <= nc,
                    i < nf,
                    nf == docs.globals.fields@.len(),
                    f == &docs.globals.fields@[i as int],
                    nc == f.children@.len(),
                    collected.deep_view() == base + spec_children_types(f.children@, j as int),
                decreases nc - j,
            {
                let ghost base_c = collected.deep_view();
                let ts = f.children[j].all_types();
                let nt = ts.len();
                let mut l: usize = 0;
                while l < nt
                    invariant
                        l <= nt,
                        nt == ts@.len(),
                        collected.deep_view() == base_c + ts.deep_view().take(l as int),
                    decreases nt - l,
                {
                    let ghost pv = collected@;
                    let ghost pdv = collected.deep_view();
                    collected.push(ts[l].clone());
                    proof {
                        assert(collected.deep_view() =~= pdv.push(ts@[l as int]@)) by {
                            assert(collected@ == pv.push(ts@[l as int]));
                            assert forall|k: int| 0 <= k < pv.len() implies collected.deep_view()[k]
                                == pdv[k] by {
                                assert(collected@[k] == pv[k]);
                            }
                        }
                        assert(ts.deep_view()[l as int] == ts@[l as int]@);
                        assert(collected.deep_view() =~= base_c + ts.deep_view().take(
                            l + 1 as int,
                        ));
                    }
                    l = l + 1;
                }
                proof {
                    assert(ts.deep_view().take(nt as int) =~= ts.deep_view());
                    assert(collected.deep_view() =~= base + spec_children_types(
                        f.children@,
                        j + 1 as int,
                    ));
                }
                j = j + 1;
            }
        }
        proof {
            assert(collected.deep_view() =~= spec_field_types(
                docs.globals.fields@,
                i + 1 as int,
            ));
        }
        i = i + 1;
    }
    unique(collected)
}

/// A strictly sorted listing holds no entry twice.
pub proof fn lemma_strict_sorted_no_dup(s: Seq<Seq<char>>)
    requires
        strict_sorted(s),
    ensures
        forall|i: int, j: int| 0 <= i < j < s.len() ==> s[i] != s[j],
{
    assert forall|i: int, j: int| 0 <= i < j < s.len() implies s[i] != s[j] by {
        lemma_lex_lt_irrefl(s[i]);
    }
}

/// Two strictly sorted listings of the same entries are identical: a
/// sorted, deduplicated listing is fully determined by what it lists, so
/// re-running it on the same input yields the same sequence.
pub proof fn lemma_strict_sorted_unique(s1: Seq<Seq<char>>, s2: Seq<Seq<char>>)
    requires
        strict_sorted(s1),
        strict_sorted(s2),
        s1.to_set() == s2.to_set(),
    ensures
        s1 == s2,
    decreases s1.len(),
{
    if s1.len() == 0 {
        if s2.len() > 0 {
            assert(s2.to_set().contains(s2[0]));
            assert(s1.contains(s2[0]));
            assert(false);
        }
        assert(s1 =~= s2);
    } else {
        if s2.len() == 0 {
            assert(s1.to_set().contains(s1[0]));
            assert(s2.contains(s1[0]));
            assert(false);
        }
        assert(s2.to_set().contains(s1[0]));
        assert(s2.contains(s1[0]));
        let j = choose|j: int| 0 <= j < s2.len() && s2[j] == s1[0];
        assert(s1.to_set().contains(s2[0]));
        assert(s1.contains(s2[0]));
        let k = choose|k: int| 0 <= k < s1.len() && s1[k] == s2[0];
        assert(s1[0] == s2[0]) by {
            if j > 0 && k > 0 {
                assert(lex_lt(s2[0], s2[j]));
                assert(lex_lt(s1[0], s1[k]));
                lemma_lex_lt_trans(s1[0], s2[0], s2[j]);
                lemma_lex_lt_irrefl(s1[0]);
            }
        }
        let t1 = s1.skip(1);
        let t2 = s2.skip(1);
        assert(strict_sorted(t1)) by {
            assert forall|x: int, y: int| 0 <= x < y < t1.len() implies lex_lt(t1[x], t1[y]) by {
                assert(t1[x] == s1[x + 1]);
                assert(t1[y] == s1[y + 1]);
            }
        }
        assert(strict_sorted(t2)) by {
            assert forall|x: int, y: int| 0 <= x < y < t2.len() implies lex_lt(t2[x], t2[y]) by {
                assert(t2[x] == s2[x + 1]);
                assert(t2[y] == s2[y + 1]);
            }
        }
        assert(t1.to_set() =~= s1.to_set().remove(s1[0])) by {
            assert forall|e: Seq<char>| t1.to_set().contains(e) implies s1.to_set().remove(
                s1[0],
            ).contains(e) by {
                let x = choose|x: int| 0 <= x < t1.len() && t1[x] == e;
                assert(s1[x + 1] == e);
                assert(lex_lt(s1[0], s1[x + 1]));
                lemma_lex_lt_irrefl(s1[0]);
            }
            assert forall|e: Seq<char>| s1.to_set().remove(s1[0]).contains(e) implies t1.to_set()
                .contains(e) by {
                let x = choose|x: int| 0 <= x < s1.len() && s1[x] == e;
                assert(x > 0);
                assert(t1[x - 1] == e);
            }
        }
        assert(t2.to_set() =~= s2.to_set().remove(s2[0])) by {
            assert forall|e: Seq<char>| t2.to_set().contains(e) implies s2.to_set().remove(
                s2[0],
            ).contains(e) by {
                let x = choose|x: int| 0 <= x < t2.len() && t2[x] == e;
                assert(s2[x + 1] == e);
                assert(lex_lt(s2[0], s2[x + 1]));
                lemma_lex_lt_irrefl(s2[0]);
            }
            assert forall|e: Seq<char>| s2.to_set().remove(s2[0]).contains(e) implies t2.to_set()
                .contains(e) by {
                let x = choose|x: int| 0 <= x < s2.len() && s2[x] == e;
                assert(x > 0);
                assert(t2[x - 1] == e);
            }
        }
        lemma_strict_sorted_unique(t1, t2);
        assert(s1 =~= s2) by {
            assert(t1.len() == t2.len());
            assert forall|x: int| 0 <= x < s1.len() implies s1[x] == s2[x] by {
                if x > 0 {
                    assert(s1[x] == t1[x - 1]);
                    assert(s2[x] == t2[x - 1]);
                }
            }
        }
    }
}

/// The first child class named `name`, in declaration order.
pub open spec fn spec_find_in_children(cs: Seq<Class>, name: Seq<char>) -> Option<Class>
    decreases cs.len(),
{
    if cs.len() == 0 {
        None
    } else if cs[0].name@ == name {
        Some(cs[0])
    } else {
        spec_find_in_children(cs.skip(1), name)
    }
}

/// The first child class named `name` under a qualifying field, fields in
/// declaration order; a field of type `Function` is not searched.
pub open spec fn spec_find_in_fields(fs: Seq<Field>, name: Seq<char>) -> Option<Class>
    decreases fs.len(),
{
    if fs.len() == 0 {
        None
    } else {
        let here = if fs[0].type_tag@ == "Function"@ {
            None
        } else {
            spec_find_in_children(fs[0].children@, name)
        };
        if here is Some {
            here
        } else {
            spec_find_in_fields(fs.skip(1), name)
        }
    }
}

/// The page for `name`: the reserved name `math` resolves to the built-in
/// module; any other name is matched, case-sensitively, against the child
/// classes of the global namespace's qualifying fields.
pub open spec fn spec_find_page(d: Docs, name: Seq<char>) -> Option<Class> {
    if name == "math"@ {
        Some(d.math)
    } else {
        spec_find_in_fields(d.globals.fields@, name)
    }
}

impl Docs {
    /// Looks the page named `page` up; an absent page is a normal outcome,
    /// reported as `None` for the caller to handle.
    pub fn find_page<'a>(&'a self, page: &str) -> (r: Option<&'a Class>)
        ensures
            match r {
                Some(c) => spec_find_page(*self, page@) == Some(*c),
                None => spec_find_page(*self, page@) is None,
            },
    {
        if str_eq(page, "math") {
            return Some(&self.math);
        }
        let nf = self.globals.fields.len();
        let mut i: usize = 0;
        proof {
            assert(self.globals.fields@.skip(0) =~= self.globals.fields@);
        }
        while i < nf
            invariant
                i <= nf,
                nf == self.globals.fields@.len(),
                page@ != "math"@,
                spec_find_in_fields(self.globals.fields@, page@) == spec_find_in_fields(
                    self.globals.fields@.skip(i as int),
                    page@,
                ),
            decreases nf - i,
        {
            let f = &self.globals.fields[i];
            if !str_eq(f.type_tag.as_str(), "Function") {
                let nc = f.children.len();
                let mut j: usize = 0;
                proof {
                    assert(f.children@.skip(0) =~= f.children@);
                }
                while j < nc
                    invariant
                        j <= nc,
                        i < nf,
                        nf == self.globals.fields@.len(),
                        f == &self.globals.fields@[i as int],
                        nc == f.children@.len(),
                        page@ != "math"@,
                        f.type_tag@ != "Function"@,
                        spec_find_in_fields(self.globals.fields@, page@) == spec_find_in_fields(
                            self.globals.fields@.skip(i as int),
                            page@,
                        ),
                        spec_find_in_children(f.children@, page@) == spec_find_in_children(
                            f.children@.skip(j as int),
                            page@,
                        ),
                    decreases nc - j,
                {
                    proof {
                        let cs = f.children@.skip(j as int);
                        assert(cs[0] == f.children@[j as int]);
                        assert(cs.skip(1) =~= f.children@.skip(j + 1 as int));
                    }
                    if str_eq(f.children[j].name.as_str(), page) {
                        proof {
                            let fs = self.globals.fields@.skip(i as int);
                            assert(fs[0] == self.globals.fields@[i as int]);
                            let cs = f.children@.skip(j as int);
                            assert(spec_find_in_children(cs, page@) == Some(cs[0]));
                            assert(fs[0].type_tag@ != "Function"@);
                            assert(spec_find_in_children(fs[0].children@, page@) == Some(
                                f.children@[j as int],
                            ));
                            assert(spec_find_in_fields(fs, page@) == Some(
                                f.children@[j as int],
                            ));
                            assert(spec_find_page(*self, page@) == Some(
                                f.children@[j as int],
                            ));
                        }
                        return Some(&f.children[j]);
                    }
                    j = j + 1;
                }
                proof {
                    assert(f.children@.skip(nc as int).len() == 0);
                    assert(spec_find_in_children(f.children@, page@) is None);
                }
            }
            proof {
                let fs = self.globals.fields@.skip(i as int);
                assert(fs[0] == self.globals.fields@[i as int]);
                assert(fs.skip(1) =~= self.globals.fields@.skip(i + 1 as int));
            }
            i = i + 1;
        }
        proof {
            assert(self.globals.fields@.skip(nf as int).len() == 0);
        }
        None
    }
}

/// The rendered texts for the first `n` selected pages: one entry per name
/// that resolves to a page whose data is sound, in selection order.
pub open spec fn spec_generate_outputs(d: Docs, names: Seq<Seq<char>>, n: int) -> Seq<Seq<char>>
    decreases n,
{
    if n <= 0 {
        Seq::empty()
    } else {
        spec_generate_outputs(d, names, n - 1) + (match spec_find_page(d, names[n - 1]) {
            Option::None => Seq::empty(),
            Option::Some(c) => if spec_class_renderable(c) {
                seq![spec_render_class(c)]
            } else {
                Seq::empty()
            },
        })
    }
}

/// The diagnostics for the first `n` selected pages: a not-found line for
/// each name without a page, a data-integrity line for each unsound page.
pub open spec fn spec_generate_diags(d: Docs, names: Seq<Seq<char>>, n: int) -> Seq<Seq<char>>
    decreases n,
{
    if n <= 0 {
        Seq::empty()
    } else {
        spec_generate_diags(d, names, n - 1) + (match spec_find_page(d, names[n - 1]) {
            Option::None => seq!["Page not found: "@ + names[n - 1]],
            Option::Some(c) => if spec_class_renderable(c) {
                Seq::empty()
            } else {
                seq![spec_error_message(spec_class_error(c))]
            },
        })
    }
}

/// Renders the selected pages: the first result holds the rendered text of
/// each selected page that exists and is sound, in selection order; the
/// second holds one diagnostic line for each name without a page and each
/// page with a data-integrity fault. A missing or faulty page never stops
/// the remaining selections.
pub fn generate(docs: &Docs, pages: &Vec<String>) -> (r: (Vec<String>, Vec<String>))
    ensures
        r.0.deep_view() == spec_generate_outputs(
            *docs,
            pages.deep_view(),
            pages.deep_view().len() as int,
        ),
        r.1.deep_view() == spec_generate_diags(
            *docs,
            pages.deep_view(),
            pages.deep_view().len() as int,
        ),
{
    let mut outs: Vec<String> = Vec::new();
    let mut diags: Vec<String> = Vec::new();
    let np = pages.len();
    let mut i: usize = 0;
    while i < np
        invariant
            i <= np,
            np == pages@.len(),
            outs.deep_view() == spec_generate_outputs(*docs, pages.deep_view(), i as int),
            diags.deep_view() == spec_generate_diags(*docs, pages.deep_view(), i as int),
        decreases np - i,
    {
        proof {
            assert(pages.deep_view()[i as int] == pages@[i as int]@);
        }
        let ghost odv = outs.deep_view();
        let ghost ddv = diags.deep_view();
        match docs.find_page(pages[i].as_str()) {
            Option::None => {
                let mut msg: String = "Page not found: ".to_owned();
                msg.append(pages[i].as_str());
                let ghost pv = diags@;
                diags.push(msg);
                proof {
                    assert(diags.deep_view() =~= ddv.push(
                        "Page not found: "@ + pages@[i as int]@,
                    )) by {
                        assert forall|k: int| 0 <= k < pv.len() implies diags.deep_view()[k]
                            == ddv[k] by {
                            assert(diags@[k] == pv[k]);
                        }
                    }
                    assert(diags.deep_view() =~= spec_generate_diags(
                        *docs,
                        pages.deep_view(),
                        i + 1 as int,
                    ));
                    assert(outs.deep_view() =~= spec_generate_outputs(
                        *docs,
                        pages.deep_view(),
                        i + 1 as int,
                    ));
                }
            },
            Option::Some(c) => {
                match c.render() {
                    Ok(s) => {
                        let ghost pv = outs@;
                        let ghost sv = s@;
                        outs.push(s);
                        proof {
                            assert(outs.deep_view() =~= odv.push(sv)) by {
                                assert forall|k: int| 0 <= k < pv.len() implies outs.deep_view()[k]
                                    == odv[k] by {
                                    assert(outs@[k] == pv[k]);
                                }
                            }
                            assert(outs.deep_view() =~= spec_generate_outputs(
                                *docs,
                                pages.deep_view(),
                                i + 1 as int,
                            ));
                            assert(diags.deep_view() =~= spec_generate_diags(
                                *docs,
                                pages.deep_view(),
                                i + 1 as int,
                            ));
                        }
                    },
                    Err(e) => {
                        let msg = e.message();
                        let ghost pv = diags@;
                        let ghost mv = msg@;
                        diags.push(msg);
                        proof {
                            assert(diags.deep_view() =~= ddv.push(mv)) by {
                                assert forall|k: int| 0 <= k < pv.len() implies diags.deep_view()[k]
                                    == ddv[k] by {
                                    assert(diags@[k] == pv[k]);
                                }
                            }
                            assert(diags.deep_view() =~= spec_generate_diags(
                                *docs,
                                pages.deep_view(),
                                i + 1 as int,
                            ));
                            assert(outs.deep_view() =~= spec_generate_outputs(
                                *docs,
                                pages.deep_view(),
                                i + 1 as int,
                            ));
                        }
                    },
                }
            },
        }
        i = i + 1;
    }
    (outs, diags)
}

} // verus!
