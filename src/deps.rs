//! Dependency-manifest comparison: which packages only one side has, and
//! which changed version.
use vstd::prelude::*;

use crate::correlation::{lemma_text_less_irreflexive, lemma_text_less_trans, text_less};
use crate::normalize::pairs_view;
use crate::text::{join2, str_eq};

verus! {

/// Package names and versions, kept sorted by name, each name once.
#[derive(Debug, Clone)]
pub struct Deps {
    entries: Vec<(String, String)>,
}

/// Names strictly increasing.
pub open spec fn names_sorted(s: Seq<(Seq<char>, Seq<char>)>) -> bool {
    forall|i: int, j: int| 0 <= i < j < s.len() ==> text_less(#[trigger] s[i].0, #[trigger] s[j].0)
}

/// The name is listed.
pub open spec fn has_name(s: Seq<(Seq<char>, Seq<char>)>, k: Seq<char>) -> bool {
    exists|i: int| 0 <= i < s.len() && (#[trigger] s[i]).0 == k
}

/// A position where the name is listed, if it is.
pub open spec fn name_index(s: Seq<(Seq<char>, Seq<char>)>, k: Seq<char>) -> int {
    choose|i: int| 0 <= i < s.len() && (#[trigger] s[i]).0 == k
}

/// The version listed for a name; empty when the name is not listed.
pub open spec fn version_of(s: Seq<(Seq<char>, Seq<char>)>, k: Seq<char>) -> Seq<char> {
    if has_name(s, k) {
        s[name_index(s, k)].1
    } else {
        Seq::empty()
    }
}

proof fn lemma_version_at(s: Seq<(Seq<char>, Seq<char>)>, i: int)
    requires
        names_sorted(s),
        0 <= i < s.len(),
    ensures
        version_of(s, s[i].0) == s[i].1,
{
    let k = s[i].0;
    assert(has_name(s, k));
    let j = name_index(s, k);
    if j != i {
        lemma_text_less_irreflexive(k);
        if j < i {
            assert(text_less(s[j].0, s[i].0));
        } else {
            assert(text_less(s[i].0, s[j].0));
        }
    }
    assert(j == i);
    assert(version_of(s, k) == s[j].1);
}

/// Two texts are equal or one is less than the other.
proof fn lemma_text_less_total(a: Seq<char>, b: Seq<char>)
    ensures
        a == b || text_less(a, b) || text_less(b, a),
    decreases a.len(),
{
    if a.len() > 0 && b.len() > 0 && a[0] == b[0] {
        lemma_text_less_total(a.drop_first(), b.drop_first());
        if a.drop_first() == b.drop_first() {
            assert(a =~= seq![a[0]] + a.drop_first());
            assert(b =~= seq![b[0]] + b.drop_first());
        }
    } else if a.len() > 0 && b.len() > 0 {
        let x = a[0] as u32;
        let y = b[0] as u32;
        assert(x != y) by {
            vstd::utf8::char_u32_cast(a[0], x);
            vstd::utf8::char_u32_cast(b[0], y);
        }
    } else if a.len() == 0 && b.len() == 0 {
        assert(a =~= b);
    }
}

impl Deps {
    /// Names and versions, in name order.
    pub closed spec fn view(&self) -> Seq<(Seq<char>, Seq<char>)> {
        pairs_view(self.entries@)
    }

    /// Sorted by name, each name once.
    pub open spec fn wf(&self) -> bool {
        names_sorted(self.view())
    }

    /// No packages.
    pub fn new() -> (r: Deps)
        ensures
            r.wf(),
            r.view().len() == 0,
    {
        let r = Deps { entries: Vec::new() };
        assert(r.view() =~= Seq::<(Seq<char>, Seq<char>)>::empty());
        r
    }

    /// Number of packages.
    pub fn len(&self) -> (r: usize)
        ensures
            r == self.view().len(),
    {
        self.entries.len()
    }

    /// The version listed for a name; empty when it is not listed.
    pub fn version(&self, name: &str) -> (r: String)
        requires
            self.wf(),
        ensures
            r@ == version_of(self.view(), name@),
    {
        let mut i: usize = 0;
        while i < self.entries.len()
            invariant
                self.wf(),
                i <= self.entries@.len(),
                forall|j: int| 0 <= j < i ==> (#[trigger] self.view()[j]).0 != name@,
            decreases self.entries@.len() - i,
        {
            if str_eq(self.entries[i].0.as_str(), name) {
                proof {
                    lemma_version_at(self.view(), i as int);
                }
                return self.entries[i].1.clone();
            }
            i += 1;
        }
        String::new()
    }

    /// Lists `name` at `version`, replacing any version listed before.
    pub fn insert(&mut self, name: String, version: String)
        requires
            old(self).wf(),
        ensures
            final(self).wf(),
            forall|k: Seq<char>|
                has_name(final(self).view(), k) == (has_name(old(self).view(), k) || k == name@),
            forall|k: Seq<char>|
                #![trigger version_of(final(self).view(), k)]
                version_of(final(self).view(), k) == if k == name@ {
                    version@
                } else {
                    version_of(old(self).view(), k)
                },
    {
        let ghost s = self.view();
        let mut p: usize = 0;
        while p < self.entries.len() && str_less_entry(&self.entries[p].0, &name)
            invariant
                p <= self.entries@.len(),
                s == self.view(),
                forall|q: int| 0 <= q < p ==> text_less((#[trigger] s[q]).0, name@),
            decreases self.entries@.len() - p,
        {
            p += 1;
        }
        if p < self.entries.len() && str_eq(self.entries[p].0.as_str(), name.as_str()) {
            let ghost nv = (name@, version@);
            self.entries.set(p, (name, version));
            proof {
                let t = self.view();
                assert(t =~= s.update(p as int, nv));
                assert forall|a: int, b: int| 0 <= a < b < t.len() implies text_less(
                    #[trigger] t[a].0,
                    #[trigger] t[b].0,
                ) by {
                    assert(t[a].0 == s[a].0);
                    assert(t[b].0 == s[b].0);
                }
                lemma_update_versions(s, p as int, nv);
                assert(s[p as int].0 == name@);
                assert(has_name(s, name@));
                assert forall|k: Seq<char>|
                    has_name(self.view(), k) == (has_name(s, k) || k == name@) by {
                    assert(has_name(s.update(p as int, nv), k) == has_name(s, k));
                }
            }
        } else {
            let ghost nv = (name@, version@);
            proof {
                if p < s.len() {
                    lemma_text_less_total(s[p as int].0, name@);
                }
                assert forall|q: int| p <= q < s.len() implies text_less(name@, (#[trigger] s[q]).0) by {
                    lemma_text_less_total(s[p as int].0, name@);
                    if q > p {
                        lemma_text_less_trans(name@, s[p as int].0, s[q].0);
                    }
                }
            }
            self.entries.insert(p, (name, version));
            proof {
                let t = self.view();
                assert(t =~= s.insert(p as int, nv));
                lemma_insert_versions(s, p as int, nv);
                assert forall|k: Seq<char>|
                    has_name(self.view(), k) == (has_name(s, k) || k == name@) by {
                    assert(has_name(s.insert(p as int, nv), k) == (has_name(s, k) || k == nv.0));
                }
            }
        }
    }
}

/// `a < b` in name order.
fn str_less_entry(a: &String, b: &String) -> (r: bool)
    ensures
        r == text_less(a@, b@),
{
    crate::correlation::str_less(a.as_str(), b.as_str())
}

proof fn lemma_update_versions(s: Seq<(Seq<char>, Seq<char>)>, p: int, x: (Seq<char>, Seq<char>))
    requires
        names_sorted(s),
        0 <= p < s.len(),
        s[p].0 == x.0,
    ensures
        forall|k: Seq<char>| #[trigger] has_name(s.update(p, x), k) == has_name(s, k),
        forall|k: Seq<char>|
            #![trigger version_of(s.update(p, x), k)]
            version_of(s.update(p, x), k) == if k == x.0 {
                x.1
            } else {
                version_of(s, k)
            },
{
    let t = s.update(p, x);
    assert forall|k: Seq<char>| has_name(t, k) == has_name(s, k) by {
        if has_name(s, k) {
            let i = choose|i: int| 0 <= i < s.len() && (#[trigger] s[i]).0 == k;
            assert(t[i].0 == k);
        }
        if has_name(t, k) {
            let i = choose|i: int| 0 <= i < t.len() && (#[trigger] t[i]).0 == k;
            assert(s[i].0 == k);
        }
    }
    assert forall|k: Seq<char>|
        #![trigger version_of(s.update(p, x), k)]
        version_of(t, k) == if k == x.0 {
            x.1
        } else {
            version_of(s, k)
        } by {
        if k == x.0 {
            lemma_version_at(t, p);
        } else if has_name(s, k) {
            let i = choose|i: int| 0 <= i < s.len() && (#[trigger] s[i]).0 == k;
            lemma_version_at(s, i);
            lemma_version_at(t, i);
        }
    }
}

proof fn lemma_insert_versions(s: Seq<(Seq<char>, Seq<char>)>, p: int, x: (Seq<char>, Seq<char>))
    requires
        names_sorted(s),
        0 <= p <= s.len(),
        forall|q: int| 0 <= q < p ==> text_less((#[trigger] s[q]).0, x.0),
        forall|q: int| p <= q < s.len() ==> text_less(x.0, (#[trigger] s[q]).0),
    ensures
        names_sorted(s.insert(p, x)),
        forall|k: Seq<char>| #[trigger] has_name(s.insert(p, x), k) == (has_name(s, k) || k == x.0),
        forall|k: Seq<char>|
            #![trigger version_of(s.insert(p, x), k)]
            version_of(s.insert(p, x), k) == if k == x.0 {
                x.1
            } else {
                version_of(s, k)
            },
{
    let t = s.insert(p, x);
    assert forall|i: int, j: int| 0 <= i < j < t.len() implies text_less(
        #[trigger] t[i].0,
        #[trigger] t[j].0,
    ) by {
        if i == p {
            assert(t[j] == s[j - 1]);
        } else if j == p {
            assert(t[i] == s[i]);
        } else {
            let i0 = if i < p {
                i
            } else {
                i - 1
            };
            let j0 = if j < p {
                j
            } else {
                j - 1
            };
            assert(t[i] == s[i0]);
            assert(t[j] == s[j0]);
        }
    }
    assert forall|k: Seq<char>| has_name(t, k) == (has_name(s, k) || k == x.0) by {
        if has_name(s, k) {
            let i = choose|i: int| 0 <= i < s.len() && (#[trigger] s[i]).0 == k;
            if i < p {
                assert(t[i] == s[i]);
            } else {
                assert(t[i + 1] == s[i]);
            }
        }
        if k == x.0 {
            assert(t[p].0 == k);
        }
        if has_name(t, k) && k != x.0 {
            let i = choose|i: int| 0 <= i < t.len() && (#[trigger] t[i]).0 == k;
            if i < p {
                assert(s[i] == t[i]);
            } else {
                assert(s[i - 1] == t[i]);
            }
        }
    }
    assert forall|k: Seq<char>|
        #![trigger version_of(s.insert(p, x), k)]
        version_of(t, k) == if k == x.0 {
            x.1
        } else {
            version_of(s, k)
        } by {
        if k == x.0 {
            lemma_version_at(t, p);
        } else if has_name(s, k) {
            let i = choose|i: int| 0 <= i < s.len() && (#[trigger] s[i]).0 == k;
            lemma_version_at(s, i);
            if i < p {
                assert(t[i] == s[i]);
                lemma_version_at(t, i);
            } else {
                assert(t[i + 1] == s[i]);
                lemma_version_at(t, i + 1);
            }
        } else {
            assert(!has_name(t, k));
        }
    }
}

/// All packages of `deps`, and those of `dev` that `deps` does not list;
/// where both list a name, the version in `deps` stands.
pub fn flatten(deps: &Deps, dev: &Deps) -> (r: Deps)
    requires
        deps.wf(),
        dev.wf(),
    ensures
        r.wf(),
        forall|k: Seq<char>|
            has_name(r.view(), k) == (has_name(deps.view(), k) || has_name(dev.view(), k)),
        forall|k: Seq<char>|
            #![trigger version_of(r.view(), k)]
            version_of(r.view(), k) == if has_name(deps.view(), k) {
                version_of(deps.view(), k)
            } else {
                version_of(dev.view(), k)
            },
{
    let mut all = Deps::new();
    let mut i: usize = 0;
    while i < deps.entries.len()
        invariant
            deps.wf(),
            i <= deps.entries@.len(),
            all.wf(),
            forall|k: Seq<char>|
                has_name(all.view(), k) == has_name(deps.view().take(i as int), k),
            forall|k: Seq<char>|
                #![trigger version_of(all.view(), k)]
                has_name(all.view(), k) ==> version_of(all.view(), k) == version_of(deps.view(), k),
        decreases deps.entries@.len() - i,
    {
        let (n, v) = &deps.entries[i];
        let ghost before = all.view();
        all.insert(n.clone(), v.clone());
        proof {
            let d = deps.view();
            lemma_version_at(d, i as int);
            assert forall|k: Seq<char>| has_name(all.view(), k) == has_name(d.take(i + 1), k) by {
                if has_name(d.take(i + 1), k) {
                    let j = choose|j: int| 0 <= j < d.take(i + 1).len() && (#[trigger] d.take(i + 1)[j]).0 == k;
                    if j < i {
                        assert(d.take(i as int)[j] == d.take(i + 1)[j]);
                    }
                }
                if has_name(d.take(i as int), k) {
                    let j = choose|j: int| 0 <= j < d.take(i as int).len() && (#[trigger] d.take(i as int)[j]).0 == k;
                    assert(d.take(i + 1)[j] == d.take(i as int)[j]);
                }
                if k == d[i as int].0 {
                    assert(d.take(i + 1)[i as int] == d[i as int]);
                }
            }
        }
        i += 1;
    }
    proof {
        assert(deps.view().take(deps.entries@.len() as int) =~= deps.view());
    }
    let mut j: usize = 0;
    while j < dev.entries.len()
        invariant
            deps.wf(),
            dev.wf(),
            j <= dev.entries@.len(),
            all.wf(),
            forall|k: Seq<char>|
                has_name(all.view(), k) == (has_name(deps.view(), k) || has_name(
                    dev.view().take(j as int),
                    k,
                )),
            forall|k: Seq<char>|
                #![trigger version_of(all.view(), k)]
                has_name(all.view(), k) ==> version_of(all.view(), k) == if has_name(
                    deps.view(),
                    k,
                ) {
                    version_of(deps.view(), k)
                } else {
                    version_of(dev.view(), k)
                },
        decreases dev.entries@.len() - j,
    {
        let (n, v) = &dev.entries[j];
        let listed = deps.has(n.as_str());
        let ghost before = all.view();
        if !listed {
            all.insert(n.clone(), v.clone());
        }
        proof {
            let d = dev.view();
            lemma_version_at(d, j as int);
            assert forall|k: Seq<char>|
                has_name(all.view(), k) == (has_name(deps.view(), k) || has_name(d.take(j + 1), k)) by {
                if has_name(d.take(j + 1), k) {
                    let q = choose|q: int| 0 <= q < d.take(j + 1).len() && (#[trigger] d.take(j + 1)[q]).0 == k;
                    if q < j {
                        assert(d.take(j as int)[q] == d.take(j + 1)[q]);
                    }
                }
                if has_name(d.take(j as int), k) {
                    let q = choose|q: int| 0 <= q < d.take(j as int).len() && (#[trigger] d.take(j as int)[q]).0 == k;
                    assert(d.take(j + 1)[q] == d.take(j as int)[q]);
                }
                if k == d[j as int].0 {
                    assert(d.take(j + 1)[j as int] == d[j as int]);
                }
            }
        }
        j += 1;
    }
    proof {
        assert(dev.view().take(dev.entries@.len() as int) =~= dev.view());
        assert forall|k: Seq<char>|
            #![trigger version_of(all.view(), k)]
            version_of(all.view(), k) == if has_name(deps.view(), k) {
                version_of(deps.view(), k)
            } else {
                version_of(dev.view(), k)
            } by {
            if !has_name(all.view(), k) {
                assert(!has_name(deps.view(), k) && !has_name(dev.view(), k));
            }
        }
    }
    all
}

impl Deps {
    /// Whether a name is listed.
    pub fn has(&self, name: &str) -> (r: bool)
        ensures
            r == has_name(self.view(), name@),
    {
        let mut i: usize = 0;
        while i < self.entries.len()
            invariant
                i <= self.entries@.len(),
                forall|j: int| 0 <= j < i ==> (#[trigger] self.view()[j]).0 != name@,
            decreases self.entries@.len() - i,
        {
            if str_eq(self.entries[i].0.as_str(), name) {
                assert(self.view()[i as int].0 == name@);
                return true;
            }
            i += 1;
        }
        false
    }
}

/// `name@version` for the packages of `a` with a version whose version in
/// `b` is empty or missing, in name order.
pub open spec fn only_first(a: Seq<(Seq<char>, Seq<char>)>, b: Seq<(Seq<char>, Seq<char>)>) -> Seq<Seq<char>>
    decreases a.len(),
{
    if a.len() == 0 {
        Seq::empty()
    } else {
        let rest = only_first(a.drop_last(), b);
        let (k, v) = a.last();
        if v.len() > 0 && version_of(b, k).len() == 0 {
            rest.push(k + "@"@ + v)
        } else {
            rest
        }
    }
}

/// `(name, version in a, version in b)` for the packages with a version on
/// both sides that differ, in name order.
pub open spec fn changed_versions(a: Seq<(Seq<char>, Seq<char>)>, b: Seq<(Seq<char>, Seq<char>)>) -> Seq<(Seq<char>, Seq<char>, Seq<char>)>
    decreases a.len(),
{
    if a.len() == 0 {
        Seq::empty()
    } else {
        let rest = changed_versions(a.drop_last(), b);
        let (k, v) = a.last();
        let w = version_of(b, k);
        if v.len() > 0 && w.len() > 0 && v != w {
            rest.push((k, v, w))
        } else {
            rest
        }
    }
}

/// Views of the changed triples.
pub open spec fn triples_view(v: Seq<(String, String, String)>) -> Seq<(Seq<char>, Seq<char>, Seq<char>)> {
    v.map_values(|t: (String, String, String)| (t.0@, t.1@, t.2@))
}

/// The packages only in `a` with their versions, only in `b`, and those
/// whose version changed; a package with an empty version counts as absent.
pub fn compare(all_a: &Deps, all_b: &Deps) -> (r: (Vec<String>, Vec<String>, Vec<(String, String, String)>))
    requires
        all_a.wf(),
        all_b.wf(),
    ensures
        crate::normalize::strings_view(r.0@) == only_first(all_a.view(), all_b.view()),
        crate::normalize::strings_view(r.1@) == only_first(all_b.view(), all_a.view()),
        triples_view(r.2@) == changed_versions(all_a.view(), all_b.view()),
{
    let (only_a, changed) = one_side(all_a, all_b);
    let (only_b, _) = one_side(all_b, all_a);
    (only_a, only_b, changed)
}

fn one_side(a: &Deps, b: &Deps) -> (r: (Vec<String>, Vec<(String, String, String)>))
    requires
        a.wf(),
        b.wf(),
    ensures
        crate::normalize::strings_view(r.0@) == only_first(a.view(), b.view()),
        triples_view(r.1@) == changed_versions(a.view(), b.view()),
{
    let mut only: Vec<String> = Vec::new();
    let mut changed: Vec<(String, String, String)> = Vec::new();
    let mut i: usize = 0;
    while i < a.entries.len()
        invariant
            a.wf(),
            b.wf(),
            i <= a.entries@.len(),
            crate::normalize::strings_view(only@) == only_first(a.view().take(i as int), b.view()),
            triples_view(changed@) == changed_versions(a.view().take(i as int), b.view()),
        decreases a.entries@.len() - i,
    {
        let (k, v) = &a.entries[i];
        let w = b.version(k.as_str());
        proof {
            let t = a.view().take(i + 1);
            assert(t.drop_last() =~= a.view().take(i as int));
            assert(t.last() == (k@, v@));
        }
        if !v.as_str().is_empty() && w.as_str().is_empty() {
            let x = join2(k.as_str(), "@");
            only.push(join2(x.as_str(), v.as_str()));
            assert(crate::normalize::strings_view(only@) =~= only_first(
                a.view().take(i as int),
                b.view(),
            ).push(k@ + "@"@ + v@));
        }
        if !v.as_str().is_empty() && !w.as_str().is_empty() && !str_eq(v.as_str(), w.as_str()) {
            changed.push((k.clone(), v.clone(), w));
            assert(triples_view(changed@) =~= changed_versions(a.view().take(i as int), b.view()).push(
                (k@, v@, version_of(b.view(), k@)),
            ));
        }
        i += 1;
    }
    assert(a.view().take(a.entries@.len() as int) =~= a.view());
    (only, changed)
}

} // verus!
