//! A request together with the variables that its route recorded from the path.

use vstd::prelude::*;
use vstd::string::*;
use crate::routing::route::{
    is_variable_segment, path_matches, reconcile, reconciled_views, segment_reconciled, variable_name,
    Reconciled, ReconciledView,
};
use crate::support::assoc::{assoc_get, assoc_map, lemma_assoc_get_prefix};
use crate::support::text::{split_on, str_eq};

verus! {

/// The variables among the pieces of a path, as (name, value) entries in order.
pub open spec fn variable_entries(rs: Seq<ReconciledView>) -> Seq<(Seq<char>, Seq<char>)>
    decreases rs.len(),
{
    if rs.len() == 0 {
        Seq::empty()
    } else {
        match rs.last() {
            ReconciledView::Variable { handle, value } => variable_entries(rs.drop_last()).push(
                (handle, value),
            ),
            ReconciledView::Static { .. } => variable_entries(rs.drop_last()),
        }
    }
}

/// The variables of a path by name; of two variables with one name, the later one counts.
pub open spec fn variables_of(rs: Seq<ReconciledView>) -> Map<Seq<char>, Seq<char>> {
    assoc_map(variable_entries(rs))
}

/// A request, and the variables of its path.
pub struct HttpRequest<R> {
    inner: R,
    variables: Vec<(String, String)>,
}

pub open spec fn variable_view(e: (String, String)) -> (Seq<char>, Seq<char>) {
    (e.0@, e.1@)
}

impl<R> HttpRequest<R> {
    /// The stored variable entries, in order.
    pub closed spec fn entries(&self) -> Seq<(Seq<char>, Seq<char>)> {
        self.variables@.map_values(|e: (String, String)| variable_view(e))
    }

    /// The variables by name.
    pub open spec fn vars(&self) -> Map<Seq<char>, Seq<char>> {
        assoc_map(self.entries())
    }

    /// The request itself.
    pub closed spec fn request(&self) -> R {
        self.inner
    }

    /// The request, with the variables among `reconciled`.
    pub fn new(request: R, reconciled: Vec<Reconciled>) -> (r: HttpRequest<R>)
        ensures
            r.request() == request,
            r.vars() == variables_of(reconciled_views(reconciled@)),
    {
        let mut variables: Vec<(String, String)> = Vec::new();
        let mut i: usize = 0;
        let ghost rs = reconciled_views(reconciled@);
        assert(rs.take(0) =~= Seq::<ReconciledView>::empty());
        assert(variables@.map_values(|e: (String, String)| variable_view(e)) =~= variable_entries(rs.take(0)));
        while i < reconciled.len()
            invariant
                i <= reconciled@.len(),
                rs == reconciled_views(reconciled@),
                variables@.map_values(|e: (String, String)| variable_view(e)) == variable_entries(rs.take(i as int)),
            decreases reconciled@.len() - i,
        {
            let ghost before = variables@;
            assert(rs.take(i + 1).drop_last() =~= rs.take(i as int));
            assert(rs.take(i + 1).last() == reconciled@[i as int]@);
            match &reconciled[i] {
                Reconciled::Variable { handle, value } => {
                    variables.push((handle.clone(), value.clone()));
                    assert(variables@.map_values(|e: (String, String)| variable_view(e)) =~= before.map_values(|e: (String, String)| variable_view(e)).push((handle@, value@)));
                },
                Reconciled::Static { .. } => {},
            }
            i = i + 1;
        }
        assert(rs.take(i as int) =~= rs);
        HttpRequest { inner: request, variables }
    }

    pub fn inner(&self) -> (r: &R)
        ensures
            *r == self.request(),
    {
        &self.inner
    }

    /// The value of the variable `handle`, if the path recorded one.
    pub fn var(&self, handle: &str) -> (r: Option<&String>)
        ensures
            match r {
                Some(v) => self.vars().contains_key(handle@) && self.vars()[handle@] == v@,
                None => !self.vars().contains_key(handle@),
            },
    {
        let mut i = self.variables.len();
        while i > 0
            invariant
                i <= self.variables@.len(),
                forall|j: int| i <= j < self.entries().len() ==> self.entries()[j].0 != handle@,
            decreases i,
        {
            let entry = &self.variables[i - 1];
            if str_eq(entry.0.as_str(), handle) {
                proof {
                    let s = self.entries();
                    lemma_assoc_get_prefix(s, handle@, i as int);
                    assert(s.take(i as int).last() == s[i - 1]);
                }
                return Some(&entry.1);
            }
            i = i - 1;
        }
        proof {
            let s = self.entries();
            lemma_assoc_get_prefix(s, handle@, 0);
            assert(s.take(0).len() == 0);
        }
        None
    }
}

/// A variable among the pieces of a path reads as its value, unless a later
/// variable has the same name.
pub proof fn lemma_last_variable_wins(rs: Seq<ReconciledView>, i: int, handle: Seq<char>, value: Seq<char>)
    requires
        0 <= i < rs.len(),
        rs[i] == (ReconciledView::Variable { handle, value }),
        forall|j: int| i < j < rs.len() ==> !(#[trigger] rs[j] matches ReconciledView::Variable { handle: h, .. } && h == handle),
    ensures
        assoc_get(variable_entries(rs), handle) == Some(value),
    decreases rs.len(),
{
    if i < rs.len() - 1 {
        lemma_last_variable_wins(rs.drop_last(), i, handle, value);
        assert(rs.drop_last()[i] == rs[i]);
        assert forall|j: int| i < j < rs.drop_last().len() implies !(#[trigger] rs.drop_last()[j] matches ReconciledView::Variable { handle: h, .. } && h == handle) by {
            assert(rs.drop_last()[j] == rs[j]);
        }
        assert(rs.last() == rs[rs.len() - 1]);
        let last = rs[rs.len() - 1];
        assert(!(last matches ReconciledView::Variable { handle: h, .. } && h == handle));
        match last {
            ReconciledView::Variable { handle: h2, value: v2 } => {
                assert(variable_entries(rs) == variable_entries(rs.drop_last()).push((h2, v2)));
                assert(variable_entries(rs).drop_last() =~= variable_entries(rs.drop_last()));
            },
            ReconciledView::Static { .. } => {
                assert(variable_entries(rs) == variable_entries(rs.drop_last()));
            },
        }
    } else {
        assert(rs.last() == rs[i]);
        assert(variable_entries(rs) == variable_entries(rs.drop_last()).push((handle, value)));
    }
}

/// The variables of a matched path read back as the path's segments: where the
/// template's segment `i` is the variable `{name}` and no later segment is a
/// variable of that name, the variable `name` holds the path's segment `i`.
pub proof fn lemma_variable_reads_its_segment(template: Seq<char>, path: Seq<char>, i: int)
    requires
        path_matches(template, path),
        0 <= i < split_on(template, '/').len(),
        is_variable_segment(split_on(template, '/')[i]),
        forall|j: int|
            i < j < split_on(template, '/').len() ==> !(is_variable_segment(#[trigger] split_on(template, '/')[j])
                && variable_name(split_on(template, '/')[j]) == variable_name(split_on(template, '/')[i])),
    ensures
        variables_of(reconcile(template, path)).contains_key(variable_name(split_on(template, '/')[i])),
        variables_of(reconcile(template, path))[variable_name(split_on(template, '/')[i])] == split_on(path, '/')[i],
{
    let ts = split_on(template, '/');
    let ps = split_on(path, '/');
    let rs = reconcile(template, path);
    let h = variable_name(ts[i]);
    assert(rs[i] == (ReconciledView::Variable { handle: h, value: ps[i] }));
    assert forall|j: int| i < j < rs.len() implies !(#[trigger] rs[j] matches ReconciledView::Variable { handle: h2, .. } && h2 == h) by {
        assert(rs[j] == segment_reconciled(ts[j], ps[j]));
    }
    lemma_last_variable_wins(rs, i, h, ps[i]);
}

} // verus!
