//! Routes: a method, a path template and the action that answers.
//!
//! A path template is split at `/` into segments, as the requested path is.
//! A segment written `{name}` is a variable: it matches any non-empty segment and
//! records it under `name`. Any other segment matches only itself.

use vstd::prelude::*;
use vstd::string::*;
use crate::support::text::{split_on, split_str, str_eq, views};

verus! {

/// An HTTP request method.
#[derive(Debug, Clone, PartialEq, Eq)]
pub enum Method {
    Get,
    Post,
    Put,
    Delete,
    Head,
    Options,
    Connect,
    Patch,
    Trace,
    /// A method outside the standard ones, by its name.
    Other(String),
}

impl View for Method {
    type V = Seq<char>;

    /// The method's name, as it stands in a request line.
    open spec fn view(&self) -> Seq<char> {
        match self {
            Method::Get => "GET"@,
            Method::Post => "POST"@,
            Method::Put => "PUT"@,
            Method::Delete => "DELETE"@,
            Method::Head => "HEAD"@,
            Method::Options => "OPTIONS"@,
            Method::Connect => "CONNECT"@,
            Method::Patch => "PATCH"@,
            Method::Trace => "TRACE"@,
            Method::Other(name) => name@,
        }
    }
}

impl Method {
    /// The method's name.
    pub fn as_str(&self) -> (s: &str)
        ensures
            s@ == self@,
    {
        match self {
            Method::Get => "GET",
            Method::Post => "POST",
            Method::Put => "PUT",
            Method::Delete => "DELETE",
            Method::Head => "HEAD",
            Method::Options => "OPTIONS",
            Method::Connect => "CONNECT",
            Method::Patch => "PATCH",
            Method::Trace => "TRACE",
            Method::Other(name) => name.as_str(),
        }
    }

    /// Whether two methods are the same method, that is, have the same name.
    pub fn same_as(&self, other: &Method) -> (b: bool)
        ensures
            b == (self@ == other@),
    {
        str_eq(self.as_str(), other.as_str())
    }
}

/// A piece of a matched path: a variable's name and the segment it took, or a
/// segment that matched itself.
#[derive(Debug, Clone)]
pub enum Reconciled {
    Variable { handle: String, value: String },
    Static { segment: String },
}

/// What a `Reconciled` holds.
pub enum ReconciledView {
    Variable { handle: Seq<char>, value: Seq<char> },
    Static { segment: Seq<char> },
}

impl View for Reconciled {
    type V = ReconciledView;

    open spec fn view(&self) -> ReconciledView {
        match self {
            Reconciled::Variable { handle, value } => ReconciledView::Variable {
                handle: handle@,
                value: value@,
            },
            Reconciled::Static { segment } => ReconciledView::Static { segment: segment@ },
        }
    }
}

/// The views of a sequence of pieces.
pub open spec fn reconciled_views(v: Seq<Reconciled>) -> Seq<ReconciledView> {
    v.map_values(|r: Reconciled| r@)
}

/// Whether a template segment is a variable: `{name}`.
pub open spec fn is_variable_segment(t: Seq<char>) -> bool {
    t.len() >= 2 && t[0] == '{' && t.last() == '}'
}

/// The name of a variable segment: what stands between the braces.
pub open spec fn variable_name(t: Seq<char>) -> Seq<char> {
    t.subrange(1, t.len() - 1)
}

/// Whether the template segment `t` matches the path segment `p`.
pub open spec fn segment_matches(t: Seq<char>, p: Seq<char>) -> bool {
    if is_variable_segment(t) {
        p.len() > 0
    } else {
        t == p
    }
}

/// What the path segment `p` is recorded as, against the template segment `t`.
pub open spec fn segment_reconciled(t: Seq<char>, p: Seq<char>) -> ReconciledView {
    if is_variable_segment(t) {
        ReconciledView::Variable { handle: variable_name(t), value: p }
    } else {
        ReconciledView::Static { segment: p }
    }
}

/// Whether the path matches the template: as many segments, each matching.
pub open spec fn path_matches(template: Seq<char>, path: Seq<char>) -> bool {
    let ts = split_on(template, '/');
    let ps = split_on(path, '/');
    &&& ts.len() == ps.len()
    &&& forall|i: int| 0 <= i < ts.len() ==> segment_matches(#[trigger] ts[i], ps[i])
}

/// The pieces that a matching path is recorded as, one per segment.
pub open spec fn reconcile(template: Seq<char>, path: Seq<char>) -> Seq<ReconciledView> {
    let ts = split_on(template, '/');
    let ps = split_on(path, '/');
    Seq::new(ts.len(), |i: int| segment_reconciled(ts[i], ps[i]))
}

/// A route: the method it answers, its path template, its action and an optional name.
#[derive(Debug)]
pub struct Route<A> {
    method: Method,
    path: String,
    action: A,
    name: Option<String>,
}

/// What a `Route` holds.
pub struct RouteView<A> {
    pub method: Seq<char>,
    pub path: Seq<char>,
    pub action: A,
    pub name: Option<Seq<char>>,
}

impl<A> View for Route<A> {
    type V = RouteView<A>;

    closed spec fn view(&self) -> RouteView<A> {
        RouteView {
            method: self.method@,
            path: self.path@,
            action: self.action,
            name: match self.name {
                Some(n) => Some(n@),
                None => None,
            },
        }
    }
}

fn is_variable(t: &str) -> (b: bool)
    ensures
        b == is_variable_segment(t@),
{
    let n = t.unicode_len();
    n >= 2 && t.get_char(0) == '{' && t.get_char(n - 1) == '}'
}

impl<A> Route<A> {
    pub fn new(method: Method, path: String, action: A) -> (r: Route<A>)
        ensures
            r@ == (RouteView { method: method@, path: path@, action, name: None }),
    {
        Route { method, path, action, name: None }
    }

    /// The route under a name.
    pub fn name(self, name: String) -> (r: Route<A>)
        ensures
            r@ == (RouteView { name: Some(name@), ..self@ }),
    {
        Route { name: Some(name), ..self }
    }

    pub fn get_method(&self) -> (m: &Method)
        ensures
            m@ == self@.method,
    {
        &self.method
    }

    pub fn path(&self) -> (p: &String)
        ensures
            p@ == self@.path,
    {
        &self.path
    }

    pub fn get_name(&self) -> (n: Option<&String>)
        ensures
            match n {
                Some(s) => self@.name == Some(s@),
                None => self@.name is None,
            },
    {
        match &self.name {
            Some(s) => Some(s),
            None => None,
        }
    }

    pub fn action(&self) -> (a: &A)
        ensures
            *a == self@.action,
    {
        &self.action
    }

    /// Whether `path` matches the route's template, and, where it does, the
    /// pieces it is recorded as.
    pub fn is_match(&self, path: &str) -> (r: (bool, Vec<Reconciled>))
        ensures
            r.0 == path_matches(self@.path, path@),
            r.0 ==> reconciled_views(r.1@) == reconcile(self@.path, path@),
            !r.0 ==> r.1@.len() == 0,
    {
        let ts = split_str(self.path.as_str(), '/');
        let ps = split_str(path, '/');
        let ghost tv = split_on(self@.path, '/');
        let ghost pv = split_on(path@, '/');
        assert(views(ts@) == tv);
        assert(views(ps@) == pv);
        if ts.len() != ps.len() {
            return (false, Vec::new());
        }
        let mut out: Vec<Reconciled> = Vec::new();
        let mut i: usize = 0;
        while i < ts.len()
            invariant
                ts@.len() == ps@.len(),
                tv == split_on(self@.path, '/'),
                pv == split_on(path@, '/'),
                views(ts@) == tv,
                views(ps@) == pv,
                tv.len() == pv.len(),
                i <= ts@.len(),
                out@.len() == i,
                forall|j: int| 0 <= j < i ==> segment_matches(#[trigger] tv[j], pv[j]),
                forall|j: int| 0 <= j < i ==> #[trigger] reconciled_views(out@)[j] == segment_reconciled(tv[j], pv[j]),
            decreases ts@.len() - i,
        {
            let t = ts[i].as_str();
            let p = ps[i].as_str();
            assert(tv[i as int] == t@);
            assert(pv[i as int] == p@);
            let ghost before = out@;
            if is_variable(t) {
                let n = t.unicode_len();
                if p.unicode_len() == 0 {
                    assert(!segment_matches(tv[i as int], pv[i as int]));
                    return (false, Vec::new());
                }
                let handle = String::from_str(t.substring_char(1, n - 1));
                out.push(Reconciled::Variable { handle, value: String::from_str(p) });
            } else {
                if !str_eq(t, p) {
                    assert(!segment_matches(tv[i as int], pv[i as int]));
                    return (false, Vec::new());
                }
                out.push(Reconciled::Static { segment: String::from_str(p) });
            }
            assert(reconciled_views(out@) =~= reconciled_views(before).push(segment_reconciled(tv[i as int], pv[i as int])));
            i = i + 1;
        }
        assert(reconciled_views(out@) =~= reconcile(self@.path, path@));
        (true, out)
    }
}

/// A template without variables matches its own path.
pub proof fn lemma_literal_template_matches_itself(template: Seq<char>)
    requires
        forall|i: int| 0 <= i < split_on(template, '/').len() ==> !is_variable_segment(#[trigger] split_on(template, '/')[i]),
    ensures
        path_matches(template, template),
{
}

} // verus!
