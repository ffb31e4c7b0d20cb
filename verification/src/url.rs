//! The URL value: an immutable-after-build record of scheme, domain, path,
//! ordered query parameters, an analytics token and a reserved signing
//! token, together with its rendering to a string.

use vstd::prelude::*;

verus! {

use crate::errors::Error;
use crate::query::{lemma_params_chars_nonempty, lemma_params_chars_push, params_chars};
use vstd::string::StrSliceExecFns;
use vstd::string::StringExecFns;

/// The scheme a URL uses. Renders as its lowercase name.
#[derive(Debug, PartialEq, Eq, Structural, Clone, Copy)]
pub enum Scheme {
    Https,
    Http,
}

/// The rendered form of a scheme.
pub open spec fn scheme_chars(s: Scheme) -> Seq<char> {
    match s {
        Scheme::Https => "https"@,
        Scheme::Http => "http"@,
    }
}

impl Scheme {
    /// The lowercase name of the scheme.
    pub fn name(&self) -> (r: &'static str)
        ensures
            r@ == scheme_chars(*self),
    {
        match self {
            Scheme::Https => "https",
            Scheme::Http => "http",
        }
    }
}

/// The mathematical model of a `Url`: every string field as a character
/// sequence.
#[verifier::ext_equal]
pub struct UrlView {
    pub scheme: Scheme,
    pub domain: Seq<char>,
    pub lib: Seq<char>,
    pub path: Option<Seq<char>>,
    pub params: Seq<(Seq<char>, Seq<char>)>,
    pub token: Option<Seq<char>>,
}

impl UrlView {
    /// Well-formedness: every parameter key and value is non-empty.
    /// Constructors establish it and every builder operation keeps it.
    pub open spec fn wf(self) -> bool {
        forall|i: int|
            0 <= i < self.params.len() ==> (#[trigger] self.params[i]).0.len() > 0
                && self.params[i].1.len() > 0
    }
}

/// The view of a sequence of owned parameter pairs.
pub open spec fn owned_pairs_view(ps: Seq<(String, String)>) -> Seq<(Seq<char>, Seq<char>)> {
    Seq::new(ps.len(), |i: int| (ps[i].0@, ps[i].1@))
}

/// The view of a sequence of borrowed parameter pairs.
pub open spec fn pairs_view(ps: Seq<(&str, &str)>) -> Seq<(Seq<char>, Seq<char>)> {
    Seq::new(ps.len(), |i: int| (ps[i].0@, ps[i].1@))
}

/// The scheme, domain and path part of a rendered URL:
/// `{scheme}://{domain}/{path}`.
pub open spec fn base_chars(u: UrlView) -> Seq<char> {
    scheme_chars(u.scheme) + "://"@ + u.domain + "/"@ + u.path->Some_0
}

/// The full rendered URL, `{scheme}://{domain}/{path}?{lib}{query}`, with
/// the `?` and the `&` after the lib token dropped when the corresponding
/// part is empty.
pub open spec fn join_chars(u: UrlView) -> Seq<char> {
    if u.lib.len() == 0 && u.params.len() == 0 {
        base_chars(u)
    } else if u.params.len() == 0 {
        base_chars(u) + "?"@ + u.lib
    } else if u.lib.len() == 0 {
        base_chars(u) + "?"@ + params_chars(u.params)
    } else {
        base_chars(u) + "?"@ + u.lib + "&"@ + params_chars(u.params)
    }
}

/// A URL under construction: scheme, domain, optional path, ordered
/// parameter list, analytics token (`lib`) and reserved signing `token`.
///
/// Parameters keep their insertion order, duplicates included, and that
/// order is observable in the rendered query string.
#[derive(Debug, Clone)]
pub struct Url {
    scheme: Scheme,
    domain: String,
    lib: String,
    path: Option<String>,
    params: Vec<(String, String)>,
    /// Reserved signing secret; stored but never consumed by rendering.
    token: Option<String>,
}

impl View for Url {
    type V = UrlView;

    closed spec fn view(&self) -> UrlView {
        UrlView {
            scheme: self.scheme,
            domain: self.domain@,
            lib: self.lib@,
            path: match self.path {
                Some(p) => Some(p@),
                None => None,
            },
            params: owned_pairs_view(self.params@),
            token: match self.token {
                Some(t) => Some(t@),
                None => None,
            },
        }
    }
}

impl Default for Url {
    /// The default URL: `https`, everything else empty or absent.
    fn default() -> (r: Self)
        ensures
            r@.scheme == Scheme::Https,
            r@.domain.len() == 0,
            r@.lib.len() == 0,
            r@.path is None,
            r@.params.len() == 0,
            r@.token is None,
            r@.wf(),
    {
        Url {
            scheme: Scheme::Https,
            domain: String::new(),
            lib: String::new(),
            path: None,
            params: Vec::new(),
            token: None,
        }
    }
}

impl Url {
    /// Construct a URL for a non-empty domain; all other fields default.
    pub fn new(domain: &str) -> (r: Self)
        requires
            domain@.len() > 0,
        ensures
            r@.scheme == Scheme::Https,
            r@.domain == domain@,
            r@.lib.len() == 0,
            r@.path is None,
            r@.params.len() == 0,
            r@.token is None,
            r@.wf(),
    {
        Url {
            scheme: Scheme::Https,
            domain: domain.to_owned(),
            lib: String::new(),
            path: None,
            params: Vec::new(),
            token: None,
        }
    }

    /// Replace the domain; it must be non-empty.
    pub fn domain(self, d: &str) -> (r: Self)
        requires
            d@.len() > 0,
        ensures
            r@ == (UrlView { domain: d@, ..self@ }),
            self@.wf() ==> r@.wf(),
    {
        let mut u = self;
        u.domain = d.to_owned();
        proof {
            assert(u@ =~~= (UrlView { domain: d@, ..self@ }));
        }
        u
    }

    /// Set the path to the image file; it must be non-empty.
    pub fn path(self, p: &str) -> (r: Self)
        requires
            p@.len() > 0,
        ensures
            r@ == (UrlView { path: Some(p@), ..self@ }),
            self@.wf() ==> r@.wf(),
    {
        let mut u = self;
        u.path = Some(p.to_owned());
        proof {
            assert(u@ =~~= (UrlView { path: Some(p@), ..self@ }));
        }
        u
    }

    /// Append one key-value parameter; both sides must be non-empty.
    pub fn param(self, k: &str, v: &str) -> (r: Self)
        requires
            k@.len() > 0,
            v@.len() > 0,
        ensures
            r@ == (UrlView { params: self@.params.push((k@, v@)), ..self@ }),
            self@.wf() ==> r@.wf(),
    {
        let mut u = self;
        u.params.push((k.to_owned(), v.to_owned()));
        proof {
            assert(u@ =~~= (UrlView { params: self@.params.push((k@, v@)), ..self@ }));
        }
        u
    }

    /// Append a list of key-value parameters, in order; every key and
    /// every value must be non-empty.
    pub fn params(self, p: &[(&str, &str)]) -> (r: Self)
        requires
            forall|i: int|
                0 <= i < p@.len() ==> (#[trigger] p@[i]).0@.len() > 0 && p@[i].1@.len() > 0,
        ensures
            r@ == (UrlView { params: self@.params + pairs_view(p@), ..self@ }),
            self@.wf() ==> r@.wf(),
    {
        let ghost orig = self@;
        let mut u = self;
        let n = p.len();
        for i in 0..n
            invariant
                n == p@.len(),
                forall|j: int|
                    0 <= j < p@.len() ==> (#[trigger] p@[j]).0@.len() > 0 && p@[j].1@.len() > 0,
                u@ == (UrlView { params: orig.params + pairs_view(p@.take(i as int)), ..orig }),
        {
            let (k, v) = p[i];
            let ko = k.to_owned();
            let vo = v.to_owned();
            proof {
                assert(ko@ == p@[i as int].0@);
                assert(vo@ == p@[i as int].1@);
            }
            let ghost pre = u.params@;
            u.params.push((ko, vo));
            proof {
                let pv = pairs_view(p@);
                let t = (p@[i as int].0@, p@[i as int].1@);
                let target = orig.params + pv.take(i as int + 1);
                assert(owned_pairs_view(pre) == orig.params + pv.take(i as int));
                assert forall|j: int|
                    0 <= j < u.params@.len() implies owned_pairs_view(u.params@)[j]
                    == target[j] by {
                    if j < pre.len() {
                        assert(u.params@[j] == pre[j]);
                        assert(owned_pairs_view(pre)[j] == (pre[j].0@, pre[j].1@));
                        if j < orig.params.len() {
                            assert(target[j] == orig.params[j]);
                            assert((orig.params + pv.take(i as int))[j] == orig.params[j]);
                        } else {
                            assert(target[j] == pv[j - orig.params.len()]);
                            assert((orig.params + pv.take(i as int))[j] == pv[j
                                - orig.params.len()]);
                        }
                    } else {
                        assert(u.params@[j].0@ == t.0);
                        assert(u.params@[j].1@ == t.1);
                        assert(target[j] == pv[i as int]);
                        assert(pv[i as int] == t);
                    }
                }
                assert(u@.params =~= target);
                assert(u@ =~~= (UrlView {
                    params: orig.params + pairs_view(p@.take(i as int + 1)),
                    ..orig
                }));
            }
        }
        proof {
            assert(p@.take(n as int) =~= p@);
            assert(u@ =~~= (UrlView { params: orig.params + pairs_view(p@), ..orig }));
        }
        u
    }

    /// Append a list of owned key-value parameters, in order; every key
    /// and every value must be non-empty.
    pub fn params_owned(self, p: &Vec<(String, String)>) -> (r: Self)
        requires
            forall|i: int|
                0 <= i < p@.len() ==> (#[trigger] p@[i]).0@.len() > 0 && p@[i].1@.len() > 0,
        ensures
            r@ == (UrlView { params: self@.params + owned_pairs_view(p@), ..self@ }),
            self@.wf() ==> r@.wf(),
    {
        let ghost orig = self@;
        let mut u = self;
        let n = p.len();
        for i in 0..n
            invariant
                n == p@.len(),
                forall|j: int|
                    0 <= j < p@.len() ==> (#[trigger] p@[j]).0@.len() > 0 && p@[j].1@.len() > 0,
                u@ == (UrlView {
                    params: orig.params + owned_pairs_view(p@).take(i as int),
                    ..orig
                }),
        {
            let ko = p[i].0.clone();
            let vo = p[i].1.clone();
            proof {
                assert(ko@ == p@[i as int].0@);
                assert(vo@ == p@[i as int].1@);
            }
            let ghost pre = u.params@;
            u.params.push((ko, vo));
            proof {
                let pv = owned_pairs_view(p@);
                let t = (p@[i as int].0@, p@[i as int].1@);
                let target = orig.params + pv.take(i as int + 1);
                assert(owned_pairs_view(pre) == orig.params + pv.take(i as int));
                assert(pv.len() == p@.len());
                assert(pv.take(i as int).len() == i);
                assert(pre.len() == owned_pairs_view(pre).len());
                assert forall|j: int|
                    0 <= j < u.params@.len() implies owned_pairs_view(u.params@)[j]
                    == target[j] by {
                    if j < pre.len() {
                        assert(u.params@[j] == pre[j]);
                        assert(owned_pairs_view(pre)[j] == (pre[j].0@, pre[j].1@));
                        assert(pre.len() == orig.params.len() + i);
                        if j < orig.params.len() {
                            assert(target[j] == orig.params[j]);
                            assert((orig.params + pv.take(i as int))[j] == orig.params[j]);
                        } else {
                            assert(target[j] == pv.take(i as int + 1)[j - orig.params.len()]);
                            assert(pv.take(i as int + 1)[j - orig.params.len()] == pv[j
                                - orig.params.len()]);
                            assert((orig.params + pv.take(i as int))[j] == pv.take(
                                i as int,
                            )[j - orig.params.len()]);
                        }
                    } else {
                        assert(u.params@[j].0@ == t.0);
                        assert(u.params@[j].1@ == t.1);
                        assert(target[j] == pv[i as int]);
                        assert(pv[i as int] == t);
                    }
                }
                assert(u@.params =~= target);
                assert(u@ =~~= (UrlView {
                    params: orig.params + owned_pairs_view(p@).take(i as int + 1),
                    ..orig
                }));
            }
        }
        proof {
            assert(owned_pairs_view(p@).take(n as int) =~= owned_pairs_view(p@));
            assert(u@ =~~= (UrlView { params: orig.params + owned_pairs_view(p@), ..orig }));
        }
        u
    }

    /// Replace the analytics token rendered ahead of the query string; any
    /// string, including the empty one, is accepted.
    pub fn lib(self, l: &str) -> (r: Self)
        ensures
            r@ == (UrlView { lib: l@, ..self@ }),
            self@.wf() ==> r@.wf(),
    {
        let mut u = self;
        u.lib = l.to_owned();
        proof {
            assert(u@ =~~= (UrlView { lib: l@, ..self@ }));
        }
        u
    }

    /// Store the signing token. Reserved: rendering never consumes it.
    pub fn token(self, t: &str) -> (r: Self)
        ensures
            r@ == (UrlView { token: Some(t@), ..self@ }),
            self@.wf() ==> r@.wf(),
    {
        let mut u = self;
        u.token = Some(t.to_owned());
        proof {
            assert(u@ =~~= (UrlView { token: Some(t@), ..self@ }));
        }
        u
    }

    /// Replace the scheme.
    pub fn scheme(self, s: Scheme) -> (r: Self)
        ensures
            r@ == (UrlView { scheme: s, ..self@ }),
            self@.wf() ==> r@.wf(),
    {
        let mut u = self;
        u.scheme = s;
        proof {
            assert(u@ =~~= (UrlView { scheme: s, ..self@ }));
        }
        u
    }

    /// Set the analytics token to this implementation's identity, in the
    /// form `ixlib=<impl-tag>-<version>`.
    pub fn ix(self) -> (r: Self)
        ensures
            r@ == (UrlView { lib: "ixlib=rust-0.1.0"@, ..self@ }),
            self@.wf() ==> r@.wf(),
    {
        let mut u = self;
        u.lib = String::from_str("ixlib=rust-0.1.0");
        proof {
            assert(u@ =~~= (UrlView { lib: "ixlib=rust-0.1.0"@, ..self@ }));
        }
        u
    }

    /// The current scheme.
    pub fn get_scheme(&self) -> (r: Scheme)
        ensures
            r == self@.scheme,
    {
        self.scheme
    }

    /// The current domain.
    pub fn get_domain(&self) -> (r: &str)
        ensures
            r@ == self@.domain,
    {
        self.domain.as_str()
    }

    /// The current analytics token.
    pub fn get_lib(&self) -> (r: &str)
        ensures
            r@ == self@.lib,
    {
        self.lib.as_str()
    }

    /// The current path, if one was set.
    pub fn get_path(&self) -> (r: Option<&str>)
        ensures
            r is Some <==> self@.path is Some,
            r matches Some(p) ==> p@ == self@.path->Some_0,
    {
        match &self.path {
            Some(p) => Some(p.as_str()),
            None => None,
        }
    }

    /// The current signing token, if one was set.
    pub fn get_token(&self) -> (r: Option<&str>)
        ensures
            r is Some <==> self@.token is Some,
            r matches Some(t) ==> t@ == self@.token->Some_0,
    {
        match &self.token {
            Some(t) => Some(t.as_str()),
            None => None,
        }
    }

    /// The parameter list, in insertion order.
    pub fn get_params(&self) -> (r: &Vec<(String, String)>)
        ensures
            owned_pairs_view(r@) == self@.params,
    {
        &self.params
    }

    /// Whether any parameter has been set.
    pub fn has_params(&self) -> (r: bool)
        ensures
            r == (self@.params.len() > 0),
    {
        self.params.len() > 0
    }

    /// Render the URL. The path must have been set; the output follows
    /// `join_chars`, so the query renders the parameters in insertion
    /// order with no trailing `?` or `&`.
    pub fn join(&self) -> (r: String)
        requires
            self@.wf(),
            self@.path is Some,
        ensures
            r@ == join_chars(self@),
    {
        let mut out = String::new();
        out.append(self.scheme.name());
        out.append("://");
        out.append(self.domain.as_str());
        out.append("/");
        out.append(self.path.as_ref().unwrap().as_str());
        proof {
            assert(out@ =~= base_chars(self@));
        }
        proof {
            assert forall|i: int| 0 <= i < self.params@.len() implies (#[trigger] self.params@[i]).0@.len()
                > 0 && self.params@[i].1@.len() > 0 by {
                assert(self@.params[i] == (self.params@[i].0@, self.params@[i].1@));
                assert(self@.params[i].0.len() > 0);
            }
        }
        let query = join_owned_params(&self.params);
        let lib_empty = self.lib.as_str().is_empty();
        let query_empty = query.as_str().is_empty();
        proof {
            if self@.params.len() > 0 {
                lemma_params_chars_nonempty(self@.params);
            }
        }
        if !lib_empty && !query_empty {
            out.append("?");
            out.append(self.lib.as_str());
            out.append("&");
            out.append(query.as_str());
            proof {
                assert(out@ =~= join_chars(self@));
            }
        } else if !lib_empty {
            out.append("?");
            out.append(self.lib.as_str());
            proof {
                assert(out@ =~= join_chars(self@));
            }
        } else if !query_empty {
            out.append("?");
            out.append(query.as_str());
            proof {
                assert(out@ =~= join_chars(self@));
            }
        } else {
            proof {
                assert(out@ =~= join_chars(self@));
            }
        }
        out
    }

    /// Render the URL if a path is present; report `JoinError` otherwise.
    ///
    /// Rendering succeeds if and only if the path has been set: with a
    /// path the exact rendered URL comes back, and with none the tagged
    /// error comes back and no partial URL is produced. (`join` itself
    /// excludes the pathless case by its precondition, so no verified
    /// caller can reach the original's panic.)
    pub fn try_join(&self) -> (r: Result<String, Error>)
        requires
            self@.wf(),
        ensures
            r is Ok <==> self@.path is Some,
            r is Err <==> self@.path is None,
            r matches Ok(s) ==> s@ == join_chars(self@),
            r matches Err(e) ==> e matches Error::JoinError(m) && m@
                == "cannot `join` when `path` is `None`"@,
    {
        if self.path.is_some() {
            Ok(self.join())
        } else {
            Err(Error::JoinError(String::from_str("cannot `join` when `path` is `None`")))
        }
    }

    /// Join a list of key-value pairs as `k0=v0&k1=v1&...`, in order, with
    /// no separator before the first pair or after the last. Every key and
    /// value must be non-empty.
    pub fn join_params(p: &[(&str, &str)]) -> (r: String)
        requires
            forall|i: int|
                0 <= i < p@.len() ==> (#[trigger] p@[i]).0@.len() > 0 && p@[i].1@.len() > 0,
        ensures
            r@ == params_chars(pairs_view(p@)),
    {
        let mut result = String::new();
        let n = p.len();
        for i in 0..n
            invariant
                n == p@.len(),
                result@ == params_chars(pairs_view(p@).take(i as int)),
        {
            let (k, v) = p[i];
            if i > 0 {
                result.append("&");
            }
            result.append(k);
            result.append("=");
            result.append(v);
            proof {
                let pv = pairs_view(p@);
                assert(pv.take(i as int + 1) =~= pv.take(i as int).push((p@[i as int].0@,
                p@[i as int].1@)));
                if i > 0 {
                    lemma_params_chars_push(pv.take(i as int), (p@[i as int].0@, p@[i as int].1@));
                } else {
                    assert(pv.take(0int) =~= Seq::<(Seq<char>, Seq<char>)>::empty());
                    assert(pv.take(1int) =~= seq![(p@[0].0@, p@[0].1@)]);
                }
                assert(result@ =~= params_chars(pv.take(i as int + 1)));
            }
        }
        proof {
            assert(pairs_view(p@).take(n as int) =~= pairs_view(p@));
        }
        result
    }
}

/// Copy a list of borrowed pairs into owned strings, preserving views.
pub fn own_pairs(p: &[(&str, &str)]) -> (v: Vec<(String, String)>)
    ensures
        owned_pairs_view(v@) == pairs_view(p@),
{
    let mut v: Vec<(String, String)> = Vec::new();
    let n = p.len();
    for i in 0..n
        invariant
            n == p@.len(),
            v@.len() == i,
            owned_pairs_view(v@) == pairs_view(p@).take(i as int),
    {
        let (k, val) = p[i];
        let ko = k.to_owned();
        let vo = val.to_owned();
        proof {
            assert(ko@ == p@[i as int].0@);
            assert(vo@ == p@[i as int].1@);
        }
        let ghost pre = v@;
        v.push((ko, vo));
        proof {
            let pv = pairs_view(p@);
            let t = (p@[i as int].0@, p@[i as int].1@);
            assert forall|j: int|
                0 <= j < v@.len() implies owned_pairs_view(v@)[j] == pv.take(i as int + 1)[j] by {
                if j < pre.len() {
                    assert(v@[j] == pre[j]);
                    assert(owned_pairs_view(pre)[j] == (pre[j].0@, pre[j].1@));
                } else {
                    assert(v@[j].0@ == t.0);
                    assert(v@[j].1@ == t.1);
                }
            }
            assert(owned_pairs_view(v@) =~= pv.take(i as int + 1));
        }
    }
    proof {
        assert(pairs_view(p@).take(n as int) =~= pairs_view(p@));
    }
    v
}

/// Join an owned parameter list as `k0=v0&k1=v1&...`, in order.
fn join_owned_params(p: &Vec<(String, String)>) -> (r: String)
    requires
        forall|i: int| 0 <= i < p@.len() ==> (#[trigger] p@[i]).0@.len() > 0 && p@[i].1@.len() > 0,
    ensures
        r@ == params_chars(owned_pairs_view(p@)),
{
    let mut result = String::new();
    let n = p.len();
    for i in 0..n
        invariant
            n == p@.len(),
            forall|j: int|
                0 <= j < p@.len() ==> (#[trigger] p@[j]).0@.len() > 0 && p@[j].1@.len() > 0,
            result@ == params_chars(owned_pairs_view(p@).take(i as int)),
    {
        if i > 0 {
            result.append("&");
        }
        result.append(p[i].0.as_str());
        result.append("=");
        result.append(p[i].1.as_str());
        proof {
            let pv = owned_pairs_view(p@);
            assert(pv.take(i as int + 1) =~= pv.take(i as int).push((p@[i as int].0@,
            p@[i as int].1@)));
            if i > 0 {
                lemma_params_chars_push(pv.take(i as int), (p@[i as int].0@, p@[i as int].1@));
            } else {
                assert(pv.take(0int) =~= Seq::<(Seq<char>, Seq<char>)>::empty());
                assert(pv.take(1int) =~= seq![(p@[0].0@, p@[0].1@)]);
            }
            assert(result@ =~= params_chars(pv.take(i as int + 1)));
        }
    }
    proof {
        assert(owned_pairs_view(p@).take(n as int) =~= owned_pairs_view(p@));
    }
    result
}

} // verus!
