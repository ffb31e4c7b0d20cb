//! The srcset engine: classifying a URL's parameters to pick a candidate
//! mode, emitting the ordered candidate list for that mode, and the
//! configuration record the engine is driven by.

use vstd::prelude::*;

verus! {

use crate::constants::{
    dpr_qualities, srcset_dpr_qualities, srcset_target_dpr_ratios, srcset_target_widths,
    target_ratios, target_widths,
};
use crate::text::{
    dec_chars, is_dec_digit, join_with, lemma_dec_chars_digits, lemma_join_with_push, str_eq,
    u32_to_string,
};
use crate::url::{join_chars, owned_pairs_view, pairs_view, Scheme, Url, UrlView};
use vstd::pervasive::unreached;
use vstd::slice::slice_to_vec;
use vstd::string::StrSliceExecFns;
use vstd::string::StringExecFns;

/// How srcset candidates are generated: by rendered width (`Viewport`) or
/// by device-pixel ratio (`PixelDensity`). `ArtDirection` is reserved and
/// never inferred; asking for it is rejected.
#[derive(Debug, PartialEq, Eq, Structural, Clone, Copy)]
pub enum Action {
    ArtDirection,
    PixelDensity,
    Viewport,
}

/// True when some parameter has the given key.
pub open spec fn has_key(ps: Seq<(Seq<char>, Seq<char>)>, k: Seq<char>) -> bool {
    exists|i: int| 0 <= i < ps.len() && (#[trigger] ps[i]).0 == k
}

/// The candidate mode for a parameter list: pixel density when the caller
/// already fixes the rendered pixel footprint (an explicit width, or an
/// aspect ratio together with a height), viewport otherwise.
pub open spec fn inferred_action(ps: Seq<(Seq<char>, Seq<char>)>) -> Action {
    if has_key(ps, "w"@) || (has_key(ps, "ar"@) && has_key(ps, "h"@)) {
        Action::PixelDensity
    } else {
        Action::Viewport
    }
}

/// A parameter list containing the key `"w"` is classified as pixel
/// density, whatever other keys are present.
pub proof fn lemma_width_key_forces_pixel_density(ps: Seq<(Seq<char>, Seq<char>)>)
    requires
        has_key(ps, "w"@),
    ensures
        inferred_action(ps) == Action::PixelDensity,
{
}

proof fn lemma_has_key_push(ps: Seq<(Seq<char>, Seq<char>)>, p: (Seq<char>, Seq<char>), k: Seq<char>)
    ensures
        has_key(ps.push(p), k) == (has_key(ps, k) || p.0 == k),
{
    if has_key(ps, k) {
        let i = choose|i: int| 0 <= i < ps.len() && (#[trigger] ps[i]).0 == k;
        assert(ps.push(p)[i].0 == k);
    }
    if p.0 == k {
        assert(ps.push(p)[ps.len() as int].0 == k);
    }
    if has_key(ps.push(p), k) {
        let i = choose|i: int| 0 <= i < ps.push(p).len() && (#[trigger] ps.push(p)[i]).0 == k;
        if i < ps.len() {
            assert(ps[i].0 == k);
        }
    }
}

/// The descriptor appended after the space: `w` for a width candidate,
/// `x` for a pixel-density candidate.
pub open spec fn descriptor_chars(a: Action) -> Seq<char> {
    match a {
        Action::Viewport => "w"@,
        Action::PixelDensity => "x"@,
        Action::ArtDirection => Seq::empty(),
    }
}

/// The parameter key a candidate appends: `w` for a width candidate,
/// `dpr` for a pixel-density candidate.
pub open spec fn key_chars(a: Action) -> Seq<char> {
    match a {
        Action::Viewport => "w"@,
        Action::PixelDensity => "dpr"@,
        Action::ArtDirection => Seq::empty(),
    }
}

/// The separator a candidate's appended parameter starts with: `&` when
/// the base URL already carries parameters, `?` otherwise.
pub open spec fn sep_chars(u: UrlView) -> Seq<char> {
    if u.params.len() > 0 {
        "&"@
    } else {
        "?"@
    }
}

/// One srcset candidate: the rendered base URL, the appended key-value
/// parameter, one space, and the value repeated with its descriptor.
pub open spec fn candidate_chars(u: UrlView, value: Seq<char>, a: Action) -> Seq<char> {
    join_chars(u) + sep_chars(u) + key_chars(a) + "="@ + value + " "@ + value + descriptor_chars(a)
}

/// One srcset candidate with an extra parameter (such as `q=75`) inserted
/// between the base URL and the appended key-value parameter.
pub open spec fn candidate_and_chars(
    u: UrlView,
    value: Seq<char>,
    a: Action,
    more: Seq<char>,
) -> Seq<char> {
    join_chars(u) + sep_chars(u) + more + "&"@ + key_chars(a) + "="@ + value + " "@ + value
        + descriptor_chars(a)
}

/// A candidate over a decimal value ends with its descriptor — exactly one
/// `'w'` or `'x'` — preceded by a digit.
pub proof fn lemma_candidate_descriptor(u: UrlView, n: u32, a: Action)
    requires
        a is Viewport || a is PixelDensity,
    ensures
        candidate_chars(u, dec_chars(n as nat), a).len() >= 2,
        candidate_chars(u, dec_chars(n as nat), a).last() == 'w' <==> a is Viewport,
        candidate_chars(u, dec_chars(n as nat), a).last() == 'x' <==> a is PixelDensity,
        is_dec_digit(
            candidate_chars(u, dec_chars(n as nat), a)[candidate_chars(
                u,
                dec_chars(n as nat),
                a,
            ).len() - 2],
        ),
{
    reveal_strlit("w");
    reveal_strlit("x");
    let v = dec_chars(n as nat);
    lemma_dec_chars_digits(n as nat);
    let c = candidate_chars(u, v, a);
    let head = join_chars(u) + sep_chars(u) + key_chars(a) + "="@ + v + " "@;
    assert(c =~= head + v + descriptor_chars(a));
    assert(descriptor_chars(a).len() == 1);
    assert(c.last() == descriptor_chars(a)[0]);
    assert(c[c.len() - 2] == v.last());
    assert(is_dec_digit(v.last()));
}

/// A variable-quality candidate over a decimal value also ends with its
/// descriptor — exactly one `'w'` or `'x'` — preceded by a digit.
pub proof fn lemma_candidate_and_descriptor(u: UrlView, n: u32, a: Action, more: Seq<char>)
    requires
        a is Viewport || a is PixelDensity,
    ensures
        candidate_and_chars(u, dec_chars(n as nat), a, more).len() >= 2,
        candidate_and_chars(u, dec_chars(n as nat), a, more).last() == 'w' <==> a is Viewport,
        candidate_and_chars(u, dec_chars(n as nat), a, more).last() == 'x' <==> a is PixelDensity,
        is_dec_digit(
            candidate_and_chars(u, dec_chars(n as nat), a, more)[candidate_and_chars(
                u,
                dec_chars(n as nat),
                a,
                more,
            ).len() - 2],
        ),
{
    reveal_strlit("w");
    reveal_strlit("x");
    let v = dec_chars(n as nat);
    lemma_dec_chars_digits(n as nat);
    let c = candidate_and_chars(u, v, a, more);
    let head = join_chars(u) + sep_chars(u) + more + "&"@ + key_chars(a) + "="@ + v + " "@;
    assert(c =~= head + v + descriptor_chars(a));
    assert(descriptor_chars(a).len() == 1);
    assert(c.last() == descriptor_chars(a)[0]);
    assert(c[c.len() - 2] == v.last());
    assert(is_dec_digit(v.last()));
}

/// One candidate for `value`: `{base}{sep}{key}={value} {value}{desc}`.
pub fn candidate(url: &Url, value: &str, action: &Action) -> (r: String)
    requires
        url@.wf(),
        url@.path is Some,
        !(*action is ArtDirection),
    ensures
        r@ == candidate_chars(url@, value@, *action),
{
    let (descriptor, key): (&str, &str) = match action {
        Action::Viewport => ("w", "w"),
        Action::PixelDensity => ("x", "dpr"),
        Action::ArtDirection => unreached(),
    };
    let mut out = url.join();
    if url.has_params() {
        out.append("&");
    } else {
        out.append("?");
    }
    out.append(key);
    out.append("=");
    out.append(value);
    out.append(" ");
    out.append(value);
    out.append(descriptor);
    proof {
        assert(out@ =~= candidate_chars(url@, value@, *action));
    }
    out
}

/// One candidate for `value` with the extra parameter `more` (for example
/// `q=75`) inserted before the appended key-value parameter.
pub fn candidate_and(url: &Url, value: &str, action: &Action, more: &str) -> (r: String)
    requires
        url@.wf(),
        url@.path is Some,
        !(*action is ArtDirection),
    ensures
        r@ == candidate_and_chars(url@, value@, *action, more@),
{
    let (descriptor, key): (&str, &str) = match action {
        Action::Viewport => ("w", "w"),
        Action::PixelDensity => ("x", "dpr"),
        Action::ArtDirection => unreached(),
    };
    let mut out = url.join();
    if url.has_params() {
        out.append("&");
    } else {
        out.append("?");
    }
    out.append(more);
    out.append("&");
    out.append(key);
    out.append("=");
    out.append(value);
    out.append(" ");
    out.append(value);
    out.append(descriptor);
    proof {
        assert(out@ =~= candidate_and_chars(url@, value@, *action, more@));
    }
    out
}

/// One candidate per target value, in order: the candidate count equals
/// the target count.
pub fn create_srcset(url: &Url, targets: &[u32], action: &Action) -> (r: Vec<String>)
    requires
        url@.wf(),
        url@.path is Some,
        !(*action is ArtDirection),
    ensures
        r@.len() == targets@.len(),
        forall|i: int|
            0 <= i < r@.len() ==> (#[trigger] r@[i])@ == candidate_chars(
                url@,
                dec_chars(targets@[i] as nat),
                *action,
            ),
{
    let mut srcset: Vec<String> = Vec::new();
    let n = targets.len();
    for i in 0..n
        invariant
            n == targets@.len(),
            url@.wf(),
            url@.path is Some,
            !(*action is ArtDirection),
            srcset@.len() == i,
            forall|j: int|
                0 <= j < i ==> (#[trigger] srcset@[j])@ == candidate_chars(
                    url@,
                    dec_chars(targets@[j] as nat),
                    *action,
                ),
    {
        let value = u32_to_string(targets[i]);
        srcset.push(candidate(url, value.as_str(), action));
    }
    srcset
}

/// The extra quality parameter of a variable-quality candidate: `q={q}`.
pub open spec fn quality_more(q: nat) -> Seq<char> {
    "q="@ + dec_chars(q)
}

/// One candidate per ratio-quality pair, in order: the candidate count
/// equals the shorter of the two lists.
pub fn create_variable_quality_set(
    url: &Url,
    ratios: &[u32],
    action: &Action,
    qualities: &[u32],
) -> (r: Vec<String>)
    requires
        url@.wf(),
        url@.path is Some,
        !(*action is ArtDirection),
    ensures
        r@.len() == if ratios@.len() <= qualities@.len() {
            ratios@.len()
        } else {
            qualities@.len()
        },
        forall|i: int|
            0 <= i < r@.len() ==> (#[trigger] r@[i])@ == candidate_and_chars(
                url@,
                dec_chars(ratios@[i] as nat),
                *action,
                quality_more(qualities@[i] as nat),
            ),
{
    let mut srcset: Vec<String> = Vec::new();
    let n = if ratios.len() <= qualities.len() {
        ratios.len()
    } else {
        qualities.len()
    };
    for i in 0..n
        invariant
            n <= ratios@.len(),
            n <= qualities@.len(),
            url@.wf(),
            url@.path is Some,
            !(*action is ArtDirection),
            srcset@.len() == i,
            forall|j: int|
                0 <= j < i ==> (#[trigger] srcset@[j])@ == candidate_and_chars(
                    url@,
                    dec_chars(ratios@[j] as nat),
                    *action,
                    quality_more(qualities@[j] as nat),
                ),
    {
        let more = String::from_str("q=").concat(u32_to_string(qualities[i]).as_str());
        let value = u32_to_string(ratios[i]);
        proof {
            assert(more@ =~= quality_more(qualities@[i as int] as nat));
        }
        srcset.push(candidate_and(url, value.as_str(), action, more.as_str()));
    }
    srcset
}

/// The mathematical model of a `Config`: every optional override as an
/// optional mathematical value.
#[verifier::ext_equal]
pub struct ConfigView {
    pub scheme: Option<Scheme>,
    pub domain: Option<Seq<char>>,
    pub path: Option<Seq<char>>,
    pub params: Option<Seq<(Seq<char>, Seq<char>)>>,
    pub lib: Option<Seq<char>>,
    pub token: Option<Seq<char>>,
    pub targets: Option<Seq<u32>>,
    pub ratios: Option<Seq<u32>>,
    pub qualities: Option<Seq<u32>>,
    pub use_variable_quality: Option<bool>,
}

/// The configuration with nothing set: every getter supplies its default.
pub open spec fn config_default() -> ConfigView {
    ConfigView {
        scheme: None,
        domain: None,
        path: None,
        params: None,
        lib: None,
        token: None,
        targets: None,
        ratios: None,
        qualities: None,
        use_variable_quality: None,
    }
}

/// The parameter list a config supplies: the override, or none.
pub open spec fn config_params(c: ConfigView) -> Seq<(Seq<char>, Seq<char>)> {
    match c.params {
        Some(ps) => ps,
        None => Seq::empty(),
    }
}

/// The target widths a config supplies: the override, or the default
/// width table.
pub open spec fn config_targets(c: ConfigView) -> Seq<u32> {
    match c.targets {
        Some(t) => t,
        None => target_widths(),
    }
}

/// The ratios a config supplies: the override, or the default ladder.
pub open spec fn config_ratios(c: ConfigView) -> Seq<u32> {
    match c.ratios {
        Some(r) => r,
        None => target_ratios(),
    }
}

/// The qualities a config supplies: the override, or the default ladder.
pub open spec fn config_qualities(c: ConfigView) -> Seq<u32> {
    match c.qualities {
        Some(q) => q,
        None => dpr_qualities(),
    }
}

/// Whether variable quality is in use: the override, or true.
pub open spec fn config_uvq(c: ConfigView) -> bool {
    match c.use_variable_quality {
        Some(b) => b,
        None => true,
    }
}

/// The scheme a config supplies: the override, or `Https`.
pub open spec fn config_scheme(c: ConfigView) -> Scheme {
    match c.scheme {
        Some(s) => s,
        None => Scheme::Https,
    }
}

/// When a URL can be materialised from a config: domain and path present
/// and non-empty, and every parameter pair non-empty.
pub open spec fn to_url_ok(c: ConfigView) -> bool {
    &&& c.domain matches Some(d) && d.len() > 0
    &&& c.path matches Some(p) && p.len() > 0
    &&& forall|i: int|
        0 <= i < config_params(c).len() ==> (#[trigger] config_params(c)[i]).0.len() > 0
            && config_params(c)[i].1.len() > 0
}

/// The URL a config materialises: the config's scheme, domain, path and
/// parameters, no analytics token, no signing token.
pub open spec fn config_url_view(c: ConfigView) -> UrlView {
    UrlView {
        scheme: config_scheme(c),
        domain: c.domain->Some_0,
        lib: Seq::empty(),
        path: c.path,
        params: config_params(c),
        token: None,
    }
}

/// Optional overrides for the srcset engine: URL components, the target
/// width list, the device-pixel-ratio ladder and its quality ladder, and
/// the variable-quality switch. Getters supply documented defaults for
/// fields never set.
#[derive(Debug, Clone)]
pub struct Config {
    scheme: Option<Scheme>,
    domain: Option<String>,
    path: Option<String>,
    params: Option<Vec<(String, String)>>,
    lib: Option<String>,
    token: Option<String>,
    targets: Option<Vec<u32>>,
    ratios: Option<[u32; 5]>,
    qualities: Option<[u32; 5]>,
    use_variable_quality: Option<bool>,
}

impl View for Config {
    type V = ConfigView;

    closed spec fn view(&self) -> ConfigView {
        ConfigView {
            scheme: self.scheme,
            domain: match self.domain {
                Some(d) => Some(d@),
                None => None,
            },
            path: match self.path {
                Some(p) => Some(p@),
                None => None,
            },
            params: match self.params {
                Some(ps) => Some(owned_pairs_view(ps@)),
                None => None,
            },
            lib: match self.lib {
                Some(l) => Some(l@),
                None => None,
            },
            token: match self.token {
                Some(t) => Some(t@),
                None => None,
            },
            targets: match self.targets {
                Some(t) => Some(t@),
                None => None,
            },
            ratios: match self.ratios {
                Some(r) => Some(r@),
                None => None,
            },
            qualities: match self.qualities {
                Some(q) => Some(q@),
                None => None,
            },
            use_variable_quality: self.use_variable_quality,
        }
    }
}

impl Default for Config {
    /// The configuration with nothing set.
    fn default() -> (r: Self)
        ensures
            r@ == config_default(),
    {
        let c = Config {
            scheme: None,
            domain: None,
            path: None,
            params: None,
            lib: None,
            token: None,
            targets: None,
            ratios: None,
            qualities: None,
            use_variable_quality: None,
        };
        proof {
            assert(c@ =~~= config_default());
        }
        c
    }
}

impl Config {
    /// Override the scheme.
    pub fn set_scheme(self, s: Scheme) -> (r: Self)
        ensures
            r@ == (ConfigView { scheme: Some(s), ..self@ }),
    {
        let mut c = self;
        c.scheme = Some(s);
        proof {
            assert(c@ =~~= (ConfigView { scheme: Some(s), ..self@ }));
        }
        c
    }

    /// Override the domain.
    pub fn set_domain(self, d: &str) -> (r: Self)
        ensures
            r@ == (ConfigView { domain: Some(d@), ..self@ }),
    {
        let mut c = self;
        c.domain = Some(d.to_owned());
        proof {
            assert(c@ =~~= (ConfigView { domain: Some(d@), ..self@ }));
        }
        c
    }

    /// Override the path.
    pub fn set_path(self, p: &str) -> (r: Self)
        ensures
            r@ == (ConfigView { path: Some(p@), ..self@ }),
    {
        let mut c = self;
        c.path = Some(p.to_owned());
        proof {
            assert(c@ =~~= (ConfigView { path: Some(p@), ..self@ }));
        }
        c
    }

    /// Override the parameter list.
    pub fn set_params(self, p: &[(&str, &str)]) -> (r: Self)
        ensures
            r@ == (ConfigView { params: Some(pairs_view(p@)), ..self@ }),
    {
        let mut c = self;
        c.params = Some(crate::url::own_pairs(p));
        proof {
            assert(c@ =~~= (ConfigView { params: Some(pairs_view(p@)), ..self@ }));
        }
        c
    }

    /// Override the device-pixel-ratio ladder; exactly five entries.
    pub fn set_ratios(self, ratios: &[u32; 5]) -> (r: Self)
        ensures
            r@ == (ConfigView { ratios: Some(ratios@), ..self@ }),
    {
        let mut c = self;
        c.ratios = Some(*ratios);
        proof {
            assert(c@ =~~= (ConfigView { ratios: Some(ratios@), ..self@ }));
        }
        c
    }

    /// The ratio ladder in force: the override, or the default.
    pub fn get_ratios(&self) -> (r: [u32; 5])
        ensures
            r@ == config_ratios(self@),
    {
        match &self.ratios {
            Some(r) => *r,
            None => srcset_target_dpr_ratios(),
        }
    }

    /// Override the target width list; it must be non-empty.
    pub fn set_targets(self, targets: &[u32]) -> (r: Self)
        requires
            targets@.len() > 0,
        ensures
            r@ == (ConfigView { targets: Some(targets@), ..self@ }),
    {
        let mut c = self;
        c.targets = Some(slice_to_vec(targets));
        proof {
            assert(c@ =~~= (ConfigView { targets: Some(targets@), ..self@ }));
        }
        c
    }

    /// The target widths in force: the override, or the default table.
    pub fn get_targets(&self) -> (r: Vec<u32>)
        ensures
            r@ == config_targets(self@),
    {
        match &self.targets {
            Some(t) => slice_to_vec(t.as_slice()),
            None => srcset_target_widths(),
        }
    }

    /// Override the quality ladder; exactly five entries.
    pub fn set_qualities(self, qualities: &[u32; 5]) -> (r: Self)
        ensures
            r@ == (ConfigView { qualities: Some(qualities@), ..self@ }),
    {
        let mut c = self;
        c.qualities = Some(*qualities);
        proof {
            assert(c@ =~~= (ConfigView { qualities: Some(qualities@), ..self@ }));
        }
        c
    }

    /// The quality ladder in force: the override, or the default.
    pub fn get_qualities(&self) -> (r: [u32; 5])
        ensures
            r@ == config_qualities(self@),
    {
        match &self.qualities {
            Some(q) => *q,
            None => srcset_dpr_qualities(),
        }
    }

    /// Override the variable-quality switch.
    pub fn set_use_variable_quality(self, state: bool) -> (r: Self)
        ensures
            r@ == (ConfigView { use_variable_quality: Some(state), ..self@ }),
    {
        let mut c = self;
        c.use_variable_quality = Some(state);
        proof {
            assert(c@ =~~= (ConfigView { use_variable_quality: Some(state), ..self@ }));
        }
        c
    }

    /// Whether variable quality is in force: the override, or true.
    pub fn get_use_variable_quality(&self) -> (r: bool)
        ensures
            r == config_uvq(self@),
    {
        match self.use_variable_quality {
            Some(b) => b,
            None => true,
        }
    }

    /// Materialise a URL from the config: its scheme (default `Https`),
    /// domain, path and parameters, everything else default. Domain and
    /// path must be present and non-empty and every parameter pair
    /// non-empty.
    pub fn to_url(&self) -> (u: Url)
        requires
            to_url_ok(self@),
        ensures
            u@ == config_url_view(self@),
            u@.wf(),
    {
        let d = self.domain.as_ref().unwrap();
        let p = self.path.as_ref().unwrap();
        let scheme = match self.scheme {
            Some(s) => s,
            None => Scheme::Https,
        };
        let url = Url::new(d.as_str()).path(p.as_str()).scheme(scheme);
        let url = match &self.params {
            Some(ps) => {
                proof {
                    assert forall|i: int|
                        0 <= i < ps@.len() implies (#[trigger] ps@[i]).0@.len() > 0
                        && ps@[i].1@.len() > 0 by {
                        assert(config_params(self@)[i] == (ps@[i].0@, ps@[i].1@));
                        assert(config_params(self@)[i].0.len() > 0);
                    }
                }
                url.params_owned(ps)
            },
            None => url,
        };
        proof {
            assert(url@ =~~= config_url_view(self@));
        }
        url
    }
}

/// When a srcset can be generated from a config: a URL can be
/// materialised and the target width list in force is non-empty.
pub open spec fn srcset_ok(c: ConfigView) -> bool {
    &&& to_url_ok(c)
    &&& config_targets(c).len() > 0
}

/// The ordered candidate list a config generates: one width candidate per
/// target in viewport mode; one pixel-density candidate per ratio-quality
/// pair under variable quality; one pixel-density candidate per ratio
/// otherwise.
pub open spec fn candidates_chars(c: ConfigView) -> Seq<Seq<char>> {
    let u = config_url_view(c);
    let a = inferred_action(config_params(c));
    if a is Viewport {
        Seq::new(
            config_targets(c).len(),
            |i: int| candidate_chars(u, dec_chars(config_targets(c)[i] as nat), Action::Viewport),
        )
    } else if config_uvq(c) {
        Seq::new(
            if config_ratios(c).len() <= config_qualities(c).len() {
                config_ratios(c).len()
            } else {
                config_qualities(c).len()
            },
            |i: int|
                candidate_and_chars(
                    u,
                    dec_chars(config_ratios(c)[i] as nat),
                    Action::PixelDensity,
                    quality_more(config_qualities(c)[i] as nat),
                ),
        )
    } else {
        Seq::new(
            config_ratios(c).len(),
            |i: int|
                candidate_chars(u, dec_chars(config_ratios(c)[i] as nat), Action::PixelDensity),
        )
    }
}

/// The rendered srcset attribute: the candidates joined with a comma and
/// a newline.
pub open spec fn srcset_chars(c: ConfigView) -> Seq<char> {
    join_with(candidates_chars(c), ",\n"@)
}

/// The mathematical model of a `SourceSet`.
#[verifier::ext_equal]
pub struct SourceSetView {
    pub src: Option<UrlView>,
    pub action: Option<Action>,
    pub srcset: Option<Seq<Seq<char>>>,
    pub sizes: Option<Seq<Seq<char>>>,
    pub media: Option<Seq<char>>,
    pub config: ConfigView,
}

/// A source set: an ordered list of image candidate strings for an HTML
/// `srcset` attribute, together with the configuration that generates it.
/// The `src`, `action` and `srcset` fields are filled when the set is
/// derived directly from a URL; `sizes` and `media` are reserved.
#[derive(Debug)]
pub struct SourceSet {
    src: Option<Url>,
    action: Option<Action>,
    srcset: Option<Vec<String>>,
    sizes: Option<Vec<String>>,
    media: Option<String>,
    config: Config,
}

impl View for SourceSet {
    type V = SourceSetView;

    closed spec fn view(&self) -> SourceSetView {
        SourceSetView {
            src: match self.src {
                Some(u) => Some(u@),
                None => None,
            },
            action: self.action,
            srcset: match self.srcset {
                Some(v) => Some(v.deep_view()),
                None => None,
            },
            sizes: match self.sizes {
                Some(v) => Some(v.deep_view()),
                None => None,
            },
            media: match self.media {
                Some(m) => Some(m@),
                None => None,
            },
            config: self.config@,
        }
    }
}

impl Default for SourceSet {
    /// The empty source set over the default configuration.
    fn default() -> (r: Self)
        ensures
            r@.src is None,
            r@.action is None,
            r@.srcset is None,
            r@.sizes is None,
            r@.media is None,
            r@.config == config_default(),
    {
        SourceSet {
            src: None,
            action: None,
            srcset: None,
            sizes: None,
            media: None,
            config: Config::default(),
        }
    }
}

/// The candidate list generated directly from a URL: width candidates
/// over the default width table in viewport mode, plain pixel-density
/// candidates over the default ratio ladder otherwise.
pub open spec fn from_url_candidates(u: UrlView) -> Seq<Seq<char>> {
    if inferred_action(u.params) is Viewport {
        Seq::new(
            target_widths().len(),
            |i: int| candidate_chars(u, dec_chars(target_widths()[i] as nat), Action::Viewport),
        )
    } else {
        Seq::new(
            target_ratios().len(),
            |i: int|
                candidate_chars(u, dec_chars(target_ratios()[i] as nat), Action::PixelDensity),
        )
    }
}

impl SourceSet {
    /// The empty source set over the default configuration.
    pub fn new() -> (r: Self)
        ensures
            r@.src is None,
            r@.action is None,
            r@.srcset is None,
            r@.sizes is None,
            r@.media is None,
            r@.config == config_default(),
    {
        SourceSet::default()
    }

    /// A source set derived from a URL: the action is inferred from the
    /// URL's parameters and a candidate list over the default tables is
    /// generated at once, without variable quality.
    pub fn from_url(url: Url) -> (r: Self)
        requires
            url@.wf(),
            url@.path is Some,
        ensures
            r@.src == Some(url@),
            r@.action == Some(inferred_action(url@.params)),
            r@.srcset == Some(from_url_candidates(url@)),
            r@.sizes is None,
            r@.media is None,
            r@.config == config_default(),
    {
        let action = Self::infer_action(&url);
        let srcset = match action {
            Action::Viewport => {
                let widths = srcset_target_widths();
                create_srcset(&url, widths.as_slice(), &action)
            },
            Action::PixelDensity => {
                let ratios = srcset_target_dpr_ratios();
                create_srcset(&url, ratios.as_slice(), &action)
            },
            Action::ArtDirection => unreached(),
        };
        proof {
            assert(srcset.deep_view().len() == from_url_candidates(url@).len());
            assert forall|i: int|
                0 <= i < srcset.deep_view().len() implies srcset.deep_view()[i]
                == from_url_candidates(url@)[i] by {
                assert(srcset.deep_view()[i] == srcset@[i]@);
            }
            assert(srcset.deep_view() =~= from_url_candidates(url@));
        }
        SourceSet {
            src: Some(url),
            action: Some(action),
            srcset: Some(srcset),
            sizes: None,
            media: None,
            config: Config::default(),
        }
    }

    /// The srcset the set would generate, as a vector of candidates.
    pub fn get_srcset(&self) -> (r: &Option<Vec<String>>)
        ensures
            r is Some <==> self@.srcset is Some,
            r matches Some(v) ==> v.deep_view() == self@.srcset->Some_0,
    {
        &self.srcset
    }

    /// Override the scheme.
    pub fn scheme(self, s: Scheme) -> (r: Self)
        ensures
            r@ == (SourceSetView {
                config: (ConfigView { scheme: Some(s), ..self@.config }),
                ..self@
            }),
    {
        let SourceSet { src, action, srcset, sizes, media, config } = self;
        let r = SourceSet { src, action, srcset, sizes, media, config: config.set_scheme(s) };
        proof {
            assert(r@ =~~= (SourceSetView {
                config: (ConfigView { scheme: Some(s), ..self@.config }),
                ..self@
            }));
        }
        r
    }

    /// Override the domain.
    pub fn domain(self, d: &str) -> (r: Self)
        ensures
            r@ == (SourceSetView {
                config: (ConfigView { domain: Some(d@), ..self@.config }),
                ..self@
            }),
    {
        let SourceSet { src, action, srcset, sizes, media, config } = self;
        let r = SourceSet { src, action, srcset, sizes, media, config: config.set_domain(d) };
        proof {
            assert(r@ =~~= (SourceSetView {
                config: (ConfigView { domain: Some(d@), ..self@.config }),
                ..self@
            }));
        }
        r
    }

    /// Override the path.
    pub fn path(self, p: &str) -> (r: Self)
        ensures
            r@ == (SourceSetView {
                config: (ConfigView { path: Some(p@), ..self@.config }),
                ..self@
            }),
    {
        let SourceSet { src, action, srcset, sizes, media, config } = self;
        let r = SourceSet { src, action, srcset, sizes, media, config: config.set_path(p) };
        proof {
            assert(r@ =~~= (SourceSetView {
                config: (ConfigView { path: Some(p@), ..self@.config }),
                ..self@
            }));
        }
        r
    }

    /// Override the parameter list.
    pub fn params(self, params: &[(&str, &str)]) -> (r: Self)
        ensures
            r@ == (SourceSetView {
                config: (ConfigView { params: Some(pairs_view(params@)), ..self@.config }),
                ..self@
            }),
    {
        let SourceSet { src, action, srcset, sizes, media, config } = self;
        let r = SourceSet { src, action, srcset, sizes, media, config: config.set_params(params) };
        proof {
            assert(r@ =~~= (SourceSetView {
                config: (ConfigView { params: Some(pairs_view(params@)), ..self@.config }),
                ..self@
            }));
        }
        r
    }

    /// Override the device-pixel-ratio ladder; exactly five entries.
    pub fn ratios(self, ratios: &[u32; 5]) -> (r: Self)
        ensures
            r@ == (SourceSetView {
                config: (ConfigView { ratios: Some(ratios@), ..self@.config }),
                ..self@
            }),
    {
        let SourceSet { src, action, srcset, sizes, media, config } = self;
        let r = SourceSet { src, action, srcset, sizes, media, config: config.set_ratios(ratios) };
        proof {
            assert(r@ =~~= (SourceSetView {
                config: (ConfigView { ratios: Some(ratios@), ..self@.config }),
                ..self@
            }));
        }
        r
    }

    /// The ratio ladder in force: the override, or the default.
    pub fn get_ratios(&self) -> (r: [u32; 5])
        ensures
            r@ == config_ratios(self@.config),
    {
        self.config.get_ratios()
    }

    /// Override the target width list; it must be non-empty.
    pub fn targets(self, targets: &[u32]) -> (r: Self)
        requires
            targets@.len() > 0,
        ensures
            r@ == (SourceSetView {
                config: (ConfigView { targets: Some(targets@), ..self@.config }),
                ..self@
            }),
    {
        let SourceSet { src, action, srcset, sizes, media, config } = self;
        let r = SourceSet {
            src,
            action,
            srcset,
            sizes,
            media,
            config: config.set_targets(targets),
        };
        proof {
            assert(r@ =~~= (SourceSetView {
                config: (ConfigView { targets: Some(targets@), ..self@.config }),
                ..self@
            }));
        }
        r
    }

    /// The target widths in force: the override, or the default table.
    pub fn get_targets(&self) -> (r: Vec<u32>)
        ensures
            r@ == config_targets(self@.config),
    {
        self.config.get_targets()
    }

    /// Override the variable-quality switch.
    pub fn variable_quality(self, state: bool) -> (r: Self)
        ensures
            r@ == (SourceSetView {
                config: (ConfigView { use_variable_quality: Some(state), ..self@.config }),
                ..self@
            }),
    {
        let SourceSet { src, action, srcset, sizes, media, config } = self;
        let r = SourceSet {
            src,
            action,
            srcset,
            sizes,
            media,
            config: config.set_use_variable_quality(state),
        };
        proof {
            assert(r@ =~~= (SourceSetView {
                config: (ConfigView { use_variable_quality: Some(state), ..self@.config }),
                ..self@
            }));
        }
        r
    }

    /// Whether variable quality is in force: the override, or true.
    pub fn uses_variable_quality(&self) -> (r: bool)
        ensures
            r == config_uvq(self@.config),
    {
        self.config.get_use_variable_quality()
    }

    /// Override the quality ladder; exactly five entries.
    pub fn qualities(self, qualities: &[u32; 5]) -> (r: Self)
        ensures
            r@ == (SourceSetView {
                config: (ConfigView { qualities: Some(qualities@), ..self@.config }),
                ..self@
            }),
    {
        let SourceSet { src, action, srcset, sizes, media, config } = self;
        let r = SourceSet {
            src,
            action,
            srcset,
            sizes,
            media,
            config: config.set_qualities(qualities),
        };
        proof {
            assert(r@ =~~= (SourceSetView {
                config: (ConfigView { qualities: Some(qualities@), ..self@.config }),
                ..self@
            }));
        }
        r
    }

    /// The quality ladder in force: the override, or the default.
    pub fn get_qualities(&self) -> (r: [u32; 5])
        ensures
            r@ == config_qualities(self@.config),
    {
        self.config.get_qualities()
    }

    /// Infer the candidate mode from a URL's parameters: pixel density
    /// when a `w` key is present, or when both `ar` and `h` are; viewport
    /// otherwise. Art direction is never inferred.
    pub fn infer_action(url: &Url) -> (a: Action)
        ensures
            a == inferred_action(url@.params),
            !(a is ArtDirection),
    {
        let mut has_width = false;
        let mut has_height = false;
        let mut has_aspect_ratio = false;
        let ps = url.get_params();
        let n = ps.len();
        for i in 0..n
            invariant
                n == ps@.len(),
                owned_pairs_view(ps@) == url@.params,
                has_width == has_key(url@.params.take(i as int), "w"@),
                has_height == has_key(url@.params.take(i as int), "h"@),
                has_aspect_ratio == has_key(url@.params.take(i as int), "ar"@),
        {
            let k = ps[i].0.as_str();
            proof {
                assert(url@.params[i as int] == (ps@[i as int].0@, ps@[i as int].1@));
            }
            if str_eq(k, "w") {
                has_width = true;
            }
            if str_eq(k, "h") {
                has_height = true;
            }
            if str_eq(k, "ar") {
                has_aspect_ratio = true;
            }
            proof {
                let taken = url@.params.take(i as int);
                let p = url@.params[i as int];
                assert(url@.params.take(i as int + 1) =~= taken.push(p));
                lemma_has_key_push(taken, p, "w"@);
                lemma_has_key_push(taken, p, "h"@);
                lemma_has_key_push(taken, p, "ar"@);
            }
        }
        proof {
            assert(url@.params.take(n as int) =~= url@.params);
        }
        if has_width || (has_aspect_ratio && has_height) {
            Action::PixelDensity
        } else {
            Action::Viewport
        }
    }

    /// The pixel-density candidate list over the config's ratio ladder,
    /// with per-ratio quality when variable quality is in force.
    pub fn build_pixel_set(&self, url: &Url, action: &Action) -> (r: Vec<String>)
        requires
            url@.wf(),
            url@.path is Some,
            *action is PixelDensity,
        ensures
            config_uvq(self@.config) ==> r@.len() == 5 && (forall|i: int|
                0 <= i < r@.len() ==> (#[trigger] r@[i])@ == candidate_and_chars(
                    url@,
                    dec_chars(config_ratios(self@.config)[i] as nat),
                    Action::PixelDensity,
                    quality_more(config_qualities(self@.config)[i] as nat),
                )),
            !config_uvq(self@.config) ==> r@.len() == 5 && (forall|i: int|
                0 <= i < r@.len() ==> (#[trigger] r@[i])@ == candidate_chars(
                    url@,
                    dec_chars(config_ratios(self@.config)[i] as nat),
                    Action::PixelDensity,
                )),
    {
        let ratios = self.get_ratios();
        if self.uses_variable_quality() {
            let qualities = self.get_qualities();
            create_variable_quality_set(url, ratios.as_slice(), action, qualities.as_slice())
        } else {
            create_srcset(url, ratios.as_slice(), action)
        }
    }

    /// The viewport candidate list over the config's target widths.
    pub fn build_viewport_set(&self, url: &Url, action: &Action) -> (r: Vec<String>)
        requires
            url@.wf(),
            url@.path is Some,
            *action is Viewport,
        ensures
            r@.len() == config_targets(self@.config).len(),
            forall|i: int|
                0 <= i < r@.len() ==> (#[trigger] r@[i])@ == candidate_chars(
                    url@,
                    dec_chars(config_targets(self@.config)[i] as nat),
                    Action::Viewport,
                ),
    {
        let targets = self.get_targets();
        create_srcset(url, targets.as_slice(), action)
    }

    /// The candidate list for the config: the URL is materialised, the
    /// action inferred, and the matching mode's candidates generated. The
    /// candidate count equals the target count in viewport mode, the
    /// ratio-quality pair count under variable quality, and the ratio
    /// count otherwise.
    pub fn build_srcset(&self) -> (r: Vec<String>)
        requires
            srcset_ok(self@.config),
        ensures
            r@.len() == candidates_chars(self@.config).len(),
            forall|i: int|
                0 <= i < r@.len() ==> (#[trigger] r@[i])@ == candidates_chars(self@.config)[i],
            inferred_action(config_params(self@.config)) is Viewport ==> r@.len() == config_targets(
                self@.config,
            ).len(),
            inferred_action(config_params(self@.config)) is PixelDensity ==> r@.len() == 5,
    {
        let url = self.config.to_url();
        let action = Self::infer_action(&url);
        let r = match action {
            Action::PixelDensity => self.build_pixel_set(&url, &action),
            Action::Viewport => self.build_viewport_set(&url, &action),
            Action::ArtDirection => unreached(),
        };
        proof {
            assert(url@ == config_url_view(self@.config));
            assert(url@.params == config_params(self@.config));
            assert(config_ratios(self@.config).len() == 5);
            assert(config_qualities(self@.config).len() == 5);
            assert(r@.len() == candidates_chars(self@.config).len());
            assert forall|i: int|
                0 <= i < r@.len() implies (#[trigger] r@[i])@ == candidates_chars(
                self@.config,
            )[i] by {
                assert(r@[i]@ == candidates_chars(self@.config)[i]);
            }
        }
        r
    }

    /// The rendered srcset attribute for the config: the candidate list
    /// joined with a comma and a newline.
    pub fn srcset_attr(&self) -> (r: String)
        requires
            srcset_ok(self@.config),
        ensures
            r@ == srcset_chars(self@.config),
    {
        let parts = self.build_srcset();
        let ghost cands = candidates_chars(self@.config);
        let mut out = String::new();
        let n = parts.len();
        for i in 0..n
            invariant
                n == parts@.len(),
                n == cands.len(),
                forall|j: int| 0 <= j < n ==> (#[trigger] parts@[j])@ == cands[j],
                out@ == join_with(cands.take(i as int), ",\n"@),
        {
            if i > 0 {
                out.append(",\n");
            }
            out.append(parts[i].as_str());
            proof {
                assert(cands.take(i as int + 1) =~= cands.take(i as int).push(cands[i as int]));
                if i > 0 {
                    lemma_join_with_push(cands.take(i as int), ",\n"@, cands[i as int]);
                } else {
                    assert(cands.take(0int) =~= Seq::<Seq<char>>::empty());
                    assert(cands.take(1int) =~= seq![cands[0]]);
                }
                assert(out@ =~= join_with(cands.take(i as int + 1), ",\n"@));
            }
        }
        proof {
            assert(cands.take(n as int) =~= cands);
        }
        out
    }
}

} // verus!
