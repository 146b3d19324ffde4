//! The `sampcef://assets/` scheme: how the browser's start URL is chosen and
//! how a request to the scheme is mapped to a file under the assets root.
use vstd::prelude::*;
use crate::paths::{
    PathPart, Part, parts_view, strings_view, is_sep, is_ascii_alpha, is_sep_char,
    is_ascii_alpha_char, eq_ignore_ascii_case, str_eq_ignore_ascii_case, split_path,
    split_path_spec, join, join_spec, copy_parts, parts_have_prefix, parts_have_root,
    is_absolute, part_text, normalize_path, normalize_spec, strip_prefix, strip_prefix_spec,
    file_name_spec, extension_spec, file_extension, words, split_words, Seps,
};
use crate::text::{first_index_of, lemma_first_index_of, find_char, str_eq, trim, trim_spec, ends_with_char};

verus! {

/// The components of a parsed URL: scheme, host, path, query and fragment.
pub struct UrlParts {
    pub scheme: String,
    pub host: Option<String>,
    pub path: String,
    pub query: Option<String>,
    pub fragment: Option<String>,
}

pub open spec fn opt_view(o: Option<String>) -> Option<Seq<char>> {
    match o {
        Some(s) => Some(s@),
        None => None,
    }
}

impl View for UrlParts {
    type V = (Seq<char>, Option<Seq<char>>, Seq<char>, Option<Seq<char>>, Option<Seq<char>>);

    open spec fn view(&self) -> Self::V {
        (self.scheme@, opt_view(self.host), self.path@, opt_view(self.query), opt_view(self.fragment))
    }
}

/// What the url crate's parser makes of a string: `None` where it refuses it.
pub uninterp spec fn url_parse(input: Seq<char>) -> Option<
    (Seq<char>, Option<Seq<char>>, Seq<char>, Option<Seq<char>>, Option<Seq<char>>),
>;

/// Parses `input` with `url::Url::parse`, handing back the scheme, host,
/// path, query and fragment of the result. The contract claims only that the
/// result is a function of the input (named `url_parse`).
#[verifier::external_body]
pub(crate) fn parse_url(input: &str) -> (r: Option<UrlParts>)
    ensures
        match r {
            Some(u) => url_parse(input@) == Some(u@),
            None => url_parse(input@) is None,
        },
{
    let u = url::Url::parse(input).ok()?;
    Some(UrlParts {
        scheme: u.scheme().to_string(),
        host: u.host_str().map(|h| h.to_string()),
        path: u.path().to_string(),
        query: u.query().map(|q| q.to_string()),
        fragment: u.fragment().map(|f| f.to_string()),
    })
}

/// The local path that `url::Url::to_file_path` reads from the URL in `input`.
/// Nothing is claimed of it: its form depends on the platform the crate is
/// built for.
#[verifier::external_body]
fn file_url_path(input: &str) -> (r: Option<String>) {
    let u = url::Url::parse(input).ok()?;
    let p = u.to_file_path().ok()?;
    Some(p.to_string_lossy().into_owned())
}

/// What `percent_encoding::percent_decode_str(s).decode_utf8()` gives back.
pub uninterp spec fn percent_decode_utf8(s: Seq<char>) -> Option<Seq<char>>;

/// Percent-decodes `s` and reads the bytes as UTF-8 (`None` when they are not).
/// Claimed: the result is a function of `s`, and a string without `%` comes
/// back unchanged (the decoder then yields the input's own bytes).
#[verifier::external_body]
fn decode_segment(s: &str) -> (r: Option<String>)
    ensures
        opt_view(r) == percent_decode_utf8(s@),
        (forall|i: int| 0 <= i < s@.len() ==> s@[i] != '%') ==> opt_view(r) == Some(s@),
{
    percent_encoding::percent_decode_str(s).decode_utf8().ok().map(|d| d.into_owned())
}

/// `s` begins with `p`.
pub open spec fn starts_with(s: Seq<char>, p: Seq<char>) -> bool {
    p.len() <= s.len() && s.subrange(0, p.len() as int) == p
}

/// The URL that the url crate serialises after parsing `base`, setting its
/// path segments to `segments`, its query and its fragment.
pub uninterp spec fn url_with_segments(
    base: Seq<char>,
    segments: Seq<Seq<char>>,
    query: Option<Seq<char>>,
    fragment: Option<Seq<char>>,
) -> Option<Seq<char>>;

/// Builds a URL with the url crate: parses `base`, replaces its path by the
/// percent-encoded `segments`, sets query and fragment, and serialises it.
/// Claimed: the result is a function of the arguments (`url_with_segments`),
/// and for the asset base, whose serialisation is itself and ends with the
/// first slash of its path, the result starts with that base (clearing the
/// segments keeps the serialisation up to that slash; segments, query and
/// fragment are written after it).
#[verifier::external_body]
fn build_url(base: &str, segments: &Vec<String>, query: Option<&str>, fragment: Option<&str>) -> (r:
    Option<String>)
    ensures
        opt_view(r) == url_with_segments(
            base@,
            strings_view(segments@),
            match query { Some(q) => Some(q@), None => None },
            match fragment { Some(f) => Some(f@), None => None },
        ),
        base@ == "sampcef://assets/"@ ==> (r matches Some(u) ==> starts_with(u@, base@)),
{
    let mut url = url::Url::parse(base).ok()?;
    {
        let mut path = url.path_segments_mut().ok()?;
        path.clear();
        path.extend(segments.iter().map(|s| s.as_str()));
    }
    url.set_query(query);
    url.set_fragment(fragment);
    Some(url.into())
}

pub open spec fn is_ascii_alnum(c: char) -> bool {
    is_ascii_alpha(c) || ('0' <= c && c <= '9')
}

pub open spec fn is_scheme_char(c: char) -> bool {
    is_ascii_alnum(c) || c == '+' || c == '-' || c == '.'
}

/// `v` begins with a URL scheme: a letter, then letters, digits, `+`, `-` or
/// `.`, up to the first colon; a single letter and colon followed by a
/// separator is a drive, not a scheme.
pub open spec fn has_url_scheme_spec(v: Seq<char>) -> bool {
    match first_index_of(v, ':') {
        None => false,
        Some(i) => if i == 1 && is_ascii_alpha(v[0]) && i + 1 < v.len() && is_sep(v[i + 1]) {
            false
        } else {
            i > 0 && is_ascii_alpha(v[0]) && forall|j: int| 1 <= j < i ==> is_scheme_char(v[j])
        },
    }
}

/// Whether `value` starts with a URL scheme (as opposed to a local path).
pub fn has_url_scheme(value: &str) -> (b: bool)
    ensures
        b == has_url_scheme_spec(value@),
{
    let idx = match find_char(value, ':') {
        Some(i) => i,
        None => {
            return false;
        },
    };
    let n = value.unicode_len();
    proof {
        lemma_first_index_of(value@, ':');
    }
    if idx == 1 && is_ascii_alpha_char(value.get_char(0)) && idx + 1 < n && is_sep_char(
        value.get_char(idx + 1),
    ) {
        return false;
    }
    if idx == 0 || !is_ascii_alpha_char(value.get_char(0)) {
        return false;
    }
    let mut j: usize = 1;
    while j < idx
        invariant
            1 <= j <= idx < n == value@.len(),
            first_index_of(value@, ':') == Some(idx as int),
            is_ascii_alpha(value@[0]),
            forall|k: int| 1 <= k < j ==> is_scheme_char(value@[k]),
        decreases idx - j,
    {
        let c = value.get_char(j);
        if !(is_ascii_alpha_char(c) || ('0' <= c && c <= '9') || c == '+' || c == '-' || c == '.') {
            proof {
                assert(!is_scheme_char(value@[j as int]));
            }
            return false;
        }
        j = j + 1;
    }
    true
}

/// The path, query and fragment of a local path input: the fragment follows
/// the first `#`, the query the first `?` before it.
pub open spec fn split_local_suffix_spec(v: Seq<char>) -> (Seq<char>, Option<Seq<char>>, Option<Seq<char>>) {
    let (wf, frag) = match first_index_of(v, '#') {
        Some(i) => (v.take(i), Some(v.skip(i + 1))),
        None => (v, None),
    };
    let (p, q) = match first_index_of(wf, '?') {
        Some(j) => (wf.take(j), Some(wf.skip(j + 1))),
        None => (wf, None),
    };
    (p, q, frag)
}

/// Splits a local path input into its path, query and fragment.
pub fn split_local_suffix(value: &str) -> (r: (String, Option<String>, Option<String>))
    ensures
        (r.0@, opt_view(r.1), opt_view(r.2)) == split_local_suffix_spec(value@),
{
    let n = value.unicode_len();
    let (without_fragment, fragment): (&str, Option<String>) = match find_char(value, '#') {
        Some(i) => {
            proof {
                lemma_first_index_of(value@, '#');
            }
            (value.substring_char(0, i), Some(value.substring_char(i + 1, n).to_owned()))
        },
        None => (value, None),
    };
    let m = without_fragment.unicode_len();
    let (path, query): (&str, Option<String>) = match find_char(without_fragment, '?') {
        Some(j) => {
            proof {
                lemma_first_index_of(without_fragment@, '?');
            }
            (without_fragment.substring_char(0, j), Some(without_fragment.substring_char(j + 1, m).to_owned()))
        },
        None => (without_fragment, None),
    };
    proof {
        let (wf, frag) = match first_index_of(value@, '#') {
            Some(i) => (value@.take(i), Some(value@.skip(i + 1))),
            None => (value@, None),
        };
        assert(without_fragment@ =~= wf);
        assert(opt_view(fragment) =~= frag);
    }
    (path.to_owned(), query, fragment)
}

/// The text of the first component, when it is a name.
pub open spec fn normal_text(p: Seq<Part>, i: int) -> Option<Seq<char>> {
    if 0 <= i < p.len() && p[i] is Normal {
        Some(part_text(p[i]))
    } else {
        None
    }
}

/// A relative local path resolved against the assets directory `dir`: a path
/// that starts `cef/assets` (in any case) is taken from there, any other path
/// that starts with `cef` is refused, and the rest are taken relative to `dir`.
pub open spec fn resolve_relative_spec(p: Seq<Part>, dir: Seq<Part>) -> Option<Seq<Part>> {
    match (normal_text(p, 0), normal_text(p, 1)) {
        (Some(first), Some(second)) if eq_ignore_ascii_case(first, "cef"@) && eq_ignore_ascii_case(
            second,
            "assets"@,
        ) => Some(join_spec(dir, p.skip(2))),
        (Some(first), _) if eq_ignore_ascii_case(first, "cef"@) => None,
        _ => Some(join_spec(dir, p)),
    }
}

fn normal_is(p: &Vec<PathPart>, i: usize, word: &str) -> (b: bool)
    ensures
        b == (normal_text(parts_view(p@), i as int) matches Some(t) && eq_ignore_ascii_case(t, word@)),
{
    if i < p.len() {
        match &p[i] {
            PathPart::Normal(s) => str_eq_ignore_ascii_case(s.as_str(), word),
            _ => false,
        }
    } else {
        false
    }
}

/// Resolves a relative local path against the assets directory `dir`.
pub fn resolve_relative_local_path(path: &Vec<PathPart>, dir: &Vec<PathPart>) -> (r: Option<
    Vec<PathPart>,
>)
    ensures
        match r {
            Some(v) => resolve_relative_spec(parts_view(path@), parts_view(dir@)) == Some(
                parts_view(v@),
            ),
            None => resolve_relative_spec(parts_view(path@), parts_view(dir@)) is None,
        },
{
    let first_cef = normal_is(path, 0, "cef");
    if first_cef && normal_is(path, 1, "assets") {
        let rest = copy_parts(path, 2, path.len());
        proof {
            assert(parts_view(path@).subrange(2, path@.len() as int) =~= parts_view(path@).skip(2));
        }
        Some(join(dir, &rest))
    } else if first_cef {
        None
    } else {
        Some(join(dir, path))
    }
}

pub open spec fn opt_text(o: Option<Seq<char>>) -> Option<Seq<char>> {
    o
}

/// A local path input read as query, fragment and absolute or
/// assets-relative path; `None` for a URL or a refused relative path.
pub open spec fn local_path_input_spec(v: Seq<char>, dir: Seq<Part>) -> Option<
    (Option<Seq<char>>, Option<Seq<char>>, Seq<Part>),
> {
    if has_url_scheme_spec(v) {
        None
    } else {
        let (path_part, q, f) = split_local_suffix_spec(v);
        let p = split_path_spec(path_part);
        if is_absolute(p) {
            Some((q, f, p))
        } else {
            match resolve_relative_spec(p, dir) {
                Some(r) => Some((q, f, r)),
                None => None,
            }
        }
    }
}

/// Reads `value` as a local path with optional query and fragment.
pub fn parse_local_path_input(value: &str, dir: &Vec<PathPart>) -> (r: Option<
    (Option<String>, Option<String>, Vec<PathPart>),
>)
    ensures
        match r {
            Some((q, f, p)) => local_path_input_spec(value@, parts_view(dir@)) == Some(
                (opt_view(q), opt_view(f), parts_view(p@)),
            ),
            None => local_path_input_spec(value@, parts_view(dir@)) is None,
        },
{
    if has_url_scheme(value) {
        return None;
    }
    let (path_part, query, fragment) = split_local_suffix(value);
    let path = split_path(path_part.as_str());
    if parts_have_prefix(&path) && parts_have_root(&path) {
        Some((query, fragment, path))
    } else {
        match resolve_relative_local_path(&path, dir) {
            Some(r) => Some((query, fragment, r)),
            None => None,
        }
    }
}

} // verus!

verus! {

/// Where the browser is to go.
pub enum BrowserTarget {
    /// A URL to load as it stands.
    Url(String),
    /// A local file, lexically normalised, that must be found under the assets
    /// root before it can be loaded through the asset scheme.
    LocalFile { path: Vec<PathPart>, query: Option<String>, fragment: Option<String> },
}

pub enum TargetView {
    Url(Seq<char>),
    LocalFile(Seq<Part>, Option<Seq<char>>, Option<Seq<char>>),
}

impl View for BrowserTarget {
    type V = TargetView;

    open spec fn view(&self) -> TargetView {
        match self {
            BrowserTarget::Url(u) => TargetView::Url(u@),
            BrowserTarget::LocalFile { path, query, fragment } => TargetView::LocalFile(
                parts_view(path@),
                opt_view(*query),
                opt_view(*fragment),
            ),
        }
    }
}

/// The page shown when nothing else may be.
pub open spec fn blank_url() -> Seq<char> {
    "about:blank"@
}

/// The base of every URL served from the assets directory.
pub open spec fn asset_base_url() -> Seq<char> {
    "sampcef://assets/"@
}

/// A local file target: its normalised path, or the blank page when the path
/// climbs above its root.
pub open spec fn local_target(p: Seq<Part>, q: Option<Seq<char>>, f: Option<Seq<char>>) -> TargetView {
    match normalize_spec(p) {
        Some(n) => TargetView::LocalFile(n, q, f),
        None => TargetView::Url(blank_url()),
    }
}

/// `v` parses as a URL of the asset scheme and host.
pub open spec fn is_asset_url_spec(v: Seq<char>) -> bool {
    url_parse(v) matches Some(u) && u.0 == "sampcef"@ && u.1 == Some("assets"@)
}

/// Where the trimmed input `v` leads, given what reading it as a `file:` URL
/// gave (`file`): an empty input leads to the blank page; a file URL or a
/// local path to a local file; a URL of the asset scheme or with any scheme
/// is kept; anything else leads to the blank page.
pub open spec fn plan_spec(
    v: Seq<char>,
    dir: Seq<Part>,
    file: Option<(Seq<char>, Option<Seq<char>>, Option<Seq<char>>)>,
) -> TargetView {
    if v.len() == 0 {
        TargetView::Url(blank_url())
    } else {
        match file {
            Some((p, q, f)) => local_target(split_path_spec(p), q, f),
            None => match local_path_input_spec(v, dir) {
                Some((q, f, p)) => local_target(p, q, f),
                None => if is_asset_url_spec(v) || has_url_scheme_spec(v) {
                    TargetView::Url(v)
                } else {
                    TargetView::Url(blank_url())
                },
            },
        }
    }
}

/// What reading `v` as a `file:` URL may give: nothing unless it parses with
/// the `file` scheme, and then the URL's own query and fragment.
pub open spec fn file_url_consistent(
    v: Seq<char>,
    file: Option<(Seq<char>, Option<Seq<char>>, Option<Seq<char>>)>,
) -> bool {
    match file {
        Some((_, q, f)) => url_parse(v) matches Some(u) && u.0 == "file"@ && q == u.3 && f == u.4,
        None => true,
    }
}

pub open spec fn file_view(file: Option<(String, Option<String>, Option<String>)>) -> Option<
    (Seq<char>, Option<Seq<char>>, Option<Seq<char>>),
> {
    match file {
        Some((p, q, f)) => Some((p@, opt_view(q), opt_view(f))),
        None => None,
    }
}

fn opt_string_clone(o: &Option<String>) -> (r: Option<String>)
    ensures
        opt_view(r) == opt_view(*o),
{
    match o {
        Some(s) => Some(s.clone()),
        None => None,
    }
}

/// Reads `value` as a `file:` URL: its local path, query and fragment.
pub fn parse_file_url(value: &str) -> (r: Option<(String, Option<String>, Option<String>)>)
    ensures
        file_url_consistent(value@, file_view(r)),
        (url_parse(value@) matches Some(u) && u.0 == "file"@) || r is None,
{
    let u = match parse_url(value) {
        Some(u) => u,
        None => {
            return None;
        },
    };
    if !str_eq(u.scheme.as_str(), "file") {
        return None;
    }
    let path = match file_url_path(value) {
        Some(p) => p,
        None => {
            return None;
        },
    };
    Some((path, opt_string_clone(&u.query), opt_string_clone(&u.fragment)))
}

/// Whether `value` is a URL of the asset scheme and host.
pub fn is_valid_asset_url(value: &str) -> (b: bool)
    ensures
        b == is_asset_url_spec(value@),
{
    match parse_url(value) {
        Some(u) => {
            let scheme_ok = str_eq(u.scheme.as_str(), "sampcef");
            let host_ok = match &u.host {
                Some(h) => str_eq(h.as_str(), "assets"),
                None => false,
            };
            scheme_ok && host_ok
        },
        None => false,
    }
}

fn blank() -> (s: String)
    ensures
        s@ == blank_url(),
{
    "about:blank".to_owned()
}

fn to_local_target(p: Vec<PathPart>, q: Option<String>, f: Option<String>) -> (t: BrowserTarget)
    ensures
        t@ == local_target(parts_view(p@), opt_view(q), opt_view(f)),
{
    match normalize_path(&p) {
        Some(n) => BrowserTarget::LocalFile { path: n, query: q, fragment: f },
        None => BrowserTarget::Url(blank()),
    }
}

/// Decides where the (trimmed) input leads, given what reading it as a
/// `file:` URL gave.
pub fn plan_browser_url(
    value: &str,
    dir: &Vec<PathPart>,
    file: Option<(String, Option<String>, Option<String>)>,
) -> (t: BrowserTarget)
    ensures
        t@ == plan_spec(
            value@,
            parts_view(dir@),
            file_view(file),
        ),
{
    if value.unicode_len() == 0 {
        return BrowserTarget::Url(blank());
    }
    match file {
        Some((p, q, f)) => to_local_target(split_path(p.as_str()), q, f),
        None => match parse_local_path_input(value, dir) {
            Some((q, f, p)) => to_local_target(p, q, f),
            None => {
                if is_valid_asset_url(value) || has_url_scheme(value) {
                    BrowserTarget::Url(value.to_owned())
                } else {
                    BrowserTarget::Url(blank())
                }
            },
        },
    }
}

/// Decides where the browser's start value leads. A local file has still to be
/// secured under the assets root (see `finish_browser_url`).
pub fn resolve_browser_url(value: &str, assets_dir: &str) -> (t: BrowserTarget)
    ensures
        exists|file: Option<(Seq<char>, Option<Seq<char>>, Option<Seq<char>>)>|
            file_url_consistent(trim_spec(value@), file) && t@ == plan_spec(
                trim_spec(value@),
                split_path_spec(assets_dir@),
                file,
            ),
{
    let v = trim(value);
    let dir = split_path(assets_dir);
    let file = if v.unicode_len() == 0 {
        None
    } else {
        parse_file_url(v)
    };
    let ghost fv = file_view(file);
    let t = plan_browser_url(v, &dir, file);
    assert(file_url_consistent(trim_spec(value@), fv));
    t
}

/// A browser is sent to the blank page, to the (trimmed) input itself when
/// that is a URL with a scheme or of the asset scheme, or to a local file
/// (which `finish_browser_url` turns into an asset URL below the assets root,
/// or the blank page).
pub proof fn law_browser_url_targets(
    v: Seq<char>,
    dir: Seq<Part>,
    file: Option<(Seq<char>, Option<Seq<char>>, Option<Seq<char>>)>,
)
    ensures
        plan_spec(v, dir, file) matches TargetView::Url(x) ==> x == blank_url() || (x == v && v.len() > 0
            && (is_asset_url_spec(v) || has_url_scheme_spec(v))),
        v.len() == 0 ==> plan_spec(v, dir, file) == TargetView::Url(blank_url()),
{
}

/// The names among the components `p`, in order.
pub open spec fn normal_names(p: Seq<Part>) -> Seq<Seq<char>>
    decreases p.len(),
{
    if p.len() == 0 {
        seq![]
    } else {
        let prev = normal_names(p.drop_last());
        match p.last() {
            Part::Normal(s) => prev.push(s),
            _ => prev,
        }
    }
}

/// The URL a target finally loads, given the canonical assets root and the
/// canonical form of the local file (each `None` when it could not be had):
/// a local file inside the root becomes an asset-scheme URL of its path below
/// the root; a file outside it, or one that could not be resolved, the blank page.
pub open spec fn finish_spec(t: TargetView, root: Option<Seq<char>>, secured: Option<Seq<char>>) -> Seq<
    char,
> {
    match t {
        TargetView::Url(u) => u,
        TargetView::LocalFile(_, q, f) => match (root, secured) {
            (Some(r), Some(s)) => match strip_prefix_spec(split_path_spec(s), split_path_spec(r)) {
                Some(rel) => match url_with_segments(asset_base_url(), normal_names(rel), q, f) {
                    Some(u) => u,
                    None => blank_url(),
                },
                None => blank_url(),
            },
            _ => blank_url(),
        },
    }
}

fn names_of(p: &Vec<PathPart>) -> (r: Vec<String>)
    ensures
        strings_view(r@) == normal_names(parts_view(p@)),
{
    let mut r: Vec<String> = Vec::new();
    let mut i: usize = 0;
    while i < p.len()
        invariant
            i <= p@.len(),
            strings_view(r@) == normal_names(parts_view(p@).take(i as int)),
        decreases p@.len() - i,
    {
        proof {
            assert(parts_view(p@).take(i + 1).drop_last() =~= parts_view(p@).take(i as int));
            assert(parts_view(p@).take(i + 1).last() == p@[i as int]@);
        }
        match &p[i] {
            PathPart::Normal(s) => {
                let ghost before = strings_view(r@);
                r.push(s.clone());
                proof {
                    assert(strings_view(r@) =~= before.push(s@));
                }
            },
            _ => {},
        }
        i = i + 1;
    }
    proof {
        assert(parts_view(p@).take(p@.len() as int) =~= parts_view(p@));
    }
    r
}

fn opt_as_str(o: &Option<String>) -> (r: Option<&str>)
    ensures
        match r {
            Some(s) => opt_view(*o) == Some(s@),
            None => o is None,
        },
{
    match o {
        Some(s) => Some(s.as_str()),
        None => None,
    }
}

/// The URL the browser finally loads for `target`, given the canonical
/// assets root and the canonical form of the local file.
pub fn finish_browser_url(target: &BrowserTarget, root: Option<&str>, secured: Option<&str>) -> (u:
    String)
    ensures
        u@ == finish_spec(
            target@,
            match root { Some(r) => Some(r@), None => None },
            match secured { Some(s) => Some(s@), None => None },
        ),
        target@ is LocalFile ==> u@ == blank_url() || (starts_with(u@, asset_base_url()) && secure_spec(
            match root { Some(r) => Some(r@), None => None },
            match secured { Some(s) => Some(s@), None => None },
        )),
{
    match target {
        BrowserTarget::Url(u) => u.clone(),
        BrowserTarget::LocalFile { path: _, query, fragment } => match (root, secured) {
            (Some(r), Some(s)) => {
                let rp = split_path(r);
                let sp = split_path(s);
                match strip_prefix(&sp, &rp) {
                    Some(rel) => {
                        let names = names_of(&rel);
                        let base = "sampcef://assets/";
                        let qs = opt_as_str(query);
                        let fs = opt_as_str(fragment);
                        let built = build_url(base, &names, qs, fs);
                        proof {
                            assert(match qs { Some(q) => Some(q@), None => None } == opt_view(*query));
                            assert(match fs { Some(f) => Some(f@), None => None } == opt_view(*fragment));
                        }
                        match built {
                            Some(u) => u,
                            None => blank(),
                        }
                    },
                    None => blank(),
                }
            },
            _ => blank(),
        },
    }
}

} // verus!

verus! {

/// The extension of the file that `p` names, if any.
pub open spec fn path_extension(p: Seq<Part>) -> Option<Seq<char>> {
    match file_name_spec(p) {
        Some(n) => extension_spec(n),
        None => None,
    }
}

/// The media type served for a file with extension `ext` (compared without
/// regard to ASCII case).
pub open spec fn mime_spec(ext: Option<Seq<char>>) -> Seq<char> {
    match ext {
        Some(e) => if eq_ignore_ascii_case(e, "css"@) {
            "text/css; charset=utf-8"@
        } else if eq_ignore_ascii_case(e, "csv"@) {
            "text/csv; charset=utf-8"@
        } else if eq_ignore_ascii_case(e, "gif"@) {
            "image/gif"@
        } else if eq_ignore_ascii_case(e, "htm"@) || eq_ignore_ascii_case(e, "html"@) {
            "text/html; charset=utf-8"@
        } else if eq_ignore_ascii_case(e, "jpeg"@) || eq_ignore_ascii_case(e, "jpg"@) {
            "image/jpeg"@
        } else if eq_ignore_ascii_case(e, "js"@) || eq_ignore_ascii_case(e, "mjs"@) {
            "text/javascript; charset=utf-8"@
        } else if eq_ignore_ascii_case(e, "json"@) {
            "application/json; charset=utf-8"@
        } else if eq_ignore_ascii_case(e, "mp3"@) {
            "audio/mpeg"@
        } else if eq_ignore_ascii_case(e, "ogg"@) {
            "audio/ogg"@
        } else if eq_ignore_ascii_case(e, "png"@) {
            "image/png"@
        } else if eq_ignore_ascii_case(e, "svg"@) {
            "image/svg+xml"@
        } else if eq_ignore_ascii_case(e, "txt"@) {
            "text/plain; charset=utf-8"@
        } else if eq_ignore_ascii_case(e, "wasm"@) {
            "application/wasm"@
        } else if eq_ignore_ascii_case(e, "webm"@) {
            "video/webm"@
        } else if eq_ignore_ascii_case(e, "webp"@) {
            "image/webp"@
        } else if eq_ignore_ascii_case(e, "woff"@) {
            "font/woff"@
        } else if eq_ignore_ascii_case(e, "woff2"@) {
            "font/woff2"@
        } else if eq_ignore_ascii_case(e, "xml"@) {
            "application/xml; charset=utf-8"@
        } else {
            "application/octet-stream"@
        },
        None => "application/octet-stream"@,
    }
}

fn mime_for_extension(e: &str) -> (m: &'static str)
    ensures
        m@ == mime_spec(Some(e@)),
{
    if str_eq_ignore_ascii_case(e, "css") {
        "text/css; charset=utf-8"
    } else if str_eq_ignore_ascii_case(e, "csv") {
        "text/csv; charset=utf-8"
    } else if str_eq_ignore_ascii_case(e, "gif") {
        "image/gif"
    } else if str_eq_ignore_ascii_case(e, "htm") || str_eq_ignore_ascii_case(e, "html") {
        "text/html; charset=utf-8"
    } else if str_eq_ignore_ascii_case(e, "jpeg") || str_eq_ignore_ascii_case(e, "jpg") {
        "image/jpeg"
    } else if str_eq_ignore_ascii_case(e, "js") || str_eq_ignore_ascii_case(e, "mjs") {
        "text/javascript; charset=utf-8"
    } else if str_eq_ignore_ascii_case(e, "json") {
        "application/json; charset=utf-8"
    } else if str_eq_ignore_ascii_case(e, "mp3") {
        "audio/mpeg"
    } else if str_eq_ignore_ascii_case(e, "ogg") {
        "audio/ogg"
    } else if str_eq_ignore_ascii_case(e, "png") {
        "image/png"
    } else if str_eq_ignore_ascii_case(e, "svg") {
        "image/svg+xml"
    } else if str_eq_ignore_ascii_case(e, "txt") {
        "text/plain; charset=utf-8"
    } else if str_eq_ignore_ascii_case(e, "wasm") {
        "application/wasm"
    } else if str_eq_ignore_ascii_case(e, "webm") {
        "video/webm"
    } else if str_eq_ignore_ascii_case(e, "webp") {
        "image/webp"
    } else if str_eq_ignore_ascii_case(e, "woff") {
        "font/woff"
    } else if str_eq_ignore_ascii_case(e, "woff2") {
        "font/woff2"
    } else if str_eq_ignore_ascii_case(e, "xml") {
        "application/xml; charset=utf-8"
    } else {
        "application/octet-stream"
    }
}

/// The media type to serve the file at `path` with, chosen by its extension.
pub fn mime_type_for_path(path: &str) -> (m: &'static str)
    ensures
        m@ == mime_spec(path_extension(split_path_spec(path@))),
{
    let parts = split_path(path);
    match file_extension(&parts) {
        Some(e) => mime_for_extension(e.as_str()),
        None => "application/octet-stream",
    }
}

/// The relative path that the segments of a request name: each is
/// percent-decoded and pushed onto the path; `.` is skipped; `..`, or a
/// segment that does not decode, refuses the request.
pub open spec fn request_relative(segs: Seq<Seq<char>>) -> Option<Seq<Part>>
    decreases segs.len(),
{
    if segs.len() == 0 {
        Some(seq![])
    } else {
        match request_relative(segs.drop_last()) {
            None => None,
            Some(acc) => match percent_decode_utf8(segs.last()) {
                None => None,
                Some(d) => if d == seq!['.'] {
                    Some(acc)
                } else if d == seq!['.', '.'] {
                    None
                } else {
                    Some(join_spec(acc, split_path_spec(d)))
                },
            },
        }
    }
}

/// The file a request URL asks for, below the assets directory `dir` and
/// normalised: only the asset scheme and host are served, and a path that
/// names no file or ends in `/` names its `index.html`.
pub open spec fn request_path_spec(
    u: (Seq<char>, Option<Seq<char>>, Seq<char>, Option<Seq<char>>, Option<Seq<char>>),
    dir: Seq<Part>,
) -> Option<Seq<Part>> {
    if u.0 != "sampcef"@ || u.1 != Some("assets"@) {
        None
    } else {
        match request_relative(words(u.2, Seps::Slash)) {
            None => None,
            Some(rel) => {
                let full = if rel.len() == 0 || (u.2.len() > 0 && u.2.last() == '/') {
                    join_spec(rel, seq![Part::Normal("index.html"@)])
                } else {
                    rel
                };
                normalize_spec(join_spec(dir, full))
            },
        }
    }
}

fn is_exact(s: &String, c: char, n: usize) -> (b: bool)
    requires
        n == 1 || n == 2,
    ensures
        b == (s@ == (if n == 1 { seq![c] } else { seq![c, c] })),
{
    let len = s.as_str().unicode_len();
    let r = len == n && s.as_str().get_char(0) == c && (n == 1 || s.as_str().get_char(1) == c);
    proof {
        let t = if n == 1 { seq![c] } else { seq![c, c] };
        if r {
            assert(s@ =~= t);
        }
        if s@ == t {
            assert(s@[0] == c);
        }
    }
    r
}

/// The file that a request to the asset scheme asks for, below the assets
/// directory `dir` and normalised. It must still be checked to stay inside
/// the assets root once resolved on disk (see `secure_asset_path`).
pub fn resolve_asset_request_path(url: &UrlParts, dir: &Vec<PathPart>) -> (r: Option<Vec<PathPart>>)
    ensures
        match r {
            Some(p) => request_path_spec(url@, parts_view(dir@)) == Some(parts_view(p@)),
            None => request_path_spec(url@, parts_view(dir@)) is None,
        },
{
    let host_ok = match &url.host {
        Some(h) => str_eq(h.as_str(), "assets"),
        None => false,
    };
    if !str_eq(url.scheme.as_str(), "sampcef") || !host_ok {
        return None;
    }
    let segs = split_words(url.path.as_str(), Seps::Slash);
    let ghost sv = strings_view(segs@);
    let mut rel: Vec<PathPart> = Vec::new();
    let mut i: usize = 0;
    while i < segs.len()
        invariant
            sv == strings_view(segs@),
            sv == words(url@.2, Seps::Slash),
            url@.0 == "sampcef"@ && url@.1 == Some("assets"@),
            i <= segs@.len(),
            request_relative(sv.take(i as int)) == Some(parts_view(rel@)),
        decreases segs@.len() - i,
    {
        proof {
            assert(sv.take(i + 1).drop_last() =~= sv.take(i as int));
            assert(sv.take(i + 1).last() == segs@[i as int]@);
        }
        let decoded = match decode_segment(segs[i].as_str()) {
            Some(d) => d,
            None => {
                proof {
                    lemma_request_relative_none_stays(sv, i as int + 1);
                    assert(sv.take(sv.len() as int) =~= sv);
                }
                return None;
            },
        };
        if is_exact(&decoded, '.', 1) {
        } else if is_exact(&decoded, '.', 2) {
            proof {
                lemma_request_relative_none_stays(sv, i as int + 1);
                assert(sv.take(sv.len() as int) =~= sv);
            }
            return None;
        } else {
            let pushed = split_path(decoded.as_str());
            rel = join(&rel, &pushed);
        }
        i = i + 1;
    }
    proof {
        assert(sv.take(sv.len() as int) =~= sv);
    }
    let full = if rel.len() == 0 || ends_with_char(url.path.as_str(), '/') {
        let mut index: Vec<PathPart> = Vec::new();
        index.push(PathPart::Normal("index.html".to_owned()));
        proof {
            assert(parts_view(index@) =~= seq![Part::Normal("index.html"@)]);
        }
        join(&rel, &index)
    } else {
        rel
    };
    let candidate = join(dir, &full);
    normalize_path(&candidate)
}

/// Once a request is refused for a prefix of its segments, it is refused.
pub proof fn lemma_request_relative_none_stays(segs: Seq<Seq<char>>, k: int)
    requires
        0 <= k <= segs.len(),
        request_relative(segs.take(k)) is None,
    ensures
        request_relative(segs) is None,
    decreases segs.len() - k,
{
    if k < segs.len() {
        assert(segs.take(k + 1).drop_last() =~= segs.take(k));
        lemma_request_relative_none_stays(segs, k + 1);
    } else {
        assert(segs.take(k) =~= segs);
    }
}

/// A resolved file is served only when both it and the assets root could be
/// resolved on disk and the file lies inside the root.
pub open spec fn secure_spec(root: Option<Seq<char>>, secured: Option<Seq<char>>) -> bool {
    match (root, secured) {
        (Some(r), Some(s)) => strip_prefix_spec(split_path_spec(s), split_path_spec(r)) is Some,
        _ => false,
    }
}

/// Whether the canonical file `secured` lies inside the canonical assets `root`.
pub fn secure_asset_path(root: Option<&str>, secured: Option<&str>) -> (b: bool)
    ensures
        b == secure_spec(
            match root { Some(r) => Some(r@), None => None },
            match secured { Some(s) => Some(s@), None => None },
        ),
{
    match (root, secured) {
        (Some(r), Some(s)) => {
            let rp = split_path(r);
            let sp = split_path(s);
            strip_prefix(&sp, &rp).is_some()
        },
        _ => false,
    }
}

} // verus!
