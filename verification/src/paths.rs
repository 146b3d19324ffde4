//! Local paths as sequences of components, read with the Windows
//! conventions of the game: `/` and `\` both separate, a prefix (a drive such
//! as `C:`, a share `\\server\share`, a device `\\.\COM1` or a verbatim
//! `\\?\` path) may lead, and a separator right after it (or at the start)
//! roots the path.
use vstd::prelude::*;

verus! {

/// One component of a local path.
pub enum PathPart {
    /// A prefix: a drive such as `C:`, a share, a device or a verbatim prefix, as written.
    Prefix(String),
    /// The root separator.
    RootDir,
    /// A leading `.`.
    CurDir,
    /// A `..`.
    ParentDir,
    /// Any other name.
    Normal(String),
}

/// What a path component stands for.
pub enum Part {
    Prefix(Seq<char>),
    RootDir,
    CurDir,
    ParentDir,
    Normal(Seq<char>),
}

impl View for PathPart {
    type V = Part;

    open spec fn view(&self) -> Part {
        match self {
            PathPart::Prefix(s) => Part::Prefix(s@),
            PathPart::RootDir => Part::RootDir,
            PathPart::CurDir => Part::CurDir,
            PathPart::ParentDir => Part::ParentDir,
            PathPart::Normal(s) => Part::Normal(s@),
        }
    }
}

/// The components that a vector of parts stands for.
pub open spec fn parts_view(v: Seq<PathPart>) -> Seq<Part> {
    v.map_values(|p: PathPart| p@)
}

pub open spec fn is_sep(c: char) -> bool {
    c == '/' || c == '\\'
}

/// Which characters separate the words of a text.
#[derive(Clone, Copy)]
pub enum Seps {
    /// Both `/` and `\\`.
    Any,
    /// `/` alone, as in the path of a URL.
    Slash,
    /// `\\` alone, as in a verbatim Windows path.
    Backslash,
}

pub open spec fn is_sep_in(c: char, m: Seps) -> bool {
    match m {
        Seps::Any => c == '/' || c == '\\',
        Seps::Slash => c == '/',
        Seps::Backslash => c == '\\',
    }
}

pub open spec fn is_ascii_alpha(c: char) -> bool {
    ('a' <= c && c <= 'z') || ('A' <= c && c <= 'Z')
}

/// `s` starts with a drive prefix: an ASCII letter and a colon.
pub open spec fn has_drive(s: Seq<char>) -> bool {
    s.len() >= 2 && is_ascii_alpha(s[0]) && s[1] == ':'
}

/// The finished words of `s` and the word still open at its end.
pub open spec fn words_acc(s: Seq<char>, m: Seps) -> (Seq<Seq<char>>, Seq<char>)
    decreases s.len(),
{
    if s.len() == 0 {
        (seq![], seq![])
    } else {
        let (ws, cur) = words_acc(s.drop_last(), m);
        if is_sep_in(s.last(), m) {
            (if cur.len() > 0 { ws.push(cur) } else { ws }, seq![])
        } else {
            (ws, cur.push(s.last()))
        }
    }
}

/// The maximal runs of non-separator characters of `s`, in order.
pub open spec fn words(s: Seq<char>, m: Seps) -> Seq<Seq<char>> {
    let (ws, cur) = words_acc(s, m);
    if cur.len() > 0 {
        ws.push(cur)
    } else {
        ws
    }
}

pub open spec fn word_part(w: Seq<char>) -> Part {
    if w == seq!['.', '.'] {
        Part::ParentDir
    } else if w == seq!['.'] {
        Part::CurDir
    } else {
        Part::Normal(w)
    }
}

/// The components named by the words `ws`: outside verbatim paths a `.`
/// stands only as the very first component of a relative path (`keep_first`)
/// and is dropped elsewhere; a verbatim path keeps every `.`.
pub open spec fn body_parts(ws: Seq<Seq<char>>, verbatim: bool, keep_first: bool) -> Seq<Part>
    decreases ws.len(),
{
    if ws.len() == 0 {
        seq![]
    } else {
        let prev = body_parts(ws.drop_last(), verbatim, keep_first);
        let w = ws.last();
        if w == seq!['.'] && !verbatim && !(ws.len() == 1 && keep_first) {
            prev
        } else {
            prev.push(word_part(w))
        }
    }
}

/// What a path prefix names, as paths compare it: a drive letter without its
/// case, the other names exactly as written.
pub enum PrefixKey {
    /// `\\?\name`
    Verbatim(Seq<char>),
    /// `\\?\UNC\server\share`
    VerbatimUNC(Seq<char>, Seq<char>),
    /// `\\?\C:`
    VerbatimDisk(char),
    /// `\\.\device`
    DeviceNS(Seq<char>),
    /// `\\server\share`
    UNC(Seq<char>, Seq<char>),
    /// `C:`
    Disk(char),
}

pub open spec fn ascii_upper(c: char) -> char {
    if 'a' <= c && c <= 'z' {
        ((c as u32) - 32) as char
    } else {
        c
    }
}

/// The position of the first separator of `s`, if any.
pub open spec fn first_sep(s: Seq<char>, m: Seps) -> Option<int>
    decreases s.len(),
{
    if s.len() == 0 {
        None
    } else if is_sep_in(s[0], m) {
        Some(0)
    } else {
        match first_sep(s.skip(1), m) {
            Some(k) => Some(k + 1),
            None => None,
        }
    }
}

/// The text of `s` up to its first separator, and what follows that separator.
pub open spec fn next_comp(s: Seq<char>, m: Seps) -> (Seq<char>, Seq<char>) {
    match first_sep(s, m) {
        Some(k) => (s.take(k), s.skip(k + 1)),
        None => (s, seq![]),
    }
}

/// The first two separated names of `s`.
pub open spec fn two_comps(s: Seq<char>, m: Seps) -> (Seq<char>, Seq<char>) {
    (next_comp(s, m).0, next_comp(next_comp(s, m).1, m).0)
}

/// The length of `a`, a separator and `b`, or of `a` alone when `b` is empty.
pub open spec fn pair_len(a: Seq<char>, b: Seq<char>) -> int {
    a.len() + if b.len() > 0 {
        1 + b.len() as int
    } else {
        0int
    }
}

/// `s` starts with `\\?\`, written with backslashes only.
pub open spec fn is_verbatim_start(s: Seq<char>) -> bool {
    s.len() >= 4 && s[0] == '\\' && s[1] == '\\' && s[2] == '?' && s[3] == '\\'
}

/// The prefix that `s` starts with, and its length.
pub open spec fn parse_prefix_spec(s: Seq<char>) -> Option<(PrefixKey, int)> {
    if s.len() >= 2 && is_sep(s[0]) && is_sep(s[1]) {
        if is_verbatim_start(s) {
            if s.len() >= 8 && s[4] == 'U' && s[5] == 'N' && s[6] == 'C' && is_sep(s[7]) {
                let (server, share) = two_comps(s.skip(8), Seps::Backslash);
                Some((PrefixKey::VerbatimUNC(server, share), 8 + pair_len(server, share)))
            } else if has_drive(s.skip(4)) && (s.len() == 6 || is_sep(s[6])) {
                Some((PrefixKey::VerbatimDisk(ascii_upper(s[4])), 6))
            } else {
                let name = next_comp(s.skip(4), Seps::Backslash).0;
                Some((PrefixKey::Verbatim(name), 4 + name.len() as int))
            }
        } else if s.len() >= 4 && s[2] == '.' && is_sep(s[3]) {
            let name = next_comp(s.skip(4), Seps::Any).0;
            Some((PrefixKey::DeviceNS(name), 4 + name.len() as int))
        } else {
            let (server, share) = two_comps(s.skip(2), Seps::Any);
            if server.len() > 0 && share.len() > 0 {
                Some((PrefixKey::UNC(server, share), 2 + pair_len(server, share)))
            } else {
                None
            }
        }
    } else if has_drive(s) {
        Some((PrefixKey::Disk(ascii_upper(s[0])), 2))
    } else {
        None
    }
}

pub open spec fn is_verbatim_key(k: PrefixKey) -> bool {
    k is Verbatim || k is VerbatimUNC || k is VerbatimDisk
}

/// What the text of a prefix component names.
pub open spec fn prefix_key(raw: Seq<char>) -> Option<PrefixKey> {
    match parse_prefix_spec(raw) {
        Some((k, _)) => Some(k),
        None => None,
    }
}

/// A prefix other than a bare drive roots its path by itself.
pub open spec fn roots_by_itself(raw: Seq<char>) -> bool {
    prefix_key(raw) matches Some(k) && !(k is Disk)
}

pub open spec fn is_verbatim_prefix(raw: Seq<char>) -> bool {
    prefix_key(raw) matches Some(k) && is_verbatim_key(k)
}

pub open spec fn body_seps(verbatim: bool) -> Seps {
    if verbatim {
        Seps::Backslash
    } else {
        Seps::Any
    }
}

/// The components of the path written as `s`. After a prefix, a separator
/// roots the path, and a share or a device is rooted even without one; the
/// rest is split into names, on `\` alone after a verbatim prefix.
pub open spec fn split_path_spec(s: Seq<char>) -> Seq<Part> {
    match parse_prefix_spec(s) {
        Some((k, n)) => {
            let rest = s.skip(n);
            let verbatim = is_verbatim_key(k);
            let physical = rest.len() > 0 && is_sep(rest[0]);
            let body = if physical {
                rest.skip(1)
            } else {
                rest
            };
            seq![Part::Prefix(s.take(n))] + (if physical || k is UNC || k is DeviceNS {
                seq![Part::RootDir]
            } else {
                seq![]
            }) + body_parts(words(body, body_seps(verbatim)), verbatim, false)
        },
        None => {
            let rooted = s.len() > 0 && is_sep(s[0]);
            (if rooted {
                seq![Part::RootDir]
            } else {
                seq![]
            }) + body_parts(words(s, Seps::Any), false, !rooted)
        },
    }
}

pub open spec fn has_prefix(p: Seq<Part>) -> bool {
    p.len() > 0 && p[0] is Prefix
}

pub open spec fn has_root(p: Seq<Part>) -> bool {
    (p.len() > 0 && p[0] is RootDir) || (p.len() > 0 && (p[0] matches Part::Prefix(raw) && (
    roots_by_itself(raw) || (p.len() > 1 && p[1] is RootDir))))
}

/// A path that names one place whatever the current drive and directory.
pub open spec fn is_absolute(p: Seq<Part>) -> bool {
    has_prefix(p) && has_root(p)
}

/// The path starts with a verbatim prefix.
pub open spec fn is_verbatim_path(p: Seq<Part>) -> bool {
    p.len() > 0 && (p[0] matches Part::Prefix(raw) && is_verbatim_prefix(raw))
}

/// One component pushed onto a verbatim path: `.` is dropped, `..` removes
/// the name before it (if there is one), the root keeps only the prefix.
pub open spec fn verbatim_step(buf: Seq<Part>, c: Part) -> Seq<Part> {
    match c {
        Part::RootDir => buf.take(1).push(Part::RootDir),
        Part::CurDir => buf,
        Part::ParentDir => if buf.len() > 0 && buf.last() is Normal {
            buf.drop_last()
        } else {
            buf
        },
        _ => buf.push(c),
    }
}

pub open spec fn verbatim_steps(buf: Seq<Part>, p: Seq<Part>) -> Seq<Part>
    decreases p.len(),
{
    if p.len() == 0 {
        buf
    } else {
        verbatim_step(verbatim_steps(buf, p.drop_last()), p.last())
    }
}

/// `base` extended by `p`: a path with a prefix replaces `base`; onto a
/// verbatim `base` the components of `p` are pushed one by one and the text
/// is read again; a rooted `p` keeps only the prefix of `base`; any other is
/// appended, its leading `.` dropped after a non-empty `base`.
pub open spec fn join_spec(base: Seq<Part>, p: Seq<Part>) -> Seq<Part> {
    if has_prefix(p) {
        p
    } else if p.len() > 0 && is_verbatim_path(base) {
        split_path_spec(render_spec(verbatim_steps(base, p)))
    } else if has_root(p) {
        (if has_prefix(base) {
            base.take(1)
        } else {
            seq![]
        }) + p
    } else if base.len() > 0 && p.len() > 0 && p[0] is CurDir {
        base + p.skip(1)
    } else {
        base + p
    }
}

/// A name that, written on its own, reads back as just that name.
pub open spec fn reads_as_name(w: Seq<char>) -> bool {
    split_path_spec(w) == seq![Part::Normal(w)]
}

/// Every name of `p` reads back as itself.
pub open spec fn plain_names(p: Seq<Part>) -> bool {
    forall|i: int| 0 <= i < p.len() ==> (#[trigger] p[i] matches Part::Normal(w) ==> reads_as_name(w))
}

/// `..` can step back over the last component of `a`: there is one, and it
/// is neither a prefix nor the root.
pub open spec fn can_pop(a: Seq<Part>) -> bool {
    a.len() > 0 && !(a.last() is Prefix) && !(a.last() is RootDir)
}

/// One step of lexical normalisation: `.` is dropped and `..` removes the
/// component before it; a `..` with only a prefix or root before it fails. A name is pushed as
/// a path of its own, so one that reads as more than a name (a drive, or a
/// `/` inside a verbatim path) is joined as that path.
pub open spec fn norm_step(acc: Option<Seq<Part>>, part: Part) -> Option<Seq<Part>> {
    match acc {
        None => None,
        Some(a) => match part {
            Part::CurDir => Some(a),
            Part::ParentDir => if can_pop(a) {
                Some(a.drop_last())
            } else {
                None
            },
            Part::Normal(w) => if reads_as_name(w) {
                Some(a.push(part))
            } else {
                Some(join_spec(a, split_path_spec(w)))
            },
            _ => Some(a.push(part)),
        },
    }
}

/// The lexically normalised form of `p`, if every `..` has something to step back over.
pub open spec fn normalize_spec(p: Seq<Part>) -> Option<Seq<Part>>
    decreases p.len(),
{
    if p.len() == 0 {
        Some(seq![])
    } else {
        norm_step(normalize_spec(p.drop_last()), p.last())
    }
}

pub open spec fn ascii_lower(c: char) -> char {
    if 'A' <= c && c <= 'Z' {
        ((c as u32) + 32) as char
    } else {
        c
    }
}

/// Equality of two strings up to the case of ASCII letters.
pub open spec fn eq_ignore_ascii_case(a: Seq<char>, b: Seq<char>) -> bool {
    a.len() == b.len() && forall|i: int| 0 <= i < a.len() ==> ascii_lower(a[i]) == ascii_lower(b[i])
}

/// Two prefixes are the same when they name the same thing.
pub open spec fn prefix_same(x: Seq<char>, y: Seq<char>) -> bool {
    match (prefix_key(x), prefix_key(y)) {
        (Some(kx), Some(ky)) => kx == ky,
        _ => x == y,
    }
}

/// Two components are the same place: prefixes compare by what they name.
pub open spec fn part_eq(a: Part, b: Part) -> bool {
    match (a, b) {
        (Part::Prefix(x), Part::Prefix(y)) => prefix_same(x, y),
        _ => a == b,
    }
}

/// `p` with the leading components `root` removed, if it starts with them.
pub open spec fn strip_prefix_spec(p: Seq<Part>, root: Seq<Part>) -> Option<Seq<Part>> {
    if root.len() <= p.len() && forall|i: int| 0 <= i < root.len() ==> part_eq(p[i], root[i]) {
        Some(p.skip(root.len() as int))
    } else {
        None
    }
}

/// The text of one component.
pub open spec fn part_text(p: Part) -> Seq<char> {
    match p {
        Part::Prefix(s) => s,
        Part::RootDir => seq!['\\'],
        Part::CurDir => seq!['.'],
        Part::ParentDir => seq!['.', '.'],
        Part::Normal(s) => s,
    }
}

/// The text of a path: components after the first are separated by `\`,
/// except right after the root, before the root, and after a bare drive.
pub open spec fn render_spec(p: Seq<Part>) -> Seq<char>
    decreases p.len(),
{
    if p.len() == 0 {
        seq![]
    } else {
        let prev = render_spec(p.drop_last());
        let last = p.last();
        let needs_sep = p.len() > 1 && !(last is RootDir) && match p[p.len() - 2] {
            Part::Prefix(raw) => roots_by_itself(raw),
            Part::RootDir => false,
            _ => true,
        };
        prev + (if needs_sep { seq!['\\'] } else { seq![] }) + part_text(last)
    }
}

} // verus!

verus! {

pub open spec fn strings_view(v: Seq<String>) -> Seq<Seq<char>> {
    v.map_values(|s: String| s@)
}

pub fn sep_in(c: char, m: Seps) -> (b: bool)
    ensures
        b == is_sep_in(c, m),
{
    match m {
        Seps::Any => c == '/' || c == '\\',
        Seps::Slash => c == '/',
        Seps::Backslash => c == '\\',
    }
}

pub fn is_sep_char(c: char) -> (b: bool)
    ensures
        b == is_sep(c),
{
    c == '/' || c == '\\'
}

pub fn is_ascii_alpha_char(c: char) -> (b: bool)
    ensures
        b == is_ascii_alpha(c),
{
    ('a' <= c && c <= 'z') || ('A' <= c && c <= 'Z')
}

pub fn lower_char(c: char) -> (r: char)
    ensures
        r == ascii_lower(c),
{
    if 'A' <= c && c <= 'Z' {
        ((c as u8) + 32) as char
    } else {
        c
    }
}

} // verus!

verus! {

/// What a path prefix names, held as values.
pub enum PrefixKind {
    Verbatim(String),
    VerbatimUNC(String, String),
    VerbatimDisk(char),
    DeviceNS(String),
    UNC(String, String),
    Disk(char),
}

impl View for PrefixKind {
    type V = PrefixKey;

    open spec fn view(&self) -> PrefixKey {
        match self {
            PrefixKind::Verbatim(a) => PrefixKey::Verbatim(a@),
            PrefixKind::VerbatimUNC(a, b) => PrefixKey::VerbatimUNC(a@, b@),
            PrefixKind::VerbatimDisk(c) => PrefixKey::VerbatimDisk(*c),
            PrefixKind::DeviceNS(a) => PrefixKey::DeviceNS(a@),
            PrefixKind::UNC(a, b) => PrefixKey::UNC(a@, b@),
            PrefixKind::Disk(c) => PrefixKey::Disk(*c),
        }
    }
}

pub fn upper_char(c: char) -> (r: char)
    ensures
        r == ascii_upper(c),
{
    if 'a' <= c && c <= 'z' {
        ((c as u8) - 32) as char
    } else {
        c
    }
}

/// The first separator of `s` is at `k`, when none comes before it.
pub proof fn lemma_first_sep_at(s: Seq<char>, m: Seps, k: int)
    requires
        0 <= k <= s.len(),
        forall|j: int| 0 <= j < k ==> !is_sep_in(#[trigger] s[j], m),
        k < s.len() ==> is_sep_in(s[k], m),
    ensures
        first_sep(s, m) == (if k < s.len() {
            Some(k)
        } else {
            None::<int>
        }),
    decreases k,
{
    if k > 0 {
        let t = s.skip(1);
        assert(!is_sep_in(s[0], m));
        assert forall|j: int| 0 <= j < k - 1 implies !is_sep_in(#[trigger] t[j], m) by {
            assert(t[j] == s[j + 1]);
        }
        if k < s.len() {
            assert(t[k - 1] == s[k]);
        }
        lemma_first_sep_at(t, m, k - 1);
    }
}

fn first_sep_index(s: &str, m: Seps) -> (r: Option<usize>)
    ensures
        match r {
            Some(k) => first_sep(s@, m) == Some(k as int) && k < s@.len(),
            None => first_sep(s@, m) is None,
        },
{
    let n = s.unicode_len();
    let mut i: usize = 0;
    while i < n
        invariant
            n == s@.len(),
            i <= n,
            forall|j: int| 0 <= j < i ==> !is_sep_in(#[trigger] s@[j], m),
        decreases n - i,
    {
        if sep_in(s.get_char(i), m) {
            proof {
                lemma_first_sep_at(s@, m, i as int);
            }
            return Some(i);
        }
        i = i + 1;
    }
    proof {
        lemma_first_sep_at(s@, m, n as int);
    }
    None
}

/// The text of `s` up to its first separator, and what follows that separator.
fn next_comp_exec<'a>(s: &'a str, m: Seps) -> (r: (&'a str, &'a str))
    ensures
        (r.0@, r.1@) == next_comp(s@, m),
        r.0@.len() <= s@.len(),
        r.1@.len() > 0 ==> r.0@.len() + 1 + r.1@.len() == s@.len(),
{
    let n = s.unicode_len();
    match first_sep_index(s, m) {
        Some(k) => {
            let a = s.substring_char(0, k);
            let b = s.substring_char(k + 1, n);
            proof {
                assert(a@ =~= s@.take(k as int));
                assert(b@ =~= s@.skip(k + 1));
            }
            (a, b)
        },
        None => {
            let e = s.substring_char(n, n);
            proof {
                assert(e@ =~= seq![]);
            }
            (s, e)
        },
    }
}

/// The prefix that `s` starts with, and its length.
pub fn parse_prefix(s: &str) -> (r: Option<(PrefixKind, usize)>)
    ensures
        match r {
            Some((k, n)) => parse_prefix_spec(s@) == Some((k@, n as int)) && n <= s@.len(),
            None => parse_prefix_spec(s@) is None,
        },
{
    let len = s.unicode_len();
    if len >= 2 && is_sep_char(s.get_char(0)) && is_sep_char(s.get_char(1)) {
        if len >= 4 && s.get_char(0) == '\\' && s.get_char(1) == '\\' && s.get_char(2) == '?'
            && s.get_char(3) == '\\' {
            if len >= 8 && s.get_char(4) == 'U' && s.get_char(5) == 'N' && s.get_char(6) == 'C'
                && is_sep_char(s.get_char(7)) {
                let t = s.substring_char(8, len);
                proof {
                    assert(t@ =~= s@.skip(8));
                }
                let (server, r1) = next_comp_exec(t, Seps::Backslash);
                let (share, _) = next_comp_exec(r1, Seps::Backslash);
                let a = server.unicode_len();
                let b = share.unicode_len();
                let n = if b > 0 {
                    8 + a + 1 + b
                } else {
                    8 + a
                };
                Some((PrefixKind::VerbatimUNC(server.to_owned(), share.to_owned()), n))
            } else if len >= 6 && is_ascii_alpha_char(s.get_char(4)) && s.get_char(5) == ':' && (len
                == 6 || is_sep_char(s.get_char(6))) {
                proof {
                    assert(s@.skip(4)[0] == s@[4] && s@.skip(4)[1] == s@[5]);
                }
                Some((PrefixKind::VerbatimDisk(upper_char(s.get_char(4))), 6))
            } else {
                let t = s.substring_char(4, len);
                proof {
                    assert(t@ =~= s@.skip(4));
                    if has_drive(s@.skip(4)) {
                        assert(s@.skip(4)[0] == s@[4] && s@.skip(4)[1] == s@[5]);
                    }
                }
                let (name, _) = next_comp_exec(t, Seps::Backslash);
                Some((PrefixKind::Verbatim(name.to_owned()), 4 + name.unicode_len()))
            }
        } else if len >= 4 && s.get_char(2) == '.' && is_sep_char(s.get_char(3)) {
            let t = s.substring_char(4, len);
            proof {
                assert(t@ =~= s@.skip(4));
            }
            let (name, _) = next_comp_exec(t, Seps::Any);
            Some((PrefixKind::DeviceNS(name.to_owned()), 4 + name.unicode_len()))
        } else {
            let t = s.substring_char(2, len);
            proof {
                assert(t@ =~= s@.skip(2));
            }
            let (server, r1) = next_comp_exec(t, Seps::Any);
            let (share, _) = next_comp_exec(r1, Seps::Any);
            let a = server.unicode_len();
            let b = share.unicode_len();
            if a > 0 && b > 0 {
                Some((PrefixKind::UNC(server.to_owned(), share.to_owned()), 2 + a + 1 + b))
            } else {
                None
            }
        }
    } else if len >= 2 && is_ascii_alpha_char(s.get_char(0)) && s.get_char(1) == ':' {
        Some((PrefixKind::Disk(upper_char(s.get_char(0))), 2))
    } else {
        None
    }
}

fn kind_is_verbatim(k: &PrefixKind) -> (b: bool)
    ensures
        b == is_verbatim_key(k@),
{
    match k {
        PrefixKind::Verbatim(_) => true,
        PrefixKind::VerbatimUNC(_, _) => true,
        PrefixKind::VerbatimDisk(_) => true,
        _ => false,
    }
}

fn same_kind(a: &PrefixKind, b: &PrefixKind) -> (r: bool)
    ensures
        r == (a@ == b@),
{
    match (a, b) {
        (PrefixKind::Verbatim(x), PrefixKind::Verbatim(y)) => *x == *y,
        (PrefixKind::VerbatimUNC(x1, x2), PrefixKind::VerbatimUNC(y1, y2)) => *x1 == *y1 && *x2 == *y2,
        (PrefixKind::VerbatimDisk(x), PrefixKind::VerbatimDisk(y)) => *x == *y,
        (PrefixKind::DeviceNS(x), PrefixKind::DeviceNS(y)) => *x == *y,
        (PrefixKind::UNC(x1, x2), PrefixKind::UNC(y1, y2)) => *x1 == *y1 && *x2 == *y2,
        (PrefixKind::Disk(x), PrefixKind::Disk(y)) => *x == *y,
        _ => false,
    }
}

/// The prefix written as `raw` roots its path by itself.
pub fn prefix_roots_by_itself(raw: &str) -> (b: bool)
    ensures
        b == roots_by_itself(raw@),
{
    match parse_prefix(raw) {
        Some((PrefixKind::Disk(_), _)) => false,
        Some(_) => true,
        None => false,
    }
}

/// The prefix written as `raw` is verbatim.
pub fn prefix_is_verbatim(raw: &str) -> (b: bool)
    ensures
        b == is_verbatim_prefix(raw@),
{
    match parse_prefix(raw) {
        Some((k, _)) => kind_is_verbatim(&k),
        None => false,
    }
}

/// The prefixes written as `x` and `y` name the same thing.
pub fn prefixes_match(x: &str, y: &str) -> (b: bool)
    ensures
        b == prefix_same(x@, y@),
{
    match (parse_prefix(x), parse_prefix(y)) {
        (Some((kx, _)), Some((ky, _))) => same_kind(&kx, &ky),
        _ => {
            let xs = x.to_owned();
            let ys = y.to_owned();
            xs == ys
        },
    }
}

} // verus!

verus! {

/// Compares two strings with ASCII letters folded to lower case.
pub fn str_eq_ignore_ascii_case(a: &str, b: &str) -> (r: bool)
    ensures
        r == eq_ignore_ascii_case(a@, b@),
{
    let n = a.unicode_len();
    if n != b.unicode_len() {
        return false;
    }
    let mut i: usize = 0;
    while i < n
        invariant
            n == a@.len(),
            n == b@.len(),
            i <= n,
            forall|j: int| 0 <= j < i ==> ascii_lower(a@[j]) == ascii_lower(b@[j]),
        decreases n - i,
    {
        if lower_char(a.get_char(i)) != lower_char(b.get_char(i)) {
            return false;
        }
        i = i + 1;
    }
    true
}

/// The maximal runs of non-separator characters of `s`.
pub fn split_words(s: &str, m: Seps) -> (ws: Vec<String>)
    ensures
        strings_view(ws@) == words(s@, m),
{
    let n = s.unicode_len();
    let mut out: Vec<String> = Vec::new();
    let mut start: usize = 0;
    let mut i: usize = 0;
    while i < n
        invariant
            n == s@.len(),
            start <= i <= n,
            (strings_view(out@), s@.subrange(start as int, i as int)) == words_acc(
                s@.take(i as int),
                m,
            ),
        decreases n - i,
    {
        let c = s.get_char(i);
        proof {
            assert(s@.take(i + 1).drop_last() =~= s@.take(i as int));
            assert(s@.take(i + 1).last() == c);
        }
        if sep_in(c, m) {
            if start < i {
                let w = s.substring_char(start, i);
                let ghost before = strings_view(out@);
                out.push(w.to_owned());
                proof {
                    assert(strings_view(out@) =~= before.push(s@.subrange(start as int, i as int)));
                }
            }
            start = i + 1;
        } else {
            proof {
                assert(s@.subrange(start as int, i + 1) =~= s@.subrange(start as int, i as int).push(c));
            }
        }
        i = i + 1;
    }
    proof {
        assert(s@.take(n as int) =~= s@);
    }
    if start < n {
        let w = s.substring_char(start, n);
        let ghost before = strings_view(out@);
        out.push(w.to_owned());
        proof {
            assert(strings_view(out@) =~= before.push(s@.subrange(start as int, n as int)));
        }
    }
    out
}

fn word_to_part(w: String) -> (p: PathPart)
    ensures
        p@ == word_part(w@),
{
    if w.as_str().unicode_len() == 2 && w.as_str().get_char(0) == '.' && w.as_str().get_char(1) == '.' {
        proof {
            assert(w@ =~= seq!['.', '.']);
        }
        PathPart::ParentDir
    } else if w.as_str().unicode_len() == 1 && w.as_str().get_char(0) == '.' {
        proof {
            assert(w@ =~= seq!['.']);
            assert(w@ != seq!['.', '.']);
        }
        PathPart::CurDir
    } else {
        proof {
            if w@ == seq!['.', '.'] {
                assert(w@.len() == 2 && w@[0] == '.' && w@[1] == '.');
            }
            if w@ == seq!['.'] {
                assert(w@.len() == 1 && w@[0] == '.');
            }
        }
        PathPart::Normal(w)
    }
}

fn is_dot_word(w: &String) -> (b: bool)
    ensures
        b == (w@ == seq!['.']),
{
    let r = w.as_str().unicode_len() == 1 && w.as_str().get_char(0) == '.';
    proof {
        if r {
            assert(w@ =~= seq!['.']);
        }
        if w@ == seq!['.'] {
            assert(w@.len() == 1 && w@[0] == '.');
        }
    }
    r
}

/// The components of the path written as `s`.
pub fn split_path(s: &str) -> (parts: Vec<PathPart>)
    ensures
        parts_view(parts@) == split_path_spec(s@),
{
    let n = s.unicode_len();
    let mut parts: Vec<PathPart> = Vec::new();
    let body: &str;
    let verbatim: bool;
    let keep: bool;
    match parse_prefix(s) {
        Some((k, pn)) => {
            let raw = s.substring_char(0, pn);
            parts.push(PathPart::Prefix(raw.to_owned()));
            let rest = s.substring_char(pn, n);
            let rn = rest.unicode_len();
            let physical = rn > 0 && is_sep_char(rest.get_char(0));
            let rooted = physical || matches!(k, PrefixKind::UNC(_, _)) || matches!(k, PrefixKind::DeviceNS(_));
            if rooted {
                parts.push(PathPart::RootDir);
            }
            body = if physical {
                rest.substring_char(1, rn)
            } else {
                rest
            };
            verbatim = kind_is_verbatim(&k);
            keep = false;
            proof {
                assert(raw@ =~= s@.take(pn as int));
                assert(rest@ =~= s@.skip(pn as int));
                if physical {
                    assert(body@ =~= rest@.skip(1));
                }
                let h = seq![Part::Prefix(s@.take(pn as int))] + (if rooted {
                    seq![Part::RootDir]
                } else {
                    seq![]
                });
                assert(parts_view(parts@) =~= h);
                assert(split_path_spec(s@) == h + body_parts(words(body@, body_seps(verbatim)), verbatim, keep));
            }
        },
        None => {
            let rooted = n > 0 && is_sep_char(s.get_char(0));
            if rooted {
                parts.push(PathPart::RootDir);
            }
            body = s;
            verbatim = false;
            keep = !rooted;
            proof {
                let h = if rooted {
                    seq![Part::RootDir]
                } else {
                    seq![]
                };
                assert(parts_view(parts@) =~= h);
                assert(split_path_spec(s@) == h + body_parts(words(body@, body_seps(verbatim)), verbatim, keep));
            }
        },
    }
    let ghost head = parts_view(parts@);
    let m = if verbatim {
        Seps::Backslash
    } else {
        Seps::Any
    };
    let ws = split_words(body, m);
    let ghost wsv = strings_view(ws@);
    assert(wsv == words(body@, body_seps(verbatim)));
    let mut i: usize = 0;
    let len = ws.len();
    while i < len
        invariant
            len == ws@.len(),
            wsv == strings_view(ws@),
            i <= len,
            parts_view(parts@) == head + body_parts(wsv.take(i as int), verbatim, keep),
        decreases len - i,
    {
        proof {
            assert(wsv.take(i + 1).drop_last() =~= wsv.take(i as int));
            assert(wsv.take(i + 1).last() == ws@[i as int]@);
        }
        let w = ws[i].clone();
        let skip = is_dot_word(&w) && !verbatim && !(i == 0 && keep);
        if !skip {
            let ghost before = parts_view(parts@);
            let p = word_to_part(w);
            parts.push(p);
            proof {
                assert(parts_view(parts@) =~= before.push(p@));
            }
        }
        i = i + 1;
    }
    proof {
        assert(wsv.take(len as int) =~= wsv);
    }
    parts
}

} // verus!

verus! {

pub fn clone_part(p: &PathPart) -> (r: PathPart)
    ensures
        r@ == p@,
{
    match p {
        PathPart::Prefix(s) => PathPart::Prefix(s.clone()),
        PathPart::RootDir => PathPart::RootDir,
        PathPart::CurDir => PathPart::CurDir,
        PathPart::ParentDir => PathPart::ParentDir,
        PathPart::Normal(s) => PathPart::Normal(s.clone()),
    }
}

/// The components `p[from..to]`, copied.
pub fn copy_parts(p: &Vec<PathPart>, from: usize, to: usize) -> (r: Vec<PathPart>)
    requires
        from <= to <= p@.len(),
    ensures
        parts_view(r@) == parts_view(p@).subrange(from as int, to as int),
{
    let mut r: Vec<PathPart> = Vec::new();
    let mut i = from;
    while i < to
        invariant
            from <= i <= to <= p@.len(),
            parts_view(r@) == parts_view(p@).subrange(from as int, i as int),
        decreases to - i,
    {
        let ghost before = parts_view(r@);
        let c = clone_part(&p[i]);
        r.push(c);
        proof {
            assert(parts_view(r@) =~= before.push(c@));
            assert(parts_view(r@) =~= parts_view(p@).subrange(from as int, i + 1));
        }
        i = i + 1;
    }
    r
}

/// Appends copies of the components of `q` to `r`.
pub fn append_parts(r: &mut Vec<PathPart>, q: &Vec<PathPart>)
    ensures
        parts_view(final(r)@) == parts_view(old(r)@) + parts_view(q@),
{
    let mut i: usize = 0;
    while i < q.len()
        invariant
            i <= q@.len(),
            parts_view(r@) == parts_view(old(r)@) + parts_view(q@).take(i as int),
        decreases q@.len() - i,
    {
        let ghost before = parts_view(r@);
        let c = clone_part(&q[i]);
        r.push(c);
        proof {
            assert(parts_view(r@) =~= before.push(c@));
            assert(parts_view(q@).take(i + 1) =~= parts_view(q@).take(i as int).push(q@[i as int]@));
            assert(parts_view(r@) =~= parts_view(old(r)@) + parts_view(q@).take(i + 1));
        }
        i = i + 1;
    }
    proof {
        assert(parts_view(q@).take(q@.len() as int) =~= parts_view(q@));
    }
}

pub fn parts_have_prefix(p: &Vec<PathPart>) -> (b: bool)
    ensures
        b == has_prefix(parts_view(p@)),
{
    p.len() > 0 && matches!(p[0], PathPart::Prefix(_))
}

pub fn parts_have_root(p: &Vec<PathPart>) -> (b: bool)
    ensures
        b == has_root(parts_view(p@)),
{
    if p.len() == 0 {
        return false;
    }
    match &p[0] {
        PathPart::RootDir => true,
        PathPart::Prefix(raw) => prefix_roots_by_itself(raw.as_str()) || (p.len() > 1 && matches!(
            p[1],
            PathPart::RootDir
        )),
        _ => false,
    }
}

/// The path starts with a verbatim prefix.
pub fn parts_are_verbatim(p: &Vec<PathPart>) -> (b: bool)
    ensures
        b == is_verbatim_path(parts_view(p@)),
{
    if p.len() == 0 {
        return false;
    }
    match &p[0] {
        PathPart::Prefix(raw) => prefix_is_verbatim(raw.as_str()),
        _ => false,
    }
}

/// The components of `p` pushed one by one onto the verbatim path `base`.
fn push_verbatim(base: &Vec<PathPart>, p: &Vec<PathPart>) -> (r: Vec<PathPart>)
    requires
        base@.len() > 0,
        base@[0] is Prefix,
    ensures
        parts_view(r@) == verbatim_steps(parts_view(base@), parts_view(p@)),
{
    let mut buf = copy_parts(base, 0, base.len());
    proof {
        assert(parts_view(base@).subrange(0, base@.len() as int) =~= parts_view(base@));
        assert(parts_view(p@).take(0) =~= seq![]);
        assert(parts_view(base@)[0] == base@[0]@);
    }
    let mut i: usize = 0;
    while i < p.len()
        invariant
            i <= p@.len(),
            buf@.len() > 0,
            parts_view(buf@)[0] is Prefix,
            parts_view(buf@) == verbatim_steps(parts_view(base@), parts_view(p@).take(i as int)),
        decreases p@.len() - i,
    {
        let ghost before = parts_view(buf@);
        proof {
            assert(parts_view(p@).take(i + 1).drop_last() =~= parts_view(p@).take(i as int));
            assert(parts_view(p@).take(i + 1).last() == p@[i as int]@);
        }
        match &p[i] {
            PathPart::RootDir => {
                let mut nb = copy_parts(&buf, 0, 1);
                nb.push(PathPart::RootDir);
                proof {
                    assert(parts_view(buf@).subrange(0, 1) =~= before.take(1));
                    assert(parts_view(nb@) =~= before.take(1).push(Part::RootDir));
                }
                buf = nb;
            },
            PathPart::CurDir => {},
            PathPart::ParentDir => {
                let n = buf.len();
                if matches!(buf[n - 1], PathPart::Normal(_)) {
                    proof {
                        assert(before[n - 1] == buf@[n - 1]@);
                    }
                    buf.pop();
                    proof {
                        assert(parts_view(buf@)[0] == before[0]);
                        assert(parts_view(buf@) =~= before.drop_last());
                    }
                }
            },
            other => {
                buf.push(clone_part(other));
                proof {
                    assert(parts_view(buf@) =~= before.push(p@[i as int]@));
                }
            },
        }
        i = i + 1;
    }
    proof {
        assert(parts_view(p@).take(p@.len() as int) =~= parts_view(p@));
    }
    buf
}

/// `base` extended by `p`, as a path buffer is pushed.
pub fn join(base: &Vec<PathPart>, p: &Vec<PathPart>) -> (r: Vec<PathPart>)
    ensures
        parts_view(r@) == join_spec(parts_view(base@), parts_view(p@)),
{
    if parts_have_prefix(p) {
        copy_parts(p, 0, p.len())
    } else if p.len() > 0 && parts_are_verbatim(base) {
        let buf = push_verbatim(base, p);
        let text = render(&buf);
        split_path(text.as_str())
    } else if parts_have_root(p) {
        let mut r = if parts_have_prefix(base) {
            copy_parts(base, 0, 1)
        } else {
            Vec::new()
        };
        append_parts(&mut r, p);
        proof {
            assert(parts_view(p@).subrange(0, p@.len() as int) =~= parts_view(p@));
            if has_prefix(parts_view(base@)) {
                assert(parts_view(base@).subrange(0, 1) =~= parts_view(base@).take(1));
            } else {
                assert(parts_view(r@) =~= seq![] + parts_view(p@));
            }
        }
        r
    } else if base.len() > 0 && p.len() > 0 && matches!(p[0], PathPart::CurDir) {
        let mut r = copy_parts(base, 0, base.len());
        let tail = copy_parts(p, 1, p.len());
        append_parts(&mut r, &tail);
        proof {
            assert(parts_view(base@).subrange(0, base@.len() as int) =~= parts_view(base@));
            assert(parts_view(p@).subrange(1, p@.len() as int) =~= parts_view(p@).skip(1));
        }
        r
    } else {
        let mut r = copy_parts(base, 0, base.len());
        append_parts(&mut r, p);
        proof {
            assert(parts_view(base@).subrange(0, base@.len() as int) =~= parts_view(base@));
        }
        r
    }
}

/// The lexically normalised form of `p`: `.` dropped, each `..` removing the
/// component before it; `None` when a `..` has only a prefix or root before it.
pub fn normalize_path(p: &Vec<PathPart>) -> (r: Option<Vec<PathPart>>)
    ensures
        match r {
            Some(v) => normalize_spec(parts_view(p@)) == Some(parts_view(v@)),
            None => normalize_spec(parts_view(p@)) is None,
        },
{
    let mut acc: Vec<PathPart> = Vec::new();
    let mut i: usize = 0;
    while i < p.len()
        invariant
            i <= p@.len(),
            normalize_spec(parts_view(p@).take(i as int)) == Some(parts_view(acc@)),
        decreases p@.len() - i,
    {
        proof {
            assert(parts_view(p@).take(i + 1).drop_last() =~= parts_view(p@).take(i as int));
            assert(parts_view(p@).take(i + 1).last() == p@[i as int]@);
        }
        match &p[i] {
            PathPart::CurDir => {},
            PathPart::ParentDir => {
                let n = acc.len();
                if n > 0 && !matches!(acc[n - 1], PathPart::Prefix(_)) && !matches!(acc[n - 1], PathPart::RootDir) {
                    let ghost before = parts_view(acc@);
                    acc.pop();
                    proof {
                        assert(parts_view(acc@) =~= before.drop_last());
                    }
                } else {
                    proof {
                        lemma_normalize_none_stays(parts_view(p@), i as int + 1);
                    }
                    return None;
                }
            },
            PathPart::Normal(w) => {
                let sp = split_path(w.as_str());
                if reads_back_as(&sp, w) {
                    let ghost before = parts_view(acc@);
                    acc.push(clone_part(&p[i]));
                    proof {
                        assert(parts_view(acc@) =~= before.push(p@[i as int]@));
                    }
                } else {
                    acc = join(&acc, &sp);
                }
            },
            other => {
                let ghost before = parts_view(acc@);
                acc.push(clone_part(other));
                proof {
                    assert(parts_view(acc@) =~= before.push(p@[i as int]@));
                }
            },
        }
        i = i + 1;
    }
    proof {
        assert(parts_view(p@).take(p@.len() as int) =~= parts_view(p@));
    }
    Some(acc)
}

/// The components `sp` of the text `w` are the one name `w`.
fn reads_back_as(sp: &Vec<PathPart>, w: &String) -> (b: bool)
    requires
        parts_view(sp@) == split_path_spec(w@),
    ensures
        b == reads_as_name(w@),
{
    if sp.len() != 1 {
        proof {
            assert(parts_view(sp@).len() != seq![Part::Normal(w@)].len());
        }
        return false;
    }
    proof {
        assert(parts_view(sp@)[0] == sp@[0]@);
    }
    match &sp[0] {
        PathPart::Normal(x) => {
            let r = *x == *w;
            proof {
                if r {
                    assert(parts_view(sp@) =~= seq![Part::Normal(w@)]);
                } else {
                    assert(parts_view(sp@)[0] != seq![Part::Normal(w@)][0]);
                }
            }
            r
        },
        _ => {
            proof {
                assert(parts_view(sp@)[0] != seq![Part::Normal(w@)][0]);
            }
            false
        },
    }
}

/// Once normalisation has failed on a prefix, it fails on the whole path.
pub proof fn lemma_normalize_none_stays(p: Seq<Part>, k: int)
    requires
        0 <= k <= p.len(),
        normalize_spec(p.take(k)) is None,
    ensures
        normalize_spec(p) is None,
    decreases p.len() - k,
{
    if k < p.len() {
        assert(p.take(k + 1).drop_last() =~= p.take(k));
        lemma_normalize_none_stays(p, k + 1);
    } else {
        assert(p.take(k) =~= p);
    }
}

/// The path names no `.` and no `..`.
pub open spec fn is_lexically_normal(p: Seq<Part>) -> bool {
    forall|i: int| 0 <= i < p.len() ==> !(p[i] is CurDir) && !(p[i] is ParentDir)
}

/// Normalising a path whose names read as themselves leaves no `.` and no
/// `..`, and only such names.
pub proof fn lemma_normalize_is_normal(p: Seq<Part>)
    requires
        plain_names(p),
    ensures
        normalize_spec(p) matches Some(n) ==> is_lexically_normal(n) && plain_names(n),
    decreases p.len(),
{
    if p.len() > 0 {
        let q = p.drop_last();
        assert(plain_names(q)) by {
            assert forall|i: int| 0 <= i < q.len() implies (#[trigger] q[i] matches Part::Normal(w) ==> reads_as_name(w)) by {
                assert(q[i] == p[i]);
            }
        }
        lemma_normalize_is_normal(q);
        assert(p[p.len() - 1] == p.last());
        match normalize_spec(q) {
            Some(a) => {
                match p.last() {
                    Part::CurDir => {},
                    Part::ParentDir => {
                        if can_pop(a) {
                            assert forall|i: int| 0 <= i < a.drop_last().len() implies !(a.drop_last()[i] is CurDir)
                                && !(a.drop_last()[i] is ParentDir) && (#[trigger] a.drop_last()[i] matches Part::Normal(w)
                                ==> reads_as_name(w)) by {
                                assert(a.drop_last()[i] == a[i]);
                            }
                        }
                    },
                    _ => {
                        assert forall|i: int| 0 <= i < a.push(p.last()).len() implies !(a.push(p.last())[i] is CurDir)
                            && !(a.push(p.last())[i] is ParentDir) && (#[trigger] a.push(p.last())[i] matches Part::Normal(w)
                            ==> reads_as_name(w)) by {
                            if i < a.len() {
                                assert(a.push(p.last())[i] == a[i]);
                            }
                        }
                    },
                }
            },
            None => {},
        }
    }
}

/// A path without `.` and `..`, whose names read as themselves, is its own
/// normal form.
pub proof fn lemma_normal_is_fixed(p: Seq<Part>)
    requires
        is_lexically_normal(p),
        plain_names(p),
    ensures
        normalize_spec(p) == Some(p),
    decreases p.len(),
{
    if p.len() > 0 {
        let q = p.drop_last();
        assert(is_lexically_normal(q) && plain_names(q)) by {
            assert forall|i: int| 0 <= i < q.len() implies !(q[i] is CurDir) && !(q[i] is ParentDir) && (
            #[trigger] q[i] matches Part::Normal(w) ==> reads_as_name(w)) by {
                assert(q[i] == p[i]);
            }
        }
        lemma_normal_is_fixed(q);
        assert(p[p.len() - 1] == p.last());
        assert(!(p[p.len() - 1] is CurDir) && !(p[p.len() - 1] is ParentDir));
        assert(q.push(p.last()) =~= p);
    }
}

/// Normalising twice is normalising once, for a path whose names read as
/// themselves.
pub proof fn law_normalize_idempotent(p: Seq<Part>)
    requires
        plain_names(p),
    ensures
        normalize_spec(p) matches Some(n) ==> normalize_spec(n) == Some(n),
{
    lemma_normalize_is_normal(p);
    if let Some(n) = normalize_spec(p) {
        lemma_normal_is_fixed(n);
    }
}

/// A prefix stands only first, and the root only first or right
/// after the prefix, as in every path that `split_path` makes.
pub open spec fn well_formed_path(p: Seq<Part>) -> bool {
    forall|i: int|
        0 <= i < p.len() ==> (#[trigger] p[i] is Prefix ==> i == 0) && (p[i] is RootDir ==> (i == 0 || (i == 1
            && p[0] is Prefix)))
}

/// The number of leading components that name where the path starts (its
/// prefix and root).
pub open spec fn head_len(p: Seq<Part>) -> int {
    if p.len() > 0 && p[0] is Prefix {
        if p.len() > 1 && p[1] is RootDir {
            2
        } else {
            1
        }
    } else if p.len() > 0 && p[0] is RootDir {
        1
    } else {
        0
    }
}

proof fn lemma_body_parts_plain(ws: Seq<Seq<char>>, verbatim: bool, keep_first: bool)
    ensures
        forall|i: int|
            0 <= i < body_parts(ws, verbatim, keep_first).len() ==> !(#[trigger] body_parts(
                ws,
                verbatim,
                keep_first,
            )[i] is Prefix) && !(body_parts(ws, verbatim, keep_first)[i] is RootDir),
    decreases ws.len(),
{
    if ws.len() > 0 {
        lemma_body_parts_plain(ws.drop_last(), verbatim, keep_first);
        let prev = body_parts(ws.drop_last(), verbatim, keep_first);
        let w = ws.last();
        assert forall|i: int| 0 <= i < prev.push(word_part(w)).len() implies !(prev.push(word_part(w))[i] is Prefix)
            && !(prev.push(word_part(w))[i] is RootDir) by {
            if i < prev.len() {
                assert(prev.push(word_part(w))[i] == prev[i]);
            }
        }
    }
}

/// Every path that `split_path` makes is well formed.
pub proof fn lemma_split_path_well_formed(s: Seq<char>)
    ensures
        well_formed_path(split_path_spec(s)),
{
    let p = split_path_spec(s);
    let (head, ws, verbatim, keep) = match parse_prefix_spec(s) {
        Some((k, n)) => {
            let rest = s.skip(n);
            let physical = rest.len() > 0 && is_sep(rest[0]);
            let body = if physical {
                rest.skip(1)
            } else {
                rest
            };
            (seq![Part::Prefix(s.take(n))] + (if physical || k is UNC || k is DeviceNS {
                seq![Part::RootDir]
            } else {
                seq![]
            }), words(body, body_seps(is_verbatim_key(k))), is_verbatim_key(k), false)
        },
        None => {
            let rooted = s.len() > 0 && is_sep(s[0]);
            (if rooted {
                seq![Part::RootDir]
            } else {
                seq![]
            }, words(s, Seps::Any), false, !rooted)
        },
    };
    let body = body_parts(ws, verbatim, keep);
    lemma_body_parts_plain(ws, verbatim, keep);
    assert(p == head + body);
    assert forall|i: int| 0 <= i < p.len() implies (#[trigger] p[i] is Prefix ==> i == 0) && (p[i] is RootDir ==> (i == 0
        || (i == 1 && p[0] is Prefix))) by {
        if i >= head.len() {
            assert(p[i] == body[i - head.len()]);
        }
    }
}

proof fn lemma_normalize_keeps_head(p: Seq<Part>)
    requires
        well_formed_path(p),
        plain_names(p),
    ensures
        normalize_spec(p) matches Some(a) ==> {
            &&& a.len() >= head_len(p)
            &&& a.take(head_len(p)) == p.take(head_len(p))
            &&& forall|i: int| head_len(p) <= i < a.len() ==> #[trigger] a[i] is Normal
        },
    decreases p.len(),
{
    let h = head_len(p);
    if p.len() <= h {
        assert(is_lexically_normal(p));
        lemma_normal_is_fixed(p);
        assert(p.take(h) =~= p);
    } else {
        let q = p.drop_last();
        assert(well_formed_path(q)) by {
            assert forall|i: int| 0 <= i < q.len() implies (#[trigger] q[i] is Prefix ==> i == 0) && (q[i] is RootDir ==> (i
                == 0 || (i == 1 && q[0] is Prefix))) by {
                assert(q[i] == p[i]);
            }
        }
        assert(head_len(q) == h) by {
            if q.len() > 0 {
                assert(q[0] == p[0]);
            }
            if q.len() > 1 {
                assert(q[1] == p[1]);
            }
        }
        assert(plain_names(q)) by {
            assert forall|i: int| 0 <= i < q.len() implies (#[trigger] q[i] matches Part::Normal(w) ==> reads_as_name(w)) by {
                assert(q[i] == p[i]);
            }
        }
        lemma_normalize_keeps_head(q);
        let last = p.last();
        assert(!(last is Prefix) && !(last is RootDir)) by {
            assert(p[p.len() - 1] == last);
        }
        match normalize_spec(q) {
            Some(b) => {
                assert(b.take(h) == q.take(h));
                assert(q.take(h) =~= p.take(h));
                match last {
                    Part::CurDir => {},
                    Part::ParentDir => {
                        if can_pop(b) {
                            if b.len() == h {
                                assert(b[h - 1] == b.take(h)[h - 1]);
                                assert(p.take(h)[h - 1] == p[h - 1]);
                            }
                            let a = b.drop_last();
                            assert(a.take(h) =~= b.take(h));
                            assert forall|i: int| h <= i < a.len() implies #[trigger] a[i] is Normal by {
                                assert(a[i] == b[i]);
                            }
                        }
                    },
                    _ => {
                        let a = b.push(last);
                        assert(a.take(h) =~= b.take(h));
                        assert forall|i: int| h <= i < a.len() implies #[trigger] a[i] is Normal by {
                            if i < b.len() {
                                assert(a[i] == b[i]);
                            }
                        }
                    },
                }
            },
            None => {},
        }
    }
}

/// Normalising a well-formed path whose names read as themselves keeps where
/// it starts: its prefix and its root stay, and the result is normal, its own
/// normal form.
pub proof fn law_normalize_keeps_root(p: Seq<Part>)
    requires
        well_formed_path(p),
        plain_names(p),
    ensures
        normalize_spec(p) matches Some(q) ==> {
            &&& has_root(q) == has_root(p)
            &&& has_prefix(q) == has_prefix(p)
            &&& is_lexically_normal(q)
            &&& normalize_spec(q) == Some(q)
        },
{
    lemma_normalize_keeps_head(p);
    law_normalize_idempotent(p);
    lemma_normalize_is_normal(p);
    if let Some(q) = normalize_spec(p) {
        let h = head_len(p);
        if h > 0 {
            assert(q[0] == q.take(h)[0] && p[0] == p.take(h)[0]);
        }
        if h > 1 {
            assert(q[1] == q.take(h)[1] && p[1] == p.take(h)[1]);
        }
        if h <= 1 && p.len() > 1 {
            assert(!(p[1] is RootDir));
        }
        if h == 0 && p.len() > 0 {
            assert(!(p[0] is RootDir) && !(p[0] is Prefix));
        }
        if h <= 1 && q.len() > 1 {
            assert(q[1] is Normal);
        }
        if h == 0 && q.len() > 0 {
            assert(q[0] is Normal);
        }
    }
}

/// Normalisation fails only at a `..` with nothing before it to step back over.
pub proof fn law_normalize_fails_at_parent(p: Seq<Part>)
    ensures
        normalize_spec(p) is None ==> exists|k: int|
            0 <= k < p.len() && #[trigger] p[k] is ParentDir && (normalize_spec(p.take(k)) matches Some(a)
                && !can_pop(a)),
    decreases p.len(),
{
    if p.len() > 0 && normalize_spec(p) is None {
        let q = p.drop_last();
        law_normalize_fails_at_parent(q);
        if normalize_spec(q) is None {
            let k = choose|k: int|
                0 <= k < q.len() && #[trigger] q[k] is ParentDir && (normalize_spec(q.take(k)) matches Some(a)
                    && !can_pop(a));
            assert(q.take(k) =~= p.take(k));
            assert(p[k] == q[k]);
        } else {
            let k = p.len() - 1;
            assert(p.take(k) =~= q);
            assert(p[k] == p.last());
        }
    }
}

fn part_matches(a: &PathPart, b: &PathPart) -> (r: bool)
    ensures
        r == part_eq(a@, b@),
{
    match (a, b) {
        (PathPart::Prefix(x), PathPart::Prefix(y)) => prefixes_match(x.as_str(), y.as_str()),
        (PathPart::RootDir, PathPart::RootDir) => true,
        (PathPart::CurDir, PathPart::CurDir) => true,
        (PathPart::ParentDir, PathPart::ParentDir) => true,
        (PathPart::Normal(x), PathPart::Normal(y)) => {
            *x == *y
        },
        _ => false,
    }
}

/// `p` without its leading components `root`, if it starts with them.
pub fn strip_prefix(p: &Vec<PathPart>, root: &Vec<PathPart>) -> (r: Option<Vec<PathPart>>)
    ensures
        match r {
            Some(v) => strip_prefix_spec(parts_view(p@), parts_view(root@)) == Some(parts_view(v@)),
            None => strip_prefix_spec(parts_view(p@), parts_view(root@)) is None,
        },
{
    if root.len() > p.len() {
        return None;
    }
    let mut i: usize = 0;
    while i < root.len()
        invariant
            root@.len() <= p@.len(),
            i <= root@.len(),
            forall|j: int| 0 <= j < i ==> part_eq(parts_view(p@)[j], parts_view(root@)[j]),
        decreases root@.len() - i,
    {
        if !part_matches(&p[i], &root[i]) {
            proof {
                assert(!part_eq(parts_view(p@)[i as int], parts_view(root@)[i as int]));
            }
            return None;
        }
        i = i + 1;
    }
    let r = copy_parts(p, root.len(), p.len());
    proof {
        assert(parts_view(p@).subrange(root@.len() as int, p@.len() as int) =~= parts_view(p@).skip(
            root@.len() as int,
        ));
    }
    Some(r)
}

} // verus!

verus! {

/// The text of a path, `\` between its names.
pub fn render(p: &Vec<PathPart>) -> (s: String)
    ensures
        s@ == render_spec(parts_view(p@)),
{
    let mut out = String::new();
    let mut i: usize = 0;
    while i < p.len()
        invariant
            i <= p@.len(),
            out@ == render_spec(parts_view(p@).take(i as int)),
        decreases p@.len() - i,
    {
        let ghost pv = parts_view(p@).take(i + 1);
        proof {
            assert(pv.drop_last() =~= parts_view(p@).take(i as int));
            assert(pv.last() == p@[i as int]@);
            if i > 0 {
                assert(pv[i - 1] == p@[i - 1]@);
            }
        }
        let needs_sep = i > 0 && !matches!(p[i], PathPart::RootDir) && match &p[i - 1] {
            PathPart::Prefix(raw) => prefix_roots_by_itself(raw.as_str()),
            PathPart::RootDir => false,
            _ => true,
        };
        if needs_sep {
            let sep = "\\";
            proof {
                reveal_strlit("\\");
            }
            out.append(sep);
        }
        let ghost mid = out@;
        match &p[i] {
            PathPart::Prefix(s) => out.append(s.as_str()),
            PathPart::RootDir => {
                let t = "\\";
                proof {
                    reveal_strlit("\\");
                }
                out.append(t);
            },
            PathPart::CurDir => {
                let t = ".";
                proof {
                    reveal_strlit(".");
                }
                out.append(t);
            },
            PathPart::ParentDir => {
                let t = "..";
                proof {
                    reveal_strlit("..");
                }
                out.append(t);
            },
            PathPart::Normal(s) => out.append(s.as_str()),
        }
        proof {
            assert(out@ =~= mid + part_text(p@[i as int]@));
            assert(render_spec(pv) =~= render_spec(pv.drop_last()) + (if needs_sep {
                seq!['\\']
            } else {
                seq![]
            }) + part_text(pv.last()));
        }
        i = i + 1;
    }
    proof {
        assert(parts_view(p@).take(p@.len() as int) =~= parts_view(p@));
    }
    out
}

/// The last component's name, when the path ends in a name.
pub open spec fn file_name_spec(p: Seq<Part>) -> Option<Seq<char>> {
    if p.len() > 0 && p.last() is Normal {
        Some(part_text(p.last()))
    } else {
        None
    }
}

/// The position of the last `c` in `s`, if any.
pub open spec fn last_index_of(s: Seq<char>, c: char) -> Option<int>
    decreases s.len(),
{
    if s.len() == 0 {
        None
    } else if s.last() == c {
        Some(s.len() - 1)
    } else {
        last_index_of(s.drop_last(), c)
    }
}

/// The extension of a file name: what follows its last dot, unless that dot
/// is the first character or there is none.
pub open spec fn extension_spec(name: Seq<char>) -> Option<Seq<char>> {
    match last_index_of(name, '.') {
        Some(k) => if k == 0 { None } else { Some(name.skip(k + 1)) },
        None => None,
    }
}

pub proof fn lemma_last_index_of_bounds(s: Seq<char>, c: char)
    ensures
        match last_index_of(s, c) {
            Some(k) => 0 <= k < s.len() && s[k] == c && forall|j: int| k < j < s.len() ==> s[j] != c,
            None => forall|j: int| 0 <= j < s.len() ==> s[j] != c,
        },
    decreases s.len(),
{
    if s.len() > 0 {
        lemma_last_index_of_bounds(s.drop_last(), c);
        assert(forall|j: int| 0 <= j < s.len() - 1 ==> s.drop_last()[j] == s[j]);
    }
}

/// The extension of the file that `p` names, if it has one.
pub fn file_extension(p: &Vec<PathPart>) -> (r: Option<String>)
    ensures
        match r {
            Some(e) => file_name_spec(parts_view(p@)) matches Some(n) && extension_spec(n) == Some(e@),
            None => file_name_spec(parts_view(p@)) matches Some(n) ==> extension_spec(n) is None,
        },
{
    let n = p.len();
    if n == 0 {
        return None;
    }
    let name: &str = match &p[n - 1] {
        PathPart::Normal(s) => s.as_str(),
        _ => {
            return None;
        },
    };
    let len = name.unicode_len();
    let mut k = len;
    while k > 0
        invariant
            k <= len == name@.len(),
            forall|j: int| k <= j < len ==> name@[j] != '.',
        ensures
            k <= len,
            forall|j: int| k <= j < len ==> name@[j] != '.',
            k == 0 || name@[k - 1] == '.',
        decreases k,
    {
        if name.get_char(k - 1) == '.' {
            break;
        }
        k = k - 1;
    }
    proof {
        lemma_last_index_of_bounds(name@, '.');
        assert(parts_view(p@).last() == p@[n - 1]@);
    }
    if k == 0 {
        None
    } else if k == 1 {
        None
    } else {
        Some(name.substring_char(k, len).to_owned())
    }
}

} // verus!
