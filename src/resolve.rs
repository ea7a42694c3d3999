//! Icon resolution: the absolute-path fast path, the widened candidate
//! names, and the ordered search over the active and the fallback themes.
use vstd::prelude::*;
use vstd::arithmetic::div_mod::lemma_fundamental_div_mod_converse;
use crate::text::{lower_of, lowercase, starts_with_char, str_eq};

verus! {

/// What `Path::file_stem` gives for a path written as a string.
pub uninterp spec fn stem_of(s: Seq<char>) -> Option<Seq<char>>;

/// What `Path::extension` gives for a path written as a string.
pub uninterp spec fn ext_of(s: Seq<char>) -> Option<Seq<char>>;

/// Relies on `Path::file_stem` (and `OsStr::to_str`, which cannot fail on a
/// stem taken from a `str`): the result depends on the characters alone.
#[verifier::external_body]
fn path_stem(s: &str) -> (r: Option<String>)
    ensures
        match r {
            Some(t) => stem_of(s@) == Some(t@),
            None => stem_of(s@).is_none(),
        },
{
    std::path::Path::new(s).file_stem().and_then(|x| x.to_str()).map(|x| x.to_string())
}

/// Relies on `Path::extension` (and `OsStr::to_str`, which cannot fail on an
/// extension taken from a `str`): the result depends on the characters alone.
#[verifier::external_body]
fn path_extension(s: &str) -> (r: Option<String>)
    ensures
        match r {
            Some(t) => ext_of(s@) == Some(t@),
            None => ext_of(s@).is_none(),
        },
{
    std::path::Path::new(s).extension().and_then(|x| x.to_str()).map(|x| x.to_string())
}

/// Relies on `freedesktop_icons::lookup(..).with_size(..).with_theme(..).find()`.
/// What it returns depends on the icon themes installed on this machine, so
/// nothing is stated of it.
#[verifier::external_body]
pub(crate) fn find_in_theme(name: &str, size: u16, theme: &str) -> (r: Option<String>) {
    freedesktop_icons::lookup(name).with_size(size).with_theme(theme).find().map(
        |p| p.to_string_lossy().into_owned(),
    )
}

/// Size handed to the theme lookup when the requested one does not fit.
pub const LOOKUP_DEFAULT_SIZE: u16 = 256;

/// The two general-purpose themes searched after the active one.
pub open spec fn first_fallback_theme() -> Seq<char> {
    seq!['A', 'd', 'w', 'a', 'i', 't', 'a']
}

pub open spec fn second_fallback_theme() -> Seq<char> {
    seq!['P', 'a', 'p', 'i', 'r', 'u', 's']
}

/// What the filesystem reports of an absolute icon reference.
#[derive(Clone, Copy, Debug, PartialEq, Eq, Structural)]
pub struct FileFacts {
    pub is_file: bool,
    /// Unix permission bits.
    pub mode: u32,
}

/// Why an absolute icon reference was not taken as it stands.
#[derive(Clone, Copy, Debug, PartialEq, Eq, Structural)]
pub enum Rejection {
    Missing,
    NotAFile,
    Unreadable,
    NoExtension,
    UnsupportedExtension,
}

/// Outcome of the absolute-path fast path.
#[derive(Clone, Copy, Debug, PartialEq, Eq, Structural)]
pub enum AbsCheck {
    /// The reference is itself a usable icon file.
    Found,
    /// The reference is absolute but unusable; the theme search goes on.
    Rejected(Rejection),
    /// The reference is not absolute.
    NotApplicable,
}

/// The kinds of source image the renderer understands.
#[derive(Clone, Copy, Debug, PartialEq, Eq, Structural)]
pub enum SourceKind {
    Svg,
    Png,
    Jpeg,
}

/// Kind of a lower-case extension.
pub open spec fn kind_of_ext(e: Seq<char>) -> Option<SourceKind> {
    if e == seq!['s', 'v', 'g'] {
        Some(SourceKind::Svg)
    } else if e == seq!['p', 'n', 'g'] {
        Some(SourceKind::Png)
    } else if e == seq!['j', 'p', 'g'] || e == seq!['j', 'p', 'e', 'g'] {
        Some(SourceKind::Jpeg)
    } else {
        None
    }
}

/// Kind of a path, judged by its extension without regard to case.
pub open spec fn kind_of_path(p: Seq<char>) -> Option<SourceKind> {
    match ext_of(p) {
        Some(e) => kind_of_ext(lower_of(e)),
        None => None,
    }
}

/// The source kind of a path, from its extension, case-insensitively.
pub fn source_kind(path: &str) -> (r: Option<SourceKind>)
    ensures
        r == kind_of_path(path@),
{
    match path_extension(path) {
        None => None,
        Some(e) => {
            let l = lowercase(e.as_str());
            let l = l.as_str();
            proof {
                reveal_strlit("svg");
                reveal_strlit("png");
                reveal_strlit("jpg");
                reveal_strlit("jpeg");
                assert("svg"@ =~= seq!['s', 'v', 'g']);
                assert("png"@ =~= seq!['p', 'n', 'g']);
                assert("jpg"@ =~= seq!['j', 'p', 'g']);
                assert("jpeg"@ =~= seq!['j', 'p', 'e', 'g']);
            }
            if str_eq(l, "svg") {
                Some(SourceKind::Svg)
            } else if str_eq(l, "png") {
                Some(SourceKind::Png)
            } else if str_eq(l, "jpg") || str_eq(l, "jpeg") {
                Some(SourceKind::Jpeg)
            } else {
                None
            }
        },
    }
}

/// Whether the mode grants read access to anyone.
pub open spec fn readable(mode: u32) -> bool {
    mode & 0o444u32 != 0
}

/// The fast-path outcome for `icon`, given what the filesystem says of it.
pub open spec fn abs_check_of(icon: Seq<char>, facts: Option<FileFacts>) -> AbsCheck {
    if !(icon.len() > 0 && icon[0] == '/') {
        AbsCheck::NotApplicable
    } else {
        match facts {
            None => AbsCheck::Rejected(Rejection::Missing),
            Some(f) => if !f.is_file {
                AbsCheck::Rejected(Rejection::NotAFile)
            } else if !readable(f.mode) {
                AbsCheck::Rejected(Rejection::Unreadable)
            } else if ext_of(icon).is_none() {
                AbsCheck::Rejected(Rejection::NoExtension)
            } else if kind_of_path(icon).is_none() {
                AbsCheck::Rejected(Rejection::UnsupportedExtension)
            } else {
                AbsCheck::Found
            },
        }
    }
}

/// Judges an icon reference on the absolute-path fast path. `facts` is what
/// the filesystem reports of the reference (`None` when it cannot be read).
pub fn check_absolute(icon: &str, facts: Option<FileFacts>) -> (r: AbsCheck)
    ensures
        r == abs_check_of(icon@, facts),
{
    if !starts_with_char(icon, '/') {
        return AbsCheck::NotApplicable;
    }
    match facts {
        None => AbsCheck::Rejected(Rejection::Missing),
        Some(f) => {
            if !f.is_file {
                AbsCheck::Rejected(Rejection::NotAFile)
            } else if f.mode & 0o444u32 == 0 {
                AbsCheck::Rejected(Rejection::Unreadable)
            } else if path_extension(icon).is_none() {
                AbsCheck::Rejected(Rejection::NoExtension)
            } else if source_kind(icon).is_none() {
                AbsCheck::Rejected(Rejection::UnsupportedExtension)
            } else {
                AbsCheck::Found
            }
        },
    }
}

/// The name variants tried for a reference, in order: the reference, its
/// lower-case form, its file stem and the stem's lower-case form.
pub open spec fn candidates_of(icon: Seq<char>) -> Seq<Seq<char>> {
    match stem_of(icon) {
        Some(st) => seq![icon, lower_of(icon), st, lower_of(st)],
        None => seq![icon, lower_of(icon)],
    }
}

pub open spec fn views(v: Seq<String>) -> Seq<Seq<char>> {
    v.map_values(|s: String| s@)
}

/// Builds the ordered candidate names for an icon reference.
pub fn candidates(icon: &str) -> (r: Vec<String>)
    ensures
        views(r@) == candidates_of(icon@),
{
    let mut v: Vec<String> = Vec::new();
    v.push(String::from_str(icon));
    v.push(lowercase(icon));
    match path_stem(icon) {
        Some(st) => {
            let l = lowercase(st.as_str());
            v.push(st);
            v.push(l);
        },
        None => {},
    }
    assert(views(v@) =~= candidates_of(icon@));
    v
}

/// The themes searched, in order: the active one, then the two fallbacks.
pub open spec fn themes_of(theme: Seq<char>) -> Seq<Seq<char>> {
    seq![theme, first_fallback_theme(), second_fallback_theme()]
}

/// The ordered lookups of the theme search, as (theme, name) pairs: theme
/// order outside, candidate order inside.
pub open spec fn plan_of(icon: Seq<char>, theme: Seq<char>) -> Seq<(Seq<char>, Seq<char>)> {
    let c = candidates_of(icon);
    Seq::new(
        3 * c.len(),
        |i: int| (themes_of(theme)[i / c.len() as int], c[i % c.len() as int]),
    )
}

/// One lookup of the theme search.
#[derive(Clone, Debug)]
pub struct Query {
    pub theme: String,
    pub name: String,
}

impl Query {
    pub open spec fn view(&self) -> (Seq<char>, Seq<char>) {
        (self.theme@, self.name@)
    }
}

pub open spec fn query_views(v: Seq<Query>) -> Seq<(Seq<char>, Seq<char>)> {
    v.map_values(|q: Query| q.view())
}

/// Builds the ordered lookups of the theme search.
pub fn search_plan(icon: &str, theme: &str) -> (r: Vec<Query>)
    ensures
        query_views(r@) == plan_of(icon@, theme@),
{
    let cands = candidates(icon);
    let m = cands.len();
    let mut themes: Vec<String> = Vec::new();
    themes.push(String::from_str(theme));
    themes.push(String::from_str("Adwaita"));
    themes.push(String::from_str("Papirus"));
    proof {
        reveal_strlit("Adwaita");
        reveal_strlit("Papirus");
        assert("Adwaita"@ =~= first_fallback_theme());
        assert("Papirus"@ =~= second_fallback_theme());
    }
    assert(views(themes@) =~= themes_of(theme@));
    let ghost c = candidates_of(icon@);
    let ghost full = plan_of(icon@, theme@);
    let mut out: Vec<Query> = Vec::new();
    let mut k: usize = 0;
    while k < 3
        invariant
            m == c.len(),
            2 <= m <= 4,
            views(cands@) == c,
            views(themes@) == themes_of(theme@),
            themes@.len() == 3,
            full == plan_of(icon@, theme@),
            c == candidates_of(icon@),
            k <= 3,
            query_views(out@) == full.subrange(0, (k * m) as int),
        decreases 3 - k,
    {
        let mut j: usize = 0;
        while j < m
            invariant
                m == c.len(),
                2 <= m <= 4,
                views(cands@) == c,
                views(themes@) == themes_of(theme@),
                themes@.len() == 3,
                full == plan_of(icon@, theme@),
                c == candidates_of(icon@),
                k < 3,
                j <= m,
                query_views(out@) == full.subrange(0, (k * m + j) as int),
            decreases m - j,
        {
            let q = Query { theme: themes[k].clone(), name: cands[j].clone() };
            proof {
                lemma_fundamental_div_mod_converse((k * m + j) as int, m as int, k as int, j as int);
                assert(views(themes@)[k as int] == themes@[k as int]@);
                assert(views(cands@)[j as int] == cands@[j as int]@);
                assert(k * m + j < 3 * m) by (nonlinear_arith)
                    requires
                        k < 3,
                        j < m,
                ;
                assert(full[(k * m + j) as int] == (themes_of(theme@)[k as int], c[j as int]));
                assert(q.view() == full[(k * m + j) as int]);
            }
            let ghost prev = out@;
            out.push(q);
            proof {
                let n = (k * m + j) as int;
                assert(out@ == prev.push(q));
                assert(query_views(out@) =~= query_views(prev).push(q.view()));
                assert(full.subrange(0, n + 1) =~= full.subrange(0, n).push(full[n]));
                assert(query_views(out@) =~= full.subrange(0, (k * m + j + 1) as int));
            }
            j = j + 1;
        }
        k = k + 1;
        assert((k - 1) * m + m == k * m) by (nonlinear_arith);
    }
    assert(full.subrange(0, (3 * m) as int) =~= full);
    out
}

/// The icon size handed to the theme lookup: the requested size where it
/// fits the lookup's 16-bit size, else 256.
pub fn lookup_size(size: u32) -> (r: u16)
    ensures
        r == (if size <= 0xffff {
            size as u16
        } else {
            LOOKUP_DEFAULT_SIZE
        }),
{
    if size <= 0xffff {
        size as u16
    } else {
        LOOKUP_DEFAULT_SIZE
    }
}

pub open spec fn opt_view(o: Option<String>) -> Option<Seq<char>> {
    match o {
        Some(s) => Some(s@),
        None => None,
    }
}

pub open spec fn hit_views(h: Seq<Option<String>>) -> Seq<Option<Seq<char>>> {
    h.map_values(|o: Option<String>| opt_view(o))
}

/// The first lookup result that found something.
pub open spec fn first_some(h: Seq<Option<Seq<char>>>) -> Option<Seq<char>>
    decreases h.len(),
{
    if h.len() == 0 {
        None
    } else if h[0].is_some() {
        h[0]
    } else {
        first_some(h.drop_first())
    }
}

/// What resolution yields, given the fast-path outcome and the results of
/// the theme lookups in plan order.
pub open spec fn resolution_of(
    icon: Seq<char>,
    check: AbsCheck,
    hits: Seq<Option<Seq<char>>>,
) -> Option<Seq<char>> {
    if check == AbsCheck::Found {
        Some(icon)
    } else {
        first_some(hits)
    }
}

/// Picks the resolved path: the reference itself when the fast path found
/// it, else the first lookup result, in plan order, that found something.
pub fn choose_resolution(icon: &str, check: AbsCheck, hits: &Vec<Option<String>>) -> (r: Option<
    String,
>)
    ensures
        opt_view(r) == resolution_of(icon@, check, hit_views(hits@)),
{
    if check == AbsCheck::Found {
        return Some(String::from_str(icon));
    }
    let ghost h = hit_views(hits@);
    let mut i: usize = 0;
    assert(h.subrange(0, h.len() as int) =~= h);
    while i < hits.len()
        invariant
            h == hit_views(hits@),
            check != AbsCheck::Found,
            i <= hits@.len(),
            first_some(h) == first_some(h.subrange(i as int, h.len() as int)),
        decreases hits.len() - i,
    {
        assert(h.subrange(i as int, h.len() as int)[0] == h[i as int]);
        match &hits[i] {
            Some(p) => {
                let c = p.clone();
                assert(h[i as int] == Some(c@));
                let ghost sub = h.subrange(i as int, h.len() as int);
                assert(sub[0] == Some(c@));
                return Some(c);
            },
            None => {},
        }
        assert(h.subrange(i as int, h.len() as int).drop_first() =~= h.subrange(
            i + 1,
            h.len() as int,
        ));
        i = i + 1;
    }
    None
}

/// Whether `h` is what a run of lookups along a plan of `n` entries gives
/// when it stops at the first hit: every result but the last found nothing,
/// and the run ends early only on a hit.
pub open spec fn stops_at_first_hit(h: Seq<Option<Seq<char>>>, n: int) -> bool {
    &&& h.len() <= n
    &&& forall|j: int| 0 <= j < h.len() - 1 ==> (#[trigger] h[j]).is_none()
    &&& (h.len() < n ==> h.len() > 0 && h[h.len() - 1].is_some())
}

/// Resolves an icon reference to a file path. `facts` is what the
/// filesystem reports of the reference. When the fast path finds the
/// reference usable no theme is consulted; otherwise the plan's lookups run
/// in order and stop at the first that finds something.
pub fn resolve(icon: &str, theme: &str, size: u32, facts: Option<FileFacts>) -> (r: Option<String>)
    ensures
        abs_check_of(icon@, facts) == AbsCheck::Found ==> opt_view(r) == Some(icon@),
        abs_check_of(icon@, facts) != AbsCheck::Found ==> exists|h: Seq<Option<Seq<char>>>|
            stops_at_first_hit(h, plan_of(icon@, theme@).len() as int) && opt_view(r)
                == first_some(h),
{
    let check = check_absolute(icon, facts);
    if check == AbsCheck::Found {
        let r = Some(String::from_str(icon));
        assert(opt_view(r) == resolution_of(icon@, check, Seq::empty()));
        return r;
    }
    let plan = search_plan(icon, theme);
    let wanted = lookup_size(size);
    let mut hits: Vec<Option<String>> = Vec::new();
    let mut i: usize = 0;
    let mut stopped = false;
    while i < plan.len() && !stopped
        invariant
            hits@.len() == i,
            i <= plan@.len(),
            forall|j: int|
                0 <= j < i && !(stopped && j == i - 1) ==> (#[trigger] hits@[j]).is_none(),
            stopped ==> i > 0 && hits@[i - 1].is_some(),
            query_views(plan@) == plan_of(icon@, theme@),
        decreases plan.len() - i,
    {
        let hit = find_in_theme(plan[i].name.as_str(), wanted, plan[i].theme.as_str());
        stopped = hit.is_some();
        hits.push(hit);
        i = i + 1;
    }
    let r = choose_resolution(icon, check, &hits);
    let ghost h = hit_views(hits@);
    assert(h.len() == hits@.len());
    assert forall|j: int| 0 <= j < h.len() - 1 implies (#[trigger] h[j]).is_none() by {
        assert(hits@[j].is_none());
    }
    assert(h.len() > 0 ==> h[h.len() - 1] == opt_view(hits@[h.len() - 1]));
    assert(stops_at_first_hit(h, plan_of(icon@, theme@).len() as int));
    r
}

/// An absolute reference to an existing, readable file of a supported kind
/// resolves to itself, whatever the themes hold.
pub proof fn absolute_reference_resolves_to_itself(
    icon: Seq<char>,
    facts: FileFacts,
    hits: Seq<Option<Seq<char>>>,
)
    requires
        icon.len() > 0,
        icon[0] == '/',
        facts.is_file,
        readable(facts.mode),
        kind_of_path(icon).is_some(),
    ensures
        abs_check_of(icon, Some(facts)) == AbsCheck::Found,
        resolution_of(icon, abs_check_of(icon, Some(facts)), hits) == Some(icon),
{
}

/// An absolute reference to a file whose extension is not supported is not
/// returned: resolution falls through to the theme search.
pub proof fn unsupported_absolute_reference_falls_through(
    icon: Seq<char>,
    facts: FileFacts,
    hits: Seq<Option<Seq<char>>>,
)
    requires
        icon.len() > 0,
        icon[0] == '/',
        facts.is_file,
        readable(facts.mode),
        ext_of(icon).is_some(),
        kind_of_ext(lower_of(ext_of(icon).unwrap())).is_none(),
    ensures
        abs_check_of(icon, Some(facts)) == AbsCheck::Rejected(Rejection::UnsupportedExtension),
        resolution_of(icon, abs_check_of(icon, Some(facts)), hits) == first_some(hits),
{
}

/// `first_some` picks the entry at `j` when every earlier entry is empty.
proof fn first_some_at(h: Seq<Option<Seq<char>>>, j: int)
    requires
        0 <= j < h.len(),
        h[j].is_some(),
        forall|k: int| 0 <= k < j ==> h[k].is_none(),
    ensures
        first_some(h) == h[j],
    decreases j,
{
    if j > 0 {
        first_some_at(h.drop_first(), j - 1);
    }
}

/// When the active theme has none of the candidates and the first fallback
/// theme has one, resolution returns what the first fallback theme gave, for
/// the earliest candidate it has.
pub proof fn fallback_theme_order(
    icon: Seq<char>,
    theme: Seq<char>,
    check: AbsCheck,
    hits: Seq<Option<Seq<char>>>,
    j: int,
)
    requires
        check != AbsCheck::Found,
        hits.len() == plan_of(icon, theme).len(),
        candidates_of(icon).len() <= j < 2 * candidates_of(icon).len(),
        hits[j].is_some(),
        forall|k: int| 0 <= k < j ==> hits[k].is_none(),
    ensures
        resolution_of(icon, check, hits) == hits[j],
        plan_of(icon, theme)[j].0 == first_fallback_theme(),
{
    let m = candidates_of(icon).len() as int;
    first_some_at(hits, j);
    lemma_fundamental_div_mod_converse(j, m, 1, j - m);
}

} // verus!
