//! The orchestrator's decisions: the size argument, the active theme name,
//! the entry's icon field, routing by source kind, and the stage machine
//! that sends every failure to the fallback thumbnail.
use vstd::prelude::*;
use crate::raster::RasterFormat;
use crate::resolve::{find_in_theme, first_fallback_theme, kind_of_path, Query, lookup_size, source_kind, SourceKind};
use crate::text::{strip_char, trim, trim_char, trim_of};

verus! {

/// Edge used when the size argument is zero.
pub const DEFAULT_SIZE: u32 = 256;

/// Value of a string of decimal digits.
pub open spec fn digits_value(s: Seq<char>) -> int
    decreases s.len(),
{
    if s.len() == 0 {
        0
    } else {
        digits_value(s.drop_last()) * 10 + (s.last() as int - '0' as int)
    }
}

pub open spec fn all_digits(s: Seq<char>) -> bool {
    forall|i: int| 0 <= i < s.len() ==> '0' <= #[trigger] s[i] <= '9'
}

/// How an unsigned 32-bit decimal reads: an optional `+`, then one or more
/// digits whose value fits.
pub open spec fn size_arg_of(s: Seq<char>) -> Option<u32> {
    let d = if s.len() > 0 && s[0] == '+' {
        s.drop_first()
    } else {
        s
    };
    if d.len() > 0 && all_digits(d) && digits_value(d) <= u32::MAX {
        Some(digits_value(d) as u32)
    } else {
        None
    }
}

proof fn lemma_digits_value_nonneg(s: Seq<char>)
    requires
        all_digits(s),
    ensures
        digits_value(s) >= 0,
    decreases s.len(),
{
    if s.len() > 0 {
        lemma_digits_value_nonneg(s.drop_last());
    }
}

proof fn lemma_digits_value_grows(s: Seq<char>, i: int)
    requires
        all_digits(s),
        0 <= i <= s.len(),
    ensures
        digits_value(s.subrange(0, i)) <= digits_value(s),
    decreases s.len() - i,
{
    if i < s.len() {
        let a = s.subrange(0, i);
        let b = s.subrange(0, i + 1);
        assert(b.drop_last() =~= a);
        lemma_digits_value_nonneg(a);
        lemma_digits_value_grows(s, i + 1);
    } else {
        assert(s.subrange(0, i) =~= s);
    }
}

/// Reads an unsigned 32-bit decimal, as `u32::from_str` does.
pub fn parse_size(arg: &str) -> (r: Option<u32>)
    ensures
        r == size_arg_of(arg@),
{
    let n = arg.unicode_len();
    let mut start: usize = 0;
    if n > 0 && arg.get_char(0) == '+' {
        start = 1;
    }
    let ghost d = arg@.subrange(start as int, n as int);
    proof {
        if start == 1 {
            assert(d =~= arg@.drop_first());
        } else {
            assert(d =~= arg@);
        }
    }
    if start == n {
        return None;
    }
    let mut acc: u64 = 0;
    let mut i: usize = start;
    while i < n
        invariant
            n == arg@.len(),
            start <= i <= n,
            d == arg@.subrange(start as int, n as int),
            d == (if arg@.len() > 0 && arg@[0] == '+' {
                arg@.drop_first()
            } else {
                arg@
            }),
            d.len() > 0,
            all_digits(d.subrange(0, i - start)),
            acc == digits_value(d.subrange(0, i - start)),
            acc <= u32::MAX,
        decreases n - i,
    {
        let c = arg.get_char(i);
        let ghost pre = d.subrange(0, i - start);
        let ghost next = d.subrange(0, i - start + 1);
        assert(next.drop_last() =~= pre);
        assert(next.last() == c);
        if c < '0' || c > '9' {
            assert(!all_digits(d)) by {
                assert(d[i - start] == c);
            }
            return None;
        }
        assert(all_digits(next));
        let v = acc * 10 + (c as u64 - '0' as u64);
        if v > 0xffff_ffffu64 {
            proof {
                if all_digits(d) {
                    lemma_digits_value_grows(d, i - start + 1);
                }
            }
            return None;
        }
        acc = v;
        i = i + 1;
    }
    assert(d.subrange(0, n - start) =~= d);
    Some(acc as u32)
}

/// The edge actually rendered: zero stands for the default.
pub open spec fn effective_size(n: u32) -> u32 {
    if n == 0 {
        DEFAULT_SIZE
    } else {
        n
    }
}

/// Replaces a zero size by the default.
pub fn normalize_size(n: u32) -> (r: u32)
    ensures
        r == effective_size(n),
        r > 0,
{
    if n == 0 {
        DEFAULT_SIZE
    } else {
        n
    }
}

/// Reads the size argument: `None` when it is no unsigned 32-bit decimal,
/// else its value with zero replaced by the default.
pub fn size_from_arg(arg: &str) -> (r: Option<u32>)
    ensures
        r == (match size_arg_of(arg@) {
            Some(n) => Some(effective_size(n)),
            None => None,
        }),
        r is Some ==> r->Some_0 > 0,
{
    match parse_size(arg) {
        Some(n) => Some(normalize_size(n)),
        None => None,
    }
}

/// Theme used when the desktop reports none.
pub open spec fn default_theme() -> Seq<char> {
    seq!['h', 'i', 'c', 'o', 'l', 'o', 'r']
}

/// The active theme name, from whether the preference query succeeded and
/// what it printed: the output trimmed of white space and then of quotes,
/// or the default theme when the query failed or printed nothing.
pub open spec fn theme_of(succeeded: bool, output: Seq<char>) -> Seq<char> {
    let t = strip_char(trim_of(output), '\'');
    if !succeeded || t.len() == 0 {
        default_theme()
    } else {
        t
    }
}

/// Derives the active theme name from the preference query's outcome.
pub fn theme_from_query(succeeded: bool, output: &str) -> (r: String)
    ensures
        r@ == theme_of(succeeded, output@),
        r@.len() > 0,
{
    let t = trim_char(trim(output), '\'');
    if !succeeded || t.unicode_len() == 0 {
        proof {
            reveal_strlit("hicolor");
            assert("hicolor"@ =~= default_theme());
        }
        String::from_str("hicolor")
    } else {
        String::from_str(t)
    }
}

/// How a resolved path is rendered.
#[derive(Clone, Copy, Debug, PartialEq, Eq, Structural)]
pub enum Route {
    Vector,
    Raster(RasterFormat),
    Unsupported,
}

pub open spec fn route_of(path: Seq<char>) -> Route {
    match kind_of_path(path) {
        Some(SourceKind::Svg) => Route::Vector,
        Some(SourceKind::Png) => Route::Raster(RasterFormat::Png),
        Some(SourceKind::Jpeg) => Route::Raster(RasterFormat::Jpeg),
        None => Route::Unsupported,
    }
}

/// Chooses the rendering route of a resolved path from its extension,
/// without regard to case.
pub fn route(path: &str) -> (r: Route)
    ensures
        r == route_of(path@),
{
    match source_kind(path) {
        Some(SourceKind::Svg) => Route::Vector,
        Some(SourceKind::Png) => Route::Raster(RasterFormat::Png),
        Some(SourceKind::Jpeg) => Route::Raster(RasterFormat::Jpeg),
        None => Route::Unsupported,
    }
}

/// The stages of one request.
#[derive(Clone, Copy, Debug, PartialEq, Eq, Structural)]
pub enum Stage {
    ParseEntry,
    ResolveIcon,
    Render,
    /// Looking up the generic fallback icon.
    Fallback,
    RenderFallback,
    /// A thumbnail was written.
    Done,
    /// Nothing could be rendered; no file is written.
    Terminal,
}

pub open spec fn next_stage_of(stage: Stage, succeeded: bool) -> Stage {
    match stage {
        Stage::ParseEntry => if succeeded {
            Stage::ResolveIcon
        } else {
            Stage::Fallback
        },
        Stage::ResolveIcon => if succeeded {
            Stage::Render
        } else {
            Stage::Fallback
        },
        Stage::Render => if succeeded {
            Stage::Done
        } else {
            Stage::Fallback
        },
        Stage::Fallback => if succeeded {
            Stage::RenderFallback
        } else {
            Stage::Terminal
        },
        Stage::RenderFallback => if succeeded {
            Stage::Done
        } else {
            Stage::Terminal
        },
        Stage::Done => Stage::Done,
        Stage::Terminal => Stage::Terminal,
    }
}

/// The stage that follows `stage` once its work succeeded or failed: a
/// failure on the main path goes to the fallback, a failure of the fallback
/// ends without output, and nothing is retried.
pub fn next_stage(stage: Stage, succeeded: bool) -> (r: Stage)
    ensures
        r == next_stage_of(stage, succeeded),
{
    match stage {
        Stage::ParseEntry => if succeeded {
            Stage::ResolveIcon
        } else {
            Stage::Fallback
        },
        Stage::ResolveIcon => if succeeded {
            Stage::Render
        } else {
            Stage::Fallback
        },
        Stage::Render => if succeeded {
            Stage::Done
        } else {
            Stage::Fallback
        },
        Stage::Fallback => if succeeded {
            Stage::RenderFallback
        } else {
            Stage::Terminal
        },
        Stage::RenderFallback => if succeeded {
            Stage::Done
        } else {
            Stage::Terminal
        },
        Stage::Done => Stage::Done,
        Stage::Terminal => Stage::Terminal,
    }
}

/// Name of the generic icon rendered when nothing else can be.
pub open spec fn generic_icon_name() -> Seq<char> {
    seq![
        'a', 'p', 'p', 'l', 'i', 'c', 'a', 't', 'i', 'o', 'n', '-', 'x', '-', 'g', 'e', 'n', 'e',
        'r', 'i', 'c'
    ]
}

/// The single lookup of the fallback provider: the generic icon in the first
/// fallback theme.
pub fn fallback_query() -> (r: Query)
    ensures
        r.view() == (first_fallback_theme(), generic_icon_name()),
{
    proof {
        reveal_strlit("Adwaita");
        reveal_strlit("application-x-generic");
        assert("Adwaita"@ =~= first_fallback_theme());
        assert("application-x-generic"@ =~= generic_icon_name());
    }
    Query {
        theme: String::from_str("Adwaita"),
        name: String::from_str("application-x-generic"),
    }
}

/// Makes the fallback provider's one lookup, `fallback_query` at
/// `lookup_size(size)`. What it finds depends on the installed themes.
pub fn fallback_icon(size: u32) -> (r: Option<String>) {
    let q = fallback_query();
    find_in_theme(q.name.as_str(), lookup_size(size), q.theme.as_str())
}

/// Whether the entry format parser accepts the bytes.
pub uninterp spec fn entry_parses(bytes: Seq<u8>) -> bool;

/// The first value of `Icon` in the `Desktop Entry` section of parsed bytes.
pub uninterp spec fn icon_field_of(bytes: Seq<u8>) -> Option<Seq<char>>;

/// Relies on `freedesktop_entry_parser::Entry::parse` and `Entry::get`:
/// whether the bytes parse, and the values of `Icon` in the `Desktop Entry`
/// section, depend on the bytes alone; the first value is taken.
#[verifier::external_body]
fn entry_icon_field(bytes: &[u8]) -> (r: Option<Option<String>>)
    ensures
        r is Some == entry_parses(bytes@),
        r is Some ==> match r->Some_0 {
            Some(s) => icon_field_of(bytes@) == Some(s@),
            None => icon_field_of(bytes@).is_none(),
        },
{
    let entry = freedesktop_entry_parser::Entry::parse(bytes).ok()?;
    Some(entry.get("Desktop Entry", "Icon").and_then(|v| v.first()).cloned())
}

/// Why no icon reference came out of an entry.
#[derive(Clone, Copy, Debug, PartialEq, Eq, Structural)]
pub enum EntryError {
    /// The entry file is not in the entry format.
    Unparseable,
    /// The `Desktop Entry` section has no `Icon` field.
    MissingIcon,
}

/// Reads the icon reference of an entry file's bytes. A missing field is an
/// error of its own, apart from a file that does not parse.
pub fn icon_reference(bytes: &[u8]) -> (r: Result<String, EntryError>)
    ensures
        match r {
            Ok(s) => entry_parses(bytes@) && icon_field_of(bytes@) == Some(s@),
            Err(EntryError::Unparseable) => !entry_parses(bytes@),
            Err(EntryError::MissingIcon) => entry_parses(bytes@) && icon_field_of(bytes@).is_none(),
        },
{
    match entry_icon_field(bytes) {
        None => Err(EntryError::Unparseable),
        Some(Some(icon)) => Ok(icon),
        Some(None) => Err(EntryError::MissingIcon),
    }
}

} // verus!
