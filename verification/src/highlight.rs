//! Syntax highlighting of code blocks. Syntect finds the syntax and the
//! theme and highlights each line; the choice of syntax, the splitting into
//! lines and the handling of a failing line are this module's own.
use vstd::prelude::*;

use syntect::easy::HighlightLines;
use syntect::highlighting::{Style, Theme, ThemeSet};
use syntect::parsing::{SyntaxReference, SyntaxSet};
use syntect::util::as_24_bit_terminal_escaped;

use crate::spec::HIGHLIGHT_THEME;
use crate::text::{lemma_split_on_nonempty, push_char, split_on, split_on_char, views};

verus! {

#[verifier::external_type_specification]
#[verifier::external_body]
pub struct ExSyntaxSet(syntect::parsing::SyntaxSet);

#[verifier::external_type_specification]
#[verifier::external_body]
pub struct ExSyntaxReference(syntect::parsing::SyntaxReference);

#[verifier::external_type_specification]
#[verifier::external_body]
pub struct ExThemeSet(syntect::highlighting::ThemeSet);

#[verifier::external_type_specification]
#[verifier::external_body]
pub struct ExTheme(syntect::highlighting::Theme);

#[verifier::external_type_specification]
#[verifier::external_body]
pub struct ExStyle(syntect::highlighting::Style);

#[verifier::external_type_specification]
#[verifier::external_body]
pub struct ExHighlightLines<'a>(syntect::easy::HighlightLines<'a>);

// ---------------------------------------------------------------------------
// What syntect gives, by name
// ---------------------------------------------------------------------------

/// Whether a syntax set is syntect's default one (with newlines).
pub uninterp spec fn is_default_syntax_set(ss: SyntaxSet) -> bool;

/// Whether a theme set is syntect's default one.
pub uninterp spec fn is_default_theme_set(ts: ThemeSet) -> bool;

/// The syntax of the default set that `find_syntax_by_token` finds for a token.
pub uninterp spec fn syntax_by_token(token: Seq<char>) -> Option<SyntaxReference>;

/// The syntax of the default set that `find_syntax_by_extension` finds for an
/// extension.
pub uninterp spec fn syntax_by_extension(extension: Seq<char>) -> Option<SyntaxReference>;

/// The default theme of a name.
pub uninterp spec fn theme_by_name(name: Seq<char>) -> Option<Theme>;

/// What a highlighter holds: the syntax and theme it was made with, and the
/// lines it has highlighted so far.
pub uninterp spec fn highlighter_state(h: HighlightLines) -> (SyntaxReference, Theme, Seq<Seq<char>>);

/// The styled pieces that `highlight_line` gives for `line`, in a highlighter
/// of `syntax` and `theme` over the default syntaxes that has highlighted the
/// lines `before`; `None` where it fails.
pub uninterp spec fn syntect_ranges(
    syntax: SyntaxReference,
    theme: Theme,
    before: Seq<Seq<char>>,
    line: Seq<char>,
) -> Option<Seq<(Style, Seq<char>)>>;

/// The text that `as_24_bit_terminal_escaped` (without background) gives for
/// styled pieces.
pub uninterp spec fn terminal_escaped_text(ranges: Seq<(Style, Seq<char>)>) -> Seq<char>;

/// The view of styled pieces.
pub open spec fn ranges_view(v: Seq<(Style, String)>) -> Seq<(Style, Seq<char>)> {
    v.map_values(|p: (Style, String)| (p.0, p.1@))
}

// ---------------------------------------------------------------------------
// Calls into syntect
// ---------------------------------------------------------------------------

/// `SyntaxSet::load_defaults_newlines`: the default syntaxes, embedded in
/// syntect.
#[verifier::external_body]
fn load_default_syntaxes() -> (r: SyntaxSet)
    ensures
        is_default_syntax_set(r),
{
    SyntaxSet::load_defaults_newlines()
}

/// `ThemeSet::load_defaults`: the default themes, embedded in syntect.
#[verifier::external_body]
fn load_default_themes() -> (r: ThemeSet)
    ensures
        is_default_theme_set(r),
{
    ThemeSet::load_defaults()
}

/// `SyntaxSet::find_syntax_by_token` on the default syntaxes.
#[verifier::external_body]
fn find_syntax_by_token<'a>(ss: &'a SyntaxSet, token: &str) -> (r: Option<&'a SyntaxReference>)
    requires
        is_default_syntax_set(*ss),
    ensures
        r matches Some(s) ==> syntax_by_token(token@) == Some(*s),
        r is None ==> syntax_by_token(token@) is None,
{
    ss.find_syntax_by_token(token)
}

/// `SyntaxSet::find_syntax_by_extension` on the default syntaxes.
#[verifier::external_body]
fn find_syntax_by_extension<'a>(ss: &'a SyntaxSet, extension: &str) -> (r: Option<
    &'a SyntaxReference,
>)
    requires
        is_default_syntax_set(*ss),
    ensures
        r matches Some(s) ==> syntax_by_extension(extension@) == Some(*s),
        r is None ==> syntax_by_extension(extension@) is None,
{
    ss.find_syntax_by_extension(extension)
}

/// The theme of a name among the default themes (`BTreeMap::get` on
/// `ThemeSet::themes`).
#[verifier::external_body]
fn find_theme<'a>(ts: &'a ThemeSet, name: &str) -> (r: Option<&'a Theme>)
    requires
        is_default_theme_set(*ts),
    ensures
        r matches Some(t) ==> theme_by_name(name@) == Some(*t),
        r is None ==> theme_by_name(name@) is None,
{
    ts.themes.get(name)
}

/// `HighlightLines::new`: a highlighter that has highlighted nothing yet.
#[verifier::external_body]
fn new_highlighter<'a>(syntax: &SyntaxReference, theme: &'a Theme) -> (r: HighlightLines<'a>)
    ensures
        highlighter_state(r) == (*syntax, *theme, Seq::<Seq<char>>::empty()),
{
    HighlightLines::new(syntax, theme)
}

/// `HighlightLines::highlight_line` over the default syntaxes, its pieces
/// copied into owned strings; `None` for its error. A line that it highlights
/// is added to what the highlighter has seen; nothing is said of the
/// highlighter after an error.
/// Nothing is said of a panic: syntect compiles the regexes of its bundled
/// syntaxes when they are first used and panics on one that Oniguruma
/// refuses, taking them to have been tested when the bundle was made.
#[verifier::external_body]
fn highlight_line(h: &mut HighlightLines, line: &str, ss: &SyntaxSet) -> (r: Option<
    Vec<(Style, String)>,
>)
    requires
        is_default_syntax_set(*ss),
    ensures
        r matches Some(v) ==> syntect_ranges(
            highlighter_state(*old(h)).0,
            highlighter_state(*old(h)).1,
            highlighter_state(*old(h)).2,
            line@,
        ) == Some(ranges_view(v@)),
        r is None ==> syntect_ranges(
            highlighter_state(*old(h)).0,
            highlighter_state(*old(h)).1,
            highlighter_state(*old(h)).2,
            line@,
        ) is None,
        r is Some ==> highlighter_state(*final(h)) == (
            highlighter_state(*old(h)).0,
            highlighter_state(*old(h)).1,
            highlighter_state(*old(h)).2.push(line@),
        ),
{
    match h.highlight_line(line, ss) {
        Ok(v) => Some(v.into_iter().map(|(s, t)| (s, t.to_string())).collect()),
        Err(_) => None,
    }
}

/// `as_24_bit_terminal_escaped` without background, on styled pieces.
#[verifier::external_body]
fn escape_for_terminal(ranges: &Vec<(Style, String)>) -> (r: String)
    ensures
        r@ == terminal_escaped_text(ranges_view(ranges@)),
{
    let v: Vec<(Style, &str)> = ranges.iter().map(|(s, t)| (*s, t.as_str())).collect();
    as_24_bit_terminal_escaped(&v, false)
}

// ---------------------------------------------------------------------------
// Highlighting a block of code
// ---------------------------------------------------------------------------

/// The lines of `s`, each with its line ending, as syntect's
/// `LinesWithEndings` gives them: none for the empty text, and a last line
/// without ending where `s` does not end with one.
pub open spec fn lines_with_endings(s: Seq<char>) -> Seq<Seq<char>> {
    let p = split_on(s, '\n');
    let ended = p.drop_last().map_values(|l: Seq<char>| l.push('\n'));
    if p.last().len() == 0 {
        ended
    } else {
        ended.push(p.last())
    }
}

/// The syntax that a code block's language selects: by token, else by
/// extension.
pub open spec fn chosen_syntax(language: Seq<char>) -> Option<SyntaxReference> {
    match syntax_by_token(language) {
        Some(s) => Some(s),
        None => syntax_by_extension(language),
    }
}

/// The escaped highlighting of the first `n` lines, one after the other in
/// one highlighter; `None` where a line fails.
pub open spec fn highlighted_prefix(
    syntax: SyntaxReference,
    theme: Theme,
    lines: Seq<Seq<char>>,
    n: nat,
) -> Option<Seq<Seq<char>>>
    decreases n,
{
    if n == 0 {
        Some(Seq::empty())
    } else {
        match highlighted_prefix(syntax, theme, lines, (n - 1) as nat) {
            Some(prev) => match syntect_ranges(syntax, theme, lines.take(n - 1), lines[n - 1]) {
                Some(rg) => Some(prev.push(terminal_escaped_text(rg))),
                None => None,
            },
            None => None,
        }
    }
}

/// The highlighted lines of `code` in `language` with the default theme
/// `theme`: `None` where no syntax is found, the theme is missing, or a line
/// fails.
pub open spec fn highlighted_code(language: Seq<char>, theme: Seq<char>, code: Seq<char>) -> Option<
    Seq<Seq<char>>,
> {
    match chosen_syntax(language) {
        None => None,
        Some(s) => match theme_by_name(theme) {
            None => None,
            Some(t) => highlighted_prefix(s, t, lines_with_endings(code), lines_with_endings(code).len()),
        },
    }
}

proof fn lemma_highlighted_prefix(syntax: SyntaxReference, theme: Theme, lines: Seq<Seq<char>>, n: nat)
    ensures
        highlighted_prefix(syntax, theme, lines, n) matches Some(v) ==> v.len() == n && (forall|
            i: int,
        |
            0 <= i < n ==> ((#[trigger] syntect_ranges(syntax, theme, lines.take(i), lines[i]))
                matches Some(rg) && v[i] == terminal_escaped_text(rg))),
    decreases n,
{
    if n > 0 {
        lemma_highlighted_prefix(syntax, theme, lines, (n - 1) as nat);
    }
}

proof fn lemma_failure_stays(syntax: SyntaxReference, theme: Theme, lines: Seq<Seq<char>>, k: nat, m: nat)
    requires
        k <= m,
        highlighted_prefix(syntax, theme, lines, k) is None,
    ensures
        highlighted_prefix(syntax, theme, lines, m) is None,
    decreases m,
{
    if k < m {
        lemma_failure_stays(syntax, theme, lines, k, (m - 1) as nat);
    }
}

/// The lines of `text`, each with its line ending (`LinesWithEndings`).
pub fn lines_with_endings_of(text: &str) -> (r: Vec<String>)
    ensures
        views(r@) == lines_with_endings(text@),
{
    let parts = split_on_char(text, '\n');
    proof {
        lemma_split_on_nonempty(text@, '\n');
    }
    let ghost p = views(parts@);
    let n = parts.len();
    let mut out: Vec<String> = Vec::new();
    let mut i: usize = 0;
    while i + 1 < n
        invariant
            n == parts.len(),
            n >= 1,
            p == views(parts@),
            i < n,
            out.len() == i,
            forall|j: int| 0 <= j < i ==> (#[trigger] out@[j])@ == p[j].push('\n'),
        decreases n - i,
    {
        let mut l = parts[i].clone();
        push_char(&mut l, '\n');
        out.push(l);
        i = i + 1;
    }
    let last = parts[n - 1].clone();
    let ghost ended = p.drop_last().map_values(|l: Seq<char>| l.push('\n'));
    assert(views(out@) =~= ended);
    if last.as_str().is_empty() {
        out
    } else {
        out.push(last);
        assert(views(out@) =~= ended.push(p.last()));
        out
    }
}

/// The lines of `value` highlighted for the terminal in `language` with the
/// crate's theme: the syntax is found by token, else by extension; each line
/// keeps its line ending; `None` where no syntax or theme is found or syntect
/// fails on a line.
pub fn render_syntax_highlighted_code(language: &str, value: &str) -> (r: Option<Vec<String>>)
    ensures
        r matches Some(v) ==> highlighted_code(language@, HIGHLIGHT_THEME@, value@) == Some(
            views(v@),
        ),
        r is None ==> highlighted_code(language@, HIGHLIGHT_THEME@, value@) is None,
        chosen_syntax(language@) is None ==> r is None,
        theme_by_name(HIGHLIGHT_THEME@) is None ==> r is None,
        r matches Some(v) ==> v@.len() == lines_with_endings(value@).len() && (forall|i: int|
            0 <= i < v@.len() ==> ((#[trigger] syntect_ranges(
                chosen_syntax(language@)->0,
                theme_by_name(HIGHLIGHT_THEME@)->0,
                lines_with_endings(value@).take(i),
                lines_with_endings(value@)[i],
            )) matches Some(rg) && v@[i]@ == terminal_escaped_text(rg))),
{
    let ss = load_default_syntaxes();
    let ts = load_default_themes();
    let syntax = match find_syntax_by_token(&ss, language) {
        Some(s) => s,
        None => match find_syntax_by_extension(&ss, language) {
            Some(s) => s,
            None => return None,
        },
    };
    let theme = match find_theme(&ts, HIGHLIGHT_THEME) {
        Some(t) => t,
        None => return None,
    };
    let ghost st = *syntax;
    let ghost th = *theme;
    let mut h = new_highlighter(syntax, theme);
    let lines = lines_with_endings_of(value);
    let ghost ls = views(lines@);
    let mut out: Vec<String> = Vec::new();
    let mut i: usize = 0;
    while i < lines.len()
        invariant
            i <= lines.len(),
            ls == views(lines@),
            ls == lines_with_endings(value@),
            is_default_syntax_set(ss),
            chosen_syntax(language@) == Some(st),
            theme_by_name(HIGHLIGHT_THEME@) == Some(th),
            highlighter_state(h) == (st, th, ls.take(i as int)),
            highlighted_prefix(st, th, ls, i as nat) == Some(views(out@)),
        decreases lines.len() - i,
    {
        match highlight_line(&mut h, lines[i].as_str(), &ss) {
            Some(ranges) => {
                let ghost prev = views(out@);
                let escaped = escape_for_terminal(&ranges);
                out.push(escaped);
                assert(ls.take(i as int).push(ls[i as int]) =~= ls.take(i + 1));
                assert(views(out@) =~= prev.push(escaped@));
                i = i + 1;
            },
            None => {
                proof {
                    assert(highlighted_prefix(st, th, ls, (i + 1) as nat) is None);
                    lemma_failure_stays(st, th, ls, (i + 1) as nat, ls.len());
                }
                return None;
            },
        }
    }
    assert(ls.take(ls.len() as int) =~= ls);
    proof {
        lemma_highlighted_prefix(st, th, ls, ls.len());
    }
    Some(out)
}

} // verus!
