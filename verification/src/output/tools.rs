//! Formatting of bodies and headers, and syntax highlighting.
use crate::cli::KV;
use crate::error::ToolError;
use crate::pairs::{pairs_of, Pair};
use crate::text::{chars_of, concat, first_where, lemma_first_where_is, lines, slice_text};
use crate::utils::same_text;
use syntect::easy::HighlightLines;
use syntect::highlighting::{Style, Theme, ThemeSet};
use syntect::parsing::{SyntaxReference, SyntaxSet};
use syntect::util::as_24_bit_terminal_escaped;
use vstd::prelude::*;

verus! {

/// The syntax definitions of `syntect`.
#[verifier::external_type_specification]
#[verifier::external_body]
pub struct ExSyntaxSet(SyntaxSet);

/// One syntax definition of `syntect`.
#[verifier::external_type_specification]
#[verifier::external_body]
pub struct ExSyntaxReference(SyntaxReference);

/// The color themes of `syntect`.
#[verifier::external_type_specification]
#[verifier::external_body]
pub struct ExThemeSet(ThemeSet);

/// One color theme of `syntect`.
#[verifier::external_type_specification]
#[verifier::external_body]
pub struct ExTheme(Theme);

/// The colors and the font style that `syntect` gives to a piece of text.
#[verifier::external_type_specification]
#[verifier::external_body]
pub struct ExStyle(Style);

/// The line highlighter of `syntect`, which carries its state from line to line.
#[verifier::external_type_specification]
#[verifier::external_body]
pub struct ExHighlightLines<'a>(HighlightLines<'a>);

/// The failure that `syntect` reports.
#[verifier::external_type_specification]
#[verifier::external_body]
pub struct ExHighlightError(syntect::Error);

/// The names of the syntax definitions that a `SyntaxSet` holds.
pub uninterp spec fn syntax_names(set: SyntaxSet) -> Set<Seq<char>>;

/// Whether `syntax` is one of the syntax definitions of `set`.
pub uninterp spec fn syntax_in(syntax: SyntaxReference, set: SyntaxSet) -> bool;

/// The syntax that `SyntaxSet::find_syntax_by_extension` finds in `set` for
/// the file extension `extension`.
pub uninterp spec fn syntax_for(set: SyntaxSet, extension: Seq<char>) -> Option<SyntaxReference>;

/// The syntax for plain text that `SyntaxSet::find_syntax_plain_text` finds in
/// `set`.
pub uninterp spec fn plain_syntax(set: SyntaxSet) -> SyntaxReference;

/// The theme that `set` holds under the key `name`.
pub uninterp spec fn theme_for(set: ThemeSet, name: Seq<char>) -> Option<Theme>;

/// The highlighter that `HighlightLines::new` makes for a syntax and a theme.
pub uninterp spec fn started(syntax: SyntaxReference, theme: Theme) -> HighlightLines<'static>;

/// Whether the highlighter `h` was made for a syntax of `set`.
pub uninterp spec fn made_for(h: HighlightLines<'static>, set: SyntaxSet) -> bool;

/// The texts of the fragments into which `HighlightLines::highlight_line` cuts
/// `line` when the highlighter is `h`, or `None` where it reports a failure.
pub uninterp spec fn line_outcome(
    h: HighlightLines<'static>,
    line: Seq<char>,
    set: SyntaxSet,
) -> Option<Seq<Seq<char>>>;

/// The styles that `HighlightLines::highlight_line` gives to those fragments.
pub uninterp spec fn line_styles(
    h: HighlightLines<'static>,
    line: Seq<char>,
    set: SyntaxSet,
) -> Seq<Style>;

/// The highlighter `h` after `HighlightLines::highlight_line` has taken `line`.
pub uninterp spec fn advanced(
    h: HighlightLines<'static>,
    line: Seq<char>,
    set: SyntaxSet,
) -> HighlightLines<'static>;

/// The red, green and blue parts of the foreground that
/// `as_24_bit_terminal_escaped` sets for `style`.
pub uninterp spec fn shown_color(style: Style) -> (u8, u8, u8);

/// The names of the themes that come with `syntect`.
pub open spec fn bundled_themes() -> Set<Seq<char>> {
    set![
        "base16-ocean.dark"@,
        "base16-eighties.dark"@,
        "base16-mocha.dark"@,
        "base16-ocean.light"@,
        "InspiredGitHub"@,
        "Solarized (dark)"@,
        "Solarized (light)"@,
    ]
}

/// The keys under which `set` holds a theme.
pub open spec fn theme_names(set: ThemeSet) -> Set<Seq<char>> {
    Set::new(|name: Seq<char>| theme_for(set, name) is Some)
}

/// The texts of styled fragments, in order.
pub open spec fn fragment_texts(v: Seq<(Style, &str)>) -> Seq<Seq<char>> {
    v.map_values(|e: (Style, &str)| e.1@)
}

/// The styles of styled fragments, in order.
pub open spec fn fragment_styles(v: Seq<(Style, &str)>) -> Seq<Style> {
    v.map_values(|e: (Style, &str)| e.0)
}

/// The decimal digits of `n`.
pub open spec fn decimal(n: nat) -> Seq<char>
    decreases n,
{
    if n < 10 {
        seq![(('0' as u32) + n) as char]
    } else {
        decimal(n / 10).push((('0' as u32) + n % 10) as char)
    }
}

/// The escape code that sets the foreground of a terminal to the color with
/// the parts `r`, `g` and `b`.
pub open spec fn color_code(r: u8, g: u8, b: u8) -> Seq<char> {
    "\x1b[38;2;"@ + decimal(r as nat) + ";"@ + decimal(g as nat) + ";"@ + decimal(b as nat)
        + "m"@
}

/// The escape code of the color with the parts `rgb`.
pub open spec fn code_of(rgb: (u8, u8, u8)) -> Seq<char> {
    color_code(rgb.0, rgb.1, rgb.2)
}

/// Whether `c` is the escape code of some foreground color.
pub open spec fn is_color_code(c: Seq<char>) -> bool {
    exists|r: u8, g: u8, b: u8| c == #[trigger] color_code(r, g, b)
}

/// Whether each of `codes` is the escape code of some foreground color.
pub open spec fn color_codes(codes: Seq<Seq<char>>) -> bool {
    forall|i: int| 0 <= i < codes.len() ==> is_color_code(#[trigger] codes[i])
}

/// The parts of a text, each behind the code of the same index.
pub open spec fn woven(codes: Seq<Seq<char>>, parts: Seq<Seq<char>>) -> Seq<char>
    decreases parts.len(),
{
    if parts.len() == 0 || codes.len() != parts.len() {
        Seq::empty()
    } else {
        woven(codes.drop_last(), parts.drop_last()) + codes.last() + parts.last()
    }
}

/// Whether `out` is `text` in colors: `text` cut into parts, with the escape
/// code of a foreground color in front of each part and nothing else added.
pub open spec fn colored(out: Seq<char>, text: Seq<char>) -> bool {
    exists|codes: Seq<Seq<char>>, parts: Seq<Seq<char>>|
        codes.len() == parts.len() && color_codes(codes) && concat(parts) == text && out
            == #[trigger] woven(codes, parts)
}

/// `SyntaxSet::load_defaults_newlines` reads the syntax definitions that come
/// with `syntect`. The syntax for plain text, which is called `Plain Text`, is
/// among them: the sets that come with `syntect` are made with
/// `SyntaxSetBuilder::add_plain_text_syntax`.
pub assume_specification[ SyntaxSet::load_defaults_newlines ]() -> (r: SyntaxSet)
    ensures
        syntax_names(r).contains("Plain Text"@),
;

/// `ThemeSet::load_defaults` reads the themes that come with `syntect`. Its
/// documentation gives the keys of the map that it returns.
pub assume_specification[ ThemeSet::load_defaults ]() -> (r: ThemeSet)
    ensures
        bundled_themes().subset_of(theme_names(r)),
;

/// `SyntaxSet::find_syntax_by_extension` looks through the syntaxes of the set
/// for one with the given file extension. What it finds is one of them and
/// depends on nothing but the set and the extension.
pub assume_specification<'a>[ SyntaxSet::find_syntax_by_extension ](
    set: &'a SyntaxSet,
    extension: &str,
) -> (r: Option<&'a SyntaxReference>)
    ensures
        r matches Some(s) ==> syntax_for(*set, extension@) == Some(*s) && syntax_in(*s, *set),
        r is None ==> syntax_for(*set, extension@) is None,
;

/// `HighlightLines::new` starts a highlighter at the beginning of a text. The
/// highlighter depends on nothing but the syntax and the theme, and it is made
/// for every set that holds the syntax.
pub assume_specification<'a>[ HighlightLines::<'a>::new ](
    syntax: &SyntaxReference,
    theme: &'a Theme,
) -> (r: HighlightLines<'a>)
    ensures
        r == started(*syntax, *theme),
        forall|set: SyntaxSet| syntax_in(*syntax, set) ==> #[trigger] made_for(r, set),
;

/// `HighlightLines::highlight_line` cuts the next line of the text into styled
/// fragments; their texts, one after the other, make up the line. The
/// fragments and the state in which the highlighter is left depend on nothing
/// but the state in which it was, the line and the set. The set has to be one
/// that the highlighter was made for: with another the call may panic.
pub assume_specification<'a, 'b>[ HighlightLines::<'a>::highlight_line ](
    highlighter: &mut HighlightLines<'a>,
    line: &'b str,
    syntax_set: &SyntaxSet,
) -> (r: Result<Vec<(Style, &'b str)>, syntect::Error>)
    requires
        made_for(*old(highlighter), *syntax_set),
    ensures
        *final(highlighter) == advanced(*old(highlighter), line@, *syntax_set),
        made_for(*final(highlighter), *syntax_set),
        r matches Ok(v) ==> line_outcome(*old(highlighter), line@, *syntax_set) == Some(
            fragment_texts(v@),
        ) && fragment_styles(v@) == line_styles(*old(highlighter), line@, *syntax_set) && concat(
            fragment_texts(v@),
        ) == line@,
        r is Err ==> line_outcome(*old(highlighter), line@, *syntax_set) is None,
;

/// `as_24_bit_terminal_escaped` without background writes, for each fragment
/// in turn, the escape code of the foreground that it sets for the style of
/// the fragment, and then the text of the fragment.
pub assume_specification[ as_24_bit_terminal_escaped ](
    v: &[(Style, &str)],
    bg: bool,
) -> (r: String)
    ensures
        !bg ==> r@ == woven(
            Seq::new(v@.len(), |i: int| code_of(shown_color(v@[i].0))),
            fragment_texts(v@),
        ),
;

/// The pretty-printed text that `serde_json::to_string_pretty` writes for the
/// JSON document that `serde_json::from_slice` reads from the bytes of `text`,
/// or `None` where either reports a failure.
pub uninterp spec fn pretty_json(text: Seq<char>) -> Option<Seq<char>>;

/// Looks `name` up with `BTreeMap::get` in the `themes` of the set, which finds
/// the theme that the set holds under that key.
#[verifier::external_body]
fn find_theme<'a>(set: &'a ThemeSet, name: &str) -> (r: Option<&'a Theme>)
    ensures
        r matches Some(t) ==> theme_for(*set, name@) == Some(*t),
        r is None ==> theme_for(*set, name@) is None,
{
    set.themes.get(name)
}

/// Calls `SyntaxSet::find_syntax_plain_text`, which looks for the syntax called
/// `Plain Text` among the syntaxes of the set and panics where the set has
/// none. What it finds depends on nothing but the set.
#[verifier::external_body]
fn plain_text(set: &SyntaxSet) -> (r: &SyntaxReference)
    requires
        syntax_names(*set).contains("Plain Text"@),
    ensures
        *r == plain_syntax(*set),
        syntax_in(*r, *set),
{
    set.find_syntax_plain_text()
}

/// Reads `text` as a `serde_json::Value` with `serde_json::from_slice` and
/// writes the value with `serde_json::to_string_pretty`. The result is
/// `pretty_json` of the argument: both read nothing but what they are given.
#[verifier::external_body]
fn json_pretty(text: &str) -> (r: Result<String, serde_json::Error>)
    ensures
        r matches Ok(t) ==> pretty_json(text@) == Some(t@),
        r is Err ==> pretty_json(text@) is None,
{
    let value: serde_json::Value = serde_json::from_slice(text.as_bytes())?;
    serde_json::to_string_pretty(&value)
}

/// The syntax definitions and the color themes that highlighting draws on.
///
/// A registry is loaded whole and never changed; a program loads one and
/// shares it among all the calls that highlight.
pub struct Registry {
    syntaxes: SyntaxSet,
    themes: ThemeSet,
}

impl Registry {
    /// The syntax definitions and themes that come with `syntect`.
    pub fn load() -> (r: Registry)
        ensures
            r.syntaxes().contains("Plain Text"@),
            bundled_themes().subset_of(r.themes()),
    {
        Registry { syntaxes: SyntaxSet::load_defaults_newlines(), themes: ThemeSet::load_defaults() }
    }

    /// The syntax definitions of this registry.
    pub closed spec fn syntax_set(&self) -> SyntaxSet {
        self.syntaxes
    }

    /// The themes of this registry.
    pub closed spec fn theme_set(&self) -> ThemeSet {
        self.themes
    }

    /// The names of the syntax definitions in this registry.
    pub open spec fn syntaxes(&self) -> Set<Seq<char>> {
        syntax_names(self.syntax_set())
    }

    /// The names of the themes in this registry.
    pub open spec fn themes(&self) -> Set<Seq<char>> {
        theme_names(self.theme_set())
    }

    /// Every registry holds the syntax for plain text and the theme that is
    /// used where none is asked for.
    #[verifier::type_invariant]
    spec fn holds_defaults(&self) -> bool {
        &&& syntax_names(self.syntaxes).contains("Plain Text"@)
        &&& theme_names(self.themes).contains("base16-ocean.dark"@)
    }
}

/// The label under which a body of the media type `ct` is highlighted.
pub open spec fn syntax_kind(ct: Seq<char>) -> Seq<char> {
    if ct == "application/json"@ {
        "json"@
    } else if ct == "application/xml"@ {
        "xml"@
    } else if ct == "text/html"@ {
        "html"@
    } else {
        "txt"@
    }
}

/// The readable form of a body of the media type `ct`: JSON is printed anew
/// with indentation, everything else is left as it is. `None` where the body
/// is declared as JSON and is not.
pub open spec fn readable(ct: Seq<char>, body: Seq<char>) -> Option<Seq<char>> {
    if ct == "application/json"@ {
        pretty_json(body)
    } else {
        Some(body)
    }
}

/// Makes a body readable and names the syntax under which to highlight it.
///
/// No body gives an empty label and no text. A body that is declared as JSON
/// and cannot be read as JSON is refused.
pub fn format_body(content_type: &str, body: Option<String>) -> (r: Result<
    (String, Option<String>),
    ToolError,
>)
    ensures
        match body {
            None => r matches Ok(out) && out.0@ == Seq::<char>::empty() && out.1 is None,
            Some(b) => match readable(content_type@, b@) {
                Some(t) => r matches Ok(out) && out.0@ == syntax_kind(content_type@) && (out.1
                    matches Some(x) && x@ == t),
                None => r matches Err(ToolError::MalformedBody(_)),
            },
        },
{
    let body = match body {
        Some(body) => body,
        None => return Ok((String::new(), None)),
    };
    if same_text(content_type, "application/json") {
        match json_pretty(body.as_str()) {
            Ok(text) => Ok((String::from_str("json"), Some(text))),
            Err(e) => Err(ToolError::MalformedBody(e)),
        }
    } else if same_text(content_type, "application/xml") {
        Ok((String::from_str("xml"), Some(body)))
    } else if same_text(content_type, "text/html") {
        Ok((String::from_str("html"), Some(body)))
    } else {
        Ok((String::from_str("txt"), Some(body)))
    }
}

/// What a sequence of strings stands for.
pub open spec fn texts_of(v: Seq<String>) -> Seq<Seq<char>> {
    v.map_values(|s: String| s@)
}

/// The test for the character that ends a line.
pub open spec fn is_newline() -> spec_fn(char) -> bool {
    |c: char| c == '\n'
}

/// The lines of `text`, each with the `'\n'` that ends it.
pub fn split_lines(text: &str) -> (r: Vec<String>)
    ensures
        texts_of(r@) == lines(text@),
{
    let v = chars_of(text);
    let mut out: Vec<String> = Vec::new();
    let mut start: usize = 0;
    assert(v@.skip(0) == v@);
    assert(texts_of(out@) == Seq::<Seq<char>>::empty());
    while start < v.len()
        invariant
            start <= v.len(),
            texts_of(out@) + lines(v@.skip(start as int)) == lines(v@),
        decreases v.len() - start,
    {
        let ghost rest = v@.skip(start as int);
        let mut end: usize = start;
        while end < v.len() && v[end] != '\n'
            invariant
                start <= end <= v.len(),
                rest == v@.skip(start as int),
                forall|j: int| 0 <= j < end - start ==> !is_newline()(#[trigger] rest[j]),
            decreases v.len() - end,
        {
            end += 1;
        }
        proof {
            lemma_first_where_is(rest, is_newline(), end - start);
        }
        let stop = if end < v.len() {
            end + 1
        } else {
            end
        };
        let line = slice_text(&v, start, stop);
        proof {
            let n = end - start;
            assert(v@.subrange(start as int, stop as int) == rest.take(stop - start));
            if end < v.len() {
                assert(rest.skip(n + 1) == v@.skip(stop as int));
                assert(lines(rest) == seq![rest.take(n + 1)] + lines(rest.skip(n + 1)));
            } else {
                assert(rest.take(n) == rest);
                assert(lines(rest) == seq![rest]);
                assert(lines(v@.skip(stop as int)) == Seq::<Seq<char>>::empty());
            }
            assert(texts_of(out@.push(line)) == texts_of(out@).push(line@));
            assert(texts_of(out@).push(line@) + lines(v@.skip(stop as int)) == texts_of(out@)
                + lines(rest));
        }
        out.push(line);
        start = stop;
    }
    assert(lines(v@.skip(start as int)) == Seq::<Seq<char>>::empty());
    assert(texts_of(out@) + Seq::<Seq<char>>::empty() == texts_of(out@));
    out
}

/// The strings of `parts`, one after the other.
pub fn join(parts: &Vec<String>) -> (r: String)
    ensures
        r@ == concat(texts_of(parts@)),
{
    let ghost all = texts_of(parts@);
    let mut out = String::new();
    let mut i: usize = 0;
    while i < parts.len()
        invariant
            i <= parts.len(),
            all == texts_of(parts@),
            out@ == concat(all.take(i as int)),
        decreases parts.len() - i,
    {
        assert(all.take(i + 1).drop_last() == all.take(i as int));
        out.append(parts[i].as_str());
        i += 1;
    }
    assert(all.take(parts.len() as int) == all);
    out
}

/// The name of the theme that is used where none is asked for.
pub open spec fn theme_name(theme: Option<&str>) -> Seq<char> {
    match theme {
        Some(t) => t@,
        None => "base16-ocean.dark"@,
    }
}

/// The description that goes with a theme that no registry holds.
pub open spec fn unknown_theme(name: Seq<char>) -> Seq<char> {
    "unknown theme: "@ + name
}

/// The description that goes with a line that the highlighter refused.
pub open spec fn highlighter_failure() -> Seq<char> {
    "the text could not be highlighted"@
}

/// Sequences put one behind the other concatenate to their concatenations.
pub proof fn lemma_concat_append(a: Seq<Seq<char>>, b: Seq<Seq<char>>)
    ensures
        concat(a + b) == concat(a) + concat(b),
    decreases b.len(),
{
    if b.len() == 0 {
        assert(a + b == a);
    } else {
        lemma_concat_append(a, b.drop_last());
        assert((a + b).drop_last() == a + b.drop_last());
    }
}

/// One sequence alone concatenates to itself.
pub proof fn lemma_concat_one(x: Seq<char>)
    ensures
        concat(seq![x]) == x,
{
    assert(seq![x].drop_last() == Seq::<Seq<char>>::empty());
    assert(concat(Seq::<Seq<char>>::empty()) == Seq::<char>::empty());
    assert(Seq::<char>::empty() + x == x);
}

/// The lines of a text, one behind the other, are the text.
pub proof fn lemma_concat_lines(s: Seq<char>)
    ensures
        concat(lines(s)) == s,
    decreases s.len(),
{
    if s.len() > 0 {
        let n = first_where(s, |c: char| c == '\n');
        if 0 <= n < s.len() {
            let head = seq![s.take(n + 1)];
            let rest = s.skip(n + 1);
            lemma_concat_lines(rest);
            lemma_concat_append(head, lines(rest));
            lemma_concat_one(s.take(n + 1));
            assert(s.take(n + 1) + rest == s);
        } else {
            lemma_concat_one(s);
        }
    }
}

/// Weaving two runs of codes and parts, one behind the other, gives the two
/// woven texts one behind the other.
pub proof fn lemma_woven_append(
    c1: Seq<Seq<char>>,
    p1: Seq<Seq<char>>,
    c2: Seq<Seq<char>>,
    p2: Seq<Seq<char>>,
)
    requires
        c1.len() == p1.len(),
        c2.len() == p2.len(),
    ensures
        woven(c1 + c2, p1 + p2) == woven(c1, p1) + woven(c2, p2),
    decreases p2.len(),
{
    if p2.len() == 0 {
        assert(c1 + c2 == c1);
        assert(p1 + p2 == p1);
    } else {
        lemma_woven_append(c1, p1, c2.drop_last(), p2.drop_last());
        assert((c1 + c2).drop_last() == c1 + c2.drop_last());
        assert((p1 + p2).drop_last() == p1 + p2.drop_last());
    }
}

/// Nothing in colors is nothing.
pub proof fn lemma_colored_nothing()
    ensures
        colored(Seq::empty(), Seq::empty()),
{
    let none = Seq::<Seq<char>>::empty();
    assert(color_codes(none));
    assert(concat(none) == Seq::<char>::empty());
    assert(woven(none, none) == Seq::<char>::empty());
}

/// A colored text is longer than the text by its codes, and a text that is not
/// empty has at least one: coloring never gives the text back.
pub proof fn lemma_colored_differs(out: Seq<char>, text: Seq<char>)
    requires
        colored(out, text),
    ensures
        text.len() == 0 || out.len() > text.len(),
{
    let (codes, parts) = choose|codes: Seq<Seq<char>>, parts: Seq<Seq<char>>|
        codes.len() == parts.len() && color_codes(codes) && concat(parts) == text && out
            == #[trigger] woven(codes, parts);
    lemma_woven_len(codes, parts);
}

/// A woven text is as long as its parts and its codes together, and each code
/// has a character.
proof fn lemma_woven_len(codes: Seq<Seq<char>>, parts: Seq<Seq<char>>)
    requires
        codes.len() == parts.len(),
        color_codes(codes),
    ensures
        woven(codes, parts).len() >= concat(parts).len() + parts.len(),
    decreases parts.len(),
{
    if parts.len() > 0 {
        let c = codes.last();
        assert(is_color_code(codes[codes.len() - 1]));
        let (r, g, b) = choose|r: u8, g: u8, b: u8| c == #[trigger] color_code(r, g, b);
        reveal_strlit("m");
        assert(c.len() >= 1);
        assert forall|i: int| 0 <= i < codes.drop_last().len() implies is_color_code(
            #[trigger] codes.drop_last()[i],
        ) by {
            assert(codes.drop_last()[i] == codes[i]);
        }
        lemma_woven_len(codes.drop_last(), parts.drop_last());
    }
}

/// The escape codes of the foregrounds that are set for `styles`.
pub open spec fn codes_of(styles: Seq<Style>) -> Seq<Seq<char>> {
    styles.map_values(|style: Style| code_of(shown_color(style)))
}

/// The highlighter `h` after it has taken the lines `ls`, one after the other.
pub open spec fn state_after(
    h: HighlightLines<'static>,
    ls: Seq<Seq<char>>,
    set: SyntaxSet,
) -> HighlightLines<'static>
    decreases ls.len(),
{
    if ls.len() == 0 {
        h
    } else {
        advanced(state_after(h, ls.drop_last(), set), ls.last(), set)
    }
}

/// What the highlighter `h` makes of `line`: each fragment behind the escape
/// code of its color, or `None` where the highlighter refuses the line.
pub open spec fn painted_line(h: HighlightLines<'static>, line: Seq<char>, set: SyntaxSet) -> Option<
    Seq<char>,
> {
    match line_outcome(h, line, set) {
        Some(fragments) => Some(woven(codes_of(line_styles(h, line, set)), fragments)),
        None => None,
    }
}

/// What the highlighter `h` makes of the lines `ls`, taken one after the other
/// with the state that the lines before have left: the painted lines in their
/// order, or `None` where the highlighter refuses one of them.
pub open spec fn painted_lines(
    h: HighlightLines<'static>,
    ls: Seq<Seq<char>>,
    set: SyntaxSet,
) -> Option<Seq<char>>
    decreases ls.len(),
{
    if ls.len() == 0 {
        Some(Seq::empty())
    } else {
        match (
            painted_lines(h, ls.drop_last(), set),
            painted_line(state_after(h, ls.drop_last(), set), ls.last(), set),
        ) {
            (Some(before), Some(line)) => Some(before + line),
            _ => None,
        }
    }
}

/// The syntax under which a text of the kind `extension` is highlighted: the
/// one that `set` has for the extension, and that of plain text where it has
/// none.
pub open spec fn chosen_syntax(set: SyntaxSet, extension: Seq<char>) -> SyntaxReference {
    match syntax_for(set, extension) {
        Some(syntax) => syntax,
        None => plain_syntax(set),
    }
}

/// What highlighting comes to.
pub enum Painted {
    /// The text in colors.
    Text(Seq<char>),
    /// The registry holds no theme of the name that was asked for.
    UnknownTheme,
    /// The highlighter refused a line.
    Refused,
}

/// What highlighting `text` under `syntax` and with the theme called `theme`
/// comes to: the lines of the text, painted one after the other by a
/// highlighter that starts afresh.
pub open spec fn painted_under(
    registry: Registry,
    text: Seq<char>,
    syntax: SyntaxReference,
    theme: Seq<char>,
) -> Painted {
    match theme_for(registry.theme_set(), theme) {
        None => Painted::UnknownTheme,
        Some(colors) => match painted_lines(
            started(syntax, colors),
            lines(text),
            registry.syntax_set(),
        ) {
            Some(out) => Painted::Text(out),
            None => Painted::Refused,
        },
    }
}

/// What highlighting `text` as a text of the kind `extension` and with the
/// theme called `theme` comes to.
pub open spec fn painted(
    registry: Registry,
    text: Seq<char>,
    extension: Seq<char>,
    theme: Seq<char>,
) -> Painted {
    painted_under(registry, text, chosen_syntax(registry.syntax_set(), extension), theme)
}

/// Where the highlighter refuses one of the first lines, it refuses the lines.
pub proof fn lemma_refused_early(
    h: HighlightLines<'static>,
    ls: Seq<Seq<char>>,
    k: int,
    set: SyntaxSet,
)
    requires
        0 <= k <= ls.len(),
        painted_lines(h, ls.take(k), set) is None,
    ensures
        painted_lines(h, ls, set) is None,
    decreases ls.len(),
{
    if k == ls.len() {
        assert(ls.take(k) == ls);
    } else {
        assert(ls.drop_last().take(k) == ls.take(k));
        lemma_refused_early(h, ls.drop_last(), k, set);
    }
}

/// Highlighting depends on nothing but the registry, the text, its kind and
/// the theme: what it gives once, it gives again.
pub proof fn lemma_same_output(
    registry: Registry,
    text: Seq<char>,
    extension: Seq<char>,
    theme: Seq<char>,
    first: Seq<char>,
    second: Seq<char>,
)
    requires
        painted(registry, text, extension, theme) == Painted::Text(first),
        painted(registry, text, extension, theme) == Painted::Text(second),
    ensures
        first == second,
{
}

/// A kind for which the registry has no syntax is highlighted as plain text,
/// whatever the kind is called.
pub proof fn lemma_unknown_kind(
    registry: Registry,
    text: Seq<char>,
    extension: Seq<char>,
    theme: Seq<char>,
)
    requires
        syntax_for(registry.syntax_set(), extension) is None,
    ensures
        painted(registry, text, extension, theme) == painted_under(
            registry,
            text,
            plain_syntax(registry.syntax_set()),
            theme,
        ),
{
}

/// An empty text is highlighted to an empty text under every theme that the
/// registry holds: the highlighter is not asked.
pub proof fn lemma_nothing_to_paint(registry: Registry, extension: Seq<char>, theme: Seq<char>)
    requires
        registry.themes().contains(theme),
    ensures
        painted(registry, Seq::empty(), extension, theme) == Painted::Text(Seq::empty()),
{
}

/// Colors `text` for a terminal: line by line, each line with the `'\n'` that
/// ends it, under the syntax registered for `extension` (that of plain text
/// where none is) and with the theme `theme` (`base16-ocean.dark` where none
/// is asked for).
///
/// A theme that the registry does not hold is an error, and so is a line that
/// the highlighter refuses. What comes back otherwise is the text cut into
/// fragments, each behind the escape code of its color: for each line what
/// the highlighter makes of it in the state that the lines before have left.
pub fn highlight_text(registry: &Registry, text: &str, extension: &str, theme: Option<&str>) -> (r:
    Result<String, ToolError>)
    ensures
        registry.themes().contains("base16-ocean.dark"@),
        match painted(*registry, text@, extension@, theme_name(theme)) {
            Painted::Text(out) => r matches Ok(t) && t@ == out && colored(out, text@),
            Painted::UnknownTheme => r matches Err(ToolError::RenderError(m)) && m@
                == unknown_theme(theme_name(theme)),
            Painted::Refused => r matches Err(ToolError::RenderError(m)) && m@
                == highlighter_failure(),
        },
{
    proof {
        use_type_invariant(registry);
    }
    let name: &str = match theme {
        Some(t) => t,
        None => "base16-ocean.dark",
    };
    let colors = match find_theme(&registry.themes, name) {
        Some(t) => t,
        None => {
            return Err(ToolError::RenderError(String::from_str("unknown theme: ").concat(name)));
        },
    };
    let syntax = match registry.syntaxes.find_syntax_by_extension(extension) {
        Some(s) => s,
        None => plain_text(&registry.syntaxes),
    };
    let mut highlighter = HighlightLines::new(syntax, colors);
    let all = split_lines(text);
    let mut pieces: Vec<String> = Vec::new();
    let ghost set = registry.syntaxes;
    let ghost start = started(*syntax, *colors);
    let ghost ls = lines(text@);
    let ghost mut codes: Seq<Seq<char>> = Seq::empty();
    let ghost mut parts: Seq<Seq<char>> = Seq::empty();
    let mut i: usize = 0;
    assert(texts_of(pieces@) == Seq::<Seq<char>>::empty());
    assert(ls.take(0) == Seq::<Seq<char>>::empty());
    while i < all.len()
        invariant
            i <= all.len(),
            pieces@.len() == i,
            texts_of(all@) == ls,
            ls == lines(text@),
            set == registry.syntaxes,
            registry.themes().contains("base16-ocean.dark"@),
            theme_for(registry.themes, theme_name(theme)) == Some(*colors),
            start == started(chosen_syntax(set, extension@), *colors),
            made_for(highlighter, set),
            highlighter == state_after(start, ls.take(i as int), set),
            painted_lines(start, ls.take(i as int), set) == Some(concat(texts_of(pieces@))),
            codes.len() == parts.len(),
            color_codes(codes),
            concat(parts) == concat(ls.take(i as int)),
            concat(texts_of(pieces@)) == woven(codes, parts),
        decreases all.len() - i,
    {
        let ghost before = highlighter;
        proof {
            assert(ls.take(i + 1).drop_last() == ls.take(i as int));
            assert(ls.take(i + 1).last() == all@[i as int]@);
        }
        let piece = match highlighter.highlight_line(all[i].as_str(), &registry.syntaxes) {
            Ok(ranges) => {
                let piece = as_24_bit_terminal_escaped(ranges.as_slice(), false);
                proof {
                    let fragments = fragment_texts(ranges@);
                    let more = codes_of(fragment_styles(ranges@));
                    assert(more == Seq::new(
                        ranges@.len(),
                        |k: int| code_of(shown_color(ranges@[k].0)),
                    ));
                    assert forall|k: int| 0 <= k < more.len() implies is_color_code(
                        #[trigger] more[k],
                    ) by {
                        let rgb = shown_color(ranges@[k].0);
                        assert(more[k] == color_code(rgb.0, rgb.1, rgb.2));
                    }
                    lemma_woven_append(codes, parts, more, fragments);
                    lemma_concat_append(parts, fragments);
                    codes = codes + more;
                    parts = parts + fragments;
                }
                piece
            },
            Err(_) => {
                proof {
                    lemma_refused_early(start, ls, i + 1, set);
                }
                return Err(
                    ToolError::RenderError(String::from_str("the text could not be highlighted")),
                );
            },
        };
        proof {
            let done = ls.take(i as int);
            assert(ls.take(i + 1) == done.push(all@[i as int]@));
            assert(texts_of(pieces@.push(piece)) == texts_of(pieces@).push(piece@));
            assert(texts_of(pieces@).push(piece@).drop_last() == texts_of(pieces@));
        }
        pieces.push(piece);
        i += 1;
    }
    let out = join(&pieces);
    proof {
        assert(ls.take(all@.len() as int) == ls);
        lemma_concat_lines(text@);
        assert(colored(out@, text@));
    }
    Ok(out)
}

/// The header block of a message: each header as `name: value` on a line of
/// its own, in the order of `h`.
pub open spec fn header_text(h: Seq<Pair>) -> Seq<char>
    decreases h.len(),
{
    if h.len() == 0 {
        Seq::empty()
    } else {
        header_text(h.drop_last()) + h.last().0 + ": "@ + h.last().1 + "\n"@
    }
}

/// Writes `headers` as a block of `name: value` lines.
pub fn get_header_text_in_yaml(headers: &Vec<KV>) -> (r: String)
    ensures
        r@ == header_text(pairs_of(headers@)),
{
    let ghost h = pairs_of(headers@);
    let mut out = String::new();
    let mut i: usize = 0;
    while i < headers.len()
        invariant
            i <= headers.len(),
            h == pairs_of(headers@),
            out@ == header_text(h.take(i as int)),
        decreases headers.len() - i,
    {
        assert(h.take(i + 1).drop_last() == h.take(i as int));
        out.append(headers[i].key.as_str());
        out.append(": ");
        out.append(headers[i].value.as_str());
        out.append("\n");
        i += 1;
    }
    assert(h.take(headers.len() as int) == h);
    out
}

} // verus!
