//! Styles: how a severity and a message become one line of terminal text.
use vstd::prelude::*;
use crate::color::{default_color, level_color, paint_bold, painted};
use crate::level::{Color, Level};
use crate::markup::{
    decorates, is_closed, is_plain, lemma_closed_concat, lemma_plain_closed, lemma_strip_concat,
    lemma_newline_count_concat, lemma_newline_count_replace, lemma_newline_count_zero,
    lemma_no_newlines, lemma_replace_last, lemma_replace_newline_starts_copy, lemma_strip_newlines,
    lemma_strip_plain, lemma_strip_replace, newline_count, replace_char, strip_markup,
};

verus! {

/// The token that marks each severity by default.
pub open spec fn default_token(level: Level) -> Seq<char> {
    match level {
        Level::Error => seq!['E'],
        Level::Warn => seq!['W'],
        Level::Info => seq!['*'],
        Level::Debug => seq!['D'],
        Level::Trace => seq!['T'],
    }
}

/// A token is short plain text: not empty, and without escape sequences.
pub open spec fn is_token(t: Seq<char>) -> bool {
    t.len() > 0 && is_plain(t)
}

/// A token between square brackets.
pub open spec fn bracketed(t: Seq<char>) -> Seq<char> {
    seq!['['] + t + seq![']']
}

/// What the default separator shows: a newline, a bar, and a space.
pub open spec fn default_separator_text() -> Seq<char> {
    seq!['\n', ' ', '|', ' ']
}

/// A whole record: prefix, a space, the message with every newline replaced
/// by the separator, and one final newline.
pub open spec fn line_text(prefix: Seq<char>, sep: Seq<char>, msg: Seq<char>) -> Seq<char> {
    prefix + seq![' '] + replace_char(msg, '\n', sep) + seq!['\n']
}

/// The operations that render a record. Each has a default; a style
/// overrides the ones it wants to change and keeps the others.
pub trait CologStyle {
    /// Paints `msg` for `level`; the visible text stays `msg`.
    fn level_color(&self, level: &Level, msg: &str) -> (r: String)
        ensures
            decorates(r@, msg@),
        default_ensures
            painted(r@, msg@, default_color(*level)),
    {
        default_level_color(level, msg)
    }

    /// The short token that names `level`: never empty, and plain text, since
    /// painting it is the colorizer's part.
    fn level_token(&self, level: &Level) -> (r: &str)
        ensures
            is_token(r@),
        default_ensures
            r@ == default_token(*level),
    {
        default_level_token(level)
    }

    /// The prefix of a line of severity `level`. It leaves no escape
    /// sequence unfinished, so the message after it shows as written.
    fn prefix_token(&self, level: &Level) -> (r: String)
        ensures
            is_closed(r@),
        default_ensures
            exists|t: &str|
                call_ensures(Self::level_token, (self, level), t) && strip_markup(r@)
                    == bracketed(t@),
            exists|t: &str, c: String, o: Seq<char>, e: Seq<char>|
                call_ensures(Self::level_token, (self, level), t) && call_ensures(
                    Self::level_color,
                    (self, level, t),
                    c,
                ) && painted(o, seq!['['], Color::Blue) && painted(e, seq![']'], Color::Blue)
                    && r@ == o + c@ + e,
    {
        let t = self.level_token(level);
        let c = self.level_color(level, t);
        proof {
            lemma_plain_closed(t@);
            lemma_strip_plain(t@);
        }
        bracket(c.as_str())
    }

    /// The text that stands for each newline inside a message; like the
    /// prefix, it leaves no escape sequence unfinished. A bare newline keeps
    /// message lines as they are.
    fn line_separator(&self) -> (r: String)
        ensures
            is_closed(r@),
        default_ensures
            strip_markup(r@) == default_separator_text(),
            exists|bar: Seq<char>|
                painted(bar, seq![' ', '|'], Color::White) && r@ == seq!['\n'] + bar + seq![' '],
    {
        let bar = paint_bold(" |", Color::White);
        let mut r = "\n".to_string();
        r.append(bar.as_str());
        r.append(" ");
        proof {
            reveal_strlit("\n");
            reveal_strlit(" |");
            reveal_strlit(" ");
            lemma_plain_closed(" |"@);
            lemma_strip_plain(" |"@);
            lemma_plain_closed("\n"@);
            lemma_strip_plain("\n"@);
            lemma_plain_closed(" "@);
            lemma_strip_plain(" "@);
            lemma_strip_concat("\n"@, bar@);
            lemma_closed_concat("\n"@, bar@);
            lemma_strip_concat("\n"@ + bar@, " "@);
            lemma_closed_concat("\n"@ + bar@, " "@);
            assert(strip_markup(r@) =~= default_separator_text());
            assert(" |"@ =~= seq![' ', '|']);
            assert(r@ =~= seq!['\n'] + bar@ + seq![' ']);
        }
        r
    }

    /// Renders one record of severity `level`.
    fn format(&self, level: &Level, msg: &str) -> (r: String)
        default_ensures
            exists|p: String, s: String|
                call_ensures(Self::prefix_token, (self, level), p) && call_ensures(
                    Self::line_separator,
                    (self,),
                    s,
                ) && r@ == line_text(p@, s@, msg@),
    {
        let prefix = self.prefix_token(level);
        let sep = self.line_separator();
        format_line(prefix.as_str(), sep.as_str(), msg)
    }
}

/// The style with every default: `[E]`, `[W]`, `[*]`, `[D]`, `[T]` prefixes.
pub struct DefaultCologStyle;

impl CologStyle for DefaultCologStyle {}

/// Paints `msg` bold in the default color of `level` (red, yellow, green,
/// green, magenta).
pub fn default_level_color(level: &Level, msg: &str) -> (r: String)
    ensures
        painted(r@, msg@, default_color(*level)),
{
    level_color(level, msg)
}

/// The default token of `level`: `E`, `W`, `*`, `D` or `T`.
pub fn default_level_token(level: &Level) -> (r: &'static str)
    ensures
        r@ == default_token(*level),
        is_token(r@),
{
    proof {
        reveal_strlit("E");
        reveal_strlit("W");
        reveal_strlit("*");
        reveal_strlit("D");
        reveal_strlit("T");
    }
    match level {
        Level::Error => "E",
        Level::Warn => "W",
        Level::Info => "*",
        Level::Debug => "D",
        Level::Trace => "T",
    }
}

/// The style's token, painted by the style, between brackets in bold blue.
pub fn default_prefix_token<S: CologStyle + ?Sized>(style: &S, level: &Level) -> (r: String)
    ensures
        is_closed(r@),
        exists|t: &str|
            call_ensures(S::level_token, (style, level), t) && strip_markup(r@) == bracketed(t@),
        exists|t: &str, c: String, o: Seq<char>, e: Seq<char>|
            call_ensures(S::level_token, (style, level), t) && call_ensures(
                S::level_color,
                (style, level, t),
                c,
            ) && painted(o, seq!['['], Color::Blue) && painted(e, seq![']'], Color::Blue) && r@
                == o + c@ + e,
{
    let t = style.level_token(level);
    let c = style.level_color(level, t);
    proof {
        lemma_plain_closed(t@);
        lemma_strip_plain(t@);
    }
    bracket(c.as_str())
}

/// `c` between a bold blue `[` and `]`.
fn bracket(c: &str) -> (r: String)
    requires
        is_closed(c@),
    ensures
        is_closed(r@),
        strip_markup(r@) == bracketed(strip_markup(c@)),
        exists|o: Seq<char>, e: Seq<char>|
            painted(o, seq!['['], Color::Blue) && painted(e, seq![']'], Color::Blue) && r@ == o
                + c@ + e,
{
    let open = paint_bold("[", Color::Blue);
    let close = paint_bold("]", Color::Blue);
    let mut r = open;
    r.append(c);
    r.append(close.as_str());
    proof {
        reveal_strlit("[");
        reveal_strlit("]");
        lemma_plain_closed("["@);
        lemma_strip_plain("["@);
        lemma_plain_closed("]"@);
        lemma_strip_plain("]"@);
        lemma_strip_concat(open@, c@);
        lemma_closed_concat(open@, c@);
        lemma_strip_concat(open@ + c@, close@);
        lemma_closed_concat(open@ + c@, close@);
        assert(strip_markup(r@) =~= bracketed(strip_markup(c@)));
        assert("["@ =~= seq!['[']);
        assert("]"@ =~= seq![']']);
        assert(r@ =~= open@ + c@ + close@);
    }
    r
}

/// Relies on `str::replace` with a `char` pattern: every occurrence of `c`
/// is replaced by `to`, and all other characters are copied in order.
#[verifier::external_body]
fn replace_all(m: &str, c: char, to: &str) -> (r: String)
    ensures
        r@ == replace_char(m@, c, to@),
{
    m.replace(c, to)
}

/// Joins a prefix, a space, `msg` with each newline replaced by `sep`, and a
/// final newline.
pub fn format_line(prefix: &str, sep: &str, msg: &str) -> (r: String)
    ensures
        r@ == line_text(prefix@, sep@, msg@),
{
    let body = replace_all(msg, '\n', sep);
    let mut r = prefix.to_string();
    r.append(" ");
    r.append(body.as_str());
    r.append("\n");
    proof {
        reveal_strlit(" ");
        reveal_strlit("\n");
        assert(r@ =~= line_text(prefix@, sep@, msg@));
    }
    r
}

/// Renders a record with the style's own prefix and separator.
pub fn default_format<S: CologStyle + ?Sized>(style: &S, level: &Level, msg: &str) -> (r: String)
    ensures
        exists|p: String, s: String|
            call_ensures(S::prefix_token, (style, level), p) && call_ensures(
                S::line_separator,
                (style,),
                s,
            ) && r@ == line_text(p@, s@, msg@),
{
    let prefix = style.prefix_token(level);
    let sep = style.line_separator();
    format_line(prefix.as_str(), sep.as_str(), msg)
}

/// Under the default style every severity has its own token, and no token
/// is empty.
pub proof fn lemma_default_tokens_distinct(
    style: &DefaultCologStyle,
    a: Level,
    b: Level,
    ta: &str,
    tb: &str,
)
    requires
        call_ensures(<DefaultCologStyle as CologStyle>::level_token, (style, &a), ta),
        call_ensures(<DefaultCologStyle as CologStyle>::level_token, (style, &b), tb),
    ensures
        ta@.len() > 0,
        tb@.len() > 0,
        a != b ==> ta@ != tb@,
{
    if a != b {
        assert(default_token(a)[0] != default_token(b)[0]);
    }
}

/// Under the default style the prefix shows the severity's token between
/// brackets, so it holds the token once markup is removed.
pub proof fn lemma_default_prefix_holds_token(style: &DefaultCologStyle, level: Level, p: String)
    requires
        call_ensures(<DefaultCologStyle as CologStyle>::prefix_token, (style, &level), p),
    ensures
        strip_markup(p@) == bracketed(default_token(level)),
        strip_markup(p@).subrange(1, 1 + default_token(level).len() as int) == default_token(level),
{
    let t = choose|t: &str|
        call_ensures(<DefaultCologStyle as CologStyle>::level_token, (style, &level), t)
            && strip_markup(p@) == bracketed(t@);
    assert(t@ == default_token(level));
    assert(strip_markup(p@).subrange(1, 1 + default_token(level).len() as int) =~= default_token(level));
}

/// Painting the painted text again changes no visible character: the
/// second result still shows the text it started from.
pub proof fn lemma_color_twice_keeps_text<S: CologStyle + ?Sized>(
    style: &S,
    level: Level,
    text: &str,
    once: String,
    again: &str,
    twice: String,
)
    requires
        call_ensures(S::level_color, (style, &level, text), once),
        again@ == once@,
        call_ensures(S::level_color, (style, &level, again), twice),
    ensures
        strip_markup(twice@) == strip_markup(text@),
        is_closed(text@) ==> is_closed(twice@),
{
}

/// A message with `k` newlines comes out with `k` copies of the separator in
/// their place, each bringing the separator's newlines, and one newline at
/// the end; a message without newlines comes out as it is.
pub proof fn lemma_line_newlines(prefix: Seq<char>, sep: Seq<char>, msg: Seq<char>)
    ensures
        newline_count(replace_char(msg, '\n', sep)) == newline_count(msg) * newline_count(sep),
        newline_count(msg) == 0 ==> replace_char(msg, '\n', sep) == msg,
        line_text(prefix, sep, msg).last() == '\n',
        newline_count(line_text(prefix, sep, msg)) == newline_count(prefix) + newline_count(msg)
            * newline_count(sep) + 1,
{
    let body = replace_char(msg, '\n', sep);
    lemma_newline_count_replace(msg, sep);
    lemma_newline_count_concat(prefix, seq![' ']);
    lemma_newline_count_concat(prefix + seq![' '], body);
    lemma_newline_count_concat(prefix + seq![' '] + body, seq!['\n']);
    assert(newline_count(seq![' '].skip(1)) == 0);
    assert(newline_count(seq!['\n'].skip(1)) == 0);
}

/// For any style, the default prefix holds the style's own token once markup
/// is removed, right after the opening bracket.
pub proof fn lemma_prefix_holds_token<S: CologStyle + ?Sized>(style: &S, level: Level, p: String)
    requires
        call_ensures(default_prefix_token::<S>, (style, &level), p),
    ensures
        exists|t: &str|
            call_ensures(S::level_token, (style, &level), t) && t@.len() > 0 && strip_markup(
                p@,
            ).subrange(1, 1 + t@.len() as int) == t@,
{
    let t = choose|t: &str|
        call_ensures(S::level_token, (style, &level), t) && strip_markup(p@) == bracketed(t@);
    assert(strip_markup(p@).subrange(1, 1 + t@.len() as int) =~= t@);
}

/// Whatever tokens a style chooses: the default colorizer still paints each
/// severity in its own color, which no style enters into; the default prefix
/// shows that style's token, painted by that style's colorizer between bold
/// blue brackets; and the default record keeps its shape: prefix, space,
/// message with the style's separator, newline.
pub proof fn lemma_token_override_keeps_shape<S: CologStyle + ?Sized>(
    style: &S,
    level: Level,
    msg: &str,
    c: String,
    p: String,
    r: String,
)
    requires
        call_ensures(default_level_color, (&level, msg), c),
        call_ensures(default_prefix_token::<S>, (style, &level), p),
        call_ensures(default_format::<S>, (style, &level, msg), r),
    ensures
        painted(c@, msg@, default_color(level)),
        exists|t: &str|
            call_ensures(S::level_token, (style, &level), t) && is_token(t@) && strip_markup(p@)
                == bracketed(t@),
        exists|t: &str, k: String, o: Seq<char>, e: Seq<char>|
            call_ensures(S::level_token, (style, &level), t) && call_ensures(
                S::level_color,
                (style, &level, t),
                k,
            ) && painted(o, seq!['['], Color::Blue) && painted(e, seq![']'], Color::Blue) && p@
                == o + k@ + e,
        exists|q: String, sep: String|
            call_ensures(S::prefix_token, (style, &level), q) && call_ensures(
                S::line_separator,
                (style,),
                sep,
            ) && r@ == line_text(q@, sep@, msg@),
{
}

/// What a record of the default style shows: the bracketed token, a space,
/// the message with each newline continued by `| `, and a final newline.
pub proof fn lemma_default_line_shows(
    style: &DefaultCologStyle,
    level: Level,
    msg: &str,
    r: String,
)
    requires
        call_ensures(<DefaultCologStyle as CologStyle>::format, (style, &level, msg), r),
        is_plain(msg@),
    ensures
        strip_markup(r@) == bracketed(default_token(level)) + seq![' '] + replace_char(
            msg@,
            '\n',
            default_separator_text(),
        ) + seq!['\n'],
{
    let (p, sep) = choose|p: String, sep: String|
        call_ensures(<DefaultCologStyle as CologStyle>::prefix_token, (style, &level), p)
            && call_ensures(<DefaultCologStyle as CologStyle>::line_separator, (style,), sep)
            && r@ == line_text(p@, sep@, msg@);
    lemma_default_prefix_holds_token(style, level, p);
    let nl = seq!['\n'];
    let sp = seq![' '];
    assert(nl[0] != crate::markup::esc());
    lemma_plain_closed(sp);
    lemma_strip_plain(sp);
    lemma_strip_plain(nl);
    lemma_strip_replace(msg@, sep@, nl);
    lemma_strip_concat(sp, replace_char(msg@, '\n', sep@) + nl);
    assert(r@ =~= p@ + (sp + (replace_char(msg@, '\n', sep@) + nl)));
    lemma_strip_concat(p@, sp + (replace_char(msg@, '\n', sep@) + nl));
    assert(strip_markup(r@) =~= bracketed(default_token(level)) + sp + replace_char(
        msg@,
        '\n',
        default_separator_text(),
    ) + nl);
}

/// A record of the default style whose message holds `k` newlines: each of
/// its newlines but the last starts a copy of the separator, it holds `k + 1`
/// newlines in all, and it ends in exactly one newline.
pub proof fn lemma_default_line_separators(
    style: &DefaultCologStyle,
    level: Level,
    msg: &str,
    r: String,
)
    requires
        call_ensures(<DefaultCologStyle as CologStyle>::format, (style, &level, msg), r),
    ensures
        exists|sep: String|
            call_ensures(<DefaultCologStyle as CologStyle>::line_separator, (style,), sep) && (
            forall|i: int|
                0 <= i < r@.len() - 1 && #[trigger] r@[i] == '\n' ==> i + sep@.len() <= r@.len()
                    && r@.subrange(i, i + sep@.len()) == sep@),
        newline_count(r@) == newline_count(msg@) + 1,
        r@.len() >= 2,
        r@.last() == '\n',
        r@[r@.len() - 2] != '\n',
{
    let (p, sep) = choose|p: String, sep: String|
        call_ensures(<DefaultCologStyle as CologStyle>::prefix_token, (style, &level), p)
            && call_ensures(<DefaultCologStyle as CologStyle>::line_separator, (style,), sep)
            && r@ == line_text(p@, sep@, msg@);
    // The prefix holds no newline.
    lemma_default_prefix_holds_token(style, level, p);
    let shown = bracketed(default_token(level));
    assert forall|i: int| 0 <= i < shown.len() implies shown[i] != '\n' by {
        assert(shown.len() == 3);
    }
    lemma_no_newlines(shown);
    lemma_strip_newlines(p@);
    lemma_newline_count_zero(p@);
    // The separator is a newline, a bar without newlines, and a space.
    let bar = choose|bar: Seq<char>|
        painted(bar, seq![' ', '|'], Color::White) && sep@ == seq!['\n'] + bar + seq![' '];
    let plain_bar = seq![' ', '|'];
    assert(plain_bar[0] != crate::markup::esc() && plain_bar[1] != crate::markup::esc());
    lemma_strip_plain(plain_bar);
    lemma_no_newlines(plain_bar);
    lemma_strip_newlines(bar);
    lemma_newline_count_zero(bar);
    assert forall|j: int| 1 <= j < sep@.len() implies sep@[j] != '\n' by {
        if j <= bar.len() {
            assert(sep@[j] == bar[j - 1]);
        }
    }
    lemma_no_newlines(sep@.skip(1));
    assert(newline_count(sep@) == 1);
    // The line, its body, and where its newlines stand.
    let body = replace_char(msg@, '\n', sep@);
    lemma_line_newlines(p@, sep@, msg@);
    assert(newline_count(msg@) * 1 == newline_count(msg@));
    lemma_replace_last(msg@, sep@);
    lemma_replace_newline_starts_copy(msg@, sep@);
    let n = p@.len() + 1;
    assert(r@ =~= p@ + seq![' '] + body + seq!['\n']);
    assert forall|i: int| 0 <= i < r@.len() - 1 && #[trigger] r@[i] == '\n' implies i + sep@.len()
        <= r@.len() && r@.subrange(i, i + sep@.len()) == sep@ by {
        if i < p@.len() {
            assert(r@[i] == p@[i]);
        } else if i == p@.len() {
            assert(r@[i] == ' ');
        } else {
            assert(r@[i] == body[i - n]);
            assert(r@.subrange(i, i + sep@.len()) =~= body.subrange(i - n, i - n + sep@.len()));
        }
    }
    if body.len() > 0 {
        assert(r@[r@.len() - 2] == body.last());
    } else {
        assert(r@[r@.len() - 2] == ' ');
    }
}

} // verus!
