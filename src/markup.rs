//! A model of terminal text: characters interleaved with SGR escape
//! sequences (`ESC [ params m`), and what remains visible once they are gone.
use vstd::prelude::*;

verus! {

/// The escape character that opens a control sequence.
pub open spec fn esc() -> char {
    '\x1b'
}

/// A character that may stand between `ESC [` and the final `m`.
pub open spec fn is_sgr_param(c: char) -> bool {
    ('0' <= c && c <= '9') || c == ';'
}

/// The first index at or after `i` that does not hold a parameter character.
pub open spec fn param_end(s: Seq<char>, i: int) -> int
    decreases s.len() - i,
{
    if i < 0 || i >= s.len() || !is_sgr_param(s[i]) {
        i
    } else {
        param_end(s, i + 1)
    }
}

/// The length of the complete SGR sequence that `s` starts with, or 0.
pub open spec fn sgr_len(s: Seq<char>) -> int {
    if s.len() >= 2 && s[0] == esc() && s[1] == '[' {
        let j = param_end(s, 2);
        if j < s.len() && s[j] == 'm' {
            j + 1
        } else {
            0
        }
    } else {
        0
    }
}

/// What a terminal shows of `s`: every complete SGR sequence removed.
pub open spec fn strip_markup(s: Seq<char>) -> Seq<char>
    decreases s.len(),
{
    if s.len() == 0 {
        s
    } else if sgr_len(s) > 0 {
        strip_markup(s.skip(sgr_len(s)))
    } else {
        seq![s[0]] + strip_markup(s.skip(1))
    }
}

/// `t` is an escape sequence that has been started and not yet finished.
pub open spec fn is_unfinished(t: Seq<char>) -> bool {
    &&& t.len() >= 1
    &&& t[0] == esc()
    &&& (t.len() == 1 || (t[1] == '[' && param_end(t, 2) == t.len()))
}

/// No suffix of `s` is an unfinished escape sequence, so whatever follows
/// `s` cannot be swallowed by markup that `s` opened.
pub open spec fn is_closed(s: Seq<char>) -> bool {
    forall|i: int| 0 <= i < s.len() ==> !is_unfinished(#[trigger] s.skip(i))
}

/// `s` holds no escape character at all.
pub open spec fn is_plain(s: Seq<char>) -> bool {
    forall|i: int| 0 <= i < s.len() ==> s[i] != esc()
}

/// `r` is `msg` with markup added: it shows the same text, and leaves no
/// sequence unfinished that `msg` did not leave unfinished.
pub open spec fn decorates(r: Seq<char>, msg: Seq<char>) -> bool {
    &&& strip_markup(r) == strip_markup(msg)
    &&& is_closed(msg) ==> is_closed(r)
}

/// `m` with every occurrence of `c` replaced by `to`.
pub open spec fn replace_char(m: Seq<char>, c: char, to: Seq<char>) -> Seq<char>
    decreases m.len(),
{
    if m.len() == 0 {
        m
    } else if m[0] == c {
        to + replace_char(m.skip(1), c, to)
    } else {
        seq![m[0]] + replace_char(m.skip(1), c, to)
    }
}

/// The number of newlines in `s`.
pub open spec fn newline_count(s: Seq<char>) -> int
    decreases s.len(),
{
    if s.len() == 0 {
        0
    } else {
        (if s[0] == '\n' { 1int } else { 0int }) + newline_count(s.skip(1))
    }
}

proof fn lemma_param_end_bounds(s: Seq<char>, i: int)
    requires
        0 <= i <= s.len(),
    ensures
        i <= param_end(s, i) <= s.len(),
        forall|k: int| i <= k < param_end(s, i) ==> is_sgr_param(#[trigger] s[k]),
    decreases s.len() - i,
{
    if i < s.len() && is_sgr_param(s[i]) {
        lemma_param_end_bounds(s, i + 1);
    }
}

proof fn lemma_param_end_prefix(x: Seq<char>, y: Seq<char>, i: int)
    requires
        0 <= i <= x.len(),
        param_end(x, i) < x.len(),
    ensures
        param_end(x + y, i) == param_end(x, i),
    decreases x.len() - i,
{
    if is_sgr_param(x[i]) {
        lemma_param_end_prefix(x, y, i + 1);
    }
}

proof fn lemma_unfinished_prefix(t: Seq<char>, y: Seq<char>)
    requires
        t.len() >= 1,
        is_unfinished(t + y),
    ensures
        is_unfinished(t),
{
    if t.len() >= 2 {
        assert((t + y)[1] == t[1]);
        if t.len() > 2 {
            lemma_param_end_bounds(t, 2);
            if param_end(t, 2) < t.len() {
                lemma_param_end_prefix(t, y, 2);
            }
        }
    }
}

/// Markup that is closed on the left does not reach into what follows.
pub proof fn lemma_strip_concat(x: Seq<char>, y: Seq<char>)
    requires
        is_closed(x),
    ensures
        strip_markup(x + y) == strip_markup(x) + strip_markup(y),
    decreases x.len(),
{
    let s = x + y;
    if x.len() == 0 {
        assert(s =~= y);
        assert(strip_markup(x) =~= Seq::<char>::empty());
        assert(strip_markup(x) + strip_markup(y) =~= strip_markup(y));
    } else {
        assert(x.skip(0) =~= x);
        assert(!is_unfinished(x.skip(0)));
        assert(s[0] == x[0]);
        if x.len() >= 2 {
            assert(s[1] == x[1]);
            lemma_param_end_bounds(x, 2);
            if param_end(x, 2) < x.len() {
                lemma_param_end_prefix(x, y, 2);
                assert(s[param_end(x, 2)] == x[param_end(x, 2)]);
            }
        }
        assert(sgr_len(s) == sgr_len(x));
        let n = if sgr_len(x) > 0 { sgr_len(x) } else { 1 };
        let rest = x.skip(n);
        assert forall|i: int| 0 <= i < rest.len() implies !is_unfinished(#[trigger] rest.skip(i)) by {
            assert(rest.skip(i) =~= x.skip(n + i));
        }
        assert(s.skip(n) =~= rest + y);
        lemma_strip_concat(rest, y);
        if sgr_len(x) == 0 {
            assert(seq![s[0]] + (strip_markup(rest) + strip_markup(y)) =~= (seq![x[0]]
                + strip_markup(rest)) + strip_markup(y));
        }
    }
}

/// Text without escape characters is closed.
pub proof fn lemma_plain_closed(s: Seq<char>)
    requires
        is_plain(s),
    ensures
        is_closed(s),
{
    assert forall|i: int| 0 <= i < s.len() implies !is_unfinished(#[trigger] s.skip(i)) by {
        assert(s.skip(i)[0] == s[i]);
    }
}

/// Text without escape characters shows as it is.
pub proof fn lemma_strip_plain(s: Seq<char>)
    requires
        is_plain(s),
    ensures
        strip_markup(s) == s,
    decreases s.len(),
{
    if s.len() > 0 {
        let rest = s.skip(1);
        assert forall|i: int| 0 <= i < rest.len() implies rest[i] != esc() by {
            assert(rest[i] == s[i + 1]);
        }
        lemma_strip_plain(rest);
        assert(s =~= seq![s[0]] + rest);
    }
}

/// Two closed pieces make a closed whole.
pub proof fn lemma_closed_concat(x: Seq<char>, y: Seq<char>)
    requires
        is_closed(x),
        is_closed(y),
    ensures
        is_closed(x + y),
{
    let s = x + y;
    assert forall|i: int| 0 <= i < s.len() implies !is_unfinished(#[trigger] s.skip(i)) by {
        if i < x.len() {
            assert(s.skip(i) =~= x.skip(i) + y);
            if is_unfinished(s.skip(i)) {
                lemma_unfinished_prefix(x.skip(i), y);
            }
        } else {
            assert(s.skip(i) =~= y.skip(i - x.len()));
        }
    }
}

/// Replacing newlines in plain text by a closed separator commutes with
/// removing markup.
pub proof fn lemma_strip_replace(m: Seq<char>, sep: Seq<char>, z: Seq<char>)
    requires
        is_plain(m),
        is_closed(sep),
    ensures
        strip_markup(replace_char(m, '\n', sep) + z) == replace_char(m, '\n', strip_markup(sep))
            + strip_markup(z),
    decreases m.len(),
{
    if m.len() == 0 {
        assert(replace_char(m, '\n', sep) + z =~= z);
        assert(replace_char(m, '\n', strip_markup(sep)) + strip_markup(z) =~= strip_markup(z));
    } else {
        let rest = m.skip(1);
        assert forall|i: int| 0 <= i < rest.len() implies rest[i] != esc() by {
            assert(rest[i] == m[i + 1]);
        }
        lemma_strip_replace(rest, sep, z);
        let tail = replace_char(rest, '\n', sep) + z;
        if m[0] == '\n' {
            assert(replace_char(m, '\n', sep) + z =~= sep + tail);
            lemma_strip_concat(sep, tail);
            assert(replace_char(m, '\n', strip_markup(sep)) + strip_markup(z) =~= strip_markup(sep)
                + (replace_char(rest, '\n', strip_markup(sep)) + strip_markup(z)));
        } else {
            let head = seq![m[0]];
            assert(head[0] != esc());
            lemma_plain_closed(head);
            lemma_strip_plain(head);
            assert(replace_char(m, '\n', sep) + z =~= head + tail);
            lemma_strip_concat(head, tail);
            assert(replace_char(m, '\n', strip_markup(sep)) + strip_markup(z) =~= head + (
            replace_char(rest, '\n', strip_markup(sep)) + strip_markup(z)));
        }
    }
}

/// Newlines of a concatenation are those of its parts.
pub proof fn lemma_newline_count_concat(a: Seq<char>, b: Seq<char>)
    ensures
        newline_count(a + b) == newline_count(a) + newline_count(b),
    decreases a.len(),
{
    if a.len() == 0 {
        assert(a + b =~= b);
    } else {
        lemma_newline_count_concat(a.skip(1), b);
        assert((a + b).skip(1) =~= a.skip(1) + b);
        assert((a + b)[0] == a[0]);
    }
}

proof fn lemma_newline_count_nonneg(s: Seq<char>)
    ensures
        newline_count(s) >= 0,
    decreases s.len(),
{
    if s.len() > 0 {
        lemma_newline_count_nonneg(s.skip(1));
    }
}

/// Each newline of `m` contributes the newlines of `to`; nothing else does.
pub proof fn lemma_newline_count_replace(m: Seq<char>, to: Seq<char>)
    ensures
        newline_count(replace_char(m, '\n', to)) == newline_count(m) * newline_count(to),
        newline_count(m) == 0 ==> replace_char(m, '\n', to) == m,
    decreases m.len(),
{
    if m.len() > 0 {
        let rest = m.skip(1);
        lemma_newline_count_replace(rest, to);
        let k = newline_count(rest);
        let c = newline_count(to);
        lemma_newline_count_nonneg(rest);
        if m[0] == '\n' {
            lemma_newline_count_concat(to, replace_char(rest, '\n', to));
            assert((1 + k) * c == c + k * c) by (nonlinear_arith);
        } else {
            lemma_newline_count_concat(seq![m[0]], replace_char(rest, '\n', to));
            assert(newline_count(seq![m[0]].skip(1)) == 0);
            if k == 0 {
                assert(m =~= seq![m[0]] + rest);
            }
        }
    }
}

/// Text without newline characters counts none.
pub proof fn lemma_no_newlines(t: Seq<char>)
    requires
        forall|i: int| 0 <= i < t.len() ==> t[i] != '\n',
    ensures
        newline_count(t) == 0,
    decreases t.len(),
{
    if t.len() > 0 {
        let rest = t.skip(1);
        assert forall|i: int| 0 <= i < rest.len() implies rest[i] != '\n' by {
            assert(rest[i] == t[i + 1]);
        }
        lemma_no_newlines(rest);
    }
}

/// Text that counts no newline holds none.
pub proof fn lemma_newline_count_zero(t: Seq<char>)
    requires
        newline_count(t) == 0,
    ensures
        forall|i: int| 0 <= i < t.len() ==> t[i] != '\n',
    decreases t.len(),
{
    if t.len() > 0 {
        let rest = t.skip(1);
        lemma_newline_count_nonneg(rest);
        lemma_newline_count_zero(rest);
        assert forall|i: int| 0 <= i < t.len() implies t[i] != '\n' by {
            if i > 0 {
                assert(t[i] == rest[i - 1]);
            }
        }
    }
}

/// Markup holds no newline: removing it keeps every newline.
pub proof fn lemma_strip_newlines(s: Seq<char>)
    ensures
        newline_count(strip_markup(s)) == newline_count(s),
    decreases s.len(),
{
    if s.len() > 0 {
        if sgr_len(s) > 0 {
            let n = sgr_len(s);
            let head = s.take(n);
            lemma_param_end_bounds(s, 2);
            assert forall|i: int| 0 <= i < head.len() implies head[i] != '\n' by {
                assert(head[i] == s[i]);
                if 2 <= i < n - 1 {
                    assert(is_sgr_param(s[i]));
                }
            }
            lemma_no_newlines(head);
            assert(s =~= head + s.skip(n));
            lemma_newline_count_concat(head, s.skip(n));
            lemma_strip_newlines(s.skip(n));
            assert(strip_markup(s) == strip_markup(s.skip(n)));
            assert(newline_count(s) == newline_count(head + s.skip(n)));
        } else {
            lemma_strip_newlines(s.skip(1));
            lemma_newline_count_concat(seq![s[0]], strip_markup(s.skip(1)));
            assert(seq![s[0]].skip(1) =~= Seq::<char>::empty());
            assert(newline_count(Seq::<char>::empty()) == 0);
            assert(strip_markup(s) == seq![s[0]] + strip_markup(s.skip(1)));
        }
    }
}

/// Where the replacement does not end in a newline, neither does the result.
pub proof fn lemma_replace_last(m: Seq<char>, to: Seq<char>)
    requires
        to.len() > 0,
        to.last() != '\n',
    ensures
        replace_char(m, '\n', to).len() > 0 ==> replace_char(m, '\n', to).last() != '\n',
    decreases m.len(),
{
    if m.len() > 0 {
        let rest = m.skip(1);
        lemma_replace_last(rest, to);
        let tail = replace_char(rest, '\n', to);
        let head = if m[0] == '\n' { to } else { seq![m[0]] };
        assert(replace_char(m, '\n', to) == head + tail);
        if tail.len() > 0 {
            assert((head + tail).last() == tail.last());
        } else {
            assert(head + tail =~= head);
        }
    }
}

/// Where the replacement holds one newline, at its start, each newline of the
/// result starts a whole copy of the replacement.
pub proof fn lemma_replace_newline_starts_copy(m: Seq<char>, to: Seq<char>)
    requires
        to.len() > 0,
        to[0] == '\n',
        forall|j: int| 1 <= j < to.len() ==> to[j] != '\n',
    ensures
        forall|i: int|
            0 <= i < replace_char(m, '\n', to).len() && #[trigger] replace_char(m, '\n', to)[i]
                == '\n' ==> i + to.len() <= replace_char(m, '\n', to).len() && replace_char(
                m,
                '\n',
                to,
            ).subrange(i, i + to.len()) == to,
    decreases m.len(),
{
    if m.len() > 0 {
        let rest = m.skip(1);
        lemma_replace_newline_starts_copy(rest, to);
        let tail = replace_char(rest, '\n', to);
        let head = if m[0] == '\n' { to } else { seq![m[0]] };
        let x = replace_char(m, '\n', to);
        assert(x == head + tail);
        assert forall|i: int| 0 <= i < x.len() && #[trigger] x[i] == '\n' implies i + to.len()
            <= x.len() && x.subrange(i, i + to.len()) == to by {
            if i < head.len() {
                assert(x[i] == head[i]);
                assert(i == 0);
                assert(x.subrange(0, to.len() as int) =~= to);
            } else {
                let k = i - head.len();
                assert(x[i] == tail[k]);
                assert(x.subrange(i, i + to.len()) =~= tail.subrange(k, k + to.len()));
            }
        }
    }
}

} // verus!
