use vstd::prelude::*;
use crate::symbols::chars_eq;

verus! {

// ---- lines ----

/// The lines of a text, split at each '\n'; a text of n newlines has n + 1
/// lines.
pub open spec fn split_lines(s: Seq<char>) -> Seq<Seq<char>>
    decreases s.len(),
{
    if s.len() == 0 {
        seq![Seq::empty()]
    } else {
        let rest = split_lines(s.drop_last());
        if s.last() == '\n' {
            rest.push(Seq::empty())
        } else {
            rest.update(rest.len() - 1, rest.last().push(s.last()))
        }
    }
}

pub proof fn lemma_split_lines_nonempty(s: Seq<char>)
    ensures
        split_lines(s).len() >= 1,
    decreases s.len(),
{
    if s.len() > 0 {
        lemma_split_lines_nonempty(s.drop_last());
    }
}

/// Splits a text into its lines.
pub fn lines_of(s: &Vec<char>) -> (r: Vec<Vec<char>>)
    ensures
        r@.map_values(|l: Vec<char>| l@) == split_lines(s@),
{
    let mut done: Vec<Vec<char>> = Vec::new();
    let mut cur: Vec<char> = Vec::new();
    let mut i: usize = 0;
    while i < s.len()
        invariant
            0 <= i <= s@.len(),
            done@.map_values(|l: Vec<char>| l@).push(cur@) == split_lines(s@.take(i as int)),
        decreases s.len() - i,
    {
        let ghost pre = s@.take(i as int);
        let c = s[i];
        i = i + 1;
        assert(s@.take(i as int).drop_last() =~= pre);
        proof {
            lemma_split_lines_nonempty(pre);
        }
        if c == '\n' {
            let line = cur;
            cur = Vec::new();
            done.push(line);
            assert(done@.map_values(|l: Vec<char>| l@).push(cur@) =~= split_lines(s@.take(i as int)));
        } else {
            cur.push(c);
            assert(done@.map_values(|l: Vec<char>| l@).push(cur@) =~= split_lines(s@.take(i as int)));
        }
    }
    assert(s@.take(i as int) =~= s@);
    done.push(cur);
    assert(done@.map_values(|l: Vec<char>| l@) =~= split_lines(s@));
    done
}

// ---- tokens ----

/// Characters that separate tokens.
pub open spec fn is_sep(c: char) -> bool {
    c == ' ' || c == '\t' || c == '\r' || c == ','
}

/// Characters that start a comment, which runs to the end of the line.
pub open spec fn is_comment(c: char) -> bool {
    c == ';' || c == '#'
}

/// The length of the bare word at `j`: up to a separator, a comment, a
/// quote or the end.
pub open spec fn word_run(s: Seq<char>, j: int) -> int
    decreases s.len() - j,
{
    if 0 <= j < s.len() && !is_sep(s[j]) && !is_comment(s[j]) && s[j] != '"' {
        1 + word_run(s, j + 1)
    } else {
        0
    }
}

/// The position just past the quote that closes a literal whose body
/// continues at `j`, or 0 if none does; a backslash escapes the next
/// character.
pub open spec fn quote_end(s: Seq<char>, j: int, escaped: bool) -> int
    decreases s.len() - j,
{
    if j < 0 || j >= s.len() {
        0
    } else if escaped {
        quote_end(s, j + 1, false)
    } else if s[j] == '\\' {
        quote_end(s, j + 1, true)
    } else if s[j] == '"' {
        j + 1
    } else {
        quote_end(s, j + 1, false)
    }
}

/// Whether a token may end before position `e`.
pub open spec fn ends_token(s: Seq<char>, e: int) -> bool {
    e == s.len() || is_sep(s[e]) || is_comment(s[e])
}

/// The end of the token that starts at `i`, or 0 where it is malformed: a
/// quoted literal left open or run into more text, or a word that runs into
/// a quote.
pub open spec fn token_end(s: Seq<char>, i: int) -> int {
    if s[i] == '"' {
        let q = quote_end(s, i + 1, false);
        if q > 0 && ends_token(s, q) {
            q
        } else {
            0
        }
    } else {
        let w = i + word_run(s, i);
        if w < s.len() && s[w] == '"' {
            0
        } else {
            w
        }
    }
}

/// The tokens of a line from position `i` on; `None` if one is malformed.
pub open spec fn lex_from(s: Seq<char>, i: int) -> Option<Seq<Seq<char>>>
    decreases s.len() - i,
{
    if i < 0 || i >= s.len() {
        Some(Seq::empty())
    } else if is_sep(s[i]) {
        lex_from(s, i + 1)
    } else if is_comment(s[i]) {
        Some(Seq::empty())
    } else {
        let e = token_end(s, i);
        if e <= i || e > s.len() {
            None
        } else {
            match lex_from(s, e) {
                Some(rest) => Some(seq![s.subrange(i, e)] + rest),
                None => None,
            }
        }
    }
}

/// The tokens of a line; `None` if one is malformed.
pub open spec fn lex(s: Seq<char>) -> Option<Seq<Seq<char>>> {
    lex_from(s, 0)
}

pub open spec fn prepend(t: Seq<Seq<char>>, o: Option<Seq<Seq<char>>>) -> Option<Seq<Seq<char>>> {
    match o {
        Some(r) => Some(t + r),
        None => None,
    }
}

pub open spec fn toks_view(v: Seq<Vec<char>>) -> Seq<Seq<char>> {
    v.map_values(|t: Vec<char>| t@)
}

proof fn lemma_word_run_bound(s: Seq<char>, j: int)
    requires
        0 <= j <= s.len(),
    ensures
        0 <= word_run(s, j) <= s.len() - j,
    decreases s.len() - j,
{
    if j < s.len() {
        lemma_word_run_bound(s, j + 1);
    }
}

proof fn lemma_quote_end_bound(s: Seq<char>, j: int, escaped: bool)
    ensures
        quote_end(s, j, escaped) == 0 || (j < quote_end(s, j, escaped) <= s.len()),
    decreases s.len() - j,
{
    if 0 <= j < s.len() {
        lemma_quote_end_bound(s, j + 1, false);
        lemma_quote_end_bound(s, j + 1, true);
    }
}

fn word_run_exec(s: &Vec<char>, j: usize) -> (r: usize)
    requires
        j <= s@.len(),
    ensures
        r == word_run(s@, j as int),
        j + r <= s@.len(),
{
    let mut k: usize = j;
    while k < s.len() && !(s[k] == ' ' || s[k] == '\t' || s[k] == '\r' || s[k] == ',') && !(
    s[k] == ';' || s[k] == '#') && s[k] != '"'
        invariant
            j <= k <= s@.len(),
            word_run(s@, j as int) == (k - j) + word_run(s@, k as int),
        decreases s.len() - k,
    {
        k = k + 1;
    }
    k - j
}

fn quote_end_exec(s: &Vec<char>, j: usize) -> (r: usize)
    requires
        j <= s@.len(),
    ensures
        r == quote_end(s@, j as int, false),
{
    let mut k: usize = j;
    let mut escaped = false;
    while k < s.len()
        invariant
            j <= k <= s@.len(),
            quote_end(s@, j as int, false) == quote_end(s@, k as int, escaped),
        decreases s.len() - k,
    {
        if escaped {
            escaped = false;
        } else if s[k] == '\\' {
            escaped = true;
        } else if s[k] == '"' {
            return k + 1;
        }
        k = k + 1;
    }
    0
}

fn token_end_exec(s: &Vec<char>, i: usize) -> (r: usize)
    requires
        i < s@.len(),
    ensures
        r == token_end(s@, i as int),
{
    let n = s.len();
    if s[i] == '"' {
        proof {
            lemma_quote_end_bound(s@, i + 1, false);
        }
        let q = quote_end_exec(s, i + 1);
        if q > 0 && (q == s.len() || (s[q] == ' ' || s[q] == '\t' || s[q] == '\r' || s[q] == ',')
            || (s[q] == ';' || s[q] == '#')) {
            q
        } else {
            0
        }
    } else {
        let w = i + word_run_exec(s, i);
        if w < s.len() && s[w] == '"' {
            0
        } else {
            w
        }
    }
}

fn subrange_exec(s: &Vec<char>, a: usize, b: usize) -> (r: Vec<char>)
    requires
        a <= b <= s@.len(),
    ensures
        r@ == s@.subrange(a as int, b as int),
{
    let mut r: Vec<char> = Vec::new();
    let mut k: usize = a;
    while k < b
        invariant
            a <= k <= b,
            b <= s@.len(),
            r@ == s@.subrange(a as int, k as int),
        decreases b - k,
    {
        r.push(s[k]);
        k = k + 1;
        assert(r@ =~= s@.subrange(a as int, k as int));
    }
    r
}

/// Splits a line into tokens; `None` if one is malformed.
pub fn lex_line(s: &Vec<char>) -> (r: Option<Vec<Vec<char>>>)
    ensures
        match lex(s@) {
            Some(t) => r matches Some(v) && toks_view(v@) == t,
            None => r is None,
        },
{
    let mut toks: Vec<Vec<char>> = Vec::new();
    let mut i: usize = 0;
    assert(toks_view(toks@) =~= Seq::<Seq<char>>::empty());
    while i < s.len()
        invariant
            0 <= i <= s@.len(),
            lex(s@) == prepend(toks_view(toks@), lex_from(s@, i as int)),
        decreases s.len() - i,
    {
        let c = s[i];
        if c == ' ' || c == '\t' || c == '\r' || c == ',' {
            i = i + 1;
        } else if c == ';' || c == '#' {
            assert(toks_view(toks@) + Seq::<Seq<char>>::empty() =~= toks_view(toks@));
            return Some(toks);
        } else {
            proof {
                lemma_word_run_bound(s@, i as int);
                lemma_quote_end_bound(s@, i + 1, false);
            }
            let e = token_end_exec(s, i);
            if e <= i {
                return None;
            }
            let t = subrange_exec(s, i, e);
            let ghost before = toks_view(toks@);
            toks.push(t);
            assert(toks_view(toks@) =~= before.push(s@.subrange(i as int, e as int)));
            proof {
                match lex_from(s@, e as int) {
                    Some(rest) => {
                        assert(before + (seq![s@.subrange(i as int, e as int)] + rest) =~= toks_view(
                            toks@,
                        ) + rest);
                    },
                    None => {},
                }
            }
            i = e;
        }
    }
    assert(toks_view(toks@) + Seq::<Seq<char>>::empty() =~= toks_view(toks@));
    Some(toks)
}

// ---- line kinds ----

pub open spec fn is_ident_start(c: char) -> bool {
    ('a' <= c && c <= 'z') || ('A' <= c && c <= 'Z') || c == '_' || c == '$'
}

pub open spec fn is_ident_char(c: char) -> bool {
    is_ident_start(c) || ('0' <= c && c <= '9') || c == '.'
}

/// A name: a letter, '_' or '$', then letters, digits, '_', '$' or '.'.
pub open spec fn is_ident(s: Seq<char>) -> bool {
    &&& s.len() > 0
    &&& is_ident_start(s[0])
    &&& forall|i: int| 1 <= i < s.len() ==> is_ident_char(s[i])
}

pub fn is_ident_exec(s: &Vec<char>) -> (r: bool)
    ensures
        r == is_ident(s@),
{
    if s.len() == 0 {
        return false;
    }
    let c = s[0];
    if !(('a' <= c && c <= 'z') || ('A' <= c && c <= 'Z') || c == '_' || c == '$') {
        return false;
    }
    let mut i: usize = 1;
    while i < s.len()
        invariant
            1 <= i <= s@.len(),
            forall|k: int| 1 <= k < i ==> is_ident_char(s@[k]),
        decreases s.len() - i,
    {
        let d = s[i];
        if !(('a' <= d && d <= 'z') || ('A' <= d && d <= 'Z') || d == '_' || d == '$' || ('0' <= d
            && d <= '9') || d == '.') {
            return false;
        }
        i = i + 1;
    }
    true
}

/// A source line, by kind.
pub enum Line {
    Blank,
    Label(Vec<char>),
    Alias(Vec<char>, Vec<char>),
    Constant(Vec<char>, Vec<char>),
    Instr(Vec<Vec<char>>),
}

pub enum LineView {
    Blank,
    Label(Seq<char>),
    Alias(Seq<char>, Seq<char>),
    Constant(Seq<char>, Seq<char>),
    Instr(Seq<Seq<char>>),
}

impl View for Line {
    type V = LineView;

    open spec fn view(&self) -> LineView {
        match self {
            Line::Blank => LineView::Blank,
            Line::Label(n) => LineView::Label(n@),
            Line::Alias(n, v) => LineView::Alias(n@, v@),
            Line::Constant(n, v) => LineView::Constant(n@, v@),
            Line::Instr(t) => LineView::Instr(toks_view(t@)),
        }
    }
}

pub open spec fn alias_keyword() -> Seq<char> {
    seq!['.', 'a', 'l', 'i', 'a', 's']
}

pub open spec fn const_keyword() -> Seq<char> {
    seq!['.', 'c', 'o', 'n', 's', 't']
}

/// The kind of a line with the given tokens: nothing; `name:`;
/// `.alias name value`; `.const name value`; or a mnemonic and its operands.
/// `None` for anything else.
pub open spec fn classify(t: Seq<Seq<char>>) -> Option<LineView> {
    if t.len() == 0 {
        Some(LineView::Blank)
    } else if t[0] == alias_keyword() {
        if t.len() == 3 && is_ident(t[1]) {
            Some(LineView::Alias(t[1], t[2]))
        } else {
            None
        }
    } else if t[0] == const_keyword() {
        if t.len() == 3 && is_ident(t[1]) {
            Some(LineView::Constant(t[1], t[2]))
        } else {
            None
        }
    } else if t[0].len() > 0 && t[0].last() == ':' {
        if t.len() == 1 && is_ident(t[0].drop_last()) {
            Some(LineView::Label(t[0].drop_last()))
        } else {
            None
        }
    } else if is_ident(t[0]) {
        Some(LineView::Instr(t))
    } else {
        None
    }
}

/// The kind of a source line; `None` if it is malformed.
pub open spec fn line_kind(s: Seq<char>) -> Option<LineView> {
    match lex(s) {
        Some(t) => classify(t),
        None => None,
    }
}

fn take_token(t: &mut Vec<Vec<char>>, k: usize) -> (r: Vec<char>)
    requires
        k < old(t)@.len(),
    ensures
        r@ == old(t)@[k as int]@,
        final(t)@.len() == old(t)@.len(),
        forall|j: int| 0 <= j < old(t)@.len() && j != k ==> final(t)@[j] == old(t)@[j],
{
    let mut r: Vec<char> = Vec::new();
    std::mem::swap(&mut r, &mut t[k]);
    r
}

/// Classifies a source line; `None` if it is malformed.
pub fn classify_line(s: &Vec<char>) -> (r: Option<Line>)
    ensures
        match line_kind(s@) {
            Some(k) => r matches Some(l) && l@ == k,
            None => r is None,
        },
{
    let mut t = match lex_line(s) {
        Some(t) => t,
        None => {
            return None;
        },
    };
    let ghost tv = toks_view(t@);
    if t.len() == 0 {
        return Some(Line::Blank);
    }
    assert(tv[0] == t@[0]@);
    let alias_kw: Vec<char> = vec!['.', 'a', 'l', 'i', 'a', 's'];
    let const_kw: Vec<char> = vec!['.', 'c', 'o', 'n', 's', 't'];
    let is_alias = chars_eq(&t[0], &alias_kw);
    let is_const = chars_eq(&t[0], &const_kw);
    if is_alias || is_const {
        if t.len() != 3 {
            return None;
        }
        assert(tv[1] == t@[1]@);
        assert(tv[2] == t@[2]@);
        if !is_ident_exec(&t[1]) {
            return None;
        }
        let value = take_token(&mut t, 2);
        let name = take_token(&mut t, 1);
        if is_alias {
            return Some(Line::Alias(name, value));
        } else {
            return Some(Line::Constant(name, value));
        }
    }
    let n0 = t[0].len();
    if n0 > 0 && t[0][n0 - 1] == ':' {
        if t.len() != 1 {
            return None;
        }
        let name = subrange_exec(&t[0], 0, n0 - 1);
        assert(name@ =~= tv[0].drop_last());
        if !is_ident_exec(&name) {
            return None;
        }
        return Some(Line::Label(name));
    }
    if is_ident_exec(&t[0]) {
        Some(Line::Instr(t))
    } else {
        None
    }
}

} // verus!
