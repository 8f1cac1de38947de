use vstd::prelude::*;

verus! {

/// The quoting state of the tokenizer.
#[derive(Clone, Copy, Debug, PartialEq, Eq, Structural)]
pub enum Quote {
    Unquoted,
    Single,
    Double,
}

/// The abstract state of the tokenizer: the word being built, the quoting
/// state, whether a word has been started (a pair of quotes starts an empty
/// word), whether the next completed word is the redirect target, and what
/// has been produced so far.
pub struct Lexer {
    pub quote: Quote,
    pub word: Seq<char>,
    pub started: bool,
    pub pending: bool,
    pub words: Seq<Seq<char>>,
    pub target: Option<Seq<char>>,
}

pub open spec fn start() -> Lexer {
    Lexer {
        quote: Quote::Unquoted,
        word: Seq::empty(),
        started: false,
        pending: false,
        words: Seq::empty(),
        target: None,
    }
}

/// Characters that separate words outside quotes: the characters with the
/// Unicode White_Space property, the set that `char::is_whitespace` accepts.
pub open spec fn is_space(c: char) -> bool {
    ('\t' <= c && c <= '\r') || c == ' ' || c == '\u{85}' || c == '\u{A0}' || c == '\u{1680}'
        || ('\u{2000}' <= c && c <= '\u{200A}') || c == '\u{2028}' || c == '\u{2029}'
        || c == '\u{202F}' || c == '\u{205F}' || c == '\u{3000}'
}

/// Characters that a backslash escapes inside double quotes.
pub open spec fn escapable(c: char) -> bool {
    c == '$' || c == '`' || c == '"' || c == '\\' || c == '\n'
}

/// Whitespace or the end of input completes the word in progress: it becomes
/// the redirect target if one is awaited, else the next word.
pub open spec fn end_word(st: Lexer) -> Lexer {
    if !st.started {
        st
    } else if st.pending {
        Lexer { word: Seq::empty(), started: false, pending: false, target: Some(st.word), ..st }
    } else {
        Lexer { word: Seq::empty(), started: false, words: st.words.push(st.word), ..st }
    }
}

/// A redirect operator: the word in progress, if any, goes to the words, and
/// the next completed word becomes the target.
pub open spec fn begin_redirect(st: Lexer) -> Lexer {
    let words = if st.started { st.words.push(st.word) } else { st.words };
    Lexer { word: Seq::empty(), started: false, pending: true, words: words, ..st }
}

pub open spec fn add_char(st: Lexer, c: char) -> Lexer {
    Lexer { word: st.word.push(c), started: true, ..st }
}

pub open spec fn enter(st: Lexer, q: Quote) -> Lexer {
    Lexer { quote: q, started: true, ..st }
}

/// Runs the tokenizer from state `st` over the remaining input `s`.
pub open spec fn lex(st: Lexer, s: Seq<char>) -> Lexer
    decreases s.len(),
{
    if s.len() == 0 {
        end_word(st)
    } else {
        let c = s[0];
        match st.quote {
            Quote::Unquoted => {
                if is_space(c) {
                    lex(end_word(st), s.skip(1))
                } else if c == '\'' {
                    lex(enter(st, Quote::Single), s.skip(1))
                } else if c == '"' {
                    lex(enter(st, Quote::Double), s.skip(1))
                } else if c == '\\' {
                    if s.len() > 1 {
                        lex(add_char(st, s[1]), s.skip(2))
                    } else {
                        lex(st, s.skip(1))
                    }
                } else if c == '>' {
                    lex(begin_redirect(st), s.skip(1))
                } else if c == '1' && s.len() > 1 && s[1] == '>' {
                    lex(begin_redirect(st), s.skip(2))
                } else {
                    lex(add_char(st, c), s.skip(1))
                }
            },
            Quote::Single => {
                if c == '\'' {
                    lex(Lexer { quote: Quote::Unquoted, ..st }, s.skip(1))
                } else {
                    lex(add_char(st, c), s.skip(1))
                }
            },
            Quote::Double => {
                if c == '"' {
                    lex(Lexer { quote: Quote::Unquoted, ..st }, s.skip(1))
                } else if c == '\\' && s.len() > 1 && escapable(s[1]) {
                    lex(add_char(st, s[1]), s.skip(2))
                } else {
                    lex(add_char(st, c), s.skip(1))
                }
            },
        }
    }
}

/// The words of a command line.
pub open spec fn words_of(s: Seq<char>) -> Seq<Seq<char>> {
    lex(start(), s).words
}

/// The redirect target of a command line, if one was given.
pub open spec fn target_of(s: Seq<char>) -> Option<Seq<char>> {
    lex(start(), s).target
}

/// A tokenized command line: its words, the first of which names the
/// command, and the file that standard output goes to, if one was given.
pub struct Token {
    pub words: Vec<String>,
    pub stdout: Option<String>,
}

impl Token {
    /// A command line with no words and no redirect.
    pub fn new() -> (r: Token)
        ensures
            r.words@.len() == 0,
            r.stdout is None,
    {
        Token { words: Vec::new(), stdout: None }
    }

    pub open spec fn words_view(&self) -> Seq<Seq<char>> {
        self.words@.map_values(|w: String| w@)
    }

    pub open spec fn target_view(&self) -> Option<Seq<char>> {
        match self.stdout {
            Some(t) => Some(t@),
            None => None,
        }
    }
}

/// The tokenizer's position within a word: the characters gathered so far,
/// the quoting state, whether a word has been started, and whether the next
/// completed word is the redirect target.
pub struct Cursor {
    pub word: String,
    pub quote: Quote,
    pub started: bool,
    pub pending: bool,
}

impl Cursor {
    /// The state at the start of a line.
    pub fn new() -> (r: Cursor)
        ensures
            r.word@.len() == 0,
            r.quote == Quote::Unquoted,
            !r.started,
            !r.pending,
    {
        Cursor { word: String::new(), quote: Quote::Unquoted, started: false, pending: false }
    }

    /// The abstract state that this cursor and the output so far stand for.
    pub open spec fn model(&self, out: &Token) -> Lexer {
        Lexer {
            quote: self.quote,
            word: self.word@,
            started: self.started,
            pending: self.pending,
            words: out.words_view(),
            target: out.target_view(),
        }
    }

    fn end_word(&mut self, out: &mut Token)
        ensures
            final(self).model(final(out)) == end_word(old(self).model(old(out))),
    {
        if self.started {
            let mut w = String::new();
            std::mem::swap(&mut w, &mut self.word);
            if self.pending {
                out.stdout = Some(w);
                self.pending = false;
            } else {
                out.words.push(w);
                assert(out.words_view() =~= old(out).words_view().push(old(self).word@));
            }
            self.started = false;
        }
    }

    fn begin_redirect(&mut self, out: &mut Token)
        ensures
            final(self).model(final(out)) == begin_redirect(old(self).model(old(out))),
    {
        let mut w = String::new();
        std::mem::swap(&mut w, &mut self.word);
        if self.started {
            out.words.push(w);
            assert(out.words_view() =~= old(out).words_view().push(old(self).word@));
            self.started = false;
        }
        self.pending = true;
    }

    /// Appends `piece`, a string of one character, to the word.
    fn add_char(&mut self, out: &Token, piece: &str)
        requires
            piece@.len() == 1,
        ensures
            final(self).model(out) == add_char(old(self).model(out), piece@[0]),
    {
        self.word.append(piece);
        assert(self.word@ =~= old(self).word@.push(piece@[0]));
        self.started = true;
    }
}

/// Splits a command line into words, honouring single quotes, double quotes,
/// backslash escapes and the output redirect operators `>` and `1>`.
pub fn tokenize(line: &str) -> (r: Token)
    ensures
        r.words_view() == words_of(line@),
        r.target_view() == target_of(line@),
{
    let n = line.unicode_len();
    let mut cur = Cursor::new();
    let mut out = Token::new();
    let mut i: usize = 0;
    assert(line@.subrange(0, n as int) =~= line@);
    assert(cur.model(&out) == start()) by {
        assert(out.words_view() =~= Seq::<Seq<char>>::empty());
        assert(cur.word@ =~= Seq::<char>::empty());
    }
    while i < n
        invariant
            n == line@.len(),
            i <= n,
            lex(cur.model(&out), line@.subrange(i as int, n as int)) == lex(start(), line@),
        decreases n - i,
    {
        let ghost rest = line@.subrange(i as int, n as int);
        let c = line.get_char(i);
        assert(rest[0] == c);
        assert(rest.skip(1) =~= line@.subrange(i + 1, n as int));
        let has_next = i + 1 < n;
        if has_next {
            assert(rest[1] == line@[i + 1]);
            assert(rest.skip(2) =~= line@.subrange(i + 2, n as int));
        }
        match cur.quote {
            Quote::Unquoted => {
                if is_space_char(c) {
                    cur.end_word(&mut out);
                    i = i + 1;
                } else if c == '\'' {
                    cur.quote = Quote::Single;
                    cur.started = true;
                    i = i + 1;
                } else if c == '"' {
                    cur.quote = Quote::Double;
                    cur.started = true;
                    i = i + 1;
                } else if c == '\\' {
                    if has_next {
                        let piece = line.substring_char(i + 1, i + 2);
                        cur.add_char(&out, piece);
                        i = i + 2;
                    } else {
                        i = i + 1;
                    }
                } else if c == '>' {
                    cur.begin_redirect(&mut out);
                    i = i + 1;
                } else if c == '1' && has_next && line.get_char(i + 1) == '>' {
                    cur.begin_redirect(&mut out);
                    i = i + 2;
                } else {
                    let piece = line.substring_char(i, i + 1);
                    cur.add_char(&out, piece);
                    i = i + 1;
                }
            },
            Quote::Single => {
                if c == '\'' {
                    cur.quote = Quote::Unquoted;
                } else {
                    let piece = line.substring_char(i, i + 1);
                    cur.add_char(&out, piece);
                }
                i = i + 1;
            },
            Quote::Double => {
                if c == '"' {
                    cur.quote = Quote::Unquoted;
                    i = i + 1;
                } else if c == '\\' && has_next && is_escapable(line.get_char(i + 1)) {
                    let piece = line.substring_char(i + 1, i + 2);
                    cur.add_char(&out, piece);
                    i = i + 2;
                } else {
                    let piece = line.substring_char(i, i + 1);
                    cur.add_char(&out, piece);
                    i = i + 1;
                }
            },
        }
    }
    assert(line@.subrange(i as int, n as int).len() == 0);
    cur.end_word(&mut out);
    out
}

fn is_space_char(c: char) -> (r: bool)
    ensures
        r == is_space(c),
{
    ('\t' <= c && c <= '\r') || c == ' ' || c == '\u{85}' || c == '\u{A0}' || c == '\u{1680}'
        || ('\u{2000}' <= c && c <= '\u{200A}') || c == '\u{2028}' || c == '\u{2029}'
        || c == '\u{202F}' || c == '\u{205F}' || c == '\u{3000}'
}

fn is_escapable(c: char) -> (r: bool)
    ensures
        r == escapable(c),
{
    c == '$' || c == '`' || c == '"' || c == '\\' || c == '\n'
}

/// Characters with a meaning to the tokenizer besides whitespace.
pub open spec fn is_special(c: char) -> bool {
    c == '\'' || c == '"' || c == '\\' || c == '>'
}

/// The length of the run of non-whitespace characters that `s` starts with.
pub open spec fn run_len(s: Seq<char>) -> nat
    decreases s.len(),
{
    if s.len() == 0 || is_space(s[0]) {
        0
    } else {
        1 + run_len(s.skip(1))
    }
}

/// `s` split on runs of whitespace, with empty fragments left out.
pub open spec fn split_ws(s: Seq<char>) -> Seq<Seq<char>>
    decreases s.len(),
    via split_ws_decreases
{
    if s.len() == 0 {
        Seq::empty()
    } else if is_space(s[0]) {
        split_ws(s.skip(1))
    } else {
        seq![s.take(run_len(s) as int)] + split_ws(s.skip(run_len(s) as int))
    }
}

#[via_fn]
proof fn split_ws_decreases(s: Seq<char>) {
    lemma_run_len_bounds(s);
}

proof fn lemma_run_len_bounds(s: Seq<char>)
    ensures
        run_len(s) <= s.len(),
        s.len() > 0 && !is_space(s[0]) ==> run_len(s) >= 1,
    decreases s.len(),
{
    if s.len() > 0 && !is_space(s[0]) {
        lemma_run_len_bounds(s.skip(1));
    }
}

proof fn lemma_run_len_concat(w: Seq<char>, t: Seq<char>)
    requires
        forall|k: int| 0 <= k < w.len() ==> !is_space(#[trigger] w[k]),
    ensures
        run_len(w + t) == w.len() + run_len(t),
    decreases w.len(),
{
    if w.len() > 0 {
        assert((w + t)[0] == w[0]);
        assert((w + t).skip(1) =~= w.skip(1) + t);
        lemma_run_len_concat(w.skip(1), t);
    } else {
        assert(w + t =~= t);
    }
}

/// A non-empty word with no whitespace, followed by whitespace, splits off as
/// the first fragment.
proof fn lemma_split_word_then_space(w: Seq<char>, s: Seq<char>)
    requires
        forall|k: int| 0 <= k < w.len() ==> !is_space(#[trigger] w[k]),
        s.len() == 0 || is_space(s[0]),
    ensures
        split_ws(w + s) == (if w.len() > 0 { seq![w] } else { Seq::empty() }) + split_ws(s),
{
    lemma_run_len_concat(w, s);
    if w.len() > 0 {
        assert((w + s)[0] == w[0]);
        assert((w + s).take(w.len() as int) =~= w);
        assert((w + s).skip(w.len() as int) =~= s);
    } else {
        assert(w + s =~= s);
        assert(Seq::<Seq<char>>::empty() + split_ws(s) =~= split_ws(s));
    }
}

proof fn lemma_lex_plain(st: Lexer, s: Seq<char>)
    requires
        st.quote == Quote::Unquoted,
        !st.pending,
        st.started == (st.word.len() > 0),
        forall|k: int| 0 <= k < st.word.len() ==> !is_space(#[trigger] st.word[k]),
        forall|k: int| 0 <= k < s.len() ==> !is_special(#[trigger] s[k]),
    ensures
        lex(st, s).words == st.words + split_ws(st.word + s),
        lex(st, s).target == st.target,
    decreases s.len(),
{
    if s.len() == 0 {
        lemma_split_word_then_space(st.word, s);
        assert(st.word + s =~= st.word);
        assert(split_ws(s) =~= Seq::<Seq<char>>::empty());
        if st.word.len() > 0 {
            assert(st.words.push(st.word) =~= st.words + (seq![st.word] + split_ws(s)));
        } else {
            assert(st.words =~= st.words + (Seq::<Seq<char>>::empty() + split_ws(s)));
        }
    } else {
        let c = s[0];
        assert(!is_special(s[0]));
        let tail = s.skip(1);
        assert forall|k: int| 0 <= k < tail.len() implies !is_special(#[trigger] tail[k]) by {
            assert(tail[k] == s[k + 1]);
        }
        if is_space(c) {
            let next = end_word(st);
            lemma_lex_plain(next, tail);
            lemma_split_word_then_space(st.word, s);
            assert(split_ws(s) == split_ws(tail));
            assert(next.word + tail =~= tail);
            if st.word.len() > 0 {
                assert(next.words + split_ws(tail) =~= st.words + (seq![st.word] + split_ws(tail)));
            } else {
                assert(next.words + split_ws(tail) =~= st.words + (Seq::<Seq<char>>::empty() + split_ws(tail)));
            }
        } else {
            let next = add_char(st, c);
            assert forall|k: int| 0 <= k < next.word.len() implies !is_space(#[trigger] next.word[k]) by {
                if k < st.word.len() {
                    assert(next.word[k] == st.word[k]);
                }
            }
            lemma_lex_plain(next, tail);
            assert(next.word + tail =~= st.word + s);
        }
    }
}

/// On a line with no quote, backslash or redirect character, the words are
/// the line split on runs of whitespace, with empty fragments discarded, and
/// no redirect target is set.
pub proof fn lemma_plain_line_splits_on_whitespace(s: Seq<char>)
    requires
        forall|k: int| 0 <= k < s.len() ==> !is_special(#[trigger] s[k]),
    ensures
        words_of(s) == split_ws(s),
        target_of(s) is None,
{
    lemma_lex_plain(start(), s);
    assert(start().word + s =~= s);
    assert(Seq::<Seq<char>>::empty() + split_ws(s) =~= split_ws(s));
}

/// `t` wrapped in single quotes.
pub open spec fn quoted(t: Seq<char>) -> Seq<char> {
    seq!['\''] + t + seq!['\'']
}

/// Each word wrapped in single quotes, the results joined by single spaces.
pub open spec fn quote_all(ts: Seq<Seq<char>>) -> Seq<char>
    decreases ts.len(),
{
    if ts.len() == 0 {
        Seq::empty()
    } else if ts.len() == 1 {
        quoted(ts[0])
    } else {
        quoted(ts[0]) + seq![' '] + quote_all(ts.skip(1))
    }
}

proof fn lemma_lex_single(st: Lexer, t: Seq<char>, rest: Seq<char>)
    requires
        st.quote == Quote::Single,
        st.started,
        forall|k: int| 0 <= k < t.len() ==> #[trigger] t[k] != '\'',
    ensures
        lex(st, t + seq!['\''] + rest) == lex(
            Lexer { quote: Quote::Unquoted, word: st.word + t, ..st },
            rest,
        ),
    decreases t.len(),
{
    let s = t + seq!['\''] + rest;
    if t.len() == 0 {
        assert(s[0] == '\'');
        assert(s.skip(1) =~= rest);
        assert(st.word + t =~= st.word);
    } else {
        assert(s[0] == t[0]);
        assert(s.skip(1) =~= t.skip(1) + seq!['\''] + rest);
        let next = add_char(st, t[0]);
        assert forall|k: int| 0 <= k < t.skip(1).len() implies #[trigger] t.skip(1)[k] != '\'' by {
            assert(t.skip(1)[k] == t[k + 1]);
        }
        lemma_lex_single(next, t.skip(1), rest);
        assert(next.word + t.skip(1) =~= st.word + t);
    }
}

proof fn lemma_lex_quoted(st: Lexer, ts: Seq<Seq<char>>)
    requires
        st.quote == Quote::Unquoted,
        !st.started,
        !st.pending,
        st.word.len() == 0,
        forall|i: int, k: int|
            0 <= i < ts.len() && 0 <= k < ts[i].len() ==> #[trigger] ts[i][k] != '\'',
    ensures
        lex(st, quote_all(ts)).words == st.words + ts,
        lex(st, quote_all(ts)).target == st.target,
    decreases ts.len(),
{
    if ts.len() == 0 {
        assert(st.words + ts =~= st.words);
    } else {
        let t = ts[0];
        let r = if ts.len() == 1 { Seq::empty() } else { seq![' '] + quote_all(ts.skip(1)) };
        let s = quote_all(ts);
        assert(s =~= seq!['\''] + (t + seq!['\''] + r));
        assert(s[0] == '\'');
        assert(s.skip(1) =~= t + seq!['\''] + r);
        let inside = enter(st, Quote::Single);
        assert forall|k: int| 0 <= k < t.len() implies #[trigger] t[k] != '\'' by {
            assert(ts[0][k] != '\'');
        }
        lemma_lex_single(inside, t, r);
        let after = Lexer { quote: Quote::Unquoted, word: inside.word + t, ..inside };
        assert(inside.word + t =~= t);
        if ts.len() == 1 {
            assert(st.words.push(t) =~= st.words + ts);
        } else {
            assert(r[0] == ' ');
            assert(r.skip(1) =~= quote_all(ts.skip(1)));
            let next = end_word(after);
            assert forall|i: int, k: int|
                0 <= i < ts.skip(1).len() && 0 <= k < ts.skip(1)[i].len() implies
                #[trigger] ts.skip(1)[i][k] != '\'' by {
                assert(ts.skip(1)[i] == ts[i + 1]);
            }
            lemma_lex_quoted(next, ts.skip(1));
            assert(st.words.push(t) + ts.skip(1) =~= st.words + ts);
        }
    }
}

/// Tokenizing words that hold no single quote, each wrapped in single quotes
/// and joined by spaces, gives back exactly those words and no redirect
/// target.
pub proof fn lemma_quoted_words_round_trip(ts: Seq<Seq<char>>)
    requires
        forall|i: int, k: int|
            0 <= i < ts.len() && 0 <= k < ts[i].len() ==> #[trigger] ts[i][k] != '\'',
    ensures
        words_of(quote_all(ts)) == ts,
        target_of(quote_all(ts)) is None,
{
    lemma_lex_quoted(start(), ts);
    assert(Seq::<Seq<char>>::empty() + ts =~= ts);
}

} // verus!
