use crate::text::chars_of;
use vstd::prelude::*;

verus! {

/// Puts the characters `head` in front of the first token of `tokens`.
pub open spec fn extend_first(head: Seq<char>, tokens: Seq<Seq<char>>) -> Seq<Seq<char>>
    recommends
        tokens.len() > 0,
{
    tokens.update(0, head + tokens[0])
}

/// The tokens of a selector.
///
/// A `.` closes the current token and opens the next one. A `\` takes the
/// character after it into the current token as it is, whatever it is; a `\`
/// with nothing after it is dropped. Every other character goes into the
/// current token. Nothing is collapsed: the empty selector has one empty token,
/// and a `.` at either end leaves an empty token there.
pub open spec fn tokenize(selector: Seq<char>) -> Seq<Seq<char>>
    decreases selector.len(),
{
    if selector.len() == 0 {
        seq![Seq::<char>::empty()]
    } else if selector[0] == '.' {
        seq![Seq::<char>::empty()] + tokenize(selector.skip(1))
    } else if selector[0] == '\\' {
        if selector.len() == 1 {
            seq![Seq::<char>::empty()]
        } else {
            extend_first(seq![selector[1]], tokenize(selector.skip(2)))
        }
    } else {
        extend_first(seq![selector[0]], tokenize(selector.skip(1)))
    }
}

/// A token as it is written in a selector: each `.` of it gets a `\` in front.
pub open spec fn escape_token(token: Seq<char>) -> Seq<char>
    decreases token.len(),
{
    if token.len() == 0 {
        Seq::<char>::empty()
    } else if token[0] == '.' {
        seq!['\\', '.'] + escape_token(token.skip(1))
    } else {
        seq![token[0]] + escape_token(token.skip(1))
    }
}

/// The written form of a sequence of tokens: the escaped tokens with a `.`
/// between each two of them.
pub open spec fn render(tokens: Seq<Seq<char>>) -> Seq<char>
    decreases tokens.len(),
{
    if tokens.len() == 0 {
        Seq::<char>::empty()
    } else if tokens.len() == 1 {
        escape_token(tokens[0])
    } else {
        escape_token(tokens[0]) + seq!['.'] + render(tokens.skip(1))
    }
}

/// The views of the strings of `tokens`, in order.
pub open spec fn token_views(tokens: Seq<String>) -> Seq<Seq<char>> {
    Seq::new(tokens.len(), |i: int| tokens[i]@)
}

/// The segments of an attribute selector.
#[derive(Debug, Clone)]
pub struct Path {
    tokens: Vec<String>,
}

impl View for Path {
    type V = Seq<Seq<char>>;

    closed spec fn view(&self) -> Seq<Seq<char>> {
        token_views(self.tokens@)
    }
}

/// Every selector has at least one token.
pub proof fn lemma_tokenize_nonempty(selector: Seq<char>)
    ensures
        tokenize(selector).len() >= 1,
    decreases selector.len(),
{
    if selector.len() == 0 {
    } else if selector[0] == '.' {
        lemma_tokenize_nonempty(selector.skip(1));
    } else if selector[0] == '\\' {
        if selector.len() > 1 {
            lemma_tokenize_nonempty(selector.skip(2));
        }
    } else {
        lemma_tokenize_nonempty(selector.skip(1));
    }
}

/// What `escape_token` writes for one character.
pub open spec fn escape_char(c: char) -> Seq<char> {
    if c == '.' {
        seq!['\\', '.']
    } else {
        seq![c]
    }
}

/// No token holds a `\`.
pub open spec fn free_of_backslash(tokens: Seq<Seq<char>>) -> bool {
    forall|i: int, j: int|
        0 <= i < tokens.len() && 0 <= j < tokens[i].len() ==> (#[trigger] tokens[i][j]) != '\\'
}

proof fn lemma_escape_push(token: Seq<char>, c: char)
    ensures
        escape_token(token.push(c)) == escape_token(token) + escape_char(c),
    decreases token.len(),
{
    if token.len() == 0 {
        assert(token.push(c).skip(1) == Seq::<char>::empty());
        assert(escape_token(Seq::<char>::empty()) == Seq::<char>::empty());
        assert(escape_token(token.push(c)) == escape_char(c));
    } else {
        lemma_escape_push(token.skip(1), c);
        assert(token.push(c).skip(1) == token.skip(1).push(c));
        assert(token.push(c)[0] == token[0]);
        assert(escape_char(token[0]) + (escape_token(token.skip(1)) + escape_char(c)) == (
        escape_char(token[0]) + escape_token(token.skip(1))) + escape_char(c));
    }
}

proof fn lemma_render_push(tokens: Seq<Seq<char>>, token: Seq<char>)
    ensures
        render(tokens.push(token)) == if tokens.len() == 0 {
            escape_token(token)
        } else {
            render(tokens) + seq!['.'] + escape_token(token)
        },
    decreases tokens.len(),
{
    if tokens.len() == 0 {
    } else {
        lemma_render_push(tokens.skip(1), token);
        assert(tokens.push(token).skip(1) == tokens.skip(1).push(token));
        assert(tokens.push(token)[0] == tokens[0]);
        if tokens.len() == 1 {
            assert(tokens.skip(1).len() == 0);
        } else {
            assert(escape_token(tokens[0]) + seq!['.'] + (render(tokens.skip(1)) + seq!['.']
                + escape_token(token)) == (escape_token(tokens[0]) + seq!['.'] + render(
                tokens.skip(1),
            )) + seq!['.'] + escape_token(token));
        }
    }
}

proof fn lemma_tokenize_escaped(token: Seq<char>, rest: Seq<char>)
    requires
        forall|j: int| 0 <= j < token.len() ==> token[j] != '\\',
    ensures
        tokenize(escape_token(token) + rest) == extend_first(token, tokenize(rest)),
    decreases token.len(),
{
    lemma_tokenize_nonempty(rest);
    let after = tokenize(rest);
    if token.len() == 0 {
        assert(escape_token(token) + rest == rest);
        assert(token + after[0] == after[0]);
        assert(extend_first(token, after) == after);
    } else {
        let tail = token.skip(1);
        let written = escape_token(token) + rest;
        lemma_tokenize_escaped(tail, rest);
        assert(seq![token[0]] + (tail + after[0]) == token + after[0]);
        assert(extend_first(seq![token[0]], extend_first(tail, after)) == extend_first(
            token,
            after,
        ));
        if token[0] == '.' {
            assert(written.skip(2) == escape_token(tail) + rest);
            assert(written[0] == '\\' && written[1] == '.');
        } else {
            assert(written.skip(1) == escape_token(tail) + rest);
            assert(written[0] == token[0]);
        }
    }
}

/// Tokens without a `\` are read back from their written form as they were.
pub proof fn lemma_tokenize_render(tokens: Seq<Seq<char>>)
    requires
        tokens.len() >= 1,
        free_of_backslash(tokens),
    ensures
        tokenize(render(tokens)) == tokens,
    decreases tokens.len(),
{
    let first = tokens[0];
    assert forall|j: int| 0 <= j < first.len() implies first[j] != '\\' by {
        assert(tokens[0][j] != '\\');
    }
    if tokens.len() == 1 {
        lemma_tokenize_escaped(first, Seq::<char>::empty());
        assert(escape_token(first) + Seq::<char>::empty() == escape_token(first));
        assert(first + Seq::<char>::empty() == first);
        assert(extend_first(first, seq![Seq::<char>::empty()]) == tokens);
    } else {
        let others = tokens.skip(1);
        assert forall|i: int, j: int|
            0 <= i < others.len() && 0 <= j < others[i].len() implies (#[trigger] others[i][j])
            != '\\' by {
            assert(tokens[i + 1][j] != '\\');
        }
        lemma_tokenize_render(others);
        let tail = seq!['.'] + render(others);
        lemma_tokenize_escaped(first, tail);
        assert(tail.skip(1) == render(others));
        assert(tokenize(tail) == seq![Seq::<char>::empty()] + others);
        assert(escape_token(first) + tail == render(tokens));
        assert(first + Seq::<char>::empty() == first);
        assert(extend_first(first, seq![Seq::<char>::empty()] + others) == tokens);
    }
}

/// A selector whose tokens hold no `\` has a written form that splits into
/// the same tokens again.
pub proof fn lemma_render_round_trip(selector: Seq<char>)
    requires
        free_of_backslash(tokenize(selector)),
    ensures
        tokenize(render(tokenize(selector))) == tokenize(selector),
{
    lemma_tokenize_nonempty(selector);
    lemma_tokenize_render(tokenize(selector));
}

impl Path {
    /// Splits a selector into its tokens.
    pub fn from(value: &str) -> (path: Path)
        ensures
            path@ == tokenize(value@),
    {
        let chars = chars_of(value);
        let n = chars.len();
        let mut tokens: Vec<String> = Vec::new();
        let mut token = String::new();
        let mut i: usize = 0;
        proof {
            lemma_tokenize_nonempty(value@);
            assert(value@.skip(0) == value@);
            assert(extend_first(token@, tokenize(value@)) == tokenize(value@));
            assert(token_views(tokens@) + tokenize(value@) == tokenize(value@));
        }
        while i < n
            invariant
                n == chars.len(),
                chars@ == value@,
                i <= n,
                tokenize(value@) == token_views(tokens@) + extend_first(
                    token@,
                    tokenize(value@.skip(i as int)),
                ),
            decreases n - i,
        {
            let ghost rest = value@.skip(i as int);
            let ghost done = token_views(tokens@);
            let ghost current = token@;
            proof {
                lemma_tokenize_nonempty(rest.skip(1));
                assert(rest.skip(1) == value@.skip(i + 1));
                if rest.len() > 1 {
                    lemma_tokenize_nonempty(rest.skip(2));
                    assert(rest.skip(2) == value@.skip(i + 2));
                }
                assert(rest[0] == value@[i as int]);
            }
            let ch = chars[i];
            if ch == '.' {
                tokens.push(token);
                token = String::new();
                i = i + 1;
                proof {
                    let after = tokenize(value@.skip(i as int));
                    assert(token_views(tokens@) == done.push(current));
                    assert(extend_first(token@, after) == after);
                    assert(extend_first(current, tokenize(rest)) == seq![current] + after);
                    assert(done + (seq![current] + after) == done.push(current) + after);
                }
            } else if ch == '\\' {
                if i + 1 < n {
                    let next = chars[i + 1];
                    token.push(next);
                    i = i + 2;
                    proof {
                        let after = tokenize(value@.skip(i as int));
                        assert(rest[1] == value@[i - 1]);
                        assert(after.len() > 0);
                        assert(current + (seq![next] + after[0]) == token@ + after[0]);
                        assert(extend_first(current, extend_first(seq![next], after))
                            == extend_first(token@, after));
                    }
                } else {
                    i = i + 1;
                    proof {
                        assert(rest.len() == 1);
                        assert(tokenize(value@.skip(i as int)) == seq![Seq::<char>::empty()]);
                        assert(extend_first(current, tokenize(rest)) == extend_first(
                            token@,
                            tokenize(value@.skip(i as int)),
                        ));
                    }
                }
            } else {
                token.push(ch);
                i = i + 1;
                proof {
                    let after = tokenize(value@.skip(i as int));
                    assert(after.len() > 0);
                    assert(current + (seq![ch] + after[0]) == token@ + after[0]);
                    assert(extend_first(current, extend_first(seq![ch], after)) == extend_first(
                        token@,
                        after,
                    ));
                }
            }
        }
        let ghost last = token@;
        let ghost closed = token_views(tokens@);
        proof {
            assert(value@.skip(i as int).len() == 0);
            assert(extend_first(last, tokenize(value@.skip(i as int))) == seq![last]);
            assert(closed + seq![last] == token_views(tokens@.push(token)));
            assert(tokenize(value@) == closed + seq![last]);
        }
        tokens.push(token);
        Path { tokens }
    }

    /// The tokens, in order.
    pub fn tokens(&self) -> (tokens: Vec<&str>)
        ensures
            tokens.len() == self@.len(),
            forall|i: int| 0 <= i < tokens.len() ==> (#[trigger] tokens[i])@ == self@[i],
    {
        let mut out: Vec<&str> = Vec::new();
        let mut i: usize = 0;
        while i < self.tokens.len()
            invariant
                i <= self.tokens.len(),
                out.len() == i,
                forall|k: int| 0 <= k < i ==> (#[trigger] out[k])@ == self.tokens[k]@,
            decreases self.tokens.len() - i,
        {
            out.push(self.tokens[i].as_str());
            i = i + 1;
        }
        out
    }

    /// The written form of the path: `.` between the tokens, and `\` in front
    /// of each `.` inside a token.
    pub fn to_string(&self) -> (text: String)
        ensures
            text@ == render(self@),
    {
        let mut text = String::new();
        let mut i: usize = 0;
        while i < self.tokens.len()
            invariant
                i <= self.tokens.len(),
                text@ == render(self@.take(i as int)),
            decreases self.tokens.len() - i,
        {
            let ghost token = self.tokens[i as int]@;
            if i > 0 {
                text.push('.');
            }
            let ghost start = text@;
            let chars = chars_of(self.tokens[i].as_str());
            let mut j: usize = 0;
            while j < chars.len()
                invariant
                    j <= chars.len(),
                    chars@ == token,
                    text@ == start + escape_token(token.take(j as int)),
                decreases chars.len() - j,
            {
                let ch = chars[j];
                if ch == '.' {
                    text.push('\\');
                }
                text.push(ch);
                proof {
                    lemma_escape_push(token.take(j as int), ch);
                    assert(token.take(j as int).push(ch) == token.take(j + 1));
                }
                j = j + 1;
            }
            proof {
                assert(token.take(j as int) == token);
                lemma_render_push(self@.take(i as int), token);
                assert(self@.take(i as int).push(token) == self@.take(i + 1));
            }
            i = i + 1;
        }
        proof {
            assert(self@.take(i as int) == self@);
        }
        text
    }
}

} // verus!
