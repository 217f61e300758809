//! Tokenizer for the raw clipboard payload of a file-path retrieval: the
//! payload is split on unquoted spaces, while single-quoted runs are kept
//! atomic and the quote characters are preserved in the emitted tokens.

use vstd::prelude::*;

verus! {

/// One step of the tokenizer automaton. The state is the sequence of tokens
/// emitted so far, the token being built, and whether the scan currently
/// stands inside a single-quoted span.
pub open spec fn tokenizer_step(
    state: (Seq<Seq<char>>, Seq<char>, bool),
    c: char,
) -> (Seq<Seq<char>>, Seq<char>, bool) {
    let toks = state.0;
    let cur = state.1;
    let in_quotes = state.2;
    if c == '\'' {
        if in_quotes {
            (toks.push(cur.push(c)), Seq::<char>::empty(), false)
        } else {
            (toks, cur.push(c), true)
        }
    } else if c == ' ' && !in_quotes {
        if cur.len() > 0 {
            (toks.push(cur), Seq::<char>::empty(), false)
        } else {
            (toks, cur, false)
        }
    } else {
        (toks, cur.push(c), in_quotes)
    }
}

/// The tokenizer state after scanning all of `s`.
pub open spec fn tokenizer_state(s: Seq<char>) -> (Seq<Seq<char>>, Seq<char>, bool)
    decreases s.len(),
{
    if s.len() == 0 {
        (Seq::<Seq<char>>::empty(), Seq::<char>::empty(), false)
    } else {
        tokenizer_step(tokenizer_state(s.drop_last()), s.last())
    }
}

/// The tokens of `s`: the scan's emitted tokens, plus the unterminated
/// trailing token if one was being built when the input ended.
pub open spec fn split_paths_spec(s: Seq<char>) -> Seq<Seq<char>> {
    let state = tokenizer_state(s);
    if state.1.len() > 0 {
        state.0.push(state.1)
    } else {
        state.0
    }
}

/// The tokens joined back together with a single space between them.
pub open spec fn join_tokens(ts: Seq<Seq<char>>) -> Seq<char>
    decreases ts.len(),
{
    if ts.len() == 0 {
        Seq::<char>::empty()
    } else if ts.len() == 1 {
        ts[0]
    } else {
        join_tokens(ts.drop_last()) + seq![' '] + ts.last()
    }
}

/// Whether the scan stands inside a single-quoted span just before
/// consuming the character at position `i`.
pub open spec fn quote_state_at(s: Seq<char>, i: int) -> bool {
    tokenizer_state(s.take(i)).2
}

/// Whether every single-quoted span of `s` is closed.
pub open spec fn balanced_quotes(s: Seq<char>) -> bool {
    !tokenizer_state(s).2
}

/// Canonical spacing: no leading separator, every unquoted space is a
/// single separator followed by more input, and a quoted run ends only at
/// a token boundary (end of input or a separator).
pub open spec fn canonical_spacing(s: Seq<char>) -> bool {
    &&& (s.len() > 0 ==> s[0] != ' ')
    &&& (forall|i: int|
        0 <= i < s.len() && s[i] == ' ' && !(#[trigger] quote_state_at(s, i)) ==> i + 1 < s.len()
            && s[i + 1] != ' ')
    &&& (forall|i: int|
        0 <= i < s.len() && s[i] == '\'' && #[trigger] quote_state_at(s, i) ==> i + 1 == s.len()
            || s[i + 1] == ' ')
}

proof fn lemma_join_push(ts: Seq<Seq<char>>, x: Seq<char>)
    ensures
        join_tokens(ts.push(x)) == (if ts.len() == 0 {
            x
        } else {
            join_tokens(ts) + seq![' '] + x
        }),
{
    if ts.len() == 0 {
        assert(ts.push(x).len() == 1);
        assert(ts.push(x)[0] == x);
    } else {
        assert(ts.push(x).drop_last() =~= ts);
        assert(ts.push(x).last() == x);
    }
}

/// The reconstruction invariant of the scan: after `i` characters, the
/// consumed prefix is exactly the join of the tokens emitted so far and the
/// token under construction — with, when the token under construction is
/// empty, either a just-closed quoted token at the boundary or exactly one
/// consumed separator space.
spec fn rejoins_up_to(s: Seq<char>, i: int) -> bool {
    let st = tokenizer_state(s.take(i));
    &&& (st.2 ==> st.1.len() > 0)
    &&& if st.1.len() > 0 {
        s.take(i) == join_tokens(st.0.push(st.1))
    } else if st.0.len() == 0 {
        i == 0
    } else {
        ||| (s.take(i) == join_tokens(st.0) && i > 0 && s[i - 1] == '\'' && quote_state_at(
            s,
            i - 1,
        ))
        ||| (s.take(i) == join_tokens(st.0) + seq![' '] && i > 0 && s[i - 1] == ' '
            && !quote_state_at(s, i - 1))
    }
}

proof fn lemma_rejoins_up_to(s: Seq<char>, i: int)
    requires
        canonical_spacing(s),
        0 <= i <= s.len(),
    ensures
        rejoins_up_to(s, i),
    decreases i,
{
    if i == 0 {
        assert(s.take(0) =~= Seq::<char>::empty());
    } else {
        lemma_rejoins_up_to(s, i - 1);
        let p = s.take(i - 1);
        let st0 = tokenizer_state(p);
        let c = s[i - 1];
        assert(s.take(i).drop_last() =~= p);
        assert(s.take(i).last() == c);
        assert(tokenizer_state(s.take(i)) == tokenizer_step(st0, c));
        assert(s.take(i) =~= p + seq![c]);
        let toks0 = st0.0;
        let cur0 = st0.1;
        let q0 = st0.2;
        assert(q0 == quote_state_at(s, i - 1));
        if cur0.len() == 0 && toks0.len() > 0 {
            // The scan stands at a token boundary: the previous character
            // was a closing quote or the single separator space.
            if s[i - 1 - 1] == '\'' && quote_state_at(s, i - 2) {
                // A quoted run just closed, so by canonical spacing the
                // next character is a separator.
                assert(c == ' ');
                assert(!q0);
                let st1 = tokenizer_step(st0, c);
                assert(st1 == (toks0, cur0, false));
                assert(s.take(i) == join_tokens(toks0) + seq![' ']);
            } else {
                assert(s.take(i - 1) == join_tokens(toks0) + seq![' '] && s[i - 2] == ' '
                    && !quote_state_at(s, i - 2));
                // One separator has been consumed; canonical spacing rules
                // out a second space, and the quote state is outside.
                assert(!q0);
                assert(c != ' ');
                lemma_join_push(toks0, cur0.push(c));
                if c == '\'' {
                    assert(tokenizer_step(st0, c) == (toks0, cur0.push(c), true));
                } else {
                    assert(tokenizer_step(st0, c) == (toks0, cur0.push(c), q0));
                }
                assert(cur0.push(c) =~= seq![c]);
                assert(s.take(i) =~= join_tokens(toks0) + seq![' '] + seq![c]);
                assert(s.take(i) == join_tokens(toks0.push(cur0.push(c))));
            }
        } else if cur0.len() == 0 && toks0.len() == 0 {
            // Nothing consumed yet: the first character opens the first
            // token, and by canonical spacing it is not a separator.
            assert(i == 1);
            assert(!q0);
            assert(c != ' ');
            lemma_join_push(toks0, cur0.push(c));
            assert(cur0.push(c) =~= seq![c]);
            assert(s.take(i) =~= seq![c]);
        } else {
            // A token is under construction.
            assert(cur0.len() > 0);
            assert(s.take(i - 1) == join_tokens(toks0.push(cur0)));
            lemma_join_push(toks0, cur0);
            if c == '\'' && q0 {
                // The quote closes its token at the boundary.
                let st1 = tokenizer_step(st0, c);
                assert(st1 == (toks0.push(cur0.push(c)), Seq::<char>::empty(), false));
                lemma_join_push(toks0, cur0.push(c));
                assert(cur0.push(c) =~= cur0 + seq![c]);
                assert(s.take(i) =~= join_tokens(toks0.push(cur0.push(c))));
            } else if c == ' ' && !q0 {
                // The separator emits the finished token.
                let st1 = tokenizer_step(st0, c);
                assert(st1 == (toks0.push(cur0), Seq::<char>::empty(), false));
                assert(s.take(i) =~= join_tokens(toks0.push(cur0)) + seq![' ']);
            } else {
                // The character extends the token under construction.
                let st1 = tokenizer_step(st0, c);
                assert(st1.0 == toks0 && st1.1 == cur0.push(c));
                lemma_join_push(toks0, cur0.push(c));
                assert(cur0.push(c) =~= cur0 + seq![c]);
                assert(s.take(i) =~= join_tokens(toks0.push(cur0.push(c))));
            }
        }
    }
}

/// The round trip of the tokenizer: on an input with balanced single
/// quotes and canonical spacing — tokens separated by single unquoted
/// spaces, no leading or trailing separator, quoted runs ending at token
/// boundaries — joining the emitted tokens with single spaces reconstructs
/// the input exactly.
pub proof fn lemma_tokens_rejoin(s: Seq<char>)
    requires
        balanced_quotes(s),
        canonical_spacing(s),
    ensures
        join_tokens(split_paths_spec(s)) == s,
{
    lemma_rejoins_up_to(s, s.len() as int);
    assert(s.take(s.len() as int) =~= s);
    let st = tokenizer_state(s);
    if st.1.len() > 0 {
    } else if st.0.len() == 0 {
        assert(s =~= Seq::<char>::empty());
    } else {
        if s[s.len() - 1] == ' ' && !quote_state_at(s, s.len() - 1) {
            // Canonical spacing forbids a trailing separator.
            assert(false);
        }
    }
}

/// The tokens concatenated in order, without separators.
pub open spec fn concat_tokens(ts: Seq<Seq<char>>) -> Seq<char>
    decreases ts.len(),
{
    if ts.len() == 0 {
        Seq::<char>::empty()
    } else {
        concat_tokens(ts.drop_last()) + ts.last()
    }
}

/// `s` with its unquoted separator spaces removed; quoted spaces and the
/// quote characters themselves stay.
pub open spec fn separators_removed(s: Seq<char>) -> Seq<char>
    decreases s.len(),
{
    if s.len() == 0 {
        Seq::<char>::empty()
    } else if s.last() == ' ' && !tokenizer_state(s.drop_last()).2 {
        separators_removed(s.drop_last())
    } else {
        separators_removed(s.drop_last()).push(s.last())
    }
}

proof fn lemma_concat_push(ts: Seq<Seq<char>>, x: Seq<char>)
    ensures
        concat_tokens(ts.push(x)) == concat_tokens(ts) + x,
{
    assert(ts.push(x).drop_last() =~= ts);
    assert(ts.push(x).last() == x);
}

proof fn lemma_content_up_to(s: Seq<char>, i: int)
    requires
        0 <= i <= s.len(),
    ensures
        ({
            let st = tokenizer_state(s.take(i));
            concat_tokens(st.0) + st.1 == separators_removed(s.take(i))
        }),
    decreases i,
{
    if i == 0 {
        assert(s.take(0) =~= Seq::<char>::empty());
        assert(concat_tokens(Seq::<Seq<char>>::empty()) + Seq::<char>::empty() =~= Seq::<
            char,
        >::empty());
    } else {
        lemma_content_up_to(s, i - 1);
        let p = s.take(i - 1);
        let st0 = tokenizer_state(p);
        let c = s[i - 1];
        assert(s.take(i).drop_last() =~= p);
        assert(s.take(i).last() == c);
        assert(tokenizer_state(s.take(i)) == tokenizer_step(st0, c));
        let st1 = tokenizer_step(st0, c);
        if c == '\'' && st0.2 {
            lemma_concat_push(st0.0, st0.1.push(c));
            assert(concat_tokens(st1.0) + st1.1 =~= (concat_tokens(st0.0) + st0.1).push(c));
            assert(separators_removed(s.take(i)) == separators_removed(p).push(c));
        } else if c == ' ' && !st0.2 {
            if st0.1.len() > 0 {
                lemma_concat_push(st0.0, st0.1);
            }
            assert(concat_tokens(st1.0) + st1.1 =~= concat_tokens(st0.0) + st0.1);
            assert(separators_removed(s.take(i)) == separators_removed(p));
        } else {
            assert(concat_tokens(st1.0) + st1.1 =~= (concat_tokens(st0.0) + st0.1).push(c));
            assert(separators_removed(s.take(i)) == separators_removed(p).push(c));
        }
    }
}

/// The tokenizer loses nothing but separators: on every input — balanced
/// or not, canonically spaced or not — the tokens concatenated in order
/// are exactly the input with its unquoted separator spaces removed, so
/// every other character of the input appears, in order, in some token.
pub proof fn lemma_tokens_preserve_content(s: Seq<char>)
    ensures
        concat_tokens(split_paths_spec(s)) == separators_removed(s),
{
    lemma_content_up_to(s, s.len() as int);
    assert(s.take(s.len() as int) =~= s);
    let st = tokenizer_state(s);
    if st.1.len() > 0 {
        lemma_concat_push(st.0, st.1);
    } else {
        assert(concat_tokens(st.0) + st.1 =~= concat_tokens(st.0));
    }
}

/// Relies on String::push: appends exactly one character at the end.
#[verifier::external_body]
pub(crate) fn push_char(s: &mut String, c: char)
    ensures
        final(s)@ == old(s)@.push(c),
{
    s.push(c)
}

/// Splits a raw file-path payload into tokens: spaces separate tokens only
/// outside single-quoted spans, a quote toggles the quoted mode and is kept
/// in the token, a closing quote ends its token, and a trailing token left
/// unterminated at the end of the input is still emitted.
pub fn split_file_paths(input: &str) -> (paths: Vec<String>)
    ensures
        paths.deep_view() == split_paths_spec(input@),
{
    let n: usize = input.unicode_len();
    let mut paths: Vec<String> = Vec::new();
    let mut current_path: String = String::new();
    let mut in_quotes: bool = false;
    let mut i: usize = 0;
    while i < n
        invariant
            i <= n,
            n == input@.len(),
            tokenizer_state(input@.take(i as int)) == (paths.deep_view(), current_path@, in_quotes),
        decreases n - i,
    {
        let c = input.get_char(i);
        proof {
            assert(input@.take(i + 1).drop_last() =~= input@.take(i as int));
            assert(input@.take(i + 1).last() == input@[i as int]);
        }
        let ghost prev = tokenizer_state(input@.take(i as int));
        if c == '\'' {
            push_char(&mut current_path, c);
            if in_quotes {
                let done = current_path;
                current_path = String::new();
                paths.push(done);
                in_quotes = false;
            } else {
                in_quotes = true;
            }
        } else if c == ' ' && !in_quotes {
            if current_path.as_str().unicode_len() > 0 {
                let done = current_path;
                current_path = String::new();
                paths.push(done);
            }
        } else {
            push_char(&mut current_path, c);
        }
        proof {
            assert(paths.deep_view() =~= tokenizer_step(prev, input@[i as int]).0);
            assert(tokenizer_state(input@.take(i + 1))
                == tokenizer_step(prev, input@[i as int]));
        }
        i = i + 1;
    }
    proof {
        assert(input@.take(n as int) =~= input@);
    }
    if current_path.as_str().unicode_len() > 0 {
        paths.push(current_path);
        proof {
            assert(paths.deep_view() =~= split_paths_spec(input@));
        }
    } else {
        proof {
            assert(paths.deep_view() =~= split_paths_spec(input@));
        }
    }
    paths
}

} // verus!
