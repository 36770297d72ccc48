use vstd::prelude::*;
use vstd::string::StringExecFns;

use crate::text::push_char;

verus! {

/// The pieces of `s` between occurrences of `sep`, as `str::split` yields
/// them: there is always at least one piece, and pieces may be empty.
pub open spec fn split_on(s: Seq<char>, sep: char) -> Seq<Seq<char>>
    decreases s.len(),
{
    if s.len() == 0 {
        seq![Seq::<char>::empty()]
    } else {
        let pieces = split_on(s.drop_last(), sep);
        if s.last() == sep {
            pieces.push(Seq::<char>::empty())
        } else {
            pieces.update(pieces.len() - 1, pieces.last().push(s.last()))
        }
    }
}

/// Splitting always yields at least one piece.
pub proof fn lemma_split_on_nonempty(s: Seq<char>, sep: char)
    ensures
        split_on(s, sep).len() >= 1,
    decreases s.len(),
{
    if s.len() > 0 {
        lemma_split_on_nonempty(s.drop_last(), sep);
    }
}

/// The texts of a list of strings.
pub open spec fn texts(pieces: Seq<String>) -> Seq<Seq<char>> {
    pieces.map_values(|p: String| p@)
}

/// Splits `s` at every `sep`.
pub fn split_text(s: &str, sep: char) -> (pieces: Vec<String>)
    ensures
        texts(pieces@) == split_on(s@, sep),
{
    let n = s.unicode_len();
    let mut pieces: Vec<String> = Vec::new();
    let mut current = String::new();
    let mut i: usize = 0;
    assert(s@.take(0) =~= Seq::<char>::empty());
    assert(texts(pieces@).push(current@) =~= split_on(s@.take(0), sep));
    while i < n
        invariant
            n == s@.len(),
            i <= n,
            texts(pieces@).push(current@) == split_on(s@.take(i as int), sep),
        decreases n - i,
    {
        let c = s.get_char(i);
        let ghost prefix = s@.take(i as int);
        let ghost before = texts(pieces@).push(current@);
        assert(s@.take(i + 1).drop_last() =~= prefix);
        assert(s@.take(i + 1).last() == c);
        if c == sep {
            pieces.push(current);
            current = String::new();
            assert(texts(pieces@).push(current@) =~= before.push(Seq::<char>::empty()));
        } else {
            let ghost old_current = current@;
            push_char(&mut current, c);
            assert(texts(pieces@).push(current@) =~= before.update(
                before.len() - 1,
                before.last().push(c),
            ));
        }
        i = i + 1;
    }
    assert(s@.take(n as int) =~= s@);
    pieces.push(current);
    pieces
}

/// The query of a URL: the text between its first and second `?`, or nothing
/// when it has no `?`.
pub open spec fn query_of(url: Seq<char>) -> Seq<char> {
    let pieces = split_on(url, '?');
    if pieces.len() > 1 {
        pieces[1]
    } else {
        Seq::<char>::empty()
    }
}

/// The `code` and `state` values of a list of `name=value` pairs: of a pair,
/// the name is the text before the first `=` and the value the text up to
/// the next `=`; a later pair wins over an earlier one.
pub open spec fn scan_pairs(pairs: Seq<Seq<char>>) -> (Option<Seq<char>>, Option<Seq<char>>)
    decreases pairs.len(),
{
    if pairs.len() == 0 {
        (None, None)
    } else {
        let (code, state) = scan_pairs(pairs.drop_last());
        let parts = split_on(pairs.last(), '=');
        if parts.len() >= 2 && parts[0] == "code"@ {
            (Some(parts[1]), state)
        } else if parts.len() >= 2 && parts[0] == "state"@ {
            (code, Some(parts[1]))
        } else {
            (code, state)
        }
    }
}

/// Splitting a text that holds no separator gives the text itself.
pub proof fn lemma_split_on_without_sep(s: Seq<char>, sep: char)
    requires
        !s.contains(sep),
    ensures
        split_on(s, sep) == seq![s],
    decreases s.len(),
{
    if s.len() > 0 {
        assert(!s.drop_last().contains(sep)) by {
            if s.drop_last().contains(sep) {
                let i = choose|i: int| 0 <= i < s.drop_last().len() && s.drop_last()[i] == sep;
                assert(s[i] == sep);
            }
        }
        lemma_split_on_without_sep(s.drop_last(), sep);
        assert(s[s.len() - 1] != sep);
        assert(s.drop_last().push(s.last()) =~= s);
    } else {
        assert(s =~= Seq::<char>::empty());
    }
}

/// Appending a separator and a piece without separators adds that piece.
pub proof fn lemma_split_on_append(s: Seq<char>, sep: char, piece: Seq<char>)
    requires
        !piece.contains(sep),
    ensures
        split_on(s + seq![sep] + piece, sep) == split_on(s, sep).push(piece),
    decreases piece.len(),
{
    if piece.len() == 0 {
        assert(piece =~= Seq::<char>::empty());
        assert(s + seq![sep] + piece =~= s.push(sep));
        assert(s.push(sep).drop_last() =~= s);
        assert(s.push(sep).last() == sep);
        assert(split_on(s.push(sep), sep) == split_on(s, sep).push(Seq::<char>::empty()));
    } else {
        let shorter = piece.drop_last();
        assert(!shorter.contains(sep)) by {
            if shorter.contains(sep) {
                let i = choose|i: int| 0 <= i < shorter.len() && shorter[i] == sep;
                assert(piece[i] == sep);
            }
        }
        lemma_split_on_append(s, sep, shorter);
        let whole = s + seq![sep] + piece;
        assert(whole.drop_last() =~= s + seq![sep] + shorter);
        assert(whole.last() == piece.last());
        assert(piece[piece.len() - 1] != sep);
        lemma_split_on_nonempty(s, sep);
        let p = split_on(s, sep).push(shorter);
        assert(split_on(whole, sep) == p.update(p.len() - 1, p.last().push(whole.last())));
        assert(split_on(s, sep).push(shorter).update(
            split_on(s, sep).len() as int,
            shorter.push(piece.last()),
        ) =~= split_on(s, sep).push(piece)) by {
            assert(shorter.push(piece.last()) =~= piece);
        }
    }
}

/// Whether a `name=value` pair sets neither the code nor the state.
pub open spec fn unrelated_pair(pair: Seq<char>) -> bool {
    let parts = split_on(pair, '=');
    parts.len() < 2 || (parts[0] != "code"@ && parts[0] != "state"@)
}

/// A pair whose name is neither `code` nor `state` changes nothing that is
/// read: appending it to any list of pairs gives the same code and state.
pub proof fn law_unrelated_pairs_are_ignored(pairs: Seq<Seq<char>>, pair: Seq<char>)
    requires
        unrelated_pair(pair),
    ensures
        scan_pairs(pairs.push(pair)) == scan_pairs(pairs),
{
    assert(pairs.push(pair).drop_last() =~= pairs);
    assert(pairs.push(pair).last() == pair);
}

/// A `code` or `state` pair sets what it names and keeps the other: appending
/// `code=v` (or `state=v`) to any list of pairs reads `v` as the code (or the
/// state), the other value unchanged.
pub proof fn law_named_pairs_set_their_value(
    pairs: Seq<Seq<char>>,
    pair: Seq<char>,
    value: Seq<char>,
)
    requires
        split_on(pair, '=').len() >= 2,
        split_on(pair, '=')[1] == value,
    ensures
        split_on(pair, '=')[0] == "code"@ ==> scan_pairs(pairs.push(pair)) == (
            Some(value),
            scan_pairs(pairs).1,
        ),
        split_on(pair, '=')[0] == "state"@ && split_on(pair, '=')[0] != "code"@ ==> scan_pairs(
            pairs.push(pair),
        ) == (scan_pairs(pairs).0, Some(value)),
{
    assert(pairs.push(pair).drop_last() =~= pairs);
    assert(pairs.push(pair).last() == pair);
}

/// The query of `path?query` is `query`, when neither holds a `?`.
pub proof fn lemma_query_of(path: Seq<char>, query: Seq<char>)
    requires
        !path.contains('?'),
        !query.contains('?'),
    ensures
        query_of(path + seq!['?'] + query) == query,
{
    lemma_split_on_without_sep(path, '?');
    lemma_split_on_append(path, '?', query);
}

/// On a redirect `path?query`, appending `&name=value` for any name other
/// than `code` and `state` gives the same code and state (as Google appends
/// `scope` after the code, for instance).
pub proof fn law_redirect_ignores_unrelated_parameters(
    path: Seq<char>,
    query: Seq<char>,
    pair: Seq<char>,
)
    requires
        !path.contains('?'),
        !query.contains('?'),
        !pair.contains('?'),
        !pair.contains('&'),
        unrelated_pair(pair),
    ensures
        redirect_params(path + seq!['?'] + query + seq!['&'] + pair) == redirect_params(
            path + seq!['?'] + query,
        ),
{
    lemma_query_of(path, query);
    let longer = query + seq!['&'] + pair;
    assert(!longer.contains('?')) by {
        if longer.contains('?') {
            let i = choose|i: int| 0 <= i < longer.len() && longer[i] == '?';
            if i < query.len() {
                assert(query[i] == '?');
            } else if i > query.len() {
                assert(pair[i - query.len() - 1] == '?');
            }
        }
    }
    lemma_query_of(path, longer);
    assert(path + seq!['?'] + query + seq!['&'] + pair =~= path + seq!['?'] + longer);
    lemma_split_on_append(query, '&', pair);
    law_unrelated_pairs_are_ignored(split_on(query, '&'), pair);
}

/// The `code` and `state` parameters of a sign-in redirect URL.
pub open spec fn redirect_params(url: Seq<char>) -> (Option<Seq<char>>, Option<Seq<char>>) {
    scan_pairs(split_on(query_of(url), '&'))
}

/// The text of an optional string.
pub open spec fn opt_text(s: Option<String>) -> Option<Seq<char>> {
    match s {
        Some(t) => Some(t@),
        None => None,
    }
}

/// The parameters the sign-in flow reads from the redirect.
pub struct RedirectParams {
    pub code: Option<String>,
    pub state: Option<String>,
}

/// Reads the `code` and `state` parameters of a sign-in redirect URL.
pub fn parse_redirect_query(url: &str) -> (params: RedirectParams)
    ensures
        (opt_text(params.code), opt_text(params.state)) == redirect_params(url@),
{
    let url_pieces = split_text(url, '?');
    proof {
        lemma_split_on_nonempty(url@, '?');
    }
    let query = if url_pieces.len() > 1 {
        url_pieces[1].clone()
    } else {
        String::new()
    };
    assert(query@ == query_of(url@));
    let pairs = split_text(query.as_str(), '&');
    let ghost pair_texts = texts(pairs@);
    let code_name = String::from_str("code");
    let state_name = String::from_str("state");
    let mut code: Option<String> = None;
    let mut state: Option<String> = None;
    let mut j: usize = 0;
    assert(pair_texts.take(0) =~= Seq::<Seq<char>>::empty());
    while j < pairs.len()
        invariant
            pair_texts == texts(pairs@),
            pair_texts == split_on(query@, '&'),
            code_name@ == "code"@,
            state_name@ == "state"@,
            j <= pairs.len(),
            (opt_text(code), opt_text(state)) == scan_pairs(pair_texts.take(j as int)),
        decreases pairs.len() - j,
    {
        let parts = split_text(pairs[j].as_str(), '=');
        assert(pair_texts.take(j + 1).drop_last() =~= pair_texts.take(j as int));
        assert(pair_texts.take(j + 1).last() == pairs@[j as int]@);
        if parts.len() >= 2 {
            if parts[0] == code_name {
                code = Some(parts[1].clone());
            } else if parts[0] == state_name {
                state = Some(parts[1].clone());
            }
        }
        j = j + 1;
    }
    assert(pair_texts.take(pairs.len() as int) =~= pair_texts);
    RedirectParams { code, state }
}

/// What the sign-in flow does with a redirect.
pub enum LoginOutcome {
    /// Exchange this authorization code for a token.
    Exchange(String),
    /// The redirect's state is not the one sent: refuse it.
    CsrfMismatch,
    /// The redirect lacks a code or a state.
    Incomplete,
}

/// A redirect with both parameters is accepted only when its state is the
/// one that was sent; one that lacks either is incomplete.
pub fn login_outcome(params: RedirectParams, expected_state: &String) -> (outcome: LoginOutcome)
    ensures
        match (params.code, params.state) {
            (Some(code), Some(state)) => if state@ == expected_state@ {
                outcome matches LoginOutcome::Exchange(c) && c@ == code@
            } else {
                outcome is CsrfMismatch
            },
            _ => outcome is Incomplete,
        },
{
    match (params.code, params.state) {
        (Some(code), Some(state)) => {
            if state != *expected_state {
                LoginOutcome::CsrfMismatch
            } else {
                LoginOutcome::Exchange(code)
            }
        },
        _ => LoginOutcome::Incomplete,
    }
}

} // verus!
