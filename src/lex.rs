use vstd::prelude::*;

verus! {

broadcast use vstd::std_specs::vec::group_vec_axioms;

/// Whether `c` has the Unicode White_Space property.
pub uninterp spec fn white_space(c: char) -> bool;

/// Relies on `char::is_whitespace`: true exactly for characters with the
/// Unicode White_Space property, which include space, tab and line feed.
#[verifier::external_body]
fn is_space(c: char) -> (r: bool)
    ensures
        r == white_space(c),
        c == ' ' || c == '\t' || c == '\n' ==> r,
{
    c.is_whitespace()
}

/// The text of each string.
pub open spec fn strs(v: Seq<String>) -> Seq<Seq<char>> {
    v.map_values(|s: String| s@)
}

pub open spec fn has_space(t: Seq<char>) -> bool {
    exists|k: int| 0 <= k < t.len() && white_space(t[k])
}

/// The word `t[start .. i]`, if it is not empty.
pub open spec fn word(t: Seq<char>, start: int, i: int) -> Seq<Seq<char>> {
    if start < i {
        seq![t.subrange(start, i)]
    } else {
        Seq::empty()
    }
}

/// The maximal runs of non-whitespace characters of `t` from position `i`
/// on, where a run began at `start`.
pub open spec fn words_from(t: Seq<char>, i: int, start: int) -> Seq<Seq<char>>
    decreases t.len() - i,
{
    if i >= t.len() {
        word(t, start, i)
    } else if white_space(t[i]) {
        word(t, start, i) + words_from(t, i + 1, i + 1)
    } else {
        words_from(t, i + 1, start)
    }
}

/// The maximal runs of non-whitespace characters of `t`, in order.
pub open spec fn words(t: Seq<char>) -> Seq<Seq<char>> {
    words_from(t, 0, 0)
}

/// What one raw token becomes: its words where it holds whitespace, and
/// the token itself where it does not.
pub open spec fn pieces(t: Seq<char>) -> Seq<Seq<char>> {
    if has_space(t) {
        words(t)
    } else {
        seq![t]
    }
}

/// The pieces of each token, concatenated in order.
pub open spec fn normalized(ts: Seq<Seq<char>>) -> Seq<Seq<char>>
    decreases ts.len(),
{
    if ts.len() == 0 {
        Seq::empty()
    } else {
        normalized(ts.subrange(0, ts.len() - 1)) + pieces(ts[ts.len() - 1])
    }
}

/// Normalizing tokens that hold no whitespace gives them back unchanged.
pub proof fn lemma_lex_identity(ts: Seq<Seq<char>>)
    requires
        forall|i: int| 0 <= i < ts.len() ==> !has_space(#[trigger] ts[i]),
    ensures
        normalized(ts) == ts,
    decreases ts.len(),
{
    if ts.len() > 0 {
        let front = ts.subrange(0, ts.len() - 1);
        assert forall|i: int| 0 <= i < front.len() implies !has_space(#[trigger] front[i]) by {
            assert(front[i] == ts[i]);
        }
        lemma_lex_identity(front);
        assert(front + seq![ts[ts.len() - 1]] =~= ts);
    }
}

/// Splits one token into its pieces.
fn split_token(t: &str) -> (r: Vec<String>)
    ensures
        strs(r@) == pieces(t@),
{
    let n = t.unicode_len();
    let mut out: Vec<String> = Vec::new();
    let mut start: usize = 0;
    let mut i: usize = 0;
    let mut spaced = false;
    while i < n
        invariant
            start <= i <= n,
            n == t@.len(),
            strs(out@) + words_from(t@, i as int, start as int) == words(t@),
            spaced <==> exists|k: int| 0 <= k < i && white_space(t@[k]),
        decreases n - i,
    {
        let c = t.get_char(i);
        if is_space(c) {
            let ghost before = out@;
            if start < i {
                let w = t.substring_char(start, i).to_owned();
                out.push(w);
            }
            assert(strs(out@) =~= strs(before) + word(t@, start as int, i as int));
            assert(strs(out@) + words_from(t@, i + 1, i + 1) =~= strs(before) + words_from(
                t@,
                i as int,
                start as int,
            ));
            spaced = true;
            start = i + 1;
        }
        i = i + 1;
    }
    let ghost before = out@;
    if start < n {
        let w = t.substring_char(start, n).to_owned();
        out.push(w);
    }
    assert(strs(out@) =~= strs(before) + word(t@, start as int, n as int));
    if spaced {
        out
    } else {
        let mut whole: Vec<String> = Vec::new();
        whole.push(t.to_owned());
        assert(strs(whole@) =~= seq![t@]);
        whole
    }
}

/// Re-splits every token that holds whitespace into its words, keeping
/// the order of tokens and of words. A token without whitespace passes
/// through unchanged.
pub fn lex(tokens: &[String]) -> (r: Vec<String>)
    ensures
        strs(r@) == normalized(strs(tokens@)),
{
    let mut out: Vec<String> = Vec::new();
    let mut i: usize = 0;
    while i < tokens.len()
        invariant
            i <= tokens@.len(),
            strs(out@) == normalized(strs(tokens@.subrange(0, i as int))),
        decreases tokens@.len() - i,
    {
        let mut parts = split_token(tokens[i].as_str());
        let ghost before = out@;
        let ghost added = parts@;
        out.append(&mut parts);
        assert(strs(out@) =~= strs(before) + strs(added));
        assert(strs(tokens@.subrange(0, i + 1)).subrange(0, i as int) =~= strs(
            tokens@.subrange(0, i as int),
        ));
        i = i + 1;
    }
    assert(tokens@.subrange(0, tokens@.len() as int) =~= tokens@);
    out
}

} // verus!
