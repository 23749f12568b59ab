//! Character-level model of the command protocol text: whitespace trimming,
//! whitespace-delimited tokens and single-space joining, each with an
//! executable counterpart proved against the model.

use vstd::prelude::*;

verus! {

use vstd::string::StrSliceExecFns;

/// Whether a character separates tokens in the command protocol.
pub open spec fn is_space_char(c: char) -> bool {
    c == ' ' || c == '\t' || c == '\n' || c == '\r' || c == '\x0c'
}

/// Executable mirror of [`is_space_char`].
pub fn is_space(c: char) -> (r: bool)
    ensures
        r == is_space_char(c),
{
    c == ' ' || c == '\t' || c == '\n' || c == '\r' || c == '\x0c'
}

/// The text with its leading whitespace removed.
pub open spec fn trim_start_spec(s: Seq<char>) -> Seq<char>
    decreases s.len(),
{
    if s.len() > 0 && is_space_char(s.first()) {
        trim_start_spec(s.drop_first())
    } else {
        s
    }
}

/// The text with its trailing whitespace removed.
pub open spec fn trim_end_spec(s: Seq<char>) -> Seq<char>
    decreases s.len(),
{
    if s.len() > 0 && is_space_char(s.last()) {
        trim_end_spec(s.drop_last())
    } else {
        s
    }
}

/// Length of the leading run of non-whitespace characters.
pub open spec fn token_len(s: Seq<char>) -> nat
    decreases s.len(),
{
    if s.len() == 0 || is_space_char(s.first()) {
        0
    } else {
        (1 + token_len(s.drop_first())) as nat
    }
}

/// The whitespace-delimited tokens of the text, in order. No token is empty
/// and no token holds whitespace.
pub open spec fn tokens_spec(s: Seq<char>) -> Seq<Seq<char>>
    decreases s.len(),
    via tokens_spec_decreases
{
    if s.len() == 0 {
        Seq::empty()
    } else if is_space_char(s.first()) {
        tokens_spec(s.drop_first())
    } else {
        seq![s.take(token_len(s) as int)] + tokens_spec(s.skip(token_len(s) as int))
    }
}

#[via_fn]
proof fn tokens_spec_decreases(s: Seq<char>) {
    lemma_token_len_le(s);
    if s.len() > 0 && !is_space_char(s.first()) {
        assert(token_len(s) == 1 + token_len(s.drop_first()));
    }
}

/// The tokens joined back together with a single space between neighbours.
pub open spec fn join_spec(ts: Seq<Seq<char>>) -> Seq<char>
    decreases ts.len(),
{
    if ts.len() == 0 {
        Seq::empty()
    } else if ts.len() == 1 {
        ts.last()
    } else {
        join_spec(ts.drop_last()) + seq![' '] + ts.last()
    }
}

/// Whether `p` is a prefix of `s`.
pub open spec fn starts_with(s: Seq<char>, p: Seq<char>) -> bool {
    p.len() <= s.len() && s.take(p.len() as int) == p
}

/// Whether `p` is a suffix of `s`.
pub open spec fn ends_with(s: Seq<char>, p: Seq<char>) -> bool {
    p.len() <= s.len() && s.skip((s.len() - p.len()) as int) == p
}

/// A well-formed token: non-empty and free of whitespace.
pub open spec fn wf_token(t: Seq<char>) -> bool {
    t.len() > 0 && forall|k: int| 0 <= k < t.len() ==> !is_space_char(t[k])
}

/// Every token well-formed.
pub open spec fn wf_tokens(ts: Seq<Seq<char>>) -> bool {
    forall|i: int| 0 <= i < ts.len() ==> wf_token(#[trigger] ts[i])
}

proof fn lemma_token_len_le(s: Seq<char>)
    ensures
        token_len(s) <= s.len(),
    decreases s.len(),
{
    if s.len() == 0 || is_space_char(s.first()) {
    } else {
        lemma_token_len_le(s.drop_first());
    }
}

/// The leading token run is exactly the scanned range: all characters before
/// `m` are non-whitespace and `m` is the end of the text or a whitespace.
pub(crate) proof fn lemma_token_len_range(s: Seq<char>, m: int)
    requires
        0 <= m <= s.len(),
        forall|k: int| 0 <= k < m ==> !is_space_char(s[k]),
        m == s.len() || is_space_char(s[m]),
    ensures
        token_len(s) == m,
    decreases m,
{
    if m == 0 {
    } else {
        let t = s.drop_first();
        assert forall|k: int| 0 <= k < m - 1 implies !is_space_char(t[k]) by {
            assert(t[k] == s[k + 1]);
        }
        if m - 1 < t.len() {
            assert(t[m - 1] == s[m]);
        }
        lemma_token_len_range(t, m - 1);
    }
}

/// Every character of the leading token run is non-whitespace.
pub(crate) proof fn lemma_token_len_chars(s: Seq<char>)
    ensures
        forall|k: int| 0 <= k < token_len(s) ==> !is_space_char(s[k]),
    decreases s.len(),
{
    if s.len() == 0 || is_space_char(s.first()) {
    } else {
        let t = s.drop_first();
        lemma_token_len_le(s);
        lemma_token_len_chars(t);
        assert forall|k: int| 0 <= k < token_len(s) implies !is_space_char(s[k]) by {
            if k > 0 {
                assert(0 <= k - 1 < token_len(t));
                assert(t[k - 1] == s[k]);
            }
        }
    }
}

/// Tokenizing always yields well-formed tokens.
pub(crate) proof fn lemma_tokens_wf(s: Seq<char>)
    ensures
        wf_tokens(tokens_spec(s)),
    decreases s.len(),
{
    if s.len() == 0 {
    } else if is_space_char(s.first()) {
        lemma_tokens_wf(s.drop_first());
    } else {
        lemma_token_len_le(s);
        lemma_token_len_chars(s);
        assert(token_len(s) >= 1);
        let head = s.take(token_len(s) as int);
        let rest = tokens_spec(s.skip(token_len(s) as int));
        lemma_tokens_wf(s.skip(token_len(s) as int));
        assert(wf_token(head)) by {
            assert forall|k: int| 0 <= k < head.len() implies !is_space_char(head[k]) by {
                assert(head[k] == s[k]);
            }
        }
        assert forall|i: int| 0 <= i < tokens_spec(s).len() implies wf_token(
            #[trigger] tokens_spec(s)[i],
        ) by {
            if i == 0 {
                assert(tokens_spec(s)[0] == head);
            } else {
                assert(tokens_spec(s)[i] == rest[i - 1]);
            }
        }
    }
}

/// Joining can also be unfolded from the front.
pub(crate) proof fn lemma_join_unfold_front(ts: Seq<Seq<char>>)
    requires
        ts.len() >= 1,
    ensures
        ts.len() == 1 ==> join_spec(ts) == ts.first(),
        ts.len() >= 2 ==> join_spec(ts) == ts.first() + seq![' '] + join_spec(ts.drop_first()),
    decreases ts.len(),
{
    if ts.len() == 1 {
        assert(ts.last() == ts.first());
    } else if ts.len() == 2 {
        let dl = ts.drop_last();
        let df = ts.drop_first();
        assert(dl.len() == 1);
        assert(dl.last() == ts[0]);
        assert(df.len() == 1);
        assert(df.last() == ts[1]);
        assert(join_spec(dl) == dl.last());
        assert(join_spec(df) == df.last());
        assert(join_spec(ts) == dl.last() + seq![' '] + ts.last());
        assert(join_spec(ts) =~= ts.first() + seq![' '] + join_spec(df));
    } else {
        let dl = ts.drop_last();
        let df = ts.drop_first();
        lemma_join_unfold_front(dl);
        assert(dl.first() == ts.first());
        assert(df.drop_last() =~~= dl.drop_first());
        assert(df.last() == ts.last());
        assert(join_spec(df) == join_spec(df.drop_last()) + seq![' '] + df.last());
        assert(join_spec(ts) == join_spec(dl) + seq![' '] + ts.last());
        assert(join_spec(dl) == dl.first() + seq![' '] + join_spec(dl.drop_first()));
        assert(join_spec(ts) =~= ts.first() + seq![' '] + join_spec(df));
    }
}

/// Law: tokenizing a single-space join of well-formed tokens gives those
/// tokens back. This is what makes the terminal answer's whitespace
/// collapsing idempotent.
pub proof fn lemma_tokens_of_join(ts: Seq<Seq<char>>)
    requires
        wf_tokens(ts),
    ensures
        tokens_spec(join_spec(ts)) == ts,
    decreases ts.len(),
{
    if ts.len() == 0 {
        assert(tokens_spec(join_spec(ts)) =~~= ts);
    } else if ts.len() == 1 {
        let j = join_spec(ts);
        assert(j == ts[0]);
        assert(wf_token(ts[0]));
        lemma_token_len_range(j, j.len() as int);
        assert(!is_space_char(j.first()));
        assert(j.take(j.len() as int) =~= j);
        assert(j.skip(j.len() as int) =~= Seq::<char>::empty());
        assert(tokens_spec(j) == seq![j] + tokens_spec(Seq::<char>::empty()));
        assert(tokens_spec(j) =~~= ts);
    } else {
        let t0 = ts.first();
        let df = ts.drop_first();
        lemma_join_unfold_front(ts);
        let rest_j = join_spec(df);
        let j = join_spec(ts);
        assert(j == t0 + seq![' '] + rest_j);
        assert(wf_token(t0));
        assert forall|k: int| 0 <= k < t0.len() implies !is_space_char(j[k]) by {
            assert(j[k] == t0[k]);
        }
        assert(j[t0.len() as int] == ' ');
        lemma_token_len_range(j, t0.len() as int);
        assert(!is_space_char(j.first())) by {
            assert(j[0] == t0[0]);
        }
        assert(tokens_spec(j) == seq![j.take(token_len(j) as int)] + tokens_spec(
            j.skip(token_len(j) as int),
        ));
        assert(j.take(t0.len() as int) =~= t0);
        let tail = j.skip(t0.len() as int);
        assert(tail =~= seq![' '] + rest_j);
        assert(is_space_char(tail.first()));
        assert(tail.drop_first() =~= rest_j);
        assert(tokens_spec(tail) == tokens_spec(rest_j));
        assert(wf_tokens(df)) by {
            assert forall|i: int| 0 <= i < df.len() implies wf_token(#[trigger] df[i]) by {
                assert(df[i] == ts[i + 1]);
            }
        }
        lemma_tokens_of_join(df);
        assert(tokens_spec(j) == seq![t0] + df);
        assert(seq![t0] + df =~~= ts);
    }
}

/// Character-wise string equality.
pub fn str_eq(a: &str, b: &str) -> (r: bool)
    ensures
        r == (a@ == b@),
{
    let n = a.unicode_len();
    if n != b.unicode_len() {
        return false;
    }
    let mut i: usize = 0;
    while i < n
        invariant
            i <= n,
            n == a@.len(),
            n == b@.len(),
            forall|j: int| 0 <= j < i ==> a@[j] == b@[j],
        decreases n - i,
    {
        if a.get_char(i) != b.get_char(i) {
            return false;
        }
        i += 1;
    }
    proof {
        assert(a@ =~= b@);
    }
    true
}

/// Executable mirror of [`trim_start_spec`].
pub fn trim_start_str<'a>(s: &'a str) -> (r: &'a str)
    ensures
        r@ == trim_start_spec(s@),
{
    let n = s.unicode_len();
    let mut i: usize = 0;
    proof {
        assert(s@.skip(0) =~= s@);
    }
    while i < n && is_space(s.get_char(i))
        invariant
            i <= n,
            n == s@.len(),
            trim_start_spec(s@) == trim_start_spec(s@.skip(i as int)),
        decreases n - i,
    {
        proof {
            assert(s@.skip(i as int).first() == s@[i as int]);
            assert(s@.skip(i as int).drop_first() =~= s@.skip(i as int + 1));
        }
        i += 1;
    }
    proof {
        if i < n {
            assert(s@.skip(i as int).first() == s@[i as int]);
        }
        assert(trim_start_spec(s@.skip(i as int)) == s@.skip(i as int));
        assert(s@.subrange(i as int, n as int) =~= s@.skip(i as int));
    }
    s.substring_char(i, n)
}

/// Executable mirror of [`trim_end_spec`].
pub fn trim_end_str<'a>(s: &'a str) -> (r: &'a str)
    ensures
        r@ == trim_end_spec(s@),
{
    let n = s.unicode_len();
    let mut j: usize = n;
    proof {
        assert(s@.take(n as int) =~= s@);
    }
    while j > 0 && is_space(s.get_char(j - 1))
        invariant
            j <= n,
            n == s@.len(),
            trim_end_spec(s@) == trim_end_spec(s@.take(j as int)),
        decreases j,
    {
        proof {
            assert(s@.take(j as int).last() == s@[j - 1]);
            assert(s@.take(j as int).drop_last() =~= s@.take(j as int - 1));
        }
        j -= 1;
    }
    proof {
        if j > 0 {
            assert(s@.take(j as int).last() == s@[j - 1]);
        }
        assert(trim_end_spec(s@.take(j as int)) == s@.take(j as int));
        assert(s@.subrange(0, j as int) =~= s@.take(j as int));
    }
    s.substring_char(0, j)
}

/// Executable prefix test against [`starts_with`].
pub fn has_prefix(s: &str, p: &str) -> (r: bool)
    ensures
        r == starts_with(s@, p@),
{
    let m = p.unicode_len();
    if m > s.unicode_len() {
        return false;
    }
    let mut i: usize = 0;
    while i < m
        invariant
            i <= m,
            m == p@.len(),
            m <= s@.len(),
            forall|j: int| 0 <= j < i ==> s@[j] == p@[j],
        decreases m - i,
    {
        if s.get_char(i) != p.get_char(i) {
            proof {
                assert(s@.take(m as int)[i as int] == s@[i as int]);
            }
            return false;
        }
        i += 1;
    }
    proof {
        assert(s@.take(m as int) =~= p@);
    }
    true
}

/// Executable suffix test against [`ends_with`].
pub fn has_suffix(s: &str, p: &str) -> (r: bool)
    ensures
        r == ends_with(s@, p@),
{
    let m = p.unicode_len();
    let n = s.unicode_len();
    if m > n {
        return false;
    }
    let d: usize = n - m;
    let mut i: usize = 0;
    while i < m
        invariant
            i <= m,
            m == p@.len(),
            n == s@.len(),
            d == n - m,
            forall|j: int| 0 <= j < i ==> s@[d + j] == p@[j],
        decreases m - i,
    {
        if s.get_char(d + i) != p.get_char(i) {
            proof {
                assert(s@.skip(d as int)[i as int] == s@[d + i]);
            }
            return false;
        }
        i += 1;
    }
    proof {
        assert(s@.skip(d as int) =~= p@);
    }
    true
}

/// Executable tokenizer against [`tokens_spec`].
pub fn split_tokens(s: &str) -> (r: Vec<String>)
    ensures
        r.deep_view() == tokens_spec(s@),
{
    let n = s.unicode_len();
    let mut toks: Vec<String> = Vec::new();
    let mut i: usize = 0;
    proof {
        assert(s@.skip(0) =~= s@);
        assert(toks.deep_view() + tokens_spec(s@) =~~= tokens_spec(s@));
    }
    while i < n
        invariant
            i <= n,
            n == s@.len(),
            toks.deep_view() + tokens_spec(s@.skip(i as int)) == tokens_spec(s@),
        decreases n - i,
    {
        if is_space(s.get_char(i)) {
            proof {
                assert(s@.skip(i as int).first() == s@[i as int]);
                assert(s@.skip(i as int).drop_first() =~= s@.skip(i as int + 1));
            }
            i += 1;
        } else {
            let mut j: usize = i + 1;
            while j < n && !is_space(s.get_char(j))
                invariant
                    i < j <= n,
                    n == s@.len(),
                    forall|k: int| i <= k < j ==> !is_space_char(s@[k]),
                decreases n - j,
            {
                j += 1;
            }
            let tok = s.substring_char(i, j);
            let ghost prev = toks.deep_view();
            proof {
                let sk = s@.skip(i as int);
                assert forall|k: int| 0 <= k < j - i implies !is_space_char(sk[k]) by {
                    assert(sk[k] == s@[i + k]);
                }
                if j < n {
                    assert(sk[j - i] == s@[j as int]);
                }
                lemma_token_len_range(sk, j - i);
                assert(sk.take(j - i) =~= s@.subrange(i as int, j as int));
                assert(sk.skip(j - i) =~= s@.skip(j as int));
                assert(tokens_spec(sk) == seq![sk.take(j - i)] + tokens_spec(sk.skip(j - i)));
            }
            toks.push(tok.to_owned());
            proof {
                assert(toks.deep_view() =~~= prev.push(s@.subrange(i as int, j as int)));
                assert(prev.push(s@.subrange(i as int, j as int)) + tokens_spec(s@.skip(j as int))
                    =~~= prev + (seq![s@.subrange(i as int, j as int)] + tokens_spec(
                    s@.skip(j as int),
                )));
            }
            i = j;
        }
    }
    proof {
        assert(s@.skip(i as int) =~= Seq::<char>::empty());
        assert(toks.deep_view() =~~= toks.deep_view() + tokens_spec(s@.skip(i as int)));
    }
    toks
}

/// Executable joiner against [`join_spec`], over the tokens from `from` on.
pub fn join_with_spaces(toks: &Vec<String>, from: usize) -> (r: String)
    requires
        from <= toks@.len(),
    ensures
        r@ == join_spec(toks.deep_view().skip(from as int)),
{
    let mut out = String::new();
    let mut i: usize = from;
    while i < toks.len()
        invariant
            from <= i <= toks@.len(),
            out@ == join_spec(toks.deep_view().subrange(from as int, i as int)),
        decreases toks@.len() - i,
    {
        let ghost dv = toks.deep_view();
        let ghost prev = out@;
        if i > from {
            out.append(" ");
            proof {
                reveal_strlit(" ");
                assert(" "@ =~= seq![' ']);
            }
        }
        out.append(toks[i].as_str());
        proof {
            let sub1 = dv.subrange(from as int, i as int + 1);
            assert(sub1.drop_last() =~~= dv.subrange(from as int, i as int));
            assert(sub1.last() == dv[i as int]);
            if i == from {
                assert(out@ =~= dv[i as int]);
            } else {
                assert(out@ == prev + seq![' '] + dv[i as int]);
            }
        }
        i += 1;
    }
    proof {
        assert(toks.deep_view().subrange(from as int, toks@.len() as int) =~~= toks.deep_view().skip(
            from as int,
        ));
    }
    out
}

} // verus!
