//! Text primitives: splitting on a separator, whitespace tokenization,
//! joining, trimming.  Every executable function is specified against a
//! recursive spec function over `Seq<char>`; the rest of the library
//! states its contracts in terms of these spec functions.

use vstd::prelude::*;
use vstd::string::*;

verus! {

/// The whitespace characters recognised by the tokenizer.
pub open spec fn is_space(c: char) -> bool {
    c == ' ' || c == '\t' || c == '\n' || c == '\r'
}

/// `pat` occurs in `s` at position `i`.
pub open spec fn match_at(s: Seq<char>, pat: Seq<char>, i: int) -> bool {
    0 <= i && i + pat.len() <= s.len() && s.subrange(i, i + pat.len() as int) == pat
}

/// The views of a sequence of strings.
pub open spec fn seq_views(s: Seq<String>) -> Seq<Seq<char>> {
    s.map_values(|x: String| x@)
}

/// Splitting `s` on the separator `pat`: the pieces between the
/// occurrences of `pat`, scanned left to right.  Splitting always yields
/// at least one piece; an empty input yields one empty piece.
pub open spec fn spec_split(s: Seq<char>, pat: Seq<char>) -> Seq<Seq<char>>
    decreases s.len(),
{
    if pat.len() == 0 || s.len() == 0 {
        seq![s]
    } else if match_at(s, pat, 0) {
        seq![Seq::<char>::empty()] + spec_split(s.skip(pat.len() as int), pat)
    } else {
        let rest = spec_split(s.drop_first(), pat);
        rest.update(0, seq![s[0]] + rest[0])
    }
}

/// The whitespace-delimited tokens of `s`, in order; tokens are the
/// maximal runs of non-whitespace characters.
pub open spec fn spec_tokens(s: Seq<char>) -> Seq<Seq<char>>
    decreases s.len(),
{
    if s.len() == 0 {
        Seq::empty()
    } else if is_space(s[0]) {
        spec_tokens(s.drop_first())
    } else if s.len() == 1 || is_space(s[1]) {
        seq![seq![s[0]]] + spec_tokens(s.drop_first())
    } else {
        let rest = spec_tokens(s.drop_first());
        rest.update(0, seq![s[0]] + rest[0])
    }
}

/// The parts joined with a single `sep` character between them.
pub open spec fn spec_join(parts: Seq<Seq<char>>, sep: char) -> Seq<char>
    decreases parts.len(),
{
    if parts.len() == 0 {
        Seq::empty()
    } else if parts.len() == 1 {
        parts[0]
    } else {
        parts[0] + seq![sep] + spec_join(parts.drop_first(), sep)
    }
}

/// `s` without leading whitespace.
pub open spec fn spec_trim_start(s: Seq<char>) -> Seq<char>
    decreases s.len(),
{
    if s.len() > 0 && is_space(s[0]) {
        spec_trim_start(s.drop_first())
    } else {
        s
    }
}

/// `s` without trailing whitespace.
pub open spec fn spec_trim_end(s: Seq<char>) -> Seq<char>
    decreases s.len(),
{
    if s.len() > 0 && is_space(s.last()) {
        spec_trim_end(s.drop_last())
    } else {
        s
    }
}

/// `s` without leading and trailing whitespace.
pub open spec fn spec_trim(s: Seq<char>) -> Seq<char> {
    spec_trim_end(spec_trim_start(s))
}

/// The maximal non-whitespace prefix of `s`: the token that begins at
/// its first character, or empty when `s` starts with whitespace.
pub open spec fn spec_token_prefix(s: Seq<char>) -> Seq<char>
    decreases s.len(),
{
    if s.len() == 0 || is_space(s[0]) {
        Seq::empty()
    } else {
        seq![s[0]] + spec_token_prefix(s.drop_first())
    }
}

/// The token prefix never outruns the text.
pub proof fn lemma_token_prefix_len(s: Seq<char>)
    ensures
        spec_token_prefix(s).len() <= s.len(),
    decreases s.len(),
{
    if s.len() > 0 && !is_space(s[0]) {
        lemma_token_prefix_len(s.drop_first());
    }
}

/// The token prefix is exactly the text up to the first whitespace
/// character.
pub proof fn lemma_token_prefix_is(s: Seq<char>, j: int)
    requires
        0 <= j <= s.len(),
        forall|m: int| 0 <= m < j ==> !is_space(s[m]),
        j == s.len() || is_space(s[j]),
    ensures
        spec_token_prefix(s) == s.subrange(0, j),
    decreases j,
{
    if j == 0 {
        assert(s.subrange(0, 0) =~= Seq::<char>::empty());
    } else {
        assert(!is_space(s[0]));
        let t = s.drop_first();
        assert(forall|m: int| 0 <= m < j - 1 ==> !is_space(t[m]));
        if j < s.len() {
            assert(is_space(t[j - 1]));
        }
        lemma_token_prefix_is(t, j - 1);
        assert(seq![s[0]] + t.subrange(0, j - 1) =~= s.subrange(0, j));
    }
}

/// Splitting yields at least one piece.
pub proof fn lemma_split_nonempty(s: Seq<char>, pat: Seq<char>)
    ensures
        spec_split(s, pat).len() >= 1,
    decreases s.len(),
{
    if pat.len() == 0 || s.len() == 0 {
    } else if match_at(s, pat, 0) {
    } else {
        lemma_split_nonempty(s.drop_first(), pat);
    }
}

/// A token sequence whose text starts with a non-space character is
/// non-empty.
pub proof fn lemma_tokens_lead(s: Seq<char>)
    requires
        s.len() > 0,
        !is_space(s[0]),
    ensures
        spec_tokens(s).len() >= 1,
    decreases s.len(),
{
    if s.len() == 1 || is_space(s[1]) {
    } else {
        lemma_tokens_lead(s.drop_first());
    }
}

/// Every token is non-empty and free of whitespace characters.
pub proof fn lemma_tokens_wf(s: Seq<char>)
    ensures
        forall|i: int|
            0 <= i < spec_tokens(s).len() ==> (#[trigger] spec_tokens(s)[i]).len() > 0,
        forall|i: int, j: int|
            0 <= i < spec_tokens(s).len() && 0 <= j < spec_tokens(s)[i].len() ==> !is_space(
                #[trigger] spec_tokens(s)[i][j],
            ),
    decreases s.len(),
{
    if s.len() == 0 {
    } else if is_space(s[0]) {
        lemma_tokens_wf(s.drop_first());
    } else if s.len() == 1 || is_space(s[1]) {
        lemma_tokens_wf(s.drop_first());
    } else {
        lemma_tokens_wf(s.drop_first());
        lemma_tokens_lead(s.drop_first());
        let rest = spec_tokens(s.drop_first());
        let full = spec_tokens(s);
        assert(full == rest.update(0, seq![s[0]] + rest[0]));
        assert forall|i: int, j: int|
            0 <= i < full.len() && 0 <= j < full[i].len() implies !is_space(full[i][j]) by {
            if i == 0 {
                assert(full[0] == seq![s[0]] + rest[0]);
                if j == 0 {
                    assert(full[0][0] == s[0]);
                } else {
                    assert(full[0][j] == rest[0][j - 1]);
                }
            } else {
                assert(full[i] == rest[i]);
            }
        }
    }
}

/// Joining after appending one more part.
pub proof fn lemma_join_push(parts: Seq<Seq<char>>, part: Seq<char>, sep: char)
    ensures
        spec_join(parts.push(part), sep) == if parts.len() == 0 {
            part
        } else {
            spec_join(parts, sep) + seq![sep] + part
        },
    decreases parts.len(),
{
    let whole = parts.push(part);
    if parts.len() == 0 {
        assert(whole.len() == 1);
        assert(whole[0] == part);
    } else {
        assert(whole.drop_first() == parts.drop_first().push(part));
        lemma_join_push(parts.drop_first(), part, sep);
        if parts.len() == 1 {
            assert(parts.drop_first().len() == 0);
            assert(spec_join(whole, sep) == whole[0] + seq![sep] + spec_join(
                whole.drop_first(),
                sep,
            ));
            assert(spec_join(whole.drop_first(), sep) == part);
            assert(spec_join(parts, sep) == parts[0]);
            assert(whole[0] == parts[0]);
        } else {
            assert(spec_join(whole, sep) == whole[0] + seq![sep] + spec_join(
                whole.drop_first(),
                sep,
            ));
            assert(spec_join(parts, sep) == parts[0] + seq![sep] + spec_join(
                parts.drop_first(),
                sep,
            ));
            assert(whole[0] == parts[0]);
            assert(spec_join(whole, sep) =~= spec_join(parts, sep) + seq![sep] + part);
        }
    }
}

pub proof fn lemma_skip_subrange(s: Seq<char>, n: int, a: int, b: int)
    requires
        0 <= n <= s.len(),
        0 <= a <= b <= s.len() - n,
    ensures
        s.skip(n).subrange(a, b) == s.subrange(n + a, n + b),
{
    assert forall|k: int| 0 <= k < b - a implies s.skip(n).subrange(a, b)[k] == s.subrange(
        n + a,
        n + b,
    )[k] by {
        assert(s.skip(n)[a + k] == s[n + a + k]);
    }
    assert(s.skip(n).subrange(a, b) =~= s.subrange(n + a, n + b));
}

pub proof fn lemma_skip_one(s: Seq<char>, n: int)
    requires
        0 <= n < s.len(),
    ensures
        s.skip(n).drop_first() == s.skip(n + 1),
        s.skip(n)[0] == s[n],
        s.skip(n).len() == s.len() - n,
{
    assert(s.skip(n).drop_first() =~= s.skip(n + 1));
}

pub proof fn lemma_skip_skip(s: Seq<char>, a: int, b: int)
    requires
        0 <= a,
        0 <= b,
        a + b <= s.len(),
    ensures
        s.skip(a).skip(b) == s.skip(a + b),
{
    assert(s.skip(a).skip(b) =~= s.skip(a + b));
}

pub proof fn lemma_seq_views_push(s: Seq<String>, x: String)
    ensures
        seq_views(s.push(x)) == seq_views(s).push(x@),
{
    assert(seq_views(s.push(x)) =~= seq_views(s).push(x@));
}

/// Character-for-character string equality.
pub fn str_eq(a: &str, b: &str) -> (r: bool)
    ensures
        r == (a@ == b@),
{
    let na = a.unicode_len();
    let nb = b.unicode_len();
    if na != nb {
        return false;
    }
    let mut i: usize = 0;
    while i < na
        invariant
            na as nat == a@.len(),
            na as nat == b@.len(),
            i <= na,
            forall|j: int| 0 <= j < i ==> a@[j] == b@[j],
        decreases na - i,
    {
        if a.get_char(i) != b.get_char(i) {
            return false;
        }
        i += 1;
    }
    proof {
        assert(a@ =~= b@);
    }
    true
}

/// Whether `pat` occurs in `s` at position `i`.
pub fn matches_at(s: &str, pat: &str, i: usize) -> (r: bool)
    ensures
        r == match_at(s@, pat@, i as int),
{
    let n = s.unicode_len();
    let m = pat.unicode_len();
    if i > n || m > n - i {
        return false;
    }
    let mut j: usize = 0;
    while j < m
        invariant
            n as nat == s@.len(),
            m as nat == pat@.len(),
            i + m <= n,
            j <= m,
            forall|k: int| 0 <= k < j ==> s@[i + k] == pat@[k],
        decreases m - j,
    {
        if s.get_char(i + j) != pat.get_char(j) {
            proof {
                assert(s@.subrange(i as int, i + pat@.len() as int)[j as int] == s@[i + j]);
            }
            return false;
        }
        j += 1;
    }
    proof {
        assert(s@.subrange(i as int, i + pat@.len() as int) =~= pat@);
    }
    true
}

/// The split pieces collected so far, with the piece currently being
/// scanned (from `start` to `i`) merged into the head of the remainder.
pub open spec fn split_rest(s: Seq<char>, pat: Seq<char>, start: int, i: int) -> Seq<Seq<char>> {
    let tail = spec_split(s.skip(i), pat);
    tail.update(0, s.subrange(start, i) + tail[0])
}

/// Split `s` on every occurrence of the separator `pat`.
pub fn split_str(s: &str, pat: &str) -> (r: Vec<String>)
    requires
        pat@.len() > 0,
    ensures
        seq_views(r@) == spec_split(s@, pat@),
{
    let n = s.unicode_len();
    let pl = pat.unicode_len();
    let mut done: Vec<String> = Vec::new();
    let mut start: usize = 0;
    let mut i: usize = 0;
    proof {
        assert(s@.skip(0) =~= s@);
        lemma_split_nonempty(s@, pat@);
        let tail = spec_split(s@, pat@);
        assert(s@.subrange(0, 0) + tail[0] =~= tail[0]);
        assert(tail.update(0, tail[0]) =~= tail);
        assert(seq_views(done@).len() == 0);
        assert(seq_views(done@) + tail =~= tail);
    }
    while i < n
        invariant
            n as nat == s@.len(),
            pl as nat == pat@.len(),
            pl >= 1,
            start <= i <= n,
            spec_split(s@, pat@) == seq_views(done@) + split_rest(s@, pat@, start as int, i as int),
        decreases n - i,
    {
        let ghost oi = i as int;
        let ghost ost = start as int;
        let ghost tail = spec_split(s@.skip(oi), pat@);
        let ghost olddone = done@;
        if matches_at(s, pat, i) {
            let piece = String::from_str(s.substring_char(start, i));
            done.push(piece);
            i = i + pl;
            start = i;
            proof {
                let suf = s@.skip(oi);
                lemma_skip_subrange(s@, oi, 0, pat@.len() as int);
                assert(match_at(suf, pat@, 0));
                lemma_skip_skip(s@, oi, pat@.len() as int);
                let tail2 = spec_split(s@.skip(i as int), pat@);
                assert(tail == seq![Seq::<char>::empty()] + tail2);
                lemma_split_nonempty(s@.skip(i as int), pat@);
                assert(tail[0] =~= Seq::<char>::empty());
                assert(tail.update(0, s@.subrange(ost, oi) + tail[0]) =~= seq![
                    s@.subrange(ost, oi),
                ] + tail2);
                assert(s@.subrange(i as int, i as int) + tail2[0] =~= tail2[0]);
                assert(tail2.update(0, tail2[0]) =~= tail2);
                lemma_seq_views_push(olddone, done@.last());
                assert(done@.last()@ == s@.subrange(ost, oi));
                assert(done@ == olddone.push(done@.last()));
                assert(seq_views(done@) + tail2 =~= seq_views(olddone) + (seq![
                    s@.subrange(ost, oi),
                ] + tail2));
                assert(split_rest(s@, pat@, i as int, i as int) == tail2);
            }
        } else {
            i = i + 1;
            proof {
                let suf = s@.skip(oi);
                if oi + pat@.len() <= s@.len() {
                    lemma_skip_subrange(s@, oi, 0, pat@.len() as int);
                }
                assert(!match_at(suf, pat@, 0));
                assert(suf.len() > 0);
                lemma_skip_one(s@, oi);
                let rest = spec_split(s@.skip(oi + 1), pat@);
                assert(tail == rest.update(0, seq![suf[0]] + rest[0]));
                lemma_split_nonempty(s@.skip(oi + 1), pat@);
                assert(suf[0] == s@[oi]);
                assert(s@.subrange(ost, oi + 1) =~= s@.subrange(ost, oi) + seq![s@[oi]]);
                assert(s@.subrange(ost, oi) + (seq![suf[0]] + rest[0]) =~= s@.subrange(
                    ost,
                    oi + 1,
                ) + rest[0]);
                assert(tail.update(0, s@.subrange(ost, oi) + tail[0]) =~= rest.update(
                    0,
                    s@.subrange(ost, oi + 1) + rest[0],
                ));
            }
        }
    }
    let ghost olddone = done@;
    let last = String::from_str(s.substring_char(start, n));
    done.push(last);
    proof {
        assert(s@.skip(n as int).len() == 0);
        let tail = spec_split(s@.skip(n as int), pat@);
        assert(tail == seq![s@.skip(n as int)]);
        assert(tail[0] =~= Seq::<char>::empty());
        assert(tail.update(0, s@.subrange(start as int, n as int) + tail[0]) =~= seq![
            s@.subrange(start as int, n as int),
        ]);
        lemma_seq_views_push(olddone, done@.last());
        assert(seq_views(done@) =~= seq_views(olddone) + seq![
            s@.subrange(start as int, n as int),
        ]);
    }
    done
}

/// The tokens collected so far, with the token currently being scanned
/// merged into the head of the remainder's tokens.
pub open spec fn tokens_rest(cur: Seq<char>, rest: Seq<char>) -> Seq<Seq<char>> {
    if cur.len() == 0 {
        spec_tokens(rest)
    } else if rest.len() > 0 && !is_space(rest[0]) {
        spec_tokens(rest).update(0, cur + spec_tokens(rest)[0])
    } else {
        seq![cur] + spec_tokens(rest)
    }
}

/// The whitespace-delimited tokens of `s`.
pub fn tokens_of(s: &str) -> (r: Vec<String>)
    ensures
        seq_views(r@) == spec_tokens(s@),
        forall|i: int| 0 <= i < r@.len() ==> (#[trigger] r@[i])@.len() > 0,
{
    let n = s.unicode_len();
    let mut done: Vec<String> = Vec::new();
    let mut start: usize = 0;
    let mut in_tok = false;
    let mut i: usize = 0;
    proof {
        assert(s@.skip(0) =~= s@);
        assert(seq_views(done@).len() == 0);
        assert(seq_views(done@) + spec_tokens(s@) =~= spec_tokens(s@));
    }
    while i < n
        invariant
            n as nat == s@.len(),
            start <= i <= n,
            in_tok ==> start < i,
            spec_tokens(s@) == seq_views(done@) + tokens_rest(
                if in_tok {
                    s@.subrange(start as int, i as int)
                } else {
                    Seq::<char>::empty()
                },
                s@.skip(i as int),
            ),
        decreases n - i,
    {
        let ghost oi = i as int;
        let ghost ost = start as int;
        let ghost cur = if in_tok {
            s@.subrange(ost, oi)
        } else {
            Seq::<char>::empty()
        };
        let ghost rest = s@.skip(oi);
        let ghost olddone = done@;
        let c = s.get_char(i);
        proof {
            lemma_skip_one(s@, oi);
        }
        if c == ' ' || c == '\t' || c == '\n' || c == '\r' {
            if in_tok {
                let piece = String::from_str(s.substring_char(start, i));
                done.push(piece);
                in_tok = false;
                proof {
                    assert(tokens_rest(cur, rest) =~= seq![cur] + spec_tokens(s@.skip(oi + 1)));
                    lemma_seq_views_push(olddone, done@.last());
                    assert(done@.last()@ == cur);
                    assert(seq_views(done@) + spec_tokens(s@.skip(oi + 1)) =~= seq_views(olddone)
                        + tokens_rest(cur, rest));
                }
            } else {
                proof {
                    assert(tokens_rest(cur, rest) == spec_tokens(rest));
                    assert(spec_tokens(rest) == spec_tokens(s@.skip(oi + 1)));
                }
            }
            i += 1;
        } else {
            if !in_tok {
                start = i;
                in_tok = true;
            }
            i += 1;
            proof {
                let rest2 = s@.skip(oi + 1);
                let cur2 = s@.subrange(start as int, i as int);
                if cur.len() == 0 {
                    assert(cur2 =~= seq![s@[oi]]);
                    if rest.len() == 1 || is_space(rest[1]) {
                        assert(spec_tokens(rest) == seq![seq![rest[0]]] + spec_tokens(rest2));
                        if rest2.len() > 0 {
                            assert(rest2[0] == rest[1]);
                        }
                        assert(tokens_rest(cur2, rest2) =~= seq![cur2] + spec_tokens(rest2));
                        assert(tokens_rest(cur, rest) =~= tokens_rest(cur2, rest2));
                    } else {
                        let rr = spec_tokens(rest2);
                        assert(spec_tokens(rest) == rr.update(0, seq![rest[0]] + rr[0]));
                        assert(rest2[0] == rest[1]);
                        lemma_tokens_lead(rest2);
                        assert(tokens_rest(cur2, rest2) =~= rr.update(0, cur2 + rr[0]));
                        assert(seq![rest[0]] + rr[0] =~= cur2 + rr[0]);
                        assert(tokens_rest(cur, rest) =~= tokens_rest(cur2, rest2));
                    }
                } else {
                    assert(cur2 =~= cur + seq![s@[oi]]);
                    let t = spec_tokens(rest);
                    assert(tokens_rest(cur, rest) == t.update(0, cur + t[0]));
                    if rest.len() == 1 || is_space(rest[1]) {
                        assert(t == seq![seq![rest[0]]] + spec_tokens(rest2));
                        if rest2.len() > 0 {
                            assert(rest2[0] == rest[1]);
                        }
                        assert(tokens_rest(cur2, rest2) =~= seq![cur2] + spec_tokens(rest2));
                        assert(t.update(0, cur + t[0]) =~= seq![cur + seq![rest[0]]] + spec_tokens(
                            rest2,
                        ));
                        assert(cur + seq![rest[0]] =~= cur2);
                        assert(tokens_rest(cur, rest) =~= tokens_rest(cur2, rest2));
                    } else {
                        let rr = spec_tokens(rest2);
                        assert(t == rr.update(0, seq![rest[0]] + rr[0]));
                        assert(rest2[0] == rest[1]);
                        lemma_tokens_lead(rest2);
                        assert(tokens_rest(cur2, rest2) =~= rr.update(0, cur2 + rr[0]));
                        assert(t.update(0, cur + t[0]) =~= rr.update(
                            0,
                            cur + (seq![rest[0]] + rr[0]),
                        ));
                        assert(cur + (seq![rest[0]] + rr[0]) =~= cur2 + rr[0]);
                        assert(tokens_rest(cur, rest) =~= tokens_rest(cur2, rest2));
                    }
                }
            }
        }
    }
    if in_tok {
        let ghost olddone = done@;
        let piece = String::from_str(s.substring_char(start, n));
        done.push(piece);
        proof {
            let cur = s@.subrange(start as int, n as int);
            assert(s@.skip(n as int).len() == 0);
            assert(tokens_rest(cur, s@.skip(n as int)) =~= seq![cur]);
            lemma_seq_views_push(olddone, done@.last());
            assert(seq_views(done@) =~= seq_views(olddone) + seq![cur]);
        }
    } else {
        proof {
            assert(tokens_rest(Seq::<char>::empty(), s@.skip(n as int)) =~= Seq::<Seq<
                char,
            >>::empty());
            assert(seq_views(done@) =~= seq_views(done@) + Seq::<Seq<char>>::empty());
        }
    }
    proof {
        lemma_tokens_wf(s@);
        assert(forall|i: int|
            0 <= i < done@.len() ==> (#[trigger] done@[i])@ == seq_views(done@)[i]);
    }
    done
}

/// Join the parts with the single-character separator `sep`.
pub fn join_with(parts: &Vec<String>, sep: &str) -> (r: String)
    requires
        sep@.len() == 1,
    ensures
        r@ == spec_join(seq_views(parts@), sep@[0]),
{
    let ghost sc = sep@[0];
    if parts.len() == 0 {
        return String::new();
    }
    let mut acc = parts[0].clone();
    let mut i: usize = 1;
    while i < parts.len()
        invariant
            sep@.len() == 1,
            1 <= i <= parts@.len(),
            acc@ == spec_join(seq_views(parts@).take(i as int), sep@[0]),
        decreases parts@.len() - i,
    {
        let ghost before = seq_views(parts@).take(i as int);
        acc.append(sep);
        acc.append(parts[i].as_str());
        proof {
            lemma_join_push(before, parts@[i as int]@, sep@[0]);
            assert(seq_views(parts@).take(i + 1) =~= before.push(parts@[i as int]@));
            assert(before.len() >= 1);
            assert(sep@ =~= seq![sep@[0]]);
        }
        i += 1;
    }
    proof {
        assert(seq_views(parts@).take(parts@.len() as int) =~= seq_views(parts@));
    }
    acc
}

/// Whether the character is whitespace.
pub fn is_space_char(c: char) -> (r: bool)
    ensures
        r == is_space(c),
{
    c == ' ' || c == '\t' || c == '\n' || c == '\r'
}

/// Whether position `i` of `s` holds a whitespace character.
pub fn space_at(s: &str, i: usize) -> (r: bool)
    requires
        i < s@.len(),
    ensures
        r == is_space(s@[i as int]),
{
    is_space_char(s.get_char(i))
}

/// Copy `s` without leading or trailing whitespace.
pub fn trim_str(s: &str) -> (r: String)
    ensures
        r@ == spec_trim(s@),
{
    let n = s.unicode_len();
    let mut a: usize = 0;
    proof {
        assert(s@.skip(0) =~= s@);
    }
    while a < n && space_at(s, a)
        invariant
            n as nat == s@.len(),
            a <= n,
            spec_trim_start(s@) == spec_trim_start(s@.skip(a as int)),
        decreases n - a,
    {
        proof {
            lemma_skip_one(s@, a as int);
        }
        a += 1;
    }
    proof {
        if a < n {
            assert(spec_trim_start(s@.skip(a as int)) == s@.skip(a as int));
        } else {
            assert(s@.skip(a as int).len() == 0);
        }
        assert(spec_trim_start(s@) == s@.skip(a as int));
    }
    let mut b: usize = n;
    proof {
        assert(s@.skip(a as int) =~= s@.subrange(a as int, n as int));
    }
    while b > a && space_at(s, b - 1)
        invariant
            n as nat == s@.len(),
            a <= b <= n,
            spec_trim_start(s@) == s@.skip(a as int),
            spec_trim_end(s@.skip(a as int)) == spec_trim_end(s@.subrange(a as int, b as int)),
        decreases b,
    {
        proof {
            let piece = s@.subrange(a as int, b as int);
            assert(piece.last() == s@[b - 1]);
            assert(piece.drop_last() =~= s@.subrange(a as int, b - 1));
        }
        b -= 1;
    }
    proof {
        let piece = s@.subrange(a as int, b as int);
        if b > a {
            assert(piece.last() == s@[b - 1]);
            assert(spec_trim_end(piece) == piece);
        } else {
            assert(piece.len() == 0);
        }
        assert(s@.skip(a as int) =~= s@.subrange(a as int, n as int));
    }
    String::from_str(s.substring_char(a, b))
}

/// Copy `s` without trailing whitespace.
pub fn trim_end_str(s: &str) -> (r: String)
    ensures
        r@ == spec_trim_end(s@),
{
    let n = s.unicode_len();
    let mut b: usize = n;
    proof {
        assert(s@.subrange(0, n as int) =~= s@);
    }
    while b > 0 && space_at(s, b - 1)
        invariant
            n as nat == s@.len(),
            b <= n,
            spec_trim_end(s@) == spec_trim_end(s@.subrange(0, b as int)),
        decreases b,
    {
        proof {
            let piece = s@.subrange(0, b as int);
            assert(piece.last() == s@[b - 1]);
            assert(piece.drop_last() =~= s@.subrange(0, b - 1));
        }
        b -= 1;
    }
    proof {
        let piece = s@.subrange(0, b as int);
        if b > 0 {
            assert(piece.last() == s@[b - 1]);
            assert(spec_trim_end(piece) == piece);
        } else {
            assert(piece.len() == 0);
        }
        assert(s@.subrange(0, n as int) =~= s@);
    }
    String::from_str(s.substring_char(0, b))
}

/// Whether `s` begins with the character `c`.
pub fn starts_with_char(s: &str, c: char) -> (r: bool)
    ensures
        r == (s@.len() > 0 && s@[0] == c),
{
    if s.unicode_len() == 0 {
        false
    } else {
        s.get_char(0) == c
    }
}

/// Whether position `i` of `s` exists and holds the character `c`.
pub fn char_at_is(s: &str, i: usize, c: char) -> (r: bool)
    ensures
        r == (i < s@.len() && s@[i as int] == c),
{
    if i >= s.unicode_len() {
        false
    } else {
        s.get_char(i) == c
    }
}

/// Whether some element of `v` equals `x`.
pub fn contains_str(v: &Vec<String>, x: &str) -> (r: bool)
    ensures
        r == (exists|i: int| 0 <= i < v@.len() && (#[trigger] v@[i])@ == x@),
{
    let mut i: usize = 0;
    while i < v.len()
        invariant
            i <= v@.len(),
            forall|j: int| 0 <= j < i ==> (#[trigger] v@[j])@ != x@,
        decreases v@.len() - i,
    {
        if str_eq(v[i].as_str(), x) {
            return true;
        }
        i += 1;
    }
    false
}

} // verus!
