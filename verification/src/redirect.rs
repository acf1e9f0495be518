//! Redirection rewriter: every `>>` and `>` operator in a chain element
//! is rewritten into an internal pipeline separator followed by a
//! synthetic relay stage (`&a` for append, `&w` for truncating write),
//! and the element is then split on the pipeline separator into tagged
//! stages.

use vstd::prelude::*;
use vstd::string::*;
use crate::text::{
    char_at_is, lemma_skip_one, lemma_skip_skip, seq_views, spec_split, spec_trim, split_str,
    starts_with_char, trim_str,
};

verus! {

/// A redirection target: a file and whether the relay appends to it or
/// truncates it first.
#[derive(Debug, Clone)]
pub struct Redirection {
    pub append: bool,
    pub file: String,
}

/// One pipeline stage: its command text, and its redirection tag when
/// the stage is a synthetic relay target.
#[derive(Debug, Clone)]
pub struct Stage {
    pub text: String,
    pub redirect: Option<Redirection>,
}

/// Ghost image of a redirection target.
pub ghost struct RedirectionV {
    pub append: bool,
    pub file: Seq<char>,
}

/// Ghost image of a pipeline stage.
pub ghost struct StageV {
    pub text: Seq<char>,
    pub redirect: Option<RedirectionV>,
}

impl View for Redirection {
    type V = RedirectionV;

    open spec fn view(&self) -> RedirectionV {
        RedirectionV { append: self.append, file: self.file@ }
    }
}

impl View for Stage {
    type V = StageV;

    open spec fn view(&self) -> StageV {
        StageV {
            text: self.text@,
            redirect: match self.redirect {
                Some(rd) => Some(rd@),
                None => None,
            },
        }
    }
}

/// The views of a sequence of stages.
pub open spec fn stage_views(s: Seq<Stage>) -> Seq<StageV> {
    s.map_values(|x: Stage| x@)
}

/// The internal pipeline separator.
pub open spec fn pipe_sep() -> Seq<char> {
    seq![' ', '|', ' ']
}

/// The chain element with every `>>` replaced by the append relay
/// separator and every remaining `>` by the write relay separator.
pub open spec fn spec_rewrite(s: Seq<char>) -> Seq<char>
    decreases s.len(),
{
    if s.len() == 0 {
        Seq::empty()
    } else if s.len() >= 2 && s[0] == '>' && s[1] == '>' {
        seq!['|', ' ', '&', 'a'] + spec_rewrite(s.skip(2))
    } else if s[0] == '>' {
        seq!['|', ' ', '&', 'w'] + spec_rewrite(s.skip(1))
    } else {
        seq![s[0]] + spec_rewrite(s.skip(1))
    }
}

/// The stage a split piece stands for: a piece beginning with a relay
/// marker is a redirection target whose filename is the trimmed rest of
/// the piece; any other piece is command text.
pub open spec fn spec_stage_of(t: Seq<char>) -> StageV {
    if t.len() >= 2 && t[0] == '&' && (t[1] == 'a' || t[1] == 'w') {
        StageV {
            text: t,
            redirect: Some(RedirectionV { append: t[1] == 'a', file: spec_trim(t.skip(2)) }),
        }
    } else {
        StageV { text: t, redirect: None }
    }
}

/// The tagged stages of a chain element: rewrite the redirection
/// operators, split on the pipeline separator, tag each piece.
pub open spec fn spec_stages(chain: Seq<char>) -> Seq<StageV> {
    spec_split(spec_rewrite(chain), pipe_sep()).map_values(|t: Seq<char>| spec_stage_of(t))
}

/// Rewrite every redirection operator of `s` into its relay form.
pub fn rewrite_redirections(s: &str) -> (r: String)
    ensures
        r@ == spec_rewrite(s@),
{
    let n = s.unicode_len();
    let mut out = String::new();
    let mut i: usize = 0;
    proof {
        assert(s@.skip(0) =~= s@);
        assert(out@ + spec_rewrite(s@) =~= spec_rewrite(s@));
    }
    while i < n
        invariant
            n as nat == s@.len(),
            i <= n,
            out@ + spec_rewrite(s@.skip(i as int)) == spec_rewrite(s@),
        decreases n - i,
    {
        let ghost oi = i as int;
        let ghost suf = s@.skip(oi);
        let ghost out0 = out@;
        proof {
            lemma_skip_one(s@, oi);
            assert(suf[0] == s@[oi]);
        }
        let c = s.get_char(i);
        if c == '>' && char_at_is(s, i + 1, '>') {
            out.append("| &a");
            proof {
                assert(suf.len() >= 2);
                assert(suf[1] == s@[oi + 1]);
                lemma_skip_skip(s@, oi, 2);
                reveal_strlit("| &a");
                assert("| &a"@ =~= seq!['|', ' ', '&', 'a']);
                assert(spec_rewrite(suf) == seq!['|', ' ', '&', 'a'] + spec_rewrite(
                    s@.skip(oi + 2),
                ));
                assert(out0 + spec_rewrite(suf) =~= out@ + spec_rewrite(s@.skip(oi + 2)));
            }
            i += 2;
        } else if c == '>' {
            out.append("| &w");
            proof {
                if suf.len() >= 2 {
                    assert(suf[1] == s@[oi + 1]);
                    assert(suf[1] != '>');
                }
                reveal_strlit("| &w");
                assert("| &w"@ =~= seq!['|', ' ', '&', 'w']);
                assert(spec_rewrite(suf) == seq!['|', ' ', '&', 'w'] + spec_rewrite(
                    s@.skip(oi + 1),
                ));
                assert(out0 + spec_rewrite(suf) =~= out@ + spec_rewrite(s@.skip(oi + 1)));
            }
            i += 1;
        } else {
            out.append(s.substring_char(i, i + 1));
            proof {
                assert(s@.subrange(oi, oi + 1) =~= seq![s@[oi]]);
                assert(spec_rewrite(suf) == seq![s@[oi]] + spec_rewrite(s@.skip(oi + 1)));
                assert(out0 + spec_rewrite(suf) =~= out@ + spec_rewrite(s@.skip(oi + 1)));
            }
            i += 1;
        }
    }
    proof {
        assert(s@.skip(i as int).len() == 0);
        assert(out@ + spec_rewrite(s@.skip(i as int)) =~= out@);
    }
    out
}

/// Split a chain element into its tagged pipeline stages.
pub fn parse_stages(chain: &str) -> (r: Vec<Stage>)
    ensures
        stage_views(r@) == spec_stages(chain@),
{
    proof {
        reveal_strlit(" | ");
        assert(" | "@ =~= pipe_sep());
    }
    let rw = rewrite_redirections(chain);
    let parts = split_str(rw.as_str(), " | ");
    let ghost model = spec_stages(chain@);
    let mut r: Vec<Stage> = Vec::new();
    let mut i: usize = 0;
    while i < parts.len()
        invariant
            seq_views(parts@) == spec_split(spec_rewrite(chain@), pipe_sep()),
            model == spec_stages(chain@),
            model.len() == parts@.len(),
            i <= parts@.len(),
            r@.len() == i,
            forall|j: int| 0 <= j < i ==> (#[trigger] r@[j])@ == model[j],
        decreases parts@.len() - i,
    {
        let ghost t = parts@[i as int]@;
        proof {
            assert(t == seq_views(parts@)[i as int]);
            assert(model[i as int] == spec_stage_of(t));
        }
        let part = &parts[i];
        let n = part.as_str().unicode_len();
        let tagged = starts_with_char(part.as_str(), '&') && (char_at_is(part.as_str(), 1, 'a')
            || char_at_is(part.as_str(), 1, 'w'));
        if tagged {
            let append = char_at_is(part.as_str(), 1, 'a');
            let file = trim_str(part.as_str().substring_char(2, n));
            proof {
                assert(part@.subrange(2, n as int) =~= t.skip(2));
            }
            r.push(Stage { text: part.clone(), redirect: Some(Redirection { append, file }) });
        } else {
            r.push(Stage { text: part.clone(), redirect: None });
        }
        proof {
            assert(r@[i as int]@ == model[i as int]);
        }
        i += 1;
    }
    proof {
        assert(stage_views(r@) =~= model);
    }
    r
}

} // verus!
