//! Tokenizer for `{{ variable }}` templates.
//!
//! A template is read left to right.  `{{` opens a variable, which the first
//! following `}}` closes; its content is kept as written.  An opening `{{`
//! without a closing `}}` swallows the rest of the template.  Every other
//! character, a single `{` included, is literal text.

use vstd::prelude::*;
use crate::text::{push_all, slice_chars};

verus! {

/// A piece of a template, as a mathematical value.
pub enum Piece {
    /// A literal character, as a one-character sequence.
    Lit(Seq<char>),
    /// A closed variable with its content, untrimmed.
    Var(Seq<char>),
    /// An unclosed `{{` followed by the rest of the template.
    Open(Seq<char>),
}

/// A piece of a template.
#[derive(Debug)]
pub enum TemplatePiece {
    Lit(Vec<char>),
    Var(Vec<char>),
    Open(Vec<char>),
}

impl TemplatePiece {
    pub open spec fn view(&self) -> Piece {
        match self {
            TemplatePiece::Lit(c) => Piece::Lit(c@),
            TemplatePiece::Var(v) => Piece::Var(v@),
            TemplatePiece::Open(v) => Piece::Open(v@),
        }
    }
}

/// The pieces held by a sequence of template pieces.
pub open spec fn piece_views(v: Seq<TemplatePiece>) -> Seq<Piece> {
    Seq::new(v.len(), |i: int| v[i].view())
}

/// Whether a variable closes at position `k` of `s`.
pub open spec fn closes_at(s: Seq<char>, k: int) -> bool {
    0 <= k && k + 1 < s.len() && s[k] == '}' && s[k + 1] == '}'
}

/// The position of the first `}}` in `s`, or `s.len()` when there is none.
pub open spec fn find_close(s: Seq<char>) -> int
    decreases s.len(),
{
    if s.len() < 2 {
        s.len() as int
    } else if s[0] == '}' && s[1] == '}' {
        0
    } else {
        1 + find_close(s.drop_first())
    }
}

pub proof fn lemma_find_close(s: Seq<char>)
    ensures
        0 <= find_close(s) <= s.len(),
        find_close(s) < s.len() ==> closes_at(s, find_close(s)),
        forall|j: int| 0 <= j < find_close(s) ==> !closes_at(s, j),
        find_close(s) == s.len() ==> forall|j: int| !closes_at(s, j),
    decreases s.len(),
{
    if s.len() >= 2 && !(s[0] == '}' && s[1] == '}') {
        let t = s.drop_first();
        lemma_find_close(t);
        assert forall|j: int| 0 <= j < find_close(s) implies !closes_at(s, j) by {
            if j > 0 {
                assert(closes_at(s, j) == closes_at(t, j - 1));
            }
        }
        if find_close(s) == s.len() {
            assert forall|j: int| !closes_at(s, j) by {
                if j > 0 {
                    assert(closes_at(s, j) == closes_at(t, j - 1));
                }
            }
        }
    }
}

proof fn lemma_find_close_value(s: Seq<char>, k: int)
    requires
        0 <= k <= s.len(),
        forall|j: int| 0 <= j < k ==> !closes_at(s, j),
        k < s.len() ==> closes_at(s, k),
        k == s.len() ==> forall|j: int| !closes_at(s, j),
    ensures
        find_close(s) == k,
{
    lemma_find_close(s);
    if find_close(s) < k {
        assert(closes_at(s, find_close(s)));
    } else if find_close(s) > k {
        if k < s.len() {
            assert(!closes_at(s, k));
        }
    }
}

/// The pieces of a template.
pub open spec fn pieces(s: Seq<char>) -> Seq<Piece>
    decreases s.len(),
{
    let rest = s.skip(2);
    let k = find_close(rest);
    proof {
        lemma_find_close(rest);
    }
    if s.len() == 0 {
        seq![]
    } else if s.len() > 1 && s[0] == '{' && s[1] == '{' {
        if k < rest.len() {
            seq![Piece::Var(rest.take(k))] + pieces(rest.skip(k + 2))
        } else {
            seq![Piece::Open(rest)]
        }
    } else {
        seq![Piece::Lit(seq![s[0]])] + pieces(s.drop_first())
    }
}

/// Whether `{{` stands at position `i` of `s`.
pub open spec fn double_brace_at(s: Seq<char>, i: int) -> bool {
    0 <= i && i + 1 < s.len() && s[i] == '{' && s[i + 1] == '{'
}

/// Whether `s` has `{{` at some position.
pub open spec fn has_double_brace(s: Seq<char>) -> bool {
    exists|i: int| #[trigger] double_brace_at(s, i)
}

/// A template without `{{` consists of its characters only.
pub proof fn lemma_pieces_plain(s: Seq<char>)
    requires
        !has_double_brace(s),
    ensures
        pieces(s) == Seq::new(s.len(), |i: int| Piece::Lit(seq![s[i]])),
    decreases s.len(),
{
    if s.len() > 0 {
        let t = s.drop_first();
        assert(!has_double_brace(t)) by {
            if has_double_brace(t) {
                let i = choose|i: int| double_brace_at(t, i);
                assert(double_brace_at(s, i + 1));
            }
        }
        lemma_pieces_plain(t);
        assert(!double_brace_at(s, 0));
        assert(pieces(s) == seq![Piece::Lit(seq![s[0]])] + pieces(t));
        assert forall|i: int| 0 <= i < s.len() implies pieces(s)[i] == Piece::Lit(seq![s[i]]) by {
            if i > 0 {
                assert(pieces(s)[i] == pieces(t)[i - 1]);
                assert(t[i - 1] == s[i]);
            }
        }
        assert(pieces(s) =~= Seq::new(s.len(), |i: int| Piece::Lit(seq![s[i]])));
    }
}

fn find_close_exec(s: &[char], start: usize) -> (r: usize)
    requires
        start <= s.len(),
    ensures
        start <= r <= s.len(),
        r - start == find_close(s@.skip(start as int)),
{
    let ghost t = s@.skip(start as int);
    let mut k: usize = start;
    while s.len() - k >= 2 && !(s[k] == '}' && s[k + 1] == '}')
        invariant
            start <= k <= s.len(),
            t == s@.skip(start as int),
            forall|j: int| 0 <= j < k - start ==> !closes_at(t, j),
        decreases s.len() - k,
    {
        proof {
            assert(closes_at(t, k - start) == (s@[k as int] == '}' && s@[k + 1] == '}'));
        }
        k = k + 1;
    }
    if s.len() - k >= 2 {
        proof {
            assert(closes_at(t, k - start));
            lemma_find_close_value(t, k - start);
        }
        k
    } else {
        proof {
            assert forall|j: int| !closes_at(t, j) by {
                if 0 <= j < k - start {
                } else if j >= k - start {
                }
            }
            lemma_find_close_value(t, t.len() as int);
        }
        s.len()
    }
}

/// The pieces of a template held in a buffer.
pub fn tokenize(s: &[char]) -> (r: Vec<TemplatePiece>)
    ensures
        piece_views(r@) == pieces(s@),
{
    let mut out: Vec<TemplatePiece> = Vec::new();
    let mut i: usize = 0;
    proof {
        assert(s@.skip(0) =~= s@);
        assert(piece_views(out@) + pieces(s@) =~= pieces(s@));
    }
    while i < s.len()
        invariant
            i <= s.len(),
            piece_views(out@) + pieces(s@.skip(i as int)) == pieces(s@),
        decreases s.len() - i,
    {
        let ghost t = s@.skip(i as int);
        let ghost before = piece_views(out@);
        if i + 1 < s.len() && s[i] == '{' && s[i + 1] == '{' {
            let start = i + 2;
            let k = find_close_exec(s, start);
            let ghost rest = t.skip(2);
            proof {
                assert(rest =~= s@.skip(start as int));
                lemma_find_close(rest);
            }
            if k < s.len() {
                let name = slice_chars(s, start, k);
                out.push(TemplatePiece::Var(name));
                proof {
                    assert(name@ =~= rest.take(k - start));
                    assert(rest.skip(k - start + 2) =~= s@.skip(k + 2));
                    assert(piece_views(out@) =~= before.push(Piece::Var(name@)));
                    assert(piece_views(out@) + pieces(s@.skip(k + 2)) =~= before + (seq![
                        Piece::Var(name@),
                    ] + pieces(s@.skip(k + 2))));
                }
                i = k + 2;
            } else {
                let tail = slice_chars(s, start, s.len());
                out.push(TemplatePiece::Open(tail));
                proof {
                    assert(tail@ =~= rest);
                    assert(piece_views(out@) =~= before.push(Piece::Open(tail@)));
                    assert(s@.skip(s.len() as int) =~= Seq::<char>::empty());
                    assert(piece_views(out@) + pieces(s@.skip(s.len() as int)) =~= before + seq![
                        Piece::Open(tail@),
                    ]);
                }
                i = s.len();
            }
        } else {
            let mut c: Vec<char> = Vec::new();
            c.push(s[i]);
            proof {
                assert(c@ =~= seq![s@[i as int]]);
            }
            out.push(TemplatePiece::Lit(c));
            proof {
                assert(t.drop_first() =~= s@.skip(i + 1));
                assert(piece_views(out@) =~= before.push(Piece::Lit(seq![s@[i as int]])));
                assert(piece_views(out@) + pieces(s@.skip(i + 1)) =~= before + (seq![
                    Piece::Lit(seq![t[0]]),
                ] + pieces(t.drop_first())));
            }
            i = i + 1;
        }
    }
    proof {
        assert(s@.skip(i as int) =~= Seq::<char>::empty());
        assert(piece_views(out@) + seq![] =~= piece_views(out@));
    }
    out
}

} // verus!
