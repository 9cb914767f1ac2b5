//! Global properties of the scanner, proved against the scanning model:
//! every scan terminates in an end-of-input token, and the token sequence
//! of an input does not depend on the whitespace between its tokens.

use vstd::prelude::*;

use crate::model::B_COLON;
use crate::model::B_COMMA;
use crate::model::B_DOT;
use crate::model::B_EQ;
use crate::model::B_LBRACE;
use crate::model::B_LPAREN;
use crate::model::B_MINUS;
use crate::model::B_PLUS;
use crate::model::B_RBRACE;
use crate::model::B_RPAREN;
use crate::model::B_SEMI;
use crate::model::colon_set;
use crate::model::digits_end;
use crate::model::is_digit_byte;
use crate::model::is_word_byte;
use crate::model::is_word_start_byte;
use crate::model::is_ws_byte;
use crate::model::lemma_digits_end_bounds;
use crate::model::lemma_match_end_bounds;
use crate::model::lemma_progress;
use crate::model::match_end;
use crate::model::minus_set;
use crate::model::period_set;
use crate::model::plus_set;
use crate::model::text;
use crate::model::token_at;
use crate::model::word_end;
use crate::model::lemma_ws_end_bounds;
use crate::model::next_token_model;
use crate::model::tokens;
use crate::model::tokens_from;
use crate::model::ws_end;
use crate::token::TokenView;

verus! {

/// The first position at or after `pos` that holds whitespace or is the
/// end of input: the end of the whitespace-free run starting at `pos`.
pub open spec fn chunk_end(s: Seq<u8>, pos: int) -> int
    decreases s.len() - pos
        when 0 <= pos <= s.len()
{
    if pos < s.len() && !is_ws_byte(s[pos]) {
        chunk_end(s, pos + 1)
    } else {
        pos
    }
}

/// The maximal whitespace-free runs of `s` at or after `pos`, in order.
/// Two inputs with equal runs differ only in the whitespace around them.
pub open spec fn chunks_from(s: Seq<u8>, pos: int) -> Seq<Seq<u8>>
    decreases s.len() - pos
        when 0 <= pos <= s.len()
        via chunks_from_decreases
{
    let q = ws_end(s, pos);
    if q >= s.len() {
        Seq::empty()
    } else {
        seq![s.subrange(q, chunk_end(s, q))] + chunks_from(s, chunk_end(s, q))
    }
}

#[via_fn]
proof fn chunks_from_decreases(s: Seq<u8>, pos: int) {
    if 0 <= pos <= s.len() {
        lemma_ws_end_bounds(s, pos);
        let q = ws_end(s, pos);
        if q < s.len() {
            lemma_ws_end_stops(s, pos);
            lemma_chunk_end_bounds(s, q + 1);
        }
    }
}

/// The maximal whitespace-free runs of a whole input buffer.
pub open spec fn chunks(s: Seq<u8>) -> Seq<Seq<u8>> {
    chunks_from(s, 0)
}

/// Whitespace skipping stops at the end of input or at a byte that is no
/// whitespace.
proof fn lemma_ws_end_stops(s: Seq<u8>, pos: int)
    requires
        0 <= pos <= s.len(),
    ensures
        ws_end(s, pos) == s.len() || !is_ws_byte(s[ws_end(s, pos)]),
    decreases s.len() - pos,
{
    if pos < s.len() && is_ws_byte(s[pos]) {
        lemma_ws_end_stops(s, pos + 1);
    }
}

proof fn lemma_chunk_end_bounds(s: Seq<u8>, pos: int)
    requires
        0 <= pos <= s.len(),
    ensures
        pos <= chunk_end(s, pos) <= s.len(),
    decreases s.len() - pos,
{
    if pos < s.len() && !is_ws_byte(s[pos]) {
        lemma_chunk_end_bounds(s, pos + 1);
    }
}

/// Every byte of a whitespace-free run is no whitespace, and the run ends
/// at the end of input or at a whitespace byte.
proof fn lemma_chunk_end_props(s: Seq<u8>, pos: int)
    requires
        0 <= pos <= s.len(),
    ensures
        forall|i: int| pos <= i < chunk_end(s, pos) ==> !is_ws_byte(s[i]),
        chunk_end(s, pos) == s.len() || is_ws_byte(s[chunk_end(s, pos)]),
        pos <= chunk_end(s, pos) <= s.len(),
    decreases s.len() - pos,
{
    if pos < s.len() && !is_ws_byte(s[pos]) {
        lemma_chunk_end_props(s, pos + 1);
    }
}

/// A whitespace-free run ends at the same place from any position inside
/// it.
proof fn lemma_chunk_end_absorb(s: Seq<u8>, pos: int, i: int)
    requires
        0 <= pos <= i,
        i <= chunk_end(s, pos),
        pos <= s.len(),
    ensures
        chunk_end(s, i) == chunk_end(s, pos),
    decreases i - pos,
{
    lemma_chunk_end_bounds(s, pos);
    if pos < i {
        lemma_chunk_end_absorb(s, pos + 1, i);
    }
}

/// An identifier run consumes the same count of bytes on two inputs that
/// agree up to the ends of the whitespace-free runs the positions lie in,
/// and never crosses a whitespace byte.
proof fn lemma_word_end_align(a: Seq<u8>, b: Seq<u8>, i: int, j: int, ea: int, eb: int)
    requires
        0 <= i <= ea <= a.len(),
        0 <= j <= eb <= b.len(),
        ea - i == eb - j,
        forall|k: int| 0 <= k < ea - i ==> #[trigger] a[i + k] == b[j + k],
        ea == a.len() || is_ws_byte(a[ea]),
        eb == b.len() || is_ws_byte(b[eb]),
    ensures
        word_end(a, i) - i == word_end(b, j) - j,
        i <= word_end(a, i) <= ea,
    decreases ea - i,
{
    if i < ea {
        assert(a[i] == b[j]) by {
            assert(a[i + 0] == b[j + 0]);
        }
        if is_word_byte(a[i]) {
            assert forall|k: int| 0 <= k < ea - (i + 1) implies #[trigger] a[(i + 1) + k] == b[(j + 1)
                + k] by {
                assert(a[i + (k + 1)] == b[j + (k + 1)]);
            }
            lemma_word_end_align(a, b, i + 1, j + 1, ea, eb);
        }
    }
}

/// A digit run consumes the same count of bytes on two inputs that agree
/// up to the ends of the whitespace-free runs the positions lie in, and
/// never crosses a whitespace byte.
proof fn lemma_digits_end_align(a: Seq<u8>, b: Seq<u8>, i: int, j: int, ea: int, eb: int)
    requires
        0 <= i <= ea <= a.len(),
        0 <= j <= eb <= b.len(),
        ea - i == eb - j,
        forall|k: int| 0 <= k < ea - i ==> #[trigger] a[i + k] == b[j + k],
        ea == a.len() || is_ws_byte(a[ea]),
        eb == b.len() || is_ws_byte(b[eb]),
    ensures
        digits_end(a, i) - i == digits_end(b, j) - j,
        i <= digits_end(a, i) <= ea,
    decreases ea - i,
{
    if i < ea {
        assert(a[i] == b[j]) by {
            assert(a[i + 0] == b[j + 0]);
        }
        if is_digit_byte(a[i]) {
            assert forall|k: int| 0 <= k < ea - (i + 1) implies #[trigger] a[(i + 1) + k] == b[(j + 1)
                + k] by {
                assert(a[i + (k + 1)] == b[j + (k + 1)]);
            }
            lemma_digits_end_align(a, b, i + 1, j + 1, ea, eb);
        }
    }
}

/// A maximal-munch run over a whitespace-free candidate set consumes the
/// same count of bytes on two inputs that agree up to the ends of the
/// whitespace-free runs the positions lie in, and never crosses a
/// whitespace byte.
proof fn lemma_match_end_align(
    a: Seq<u8>,
    b: Seq<u8>,
    i: int,
    j: int,
    ea: int,
    eb: int,
    allowed: Seq<u8>,
)
    requires
        0 <= i <= ea <= a.len(),
        0 <= j <= eb <= b.len(),
        ea - i == eb - j,
        forall|k: int| 0 <= k < ea - i ==> #[trigger] a[i + k] == b[j + k],
        ea == a.len() || is_ws_byte(a[ea]),
        eb == b.len() || is_ws_byte(b[eb]),
        forall|x: u8| allowed.contains(x) ==> !is_ws_byte(x),
    ensures
        match_end(a, i, allowed) - i == match_end(b, j, allowed) - j,
        i <= match_end(a, i, allowed) <= ea,
    decreases ea - i,
{
    if i < ea {
        assert(a[i] == b[j]) by {
            assert(a[i + 0] == b[j + 0]);
        }
        if allowed.contains(a[i]) {
            assert forall|k: int| 0 <= k < ea - (i + 1) implies #[trigger] a[(i + 1) + k] == b[(j + 1)
                + k] by {
                assert(a[i + (k + 1)] == b[j + (k + 1)]);
            }
            lemma_match_end_align(a, b, i + 1, j + 1, ea, eb, allowed);
        }
    }
}

/// The text of two aligned runs of equal bytes is equal.
proof fn lemma_text_align(a: Seq<u8>, b: Seq<u8>, ia: int, ib: int, na: int, nb: int)
    requires
        0 <= ia <= na <= a.len(),
        0 <= ib <= nb <= b.len(),
        na - ia == nb - ib,
        forall|k: int| 0 <= k < na - ia ==> #[trigger] a[ia + k] == b[ib + k],
    ensures
        text(a, ia, na) == text(b, ib, nb),
{
    assert forall|k: int| 0 <= k < na - ia implies a.subrange(ia, na)[k] == b.subrange(ib, nb)[k] by {
        assert(a[ia + k] == b[ib + k]);
    }
    assert(a.subrange(ia, na) =~= b.subrange(ib, nb));
}

proof fn lemma_plus_set_not_ws()
    ensures
        forall|x: u8| plus_set().contains(x) ==> !is_ws_byte(x),
{
    assert forall|x: u8| plus_set().contains(x) implies !is_ws_byte(x) by {
        let i = choose|i: int| 0 <= i < plus_set().len() && plus_set()[i] == x;
        assert(i == 0 || i == 1);
    }
}

proof fn lemma_period_set_not_ws()
    ensures
        forall|x: u8| period_set().contains(x) ==> !is_ws_byte(x),
{
    assert forall|x: u8| period_set().contains(x) implies !is_ws_byte(x) by {
        let i = choose|i: int| 0 <= i < period_set().len() && period_set()[i] == x;
        assert(i == 0 || i == 1);
    }
}

proof fn lemma_colon_set_not_ws()
    ensures
        forall|x: u8| colon_set().contains(x) ==> !is_ws_byte(x),
{
    assert forall|x: u8| colon_set().contains(x) implies !is_ws_byte(x) by {
        let i = choose|i: int| 0 <= i < colon_set().len() && colon_set()[i] == x;
        assert(i == 0);
    }
}

proof fn lemma_minus_set_not_ws()
    ensures
        forall|x: u8| minus_set().contains(x) ==> !is_ws_byte(x),
{
    assert forall|x: u8| minus_set().contains(x) implies !is_ws_byte(x) by {
        let i = choose|i: int| 0 <= i < minus_set().len() && minus_set()[i] == x;
        assert(i == 0 || i == 1 || i == 2);
    }
}

/// Scanning two inputs from positions where the remaining maximal
/// whitespace-free runs agree yields the same token sequence.
proof fn lemma_tokens_align(a: Seq<u8>, pa: int, b: Seq<u8>, pb: int)
    requires
        0 <= pa <= a.len(),
        0 <= pb <= b.len(),
        chunks_from(a, pa) == chunks_from(b, pb),
    ensures
        tokens_from(a, pa) == tokens_from(b, pb),
    decreases a.len() - pa,
{
    lemma_ws_end_bounds(a, pa);
    lemma_ws_end_bounds(b, pb);
    lemma_ws_end_stops(a, pa);
    lemma_ws_end_stops(b, pb);
    let qa = ws_end(a, pa);
    let qb = ws_end(b, pb);
    if qa >= a.len() {
        assert(qb >= b.len()) by {
            if qb < b.len() {
                assert(chunks_from(b, pb).len() > 0);
            }
        }
        assert(tokens_from(a, pa) =~= seq![TokenView::Eof]);
        assert(tokens_from(b, pb) =~= seq![TokenView::Eof]);
    } else {
        assert(qb < b.len()) by {
            if qb >= b.len() {
                assert(chunks_from(a, pa).len() > 0);
                assert(chunks_from(b, pb).len() == 0);
            }
        }
        let ea = chunk_end(a, qa);
        let eb = chunk_end(b, qb);
        lemma_chunk_end_props(a, qa);
        lemma_chunk_end_props(b, qb);
        let ca = a.subrange(qa, ea);
        let cb = b.subrange(qb, eb);
        assert(ca == cb) by {
            assert(chunks_from(a, pa)[0] == ca);
            assert(chunks_from(b, pb)[0] == cb);
        }
        let len_c = ea - qa;
        assert(eb - qb == len_c) by {
            assert(ca.len() == cb.len());
        }
        assert forall|k: int| 0 <= k < len_c implies #[trigger] a[qa + k] == b[qb + k] by {
            assert(ca[k] == a[qa + k]);
            assert(cb[k] == b[qb + k]);
        }
        assert(ea > qa) by {
            assert(ea == chunk_end(a, qa + 1));
            lemma_chunk_end_bounds(a, qa + 1);
        }
        // the runs after this one also agree
        let tail_a = chunks_from(a, ea);
        let tail_b = chunks_from(b, eb);
        assert(tail_a == tail_b) by {
            assert(chunks_from(a, pa) == seq![ca] + tail_a);
            assert(chunks_from(b, pb) == seq![cb] + tail_b);
            assert((seq![ca] + tail_a).len() == 1 + tail_a.len());
            assert((seq![cb] + tail_b).len() == 1 + tail_b.len());
            assert(tail_a.len() == tail_b.len());
            assert forall|i: int| 0 <= i < tail_a.len() implies #[trigger] tail_a[i]
                == tail_b[i] by {
                assert((seq![ca] + tail_a)[i + 1] == tail_a[i]);
                assert((seq![cb] + tail_b)[i + 1] == tail_b[i]);
            }
            assert(tail_a =~= tail_b);
        }
        assert(a[qa] == b[qb]) by {
            assert(a[qa + 0] == b[qb + 0]);
        }
        let x = a[qa];
        let ta = token_at(a, qa);
        let tb = token_at(b, qb);
        if x == 0 {
            assert(tokens_from(a, pa) =~= seq![TokenView::Eof]);
            assert(tokens_from(b, pb) =~= seq![TokenView::Eof]);
        } else {
            let na = ta.1;
            let nb = tb.1;
            // each branch of the dispatch consumes the same count of
            // bytes on both sides and yields the same token
            if x == B_LBRACE || x == B_RBRACE || x == B_LPAREN || x == B_RPAREN || x == B_COMMA
                || x == B_SEMI || x == B_EQ {
                assert(ta.0 == tb.0 && na == qa + 1 && nb == qb + 1);
            } else if x == B_PLUS {
                lemma_plus_set_not_ws();
                assert(plus_set().contains(x)) by {
                    assert(plus_set()[0] == x);
                }
                assert(na == match_end(a, qa + 1, plus_set()));
                lemma_match_end_bounds(a, qa + 1, plus_set());
                lemma_match_end_align(a, b, qa, qb, ea, eb, plus_set());
                lemma_text_align(a, b, qa, qb, na, nb);
                assert(ta.0 == tb.0);
            } else if is_word_start_byte(x) {
                assert forall|k: int| 0 <= k < ea - (qa + 1) implies #[trigger] a[(qa + 1) + k]
                    == b[(qb + 1) + k] by {
                    assert(a[qa + (k + 1)] == b[qb + (k + 1)]);
                }
                lemma_word_end_align(a, b, qa + 1, qb + 1, ea, eb);
                lemma_text_align(a, b, qa, qb, na, nb);
                assert(ta.0 == tb.0);
            } else if is_digit_byte(x) {
                assert(na == digits_end(a, qa + 1));
                lemma_digits_end_bounds(a, qa + 1);
                lemma_digits_end_align(a, b, qa, qb, ea, eb);
                lemma_text_align(a, b, qa, qb, na, nb);
                assert(ta.0 == tb.0);
            } else if x == B_DOT {
                lemma_period_set_not_ws();
                assert(period_set().contains(x)) by {
                    assert(period_set()[0] == x);
                }
                assert(na == match_end(a, qa + 1, period_set()));
                lemma_match_end_bounds(a, qa + 1, period_set());
                lemma_match_end_align(a, b, qa, qb, ea, eb, period_set());
                lemma_text_align(a, b, qa, qb, na, nb);
                assert(ta.0 == tb.0);
            } else if x == B_COLON {
                lemma_colon_set_not_ws();
                assert(colon_set().contains(x)) by {
                    assert(colon_set()[0] == x);
                }
                assert(na == match_end(a, qa + 1, colon_set()));
                lemma_match_end_bounds(a, qa + 1, colon_set());
                lemma_match_end_align(a, b, qa, qb, ea, eb, colon_set());
                lemma_text_align(a, b, qa, qb, na, nb);
                assert(ta.0 == tb.0);
            } else if x == B_MINUS {
                lemma_minus_set_not_ws();
                assert(minus_set().contains(x)) by {
                    assert(minus_set()[0] == x);
                }
                assert(na == match_end(a, qa + 1, minus_set()));
                lemma_match_end_bounds(a, qa + 1, minus_set());
                lemma_match_end_align(a, b, qa, qb, ea, eb, minus_set());
                lemma_text_align(a, b, qa, qb, na, nb);
                assert(ta.0 == tb.0);
            } else {
                assert(ta.0 == tb.0 && na == qa + 1 && nb == qb + 1);
            }
            assert(qa < na <= ea);
            assert(na - qa == nb - qb);
            // the rest of the input still has the same runs
            if na < ea {
                lemma_chunk_end_absorb(a, qa, na);
                lemma_chunk_end_absorb(b, qb, nb);
                assert(a.subrange(na, ea) == b.subrange(nb, eb)) by {
                    assert forall|k: int| 0 <= k < ea - na implies #[trigger] a.subrange(na, ea)[k]
                        == b.subrange(nb, eb)[k] by {
                        assert(a[qa + ((na - qa) + k)] == b[qb + ((nb - qb) + k)]);
                    }
                    assert(a.subrange(na, ea) =~= b.subrange(nb, eb));
                }
                assert(chunks_from(a, na) == seq![a.subrange(na, ea)] + chunks_from(a, ea));
                assert(chunks_from(b, nb) == seq![b.subrange(nb, eb)] + chunks_from(b, eb));
                assert(chunks_from(a, na) == chunks_from(b, nb));
            } else {
                assert(na == ea && nb == eb);
                assert(chunks_from(a, na) == chunks_from(b, nb));
            }
            lemma_tokens_align(a, na, b, nb);
            assert(!(ta.0 is Eof));
            assert(tokens_from(a, pa) == seq![ta.0] + tokens_from(a, na));
            assert(tokens_from(b, pb) == seq![tb.0] + tokens_from(b, nb));
        }
    }
}

/// Whitespace insensitivity: two inputs with the same maximal
/// whitespace-free byte runs — inputs that differ only in the kinds and
/// lengths of the whitespace runs between their tokens — scan to the same
/// token sequence.
pub proof fn lemma_whitespace_insensitive(a: Seq<u8>, b: Seq<u8>)
    requires
        chunks(a) == chunks(b),
    ensures
        tokens(a) == tokens(b),
{
    lemma_tokens_align(a, 0, b, 0);
}

/// Once a scan yields the end-of-input token, every further scan yields
/// it again from the same position: end of input is idempotent.
pub proof fn lemma_eof_idempotent(s: Seq<u8>, pos: int)
    requires
        0 <= pos <= s.len(),
        next_token_model(s, pos).0 is Eof,
    ensures
        next_token_model(s, next_token_model(s, pos).1) == next_token_model(s, pos),
{
    lemma_ws_end_bounds(s, pos);
    let p = ws_end(s, pos);
    assert(next_token_model(s, pos).1 == p);
    assert(ws_end(s, p) == p);
}

/// Totality: from any cursor position of any byte buffer, repeated
/// scanning steps produce a finite token sequence that ends with exactly
/// one end-of-input token, after at most one token per remaining byte.
pub proof fn lemma_totality(s: Seq<u8>, pos: int)
    requires
        0 <= pos <= s.len(),
    ensures
        tokens_from(s, pos).len() >= 1,
        tokens_from(s, pos).last() is Eof,
        forall|i: int|
            0 <= i < tokens_from(s, pos).len() - 1 ==> !(#[trigger] tokens_from(s, pos)[i] is Eof),
        tokens_from(s, pos).len() <= s.len() - pos + 1,
    decreases s.len() - pos,
{
    lemma_progress(s, pos);
    let step = next_token_model(s, pos);
    if !(step.0 is Eof) {
        lemma_totality(s, step.1);
    }
}

} // verus!
