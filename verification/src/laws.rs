use vstd::prelude::*;
use vstd::seq_lib::*;
use crate::cursor::Cursor;
use crate::parser::{
    Cont, Parser, digit_result, first_non_space, result_matches, run, run_alts, run_bind,
    run_cont,
};
use crate::value::Compute;

verus! {

/// Determinism: the result of running a parser is a function of the parser
/// and the cursor alone, so any two results that [`crate::parser::apply`]
/// may return for the same parser and cursor are identical.
pub proof fn lemma_apply_deterministic<'a>(
    c: Cursor<'a>,
    p: Parser,
    r1: Option<(Compute, Cursor<'a>)>,
    r2: Option<(Compute, Cursor<'a>)>,
)
    requires
        result_matches(c, r1, run(p, c.text@, c.pos as int)),
        result_matches(c, r2, run(p, c.text@, c.pos as int)),
    ensures
        r1 == r2,
{
}

/// The left identity of `bind`: sequencing the always-succeeding,
/// nothing-consuming parser `gen_trivial(v)` with a continuation `f` behaves
/// exactly as applying `f` to `v`.
pub proof fn lemma_bind_left_identity(v: Compute, f: Cont, text: Seq<char>, pos: int)
    ensures
        run_bind(Parser::Trivial(v), f, text, pos) == run_cont(f, v, text, pos),
{
    reveal_with_fuel(run, 2);
}

/// The right identity of `bind`: sequencing a parser with the continuation
/// that returns each value unchanged behaves exactly as the parser alone.
pub proof fn lemma_bind_right_identity(p: Parser, text: Seq<char>, pos: int)
    ensures
        run_bind(p, Cont::Done, text, pos) == run(p, text, pos),
{
    reveal_with_fuel(run_cont, 2);
}

/// The associativity of `bind`: sequencing `bind(p, f)` with `g` behaves
/// exactly as sequencing `p` with the continuation that applies `f` and then
/// sequences with `g`.
pub proof fn lemma_bind_associative(
    p: Box<Parser>,
    f: Box<Cont>,
    g: Box<Cont>,
    text: Seq<char>,
    pos: int,
)
    ensures
        run_bind(Parser::Bind(p, *f), *g, text, pos) == run_bind(
            *p,
            Cont::AndThen(f, g),
            text,
            pos,
        ),
{
    reveal_with_fuel(run, 2);
    reveal_with_fuel(run_cont, 2);
}

/// What `bind` builds means exactly what [`run_bind`] says: running the
/// sequenced parser first runs the inner parser, then the continuation.
pub proof fn lemma_run_bind_unfold(inner: Box<Parser>, k: Cont, text: Seq<char>, pos: int)
    ensures
        run(Parser::Bind(inner, k), text, pos) == run_bind(*inner, k, text, pos),
{
    reveal_with_fuel(run, 2);
}

/// Left bias of ordered choice: when the first parser of the list succeeds,
/// the whole choice returns exactly that result, whatever the later parsers
/// would do.
pub proof fn lemma_alt_left_bias(ps: Seq<Parser>, text: Seq<char>, pos: int)
    requires
        ps.len() > 0,
        run(ps[0], text, pos) is Some,
    ensures
        run_alts(ps, text, pos) == run(ps[0], text, pos),
{
    reveal_with_fuel(run_alts, 2);
}

/// Exhaustion of ordered choice: when every parser of the list fails, the
/// whole choice fails.
pub proof fn lemma_alt_exhausted(ps: Seq<Parser>, text: Seq<char>, pos: int)
    requires
        forall|j: int| 0 <= j < ps.len() ==> run(#[trigger] ps[j], text, pos) is None,
    ensures
        run_alts(ps, text, pos) is None,
    decreases ps,
{
    reveal_with_fuel(run_alts, 2);
    if ps.len() > 0 {
        let tail = ps.subrange(1, ps.len() as int);
        assert forall|j: int| 0 <= j < tail.len() implies run(
            #[trigger] tail[j],
            text,
            pos,
        ) is None by {
            assert(tail[j] == ps[j + 1]);
        }
        lemma_alt_exhausted(tail, text, pos);
    }
}

/// The first non-space position never lies before `pos` nor past the end.
pub proof fn lemma_first_non_space_bounds(text: Seq<char>, pos: int)
    requires
        0 <= pos <= text.len(),
    ensures
        pos <= first_non_space(text, pos) <= text.len(),
    decreases text.len() - pos,
{
    if pos < text.len() && text[pos] == ' ' {
        lemma_first_non_space_bounds(text, pos + 1);
    }
}

/// Monotonic consumption: a successful run never rewinds past its starting
/// point and never runs past the end of the text.
pub proof fn lemma_run_consumption(p: Parser, text: Seq<char>, pos: int)
    requires
        0 <= pos <= text.len(),
    ensures
        run(p, text, pos) matches Some(r) ==> pos <= r.1 <= text.len(),
    decreases p,
{
    match p {
        Parser::Digit => {}
        Parser::Spaces => {
            lemma_first_non_space_bounds(text, pos);
        }
        Parser::Literal(_) => {}
        Parser::Trivial(_) => {}
        Parser::Bind(inner, k) => {
            lemma_run_consumption(*inner, text, pos);
            if let Some((v, mid)) = run(*inner, text, pos) {
                lemma_cont_consumption(k, v, text, mid);
            }
        }
        Parser::Alt(ps) => {
            lemma_alts_consumption(ps@, text, pos);
        }
    }
}

/// Monotonic consumption for applying a continuation.
pub proof fn lemma_cont_consumption(k: Cont, v: Compute, text: Seq<char>, pos: int)
    requires
        0 <= pos <= text.len(),
    ensures
        run_cont(k, v, text, pos) matches Some(r) ==> pos <= r.1 <= text.len(),
    decreases k,
{
    match k {
        Cont::Done => {}
        Cont::To(p) => {
            lemma_run_consumption(*p, text, pos);
        }
        Cont::AndThen(f, g) => {
            lemma_cont_consumption(*f, v, text, pos);
            if let Some((v1, p1)) = run_cont(*f, v, text, pos) {
                lemma_cont_consumption(*g, v1, text, p1);
            }
        }
        Cont::ThenPair(q) => {
            lemma_run_consumption(*q, text, pos);
        }
        Cont::PairWith(_) => {}
    }
}

/// Monotonic consumption for ordered choice over a list of parsers.
pub proof fn lemma_alts_consumption(ps: Seq<Parser>, text: Seq<char>, pos: int)
    requires
        0 <= pos <= text.len(),
    ensures
        run_alts(ps, text, pos) matches Some(r) ==> pos <= r.1 <= text.len(),
    decreases ps,
{
    if ps.len() > 0 {
        lemma_run_consumption(ps[0], text, pos);
        if run(ps[0], text, pos) is None {
            lemma_alts_consumption(ps.subrange(1, ps.len() as int), text, pos);
        }
    }
}

/// Monotonic consumption, stated over the remainders: on success the new
/// remainder is a suffix of the old one, so a parser can neither fabricate
/// characters nor rewind past its starting point.
pub proof fn lemma_monotonic_consumption(p: Parser, text: Seq<char>, pos: int)
    requires
        0 <= pos <= text.len(),
    ensures
        run(p, text, pos) matches Some(r) ==> pos <= r.1 <= text.len() && text.subrange(
            r.1,
            text.len() as int,
        ).is_suffix_of(text.subrange(pos, text.len() as int)),
{
    lemma_run_consumption(p, text, pos);
    if let Some((v, p2)) = run(p, text, pos) {
        let whole = text.subrange(pos, text.len() as int);
        let tail = text.subrange(p2, text.len() as int);
        assert(tail =~= whole.subrange(whole.len() - tail.len(), whole.len() as int));
    }
}

/// The digit primitive consumes exactly one character on success, and its
/// value is the one-span of that character.
pub proof fn lemma_digit_consumes_one(text: Seq<char>, pos: int)
    ensures
        digit_result(text, pos) matches Some(r) ==> r.1 == pos + 1 && r.0 == Compute::One(
            crate::cursor::Span { start: pos as usize, end: (pos + 1) as usize },
        ),
{
}

} // verus!
