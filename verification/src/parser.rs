use vstd::prelude::*;
use vstd::string::StrSliceExecFns;
use crate::cursor::{Cursor, Span};
use crate::value::{Compute, pair, spec_pair};

verus! {

/// A parser, built ahead of time as a value and run with [`apply`].
///
/// Each variant denotes a pure, stateless function from a cursor to an
/// optional pair of a match value and a new cursor; [`run`] gives that
/// function, so re-running any parser on the same cursor yields the same
/// result.
#[derive(Debug)]
pub enum Parser {
    /// Match one ASCII decimal digit; the value is the one-span of that
    /// character.  Fails on empty input or a non-digit head.
    Digit,
    /// Count the run of leading space characters up to the first non-space;
    /// the value is that count.  Fails when the spaces reach the end of the
    /// input, the empty input included.
    Spaces,
    /// Match exactly the given character: succeed, with the one-span of the
    /// head, only when the head equals it.
    Literal(char),
    /// Always succeed with the given value, consuming nothing.
    Trivial(Compute),
    /// Sequencing: run the inner parser, and on success hand its value to the
    /// continuation, whose parser then runs on the tail.
    Bind(Box<Parser>, Cont),
    /// Ordered choice: try each parser on the same cursor; first success wins.
    Alt(Vec<Parser>),
}

/// A pure, total continuation from a match value to the next parser: the
/// second argument of [`bind`], written as data so that the parser it builds
/// for each value stays visible to the verifier.  [`run_cont`] gives the
/// meaning of applying a continuation, and [`cont_to_parser`] builds the
/// parser a continuation chooses for a concrete value.
#[derive(Debug)]
pub enum Cont {
    /// `v -> gen_trivial(v)`: finish, returning the value unchanged.
    Done,
    /// `v -> p`: continue with a fixed parser, ignoring the value.
    To(Box<Parser>),
    /// `v -> bind(f(v), g)`: apply `f`, then continue with `g`.
    AndThen(Box<Cont>, Box<Cont>),
    /// `v -> bind(q, PairWith(v))`: run one more parser and join the two
    /// values as [`spec_pair`] describes.
    ThenPair(Box<Parser>),
    /// `w -> gen_trivial(spec_pair(v, w))`: join with an earlier value.
    PairWith(Compute),
}

/// An ASCII decimal digit.
pub open spec fn is_digit_char(c: char) -> bool {
    '0' <= c && c <= '9'
}

/// What the digit primitive returns on text `text` at position `pos`.
pub open spec fn digit_result(text: Seq<char>, pos: int) -> Option<(Compute, int)> {
    if 0 <= pos < text.len() && is_digit_char(text[pos]) {
        Some((Compute::One(Span { start: pos as usize, end: (pos + 1) as usize }), pos + 1))
    } else {
        None
    }
}

/// The first position at or after `pos` holding a non-space character, or
/// `text.len()` when spaces (or nothing) reach the end of the text.
pub open spec fn first_non_space(text: Seq<char>, pos: int) -> int
    decreases text.len() - pos,
{
    if pos < 0 || pos >= text.len() {
        text.len() as int
    } else if text[pos] != ' ' {
        pos
    } else {
        first_non_space(text, pos + 1)
    }
}

/// What the spaces primitive returns: the count of leading spaces and the
/// position of the first non-space, or failure when the whole remainder is
/// spaces.
pub open spec fn spaces_result(text: Seq<char>, pos: int) -> Option<(Compute, int)> {
    let i = first_non_space(text, pos);
    if i < text.len() {
        Some((Compute::Number((i - pos) as usize), i))
    } else {
        None
    }
}

/// What the literal-character primitive returns: this library chooses the
/// strict-match semantics, failing on a mismatched head rather than consuming
/// it unconditionally.
pub open spec fn literal_result(x: char, text: Seq<char>, pos: int) -> Option<(Compute, int)> {
    if 0 <= pos < text.len() && text[pos] == x {
        Some((Compute::One(Span { start: pos as usize, end: (pos + 1) as usize }), pos + 1))
    } else {
        None
    }
}

/// The meaning of a parser: the pure function from a position in `text` to
/// an optional pair of a match value and a new position.
pub open spec fn run(p: Parser, text: Seq<char>, pos: int) -> Option<(Compute, int)>
    decreases p,
{
    match p {
        Parser::Digit => digit_result(text, pos),
        Parser::Spaces => spaces_result(text, pos),
        Parser::Literal(x) => literal_result(x, text, pos),
        Parser::Trivial(v) => Some((v, pos)),
        Parser::Bind(inner, k) => match run(*inner, text, pos) {
            Some((v, mid)) => run_cont(k, v, text, mid),
            None => None,
        },
        Parser::Alt(ps) => run_alts(ps@, text, pos),
    }
}

/// The meaning of applying a continuation to a value: the parser the
/// continuation chooses for `v`, run on `text` at `pos`.
pub open spec fn run_cont(k: Cont, v: Compute, text: Seq<char>, pos: int) -> Option<(Compute, int)>
    decreases k,
{
    match k {
        Cont::Done => Some((v, pos)),
        Cont::To(p) => run(*p, text, pos),
        Cont::AndThen(f, g) => match run_cont(*f, v, text, pos) {
            Some((v1, p1)) => run_cont(*g, v1, text, p1),
            None => None,
        },
        Cont::ThenPair(q) => match run(*q, text, pos) {
            Some((w, p1)) => Some((spec_pair(v, w), p1)),
            None => None,
        },
        Cont::PairWith(v0) => Some((spec_pair(v0, v), pos)),
    }
}

/// The meaning of ordered choice over a list of parsers: the result of the
/// first parser in `ps` that succeeds on `text` at `pos`, or failure when
/// every parser fails.
pub open spec fn run_alts(ps: Seq<Parser>, text: Seq<char>, pos: int) -> Option<(Compute, int)>
    decreases ps,
{
    if ps.len() == 0 {
        None
    } else {
        match run(ps[0], text, pos) {
            Some(r) => Some(r),
            None => run_alts(ps.subrange(1, ps.len() as int), text, pos),
        }
    }
}

/// The meaning of sequencing `p` with `k`: what `bind(p, k)` does on `text`
/// at `pos`.
pub open spec fn run_bind(p: Parser, k: Cont, text: Seq<char>, pos: int) -> Option<(Compute, int)> {
    match run(p, text, pos) {
        Some((v, mid)) => run_cont(k, v, text, mid),
        None => None,
    }
}

/// The exec result `r` returns what the spec result `s` says: failure for
/// failure, and for success the same value and a new cursor over the same
/// text as `c` standing at the position `s` gives.
pub open spec fn result_matches<'a>(
    c: Cursor<'a>,
    r: Option<(Compute, Cursor<'a>)>,
    s: Option<(Compute, int)>,
) -> bool {
    match s {
        Some((v, p)) => r matches Some(vc) && vc.0 == v && vc.1.text == c.text && vc.1.pos as int
            == p,
        None => r is None,
    }
}

/// Match one ASCII decimal digit at the head of the cursor: the value is the
/// one-span of that character, and the new cursor starts right after it.
/// Fails on empty input or a non-digit head.
pub fn parse_digit<'a>(c: Cursor<'a>) -> (r: Option<(Compute, Cursor<'a>)>)
    requires
        c.wf(),
    ensures
        result_matches(c, r, digit_result(c.text@, c.pos as int)),
        r matches Some(vc) ==> vc.1.wf() && vc.1.is_suffix_of(c),
{
    if c.pos < c.text.unicode_len() {
        let ch = c.text.get_char(c.pos);
        if '0' <= ch && ch <= '9' {
            Some(
                (
                    Compute::One(Span { start: c.pos, end: c.pos + 1 }),
                    Cursor { text: c.text, pos: c.pos + 1 },
                ),
            )
        } else {
            None
        }
    } else {
        None
    }
}

/// Scan the run of leading spaces: on success the value is the count of
/// spaces before the first non-space, and the new cursor starts at that
/// non-space.  When the spaces reach the end of the text (the empty input
/// included) this primitive fails rather than succeeding with the full
/// count: that edge is a deliberate choice, kept from the behaviour this
/// library standardises.
pub fn parse_spaces<'a>(c: Cursor<'a>) -> (r: Option<(Compute, Cursor<'a>)>)
    requires
        c.wf(),
    ensures
        result_matches(c, r, spaces_result(c.text@, c.pos as int)),
        r matches Some(vc) ==> vc.1.wf() && vc.1.is_suffix_of(c),
{
    let n = c.text.unicode_len();
    let mut i: usize = c.pos;
    while i < n
        invariant
            c.wf(),
            n == c.text@.len(),
            c.pos <= i <= n,
            first_non_space(c.text@, c.pos as int) == first_non_space(c.text@, i as int),
        decreases n - i,
    {
        let ch = c.text.get_char(i);
        if ch != ' ' {
            return Some(
                (Compute::Number(i - c.pos), Cursor { text: c.text, pos: i }),
            );
        }
        i += 1;
    }
    None
}

/// Match exactly the character `x` at the head of the cursor: the strict
/// semantics, which fails on a mismatched head instead of consuming it.
pub fn parse_literal<'a>(x: char, c: Cursor<'a>) -> (r: Option<(Compute, Cursor<'a>)>)
    requires
        c.wf(),
    ensures
        result_matches(c, r, literal_result(x, c.text@, c.pos as int)),
        r matches Some(vc) ==> vc.1.wf() && vc.1.is_suffix_of(c),
{
    if c.pos < c.text.unicode_len() {
        let ch = c.text.get_char(c.pos);
        if ch == x {
            Some(
                (
                    Compute::One(Span { start: c.pos, end: c.pos + 1 }),
                    Cursor { text: c.text, pos: c.pos + 1 },
                ),
            )
        } else {
            None
        }
    } else {
        None
    }
}

/// The parser that always succeeds with the value `x`, consuming nothing.
pub fn gen_trivial(x: Compute) -> (p: Parser)
    ensures
        p == Parser::Trivial(x),
        forall|text: Seq<char>, pos: int| run(p, text, pos) == Some((x, pos)),
{
    Parser::Trivial(x)
}

/// The strict single-character matcher for `x`, as a parser value.
pub fn gen_parse_char(x: char) -> (p: Parser)
    ensures
        p == Parser::Literal(x),
        forall|text: Seq<char>, pos: int| run(p, text, pos) == literal_result(x, text, pos),
{
    Parser::Literal(x)
}

/// Sequencing: the parser that runs `parse`, and on success hands its value
/// to the continuation `gen`, whose parser then runs on the tail.  Failure of
/// `parse` propagates without consulting `gen`.
pub fn bind(parse: Parser, gen: Cont) -> (p: Parser)
    ensures
        p matches Parser::Bind(inner, k) && *inner == parse && k == gen,
        forall|text: Seq<char>, pos: int|
            run(p, text, pos) == run_bind(parse, gen, text, pos),
{
    Parser::Bind(Box::new(parse), gen)
}

/// Ordered choice: the parser that tries each of `parsers` in order on the
/// same cursor and returns the first success, failing only when every one of
/// them fails.
pub fn alt(parsers: Vec<Parser>) -> (p: Parser)
    ensures
        p == Parser::Alt(parsers),
        forall|text: Seq<char>, pos: int|
            run(p, text, pos) == run_alts(parsers@, text, pos),
{
    Parser::Alt(parsers)
}

/// Apply a continuation to a value, building the parser it chooses for that
/// value: the second parser that [`bind`] runs after a success.
pub fn cont_to_parser(k: Cont, v: Compute) -> (p: Parser)
    ensures
        forall|text: Seq<char>, pos: int| run(p, text, pos) == run_cont(k, v, text, pos),
    decreases k,
{
    proof {
        reveal_with_fuel(run, 2);
        reveal_with_fuel(run_cont, 2);
    }
    let ghost kspec = k;
    match k {
        Cont::Done => Parser::Trivial(v),
        Cont::To(p) => *p,
        Cont::AndThen(f, g) => {
            let ghost fspec = *f;
            let fp = cont_to_parser(*f, v);
            let ghost fpspec = fp;
            let p = Parser::Bind(Box::new(fp), *g);
            proof {
                assert forall|text: Seq<char>, pos: int|
                    run(p, text, pos) == run_cont(kspec, v, text, pos) by {
                    reveal_with_fuel(run, 2);
                    reveal_with_fuel(run_cont, 2);
                    assert(run(fpspec, text, pos) == run_cont(fspec, v, text, pos));
                }
            }
            p
        }
        Cont::ThenPair(q) => Parser::Bind(q, Cont::PairWith(v)),
        Cont::PairWith(v0) => Parser::Trivial(pair(v0, v)),
    }
}

/// The numeric value of an ASCII decimal digit character.
pub open spec fn digit_char_value(ch: char) -> int {
    ch as int - '0' as int
}

/// What combining a two-digit match into one integer yields: for a `Two`
/// value whose spans each cover exactly one ASCII digit of `text`, the number
/// `10 * first + second`; for every other value, nothing.
pub open spec fn spec_two_digit_number(text: Seq<char>, v: Compute) -> Option<u8> {
    match v {
        Compute::Two(s1, s2) => if s1.end <= text.len() && s2.end <= text.len() && s1.spec_len()
            == 1 && s2.spec_len() == 1 && is_digit_char(text[s1.start as int]) && is_digit_char(
            text[s2.start as int],
        ) {
            Some(
                (10 * digit_char_value(text[s1.start as int]) + digit_char_value(
                    text[s2.start as int],
                )) as u8,
            )
        } else {
            None
        },
        _ => None,
    }
}

/// Combine a two-digit match into one integer, only when both sub-parses
/// matched single ASCII digits of the cursor's text: the sequel of
/// "parse two digits, then join them into one number".
pub fn two_digit_number<'a>(c: &Cursor<'a>, v: Compute) -> (r: Option<u8>)
    requires
        c.wf(),
    ensures
        r == spec_two_digit_number(c.text@, v),
{
    match v {
        Compute::Two(s1, s2) => {
            let n = c.text.unicode_len();
            if s1.end <= n && s2.end <= n && s1.start < s1.end && s1.end - s1.start == 1
                && s2.start < s2.end && s2.end - s2.start == 1 {
                let c1 = c.text.get_char(s1.start);
                let c2 = c.text.get_char(s2.start);
                if '0' <= c1 && c1 <= '9' && '0' <= c2 && c2 <= '9' {
                    let d1 = (c1 as u32 - 48) as u8;
                    let d2 = (c2 as u32 - 48) as u8;
                    Some(10 * d1 + d2)
                } else {
                    None
                }
            } else {
                None
            }
        }
        _ => None,
    }
}

/// Run a parser on a cursor.
///
/// The result equals the spec function [`run`] on the cursor's text and
/// position, so parsing is deterministic: re-invoking any parser on the same
/// cursor yields the identical result.  On success the new cursor is a
/// suffix of the input cursor.
pub fn apply<'a>(p: &Parser, c: Cursor<'a>) -> (r: Option<(Compute, Cursor<'a>)>)
    requires
        c.wf(),
    ensures
        result_matches(c, r, run(*p, c.text@, c.pos as int)),
        r matches Some(vc) ==> vc.1.wf() && vc.1.is_suffix_of(c),
    decreases *p,
{
    let ghost text = c.text@;
    let ghost pos = c.pos as int;
    match p {
        Parser::Digit => {
            proof {
                reveal_with_fuel(run, 2);
                assert(run(*p, text, pos) == digit_result(text, pos));
            }
            parse_digit(c)
        }
        Parser::Spaces => {
            proof {
                reveal_with_fuel(run, 2);
                assert(run(*p, text, pos) == spaces_result(text, pos));
            }
            parse_spaces(c)
        }
        Parser::Literal(x) => {
            proof {
                reveal_with_fuel(run, 2);
                assert(run(*p, text, pos) == literal_result(*x, text, pos));
            }
            parse_literal(*x, c)
        }
        Parser::Trivial(v) => {
            proof {
                reveal_with_fuel(run, 2);
                assert(run(*p, text, pos) == Some((*v, pos)));
            }
            Some((*v, c))
        }
        Parser::Bind(inner, k) => {
            let r1 = apply(inner, c);
            match r1 {
                Some((v, c1)) => {
                    let r = apply_cont(k, v, c1);
                    proof {
                        reveal_with_fuel(run, 2);
                        assert(run(*p, text, pos) == run_cont(*k, v, text, c1.pos as int));
                    }
                    r
                }
                None => {
                    proof {
                        reveal_with_fuel(run, 2);
                        assert(run(*p, text, pos) is None);
                    }
                    None
                }
            }
        }
        Parser::Alt(ps) => {
            proof {
                assert(ps@.subrange(0, ps@.len() as int) =~= ps@);
            }
            let mut i: usize = 0;
            while i < ps.len()
                invariant
                    c.wf(),
                    i <= ps.len(),
                    run_alts(ps@, text, pos) == run_alts(
                        ps@.subrange(i as int, ps@.len() as int),
                        text,
                        pos,
                    ),
                    text == c.text@,
                    pos == c.pos as int,
                    *p == Parser::Alt(*ps),
                decreases ps.len() - i,
            {
                proof {
                    assert(decreases_to!(*p => ps@[i as int]));
                }
                let r = apply(&ps[i], c);
                proof {
                    reveal_with_fuel(run, 2);
                    reveal_with_fuel(run_alts, 2);
                    assert(ps@.subrange(i as int, ps@.len() as int)[0] == ps@[i as int]);
                }
                if r.is_some() {
                    proof {
                        reveal_with_fuel(run, 2);
                        reveal_with_fuel(run_alts, 2);
                        assert(run_alts(ps@.subrange(i as int, ps@.len() as int), text, pos)
                            == run(ps@[i as int], text, pos));
                        assert(run(*p, text, pos) == run_alts(ps@, text, pos));
                    }
                    return r;
                }
                proof {
                    reveal_with_fuel(run_alts, 2);
                    assert(ps@.subrange(i as int, ps@.len() as int).subrange(
                        1,
                        ps@.subrange(i as int, ps@.len() as int).len() as int,
                    ) =~= ps@.subrange(i + 1, ps@.len() as int));
                    assert(run_alts(ps@.subrange(i as int, ps@.len() as int), text, pos)
                        == run_alts(ps@.subrange(i + 1, ps@.len() as int), text, pos));
                }
                i += 1;
            }
            proof {
                reveal_with_fuel(run, 2);
                reveal_with_fuel(run_alts, 2);
                assert(ps@.subrange(i as int, ps@.len() as int).len() == 0);
                assert(run(*p, text, pos) is None);
            }
            None
        }
    }
}

/// Run the continuation `k` on the value `v` and the cursor `c`: what the
/// parser that `k` chooses for `v` does on `c`.
pub fn apply_cont<'a>(k: &Cont, v: Compute, c: Cursor<'a>) -> (r: Option<(Compute, Cursor<'a>)>)
    requires
        c.wf(),
    ensures
        result_matches(c, r, run_cont(*k, v, c.text@, c.pos as int)),
        r matches Some(vc) ==> vc.1.wf() && vc.1.is_suffix_of(c),
    decreases *k,
{
    let ghost text = c.text@;
    let ghost pos = c.pos as int;
    match k {
        Cont::Done => {
            proof {
                reveal_with_fuel(run_cont, 2);
                assert(run_cont(*k, v, text, pos) == Some((v, pos)));
            }
            Some((v, c))
        }
        Cont::To(p) => {
            proof {
                reveal_with_fuel(run_cont, 2);
                assert(run_cont(*k, v, text, pos) == run(**p, text, pos));
            }
            apply(&**p, c)
        }
        Cont::AndThen(f, g) => {
            let r1 = apply_cont(&**f, v, c);
            match r1 {
                Some((v1, c1)) => {
                    let r = apply_cont(&**g, v1, c1);
                    proof {
                        reveal_with_fuel(run_cont, 2);
                        assert(run_cont(*k, v, text, pos) == run_cont(
                            **g,
                            v1,
                            text,
                            c1.pos as int,
                        ));
                    }
                    r
                }
                None => {
                    proof {
                        reveal_with_fuel(run_cont, 2);
                        assert(run_cont(*k, v, text, pos) is None);
                    }
                    None
                }
            }
        }
        Cont::ThenPair(q) => {
            let r1 = apply(&**q, c);
            match r1 {
                Some((w, c1)) => {
                    proof {
                        reveal_with_fuel(run_cont, 2);
                        assert(run_cont(*k, v, text, pos) == Some(
                            (spec_pair(v, w), c1.pos as int),
                        ));
                    }
                    Some((pair(v, w), c1))
                }
                None => {
                    proof {
                        reveal_with_fuel(run_cont, 2);
                        assert(run_cont(*k, v, text, pos) is None);
                    }
                    None
                }
            }
        }
        Cont::PairWith(v0) => {
            proof {
                reveal_with_fuel(run_cont, 2);
                assert(run_cont(*k, v, text, pos) == Some((spec_pair(*v0, v), pos)));
            }
            Some((pair(*v0, v), c))
        }
    }
}

} // verus!
