//! Tokenizing source text.
//!
//! Only the lexical step lives here: each line is cut into tokens, where
//! `(` and `)` are tokens of their own and any other maximal run of
//! non-blank characters is one token.  Blanks are the ASCII whitespace
//! characters.  Building the expression tree out of the tokens is left to
//! the caller.

use vstd::prelude::*;

verus! {

broadcast use vstd::seq::group_seq_axioms;

/// A blank: ASCII whitespace.
pub open spec fn is_blank(c: char) -> bool {
    c == ' ' || c == '\t' || c == '\r' || c == '\n'
}

/// A parenthesis: a one-character token.
pub open spec fn is_paren(c: char) -> bool {
    c == '(' || c == ')'
}

/// A character that ends a run token.
pub open spec fn ends_run(c: char) -> bool {
    is_blank(c) || is_paren(c)
}

/// The position right after the run of plain characters that starts at
/// `i`: the first position at or after `i` holding a blank or a
/// parenthesis, or the end of the line.
pub open spec fn run_end(s: Seq<char>, i: int) -> int
    decreases s.len() - i,
{
    if !(0 <= i < s.len()) {
        i
    } else if ends_run(s[i]) {
        i
    } else {
        run_end(s, i + 1)
    }
}

pub proof fn lemma_run_end(s: Seq<char>, i: int)
    requires
        0 <= i <= s.len(),
    ensures
        i <= run_end(s, i) <= s.len(),
        i < s.len() && !ends_run(s[i]) ==> run_end(s, i) > i,
    decreases s.len() - i,
{
    if i < s.len() && !ends_run(s[i]) {
        lemma_run_end(s, i + 1);
    }
}

/// The tokens of the line `s` from position `i` on: blanks are skipped,
/// a parenthesis is a token by itself, and any other maximal run of
/// characters is one token.
pub open spec fn line_tokens_from(s: Seq<char>, i: int) -> Seq<Seq<char>>
    decreases s.len() - i,
    via line_tokens_from_dec
{
    if !(0 <= i < s.len()) {
        Seq::empty()
    } else if is_blank(s[i]) {
        line_tokens_from(s, i + 1)
    } else if is_paren(s[i]) {
        seq![seq![s[i]]] + line_tokens_from(s, i + 1)
    } else {
        let j = run_end(s, i + 1);
        seq![s.subrange(i, j)] + line_tokens_from(s, j)
    }
}

#[via_fn]
proof fn line_tokens_from_dec(s: Seq<char>, i: int) {
    if 0 <= i < s.len() && !is_blank(s[i]) && !is_paren(s[i]) {
        lemma_run_end(s, i + 1);
    }
}

/// The tokens of a sequence of lines, in order.
pub open spec fn tokens_of(lines: Seq<Seq<char>>) -> Seq<Seq<char>>
    decreases lines.len(),
{
    if lines.len() == 0 {
        Seq::empty()
    } else {
        line_tokens_from(lines[0], 0) + tokens_of(lines.drop_first())
    }
}

/// The views of a list of strings.
pub open spec fn strings_view(v: Seq<String>) -> Seq<Seq<char>> {
    v.map_values(|x: String| x@)
}

/// Appending one line appends its tokens.
proof fn lemma_tokens_of_push(lines: Seq<Seq<char>>, x: Seq<char>)
    ensures
        tokens_of(lines + seq![x]) == tokens_of(lines) + line_tokens_from(x, 0),
    decreases lines.len(),
{
    if lines.len() == 0 {
        assert(lines + seq![x] =~= seq![x]);
        assert((lines + seq![x]).drop_first() =~= Seq::<Seq<char>>::empty());
        assert(tokens_of(lines) + line_tokens_from(x, 0) =~= line_tokens_from(x, 0));
        assert(tokens_of(seq![x]) =~= line_tokens_from(x, 0) + tokens_of(Seq::empty()));
        assert(tokens_of(seq![x]) =~= line_tokens_from(x, 0));
    } else {
        lemma_tokens_of_push(lines.drop_first(), x);
        assert((lines + seq![x]).drop_first() =~= lines.drop_first() + seq![x]);
        assert((lines + seq![x])[0] == lines[0]);
        assert(tokens_of(lines + seq![x]) == line_tokens_from(lines[0], 0) + tokens_of(
            lines.drop_first() + seq![x],
        ));
        assert(tokens_of(lines + seq![x]) =~= tokens_of(lines) + line_tokens_from(x, 0));
    }
}

/// Whether the character ends a run token.
fn ends_run_exec(c: char) -> (r: bool)
    ensures
        r == ends_run(c),
{
    c == ' ' || c == '\t' || c == '\r' || c == '\n' || c == '(' || c == ')'
}

/// Cuts the given program lines into tokens: `(` and `)` become tokens of
/// their own, any other maximal run of non-blank characters is one token,
/// and blanks only separate.  The lines themselves are left unchanged.
pub fn tokenize(p: &mut Vec<String>) -> (tokens: Vec<String>)
    ensures
        strings_view(tokens@) == tokens_of(strings_view(old(p)@)),
        final(p)@ == old(p)@,
{
    let ghost lines = strings_view(p@);
    let mut tokens: Vec<String> = Vec::new();
    let mut li: usize = 0;
    while li < p.len()
        invariant
            li <= p@.len(),
            p@ == old(p)@,
            lines == strings_view(p@),
            strings_view(tokens@) =~= tokens_of(lines.subrange(0, li as int)),
        decreases p@.len() - li,
    {
        let line: &String = &p[li];
        let s: &str = line.as_str();
        let n: usize = s.unicode_len();
        let ghost sv = s@;
        proof {
            assert(sv == lines[li as int]);
        }
        let ghost done = tokens_of(lines.subrange(0, li as int));
        let mut i: usize = 0;
        while i < n
            invariant
                i <= n,
                n == sv.len(),
                sv == s@,
                strings_view(tokens@) + line_tokens_from(sv, i as int) =~= done
                    + line_tokens_from(sv, 0),
            decreases n - i,
        {
            let c = s.get_char(i);
            if c == ' ' || c == '\t' || c == '\r' || c == '\n' {
                i = i + 1;
            } else if c == '(' || c == ')' {
                let tok = s.substring_char(i, i + 1).to_owned();
                proof {
                    assert(tok@ =~= seq![sv[i as int]]);
                    assert(strings_view(tokens@.push(tok)) =~= strings_view(tokens@) + seq![
                        tok@,
                    ]);
                }
                tokens.push(tok);
                i = i + 1;
            } else {
                let mut j: usize = i + 1;
                while j < n
                    invariant
                        i < j <= n,
                        n == sv.len(),
                        sv == s@,
                        run_end(sv, i + 1) == run_end(sv, j as int),
                    ensures
                        i < j <= n,
                        run_end(sv, i + 1) == j as int,
                    decreases n - j,
                {
                    let cj = s.get_char(j);
                    if ends_run_exec(cj) {
                        break ;
                    }
                    j = j + 1;
                }
                let tok = s.substring_char(i, j).to_owned();
                proof {
                    assert(tok@ =~= sv.subrange(i as int, j as int));
                    assert(strings_view(tokens@.push(tok)) =~= strings_view(tokens@) + seq![
                        tok@,
                    ]);
                }
                tokens.push(tok);
                i = j;
            }
        }
        proof {
            assert(line_tokens_from(sv, i as int) =~= Seq::<Seq<char>>::empty());
            assert(strings_view(tokens@) =~= done + line_tokens_from(sv, 0));
            assert(lines.subrange(0, li as int + 1) =~= lines.subrange(0, li as int) + seq![
                lines[li as int],
            ]);
            lemma_tokens_of_push(lines.subrange(0, li as int), lines[li as int]);
        }
        li = li + 1;
    }
    proof {
        assert(lines.subrange(0, lines.len() as int) =~= lines);
    }
    tokens
}

} // verus!
