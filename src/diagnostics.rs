//! From error nodes to diagnostics: byte offsets become zero-based lines and columns.
use crate::analyzer::message_of;
use crate::syntax::{Program, Span};
use vstd::prelude::*;
use vstd::string::StringSliceAdditionalSpecFns;
use vstd::utf8::{decode_utf8, is_char_boundary};

verus! {

/// Line and column reached after the characters `cs`, from `line` and `col`: `\r\n` and
/// `\n` each end a line; any other character, a lone `\r` included, is one column.
pub open spec fn line_col_after(cs: Seq<char>, line: nat, col: nat) -> (nat, nat)
    decreases cs.len(),
{
    if cs.len() == 0 {
        (line, col)
    } else if cs.len() >= 2 && cs[0] == '\r' && cs[1] == '\n' {
        line_col_after(cs.subrange(2, cs.len() as int), line + 1, 1)
    } else if cs[0] == '\n' {
        line_col_after(cs.drop_first(), line + 1, 1)
    } else {
        line_col_after(cs.drop_first(), line, col + 1)
    }
}

/// The one-based line and column of byte offset `pos` in `text`, counted over the
/// characters before it.
pub open spec fn line_col_of(text: &str, pos: int) -> (nat, nat) {
    line_col_after(decode_utf8(text.spec_bytes().subrange(0, pos)), 1, 1)
}

/// Whether `pos` is an offset that can be mapped: within the text, on a character boundary.
pub open spec fn mappable(text: &str, pos: int) -> bool {
    0 <= pos <= text.spec_bytes().len() && is_char_boundary(text.spec_bytes(), pos)
}

/// Relies on pest's `Position::new`, which accepts an offset within the text on a
/// character boundary, and `Position::line_col`, which counts one-based lines and
/// columns over the characters before the offset as `line_col_after` does.
#[verifier::external_body]
fn pest_line_col(text: &str, pos: usize) -> (r: Option<(usize, usize)>)
    ensures
        r is Some <==> mappable(text, pos as int),
        r matches Some((l, c)) ==> (l as nat, c as nat) == line_col_of(text, pos as int),
{
    match pest::Position::new(text, pos) {
        Some(p) => Some(p.line_col()),
        None => None,
    }
}

/// A zero-based line and column.
#[derive(Clone, Copy, Debug, PartialEq, Eq, Structural)]
pub struct Position {
    pub line: usize,
    pub character: usize,
}

/// The zero-based position of byte offset `pos` in `content`, when it can be mapped.
pub fn to_position(content: &str, pos: usize) -> (r: Option<Position>)
    ensures
        r is Some <==> mappable(content, pos as int),
        r matches Some(p) ==> p.line + 1 == line_col_of(content, pos as int).0 && p.character + 1
            == line_col_of(content, pos as int).1,
{
    match pest_line_col(content, pos) {
        Some((l, c)) => {
            if l == 0 || c == 0 {
                proof {
                    lemma_line_col_positive(decode_utf8(content.spec_bytes().subrange(0, pos as int)), 1, 1);
                }
                None
            } else {
                Some(Position { line: l - 1, character: c - 1 })
            }
        },
        None => None,
    }
}

proof fn lemma_line_col_positive(cs: Seq<char>, line: nat, col: nat)
    requires
        line >= 1,
        col >= 1,
    ensures
        line_col_after(cs, line, col).0 >= 1,
        line_col_after(cs, line, col).1 >= 1,
    decreases cs.len(),
{
    if cs.len() == 0 {
    } else if cs.len() >= 2 && cs[0] == '\r' && cs[1] == '\n' {
        lemma_line_col_positive(cs.subrange(2, cs.len() as int), line + 1, 1);
    } else if cs[0] == '\n' {
        lemma_line_col_positive(cs.drop_first(), line + 1, 1);
    } else {
        lemma_line_col_positive(cs.drop_first(), line, col + 1);
    }
}

/// A diagnostic of error severity: the range of its error node, when both ends can be
/// mapped, and its message.
pub struct Diagnostic {
    pub range: Option<(Position, Position)>,
    pub message: String,
}

/// `p` is the zero-based position of offset `pos`.
pub open spec fn at_position(content: &str, pos: int, p: Position) -> bool {
    p.line + 1 == line_col_of(content, pos).0 && p.character + 1 == line_col_of(content, pos).1
}

/// `r` is the range of `sp`: present exactly when both ends can be mapped.
pub open spec fn range_of(content: &str, sp: Span, r: Option<(Position, Position)>) -> bool {
    &&& (r is Some <==> mappable(content, sp.start as int) && mappable(content, sp.end as int))
    &&& (r matches Some((a, b)) ==> at_position(content, sp.start as int, a) && at_position(
        content,
        sp.end as int,
        b,
    ))
}

/// The range that a diagnostic for `sp` covers.
pub fn span_range(content: &str, sp: Span) -> (r: Option<(Position, Position)>)
    ensures
        range_of(content, sp, r),
{
    match (to_position(content, sp.start), to_position(content, sp.end)) {
        (Some(a), Some(b)) => Some((a, b)),
        _ => None,
    }
}

/// One diagnostic for each error node of `ast`, in pre-order: syntactic errors from
/// parsing and semantic errors from analysis alike.
pub fn diagnostics(content: &str, ast: &Program) -> (r: Vec<Diagnostic>)
    ensures
        r@.len() == ast.spec_errors().len(),
        forall|i: int|
            0 <= i < r@.len() ==> {
                let e = #[trigger] ast.spec_errors()[i];
                &&& range_of(content, e.spec_span(), r@[i].range)
                &&& r@[i].message@ == message_of(content, e)
            },
{
    let errors = ast.errors();
    let mut out: Vec<Diagnostic> = Vec::new();
    let mut i: usize = 0;
    while i < errors.len()
        invariant
            errors@ == ast.spec_errors(),
            i <= errors@.len(),
            out@.len() == i,
            forall|k: int|
                0 <= k < i ==> {
                    let e = #[trigger] ast.spec_errors()[k];
                    &&& range_of(content, e.spec_span(), out@[k].range)
                    &&& out@[k].message@ == message_of(content, e)
                },
        decreases errors@.len() - i,
    {
        let e = &errors[i];
        let range = span_range(content, e.span());
        let message = e.diagnosis(content);
        out.push(Diagnostic { range, message });
        i = i + 1;
    }
    out
}

} // verus!
