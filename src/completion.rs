//! Completion suggestions: the declared names of the last analysis, then the builtin
//! keywords, then the builtin functions.
use crate::builtins::{BuiltinSymbol, BuiltinSymbols};
use vstd::prelude::*;
use vstd::string::StringExecFns;

verus! {

#[derive(Clone, Copy, Debug, PartialEq, Eq, Structural)]
pub enum CompletionKind {
    Variable,
    Keyword,
    Function,
}

/// One suggestion. Builtins carry a one-line detail and Markdown documentation.
pub struct CompletionEntry {
    pub label: String,
    pub kind: CompletionKind,
    pub detail: Option<String>,
    pub documentation: Option<String>,
}

/// `e` suggests the builtin `b` as an item of kind `k`.
pub open spec fn suggests_builtin(e: CompletionEntry, b: BuiltinSymbol, k: CompletionKind) -> bool {
    &&& e.label@ == b.name@
    &&& e.kind == k
    &&& e.detail matches Some(d) && d@ == b.detail@
    &&& e.documentation matches Some(d) && d@ == b.documentation@
}

fn push_builtins(out: &mut Vec<CompletionEntry>, table: &Vec<BuiltinSymbol>, k: CompletionKind)
    ensures
        final(out)@.len() == old(out)@.len() + table@.len(),
        forall|i: int| 0 <= i < old(out)@.len() ==> #[trigger] final(out)@[i] == old(out)@[i],
        forall|j: int|
            0 <= j < table@.len() ==> suggests_builtin(
                #[trigger] final(out)@[old(out)@.len() + j],
                table@[j],
                k,
            ),
{
    let ghost start = out@;
    let mut j: usize = 0;
    while j < table.len()
        invariant
            j <= table@.len(),
            out@.len() == start.len() + j,
            forall|i: int| 0 <= i < start.len() ==> #[trigger] out@[i] == start[i],
            forall|m: int| 0 <= m < j ==> suggests_builtin(#[trigger] out@[start.len() + m], table@[m], k),
        decreases table@.len() - j,
    {
        let b = &table[j];
        out.push(
            CompletionEntry {
                label: String::from_str(b.name),
                kind: k,
                detail: Some(String::from_str(b.detail)),
                documentation: Some(String::from_str(b.documentation)),
            },
        );
        j = j + 1;
    }
}

/// The suggestions for a document whose analysis declared `variables`.
pub fn completion_entries(variables: &Vec<String>, builtins: &BuiltinSymbols) -> (r: Vec<CompletionEntry>)
    ensures
        r@.len() == variables@.len() + builtins.keywords@.len() + builtins.functions@.len(),
        forall|i: int|
            0 <= i < variables@.len() ==> {
                &&& (#[trigger] r@[i]).label@ == variables@[i]@
                &&& r@[i].kind == CompletionKind::Variable
                &&& r@[i].detail is None
                &&& r@[i].documentation is None
            },
        forall|j: int|
            0 <= j < builtins.keywords@.len() ==> suggests_builtin(
                #[trigger] r@[variables@.len() + j],
                builtins.keywords@[j],
                CompletionKind::Keyword,
            ),
        forall|j: int|
            0 <= j < builtins.functions@.len() ==> suggests_builtin(
                #[trigger] r@[variables@.len() + builtins.keywords@.len() + j],
                builtins.functions@[j],
                CompletionKind::Function,
            ),
{
    let mut out: Vec<CompletionEntry> = Vec::new();
    let mut i: usize = 0;
    while i < variables.len()
        invariant
            i <= variables@.len(),
            out@.len() == i,
            forall|k: int|
                0 <= k < i ==> {
                    &&& (#[trigger] out@[k]).label@ == variables@[k]@
                    &&& out@[k].kind == CompletionKind::Variable
                    &&& out@[k].detail is None
                    &&& out@[k].documentation is None
                },
        decreases variables@.len() - i,
    {
        out.push(
            CompletionEntry {
                label: variables[i].clone(),
                kind: CompletionKind::Variable,
                detail: None,
                documentation: None,
            },
        );
        i = i + 1;
    }
    push_builtins(&mut out, &builtins.keywords, CompletionKind::Keyword);
    push_builtins(&mut out, &builtins.functions, CompletionKind::Function);
    out
}

} // verus!
