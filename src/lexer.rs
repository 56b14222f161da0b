//! Byte classes and the token rules of the tracing language.
//!
//! Every rule is stated twice: as a spec function over the source bytes, and as an
//! executable function proved to compute exactly that spec function.
use vstd::prelude::*;

verus! {

/// A slice is never longer than `usize::MAX`.
pub proof fn lemma_len_fits(s: &[u8])
    ensures
        s@.len() <= usize::MAX,
{
    assert(s@.len() == s.len());
}

pub open spec fn is_ws(b: u8) -> bool {
    b == 32 || b == 9 || b == 10 || b == 13
}

pub open spec fn is_digit(b: u8) -> bool {
    48 <= b <= 57
}

pub open spec fn is_alpha(b: u8) -> bool {
    (65 <= b <= 90) || (97 <= b <= 122)
}

pub open spec fn is_ident_start(b: u8) -> bool {
    is_alpha(b) || b == 95
}

pub open spec fn is_ident_char(b: u8) -> bool {
    is_ident_start(b) || is_digit(b)
}

/// The sigils that mark a scratch variable (`$`) or a map (`@`).
pub open spec fn is_sigil(b: u8) -> bool {
    b == 36 || b == 64
}

/// Bytes that may continue an attach point such as `tracepoint:sched:*`.
pub open spec fn is_attach_char(b: u8) -> bool {
    is_ident_char(b) || b == 58 || b == 42 || b == 46 || b == 45 || b == 47 || b == 43 || b == 63
        || b == 91 || b == 93
}

pub fn ws(b: u8) -> (r: bool)
    ensures
        r == is_ws(b),
{
    b == 32 || b == 9 || b == 10 || b == 13
}

pub fn digit(b: u8) -> (r: bool)
    ensures
        r == is_digit(b),
{
    48 <= b && b <= 57
}

pub fn ident_start(b: u8) -> (r: bool)
    ensures
        r == is_ident_start(b),
{
    (65 <= b && b <= 90) || (97 <= b && b <= 122) || b == 95
}

pub fn ident_char(b: u8) -> (r: bool)
    ensures
        r == is_ident_char(b),
{
    ident_start(b) || digit(b)
}

pub fn attach_char(b: u8) -> (r: bool)
    ensures
        r == is_attach_char(b),
{
    ident_char(b) || b == 58 || b == 42 || b == 46 || b == 45 || b == 47 || b == 43 || b == 63
        || b == 91 || b == 93
}

/// Whether the bytes at `i` are `a` followed by `b`.
pub open spec fn at2(s: Seq<u8>, i: int, a: u8, b: u8) -> bool {
    0 <= i && i + 1 < s.len() && s[i] == a && s[i + 1] == b
}

/// Whether the byte at `i` is `a`.
pub open spec fn at1(s: Seq<u8>, i: int, a: u8) -> bool {
    0 <= i < s.len() && s[i] == a
}

pub fn byte_at2(s: &[u8], i: usize, a: u8, b: u8) -> (r: bool)
    ensures
        r == at2(s@, i as int, a, b),
{
    i < s.len() && i + 1 < s.len() && s[i] == a && s[i + 1] == b
}

pub fn byte_at(s: &[u8], i: usize, a: u8) -> (r: bool)
    ensures
        r == at1(s@, i as int, a),
{
    i < s.len() && s[i] == a
}

/// Position after the whitespace and comments that start at `i`.
pub open spec fn skip_trivia(s: Seq<u8>, i: int) -> int
    decreases s.len() - i, 0int,
{
    if i < 0 || i >= s.len() {
        i
    } else if is_ws(s[i]) {
        skip_trivia(s, i + 1)
    } else if at2(s, i, 47, 47) {
        skip_comment(s, i + 2)
    } else if at2(s, i, 47, 42) {
        skip_block_comment(s, i + 2)
    } else {
        i
    }
}

/// Inside a `/* */` comment at `i`: it runs through the next `*/`, or to the end.
pub open spec fn skip_block_comment(s: Seq<u8>, i: int) -> int
    decreases s.len() - i, 1int,
{
    if i < 0 || i >= s.len() {
        i
    } else if at2(s, i, 42, 47) {
        skip_trivia(s, i + 2)
    } else {
        skip_block_comment(s, i + 1)
    }
}

/// Inside a line comment at `i`: the comment runs to the end of its line.
pub open spec fn skip_comment(s: Seq<u8>, i: int) -> int
    decreases s.len() - i, 1int,
{
    if 0 <= i < s.len() && s[i] != 10 {
        skip_comment(s, i + 1)
    } else {
        skip_trivia(s, i)
    }
}

pub proof fn lemma_skip_trivia_bounds(s: Seq<u8>, i: int)
    requires
        0 <= i <= s.len(),
    ensures
        i <= skip_trivia(s, i) <= s.len(),
    decreases s.len() - i, 0int,
{
    if i < s.len() {
        if is_ws(s[i]) {
            lemma_skip_trivia_bounds(s, i + 1);
        } else if at2(s, i, 47, 47) {
            lemma_skip_comment_bounds(s, i + 2);
        } else if at2(s, i, 47, 42) {
            lemma_skip_block_comment_bounds(s, i + 2);
        }
    }
}

pub proof fn lemma_skip_block_comment_bounds(s: Seq<u8>, i: int)
    requires
        0 <= i <= s.len(),
    ensures
        i <= skip_block_comment(s, i) <= s.len(),
    decreases s.len() - i, 1int,
{
    if i < s.len() {
        if at2(s, i, 42, 47) {
            lemma_skip_trivia_bounds(s, i + 2);
        } else {
            lemma_skip_block_comment_bounds(s, i + 1);
        }
    }
}

pub proof fn lemma_skip_comment_bounds(s: Seq<u8>, i: int)
    requires
        0 <= i <= s.len(),
    ensures
        i <= skip_comment(s, i) <= s.len(),
    decreases s.len() - i, 1int,
{
    if i < s.len() && s[i] != 10 {
        lemma_skip_comment_bounds(s, i + 1);
    } else {
        lemma_skip_trivia_bounds(s, i);
    }
}

pub fn skip(s: &[u8], i: usize) -> (r: usize)
    requires
        i <= s@.len(),
    ensures
        r == skip_trivia(s@, i as int),
        i <= r <= s@.len(),
{
    proof {
        lemma_skip_trivia_bounds(s@, i as int);
    }
    let mut j = i;
    loop
        invariant
            i <= j <= s@.len(),
            skip_trivia(s@, j as int) == skip_trivia(s@, i as int),
        decreases s@.len() - j,
    {
        if j < s.len() && ws(s[j]) {
            assert(skip_trivia(s@, j as int) == skip_trivia(s@, j + 1));
            j = j + 1;
        } else if byte_at2(s, j, 47, 47) {
            assert(skip_trivia(s@, j as int) == skip_comment(s@, j + 2));
            let ghost j0 = j;
            j = j + 2;
            loop
                invariant
                    i <= j0,
                    j0 + 2 <= j <= s@.len(),
                    skip_comment(s@, j as int) == skip_trivia(s@, i as int),
                ensures
                    j0 + 2 <= j <= s@.len(),
                    skip_trivia(s@, j as int) == skip_trivia(s@, i as int),
                decreases s@.len() - j,
            {
                if j < s.len() && s[j] != 10 {
                    j = j + 1;
                } else {
                    assert(skip_comment(s@, j as int) == skip_trivia(s@, j as int));
                    break;
                }
            }
        } else if byte_at2(s, j, 47, 42) {
            assert(skip_trivia(s@, j as int) == skip_block_comment(s@, j + 2));
            let ghost j0 = j;
            j = j + 2;
            loop
                invariant_except_break
                    skip_block_comment(s@, j as int) == skip_trivia(s@, i as int),
                invariant
                    i <= j0,
                    j0 + 2 <= j <= s@.len(),
                ensures
                    j0 + 2 <= j <= s@.len(),
                    skip_trivia(s@, j as int) == skip_trivia(s@, i as int),
                decreases s@.len() - j,
            {
                if j >= s.len() {
                    assert(skip_trivia(s@, j as int) == j);
                    break;
                } else if byte_at2(s, j, 42, 47) {
                    j = j + 2;
                    break;
                } else {
                    j = j + 1;
                }
            }
        } else {
            return j;
        }
    }
}

/// End of the run of identifier bytes that starts at `i`.
pub open spec fn ident_end(s: Seq<u8>, i: int) -> int
    decreases s.len() - i,
{
    if 0 <= i < s.len() && is_ident_char(s[i]) {
        ident_end(s, i + 1)
    } else {
        i
    }
}

/// End of the run of attach-point bytes that starts at `i`.
pub open spec fn attach_end(s: Seq<u8>, i: int) -> int
    decreases s.len() - i,
{
    if 0 <= i < s.len() && is_attach_char(s[i]) {
        attach_end(s, i + 1)
    } else {
        i
    }
}

pub proof fn lemma_ident_end_bounds(s: Seq<u8>, i: int)
    requires
        0 <= i <= s.len(),
    ensures
        i <= ident_end(s, i) <= s.len(),
        forall|k: int| i <= k < ident_end(s, i) ==> is_ident_char(#[trigger] s[k]),
    decreases s.len() - i,
{
    if i < s.len() && is_ident_char(s[i]) {
        lemma_ident_end_bounds(s, i + 1);
    }
}

pub proof fn lemma_attach_end_bounds(s: Seq<u8>, i: int)
    requires
        0 <= i <= s.len(),
    ensures
        i <= attach_end(s, i) <= s.len(),
    decreases s.len() - i,
{
    if i < s.len() && is_attach_char(s[i]) {
        lemma_attach_end_bounds(s, i + 1);
    }
}

pub fn scan_ident(s: &[u8], i: usize) -> (r: usize)
    requires
        i <= s@.len(),
    ensures
        r == ident_end(s@, i as int),
        i <= r <= s@.len(),
{
    proof {
        lemma_ident_end_bounds(s@, i as int);
    }
    let mut j = i;
    while j < s.len() && ident_char(s[j])
        invariant
            i <= j <= s@.len(),
            ident_end(s@, j as int) == ident_end(s@, i as int),
        decreases s@.len() - j,
    {
        j = j + 1;
    }
    j
}

pub fn scan_attach(s: &[u8], i: usize) -> (r: usize)
    requires
        i <= s@.len(),
    ensures
        r == attach_end(s@, i as int),
        i <= r <= s@.len(),
{
    proof {
        lemma_attach_end_bounds(s@, i as int);
    }
    let mut j = i;
    while j < s.len() && attach_char(s[j])
        invariant
            i <= j <= s@.len(),
            attach_end(s@, j as int) == attach_end(s@, i as int),
        decreases s@.len() - j,
    {
        j = j + 1;
    }
    j
}

/// A bare identifier at `i` (`pid`, `printf`): its end.
pub open spec fn ident_token(s: Seq<u8>, i: int) -> Option<int> {
    if 0 <= i < s.len() && is_ident_start(s[i]) {
        Some(ident_end(s, i + 1))
    } else {
        None
    }
}

/// A variable at `i`: a sigil followed by at least one identifier byte. Its end.
pub open spec fn variable_token(s: Seq<u8>, i: int) -> Option<int> {
    if 0 <= i && i + 1 < s.len() && is_sigil(s[i]) && is_ident_char(s[i + 1]) {
        Some(ident_end(s, i + 2))
    } else {
        None
    }
}

/// An attach point at `i`: a letter or `_`, then attach-point bytes. Its end.
pub open spec fn attach_token(s: Seq<u8>, i: int) -> Option<int> {
    if 0 <= i < s.len() && is_ident_start(s[i]) {
        Some(attach_end(s, i + 1))
    } else {
        None
    }
}

pub open spec fn lift_pos(r: Option<usize>) -> Option<int> {
    match r {
        Some(e) => Some(e as int),
        None => None,
    }
}

pub fn lex_ident(s: &[u8], i: usize) -> (r: Option<usize>)
    requires
        i <= s@.len(),
    ensures
        lift_pos(r) == ident_token(s@, i as int),
        r matches Some(e) ==> i < e <= s@.len(),
{
    if i < s.len() && ident_start(s[i]) {
        Some(scan_ident(s, i + 1))
    } else {
        None
    }
}

pub fn lex_variable(s: &[u8], i: usize) -> (r: Option<usize>)
    requires
        i <= s@.len(),
    ensures
        lift_pos(r) == variable_token(s@, i as int),
        r matches Some(e) ==> i + 2 <= e <= s@.len(),
{
    if i < s.len() && s.len() - i > 1 && (s[i] == 36 || s[i] == 64) && ident_char(s[i + 1]) {
        Some(scan_ident(s, i + 2))
    } else {
        None
    }
}

pub fn lex_attach(s: &[u8], i: usize) -> (r: Option<usize>)
    requires
        i <= s@.len(),
    ensures
        lift_pos(r) == attach_token(s@, i as int),
        r matches Some(e) ==> i < e <= s@.len(),
{
    if i < s.len() && ident_start(s[i]) {
        Some(scan_attach(s, i + 1))
    } else {
        None
    }
}

/// Value of the decimal digits `s[i..j]`.
pub open spec fn digits_value(s: Seq<u8>, i: int, j: int) -> int
    decreases j - i,
{
    if j <= i {
        0
    } else {
        digits_value(s, i, j - 1) * 10 + (s[j - 1] - 48)
    }
}

pub open spec fn digits_end(s: Seq<u8>, i: int) -> int
    decreases s.len() - i,
{
    if 0 <= i < s.len() && is_digit(s[i]) {
        digits_end(s, i + 1)
    } else {
        i
    }
}

/// An integer literal at `i` whose value fits an `i64`: its value and end.
pub open spec fn number_token(s: Seq<u8>, i: int) -> Option<(i64, int)> {
    if 0 <= i < s.len() && is_digit(s[i]) && digits_value(s, i, digits_end(s, i)) <= i64::MAX {
        Some((digits_value(s, i, digits_end(s, i)) as i64, digits_end(s, i)))
    } else {
        None
    }
}

pub proof fn lemma_digits_end_bounds(s: Seq<u8>, i: int)
    requires
        0 <= i <= s.len(),
    ensures
        i <= digits_end(s, i) <= s.len(),
        forall|k: int| i <= k < digits_end(s, i) ==> is_digit(#[trigger] s[k]),
    decreases s.len() - i,
{
    if i < s.len() && is_digit(s[i]) {
        lemma_digits_end_bounds(s, i + 1);
    }
}

proof fn lemma_digits_value_grows(s: Seq<u8>, i: int, j: int, k: int)
    requires
        i <= j <= k,
        forall|m: int| i <= m < k ==> is_digit(#[trigger] s[m]),
    ensures
        0 <= digits_value(s, i, j) <= digits_value(s, i, k),
    decreases k - i,
{
    if k > j {
        lemma_digits_value_grows(s, i, j, k - 1);
    } else if j > i {
        lemma_digits_value_grows(s, i, j - 1, j - 1);
    }
}

pub fn lex_number(s: &[u8], i: usize) -> (r: Option<(i64, usize)>)
    requires
        i <= s@.len(),
    ensures
        match r {
            Some((v, e)) => number_token(s@, i as int) == Some((v, e as int)) && i < e <= s@.len(),
            None => number_token(s@, i as int) is None,
        },
{
    if !(i < s.len() && digit(s[i])) {
        return None;
    }
    proof {
        lemma_digits_end_bounds(s@, i as int);
    }
    let ghost end = digits_end(s@, i as int);
    let mut j = i;
    let mut v: i64 = 0;
    while j < s.len() && digit(s[j])
        invariant
            i <= j <= end,
            end == digits_end(s@, i as int),
            digits_end(s@, j as int) == end,
            i <= end <= s@.len(),
            forall|k: int| i <= k < end ==> is_digit(#[trigger] s@[k]),
            v == digits_value(s@, i as int, j as int),
            0 <= v,
        decreases s@.len() - j,
    {
        let d = (s[j] - 48) as i64;
        proof {
            lemma_digits_end_bounds(s@, j as int + 1);
        }
        if v > (i64::MAX - d) / 10 {
            proof {
                lemma_digits_value_grows(s@, i as int, j as int + 1, end);
                assert(digits_value(s@, i as int, j as int + 1) == v * 10 + d);
            }
            return None;
        }
        assert(v * 10 + d <= i64::MAX) by (nonlinear_arith)
            requires
                0 <= v <= (i64::MAX - d) / 10,
                0 <= d <= 9,
        ;
        v = v * 10 + d;
        j = j + 1;
    }
    Some((v, j))
}

/// A string literal at `i`, escapes included: the end after its closing quote.
pub open spec fn string_token(s: Seq<u8>, i: int) -> Option<int> {
    if at1(s, i, 34) {
        string_rest(s, i + 1)
    } else {
        None
    }
}

pub open spec fn string_rest(s: Seq<u8>, j: int) -> Option<int>
    decreases s.len() - j,
{
    if j < 0 || j >= s.len() || s[j] == 10 {
        None
    } else if s[j] == 34 {
        Some(j + 1)
    } else if s[j] == 92 && j + 1 < s.len() && s[j + 1] != 10 {
        string_rest(s, j + 2)
    } else {
        string_rest(s, j + 1)
    }
}

pub fn lex_string(s: &[u8], i: usize) -> (r: Option<usize>)
    requires
        i <= s@.len(),
    ensures
        lift_pos(r) == string_token(s@, i as int),
        r matches Some(e) ==> i < e <= s@.len(),
{
    if !byte_at(s, i, 34) {
        return None;
    }
    assert(s@.len() == s.len());
    let mut j = i + 1;
    loop
        invariant
            i < j <= s@.len(),
            string_rest(s@, j as int) == string_token(s@, i as int),
        decreases s@.len() - j,
    {
        if j >= s.len() || s[j] == 10 {
            return None;
        } else if s[j] == 34 {
            return Some(j + 1);
        } else if s[j] == 92 && j + 1 < s.len() && s[j + 1] != 10 {
            j = j + 2;
        } else {
            j = j + 1;
        }
    }
}

/// End of a run of unrecognized text that starts at `i`.
///
/// The first byte is always taken. The run then goes on through balanced braces and
/// stops after a `;`, or before a line break or a `}` that it did not open. Trailing
/// whitespace is left out of the run.
pub open spec fn error_end(s: Seq<u8>, i: int) -> int {
    if !(0 <= i < s.len()) {
        i
    } else if s[i] == 59 {
        i + 1
    } else if s[i] == 123 {
        error_scan(s, i + 1, 1, i + 1)
    } else {
        error_scan(s, i + 1, 0, i + 1)
    }
}

pub open spec fn error_scan(s: Seq<u8>, j: int, depth: nat, keep: int) -> int
    decreases s.len() - j,
{
    if j < 0 || j >= s.len() {
        keep
    } else if depth == 0 && (s[j] == 10 || s[j] == 125) {
        keep
    } else if depth == 0 && s[j] == 59 {
        j + 1
    } else if s[j] == 123 {
        error_scan(s, j + 1, depth + 1, j + 1)
    } else if s[j] == 125 {
        error_scan(s, j + 1, (depth - 1) as nat, j + 1)
    } else if is_ws(s[j]) {
        error_scan(s, j + 1, depth, keep)
    } else {
        error_scan(s, j + 1, depth, j + 1)
    }
}

pub proof fn lemma_error_scan_bounds(s: Seq<u8>, j: int, depth: nat, keep: int)
    requires
        0 <= j <= s.len(),
        0 < keep <= j,
    ensures
        keep <= error_scan(s, j, depth, keep) <= s.len(),
    decreases s.len() - j,
{
    if j < s.len() {
        if depth == 0 && (s[j] == 10 || s[j] == 125) {
        } else if depth == 0 && s[j] == 59 {
        } else if s[j] == 123 {
            lemma_error_scan_bounds(s, j + 1, depth + 1, j + 1);
        } else if s[j] == 125 {
            lemma_error_scan_bounds(s, j + 1, (depth - 1) as nat, j + 1);
        } else if is_ws(s[j]) {
            lemma_error_scan_bounds(s, j + 1, depth, keep);
        } else {
            lemma_error_scan_bounds(s, j + 1, depth, j + 1);
        }
    }
}

pub fn lex_error(s: &[u8], i: usize) -> (r: usize)
    requires
        i < s@.len(),
    ensures
        r == error_end(s@, i as int),
        i < r <= s@.len(),
{
    let n = s.len();
    if s[i] == 59 {
        return i + 1;
    }
    let mut depth: usize = if s[i] == 123 {
        1
    } else {
        0
    };
    let mut keep = i + 1;
    let mut j = i + 1;
    proof {
        lemma_error_scan_bounds(s@, j as int, depth as nat, keep as int);
    }
    loop
        invariant
            i < keep <= j <= s@.len(),
            n == s@.len(),
            depth <= j,
            error_scan(s@, j as int, depth as nat, keep as int) == error_end(s@, i as int),
        decreases s@.len() - j,
    {
        if j >= n {
            return keep;
        }
        let b = s[j];
        if depth == 0 && (b == 10 || b == 125) {
            return keep;
        } else if depth == 0 && b == 59 {
            return j + 1;
        } else if b == 123 {
            depth = depth + 1;
            keep = j + 1;
        } else if b == 125 {
            depth = depth - 1;
            keep = j + 1;
        } else if !ws(b) {
            keep = j + 1;
        }
        j = j + 1;
    }
}

} // verus!
