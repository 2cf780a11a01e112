use vstd::prelude::*;
use vstd::string::*;

verus! {

/// Whether a line of input is ready to be evaluated.
#[derive(Clone, Copy, Debug, PartialEq, Eq)]
pub enum InputStatus {
    /// The input is a whole expression.
    Complete,
    /// A group is still open: read another line and append it.
    NeedMore,
    /// A parenthesis opens after the expression closed, or closes with none open.
    Malformed,
}

/// Counts of `(` and `)` seen, and whether the text is still well formed: a `(` after
/// the outermost group closed, or a `)` with no group open, spoils it and stops the count.
pub open spec fn paren_scan(s: Seq<char>) -> (nat, nat, bool)
    decreases s.len(),
{
    if s.len() == 0 {
        (0, 0, true)
    } else {
        let (l, r, ok) = paren_scan(s.drop_last());
        let c = s.last();
        if !ok {
            (l, r, false)
        } else if c == '(' {
            if l == r && l != 0 {
                (l, r, false)
            } else {
                (l + 1, r, true)
            }
        } else if c == ')' {
            if r >= l && r != 0 {
                (l, r, false)
            } else {
                (l, r + 1, true)
            }
        } else {
            (l, r, ok)
        }
    }
}

/// Input that does not start with `(` is complete as it stands; input that does is
/// complete once its parentheses balance.
pub open spec fn spec_input_status(s: Seq<char>) -> InputStatus {
    let (l, r, ok) = paren_scan(s);
    if s.len() > 0 && s[0] != '(' {
        InputStatus::Complete
    } else if l == 0 && r == 0 && s.len() > 1 {
        InputStatus::Complete
    } else if !ok {
        InputStatus::Malformed
    } else if l == r && l != 0 {
        InputStatus::Complete
    } else {
        InputStatus::NeedMore
    }
}

proof fn lemma_scan_bounds(s: Seq<char>)
    ensures
        paren_scan(s).0 <= s.len(),
        paren_scan(s).1 <= s.len(),
    decreases s.len(),
{
    if s.len() > 0 {
        lemma_scan_bounds(s.drop_last());
    }
}

/// Counts the parentheses of `expr`, as `paren_scan` describes.
pub fn count_parens(expr: &str) -> (r: (usize, usize, bool))
    ensures
        (r.0 as nat, r.1 as nat, r.2) == paren_scan(expr@),
{
    let n = expr.unicode_len();
    let mut l: usize = 0;
    let mut r: usize = 0;
    let mut ok = true;
    let mut i: usize = 0;
    while i < n
        invariant
            n == expr@.len(),
            i <= n,
            (l as nat, r as nat, ok) == paren_scan(expr@.subrange(0, i as int)),
        decreases n - i,
    {
        proof {
            assert(expr@.subrange(0, i + 1).drop_last() == expr@.subrange(0, i as int));
            lemma_scan_bounds(expr@.subrange(0, i as int));
        }
        let c = expr.get_char(i);
        if ok {
            if c == '(' {
                if l == r && l != 0 {
                    ok = false;
                } else {
                    l = l + 1;
                }
            } else if c == ')' {
                if r >= l && r != 0 {
                    ok = false;
                } else {
                    r = r + 1;
                }
            }
        }
        i = i + 1;
    }
    assert(expr@.subrange(0, n as int) == expr@);
    (l, r, ok)
}

/// Whether `expr` can be evaluated, needs another line, or cannot be mended.
pub fn input_status(expr: &str) -> (r: InputStatus)
    ensures
        r == spec_input_status(expr@),
{
    let n = expr.unicode_len();
    if n > 0 && expr.get_char(0) != '(' {
        return InputStatus::Complete;
    }
    let (l, r, ok) = count_parens(expr);
    if l == 0 && r == 0 && n > 1 {
        InputStatus::Complete
    } else if !ok {
        InputStatus::Malformed
    } else if l == r && l != 0 {
        InputStatus::Complete
    } else {
        InputStatus::NeedMore
    }
}

} // verus!
