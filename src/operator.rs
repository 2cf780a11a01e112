use vstd::prelude::*;
use vstd::string::*;

verus! {

/// The built-in keywords of the language.
#[derive(Clone, Copy, Debug, PartialEq, Eq)]
pub enum OperatorType {
    Constructor,
    Car,
    Cdr,
    List,
    Print,
    Lambda,
    Define,
    Assign,
    Quote,
    If,
    Add,
    Sub,
    Mul,
    Div,
    Rem,
    IsEven,
    Lt,
    LtEq,
    Eq,
    NEq,
    GtEq,
    Gt,
    And,
    Or,
    Null,
}

/// The surface spelling of each keyword. `Rem` and `Null` have no keyword in the table;
/// their names stand in for one where an operator is shown.
pub open spec fn spec_keyword(op: OperatorType) -> Seq<char> {
    match op {
        OperatorType::Constructor => "cons"@,
        OperatorType::Car => "car"@,
        OperatorType::Cdr => "cdr"@,
        OperatorType::List => "list"@,
        OperatorType::Print => "print"@,
        OperatorType::Lambda => "lambda"@,
        OperatorType::Define => "define"@,
        OperatorType::Assign => "set"@,
        OperatorType::Quote => "quote"@,
        OperatorType::If => "if"@,
        OperatorType::Add => "+"@,
        OperatorType::Sub => "-"@,
        OperatorType::Mul => "*"@,
        OperatorType::Div => "/"@,
        OperatorType::Rem => "rem"@,
        OperatorType::IsEven => "even?"@,
        OperatorType::Lt => "<"@,
        OperatorType::LtEq => "<="@,
        OperatorType::Eq => "="@,
        OperatorType::NEq => "!="@,
        OperatorType::GtEq => ">="@,
        OperatorType::Gt => ">"@,
        OperatorType::And => "and"@,
        OperatorType::Or => "or"@,
        OperatorType::Null => "null"@,
    }
}

/// The keyword table read backwards: the operator spelled `s`, if any.
pub open spec fn spec_from_str(s: Seq<char>) -> Option<OperatorType> {
    if s == "cons"@ { Some(OperatorType::Constructor) }
    else if s == "car"@ { Some(OperatorType::Car) }
    else if s == "cdr"@ { Some(OperatorType::Cdr) }
    else if s == "list"@ { Some(OperatorType::List) }
    else if s == "print"@ { Some(OperatorType::Print) }
    else if s == "lambda"@ { Some(OperatorType::Lambda) }
    else if s == "define"@ { Some(OperatorType::Define) }
    else if s == "set"@ { Some(OperatorType::Assign) }
    else if s == "quote"@ { Some(OperatorType::Quote) }
    else if s == "if"@ { Some(OperatorType::If) }
    else if s == "+"@ { Some(OperatorType::Add) }
    else if s == "-"@ { Some(OperatorType::Sub) }
    else if s == "*"@ { Some(OperatorType::Mul) }
    else if s == "/"@ { Some(OperatorType::Div) }
    else if s == "even?"@ { Some(OperatorType::IsEven) }
    else if s == "<"@ { Some(OperatorType::Lt) }
    else if s == "<="@ { Some(OperatorType::LtEq) }
    else if s == "="@ { Some(OperatorType::Eq) }
    else if s == "!="@ { Some(OperatorType::NEq) }
    else if s == ">="@ { Some(OperatorType::GtEq) }
    else if s == ">"@ { Some(OperatorType::Gt) }
    else if s == "and"@ { Some(OperatorType::And) }
    else if s == "or"@ { Some(OperatorType::Or) }
    else { None }
}

/// Character-by-character comparison of two strings.
pub fn str_equal(a: &str, b: &str) -> (r: bool)
    ensures
        r == (a@ == b@),
{
    let n = a.unicode_len();
    if n != b.unicode_len() {
        return false;
    }
    let mut i: usize = 0;
    while i < n
        invariant
            n == a@.len(),
            n == b@.len(),
            i <= n,
            a@.subrange(0, i as int) == b@.subrange(0, i as int),
        decreases n - i,
    {
        if a.get_char(i) != b.get_char(i) {
            return false;
        }
        proof {
            assert(a@.subrange(0, i + 1) == a@.subrange(0, i as int).push(a@[i as int]));
            assert(b@.subrange(0, i + 1) == b@.subrange(0, i as int).push(b@[i as int]));
        }
        i = i + 1;
    }
    proof {
        assert(a@ == a@.subrange(0, n as int));
        assert(b@ == b@.subrange(0, n as int));
    }
    true
}

/// Looks up a word in the keyword table.
pub fn from_str(s: &str) -> (r: Option<OperatorType>)
    ensures
        r == spec_from_str(s@),
{
    if str_equal(s, "cons") { Some(OperatorType::Constructor) }
    else if str_equal(s, "car") { Some(OperatorType::Car) }
    else if str_equal(s, "cdr") { Some(OperatorType::Cdr) }
    else if str_equal(s, "list") { Some(OperatorType::List) }
    else if str_equal(s, "print") { Some(OperatorType::Print) }
    else if str_equal(s, "lambda") { Some(OperatorType::Lambda) }
    else if str_equal(s, "define") { Some(OperatorType::Define) }
    else if str_equal(s, "set") { Some(OperatorType::Assign) }
    else if str_equal(s, "quote") { Some(OperatorType::Quote) }
    else if str_equal(s, "if") { Some(OperatorType::If) }
    else if str_equal(s, "+") { Some(OperatorType::Add) }
    else if str_equal(s, "-") { Some(OperatorType::Sub) }
    else if str_equal(s, "*") { Some(OperatorType::Mul) }
    else if str_equal(s, "/") { Some(OperatorType::Div) }
    else if str_equal(s, "even?") { Some(OperatorType::IsEven) }
    else if str_equal(s, "<") { Some(OperatorType::Lt) }
    else if str_equal(s, "<=") { Some(OperatorType::LtEq) }
    else if str_equal(s, "=") { Some(OperatorType::Eq) }
    else if str_equal(s, "!=") { Some(OperatorType::NEq) }
    else if str_equal(s, ">=") { Some(OperatorType::GtEq) }
    else if str_equal(s, ">") { Some(OperatorType::Gt) }
    else if str_equal(s, "and") { Some(OperatorType::And) }
    else if str_equal(s, "or") { Some(OperatorType::Or) }
    else { None }
}

/// The spelling of a keyword, as an owned string.
pub fn keyword(op: OperatorType) -> (r: String)
    ensures
        r@ == spec_keyword(op),
{
    let s: &str = match op {
        OperatorType::Constructor => "cons",
        OperatorType::Car => "car",
        OperatorType::Cdr => "cdr",
        OperatorType::List => "list",
        OperatorType::Print => "print",
        OperatorType::Lambda => "lambda",
        OperatorType::Define => "define",
        OperatorType::Assign => "set",
        OperatorType::Quote => "quote",
        OperatorType::If => "if",
        OperatorType::Add => "+",
        OperatorType::Sub => "-",
        OperatorType::Mul => "*",
        OperatorType::Div => "/",
        OperatorType::Rem => "rem",
        OperatorType::IsEven => "even?",
        OperatorType::Lt => "<",
        OperatorType::LtEq => "<=",
        OperatorType::Eq => "=",
        OperatorType::NEq => "!=",
        OperatorType::GtEq => ">=",
        OperatorType::Gt => ">",
        OperatorType::And => "and",
        OperatorType::Or => "or",
        OperatorType::Null => "null",
    };
    String::from_str(s)
}

} // verus!
