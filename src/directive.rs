use vstd::prelude::*;

use crate::stan_model_block_type::StanModelBlockType;
use crate::text::{occurs_at, text_occurs_at};

verus! {

/// The text that marks a directive to splice in another file.
pub open spec fn directive_marker() -> Seq<char> {
    "#include"@
}

/// Characters that may separate the directive keyword from its path.
pub open spec fn is_blank(c: char) -> bool {
    c == ' ' || c == '\t'
}

/// `line` opens a section of kind `k`: its keyword followed by `" {"` or `"{"`.
pub open spec fn opens(line: Seq<char>, k: StanModelBlockType) -> bool {
    line == k.keyword() + seq![' ', '{'] || line == k.keyword() + seq!['{']
}

/// The kind of section that `line` opens, if it opens one.
pub open spec fn block_opened(line: Seq<char>) -> Option<StanModelBlockType> {
    if opens(line, StanModelBlockType::Functions) {
        Some(StanModelBlockType::Functions)
    } else if opens(line, StanModelBlockType::Data) {
        Some(StanModelBlockType::Data)
    } else if opens(line, StanModelBlockType::TransformedData) {
        Some(StanModelBlockType::TransformedData)
    } else if opens(line, StanModelBlockType::Parameters) {
        Some(StanModelBlockType::Parameters)
    } else if opens(line, StanModelBlockType::TransformedParameters) {
        Some(StanModelBlockType::TransformedParameters)
    } else if opens(line, StanModelBlockType::Model) {
        Some(StanModelBlockType::Model)
    } else if opens(line, StanModelBlockType::GeneratedQuantities) {
        Some(StanModelBlockType::GeneratedQuantities)
    } else {
        None
    }
}

/// `line` closes a section.
pub open spec fn closes(line: Seq<char>) -> bool {
    line == seq!['}']
}

/// The first position at or after `i` that holds no blank.
pub open spec fn skip_blanks(s: Seq<char>, i: int) -> int
    decreases s.len() - i,
{
    if 0 <= i < s.len() && is_blank(s[i]) {
        skip_blanks(s, i + 1)
    } else {
        i
    }
}

/// The delimiters of a directive's path: double quotes or angle brackets.
pub open spec fn delimits(open: char, close: char) -> bool {
    (open == '"' && close == '"') || (open == '<' && close == '>')
}

/// The path that a directive line names: the marker, at least one blank, then
/// a non-empty path between `"` and `"` or between `<` and `>`.
pub open spec fn directive_target(line: Seq<char>) -> Option<Seq<char>> {
    let m = directive_marker().len() as int;
    if occurs_at(line, directive_marker(), 0) && line.len() > m && is_blank(line[m]) {
        let s = skip_blanks(line, m);
        if line.len() - s >= 3 && delimits(line[s], line[line.len() - 1]) {
            Some(line.subrange(s + 1, line.len() - 1))
        } else {
            None
        }
    } else {
        None
    }
}

fn blank(c: char) -> (r: bool)
    ensures
        r == is_blank(c),
{
    c == ' ' || c == '\t'
}

/// Whether `line` opens a section of kind `kind`.
pub fn opens_block(line: &str, kind: StanModelBlockType) -> (r: bool)
    ensures
        r == opens(line@, kind),
{
    let kw = kind.keyword_text();
    let n = line.unicode_len();
    let m = kw.unicode_len();
    if !text_occurs_at(line, kw, 0) {
        assert((kind.keyword() + seq![' ', '{']).subrange(0, m as int) =~= kind.keyword());
        assert((kind.keyword() + seq!['{']).subrange(0, m as int) =~= kind.keyword());
        return false;
    }
    assert(line@.subrange(0, m as int) == kw@);
    if n - m == 2 {
        let r = line.get_char(m) == ' ' && line.get_char(m + 1) == '{';
        if r {
            assert(line@ =~= kind.keyword() + seq![' ', '{']);
        } else {
            assert((kind.keyword() + seq![' ', '{'])[m as int] == ' ');
            assert((kind.keyword() + seq![' ', '{'])[m + 1] == '{');
        }
        r
    } else if n - m == 1 {
        let r = line.get_char(m) == '{';
        if r {
            assert(line@ =~= kind.keyword() + seq!['{']);
        } else {
            assert((kind.keyword() + seq!['{'])[m as int] == '{');
        }
        r
    } else {
        false
    }
}

/// The kind of section that `line` opens, if it opens one.
pub fn block_opened_by(line: &str) -> (r: Option<StanModelBlockType>)
    ensures
        r == block_opened(line@),
{
    if opens_block(line, StanModelBlockType::Functions) {
        Some(StanModelBlockType::Functions)
    } else if opens_block(line, StanModelBlockType::Data) {
        Some(StanModelBlockType::Data)
    } else if opens_block(line, StanModelBlockType::TransformedData) {
        Some(StanModelBlockType::TransformedData)
    } else if opens_block(line, StanModelBlockType::Parameters) {
        Some(StanModelBlockType::Parameters)
    } else if opens_block(line, StanModelBlockType::TransformedParameters) {
        Some(StanModelBlockType::TransformedParameters)
    } else if opens_block(line, StanModelBlockType::Model) {
        Some(StanModelBlockType::Model)
    } else if opens_block(line, StanModelBlockType::GeneratedQuantities) {
        Some(StanModelBlockType::GeneratedQuantities)
    } else {
        None
    }
}

/// Whether `line` closes a section.
pub fn closes_block(line: &str) -> (r: bool)
    ensures
        r == closes(line@),
{
    if line.unicode_len() != 1 {
        return false;
    }
    let r = line.get_char(0) == '}';
    if r {
        assert(line@ =~= seq!['}']);
    }
    r
}

/// The path that a directive line names, if `line` is a directive.
pub fn directive_target_of(line: &str) -> (r: Option<String>)
    ensures
        match r {
            Some(p) => directive_target(line@) == Some(p@),
            None => directive_target(line@) is None,
        },
{
    let mk = "#include";
    if !text_occurs_at(line, mk, 0) {
        return None;
    }
    let n = line.unicode_len();
    let m = mk.unicode_len();
    if n <= m || !blank(line.get_char(m)) {
        return None;
    }
    let mut i: usize = m;
    while i < n && blank(line.get_char(i))
        invariant
            n == line@.len(),
            m == directive_marker().len(),
            m <= i <= n,
            skip_blanks(line@, m as int) == skip_blanks(line@, i as int),
        decreases n - i,
    {
        i += 1;
    }
    if n - i < 3 {
        return None;
    }
    let open = line.get_char(i);
    let close = line.get_char(n - 1);
    if !((open == '"' && close == '"') || (open == '<' && close == '>')) {
        return None;
    }
    Some(line.substring_char(i + 1, n - 1).to_owned())
}

} // verus!
