use vstd::prelude::*;
use crate::text::{push_char, join};
use crate::lexer::{collect_chars, char_alphanumeric, is_alphanumeric};
use crate::token::{Token, TokenType};
use crate::codegen::gen_spec::utf8_len;
use crate::codegen::llvm::utf8_length;

verus! {

/// White space as Unicode's `White_Space` property lists it (what `char::is_whitespace` tests).
pub open spec fn char_whitespace(c: char) -> bool {
    let n = c as u32;
    ||| 0x09 <= n <= 0x0D
    ||| n == 0x20
    ||| n == 0x85
    ||| n == 0xA0
    ||| n == 0x1680
    ||| 0x2000 <= n <= 0x200A
    ||| n == 0x2028
    ||| n == 0x2029
    ||| n == 0x202F
    ||| n == 0x205F
    ||| n == 0x3000
}

/// Whether `c` is white space.
fn is_whitespace(c: char) -> (r: bool)
    ensures
        r == char_whitespace(c),
{
    let n = c as u32;
    (0x09 <= n && n <= 0x0D) || n == 0x20 || n == 0x85 || n == 0xA0 || n == 0x1680 || (0x2000 <= n && n <= 0x200A)
        || n == 0x2028 || n == 0x2029 || n == 0x202F || n == 0x205F || n == 0x3000
}

/// The position of the first `'\n'` at or after `i`, or the length when there is none.
pub open spec fn next_newline(s: Seq<char>, i: int) -> int
    decreases s.len() - i,
{
    if i >= s.len() || i < 0 {
        s.len() as int
    } else if s[i] == '\n' {
        i
    } else {
        next_newline(s, i + 1)
    }
}

pub proof fn lemma_next_newline(s: Seq<char>, i: int)
    requires
        0 <= i,
    ensures
        i <= next_newline(s, i) <= s.len() || (i > s.len() && next_newline(s, i) == s.len()),
        next_newline(s, i) < s.len() ==> s[next_newline(s, i)] == '\n',
    decreases s.len() - i,
{
    if i < s.len() && s[i] != '\n' {
        lemma_next_newline(s, i + 1);
    }
}

/// A line as `str::lines` gives it: a `'\r'` that came before the line's `'\n'` is dropped.
pub open spec fn strip_cr(line: Seq<char>, ended: bool) -> Seq<char> {
    if ended && line.len() > 0 && line.last() == '\r' {
        line.drop_last()
    } else {
        line
    }
}

/// The lines of `s` from position `i` on, as `str::lines` gives them: split after each `'\n'`,
/// without the line ending, and no empty line after a final `'\n'`.
pub open spec fn lines_from(s: Seq<char>, i: int) -> Seq<Seq<char>>
    decreases s.len() + 1 - i,
{
    if i < 0 || i >= s.len() {
        Seq::empty()
    } else {
        let n = next_newline(s, i);
        proof {
            lemma_next_newline(s, i);
        }
        seq![strip_cr(s.subrange(i, n), n < s.len())] + lines_from(s, n + 1)
    }
}

/// `s` without its leading white space.
pub open spec fn trim_start_ws(s: Seq<char>) -> Seq<char>
    decreases s.len(),
{
    if s.len() > 0 && char_whitespace(s[0]) {
        trim_start_ws(s.drop_first())
    } else {
        s
    }
}

/// `s` without its trailing white space.
pub open spec fn trim_end_ws(s: Seq<char>) -> Seq<char>
    decreases s.len(),
{
    if s.len() > 0 && char_whitespace(s.last()) {
        trim_end_ws(s.drop_last())
    } else {
        s
    }
}

/// `str::trim`.
pub open spec fn trim_ws(s: Seq<char>) -> Seq<char> {
    trim_end_ws(trim_start_ws(s))
}

pub open spec fn starts_with(s: Seq<char>, p: Seq<char>) -> bool {
    p.len() <= s.len() && s.take(p.len() as int) == p
}

pub open spec fn ends_with(s: Seq<char>, p: Seq<char>) -> bool {
    p.len() <= s.len() && s.skip(s.len() - p.len()) == p
}

/// Whether a trimmed line opens a block, so that the lines after it are indented once more.
pub open spec fn opens_block(t: Seq<char>) -> bool {
    ends_with(t, "with"@) || starts_with(t, "if "@) || starts_with(t, "else"@) || starts_with(t, "for "@)
        || starts_with(t, "while "@) || starts_with(t, "fn "@) || starts_with(t, "object "@) || starts_with(
        t,
        "store "@,
    )
}

/// `n` copies of four spaces.
pub open spec fn indent_text(n: nat) -> Seq<char>
    decreases n,
{
    if n == 0 {
        Seq::empty()
    } else {
        indent_text((n - 1) as nat) + "    "@
    }
}

/// The formatted lines from `i` on at indentation `level`: each trimmed, an empty line kept
/// empty, an `else` line one level out, and the lines after a block opener one level in.
pub open spec fn format_from(lines: Seq<Seq<char>>, i: int, level: int) -> Seq<Seq<char>>
    decreases lines.len() - i,
{
    if i < 0 || i >= lines.len() {
        Seq::empty()
    } else {
        let t = trim_ws(lines[i]);
        if t.len() == 0 {
            seq![Seq::empty()] + format_from(lines, i + 1, level)
        } else {
            let l1 = if starts_with(t, "else"@) { level - 1 } else { level };
            let l2 = if opens_block(t) { l1 + 1 } else { l1 };
            seq![indent_text(l1 as nat) + t] + format_from(lines, i + 1, l2)
        }
    }
}

/// Whether formatting the lines from `i` on at `level` keeps every level between zero and
/// `i32::MAX`; below zero the indentation cannot be written.
pub open spec fn levels_in_range(lines: Seq<Seq<char>>, i: int, level: int) -> bool
    decreases lines.len() - i,
{
    if i < 0 || i >= lines.len() {
        true
    } else {
        let t = trim_ws(lines[i]);
        if t.len() == 0 {
            levels_in_range(lines, i + 1, level)
        } else {
            let l1 = if starts_with(t, "else"@) { level - 1 } else { level };
            let l2 = if opens_block(t) { l1 + 1 } else { l1 };
            0 <= l1 && l2 <= i32::MAX && levels_in_range(lines, i + 1, l2)
        }
    }
}

/// The lines of a text (`str::lines`).
pub fn split_lines(text: &str) -> (r: Vec<Vec<char>>)
    ensures
        r@.map_values(|l: Vec<char>| l@) == lines_from(text@, 0),
{
    let cs = collect_chars(text);
    let mut r: Vec<Vec<char>> = Vec::new();
    let mut i: usize = 0;
    while i < cs.len()
        invariant
            i <= cs.len(),
            cs@ == text@,
            lines_from(text@, 0) == r@.map_values(|l: Vec<char>| l@) + lines_from(text@, i as int),
        decreases cs.len() - i,
    {
        let mut j = i;
        while j < cs.len() && cs[j] != '\n'
            invariant
                i <= j <= cs.len(),
                cs@ == text@,
                next_newline(text@, i as int) == next_newline(text@, j as int),
            decreases cs.len() - j,
        {
            j = j + 1;
        }
        let ended = j < cs.len();
        let mut end = j;
        if ended && end > i && cs[end - 1] == '\r' {
            end = end - 1;
        }
        let mut line: Vec<char> = Vec::new();
        let mut k = i;
        while k < end
            invariant
                i <= k <= end <= cs.len(),
                line@ == cs@.subrange(i as int, k as int),
            decreases end - k,
        {
            line.push(cs[k]);
            k = k + 1;
            assert(line@ =~= cs@.subrange(i as int, k as int));
        }
        proof {
            let n = next_newline(text@, i as int);
            assert(n == j);
            assert(line@ =~= strip_cr(text@.subrange(i as int, n), n < text@.len()));
        }
        let ghost before = r@.map_values(|l: Vec<char>| l@);
        let ghost i_old = i as int;
        r.push(line);
        assert(r@.map_values(|l: Vec<char>| l@) =~= before.push(strip_cr(text@.subrange(i as int, j as int), j < text@.len())));
        i = if j < cs.len() { j + 1 } else { j };
        proof {
            assert(lines_from(text@, i_old) == seq![strip_cr(text@.subrange(i_old, j as int), j < text@.len())] + lines_from(
                text@,
                j + 1,
            ));
            if j == cs.len() {
                assert(lines_from(text@, j + 1) =~= Seq::<Seq<char>>::empty());
                assert(lines_from(text@, j as int) =~= Seq::<Seq<char>>::empty());
            }
            assert(lines_from(text@, 0) =~= r@.map_values(|l: Vec<char>| l@) + lines_from(text@, i as int));
        }
    }
    assert(lines_from(text@, i as int) =~= Seq::<Seq<char>>::empty());
    assert(r@.map_values(|l: Vec<char>| l@) =~= lines_from(text@, 0));
    r
}

/// A line without its leading and trailing white space (`str::trim`).
pub fn trim_line(line: &Vec<char>) -> (r: Vec<char>)
    ensures
        r@ == trim_ws(line@),
{
    let mut a: usize = 0;
    assert(line@.skip(0) =~= line@);
    while a < line.len() && is_whitespace(line[a])
        invariant
            a <= line.len(),
            trim_start_ws(line@) == trim_start_ws(line@.skip(a as int)),
        decreases line.len() - a,
    {
        assert(line@.skip(a as int).drop_first() =~= line@.skip(a + 1));
        a = a + 1;
    }
    let ghost head = line@.skip(a as int);
    assert(trim_start_ws(line@) == head);
    let mut b: usize = line.len();
    assert(head =~= line@.subrange(a as int, b as int));
    while b > a && is_whitespace(line[b - 1])
        invariant
            a <= b <= line.len(),
            trim_end_ws(head) == trim_end_ws(line@.subrange(a as int, b as int)),
        decreases b,
    {
        assert(line@.subrange(a as int, b as int).drop_last() =~= line@.subrange(a as int, b - 1));
        b = b - 1;
    }
    let mut r: Vec<char> = Vec::new();
    let mut k = a;
    while k < b
        invariant
            a <= k <= b <= line.len(),
            r@ == line@.subrange(a as int, k as int),
        decreases b - k,
    {
        r.push(line[k]);
        k = k + 1;
        assert(r@ =~= line@.subrange(a as int, k as int));
    }
    r
}

/// Whether `s` begins with the text `p`.
fn has_prefix(s: &Vec<char>, p: &str) -> (b: bool)
    ensures
        b == starts_with(s@, p@),
{
    let ps = collect_chars(p);
    if ps.len() > s.len() {
        return false;
    }
    let mut k: usize = 0;
    while k < ps.len()
        invariant
            k <= ps.len() <= s.len(),
            ps@ == p@,
            forall|m: int| 0 <= m < k ==> s@[m] == ps@[m],
        decreases ps.len() - k,
    {
        if s[k] != ps[k] {
            assert(s@.take(p@.len() as int)[k as int] != p@[k as int]);
            return false;
        }
        k = k + 1;
    }
    assert(s@.take(p@.len() as int) =~= p@);
    true
}

/// Whether `s` ends with the text `p`.
fn has_suffix(s: &Vec<char>, p: &str) -> (b: bool)
    ensures
        b == ends_with(s@, p@),
{
    let ps = collect_chars(p);
    if ps.len() > s.len() {
        return false;
    }
    let off = s.len() - ps.len();
    let mut k: usize = 0;
    while k < ps.len()
        invariant
            k <= ps.len() <= s.len(),
            off == s.len() - ps.len(),
            ps@ == p@,
            forall|m: int| 0 <= m < k ==> s@[off + m] == ps@[m],
        decreases ps.len() - k,
    {
        if s[off + k] != ps[k] {
            assert(s@.skip(off as int)[k as int] != p@[k as int]);
            return false;
        }
        k = k + 1;
    }
    assert(s@.skip(off as int) =~= p@);
    true
}

/// Whether formatting `text` keeps every indentation level between zero and `i32::MAX`, which
/// `format_coral_code` needs.
pub fn levels_ok(text: &str) -> (b: bool)
    ensures
        b == levels_in_range(lines_from(text@, 0), 0, 0),
{
    let lines = split_lines(text);
    let ghost lv = lines@.map_values(|l: Vec<char>| l@);
    let mut level: i64 = 0;
    let mut i: usize = 0;
    while i < lines.len()
        invariant
            i <= lines.len(),
            lv == lines@.map_values(|l: Vec<char>| l@),
            lv == lines_from(text@, 0),
            0 <= level <= i32::MAX,
            levels_in_range(lv, 0, 0) == levels_in_range(lv, i as int, level as int),
        decreases lines.len() - i,
    {
        let trimmed = trim_line(&lines[i]);
        assert(lv[i as int] == lines@[i as int]@);
        if trimmed.len() > 0 {
            let l1: i64 = if has_prefix(&trimmed, "else") { level - 1 } else { level };
            if l1 < 0 {
                return false;
            }
            let opens = has_suffix(&trimmed, "with") || has_prefix(&trimmed, "if ") || has_prefix(&trimmed, "else")
                || has_prefix(&trimmed, "for ") || has_prefix(&trimmed, "while ") || has_prefix(&trimmed, "fn ")
                || has_prefix(&trimmed, "object ") || has_prefix(&trimmed, "store ");
            let l2: i64 = if opens { l1 + 1 } else { l1 };
            if l2 > i32::MAX as i64 {
                return false;
            }
            level = l2;
        }
        i = i + 1;
    }
    true
}

/// Formats Coral code: each line trimmed and indented four spaces per open block; an `else`
/// line goes one level out, and the line after a block opener one level in.
pub fn format_coral_code(text: &str) -> (r: String)
    requires
        levels_in_range(lines_from(text@, 0), 0, 0),
    ensures
        r@ == join(format_from(lines_from(text@, 0), 0, 0), "\n"@),
{
    let lines = split_lines(text);
    let ghost lv = lines@.map_values(|l: Vec<char>| l@);
    let mut formatted: Vec<String> = Vec::new();
    let mut indent_level: i32 = 0;
    let mut i: usize = 0;
    while i < lines.len()
        invariant
            i <= lines.len(),
            lv == lines@.map_values(|l: Vec<char>| l@),
            lv == lines_from(text@, 0),
            levels_in_range(lv, i as int, indent_level as int),
            format_from(lv, 0, 0) == formatted@.map_values(|l: String| l@) + format_from(lv, i as int, indent_level as int),
        decreases lines.len() - i,
    {
        let trimmed = trim_line(&lines[i]);
        let ghost level0 = indent_level as int;
        assert(lv[i as int] == lines@[i as int]@);
        let ghost before = formatted@.map_values(|l: String| l@);
        if trimmed.len() == 0 {
            formatted.push(String::new());
            assert(formatted@.map_values(|l: String| l@) =~= before.push(Seq::empty()));
        } else {
            if has_prefix(&trimmed, "else") {
                indent_level = indent_level - 1;
            }
            let mut line = String::new();
            let mut n: i32 = 0;
            while n < indent_level
                invariant
                    0 <= n <= indent_level,
                    line@ == indent_text(n as nat),
                decreases indent_level - n,
            {
                line.append("    ");
                n = n + 1;
            }
            let mut k: usize = 0;
            while k < trimmed.len()
                invariant
                    k <= trimmed.len(),
                    line@ == indent_text(indent_level as nat) + trimmed@.take(k as int),
                decreases trimmed.len() - k,
            {
                push_char(&mut line, trimmed[k]);
                assert(trimmed@.take(k + 1) =~= trimmed@.take(k as int).push(trimmed@[k as int]));
                k = k + 1;
            }
            assert(trimmed@.take(trimmed.len() as int) =~= trimmed@);
            formatted.push(line);
            assert(formatted@.map_values(|l: String| l@) =~= before.push(indent_text(indent_level as nat) + trimmed@));
            if has_suffix(&trimmed, "with") || has_prefix(&trimmed, "if ") || has_prefix(&trimmed, "else") || has_prefix(
                &trimmed,
                "for ",
            ) || has_prefix(&trimmed, "while ") || has_prefix(&trimmed, "fn ") || has_prefix(&trimmed, "object ")
                || has_prefix(&trimmed, "store ") {
                indent_level = indent_level + 1;
            }
        }
        proof {
            let f = formatted@.map_values(|l: String| l@);
            assert(f == before.push(f.last()));
            assert(format_from(lv, i as int, level0) == seq![f.last()] + format_from(lv, i + 1, indent_level as int));
            assert(before + (seq![f.last()] + format_from(lv, i + 1, indent_level as int)) =~= f + format_from(
                lv,
                i + 1,
                indent_level as int,
            ));
        }
        i = i + 1;
    }
    let ghost fv = formatted@.map_values(|l: String| l@);
    assert(format_from(lv, i as int, indent_level as int) =~= Seq::<Seq<char>>::empty());
    assert(fv =~= format_from(lv, 0, 0));
    let mut out = String::new();
    let mut j: usize = 0;
    while j < formatted.len()
        invariant
            j <= formatted.len(),
            fv == formatted@.map_values(|l: String| l@),
            out@ == join(fv.take(j as int), "\n"@),
        decreases formatted.len() - j,
    {
        proof {
            assert(fv.take(j + 1).drop_last() =~= fv.take(j as int));
            crate::text::lemma_join_push(fv.take(j as int), "\n"@, fv[j as int]);
            assert(fv.take(j as int).push(fv[j as int]) =~= fv.take(j + 1));
        }
        if j > 0 {
            out.append("\n");
        }
        out.append(formatted[j].as_str());
        j = j + 1;
    }
    assert(fv.take(formatted.len() as int) =~= fv);
    out
}


/// A character that can be part of a word under the cursor.
pub open spec fn is_word_char(c: char) -> bool {
    char_alphanumeric(c) || c == '_'
}

/// Moves `k` back over characters that are not part of a word.
pub open spec fn back_over_gap(cs: Seq<char>, k: int) -> int
    decreases k,
{
    if k > 0 && k <= cs.len() && !is_word_char(cs[k - 1]) {
        back_over_gap(cs, k - 1)
    } else {
        k
    }
}

/// Moves `k` back over word characters.
pub open spec fn back_over_word(cs: Seq<char>, k: int) -> int
    decreases k,
{
    if k > 0 && k <= cs.len() && is_word_char(cs[k - 1]) {
        back_over_word(cs, k - 1)
    } else {
        k
    }
}

/// Moves `k` forward over word characters.
pub open spec fn forward_over_word(cs: Seq<char>, k: int) -> int
    decreases cs.len() - k,
{
    if 0 <= k < cs.len() && is_word_char(cs[k]) {
        forward_over_word(cs, k + 1)
    } else {
        k
    }
}

/// The bounds of the word at `pos` in a line: the word under the cursor, or else the nearest
/// word before it; none past the end of the line or when no word comes before.
pub open spec fn word_span(cs: Seq<char>, pos: int) -> Option<(int, int)> {
    if pos > cs.len() {
        None
    } else {
        let from = if pos < cs.len() && !is_word_char(cs[pos]) {
            let g = back_over_gap(cs, pos);
            if g > 0 {
                Some(g - 1)
            } else {
                None
            }
        } else {
            Some(pos)
        };
        match from {
            None => None,
            Some(k) => Some((back_over_word(cs, k), forward_over_word(cs, k))),
        }
    }
}

/// The documentation shown for a keyword or operator of the language.
pub open spec fn hover_doc(w: Seq<char>) -> Option<Seq<char>> {
    if w == "fn"@ {
        Some("**fn** - Define a function\n\nSyntax: `fn name with param1, param2`"@)
    } else if w == "object"@ {
        Some("**object** - Define an object type\n\nSyntax: `object name`"@)
    } else if w == "store"@ {
        Some("**store** - Define a data store\n\nSyntax: `store name`"@)
    } else if w == "is"@ {
        Some("**is** - Assignment operator\n\nSyntax: `variable is value`"@)
    } else if w == "log"@ {
        Some("**log** - Output to console\n\nSyntax: `log expression`"@)
    } else if w == "if"@ {
        Some("**if** - Conditional statement\n\nSyntax: `if condition`"@)
    } else if w == "else"@ {
        Some("**else** - Alternative branch\n\nSyntax: `if condition ... else`"@)
    } else if w == "for"@ {
        Some("**for** - Loop over collection\n\nSyntax: `for item in collection`"@)
    } else if w == "while"@ {
        Some("**while** - Loop while condition\n\nSyntax: `while condition`"@)
    } else if w == "in"@ {
        Some("**in** - Membership operator\n\nUsed in for loops and expressions"@)
    } else if w == "and"@ {
        Some("**and** - Logical AND operator"@)
    } else if w == "or"@ {
        Some("**or** - Logical OR operator"@)
    } else if w == "not"@ {
        Some("**not** - Logical NOT operator"@)
    } else if w == "gt"@ {
        Some("**gt** - Greater than comparison"@)
    } else if w == "lt"@ {
        Some("**lt** - Less than comparison"@)
    } else if w == "gte"@ {
        Some("**gte** - Greater than or equal comparison"@)
    } else if w == "lte"@ {
        Some("**lte** - Less than or equal comparison"@)
    } else if w == "equals"@ {
        Some("**equals** - Equality comparison"@)
    } else if w == "true"@ || w == "yes"@ {
        Some("**Boolean literal** - True value"@)
    } else if w == "false"@ || w == "no"@ {
        Some("**Boolean literal** - False value"@)
    } else if w == "make"@ {
        Some("**make** - Create instance\n\nSyntax: `make ObjectName`"@)
    } else if w == "with"@ {
        Some("**with** - Parameter delimiter\n\nUsed in function definitions"@)
    } else if w == "return"@ {
        Some("**return** - Return from function\n\nSyntax: `return value`"@)
    } else if w == "break"@ {
        Some("**break** - Exit loop\n\nBreaks out of current loop"@)
    } else if w == "continue"@ {
        Some("**continue** - Skip iteration\n\nSkips to next loop iteration"@)
    } else if w == "unless"@ {
        Some("**unless** - Conditional (inverted)\n\nSyntax: `unless condition`"@)
    } else if w == "until"@ {
        Some("**until** - Loop (inverted)\n\nSyntax: `until condition`"@)
    } else {
        None
    }
}

/// Hover documentation and the span of the word it is about, on one line.
pub struct HoverInfo {
    pub contents: String,
    pub line: u32,
    pub start: u32,
    pub end: u32,
}

/// The hover for a position: the word there (or the nearest before it) when it is a keyword or
/// operator of the language.
pub open spec fn hover_spec(text: Seq<char>, line: u32, character: u32) -> Option<(Seq<char>, u32, u32, u32)> {
    let lines = lines_from(text, 0);
    if line >= lines.len() {
        None
    } else {
        let cs = lines[line as int];
        match word_span(cs, character as int) {
            None => None,
            Some((start, end)) => if start < end {
                match hover_doc(cs.subrange(start, end)) {
                    Some(doc) => Some((doc, line, start as u32, end as u32)),
                    None => None,
                }
            } else {
                None
            },
        }
    }
}

fn is_word(c: char) -> (b: bool)
    ensures
        b == is_word_char(c),
{
    is_alphanumeric(c) || c == '_'
}

fn doc_for(w: &String) -> (r: Option<String>)
    ensures
        match r {
            Some(d) => hover_doc(w@) == Some(d@),
            None => hover_doc(w@) is None,
        },
{
    let is = |lit: &str| -> (b: bool)
        ensures
            b == (w@ == lit@),
        { *w == lit.to_owned() };
    let d = if is("fn") {
        "**fn** - Define a function\n\nSyntax: `fn name with param1, param2`"
    } else if is("object") {
        "**object** - Define an object type\n\nSyntax: `object name`"
    } else if is("store") {
        "**store** - Define a data store\n\nSyntax: `store name`"
    } else if is("is") {
        "**is** - Assignment operator\n\nSyntax: `variable is value`"
    } else if is("log") {
        "**log** - Output to console\n\nSyntax: `log expression`"
    } else if is("if") {
        "**if** - Conditional statement\n\nSyntax: `if condition`"
    } else if is("else") {
        "**else** - Alternative branch\n\nSyntax: `if condition ... else`"
    } else if is("for") {
        "**for** - Loop over collection\n\nSyntax: `for item in collection`"
    } else if is("while") {
        "**while** - Loop while condition\n\nSyntax: `while condition`"
    } else if is("in") {
        "**in** - Membership operator\n\nUsed in for loops and expressions"
    } else if is("and") {
        "**and** - Logical AND operator"
    } else if is("or") {
        "**or** - Logical OR operator"
    } else if is("not") {
        "**not** - Logical NOT operator"
    } else if is("gt") {
        "**gt** - Greater than comparison"
    } else if is("lt") {
        "**lt** - Less than comparison"
    } else if is("gte") {
        "**gte** - Greater than or equal comparison"
    } else if is("lte") {
        "**lte** - Less than or equal comparison"
    } else if is("equals") {
        "**equals** - Equality comparison"
    } else if is("true") || is("yes") {
        "**Boolean literal** - True value"
    } else if is("false") || is("no") {
        "**Boolean literal** - False value"
    } else if is("make") {
        "**make** - Create instance\n\nSyntax: `make ObjectName`"
    } else if is("with") {
        "**with** - Parameter delimiter\n\nUsed in function definitions"
    } else if is("return") {
        "**return** - Return from function\n\nSyntax: `return value`"
    } else if is("break") {
        "**break** - Exit loop\n\nBreaks out of current loop"
    } else if is("continue") {
        "**continue** - Skip iteration\n\nSkips to next loop iteration"
    } else if is("unless") {
        "**unless** - Conditional (inverted)\n\nSyntax: `unless condition`"
    } else if is("until") {
        "**until** - Loop (inverted)\n\nSyntax: `until condition`"
    } else {
        return None;
    };
    Some(String::from_str(d))
}

/// The hover for a position in a text.
pub fn get_hover_info(text: &str, line: u32, character: u32) -> (r: Option<HoverInfo>)
    ensures
        match r {
            Some(h) => hover_spec(text@, line, character) == Some((h.contents@, h.line, h.start, h.end)),
            None => hover_spec(text@, line, character) is None,
        },
{
    let lines = split_lines(text);
    let ghost lv = lines@.map_values(|l: Vec<char>| l@);
    if line as usize >= lines.len() {
        return None;
    }
    let chars = &lines[line as usize];
    assert(chars@ == lv[line as int]);
    let pos = character as usize;
    if pos > chars.len() {
        return None;
    }
    let mut start = pos;
    let mut end = pos;
    if pos < chars.len() && !is_word(chars[pos]) {
        while start > 0 && !is_word(chars[start - 1])
            invariant
                start <= pos < chars.len(),
                back_over_gap(chars@, pos as int) == back_over_gap(chars@, start as int),
            decreases start,
        {
            start = start - 1;
        }
        if start > 0 {
            start = start - 1;
            end = start;
        } else {
            return None;
        }
    }
    let ghost k = start as int;
    while start > 0 && is_word(chars[start - 1])
        invariant
            start <= k <= chars.len(),
            back_over_word(chars@, k) == back_over_word(chars@, start as int),
        decreases start,
    {
        start = start - 1;
    }
    while end < chars.len() && is_word(chars[end])
        invariant
            k <= end <= chars.len(),
            forward_over_word(chars@, k) == forward_over_word(chars@, end as int),
        decreases chars.len() - end,
    {
        end = end + 1;
    }
    if start < end {
        let mut word = String::new();
        let mut i = start;
        while i < end
            invariant
                start <= i <= end <= chars.len(),
                word@ == chars@.subrange(start as int, i as int),
            decreases end - i,
        {
            push_char(&mut word, chars[i]);
            i = i + 1;
            assert(word@ =~= chars@.subrange(start as int, i as int));
        }
        match doc_for(&word) {
            Some(contents) => Some(HoverInfo { contents, line, start: start as u32, end: end as u32 }),
            None => None,
        }
    } else {
        None
    }
}


/// What a completion offers.
#[derive(Debug, Clone, Copy, PartialEq, Eq, Structural)]
pub enum CompletionKind {
    Keyword,
    Function,
    Operator,
}

/// A completion: its label, kind, detail, documentation and the snippet it inserts.
pub struct Completion {
    pub label: String,
    pub kind: CompletionKind,
    pub detail: String,
    pub documentation: String,
    pub insert_text: String,
}

pub open spec fn completion_view(c: Completion) -> (Seq<char>, CompletionKind, Seq<char>, Seq<char>, Seq<char>) {
    (c.label@, c.kind, c.detail@, c.documentation@, c.insert_text@)
}

/// The completions offered everywhere: snippets for the main keywords, `log`, `is` and `make`, then
/// every other keyword of the language.
pub open spec fn completion_table() -> Seq<(Seq<char>, CompletionKind, Seq<char>, Seq<char>, Seq<char>)> {
    seq![
        ("fn"@, CompletionKind::Keyword, "Function definition"@, "Define a function with parameters"@, "fn ${1:name} with ${2:params}\n    ${0}"@),
        ("object"@, CompletionKind::Keyword, "Object definition"@, "Define an object type"@, "object ${1:name}\n    ${0}"@),
        ("store"@, CompletionKind::Keyword, "Store definition"@, "Define a data store"@, "store ${1:name}\n    ${0}"@),
        ("if"@, CompletionKind::Keyword, "If statement"@, "Conditional execution"@, "if ${1:condition}\n    ${0}"@),
        ("for"@, CompletionKind::Keyword, "For loop"@, "Iterate over a collection"@, "for ${1:item} in ${2:collection}\n    ${0}"@),
        ("while"@, CompletionKind::Keyword, "While loop"@, "Loop while condition is true"@, "while ${1:condition}\n    ${0}"@),
        ("log"@, CompletionKind::Function, "Log output"@, "Output a value to the log"@, "log ${0}"@),
        ("is"@, CompletionKind::Operator, "Assignment operator"@, "Assign a value to a variable"@, "is ${0}"@),
        ("make"@, CompletionKind::Function, "Create instance"@, "Create an instance of an object or store"@, "make ${0}"@),
        keyword_entry("let"@),
        keyword_entry("def"@),
        keyword_entry("actor"@),
        keyword_entry("else"@),
        keyword_entry("return"@),
        keyword_entry("true"@),
        keyword_entry("false"@),
        keyword_entry("and"@),
        keyword_entry("or"@),
        keyword_entry("iterate"@),
        keyword_entry("as"@),
        keyword_entry("with"@),
        keyword_entry("into"@),
        keyword_entry("equals"@),
        keyword_entry("gt"@),
        keyword_entry("gte"@),
        keyword_entry("lt"@),
        keyword_entry("lte"@),
        keyword_entry("unless"@),
        keyword_entry("until"@),
        keyword_entry("across"@)
    ]
}

/// The completion for a keyword that has no snippet of its own: the keyword itself.
pub open spec fn keyword_entry(word: Seq<char>) -> (Seq<char>, CompletionKind, Seq<char>, Seq<char>, Seq<char>) {
    (word, CompletionKind::Keyword, "Keyword"@, "A reserved word of Coral"@, word)
}

fn keyword_completion(word: &str) -> (c: Completion)
    ensures
        completion_view(c) == keyword_entry(word@),
{
    completion(word, CompletionKind::Keyword, "Keyword", "A reserved word of Coral", word)
}

fn completion(label: &str, kind: CompletionKind, detail: &str, documentation: &str, insert_text: &str) -> (c: Completion)
    ensures
        completion_view(c) == (label@, kind, detail@, documentation@, insert_text@),
{
    Completion {
        label: String::from_str(label),
        kind,
        detail: String::from_str(detail),
        documentation: String::from_str(documentation),
        insert_text: String::from_str(insert_text),
    }
}

/// The completions the language server offers.
pub fn get_completions() -> (r: Vec<Completion>)
    ensures
        r@.map_values(|c: Completion| completion_view(c)) == completion_table(),
{
    let mut v: Vec<Completion> = Vec::new();
    v.push(completion("fn", CompletionKind::Keyword, "Function definition", "Define a function with parameters", "fn ${1:name} with ${2:params}\n    ${0}"));
    v.push(completion("object", CompletionKind::Keyword, "Object definition", "Define an object type", "object ${1:name}\n    ${0}"));
    v.push(completion("store", CompletionKind::Keyword, "Store definition", "Define a data store", "store ${1:name}\n    ${0}"));
    v.push(completion("if", CompletionKind::Keyword, "If statement", "Conditional execution", "if ${1:condition}\n    ${0}"));
    v.push(completion("for", CompletionKind::Keyword, "For loop", "Iterate over a collection", "for ${1:item} in ${2:collection}\n    ${0}"));
    v.push(completion("while", CompletionKind::Keyword, "While loop", "Loop while condition is true", "while ${1:condition}\n    ${0}"));
    v.push(completion("log", CompletionKind::Function, "Log output", "Output a value to the log", "log ${0}"));
    v.push(completion("is", CompletionKind::Operator, "Assignment operator", "Assign a value to a variable", "is ${0}"));
    v.push(completion("make", CompletionKind::Function, "Create instance", "Create an instance of an object or store", "make ${0}"));
    v.push(keyword_completion("let"));
    v.push(keyword_completion("def"));
    v.push(keyword_completion("actor"));
    v.push(keyword_completion("else"));
    v.push(keyword_completion("return"));
    v.push(keyword_completion("true"));
    v.push(keyword_completion("false"));
    v.push(keyword_completion("and"));
    v.push(keyword_completion("or"));
    v.push(keyword_completion("iterate"));
    v.push(keyword_completion("as"));
    v.push(keyword_completion("with"));
    v.push(keyword_completion("into"));
    v.push(keyword_completion("equals"));
    v.push(keyword_completion("gt"));
    v.push(keyword_completion("gte"));
    v.push(keyword_completion("lt"));
    v.push(keyword_completion("lte"));
    v.push(keyword_completion("unless"));
    v.push(keyword_completion("until"));
    v.push(keyword_completion("across"));
    assert(v@.map_values(|c: Completion| completion_view(c)) =~= completion_table());
    v
}

/// Every word the lexer reserves as a keyword is offered as a completion.
pub proof fn law_keywords_completed(word: Seq<char>)
    requires
        crate::lexer::keyword_type(word) is Some,
    ensures
        exists|i: int| 0 <= i < completion_table().len() && (#[trigger] completion_table()[i]).0 == word,
{
    let t = completion_table();
    if word == "fn"@ {
        assert(t[0].0 == word);
    }
    if word == "object"@ {
        assert(t[1].0 == word);
    }
    if word == "store"@ {
        assert(t[2].0 == word);
    }
    if word == "if"@ {
        assert(t[3].0 == word);
    }
    if word == "for"@ {
        assert(t[4].0 == word);
    }
    if word == "while"@ {
        assert(t[5].0 == word);
    }
    if word == "log"@ {
        assert(t[6].0 == word);
    }
    if word == "is"@ {
        assert(t[7].0 == word);
    }
    if word == "make"@ {
        assert(t[8].0 == word);
    }
    if word == "let"@ {
        assert(t[9].0 == word);
    }
    if word == "def"@ {
        assert(t[10].0 == word);
    }
    if word == "actor"@ {
        assert(t[11].0 == word);
    }
    if word == "else"@ {
        assert(t[12].0 == word);
    }
    if word == "return"@ {
        assert(t[13].0 == word);
    }
    if word == "true"@ {
        assert(t[14].0 == word);
    }
    if word == "false"@ {
        assert(t[15].0 == word);
    }
    if word == "and"@ {
        assert(t[16].0 == word);
    }
    if word == "or"@ {
        assert(t[17].0 == word);
    }
    if word == "iterate"@ {
        assert(t[18].0 == word);
    }
    if word == "as"@ {
        assert(t[19].0 == word);
    }
    if word == "with"@ {
        assert(t[20].0 == word);
    }
    if word == "into"@ {
        assert(t[21].0 == word);
    }
    if word == "equals"@ {
        assert(t[22].0 == word);
    }
    if word == "gt"@ {
        assert(t[23].0 == word);
    }
    if word == "gte"@ {
        assert(t[24].0 == word);
    }
    if word == "lt"@ {
        assert(t[25].0 == word);
    }
    if word == "lte"@ {
        assert(t[26].0 == word);
    }
    if word == "unless"@ {
        assert(t[27].0 == word);
    }
    if word == "until"@ {
        assert(t[28].0 == word);
    }
    if word == "across"@ {
        assert(t[29].0 == word);
    }
}

/// A highlighted token: its position relative to the previous one, its length in bytes, and
/// its class (0 keyword, 1 string, 2 number, 3 variable, 5 operator, 6 parameter).
pub struct SemanticTokenInfo {
    pub delta_line: u32,
    pub delta_start: u32,
    pub length: u32,
    pub token_type: u32,
    pub token_modifiers: u32,
}

pub open spec fn sem_view(t: SemanticTokenInfo) -> (u32, u32, u32, u32, u32) {
    (t.delta_line, t.delta_start, t.length, t.token_type, t.token_modifiers)
}

/// The highlight class of a token kind, or `None` for a kind that is not highlighted.
pub open spec fn semantic_class(k: TokenType) -> Option<u32> {
    match k {
        TokenType::Is | TokenType::Fn | TokenType::Object | TokenType::Store | TokenType::With | TokenType::If
        | TokenType::Else | TokenType::For | TokenType::In | TokenType::While | TokenType::Return
        | TokenType::Break | TokenType::Continue | TokenType::Unless | TokenType::Until | TokenType::Boolean(_) => Some(0),
        TokenType::ParameterRef(_) => Some(6),
        TokenType::And | TokenType::Or | TokenType::Bang | TokenType::Plus | TokenType::Minus | TokenType::Star
        | TokenType::Slash | TokenType::Percent | TokenType::Gt | TokenType::Lt | TokenType::Equals | TokenType::Gte
        | TokenType::Lte | TokenType::At | TokenType::Question => Some(5),
        TokenType::Identifier(_) => Some(3),
        TokenType::StringLiteral(_) | TokenType::InterpolatedString(_) => Some(1),
        TokenType::Integer(_) | TokenType::Float(_) => Some(2),
        _ => None,
    }
}

fn semantic_class_of(k: &TokenType) -> (r: Option<u32>)
    ensures
        r == semantic_class(*k),
{
    match k {
        TokenType::Is | TokenType::Fn | TokenType::Object | TokenType::Store | TokenType::With | TokenType::If
        | TokenType::Else | TokenType::For | TokenType::In | TokenType::While | TokenType::Return
        | TokenType::Break | TokenType::Continue | TokenType::Unless | TokenType::Until | TokenType::Boolean(_) => Some(0),
        TokenType::ParameterRef(_) => Some(6),
        TokenType::And | TokenType::Or | TokenType::Bang | TokenType::Plus | TokenType::Minus | TokenType::Star
        | TokenType::Slash | TokenType::Percent | TokenType::Gt | TokenType::Lt | TokenType::Equals | TokenType::Gte
        | TokenType::Lte | TokenType::At | TokenType::Question => Some(5),
        TokenType::Identifier(_) => Some(3),
        TokenType::StringLiteral(_) | TokenType::InterpolatedString(_) => Some(1),
        TokenType::Integer(_) | TokenType::Float(_) => Some(2),
        _ => None,
    }
}

/// `a - b`, or zero when `b` is larger.
pub open spec fn sat_sub(a: int, b: int) -> int {
    if a >= b { a - b } else { 0 }
}

/// The highlighted tokens from `i` on, up to the end-of-file token, each placed relative to the
/// previous highlighted one (zero-based line `prev_line`, column `prev_char`): the line
/// difference, and the column difference on the same line or the column itself on a new line.
pub open spec fn semantic_from(toks: Seq<Token>, i: int, prev_line: int, prev_char: int) -> Seq<(u32, u32, u32, u32, u32)>
    decreases toks.len() - i,
{
    if i < 0 || i >= toks.len() || toks[i].kind is Eof {
        Seq::empty()
    } else {
        match semantic_class(toks[i].kind) {
            None => semantic_from(toks, i + 1, prev_line, prev_char),
            Some(c) => {
                let line = sat_sub(toks[i].line as int, 1);
                let col = sat_sub(toks[i].col as int, 1);
                let dl = sat_sub(line, prev_line) as u32;
                let dc = if dl > 0 { col as u32 } else { sat_sub(col, prev_char) as u32 };
                seq![(dl, dc, utf8_len(toks[i].lexeme@) as u32, c, 0u32)] + semantic_from(toks, i + 1, line, col)
            },
        }
    }
}

/// The semantic tokens of a token stream, for highlighting.
pub fn semantic_tokens(tokens: &Vec<Token>) -> (r: Vec<SemanticTokenInfo>)
    ensures
        r@.map_values(|t: SemanticTokenInfo| sem_view(t)) == semantic_from(tokens@, 0, 0, 0),
{
    let mut out: Vec<SemanticTokenInfo> = Vec::new();
    let mut prev_line: usize = 0;
    let mut prev_char: usize = 0;
    let mut i: usize = 0;
    while i < tokens.len()
        invariant_except_break
            semantic_from(tokens@, 0, 0, 0) == out@.map_values(|t: SemanticTokenInfo| sem_view(t))
                + semantic_from(tokens@, i as int, prev_line as int, prev_char as int),
        invariant
            i <= tokens.len(),
        ensures
            semantic_from(tokens@, 0, 0, 0) == out@.map_values(|t: SemanticTokenInfo| sem_view(t)),
        decreases tokens.len() - i,
    {
        let token = &tokens[i];
        if let TokenType::Eof = token.kind {
            assert(out@.map_values(|t: SemanticTokenInfo| sem_view(t)) + Seq::empty() =~= out@.map_values(|t: SemanticTokenInfo| sem_view(t)));
            break;
        }
        let ghost before = out@.map_values(|t: SemanticTokenInfo| sem_view(t));
        match semantic_class_of(&token.kind) {
            None => {},
            Some(c) => {
                let token_line: usize = if token.line >= 1 { token.line - 1 } else { 0 };
                let token_char: usize = if token.col >= 1 { token.col - 1 } else { 0 };
                let delta_line: u32 = (if token_line >= prev_line { token_line - prev_line } else { 0 }) as u32;
                let delta_char: u32 = if delta_line > 0 {
                    token_char as u32
                } else {
                    (if token_char >= prev_char { token_char - prev_char } else { 0 }) as u32
                };
                let length = utf8_length(token.lexeme.as_str()) as u32;
                out.push(SemanticTokenInfo { delta_line, delta_start: delta_char, length, token_type: c, token_modifiers: 0 });
                assert(out@.map_values(|t: SemanticTokenInfo| sem_view(t)) =~= before.push(
                    (delta_line, delta_char, length, c, 0u32),
                ));
                assert(before + semantic_from(tokens@, i as int, prev_line as int, prev_char as int) =~= out@.map_values(
                    |t: SemanticTokenInfo| sem_view(t),
                ) + semantic_from(tokens@, i + 1, token_line as int, token_char as int));
                prev_line = token_line;
                prev_char = token_char;
            },
        }
        i = i + 1;
    }
    if i >= tokens.len() {
        assert(out@.map_values(|t: SemanticTokenInfo| sem_view(t)) + Seq::empty() =~= out@.map_values(|t: SemanticTokenInfo| sem_view(t)));
    }
    out
}

/// An error found in a document: its one-based line, its column, how many characters it
/// spans if known, and its message.
pub struct ErrorRecord {
    pub line: usize,
    pub col: usize,
    pub length: Option<usize>,
    pub message: String,
}

/// A diagnostic: the range it marks (zero-based line, start and end column) and its message.
pub struct DiagnosticInfo {
    pub start_line: u32,
    pub start_char: u32,
    pub end_line: u32,
    pub end_char: u32,
    pub message: String,
}

pub open spec fn diagnostic_view(d: DiagnosticInfo) -> (u32, u32, u32, u32, Seq<char>) {
    (d.start_line, d.start_char, d.end_line, d.end_char, d.message@)
}

/// The span of an error: its length, one character when unknown.
pub open spec fn error_length(e: ErrorRecord) -> int {
    match e.length {
        Some(n) => n as int,
        None => 1,
    }
}

/// The diagnostic of an error: on line `line - 1` (zero when the line is zero), from its column
/// to its column plus its length.
pub open spec fn diagnostic_spec(e: ErrorRecord) -> (u32, u32, u32, u32, Seq<char>) {
    let line = sat_sub(e.line as int, 1) as u32;
    (line, e.col as u32, line, (e.col + error_length(e)) as u32, e.message@)
}

/// The diagnostics of a list of errors, one for each, in order.
pub fn diagnostics(errors: &Vec<ErrorRecord>) -> (r: Vec<DiagnosticInfo>)
    requires
        forall|i: int| 0 <= i < errors.len() ==> #[trigger] errors[i].col + error_length(errors[i]) <= usize::MAX,
    ensures
        r@.map_values(|d: DiagnosticInfo| diagnostic_view(d)) == errors@.map_values(|e: ErrorRecord| diagnostic_spec(e)),
{
    let mut out: Vec<DiagnosticInfo> = Vec::new();
    let mut i: usize = 0;
    while i < errors.len()
        invariant
            i <= errors.len(),
            forall|j: int| 0 <= j < errors.len() ==> #[trigger] errors[j].col + error_length(errors[j]) <= usize::MAX,
            out@.map_values(|d: DiagnosticInfo| diagnostic_view(d)) == errors@.take(i as int).map_values(
                |e: ErrorRecord| diagnostic_spec(e),
            ),
        decreases errors.len() - i,
    {
        let e = &errors[i];
        let line: u32 = (if e.line >= 1 { e.line - 1 } else { 0 }) as u32;
        let len: usize = match e.length {
            Some(n) => n,
            None => 1,
        };
        let d = DiagnosticInfo {
            start_line: line,
            start_char: e.col as u32,
            end_line: line,
            end_char: (e.col + len) as u32,
            message: e.message.clone(),
        };
        let ghost before = out@.map_values(|d: DiagnosticInfo| diagnostic_view(d));
        out.push(d);
        assert(out@.map_values(|d: DiagnosticInfo| diagnostic_view(d)) =~= before.push(diagnostic_spec(errors@[i as int])));
        assert(errors@.take(i + 1) =~= errors@.take(i as int).push(errors@[i as int]));
        i = i + 1;
    }
    assert(errors@.take(errors.len() as int) =~= errors@);
    out
}

} // verus!
