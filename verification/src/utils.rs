//! Comments, labels and whitelists in program text.
use vstd::prelude::*;

use crate::text::{
    is_ws, occurs_at, chars_to_string, copy_chars, eq_str, find, find_exec, join_lines, join_lines_exec, join_space, join_space_exec,
    lines_exec, push_range, push_str, segments, split_char, split_whitespace, string_views, text_lines, to_chars,
    tokens, trim, trim_exec, views,
};
use crate::instructions::error_handling::{
    error_range, BuildProgramError, BuildProgramErrorTypes, InstructionParseError, ParseErrorV, ProgramErrorV,
};
use crate::instructions::notation::{instruction_kind, Identifier};
use crate::instructions::parsing::{cleaned, instruction_readable, line_spec, parts_readable, parts_spec, readable};
use crate::instructions::Instruction;

verus! {

/// Where the comment of a line starts: at the first `//` or the first `#`,
/// whichever comes first; `None` when the line has neither.
pub open spec fn comment_start(line: Seq<char>) -> Option<int> {
    match (find(line, "//"@), find(line, "#"@)) {
        (Some(i), Some(j)) => Some(if i <= j { i } else { j }),
        (Some(i), None) => Some(i),
        (None, Some(j)) => Some(j),
        (None, None) => None,
    }
}

/// A line without its comment: everything from where the comment starts is
/// dropped, and so is the white space around the rest.
pub open spec fn without_comment(line: Seq<char>) -> Seq<char> {
    match comment_start(line) {
        Some(i) => trim(line.take(i)),
        None => trim(line),
    }
}

/// The comment of a line, from where it starts on, without the white space
/// around it; empty when the line has none.
pub open spec fn comment_of(line: Seq<char>) -> Seq<char> {
    match comment_start(line) {
        Some(i) => trim(line.skip(i)),
        None => Seq::empty(),
    }
}

/// The text `s` with the comment of each line removed.
pub open spec fn remove_comment_spec(s: Seq<char>) -> Seq<char> {
    join_lines(text_lines(s).map_values(|l: Seq<char>| without_comment(l)))
}

/// The comments of the lines of `s`, one per line.
pub open spec fn comments_spec(s: Seq<char>) -> Seq<char> {
    join_lines(text_lines(s).map_values(|l: Seq<char>| comment_of(l)))
}

/// The two marks that start a comment: `//` and `#`.
pub open spec fn comment_marker(m: Seq<char>) -> bool {
    m == "//"@ || m == "#"@
}

/// `s` holds no comment mark.
pub open spec fn comment_free(s: Seq<char>) -> bool {
    find(s, "//"@) is None && find(s, "#"@) is None
}

/// Every character of `s` is white space other than a line feed.
pub open spec fn blank_in_line(s: Seq<char>) -> bool {
    forall|i: int| 0 <= i < s.len() ==> is_ws(#[trigger] s[i]) && s[i] != '\n'
}

proof fn lemma_pair_at(s: Seq<char>, p: Seq<char>, m: int)
    requires
        p.len() == 2,
        occurs_at(s, p, m),
    ensures
        s[m] == p[0],
        s[m + 1] == p[1],
{
    assert(s.subrange(m, m + 2)[0] == s[m]);
    assert(s.subrange(m, m + 2)[1] == s[m + 1]);
}

proof fn lemma_pair_in(x: Seq<char>, s: Seq<char>, p: Seq<char>, m: int)
    requires
        p.len() == 2,
        x.len() <= s.len(),
        forall|k: int| 0 <= k < x.len() ==> #[trigger] s[k] == x[k],
        0 <= m,
        m + 1 < x.len(),
        s[m] == p[0],
        s[m + 1] == p[1],
    ensures
        occurs_at(x, p, m),
{
    assert(x.subrange(m, m + 2) =~= p);
}

proof fn lemma_marker_slashes(line: Seq<char>, sep: Seq<char>, comment: Seq<char>)
    requires
        comment_free(line),
        blank_in_line(sep),
        sep.len() == 0 && line.len() > 0 ==> line.last() != '/',
    ensures
        find(line + sep + "//"@ + comment, "//"@) == Some((line.len() + sep.len()) as int),
{
    reveal_strlit("//");
    let slashes = "//"@;
    let s = line + sep + slashes + comment;
    let k0: int = (line.len() + sep.len()) as int;
    assert(slashes.len() == 2 && slashes[0] == '/' && slashes[1] == '/');
    crate::text::lemma_find_from(line, slashes, 0);
    assert forall|k: int| 0 <= k < line.len() implies #[trigger] s[k] == line[k] by {}
    assert(s.subrange(k0, k0 + 2) =~= slashes);
    assert forall|m: int| 0 <= m < k0 implies !occurs_at(s, slashes, m) by {
        if occurs_at(s, slashes, m) {
            lemma_pair_at(s, slashes, m);
            if m + 1 < line.len() {
                lemma_pair_in(line, s, slashes, m);
            } else if m < line.len() {
                if sep.len() > 0 {
                    assert(s[m + 1] == sep[0]);
                } else {
                    assert(line.last() == line[m]);
                }
            } else {
                assert(s[m] == sep[m - line.len()]);
            }
        }
    }
    assert(occurs_at(s, slashes, k0));
    crate::text::lemma_find_from(s, slashes, 0);
    if find(s, slashes) is Some {
        let k = find(s, slashes)->0;
        assert(k >= k0);
        assert(k <= k0);
    }
}

proof fn lemma_slashes_later(line: Seq<char>, sep: Seq<char>, comment: Seq<char>)
    requires
        comment_free(line),
        blank_in_line(sep),
    ensures
        find(line + sep + "#"@ + comment, "//"@) matches Some(k) ==> k > line.len() + sep.len(),
{
    reveal_strlit("//");
    reveal_strlit("#");
    let slashes = "//"@;
    let hash = "#"@;
    let s = line + sep + hash + comment;
    let k0: int = (line.len() + sep.len()) as int;
    assert(slashes.len() == 2 && slashes[0] == '/' && slashes[1] == '/');
    assert(hash.len() == 1 && hash[0] == '#');
    crate::text::lemma_find_from(line, slashes, 0);
    assert forall|k: int| 0 <= k < line.len() implies #[trigger] s[k] == line[k] by {}
    assert forall|m: int| 0 <= m <= k0 implies !occurs_at(s, slashes, m) by {
        if occurs_at(s, slashes, m) {
            lemma_pair_at(s, slashes, m);
            if m + 1 < line.len() {
                lemma_pair_in(line, s, slashes, m);
            } else if m < line.len() {
                if sep.len() > 0 {
                    assert(s[m + 1] == sep[0]);
                } else {
                    assert(s[m + 1] == hash[0]);
                }
            } else if m < k0 {
                assert(s[m] == sep[m - line.len()]);
            } else {
                assert(s[m] == hash[0]);
            }
        }
    }
    crate::text::lemma_find_from(s, slashes, 0);
}

proof fn lemma_hash_later(line: Seq<char>, sep: Seq<char>, comment: Seq<char>)
    requires
        comment_free(line),
        blank_in_line(sep),
    ensures
        find(line + sep + "//"@ + comment, "#"@) matches Some(k) ==> k > line.len() + sep.len(),
{
    reveal_strlit("//");
    reveal_strlit("#");
    let slashes = "//"@;
    let hash = "#"@;
    let s = line + sep + slashes + comment;
    let k0: int = (line.len() + sep.len()) as int;
    assert(slashes.len() == 2 && slashes[0] == '/' && slashes[1] == '/');
    assert(hash.len() == 1 && hash[0] == '#');
    crate::text::lemma_find_from(line, hash, 0);
    assert forall|k: int| 0 <= k < line.len() implies #[trigger] s[k] == line[k] by {}
    assert forall|m: int| 0 <= m <= k0 implies !occurs_at(s, hash, m) by {
        if occurs_at(s, hash, m) {
            assert(s.subrange(m, m + hash.len()) == hash);
            assert(s.subrange(m, m + hash.len())[0] == s[m]);
            if m < line.len() {
                assert(line.subrange(m, m + hash.len()) =~= hash);
                assert(occurs_at(line, hash, m));
            } else if m < k0 {
                assert(s[m] == sep[m - line.len()]);
            } else {
                assert(s[m] == slashes[0]);
            }
        }
    }
    crate::text::lemma_find_from(s, hash, 0);
}

proof fn lemma_marker_hash(line: Seq<char>, sep: Seq<char>, comment: Seq<char>)
    requires
        comment_free(line),
        blank_in_line(sep),
    ensures
        find(line + sep + "#"@ + comment, "#"@) == Some((line.len() + sep.len()) as int),
{
    reveal_strlit("#");
    let hash = "#"@;
    let s = line + sep + hash + comment;
    let k0: int = (line.len() + sep.len()) as int;
    assert(hash.len() == 1 && hash[0] == '#');
    crate::text::lemma_find_from(line, hash, 0);
    assert forall|k: int| 0 <= k < line.len() implies #[trigger] s[k] == line[k] by {}
    assert forall|k: int| 0 <= k < sep.len() implies #[trigger] s[line.len() + k] == sep[k] by {}
    assert(s.subrange(k0, k0 + 1) =~= hash);
    assert forall|m: int| 0 <= m < k0 implies !occurs_at(s, hash, m) by {
        if occurs_at(s, hash, m) {
            assert(s.subrange(m, m + hash.len()) == hash);
            assert(s.subrange(m, m + hash.len())[0] == s[m]);
            assert(s[m] == '#');
            if m < line.len() {
                assert(s[m] == line[m]);
                assert(line.subrange(m, m + hash.len()) =~= hash);
                assert(occurs_at(line, hash, m));
            } else {
                assert(s[line.len() + (m - line.len())] == sep[m - line.len()]);
                assert(is_ws(s[m]));
            }
        }
    }
    assert(occurs_at(s, hash, k0));
    crate::text::lemma_find_from(s, hash, 0);
    if find(s, hash) is Some {
        let k = find(s, hash)->0;
        assert(k >= k0);
        assert(k <= k0);
    }
}

/// A prefix of a text holds no occurrence that the text does not hold.
pub proof fn lemma_find_none_prefix(x: Seq<char>, p: Seq<char>, k: int)
    requires
        0 <= k <= x.len(),
        find(x, p) is None,
    ensures
        find(x.take(k), p) is None,
{
    crate::text::lemma_find_from(x, p, 0);
    crate::text::lemma_find_from(x.take(k), p, 0);
    if find(x.take(k), p) is Some {
        let m = find(x.take(k), p)->0;
        assert(x.take(k).subrange(m, m + p.len()) =~= x.subrange(m, m + p.len()));
        assert(occurs_at(x, p, m));
    }
}

/// A line without a comment mark is only trimmed.
pub proof fn lemma_no_comment(line: Seq<char>)
    requires
        comment_free(line),
    ensures
        without_comment(line) == trim(line),
{
}

/// A line followed by white space and a comment: the comment and the white
/// space go, what is left is the line trimmed.
pub proof fn lemma_inline_comment(line: Seq<char>, sep: Seq<char>, marker: Seq<char>, comment: Seq<char>)
    requires
        comment_marker(marker),
        comment_free(line),
        blank_in_line(sep),
        marker == "//"@ && sep.len() == 0 && line.len() > 0 ==> line.last() != '/',
    ensures
        without_comment(line + sep + marker + comment) == trim(line),
{
    let s = line + sep + marker + comment;
    let k0: int = (line.len() + sep.len()) as int;
    assert(s.take(k0) =~= line + sep);
    crate::text::lemma_trim_append_ws(line, sep);
    if marker == "//"@ {
        lemma_marker_slashes(line, sep, comment);
        lemma_hash_later(line, sep, comment);
    } else {
        lemma_slashes_later(line, sep, comment);
        lemma_marker_hash(line, sep, comment);
    }
}

fn comment_start_exec(line: &[char]) -> (res: Option<usize>)
    ensures
        res matches Some(i) ==> comment_start(line@) == Some(i as int) && i <= line.len(),
        res is None ==> comment_start(line@) is None,
{
    let slashes = to_chars("//");
    let hash = to_chars("#");
    let a = find_exec(line, slashes.as_slice());
    let b = find_exec(line, hash.as_slice());
    proof {
        crate::text::lemma_find_from(line@, "//"@, 0);
        crate::text::lemma_find_from(line@, "#"@, 0);
    }
    match (a, b) {
        (Some(i), Some(j)) => Some(if i <= j { i } else { j }),
        (Some(i), None) => Some(i),
        (None, Some(j)) => Some(j),
        (None, None) => None,
    }
}

fn without_comment_exec(line: &[char]) -> (res: Vec<char>)
    ensures
        res@ == without_comment(line@),
{
    let end = match comment_start_exec(line) {
        Some(i) => i,
        None => line.len(),
    };
    let mut head: Vec<char> = Vec::new();
    push_range(&mut head, line, 0, end);
    assert(head@ =~= line@.take(end as int));
    assert(line@.take(line@.len() as int) =~= line@);
    trim_exec(head.as_slice())
}

fn comment_exec(line: &[char]) -> (res: Vec<char>)
    ensures
        res@ == comment_of(line@),
{
    let start = match comment_start_exec(line) {
        Some(i) => i,
        None => return Vec::new(),
    };
    let mut tail: Vec<char> = Vec::new();
    push_range(&mut tail, line, start, line.len());
    assert(tail@ =~= line@.skip(start as int));
    trim_exec(tail.as_slice())
}

pub(crate) fn remove_comment_chars(s: &[char]) -> (res: Vec<char>)
    ensures
        res@ == remove_comment_spec(s@),
{
    let lines = lines_exec(s);
    let mut cleaned: Vec<Vec<char>> = Vec::new();
    let mut i: usize = 0;
    while i < lines.len()
        invariant
            i <= lines.len(),
            views(lines@) == text_lines(s@),
            views(cleaned@) == views(lines@).take(i as int).map_values(|l: Seq<char>| without_comment(l)),
        decreases lines.len() - i,
    {
        let c = without_comment_exec(lines[i].as_slice());
        let ghost before = cleaned@;
        cleaned.push(c);
        assert(views(cleaned@) =~= views(before).push(c@));
        assert(views(lines@).take(i + 1).map_values(|l: Seq<char>| without_comment(l)) =~= views(lines@).take(
            i as int,
        ).map_values(|l: Seq<char>| without_comment(l)).push(without_comment(lines@[i as int]@)));
        i = i + 1;
    }
    assert(views(lines@).take(lines.len() as int) =~= views(lines@));
    join_lines_exec(&cleaned)
}

/// Removes everything from the first comment mark, `//` or `#`, whichever
/// comes first, to the end of each line, and the white space around what is
/// left.
pub fn remove_comment(instruction: &str) -> (res: String)
    ensures
        res@ == remove_comment_spec(instruction@),
{
    let c = to_chars(instruction);
    let r = remove_comment_chars(c.as_slice());
    chars_to_string(r.as_slice())
}

/// The comments of the lines of `instruction`, each from its first comment
/// mark, `//` or `#`, whichever comes first; `None` when there is none.
pub fn get_comment(instruction: &str) -> (res: Option<String>)
    ensures
        comments_spec(instruction@).len() == 0 ==> res is None,
        comments_spec(instruction@).len() > 0 ==> (res matches Some(c) && c@ == comments_spec(instruction@)),
{
    let c = to_chars(instruction);
    let lines = lines_exec(c.as_slice());
    let mut found: Vec<Vec<char>> = Vec::new();
    let mut i: usize = 0;
    while i < lines.len()
        invariant
            i <= lines.len(),
            views(lines@) == text_lines(instruction@),
            views(found@) == views(lines@).take(i as int).map_values(|l: Seq<char>| comment_of(l)),
        decreases lines.len() - i,
    {
        let k = comment_exec(lines[i].as_slice());
        let ghost before = found@;
        found.push(k);
        assert(views(found@) =~= views(before).push(k@));
        assert(views(lines@).take(i + 1).map_values(|l: Seq<char>| comment_of(l)) =~= views(lines@).take(
            i as int,
        ).map_values(|l: Seq<char>| comment_of(l)).push(comment_of(lines@[i as int]@)));
        i = i + 1;
    }
    assert(views(lines@).take(lines.len() as int) =~= views(lines@));
    let joined = join_lines_exec(&found);
    if joined.len() == 0 {
        None
    } else {
        Some(chars_to_string(joined.as_slice()))
    }
}

/// The parts of a line after a label at its start is taken off.
pub open spec fn after_label(t: Seq<Seq<char>>) -> Seq<Seq<char>> {
    if t.len() > 0 && t[0].len() > 0 && t[0].last() == ':' {
        t.drop_first()
    } else {
        t
    }
}

/// A line without its comment and without a label at its start.
pub open spec fn cleanup_spec(s: Seq<char>) -> Seq<char> {
    let l = remove_comment_spec(s);
    let t = tokens(l);
    if t.len() == 0 {
        Seq::empty()
    } else if t[0].len() > 0 && t[0].last() == ':' {
        join_space(t.drop_first())
    } else {
        l
    }
}

/// Removes the comment and a label at the start of a line.
pub fn cleanup_instruction_line(line: String) -> (res: String)
    ensures
        res@ == cleanup_spec(line@),
{
    let c = to_chars(line.as_str());
    let l = remove_comment_chars(c.as_slice());
    let splits = split_whitespace(l.as_slice());
    if splits.len() == 0 {
        return String::new();
    }
    assert(views(splits@)[0] == splits@[0]@);
    let first = splits[0].as_slice();
    if first.len() > 0 && first[first.len() - 1] == ':' {
        let mut rest: Vec<Vec<char>> = Vec::new();
        let mut i: usize = 1;
        while i < splits.len()
            invariant
                1 <= i <= splits.len(),
                views(rest@) == views(splits@).subrange(1, i as int),
            decreases splits.len() - i,
        {
            let w = copy_chars(splits[i].as_slice());
            let ghost before = rest@;
            rest.push(w);
            assert(views(rest@) =~= views(before).push(w@));
            assert(views(splits@).subrange(1, i + 1) =~= views(splits@).subrange(1, i as int).push(splits@[i as int]@));
            i = i + 1;
        }
        assert(views(splits@).subrange(1, splits.len() as int) =~= views(splits@).drop_first());
        let joined = join_space_exec(&rest);
        return chars_to_string(joined.as_slice());
    }
    chars_to_string(l.as_slice())
}

/// The code that stands for a placeholder of a whitelist line.
pub open spec fn placeholder_code(chunk: Seq<char>) -> Seq<char> {
    if chunk == "A"@ {
        "a0"@
    } else if chunk == "M"@ {
        "p(h1)"@
    } else if chunk == "C"@ {
        "0"@
    } else if chunk == "Y"@ {
        "y"@
    } else if chunk == "OP"@ {
        "+"@
    } else if chunk == "stackOP"@ {
        "stack+"@
    } else if chunk == "CMP"@ {
        "=="@
    } else if chunk == "goto"@ {
        "goto loop"@
    } else {
        chunk
    }
}

/// A whitelist line as code: `goto` and `call` get the label `loop`, and
/// each space separated placeholder is replaced.
pub open spec fn prepared_line(line: Seq<char>) -> Seq<char> {
    if line == "goto"@ {
        "goto loop"@
    } else if line == "call"@ {
        "call loop"@
    } else {
        join_space(segments(line, ' ').map_values(|c: Seq<char>| placeholder_code(c)))
    }
}

fn placeholder_code_exec(chunk: &[char]) -> (res: Vec<char>)
    ensures
        res@ == placeholder_code(chunk@),
{
    let lit = if eq_str(chunk, "A") {
        "a0"
    } else if eq_str(chunk, "M") {
        "p(h1)"
    } else if eq_str(chunk, "C") {
        "0"
    } else if eq_str(chunk, "Y") {
        "y"
    } else if eq_str(chunk, "OP") {
        "+"
    } else if eq_str(chunk, "stackOP") {
        "stack+"
    } else if eq_str(chunk, "CMP") {
        "=="
    } else if eq_str(chunk, "goto") {
        "goto loop"
    } else {
        return copy_chars(chunk);
    };
    to_chars(lit)
}

fn prepared_line_exec(line: &[char]) -> (res: Vec<char>)
    ensures
        res@ == prepared_line(line@),
{
    if eq_str(line, "goto") {
        return to_chars("goto loop");
    }
    if eq_str(line, "call") {
        return to_chars("call loop");
    }
    let chunks = split_char(line, ' ');
    let mut mapped: Vec<Vec<char>> = Vec::new();
    let mut i: usize = 0;
    while i < chunks.len()
        invariant
            i <= chunks.len(),
            views(chunks@) == segments(line@, ' '),
            views(mapped@) == views(chunks@).take(i as int).map_values(|c: Seq<char>| placeholder_code(c)),
        decreases chunks.len() - i,
    {
        let m = placeholder_code_exec(chunks[i].as_slice());
        let ghost before = mapped@;
        mapped.push(m);
        assert(views(mapped@) =~= views(before).push(m@));
        assert(views(chunks@).take(i + 1).map_values(|c: Seq<char>| placeholder_code(c)) =~= views(chunks@).take(
            i as int,
        ).map_values(|c: Seq<char>| placeholder_code(c)).push(placeholder_code(chunks@[i as int]@)));
        i = i + 1;
    }
    assert(views(chunks@).take(chunks.len() as int) =~= views(chunks@));
    join_space_exec(&mapped)
}

/// Turns the lines of a whitelist of instruction kinds into code that reads
/// as instructions of these kinds:
/// `A` becomes `a0`, `M` `p(h1)`, `C` `0`, `Y` `y`, `OP` `+`, `stackOP`
/// `stack+`, `CMP` `==`, and `goto` and `call` get the label `loop`.
pub fn prepare_whitelist_file(content: Vec<String>) -> (res: Vec<String>)
    ensures
        string_views(res@) == string_views(content@).map_values(|l: Seq<char>| prepared_line(l)),
{
    let mut prepared: Vec<String> = Vec::new();
    let mut i: usize = 0;
    while i < content.len()
        invariant
            i <= content.len(),
            string_views(prepared@) == string_views(content@).take(i as int).map_values(|l: Seq<char>| prepared_line(l)),
        decreases content.len() - i,
    {
        let c = to_chars(content[i].as_str());
        let p = prepared_line_exec(c.as_slice());
        let s = chars_to_string(p.as_slice());
        let ghost before = prepared@;
        prepared.push(s);
        assert(string_views(prepared@) =~= string_views(before).push(s@));
        assert(string_views(content@).take(i + 1).map_values(|l: Seq<char>| prepared_line(l)) =~= string_views(
            content@,
        ).take(i as int).map_values(|l: Seq<char>| prepared_line(l)).push(prepared_line(content@[i as int]@)));
        i = i + 1;
    }
    assert(string_views(content@).take(content.len() as int) =~= string_views(content@));
    prepared
}

/// The parts of an instruction history line: its comment and a label at its
/// start are dropped.
pub open spec fn history_parts(line: Seq<char>) -> Seq<Seq<char>> {
    after_label(tokens(remove_comment_spec(line)))
}

/// Nothing but white space is left of the line without its comment.
pub open spec fn history_line_blank(line: Seq<char>) -> bool {
    tokens(remove_comment_spec(line)).len() == 0
}

/// Every line of a history is blank or its instruction can be read (see
/// [`readable`]); a line with a label and nothing after it cannot.
pub open spec fn history_readable(lines: Seq<Seq<char>>) -> bool {
    forall|i: int| 0 <= i < lines.len() ==> history_line_blank(#[trigger] lines[i]) || readable(cleaned(history_parts(lines[i])))
}

/// Tells whether every line of a history is blank or can be read (see
/// [`history_readable`]), which [`check_instruction_history`] requires.
pub fn history_is_readable(content: &Vec<String>) -> (res: bool)
    ensures
        res == history_readable(string_views(content@)),
{
    let mut i: usize = 0;
    while i < content.len()
        invariant
            i <= content.len(),
            forall|k: int| 0 <= k < i ==> history_line_blank(#[trigger] string_views(content@)[k]) || readable(
                cleaned(history_parts(string_views(content@)[k])),
            ),
        decreases content.len() - i,
    {
        assert(string_views(content@)[i as int] == content@[i as int]@);
        let c = to_chars(content[i].as_str());
        let l = remove_comment_chars(c.as_slice());
        let splits = split_whitespace(l.as_slice());
        if splits.len() > 0 {
            let rest = drop_label(&splits);
            if !parts_readable(&rest) {
                return false;
            }
        }
        i = i + 1;
    }
    true
}

/// The distinct instructions `acc` after the history line `line`, number
/// `number` of the file `file`, is checked: a blank line adds nothing, an
/// instruction is added unless it is there, and a line that is no
/// instruction is an error.
#[verifier::opaque]
pub open spec fn history_step(acc: Seq<Seq<char>>, line: Seq<char>, file: Seq<char>, number: int) -> Result<Seq<Seq<char>>, ProgramErrorV> {
    let text = join_space(history_parts(line));
    if history_line_blank(line) {
        Ok(acc)
    } else {
        match parts_spec(cleaned(history_parts(line))) {
            Err(e) => Err(ProgramErrorV::ParseError(file, number as usize, e)),
            Ok(_) => if acc.contains(text) {
                Ok(acc)
            } else {
                Ok(acc.push(text))
            },
        }
    }
}

/// The distinct instructions of the first `n` lines of the history `lines`
/// of the file `file`, in the order in which they first occur and with
/// their parts joined by single spaces; or the error of the first line that
/// holds no instruction. Blank lines are skipped.
pub open spec fn history_prefix(lines: Seq<Seq<char>>, file: Seq<char>, n: int) -> Result<Seq<Seq<char>>, ProgramErrorV>
    decreases n,
{
    if n <= 0 {
        Ok(Seq::empty())
    } else {
        match history_prefix(lines, file, n - 1) {
            Err(e) => Err(e),
            Ok(acc) => history_step(acc, lines[n - 1], file, n),
        }
    }
}

pub(crate) fn same_chars(a: &[char], b: &[char]) -> (res: bool)
    ensures
        res == (a@ == b@),
{
    if a.len() != b.len() {
        return false;
    }
    let mut i: usize = 0;
    while i < a.len()
        invariant
            i <= a.len(),
            a.len() == b.len(),
            forall|k: int| 0 <= k < i ==> a@[k] == b@[k],
        decreases a.len() - i,
    {
        if a[i] != b[i] {
            return false;
        }
        i = i + 1;
    }
    assert(a@ =~= b@);
    true
}

fn contains_text(v: &Vec<Vec<char>>, t: &[char]) -> (res: bool)
    ensures
        res == views(v@).contains(t@),
{
    let mut i: usize = 0;
    while i < v.len()
        invariant
            i <= v.len(),
            forall|k: int| 0 <= k < i ==> views(v@)[k] != t@,
        decreases v.len() - i,
    {
        if same_chars(v[i].as_slice(), t) {
            assert(views(v@)[i as int] == t@);
            return true;
        }
        i = i + 1;
    }
    false
}

/// The parts after a label at the start of `t`, if there is one.
fn drop_label(t: &Vec<Vec<char>>) -> (res: Vec<Vec<char>>)
    ensures
        views(res@) == after_label(views(t@)),
{
    let ghost tv = views(t@);
    if t.len() > 0 {
        assert(tv[0] == t@[0]@);
    }
    let start: usize = if t.len() > 0 && t[0].len() > 0 && t[0][t[0].len() - 1] == ':' { 1 } else { 0 };
    let mut rest: Vec<Vec<char>> = Vec::new();
    let mut k: usize = start;
    while k < t.len()
        invariant
            start <= k <= t.len(),
            tv == views(t@),
            views(rest@) == tv.subrange(start as int, k as int),
        decreases t.len() - k,
    {
        let w = copy_chars(t[k].as_slice());
        let ghost b = rest@;
        rest.push(w);
        assert(views(rest@) =~= views(b).push(w@));
        assert(tv.subrange(start as int, k + 1) =~= tv.subrange(start as int, k as int).push(t@[k as int]@));
        k = k + 1;
    }
    assert(tv.subrange(start as int, t.len() as int) =~= after_label(tv));
    rest
}

fn check_history_line(line: &str, idx: usize, file_name: &str, checked: &mut Vec<Vec<char>>) -> (res: Result<(), BuildProgramError>)
    requires
        history_line_blank(line@) || readable(cleaned(history_parts(line@))),
        idx < usize::MAX,
    ensures
        match history_step(views(old(checked)@), line@, file_name@, idx + 1) {
            Ok(acc) => res is Ok && views(final(checked)@) == acc,
            Err(e) => res matches Err(x) && x@ == e,
        },
{
    proof {
        reveal(history_step);
    }
    let c = to_chars(line);
    let l = remove_comment_chars(c.as_slice());
    let splits = split_whitespace(l.as_slice());
    if splits.len() == 0 {
        return Ok(());
    }
    let rest = drop_label(&splits);
    match Instruction::try_from_parts(&rest) {
        Err(e) => {
            return Err(BuildProgramError {
                reason: BuildProgramErrorTypes::ParseError { file_name: file_name.to_string(), line: idx + 1, reason: e },
            });
        },
        Ok(_) => {},
    }
    let text = join_space_exec(&rest);
    if !contains_text(checked, text.as_slice()) {
        let ghost before = checked@;
        checked.push(text);
        assert(views(checked@) =~= views(before).push(text@));
    }
    Ok(())
}

/// Checks the lines of an instruction history read from the file
/// `file_name`: each line without its comment and its label must be an
/// instruction. Returns the distinct instructions, in the order in which
/// they first occur, with their parts joined by single spaces; fails with
/// the error of the first line that is no instruction.
pub fn check_instruction_history(content: &Vec<String>, file_name: &str) -> (res: Result<Vec<String>, BuildProgramError>)
    requires
        history_readable(string_views(content@)),
        content.len() < usize::MAX,
    ensures
        match history_prefix(string_views(content@), file_name@, content.len() as int) {
            Ok(h) => res matches Ok(v) && string_views(v@) == h,
            Err(e) => res matches Err(x) && x@ == e,
        },
{
    let ghost ls = string_views(content@);
    let mut checked: Vec<Vec<char>> = Vec::new();
    assert(views(checked@) =~= Seq::<Seq<char>>::empty());
    let mut idx: usize = 0;
    while idx < content.len()
        invariant
            idx <= content.len(),
            content.len() < usize::MAX,
            ls == string_views(content@),
            history_readable(ls),
            history_prefix(ls, file_name@, idx as int) == Ok::<Seq<Seq<char>>, ProgramErrorV>(views(checked@)),
        decreases content.len() - idx,
    {
        assert(ls[idx as int] == content@[idx as int]@);
        let ghost acc = views(checked@);
        assert(history_prefix(ls, file_name@, idx + 1) == history_step(acc, ls[idx as int], file_name@, idx + 1));
        match check_history_line(content[idx].as_str(), idx, file_name, &mut checked) {
            Err(e) => {
                proof {
                    lemma_history_error(ls, file_name@, idx + 1, ls.len() as int);
                }
                return Err(e);
            },
            Ok(()) => {},
        }
        idx = idx + 1;
    }
    let mut out: Vec<String> = Vec::new();
    let mut k: usize = 0;
    while k < checked.len()
        invariant
            k <= checked.len(),
            string_views(out@) == views(checked@).take(k as int),
        decreases checked.len() - k,
    {
        let s = chars_to_string(checked[k].as_slice());
        let ghost before = out@;
        out.push(s);
        assert(string_views(out@) =~= string_views(before).push(s@));
        assert(views(checked@).take(k + 1) =~= views(checked@).take(k as int).push(checked@[k as int]@));
        k = k + 1;
    }
    assert(views(checked@).take(checked.len() as int) =~= views(checked@));
    Ok(out)
}

/// Once checking a history fails, it stays failed with the same error.
proof fn lemma_history_error(lines: Seq<Seq<char>>, file: Seq<char>, k: int, m: int)
    requires
        0 <= k <= m,
        history_prefix(lines, file, k) is Err,
    ensures
        history_prefix(lines, file, m) == history_prefix(lines, file, k),
    decreases m - k,
{
    if k < m {
        lemma_history_error(lines, file, k, m - 1);
    }
}

/// A line of a whitelist of instruction kinds that, once prepared (see
/// [`prepare_whitelist_file`]), is no instruction.
#[derive(Debug, PartialEq)]
pub struct BuildAllowedInstructionsError {
    /// The number of the line, counted from one.
    pub line: usize,
    /// Why the prepared line is no instruction.
    pub reason: InstructionParseError,
}

/// How many characters of its line the error `e` marks: its whole range for
/// an invalid expression or an unknown instruction, one less otherwise.
pub open spec fn marked_length_spec(e: ParseErrorV) -> int {
    let r = error_range(e);
    match e {
        ParseErrorV::InvalidExpression(_, _) => r.1 - r.0 + 1,
        ParseErrorV::UnknownInstruction(_, _) => r.1 - r.0 + 1,
        _ => r.1 - r.0,
    }
}

impl BuildAllowedInstructionsError {
    /// How many characters of the line the error marks (see [`marked_length_spec`]).
    pub fn marked_length(&self) -> (res: usize)
        requires
            error_range(self.reason@).0 <= error_range(self.reason@).1 < usize::MAX,
        ensures
            res == marked_length_spec(self.reason@),
    {
        let r = self.reason.range();
        match &self.reason {
            InstructionParseError::InvalidExpression(_, _) => r.1 - r.0 + 1,
            InstructionParseError::UnknownInstruction(_, _) => r.1 - r.0 + 1,
            _ => r.1 - r.0,
        }
    }
}

/// Every prepared line of a whitelist can be read (see [`readable`]).
pub open spec fn whitelist_readable(lines: Seq<Seq<char>>) -> bool {
    forall|i: int| 0 <= i < lines.len() ==> readable(cleaned(tokens(#[trigger] prepared_line(lines[i]))))
}

/// Tells whether every line of a whitelist, once prepared, can be read (see
/// [`whitelist_readable`]), which [`build_instruction_whitelist`] requires.
pub fn whitelist_is_readable(lines: &Vec<String>) -> (res: bool)
    ensures
        res == whitelist_readable(string_views(lines@)),
{
    let mut i: usize = 0;
    while i < lines.len()
        invariant
            i <= lines.len(),
            forall|k: int| 0 <= k < i ==> readable(cleaned(tokens(#[trigger] prepared_line(string_views(lines@)[k])))),
        decreases lines.len() - i,
    {
        assert(string_views(lines@)[i as int] == lines@[i as int]@);
        let c = to_chars(lines[i].as_str());
        let p = prepared_line_exec(c.as_slice());
        let ps = chars_to_string(p.as_slice());
        if !instruction_readable(ps.as_str()) {
            assert(!readable(cleaned(tokens(prepared_line(string_views(lines@)[i as int])))));
            return false;
        }
        i = i + 1;
    }
    true
}

/// The distinct kinds `acc` after the prepared whitelist line `line`, with
/// number `number`, is read; or that number with the error of the line.
#[verifier::opaque]
pub open spec fn whitelist_step(acc: Seq<Seq<char>>, line: Seq<char>, number: int) -> Result<Seq<Seq<char>>, (int, ParseErrorV)> {
    match line_spec(line) {
        Err(e) => Err((number, e)),
        Ok(i) => if acc.contains(instruction_kind(i)) {
            Ok(acc)
        } else {
            Ok(acc.push(instruction_kind(i)))
        },
    }
}

/// The distinct kinds of the instructions in the first `n` of the prepared
/// whitelist lines `p`, in the order in which they first occur; or the
/// number of the first line that is no instruction, with its error.
pub open spec fn whitelist_prefix(p: Seq<Seq<char>>, n: int) -> Result<Seq<Seq<char>>, (int, ParseErrorV)>
    decreases n,
{
    if n <= 0 {
        Ok(Seq::empty())
    } else {
        match whitelist_prefix(p, n - 1) {
            Err(e) => Err(e),
            Ok(acc) => whitelist_step(acc, p[n - 1], n),
        }
    }
}

fn whitelist_line(line: &str, idx: usize, ids: &mut Vec<Vec<char>>) -> (res: Result<(), BuildAllowedInstructionsError>)
    requires
        readable(cleaned(tokens(line@))),
        idx < usize::MAX,
    ensures
        match whitelist_step(views(old(ids)@), line@, idx + 1) {
            Ok(acc) => res is Ok && views(final(ids)@) == acc,
            Err(e) => res matches Err(x) && x.line == e.0 && x.reason@ == e.1,
        },
{
    proof {
        reveal(whitelist_step);
    }
    match Instruction::try_from(line) {
        Ok(i) => {
            let id = i.identifier();
            let c = to_chars(id.as_str());
            if !contains_text(ids, c.as_slice()) {
                let ghost before = ids@;
                ids.push(c);
                assert(views(ids@) =~= views(before).push(c@));
            }
            Ok(())
        },
        Err(e) => Err(BuildAllowedInstructionsError { line: idx + 1, reason: e }),
    }
}

/// The kinds of instructions that a whitelist allows: each line, prepared
/// by [`prepare_whitelist_file`], is read as an instruction, whose kind (see
/// `Identifier`) is allowed. Each kind is listed once, in the order in which
/// it first occurs. Fails at the first line that is no instruction.
pub fn build_instruction_whitelist(instructions: Vec<String>) -> (res: Result<Vec<String>, BuildAllowedInstructionsError>)
    requires
        whitelist_readable(string_views(instructions@)),
        instructions.len() < usize::MAX,
    ensures
        ({
            let p = string_views(instructions@).map_values(|l: Seq<char>| prepared_line(l));
            match whitelist_prefix(p, p.len() as int) {
                Ok(ids) => res matches Ok(v) && string_views(v@) == ids,
                Err(e) => res matches Err(x) && x.line == e.0 && x.reason@ == e.1,
            }
        }),
{
    let ghost raw = string_views(instructions@);
    let prepared = prepare_whitelist_file(instructions);
    let ghost p = string_views(prepared@);
    assert(p =~= raw.map_values(|l: Seq<char>| prepared_line(l)));
    assert(raw.len() == p.len() && p.len() == prepared.len());
    let mut ids: Vec<Vec<char>> = Vec::new();
    assert(views(ids@) =~= Seq::<Seq<char>>::empty());
    let mut idx: usize = 0;
    while idx < prepared.len()
        invariant
            idx <= prepared.len(),
            prepared.len() < usize::MAX,
            p == string_views(prepared@),
            p == raw.map_values(|l: Seq<char>| prepared_line(l)),
            raw.len() == prepared.len(),
            raw == string_views(instructions@),
            whitelist_readable(raw),
            whitelist_prefix(p, idx as int) == Ok::<Seq<Seq<char>>, (int, ParseErrorV)>(views(ids@)),
        decreases prepared.len() - idx,
    {
        assert(p[idx as int] == prepared@[idx as int]@);
        assert(p[idx as int] == prepared_line(raw[idx as int]));
        assert(whitelist_prefix(p, idx + 1) == whitelist_step(views(ids@), p[idx as int], idx + 1));
        match whitelist_line(prepared[idx].as_str(), idx, &mut ids) {
            Err(e) => {
                proof {
                    lemma_whitelist_error(p, idx + 1, p.len() as int);
                }
                return Err(e);
            },
            Ok(()) => {},
        }
        idx = idx + 1;
    }
    let mut out: Vec<String> = Vec::new();
    let mut k: usize = 0;
    while k < ids.len()
        invariant
            k <= ids.len(),
            string_views(out@) == views(ids@).take(k as int),
        decreases ids.len() - k,
    {
        let s = chars_to_string(ids[k].as_slice());
        let ghost before = out@;
        out.push(s);
        assert(string_views(out@) =~= string_views(before).push(s@));
        assert(views(ids@).take(k + 1) =~= views(ids@).take(k as int).push(ids@[k as int]@));
        k = k + 1;
    }
    assert(views(ids@).take(ids.len() as int) =~= views(ids@));
    Ok(out)
}

/// Once a whitelist fails, it stays failed with the same error.
proof fn lemma_whitelist_error(p: Seq<Seq<char>>, k: int, m: int)
    requires
        0 <= k <= m,
        whitelist_prefix(p, k) is Err,
    ensures
        whitelist_prefix(p, m) == whitelist_prefix(p, k),
    decreases m - k,
{
    if k < m {
        lemma_whitelist_error(p, k, m - 1);
    }
}

} // verus!
