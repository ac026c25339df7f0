//! The source metrics scanner: a language-aware line classifier, per-file
//! blank/comment/code counts, command-marker counting, and the accumulated
//! totals over a whole source tree.  Walking the tree and reading the files
//! is the caller's side; the library receives each file's text.

use vstd::prelude::*;
use crate::errors::DiagError;
use crate::strutil::count_occurrences;
use crate::strutil::count_occurrences_chars;
use crate::strutil::lemma_split_nonempty;
use crate::strutil::lemma_views_push;
use crate::strutil::spec_split;
use crate::strutil::split_chars;
use crate::strutil::str_to_chars;
use crate::strutil::views_of;

verus! {

/// How a file's lines are classified: Rust comment syntax, or no comment
/// syntax at all, in which case every non-blank line counts as code.
#[derive(Clone, Copy, Debug, PartialEq, Eq, Structural)]
pub enum FileKind {
    Rust,
    Other,
}

/// What one line is: only whitespace, only comment content, or code.
#[derive(Clone, Copy, Debug, PartialEq, Eq, Structural)]
pub enum LineClass {
    Blank,
    Comment,
    Code,
}

/// The accumulated metrics of a scan.
#[derive(Clone, Copy, Debug, PartialEq, Eq, Structural)]
pub struct SourceMetrics {
    pub blank_lines: u64,
    pub comment_lines: u64,
    pub code_lines: u64,
    pub total_lines: u64,
    pub command_count: u64,
}

/// Whitespace within a line.
pub open spec fn is_line_ws(c: char) -> bool {
    c == ' ' || c == '\t' || c == '\r'
}

/// Every character of `s` is line whitespace.
pub open spec fn all_line_ws(s: Seq<char>) -> bool {
    forall|i: int| 0 <= i < s.len() ==> is_line_ws(#[trigger] s[i])
}

/// A line with code on it is code; one with only comment content is a
/// comment; one with neither is blank.
pub open spec fn classify_flags(has_code: bool, has_comment: bool) -> LineClass {
    if has_code {
        LineClass::Code
    } else if has_comment {
        LineClass::Comment
    } else {
        LineClass::Blank
    }
}

/// One pass over a Rust line from position `i`, inside `depth` nested block
/// comments: `//` outside a block comment makes the rest comment content,
/// `/*` and `*/` open and close block comments, and other non-whitespace
/// counts as code outside comments and as comment content inside.  String
/// literals are not recognised: a comment marker inside one counts as a
/// comment.  The result is the line's class and the block-comment depth
/// left for the next line.
pub open spec fn scan_rust_line(
    line: Seq<char>,
    i: int,
    depth: nat,
    has_code: bool,
    has_comment: bool,
) -> (LineClass, nat)
    decreases line.len() - i,
{
    if i < 0 || i >= line.len() {
        (classify_flags(has_code, has_comment), depth)
    } else if depth == 0 && i + 1 < line.len() && line[i] == '/' && line[i + 1] == '/' {
        (classify_flags(has_code, true), 0)
    } else if i + 1 < line.len() && line[i] == '/' && line[i + 1] == '*' {
        scan_rust_line(line, i + 2, depth + 1, has_code, true)
    } else if depth > 0 && i + 1 < line.len() && line[i] == '*' && line[i + 1] == '/' {
        scan_rust_line(line, i + 2, (depth - 1) as nat, has_code, true)
    } else if depth > 0 {
        scan_rust_line(line, i + 1, depth, has_code, has_comment || !is_line_ws(line[i]))
    } else {
        scan_rust_line(line, i + 1, depth, has_code || !is_line_ws(line[i]), has_comment)
    }
}

/// The class of one line and the block-comment depth handed to the next.
pub open spec fn spec_classify_line(kind: FileKind, line: Seq<char>, depth: nat) -> (
    LineClass,
    nat,
) {
    match kind {
        FileKind::Rust => scan_rust_line(line, 0, depth, false, false),
        FileKind::Other => (
            if all_line_ws(line) {
                LineClass::Blank
            } else {
                LineClass::Code
            },
            0,
        ),
    }
}

pub proof fn lemma_scan_depth_bound(
    line: Seq<char>,
    i: int,
    depth: nat,
    has_code: bool,
    has_comment: bool,
)
    ensures
        scan_rust_line(line, i, depth, has_code, has_comment).1 <= depth + line.len() - i
            || scan_rust_line(line, i, depth, has_code, has_comment).1 <= depth,
    decreases line.len() - i,
{
    if i < 0 || i >= line.len() {
    } else if depth == 0 && i + 1 < line.len() && line[i] == '/' && line[i + 1] == '/' {
    } else if i + 1 < line.len() && line[i] == '/' && line[i + 1] == '*' {
        lemma_scan_depth_bound(line, i + 2, depth + 1, has_code, true);
    } else if depth > 0 && i + 1 < line.len() && line[i] == '*' && line[i + 1] == '/' {
        lemma_scan_depth_bound(line, i + 2, (depth - 1) as nat, has_code, true);
    } else if depth > 0 {
        lemma_scan_depth_bound(line, i + 1, depth, has_code, has_comment || !is_line_ws(line[i]));
    } else {
        lemma_scan_depth_bound(line, i + 1, depth, has_code || !is_line_ws(line[i]), has_comment);
    }
}

fn is_line_ws_exec(c: char) -> (r: bool)
    ensures
        r == is_line_ws(c),
{
    c == ' ' || c == '\t' || c == '\r'
}

/// Classifies one line and yields the depth the next line starts in.
pub fn classify_line(kind: FileKind, line: &Vec<char>, depth: usize) -> (r: (LineClass, usize))
    requires
        depth + line@.len() <= usize::MAX,
    ensures
        (r.0, r.1 as nat) == spec_classify_line(kind, line@, depth as nat),
        r.1 <= depth + line@.len(),
{
    match kind {
        FileKind::Other => {
            let mut blank = true;
            let mut i: usize = 0;
            while i < line.len()
                invariant
                    i <= line@.len(),
                    blank == all_line_ws(line@.take(i as int)),
                decreases line@.len() - i,
            {
                proof {
                    assert(forall|k: int| 0 <= k < i + 1 ==> line@.take(i as int + 1)[k] == line@[k]);
                    assert(forall|k: int| 0 <= k < i ==> line@.take(i as int)[k] == line@[k]);
                }
                if !is_line_ws_exec(line[i]) {
                    blank = false;
                    proof {
                        assert(!is_line_ws(line@.take(i as int + 1)[i as int]));
                    }
                } else {
                    proof {
                        assert(blank ==> all_line_ws(line@.take(i as int + 1)));
                        if !blank {
                            let ghost w = choose|k: int|
                                0 <= k < i && !is_line_ws(#[trigger] line@.take(i as int)[k]);
                            assert(!is_line_ws(line@.take(i as int + 1)[w]));
                        }
                    }
                }
                i += 1;
            }
            proof {
                assert(line@.take(line@.len() as int) =~= line@);
            }
            if blank {
                (LineClass::Blank, 0)
            } else {
                (LineClass::Code, 0)
            }
        },
        FileKind::Rust => {
            let mut depth_m = depth;
            let mut has_code = false;
            let mut has_comment = false;
            let mut i: usize = 0;
            while i < line.len()
                invariant
                    i <= line@.len(),
                    depth + line@.len() <= usize::MAX,
                    depth_m <= depth + i,
                    scan_rust_line(line@, 0, depth as nat, false, false) == scan_rust_line(
                        line@,
                        i as int,
                        depth_m as nat,
                        has_code,
                        has_comment,
                    ),
                decreases line@.len() - i,
            {
                let two = i + 1 < line.len();
                if depth_m == 0 && two && line[i] == '/' && line[i + 1] == '/' {
                    has_comment = true;
                    i = line.len();
                } else if two && line[i] == '/' && line[i + 1] == '*' {
                    depth_m += 1;
                    has_comment = true;
                    i += 2;
                } else if depth_m > 0 && two && line[i] == '*' && line[i + 1] == '/' {
                    depth_m -= 1;
                    has_comment = true;
                    i += 2;
                } else if depth_m > 0 {
                    if !is_line_ws_exec(line[i]) {
                        has_comment = true;
                    }
                    i += 1;
                } else {
                    if !is_line_ws_exec(line[i]) {
                        has_code = true;
                    }
                    i += 1;
                }
            }
            let cls = if has_code {
                LineClass::Code
            } else if has_comment {
                LineClass::Comment
            } else {
                LineClass::Blank
            };
            (cls, depth_m)
        },
    }
}

/// A line with its terminating `\r` removed, as `str::lines` hands lines
/// out.
pub open spec fn strip_cr(line: Seq<char>) -> Seq<char> {
    if line.len() > 0 && line.last() == '\r' {
        line.drop_last()
    } else {
        line
    }
}

/// The lines of a file: the text split at `\n`, a final empty part (from a
/// trailing newline, or an empty file) dropped, and each line's
/// terminating `\r` removed.
pub open spec fn spec_lines(text: Seq<char>) -> Seq<Seq<char>> {
    let parts = spec_split(text, '\n');
    let kept = if parts.len() > 0 && parts.last().len() == 0 {
        parts.drop_last()
    } else {
        parts
    };
    kept.map_values(|l: Seq<char>| strip_cr(l))
}

/// Splits a file's text into its lines.
pub fn lines_of(text: &Vec<char>) -> (r: Vec<Vec<char>>)
    ensures
        views_of(r@) == spec_lines(text@),
{
    let mut parts = split_chars(text, '\n');
    proof {
        lemma_split_nonempty(text@, '\n');
        assert(views_of(parts@).len() == parts@.len());
    }
    let ghost raw = views_of(parts@);
    let plen = parts.len();
    if parts[plen - 1].len() == 0 {
        let _ = parts.pop();
        proof {
            assert(raw.last().len() == 0);
            assert(views_of(parts@) =~= raw.drop_last());
        }
    } else {
        proof {
            assert(raw.last().len() != 0);
        }
    }
    let ghost kept = views_of(parts@);
    proof {
        assert(spec_lines(text@) == kept.map_values(|l: Seq<char>| strip_cr(l)));
    }
    let mut out: Vec<Vec<char>> = Vec::new();
    let mut j: usize = 0;
    while j < parts.len()
        invariant
            j <= parts@.len(),
            kept == views_of(parts@),
            kept.len() == parts@.len(),
            out@.len() == j,
            views_of(out@) =~= kept.take(j as int).map_values(|l: Seq<char>| strip_cr(l)),
        decreases parts@.len() - j,
    {
        let ghost jj = j as int;
        let ghost old_out = out@;
        let w: &Vec<char> = &parts[j];
        proof {
            assert(w@ == kept[jj]);
        }
        let wl = w.len();
        let keep: usize = if wl > 0 && w[wl - 1] == '\r' {
            wl - 1
        } else {
            wl
        };
        let mut nw: Vec<char> = Vec::new();
        let mut k: usize = 0;
        while k < keep
            invariant
                k <= keep <= w@.len(),
                nw@ == w@.take(k as int),
            decreases keep - k,
        {
            nw.push(w[k]);
            proof {
                assert(w@.take(k as int).push(w@[k as int]) =~= w@.take(k as int + 1));
            }
            k += 1;
        }
        proof {
            if w@.len() > 0 && w@.last() == '\r' {
                assert(w@.take(keep as int) =~= w@.drop_last());
            } else {
                assert(w@.take(keep as int) =~= w@);
            }
            assert(nw@ == strip_cr(kept[jj]));
        }
        out.push(nw);
        proof {
            lemma_views_push(old_out, nw);
            let f = |l: Seq<char>| strip_cr(l);
            assert forall|t: int| 0 <= t < jj + 1 implies views_of(out@)[t] == kept.take(
                jj + 1,
            ).map_values(f)[t] by {
                assert(kept.take(jj + 1)[t] == kept[t]);
                if t < jj {
                    assert(kept.take(jj)[t] == kept[t]);
                    assert(views_of(old_out)[t] == kept.take(jj).map_values(f)[t]);
                }
            }
            assert(views_of(out@) =~= kept.take(jj + 1).map_values(f));
        }
        j += 1;
    }
    proof {
        assert(kept.take(kept.len() as int) =~= kept);
        assert(views_of(out@) =~= spec_lines(text@));
    }
    out
}

/// Blank, comment and code counts.
pub ghost struct LineCounts {
    pub blank: int,
    pub comment: int,
    pub code: int,
}

/// The counts over a run of lines, entered at block-comment depth `depth`.
pub open spec fn spec_tally(kind: FileKind, lines: Seq<Seq<char>>, depth: nat) -> LineCounts
    decreases lines.len(),
{
    if lines.len() == 0 {
        LineCounts { blank: 0, comment: 0, code: 0 }
    } else {
        let step = spec_classify_line(kind, lines[0], depth);
        let rest = spec_tally(kind, lines.drop_first(), step.1);
        match step.0 {
            LineClass::Blank => LineCounts { blank: rest.blank + 1, ..rest },
            LineClass::Comment => LineCounts { comment: rest.comment + 1, ..rest },
            LineClass::Code => LineCounts { code: rest.code + 1, ..rest },
        }
    }
}

/// Every line is blank, comment or code: the three counts partition the
/// lines.
pub proof fn lemma_tally_total(kind: FileKind, lines: Seq<Seq<char>>, depth: nat)
    ensures
        spec_tally(kind, lines, depth).blank + spec_tally(kind, lines, depth).comment + spec_tally(
            kind,
            lines,
            depth,
        ).code == lines.len(),
        spec_tally(kind, lines, depth).blank >= 0,
        spec_tally(kind, lines, depth).comment >= 0,
        spec_tally(kind, lines, depth).code >= 0,
    decreases lines.len(),
{
    if lines.len() > 0 {
        let step = spec_classify_line(kind, lines[0], depth);
        lemma_tally_total(kind, lines.drop_first(), step.1);
    }
}

/// The length sum of a run of lines.
pub open spec fn len_sum(ls: Seq<Seq<char>>) -> int
    decreases ls.len(),
{
    if ls.len() == 0 {
        0
    } else {
        ls[0].len() + len_sum(ls.drop_first())
    }
}

pub proof fn lemma_len_sum_nonneg(ls: Seq<Seq<char>>)
    ensures
        len_sum(ls) >= 0,
    decreases ls.len(),
{
    if ls.len() > 0 {
        lemma_len_sum_nonneg(ls.drop_first());
    }
}

pub proof fn lemma_len_sum_split(ls: Seq<Seq<char>>, k: int)
    requires
        0 <= k <= ls.len(),
    ensures
        len_sum(ls) == len_sum(ls.take(k)) + len_sum(ls.skip(k)),
    decreases k,
{
    if k == 0 {
        assert(ls.take(0).len() == 0);
        assert(ls.skip(0) =~= ls);
    } else {
        lemma_len_sum_split(ls.drop_first(), k - 1);
        assert(ls.take(k).drop_first() =~= ls.drop_first().take(k - 1));
        assert(ls.skip(k) =~= ls.drop_first().skip(k - 1));
        assert(ls.take(k)[0] == ls[0]);
        assert(ls.take(k).len() == k);
    }
}

pub proof fn lemma_split_len_sum(s: Seq<char>, sep: char)
    ensures
        len_sum(spec_split(s, sep)) <= s.len(),
    decreases s.len(),
{
    if s.len() == 0 {
        let parts = spec_split(s, sep);
        assert(parts == seq![Seq::<char>::empty()]);
        assert(parts.len() == 1);
        assert(len_sum(parts) == parts[0].len() + len_sum(parts.drop_first()));
        assert(parts.drop_first().len() == 0);
        assert(len_sum(parts.drop_first()) == 0);
        assert(parts[0].len() == 0);
    } else {
        lemma_split_len_sum(s.drop_first(), sep);
        lemma_split_nonempty(s.drop_first(), sep);
        let rest = spec_split(s.drop_first(), sep);
        if s[0] == sep {
            let parts = seq![Seq::<char>::empty()] + rest;
            assert(spec_split(s, sep) == parts);
            assert(parts[0].len() == 0);
            assert(parts.drop_first() =~= rest);
            assert(len_sum(parts) == parts[0].len() + len_sum(parts.drop_first()));
            assert(len_sum(parts.drop_first()) == len_sum(rest));
        } else {
            let parts = seq![seq![s[0]] + rest[0]] + rest.skip(1);
            assert(spec_split(s, sep) == parts);
            assert(parts[0] == seq![s[0]] + rest[0]);
            assert(parts.drop_first() =~= rest.skip(1));
            assert(rest.skip(1) =~= rest.drop_first());
            assert(len_sum(parts) == parts[0].len() + len_sum(parts.drop_first()));
            assert(len_sum(parts.drop_first()) == len_sum(rest.drop_first()));
            assert(len_sum(rest) == rest[0].len() + len_sum(rest.drop_first()));
            assert(parts[0].len() == 1 + rest[0].len());
        }
    }
}

pub proof fn lemma_map_strip_len_sum(ls: Seq<Seq<char>>)
    ensures
        len_sum(ls.map_values(|l: Seq<char>| strip_cr(l))) <= len_sum(ls),
    decreases ls.len(),
{
    let mapped = ls.map_values(|l: Seq<char>| strip_cr(l));
    if ls.len() > 0 {
        lemma_map_strip_len_sum(ls.drop_first());
        assert(mapped.drop_first() =~= ls.drop_first().map_values(|l: Seq<char>| strip_cr(l)));
        assert(mapped[0] == strip_cr(ls[0]));
    }
}

pub proof fn lemma_lines_len_sum(text: Seq<char>)
    ensures
        len_sum(spec_lines(text)) <= text.len(),
{
    let parts = spec_split(text, '\n');
    lemma_split_len_sum(text, '\n');
    lemma_split_nonempty(text, '\n');
    let kept = if parts.len() > 0 && parts.last().len() == 0 {
        parts.drop_last()
    } else {
        parts
    };
    if parts.len() > 0 && parts.last().len() == 0 {
        lemma_len_sum_split(parts, parts.len() - 1);
        lemma_len_sum_nonneg(parts.skip(parts.len() - 1));
        assert(parts.take(parts.len() - 1) =~= parts.drop_last());
    }
    lemma_map_strip_len_sum(kept);
}

/// The metrics of one file, as mathematical counts.
pub ghost struct FileTally {
    pub blank: int,
    pub comment: int,
    pub code: int,
    pub total: int,
    pub commands: int,
}

/// What scanning one file yields: its line tally entered at depth zero,
/// its line count, and its command-marker count.
pub open spec fn spec_file_tally(kind: FileKind, text: Seq<char>) -> FileTally {
    let ls = spec_lines(text);
    let t = spec_tally(kind, ls, 0);
    FileTally {
        blank: t.blank,
        comment: t.comment,
        code: t.code,
        total: ls.len() as int,
        commands: count_occurrences(text, "#[command]"@) as int,
    }
}

/// Scans one file's text.  The returned counts satisfy the line invariant:
/// blank, comment and code lines partition the total.
pub fn file_metrics(kind: FileKind, text: &str) -> (r: SourceMetrics)
    ensures
        r.blank_lines == spec_file_tally(kind, text@).blank,
        r.comment_lines == spec_file_tally(kind, text@).comment,
        r.code_lines == spec_file_tally(kind, text@).code,
        r.total_lines == spec_file_tally(kind, text@).total,
        r.command_count == spec_file_tally(kind, text@).commands,
        r.total_lines == r.blank_lines + r.comment_lines + r.code_lines,
{
    let v = str_to_chars(text);
    let lines = lines_of(&v);
    let ghost ls = spec_lines(text@);
    let ghost goal = spec_tally(kind, ls, 0);
    proof {
        lemma_lines_len_sum(text@);
        lemma_tally_total(kind, ls, 0);
        assert(ls.skip(0) =~= ls);
        assert(ls.take(0).len() == 0);
    }
    let n = v.len();
    let mut blank: u64 = 0;
    let mut comment: u64 = 0;
    let mut code: u64 = 0;
    let mut depth: usize = 0;
    let mut j: usize = 0;
    while j < lines.len()
        invariant
            views_of(lines@) == ls,
            lines@.len() == ls.len(),
            j <= ls.len(),
            n == v@.len(),
            len_sum(ls) <= n,
            goal == spec_tally(kind, ls, 0),
            depth <= len_sum(ls.take(j as int)),
            blank + comment + code == j,
            goal.blank == blank + spec_tally(kind, ls.skip(j as int), depth as nat).blank,
            goal.comment == comment + spec_tally(kind, ls.skip(j as int), depth as nat).comment,
            goal.code == code + spec_tally(kind, ls.skip(j as int), depth as nat).code,
        decreases ls.len() - j,
    {
        let ghost jj = j as int;
        proof {
            assert(ls[jj] == views_of(lines@)[jj]);
            lemma_len_sum_split(ls, jj);
            lemma_len_sum_split(ls, jj + 1);
            assert(ls.take(jj + 1).take(jj) =~= ls.take(jj));
            lemma_len_sum_split(ls.take(jj + 1), jj);
            assert(ls.take(jj + 1).skip(jj) =~= seq![ls[jj]]);
            assert(len_sum(seq![ls[jj]]) == ls[jj].len() + len_sum(seq![ls[jj]].drop_first()));
            assert(seq![ls[jj]].drop_first().len() == 0);
            lemma_len_sum_nonneg(ls.skip(jj + 1));
            lemma_len_sum_nonneg(ls.take(jj));
            assert(len_sum(ls.take(jj)) + ls[jj].len() == len_sum(ls.take(jj + 1)));
            assert(len_sum(ls.take(jj + 1)) <= len_sum(ls));
        }
        let line: &Vec<char> = &lines[j];
        proof {
            assert(line@ == ls[jj]);
            assert(depth + line@.len() <= usize::MAX);
        }
        let step = classify_line(kind, line, depth);
        proof {
            assert(ls.skip(jj).drop_first() =~= ls.skip(jj + 1));
            assert(ls.skip(jj)[0] == ls[jj]);
            lemma_tally_total(kind, ls.skip(jj + 1), step.1 as nat);
            lemma_tally_total(kind, ls.skip(jj), depth as nat);
        }
        match step.0 {
            LineClass::Blank => {
                blank += 1;
            },
            LineClass::Comment => {
                comment += 1;
            },
            LineClass::Code => {
                code += 1;
            },
        }
        depth = step.1;
        j += 1;
    }
    proof {
        assert(ls.skip(ls.len() as int).len() == 0);
        assert(spec_tally(kind, ls.skip(ls.len() as int), depth as nat).blank == 0);
    }
    let pat = str_to_chars("#[command]");
    proof {
        reveal_strlit("#[command]");
        assert(pat@.len() == 10);
    }
    let commands = count_occurrences_chars(&v, &pat);
    SourceMetrics {
        blank_lines: blank,
        comment_lines: comment,
        code_lines: code,
        total_lines: lines.len() as u64,
        command_count: commands as u64,
    }
}

/// One file of the tree as the caller read it: its kind and its text, or
/// nothing where the file could not be read.
pub struct FileSnapshot {
    pub kind: FileKind,
    pub contents: Option<String>,
}

/// An unreadable file tallies as nothing; the scan fails on it instead.
pub open spec fn spec_snapshot_tally(f: FileSnapshot) -> FileTally {
    match f.contents {
        None => FileTally { blank: 0, comment: 0, code: 0, total: 0, commands: 0 },
        Some(t) => spec_file_tally(f.kind, t@),
    }
}

/// Every file of the tree could be read.
pub open spec fn spec_scan_ok(files: Seq<FileSnapshot>) -> bool {
    forall|i: int| 0 <= i < files.len() ==> (#[trigger] files[i].contents) is Some
}

pub open spec fn tally_add(a: FileTally, b: FileTally) -> FileTally {
    FileTally {
        blank: a.blank + b.blank,
        comment: a.comment + b.comment,
        code: a.code + b.code,
        total: a.total + b.total,
        commands: a.commands + b.commands,
    }
}

/// The accumulated tally over the whole tree.
pub open spec fn spec_scan_tally(files: Seq<FileSnapshot>) -> FileTally
    decreases files.len(),
{
    if files.len() == 0 {
        FileTally { blank: 0, comment: 0, code: 0, total: 0, commands: 0 }
    } else {
        tally_add(spec_snapshot_tally(files[0]), spec_scan_tally(files.drop_first()))
    }
}

pub proof fn lemma_file_tally_bounds(kind: FileKind, text: Seq<char>)
    ensures
        spec_file_tally(kind, text).blank >= 0,
        spec_file_tally(kind, text).comment >= 0,
        spec_file_tally(kind, text).code >= 0,
        spec_file_tally(kind, text).total >= 0,
        spec_file_tally(kind, text).commands >= 0,
        spec_file_tally(kind, text).total == spec_file_tally(kind, text).blank + spec_file_tally(
            kind,
            text,
        ).comment + spec_file_tally(kind, text).code,
{
    lemma_tally_total(kind, spec_lines(text), 0);
}

pub proof fn lemma_snapshot_tally_bounds(f: FileSnapshot)
    ensures
        spec_snapshot_tally(f).blank >= 0,
        spec_snapshot_tally(f).comment >= 0,
        spec_snapshot_tally(f).code >= 0,
        spec_snapshot_tally(f).total >= 0,
        spec_snapshot_tally(f).commands >= 0,
        spec_snapshot_tally(f).total == spec_snapshot_tally(f).blank + spec_snapshot_tally(
            f,
        ).comment + spec_snapshot_tally(f).code,
{
    match f.contents {
        None => {},
        Some(t) => {
            lemma_file_tally_bounds(f.kind, t@);
        },
    }
}

/// The line invariant under summation: over the whole tree too, blank,
/// comment and code lines add up to the total.
pub proof fn lemma_scan_line_invariant(files: Seq<FileSnapshot>)
    ensures
        spec_scan_tally(files).total == spec_scan_tally(files).blank + spec_scan_tally(
            files,
        ).comment + spec_scan_tally(files).code,
        spec_scan_tally(files).blank >= 0,
        spec_scan_tally(files).comment >= 0,
        spec_scan_tally(files).code >= 0,
        spec_scan_tally(files).total >= 0,
        spec_scan_tally(files).commands >= 0,
    decreases files.len(),
{
    if files.len() > 0 {
        lemma_snapshot_tally_bounds(files[0]);
        lemma_scan_line_invariant(files.drop_first());
    }
}

pub proof fn lemma_scan_tally_split(files: Seq<FileSnapshot>, k: int)
    requires
        0 <= k <= files.len(),
    ensures
        spec_scan_tally(files) == tally_add(
            spec_scan_tally(files.take(k)),
            spec_scan_tally(files.skip(k)),
        ),
    decreases k,
{
    if k == 0 {
        assert(files.take(0).len() == 0);
        assert(files.skip(0) =~= files);
    } else {
        lemma_scan_tally_split(files.drop_first(), k - 1);
        assert(files.take(k).drop_first() =~= files.drop_first().take(k - 1));
        assert(files.skip(k) =~= files.drop_first().skip(k - 1));
        assert(files.take(k)[0] == files[0]);
        assert(files.take(k).len() == k);
    }
}

pub proof fn lemma_scan_tally_remove_one(files: Seq<FileSnapshot>, j: int)
    requires
        0 <= j < files.len(),
    ensures
        spec_scan_tally(files) == tally_add(
            spec_snapshot_tally(files[j]),
            spec_scan_tally(files.remove(j)),
        ),
    decreases j,
{
    if j == 0 {
        assert(files.remove(0) =~= files.drop_first());
    } else {
        lemma_scan_tally_remove_one(files.drop_first(), j - 1);
        assert(files.drop_first()[j - 1] == files[j]);
        assert(files.remove(j).drop_first() =~= files.drop_first().remove(j - 1));
        assert(files.remove(j)[0] == files[0]);
        assert(files.remove(j).len() == files.len() - 1);
    }
}

/// The accumulated tally is a fold of per-file tallies under integer
/// addition: two traversals that visit the same files, in whatever order,
/// yield the same totals.
pub proof fn lemma_scan_order_independent(a: Seq<FileSnapshot>, b: Seq<FileSnapshot>)
    requires
        a.to_multiset() == b.to_multiset(),
    ensures
        spec_scan_tally(a) == spec_scan_tally(b),
    decreases a.len(),
{
    broadcast use vstd::seq_lib::group_to_multiset_ensures;

    if a.len() == 0 {
        assert(a.to_multiset().len() == 0);
        assert(b.len() == 0);
    } else {
        let x = a[0];
        assert(a.contains(x));
        assert(a.to_multiset().count(x) > 0);
        assert(b.to_multiset().count(x) > 0);
        assert(b.contains(x));
        let j = choose|j: int| 0 <= j < b.len() && b[j] == x;
        lemma_scan_tally_remove_one(a, 0);
        lemma_scan_tally_remove_one(b, j);
        assert(a.remove(0).to_multiset() =~= a.to_multiset().remove(x));
        assert(b.remove(j).to_multiset() =~= b.to_multiset().remove(b[j]));
        lemma_scan_order_independent(a.remove(0), b.remove(j));
    }
}

/// Scans a whole tree of already-read files, accumulating every count.
/// One unreadable file fails the whole scan; no partial result comes back.
/// The totals are a fold over the files, so the order the caller walked
/// the tree in does not change them.
pub fn scan_source_tree(files: &Vec<FileSnapshot>) -> (r: Result<SourceMetrics, DiagError>)
    requires
        spec_scan_tally(files@).total <= u64::MAX,
        spec_scan_tally(files@).commands <= u64::MAX,
    ensures
        r is Ok <==> spec_scan_ok(files@),
        !spec_scan_ok(files@) ==> r == Err::<SourceMetrics, DiagError>(DiagError::ScanFailure),
        r is Ok ==> r->Ok_0.blank_lines == spec_scan_tally(files@).blank,
        r is Ok ==> r->Ok_0.comment_lines == spec_scan_tally(files@).comment,
        r is Ok ==> r->Ok_0.code_lines == spec_scan_tally(files@).code,
        r is Ok ==> r->Ok_0.total_lines == spec_scan_tally(files@).total,
        r is Ok ==> r->Ok_0.command_count == spec_scan_tally(files@).commands,
        r is Ok ==> r->Ok_0.total_lines == r->Ok_0.blank_lines + r->Ok_0.comment_lines
            + r->Ok_0.code_lines,
{
    let ghost goal = spec_scan_tally(files@);
    proof {
        lemma_scan_line_invariant(files@);
        assert(files@.take(0).len() == 0);
    }
    let mut blank: u64 = 0;
    let mut comment: u64 = 0;
    let mut code: u64 = 0;
    let mut total: u64 = 0;
    let mut commands: u64 = 0;
    let mut i: usize = 0;
    while i < files.len()
        invariant
            goal == spec_scan_tally(files@),
            goal.total <= u64::MAX,
            goal.commands <= u64::MAX,
            goal.total == goal.blank + goal.comment + goal.code,
            i <= files@.len(),
            forall|k: int| 0 <= k < i ==> (#[trigger] files@[k].contents) is Some,
            blank == spec_scan_tally(files@.take(i as int)).blank,
            comment == spec_scan_tally(files@.take(i as int)).comment,
            code == spec_scan_tally(files@.take(i as int)).code,
            total == spec_scan_tally(files@.take(i as int)).total,
            commands == spec_scan_tally(files@.take(i as int)).commands,
        decreases files@.len() - i,
    {
        let ghost ii = i as int;
        proof {
            lemma_scan_tally_split(files@, ii);
            lemma_scan_tally_split(files@, ii + 1);
            assert(files@.take(ii + 1).take(ii) =~= files@.take(ii));
            lemma_scan_tally_split(files@.take(ii + 1), ii);
            assert(files@.take(ii + 1).skip(ii) =~= seq![files@[ii]]);
            assert(seq![files@[ii]].drop_first().len() == 0);
            assert(spec_scan_tally(seq![files@[ii]]) == tally_add(
                spec_snapshot_tally(files@[ii]),
                spec_scan_tally(seq![files@[ii]].drop_first()),
            ));
            lemma_snapshot_tally_bounds(files@[ii]);
            lemma_scan_line_invariant(files@.take(ii));
            lemma_scan_line_invariant(files@.take(ii + 1));
            lemma_scan_line_invariant(files@.skip(ii + 1));
        }
        let file: &FileSnapshot = &files[i];
        match &file.contents {
            None => {
                proof {
                    assert(!spec_scan_ok(files@));
                }
                return Err(DiagError::ScanFailure);
            },
            Some(text) => {
                let m = file_metrics(file.kind, text.as_str());
                proof {
                    assert(spec_snapshot_tally(files@[ii]) == spec_file_tally(file.kind, text@));
                }
                blank += m.blank_lines;
                comment += m.comment_lines;
                code += m.code_lines;
                total += m.total_lines;
                commands += m.command_count;
            },
        }
        i += 1;
    }
    proof {
        assert(files@.take(files@.len() as int) =~= files@);
    }
    Ok(
        SourceMetrics {
            blank_lines: blank,
            comment_lines: comment,
            code_lines: code,
            total_lines: total,
            command_count: commands,
        },
    )
}

} // verus!
