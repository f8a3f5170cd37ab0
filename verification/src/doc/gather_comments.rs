//! Comments harvested from SQL migration files: the `--` comment lines just
//! before `CREATE TABLE`, before a column of it, and before
//! `ALTER TABLE ... ADD COLUMN`.
//!
//! Lines are recognised by regular expressions, run by the `regex` crate.
use crate::name_map::{
    insert_pos, keys_sorted, lemma_sorted_insert_existing, lemma_sorted_insert_lookup, lemma_sorted_insert_sorted, lookup,
    reversed, sorted_insert, NameMap,
};
use crate::text::{
    chars_of, contains, contains_chars, copy_string, ends_with, ends_with_chars, join, join_strings,
    lines, lines_of, starts_with, starts_with_chars, string_views, trim, trim_chars, trim_string,
};
use std::sync::Arc;
use vstd::prelude::*;

verus! {

broadcast use vstd::seq_lib::group_seq_properties;

/// What `regex::Regex::new(pattern)` then `captures(haystack)` then `get(group)`
/// gives: the text of capture group `group` in the leftmost-first match of the
/// regular expression `pattern` in `haystack`; `None` where the pattern does
/// not compile, nothing matches, or the group took no part in the match.
pub uninterp spec fn regex_group(pattern: Seq<char>, haystack: Seq<char>, group: usize) -> Option<
    Seq<char>,
>;

/// What `str::to_uppercase` gives: `s` mapped to upper case by Unicode's
/// `Uppercase` mapping (one character may become several).
pub uninterp spec fn uppercase(s: Seq<char>) -> Seq<char>;

/// Runs the `regex` crate: compiles `pattern` and gives the text of capture
/// group `group` of its first match in `haystack`. The contract claims only
/// that the result is `regex_group` of the arguments.
#[verifier::external_body]
fn regex_capture(pattern: &str, haystack: &str, group: usize) -> (r: Option<String>)
    ensures
        match r {
            Some(s) => regex_group(pattern@, haystack@, group) == Some(s@),
            None => regex_group(pattern@, haystack@, group) is None,
        },
{
    let re = regex::Regex::new(pattern).ok()?;
    re.captures(haystack)?.get(group).map(|m| m.as_str().to_owned())
}

/// `str::to_uppercase`. The contract claims only that the result is
/// `uppercase` of the argument.
#[verifier::external_body]
fn to_uppercase(s: &str) -> (r: String)
    ensures
        r@ == uppercase(s@),
{
    s.to_uppercase()
}

/// A copy of a shared path (`Arc::clone`): the same text.
#[verifier::external_body]
fn share_path(p: &Arc<String>) -> (r: Arc<String>)
    ensures
        r@ == p@,
{
    Arc::clone(p)
}

/// A line that is a `--` comment; group 1 is its text.
pub open spec fn doc_comment_re() -> Seq<char> {
    r"^\s*--\s*(.*)$"@
}

/// `CREATE TABLE name`; group 1 is the table's name.
pub open spec fn create_table_re() -> Seq<char> {
    r"(?i)^\s*CREATE\s+TABLE\s+(\w+)"@
}

/// `ALTER TABLE name`; group 1 is the table's name.
pub open spec fn alter_table_re() -> Seq<char> {
    r"(?i)^\s*ALTER\s+TABLE\s+(\w+)"@
}

/// `ADD COLUMN name`; group 1 is the column's name.
pub open spec fn add_column_re() -> Seq<char> {
    r"(?i)^\s*ADD\s+COLUMN\s+(\w+)"@
}

/// A line that starts with a word; group 1 is that word.
pub open spec fn column_re() -> Seq<char> {
    r"^\s*(\w+)\s+"@
}

/// `ALTER TABLE name ADD COLUMN name` on one line; groups 1 and 2 are the
/// table's and the column's name.
pub open spec fn single_line_alter_re() -> Seq<char> {
    r"(?i)^\s*ALTER\s+TABLE\s+(\w+)\s+ADD\s+COLUMN\s+(\w+)"@
}

/// A documentation comment and the (1-based) line where it starts.
pub struct DocComment {
    pub comment: String,
    pub line_number: usize,
}

pub struct DocCommentView {
    pub comment: Seq<char>,
    pub line_number: nat,
}

impl View for DocComment {
    type V = DocCommentView;

    open spec fn view(&self) -> DocCommentView {
        DocCommentView { comment: self.comment@, line_number: self.line_number as nat }
    }
}

pub open spec fn doc_view(d: Option<DocComment>) -> Option<DocCommentView> {
    match d {
        Some(d) => Some(d@),
        None => None,
    }
}

/// A column and the comment found for it.
pub struct ColumnInfo {
    pub file_path: Arc<String>,
    pub name: String,
    pub doc_comment: Option<DocComment>,
    pub table_name: String,
}

pub struct ColumnInfoView {
    pub file_path: Seq<char>,
    pub name: Seq<char>,
    pub doc_comment: Option<DocCommentView>,
    pub table_name: Seq<char>,
}

impl View for ColumnInfo {
    type V = ColumnInfoView;

    open spec fn view(&self) -> ColumnInfoView {
        ColumnInfoView {
            file_path: self.file_path@,
            name: self.name@,
            doc_comment: doc_view(self.doc_comment),
            table_name: self.table_name@,
        }
    }
}

/// A table, its comment and its columns by name.
pub struct TableInfo {
    pub file_path: Arc<String>,
    pub name: String,
    pub doc_comment: Option<DocComment>,
    pub columns: NameMap<ColumnInfo>,
}

pub struct TableInfoView {
    pub file_path: Seq<char>,
    pub name: Seq<char>,
    pub doc_comment: Option<DocCommentView>,
    pub columns: Seq<(Seq<char>, ColumnInfoView)>,
}

impl View for TableInfo {
    type V = TableInfoView;

    open spec fn view(&self) -> TableInfoView {
        TableInfoView {
            file_path: self.file_path@,
            name: self.name@,
            doc_comment: doc_view(self.doc_comment),
            columns: self.columns@,
        }
    }
}

/// What one migration file yields.
pub struct HarvestedFile {
    pub file_path: Arc<String>,
    pub tables: Vec<TableInfo>,
    pub alter_columns: Vec<ColumnInfo>,
}

pub struct HarvestedFileView {
    pub file_path: Seq<char>,
    pub tables: Seq<TableInfoView>,
    pub alter_columns: Seq<ColumnInfoView>,
}

impl View for HarvestedFile {
    type V = HarvestedFileView;

    open spec fn view(&self) -> HarvestedFileView {
        HarvestedFileView {
            file_path: self.file_path@,
            tables: self.tables@.map_values(|t: TableInfo| t@),
            alter_columns: self.alter_columns@.map_values(|c: ColumnInfo| c@),
        }
    }
}

/// The tables of all migration files, by name.
pub struct TotalHarvest {
    pub tables: NameMap<TableInfo>,
}

impl View for TotalHarvest {
    type V = Seq<(Seq<char>, TableInfoView)>;

    open spec fn view(&self) -> Seq<(Seq<char>, TableInfoView)> {
        self.tables@
    }
}

// ---------------------------------------------------------------------------
// What the regular expressions find in each line.

/// What the regular expressions and the upper-case mapping give for one
/// line of a migration: the results the harvest reads.
pub struct LineMatches {
    /// Group 1 of `doc_comment_re` in the trimmed line: a comment's text.
    pub comment: Option<String>,
    /// `doc_comment_re` matches the trimmed line.
    pub is_comment: bool,
    /// Group 1 of `create_table_re` in the line.
    pub create_table: Option<String>,
    /// Group 1 of `alter_table_re` in the line.
    pub alter_table: Option<String>,
    /// Group 1 of `add_column_re` in the line.
    pub add_column: Option<String>,
    /// Group 1 of `column_re` in the trimmed line.
    pub column: Option<String>,
    /// Groups 1 and 2 of `single_line_alter_re` in the line.
    pub alter_add: (Option<String>, Option<String>),
    /// The line in upper case.
    pub upper: String,
    /// The trimmed line in upper case.
    pub upper_trimmed: String,
}

pub struct LineMatchesView {
    pub comment: Option<Seq<char>>,
    pub is_comment: bool,
    pub create_table: Option<Seq<char>>,
    pub alter_table: Option<Seq<char>>,
    pub add_column: Option<Seq<char>>,
    pub column: Option<Seq<char>>,
    pub alter_add: (Option<Seq<char>>, Option<Seq<char>>),
    pub upper: Seq<char>,
    pub upper_trimmed: Seq<char>,
}

pub open spec fn opt_view(o: Option<String>) -> Option<Seq<char>> {
    match o {
        Some(s) => Some(s@),
        None => None,
    }
}

impl View for LineMatches {
    type V = LineMatchesView;

    open spec fn view(&self) -> LineMatchesView {
        LineMatchesView {
            comment: opt_view(self.comment),
            is_comment: self.is_comment,
            create_table: opt_view(self.create_table),
            alter_table: opt_view(self.alter_table),
            add_column: opt_view(self.add_column),
            column: opt_view(self.column),
            alter_add: (opt_view(self.alter_add.0), opt_view(self.alter_add.1)),
            upper: self.upper@,
            upper_trimmed: self.upper_trimmed@,
        }
    }
}

/// What the regular expressions find in the line `l`.
pub open spec fn matches_of(l: Seq<char>) -> LineMatchesView {
    LineMatchesView {
        comment: regex_group(doc_comment_re(), trim(l), 1),
        is_comment: regex_group(doc_comment_re(), trim(l), 0) is Some,
        create_table: regex_group(create_table_re(), l, 1),
        alter_table: regex_group(alter_table_re(), l, 1),
        add_column: regex_group(add_column_re(), l, 1),
        column: regex_group(column_re(), trim(l), 1),
        alter_add: (regex_group(single_line_alter_re(), l, 1), regex_group(single_line_alter_re(), l, 2)),
        upper: uppercase(l),
        upper_trimmed: uppercase(trim(l)),
    }
}

/// What the regular expressions find in each line.
pub open spec fn line_matches(lines: Seq<Seq<char>>) -> Seq<LineMatchesView> {
    lines.map_values(|l: Seq<char>| matches_of(l))
}

pub open spec fn matches_views(v: Seq<LineMatches>) -> Seq<LineMatchesView> {
    v.map_values(|m: LineMatches| m@)
}

/// Runs the regular expressions and the upper-case mapping on a line.
fn line_matches_of(line: &str) -> (m: LineMatches)
    ensures
        m@ == matches_of(line@),
{
    let trimmed = trim_string(line);
    LineMatches {
        comment: regex_capture(r"^\s*--\s*(.*)$", trimmed.as_str(), 1),
        is_comment: regex_capture(r"^\s*--\s*(.*)$", trimmed.as_str(), 0).is_some(),
        create_table: regex_capture(r"(?i)^\s*CREATE\s+TABLE\s+(\w+)", line, 1),
        alter_table: regex_capture(r"(?i)^\s*ALTER\s+TABLE\s+(\w+)", line, 1),
        add_column: regex_capture(r"(?i)^\s*ADD\s+COLUMN\s+(\w+)", line, 1),
        column: regex_capture(r"^\s*(\w+)\s+", trimmed.as_str(), 1),
        alter_add: (
            regex_capture(r"(?i)^\s*ALTER\s+TABLE\s+(\w+)\s+ADD\s+COLUMN\s+(\w+)", line, 1),
            regex_capture(r"(?i)^\s*ALTER\s+TABLE\s+(\w+)\s+ADD\s+COLUMN\s+(\w+)", line, 2),
        ),
        upper: to_uppercase(line),
        upper_trimmed: to_uppercase(trimmed.as_str()),
    }
}

// ---------------------------------------------------------------------------
// Doc comments before a line.


/// Walking up from the line just before `end`, over blank lines and comment
/// lines until another line or the top: the comments met, top to bottom, each
/// trimmed, and the 1-based number of the topmost (0 when there is none).
pub open spec fn comments_before(lines: Seq<Seq<char>>, m: Seq<LineMatchesView>, end: int) -> (Seq<Seq<char>>, int)
    decreases end,
{
    if end <= 0 || end > lines.len() {
        (seq![], 0)
    } else {
        let l = trim(lines[end - 1]);
        if l.len() == 0 {
            comments_before(lines, m, end - 1)
        } else {
            match m[end - 1].comment {
                Some(t) => {
                    let (c, first) = comments_before(lines, m, end - 1);
                    (c.push(trim(t)), if c.len() == 0 {
                        end
                    } else {
                        first
                    })
                },
                None => (seq![], 0),
            }
        }
    }
}

/// The doc comment of the line at `idx`: the comments just above it, joined
/// with newlines, with the line number of the first.
pub open spec fn preceding_doc_comment(lines: Seq<Seq<char>>, m: Seq<LineMatchesView>, idx: int) -> Option<DocCommentView> {
    let (c, first) = comments_before(lines, m, idx);
    if idx == 0 || c.len() == 0 {
        None
    } else {
        Some(DocCommentView { comment: join(c, "\n"@), line_number: first as nat })
    }
}

spec fn merge_run(before: (Seq<Seq<char>>, int), after: Seq<Seq<char>>, after_first: int) -> (
    Seq<Seq<char>>,
    int,
) {
    (before.0 + after, if before.0.len() > 0 {
        before.1
    } else if after.len() > 0 {
        after_first
    } else {
        0
    })
}

proof fn lemma_comments_before_empty(lines: Seq<Seq<char>>, m: Seq<LineMatchesView>, end: int)
    ensures
        comments_before(lines, m, end).0.len() == 0 ==> comments_before(lines, m, end).1 == 0,
        comments_before(lines, m, end).0.len() > 0 ==> 1 <= comments_before(lines, m, end).1 <= end,
    decreases end,
{
    if 0 < end <= lines.len() {
        lemma_comments_before_empty(lines, m, end - 1);
    }
}

/// Blank lines between a line and the comments above it are skipped: where
/// the lines `k` to `idx - 1` are all blank (nothing but white space), the
/// doc comment of the line at `idx` is the one found for the line at `k`,
/// as if those blank lines were not there.
pub proof fn lemma_blank_lines_skipped(lines: Seq<Seq<char>>, m: Seq<LineMatchesView>, k: int, idx: int)
    requires
        0 <= k <= idx <= lines.len(),
        forall|j: int| k <= j < idx ==> (#[trigger] trim(lines[j])).len() == 0,
    ensures
        preceding_doc_comment(lines, m, idx) == preceding_doc_comment(lines, m, k),
        comments_before(lines, m, idx) == comments_before(lines, m, k),
    decreases idx - k,
{
    if k < idx {
        assert(trim(lines[idx - 1]).len() == 0);
        lemma_blank_lines_skipped(lines, m, k, idx - 1);
        assert(comments_before(lines, m, idx) == comments_before(lines, m, idx - 1));
        if idx - 1 == 0 {
            assert(comments_before(lines, m, 0).0.len() == 0);
        }
    }
}

/// How the search upwards ends at the line just above `idx`: a line that is
/// neither blank nor a comment stops it with no comment; a comment line
/// with text `t` right above gives `t` (trimmed) at line `idx` when nothing
/// is found above it, and otherwise is put below the comment found above it,
/// after a newline, keeping that comment's line number.
pub proof fn lemma_comment_run(lines: Seq<Seq<char>>, m: Seq<LineMatchesView>, idx: int)
    requires
        1 <= idx <= lines.len(),
        trim(lines[idx - 1]).len() > 0,
    ensures
        m[idx - 1].comment is None ==> preceding_doc_comment(lines, m, idx) is None,
        m[idx - 1].comment matches Some(t) ==> preceding_doc_comment(lines, m, idx) == match preceding_doc_comment(
            lines,
            m,
            idx - 1,
        ) {
            None => Some(DocCommentView { comment: trim(t), line_number: idx as nat }),
            Some(d) => Some(
                DocCommentView { comment: d.comment + "\n"@ + trim(t), line_number: d.line_number },
            ),
        },
{
    lemma_comments_before_empty(lines, m, idx - 1);
    let (c, first) = comments_before(lines, m, idx - 1);
    if let Some(t) = m[idx - 1].comment {
        assert(comments_before(lines, m, idx) == (c.push(trim(t)), if c.len() == 0 {
            idx
        } else {
            first
        }));
        if c.len() == 0 {
            assert(join(c.push(trim(t)), "\n"@) == trim(t));
        } else {
            assert(idx - 1 != 0);
            assert(c.push(trim(t)).drop_last() =~= c);
            assert(join(c.push(trim(t)), "\n"@) == join(c, "\n"@) + "\n"@ + trim(t));
        }
    }
}

fn find_preceding_doc_comment(lines: &Vec<String>, matches: &Vec<LineMatches>, current_idx: usize) -> (r: Option<DocComment>)
    requires
        current_idx <= lines.len(),
        matches.len() == lines.len(),
    ensures
        doc_view(r) == preceding_doc_comment(string_views(lines@), matches_views(matches@), current_idx as int),
{
    let ghost ls = string_views(lines@);
    let ghost ms = matches_views(matches@);
    if current_idx == 0 {
        return None;
    }
    let mut rev: Vec<String> = Vec::new();
    let mut first: usize = 0;
    let mut i = current_idx;
    let mut stopped = false;
    proof {
        lemma_comments_before_empty(ls, ms, current_idx as int);
        assert(merge_run(comments_before(ls, ms, current_idx as int), string_views(rev@).reverse(), 0)
            =~= comments_before(ls, ms, current_idx as int));
    }
    while i > 0 && !stopped
        invariant
            ls == string_views(lines@),
            ms == matches_views(matches@),
            matches.len() == lines.len(),
            i <= current_idx <= lines.len(),
            rev.len() > 0 ==> 1 <= first <= current_idx,
            !stopped ==> comments_before(ls, ms, current_idx as int) == merge_run(
                comments_before(ls, ms, i as int),
                string_views(rev@).reverse(),
                first as int,
            ),
            stopped ==> comments_before(ls, ms, current_idx as int) == (
                string_views(rev@).reverse(),
                if rev.len() > 0 {
                    first as int
                } else {
                    0
                },
            ),
        decreases i, if stopped { 0int } else { 1int },
    {
        let line = trim_string(lines[i - 1].as_str());
        proof {
            lemma_comments_before_empty(ls, ms, i - 1);
        }
        if line.as_str().is_empty() {
            i -= 1;
        } else {
            assert(ms[i - 1] == matches@[i - 1]@);
            match &matches[i - 1].comment {
                Some(text) => {
                    let t = trim_string(text.as_str());
                    let ghost after = string_views(rev@).reverse();
                    rev.push(t);
                    proof {
                        assert(string_views(rev@).reverse() =~= seq![t@] + after);
                        let cb = comments_before(ls, ms, i - 1);
                        assert(cb.0.push(t@) + after =~= cb.0 + (seq![t@] + after));
                    }
                    first = i;
                    i -= 1;
                },
                None => {
                    stopped = true;
                },
            }
        }
    }
    if rev.len() == 0 {
        return None;
    }
    let mut comment_lines: Vec<String> = Vec::new();
    let mut k = rev.len();
    while k > 0
        invariant
            k <= rev.len(),
            string_views(comment_lines@) == string_views(rev@).reverse().subrange(
                0,
                (rev.len() - k) as int,
            ),
        decreases k,
    {
        let ghost prev = comment_lines@;
        comment_lines.push(copy_string(&rev[k - 1]));
        assert(string_views(comment_lines@) =~= string_views(prev).push(rev@[k - 1]@));
        k -= 1;
    }
    assert(string_views(rev@).reverse().subrange(0, rev.len() as int) == string_views(
        rev@,
    ).reverse());
    let combined = join_strings(&comment_lines, "\n");
    Some(DocComment { comment: combined, line_number: first })
}

// ---------------------------------------------------------------------------
// Columns of CREATE TABLE.

/// The trimmed line `l` ends a `CREATE TABLE` statement.
pub open spec fn ends_statement(l: Seq<char>) -> bool {
    ends_with(trim(l), ");"@)
}

/// The trimmed line `l` is blank or starts a table constraint.
pub open spec fn skipped_in_table(l: Seq<char>, m: LineMatchesView) -> bool {
    let t = trim(l);
    let u = m.upper_trimmed;
    ||| t.len() == 0
    ||| starts_with(u, "PRIMARY KEY"@)
    ||| starts_with(u, "FOREIGN KEY"@)
    ||| starts_with(u, "UNIQUE"@)
    ||| starts_with(u, "CHECK"@)
    ||| starts_with(u, "CONSTRAINT"@)
}

/// The first line at or after `i` that ends the statement, or the number of lines.
pub open spec fn table_end(lines: Seq<Seq<char>>, i: int) -> int
    decreases lines.len() - i,
{
    if i < 0 || i >= lines.len() {
        if i < 0 { 0 } else { i }
    } else if ends_statement(lines[i]) {
        i
    } else {
        table_end(lines, i + 1)
    }
}

/// The column that the line at `i` inside `CREATE TABLE` defines, if any.
pub open spec fn column_defined_at(lines: Seq<Seq<char>>, m: Seq<LineMatchesView>, i: int) -> Option<Seq<char>> {
    if skipped_in_table(lines[i], m[i]) {
        None
    } else {
        m[i].column
    }
}

/// The columns that the lines `start..upto` define, later lines winning.
pub open spec fn table_columns(
    lines: Seq<Seq<char>>,
    m: Seq<LineMatchesView>,
    start: int,
    upto: int,
    table: Seq<char>,
    path: Seq<char>,
) -> Seq<(Seq<char>, ColumnInfoView)>
    decreases upto - start,
{
    if upto <= start {
        seq![]
    } else {
        let cols = table_columns(lines, m, start, upto - 1, table, path);
        match column_defined_at(lines, m, upto - 1) {
            Some(name) => sorted_insert(
                cols,
                name,
                ColumnInfoView {
                    file_path: path,
                    name: name,
                    doc_comment: preceding_doc_comment(lines, m, upto - 1),
                    table_name: table,
                },
            ),
            None => cols,
        }
    }
}

proof fn lemma_table_end(lines: Seq<Seq<char>>, i: int)
    requires
        0 <= i <= lines.len(),
    ensures
        i <= table_end(lines, i) <= lines.len(),
    decreases lines.len() - i,
{
    if i < lines.len() && !ends_statement(lines[i]) {
        lemma_table_end(lines, i + 1);
    }
}

/// The columns of a `CREATE TABLE` whose body starts at `start_idx`, and the
/// index of the line that ends it.
fn parse_create_table_columns(
    lines: &Vec<String>,
    matches: &Vec<LineMatches>,
    start_idx: usize,
    table_name: &String,
    file_path: &Arc<String>,
) -> (r: (NameMap<ColumnInfo>, usize))
    requires
        start_idx <= lines.len(),
        matches.len() == lines.len(),
    ensures
        r.1 == table_end(string_views(lines@), start_idx as int),
        r.0@ == table_columns(
            string_views(lines@),
            matches_views(matches@),
            start_idx as int,
            r.1 as int,
            table_name@,
            file_path@,
        ),
{
    let ghost ls = string_views(lines@);
    let ghost ms = matches_views(matches@);
    let mut columns: NameMap<ColumnInfo> = NameMap::new();
    let mut i = start_idx;
    let mut done = false;
    while i < lines.len() && !done
        invariant
            ls == string_views(lines@),
            ms == matches_views(matches@),
            matches.len() == lines.len(),
            start_idx <= i <= lines.len(),
            table_end(ls, start_idx as int) == if done {
                i as int
            } else {
                table_end(ls, i as int)
            },
            done ==> i < lines.len(),
            columns@ == table_columns(ls, ms, start_idx as int, i as int, table_name@, file_path@),
        decreases lines.len() - i, if done { 0int } else { 1int },
    {
        let line = chars_of(lines[i].as_str());
        let t = trim_chars(&line);
        if ends_with_chars(&t, ");") {
            done = true;
        } else {
            assert(ms[i as int] == matches@[i as int]@);
            let uc = chars_of(matches[i].upper_trimmed.as_str());
            let skipped = t.len() == 0 || starts_with_chars(&uc, "PRIMARY KEY") || starts_with_chars(
                &uc,
                "FOREIGN KEY",
            ) || starts_with_chars(&uc, "UNIQUE") || starts_with_chars(&uc, "CHECK")
                || starts_with_chars(&uc, "CONSTRAINT");
            if !skipped {
                match &matches[i].column {
                    Some(column_name) => {
                        let column_doc = find_preceding_doc_comment(lines, matches, i);
                        let key = copy_string(column_name);
                        columns.insert(
                            key,
                            ColumnInfo {
                                file_path: share_path(file_path),
                                name: copy_string(column_name),
                                doc_comment: column_doc,
                                table_name: copy_string(table_name),
                            },
                        );
                    },
                    None => {},
                }
            }
            i += 1;
        }
    }
    (columns, i)
}

// ---------------------------------------------------------------------------
// Whole files.

/// Looking down from line `j` for `ADD COLUMN`, over blank and comment lines:
/// the line where it stands and the column's name.
pub open spec fn add_column_after(lines: Seq<Seq<char>>, m: Seq<LineMatchesView>, j: int) -> Option<(int, Seq<char>)>
    decreases lines.len() - j,
{
    if j < 0 || j >= lines.len() {
        None
    } else {
        match m[j].add_column {
            Some(c) => Some((j, c)),
            None => {
                let t = trim(lines[j]);
                if t.len() > 0 && !m[j].is_comment {
                    None
                } else {
                    add_column_after(lines, m, j + 1)
                }
            },
        }
    }
}

pub open spec fn column_info(
    path: Seq<char>,
    name: Seq<char>,
    doc: Option<DocCommentView>,
    table: Seq<char>,
) -> ColumnInfoView {
    ColumnInfoView { file_path: path, name: name, doc_comment: doc, table_name: table }
}

/// The tables and the added columns that lines `i..` of a migration hold, in
/// the order they appear.
pub open spec fn harvest_from(lines: Seq<Seq<char>>, m: Seq<LineMatchesView>, i: int, path: Seq<char>) -> (
    Seq<TableInfoView>,
    Seq<ColumnInfoView>,
)
    decreases lines.len() - i,
{
    if i < 0 || i >= lines.len() {
        (seq![], seq![])
    } else {
        match m[i].create_table {
            Some(name) => {
                let end = table_end(lines, i + 1);
                let next = if i < end <= lines.len() {
                    end
                } else {
                    lines.len() as int
                };
                let t = TableInfoView {
                    file_path: path,
                    name: name,
                    doc_comment: preceding_doc_comment(lines, m, i),
                    columns: table_columns(lines, m, i + 1, end, name, path),
                };
                let rest = harvest_from(lines, m, next, path);
                (seq![t] + rest.0, rest.1)
            },
            None => if contains(m[i].upper, "ALTER TABLE"@) && contains(m[i].upper, "ADD COLUMN"@) {
                let rest = harvest_from(lines, m, i + 1, path);
                match m[i].alter_add {
                    (Some(tn), Some(cn)) => (
                        rest.0,
                        seq![column_info(path, cn, preceding_doc_comment(lines, m, i), tn)] + rest.1,
                    ),
                    _ => rest,
                }
            } else {
                match m[i].alter_table {
                    Some(tn) => match add_column_after(lines, m, i + 1) {
                        Some((j, cn)) => {
                            let next = if i < j < lines.len() {
                                j + 1
                            } else {
                                lines.len() as int
                            };
                            let rest = harvest_from(lines, m, next, path);
                            (
                                rest.0,
                                seq![column_info(path, cn, preceding_doc_comment(lines, m, j), tn)]
                                    + rest.1,
                            )
                        },
                        None => harvest_from(lines, m, i + 1, path),
                    },
                    None => harvest_from(lines, m, i + 1, path),
                }
            }
        }
    }
}

/// What a migration file with text `content` yields.
pub open spec fn harvested(content: Seq<char>, path: Seq<char>) -> HarvestedFileView {
    let lines = lines_of(content);
    let h = harvest_from(lines, line_matches(lines), 0, path);
    HarvestedFileView { file_path: path, tables: h.0, alter_columns: h.1 }
}

proof fn lemma_add_column_after(lines: Seq<Seq<char>>, m: Seq<LineMatchesView>, j: int)
    requires
        0 <= j,
    ensures
        add_column_after(lines, m, j) matches Some((k, _)) ==> j <= k < lines.len(),
    decreases lines.len() - j,
{
    if j < lines.len() {
        lemma_add_column_after(lines, m, j + 1);
    }
}

/// The first `ADD COLUMN` at or below line `j`, looking over blank and comment lines.
fn find_add_column(lines: &Vec<String>, matches: &Vec<LineMatches>, start: usize) -> (r: Option<(usize, String)>)
    requires
        start <= lines.len(),
        matches.len() == lines.len(),
    ensures
        match r {
            Some((j, c)) => add_column_after(string_views(lines@), matches_views(matches@), start as int) == Some(
                (j as int, c@),
            ),
            None => add_column_after(string_views(lines@), matches_views(matches@), start as int) is None,
        },
{
    let ghost ls = string_views(lines@);
    let ghost ms = matches_views(matches@);
    let mut j = start;
    while j < lines.len()
        invariant
            ls == string_views(lines@),
            ms == matches_views(matches@),
            matches.len() == lines.len(),
            start <= j <= lines.len(),
            add_column_after(ls, ms, start as int) == add_column_after(ls, ms, j as int),
        decreases lines.len() - j,
    {
        assert(ms[j as int] == matches@[j as int]@);
        match &matches[j].add_column {
            Some(c) => {
                return Some((j, copy_string(c)));
            },
            None => {},
        }
        let trimmed = trim_string(lines[j].as_str());
        if !trimmed.as_str().is_empty() {
            if !matches[j].is_comment {
                return None;
            }
        }
        j += 1;
    }
    None
}

/// Harvests the documentation comments of a SQL migration file: tables of
/// `CREATE TABLE` with their columns, and columns of `ALTER TABLE ... ADD
/// COLUMN`, each with the `--` comment lines just above it.
pub fn harvest_sql_file(content: &str, file_path: Arc<String>) -> (r: HarvestedFile)
    ensures
        r@ == harvested(content@, file_path@),
{
    let lines = lines(content);
    let mut matches: Vec<LineMatches> = Vec::new();
    let mut k: usize = 0;
    while k < lines.len()
        invariant
            k <= lines.len(),
            matches_views(matches@) == line_matches(string_views(lines@)).subrange(0, k as int),
        decreases lines.len() - k,
    {
        let m = line_matches_of(lines[k].as_str());
        let ghost before = matches_views(matches@);
        matches.push(m);
        assert(matches_views(matches@) =~= before.push(matches_of(lines@[k as int]@)));
        assert(line_matches(string_views(lines@)).subrange(0, k + 1) =~= before.push(
            matches_of(lines@[k as int]@),
        ));
        k += 1;
    }
    assert(line_matches(string_views(lines@)).subrange(0, k as int) =~= line_matches(string_views(lines@)));
    harvest_lines(&lines, &matches, file_path)
}

/// Harvests the documentation comments of the lines of a SQL migration
/// file, given what the regular expressions find in each line (`matches`,
/// one for each line): tables of `CREATE TABLE` with their columns, and
/// columns of `ALTER TABLE ... ADD COLUMN`, each with the `--` comment lines
/// just above it.
pub fn harvest_lines(lines: &Vec<String>, matches: &Vec<LineMatches>, file_path: Arc<String>) -> (r: HarvestedFile)
    requires
        matches.len() == lines.len(),
    ensures
        r@ == (HarvestedFileView {
            file_path: file_path@,
            tables: harvest_from(string_views(lines@), matches_views(matches@), 0, file_path@).0,
            alter_columns: harvest_from(string_views(lines@), matches_views(matches@), 0, file_path@).1,
        }),
{
    let ghost ls = string_views(lines@);
    let ghost ms = matches_views(matches@);
    let ghost path = file_path@;
    let mut tables: Vec<TableInfo> = Vec::new();
    let mut alter_columns: Vec<ColumnInfo> = Vec::new();
    let mut i: usize = 0;
    while i < lines.len()
        invariant
            ls == string_views(lines@),
            ms == matches_views(matches@),
            matches.len() == lines.len(),
            path == file_path@,
            i <= lines.len(),
            harvest_from(ls, ms, 0, path) == (
                tables@.map_values(|t: TableInfo| t@) + harvest_from(ls, ms, i as int, path).0,
                alter_columns@.map_values(|c: ColumnInfo| c@) + harvest_from(ls, ms, i as int, path).1,
            ),
        decreases lines.len() - i,
    {
        let ghost rest_here = harvest_from(ls, ms, i as int, path);
        assert(ms[i as int] == matches@[i as int]@);
        let lm = &matches[i];
        let ghost tv = tables@.map_values(|t: TableInfo| t@);
        let ghost cv = alter_columns@.map_values(|c: ColumnInfo| c@);
        match &lm.create_table {
            Some(table_name) => {
                let table_doc = find_preceding_doc_comment(lines, matches, i);
                let (columns, end_idx) = parse_create_table_columns(
                    lines,
                    matches,
                    i + 1,
                    table_name,
                    &file_path,
                );
                proof {
                    lemma_table_end(ls, i + 1);
                }
                let t = TableInfo {
                    file_path: share_path(&file_path),
                    name: copy_string(table_name),
                    doc_comment: table_doc,
                    columns,
                };
                let ghost t_view = t@;
                tables.push(t);
                proof {
                    assert(tables@.map_values(|t: TableInfo| t@) =~= tv.push(t_view));
                    assert(rest_here.0 =~= seq![t_view] + harvest_from(ls, ms, end_idx as int, path).0);
                    assert(tv + rest_here.0 =~= tv.push(t_view) + harvest_from(
                        ls,
                        ms,
                        end_idx as int,
                        path,
                    ).0);
                }
                i = end_idx;
            },
            None => {
                let uc = chars_of(lm.upper.as_str());
                if contains_chars(&uc, "ALTER TABLE") && contains_chars(&uc, "ADD COLUMN") {
                    match &lm.alter_add {
                        (Some(table_name), Some(column_name)) => {
                            let column_doc = find_preceding_doc_comment(lines, matches, i);
                            let c = ColumnInfo {
                                file_path: share_path(&file_path),
                                name: copy_string(column_name),
                                doc_comment: column_doc,
                                table_name: copy_string(table_name),
                            };
                            let ghost c_view = c@;
                            alter_columns.push(c);
                            proof {
                                assert(alter_columns@.map_values(|c: ColumnInfo| c@) =~= cv.push(
                                    c_view,
                                ));
                                assert(cv + rest_here.1 =~= cv.push(c_view) + harvest_from(
                                    ls,
                                    ms,
                                    i + 1,
                                    path,
                                ).1);
                            }
                        },
                        _ => {},
                    }
                    i += 1;
                } else {
                    match &lm.alter_table {
                        Some(table_name) => {
                            proof {
                                lemma_add_column_after(ls, ms, i + 1);
                            }
                            match find_add_column(lines, matches, i + 1) {
                                Some((j, column_name)) => {
                                    let column_doc = find_preceding_doc_comment(lines, matches, j);
                                    let c = ColumnInfo {
                                        file_path: share_path(&file_path),
                                        name: column_name,
                                        doc_comment: column_doc,
                                        table_name: copy_string(table_name),
                                    };
                                    let ghost c_view = c@;
                                    alter_columns.push(c);
                                    proof {
                                        assert(alter_columns@.map_values(|c: ColumnInfo| c@)
                                            =~= cv.push(c_view));
                                        assert(cv + rest_here.1 =~= cv.push(c_view) + harvest_from(
                                            ls,
                                            ms,
                                            j + 1,
                                            path,
                                        ).1);
                                    }
                                    i = j + 1;
                                },
                                None => {
                                    i += 1;
                                },
                            }
                        },
                        None => {
                            i += 1;
                        },
                    }
                }
            },
        }
    }
    HarvestedFile { file_path, tables, alter_columns }
}

// ---------------------------------------------------------------------------
// All migration files together.

/// The paths that name SQL migration files: ending in `.sql`,
/// `.sql.postgres` or `.sql.postgresql`.
pub open spec fn is_sql_path(path: Seq<char>) -> bool {
    ends_with(path, ".sql"@) || ends_with(path, ".sql.postgres"@) || ends_with(
        path,
        ".sql.postgresql"@,
    )
}

/// Whether `path` names a SQL migration file.
pub fn is_sql_file_path(path: &str) -> (b: bool)
    ensures
        b == is_sql_path(path@),
{
    let p = chars_of(path);
    ends_with_chars(&p, ".sql") || ends_with_chars(&p, ".sql.postgres") || ends_with_chars(
        &p,
        ".sql.postgresql",
    )
}

/// The tables of `ts` set by name into `acc`, later ones winning.
pub open spec fn add_tables(
    acc: Seq<(Seq<char>, TableInfoView)>,
    ts: Seq<TableInfoView>,
) -> Seq<(Seq<char>, TableInfoView)>
    decreases ts.len(),
{
    if ts.len() == 0 {
        acc
    } else {
        sorted_insert(add_tables(acc, ts.drop_last()), ts.last().name, ts.last())
    }
}

/// An added column set into the table it belongs to; a table not seen yet is
/// created (without comment, from `filename`).
pub open spec fn add_alter_column(
    acc: Seq<(Seq<char>, TableInfoView)>,
    c: ColumnInfoView,
    filename: Seq<char>,
) -> Seq<(Seq<char>, TableInfoView)> {
    match lookup(acc, c.table_name) {
        None => sorted_insert(
            acc,
            c.table_name,
            TableInfoView {
                file_path: filename,
                name: c.table_name,
                doc_comment: None,
                columns: seq![(c.name, c)],
            },
        ),
        Some(t) => sorted_insert(
            acc,
            c.table_name,
            TableInfoView {
                file_path: t.file_path,
                name: t.name,
                doc_comment: t.doc_comment,
                columns: sorted_insert(t.columns, c.name, c),
            },
        ),
    }
}

pub open spec fn add_alter_columns(
    acc: Seq<(Seq<char>, TableInfoView)>,
    cs: Seq<ColumnInfoView>,
    filename: Seq<char>,
) -> Seq<(Seq<char>, TableInfoView)>
    decreases cs.len(),
{
    if cs.len() == 0 {
        acc
    } else {
        add_alter_column(add_alter_columns(acc, cs.drop_last(), filename), cs.last(), filename)
    }
}

/// What one file adds: its tables first, then its added columns.
pub open spec fn add_file(
    acc: Seq<(Seq<char>, TableInfoView)>,
    filename: Seq<char>,
    f: HarvestedFileView,
) -> Seq<(Seq<char>, TableInfoView)> {
    add_alter_columns(add_tables(acc, f.tables), f.alter_columns, filename)
}

/// The files folded together in order, so that later files override earlier ones.
pub open spec fn combine_files(files: Seq<(Seq<char>, HarvestedFileView)>) -> Seq<
    (Seq<char>, TableInfoView),
>
    decreases files.len(),
{
    if files.len() == 0 {
        seq![]
    } else {
        add_file(combine_files(files.drop_last()), files.last().0, files.last().1)
    }
}

/// The harvested files by path, a path met twice keeping its last text.
pub open spec fn files_by_path(sources: Seq<(Seq<char>, Seq<char>)>) -> Seq<
    (Seq<char>, HarvestedFileView),
>
    decreases sources.len(),
{
    if sources.len() == 0 {
        seq![]
    } else {
        let (path, content) = sources.last();
        sorted_insert(files_by_path(sources.drop_last()), path, harvested(content, path))
    }
}

/// The views of (path, text) pairs.
pub open spec fn source_views(v: Seq<(String, String)>) -> Seq<(Seq<char>, Seq<char>)> {
    v.map_values(|e: (String, String)| (e.0@, e.1@))
}

fn add_alter_column_to(
    combined: &mut NameMap<TableInfo>,
    column: ColumnInfo,
    filename: &Arc<String>,
)
    ensures
        final(combined)@ == add_alter_column(old(combined)@, column@, filename@),
{
    let ghost cv = column@;
    let n = combined.len();
    match combined.index_of(column.table_name.as_str()) {
        None => {
            let mut columns: NameMap<ColumnInfo> = NameMap::new();
            let key = copy_string(&column.name);
            let table_name = copy_string(&column.table_name);
            columns.insert(key, column);
            assert(columns@ =~= seq![(cv.name, cv)]);
            let t = TableInfo {
                file_path: share_path(filename),
                name: copy_string(&table_name),
                doc_comment: None,
                columns,
            };
            combined.insert(table_name, t);
        },
        Some(idx) => {
            proof {
                crate::name_map::lemma_lookup_at(old(combined)@, idx as int);
            }
            let placeholder = TableInfo {
                file_path: Arc::new(String::new()),
                name: String::new(),
                doc_comment: None,
                columns: NameMap::new(),
            };
            let mut t = combined.replace_value_at(idx, placeholder);
            let key = copy_string(&column.name);
            t.columns.insert(key, column);
            let ghost tv = t@;
            combined.replace_value_at(idx, t);
            proof {
                lemma_sorted_insert_existing(old(combined)@, idx as int, tv);
                assert(final(combined)@ =~= old(combined)@.update(idx as int, (old(combined)@[idx as int].0, tv)));
            }
        },
    }
}

/// Harvests every SQL migration of `sources` (path and text) and combines
/// them: files are taken in the order of their paths, so that a later
/// migration overrides what an earlier one said of a table or column.
pub fn harvest_from_sources(sources: Vec<(String, String)>) -> (r: TotalHarvest)
    ensures
        r@ == combine_files(files_by_path(source_views(sources@))),
{
    let ghost sv = source_views(sources@);
    let mut by_path: NameMap<HarvestedFile> = NameMap::new();
    let mut pending = reversed(sources);
    let ghost mut seen: int = 0;
    while pending.len() > 0
        invariant
            0 <= seen,
            seen + pending@.len() == sv.len(),
            forall|i: int| 0 <= i < pending@.len() ==> (#[trigger] pending@[i].0@, pending@[i].1@) == sv[sv.len() - 1 - i],
            by_path@ == files_by_path(sv.subrange(0, seen as int)),
        decreases pending.len(),
    {
        let (path, content) = pending.pop().unwrap();
        assert((path@, content@) == sv[seen as int]);
        assert(sv.subrange(0, seen + 1).drop_last() =~= sv.subrange(0, seen as int));
        let shared = Arc::new(path);
        let key = copy_string(&*shared);
        let h = harvest_sql_file(content.as_str(), shared);
        by_path.insert(key, h);
        proof { seen = seen + 1; }
    }
    assert(sv.subrange(0, seen as int) == sv);
    let files = by_path.into_entries();
    let ghost fv = files@.map_values(|e: (String, HarvestedFile)| (e.0@, e.1@));
    let mut combined: NameMap<TableInfo> = NameMap::new();
    let mut pending_files = reversed(files);
    let ghost mut done: int = 0;
    while pending_files.len() > 0
        invariant
            0 <= done,
            done + pending_files@.len() == fv.len(),
            forall|i: int| 0 <= i < pending_files@.len() ==> (#[trigger] pending_files@[i].0@, pending_files@[i].1@) == fv[fv.len() - 1 - i],
            combined@ == combine_files(fv.subrange(0, done as int)),
        decreases pending_files.len(),
    {
        let ghost n = pending_files@.len();
        let (filename, file) = pending_files.pop().unwrap();
        let ghost fileview = file@;
        assert((filename@, fileview) == fv[done as int]);
        let filename = Arc::new(filename);
        let HarvestedFile { file_path: _, tables, alter_columns } = file;
        let ghost acc0 = combined@;
        let mut ts = reversed(tables);
        let ghost mut k: int = 0;
        while ts.len() > 0
            invariant
                0 <= k,
                k + ts@.len() == fileview.tables.len(),
                forall|i: int| 0 <= i < ts@.len() ==> (#[trigger] ts@[i])@ == fileview.tables[fileview.tables.len() - 1 - i],
                combined@ == add_tables(acc0, fileview.tables.subrange(0, k as int)),
            decreases ts.len(),
        {
            let t = ts.pop().unwrap();
            assert(t@ == fileview.tables[k as int]);
            assert(fileview.tables.subrange(0, k + 1).drop_last() =~= fileview.tables.subrange(0, k as int));
            let name = copy_string(&t.name);
            combined.insert(name, t);
            proof { k = k + 1; }
        }
        assert(fileview.tables.subrange(0, k as int) == fileview.tables);
        let ghost acc1 = combined@;
        let mut cs = reversed(alter_columns);
        let ghost mut m: int = 0;
        while cs.len() > 0
            invariant
                0 <= m,
                m + cs@.len() == fileview.alter_columns.len(),
                forall|i: int| 0 <= i < cs@.len() ==> (#[trigger] cs@[i])@ == fileview.alter_columns[fileview.alter_columns.len() - 1 - i],
                combined@ == add_alter_columns(acc1, fileview.alter_columns.subrange(0, m as int), filename@),
            decreases cs.len(),
        {
            let c = cs.pop().unwrap();
            assert(c@ == fileview.alter_columns[m as int]);
            assert(fileview.alter_columns.subrange(0, m + 1).drop_last() =~= fileview.alter_columns.subrange(0, m as int));
            add_alter_column_to(&mut combined, c, &filename);
            proof { m = m + 1; }
        }
        assert(fileview.alter_columns.subrange(0, m as int) == fileview.alter_columns);
        assert(fv.subrange(0, done + 1).drop_last() =~= fv.subrange(0, done as int));
        proof { done = done + 1; }
    }
    assert(fv.subrange(0, done as int) == fv);
    TotalHarvest { tables: combined }
}

// ---------------------------------------------------------------------------
// Later migrations override earlier ones.

/// The file `f` says something of the table named `name`: it creates it or
/// adds a column to it.
pub open spec fn touches(f: HarvestedFileView, name: Seq<char>) -> bool {
    ||| exists|j: int| 0 <= j < f.tables.len() && #[trigger] f.tables[j].name == name
    ||| exists|j: int| 0 <= j < f.alter_columns.len() && #[trigger] f.alter_columns[j].table_name == name
}

proof fn lemma_add_tables_sorted(acc: Seq<(Seq<char>, TableInfoView)>, ts: Seq<TableInfoView>)
    requires
        keys_sorted(acc),
    ensures
        keys_sorted(add_tables(acc, ts)),
    decreases ts.len(),
{
    if ts.len() > 0 {
        lemma_add_tables_sorted(acc, ts.drop_last());
        lemma_sorted_insert_sorted(add_tables(acc, ts.drop_last()), ts.last().name, ts.last());
    }
}

proof fn lemma_add_alter_columns_sorted(
    acc: Seq<(Seq<char>, TableInfoView)>,
    cs: Seq<ColumnInfoView>,
    filename: Seq<char>,
)
    requires
        keys_sorted(acc),
    ensures
        keys_sorted(add_alter_columns(acc, cs, filename)),
    decreases cs.len(),
{
    if cs.len() > 0 {
        let before = add_alter_columns(acc, cs.drop_last(), filename);
        lemma_add_alter_columns_sorted(acc, cs.drop_last(), filename);
        let c = cs.last();
        match lookup(before, c.table_name) {
            None => lemma_sorted_insert_sorted(
                before,
                c.table_name,
                TableInfoView {
                    file_path: filename,
                    name: c.table_name,
                    doc_comment: None,
                    columns: seq![(c.name, c)],
                },
            ),
            Some(t) => lemma_sorted_insert_sorted(
                before,
                c.table_name,
                TableInfoView {
                    file_path: t.file_path,
                    name: t.name,
                    doc_comment: t.doc_comment,
                    columns: sorted_insert(t.columns, c.name, c),
                },
            ),
        }
    }
}

proof fn lemma_combine_files_sorted(files: Seq<(Seq<char>, HarvestedFileView)>)
    ensures
        keys_sorted(combine_files(files)),
    decreases files.len(),
{
    if files.len() > 0 {
        lemma_combine_files_sorted(files.drop_last());
        let acc = combine_files(files.drop_last());
        let f = files.last().1;
        lemma_add_tables_sorted(acc, f.tables);
        lemma_add_alter_columns_sorted(add_tables(acc, f.tables), f.alter_columns, files.last().0);
    }
}

/// Tables of other names leave what `acc` holds for `name` as it was; the
/// last table named `name`, where there is one, is what it holds after.
proof fn lemma_add_tables_lookup(
    acc: Seq<(Seq<char>, TableInfoView)>,
    ts: Seq<TableInfoView>,
    name: Seq<char>,
)
    requires
        keys_sorted(acc),
    ensures
        (forall|j: int| 0 <= j < ts.len() ==> #[trigger] ts[j].name != name) ==> lookup(
            add_tables(acc, ts),
            name,
        ) == lookup(acc, name),
        forall|t: int|
            0 <= t < ts.len() && ts[t].name == name && (forall|u: int|
                t < u < ts.len() ==> #[trigger] ts[u].name != name) ==> lookup(
                add_tables(acc, ts),
                name,
            ) == Some(#[trigger] ts[t]),
    decreases ts.len(),
{
    if ts.len() > 0 {
        let rest = ts.drop_last();
        lemma_add_tables_lookup(acc, rest, name);
        lemma_add_tables_sorted(acc, rest);
        lemma_sorted_insert_lookup(add_tables(acc, rest), ts.last().name, ts.last(), name);
        assert forall|t: int|
            0 <= t < ts.len() && ts[t].name == name && (forall|u: int|
                t < u < ts.len() ==> #[trigger] ts[u].name != name) implies lookup(
            add_tables(acc, ts),
            name,
        ) == Some(#[trigger] ts[t]) by {
            if t < ts.len() - 1 {
                assert(ts.last().name != name);
                assert(rest[t] == ts[t]);
                assert forall|u: int| t < u < rest.len() implies #[trigger] rest[u].name != name by {
                    assert(rest[u] == ts[u]);
                }
            }
        }
        if forall|j: int| 0 <= j < ts.len() ==> #[trigger] ts[j].name != name {
            assert(ts.last().name != name);
            assert forall|j: int| 0 <= j < rest.len() implies #[trigger] rest[j].name != name by {
                assert(rest[j] == ts[j]);
            }
        }
    }
}

/// Columns added to other tables leave what `acc` holds for `name` as it was.
proof fn lemma_add_alter_columns_lookup_other(
    acc: Seq<(Seq<char>, TableInfoView)>,
    cs: Seq<ColumnInfoView>,
    filename: Seq<char>,
    name: Seq<char>,
)
    requires
        keys_sorted(acc),
        forall|j: int| 0 <= j < cs.len() ==> #[trigger] cs[j].table_name != name,
    ensures
        lookup(add_alter_columns(acc, cs, filename), name) == lookup(acc, name),
    decreases cs.len(),
{
    if cs.len() > 0 {
        let rest = cs.drop_last();
        assert forall|j: int| 0 <= j < rest.len() implies #[trigger] rest[j].table_name != name by {
            assert(rest[j] == cs[j]);
        }
        lemma_add_alter_columns_lookup_other(acc, rest, filename, name);
        lemma_add_alter_columns_sorted(acc, rest, filename);
        let before = add_alter_columns(acc, rest, filename);
        let c = cs.last();
        assert(c.table_name != name);
        match lookup(before, c.table_name) {
            None => lemma_sorted_insert_lookup(
                before,
                c.table_name,
                TableInfoView {
                    file_path: filename,
                    name: c.table_name,
                    doc_comment: None,
                    columns: seq![(c.name, c)],
                },
                name,
            ),
            Some(t) => lemma_sorted_insert_lookup(
                before,
                c.table_name,
                TableInfoView {
                    file_path: t.file_path,
                    name: t.name,
                    doc_comment: t.doc_comment,
                    columns: sorted_insert(t.columns, c.name, c),
                },
                name,
            ),
        }
    }
}

/// Files after the `i`-th that do not touch `name` leave the combined entry
/// for `name` as the first `i + 1` files made it.
proof fn lemma_combine_untouched_after(
    files: Seq<(Seq<char>, HarvestedFileView)>,
    i: int,
    name: Seq<char>,
)
    requires
        0 <= i < files.len(),
        forall|j: int| i < j < files.len() ==> !touches(#[trigger] files[j].1, name),
    ensures
        lookup(combine_files(files), name) == lookup(combine_files(files.subrange(0, i + 1)), name),
    decreases files.len(),
{
    if files.len() > i + 1 {
        let rest = files.drop_last();
        assert forall|j: int| i < j < rest.len() implies !touches(#[trigger] rest[j].1, name) by {
            assert(rest[j] == files[j]);
        }
        lemma_combine_untouched_after(rest, i, name);
        assert(rest.subrange(0, i + 1) =~= files.subrange(0, i + 1));
        let f = files.last().1;
        assert(!touches(files[files.len() - 1].1, name));
        lemma_combine_files_sorted(rest);
        let acc = combine_files(rest);
        lemma_add_tables_lookup(acc, f.tables, name);
        lemma_add_tables_sorted(acc, f.tables);
        lemma_add_alter_columns_lookup_other(add_tables(acc, f.tables), f.alter_columns, files.last().0, name);
    } else {
        assert(files.subrange(0, i + 1) =~= files);
    }
}

/// Later migrations override earlier ones: where the `i`-th harvested file
/// (files come in the order of their paths) creates a table, that table,
/// as that file describes it, is what the harvest holds under its name,
/// provided the file creates it only there and adds no column to it, and no
/// file with a later path creates it or adds a column to it.
pub proof fn lemma_later_migration_overrides(
    files: Seq<(Seq<char>, HarvestedFileView)>,
    i: int,
    t: int,
)
    requires
        0 <= i < files.len(),
        0 <= t < files[i].1.tables.len(),
        forall|u: int|
            t < u < files[i].1.tables.len() ==> #[trigger] files[i].1.tables[u].name
                != files[i].1.tables[t].name,
        forall|j: int|
            0 <= j < files[i].1.alter_columns.len() ==> #[trigger] files[i].1.alter_columns[j].table_name
                != files[i].1.tables[t].name,
        forall|j: int| i < j < files.len() ==> !touches(#[trigger] files[j].1, files[i].1.tables[t].name),
    ensures
        lookup(combine_files(files), files[i].1.tables[t].name) == Some(files[i].1.tables[t]),
{
    let name = files[i].1.tables[t].name;
    lemma_combine_untouched_after(files, i, name);
    let upto = files.subrange(0, i + 1);
    assert(upto.drop_last() =~= files.subrange(0, i));
    assert(upto.last() == files[i]);
    let f = files[i].1;
    let acc = combine_files(files.subrange(0, i));
    lemma_combine_files_sorted(files.subrange(0, i));
    lemma_add_tables_lookup(acc, f.tables, name);
    lemma_add_tables_sorted(acc, f.tables);
    lemma_add_alter_columns_lookup_other(add_tables(acc, f.tables), f.alter_columns, files[i].0, name);
}

// ---------------------------------------------------------------------------
// Added columns are kept.

/// Every table that `acc` holds has its columns in the order of their names.
pub open spec fn columns_ordered(acc: Seq<(Seq<char>, TableInfoView)>) -> bool {
    forall|i: int| 0 <= i < acc.len() ==> keys_sorted(#[trigger] acc[i].1.columns)
}

/// The table found for a name is one of the entries held under that name.
proof fn lemma_lookup_is_entry(s: Seq<(Seq<char>, TableInfoView)>, k: Seq<char>)
    ensures
        lookup(s, k) matches Some(t) ==> exists|i: int| 0 <= i < s.len() && #[trigger] s[i] == (k, t),
    decreases s.len(),
{
    if s.len() > 0 {
        lemma_lookup_is_entry(s.drop_last(), k);
        if s.last().0 == k {
            assert(s[s.len() - 1] == (k, s.last().1));
        } else if lookup(s, k) is Some {
            let t = lookup(s, k)->0;
            let i = choose|i: int| 0 <= i < s.drop_last().len() && #[trigger] s.drop_last()[i] == (k, t);
            assert(s[i] == (k, t));
        }
    }
}

/// Setting a table whose columns are in order keeps every table's columns in order.
proof fn lemma_sorted_insert_columns_ordered(s: Seq<(Seq<char>, TableInfoView)>, k: Seq<char>, v: TableInfoView)
    requires
        keys_sorted(s),
        columns_ordered(s),
        keys_sorted(v.columns),
    ensures
        columns_ordered(sorted_insert(s, k, v)),
{
    crate::name_map::lemma_insert_pos(s, k);
    let p = insert_pos(s, k);
    let t = sorted_insert(s, k, v);
    assert forall|i: int| 0 <= i < t.len() implies keys_sorted(#[trigger] t[i].1.columns) by {
        if 0 <= p < s.len() && s[p].0 == k {
            if i != p {
                assert(t[i] == s[i]);
            }
        } else if i < p {
            assert(t[i] == s[i]);
        } else if i > p {
            assert(t[i] == s[i - 1]);
        }
    }
}

proof fn lemma_add_tables_columns_ordered(acc: Seq<(Seq<char>, TableInfoView)>, ts: Seq<TableInfoView>)
    requires
        keys_sorted(acc),
        columns_ordered(acc),
        forall|t: int| 0 <= t < ts.len() ==> keys_sorted(#[trigger] ts[t].columns),
    ensures
        columns_ordered(add_tables(acc, ts)),
    decreases ts.len(),
{
    if ts.len() > 0 {
        let rest = ts.drop_last();
        assert forall|t: int| 0 <= t < rest.len() implies keys_sorted(#[trigger] rest[t].columns) by {
            assert(rest[t] == ts[t]);
        }
        lemma_add_tables_columns_ordered(acc, rest);
        lemma_add_tables_sorted(acc, rest);
        assert(keys_sorted(ts[ts.len() - 1].columns));
        lemma_sorted_insert_columns_ordered(add_tables(acc, rest), ts.last().name, ts.last());
    }
}

/// Adding a column to the table it names: the entries stay ordered; the
/// column is then found in its table; a table not held before is created
/// from the file, without comment, holding just that column; a table held
/// before keeps its file, name, comment and every other column; other
/// tables are found as they were.
pub proof fn lemma_add_alter_column_step(
    acc: Seq<(Seq<char>, TableInfoView)>,
    c: ColumnInfoView,
    filename: Seq<char>,
    name: Seq<char>,
    col: Seq<char>,
)
    requires
        keys_sorted(acc),
        columns_ordered(acc),
    ensures
        keys_sorted(add_alter_column(acc, c, filename)),
        columns_ordered(add_alter_column(acc, c, filename)),
        lookup(add_alter_column(acc, c, filename), c.table_name) matches Some(t) && lookup(t.columns, c.name)
            == Some(c),
        name != c.table_name ==> lookup(add_alter_column(acc, c, filename), name) == lookup(acc, name),
        col != c.name && lookup(acc, c.table_name) is Some ==> (lookup(add_alter_column(acc, c, filename), c.table_name)
            matches Some(t) && lookup(t.columns, col) == lookup(lookup(acc, c.table_name)->0.columns, col)),
        lookup(acc, c.table_name) matches Some(t0) ==> (lookup(add_alter_column(acc, c, filename), c.table_name)
            matches Some(t) && t.file_path == t0.file_path && t.name == t0.name && t.doc_comment == t0.doc_comment),
        lookup(acc, c.table_name) is None ==> (lookup(add_alter_column(acc, c, filename), c.table_name)
            matches Some(t) && t.file_path == filename && t.name == c.table_name && t.doc_comment is None
            && t.columns == seq![(c.name, c)]),
{
    let tn = c.table_name;
    lemma_lookup_is_entry(acc, tn);
    match lookup(acc, tn) {
        None => {
            let nt = TableInfoView {
                file_path: filename,
                name: tn,
                doc_comment: None,
                columns: seq![(c.name, c)],
            };
            lemma_sorted_insert_sorted(acc, tn, nt);
            lemma_sorted_insert_lookup(acc, tn, nt, name);
            lemma_sorted_insert_columns_ordered(acc, tn, nt);
            assert(seq![(c.name, c)].drop_last() =~= Seq::<(Seq<char>, ColumnInfoView)>::empty());
        },
        Some(t) => {
            let i = choose|i: int| 0 <= i < acc.len() && #[trigger] acc[i] == (tn, t);
            assert(keys_sorted(acc[i].1.columns));
            let nt = TableInfoView {
                file_path: t.file_path,
                name: t.name,
                doc_comment: t.doc_comment,
                columns: sorted_insert(t.columns, c.name, c),
            };
            lemma_sorted_insert_sorted(t.columns, c.name, c);
            lemma_sorted_insert_lookup(t.columns, c.name, c, col);
            lemma_sorted_insert_sorted(acc, tn, nt);
            lemma_sorted_insert_lookup(acc, tn, nt, name);
            lemma_sorted_insert_columns_ordered(acc, tn, nt);
        },
    }
}

proof fn lemma_add_alter_columns_ordered(
    acc: Seq<(Seq<char>, TableInfoView)>,
    cs: Seq<ColumnInfoView>,
    filename: Seq<char>,
)
    requires
        keys_sorted(acc),
        columns_ordered(acc),
    ensures
        keys_sorted(add_alter_columns(acc, cs, filename)),
        columns_ordered(add_alter_columns(acc, cs, filename)),
    decreases cs.len(),
{
    if cs.len() > 0 {
        lemma_add_alter_columns_ordered(acc, cs.drop_last(), filename);
        let c = cs.last();
        lemma_add_alter_column_step(add_alter_columns(acc, cs.drop_last(), filename), c, filename, c.table_name, c.name);
    }
}

/// The `a`-th of the added columns `cs` is found in its table after all of
/// them are added, unless a later one of them has the same table and name.
proof fn lemma_add_alter_columns_keeps(
    acc: Seq<(Seq<char>, TableInfoView)>,
    cs: Seq<ColumnInfoView>,
    filename: Seq<char>,
    a: int,
)
    requires
        keys_sorted(acc),
        columns_ordered(acc),
        0 <= a < cs.len(),
        forall|b: int|
            a < b < cs.len() ==> !((#[trigger] cs[b]).table_name == cs[a].table_name && cs[b].name == cs[a].name),
    ensures
        lookup(add_alter_columns(acc, cs, filename), cs[a].table_name) matches Some(t) && lookup(t.columns, cs[a].name)
            == Some(cs[a]),
    decreases cs.len(),
{
    let rest = cs.drop_last();
    let before = add_alter_columns(acc, rest, filename);
    lemma_add_alter_columns_ordered(acc, rest, filename);
    let c = cs.last();
    if a == cs.len() - 1 {
        lemma_add_alter_column_step(before, c, filename, c.table_name, c.name);
    } else {
        assert(rest[a] == cs[a]);
        assert forall|b: int| a < b < rest.len() implies !((#[trigger] rest[b]).table_name == rest[a].table_name
            && rest[b].name == rest[a].name) by {
            assert(rest[b] == cs[b]);
        }
        lemma_add_alter_columns_keeps(acc, rest, filename, a);
        assert(cs[cs.len() - 1] == c);
        lemma_add_alter_column_step(before, c, filename, cs[a].table_name, cs[a].name);
    }
}

proof fn lemma_combine_files_columns_ordered(files: Seq<(Seq<char>, HarvestedFileView)>)
    requires
        tables_columns_ordered(files),
    ensures
        columns_ordered(combine_files(files)),
    decreases files.len(),
{
    if files.len() > 0 {
        let rest = files.drop_last();
        assert forall|j: int, t: int| 0 <= j < rest.len() && 0 <= t < rest[j].1.tables.len() implies keys_sorted(
            #[trigger] rest[j].1.tables[t].columns,
        ) by {
            assert(rest[j] == files[j]);
        }
        lemma_combine_files_columns_ordered(rest);
        lemma_combine_files_sorted(rest);
        let acc = combine_files(rest);
        let last = files.len() - 1;
        let f = files[last].1;
        assert(files.last() == files[last]);
        assert forall|t: int| 0 <= t < f.tables.len() implies keys_sorted(#[trigger] f.tables[t].columns) by {
            assert(keys_sorted(files[last].1.tables[t].columns));
        }
        lemma_add_tables_columns_ordered(acc, f.tables);
        lemma_add_tables_sorted(acc, f.tables);
        lemma_add_alter_columns_ordered(add_tables(acc, f.tables), f.alter_columns, files.last().0);
    }
}

/// Every added column ends up in the total harvest: where the `i`-th
/// harvested file adds a column to a table (`ALTER TABLE ... ADD COLUMN`),
/// whether or not an earlier file created that table, the harvest holds the
/// table, and the table holds that column as the file describes it,
/// provided the file adds no later column of the same name to that table and
/// no later file creates the table or adds a column to it. (The tables of the
/// files keep their columns in the order of their names, as a harvested
/// file's tables do.)
pub proof fn lemma_added_column_kept(files: Seq<(Seq<char>, HarvestedFileView)>, i: int, a: int)
    requires
        0 <= i < files.len(),
        0 <= a < files[i].1.alter_columns.len(),
        tables_columns_ordered(files),
        forall|b: int|
            a < b < files[i].1.alter_columns.len() ==> !((#[trigger] files[i].1.alter_columns[b]).table_name
                == files[i].1.alter_columns[a].table_name && files[i].1.alter_columns[b].name
                == files[i].1.alter_columns[a].name),
        forall|j: int|
            i < j < files.len() ==> !touches(#[trigger] files[j].1, files[i].1.alter_columns[a].table_name),
    ensures
        lookup(combine_files(files), files[i].1.alter_columns[a].table_name) matches Some(t) && lookup(
            t.columns,
            files[i].1.alter_columns[a].name,
        ) == Some(files[i].1.alter_columns[a]),
{
    let c = files[i].1.alter_columns[a];
    let name = c.table_name;
    lemma_combine_untouched_after(files, i, name);
    let upto = files.subrange(0, i + 1);
    let earlier = files.subrange(0, i);
    assert(upto.drop_last() =~= earlier);
    assert(upto.last() == files[i]);
    let f = files[i].1;
    assert forall|j: int, t: int| 0 <= j < earlier.len() && 0 <= t < earlier[j].1.tables.len() implies keys_sorted(
        #[trigger] earlier[j].1.tables[t].columns,
    ) by {
        assert(earlier[j] == files[j]);
    }
    lemma_combine_files_columns_ordered(earlier);
    lemma_combine_files_sorted(earlier);
    let acc = combine_files(earlier);
    assert forall|t: int| 0 <= t < f.tables.len() implies keys_sorted(#[trigger] f.tables[t].columns) by {
        assert(keys_sorted(files[i].1.tables[t].columns));
    }
    lemma_add_tables_columns_ordered(acc, f.tables);
    lemma_add_tables_sorted(acc, f.tables);
    lemma_add_alter_columns_keeps(add_tables(acc, f.tables), f.alter_columns, files[i].0, a);
}

/// The tables of every file of `files` keep their columns in the order of their names.
pub open spec fn tables_columns_ordered(files: Seq<(Seq<char>, HarvestedFileView)>) -> bool {
    forall|j: int, t: int|
        0 <= j < files.len() && 0 <= t < files[j].1.tables.len() ==> keys_sorted(
            #[trigger] files[j].1.tables[t].columns,
        )
}

proof fn lemma_table_columns_sorted(
    lines: Seq<Seq<char>>,
    m: Seq<LineMatchesView>,
    start: int,
    upto: int,
    table: Seq<char>,
    path: Seq<char>,
)
    ensures
        keys_sorted(table_columns(lines, m, start, upto, table, path)),
    decreases upto - start,
{
    if upto > start {
        lemma_table_columns_sorted(lines, m, start, upto - 1, table, path);
        let cols = table_columns(lines, m, start, upto - 1, table, path);
        match column_defined_at(lines, m, upto - 1) {
            Some(name) => lemma_sorted_insert_sorted(
                cols,
                name,
                ColumnInfoView {
                    file_path: path,
                    name: name,
                    doc_comment: preceding_doc_comment(lines, m, upto - 1),
                    table_name: table,
                },
            ),
            None => {},
        }
    }
}

proof fn lemma_harvest_from_columns_sorted(lines: Seq<Seq<char>>, m: Seq<LineMatchesView>, i: int, path: Seq<char>)
    ensures
        forall|t: int|
            0 <= t < harvest_from(lines, m, i, path).0.len() ==> keys_sorted(
                #[trigger] harvest_from(lines, m, i, path).0[t].columns,
            ),
    decreases lines.len() - i,
{
    if 0 <= i < lines.len() {
        match m[i].create_table {
            Some(name) => {
                let end = table_end(lines, i + 1);
                let next = if i < end <= lines.len() {
                    end
                } else {
                    lines.len() as int
                };
                lemma_harvest_from_columns_sorted(lines, m, next, path);
                lemma_table_columns_sorted(lines, m, i + 1, end, name, path);
                let h = harvest_from(lines, m, i, path);
                let rest = harvest_from(lines, m, next, path);
                assert forall|t: int| 0 <= t < h.0.len() implies keys_sorted(#[trigger] h.0[t].columns) by {
                    if t > 0 {
                        assert(h.0[t] == rest.0[t - 1]);
                    }
                }
            },
            None => if contains(m[i].upper, "ALTER TABLE"@) && contains(m[i].upper, "ADD COLUMN"@) {
                lemma_harvest_from_columns_sorted(lines, m, i + 1, path);
            } else {
                match m[i].alter_table {
                    Some(tn) => match add_column_after(lines, m, i + 1) {
                        Some((j, cn)) => {
                            let next = if i < j < lines.len() {
                                j + 1
                            } else {
                                lines.len() as int
                            };
                            lemma_harvest_from_columns_sorted(lines, m, next, path);
                        },
                        None => lemma_harvest_from_columns_sorted(lines, m, i + 1, path),
                    },
                    None => lemma_harvest_from_columns_sorted(lines, m, i + 1, path),
                }
            },
        }
    }
}

proof fn lemma_files_by_path_columns_ordered(sources: Seq<(Seq<char>, Seq<char>)>)
    ensures
        tables_columns_ordered(files_by_path(sources)),
    decreases sources.len(),
{
    if sources.len() > 0 {
        let before = files_by_path(sources.drop_last());
        lemma_files_by_path_columns_ordered(sources.drop_last());
        lemma_files_by_path_sorted(sources.drop_last());
        let (path, content) = sources.last();
        let h = harvested(content, path);
        let lines = lines_of(content);
        lemma_harvest_from_columns_sorted(lines, line_matches(lines), 0, path);
        crate::name_map::lemma_insert_pos(before, path);
        let p = insert_pos(before, path);
        let after = files_by_path(sources);
        assert(after == sorted_insert(before, path, h));
        assert forall|j: int, t: int| 0 <= j < after.len() && 0 <= t < after[j].1.tables.len() implies keys_sorted(
            #[trigger] after[j].1.tables[t].columns,
        ) by {
            if 0 <= p < before.len() && before[p].0 == path {
                if j != p {
                    assert(after[j] == before[j]);
                } else {
                    assert(after[j].1 == h);
                }
            } else if j < p {
                assert(after[j] == before[j]);
            } else if j > p {
                assert(after[j] == before[j - 1]);
            } else {
                assert(after[j].1 == h);
            }
        }
    }
}

/// Every column that a migration adds ends up in what the migrations give
/// together (`harvest_from_sources`): where the `i`-th harvested file adds
/// a column to a table, created by an earlier migration or by none, the
/// total harvest holds that table with that column as the file describes it,
/// provided the file adds no later column of the same name to that table and
/// no later file creates the table or adds a column to it.
pub proof fn lemma_harvest_keeps_added_column(sources: Seq<(Seq<char>, Seq<char>)>, i: int, a: int)
    requires
        0 <= i < files_by_path(sources).len(),
        0 <= a < files_by_path(sources)[i].1.alter_columns.len(),
        forall|b: int|
            a < b < files_by_path(sources)[i].1.alter_columns.len() ==> !((#[trigger] files_by_path(
                sources,
            )[i].1.alter_columns[b]).table_name == files_by_path(sources)[i].1.alter_columns[a].table_name
                && files_by_path(sources)[i].1.alter_columns[b].name == files_by_path(
                sources,
            )[i].1.alter_columns[a].name),
        forall|j: int|
            i < j < files_by_path(sources).len() ==> !touches(
                #[trigger] files_by_path(sources)[j].1,
                files_by_path(sources)[i].1.alter_columns[a].table_name,
            ),
    ensures
        lookup(
            combine_files(files_by_path(sources)),
            files_by_path(sources)[i].1.alter_columns[a].table_name,
        ) matches Some(t) && lookup(t.columns, files_by_path(sources)[i].1.alter_columns[a].name) == Some(
            files_by_path(sources)[i].1.alter_columns[a],
        ),
{
    lemma_files_by_path_columns_ordered(sources);
    lemma_added_column_kept(files_by_path(sources), i, a);
}

/// The harvested files come in the order of their paths, each path once.
pub proof fn lemma_files_by_path_sorted(sources: Seq<(Seq<char>, Seq<char>)>)
    ensures
        keys_sorted(files_by_path(sources)),
    decreases sources.len(),
{
    if sources.len() > 0 {
        lemma_files_by_path_sorted(sources.drop_last());
        let (path, content) = sources.last();
        lemma_sorted_insert_sorted(files_by_path(sources.drop_last()), path, harvested(content, path));
    }
}

} // verus!
