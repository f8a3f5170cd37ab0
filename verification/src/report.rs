//! What the reports of the linters are made of: the counts of diagnostics by
//! classification, the summary lines, and the parts of a source line that a
//! diagnostic underlines.
use crate::lint::sql::FilePos;
use crate::lint::DiagnosticClassification;
use crate::text::{chars_of, decimal, lemma_decimal_digits, push_decimal, string_of_range};
use vstd::prelude::*;

verus! {

/// How many of `classes` are `c`.
pub open spec fn count_of(classes: Seq<DiagnosticClassification>, c: DiagnosticClassification) -> nat
    decreases classes.len(),
{
    if classes.len() == 0 {
        0
    } else {
        count_of(classes.drop_last(), c) + if classes.last() == c {
            1nat
        } else {
            0nat
        }
    }
}

/// The classifications that occur in `classes`, from `Note` to `Error`, each
/// with how often it occurs.
pub open spec fn counts(classes: Seq<DiagnosticClassification>) -> Seq<(DiagnosticClassification, nat)> {
    let note = count_of(classes, DiagnosticClassification::Note);
    let warning = count_of(classes, DiagnosticClassification::Warning);
    let error = count_of(classes, DiagnosticClassification::Error);
    (if note > 0 {
        seq![(DiagnosticClassification::Note, note)]
    } else {
        seq![]
    }) + (if warning > 0 {
        seq![(DiagnosticClassification::Warning, warning)]
    } else {
        seq![]
    }) + (if error > 0 {
        seq![(DiagnosticClassification::Error, error)]
    } else {
        seq![]
    })
}

pub open spec fn count_views(v: Seq<(DiagnosticClassification, u32)>) -> Seq<(DiagnosticClassification, nat)> {
    v.map_values(|e: (DiagnosticClassification, u32)| (e.0, e.1 as nat))
}

proof fn lemma_count_of_push(classes: Seq<DiagnosticClassification>, x: DiagnosticClassification)
    ensures
        forall|c: DiagnosticClassification|
            #[trigger] count_of(classes.push(x), c) == count_of(classes, c) + if x == c {
                1nat
            } else {
                0nat
            },
{
    assert forall|c: DiagnosticClassification|
        #[trigger] count_of(classes.push(x), c) == count_of(classes, c) + if x == c {
            1nat
        } else {
            0nat
        } by {
        assert(classes.push(x).drop_last() =~= classes);
    }
}

/// The number of diagnostics of each classification among `classes`, in
/// the order `Note`, `Warning`, `Error`; classifications that do not occur
/// are left out.
pub fn classification_counts(classes: &Vec<DiagnosticClassification>) -> (r: Vec<(DiagnosticClassification, u32)>)
    requires
        classes.len() <= u32::MAX,
    ensures
        count_views(r@) == counts(classes@),
{
    let mut note: u32 = 0;
    let mut warning: u32 = 0;
    let mut error: u32 = 0;
    let mut i: usize = 0;
    while i < classes.len()
        invariant
            classes.len() <= u32::MAX,
            i <= classes.len(),
            note == count_of(classes@.take(i as int), DiagnosticClassification::Note),
            warning == count_of(classes@.take(i as int), DiagnosticClassification::Warning),
            error == count_of(classes@.take(i as int), DiagnosticClassification::Error),
            note + warning + error == i,
        decreases classes.len() - i,
    {
        proof {
            assert(classes@.take(i + 1) =~= classes@.take(i as int).push(classes@[i as int]));
            lemma_count_of_push(classes@.take(i as int), classes@[i as int]);
        }
        match classes[i] {
            DiagnosticClassification::Note => note += 1,
            DiagnosticClassification::Warning => warning += 1,
            DiagnosticClassification::Error => error += 1,
        }
        i += 1;
    }
    assert(classes@.take(i as int) =~= classes@);
    let mut r: Vec<(DiagnosticClassification, u32)> = Vec::new();
    if note > 0 {
        r.push((DiagnosticClassification::Note, note));
    }
    if warning > 0 {
        r.push((DiagnosticClassification::Warning, warning));
    }
    if error > 0 {
        r.push((DiagnosticClassification::Error, error));
    }
    assert(count_views(r@) =~= counts(classes@));
    r
}

/// The closing line of a report: `warning: SQL linting generated 2 warnings`.
pub open spec fn summary(linting: Seq<char>, c: DiagnosticClassification, count: nat) -> Seq<char> {
    c.spec_name() + ": "@ + linting + " linting generated "@ + decimal(count) + " "@ + c.spec_name() + if count
        > 1 {
        "s"@
    } else {
        ""@
    }
}

/// The line that closes a report for one classification; `linting` names
/// what was linted (`SQL`, `schema`).
pub fn summary_line(linting: &str, c: DiagnosticClassification, count: u32) -> (line: String)
    ensures
        line@ == summary(linting@, c, count as nat),
{
    let mut line = String::new();
    line.append(c.name());
    line.append(": ");
    line.append(linting);
    line.append(" linting generated ");
    push_decimal(&mut line, count as u64);
    line.append(" ");
    line.append(c.name());
    if count > 1 {
        line.append("s");
    }
    proof {
        reveal_strlit("");
    }
    assert(line@ =~= summary(linting@, c, count as nat));
    line
}

/// The widths of the gutter before the `-->` line (`first`) and before the
/// `|` lines (`second`) of a diagnostic on line `line`: they go by the
/// number of digits of the line number.
pub open spec fn gutter(line: nat) -> (nat, nat) {
    let digits = decimal(line).len();
    (if digits >= 2 {
        (digits - 2) as nat
    } else {
        0nat
    }, if digits >= 2 {
        digits + 1
    } else {
        3nat
    })
}

/// The number of decimal digits of `n`.
fn decimal_len(n: usize) -> (d: usize)
    ensures
        d == decimal(n as nat).len(),
    decreases n,
{
    proof {
        lemma_decimal_digits(n as nat);
    }
    if n < 10 {
        1
    } else {
        proof {
            lemma_decimal_len_bound((n / 10) as nat);
        }
        let d = decimal_len(n / 10);
        d + 1
    }
}

proof fn lemma_decimal_len_bound(n: nat)
    ensures
        decimal(n).len() <= n / 10 + 1,
    decreases n,
{
    if n >= 10 {
        lemma_decimal_len_bound(n / 10);
    }
}

/// The gutter widths for a diagnostic on line `line`.
pub fn gutter_widths(line: usize) -> (w: (usize, usize))
    ensures
        (w.0 as nat, w.1 as nat) == gutter(line as nat),
{
    proof {
        lemma_decimal_len_bound(line as nat);
    }
    let digits = decimal_len(line);
    if digits >= 2 {
        (digits - 2, digits + 1)
    } else {
        (0, 3)
    }
}

/// The index of the first underlined character of a line of `n` characters.
pub open spec fn highlight_start(n: nat, start: FilePos) -> int {
    if start.col - 1 <= n - 1 {
        start.col - 1
    } else {
        n - 1
    }
}

/// The index of the last underlined character: the end of the span if it is
/// on the same line, else the end of the line.
pub open spec fn highlight_end(n: nat, start: FilePos, end: FilePos) -> int {
    if end.line == start.line && end.col - 1 <= n - 1 {
        end.col - 1
    } else {
        n - 1
    }
}

/// The parts of a source line that a diagnostic with span `(start, end)`
/// underlines, where `start` lies on that line: the text before the
/// underlined part, the underlined part, and the rest. Positions past the
/// end of the line are taken to be its last character.
pub fn highlight_parts(line: &str, start: FilePos, end: FilePos) -> (parts: (String, String, String))
    requires
        line@.len() > 0,
        start.col >= 1,
        end.line == start.line ==> end.col >= 1,
        highlight_start(line@.len(), start) <= highlight_end(line@.len(), start, end) + 1,
    ensures
        parts.0@ == line@.subrange(0, highlight_start(line@.len(), start)),
        parts.1@ == line@.subrange(
            highlight_start(line@.len(), start),
            highlight_end(line@.len(), start, end) + 1,
        ),
        parts.2@ == line@.subrange(highlight_end(line@.len(), start, end) + 1, line@.len() as int),
{
    let chars = chars_of(line);
    let n = chars.len();
    let first = if start.col - 1 <= n - 1 {
        start.col - 1
    } else {
        n - 1
    };
    let last = if end.line == start.line && end.col - 1 <= n - 1 {
        end.col - 1
    } else {
        n - 1
    };
    (string_of_range(&chars, 0, first), string_of_range(&chars, first, last + 1), string_of_range(&chars, last + 1, n))
}

} // verus!
