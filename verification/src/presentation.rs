//! The texts shown to users about a check: counts, notifications and diff previews.

use vstd::prelude::*;

use crate::conflict::{ConflictReport, ReportView};
use crate::text::{chars_to_string, lines, nat_text, next_line, push_unsigned, str_chars};

verus! {

/// `""` for one, `"s"` for any other count.
pub open spec fn plural_suffix(n: nat) -> Seq<char> {
    if n == 1 {
        seq![]
    } else {
        seq!['s']
    }
}

fn push_plural(s: &mut String, n: usize)
    ensures
        final(s)@ == old(s)@ + plural_suffix(n as nat),
{
    if n != 1 {
        s.append("s");
        proof {
            reveal_strlit("s");
            assert(final(s)@ =~= old(s)@ + plural_suffix(n as nat));
        }
    } else {
        assert(s@ =~= old(s)@ + plural_suffix(n as nat));
    }
}

/// The heading above the list of conflicted files.
pub open spec fn count_heading_text(n: nat) -> Seq<char> {
    "  "@ + nat_text(n) + " conflicted file"@ + plural_suffix(n) + ":"@
}

/// The heading above the list of conflicted files, such as `  2 conflicted files:`.
pub fn conflict_count_heading(count: usize) -> (s: String)
    ensures
        s@ == count_heading_text(count as nat),
{
    let mut s = String::from_str("  ");
    push_unsigned(&mut s, count as u64);
    s.append(" conflicted file");
    push_plural(&mut s, count);
    s.append(":");
    s
}

/// The notification about a report, if it has conflicts.
pub open spec fn notification_text(r: ReportView) -> Option<Seq<char>> {
    let n = r.conflicted_files.len();
    if n == 0 {
        None
    } else {
        Some(
            nat_text(n) + " conflict"@ + plural_suffix(n) + " merging "@ + r.target_ref + " into "@
                + r.current_branch,
        )
    }
}

/// The notification about a report with conflicts, such as
/// `2 conflicts merging origin/main into feature`; none for a clean report.
pub fn notification_body(report: &ConflictReport) -> (b: Option<String>)
    ensures
        b is None <==> notification_text(report@) is None,
        b matches Some(t) ==> notification_text(report@) == Some(t@),
{
    let n = report.file_count();
    if n == 0 {
        return None;
    }
    let mut s = String::new();
    push_unsigned(&mut s, n as u64);
    s.append(" conflict");
    push_plural(&mut s, n);
    s.append(" merging ");
    s.append(report.target_ref.as_str());
    s.append(" into ");
    s.append(report.current_branch.as_str());
    assert(s@ =~= notification_text(report@)->0);
    Some(s)
}

/// How a line of a unified diff is shown.
#[derive(Debug, Clone, Copy, PartialEq, Eq, Structural)]
pub enum DiffLineKind {
    /// Begins with `+`.
    Added,
    /// Begins with `-`.
    Removed,
    /// Begins with `@@`.
    Hunk,
    /// Anything else.
    Context,
}

/// The kind of a diff line.
pub open spec fn diff_line_kind(l: Seq<char>) -> DiffLineKind {
    if l.len() > 0 && l[0] == '+' {
        DiffLineKind::Added
    } else if l.len() > 0 && l[0] == '-' {
        DiffLineKind::Removed
    } else if l.len() > 1 && l[0] == '@' && l[1] == '@' {
        DiffLineKind::Hunk
    } else {
        DiffLineKind::Context
    }
}

/// The kind of a diff line, by its first characters.
pub fn classify_diff_line(line: &str) -> (k: DiffLineKind)
    ensures
        k == diff_line_kind(line@),
{
    let c = str_chars(line);
    let n = c.len();
    if n > 0 && c[0] == '+' {
        DiffLineKind::Added
    } else if n > 0 && c[0] == '-' {
        DiffLineKind::Removed
    } else if n > 1 && c[0] == '@' && c[1] == '@' {
        DiffLineKind::Hunk
    } else {
        DiffLineKind::Context
    }
}

/// How many lines of a diff are shown at most.
pub const PREVIEW_LINES: usize = 50;

/// The beginning of a diff as shown to users: at most `PREVIEW_LINES` lines, and
/// whether more were left out.
pub struct DiffPreview {
    pub lines: Vec<String>,
    pub truncated: bool,
}

/// The first lines of `diff`, at most `PREVIEW_LINES`, and whether it has more.
pub fn diff_preview(diff: &str) -> (p: DiffPreview)
    ensures
        p.lines@.map_values(|s: String| s@) == lines(diff@).take(
            if lines(diff@).len() < PREVIEW_LINES {
                lines(diff@).len() as int
            } else {
                PREVIEW_LINES as int
            },
        ),
        p.truncated == (lines(diff@).len() > PREVIEW_LINES),
{
    let text = str_chars(diff);
    let mut out: Vec<String> = Vec::new();
    let mut rest: &[char] = text.as_slice();
    let ghost mut done: Seq<Seq<char>> = seq![];
    assert(done + lines(rest@) =~= lines(text@));
    while rest.len() > 0 && out.len() < PREVIEW_LINES
        invariant
            done + lines(rest@) == lines(diff@),
            out@.map_values(|s: String| s@) == done,
            done.len() <= PREVIEW_LINES,
        decreases rest@.len(),
    {
        let (line, next) = next_line(rest);
        let ghost before = out@.map_values(|s: String| s@);
        out.push(chars_to_string(line));
        proof {
            assert(out@.map_values(|s: String| s@) =~= before.push(line@));
            assert(done.push(line@) + lines(next@) =~= done + lines(rest@));
            done = done.push(line@);
        }
        rest = next;
    }
    let truncated = rest.len() > 0;
    proof {
        if rest@.len() == 0 {
            assert(lines(rest@) =~= Seq::<Seq<char>>::empty());
            assert(done =~= lines(diff@));
        } else {
            assert(lines(rest@).len() > 0) by {
                assert(lines(rest@) == seq![lines(rest@)[0]] + lines(rest@).drop_first()) by {
                    assert(lines(rest@) =~= seq![lines(rest@)[0]] + lines(rest@).drop_first());
                }
            }
            assert(done =~= lines(diff@).take(PREVIEW_LINES as int));
        }
    }
    DiffPreview { lines: out, truncated }
}

} // verus!
