//! Conflicts as `git merge-tree --write-tree` reports them.

use vstd::prelude::*;

use crate::error::AppError;
use crate::git::MergeTreeResult;
use crate::text::{
    chars_to_string, is_white_space, lemma_index_of_at, compare_text, find_char, index_of, lemma_index_of, next_line, next_token,
    parse_u32_chars, parse_u32_spec, starts_with, str_chars, strip_prefix_chars, text_lt, trim,
    trim_chars, ws_tokens, TextOrder,
};

verus! {

/// The kind of a conflict, as git names it in a `CONFLICT (<kind>)` line.
#[derive(Debug, Clone, Copy, PartialEq, Eq, PartialOrd, Ord, Structural)]
pub enum ConflictType {
    Content,
    AddAdd,
    ModifyDelete,
    DeleteModify,
    RenameDelete,
    RenameRename,
    DirectoryFile,
    Unknown,
}

/// The name under which a conflict kind is shown to users.
pub open spec fn type_label(t: ConflictType) -> Seq<char> {
    match t {
        ConflictType::Content => "content"@,
        ConflictType::AddAdd => "add/add"@,
        ConflictType::ModifyDelete => "modify/delete"@,
        ConflictType::DeleteModify => "delete/modify"@,
        ConflictType::RenameDelete => "rename/delete"@,
        ConflictType::RenameRename => "rename/rename"@,
        ConflictType::DirectoryFile => "directory/file"@,
        ConflictType::Unknown => "unknown"@,
    }
}

impl ConflictType {
    /// The name under which this conflict kind is shown to users.
    pub fn label(&self) -> (s: String)
        ensures
            s@ == type_label(*self),
    {
        match self {
            ConflictType::Content => String::from_str("content"),
            ConflictType::AddAdd => String::from_str("add/add"),
            ConflictType::ModifyDelete => String::from_str("modify/delete"),
            ConflictType::DeleteModify => String::from_str("delete/modify"),
            ConflictType::RenameDelete => String::from_str("rename/delete"),
            ConflictType::RenameRename => String::from_str("rename/rename"),
            ConflictType::DirectoryFile => String::from_str("directory/file"),
            ConflictType::Unknown => String::from_str("unknown"),
        }
    }
}

/// What std's `str::to_lowercase` makes of a string (Unicode lower-case mapping).
pub uninterp spec fn str_lowercase(s: Seq<char>) -> Seq<char>;

/// Lower-cases text with std's `str::to_lowercase`; the contract names the result
/// `str_lowercase` of the argument and claims nothing more of it.
#[verifier::external_body]
fn lowercase_chars(s: &[char]) -> (r: Vec<char>)
    ensures
        r@ == str_lowercase(s@),
{
    let text: String = s.iter().collect();
    text.to_lowercase().chars().collect()
}

/// The conflict kind named by an already lower-cased kind text.
pub open spec fn type_of_lowercase(s: Seq<char>) -> ConflictType {
    if s == "content"@ {
        ConflictType::Content
    } else if s == "add/add"@ {
        ConflictType::AddAdd
    } else if s == "modify/delete"@ {
        ConflictType::ModifyDelete
    } else if s == "delete/modify"@ {
        ConflictType::DeleteModify
    } else if s == "rename/delete"@ {
        ConflictType::RenameDelete
    } else if s == "rename/rename"@ {
        ConflictType::RenameRename
    } else if s == "directory/file"@ || s == "file/directory"@ {
        ConflictType::DirectoryFile
    } else {
        ConflictType::Unknown
    }
}

/// The conflict kind that a kind text names, compared without regard to case.
pub open spec fn type_of_text(s: Seq<char>) -> ConflictType {
    type_of_lowercase(str_lowercase(s))
}

fn same_text(a: &[char], lit: &str) -> (b: bool)
    ensures
        b == (a@ == lit@),
{
    let l = str_chars(lit);
    match compare_text(a, l.as_slice()) {
        TextOrder::Equal => true,
        _ => false,
    }
}

/// The conflict kind named by a lower-cased kind text; any text git does not use
/// is `Unknown`.
pub fn conflict_type_from_lowercase(s: &[char]) -> (t: ConflictType)
    ensures
        t == type_of_lowercase(s@),
{
    if same_text(s, "content") {
        ConflictType::Content
    } else if same_text(s, "add/add") {
        ConflictType::AddAdd
    } else if same_text(s, "modify/delete") {
        ConflictType::ModifyDelete
    } else if same_text(s, "delete/modify") {
        ConflictType::DeleteModify
    } else if same_text(s, "rename/delete") {
        ConflictType::RenameDelete
    } else if same_text(s, "rename/rename") {
        ConflictType::RenameRename
    } else if same_text(s, "directory/file") || same_text(s, "file/directory") {
        ConflictType::DirectoryFile
    } else {
        ConflictType::Unknown
    }
}

fn conflict_type_of(s: &[char]) -> (t: ConflictType)
    ensures
        t == type_of_text(s@),
{
    let lower = lowercase_chars(s);
    conflict_type_from_lowercase(lower.as_slice())
}

/// The conflict kind named by the text between the parentheses of a `CONFLICT` line,
/// compared without regard to case.
pub fn parse_conflict_type(type_str: &str) -> (t: ConflictType)
    ensures
        t == type_of_text(type_str@),
{
    let chars = str_chars(type_str);
    conflict_type_of(chars.as_slice())
}

/// Every conflict kind's label names that kind again.
pub proof fn lemma_label_names_type(t: ConflictType)
    ensures
        type_of_lowercase(type_label(t)) == t,
{
    reveal_strlit("content");
    reveal_strlit("add/add");
    reveal_strlit("modify/delete");
    reveal_strlit("delete/modify");
    reveal_strlit("rename/delete");
    reveal_strlit("rename/rename");
    reveal_strlit("directory/file");
    reveal_strlit("file/directory");
    reveal_strlit("unknown");
    // The texts tried before a label's own differ from it in length or in their
    // first or eighth character.
    let l = type_label(t);
    assert(l != "content"@ ==> l.len() != 7 || l[0] != 'c');
    assert(l != "add/add"@ ==> l.len() != 7 || l[0] != 'a');
    assert(l != "modify/delete"@ ==> l.len() != 13 || l[0] != 'm');
    assert(l != "delete/modify"@ ==> l.len() != 13 || l[0] != 'd');
    assert(l != "rename/delete"@ ==> l.len() != 13 || l[0] != 'r' || l[7] != 'd');
    assert(l != "rename/rename"@ ==> l.len() != 13 || l[0] != 'r' || l[7] != 'r');
    assert(l != "directory/file"@ ==> l.len() != 14 || l[0] != 'd');
    assert(l != "file/directory"@ ==> l.len() != 14 || l[0] != 'f');
}

/// The file path a conflict message names: the rest of a `Merge conflict in <path>`
/// message, else its first word.
pub open spec fn path_from_message(m: Seq<char>) -> Option<Seq<char>> {
    let p = "Merge conflict in "@;
    if starts_with(m, p) && trim(m.skip(p.len() as int)).len() > 0 {
        Some(trim(m.skip(p.len() as int)))
    } else if ws_tokens(m).len() > 0 {
        Some(ws_tokens(m)[0])
    } else {
        None
    }
}

fn path_in_message<'a>(m: &'a [char]) -> (r: Option<&'a [char]>)
    ensures
        r matches Some(p) ==> path_from_message(m@) == Some(p@),
        r is None ==> path_from_message(m@) is None,
{
    let prefix = str_chars("Merge conflict in ");
    if let Some(rest) = strip_prefix_chars(m, prefix.as_slice()) {
        let p = trim_chars(rest);
        if p.len() > 0 {
            return Some(p);
        }
    }
    match next_token(m) {
        Some((w, _)) => Some(w),
        None => None,
    }
}

/// The file path named by a conflict message, if it names one.
pub fn extract_path_from_message(message: &str) -> (r: Option<String>)
    ensures
        r matches Some(p) ==> path_from_message(message@) == Some(p@),
        r is None ==> path_from_message(message@) is None,
{
    let m = str_chars(message);
    match path_in_message(m.as_slice()) {
        Some(p) => Some(chars_to_string(p)),
        None => None,
    }
}


/// Details about a single conflicted file.
#[derive(Debug, Clone, PartialEq, Eq)]
pub struct ConflictDetail {
    pub path: String,
    pub conflict_type: ConflictType,
    pub message: String,
}

/// A conflicted file as the contracts see it.
pub struct DetailView {
    pub path: Seq<char>,
    pub conflict_type: ConflictType,
    pub message: Seq<char>,
}

impl View for ConflictDetail {
    type V = DetailView;

    open spec fn view(&self) -> DetailView {
        DetailView { path: self.path@, conflict_type: self.conflict_type, message: self.message@ }
    }
}

/// The views of a list of conflicted files.
pub open spec fn details_view(v: Seq<ConflictDetail>) -> Seq<DetailView> {
    v.map_values(|d: ConflictDetail| d@)
}

/// Summary of a merge-tree conflict check.
#[derive(Debug, Clone)]
pub struct ConflictReport {
    /// Current branch name
    pub current_branch: String,
    /// Target branch/ref that was checked against
    pub target_ref: String,
    /// Conflicted files with type and message details
    pub conflicted_files: Vec<ConflictDetail>,
}

/// A report as the contracts see it.
pub struct ReportView {
    pub current_branch: Seq<char>,
    pub target_ref: Seq<char>,
    pub conflicted_files: Seq<DetailView>,
}

impl View for ConflictReport {
    type V = ReportView;

    open spec fn view(&self) -> ReportView {
        ReportView {
            current_branch: self.current_branch@,
            target_ref: self.target_ref@,
            conflicted_files: details_view(self.conflicted_files@),
        }
    }
}

impl ConflictDetail {
    /// A copy of this detail.
    pub fn copied(&self) -> (d: ConflictDetail)
        ensures
            d@ == self@,
    {
        ConflictDetail {
            path: self.path.clone(),
            conflict_type: self.conflict_type,
            message: self.message.clone(),
        }
    }
}

impl ConflictReport {
    /// A copy of this report.
    pub fn copied(&self) -> (r: ConflictReport)
        ensures
            r@ == self@,
    {
        let mut files: Vec<ConflictDetail> = Vec::new();
        let mut i: usize = 0;
        while i < self.conflicted_files.len()
            invariant
                i <= self.conflicted_files@.len(),
                details_view(files@) =~= details_view(self.conflicted_files@).take(i as int),
            decreases self.conflicted_files@.len() - i,
        {
            let d = self.conflicted_files[i].copied();
            let ghost before = details_view(files@);
            files.push(d);
            proof {
                assert(details_view(files@) =~= before.push(self.conflicted_files@[i as int]@));
                assert(details_view(self.conflicted_files@).take(i + 1) =~= details_view(
                    self.conflicted_files@,
                ).take(i as int).push(self.conflicted_files@[i as int]@));
            }
            i = i + 1;
        }
        assert(details_view(self.conflicted_files@).take(self.conflicted_files@.len() as int)
            =~= details_view(self.conflicted_files@));
        ConflictReport {
            current_branch: self.current_branch.clone(),
            target_ref: self.target_ref.clone(),
            conflicted_files: files,
        }
    }

    /// Whether no file conflicts.
    pub fn is_clean(&self) -> (b: bool)
        ensures
            b == (self@.conflicted_files.len() == 0),
    {
        self.conflicted_files.len() == 0
    }

    /// How many files conflict.
    pub fn file_count(&self) -> (n: usize)
        ensures
            n == self@.conflicted_files.len(),
    {
        self.conflicted_files.len()
    }
}

/// The message of a `CONFLICT` line: what follows the closing parenthesis, trimmed,
/// without a leading `':'` and the white space after it.
pub open spec fn message_after_paren(after: Seq<char>) -> Seq<char> {
    let t = trim(after);
    if t.len() > 0 && t[0] == ':' {
        trim(t.drop_first())
    } else {
        t
    }
}

/// The conflicted file that the rest of a `CONFLICT (` line reports, if it names one:
/// the kind is the text before the first `')'`, the message what follows it.
pub open spec fn conflict_entry(rest: Seq<char>) -> Option<DetailView> {
    match index_of(rest, ')') {
        None => None,
        Some(k) => {
            let message = message_after_paren(rest.skip((k + 1) as int));
            match path_from_message(message) {
                Some(p) => Some(
                    DetailView {
                        path: p,
                        conflict_type: type_of_text(rest.take(k as int)),
                        message,
                    },
                ),
                None => None,
            }
        },
    }
}

/// The conflicted file that a line reports, if it is a `CONFLICT (` line naming one.
pub open spec fn conflict_line_entry(line: Seq<char>) -> Option<DetailView> {
    if starts_with(line, "CONFLICT ("@) {
        conflict_entry(line.skip("CONFLICT ("@.len() as int))
    } else {
        None
    }
}

/// Whether a stage text says "in conflict": a number above zero.
pub open spec fn is_conflict_stage(t: Seq<char>) -> bool {
    match parse_u32_spec(t) {
        Some(stage) => stage > 0,
        None => false,
    }
}

/// The path of an index line `<mode> <hash> <stage>\t<path>` whose stage is above zero.
pub open spec fn staged_path(line: Seq<char>) -> Option<Seq<char>> {
    match index_of(line, '\t') {
        None => None,
        Some(k) => {
            let path = trim(line.skip((k + 1) as int));
            let parts = ws_tokens(line.take(k as int));
            if parts.len() >= 3 && is_conflict_stage(parts[2]) && path.len() > 0 {
                Some(path)
            } else {
                None
            }
        },
    }
}

/// The entry recorded for a path seen only on an index line.
pub open spec fn unknown_detail(p: Seq<char>) -> DetailView {
    DetailView { path: p, conflict_type: ConflictType::Unknown, message: seq![] }
}

/// The conflicted files known after one more line of merge-tree output: a `CONFLICT`
/// line sets its path's entry, an index line adds an `Unknown` entry for a path not
/// yet known, any other line changes nothing.
pub open spec fn apply_line(files: Map<Seq<char>, DetailView>, line: Seq<char>) -> Map<
    Seq<char>,
    DetailView,
> {
    if starts_with(line, "CONFLICT ("@) {
        match conflict_line_entry(line) {
            Some(d) => files.insert(d.path, d),
            None => files,
        }
    } else {
        match staged_path(line) {
            Some(p) => if files.contains_key(p) {
                files
            } else {
                files.insert(p, unknown_detail(p))
            },
            None => files,
        }
    }
}

/// The conflicted files, by path, that a sequence of output lines reports.
pub open spec fn files_after(ls: Seq<Seq<char>>) -> Map<Seq<char>, DetailView>
    decreases ls.len(),
{
    if ls.len() == 0 {
        Map::empty()
    } else {
        apply_line(files_after(ls.drop_last()), ls.last())
    }
}

/// `s` lists the entries of `m` in ascending order of path, each once.
pub open spec fn lists_sorted(s: Seq<DetailView>, m: Map<Seq<char>, DetailView>) -> bool {
    &&& forall|i: int, j: int| 0 <= i < j < s.len() ==> text_lt(s[i].path, s[j].path)
    &&& forall|i: int| 0 <= i < s.len() ==> m.contains_key(#[trigger] s[i].path) && m[s[i].path] == s[i]
    &&& forall|k: Seq<char>| #[trigger] m.contains_key(k) ==> exists|i: int| 0 <= i < s.len() && s[i].path == k
}

/// The conflicted files that merge-tree output reports, by path.
pub open spec fn reported_files(stdout: Seq<char>) -> Map<Seq<char>, DetailView> {
    files_after(crate::text::lines(stdout))
}


/// Where `key` belongs among `keys`: the first position whose key is not below it,
/// and whether that key is `key` itself.
fn locate(keys: &Vec<Vec<char>>, key: &[char]) -> (r: (usize, bool))
    ensures
        r.0 <= keys@.len(),
        forall|j: int| 0 <= j < r.0 ==> text_lt(#[trigger] keys@[j]@, key@),
        r.0 < keys@.len() ==> !text_lt(keys@[r.0 as int]@, key@),
        r.1 == (r.0 < keys@.len() && keys@[r.0 as int]@ == key@),
{
    let mut i: usize = 0;
    while i < keys.len()
        invariant
            i <= keys@.len(),
            forall|j: int| 0 <= j < i ==> text_lt(#[trigger] keys@[j]@, key@),
        decreases keys@.len() - i,
    {
        match compare_text(keys[i].as_slice(), key) {
            TextOrder::Less => {
                i = i + 1;
            },
            TextOrder::Equal => {
                return (i, true);
            },
            TextOrder::Greater => {
                proof {
                    crate::text::lemma_text_lt_irreflexive(key@);
                    if text_lt(keys@[i as int]@, key@) {
                        crate::text::lemma_text_lt_transitive(key@, keys@[i as int]@, key@);
                    }
                }
                return (i, false);
            },
        }
    }
    (i, false)
}

/// Every entry of `m` is filed under its own path.
pub open spec fn keyed_by_path(m: Map<Seq<char>, DetailView>) -> bool {
    forall|k: Seq<char>| #[trigger] m.contains_key(k) ==> m[k].path == k
}

/// Listing invariant: a sorted listing of `m` stays one after `d` is set in place
/// or inserted at the position `p` that `locate` finds.
proof fn lemma_listing_set(
    s: Seq<DetailView>,
    m: Map<Seq<char>, DetailView>,
    p: int,
    d: DetailView,
)
    requires
        lists_sorted(s, m),
        0 <= p <= s.len(),
        forall|j: int| 0 <= j < p ==> text_lt(#[trigger] s[j].path, d.path),
        p < s.len() ==> !text_lt(s[p].path, d.path),
    ensures
        p < s.len() && s[p].path == d.path ==> lists_sorted(s.update(p, d), m.insert(d.path, d)),
        !(p < s.len() && s[p].path == d.path) ==> {
            &&& !m.contains_key(d.path)
            &&& lists_sorted(s.insert(p, d), m.insert(d.path, d))
        },
{
    let key = d.path;
    let m2 = m.insert(key, d);
    if p < s.len() && s[p].path == key {
        let s2 = s.update(p, d);
        assert forall|i: int| 0 <= i < s2.len() implies m2.contains_key(#[trigger] s2[i].path)
            && m2[s2[i].path] == s2[i] by {
            if i != p {
                assert(s2[i] == s[i]);
                if s[i].path == key {
                    if i < p {
                        crate::text::lemma_text_lt_irreflexive(key);
                    } else {
                        crate::text::lemma_text_lt_irreflexive(key);
                        assert(text_lt(s[p].path, s[i].path));
                    }
                }
            }
        }
        assert forall|k: Seq<char>| #[trigger] m2.contains_key(k) implies exists|i: int|
            0 <= i < s2.len() && s2[i].path == k by {
            if k == key {
                assert(s2[p].path == k);
            } else {
                assert(m.contains_key(k));
                let i = choose|i: int| 0 <= i < s.len() && s[i].path == k;
                assert(s2[i].path == k);
            }
        }
    } else {
        if p < s.len() {
            crate::text::lemma_text_lt_total(s[p].path, key);
        }
        // `key` is below every path from position `p` on, and above every path before it.
        assert forall|i: int| p <= i < s.len() implies text_lt(key, #[trigger] s[i].path) by {
            if i > p {
                crate::text::lemma_text_lt_transitive(key, s[p].path, s[i].path);
            }
        }
        if m.contains_key(key) {
            let i = choose|i: int| 0 <= i < s.len() && s[i].path == key;
            crate::text::lemma_text_lt_irreflexive(key);
            if i < p {
                assert(text_lt(s[i].path, key));
            } else {
                assert(text_lt(key, s[i].path));
            }
        }
        let s2 = s.insert(p, d);
        assert forall|i: int, j: int| 0 <= i < j < s2.len() implies text_lt(
            s2[i].path,
            s2[j].path,
        ) by {
            if j < p {
            } else if j == p {
                assert(s2[i] == s[i]);
            } else if i < p {
                assert(s2[i] == s[i]);
                assert(s2[j] == s[j - 1]);
                crate::text::lemma_text_lt_transitive(s[i].path, key, s[j - 1].path);
            } else if i == p {
                assert(s2[j] == s[j - 1]);
            } else {
                assert(s2[i] == s[i - 1]);
                assert(s2[j] == s[j - 1]);
            }
        }
        assert forall|i: int| 0 <= i < s2.len() implies m2.contains_key(#[trigger] s2[i].path)
            && m2[s2[i].path] == s2[i] by {
            if i < p {
                assert(s2[i] == s[i]);
                crate::text::lemma_text_lt_irreflexive(key);
            } else if i > p {
                assert(s2[i] == s[i - 1]);
                crate::text::lemma_text_lt_irreflexive(key);
            }
        }
        assert forall|k: Seq<char>| #[trigger] m2.contains_key(k) implies exists|i: int|
            0 <= i < s2.len() && s2[i].path == k by {
            if k == key {
                assert(s2[p].path == k);
            } else {
                assert(m.contains_key(k));
                let i = choose|i: int| 0 <= i < s.len() && s[i].path == k;
                if i < p {
                    assert(s2[i].path == k);
                } else {
                    assert(s2[i + 1].path == k);
                }
            }
        }
    }
}

/// The conflicted files found so far, in ascending order of path, each with its path's
/// characters beside it. A sorted vector serves as the map from path to entry: vstd
/// specifies its ordered map only for keys whose order it knows, which `String` is not.
struct FileSet {
    details: Vec<ConflictDetail>,
    keys: Vec<Vec<char>>,
}

impl FileSet {
    spec fn lists(&self, m: Map<Seq<char>, DetailView>) -> bool {
        &&& self.keys@.len() == self.details@.len()
        &&& forall|i: int| 0 <= i < self.keys@.len() ==> #[trigger] self.keys@[i]@ == self.details@[i]@.path
        &&& lists_sorted(details_view(self.details@), m)
    }

    /// Sets the entry of `d`'s path to `d`.
    fn put(&mut self, d: ConflictDetail, key: Vec<char>, Ghost(m): Ghost<Map<Seq<char>, DetailView>>)
        requires
            old(self).lists(m),
            key@ == d@.path,
        ensures
            final(self).lists(m.insert(d@.path, d@)),
    {
        let ghost s = details_view(self.details@);
        let (p, found) = locate(&self.keys, key.as_slice());
        proof {
            assert forall|j: int| 0 <= j < p implies text_lt(#[trigger] s[j].path, d@.path) by {
                assert(self.keys@[j]@ == s[j].path);
            }
            if p < s.len() {
                assert(self.keys@[p as int]@ == s[p as int].path);
            }
            lemma_listing_set(s, m, p as int, d@);
        }
        if found {
            let ghost dv = d@;
            self.details.set(p, d);
            self.keys.set(p, key);
            assert(details_view(self.details@) =~= s.update(p as int, dv));
        } else {
            let ghost dv = d@;
            self.details.insert(p, d);
            self.keys.insert(p, key);
            assert(details_view(self.details@) =~= s.insert(p as int, dv));
            assert forall|i: int| 0 <= i < self.keys@.len() implies #[trigger] self.keys@[i]@
                == self.details@[i]@.path by {
                if i > p {
                    assert(self.keys@[i] == old(self).keys@[i - 1]);
                    assert(self.details@[i] == old(self).details@[i - 1]);
                } else if i < p {
                    assert(self.keys@[i] == old(self).keys@[i]);
                    assert(self.details@[i] == old(self).details@[i]);
                }
            }
        }
    }

    /// Adds an `Unknown` entry for `key` unless the path is already known.
    fn put_if_absent(&mut self, key: Vec<char>, Ghost(m): Ghost<Map<Seq<char>, DetailView>>)
        requires
            old(self).lists(m),
        ensures
            final(self).lists(
                if m.contains_key(key@) {
                    m
                } else {
                    m.insert(key@, unknown_detail(key@))
                },
            ),
    {
        let ghost s = details_view(self.details@);
        let (p, found) = locate(&self.keys, key.as_slice());
        let ghost dv = unknown_detail(key@);
        proof {
            assert forall|j: int| 0 <= j < p implies text_lt(#[trigger] s[j].path, dv.path) by {
                assert(self.keys@[j]@ == s[j].path);
            }
            if p < s.len() {
                assert(self.keys@[p as int]@ == s[p as int].path);
            }
            lemma_listing_set(s, m, p as int, dv);
        }
        if found {
            proof {
                assert(m.contains_key(s[p as int].path));
            }
        } else {
            let d = ConflictDetail {
                path: chars_to_string(key.as_slice()),
                conflict_type: ConflictType::Unknown,
                message: String::new(),
            };
            assert(d@ == dv);
            self.details.insert(p, d);
            self.keys.insert(p, key);
            assert(details_view(self.details@) =~= s.insert(p as int, dv));
            assert forall|i: int| 0 <= i < self.keys@.len() implies #[trigger] self.keys@[i]@
                == self.details@[i]@.path by {
                if i > p {
                    assert(self.keys@[i] == old(self).keys@[i - 1]);
                    assert(self.details@[i] == old(self).details@[i - 1]);
                } else if i < p {
                    assert(self.keys@[i] == old(self).keys@[i]);
                    assert(self.details@[i] == old(self).details@[i]);
                }
            }
        }
    }
}


fn message_chars(after: &[char]) -> (r: &[char])
    ensures
        r@ == message_after_paren(after@),
{
    let t = trim_chars(after);
    if t.len() > 0 && t[0] == ':' {
        let rest = &t[1..t.len()];
        assert(rest@ =~= t@.drop_first());
        trim_chars(rest)
    } else {
        t
    }
}

/// The entry that the rest of a `CONFLICT (` line reports, with its path's characters.
fn entry_of(rest: &[char]) -> (r: Option<(ConflictDetail, Vec<char>)>)
    ensures
        r matches Some((d, key)) ==> conflict_entry(rest@) == Some(d@) && key@ == d@.path,
        r is None ==> conflict_entry(rest@) is None,
{
    match find_char(rest, ')') {
        None => None,
        Some(k) => {
            proof {
                lemma_index_of(rest@, ')');
            }
            let n = rest.len();
            assert(k < n);
            let kind = &rest[0..k];
            let after = &rest[k + 1..n];
            assert(kind@ =~= rest@.take(k as int));
            assert(after@ =~= rest@.skip(k + 1));
            let conflict_type = conflict_type_of(kind);
            let message = message_chars(after);
            match path_in_message(message) {
                Some(p) => {
                    let mut key: Vec<char> = Vec::new();
                    key.extend_from_slice(p);
                    let d = ConflictDetail {
                        path: chars_to_string(p),
                        conflict_type,
                        message: chars_to_string(message),
                    };
                    Some((d, key))
                },
                None => None,
            }
        },
    }
}

/// The path of an index line whose stage is above zero.
fn staged_path_of(line: &[char]) -> (r: Option<&[char]>)
    ensures
        r matches Some(p) ==> staged_path(line@) == Some(p@),
        r is None ==> staged_path(line@) is None,
{
    match find_char(line, '\t') {
        None => None,
        Some(k) => {
            proof {
                lemma_index_of(line@, '\t');
            }
            let n = line.len();
            assert(k < n);
            let meta = &line[0..k];
            let after = &line[k + 1..n];
            assert(meta@ =~= line@.take(k as int));
            assert(after@ =~= line@.skip(k + 1));
            let path = trim_chars(after);
            let staged = match next_token(meta) {
                Some((_, r1)) => match next_token(r1) {
                    Some((_, r2)) => match next_token(r2) {
                        Some((w, _)) => {
                            let ghost tokens = ws_tokens(meta@);
                            assert(tokens.len() >= 3);
                            assert(w@ == tokens[2]);
                            match parse_u32_chars(w) {
                                Some(stage) => stage > 0,
                                None => false,
                            }
                        },
                        None => false,
                    },
                    None => false,
                },
                None => false,
            };
            if staged && path.len() > 0 {
                Some(path)
            } else {
                None
            }
        },
    }
}

/// Parses the output of `git merge-tree --write-tree` into the list of conflicted
/// files. Without conflicts the list is empty; with them it lists, in ascending
/// order of path and once per path, what `reported_files` finds in the output.
pub fn parse_merge_tree(
    result: &MergeTreeResult,
    current_branch: String,
    target_ref: String,
) -> (r: Result<ConflictReport, AppError>)
    ensures
        r is Ok,
        r matches Ok(report) ==> {
            &&& report@.current_branch == current_branch@
            &&& report@.target_ref == target_ref@
            &&& !result.has_conflicts ==> report@.conflicted_files.len() == 0
            &&& result.has_conflicts ==> lists_sorted(
                report@.conflicted_files,
                reported_files(result.stdout@),
            )
            &&& forall|i: int|
                0 <= i < report@.conflicted_files.len() ==> #[trigger] report@.conflicted_files[i].path.len() > 0
        },
{
    if !result.has_conflicts {
        return Ok(ConflictReport { current_branch, target_ref, conflicted_files: Vec::new() });
    }
    let text = str_chars(result.stdout.as_str());
    let conflict_prefix = str_chars("CONFLICT (");
    let mut files = FileSet { details: Vec::new(), keys: Vec::new() };
    let mut rest: &[char] = text.as_slice();
    let ghost mut done: Seq<Seq<char>> = seq![];
    proof {
        assert(details_view(files.details@) =~= Seq::<DetailView>::empty());
        assert(done + crate::text::lines(rest@) =~= crate::text::lines(text@));
    }
    while rest.len() > 0
        invariant
            done + crate::text::lines(rest@) == crate::text::lines(result.stdout@),
            files.lists(files_after(done)),
            conflict_prefix@ == "CONFLICT ("@,
        decreases rest@.len(),
    {
        let (line, next) = next_line(rest);
        proof {
            assert(done.push(line@).drop_last() =~= done);
            assert(done.push(line@) + crate::text::lines(next@) =~= done + crate::text::lines(
                rest@,
            ));
        }
        let ghost before = files_after(done);
        match strip_prefix_chars(line, conflict_prefix.as_slice()) {
            Some(after_prefix) => {
                match entry_of(after_prefix) {
                    Some((d, key)) => {
                        files.put(d, key, Ghost(before));
                    },
                    None => {},
                }
            },
            None => {
                match staged_path_of(line) {
                    Some(p) => {
                        let mut key: Vec<char> = Vec::new();
                        key.extend_from_slice(p);
                        assert(key@ =~= p@);
                        files.put_if_absent(key, Ghost(before));
                    },
                    None => {},
                }
            },
        }
        proof {
            let l = line@;
            assert(done.push(l).last() == l);
            assert(files_after(done.push(l)) == apply_line(before, l));
            done = done.push(l);
        }
        rest = next;
    }
    proof {
        assert(crate::text::lines(rest@) =~= Seq::<Seq<char>>::empty());
        assert(done =~= crate::text::lines(result.stdout@));
        lemma_files_keyed_by_path(done);
        let v = details_view(files.details@);
        assert forall|i: int| 0 <= i < v.len() implies #[trigger] v[i].path.len() > 0 by {
            assert(files_after(done).contains_key(v[i].path));
        }
    }
    Ok(ConflictReport { current_branch, target_ref, conflicted_files: files.details })
}


proof fn lemma_entry_path_nonempty(line: Seq<char>)
    ensures
        conflict_line_entry(line) matches Some(d) ==> d.path.len() > 0,
{
    if conflict_line_entry(line) is Some {
        let rest = line.skip("CONFLICT ("@.len() as int);
        let k = index_of(rest, ')')->0;
        let message = message_after_paren(rest.skip((k + 1) as int));
        crate::text::lemma_ws_tokens_words(message);
    }
}

/// Every entry that output lines report is filed under its own path, and no path is empty.
pub proof fn lemma_files_keyed_by_path(ls: Seq<Seq<char>>)
    ensures
        keyed_by_path(files_after(ls)),
        forall|k: Seq<char>| #[trigger] files_after(ls).contains_key(k) ==> k.len() > 0,
    decreases ls.len(),
{
    if ls.len() > 0 {
        lemma_files_keyed_by_path(ls.drop_last());
        lemma_entry_path_nonempty(ls.last());
    }
}

/// Whether line `i` of `ls` is a `CONFLICT` line that reports path `p`.
pub open spec fn reports_conflict_at(ls: Seq<Seq<char>>, i: int, p: Seq<char>) -> bool {
    0 <= i < ls.len() && (conflict_line_entry(ls[i]) matches Some(d) && d.path == p)
}

/// Whether line `i` of `ls` is an index line, not a `CONFLICT` line, that stages path `p`.
pub open spec fn stages_at(ls: Seq<Seq<char>>, i: int, p: Seq<char>) -> bool {
    0 <= i < ls.len() && !starts_with(ls[i], "CONFLICT ("@) && staged_path(ls[i]) == Some(p)
}

/// A `CONFLICT` line decides the entry of its path, unless a later `CONFLICT` line
/// reports the same path: index lines never override it.
pub proof fn lemma_last_conflict_line_wins(ls: Seq<Seq<char>>, i: int, d: DetailView)
    requires
        0 <= i < ls.len(),
        conflict_line_entry(ls[i]) == Some(d),
        forall|j: int| i < j < ls.len() ==> !reports_conflict_at(ls, j, d.path),
    ensures
        files_after(ls).contains_key(d.path),
        files_after(ls)[d.path] == d,
    decreases ls.len(),
{
    let prev = ls.drop_last();
    if i < ls.len() - 1 {
        assert forall|j: int| i < j < prev.len() implies !reports_conflict_at(prev, j, d.path) by {
            assert(prev[j] == ls[j]);
            assert(!reports_conflict_at(ls, j, d.path));
        }
        assert(prev[i] == ls[i]);
        lemma_last_conflict_line_wins(prev, i, d);
        assert(!reports_conflict_at(ls, ls.len() - 1, d.path));
    }
}

/// A path that no `CONFLICT` line reports is listed as `Unknown`, with an empty message,
/// exactly when some index line stages it.
pub proof fn lemma_staged_only_is_unknown(ls: Seq<Seq<char>>, p: Seq<char>)
    requires
        forall|j: int| !reports_conflict_at(ls, j, p),
    ensures
        files_after(ls).contains_key(p) <==> exists|j: int| stages_at(ls, j, p),
        files_after(ls).contains_key(p) ==> files_after(ls)[p] == unknown_detail(p),
    decreases ls.len(),
{
    if ls.len() > 0 {
        let prev = ls.drop_last();
        let n = ls.len() - 1;
        assert forall|j: int| !reports_conflict_at(prev, j, p) by {
            if 0 <= j < prev.len() {
                assert(prev[j] == ls[j]);
                assert(!reports_conflict_at(ls, j, p));
            }
        }
        lemma_staged_only_is_unknown(prev, p);
        assert(!reports_conflict_at(ls, n, p));
        if !starts_with(ls[n], "CONFLICT ("@) && staged_path(ls[n]) == Some(p) {
            assert(stages_at(ls, n, p));
        }
        if exists|j: int| stages_at(ls, j, p) {
            let j = choose|j: int| stages_at(ls, j, p);
            if j < n {
                assert(prev[j] == ls[j]);
                assert(stages_at(prev, j, p));
            }
        }
        if exists|j: int| stages_at(prev, j, p) {
            let j = choose|j: int| stages_at(prev, j, p);
            assert(prev[j] == ls[j]);
            assert(stages_at(ls, j, p));
        }
    }
}

/// Every path in the list comes from a `CONFLICT` line or an index line that names it.
pub proof fn lemma_listed_paths_are_reported(ls: Seq<Seq<char>>, p: Seq<char>)
    requires
        files_after(ls).contains_key(p),
    ensures
        exists|j: int| reports_conflict_at(ls, j, p) || stages_at(ls, j, p),
    decreases ls.len(),
{
    let prev = ls.drop_last();
    let n = ls.len() - 1;
    if reports_conflict_at(ls, n, p) || stages_at(ls, n, p) {
    } else {
        lemma_listed_paths_are_reported(prev, p);
        let j = choose|j: int| reports_conflict_at(prev, j, p) || stages_at(prev, j, p);
        assert(prev[j] == ls[j]);
        assert(reports_conflict_at(ls, j, p) || stages_at(ls, j, p));
    }
}


/// A line that reports nothing: it holds no tab and is not a `CONFLICT (` line, such as
/// a tree id, an `Auto-merging` note or a blank line.
pub open spec fn is_inert_line(l: Seq<char>) -> bool {
    index_of(l, '\t') is None && !starts_with(l, "CONFLICT ("@)
}

/// A line that reports nothing, inserted anywhere among the output lines, leaves the
/// conflicted files unchanged.
pub proof fn lemma_inert_line_changes_nothing(ls: Seq<Seq<char>>, i: int, l: Seq<char>)
    requires
        0 <= i <= ls.len(),
        is_inert_line(l),
    ensures
        files_after(ls.insert(i, l)) == files_after(ls),
    decreases ls.len(),
{
    let ext = ls.insert(i, l);
    if i == ls.len() {
        assert(ext.drop_last() =~= ls);
        assert(ext.last() == l);
    } else {
        let prev = ls.drop_last();
        assert(ext.drop_last() =~= prev.insert(i, l));
        assert(ext.last() == ls.last());
        lemma_inert_line_changes_nothing(prev, i, l);
    }
}


/// An index line `<meta>\t<rest>` whose meta part (before the first tab) has a third
/// word that is a stage above zero stages the whole text after the tab, with only the
/// white space around it removed: spaces inside the path stay. On its own, such a line
/// lists that path and nothing else. (The meta part begins with the file mode, a digit.)
pub proof fn lemma_index_line_lists_whole_path(meta: Seq<char>, rest: Seq<char>)
    requires
        meta.len() > 0 && crate::text::is_digit(meta[0]),
        forall|i: int| 0 <= i < meta.len() ==> meta[i] != '\t',
        ws_tokens(meta).len() >= 3,
        parse_u32_spec(ws_tokens(meta)[2]) matches Some(n) && n > 0,
        trim(rest).len() > 0,
    ensures
        staged_path(meta + seq!['\t'] + rest) == Some(trim(rest)),
        rest.len() > 0 && !is_white_space(rest[0]) && !is_white_space(rest.last()) ==> staged_path(
            meta + seq!['\t'] + rest,
        ) == Some(rest),
        files_after(seq![meta + seq!['\t'] + rest]).contains_key(trim(rest)),
        forall|k: Seq<char>| #[trigger]
            files_after(seq![meta + seq!['\t'] + rest]).contains_key(k) ==> k == trim(rest),
{
    let line = meta + seq!['\t'] + rest;
    let k = meta.len() as int;
    assert forall|j: int| 0 <= j < k implies line[j] != '\t' by {
        assert(line[j] == meta[j]);
    }
    assert(line[k] == '\t');
    lemma_index_of_at(line, '\t', k);
    assert(line.take(k) =~= meta);
    assert(line.skip(k + 1) =~= rest);
    if rest.len() > 0 && !is_white_space(rest[0]) && !is_white_space(rest.last()) {
        crate::text::lemma_trim_keeps_inner_text(rest);
    }
    // A line that begins with a digit is not a `CONFLICT (` line.
    assert(!starts_with(line, "CONFLICT ("@)) by {
        reveal_strlit("CONFLICT (");
        assert(line[0] == meta[0]);
        if starts_with(line, "CONFLICT ("@) {
            assert(line.take(10)[0] == 'C');
        }
    }
    let ls = seq![line];
    assert(ls.drop_last() =~= Seq::<Seq<char>>::empty());
    assert(ls.last() == line);
    assert(files_after(ls.drop_last()) == Map::<Seq<char>, DetailView>::empty());
    assert(staged_path(line) == Some(trim(rest)));
    assert(files_after(ls) =~= Map::<Seq<char>, DetailView>::empty().insert(
        trim(rest),
        unknown_detail(trim(rest)),
    ));
}


/// A `Merge conflict in <path>` message names the whole rest of the message, with only
/// the white space around it removed: spaces inside the path stay.
pub proof fn lemma_merge_conflict_message_names_whole_path(p: Seq<char>)
    requires
        trim(p).len() > 0,
    ensures
        path_from_message("Merge conflict in "@ + p) == Some(trim(p)),
        p.len() > 0 && !is_white_space(p[0]) && !is_white_space(p.last()) ==> path_from_message(
            "Merge conflict in "@ + p,
        ) == Some(p),
{
    let pre = "Merge conflict in "@;
    let m = pre + p;
    assert(m.take(pre.len() as int) =~= pre);
    assert(m.skip(pre.len() as int) =~= p);
    if p.len() > 0 && !is_white_space(p[0]) && !is_white_space(p.last()) {
        crate::text::lemma_trim_keeps_inner_text(p);
    }
}

/// A line `CONFLICT (<kind>): <message>` reports the kind named by the text between the
/// parentheses and the message after the colon, for the path the message names.
pub proof fn lemma_conflict_line_reports_kind_and_message(kind: Seq<char>, message: Seq<char>)
    requires
        forall|i: int| 0 <= i < kind.len() ==> kind[i] != ')',
        message.len() > 0,
        !is_white_space(message[0]),
        !is_white_space(message.last()),
        path_from_message(message) is Some,
    ensures
        conflict_line_entry("CONFLICT ("@ + kind + "): "@ + message) == Some(
            DetailView {
                path: path_from_message(message)->0,
                conflict_type: type_of_text(kind),
                message,
            },
        ),
{
    reveal_strlit("): ");
    reveal_strlit(": ");
    let pre = "CONFLICT ("@;
    let line = pre + kind + "): "@ + message;
    assert(line.take(pre.len() as int) =~= pre);
    let rest = line.skip(pre.len() as int);
    assert(rest =~= kind + "): "@ + message);
    let k = kind.len() as int;
    assert forall|j: int| 0 <= j < k implies rest[j] != ')' by {
        assert(rest[j] == kind[j]);
    }
    assert(rest[k] == ')');
    lemma_index_of_at(rest, ')', k);
    assert(rest.take(k) =~= kind);
    let after = rest.skip(k + 1);
    assert(after =~= seq![':', ' '] + message);
    // The text after ')' trims to ": <message>", and the colon and space go.
    crate::text::lemma_lead_ws_at(after, 0);
    assert(crate::text::trim_start(after) =~= after);
    crate::text::lemma_trail_ws_at(after, 0);
    assert(trim(after) =~= after);
    let t = trim(after);
    assert(t[0] == ':');
    let u = t.drop_first();
    assert(u =~= seq![' '] + message);
    assert(is_white_space(u[0])) by {
        assert(u[0] == ' ');
    }
    crate::text::lemma_lead_ws_at(u, 1);
    assert(u.skip(1) =~= message);
    crate::text::lemma_trim_keeps_inner_text(message);
    crate::text::lemma_trail_ws_at(message, 0);
    assert(trim(u) =~= message);
}

} // verus!
