//! What Git prints, read as plain values.
use crate::digest;
use crate::error::{self, AppError, ErrorView};
use crate::model::LineRange;
use crate::order;
use crate::text;
use vstd::prelude::*;
use vstd::utf8::{decode_utf8, valid_utf8};

verus! {

broadcast use {vstd::string::group_string_axioms, vstd::seq::group_seq_axioms};

/// What a run of Git came to.
#[derive(Debug, Clone, PartialEq, Eq)]
pub struct GitOutput {
    pub code: Option<i32>,
    pub stdout: Vec<u8>,
    pub stderr: Vec<u8>,
}

impl GitOutput {
    /// The run ended well.
    pub open spec fn well(self) -> bool {
        self.code == Some(0i32)
    }

    /// What the run complained of.
    pub open spec fn complaint(self) -> ErrorView {
        ErrorView::Git(text::trimmed(text::utf8_lossy(self.stderr@)))
    }

    pub fn success(&self) -> (r: bool)
        ensures
            r == self.well(),
    {
        match self.code {
            Some(code) => code == 0,
            None => false,
        }
    }

    /// What the run complained of.
    pub fn error(&self) -> (r: AppError)
        ensures
            r@ == self.complaint(),
    {
        let said = text::lossy_text(self.stderr.as_slice());
        AppError::Git(text::trim(said.as_str()))
    }
}

/// Why what a run printed is not read.
pub open spec fn run_refusal(output: GitOutput) -> Option<ErrorView> {
    if output.well() {
        None
    } else {
        Some(output.complaint())
    }
}

/// Whether what a run printed may be read.
pub fn ensure_success(output: &GitOutput) -> (r: Result<(), AppError>)
    ensures
        error::follows(r, run_refusal(*output)),
{
    if output.success() {
        return Ok(());
    }
    Err(output.error())
}

// ---------------------------------------------------------------------------
// Bases
// ---------------------------------------------------------------------------

/// A name that Git cannot take for anything but a base.
pub open spec fn sound_base(base: Seq<char>) -> bool {
    &&& base.len() > 0
    &&& !text::begins(base, "-"@)
    &&& forall|i: int| 0 <= i < base.len() ==> !text::white_space(#[trigger] base[i])
}

/// Why a name is not handed to Git as a base.
pub open spec fn base_refusal(base: Seq<char>) -> Option<ErrorView> {
    if sound_base(base) {
        None
    } else {
        Some(ErrorView::Git("非法的 Git base："@ + text::quoted(base)))
    }
}

/// Whether a name may be handed to Git as a base.
pub fn validate_base(base: &str) -> (r: Result<(), AppError>)
    ensures
        error::follows(r, base_refusal(base@)),
{
    let chars = text::chars_of(base);
    let mut sound = chars.len() > 0 && !text::chars_begin(&chars, "-");
    let mut i: usize = 0;
    while sound && i < chars.len()
        invariant
            i <= chars@.len(),
            chars@ == base@,
            sound ==> base@.len() > 0 && !text::begins(base@, "-"@) && forall|k: int|
                0 <= k < i ==> !text::white_space(#[trigger] base@[k]),
            !sound ==> !sound_base(base@),
        decreases chars@.len() - i,
    {
        if text::is_white_space(chars[i]) {
            assert(text::white_space(base@[i as int]));
            sound = false;
        }
        i = i + 1;
    }
    if sound {
        return Ok(());
    }
    let shown = text::quote(base);
    Err(AppError::Git(text::cat2("非法的 Git base：", shown.as_str())))
}

// ---------------------------------------------------------------------------
// Paths
// ---------------------------------------------------------------------------

/// Byte strings with one more, where it holds anything.
pub open spec fn with_item(items: Seq<Seq<u8>>, item: Seq<u8>) -> Seq<Seq<u8>> {
    if item.len() == 0 {
        items
    } else {
        items.push(item)
    }
}

/// How far bytes are read: what stands before each zero byte, and what stands
/// behind the last one.
pub open spec fn split_at_zeros(bytes: Seq<u8>) -> (Seq<Seq<u8>>, Seq<u8>)
    decreases bytes.len(),
{
    if bytes.len() == 0 {
        (Seq::empty(), Seq::empty())
    } else {
        let (items, current) = split_at_zeros(bytes.drop_last());
        if bytes.last() == 0 {
            (with_item(items, current), Seq::empty())
        } else {
            (items, current.push(bytes.last()))
        }
    }
}

/// What stands between zero bytes, where anything does.
pub open spec fn null_items(bytes: Seq<u8>) -> Seq<Seq<u8>> {
    let (items, current) = split_at_zeros(bytes);
    with_item(items, current)
}

/// All byte strings are UTF-8.
pub open spec fn all_utf8(items: Seq<Seq<u8>>) -> bool {
    forall|i: int| 0 <= i < items.len() ==> valid_utf8(#[trigger] items[i])
}

/// The texts that byte strings encode.
pub open spec fn decoded(items: Seq<Seq<u8>>) -> Seq<Seq<char>> {
    items.map_values(|i: Seq<u8>| decode_utf8(i))
}

fn push_item(items: &mut Vec<Vec<u8>>, current: Vec<u8>)
    ensures
        digest::byte_views(final(items)@) == with_item(
            digest::byte_views(old(items)@),
            current@,
        ),
{
    if current.len() > 0 {
        items.push(current);
        assert(digest::byte_views(items@) =~= digest::byte_views(old(items)@).push(current@));
    }
}

fn split_null(bytes: &Vec<u8>) -> (r: Vec<Vec<u8>>)
    ensures
        digest::byte_views(r@) == null_items(bytes@),
{
    let mut items: Vec<Vec<u8>> = Vec::new();
    let mut current: Vec<u8> = Vec::new();
    let mut i: usize = 0;
    assert(bytes@.take(0) =~= Seq::<u8>::empty());
    assert(digest::byte_views(items@) =~= Seq::<Seq<u8>>::empty());
    while i < bytes.len()
        invariant
            i <= bytes@.len(),
            split_at_zeros(bytes@.take(i as int)) == (digest::byte_views(items@), current@),
        decreases bytes@.len() - i,
    {
        assert(bytes@.take(i + 1).drop_last() =~= bytes@.take(i as int));
        let b = bytes[i];
        if b == 0 {
            push_item(&mut items, current);
            current = Vec::new();
        } else {
            current.push(b);
        }
        i = i + 1;
    }
    assert(bytes@.take(bytes@.len() as int) =~= bytes@);
    push_item(&mut items, current);
    items
}

/// The paths that Git prints with zero bytes behind them, as it prints them;
/// none of them is guessed where one is not UTF-8.
pub fn parse_null_paths(bytes: &Vec<u8>) -> (r: Result<Vec<String>, AppError>)
    ensures
        match r {
            Ok(paths) => all_utf8(null_items(bytes@)) && text::views(paths@) == decoded(
                null_items(bytes@),
            ),
            Err(e) => !all_utf8(null_items(bytes@)) && e@ == ErrorView::NonUtf8GitPath,
        },
{
    let items = split_null(bytes);
    let ghost all = null_items(bytes@);
    let mut paths: Vec<String> = Vec::new();
    let mut i: usize = 0;
    while i < items.len()
        invariant
            i <= items@.len(),
            all == digest::byte_views(items@),
            paths@.len() == i,
            forall|k: int| 0 <= k < i ==> valid_utf8(#[trigger] all[k]),
            forall|k: int| 0 <= k < i ==> (#[trigger] paths@[k])@ == decode_utf8(all[k]),
            all == null_items(bytes@),
        decreases items@.len() - i,
    {
        assert(all[i as int] == items@[i as int]@);
        match text::utf8_text(items[i].as_slice()) {
            Some(path) => {
                paths.push(path);
            },
            None => {
                assert(!valid_utf8(all[i as int]));
                return Err(AppError::NonUtf8GitPath);
            },
        }
        i = i + 1;
    }
    assert(text::views(paths@) =~= decoded(all));
    Ok(paths)
}

/// The paths that Git printed, each once and in order, given the normalized
/// written form of each.
pub fn path_set(normalized: &Vec<String>) -> (r: Vec<String>)
    ensures
        text::views(r@) == order::sorted_set_of(text::views(normalized@)),
{
    order::sorted_set(normalized)
}

/// The paths of two lists, each once and in order; both lists hold paths in
/// their normalized written form.
pub fn either_path(a: &Vec<String>, b: &Vec<String>) -> (r: Vec<String>)
    ensures
        text::views(r@) == order::sorted_set_of(text::views(a@) + text::views(b@)),
{
    let mut all = text::clone_texts(a);
    let ghost more = text::views(b@);
    let mut i: usize = 0;
    assert(text::views(all@) =~= text::views(a@) + more.take(0));
    while i < b.len()
        invariant
            i <= b@.len(),
            more == text::views(b@),
            text::views(all@) == text::views(a@) + more.take(i as int),
        decreases b@.len() - i,
    {
        let ghost before = text::views(all@);
        all.push(b[i].clone());
        assert(text::views(all@) =~= before.push(more[i as int]));
        assert(text::views(all@) =~= text::views(a@) + more.take(i + 1));
        i = i + 1;
    }
    assert(more.take(more.len() as int) =~= more);
    order::sorted_set(&all)
}

/// The paths that a run printed, as it printed them.
pub fn printed_paths(output: &GitOutput) -> (r: Result<Vec<String>, AppError>)
    ensures
        match r {
            Ok(paths) => output.well() && all_utf8(null_items(output.stdout@)) && text::views(
                paths@,
            ) == decoded(null_items(output.stdout@)),
            Err(e) => if output.well() {
                !all_utf8(null_items(output.stdout@)) && e@ == ErrorView::NonUtf8GitPath
            } else {
                e@ == output.complaint()
            },
        },
{
    if !output.success() {
        return Err(output.error());
    }
    parse_null_paths(&output.stdout)
}

/// Whether a worktree is clean, by what its status run printed.
pub fn worktree_is_clean(output: &GitOutput) -> (r: Result<bool, AppError>)
    ensures
        error::follows(r, run_refusal(*output)),
        r matches Ok(clean) ==> clean == (output.stdout@.len() == 0),
{
    if !output.success() {
        return Err(output.error());
    }
    Ok(output.stdout.len() == 0)
}

// ---------------------------------------------------------------------------
// Hunks
// ---------------------------------------------------------------------------

/// One difference between two versions of a file.
#[derive(Debug, Clone, Copy, PartialEq, Eq)]
pub struct DiffHunk {
    pub old: Option<LineRange>,
    pub new: Option<LineRange>,
    pub old_start: usize,
    pub new_start: usize,
}

/// Where a character stands first.
pub open spec fn first_place(s: Seq<char>, c: char) -> Option<int>
    decreases s.len(),
{
    if s.len() == 0 {
        None
    } else {
        match first_place(s.drop_last(), c) {
            Some(i) => Some(i),
            None => if s.last() == c {
                Some(s.len() - 1)
            } else {
                None
            },
        }
    }
}

proof fn place_stays(s: Seq<char>, c: char, n: int)
    requires
        0 <= n <= s.len(),
        first_place(s.take(n), c) is Some,
    ensures
        first_place(s, c) == first_place(s.take(n), c),
    decreases s.len() - n,
{
    if n < s.len() {
        assert(s.take(n + 1).drop_last() =~= s.take(n));
        place_stays(s, c, n + 1);
    } else {
        assert(s.take(n) =~= s);
    }
}

fn find_char(s: &Vec<char>, c: char) -> (r: Option<usize>)
    ensures
        match r {
            Some(i) => first_place(s@, c) == Some(i as int) && i < s@.len(),
            None => first_place(s@, c) is None,
        },
{
    let mut i: usize = 0;
    assert(s@.take(0) =~= Seq::<char>::empty());
    while i < s.len()
        invariant
            i <= s@.len(),
            first_place(s@.take(i as int), c) is None,
        decreases s@.len() - i,
    {
        assert(s@.take(i + 1).drop_last() =~= s@.take(i as int));
        if s[i] == c {
            proof {
                place_stays(s@, c, i + 1);
            }
            return Some(i);
        }
        i = i + 1;
    }
    assert(s@.take(s@.len() as int) =~= s@);
    None
}

/// The start and the lines of a range as a diff writes it: a marker, a start,
/// and how many lines there are where it is not one.  A range whose end is no
/// number of the machine is none.
pub open spec fn range_of(value: Seq<char>, marker: char) -> Option<(usize, Option<LineRange>)> {
    if value.len() == 0 || value[0] != marker {
        None
    } else {
        let rest = value.skip(1);
        let max = usize::MAX as nat;
        let (start, count) = match first_place(rest, ',') {
            Some(i) => (
                text::parsed_number(rest.take(i), max),
                text::parsed_number(rest.skip(i + 1), max),
            ),
            None => (text::parsed_number(rest, max), Some(1nat)),
        };
        match (start, count) {
            (Some(start), Some(count)) => if count == 0 {
                Some((start as usize, None))
            } else if start + count > usize::MAX {
                None
            } else {
                Some(
                    (
                        start as usize,
                        Some(
                            LineRange {
                                start_line: start as usize,
                                end_line: (start + count - 1) as usize,
                            },
                        ),
                    ),
                )
            },
            _ => None,
        }
    }
}

/// The start and the lines of a range as a diff writes it.
pub fn parse_diff_range(value: &Vec<char>, marker: char) -> (r: Option<(usize, Option<LineRange>)>)
    ensures
        r == range_of(value@, marker),
{
    let n: usize = value.len();
    if n == 0 || value[0] != marker {
        return None;
    }
    let rest = text::slice_chars(value, 1, n);
    assert(rest@ =~= value@.skip(1));
    let (start, count) = match find_char(&rest, ',') {
        Some(i) => {
            let m: usize = rest.len();
            let a = text::slice_chars(&rest, 0, i);
            let b = text::slice_chars(&rest, i + 1, m);
            assert(a@ =~= rest@.take(i as int));
            assert(b@ =~= rest@.skip(i + 1));
            (text::parse_number(&a), text::parse_number(&b))
        },
        None => (text::parse_number(&rest), Some(1)),
    };
    match (start, count) {
        (Some(start), Some(count)) => {
            if count == 0 {
                return Some((start, None));
            }
            if count > usize::MAX - start {
                return None;
            }
            Some((start, Some(LineRange { start_line: start, end_line: start + count - 1 })))
        },
        _ => None,
    }
}

/// Where a pattern stands first.
pub open spec fn stands_first(s: Seq<char>, p: Seq<char>, i: int) -> bool {
    text::occurs_at(s, p, i) && forall|j: int| 0 <= j < i ==> !text::occurs_at(s, p, j)
}

/// The hunk that two words tell of.
pub open spec fn hunk_of_words(words: Seq<Seq<char>>) -> Option<DiffHunk> {
    if words.len() < 2 {
        None
    } else {
        match (range_of(words[0], '-'), range_of(words[1], '+')) {
            (Some((old_start, old)), Some((new_start, new))) => Some(
                DiffHunk { old, new, old_start, new_start },
            ),
            _ => None,
        }
    }
}

/// What stands in the header of a hunk, before its closing mark.
pub open spec fn header_body(line: Seq<char>) -> Option<Seq<char>> {
    match text::after_prefix(line, "@@ "@) {
        None => None,
        Some(body) => if text::occurs(body, " @@"@) {
            Some(body.take(choose|i: int| stands_first(body, " @@"@, i)))
        } else {
            None
        },
    }
}

/// The hunk that a line is the header of.
pub open spec fn hunk_of(line: Seq<char>) -> Option<DiffHunk> {
    match header_body(line) {
        None => None,
        Some(body) => hunk_of_words(text::pieces(text::squeezed(body), ' ')),
    }
}

proof fn first_is_unique(s: Seq<char>, p: Seq<char>, i: int)
    requires
        stands_first(s, p, i),
    ensures
        (choose|j: int| stands_first(s, p, j)) == i,
        text::occurs(s, p),
{
    let j = choose|j: int| stands_first(s, p, j);
    assert(stands_first(s, p, j));
    if j < i {
        assert(!text::occurs_at(s, p, j));
    } else if i < j {
        assert(!text::occurs_at(s, p, i));
    }
}

/// The hunk that a line is the header of.
pub fn parse_hunk_header(line: &str) -> (r: Option<DiffHunk>)
    ensures
        r == hunk_of(line@),
{
    let body = match text::strip_prefix(line, "@@ ") {
        None => {
            return None;
        },
        Some(body) => text::chars_of(body.as_str()),
    };
    let mark = text::chars_of(" @@");
    let end = match text::find_from(&body, &mark, 0) {
        None => {
            assert(!text::occurs(body@, " @@"@));
            return None;
        },
        Some(end) => end,
    };
    proof {
        first_is_unique(body@, " @@"@, end as int);
    }
    let inner = text::slice_chars(&body, 0, end);
    assert(inner@ =~= body@.take(end as int));
    let shown = text::text_of(inner.as_slice());
    let squeezed = text::squeeze(shown.as_str());
    let chars = text::chars_of(squeezed.as_str());
    let words = text::split_chars(&chars, ' ');
    assert(text::char_views(words@).len() == words@.len());
    if words.len() < 2 {
        return None;
    }
    assert(text::char_views(words@)[0] == words@[0]@);
    assert(text::char_views(words@)[1] == words@[1]@);
    match (parse_diff_range(&words[0], '-'), parse_diff_range(&words[1], '+')) {
        (Some((old_start, old)), Some((new_start, new))) => Some(
            DiffHunk { old, new, old_start, new_start },
        ),
        _ => None,
    }
}

/// The hunks that lines are the headers of.
pub open spec fn hunks_in(lines: Seq<Seq<char>>) -> Seq<DiffHunk>
    decreases lines.len(),
{
    if lines.len() == 0 {
        Seq::empty()
    } else {
        let before = hunks_in(lines.drop_last());
        match hunk_of(lines.last()) {
            Some(h) => before.push(h),
            None => before,
        }
    }
}

/// The hunks of a diff that a run printed.
pub fn diff_hunks(output: &GitOutput) -> (r: Result<Vec<DiffHunk>, AppError>)
    ensures
        error::follows(r, run_refusal(*output)),
        r matches Ok(hunks) ==> hunks@ == hunks_in(
            text::lines_of(text::utf8_lossy(output.stdout@)),
        ),
{
    if !output.success() {
        return Err(output.error());
    }
    let said = text::lossy_text(output.stdout.as_slice());
    let chars = text::chars_of(said.as_str());
    let lines = text::split_lines(&chars);
    let ghost all = text::lines_of(said@);
    let mut hunks: Vec<DiffHunk> = Vec::new();
    let mut i: usize = 0;
    assert(all.take(0) =~= Seq::<Seq<char>>::empty());
    while i < lines.len()
        invariant
            i <= lines@.len(),
            all == text::char_views(lines@),
            hunks@ == hunks_in(all.take(i as int)),
        decreases lines@.len() - i,
    {
        assert(all.take(i + 1).drop_last() =~= all.take(i as int));
        assert(all.take(i + 1).last() == lines@[i as int]@);
        let line = text::text_of(lines[i].as_slice());
        match parse_hunk_header(line.as_str()) {
            Some(h) => {
                hunks.push(h);
            },
            None => {},
        }
        i = i + 1;
    }
    assert(all.take(all.len() as int) =~= all);
    Ok(hunks)
}

// ---------------------------------------------------------------------------
// Revisions
// ---------------------------------------------------------------------------

/// What is asked next for the revision of the head.
#[derive(Debug, Clone, PartialEq, Eq)]
pub enum HeadStep {
    /// The head is a commit.
    Done(String),
    /// The head is no commit: what does it stand for?
    AskReference,
}

/// Reads what Git says the head is.
pub fn read_head(output: &GitOutput) -> (r: Result<HeadStep, AppError>)
    ensures
        match r {
            Ok(HeadStep::Done(revision)) => output.well() && valid_utf8(output.stdout@)
                && revision@ == text::trimmed(decode_utf8(output.stdout@)),
            Ok(HeadStep::AskReference) => !output.well(),
            Err(e) => output.well() && !valid_utf8(output.stdout@) && e@ == ErrorView::Git(
                "HEAD revision 不是 UTF-8"@,
            ),
        },
{
    if !output.success() {
        return Ok(HeadStep::AskReference);
    }
    match text::utf8_text(output.stdout.as_slice()) {
        Some(revision) => Ok(HeadStep::Done(text::trim(revision.as_str()))),
        None => Err(AppError::Git("HEAD revision 不是 UTF-8".to_owned())),
    }
}

/// Reads what Git says the head stands for, after it was no commit.
pub fn read_reference(head: &GitOutput, symbolic: &GitOutput) -> (r: Result<String, AppError>)
    ensures
        match r {
            Ok(reference) => symbolic.well() && valid_utf8(symbolic.stdout@) && reference@
                == text::trimmed(decode_utf8(symbolic.stdout@)),
            Err(e) => if symbolic.well() {
                !valid_utf8(symbolic.stdout@) && e@ == ErrorView::Git(
                    "HEAD symbolic ref 不是 UTF-8"@,
                )
            } else {
                e@ == head.complaint()
            },
        },
{
    if !symbolic.success() {
        return Err(head.error());
    }
    match text::utf8_text(symbolic.stdout.as_slice()) {
        Some(reference) => Ok(text::trim(reference.as_str())),
        None => Err(AppError::Git("HEAD symbolic ref 不是 UTF-8".to_owned())),
    }
}

/// The revision of a head that stands for something without a commit yet, by
/// whether Git finds it.
pub fn read_unborn(head: &GitOutput, reference: &str, existing: &GitOutput) -> (r: Result<
    String,
    AppError,
>)
    ensures
        match r {
            Ok(revision) => existing.code == Some(1i32) && revision@ == "unborn:"@ + reference@,
            Err(e) => existing.code != Some(1i32) && e@ == head.complaint(),
        },
{
    match existing.code {
        Some(code) => {
            if code == 1 {
                return Ok(text::cat2("unborn:", reference));
            }
        },
        None => {},
    }
    Err(head.error())
}

/// What Git is asked for to get a file of a base, given the normalized written
/// form of its path.
pub fn revision_spec(base: &str, path: &str) -> (r: Result<String, AppError>)
    ensures
        error::follows(r, base_refusal(base@)),
        r matches Ok(spec) ==> spec@ == base@ + ":./"@ + path@,
{
    match validate_base(base) {
        Err(e) => {
            return Err(e);
        },
        Ok(()) => {},
    }
    Ok(text::cat3(base, ":./", path))
}

/// Git says that there is no such file.
pub open spec fn says_absent(said: Seq<char>) -> bool {
    text::occurs(said, "does not exist in"@) || text::occurs(said, "exists on disk, but not in"@)
}

/// A file of a base as a run printed it; nothing where there is none.
pub fn file_at_revision(output: &GitOutput, path: &str) -> (r: Result<Option<String>, AppError>)
    ensures
        match r {
            Ok(Some(source)) => output.well() && valid_utf8(output.stdout@) && source@
                == decode_utf8(output.stdout@),
            Ok(None) => !output.well() && says_absent(text::utf8_lossy(output.stderr@)),
            Err(e) => if output.well() {
                !valid_utf8(output.stdout@) && e@ == ErrorView::NonUtf8Source(path@)
            } else {
                !says_absent(text::utf8_lossy(output.stderr@)) && e@ == output.complaint()
            },
        },
{
    if output.success() {
        return match text::utf8_text(output.stdout.as_slice()) {
            Some(source) => Ok(Some(source)),
            None => Err(AppError::NonUtf8Source(path.to_owned())),
        };
    }
    let said = text::lossy_text(output.stderr.as_slice());
    let chars = text::chars_of(said.as_str());
    if text::chars_contain(&chars, "does not exist in") || text::chars_contain(
        &chars,
        "exists on disk, but not in",
    ) {
        return Ok(None);
    }
    Err(output.error())
}

// ---------------------------------------------------------------------------
// The fingerprint of a worktree
// ---------------------------------------------------------------------------

/// What stands under a path of a worktree.
#[derive(Debug, Clone, PartialEq, Eq)]
pub enum WorktreeItem {
    Missing,
    Link(Vec<u8>),
    File(Vec<u8>),
    Other,
}

/// A path of a worktree; `inside` tells that the path leads nowhere else.
#[derive(Debug, Clone, PartialEq, Eq)]
pub struct WorktreeEntry {
    pub path: String,
    pub inside: bool,
    pub item: WorktreeItem,
}

/// What is hashed for what stands under a path.
pub open spec fn item_transcript(item: WorktreeItem) -> Seq<u8> {
    match item {
        WorktreeItem::Missing => vstd::utf8::encode_utf8("missing\0"@),
        WorktreeItem::Link(target) => (vstd::utf8::encode_utf8("symlink\0"@) + target@).push(0u8),
        WorktreeItem::File(content) => (vstd::utf8::encode_utf8("file\0"@) + content@).push(0u8),
        WorktreeItem::Other => vstd::utf8::encode_utf8("other\0"@).push(0u8),
    }
}

/// What is hashed for a path.
pub open spec fn entry_transcript(entry: WorktreeEntry) -> Seq<u8> {
    vstd::utf8::encode_utf8(entry.path@).push(0u8) + item_transcript(entry.item)
}

/// What is hashed for paths.
pub open spec fn entries_transcript(entries: Seq<WorktreeEntry>) -> Seq<u8>
    decreases entries.len(),
{
    if entries.len() == 0 {
        vstd::utf8::encode_utf8("project-brain/worktree-fingerprint/v1\0"@)
    } else {
        entries_transcript(entries.drop_last()) + entry_transcript(entries.last())
    }
}

/// Every path leads into the worktree.
pub open spec fn all_inside(entries: Seq<WorktreeEntry>) -> bool {
    forall|i: int| 0 <= i < entries.len() ==> (#[trigger] entries[i]).inside
}

fn append_item(out: &mut Vec<u8>, item: &WorktreeItem)
    ensures
        final(out)@ == old(out)@ + item_transcript(*item),
{
    match item {
        WorktreeItem::Missing => {
            digest::append_text(out, "missing\0");
        },
        WorktreeItem::Link(target) => {
            digest::append_text(out, "symlink\0");
            digest::append_bytes(out, target.as_slice());
            out.push(0u8);
        },
        WorktreeItem::File(content) => {
            digest::append_text(out, "file\0");
            digest::append_bytes(out, content.as_slice());
            out.push(0u8);
        },
        WorktreeItem::Other => {
            digest::append_text(out, "other\0");
            out.push(0u8);
        },
    }
    assert(out@ =~= old(out)@ + item_transcript(*item));
}

/// The fingerprint of what stands in a worktree, by what stands under each of
/// its paths.
pub fn worktree_fingerprint(entries: &Vec<WorktreeEntry>) -> (r: Result<String, AppError>)
    ensures
        match r {
            Ok(fingerprint) => all_inside(entries@) && fingerprint@ == digest::sha256_hex(
                entries_transcript(entries@),
            ),
            Err(e) => exists|i: int|
                {
                    &&& 0 <= i < entries@.len()
                    &&& !(#[trigger] entries@[i]).inside
                    &&& all_inside(entries@.take(i))
                    &&& e@ == ErrorView::RepositoryPathOutsideRoot(entries@[i].path@)
                },
        },
{
    let mut bytes: Vec<u8> = Vec::new();
    digest::append_text(&mut bytes, "project-brain/worktree-fingerprint/v1\0");
    let mut i: usize = 0;
    assert(entries@.take(0) =~= Seq::<WorktreeEntry>::empty());
    assert(bytes@ =~= entries_transcript(entries@.take(0)));
    while i < entries.len()
        invariant
            i <= entries@.len(),
            forall|k: int| 0 <= k < i ==> (#[trigger] entries@[k]).inside,
            bytes@ == entries_transcript(entries@.take(i as int)),
        decreases entries@.len() - i,
    {
        let entry = &entries[i];
        if !entry.inside {
            assert(all_inside(entries@.take(i as int)));
            return Err(AppError::RepositoryPathOutsideRoot(entry.path.clone()));
        }
        assert(entries@.take(i + 1).drop_last() =~= entries@.take(i as int));
        let ghost before = bytes@;
        digest::append_terminated(&mut bytes, entry.path.as_str());
        append_item(&mut bytes, &entry.item);
        assert(bytes@ =~= before + entry_transcript(*entry));
        i = i + 1;
    }
    assert(entries@.take(entries@.len() as int) =~= entries@);
    Ok(digest::hash_bytes(bytes.as_slice()))
}

/// What is hashed behind an entry.
pub open spec fn tail_of(entries: Seq<WorktreeEntry>, i: int) -> Seq<u8>
    decreases entries.len(),
{
    if entries.len() == 0 || i >= entries.len() - 1 {
        Seq::empty()
    } else {
        tail_of(entries.drop_last(), i) + entry_transcript(entries.last())
    }
}

proof fn transcript_splits(entries: Seq<WorktreeEntry>, i: int)
    requires
        0 <= i < entries.len(),
    ensures
        entries_transcript(entries) == entries_transcript(entries.take(i)) + entry_transcript(
            entries[i],
        ) + tail_of(entries, i),
    decreases entries.len(),
{
    if i == entries.len() - 1 {
        assert(entries.drop_last() =~= entries.take(i));
        assert(tail_of(entries, i) =~= Seq::<u8>::empty());
        assert(entries_transcript(entries) =~= entries_transcript(entries.take(i))
            + entry_transcript(entries[i]) + tail_of(entries, i));
    } else {
        let init = entries.drop_last();
        transcript_splits(init, i);
        assert(init.take(i) =~= entries.take(i));
        assert(init[i] == entries[i]);
        assert(entries_transcript(entries) =~= entries_transcript(entries.take(i))
            + entry_transcript(entries[i]) + tail_of(entries, i));
    }
}

proof fn tails_agree(a: Seq<WorktreeEntry>, b: Seq<WorktreeEntry>, i: int)
    requires
        0 <= i < a.len(),
        a.len() == b.len(),
        forall|k: int| i < k < a.len() ==> a[k] == b[k],
    ensures
        tail_of(a, i) == tail_of(b, i),
    decreases a.len(),
{
    if i < a.len() - 1 {
        assert(a[a.len() - 1] == b[b.len() - 1]);
        tails_agree(a.drop_last(), b.drop_last(), i);
    }
}

/// A file that changes is seen: where two worktrees differ only in what one
/// file holds, what is hashed for them differs.
pub proof fn changed_files_are_seen(
    a: Seq<WorktreeEntry>,
    b: Seq<WorktreeEntry>,
    i: int,
    x: Vec<u8>,
    y: Vec<u8>,
)
    requires
        0 <= i < a.len(),
        a.len() == b.len(),
        forall|k: int| 0 <= k < a.len() && k != i ==> a[k] == b[k],
        a[i].path@ == b[i].path@,
        a[i].item == WorktreeItem::File(x),
        b[i].item == WorktreeItem::File(y),
        x@ != y@,
    ensures
        entries_transcript(a) != entries_transcript(b),
{
    transcript_splits(a, i);
    transcript_splits(b, i);
    tails_agree(a, b, i);
    assert(a.take(i) =~= b.take(i));
    let front = entries_transcript(a.take(i)) + vstd::utf8::encode_utf8(a[i].path@).push(0u8)
        + vstd::utf8::encode_utf8("file\0"@);
    let back = seq![0u8] + tail_of(a, i);
    assert(entries_transcript(a) =~= front + x@ + back);
    assert(entries_transcript(b) =~= front + y@ + back);
    if entries_transcript(a) == entries_transcript(b) {
        let n = front.len() as int;
        assert((front + x@ + back).len() == (front + y@ + back).len());
        assert(x@ =~= (front + x@ + back).subrange(n, n + x@.len()));
        assert(y@ =~= (front + y@ + back).subrange(n, n + y@.len()));
    }
}

// ---------------------------------------------------------------------------
// Two states of a worktree
// ---------------------------------------------------------------------------

/// A path of a worktree and what stands under it, as it is kept.
#[derive(Debug, Clone, PartialEq, Eq)]
pub struct KeptFile {
    pub path: String,
    pub state: String,
}

/// What stands under a path, as it is kept.
pub open spec fn kept_state(item: WorktreeItem) -> Seq<char> {
    match item {
        WorktreeItem::Missing => "missing"@,
        WorktreeItem::Link(target) => "link:"@ + digest::sha256_hex(target@),
        WorktreeItem::File(content) => "file:"@ + digest::sha256_hex(content@),
        WorktreeItem::Other => "other"@,
    }
}

/// A path of a worktree as it is kept.
pub fn keep(entry: &WorktreeEntry) -> (r: KeptFile)
    ensures
        r.path@ == entry.path@,
        r.state@ == kept_state(entry.item),
{
    let state = match &entry.item {
        WorktreeItem::Missing => "missing".to_owned(),
        WorktreeItem::Link(target) => text::cat2(
            "link:",
            digest::hash_bytes(target.as_slice()).as_str(),
        ),
        WorktreeItem::File(content) => text::cat2(
            "file:",
            digest::hash_bytes(content.as_slice()).as_str(),
        ),
        WorktreeItem::Other => "other".to_owned(),
    };
    KeptFile { path: entry.path.clone(), state }
}

/// The paths of kept files.
pub open spec fn kept_paths(files: Seq<KeptFile>) -> Seq<Seq<char>> {
    files.map_values(|file: KeptFile| file.path@)
}

/// A file is kept under a path in a state.
pub open spec fn kept_as(files: Seq<KeptFile>, path: Seq<char>, state: Seq<char>) -> bool {
    exists|i: int|
        0 <= i < files.len() && (#[trigger] files[i]).path@ == path && files[i].state@ == state
}

/// Two states of a worktree differ under a path: what the one keeps there the
/// other does not.
pub open spec fn differ_under(a: Seq<KeptFile>, b: Seq<KeptFile>, path: Seq<char>) -> bool {
    exists|state: Seq<char>|
        #![trigger kept_as(a, path, state)]
        #![trigger kept_as(b, path, state)]
        kept_as(a, path, state) != kept_as(b, path, state)
}

fn kept_place(files: &Vec<KeptFile>, path: &str) -> (r: Option<usize>)
    requires
        order::ascending(kept_paths(files@)),
    ensures
        r matches Some(i) ==> i < files@.len() && files@[i as int].path@ == path@,
        r is None ==> forall|k: int| 0 <= k < files@.len() ==> (#[trigger] files@[k]).path@ != path@,
{
    let ghost paths = kept_paths(files@);
    let mut low: usize = 0;
    let mut high: usize = files.len();
    while low < high
        invariant
            low <= high <= files@.len(),
            paths == kept_paths(files@),
            order::ascending(paths),
            forall|k: int| 0 <= k < low ==> (#[trigger] paths[k]) != path@,
            forall|k: int| high <= k < files@.len() ==> (#[trigger] paths[k]) != path@,
        decreases high - low,
    {
        let middle = low + (high - low) / 2;
        assert(paths[middle as int] == files@[middle as int].path@);
        if text::same(files[middle].path.as_str(), path) {
            return Some(middle);
        }
        proof {
            order::text_before_total(paths[middle as int], path@);
            assert forall|k: int| 0 <= k < files@.len() && k != middle && (#[trigger] paths[k])
                == path@ implies (if k < middle {
                order::text_before(path@, paths[middle as int])
            } else {
                order::text_before(paths[middle as int], path@)
            }) by {}
        }
        if order::is_before(files[middle].path.as_str(), path) {
            low = middle + 1;
        } else {
            high = middle;
        }
    }
    assert forall|k: int| 0 <= k < files@.len() implies (#[trigger] files@[k]).path@ != path@ by {
        assert(paths[k] == files@[k].path@);
    }
    None
}

proof fn one_state_a_path(files: Seq<KeptFile>, i: int, state: Seq<char>)
    requires
        order::ascending(kept_paths(files)),
        0 <= i < files.len(),
    ensures
        kept_as(files, files[i].path@, state) <==> state == files[i].state@,
{
    let paths = kept_paths(files);
    if kept_as(files, files[i].path@, state) {
        let k = choose|k: int|
            0 <= k < files.len() && (#[trigger] files[k]).path@ == files[i].path@
                && files[k].state@ == state;
        assert(paths[k] == files[k].path@ && paths[i] == files[i].path@);
        order::text_before_irreflexive(paths[i]);
        if k < i {
            assert(order::text_before(paths[k], paths[i]));
        } else if k > i {
            assert(order::text_before(paths[i], paths[k]));
        }
    }
}

fn kept_otherwise(a: &Vec<KeptFile>, i: usize, b: &Vec<KeptFile>) -> (r: bool)
    requires
        i < a@.len(),
        order::ascending(kept_paths(a@)),
        order::ascending(kept_paths(b@)),
    ensures
        r == differ_under(a@, b@, a@[i as int].path@),
{
    let ghost path = a@[i as int].path@;
    let ghost held = a@[i as int].state@;
    proof {
        assert forall|state: Seq<char>|
            #![trigger kept_as(a@, path, state)]
            kept_as(a@, path, state) <==> state == held by {
            one_state_a_path(a@, i as int, state);
        }
    }
    match kept_place(b, a[i].path.as_str()) {
        Some(k) => {
            proof {
                assert forall|state: Seq<char>|
                    #![trigger kept_as(b@, path, state)]
                    kept_as(b@, path, state) <==> state == b@[k as int].state@ by {
                    one_state_a_path(b@, k as int, state);
                }
                assert(kept_as(a@, path, held));
            }
            !text::same(a[i].state.as_str(), b[k].state.as_str())
        },
        None => {
            assert(kept_as(a@, path, held) && !kept_as(b@, path, held));
            true
        },
    }
}

/// The paths under which a first state of a worktree keeps what a second one
/// does not, in the order of the first.
fn kept_here_only(a: &Vec<KeptFile>, b: &Vec<KeptFile>) -> (r: Vec<String>)
    requires
        order::ascending(kept_paths(a@)),
        order::ascending(kept_paths(b@)),
    ensures
        forall|path: Seq<char>|
            #![trigger text::views(r@).contains(path)]
            text::views(r@).contains(path) <==> kept_paths(a@).contains(path) && differ_under(
                a@,
                b@,
                path,
            ),
{
    let mut out: Vec<String> = Vec::new();
    let mut i: usize = 0;
    let ghost paths = kept_paths(a@);
    while i < a.len()
        invariant
            i <= a@.len(),
            paths == kept_paths(a@),
            order::ascending(paths),
            order::ascending(kept_paths(b@)),
            forall|path: Seq<char>|
                #![trigger text::views(out@).contains(path)]
                text::views(out@).contains(path) <==> paths.take(i as int).contains(path)
                    && differ_under(a@, b@, path),
        decreases a@.len() - i,
    {
        let ghost before = out@;
        let ghost here = a@[i as int].path@;
        let otherwise = kept_otherwise(a, i, b);
        if otherwise {
            out.push(a[i].path.clone());
        }
        proof {
            assert(paths[i as int] == here);
            assert(paths.take(i + 1) =~= paths.take(i as int).push(here));
            assert forall|path: Seq<char>|
                #![trigger text::views(out@).contains(path)]
                text::views(out@).contains(path) <==> paths.take(i + 1).contains(path)
                    && differ_under(a@, b@, path) by {
                if otherwise {
                    assert(text::views(out@) =~= text::views(before).push(here));
                    in_pushed(text::views(before), here, path);
                }
                in_pushed(paths.take(i as int), here, path);
                assert(text::views(before).contains(path) <==> paths.take(i as int).contains(path)
                    && differ_under(a@, b@, path));
            }
        }
        i = i + 1;
    }
    assert(paths.take(paths.len() as int) =~= paths);
    out
}

proof fn in_pushed(v: Seq<Seq<char>>, item: Seq<char>, x: Seq<char>)
    ensures
        v.push(item).contains(x) <==> v.contains(x) || x == item,
{
    let w = v.push(item);
    if v.contains(x) {
        let k = choose|k: int| 0 <= k < v.len() && v[k] == x;
        assert(w[k] == x);
    }
    assert(w[v.len() as int] == item);
    if w.contains(x) {
        let k = choose|k: int| 0 <= k < w.len() && w[k] == x;
        if k < v.len() {
            assert(v[k] == x);
        }
    }
}

/// The paths under which two states of a worktree differ, each once and in
/// order. Both states are kept in the order of their paths.
pub fn changed_between(before: &Vec<KeptFile>, after: &Vec<KeptFile>) -> (r: Vec<String>)
    requires
        order::ascending(kept_paths(before@)),
        order::ascending(kept_paths(after@)),
    ensures
        order::ascending(text::views(r@)),
        forall|path: Seq<char>|
            #![trigger text::views(r@).contains(path)]
            text::views(r@).contains(path) <==> differ_under(before@, after@, path),
{
    let gone = kept_here_only(before, after);
    let come = kept_here_only(after, before);
    let r = either_path(&gone, &come);
    proof {
        let g = text::views(gone@);
        let c = text::views(come@);
        order::sorted_set_keeps_members(g + c);
        assert forall|path: Seq<char>|
            #![trigger text::views(r@).contains(path)]
            text::views(r@).contains(path) <==> differ_under(before@, after@, path) by {
            in_either(g, c, path);
            differences_are_mutual(before@, after@, path);
            assert(g.contains(path) <==> kept_paths(before@).contains(path) && differ_under(
                before@,
                after@,
                path,
            ));
            assert(c.contains(path) <==> kept_paths(after@).contains(path) && differ_under(
                after@,
                before@,
                path,
            ));
            if differ_under(before@, after@, path) {
                let state = choose|state: Seq<char>|
                    #![trigger kept_as(before@, path, state)]
                    kept_as(before@, path, state) != kept_as(after@, path, state);
                if kept_as(before@, path, state) {
                    kept_paths_hold(before@, path, state);
                } else {
                    kept_paths_hold(after@, path, state);
                }
            }
        }
    }
    r
}

proof fn kept_paths_hold(files: Seq<KeptFile>, path: Seq<char>, state: Seq<char>)
    requires
        kept_as(files, path, state),
    ensures
        kept_paths(files).contains(path),
{
    let k = choose|k: int|
        0 <= k < files.len() && (#[trigger] files[k]).path@ == path && files[k].state@ == state;
    assert(kept_paths(files)[k] == path);
}

proof fn in_either(a: Seq<Seq<char>>, b: Seq<Seq<char>>, x: Seq<char>)
    ensures
        (a + b).contains(x) <==> a.contains(x) || b.contains(x),
{
    let all = a + b;
    if a.contains(x) {
        let k = choose|k: int| 0 <= k < a.len() && a[k] == x;
        assert(all[k] == x);
    }
    if b.contains(x) {
        let k = choose|k: int| 0 <= k < b.len() && b[k] == x;
        assert(all[a.len() + k] == x);
    }
    if all.contains(x) {
        let k = choose|k: int| 0 <= k < all.len() && all[k] == x;
        if k < a.len() {
            assert(a[k] == x);
        } else {
            assert(b[k - a.len()] == x);
        }
    }
}

/// A state of a worktree does not differ from itself, and two states differ
/// under the same paths whichever of them comes first.
pub proof fn differences_are_mutual(a: Seq<KeptFile>, b: Seq<KeptFile>, path: Seq<char>)
    ensures
        !differ_under(a, a, path),
        differ_under(a, b, path) == differ_under(b, a, path),
{
    if differ_under(a, b, path) {
        let state = choose|state: Seq<char>|
            #![trigger kept_as(a, path, state)]
            kept_as(a, path, state) != kept_as(b, path, state);
        assert(kept_as(b, path, state) != kept_as(a, path, state));
    }
    if differ_under(b, a, path) {
        let state = choose|state: Seq<char>|
            #![trigger kept_as(b, path, state)]
            kept_as(b, path, state) != kept_as(a, path, state);
        assert(kept_as(a, path, state) != kept_as(b, path, state));
    }
}

// ---------------------------------------------------------------------------
// What is read of what Git prints
// ---------------------------------------------------------------------------

/// Byte strings with a zero byte behind each.
pub open spec fn zero_ended(items: Seq<Seq<u8>>) -> Seq<u8>
    decreases items.len(),
{
    if items.len() == 0 {
        Seq::empty()
    } else {
        (zero_ended(items.drop_last()) + items.last()).push(0u8)
    }
}

proof fn bytes_before_a_zero(front: Seq<u8>, item: Seq<u8>)
    requires
        !item.contains(0u8),
        split_at_zeros(front).1.len() == 0,
    ensures
        split_at_zeros(front + item) == (split_at_zeros(front).0, item),
    decreases item.len(),
{
    if item.len() == 0 {
        assert(front + item =~= front);
        assert(split_at_zeros(front).1 =~= item);
    } else {
        let init = item.drop_last();
        assert(!init.contains(0u8)) by {
            if init.contains(0u8) {
                let k = choose|k: int| 0 <= k < init.len() && init[k] == 0u8;
                assert(item[k] == 0u8);
            }
        }
        assert(item[item.len() - 1] != 0u8);
        bytes_before_a_zero(front, init);
        assert((front + item).drop_last() =~= front + init);
        assert((front + item).last() == item.last());
        assert(init.push(item.last()) =~= item);
    }
}

proof fn zero_ended_is_split(items: Seq<Seq<u8>>)
    requires
        forall|i: int|
            0 <= i < items.len() ==> (#[trigger] items[i]).len() > 0 && !items[i].contains(0u8),
    ensures
        split_at_zeros(zero_ended(items)) == (items, Seq::<u8>::empty()),
    decreases items.len(),
{
    if items.len() == 0 {
        assert(items =~= Seq::<Seq<u8>>::empty());
    } else {
        let init = items.drop_last();
        assert forall|i: int| 0 <= i < init.len() implies (#[trigger] init[i]).len() > 0
            && !init[i].contains(0u8) by {
            assert(init[i] == items[i]);
        }
        zero_ended_is_split(init);
        assert(items[items.len() - 1].len() > 0 && !items[items.len() - 1].contains(0u8));
        bytes_before_a_zero(zero_ended(init), items.last());
        let body = zero_ended(init) + items.last();
        assert(body.push(0u8).drop_last() =~= body);
        assert(init.push(items.last()) =~= items);
    }
}

/// Paths that are printed with a zero byte behind each are all read back, in
/// their order.
pub proof fn printed_paths_are_read_back(items: Seq<Seq<u8>>)
    requires
        forall|i: int|
            0 <= i < items.len() ==> (#[trigger] items[i]).len() > 0 && !items[i].contains(0u8),
    ensures
        null_items(zero_ended(items)) == items,
{
    zero_ended_is_split(items);
}

/// A base is handed to Git exactly where it holds something, does not look like
/// an option and holds no white space; a run is read exactly where it ended
/// with code zero.
pub proof fn only_plain_bases_are_handed_over(base: Seq<char>, output: GitOutput)
    ensures
        base_refusal(base) is None <==> base.len() > 0 && base[0] != '-' && forall|i: int|
            0 <= i < base.len() ==> !text::white_space(#[trigger] base[i]),
        run_refusal(output) is None <==> output.code == Some(0i32),
{
    reveal_strlit("-");
    if base.len() > 0 {
        if base[0] == '-' {
            assert(base.subrange(0, 1) =~= "-"@);
        }
        if text::begins(base, "-"@) {
            assert(base.subrange(0, 1)[0] == "-"@[0]);
        }
    }
}

/// The hunks of a diff are those of all lines that are the header of one, in
/// their order.
pub proof fn all_hunk_headers_are_read(lines: Seq<Seq<char>>)
    ensures
        hunks_in(lines) == lines.filter_map(|line: Seq<char>| hunk_of(line)),
    decreases lines.len(),
{
    if lines.len() > 0 {
        all_hunk_headers_are_read(lines.drop_last());
        assert(hunks_in(lines) =~= lines.filter_map(|line: Seq<char>| hunk_of(line)));
    } else {
        assert(hunks_in(lines) =~= lines.filter_map(|line: Seq<char>| hunk_of(line)));
    }
}

proof fn first_place_is_first(s: Seq<char>, c: char, i: int)
    requires
        0 <= i < s.len(),
        s[i] == c,
        forall|k: int| 0 <= k < i ==> s[k] != c,
    ensures
        first_place(s, c) == Some(i),
    decreases s.len(),
{
    let init = s.drop_last();
    if i < init.len() {
        assert(init[i] == s[i]);
        first_place_is_first(init, c, i);
    } else {
        no_place(init, c);
    }
}

proof fn no_place(s: Seq<char>, c: char)
    requires
        forall|k: int| 0 <= k < s.len() ==> s[k] != c,
    ensures
        first_place(s, c) is None,
    decreases s.len(),
{
    if s.len() > 0 {
        assert(s[s.len() - 1] != c);
        no_place(s.drop_last(), c);
    }
}

/// A range that a diff writes is read back: its start, and its lines from the
/// start on, as many as it says; none where it says none, and one where it says
/// nothing.
pub proof fn ranges_are_read_back(marker: char, start: nat, count: nat)
    requires
        start + count <= usize::MAX,
        start < usize::MAX,
    ensures
        count > 0 ==> range_of(
            seq![marker] + text::decimal(start) + seq![','] + text::decimal(count),
            marker,
        ) == Some(
            (
                start as usize,
                Some(
                    LineRange {
                        start_line: start as usize,
                        end_line: (start + count - 1) as usize,
                    },
                ),
            ),
        ),
        range_of(seq![marker] + text::decimal(start) + seq![','] + text::decimal(0), marker)
            == Some((start as usize, None::<LineRange>)),
        range_of(seq![marker] + text::decimal(start), marker) == Some(
            (
                start as usize,
                Some(LineRange { start_line: start as usize, end_line: start as usize }),
            ),
        ),
{
    counted_range(marker, start, count);
    counted_range(marker, start, 0);
    let digits = text::decimal(start);
    let value = seq![marker] + digits;
    assert(value.skip(1) =~= digits);
    text::numbers_are_read_back(start, usize::MAX as nat);
    decimals_hold_no_comma(start);
    no_place(digits, ',');
}

proof fn decimals_hold_no_comma(n: nat)
    ensures
        forall|k: int|
            0 <= k < text::decimal(n).len() ==> #[trigger] text::decimal(n)[k] != ','
                && text::decimal(n)[k] != ' ',
        text::decimal(n).len() > 0,
    decreases n,
{
    assert(forall|d: nat| d < 10 ==> #[trigger] text::digit(d) != ',' && text::digit(d) != ' ');
    if n >= 10 {
        decimals_hold_no_comma(n / 10);
        let s = text::decimal(n);
        assert forall|k: int| 0 <= k < s.len() implies #[trigger] s[k] != ',' && s[k] != ' ' by {
            if k < s.len() - 1 {
                assert(s[k] == text::decimal(n / 10)[k]);
            }
        }
    }
}

proof fn counted_range(marker: char, start: nat, count: nat)
    requires
        start + count <= usize::MAX,
    ensures
        range_of(
            seq![marker] + text::decimal(start) + seq![','] + text::decimal(count),
            marker,
        ) == if count == 0 {
            Some((start as usize, None::<LineRange>))
        } else {
            Some(
                (
                    start as usize,
                    Some(
                        LineRange {
                            start_line: start as usize,
                            end_line: (start + count - 1) as usize,
                        },
                    ),
                ),
            )
        },
{
    let a = text::decimal(start);
    let b = text::decimal(count);
    let value = seq![marker] + a + seq![','] + b;
    let rest = value.skip(1);
    assert(rest =~= a + seq![','] + b);
    decimals_hold_no_comma(start);
    assert forall|k: int| 0 <= k < a.len() implies rest[k] != ',' by {
        assert(rest[k] == a[k]);
    }
    first_place_is_first(rest, ',', a.len() as int);
    assert(rest.take(a.len() as int) =~= a);
    assert(rest.skip(a.len() as int + 1) =~= b);
    text::numbers_are_read_back(start, usize::MAX as nat);
    text::numbers_are_read_back(count, usize::MAX as nat);
}

/// The states of two files that are kept are the same exactly where the same
/// kind of thing stands under both and holds the same bytes, or where these
/// collide.
pub proof fn kept_states_tell_contents(a: Vec<u8>, b: Vec<u8>)
    ensures
        kept_state(WorktreeItem::File(a)) == kept_state(WorktreeItem::File(b)) <==> a@ == b@
            || digest::collide(a@, b@),
        kept_state(WorktreeItem::Link(a)) == kept_state(WorktreeItem::Link(b)) <==> a@ == b@
            || digest::collide(a@, b@),
        kept_state(WorktreeItem::File(a)) != kept_state(WorktreeItem::Link(b)),
        kept_state(WorktreeItem::File(a)) != kept_state(WorktreeItem::Missing),
        kept_state(WorktreeItem::File(a)) != kept_state(WorktreeItem::Other),
        kept_state(WorktreeItem::Missing) != kept_state(WorktreeItem::Other),
{
    reveal_strlit("file:");
    reveal_strlit("link:");
    reveal_strlit("missing");
    reveal_strlit("other");
    assert("file:"@[0] == 'f' && "link:"@[0] == 'l' && "missing"@[0] == 'm' && "other"@[0] == 'o');
    let x = digest::sha256_hex(a@);
    let y = digest::sha256_hex(b@);
    digest::fingerprints_tell_bytes(a@, b@);
    assert(("file:"@ + x).skip(5) =~= x);
    assert(("file:"@ + y).skip(5) =~= y);
    assert(("link:"@ + x).skip(5) =~= x);
    assert(("link:"@ + y).skip(5) =~= y);
    assert(("file:"@ + x)[0] == 'f');
    assert(("link:"@ + y)[0] == 'l');
}

} // verus!
