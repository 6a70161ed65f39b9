//! Which lines of a file a change touches, and what an index is made of.
use crate::error::{self, AppError, ErrorView};
use crate::git::DiffHunk;
use crate::model::{self, LineRange};
use crate::text;
use vstd::prelude::*;
use vstd::utf8::{decode_utf8, valid_utf8};

verus! {

broadcast use {vstd::string::group_string_axioms, vstd::seq::group_seq_axioms};

/// The last line of a text, which is never before the first.
pub open spec fn last_line(source: Seq<char>) -> nat {
    let n = text::lines_of(source).len();
    if n == 0 {
        1
    } else {
        n
    }
}

/// All lines of a text; there is always one.
pub fn entire_source_range(source: &str) -> (r: Vec<LineRange>)
    ensures
        r@.len() == 1,
        r@[0].start_line == 1,
        r@[0].end_line == last_line(source@),
{
    let chars = text::chars_of(source);
    let lines = text::split_lines(&chars);
    assert(text::char_views(lines@).len() == lines@.len());
    let n: usize = lines.len();
    let mut out: Vec<LineRange> = Vec::new();
    out.push(
        LineRange {
            start_line: 1,
            end_line: if n == 0 {
                1
            } else {
                n
            },
        },
    );
    out
}

/// The lines of the new version that hunks touch.
pub open spec fn new_ranges(hunks: Seq<DiffHunk>) -> Seq<LineRange>
    decreases hunks.len(),
{
    if hunks.len() == 0 {
        Seq::empty()
    } else {
        let before = new_ranges(hunks.drop_last());
        match hunks.last().new {
            Some(range) => before.push(range),
            None => before,
        }
    }
}

/// The lines of the old version that hunks take away without putting anything
/// in their place.
pub open spec fn lost_ranges(hunks: Seq<DiffHunk>) -> Seq<LineRange>
    decreases hunks.len(),
{
    if hunks.len() == 0 {
        Seq::empty()
    } else {
        let before = lost_ranges(hunks.drop_last());
        match (hunks.last().new, hunks.last().old) {
            (None, Some(range)) => before.push(range),
            _ => before,
        }
    }
}

fn collect_new_ranges(hunks: &Vec<DiffHunk>) -> (r: Vec<LineRange>)
    ensures
        r@ == new_ranges(hunks@),
        r@ == hunks@.filter_map(|hunk: DiffHunk| hunk.new),
{
    let mut out: Vec<LineRange> = Vec::new();
    let mut i: usize = 0;
    assert(hunks@.take(0) =~= Seq::<DiffHunk>::empty());
    while i < hunks.len()
        invariant
            i <= hunks@.len(),
            out@ == new_ranges(hunks@.take(i as int)),
        decreases hunks@.len() - i,
    {
        assert(hunks@.take(i + 1).drop_last() =~= hunks@.take(i as int));
        match hunks[i].new {
            Some(range) => {
                out.push(range);
            },
            None => {},
        }
        i = i + 1;
    }
    assert(hunks@.take(hunks@.len() as int) =~= hunks@);
    proof {
        every_gained_range_is_told(hunks@);
    }
    out
}

/// The lines of a file that a change touches: all of them in a file that Git
/// does not know, and otherwise those of the hunks.
pub fn changed_ranges(untracked: bool, source: &Option<String>, hunks: &Vec<DiffHunk>) -> (r: Vec<
    LineRange,
>)
    ensures
        if untracked {
            match *source {
                Some(source) => r@.len() == 1 && r@[0].start_line == 1 && r@[0].end_line
                    == last_line(source@),
                None => r@.len() == 0,
            }
        } else {
            r@ == new_ranges(hunks@) && r@ == hunks@.filter_map(|hunk: DiffHunk| hunk.new)
        },
{
    if untracked {
        return match source {
            Some(source) => entire_source_range(source.as_str()),
            None => Vec::new(),
        };
    }
    collect_new_ranges(hunks)
}

/// The lines of the old version of a file that a change takes away.
pub fn removed_ranges(hunks: &Vec<DiffHunk>) -> (r: Vec<LineRange>)
    ensures
        r@ == lost_ranges(hunks@),
        r@ == hunks@.filter(|hunk: DiffHunk| hunk.new is None).filter_map(
            |hunk: DiffHunk| hunk.old,
        ),
{
    let mut out: Vec<LineRange> = Vec::new();
    let mut i: usize = 0;
    assert(hunks@.take(0) =~= Seq::<DiffHunk>::empty());
    while i < hunks.len()
        invariant
            i <= hunks@.len(),
            out@ == lost_ranges(hunks@.take(i as int)),
        decreases hunks@.len() - i,
    {
        assert(hunks@.take(i + 1).drop_last() =~= hunks@.take(i as int));
        match (hunks[i].new, hunks[i].old) {
            (None, Some(range)) => {
                out.push(range);
            },
            _ => {},
        }
        i = i + 1;
    }
    assert(hunks@.take(hunks@.len() as int) =~= hunks@);
    proof {
        every_lost_range_is_told(hunks@);
    }
    out
}

// ---------------------------------------------------------------------------
// What a change touches
// ---------------------------------------------------------------------------

/// What is declared within some lines of a file, as a JSON array, and whether
/// there is anything wrong with its syntax.
#[derive(Debug, Clone, PartialEq, Eq)]
pub struct SymbolAnalysis {
    pub symbols: String,
    pub has_syntax_errors: bool,
}

/// What is found of a file that a change touches: its language, where that is
/// known, whether Git does not know the file, what it holds now, how it differs
/// from the base, and what is declared in the lines that it gained and lost.
#[derive(Debug, Clone, PartialEq, Eq)]
pub struct ChangedFile {
    pub path: String,
    pub language: Option<String>,
    pub untracked: bool,
    pub source: Option<String>,
    pub hunks: Vec<DiffHunk>,
    pub current: Option<SymbolAnalysis>,
    pub base: Option<SymbolAnalysis>,
}

#[derive(Debug, Clone, PartialEq, Eq)]
pub struct AnalyzedFile {
    pub path: String,
    pub language: String,
    pub has_syntax_errors: bool,
    pub changed_ranges: Vec<LineRange>,
    pub removed_ranges: Vec<LineRange>,
    pub changed_symbols: String,
    pub removed_symbols: String,
}

#[derive(Debug, Clone, PartialEq, Eq)]
pub struct AnalysisReport {
    pub schema_version: u32,
    pub base: String,
    pub files: Vec<AnalyzedFile>,
    pub unsupported_files: Vec<String>,
}

/// The lines of a file that a change touches.
pub open spec fn ranges_of(file: ChangedFile) -> Seq<LineRange> {
    if !file.untracked {
        new_ranges(file.hunks@)
    } else {
        match file.source {
            Some(source) => seq![
                LineRange { start_line: 1, end_line: last_line(source@) as usize },
            ],
            None => Seq::empty(),
        }
    }
}

impl ChangedFile {
    /// A file whose language is not known: nothing else is looked for in it.
    pub fn unsupported(path: &str) -> (r: Self)
        ensures
            r.path@ == path@,
            r.language is None,
            !r.untracked,
            r.source is None,
            r.hunks@.len() == 0,
            r.current is None,
            r.base is None,
    {
        ChangedFile {
            path: path.to_owned(),
            language: None,
            untracked: false,
            source: None,
            hunks: Vec::new(),
            current: None,
            base: None,
        }
    }
}

/// What is declared in the lines that a file gained: nothing where it is gone.
pub open spec fn gained(file: ChangedFile) -> Option<SymbolAnalysis> {
    if file.source is Some {
        file.current
    } else {
        None
    }
}

/// What was declared in the lines that a file lost: nothing where it lost none.
pub open spec fn lost(file: ChangedFile) -> Option<SymbolAnalysis> {
    if lost_ranges(file.hunks@).len() > 0 {
        file.base
    } else {
        None
    }
}

/// What an analysis found declared.
pub open spec fn symbols_of(analysis: Option<SymbolAnalysis>) -> Seq<char> {
    match analysis {
        Some(a) => a.symbols@,
        None => "[]"@,
    }
}

/// An analysis found something wrong.
pub open spec fn broken(analysis: Option<SymbolAnalysis>) -> bool {
    analysis matches Some(a) && a.has_syntax_errors
}

/// What is told of a file is what was found of it.
pub open spec fn tells(told: AnalyzedFile, file: ChangedFile) -> bool {
    &&& told.path@ == file.path@
    &&& file.language matches Some(language) && told.language@ == language@
    &&& told.has_syntax_errors == (broken(gained(file)) || broken(lost(file)))
    &&& told.changed_ranges@ == ranges_of(file)
    &&& told.removed_ranges@ == lost_ranges(file.hunks@)
    &&& told.changed_symbols@ == symbols_of(gained(file))
    &&& told.removed_symbols@ == symbols_of(lost(file))
}

/// The first files whose language is known.
pub open spec fn supported(files: Seq<ChangedFile>, n: nat) -> Seq<ChangedFile>
    decreases n,
{
    if n == 0 {
        Seq::empty()
    } else if files[n - 1].language is Some {
        supported(files, (n - 1) as nat).push(files[n - 1])
    } else {
        supported(files, (n - 1) as nat)
    }
}

/// The paths of the first files whose language is not known.
pub open spec fn unsupported(files: Seq<ChangedFile>, n: nat) -> Seq<Seq<char>>
    decreases n,
{
    if n == 0 {
        Seq::empty()
    } else if files[n - 1].language is Some {
        unsupported(files, (n - 1) as nat)
    } else {
        unsupported(files, (n - 1) as nat).push(files[n - 1].path@)
    }
}

fn analyzed(file: &ChangedFile, language: &str) -> (r: AnalyzedFile)
    requires
        file.language matches Some(l) && l@ == language@,
    ensures
        tells(r, *file),
{
    let changed_ranges = changed_ranges(file.untracked, &file.source, &file.hunks);
    let removed_ranges = removed_ranges(&file.hunks);
    proof {
        if file.untracked && file.source is Some {
            assert(changed_ranges@ =~= ranges_of(*file));
        } else if file.untracked {
            assert(changed_ranges@ =~= Seq::<LineRange>::empty());
        }
    }
    let (changed_symbols, now) = match (&file.source, &file.current) {
        (Some(_), Some(a)) => (a.symbols.clone(), a.has_syntax_errors),
        _ => ("[]".to_owned(), false),
    };
    let (removed_symbols, before) = match &file.base {
        Some(a) => if removed_ranges.len() > 0 {
            (a.symbols.clone(), a.has_syntax_errors)
        } else {
            ("[]".to_owned(), false)
        },
        None => ("[]".to_owned(), false),
    };
    AnalyzedFile {
        path: file.path.clone(),
        language: language.to_owned(),
        has_syntax_errors: now || before,
        changed_ranges,
        removed_ranges,
        changed_symbols,
        removed_symbols,
    }
}

/// What a change touches, given what is found of each of its files.
pub fn evaluate(schema_version: u32, base: &str, files: &Vec<ChangedFile>) -> (r: AnalysisReport)
    ensures
        r.schema_version == schema_version,
        r.base@ == base@,
        r.files@.len() == supported(files@, files@.len()).len(),
        forall|i: int|
            0 <= i < r.files@.len() ==> tells(
                #[trigger] r.files@[i],
                supported(files@, files@.len())[i],
            ),
        text::views(r.unsupported_files@) == unsupported(files@, files@.len()),
{
    let mut told: Vec<AnalyzedFile> = Vec::new();
    let mut strange: Vec<String> = Vec::new();
    let mut i: usize = 0;
    assert(text::views(strange@) =~= unsupported(files@, 0));
    while i < files.len()
        invariant
            i <= files@.len(),
            told@.len() == supported(files@, i as nat).len(),
            forall|k: int|
                0 <= k < told@.len() ==> tells(
                    #[trigger] told@[k],
                    supported(files@, i as nat)[k],
                ),
            text::views(strange@) == unsupported(files@, i as nat),
        decreases files@.len() - i,
    {
        match &files[i].language {
            Some(language) => {
                told.push(analyzed(&files[i], language.as_str()));
            },
            None => {
                let ghost before = text::views(strange@);
                strange.push(files[i].path.clone());
                assert(text::views(strange@) =~= before.push(files@[i as int].path@));
            },
        }
        i = i + 1;
    }
    AnalysisReport {
        schema_version,
        base: base.to_owned(),
        files: told,
        unsupported_files: strange,
    }
}

// ---------------------------------------------------------------------------
// Sources of an index
// ---------------------------------------------------------------------------

/// What is found under a path of the repository: `plain` tells that the path
/// names nothing outside by itself, `found` what it leads to, where it leads
/// anywhere.
#[derive(Debug, Clone, PartialEq, Eq)]
pub struct SourceFacts {
    pub plain: bool,
    pub found: Option<FoundSource>,
}

#[derive(Debug, Clone, PartialEq, Eq)]
pub struct FoundSource {
    pub resolved: String,
    pub inside: bool,
    pub regular: bool,
    pub bytes: Vec<u8>,
}

/// Why a source is not read.
pub open spec fn source_refusal(path: Seq<char>, facts: SourceFacts) -> Option<ErrorView> {
    if !facts.plain {
        Some(ErrorView::RepositoryPathOutsideRoot(path))
    } else {
        match facts.found {
            None => None,
            Some(found) => if !found.inside {
                Some(ErrorView::RepositoryPathOutsideRoot(found.resolved@))
            } else if found.regular && !valid_utf8(found.bytes@) {
                Some(ErrorView::NonUtf8Source(path))
            } else {
                None
            },
        }
    }
}

/// The text of a source: nothing where the path leads nowhere, or to no file.
pub fn read_repository_source(path: &str, facts: &SourceFacts) -> (r: Result<
    Option<String>,
    AppError,
>)
    ensures
        error::follows(r, source_refusal(path@, *facts)),
        r matches Ok(source) ==> model::opt_view(source) == match facts.found {
            Some(found) => if found.regular {
                Some(decode_utf8(found.bytes@))
            } else {
                None
            },
            None => None,
        },
{
    if !facts.plain {
        return Err(AppError::RepositoryPathOutsideRoot(path.to_owned()));
    }
    match &facts.found {
        None => Ok(None),
        Some(found) => {
            if !found.inside {
                return Err(AppError::RepositoryPathOutsideRoot(found.resolved.clone()));
            }
            if !found.regular {
                return Ok(None);
            }
            match text::utf8_text(found.bytes.as_slice()) {
                Some(source) => Ok(Some(source)),
                None => Err(AppError::NonUtf8Source(path.to_owned())),
            }
        },
    }
}

/// The provider of an index.
#[derive(Debug, Clone, PartialEq, Eq)]
pub struct IndexProvider {
    pub id: String,
    pub version: String,
    pub identity_quality: String,
}

/// Two providers are the same.
pub open spec fn same_provider(a: IndexProvider, b: IndexProvider) -> bool {
    a.id@ == b.id@ && a.version@ == b.version@ && a.identity_quality@ == b.identity_quality@
}

/// What an index has come to so far.
#[derive(Debug, Clone, PartialEq, Eq)]
pub struct IndexTally {
    pub indexed_files: u64,
    pub syntax_error_files: Vec<String>,
}

impl IndexTally {
    pub fn new() -> (r: Self)
        ensures
            r.indexed_files == 0,
            text::views(r.syntax_error_files@) == Seq::<Seq<char>>::empty(),
    {
        let r = IndexTally { indexed_files: 0, syntax_error_files: Vec::new() };
        assert(text::views(r.syntax_error_files@) =~= Seq::<Seq<char>>::empty());
        r
    }

    /// Counts a file that was indexed.  One index never mixes providers.
    pub fn count(
        &mut self,
        path: &str,
        provider: &IndexProvider,
        expected: &IndexProvider,
        has_syntax_errors: bool,
    ) -> (r: Result<(), AppError>)
        requires
            old(self).indexed_files < u64::MAX,
        ensures
            error::follows(
                r,
                if same_provider(*provider, *expected) {
                    None
                } else {
                    Some(ErrorView::Outside("单次索引混入了不同 Provider"@))
                },
            ),
            match r {
                Ok(()) => {
                    &&& final(self).indexed_files == old(self).indexed_files + 1
                    &&& text::views(final(self).syntax_error_files@) == (if has_syntax_errors {
                        text::views(old(self).syntax_error_files@).push(path@)
                    } else {
                        text::views(old(self).syntax_error_files@)
                    })
                },
                Err(_) => *final(self) == *old(self),
            },
    {
        if !(text::same(provider.id.as_str(), expected.id.as_str()) && text::same(
            provider.version.as_str(),
            expected.version.as_str(),
        ) && text::same(
            provider.identity_quality.as_str(),
            expected.identity_quality.as_str(),
        )) {
            return Err(AppError::Outside("单次索引混入了不同 Provider".to_owned()));
        }
        if has_syntax_errors {
            let ghost before = text::views(self.syntax_error_files@);
            self.syntax_error_files.push(path.to_owned());
            assert(text::views(self.syntax_error_files@) =~= before.push(path@));
        }
        self.indexed_files = self.indexed_files + 1;
        Ok(())
    }
}

// ---------------------------------------------------------------------------
// Laws
// ---------------------------------------------------------------------------

/// The changed lines of a tracked file are the new range of every hunk that has
/// one, in the order of the hunks: none is lost, added or moved.
pub proof fn every_gained_range_is_told(hunks: Seq<DiffHunk>)
    ensures
        new_ranges(hunks) == hunks.filter_map(|hunk: DiffHunk| hunk.new),
        new_ranges(hunks).len() == hunks.filter(|hunk: DiffHunk| hunk.new is Some).len(),
        forall|i: int|
            0 <= i < hunks.len() && (#[trigger] hunks[i]).new is Some ==> new_ranges(
                hunks,
            ).contains(hunks[i].new->0),
    decreases hunks.len(),
{
    reveal(Seq::filter);
    if hunks.len() > 0 {
        let init = hunks.drop_last();
        every_gained_range_is_told(init);
        let all = new_ranges(hunks);
        let before = new_ranges(init);
        assert(all =~= hunks.filter_map(|hunk: DiffHunk| hunk.new));
        assert forall|i: int| 0 <= i < hunks.len() && (#[trigger] hunks[i]).new is Some implies
            all.contains(hunks[i].new->0) by {
            if i < init.len() {
                assert(init[i] == hunks[i]);
                let k = choose|k: int| 0 <= k < before.len() && before[k] == hunks[i].new->0;
                assert(all[k] == before[k]);
            } else {
                assert(all[before.len() as int] == hunks[i].new->0);
            }
        }
    }
}

/// The removed lines of a file are the old range of every hunk that takes lines
/// away and puts none in their place, in the order of the hunks.
pub proof fn every_lost_range_is_told(hunks: Seq<DiffHunk>)
    ensures
        lost_ranges(hunks) == hunks.filter(|hunk: DiffHunk| hunk.new is None).filter_map(
            |hunk: DiffHunk| hunk.old,
        ),
        forall|i: int|
            0 <= i < hunks.len() && (#[trigger] hunks[i]).new is None && hunks[i].old is Some
                ==> lost_ranges(hunks).contains(hunks[i].old->0),
    decreases hunks.len(),
{
    reveal(Seq::filter);
    if hunks.len() > 0 {
        let init = hunks.drop_last();
        every_lost_range_is_told(init);
        let plain = |hunk: DiffHunk| hunk.new is None;
        let all = lost_ranges(hunks);
        let before = lost_ranges(init);
        if hunks.last().new is None {
            assert(hunks.filter(plain) == init.filter(plain).push(hunks.last()));
            assert(hunks.filter(plain).drop_last() =~= init.filter(plain));
        } else {
            assert(hunks.filter(plain) == init.filter(plain));
        }
        assert(all =~= hunks.filter(plain).filter_map(|hunk: DiffHunk| hunk.old));
        assert forall|i: int|
            0 <= i < hunks.len() && (#[trigger] hunks[i]).new is None && hunks[i].old
                is Some implies all.contains(hunks[i].old->0) by {
            if i < init.len() {
                assert(init[i] == hunks[i]);
                let k = choose|k: int| 0 <= k < before.len() && before[k] == hunks[i].old->0;
                assert(all[k] == before[k]);
            } else {
                assert(all[before.len() as int] == hunks[i].old->0);
            }
        }
    } else {
        assert(hunks.filter(|hunk: DiffHunk| hunk.new is None) =~= hunks);
    }
}

/// Every changed file is either analyzed, where its language is known, or listed
/// as one that is not understood, and none is both or lost.
pub proof fn every_changed_file_is_told(files: Seq<ChangedFile>)
    ensures
        supported(files, files.len()) == files.filter(|file: ChangedFile| file.language is Some),
        unsupported(files, files.len()) == files.filter(
            |file: ChangedFile| file.language is None,
        ).map_values(|file: ChangedFile| file.path@),
        supported(files, files.len()).len() + unsupported(files, files.len()).len() == files.len(),
{
    files_are_parted(files, files.len());
    assert(files.take(files.len() as int) =~= files);
}

proof fn files_are_parted(files: Seq<ChangedFile>, n: nat)
    requires
        n <= files.len(),
    ensures
        supported(files, n) == files.take(n as int).filter(
            |file: ChangedFile| file.language is Some,
        ),
        unsupported(files, n) == files.take(n as int).filter(
            |file: ChangedFile| file.language is None,
        ).map_values(|file: ChangedFile| file.path@),
        supported(files, n).len() + unsupported(files, n).len() == n,
    decreases n,
{
    reveal(Seq::filter);
    let front = files.take(n as int);
    let strange = |file: ChangedFile| file.language is None;
    let named = |file: ChangedFile| file.path@;
    if n > 0 {
        files_are_parted(files, (n - 1) as nat);
        assert(front.drop_last() =~= files.take(n - 1));
        if front.last().language is None {
            assert(front.filter(strange).map_values(named) =~= front.drop_last().filter(
                strange,
            ).map_values(named).push(front.last().path@));
        }
    } else {
        assert(front =~= Seq::<ChangedFile>::empty());
        assert(front.filter(strange).map_values(named) =~= Seq::<Seq<char>>::empty());
    }
}

/// What is told of a file follows from what was found of it.  All lines of a
/// file that Git does not know have changed.  What is declared is told of the
/// file as it is now only where it is still there, and of the base only where
/// lines were taken away without anything in their place; an error in either
/// counts only where that side is told.
pub proof fn told_files_say_what_was_found(told: AnalyzedFile, file: ChangedFile)
    requires
        tells(told, file),
    ensures
        told.path@ == file.path@,
        !file.untracked ==> told.changed_ranges@ == file.hunks@.filter_map(
            |hunk: DiffHunk| hunk.new,
        ),
        file.untracked && file.source is None ==> told.changed_ranges@.len() == 0,
        file.untracked && file.source is Some ==> told.changed_ranges@.len() == 1
            && told.changed_ranges@[0].start_line == 1,
        told.removed_ranges@ == file.hunks@.filter(|hunk: DiffHunk| hunk.new is None).filter_map(
            |hunk: DiffHunk| hunk.old,
        ),
        file.source is Some && file.current is Some ==> told.changed_symbols@
            == file.current->0.symbols@,
        file.source is None || file.current is None ==> told.changed_symbols@ == "[]"@,
        told.removed_ranges@.len() > 0 && file.base is Some ==> told.removed_symbols@
            == file.base->0.symbols@,
        told.removed_ranges@.len() == 0 || file.base is None ==> told.removed_symbols@ == "[]"@,
        told.has_syntax_errors <==> {
            ||| file.source is Some && file.current is Some && file.current->0.has_syntax_errors
            ||| told.removed_ranges@.len() > 0 && file.base is Some
                && file.base->0.has_syntax_errors
        },
{
    every_gained_range_is_told(file.hunks@);
    every_lost_range_is_told(file.hunks@);
}

} // verus!
