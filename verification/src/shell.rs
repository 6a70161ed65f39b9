//! Shell commands, read as far as it takes to see what they delete.
use crate::order;
use crate::text;
use vstd::prelude::*;

verus! {

broadcast use {vstd::string::group_string_axioms, vstd::seq::group_seq_axioms};

/// How far a command is read: the words so far, the word that is being read,
/// and the quotation mark that is open.
pub struct Reading {
    pub tokens: Seq<Seq<char>>,
    pub current: Seq<char>,
    pub quote: Option<char>,
}

/// The words with one more, where it holds anything.
pub open spec fn with_word(tokens: Seq<Seq<char>>, word: Seq<char>) -> Seq<Seq<char>> {
    if word.len() == 0 {
        tokens
    } else {
        tokens.push(word)
    }
}

/// The words with a separator behind them, where none stands there yet.
pub open spec fn with_separator(tokens: Seq<Seq<char>>) -> Seq<Seq<char>> {
    if tokens.len() > 0 && tokens.last() == ";"@ {
        tokens
    } else {
        tokens.push(";"@)
    }
}

/// What one more character comes to: within quotation marks it is taken as it
/// is, white space ends a word, and `;`, `|` and `&` end a command.
pub open spec fn read_char(at: Reading, c: char) -> Reading {
    if at.quote is Some {
        if c == at.quote->0 {
            Reading { quote: None, ..at }
        } else {
            Reading { current: at.current.push(c), ..at }
        }
    } else if c == '\'' || c == '"' {
        Reading { quote: Some(c), ..at }
    } else if text::white_space(c) {
        Reading {
            tokens: with_word(at.tokens, at.current),
            current: Seq::empty(),
            quote: None,
        }
    } else if c == ';' || c == '|' || c == '&' {
        Reading {
            tokens: with_separator(with_word(at.tokens, at.current)),
            current: Seq::empty(),
            quote: None,
        }
    } else {
        Reading { current: at.current.push(c), ..at }
    }
}

/// How far the characters of a command are read.
pub open spec fn reading_of(command: Seq<char>) -> Reading
    decreases command.len(),
{
    if command.len() == 0 {
        Reading { tokens: Seq::empty(), current: Seq::empty(), quote: None }
    } else {
        read_char(reading_of(command.drop_last()), command.last())
    }
}

/// The words of a command, with `;` between the commands in it.
pub open spec fn tokens_of(command: Seq<char>) -> Seq<Seq<char>> {
    let end = reading_of(command);
    with_word(end.tokens, end.current)
}

fn push_word(tokens: &mut Vec<String>, current: &Vec<char>)
    ensures
        text::views(final(tokens)@) == with_word(text::views(old(tokens)@), current@),
{
    if current.len() > 0 {
        let word = text::text_of(current.as_slice());
        tokens.push(word);
        assert(text::views(tokens@) =~= text::views(old(tokens)@).push(current@));
    }
}

fn push_separator(tokens: &mut Vec<String>)
    ensures
        text::views(final(tokens)@) == with_separator(text::views(old(tokens)@)),
{
    let n: usize = tokens.len();
    if n > 0 {
        assert(text::views(tokens@).last() == tokens@[n - 1]@);
        if text::same(tokens[n - 1].as_str(), ";") {
            return ;
        }
    }
    tokens.push(";".to_owned());
    assert(text::views(tokens@) =~= text::views(old(tokens)@).push(";"@));
}

/// The words of a command, with `;` between the commands in it.
pub fn shell_like_tokens(command: &str) -> (r: Vec<String>)
    ensures
        text::views(r@) == tokens_of(command@),
{
    let chars = text::chars_of(command);
    let mut tokens: Vec<String> = Vec::new();
    let mut current: Vec<char> = Vec::new();
    let mut quote: Option<char> = None;
    let mut i: usize = 0;
    assert(command@.take(0) =~= Seq::<char>::empty());
    assert(text::views(tokens@) =~= Seq::<Seq<char>>::empty());
    while i < chars.len()
        invariant
            i <= chars@.len(),
            chars@ == command@,
            reading_of(command@.take(i as int)) == (Reading {
                tokens: text::views(tokens@),
                current: current@,
                quote,
            }),
        decreases chars@.len() - i,
    {
        let c = chars[i];
        assert(command@.take(i + 1).drop_last() =~= command@.take(i as int));
        match quote {
            Some(mark) => {
                if c == mark {
                    quote = None;
                } else {
                    current.push(c);
                }
            },
            None => {
                if c == '\'' || c == '"' {
                    quote = Some(c);
                } else if text::is_white_space(c) {
                    push_word(&mut tokens, &current);
                    current = Vec::new();
                } else if c == ';' || c == '|' || c == '&' {
                    push_word(&mut tokens, &current);
                    current = Vec::new();
                    push_separator(&mut tokens);
                } else {
                    current.push(c);
                }
            },
        }
        i = i + 1;
    }
    assert(command@.take(command@.len() as int) =~= command@);
    push_word(&mut tokens, &current);
    tokens
}

/// A word that cannot stand for a path as it is.
pub open spec fn unclear_char(c: char) -> bool {
    c == '*' || c == '?' || c == '$' || c == '%' || c == '`' || c == '\n' || c == '\r'
}

/// A word that stands for itself as a path.
pub open spec fn literal_path(word: Seq<char>) -> bool {
    &&& word.len() > 0
    &&& forall|i: int| 0 <= i < word.len() ==> !unclear_char(#[trigger] word[i])
    &&& text::lowered(word) != "--"@
    &&& text::lowered(word) != "true"@
    &&& text::lowered(word) != "false"@
}

/// Whether a word stands for itself as a path.
pub fn literal_command_path(value: &str) -> (r: bool)
    ensures
        r == literal_path(value@),
{
    let chars = text::chars_of(value);
    if chars.len() == 0 {
        return false;
    }
    let mut i: usize = 0;
    while i < chars.len()
        invariant
            i <= chars@.len(),
            chars@ == value@,
            forall|k: int| 0 <= k < i ==> !unclear_char(#[trigger] chars@[k]),
        decreases chars@.len() - i,
    {
        let c = chars[i];
        if c == '*' || c == '?' || c == '$' || c == '%' || c == '`' || c == '\n' || c == '\r' {
            assert(unclear_char(value@[i as int]));
            return false;
        }
        i = i + 1;
    }
    let low = text::to_lower(value);
    !text::same(low.as_str(), "--") && !text::same(low.as_str(), "true") && !text::same(
        low.as_str(),
        "false",
    )
}

/// A command that deletes what is named behind it.
pub open spec fn deletes(word: Seq<char>) -> bool {
    let low = text::lowered(word);
    low == "rm"@ || low == "unlink"@ || low == "del"@ || low == "erase"@ || low == "remove-item"@
}

fn is_deleting(word: &str) -> (r: bool)
    ensures
        r == deletes(word@),
{
    let low = text::to_lower(word);
    text::same(low.as_str(), "rm") || text::same(low.as_str(), "unlink") || text::same(
        low.as_str(),
        "del",
    ) || text::same(low.as_str(), "erase") || text::same(low.as_str(), "remove-item")
}

/// The paths that words name as deleted, from a word on; `behind` tells whether
/// a deleting command stands before it.
pub open spec fn deletions(tokens: Seq<Seq<char>>, i: nat, behind: bool) -> Seq<Seq<char>>
    decreases tokens.len() - i,
{
    if i >= tokens.len() {
        Seq::empty()
    } else {
        let word = tokens[i as int];
        if behind {
            if word == ";"@ {
                deletions(tokens, i + 1, false)
            } else if !text::begins(word, "-"@) && literal_path(word) {
                seq![word] + deletions(tokens, i + 1, true)
            } else {
                deletions(tokens, i + 1, true)
            }
        } else if deletes(word) {
            deletions(tokens, i + 1, true)
        } else if text::lowered(word) == "git"@ && i + 1 < tokens.len() && text::lowered(
            tokens[i as int + 1],
        ) == text::lowered("rm"@) {
            deletions(tokens, i + 2, true)
        } else {
            deletions(tokens, i + 1, false)
        }
    }
}

/// The paths that a command names as deleted, each once and in order.
pub open spec fn deleted_paths(command: Seq<char>) -> Seq<Seq<char>> {
    order::sorted_set_of(deletions(tokens_of(command), 0, false))
}

/// The paths that a command names as deleted, each once and in order.
pub fn extract_destructive_command_paths(command: &str) -> (r: Vec<String>)
    ensures
        text::views(r@) == deleted_paths(command@),
{
    let tokens = shell_like_tokens(command);
    let ghost all = text::views(tokens@);
    let mut paths: Vec<String> = Vec::new();
    let mut behind = false;
    let mut i: usize = 0;
    let n: usize = tokens.len();
    assert(text::views(paths@) + deletions(all, 0, false) =~= deletions(all, 0, false));
    while i < n
        invariant
            i <= n == tokens@.len(),
            all == text::views(tokens@),
            deletions(all, 0, false) == text::views(paths@) + deletions(all, i as nat, behind),
        decreases n - i,
    {
        assert(all[i as int] == tokens@[i as int]@);
        if behind {
            if text::same(tokens[i].as_str(), ";") {
                behind = false;
            } else if !text::starts_with(tokens[i].as_str(), "-") && literal_command_path(
                tokens[i].as_str(),
            ) {
                let ghost before = text::views(paths@);
                let ghost rest = deletions(all, (i + 1) as nat, true);
                paths.push(tokens[i].clone());
                assert(text::views(paths@) =~= before.push(all[i as int]));
                assert(before + (seq![all[i as int]] + rest) =~= text::views(paths@) + rest);
            }
            i = i + 1;
        } else if is_deleting(tokens[i].as_str()) {
            behind = true;
            i = i + 1;
        } else {
            let word = text::to_lower(tokens[i].as_str());
            if text::same(word.as_str(), "git") && i + 1 < n && text::same_ignoring_case(
                tokens[i + 1].as_str(),
                "rm",
            ) {
                assert(all[i + 1] == tokens@[i + 1]@);
                behind = true;
                i = i + 2;
            } else {
                if i + 1 < n {
                    assert(all[i + 1] == tokens@[i + 1]@);
                }
                i = i + 1;
            }
        }
    }
    assert(text::views(paths@) + Seq::<Seq<char>>::empty() =~= text::views(paths@));
    order::sorted_set(&paths)
}

proof fn deletions_are_words(tokens: Seq<Seq<char>>, i: nat, behind: bool, path: Seq<char>)
    requires
        deletions(tokens, i, behind).contains(path),
    ensures
        tokens.contains(path),
        literal_path(path),
        !text::begins(path, "-"@),
    decreases tokens.len() - i,
{
    if i < tokens.len() {
        let word = tokens[i as int];
        if behind {
            if word == ";"@ {
                deletions_are_words(tokens, i + 1, false, path);
            } else {
                let rest = deletions(tokens, i + 1, true);
                if rest.contains(path) {
                    deletions_are_words(tokens, i + 1, true, path);
                } else {
                    let all = deletions(tokens, i, behind);
                    let k = choose|k: int| 0 <= k < all.len() && all[k] == path;
                    if k > 0 {
                        assert(rest[k - 1] == path);
                    }
                    assert(path == word);
                }
            }
        } else if deletes(word) {
            deletions_are_words(tokens, i + 1, true, path);
        } else if text::lowered(word) == "git"@ && i + 1 < tokens.len() && text::lowered(
            tokens[i as int + 1],
        ) == text::lowered("rm"@) {
            deletions_are_words(tokens, i + 2, true, path);
        } else {
            deletions_are_words(tokens, i + 1, false, path);
        }
    }
}

/// Nothing is taken for deleted that the command does not name word for word:
/// no option, and no pattern that the shell would expand.
pub proof fn deleted_paths_are_named(command: Seq<char>, path: Seq<char>)
    requires
        deleted_paths(command).contains(path),
    ensures
        tokens_of(command).contains(path),
        literal_path(path),
        !text::begins(path, "-"@),
{
    let all = deletions(tokens_of(command), 0, false);
    order::sorted_set_keeps_members(all);
    deletions_are_words(tokens_of(command), 0, false, path);
}

// ---------------------------------------------------------------------------
// What deleting commands name
// ---------------------------------------------------------------------------

/// A word behind which paths are deleted: a deleting command, or the second
/// word of `git rm`.
pub open spec fn starts_deleting(words: Seq<Seq<char>>, i: int) -> bool {
    ||| text::lowered(words[i]) == "rm"@
    ||| text::lowered(words[i]) == "unlink"@
    ||| text::lowered(words[i]) == "del"@
    ||| text::lowered(words[i]) == "erase"@
    ||| text::lowered(words[i]) == "remove-item"@
}

/// No command ends between two words.
pub open spec fn one_command(words: Seq<Seq<char>>, i: int, j: int) -> bool {
    forall|k: int| i < k <= j ==> #[trigger] words[k] != ";"@
}

/// A word stands behind a deleting one within one command; `behind` tells that
/// one stands before word `at` of the same command.
spec fn still_behind(words: Seq<Seq<char>>, at: int, behind: bool, j: int) -> bool {
    ||| behind && forall|k: int| at <= k <= j ==> #[trigger] words[k] != ";"@
    ||| exists|i: int|
        at <= i < j && #[trigger] starts_deleting(words, i) && one_command(words, i, j)
}

proof fn lowered_rm()
    ensures
        text::lowered("rm"@) == "rm"@,
        "rm"@ != ";"@,
{
    reveal_strlit("rm");
    reveal_strlit(";");
    assert(text::lowered("rm"@) =~= "rm"@);
    assert("rm"@.len() == 2 && ";"@.len() == 1);
}

proof fn deleting_words_are_no_separators(words: Seq<Seq<char>>, i: int)
    requires
        starts_deleting(words, i) || text::lowered(words[i]) == "git"@,
    ensures
        words[i] != ";"@,
{
    reveal_strlit("rm");
    reveal_strlit("unlink");
    reveal_strlit("del");
    reveal_strlit("erase");
    reveal_strlit("remove-item");
    reveal_strlit("git");
    reveal_strlit(";");
    assert(text::lowered(";"@).len() == 1);
}

proof fn step_behind(words: Seq<Seq<char>>, at: int, behind: bool, after: bool, j: int)
    requires
        0 <= at < j < words.len(),
        after == (if behind {
            words[at] != ";"@
        } else {
            starts_deleting(words, at)
        }),
    ensures
        still_behind(words, at, behind, j) == still_behind(words, at + 1, after, j),
{
    if still_behind(words, at, behind, j) {
        if behind && (forall|k: int| at <= k <= j ==> #[trigger] words[k] != ";"@) {
            assert(words[at] != ";"@);
        } else {
            let i = choose|i: int|
                at <= i < j && #[trigger] starts_deleting(words, i) && one_command(words, i, j);
            if i == at {
                deleting_words_are_no_separators(words, at);
                assert(after);
            } else {
                assert(starts_deleting(words, i));
            }
        }
    }
    if still_behind(words, at + 1, after, j) {
        if after && (forall|k: int| at + 1 <= k <= j ==> #[trigger] words[k] != ";"@) {
            if behind {
                assert forall|k: int| at <= k <= j implies #[trigger] words[k] != ";"@ by {}
            } else {
                assert(starts_deleting(words, at) && one_command(words, at, j));
            }
        } else {
            let i = choose|i: int|
                at + 1 <= i < j && #[trigger] starts_deleting(words, i) && one_command(
                    words,
                    i,
                    j,
                );
            assert(starts_deleting(words, i));
        }
    }
}

proof fn deletions_from(words: Seq<Seq<char>>, at: nat, behind: bool, path: Seq<char>)
    requires
        at <= words.len(),
    ensures
        deletions(words, at, behind).contains(path) <==> exists|j: int|
            at <= j < words.len() && #[trigger] words[j] == path && literal_path(path) && (
            path.len() == 0 || path[0] != '-') && still_behind(words, at as int, behind, j),
    decreases words.len() - at,
{
    reveal_strlit("-");
    let all = deletions(words, at, behind);
    let named = |from: int, b: bool, j: int|
        from <= j < words.len() && words[j] == path && literal_path(path) && (path.len() == 0
            || path[0] != '-') && still_behind(words, from, b, j);
    if at < words.len() {
        let word = words[at as int];
        let here = at as int;
        assert(text::begins(word, "-"@) <==> word.len() > 0 && word[0] == '-') by {
            if word.len() > 0 && word[0] == '-' {
                assert(word.take(1) =~= "-"@);
            }
            if text::begins(word, "-"@) {
                assert(word.take(1)[0] == "-"@[0]);
            }
        }
        let git = !behind && !deletes(word) && text::lowered(word) == "git"@ && here + 1
            < words.len() && text::lowered(words[here + 1]) == text::lowered("rm"@);
        let after = if behind {
            word != ";"@
        } else {
            starts_deleting(words, here)
        };
        assert(deletes(word) == starts_deleting(words, here));
        if git {
            lowered_rm();
            deletions_from(words, at + 2, true, path);
            assert(starts_deleting(words, here + 1));
            deleting_words_are_no_separators(words, here + 1);
        } else {
            deletions_from(words, at + 1, after, path);
        }
        let next = if git {
            here + 2
        } else {
            here + 1
        };
        let b = if git {
            true
        } else {
            after
        };
        let rest = deletions(words, next as nat, b);
        let takes = behind && word != ";"@ && !text::begins(word, "-"@) && literal_path(word);
        assert(all == if takes {
            seq![word] + rest
        } else {
            rest
        });
        assert(all.contains(path) <==> rest.contains(path) || takes && path == word) by {
            if takes {
                if rest.contains(path) {
                    let k = choose|k: int| 0 <= k < rest.len() && rest[k] == path;
                    assert(all[k + 1] == path);
                }
                assert(all[0] == word);
                if all.contains(path) {
                    let k = choose|k: int| 0 <= k < all.len() && all[k] == path;
                    if k > 0 {
                        assert(rest[k - 1] == path);
                    }
                }
            }
        }
        // A word further on.
        assert forall|j: int| next <= j < words.len() implies #[trigger] still_behind(
            words,
            here,
            behind,
            j,
        ) == still_behind(words, next, b, j) by {
            step_behind(words, here, behind, after, j);
            if git {
                step_behind(words, here + 1, after, true, j);
            }
        }
        if rest.contains(path) {
            let j = choose|j: int|
                next <= j < words.len() && #[trigger] words[j] == path && literal_path(path) && (
                path.len() == 0 || path[0] != '-') && still_behind(words, next, b, j);
            assert(still_behind(words, here, behind, j));
            assert(words[j] == path);
        }
        if takes && path == word {
            assert(still_behind(words, here, behind, here)) by {
                assert forall|k: int| here <= k <= here implies #[trigger] words[k] != ";"@ by {}
            }
            assert(words[here] == path);
        }
        if exists|j: int|
            here <= j < words.len() && #[trigger] words[j] == path && literal_path(path) && (
            path.len() == 0 || path[0] != '-') && still_behind(words, here, behind, j) {
            let j = choose|j: int|
                here <= j < words.len() && #[trigger] words[j] == path && literal_path(path) && (
                path.len() == 0 || path[0] != '-') && still_behind(words, here, behind, j);
            if j >= next {
                assert(still_behind(words, next, b, j));
                assert(words[j] == path);
            } else if j == here {
                assert(behind);
                assert(takes);
            } else {
                // The second word of `git rm` stands behind nothing.
                assert(git && j == here + 1);
                let i = choose|i: int|
                    here <= i < j && #[trigger] starts_deleting(words, i) && one_command(
                        words,
                        i,
                        j,
                    );
                assert(i == here);
                assert(false);
            }
        }
    }
}

/// A path is taken for deleted exactly where it is a word of the command that
/// stands behind a deleting word within one command, however many words stand
/// between them, is no option, and is a path as it stands.  A deleting word is
/// `rm`, also behind `git`, `unlink`, `del`, `erase` or `remove-item`, whatever
/// its case.
pub proof fn deleted_paths_stand_behind_deleting_words(command: Seq<char>, path: Seq<char>)
    ensures
        deleted_paths(command).contains(path) <==> exists|i: int, j: int|
            #![trigger tokens_of(command)[i], tokens_of(command)[j]]
            {
                let low = text::lowered(tokens_of(command)[i]);
                &&& 0 <= i < j < tokens_of(command).len()
                &&& low == "rm"@ || low == "unlink"@ || low == "del"@ || low == "erase"@ || low
                    == "remove-item"@
                &&& forall|k: int| i < k <= j ==> #[trigger] tokens_of(command)[k] != ";"@
                &&& tokens_of(command)[j] == path
                &&& path.len() == 0 || path[0] != '-'
                &&& literal_path(path)
            },
        order::ascending(deleted_paths(command)),
{
    let words = tokens_of(command);
    let all = deletions(words, 0, false);
    order::sorted_set_keeps_members(all);
    assert(deleted_paths(command).contains(path) <==> all.contains(path));
    deletions_from(words, 0, false, path);
    if all.contains(path) {
        let j = choose|j: int|
            0 <= j < words.len() && #[trigger] words[j] == path && literal_path(path) && (
            path.len() == 0 || path[0] != '-') && still_behind(words, 0, false, j);
        let i = choose|i: int|
            0 <= i < j && #[trigger] starts_deleting(words, i) && one_command(words, i, j);
        assert(words[i] == tokens_of(command)[i] && words[j] == tokens_of(command)[j]);
    }
    if exists|i: int, j: int|
        #![trigger tokens_of(command)[i], tokens_of(command)[j]]
        {
            let low = text::lowered(tokens_of(command)[i]);
            &&& 0 <= i < j < tokens_of(command).len()
            &&& low == "rm"@ || low == "unlink"@ || low == "del"@ || low == "erase"@ || low
                == "remove-item"@
            &&& forall|k: int| i < k <= j ==> #[trigger] tokens_of(command)[k] != ";"@
            &&& tokens_of(command)[j] == path
            &&& path.len() == 0 || path[0] != '-'
            &&& literal_path(path)
        } {
        let (i, j) = choose|i: int, j: int|
            #![trigger tokens_of(command)[i], tokens_of(command)[j]]
            {
                let low = text::lowered(tokens_of(command)[i]);
                &&& 0 <= i < j < tokens_of(command).len()
                &&& low == "rm"@ || low == "unlink"@ || low == "del"@ || low == "erase"@ || low
                    == "remove-item"@
                &&& forall|k: int| i < k <= j ==> #[trigger] tokens_of(command)[k] != ";"@
                &&& tokens_of(command)[j] == path
                &&& path.len() == 0 || path[0] != '-'
                &&& literal_path(path)
            };
        assert(starts_deleting(words, i) && one_command(words, i, j));
        assert(still_behind(words, 0, false, j));
        assert(words[j] == path);
    }
}

/// A word is a path as it stands exactly where it holds something, holds nothing
/// that a shell would expand and no end of a line, and is none of `--`, `true`
/// and `false`.
pub proof fn paths_are_taken_literally(word: Seq<char>)
    ensures
        literal_path(word) <==> {
            &&& word.len() > 0
            &&& !word.contains('*') && !word.contains('?') && !word.contains('$')
            &&& !word.contains('%') && !word.contains('`')
            &&& !word.contains('\n') && !word.contains('\r')
            &&& text::lowered(word) != "--"@ && text::lowered(word) != "true"@ && text::lowered(
                word,
            ) != "false"@
        },
{
    if !literal_path(word) && word.len() > 0 && text::lowered(word) != "--"@ && text::lowered(word)
        != "true"@ && text::lowered(word) != "false"@ {
        let i = choose|i: int| 0 <= i < word.len() && unclear_char(#[trigger] word[i]);
        assert(word.contains(word[i]));
    }
    if literal_path(word) {
        assert forall|c: char| #[trigger] word.contains(c) implies !unclear_char(c) by {
            let i = choose|i: int| 0 <= i < word.len() && word[i] == c;
            assert(!unclear_char(word[i]));
        }
    }
}

// ---------------------------------------------------------------------------
// How commands are read
// ---------------------------------------------------------------------------

/// A character that neither ends a word or a command nor opens a quotation.
pub open spec fn plain_char(c: char) -> bool {
    !text::white_space(c) && c != '\'' && c != '"' && c != ';' && c != '|' && c != '&'
}

/// Words that hold something and nothing but plain characters.
pub open spec fn plain_words(words: Seq<Seq<char>>) -> bool {
    forall|i: int|
        0 <= i < words.len() ==> (#[trigger] words[i]).len() > 0 && forall|k: int|
            0 <= k < words[i].len() ==> plain_char(#[trigger] words[i][k])
}

proof fn plain_text_is_kept(command: Seq<char>, more: Seq<char>)
    requires
        reading_of(command).quote is None,
        forall|k: int| 0 <= k < more.len() ==> plain_char(#[trigger] more[k]),
    ensures
        reading_of(command + more) == (Reading {
            current: reading_of(command).current + more,
            ..reading_of(command)
        }),
    decreases more.len(),
{
    let at = reading_of(command);
    if more.len() == 0 {
        assert(command + more =~= command);
        assert(at.current + more =~= at.current);
    } else {
        let init = more.drop_last();
        plain_text_is_kept(command, init);
        assert((command + more).drop_last() =~= command + init);
        assert((command + more).last() == more.last());
        assert((at.current + init).push(more.last()) =~= at.current + more);
    }
}

proof fn quoted_text_is_kept(command: Seq<char>, mark: char, more: Seq<char>)
    requires
        reading_of(command).quote == Some(mark),
        !more.contains(mark),
    ensures
        reading_of(command + more) == (Reading {
            current: reading_of(command).current + more,
            ..reading_of(command)
        }),
    decreases more.len(),
{
    let at = reading_of(command);
    if more.len() == 0 {
        assert(command + more =~= command);
        assert(at.current + more =~= at.current);
    } else {
        let init = more.drop_last();
        assert(!init.contains(mark)) by {
            if init.contains(mark) {
                let k = choose|k: int| 0 <= k < init.len() && init[k] == mark;
                assert(more[k] == mark);
            }
        }
        quoted_text_is_kept(command, mark, init);
        assert((command + more).drop_last() =~= command + init);
        assert((command + more).last() == more.last());
        assert(more[more.len() - 1] != mark);
        assert((at.current + init).push(more.last()) =~= at.current + more);
    }
}

proof fn words_are_read(before: Seq<char>, words: Seq<Seq<char>>)
    requires
        reading_of(before).quote is None,
        reading_of(before).current.len() == 0,
        plain_words(words),
    ensures
        ({
            let at = reading_of(before);
            let end = reading_of(before + text::joined(words, " "@));
            &&& end.quote is None
            &&& with_word(end.tokens, end.current) == at.tokens + words
            &&& words.len() > 0 ==> end.current.len() > 0
        }),
    decreases words.len(),
{
    reveal_strlit(" ");
    let at = reading_of(before);
    let text = text::joined(words, " "@);
    if words.len() == 0 {
        assert(before + text =~= before);
        assert(at.tokens + words =~= at.tokens);
    } else {
        let init = words.drop_last();
        let last = words.last();
        assert(plain_words(init)) by {
            assert forall|i: int| 0 <= i < init.len() implies (#[trigger] init[i]).len() > 0
                && forall|k: int| 0 <= k < init[i].len() ==> plain_char(#[trigger] init[i][k]) by {
                assert(init[i] == words[i]);
            }
        }
        assert(words[words.len() - 1] == last);
        if words.len() == 1 {
            plain_text_is_kept(before, last);
            assert(text =~= last);
            assert(at.current + last =~= last);
            assert(at.tokens + words =~= at.tokens.push(last));
        } else {
            words_are_read(before, init);
            let front = before + text::joined(init, " "@);
            let spaced = front.push(' ');
            assert(spaced.drop_last() =~= front);
            assert(text::white_space(' '));
            plain_text_is_kept(spaced, last);
            assert(before + text =~= spaced + last);
            assert(reading_of(spaced).current + last =~= last);
            assert(at.tokens + words =~= (at.tokens + init).push(last));
        }
    }
}

/// Plain words with a blank between them are read back as they are.
pub proof fn plain_words_are_read_back(words: Seq<Seq<char>>)
    requires
        plain_words(words),
    ensures
        tokens_of(text::joined(words, " "@)) == words,
{
    let none = Seq::<char>::empty();
    words_are_read(none, words);
    assert(none + text::joined(words, " "@) =~= text::joined(words, " "@));
    assert(reading_of(none).tokens + words =~= words);
}

proof fn separators_are_read(before: Seq<char>, signs: Seq<char>)
    requires
        reading_of(before).quote is None,
        with_word(reading_of(before).tokens, reading_of(before).current).len() == 0 || with_word(
            reading_of(before).tokens,
            reading_of(before).current,
        ).last() != ";"@,
        signs.len() > 0,
        forall|k: int|
            0 <= k < signs.len() ==> #[trigger] signs[k] == ';' || signs[k] == '|' || signs[k]
                == '&',
    ensures
        reading_of(before + signs) == (Reading {
            tokens: with_word(reading_of(before).tokens, reading_of(before).current).push(";"@),
            current: Seq::empty(),
            quote: None,
        }),
    decreases signs.len(),
{
    let init = signs.drop_last();
    let all = before + signs;
    assert(all.drop_last() =~= before + init);
    assert(all.last() == signs[signs.len() - 1]);
    assert(!text::white_space(';') && !text::white_space('|') && !text::white_space('&'));
    if init.len() == 0 {
        assert(before + init =~= before);
    } else {
        separators_are_read(before, init);
    }
}

/// `;`, `|` and `&`, also several of them in a row, part two commands: the words
/// of both are read, with one `;` between them.
pub proof fn commands_are_parted(a: Seq<Seq<char>>, signs: Seq<char>, b: Seq<Seq<char>>)
    requires
        plain_words(a),
        plain_words(b),
        signs.len() > 0,
        forall|k: int|
            0 <= k < signs.len() ==> #[trigger] signs[k] == ';' || signs[k] == '|' || signs[k]
                == '&',
    ensures
        tokens_of(text::joined(a, " "@) + signs + text::joined(b, " "@)) == a + seq![";"@] + b,
{
    reveal_strlit(";");
    let none = Seq::<char>::empty();
    let front = text::joined(a, " "@);
    words_are_read(none, a);
    assert(none + front =~= front);
    assert(reading_of(none).tokens + a =~= a);
    if a.len() > 0 {
        let last = a[a.len() - 1];
        assert(plain_char(last[0]));
        assert(last != ";"@) by {
            assert(";"@[0] == ';');
        }
    }
    separators_are_read(front, signs);
    words_are_read(front + signs, b);
    assert(a.push(";"@) + b =~= a + seq![";"@] + b);
}

/// What stands within quotation marks is one word, whatever it holds, and a
/// quotation that is never closed runs to the end.
pub proof fn quotations_are_one_word(words: Seq<Seq<char>>, mark: char, quoted: Seq<char>)
    requires
        plain_words(words),
        mark == '\'' || mark == '"',
        quoted.len() > 0,
        !quoted.contains(mark),
    ensures
        tokens_of((text::joined(words, " "@) + " "@).push(mark) + quoted) == words.push(quoted),
        tokens_of(((text::joined(words, " "@) + " "@).push(mark) + quoted).push(mark))
            == words.push(quoted),
{
    reveal_strlit(" ");
    let none = Seq::<char>::empty();
    let front = text::joined(words, " "@);
    words_are_read(none, words);
    assert(none + front =~= front);
    assert(reading_of(none).tokens + words =~= words);
    let spaced = front + " "@;
    assert(text::white_space(' '));
    assert(spaced.drop_last() =~= front);
    assert(spaced.last() == ' ');
    assert(reading_of(spaced) == read_char(reading_of(front), ' '));
    assert(!text::white_space(mark));
    let opened = spaced.push(mark);
    assert(opened.drop_last() =~= spaced);
    quoted_text_is_kept(opened, mark, quoted);
    assert(reading_of(opened).current + quoted =~= quoted);
    let closed = (opened + quoted).push(mark);
    assert(closed.drop_last() =~= opened + quoted);
}

/// Everything that is named behind a deleting word of a command of plain words
/// is deleted, but for options and for what is no path as it stands.
pub proof fn all_named_files_are_deleted(words: Seq<Seq<char>>, path: Seq<char>)
    requires
        plain_words(words),
        words.len() > 0,
        text::lowered(words[0]) == "rm"@ || text::lowered(words[0]) == "unlink"@ || text::lowered(
            words[0],
        ) == "del"@ || text::lowered(words[0]) == "erase"@ || text::lowered(words[0])
            == "remove-item"@,
    ensures
        deleted_paths(text::joined(words, " "@)).contains(path) <==> words.skip(1).contains(path)
            && path[0] != '-' && literal_path(path),
{
    reveal_strlit(";");
    let command = text::joined(words, " "@);
    plain_words_are_read_back(words);
    deleted_paths_stand_behind_deleting_words(command, path);
    assert forall|k: int| 0 <= k < words.len() implies #[trigger] words[k] != ";"@ by {
        assert(plain_char(words[k][0]));
        assert(";"@[0] == ';');
    }
    if words.skip(1).contains(path) {
        let j = choose|j: int| 0 <= j < words.skip(1).len() && words.skip(1)[j] == path;
        assert(tokens_of(command)[j + 1] == path && tokens_of(command)[0] == words[0]);
    }
    if deleted_paths(command).contains(path) {
        deleted_paths_are_named(command, path);
        let (i, j) = choose|i: int, j: int|
            #![trigger tokens_of(command)[i], tokens_of(command)[j]]
            0 <= i < j < words.len() && tokens_of(command)[j] == path;
        assert(words.skip(1)[j - 1] == path);
    }
}

} // verus!
