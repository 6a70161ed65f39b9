//! Text as a sequence of characters: the operations that rules, paths and
//! messages are made of.
use vstd::prelude::*;
use vstd::utf8::*;

verus! {

broadcast use {vstd::string::group_string_axioms, vstd::seq::group_seq_axioms};

/// Appending one character with `String::push` extends the text by that
/// character.
pub assume_specification[ String::push ](s: &mut String, c: char)
    ensures
        final(s)@ == old(s)@.push(c),
;

// ---------------------------------------------------------------------------
// Conversions
// ---------------------------------------------------------------------------

/// The characters of a text.
pub fn chars_of(s: &str) -> (r: Vec<char>)
    ensures
        r@ == s@,
{
    let mut out: Vec<char> = Vec::new();
    for c in it: s.chars()
        invariant
            out@ == s@.take(it.index()),
            it.seq() == s@,
    {
        out.push(c);
        proof {
            assert(s@.take(it.index() + 1) =~= s@.take(it.index() as int).push(c));
        }
    }
    assert(s@.take(s@.len() as int) =~= s@);
    out
}

/// The text made of the given characters.
pub fn text_of(chars: &[char]) -> (r: String)
    ensures
        r@ == chars@,
{
    let mut out = String::new();
    let mut i: usize = 0;
    while i < chars.len()
        invariant
            i <= chars@.len(),
            out@ == chars@.take(i as int),
        decreases chars@.len() - i,
    {
        out.push(chars[i]);
        proof {
            assert(chars@.take(i + 1) =~= chars@.take(i as int).push(chars@[i as int]));
        }
        i = i + 1;
    }
    assert(chars@.take(chars@.len() as int) =~= chars@);
    out
}

/// Whether two texts are equal.
pub fn same(a: &str, b: &str) -> (r: bool)
    ensures
        r == (a@ == b@),
{
    let x = a.as_bytes();
    let y = b.as_bytes();
    proof {
        encode_utf8_decode_utf8(a@);
        encode_utf8_decode_utf8(b@);
    }
    if x.len() != y.len() {
        return false;
    }
    let mut i: usize = 0;
    while i < x.len()
        invariant
            i <= x@.len(),
            x@.len() == y@.len(),
            x@ == encode_utf8(a@),
            y@ == encode_utf8(b@),
            forall|j: int| 0 <= j < i ==> x@[j] == y@[j],
        decreases x@.len() - i,
    {
        if x[i] != y[i] {
            return false;
        }
        i = i + 1;
    }
    assert(x@ =~= y@);
    true
}

/// The views of a sequence of texts.
pub open spec fn views(v: Seq<String>) -> Seq<Seq<char>> {
    v.map_values(|s: String| s@)
}

/// A copy of a list of texts.
pub fn clone_texts(v: &Vec<String>) -> (r: Vec<String>)
    ensures
        r@ == v@,
{
    let mut out: Vec<String> = Vec::new();
    let mut i: usize = 0;
    while i < v.len()
        invariant
            i <= v@.len(),
            out@ == v@.take(i as int),
        decreases v@.len() - i,
    {
        out.push(v[i].clone());
        proof {
            assert(v@.take(i + 1) =~= v@.take(i as int).push(v@[i as int]));
        }
        i = i + 1;
    }
    assert(v@.take(v@.len() as int) =~= v@);
    out
}

/// Whether a text occurs in a list of texts.
pub fn list_contains(v: &Vec<String>, s: &str) -> (r: bool)
    ensures
        r == views(v@).contains(s@),
{
    let mut i: usize = 0;
    while i < v.len()
        invariant
            i <= v@.len(),
            forall|j: int| 0 <= j < i ==> v@[j]@ != s@,
        decreases v@.len() - i,
    {
        if same(v[i].as_str(), s) {
            assert(views(v@)[i as int] == s@);
            return true;
        }
        i = i + 1;
    }
    assert(!views(v@).contains(s@)) by {
        if views(v@).contains(s@) {
            let j = choose|j: int| 0 <= j < views(v@).len() && views(v@)[j] == s@;
            assert(v@[j]@ == s@);
        }
    }
    false
}

// ---------------------------------------------------------------------------
// Character classes and case
// ---------------------------------------------------------------------------

/// The characters with the Unicode `White_Space` property.
pub open spec fn white_space(c: char) -> bool {
    ||| '\u{9}' <= c <= '\u{d}'
    ||| c == ' '
    ||| c == '\u{85}'
    ||| c == '\u{a0}'
    ||| c == '\u{1680}'
    ||| '\u{2000}' <= c <= '\u{200a}'
    ||| c == '\u{2028}'
    ||| c == '\u{2029}'
    ||| c == '\u{202f}'
    ||| c == '\u{205f}'
    ||| c == '\u{3000}'
}

/// Whether a character is white space.
pub fn is_white_space(c: char) -> (r: bool)
    ensures
        r == white_space(c),
{
    ('\u{9}' <= c && c <= '\u{d}') || c == ' ' || c == '\u{85}' || c == '\u{a0}' || c == '\u{1680}'
        || ('\u{2000}' <= c && c <= '\u{200a}') || c == '\u{2028}' || c == '\u{2029}'
        || c == '\u{202f}' || c == '\u{205f}' || c == '\u{3000}'
}

/// The ASCII lower-case form of a character; every other character is kept.
pub open spec fn lower(c: char) -> char {
    if 'A' <= c <= 'Z' {
        ((c as u32 + 32) as u32) as char
    } else {
        c
    }
}

/// A text in ASCII lower case.
pub open spec fn lowered(s: Seq<char>) -> Seq<char> {
    s.map_values(|c: char| lower(c))
}

/// The ASCII lower-case form of a character.
pub fn lower_char(c: char) -> (r: char)
    ensures
        r == lower(c),
{
    if 'A' <= c && c <= 'Z' {
        let code: u8 = c as u8;
        assert(code == c as u32);
        (code + 32) as char
    } else {
        c
    }
}

/// The characters of a text in ASCII lower case.
pub fn lower_chars(s: &str) -> (r: Vec<char>)
    ensures
        r@ == lowered(s@),
{
    let cs = chars_of(s);
    let mut out: Vec<char> = Vec::new();
    let mut i: usize = 0;
    while i < cs.len()
        invariant
            i <= cs@.len(),
            cs@ == s@,
            out@ == lowered(s@).take(i as int),
        decreases cs@.len() - i,
    {
        out.push(lower_char(cs[i]));
        proof {
            assert(lowered(s@).take(i + 1) =~= lowered(s@).take(i as int).push(lower(s@[i as int])));
        }
        i = i + 1;
    }
    assert(lowered(s@).take(s@.len() as int) =~= lowered(s@));
    out
}

/// A text in ASCII lower case.
pub fn to_lower(s: &str) -> (r: String)
    ensures
        r@ == lowered(s@),
{
    let cs = lower_chars(s);
    text_of(cs.as_slice())
}

/// Whether two texts are equal up to ASCII case.
pub fn same_ignoring_case(a: &str, b: &str) -> (r: bool)
    ensures
        r == (lowered(a@) == lowered(b@)),
{
    let x = to_lower(a);
    let y = to_lower(b);
    same(x.as_str(), y.as_str())
}

/// ASCII letters and digits.
pub open spec fn ascii_alphanumeric(c: char) -> bool {
    ||| '0' <= c <= '9'
    ||| 'A' <= c <= 'Z'
    ||| 'a' <= c <= 'z'
}

/// Whether a character is an ASCII letter or digit.
pub fn is_ascii_alphanumeric(c: char) -> (r: bool)
    ensures
        r == ascii_alphanumeric(c),
{
    ('0' <= c && c <= '9') || ('A' <= c && c <= 'Z') || ('a' <= c && c <= 'z')
}

/// The hexadecimal digits in either case.
pub open spec fn hex_digit(c: char) -> bool {
    ||| '0' <= c <= '9'
    ||| 'A' <= c <= 'F'
    ||| 'a' <= c <= 'f'
}

/// Whether a character is a hexadecimal digit.
pub fn is_hex_digit(c: char) -> (r: bool)
    ensures
        r == hex_digit(c),
{
    ('0' <= c && c <= '9') || ('A' <= c && c <= 'F') || ('a' <= c && c <= 'f')
}

// ---------------------------------------------------------------------------
// Searching
// ---------------------------------------------------------------------------

/// `p` stands in `s` from position `i` on.
pub open spec fn occurs_at(s: Seq<char>, p: Seq<char>, i: int) -> bool {
    0 <= i && i + p.len() <= s.len() && s.subrange(i, i + p.len()) == p
}

/// `p` stands somewhere in `s`.
pub open spec fn occurs(s: Seq<char>, p: Seq<char>) -> bool {
    exists|i: int| occurs_at(s, p, i)
}

/// `s` begins with `p`.
pub open spec fn begins(s: Seq<char>, p: Seq<char>) -> bool {
    occurs_at(s, p, 0)
}

/// `s` ends with `p`.
pub open spec fn ends(s: Seq<char>, p: Seq<char>) -> bool {
    occurs_at(s, p, s.len() - p.len())
}

/// Whether the pattern stands at position `i`.
pub fn matches_at(s: &Vec<char>, p: &Vec<char>, i: usize) -> (r: bool)
    ensures
        r == occurs_at(s@, p@, i as int),
{
    let total: usize = s.len();
    if i > total || p.len() > total - i {
        return false;
    }
    let mut k: usize = 0;
    while k < p.len()
        invariant
            k <= p@.len(),
            total == s@.len(),
            i + p@.len() <= total,
            forall|j: int| 0 <= j < k ==> s@[i + j] == p@[j],
        decreases p@.len() - k,
    {
        if s[i + k] != p[k] {
            assert(s@.subrange(i as int, i + p@.len())[k as int] != p@[k as int]);
            return false;
        }
        k = k + 1;
    }
    assert(s@.subrange(i as int, i + p@.len()) =~= p@);
    true
}

/// The first position at or after `from` where the pattern stands.
pub fn find_from(s: &Vec<char>, p: &Vec<char>, from: usize) -> (r: Option<usize>)
    ensures
        match r {
            Some(i) => {
                &&& from <= i
                &&& occurs_at(s@, p@, i as int)
                &&& forall|j: int| from <= j < i ==> !occurs_at(s@, p@, j)
            },
            None => forall|j: int| from <= j ==> !occurs_at(s@, p@, j),
        },
{
    let mut i: usize = from;
    while i <= s.len() && p.len() <= s.len() - i
        invariant
            from <= i,
            from <= s@.len() ==> i <= s@.len() + 1,
            forall|j: int| from <= j < i ==> !occurs_at(s@, p@, j),
        decreases s@.len() + 1 - i,
    {
        if matches_at(s, p, i) {
            return Some(i);
        }
        if i == s.len() {
            return None;
        }
        i = i + 1;
    }
    None
}

/// Whether the pattern stands anywhere in the characters.
pub fn chars_contain(s: &Vec<char>, p: &str) -> (r: bool)
    ensures
        r == occurs(s@, p@),
{
    let pc = chars_of(p);
    find_from(s, &pc, 0).is_some()
}

/// Whether the characters begin with the pattern.
pub fn chars_begin(s: &Vec<char>, p: &str) -> (r: bool)
    ensures
        r == begins(s@, p@),
{
    let pc = chars_of(p);
    matches_at(s, &pc, 0)
}

/// Whether the characters end with the pattern.
pub fn chars_end(s: &Vec<char>, p: &str) -> (r: bool)
    ensures
        r == ends(s@, p@),
{
    let pc = chars_of(p);
    if pc.len() > s.len() {
        return false;
    }
    matches_at(s, &pc, s.len() - pc.len())
}

/// Whether a text contains another.
pub fn contains(s: &str, p: &str) -> (r: bool)
    ensures
        r == occurs(s@, p@),
{
    let cs = chars_of(s);
    chars_contain(&cs, p)
}

/// Whether a text begins with another.
pub fn starts_with(s: &str, p: &str) -> (r: bool)
    ensures
        r == begins(s@, p@),
{
    let cs = chars_of(s);
    chars_begin(&cs, p)
}

/// Whether a text ends with another.
pub fn ends_with(s: &str, p: &str) -> (r: bool)
    ensures
        r == ends(s@, p@),
{
    let cs = chars_of(s);
    chars_end(&cs, p)
}

/// What follows a prefix, where the text has it.
pub open spec fn after_prefix(s: Seq<char>, p: Seq<char>) -> Option<Seq<char>> {
    if begins(s, p) {
        Some(s.skip(p.len() as int))
    } else {
        None
    }
}

/// The part of the characters between two positions.
pub fn slice_chars(s: &Vec<char>, from: usize, to: usize) -> (r: Vec<char>)
    requires
        from <= to <= s@.len(),
    ensures
        r@ == s@.subrange(from as int, to as int),
{
    let mut out: Vec<char> = Vec::new();
    let mut i: usize = from;
    while i < to
        invariant
            from <= i <= to <= s@.len(),
            out@ == s@.subrange(from as int, i as int),
        decreases to - i,
    {
        out.push(s[i]);
        proof {
            assert(s@.subrange(from as int, i + 1) =~= s@.subrange(from as int, i as int).push(
                s@[i as int],
            ));
        }
        i = i + 1;
    }
    out
}

/// What follows a prefix, where the text has it.
pub fn strip_prefix(s: &str, p: &str) -> (r: Option<String>)
    ensures
        r matches Some(t) ==> after_prefix(s@, p@) == Some(t@),
        r is None ==> after_prefix(s@, p@) is None,
{
    let cs = chars_of(s);
    let pc = chars_of(p);
    if matches_at(&cs, &pc, 0) {
        let rest = slice_chars(&cs, pc.len(), cs.len());
        assert(rest@ =~= s@.skip(p@.len() as int));
        Some(text_of(rest.as_slice()))
    } else {
        None
    }
}

// ---------------------------------------------------------------------------
// Trimming, splitting and joining
// ---------------------------------------------------------------------------

/// A text without its leading white space.
pub open spec fn trimmed_start(s: Seq<char>) -> Seq<char>
    decreases s.len(),
{
    if s.len() > 0 && white_space(s[0]) {
        trimmed_start(s.skip(1))
    } else {
        s
    }
}

/// A text without its trailing white space.
pub open spec fn trimmed_end(s: Seq<char>) -> Seq<char>
    decreases s.len(),
{
    if s.len() > 0 && white_space(s.last()) {
        trimmed_end(s.drop_last())
    } else {
        s
    }
}

/// A text without the white space at its two ends.
pub open spec fn trimmed(s: Seq<char>) -> Seq<char> {
    trimmed_end(trimmed_start(s))
}

/// The characters without the white space at their two ends.
pub fn trim_chars(s: &Vec<char>) -> (r: Vec<char>)
    ensures
        r@ == trimmed(s@),
{
    let mut from: usize = 0;
    assert(s@.skip(0) =~= s@);
    while from < s.len() && is_white_space(s[from])
        invariant
            from <= s@.len(),
            trimmed_start(s@) == trimmed_start(s@.skip(from as int)),
        decreases s@.len() - from,
    {
        assert(s@.skip(from as int).skip(1) =~= s@.skip(from + 1));
        from = from + 1;
    }
    let mut to: usize = s.len();
    let ghost mid = s@.skip(from as int);
    assert(trimmed_start(s@) == mid);
    assert(mid =~= s@.subrange(from as int, to as int));
    while to > from && is_white_space(s[to - 1])
        invariant
            from <= to <= s@.len(),
            trimmed_end(mid) == trimmed_end(s@.subrange(from as int, to as int)),
        decreases to - from,
    {
        assert(s@.subrange(from as int, to as int).drop_last() =~= s@.subrange(
            from as int,
            to - 1,
        ));
        assert(s@.subrange(from as int, to as int).last() == s@[to - 1]);
        to = to - 1;
    }
    slice_chars(s, from, to)
}

/// A text without the white space at its two ends.
pub fn trim(s: &str) -> (r: String)
    ensures
        r@ == trimmed(s@),
{
    let cs = chars_of(s);
    let t = trim_chars(&cs);
    text_of(t.as_slice())
}

/// The pieces of a text between the occurrences of a separator; one piece
/// more than there are separators.
pub open spec fn pieces(s: Seq<char>, sep: char) -> Seq<Seq<char>>
    decreases s.len(),
{
    if s.len() == 0 {
        seq![Seq::<char>::empty()]
    } else {
        let before = pieces(s.drop_last(), sep);
        if s.last() == sep {
            before.push(Seq::empty())
        } else {
            before.drop_last().push(before.last().push(s.last()))
        }
    }
}

/// There is always at least one piece.
pub proof fn pieces_nonempty(s: Seq<char>, sep: char)
    ensures
        pieces(s, sep).len() >= 1,
    decreases s.len(),
{
    if s.len() > 0 {
        pieces_nonempty(s.drop_last(), sep);
    }
}

/// The views of a list of character vectors.
pub open spec fn char_views(v: Seq<Vec<char>>) -> Seq<Seq<char>> {
    v.map_values(|c: Vec<char>| c@)
}

/// The pieces of the characters between the occurrences of a separator.
pub fn split_chars(s: &Vec<char>, sep: char) -> (r: Vec<Vec<char>>)
    ensures
        char_views(r@) == pieces(s@, sep),
{
    let mut done: Vec<Vec<char>> = Vec::new();
    let mut current: Vec<char> = Vec::new();
    let mut i: usize = 0;
    assert(s@.take(0) =~= Seq::<char>::empty());
    assert(char_views(done@).push(current@) =~= pieces(s@.take(0), sep));
    while i < s.len()
        invariant
            i <= s@.len(),
            char_views(done@).push(current@) == pieces(s@.take(i as int), sep),
        decreases s@.len() - i,
    {
        let c = s[i];
        let ghost before = pieces(s@.take(i as int), sep);
        proof {
            assert(s@.take(i + 1).drop_last() =~= s@.take(i as int));
            assert(s@.take(i + 1).last() == c);
            assert(before.last() == current@);
            assert(before.drop_last() =~= char_views(done@));
        }
        if c == sep {
            let ghost old_done = done@;
            done.push(current);
            current = Vec::new();
            assert(char_views(done@) =~= before);
            assert(char_views(done@).push(current@) =~= before.push(Seq::empty()));
        } else {
            current.push(c);
            assert(char_views(done@).push(current@) =~= before.drop_last().push(
                before.last().push(c),
            ));
        }
        i = i + 1;
    }
    assert(s@.take(s@.len() as int) =~= s@);
    done.push(current);
    assert(char_views(done@) =~= pieces(s@, sep));
    done
}

/// Texts put one after another with a separator between them.
pub open spec fn joined(parts: Seq<Seq<char>>, sep: Seq<char>) -> Seq<char>
    decreases parts.len(),
{
    if parts.len() == 0 {
        Seq::empty()
    } else if parts.len() == 1 {
        parts[0]
    } else {
        joined(parts.drop_last(), sep) + sep + parts.last()
    }
}

/// Texts put one after another with a separator between them.
pub fn join(parts: &Vec<String>, sep: &str) -> (r: String)
    ensures
        r@ == joined(views(parts@), sep@),
{
    let mut out = String::new();
    let mut i: usize = 0;
    assert(views(parts@).take(0) =~= Seq::<Seq<char>>::empty());
    while i < parts.len()
        invariant
            i <= parts@.len(),
            out@ == joined(views(parts@).take(i as int), sep@),
        decreases parts@.len() - i,
    {
        proof {
            let next = views(parts@).take(i + 1);
            assert(next.drop_last() =~= views(parts@).take(i as int));
            assert(next.last() == parts@[i as int]@);
            assert(next.len() == i + 1);
            if i == 0 {
                assert(next[0] == parts@[0]@);
            }
        }
        if i > 0 {
            out.append(sep);
        }
        out.append(parts[i].as_str());
        proof {
            if i == 0 {
                assert(Seq::<char>::empty() + parts@[0]@ =~= parts@[0]@);
            }
        }
        i = i + 1;
    }
    assert(views(parts@).take(parts@.len() as int) =~= views(parts@));
    out
}

/// A line without the carriage return that ends it.
pub open spec fn without_return(line: Seq<char>) -> Seq<char> {
    if line.len() > 0 && line.last() == '\r' {
        line.drop_last()
    } else {
        line
    }
}

/// The lines of a text: what stands before each line feed, without a carriage
/// return just before it, and what follows the last line feed, if anything.
pub open spec fn lines_of(s: Seq<char>) -> Seq<Seq<char>> {
    let parts = pieces(s, '\n');
    let full = parts.drop_last().map_values(|p: Seq<char>| without_return(p));
    if parts.last().len() == 0 {
        full
    } else {
        full.push(parts.last())
    }
}

/// The lines of the characters.
pub fn split_lines(s: &Vec<char>) -> (r: Vec<Vec<char>>)
    ensures
        char_views(r@) == lines_of(s@),
{
    let parts = split_chars(s, '\n');
    proof {
        pieces_nonempty(s@, '\n');
    }
    assert(char_views(parts@).len() == parts@.len());
    let total: usize = parts.len();
    let mut out: Vec<Vec<char>> = Vec::new();
    let mut i: usize = 0;
    let ghost full = pieces(s@, '\n').drop_last().map_values(|p: Seq<char>| without_return(p));
    while i + 1 < total
        invariant
            total == parts@.len(),
            total >= 1,
            i < total,
            full.len() == total - 1,
            char_views(parts@) == pieces(s@, '\n'),
            full == pieces(s@, '\n').drop_last().map_values(|p: Seq<char>| without_return(p)),
            char_views(out@) == full.take(i as int),
        decreases total - i,
    {
        let piece = &parts[i];
        let n: usize = piece.len();
        assert(piece@ == char_views(parts@)[i as int]);
        let line = if n > 0 && piece[n - 1] == '\r' {
            slice_chars(piece, 0, n - 1)
        } else {
            slice_chars(piece, 0, n)
        };
        proof {
            assert(piece@.subrange(0, n as int) =~= piece@);
            if n > 0 {
                assert(piece@.subrange(0, n - 1) =~= piece@.drop_last());
            }
            assert(line@ == without_return(piece@));
            assert(full[i as int] == line@);
        }
        let ghost before = out@;
        out.push(line);
        assert(char_views(out@) =~= char_views(before).push(full[i as int]));
        assert(full.take(i + 1) =~= full.take(i as int).push(full[i as int]));
        i = i + 1;
    }
    assert(full.take(full.len() as int) =~= full);
    let last = &parts[total - 1];
    assert(last@ == pieces(s@, '\n').last());
    if last.len() > 0 {
        let line = slice_chars(last, 0, last.len());
        assert(line@ =~= last@);
        out.push(line);
        assert(char_views(out@) =~= full.push(last@));
    }
    out
}

/// A text with every occurrence of a pattern replaced, from the left and
/// without overlap.  The empty pattern stands before every character and at
/// the end.
pub open spec fn replaced(s: Seq<char>, from: Seq<char>, to: Seq<char>) -> Seq<char>
    decreases s.len(),
{
    if from.len() == 0 {
        if s.len() == 0 {
            to
        } else {
            to.push(s[0]) + replaced(s.skip(1), from, to)
        }
    } else if s.len() == 0 {
        Seq::empty()
    } else if begins(s, from) {
        to + replaced(s.skip(from.len() as int), from, to)
    } else {
        seq![s[0]] + replaced(s.skip(1), from, to)
    }
}

/// A text with every occurrence of a pattern replaced.
pub fn replace(s: &str, from: &str, to: &str) -> (r: String)
    ensures
        r@ == replaced(s@, from@, to@),
{
    let cs = chars_of(s);
    let pc = chars_of(from);
    let mut out = String::new();
    let mut i: usize = 0;
    assert(cs@.skip(0) =~= cs@);
    assert(Seq::<char>::empty() + replaced(s@, from@, to@) =~= replaced(s@, from@, to@));
    while i < cs.len()
        invariant
            i <= cs@.len(),
            cs@ == s@,
            pc@ == from@,
            out@ + replaced(cs@.skip(i as int), from@, to@) == replaced(s@, from@, to@),
        decreases cs@.len() - i,
    {
        let ghost rest = cs@.skip(i as int);
        let ghost before = out@;
        if pc.len() == 0 {
            out.append(to);
            out.push(cs[i]);
            proof {
                assert(rest.skip(1) =~= cs@.skip(i + 1));
                assert(before + (to@.push(rest[0]) + replaced(cs@.skip(i + 1), from@, to@))
                    =~= out@ + replaced(cs@.skip(i + 1), from@, to@));
            }
            i = i + 1;
        } else if matches_at(&cs, &pc, i) {
            out.append(to);
            proof {
                assert(rest.subrange(0, pc@.len() as int) =~= cs@.subrange(i as int, i + pc@.len()));
                assert(begins(rest, from@));
                assert(rest.skip(pc@.len() as int) =~= cs@.skip(i + pc@.len()));
                assert(before + (to@ + replaced(cs@.skip(i + pc@.len()), from@, to@)) =~= out@
                    + replaced(cs@.skip(i + pc@.len()), from@, to@));
            }
            i = i + pc.len();
        } else {
            out.push(cs[i]);
            proof {
                if begins(rest, from@) {
                    assert(rest.subrange(0, pc@.len() as int) =~= cs@.subrange(
                        i as int,
                        i + pc@.len(),
                    ));
                }
                assert(!begins(rest, from@));
                assert(rest.skip(1) =~= cs@.skip(i + 1));
                assert(before + (seq![rest[0]] + replaced(cs@.skip(i + 1), from@, to@)) =~= out@
                    + replaced(cs@.skip(i + 1), from@, to@));
            }
            i = i + 1;
        }
    }
    assert(cs@.skip(cs@.len() as int) =~= Seq::<char>::empty());
    if pc.len() == 0 {
        out.append(to);
    }
    assert(out@ =~= replaced(s@, from@, to@));
    out
}

// ---------------------------------------------------------------------------
// Numbers
// ---------------------------------------------------------------------------

/// The decimal digit of a number below ten.
pub open spec fn digit(n: nat) -> char {
    (('0' as u32 + n) as u32) as char
}

/// A number in decimal, without leading zeros.
pub open spec fn decimal(n: nat) -> Seq<char>
    decreases n,
{
    if n < 10 {
        seq![digit(n)]
    } else {
        decimal(n / 10).push(digit(n % 10))
    }
}

/// The digits of a number, least significant first, without leading zeros.
pub open spec fn digits_backward(n: nat) -> Seq<char>
    decreases n,
{
    if n < 10 {
        seq![digit(n)]
    } else {
        seq![digit(n % 10)] + digits_backward(n / 10)
    }
}

proof fn digits_backward_is_reversed(n: nat)
    ensures
        digits_backward(n).reverse() == decimal(n),
    decreases n,
{
    if n < 10 {
        assert(digits_backward(n).reverse() =~= decimal(n));
    } else {
        digits_backward_is_reversed(n / 10);
        let tail = digits_backward(n / 10);
        assert((seq![digit(n % 10)] + tail).reverse() =~= tail.reverse().push(digit(n % 10)));
    }
}

/// A number in decimal.
pub fn decimal_text(n: u64) -> (r: String)
    ensures
        r@ == decimal(n as nat),
{
    let mut backward: Vec<char> = Vec::new();
    let mut rest: u64 = n;
    assert(backward@ + digits_backward(n as nat) =~= digits_backward(n as nat));
    while rest >= 10
        invariant
            backward@ + digits_backward(rest as nat) == digits_backward(n as nat),
        decreases rest,
    {
        let d: u8 = (rest % 10) as u8;
        let ghost before = backward@;
        backward.push((48u8 + d) as char);
        proof {
            assert(backward@ + digits_backward((rest / 10) as nat) =~= before + (seq![
                digit((rest % 10) as nat),
            ] + digits_backward((rest / 10) as nat)));
        }
        rest = rest / 10;
    }
    let d: u8 = rest as u8;
    let ghost before = backward@;
    backward.push((48u8 + d) as char);
    assert(backward@ =~= before + digits_backward(rest as nat));
    let mut out = String::new();
    let mut i: usize = backward.len();
    assert(backward@.reverse().take(0) =~= Seq::<char>::empty());
    while i > 0
        invariant
            i <= backward@.len(),
            out@ == backward@.reverse().take(backward@.len() - i),
        decreases i,
    {
        i = i - 1;
        out.push(backward[i]);
        proof {
            let k = backward@.len() - i - 1;
            assert(backward@.reverse()[k] == backward@[i as int]);
            assert(backward@.reverse().take(k + 1) =~= backward@.reverse().take(k).push(
                backward@[i as int],
            ));
        }
    }
    proof {
        assert(backward@.reverse().take(backward@.len() as int) =~= backward@.reverse());
        digits_backward_is_reversed(n as nat);
    }
    out
}

/// The value of a run of decimal digits.
pub open spec fn digits_value(s: Seq<char>) -> nat
    decreases s.len(),
{
    if s.len() == 0 {
        0
    } else {
        digits_value(s.drop_last()) * 10 + (s.last() as u32 - '0' as u32) as nat
    }
}

/// Only decimal digits.
pub open spec fn all_digits(s: Seq<char>) -> bool {
    forall|i: int| 0 <= i < s.len() ==> '0' <= #[trigger] s[i] <= '9'
}

/// The unsigned number that a text writes: decimal digits with an optional
/// plus sign before them, within `max`.
pub open spec fn parsed_number(s: Seq<char>, max: nat) -> Option<nat> {
    let digits = if s.len() > 0 && s[0] == '+' {
        s.skip(1)
    } else {
        s
    };
    if digits.len() > 0 && all_digits(digits) && digits_value(digits) <= max {
        Some(digits_value(digits))
    } else {
        None
    }
}

proof fn digits_value_grows(s: Seq<char>, n: int)
    requires
        0 <= n <= s.len(),
        all_digits(s),
    ensures
        digits_value(s.take(n)) <= digits_value(s),
    decreases s.len() - n,
{
    if n < s.len() {
        digits_value_grows(s, n + 1);
        assert(s.take(n + 1).drop_last() =~= s.take(n));
    } else {
        assert(s.take(n) =~= s);
    }
}

/// The unsigned number that the characters write.
pub fn parse_number(s: &Vec<char>) -> (r: Option<usize>)
    ensures
        match r {
            Some(n) => parsed_number(s@, usize::MAX as nat) == Some(n as nat),
            None => parsed_number(s@, usize::MAX as nat) is None,
        },
{
    let start: usize = if s.len() > 0 && s[0] == '+' {
        1
    } else {
        0
    };
    let ghost digits = s@.skip(start as int);
    assert(s@.skip(0) =~= s@);
    if start == s.len() {
        return None;
    }
    let mut value: usize = 0;
    let mut i: usize = start;
    assert(digits.take(0) =~= Seq::<char>::empty());
    while i < s.len()
        invariant
            start <= i <= s@.len(),
            start < s@.len(),
            start == (if s@.len() > 0 && s@[0] == '+' { 1int } else { 0int }),
            digits == s@.skip(start as int),
            s@.skip(0) == s@,
            forall|j: int| 0 <= j < i - start ==> '0' <= #[trigger] digits[j] <= '9',
            value == digits_value(digits.take(i - start)),
        decreases s@.len() - i,
    {
        let c = s[i];
        assert(c == digits[i - start]);
        if c < '0' || c > '9' {
            assert(!all_digits(digits));
            return None;
        }
        let code: u8 = c as u8;
        let d: usize = (code - 48) as usize;
        assert(digits.take(i - start + 1).drop_last() =~= digits.take(i - start));
        assert(digits_value(digits.take(i - start + 1)) == value * 10 + d);
        if value > usize::MAX / 10 || value * 10 > usize::MAX - d {
            proof {
                if all_digits(digits) {
                    digits_value_grows(digits, i - start + 1);
                }
            }
            return None;
        }
        value = value * 10 + d;
        i = i + 1;
    }
    assert(digits.take(digits.len() as int) =~= digits);
    Some(value)
}

// ---------------------------------------------------------------------------
// Lists of patterns
// ---------------------------------------------------------------------------

/// The views of a list of patterns.
pub open spec fn str_views(v: Seq<&str>) -> Seq<Seq<char>> {
    v.map_values(|s: &str| s@)
}

/// One of the patterns stands in the text.
pub open spec fn any_occurs(s: Seq<char>, patterns: Seq<Seq<char>>) -> bool {
    exists|i: int| 0 <= i < patterns.len() && occurs(s, #[trigger] patterns[i])
}

/// The text begins with one of the patterns.
pub open spec fn any_begins(s: Seq<char>, patterns: Seq<Seq<char>>) -> bool {
    exists|i: int| 0 <= i < patterns.len() && begins(s, #[trigger] patterns[i])
}

/// Whether one of the patterns stands in the characters.
pub fn contains_any(s: &Vec<char>, patterns: &Vec<&str>) -> (r: bool)
    ensures
        r == any_occurs(s@, str_views(patterns@)),
{
    let mut i: usize = 0;
    while i < patterns.len()
        invariant
            i <= patterns@.len(),
            forall|j: int| 0 <= j < i ==> !occurs(s@, #[trigger] str_views(patterns@)[j]),
        decreases patterns@.len() - i,
    {
        if chars_contain(s, patterns[i]) {
            assert(occurs(s@, str_views(patterns@)[i as int]));
            return true;
        }
        i = i + 1;
    }
    false
}

/// Whether the characters begin with one of the patterns.
pub fn begins_with_any(s: &Vec<char>, patterns: &Vec<&str>) -> (r: bool)
    ensures
        r == any_begins(s@, str_views(patterns@)),
{
    let mut i: usize = 0;
    while i < patterns.len()
        invariant
            i <= patterns@.len(),
            forall|j: int| 0 <= j < i ==> !begins(s@, #[trigger] str_views(patterns@)[j]),
        decreases patterns@.len() - i,
    {
        if chars_begin(s, patterns[i]) {
            assert(begins(s@, str_views(patterns@)[i as int]));
            return true;
        }
        i = i + 1;
    }
    false
}

/// How many characters a text has.
pub fn length(s: &str) -> (r: usize)
    ensures
        r == s@.len(),
{
    chars_of(s).len()
}

/// A character of a plain name: an ASCII letter or digit, or one of `-`, `_`
/// and `.`.
pub open spec fn name_char(c: char) -> bool {
    ascii_alphanumeric(c) || c == '-' || c == '_' || c == '.'
}

/// Nothing but characters of plain names.
pub open spec fn plain_name(s: Seq<char>) -> bool {
    forall|i: int| 0 <= i < s.len() ==> name_char(#[trigger] s[i])
}

/// Whether there is nothing but characters of plain names.
pub fn is_plain_name(s: &str) -> (r: bool)
    ensures
        r == plain_name(s@),
{
    let chars = chars_of(s);
    let mut i: usize = 0;
    while i < chars.len()
        invariant
            i <= chars@.len(),
            chars@ == s@,
            forall|k: int| 0 <= k < i ==> name_char(#[trigger] s@[k]),
        decreases chars@.len() - i,
    {
        let c = chars[i];
        if !(is_ascii_alphanumeric(c) || c == '-' || c == '_' || c == '.') {
            assert(!name_char(s@[i as int]));
            return false;
        }
        i = i + 1;
    }
    true
}

/// Two texts, one after the other.
pub fn cat2(a: &str, b: &str) -> (r: String)
    ensures
        r@ == a@ + b@,
{
    let mut out = a.to_owned();
    out.append(b);
    out
}

/// Three texts, one after the other.
pub fn cat3(a: &str, b: &str, c: &str) -> (r: String)
    ensures
        r@ == a@ + b@ + c@,
{
    let mut out = cat2(a, b);
    out.append(c);
    out
}

/// Four texts, one after the other.
pub fn cat4(a: &str, b: &str, c: &str, d: &str) -> (r: String)
    ensures
        r@ == a@ + b@ + c@ + d@,
{
    let mut out = cat3(a, b, c);
    out.append(d);
    out
}

/// Five texts, one after the other.
pub fn cat5(a: &str, b: &str, c: &str, d: &str, e: &str) -> (r: String)
    ensures
        r@ == a@ + b@ + c@ + d@ + e@,
{
    let mut out = cat4(a, b, c, d);
    out.append(e);
    out
}

// ---------------------------------------------------------------------------
// Words
// ---------------------------------------------------------------------------

/// A text with every run of white space turned into one blank, and none at
/// its two ends.
pub open spec fn squeezed(s: Seq<char>) -> Seq<char>
    decreases s.len(),
{
    if s.len() == 0 {
        Seq::empty()
    } else {
        let before = squeezed(s.drop_last());
        if white_space(s.last()) {
            before
        } else if before.len() > 0 && white_space(s.drop_last().last()) {
            before.push(' ').push(s.last())
        } else {
            before.push(s.last())
        }
    }
}

/// The words of a text with one blank between them.
pub fn squeeze(s: &str) -> (r: String)
    ensures
        r@ == squeezed(s@),
{
    let chars = chars_of(s);
    let mut out = String::new();
    let mut any: bool = false;
    let mut gap: bool = false;
    let mut i: usize = 0;
    assert(s@.take(0) =~= Seq::<char>::empty());
    while i < chars.len()
        invariant
            i <= chars@.len(),
            chars@ == s@,
            out@ == squeezed(s@.take(i as int)),
            any == (out@.len() > 0),
            i > 0 ==> gap == white_space(s@[i - 1]),
            i == 0 ==> !any,
        decreases chars@.len() - i,
    {
        proof {
            assert(s@.take(i + 1).drop_last() =~= s@.take(i as int));
            if i > 0 {
                assert(s@.take(i as int).last() == s@[i - 1]);
            }
        }
        if is_white_space(chars[i]) {
            gap = true;
        } else {
            if any && gap {
                out.push(' ');
            }
            out.push(chars[i]);
            any = true;
            gap = false;
        }
        i = i + 1;
    }
    assert(s@.take(s@.len() as int) =~= s@);
    out
}

/// At most the first characters of a text.
pub open spec fn shortened(s: Seq<char>, n: nat) -> Seq<char> {
    if s.len() <= n {
        s
    } else {
        s.take(n as int)
    }
}

/// At most the first characters of a text.
pub fn shorten(s: &str, n: usize) -> (r: String)
    ensures
        r@ == shortened(s@, n as nat),
{
    let chars = chars_of(s);
    if chars.len() <= n {
        return s.to_owned();
    }
    let part = slice_chars(&chars, 0, n);
    assert(part@ =~= s@.take(n as int));
    text_of(part.as_slice())
}

// ---------------------------------------------------------------------------
// Texts as they are shown
// ---------------------------------------------------------------------------

/// A text between quotation marks, as `{:?}` shows it.
pub uninterp spec fn quoted(s: Seq<char>) -> Seq<char>;

/// `core::fmt::Debug` for `str`: the text between quotation marks, with what
/// cannot be shown escaped.  How a character is escaped is left unsaid.
#[verifier::external_body]
pub(crate) fn quote(s: &str) -> (r: String)
    ensures
        r@ == quoted(s@),
{
    format!("{s:?}")
}

/// Bytes as text, with what is not UTF-8 replaced.
pub uninterp spec fn utf8_lossy(bytes: Seq<u8>) -> Seq<char>;

/// `String::from_utf8_lossy`: the text of the bytes, which is exactly the text
/// that they encode where they are UTF-8; otherwise what is not is replaced,
/// in a way that depends on the bytes alone.
#[verifier::external_body]
pub(crate) fn lossy_text(bytes: &[u8]) -> (r: String)
    ensures
        r@ == utf8_lossy(bytes@),
        valid_utf8(bytes@) ==> r@ == decode_utf8(bytes@),
{
    String::from_utf8_lossy(bytes).into_owned()
}

/// `String::from_utf8`: the text that the bytes encode, where they are UTF-8,
/// and nothing where they are not.
#[verifier::external_body]
pub(crate) fn utf8_text(bytes: &[u8]) -> (r: Option<String>)
    ensures
        match r {
            Some(s) => valid_utf8(bytes@) && s@ == decode_utf8(bytes@),
            None => !valid_utf8(bytes@),
        },
{
    String::from_utf8(bytes.to_vec()).ok()
}

/// A signed number in decimal.
pub open spec fn signed_decimal(n: int) -> Seq<char> {
    if n < 0 {
        seq!['-'] + decimal((-n) as nat)
    } else {
        decimal(n as nat)
    }
}

/// An exit code as `{:?}` shows it.
pub open spec fn shown_code(code: Option<i32>) -> Seq<char> {
    match code {
        Some(code) => "Some("@ + signed_decimal(code as int) + ")"@,
        None => "None"@,
    }
}

/// An exit code as `{:?}` shows it.
pub fn show_code(code: Option<i32>) -> (r: String)
    ensures
        r@ == shown_code(code),
{
    match code {
        Some(code) => {
            let mut number = String::new();
            let wide: i64 = code as i64;
            if wide < 0 {
                number.push('-');
                let digits = decimal_text((0 - wide) as u64);
                number.append(digits.as_str());
                assert(number@ =~= signed_decimal(code as int));
            } else {
                number = decimal_text(wide as u64);
            }
            let mut out = "Some(".to_owned();
            out.append(number.as_str());
            out.append(")");
            out
        },
        None => "None".to_owned(),
    }
}

// ---------------------------------------------------------------------------
// Laws
// ---------------------------------------------------------------------------

/// Nothing but white space stands in a stretch of a text.
pub open spec fn all_white(s: Seq<char>) -> bool {
    forall|i: int| 0 <= i < s.len() ==> white_space(#[trigger] s[i])
}

proof fn start_is_trimmed(s: Seq<char>)
    ensures
        trimmed_start(s).len() <= s.len(),
        s.skip(s.len() - trimmed_start(s).len()) == trimmed_start(s),
        all_white(s.take(s.len() - trimmed_start(s).len())),
        trimmed_start(s).len() > 0 ==> !white_space(trimmed_start(s)[0]),
    decreases s.len(),
{
    if s.len() > 0 && white_space(s[0]) {
        let rest = s.skip(1);
        start_is_trimmed(rest);
        let n = rest.len() - trimmed_start(rest).len();
        assert(s.skip(n + 1) =~= rest.skip(n));
        assert forall|i: int| 0 <= i < n + 1 implies white_space(#[trigger] s.take(n + 1)[i]) by {
            if i > 0 {
                assert(rest.take(n)[i - 1] == s[i]);
            }
        }
    } else {
        assert(s.skip(0) =~= s);
    }
}

proof fn end_is_trimmed(s: Seq<char>)
    ensures
        trimmed_end(s).len() <= s.len(),
        s.take(trimmed_end(s).len() as int) == trimmed_end(s),
        all_white(s.skip(trimmed_end(s).len() as int)),
        trimmed_end(s).len() > 0 ==> !white_space(trimmed_end(s).last()),
    decreases s.len(),
{
    if s.len() > 0 && white_space(s.last()) {
        let init = s.drop_last();
        end_is_trimmed(init);
        let n = trimmed_end(init).len() as int;
        assert(s.take(n) =~= init.take(n));
        assert forall|i: int| 0 <= i < s.len() - n implies white_space(#[trigger] s.skip(n)[i]) by {
            if i < init.len() - n {
                assert(init.skip(n)[i] == s[n + i]);
            }
        }
    } else {
        assert(s.take(s.len() as int) =~= s);
    }
}

/// Trimming takes white space away from both ends and nothing else: what was
/// there is some white space, the trimmed text and some white space, and the
/// trimmed text neither begins nor ends with white space.
pub proof fn trimming_only_takes_white_space(s: Seq<char>) -> (front: int)
    ensures
        0 <= front <= front + trimmed(s).len() <= s.len(),
        s.subrange(front, front + trimmed(s).len()) == trimmed(s),
        forall|i: int| 0 <= i < front ==> white_space(#[trigger] s[i]),
        forall|i: int| front + trimmed(s).len() <= i < s.len() ==> white_space(#[trigger] s[i]),
        trimmed(s).len() > 0 ==> !white_space(trimmed(s)[0]) && !white_space(trimmed(s).last()),
        trimmed(s).len() == 0 <==> forall|i: int| 0 <= i < s.len() ==> white_space(#[trigger] s[i]),
{
    let t = trimmed_start(s);
    start_is_trimmed(s);
    end_is_trimmed(t);
    let front = s.len() - t.len();
    let r = trimmed(s);
    assert(s.subrange(front, front + r.len()) =~= t.take(r.len() as int));
    assert forall|i: int| 0 <= i < front implies white_space(#[trigger] s[i]) by {
        assert(s.take(front)[i] == s[i]);
    }
    assert forall|i: int| front + r.len() <= i < s.len() implies white_space(#[trigger] s[i]) by {
        assert(t.skip(r.len() as int)[i - front - r.len()] == s[i]);
    }
    if r.len() > 0 {
        assert(r[0] == t[0]);
        assert(!white_space(s[front]));
    }
    front
}

/// The pieces of a text put together again with the separator between them are
/// the text, and no piece holds the separator.
pub proof fn pieces_make_the_text(s: Seq<char>, sep: char)
    ensures
        joined(pieces(s, sep), seq![sep]) == s,
        forall|i: int| 0 <= i < pieces(s, sep).len() ==> !(#[trigger] pieces(s, sep)[i]).contains(
            sep,
        ),
        pieces(s, sep).len() == s.filter(|c: char| c == sep).len() + 1,
    decreases s.len(),
{
    reveal(Seq::filter);
    let all = pieces(s, sep);
    if s.len() > 0 {
        let init = s.drop_last();
        pieces_make_the_text(init, sep);
        pieces_nonempty(init, sep);
        let before = pieces(init, sep);
        if s.last() == sep {
            assert(all.drop_last() =~= before);
            assert(joined(all, seq![sep]) =~= s);
        } else {
            let grown = before.last().push(s.last());
            assert(all.drop_last() =~= before.drop_last());
            assert(all.last() == grown);
            if before.len() == 1 {
                assert(all.len() == 1 && all[0] == grown);
                assert(before[0] == before.last());
                assert(grown =~= s);
            } else {
                let front = joined(before.drop_last(), seq![sep]) + seq![sep];
                assert(joined(before, seq![sep]) == front + before.last());
                assert(joined(all, seq![sep]) == front + grown);
                assert(front + grown =~= (front + before.last()).push(s.last()));
                assert(s =~= init.push(s.last()));
            }
            assert(!grown.contains(sep)) by {
                if grown.contains(sep) {
                    let k = choose|k: int| 0 <= k < grown.len() && grown[k] == sep;
                    assert(before[before.len() - 1][k] == sep);
                }
            }
        }
        assert forall|i: int| 0 <= i < all.len() implies !(#[trigger] all[i]).contains(sep) by {
            if i < before.len() - 1 || s.last() == sep && i < before.len() {
                assert(all[i] == before[i]);
            }
        }
    }
}

/// No line of a text holds a line feed, and there are as many lines as line
/// feeds, and one more where something follows the last one.
pub proof fn lines_hold_no_line_feed(s: Seq<char>)
    ensures
        forall|i: int| 0 <= i < lines_of(s).len() ==> !(#[trigger] lines_of(s)[i]).contains('\n'),
        lines_of(s).len() == s.filter(|c: char| c == '\n').len() + if s.len() == 0 || s.last()
            == '\n' {
            0int
        } else {
            1int
        },
{
    pieces_make_the_text(s, '\n');
    pieces_nonempty(s, '\n');
    let parts = pieces(s, '\n');
    let lines = lines_of(s);
    assert forall|i: int| 0 <= i < lines.len() implies !(#[trigger] lines[i]).contains('\n') by {
        assert(!parts[i].contains('\n'));
        if lines[i].contains('\n') {
            let k = choose|k: int| 0 <= k < lines[i].len() && lines[i][k] == '\n';
            assert(parts[i][k] == '\n');
        }
    }
    if s.len() > 0 {
        pieces_nonempty(s.drop_last(), '\n');
    }
}

/// Lines written with a line feed behind each are read back as they are, where
/// none of them holds a line feed or ends with a carriage return.
pub proof fn written_lines_are_read_back(lines: Seq<Seq<char>>)
    requires
        forall|i: int|
            0 <= i < lines.len() ==> !(#[trigger] lines[i]).contains('\n') && (lines[i].len() == 0
                || lines[i].last() != '\r'),
    ensures
        lines_of(ended(lines)) == lines,
{
    pieces_of_ended(lines);
    let parts = pieces(ended(lines), '\n');
    assert(parts.drop_last() =~= lines);
    assert(lines_of(ended(lines)) =~= lines);
}

/// Lines with a line feed behind each.
pub open spec fn ended(lines: Seq<Seq<char>>) -> Seq<char>
    decreases lines.len(),
{
    if lines.len() == 0 {
        Seq::empty()
    } else {
        (ended(lines.drop_last()) + lines.last()).push('\n')
    }
}

proof fn pieces_of_more(s: Seq<char>, more: Seq<char>, sep: char)
    requires
        !more.contains(sep),
    ensures
        pieces(s + more, sep) == pieces(s, sep).drop_last().push(pieces(s, sep).last() + more),
    decreases more.len(),
{
    pieces_nonempty(s, sep);
    if more.len() == 0 {
        assert(s + more =~= s);
        assert(pieces(s, sep).last() + more =~= pieces(s, sep).last());
        assert(pieces(s, sep) =~= pieces(s, sep).drop_last().push(pieces(s, sep).last()));
    } else {
        let init = more.drop_last();
        assert(!init.contains(sep)) by {
            if init.contains(sep) {
                let k = choose|k: int| 0 <= k < init.len() && init[k] == sep;
                assert(more[k] == sep);
            }
        }
        assert(more[more.len() - 1] != sep);
        pieces_of_more(s, init, sep);
        assert((s + more).drop_last() =~= s + init);
        assert((s + more).last() == more.last());
        let before = pieces(s + init, sep);
        assert(before.last().push(more.last()) =~= pieces(s, sep).last() + more);
        assert(before.drop_last() =~= pieces(s, sep).drop_last());
    }
}

proof fn pieces_of_ended(lines: Seq<Seq<char>>)
    requires
        forall|i: int| 0 <= i < lines.len() ==> !(#[trigger] lines[i]).contains('\n'),
    ensures
        pieces(ended(lines), '\n') == lines.push(Seq::empty()),
    decreases lines.len(),
{
    if lines.len() == 0 {
        assert(pieces(ended(lines), '\n') =~= lines.push(Seq::empty()));
    } else {
        let init = lines.drop_last();
        assert forall|i: int| 0 <= i < init.len() implies !(#[trigger] init[i]).contains('\n') by {
            assert(init[i] == lines[i]);
        }
        pieces_of_ended(init);
        assert(!lines[lines.len() - 1].contains('\n'));
        pieces_of_more(ended(init), lines.last(), '\n');
        let body = ended(init) + lines.last();
        assert(body.push('\n').drop_last() =~= body);
        assert(pieces(ended(init), '\n').last() + lines.last() =~= lines.last());
        assert(pieces(body, '\n') =~= lines);
    }
}

/// A number that is written in decimal is read back as itself, and is written
/// without a leading zero.
pub proof fn numbers_are_read_back(n: nat, max: nat)
    requires
        n <= max,
    ensures
        parsed_number(decimal(n), max) == Some(n),
        n > 0 ==> decimal(n)[0] != '0',
{
    decimals_are_digits(n);
}

proof fn decimals_are_digits(n: nat)
    ensures
        decimal(n).len() > 0,
        all_digits(decimal(n)),
        digits_value(decimal(n)) == n,
        n > 0 ==> decimal(n)[0] != '0',
    decreases n,
{
    reveal_with_fuel(digits_value, 3);
    assert(forall|d: nat| d < 10 ==> '0' <= #[trigger] digit(d) <= '9' && digit(d) as u32 - '0' as u32
        == d && (d > 0 ==> digit(d) != '0'));
    let s = decimal(n);
    if n < 10 {
        assert(s.drop_last() =~= Seq::<char>::empty());
    } else {
        decimals_are_digits(n / 10);
        assert(s.drop_last() =~= decimal(n / 10));
        assert(s[0] == decimal(n / 10)[0]);
    }
}

/// Lowering the case changes capital letters into small ones and leaves all
/// else as it is, so it never changes the length and doing it twice changes
/// nothing more.
pub proof fn lowering_changes_capitals_only(s: Seq<char>, i: int)
    requires
        0 <= i < s.len(),
    ensures
        lowered(s).len() == s.len(),
        !('A' <= s[i] <= 'Z') ==> lowered(s)[i] == s[i],
        'A' <= s[i] <= 'Z' ==> lowered(s)[i] as u32 == s[i] as u32 + 32,
        lowered(lowered(s)) == lowered(s),
{
    assert forall|k: int| 0 <= k < s.len() implies lowered(lowered(s))[k] == #[trigger] lowered(
        s,
    )[k] by {
        let c = s[k];
        if 'A' <= c <= 'Z' {
            assert(lower(c) as u32 == c as u32 + 32);
        }
    }
    assert(lowered(lowered(s)) =~= lowered(s));
}

/// What stands in a text stands in a longer one that holds it.
pub proof fn longer_texts_hold_as_much(s: Seq<char>, front: Seq<char>, back: Seq<char>, p: Seq<char>)
    requires
        occurs(s, p),
    ensures
        occurs(front + s + back, p),
{
    let i = choose|i: int| occurs_at(s, p, i);
    let all = front + s + back;
    let at = front.len() + i;
    assert(all.subrange(at, at + p.len()) =~= s.subrange(i, i + p.len()));
    assert(occurs_at(all, p, at));
}

/// What stands in a part of a text stands in the text.
pub proof fn parts_stand_in_the_whole(front: Seq<char>, part: Seq<char>, back: Seq<char>)
    ensures
        occurs(front + part + back, part),
{
    assert(part.subrange(0, part.len() as int) =~= part);
    assert(occurs_at(part, part, 0));
    longer_texts_hold_as_much(part, front, back, part);
}

/// Every one of the texts that are put one after another stands in the result.
pub proof fn joined_texts_are_all_there(parts: Seq<Seq<char>>, sep: Seq<char>, i: int)
    requires
        0 <= i < parts.len(),
    ensures
        occurs(joined(parts, sep), parts[i]),
    decreases parts.len(),
{
    let none = Seq::<char>::empty();
    if parts.len() == 1 {
        parts_stand_in_the_whole(none, parts[0], none);
        assert(none + parts[0] + none =~= parts[0]);
    } else {
        let init = parts.drop_last();
        let front = joined(init, sep);
        if i < init.len() {
            joined_texts_are_all_there(init, sep, i);
            assert(init[i] == parts[i]);
            longer_texts_hold_as_much(front, none, sep + parts.last(), parts[i]);
            assert(none + front + (sep + parts.last()) =~= front + sep + parts.last());
        } else {
            parts_stand_in_the_whole(front + sep, parts.last(), none);
            assert(front + sep + parts.last() + none =~= front + sep + parts.last());
        }
    }
}

/// Every occurrence is replaced: what comes before the first one stays, the
/// replacement comes in its place, and the same is done behind it; a text without
/// one stays as it is.
pub proof fn all_occurrences_are_replaced(
    front: Seq<char>,
    back: Seq<char>,
    from: Seq<char>,
    to: Seq<char>,
)
    requires
        from.len() > 0,
        forall|i: int| 0 <= i < front.len() ==> !#[trigger] occurs_at(front + from + back, from, i),
    ensures
        replaced(front + from + back, from, to) == front + to + replaced(back, from, to),
    decreases front.len(),
{
    let s = front + from + back;
    if front.len() == 0 {
        assert(s.subrange(0, from.len() as int) =~= from);
        assert(begins(s, from));
        assert(s.skip(from.len() as int) =~= back);
        assert(replaced(s, from, to) == to + replaced(back, from, to));
        assert(front + to =~= to);
    } else {
        let rest = front.skip(1);
        assert(!occurs_at(s, from, 0));
        assert(s.skip(1) =~= rest + from + back);
        assert forall|i: int| 0 <= i < rest.len() implies !#[trigger] occurs_at(
            rest + from + back,
            from,
            i,
        ) by {
            if occurs_at(rest + from + back, from, i) {
                assert(s.subrange(i + 1, i + 1 + from.len()) =~= (rest + from + back).subrange(
                    i,
                    i + from.len(),
                ));
                assert(occurs_at(s, from, i + 1));
            }
        }
        all_occurrences_are_replaced(rest, back, from, to);
        assert(replaced(s, from, to) == seq![s[0]] + (rest + to + replaced(back, from, to)));
        assert(seq![s[0]] + (rest + to + replaced(back, from, to)) =~= front + to + replaced(
            back,
            from,
            to,
        ));
    }
}

/// A text in which something does not occur is not changed by replacing it.
pub proof fn texts_without_it_stay(s: Seq<char>, from: Seq<char>, to: Seq<char>)
    requires
        from.len() > 0,
        !occurs(s, from),
    ensures
        replaced(s, from, to) == s,
    decreases s.len(),
{
    if s.len() > 0 {
        let rest = s.skip(1);
        if occurs(rest, from) {
            let i = choose|i: int| occurs_at(rest, from, i);
            assert(s.subrange(i + 1, i + 1 + from.len()) =~= rest.subrange(i, i + from.len()));
            assert(occurs_at(s, from, i + 1));
        }
        texts_without_it_stay(rest, from, to);
        assert(!occurs_at(s, from, 0));
        assert(seq![s[0]] + rest =~= s);
    } else {
        assert(replaced(s, from, to) =~= s);
    }
}

/// The first piece of a text is all before the first separator, or the whole
/// text where there is none.
pub proof fn the_first_piece_ends_at_the_first_separator(
    front: Seq<char>,
    rest: Seq<char>,
    sep: char,
)
    requires
        !front.contains(sep),
    ensures
        pieces(front, sep) == seq![front],
        pieces(front + seq![sep] + rest, sep).len() >= 2,
        pieces(front + seq![sep] + rest, sep)[0] == front,
    decreases front.len() + rest.len(),
{
    if front.len() > 0 {
        let init = front.drop_last();
        assert(!init.contains(sep)) by {
            if init.contains(sep) {
                let k = choose|k: int| 0 <= k < init.len() && init[k] == sep;
                assert(front[k] == sep);
            }
        }
        the_first_piece_ends_at_the_first_separator(init, Seq::empty(), sep);
        assert(front[front.len() - 1] != sep);
        assert(init.push(front.last()) =~= front);
        assert(pieces(front, sep) =~= seq![front]);
    } else {
        assert(front =~= Seq::empty());
        assert(pieces(front, sep) =~= seq![front]);
    }
    let s = front + seq![sep] + rest;
    if rest.len() == 0 {
        assert(s.drop_last() =~= front);
        assert(s.last() == sep);
    } else {
        let before = front + seq![sep] + rest.drop_last();
        assert(s.drop_last() =~= before);
        the_first_piece_ends_at_the_first_separator(front, rest.drop_last(), sep);
    }
}

} // verus!
