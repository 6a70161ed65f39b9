//! Project paths: how they relate to each other and to the project root.
//!
//! Paths come here in their normalized written form.
use crate::text;
use vstd::prelude::*;

verus! {

broadcast use {vstd::string::group_string_axioms, vstd::seq::group_seq_axioms};

/// Which of the paths of one list relate to which of another: the entry in
/// row `i` and column `j` tells of path `i` of the first and path `j` of the
/// second.  Where there is no entry the two do not relate.
#[derive(Debug, Clone, PartialEq, Eq)]
pub struct PathRelation {
    pub rows: Vec<Vec<bool>>,
}

impl PathRelation {
    /// Path `i` relates to path `j`.
    pub open spec fn related(self, i: int, j: int) -> bool {
        0 <= i < self.rows@.len() && 0 <= j < self.rows@[i]@.len() && self.rows@[i]@[j]
    }

    /// Path `i` relates to one of the first `n` paths.
    pub open spec fn related_to_any(self, i: int, n: int) -> bool {
        exists|j: int| 0 <= j < n && self.related(i, j)
    }

    /// One of the first `m` paths relates to one of the first `n` paths.
    pub open spec fn any_related(self, m: int, n: int) -> bool {
        exists|i: int| 0 <= i < m && #[trigger] self.related_to_any(i, n)
    }

    /// A relation in which nothing relates.
    pub fn none() -> (r: Self)
        ensures
            forall|i: int, j: int| !r.related(i, j),
    {
        PathRelation { rows: Vec::new() }
    }

    pub fn is_related(&self, i: usize, j: usize) -> (r: bool)
        ensures
            r == self.related(i as int, j as int),
            r <==> i < self.rows@.len() && j < self.rows@[i as int]@.len()
                && self.rows@[i as int]@[j as int],
    {
        i < self.rows.len() && j < self.rows[i].len() && self.rows[i][j]
    }

    pub fn is_related_to_any(&self, i: usize, n: usize) -> (r: bool)
        ensures
            r == self.related_to_any(i as int, n as int),
            r <==> exists|j: int| 0 <= j < n && #[trigger] self.related(i as int, j),
    {
        let mut j: usize = 0;
        while j < n
            invariant
                j <= n,
                forall|k: int| 0 <= k < j ==> !self.related(i as int, k),
            decreases n - j,
        {
            if self.is_related(i, j) {
                return true;
            }
            j = j + 1;
        }
        false
    }

    pub fn is_any_related(&self, m: usize, n: usize) -> (r: bool)
        ensures
            r == self.any_related(m as int, n as int),
            r <==> exists|i: int, j: int|
                0 <= i < m && 0 <= j < n && #[trigger] self.related(i, j),
    {
        let mut i: usize = 0;
        while i < m
            invariant
                i <= m,
                forall|k: int| 0 <= k < i ==> !self.related_to_any(k, n as int),
            decreases m - i,
        {
            if self.is_related_to_any(i, n) {
                return true;
            }
            i = i + 1;
        }
        assert forall|i: int, j: int| 0 <= i < m && 0 <= j < n implies !(#[trigger] self.related(
            i,
            j,
        )) by {
            assert(!self.related_to_any(i, n as int));
        }
        false
    }
}

/// A path without the mark of a verbatim path.
pub open spec fn unmarked(path: Seq<char>) -> Seq<char> {
    match text::after_prefix(path, "/?/"@) {
        Some(rest) => rest,
        None => path,
    }
}

/// A path as it is compared: in lower case where case is ignored.
pub open spec fn comparable(path: Seq<char>, ignore_case: bool) -> Seq<char> {
    if ignore_case {
        text::lowered(path)
    } else {
        path
    }
}

/// A path relative to the project root: empty for the root itself, what
/// follows the root for a path below it, and otherwise the path.
pub open spec fn relative_to(root: Seq<char>, path: Seq<char>, ignore_case: bool) -> Seq<char> {
    let c = unmarked(path);
    let r = unmarked(root);
    if comparable(c, ignore_case) == comparable(r, ignore_case) {
        Seq::empty()
    } else if text::begins(comparable(c, ignore_case), comparable(r, ignore_case).push('/')) {
        c.skip(r.len() as int + 1)
    } else {
        c
    }
}

/// A path without the mark of a verbatim path.
pub fn normalized_root_path(path: &str) -> (r: String)
    ensures
        r@ == unmarked(path@),
{
    match text::strip_prefix(path, "/?/") {
        Some(rest) => rest,
        None => path.to_owned(),
    }
}

/// A path as it is compared.
pub fn comparable_path(path: &str, ignore_case: bool) -> (r: String)
    ensures
        r@ == comparable(path@, ignore_case),
{
    if ignore_case {
        text::to_lower(path)
    } else {
        path.to_owned()
    }
}

/// A path relative to the project root.
pub fn make_project_relative(root: &str, path: &str, ignore_case: bool) -> (r: String)
    ensures
        r@ == relative_to(root@, path@, ignore_case),
{
    let candidate = normalized_root_path(path);
    let project_root = normalized_root_path(root);
    let c = comparable_path(candidate.as_str(), ignore_case);
    let p = comparable_path(project_root.as_str(), ignore_case);
    if text::same(c.as_str(), p.as_str()) {
        return String::new();
    }
    let mut prefix = p;
    prefix.push('/');
    if text::starts_with(c.as_str(), prefix.as_str()) {
        let chars = text::chars_of(candidate.as_str());
        let cut = text::chars_of(prefix.as_str());
        let rest = text::slice_chars(&chars, cut.len(), chars.len());
        assert(rest@ =~= candidate@.skip(cut@.len() as int));
        return text::text_of(rest.as_slice());
    }
    candidate
}

/// Each path of a list relative to the project root.
pub open spec fn all_relative(
    root: Seq<char>,
    paths: Seq<Seq<char>>,
    ignore_case: bool,
) -> Seq<Seq<char>> {
    paths.map_values(|p: Seq<char>| relative_to(root, p, ignore_case))
}

/// Each path of a list relative to the project root.
pub fn make_all_relative(root: &str, paths: &Vec<String>, ignore_case: bool) -> (r: Vec<String>)
    ensures
        text::views(r@) == all_relative(root@, text::views(paths@), ignore_case),
{
    let mut out: Vec<String> = Vec::new();
    let mut i: usize = 0;
    while i < paths.len()
        invariant
            i <= paths@.len(),
            out@.len() == i,
            forall|j: int|
                0 <= j < i ==> (#[trigger] out@[j])@ == relative_to(
                    root@,
                    paths@[j]@,
                    ignore_case,
                ),
        decreases paths@.len() - i,
    {
        out.push(make_project_relative(root, paths[i].as_str(), ignore_case));
        i = i + 1;
    }
    assert(text::views(out@) =~= all_relative(root@, text::views(paths@), ignore_case));
    out
}

/// The root and a path below it give back what was put below: a path joined
/// to the root is the same path relative to it.
pub proof fn relative_undoes_joining(root: Seq<char>, path: Seq<char>, ignore_case: bool)
    requires
        !text::begins(root, "/?/"@),
        !text::begins(root.push('/') + path, "/?/"@),
    ensures
        relative_to(root, root.push('/') + path, ignore_case) == path,
{
    let c = root.push('/') + path;
    let cc = comparable(c, ignore_case);
    let rc = comparable(root, ignore_case);
    assert(cc.len() != rc.len());
    assert(text::lower('/') == '/');
    assert(cc.subrange(0, rc.len() as int + 1) =~= rc.push('/'));
    assert(c.skip(root.len() as int + 1) =~= path);
}

/// A path that is neither the root nor below it stays as it is, and the root is
/// the empty path.
pub proof fn paths_elsewhere_stay(root: Seq<char>, path: Seq<char>)
    requires
        !text::begins(root, "/?/"@),
        !text::begins(path, "/?/"@),
    ensures
        relative_to(root, root, false) == Seq::<char>::empty(),
        relative_to(root, root, true) == Seq::<char>::empty(),
        path != root && !text::begins(path, root.push('/')) ==> relative_to(root, path, false)
            == path,
        text::lowered(path) != text::lowered(root) && !text::begins(
            text::lowered(path),
            text::lowered(root).push('/'),
        ) ==> relative_to(root, path, true) == path,
{
}

} // verus!
