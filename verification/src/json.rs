//! JSON documents as plain values, and the few readings of JSON text that
//! decisions depend on.
use crate::model;
use crate::text;
use vstd::prelude::*;

verus! {

broadcast use {vstd::string::group_string_axioms, vstd::seq::group_seq_axioms};

/// A JSON document.  Numbers that are not integers are kept as written.
#[derive(Debug, PartialEq, Eq)]
pub enum Json {
    Null,
    Bool(bool),
    Integer(i128),
    Real(String),
    Text(String),
    Array(Vec<Json>),
    Object(Vec<(String, Json)>),
}

/// What a JSON document says.
pub enum JsonView {
    Null,
    Bool(bool),
    Integer(int),
    Real(Seq<char>),
    Text(Seq<char>),
    Array(Seq<JsonView>),
    Object(Seq<(Seq<char>, JsonView)>),
}

/// What a list of documents says.
pub open spec fn array_view(items: Seq<Json>) -> Seq<JsonView>
    decreases items,
{
    if items.len() == 0 {
        Seq::empty()
    } else {
        array_view(items.drop_last()).push(json_view(items.last()))
    }
}

/// What a list of members says.
pub open spec fn entries_view(entries: Seq<(String, Json)>) -> Seq<(Seq<char>, JsonView)>
    decreases entries,
{
    if entries.len() == 0 {
        Seq::empty()
    } else {
        entries_view(entries.drop_last()).push((entries.last().0@, json_view(entries.last().1)))
    }
}

/// What a document says.
pub open spec fn json_view(j: Json) -> JsonView
    decreases j,
{
    match j {
        Json::Null => JsonView::Null,
        Json::Bool(b) => JsonView::Bool(b),
        Json::Integer(n) => JsonView::Integer(n as int),
        Json::Real(s) => JsonView::Real(s@),
        Json::Text(s) => JsonView::Text(s@),
        Json::Array(items) => JsonView::Array(array_view(items@)),
        Json::Object(entries) => JsonView::Object(entries_view(entries@)),
    }
}

impl View for Json {
    type V = JsonView;

    open spec fn view(&self) -> JsonView {
        json_view(*self)
    }
}

/// Members are viewed one by one.
pub proof fn entries_view_index(entries: Seq<(String, Json)>)
    ensures
        entries_view(entries).len() == entries.len(),
        forall|i: int|
            0 <= i < entries.len() ==> #[trigger] entries_view(entries)[i] == (
                entries[i].0@,
                entries[i].1@,
            ),
    decreases entries.len(),
{
    if entries.len() > 0 {
        entries_view_index(entries.drop_last());
    }
}

/// Documents of a list are viewed one by one.
pub proof fn array_view_index(items: Seq<Json>)
    ensures
        array_view(items).len() == items.len(),
        forall|i: int| 0 <= i < items.len() ==> #[trigger] array_view(items)[i] == items[i]@,
    decreases items.len(),
{
    if items.len() > 0 {
        array_view_index(items.drop_last());
    }
}

impl JsonView {
    /// The member of an object under a key.
    pub open spec fn member(self, key: Seq<char>) -> Option<JsonView> {
        match self {
            JsonView::Object(entries) => first_member(entries, key),
            _ => None,
        }
    }

    /// An object with one more member at its end; any other document is
    /// replaced by an object with that member alone.
    pub open spec fn with(self, key: Seq<char>, value: JsonView) -> JsonView {
        JsonView::Object(
            (match self {
                JsonView::Object(entries) => entries,
                _ => Seq::empty(),
            }).push((key, value)),
        )
    }

    /// The text of a string.
    pub open spec fn text(self) -> Option<Seq<char>> {
        match self {
            JsonView::Text(s) => Some(s),
            _ => None,
        }
    }

    /// The text of a string member.
    pub open spec fn text_member(self, key: Seq<char>) -> Option<Seq<char>> {
        match self.member(key) {
            Some(v) => v.text(),
            None => None,
        }
    }
}

/// The texts among documents.
pub open spec fn texts_among(items: Seq<JsonView>) -> Seq<Seq<char>>
    decreases items.len(),
{
    if items.len() == 0 {
        Seq::empty()
    } else {
        let before = texts_among(items.drop_last());
        match items.last().text() {
            Some(t) => before.push(t),
            None => before,
        }
    }
}

/// The value of the first entry under a key.
pub open spec fn first_member(
    entries: Seq<(Seq<char>, JsonView)>,
    key: Seq<char>,
) -> Option<JsonView>
    decreases entries.len(),
{
    if entries.len() == 0 {
        None
    } else if entries[0].0 == key {
        Some(entries[0].1)
    } else {
        first_member(entries.skip(1), key)
    }
}

impl Json {
    /// The member of an object under a key.
    pub fn get(&self, key: &str) -> (r: Option<&Json>)
        ensures
            match r {
                Some(v) => self@.member(key@) == Some(v@),
                None => self@.member(key@) is None,
            },
    {
        match self {
            Json::Object(entries) => {
                let ghost all = self@->Object_0;
                let mut i: usize = 0;
                proof {
                    entries_view_index(entries@);
                }
                assert(all.skip(0) =~= all);
                while i < entries.len()
                    invariant
                        i <= entries@.len(),
                        self@ == JsonView::Object(all),
                        all.len() == entries@.len(),
                        forall|j: int|
                            0 <= j < entries@.len() ==> #[trigger] all[j] == (
                                entries@[j].0@,
                                entries@[j].1@,
                            ),
                        first_member(all, key@) == first_member(all.skip(i as int), key@),
                    decreases entries@.len() - i,
                {
                    let entry = &entries[i];
                    let ghost rest = all.skip(i as int);
                    assert(rest[0] == all[i as int]);
                    assert(all[i as int] == (entries@[i as int].0@, entries@[i as int].1@));
                    assert(rest.skip(1) =~= all.skip(i + 1));
                    if text::same(entry.0.as_str(), key) {
                        return Some(&entry.1);
                    }
                    i = i + 1;
                }
                None
            },
            _ => None,
        }
    }

    /// The text of a string.
    pub fn as_text(&self) -> (r: Option<&str>)
        ensures
            match r {
                Some(s) => self@.text() == Some(s@),
                None => self@.text() is None,
            },
    {
        match self {
            Json::Text(s) => Some(s.as_str()),
            _ => None,
        }
    }

    /// The text of a string member.
    pub fn get_text(&self, key: &str) -> (r: Option<&str>)
        ensures
            match r {
                Some(s) => self@.text_member(key@) == Some(s@),
                None => self@.text_member(key@) is None,
            },
    {
        match self.get(key) {
            Some(v) => v.as_text(),
            None => None,
        }
    }

    /// The truth value that this is.
    pub fn as_bool(&self) -> (r: Option<bool>)
        ensures
            match r {
                Some(b) => self@ == JsonView::Bool(b),
                None => !(self@ is Bool),
            },
    {
        match self {
            Json::Bool(b) => Some(*b),
            _ => None,
        }
    }

    /// The integer that this is.
    pub fn as_integer(&self) -> (r: Option<i128>)
        ensures
            match r {
                Some(n) => self@ == JsonView::Integer(n as int),
                None => !(self@ is Integer),
            },
    {
        match self {
            Json::Integer(n) => Some(*n),
            _ => None,
        }
    }

    /// Appends the texts of an array.
    pub fn append_texts(&self, out: &mut Vec<String>)
        ensures
            text::views(final(out)@) == text::views(old(out)@) + (match self@ {
                JsonView::Array(items) => texts_among(items),
                _ => Seq::empty(),
            }),
    {
        match self {
            Json::Array(items) => {
                let ghost all = array_view(items@);
                let ghost before = text::views(out@);
                proof {
                    array_view_index(items@);
                }
                let mut i: usize = 0;
                assert(all.take(0) =~= Seq::<JsonView>::empty());
                assert(text::views(out@) =~= before + texts_among(all.take(0)));
                while i < items.len()
                    invariant
                        i <= items@.len() == all.len(),
                        forall|j: int| 0 <= j < items@.len() ==> #[trigger] all[j] == items@[j]@,
                        text::views(out@) == before + texts_among(all.take(i as int)),
                    decreases items@.len() - i,
                {
                    assert(all.take(i + 1).drop_last() =~= all.take(i as int));
                    assert(all.take(i + 1).last() == items@[i as int]@);
                    match items[i].as_text() {
                        Some(t) => {
                            let ghost so_far = text::views(out@);
                            out.push(t.to_owned());
                            assert(text::views(out@) =~= so_far.push(t@));
                            assert(text::views(out@) =~= before + texts_among(all.take(i + 1)));
                        },
                        None => {},
                    }
                    i = i + 1;
                }
                assert(all.take(all.len() as int) =~= all);
            },
            _ => {
                assert(text::views(out@) + Seq::<Seq<char>>::empty() =~= text::views(out@));
            },
        }
    }

    /// Whether this is an object.
    pub fn is_object(&self) -> (r: bool)
        ensures
            r == (self@ is Object),
    {
        match self {
            Json::Object(_) => true,
            _ => false,
        }
    }

    /// Whether this is `null`.
    pub fn is_null(&self) -> (r: bool)
        ensures
            r == (self@ is Null),
    {
        match self {
            Json::Null => true,
            _ => false,
        }
    }

    /// Whether this is the given text.
    pub fn is_text(&self, s: &str) -> (r: bool)
        ensures
            r == (self@.text() == Some(s@)),
    {
        match self.as_text() {
            Some(t) => text::same(t, s),
            None => false,
        }
    }

    /// Another document that says the same.
    pub fn copy(&self) -> (r: Json)
        ensures
            r@ == self@,
        decreases self,
    {
        match self {
            Json::Null => Json::Null,
            Json::Bool(b) => Json::Bool(*b),
            Json::Integer(n) => Json::Integer(*n),
            Json::Real(s) => Json::Real(s.clone()),
            Json::Text(s) => Json::Text(s.clone()),
            Json::Array(items) => {
                let mut out: Vec<Json> = Vec::new();
                let mut i: usize = 0;
                while i < items.len()
                    invariant
                        i <= items@.len(),
                        out@.len() == i,
                        *self == Json::Array(*items),
                        forall|j: int| 0 <= j < i ==> (#[trigger] out@[j])@ == items@[j]@,
                    decreases items@.len() - i,
                {
                    assert(decreases_to!(*self => self->Array_0));
                    assert(decreases_to!(self->Array_0 => self->Array_0@));
                    assert(decreases_to!(self->Array_0@ => self->Array_0@[i as int]));
                    out.push(items[i].copy());
                    i = i + 1;
                }
                proof {
                    array_view_index(out@);
                    array_view_index(items@);
                }
                assert(array_view(out@) =~= array_view(items@));
                Json::Array(out)
            },
            Json::Object(entries) => {
                let mut out: Vec<(String, Json)> = Vec::new();
                let mut i: usize = 0;
                while i < entries.len()
                    invariant
                        i <= entries@.len(),
                        out@.len() == i,
                        *self == Json::Object(*entries),
                        forall|j: int|
                            0 <= j < i ==> (#[trigger] out@[j]).0@ == entries@[j].0@
                                && out@[j].1@ == entries@[j].1@,
                    decreases entries@.len() - i,
                {
                    assert(decreases_to!(*self => self->Object_0));
                    assert(decreases_to!(self->Object_0 => self->Object_0@));
                    assert(decreases_to!(self->Object_0@ => self->Object_0@[i as int]));
                    assert(decreases_to!(self->Object_0@[i as int] => self->Object_0@[i as int].1));
                    let entry = &entries[i];
                    out.push((entry.0.clone(), entry.1.copy()));
                    i = i + 1;
                }
                proof {
                    entries_view_index(out@);
                    entries_view_index(entries@);
                }
                assert(entries_view(out@) =~= entries_view(entries@));
                Json::Object(out)
            },
        }
    }

    /// A text document.
    pub fn text(s: &str) -> (r: Json)
        ensures
            r@ == JsonView::Text(s@),
    {
        Json::Text(s.to_owned())
    }

    /// An object without members.
    pub fn empty_object() -> (r: Json)
        ensures
            r@ == JsonView::Object(Seq::empty()),
    {
        Json::Object(Vec::new())
    }

    /// This object with one more member at its end; any other document is
    /// replaced by an object with that member alone.
    pub fn with(self, key: &str, value: Json) -> (r: Json)
        ensures
            r@ == self@.with(key@, value@),
    {
        match self {
            Json::Object(entries) => {
                let ghost before = entries@;
                let mut entries = entries;
                entries.push((key.to_owned(), value));
                assert(entries@.drop_last() =~= before);
                assert(entries_view(entries@) == entries_view(before).push((key@, value@)));
                Json::Object(entries)
            },
            _ => {
                let mut entries: Vec<(String, Json)> = Vec::new();
                entries.push((key.to_owned(), value));
                assert(entries@.drop_last() =~= Seq::<(String, Json)>::empty());
                assert(entries_view(Seq::<(String, Json)>::empty()) == Seq::<
                    (Seq<char>, JsonView),
                >::empty());
                assert(entries_view(entries@) == Seq::empty().push((key@, value@)));
                Json::Object(entries)
            },
        }
    }
}

/// The members of an object, as a view.
pub open spec fn object(entries: Seq<(Seq<char>, JsonView)>) -> JsonView {
    JsonView::Object(entries)
}

/// An object without members.
pub open spec fn empty() -> JsonView {
    JsonView::Object(Seq::empty())
}

proof fn first_member_of_more(
    entries: Seq<(Seq<char>, JsonView)>,
    key: Seq<char>,
    value: JsonView,
    other: Seq<char>,
)
    ensures
        first_member(entries.push((key, value)), other) == match first_member(entries, other) {
            Some(v) => Some(v),
            None => if other == key {
                Some(value)
            } else {
                None
            },
        },
    decreases entries.len(),
{
    let more = entries.push((key, value));
    if entries.len() == 0 {
        assert(more.skip(1) =~= Seq::<(Seq<char>, JsonView)>::empty());
        assert(first_member(more.skip(1), other) is None);
    } else {
        assert(more[0] == entries[0]);
        assert(more.skip(1) =~= entries.skip(1).push((key, value)));
        first_member_of_more(entries.skip(1), key, value, other);
    }
}

/// A member at the end of an object is found where none of its key stands
/// before it, and it hides no other.
pub proof fn members_of_more(j: JsonView, key: Seq<char>, value: JsonView, other: Seq<char>)
    requires
        j is Object,
    ensures
        j.with(key, value).member(other) == match j.member(other) {
            Some(v) => Some(v),
            None => if other == key {
                Some(value)
            } else {
                None
            },
        },
{
    first_member_of_more(j->Object_0, key, value, other);
}

/// A list of texts as an array.
pub open spec fn text_array(items: Seq<Seq<char>>) -> JsonView {
    JsonView::Array(items.map_values(|s: Seq<char>| JsonView::Text(s)))
}

/// A list of texts as an array.
pub fn array_of_texts(items: &Vec<String>) -> (r: Json)
    ensures
        r@ == text_array(text::views(items@)),
{
    let mut out: Vec<Json> = Vec::new();
    let mut i: usize = 0;
    while i < items.len()
        invariant
            i <= items@.len(),
            out@.len() == i,
            forall|j: int| 0 <= j < i ==> (#[trigger] out@[j])@ == JsonView::Text(items@[j]@),
        decreases items@.len() - i,
    {
        out.push(Json::Text(items[i].clone()));
        i = i + 1;
    }
    proof {
        array_view_index(out@);
    }
    assert(array_view(out@) =~= text_array(text::views(items@))->Array_0);
    Json::Array(out)
}

/// The string that JSON text holds under a member of its outermost object.
pub uninterp spec fn json_text_field(document: Seq<char>, field: Seq<char>) -> Option<Seq<char>>;

/// The list of strings that JSON text holds under a member of its outermost
/// object.
pub uninterp spec fn json_list_field(
    document: Seq<char>,
    field: Seq<char>,
) -> Option<Seq<Seq<char>>>;

/// The string that JSON text writes.
pub uninterp spec fn json_string(document: Seq<char>) -> Option<Seq<char>>;

/// `serde_json::from_str` into a value, then the named member where it is a
/// string: nothing where the text is not JSON, is no object, or has no such
/// member.  The reading is a function of the text and the member's name.
#[verifier::external_body]
pub(crate) fn read_text_field(document: &str, field: &str) -> (r: Option<String>)
    ensures
        model::opt_view(r) == json_text_field(document@, field@),
{
    serde_json::from_str::<serde_json::Value>(document).ok().and_then(
        |value| value.get(field).and_then(serde_json::Value::as_str).map(ToOwned::to_owned),
    )
}

/// What an optional list of texts says.
pub open spec fn opt_views(o: Option<Vec<String>>) -> Option<Seq<Seq<char>>> {
    match o {
        Some(v) => Some(text::views(v@)),
        None => None,
    }
}

/// `serde_json::from_str` into a value, then the named member read by
/// `serde_json::from_value` as a list of strings.  The reading is a function
/// of the text and the member's name.
#[verifier::external_body]
pub(crate) fn read_list_field(document: &str, field: &str) -> (r: Option<Vec<String>>)
    ensures
        opt_views(r) == json_list_field(document@, field@),
{
    serde_json::from_str::<serde_json::Value>(document).ok().and_then(
        |value| value.get(field).cloned(),
    ).and_then(|paths| serde_json::from_value::<Vec<String>>(paths).ok())
}

/// `serde_json::from_str` into a string: nothing where the text is not one
/// JSON string.  The reading is a function of the text.
#[verifier::external_body]
pub(crate) fn read_string(document: &str) -> (r: Option<String>)
    ensures
        model::opt_view(r) == json_string(document@),
{
    serde_json::from_str::<String>(document).ok()
}

/// What keeps bytes from being JSON.
pub uninterp spec fn json_complaint(document: Seq<u8>) -> Option<Seq<char>>;

/// The string that JSON bytes hold at a pointer: the names of members on the
/// way to it, each behind a `/`.
pub uninterp spec fn json_text_at(document: Seq<u8>, pointer: Seq<char>) -> Option<Seq<char>>;

/// JSON bytes as they are written anew, or what keeps them from being JSON.
pub uninterp spec fn json_rewritten(document: Seq<u8>) -> Result<Seq<u8>, Seq<char>>;

/// `serde_json::from_slice` into a value: what it complains of, where the bytes
/// are not JSON.  The complaint is a function of the bytes.
#[verifier::external_body]
pub(crate) fn read_complaint(document: &[u8]) -> (r: Option<String>)
    ensures
        model::opt_view(r) == json_complaint(document@),
{
    serde_json::from_slice::<serde_json::Value>(document).err().map(|error| error.to_string())
}

/// `serde_json::from_slice` into a value, then `serde_json::Value::pointer`
/// where it leads to a string: nothing where the bytes are not JSON or hold no
/// string there.  The reading is a function of the bytes and the pointer.
#[verifier::external_body]
pub(crate) fn read_text_at(document: &[u8], pointer: &str) -> (r: Option<String>)
    ensures
        model::opt_view(r) == json_text_at(document@, pointer@),
{
    serde_json::from_slice::<serde_json::Value>(document).ok().and_then(
        |value| value.pointer(pointer).and_then(serde_json::Value::as_str).map(ToOwned::to_owned),
    )
}

/// What the result of a rewriting says.
pub open spec fn rewriting_view(r: Result<Vec<u8>, String>) -> Result<Seq<u8>, Seq<char>> {
    match r {
        Ok(bytes) => Ok(bytes@),
        Err(complaint) => Err(complaint@),
    }
}

/// `serde_json::from_slice` into a value, then `serde_json::to_vec` of it: the
/// bytes written anew, or what either of them complains of.  Both are functions
/// of the bytes.
#[verifier::external_body]
pub(crate) fn rewrite(document: &[u8]) -> (r: Result<Vec<u8>, String>)
    ensures
        rewriting_view(r) == json_rewritten(document@),
{
    serde_json::from_slice::<serde_json::Value>(document).and_then(
        |value| serde_json::to_vec(&value),
    ).map_err(|error| error.to_string())
}

/// A text as JSON writes it.
pub uninterp spec fn json_written(s: Seq<char>) -> Seq<char>;

/// `serde_json::to_string` on a string: the string between quotation marks with
/// what JSON does not take escaped, so that reading it gives the string back.
/// How a character is escaped is left unsaid.
#[verifier::external_body]
pub(crate) fn write_string(s: &str) -> (r: String)
    ensures
        r@ == json_written(s@),
        json_string(r@) == Some(s@),
{
    serde_json::to_string(s).unwrap_or_default()
}

/// Texts as a JSON array.
pub open spec fn list_written(items: Seq<Seq<char>>) -> Seq<char> {
    "["@ + text::joined(items.map_values(|s: Seq<char>| json_written(s)), ","@) + "]"@
}

/// Texts as a JSON array.
pub fn write_list(items: &Vec<String>) -> (r: String)
    ensures
        r@ == list_written(text::views(items@)),
{
    let mut written: Vec<String> = Vec::new();
    let mut i: usize = 0;
    while i < items.len()
        invariant
            i <= items@.len(),
            written@.len() == i,
            forall|k: int| 0 <= k < i ==> (#[trigger] written@[k])@ == json_written(items@[k]@),
        decreases items@.len() - i,
    {
        written.push(write_string(items[i].as_str()));
        i = i + 1;
    }
    assert(text::views(written@) =~= text::views(items@).map_values(
        |s: Seq<char>| json_written(s),
    ));
    let joined = text::join(&written, ",");
    text::cat3("[", joined.as_str(), "]")
}

/// Names with the JSON text under each.
pub open spec fn member_views(members: Seq<(&'static str, String)>) -> Seq<
    (Seq<char>, Seq<char>),
> {
    members.map_values(|m: (&'static str, String)| (m.0@, m.1@))
}

/// No two members have the same name.
pub open spec fn members_apart(members: Seq<(Seq<char>, Seq<char>)>) -> bool {
    forall|i: int, j: int|
        0 <= i < j < members.len() ==> (#[trigger] members[i]).0 != (#[trigger] members[j]).0
}

/// The JSON object with these members, each given by its name and its JSON
/// text.
pub uninterp spec fn json_object_written(members: Seq<(Seq<char>, Seq<char>)>) -> Seq<char>;

/// `serde_json::from_str` of each member into a `serde_json::Map`, and the
/// object of that map as `serde_json` writes it.  The text is a function of the
/// members.  Where it can be read, a member that was written as a text or as a
/// list of texts is read back as it was.  How the members are ordered, and what
/// becomes of a member that is not JSON, is left unsaid.
#[verifier::external_body]
pub(crate) fn write_object(members: &Vec<(&'static str, String)>) -> (r: String)
    requires
        members_apart(member_views(members@)),
    ensures
        r@ == json_object_written(member_views(members@)),
        json_complaint(vstd::utf8::encode_utf8(r@)) is None ==> forall|i: int, s: Seq<char>|
            0 <= i < members@.len() && (#[trigger] members@[i]).1@ == #[trigger] json_written(s)
                ==> json_text_field(r@, members@[i].0@) == Some(s),
        json_complaint(vstd::utf8::encode_utf8(r@)) is None ==> forall|i: int, v: Seq<Seq<char>>|
            0 <= i < members@.len() && (#[trigger] members@[i]).1@ == #[trigger] list_written(v)
                ==> json_list_field(r@, members@[i].0@) == Some(v),
{
    let mut object = serde_json::Map::new();
    for (name, value) in members {
        object.insert((*name).to_owned(), serde_json::from_str(value).unwrap_or_default());
    }
    serde_json::Value::Object(object).to_string()
}

/// A member is the value of the first entry under its key, and there is none
/// exactly where no entry has the key.
pub proof fn members_are_the_first_of_their_key(
    entries: Seq<(Seq<char>, JsonView)>,
    key: Seq<char>,
)
    ensures
        first_member(entries, key) is None <==> forall|i: int|
            0 <= i < entries.len() ==> (#[trigger] entries[i]).0 != key,
        first_member(entries, key) is Some ==> exists|i: int|
            0 <= i < entries.len() && (#[trigger] entries[i]).0 == key && first_member(entries, key)
                == Some(entries[i].1) && forall|k: int|
                0 <= k < i ==> (#[trigger] entries[k]).0 != key,
    decreases entries.len(),
{
    if entries.len() > 0 && entries[0].0 != key {
        let rest = entries.skip(1);
        members_are_the_first_of_their_key(rest, key);
        assert forall|i: int| 0 <= i < rest.len() implies #[trigger] rest[i] == entries[i + 1] by {}
        if first_member(rest, key) is Some {
            let i = choose|i: int|
                0 <= i < rest.len() && (#[trigger] rest[i]).0 == key && first_member(rest, key)
                    == Some(rest[i].1) && forall|k: int|
                    0 <= k < i ==> (#[trigger] rest[k]).0 != key;
            assert(entries[i + 1] == rest[i]);
            assert forall|k: int| 0 <= k < i + 1 implies (#[trigger] entries[k]).0 != key by {
                if k > 0 {
                    assert(rest[k - 1] == entries[k]);
                }
            }
        } else {
            assert forall|i: int| 0 <= i < entries.len() implies (#[trigger] entries[i]).0
                != key by {
                if i > 0 {
                    assert(rest[i - 1] == entries[i]);
                }
            }
        }
    } else if entries.len() > 0 {
        assert(entries[0].0 == key);
    }
}

/// The texts among documents are all of them, in their order.
pub proof fn all_texts_are_found(items: Seq<JsonView>)
    ensures
        texts_among(items) == items.filter_map(
            |j: JsonView|
                match j {
                    JsonView::Text(t) => Some(t),
                    _ => None,
                },
        ),
        forall|t: Seq<char>| #[trigger]
            texts_among(items).contains(t) <==> items.contains(JsonView::Text(t)),
    decreases items.len(),
{
    let all = texts_among(items);
    let texts = |j: JsonView|
        match j {
            JsonView::Text(t) => Some(t),
            _ => None,
        };
    if items.len() > 0 {
        let init = items.drop_last();
        all_texts_are_found(init);
        let before = texts_among(init);
        assert(all =~= items.filter_map(texts));
        assert forall|t: Seq<char>| #[trigger]
            all.contains(t) <==> items.contains(JsonView::Text(t)) by {
            assert(before.contains(t) <==> init.contains(JsonView::Text(t)));
            if items.contains(JsonView::Text(t)) {
                let k = choose|k: int| 0 <= k < items.len() && items[k] == JsonView::Text(t);
                if k < init.len() {
                    assert(init[k] == items[k]);
                    let m = choose|m: int| 0 <= m < before.len() && before[m] == t;
                    assert(all[m] == t);
                } else {
                    assert(all[before.len() as int] == t);
                }
            }
            if all.contains(t) {
                let m = choose|m: int| 0 <= m < all.len() && all[m] == t;
                if m < before.len() {
                    assert(before[m] == t);
                    let k = choose|k: int| 0 <= k < init.len() && init[k] == JsonView::Text(t);
                    assert(items[k] == JsonView::Text(t));
                } else {
                    assert(items[items.len() - 1] == JsonView::Text(t));
                }
            }
        }
    } else {
        assert(all =~= items.filter_map(texts));
    }
}

} // verus!
