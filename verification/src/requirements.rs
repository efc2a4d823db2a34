//! Requirements collected from Markdown documents.
//!
//! A document may open with a front matter between `+++` delimiters. A requirement starts
//! with a heading whose first part is the requirement ID as inline code, followed by
//! `: ` and the title. A bullet list right after the heading sets its fields
//! (`Parents`, `Manual Verification`, `Deprecated`, `Exclude`, `Optional`, `Replaces`; any
//! other key becomes a property), and everything up to the next requirement heading is its
//! description.
use vstd::prelude::*;

use crate::json::{
    json5_document, json5_strings, json_view, parse_json5_strings, parse_json5_value, strings_view,
    JsonView,
};
use crate::markdown::{
    md_child_count, md_line, md_literal, md_render, md_tag, node_child_count, node_line, node_literal,
    node_render, node_tag, NodeTag,
};
use crate::properties::Properties;
use crate::text::{chars_are, find_from, from_chars, lowercase, rfind, to_chars, to_lowercase, trim, trim_chars};

verus! {

/// The front matter delimiter of Markdown documents.
pub open spec fn delimiter() -> Seq<char> {
    "+++"@
}

/// The kind of the node at `path`.
pub open spec fn tag(c: Seq<char>, path: Seq<usize>) -> NodeTag {
    md_tag(c, delimiter(), path)
}

/// The number of children of the node at `path`.
pub open spec fn kids(c: Seq<char>, path: Seq<usize>) -> nat {
    md_child_count(c, delimiter(), path)
}

/// The start line of the node at `path`.
pub open spec fn line_of(c: Seq<char>, path: Seq<usize>) -> nat {
    md_line(c, delimiter(), path)
}

/// The text of the node at `path`.
pub open spec fn literal(c: Seq<char>, path: Seq<usize>) -> Seq<char> {
    md_literal(c, delimiter(), path)
}

/// The node at `path` formatted as CommonMark.
pub open spec fn render(c: Seq<char>, path: Seq<usize>) -> Seq<char> {
    md_render(c, delimiter(), path)
}

/// The children `from..to` of the node at `path`, formatted and concatenated.
pub open spec fn render_range(c: Seq<char>, path: Seq<usize>, from: int, to: int) -> Seq<char>
    decreases to - from,
{
    if to <= from {
        Seq::empty()
    } else {
        render_range(c, path, from, to - 1) + render(c, path.push((to - 1) as usize))
    }
}

/// Reasons the collection of requirements from a document fails.
#[derive(Debug)]
pub enum CollectError {
    /// The front matter has no closing delimiter.
    MissingFrontmatterEnd,
    /// The front matter is not an object of the expected fields.
    InvalidFrontmatter,
    /// A value is not valid JSON5 of the expected form.
    Json5(json5::Error),
    /// A key-value entry in plain text has no `:` (its line).
    MissingKeyDelimiter(usize),
    /// A field entry is neither plain text nor a bold key followed by `:`.
    InvalidKey,
    /// A flag is neither `true` nor `false` (the value given).
    ExpectedBool(String),
    /// A flag was set twice.
    DuplicateEntry,
    /// A requirement heading has no `:` after its ID.
    MissingTitleSeparator,
    /// A requirement heading has no title after its `:`.
    MissingTitle,
    /// A list field (`Parents` or `Replaces`) was set twice.
    DuplicateField(FieldKey),
    /// The value of the field with the key is refused for the reason given.
    InField(FieldKey, Box<CollectError>),
    /// The `Parents` list has no closing `]`.
    MissingParentsEnd,
    /// The `Parents` list names no requirement (the value given).
    NoParents(String),
}

/// A collection error as plain data.
pub enum ErrView {
    MissingFrontmatterEnd,
    InvalidFrontmatter,
    Json5(Seq<char>),
    MissingKeyDelimiter(nat),
    InvalidKey,
    ExpectedBool(Seq<char>),
    DuplicateEntry,
    MissingTitleSeparator,
    MissingTitle,
    DuplicateField(FieldKey),
    InField(FieldKey, Box<ErrView>),
    MissingParentsEnd,
    NoParents(Seq<char>),
}

/// The plain data of a collection error.
pub open spec fn err_view(e: CollectError) -> ErrView
    decreases e,
{
    match e {
        CollectError::MissingFrontmatterEnd => ErrView::MissingFrontmatterEnd,
        CollectError::InvalidFrontmatter => ErrView::InvalidFrontmatter,
        CollectError::Json5(e) => ErrView::Json5(crate::json::json5_message(e)),
        CollectError::MissingKeyDelimiter(l) => ErrView::MissingKeyDelimiter(l as nat),
        CollectError::InvalidKey => ErrView::InvalidKey,
        CollectError::ExpectedBool(s) => ErrView::ExpectedBool(s@),
        CollectError::DuplicateEntry => ErrView::DuplicateEntry,
        CollectError::MissingTitleSeparator => ErrView::MissingTitleSeparator,
        CollectError::MissingTitle => ErrView::MissingTitle,
        CollectError::DuplicateField(k) => ErrView::DuplicateField(k),
        CollectError::InField(k, inner) => ErrView::InField(k, Box::new(err_view(*inner))),
        CollectError::MissingParentsEnd => ErrView::MissingParentsEnd,
        CollectError::NoParents(s) => ErrView::NoParents(s@),
    }
}

/// The keys of requirement fields.
#[derive(Debug, Clone, Copy, PartialEq, Eq, Structural)]
pub enum FieldKey {
    Parents,
    ManualVerification,
    Deprecated,
    Exclude,
    Optional,
    Replaces,
    Properties,
}

/// The field named by a key in lowercase; unknown keys name a property.
pub open spec fn field_key_of(lower: Seq<char>) -> FieldKey {
    if lower == "parents"@ {
        FieldKey::Parents
    } else if lower == "manual verification"@ || lower == "manual"@ {
        FieldKey::ManualVerification
    } else if lower == "deprecated"@ {
        FieldKey::Deprecated
    } else if lower == "exclude"@ {
        FieldKey::Exclude
    } else if lower == "optional"@ {
        FieldKey::Optional
    } else if lower == "replaces"@ {
        FieldKey::Replaces
    } else {
        FieldKey::Properties
    }
}

impl FieldKey {
    /// The field named by a key that is already in lowercase.
    pub fn from_lowercase(lower: &str) -> (key: FieldKey)
        ensures
            key == field_key_of(lower@),
    {
        let l = to_chars(lower);
        if chars_are(l.as_slice(), "parents") {
            FieldKey::Parents
        } else if chars_are(l.as_slice(), "manual verification") || chars_are(l.as_slice(), "manual") {
            FieldKey::ManualVerification
        } else if chars_are(l.as_slice(), "deprecated") {
            FieldKey::Deprecated
        } else if chars_are(l.as_slice(), "exclude") {
            FieldKey::Exclude
        } else if chars_are(l.as_slice(), "optional") {
            FieldKey::Optional
        } else if chars_are(l.as_slice(), "replaces") {
            FieldKey::Replaces
        } else {
            FieldKey::Properties
        }
    }

    /// The field named by a key, compared without regard to case.
    pub fn from_str(s: &str) -> (key: FieldKey)
        ensures
            key == field_key_of(lowercase(s@)),
            (forall|i: int| 0 <= i < s@.len() ==> crate::text::is_ascii_char(#[trigger] s@[i])) ==> key
                == field_key_of(crate::text::ascii_lowercase(s@)),
    {
        let lower = to_lowercase(s);
        FieldKey::from_lowercase(lower.as_str())
    }

    /// The name of the field.
    pub fn name(&self) -> (name: &'static str)
        ensures
            name@ == field_name(*self),
    {
        match self {
            FieldKey::Parents => "Parents",
            FieldKey::ManualVerification => "Manual Verification",
            FieldKey::Deprecated => "Deprecated",
            FieldKey::Exclude => "Exclude",
            FieldKey::Optional => "Optional",
            FieldKey::Replaces => "Replaces",
            FieldKey::Properties => "Properties",
        }
    }
}

/// The name of a field.
pub open spec fn field_name(k: FieldKey) -> Seq<char> {
    match k {
        FieldKey::Parents => "Parents"@,
        FieldKey::ManualVerification => "Manual Verification"@,
        FieldKey::Deprecated => "Deprecated"@,
        FieldKey::Exclude => "Exclude"@,
        FieldKey::Optional => "Optional"@,
        FieldKey::Replaces => "Replaces"@,
        FieldKey::Properties => "Properties"@,
    }
}

/// The flag a text denotes: `true` or `false` in any case, around whitespace.
pub open spec fn bool_of(s: Seq<char>) -> Option<bool> {
    let l = lowercase(trim(s));
    if l == "true"@ {
        Some(true)
    } else if l == "false"@ {
        Some(false)
    } else {
        None
    }
}

/// Reads a flag: `true` or `false`, in any case, with surrounding whitespace ignored.
pub fn match_bool(s: &str) -> (res: Result<bool, CollectError>)
    ensures
        match bool_of(s@) {
            Some(b) => res == Ok::<bool, CollectError>(b),
            None => res is Err && err_view(res->Err_0) == ErrView::ExpectedBool(s@),
        },
{
    let trimmed = from_chars(trim_chars(&to_chars(s)).as_slice());
    let lower = to_chars(to_lowercase(trimmed.as_str()).as_str());
    if chars_are(lower.as_slice(), "true") {
        Ok(true)
    } else if chars_are(lower.as_slice(), "false") {
        Ok(false)
    } else {
        Err(CollectError::ExpectedBool(from_chars(to_chars(s).as_slice())))
    }
}

/// Sets a flag that was not set before from its text.
pub fn update_bool(b: &mut Option<bool>, new: &str) -> (res: Result<(), CollectError>)
    ensures
        match bool_of(new@) {
            None => res is Err && err_view(res->Err_0) == ErrView::ExpectedBool(new@) && *final(b) == *old(b),
            Some(v) => if old(b).is_some() {
                res is Err && err_view(res->Err_0) == ErrView::DuplicateEntry && *final(b) == *old(b)
            } else {
                res is Ok && *final(b) == Some(v)
            },
        },
{
    let new_b = match match_bool(new) {
        Ok(v) => v,
        Err(e) => {
            return Err(e);
        },
    };
    if b.is_some() {
        Err(CollectError::DuplicateEntry)
    } else {
        *b = Some(new_b);
        Ok(())
    }
}

/// The path of child `j` of the node at `path`.
fn child_path(path: &Vec<usize>, j: usize) -> (q: Vec<usize>)
    ensures
        q@ == path@.push(j),
{
    let mut q: Vec<usize> = Vec::new();
    for i in 0..path.len()
        invariant
            q@ == path@.take(i as int),
    {
        q.push(path[i]);
        assert(path@.take(i + 1) == path@.take(i as int).push(path@[i as int]));
    }
    assert(path@.take(path@.len() as int) == path@);
    q.push(j);
    q
}

/// Appends the characters of `s`.
fn append_str(acc: &mut Vec<char>, s: &str)
    ensures
        final(acc)@ == old(acc)@ + s@,
{
    let v = to_chars(s);
    let ghost start = acc@;
    for i in 0..v.len()
        invariant
            v@ == s@,
            start == old(acc)@,
            acc@ == start + v@.take(i as int),
    {
        acc.push(v[i]);
        assert(v@.take(i + 1) == v@.take(i as int).push(v@[i as int]));
    }
    assert(v@.take(v@.len() as int) == v@);
}

/// The children `from..to` of the node at `path`, formatted as CommonMark and concatenated.
pub fn render_children(content: &str, path: &Vec<usize>, from: usize, to: usize) -> (res: Vec<char>)
    ensures
        res@ == render_range(content@, path@, from as int, to as int),
{
    let mut acc: Vec<char> = Vec::new();
    let mut j = from;
    while j < to
        invariant
            from <= j <= to || (j == from && to < from),
            acc@ == render_range(content@, path@, from as int, j as int),
        decreases to - j,
    {
        let q = child_path(path, j);
        let r = node_render(content, "+++", &q);
        append_str(&mut acc, r.as_str());
        j = j + 1;
    }
    acc
}

/// The ID and title of a requirement heading.
pub struct RequirementHeading {
    pub id: String,
    pub title: String,
}

/// What the heading at `path` defines. A heading whose first part is inline code defines a
/// requirement with that code as ID: the rest of the heading, formatted and trimmed, must
/// start with `:` and hold a title after it, trimmed too; otherwise the heading is in error.
/// Other headings define nothing (`None`).
pub open spec fn heading_of(c: Seq<char>, path: Seq<usize>) -> Option<Result<(Seq<char>, Seq<char>), ErrView>> {
    if kids(c, path) > 0 && tag(c, path.push(0)) == NodeTag::Code {
        let t = trim(render_range(c, path, 1, kids(c, path) as int));
        if t.len() == 0 || t[0] != ':' {
            Some(Err(ErrView::MissingTitleSeparator))
        } else if trim(t.skip(1)).len() == 0 {
            Some(Err(ErrView::MissingTitle))
        } else {
            Some(Ok((literal(c, path.push(0)), trim(t.skip(1)))))
        }
    } else {
        None
    }
}

/// The ID and title the heading at `path` defines, if it defines a requirement.
pub fn extract_requirement_heading(content: &str, path: &Vec<usize>) -> (res: Result<Option<RequirementHeading>, CollectError>)
    ensures
        match heading_of(content@, path@) {
            None => res is Ok && res->Ok_0 is None,
            Some(Err(e)) => res is Err && err_view(res->Err_0) == e,
            Some(Ok((id, title))) => res is Ok && res->Ok_0 is Some && res->Ok_0->0.id@ == id && res->Ok_0->0.title@
                == title,
        },
{
    let n = node_child_count(content, "+++", path);
    if n == 0 {
        return Ok(None);
    }
    let first = child_path(path, 0);
    if node_tag(content, "+++", &first) != NodeTag::Code {
        return Ok(None);
    }
    let id = node_literal(content, "+++", &first);
    let title_part = render_children(content, path, 1, n);
    let t = trim_chars(&title_part);
    if t.len() == 0 || t[0] != ':' {
        return Err(CollectError::MissingTitleSeparator);
    }
    let rest = crate::text::slice_chars(&t, 1, t.len());
    assert(rest@ == t@.skip(1));
    let title = trim_chars(&rest);
    if title.len() == 0 {
        Err(CollectError::MissingTitle)
    } else {
        Ok(Some(RequirementHeading { id, title: from_chars(title.as_slice()) }))
    }
}

/// The properties as plain data.
pub open spec fn props_view(p: Properties) -> Map<Seq<char>, JsonView> {
    p@.map_values(|v: serde_json::Value| json_view(v))
}

/// Optional properties as plain data.
pub open spec fn opt_props_view(p: Option<Properties>) -> Option<Map<Seq<char>, JsonView>> {
    match p {
        Some(p) => Some(props_view(p)),
        None => None,
    }
}

/// The map formed by entries in order, later entries taking precedence.
pub open spec fn pairs_map(es: Seq<(Seq<char>, JsonView)>) -> Map<Seq<char>, JsonView>
    decreases es.len(),
{
    if es.len() == 0 {
        Map::empty()
    } else {
        pairs_map(es.drop_last()).insert(es.last().0, es.last().1)
    }
}

/// Object entries as plain data.
pub open spec fn entries_view(es: Seq<(String, serde_json::Value)>) -> Seq<(Seq<char>, JsonView)> {
    es.map_values(|e: (String, serde_json::Value)| (e.0@, json_view(e.1)))
}

/// The properties made of object entries, in order.
fn properties_from_entries(entries: &Vec<(String, serde_json::Value)>) -> (props: Properties)
    ensures
        props.wf(),
        props_view(props) == pairs_map(entries_view(entries@)),
{
    let mut props = Properties::new();
    let n = entries.len();
    assert(props_view(props) =~= pairs_map(entries_view(entries@).take(0)));
    for i in 0..n
        invariant
            n == entries@.len(),
            props.wf(),
            props_view(props) == pairs_map(entries_view(entries@).take(i as int)),
    {
        let ghost before = props@;
        props.insert(entries[i].0.clone(), crate::properties::clone_json(&entries[i].1));
        proof {
            let t = entries_view(entries@).take(i + 1);
            assert(t.drop_last() == entries_view(entries@).take(i as int));
            assert(t.last() == (entries@[i as int].0@, json_view(entries@[i as int].1)));
            assert(props_view(props) =~= before.map_values(|v: serde_json::Value| json_view(v)).insert(
                entries@[i as int].0@,
                json_view(entries@[i as int].1),
            ));
        }
    }
    assert(entries_view(entries@).take(n as int) == entries_view(entries@));
    props
}

/// The value of the first entry with `key`.
pub open spec fn lookup(es: Seq<(Seq<char>, JsonView)>, key: Seq<char>) -> Option<JsonView>
    decreases es.len(),
{
    if es.len() == 0 {
        None
    } else if es[0].0 == key {
        Some(es[0].1)
    } else {
        lookup(es.drop_first(), key)
    }
}

/// The index of the first entry with `key`.
fn find_entry(entries: &Vec<(String, serde_json::Value)>, key: &str) -> (res: Option<usize>)
    ensures
        match lookup(entries_view(entries@), key@) {
            Some(v) => res is Some && res->0 < entries@.len() && entries@[res->0 as int].0@ == key@ && json_view(
                entries@[res->0 as int].1,
            ) == v,
            None => res is None,
        },
{
    let k = to_chars(key);
    let mut i: usize = 0;
    assert(entries_view(entries@).skip(0) == entries_view(entries@));
    while i < entries.len()
        invariant
            k@ == key@,
            i <= entries@.len(),
            lookup(entries_view(entries@), key@) == lookup(entries_view(entries@).skip(i as int), key@),
        decreases entries@.len() - i,
    {
        let ghost rest = entries_view(entries@).skip(i as int);
        assert(rest[0] == (entries@[i as int].0@, json_view(entries@[i as int].1)));
        if chars_are(k.as_slice(), entries[i].0.as_str()) {
            return Some(i);
        }
        assert(rest.drop_first() == entries_view(entries@).skip(i + 1));
        i = i + 1;
    }
    assert(entries_view(entries@).skip(i as int).len() == 0);
    None
}

/// The front matter of a Markdown document.
pub struct Frontmatter {
    /// The schema version the document was written for.
    pub mantra_schema: Option<String>,
    pub product_id: Option<String>,
    pub properties: Option<Properties>,
    /// Origin applied to all requirements of the document.
    pub origin: Option<serde_json::Value>,
}

/// The front matter as plain data.
pub struct FrontmatterView {
    pub mantra_schema: Option<Seq<char>>,
    pub product_id: Option<Seq<char>>,
    pub properties: Option<Map<Seq<char>, JsonView>>,
    pub origin: Option<JsonView>,
}

/// An optional text field: absent or `null` is `None`, a string is its text; anything else
/// is refused (`None`).
pub open spec fn opt_text_field(v: Option<JsonView>) -> Option<Option<Seq<char>>> {
    match v {
        None => Some(None),
        Some(JsonView::Null) => Some(None),
        Some(JsonView::Str(s)) => Some(Some(s)),
        _ => None,
    }
}

/// An optional object field: absent or `null` is `None`, an object is its entries as a map;
/// anything else is refused (`None`).
pub open spec fn opt_object_field(v: Option<JsonView>) -> Option<Option<Map<Seq<char>, JsonView>>> {
    match v {
        None => Some(None),
        Some(JsonView::Null) => Some(None),
        Some(JsonView::Object(es)) => Some(Some(pairs_map(es))),
        _ => None,
    }
}

/// The front matter a JSON document describes: an object whose fields `mantra_schema` and
/// `product_id` are optional strings, `properties` an optional object and `origin` any
/// optional value; other fields are ignored. `None` where the document is not of this form.
pub open spec fn frontmatter_of(doc: JsonView) -> Option<FrontmatterView> {
    match doc {
        JsonView::Object(es) => {
            let schema = opt_text_field(lookup(es, "mantra_schema"@));
            let pid = opt_text_field(lookup(es, "product_id"@));
            let props = opt_object_field(lookup(es, "properties"@));
            let origin = match lookup(es, "origin"@) {
                Some(JsonView::Null) => None,
                o => o,
            };
            if schema is Some && pid is Some && props is Some {
                Some(FrontmatterView { mantra_schema: schema->0, product_id: pid->0, properties: props->0, origin })
            } else {
                None
            }
        },
        _ => None,
    }
}

/// Optional text as plain data.
pub open spec fn opt_text(o: Option<String>) -> Option<Seq<char>> {
    match o {
        Some(s) => Some(s@),
        None => None,
    }
}

/// The front matter and its plain data agree.
pub open spec fn frontmatter_matches(f: Frontmatter, v: FrontmatterView) -> bool {
    &&& opt_text(f.mantra_schema) == v.mantra_schema
    &&& opt_text(f.product_id) == v.product_id
    &&& opt_props_view(f.properties) == v.properties
    &&& match f.properties {
        Some(p) => p.wf(),
        None => true,
    }
    &&& match f.origin {
        Some(o) => v.origin == Some(json_view(o)),
        None => v.origin is None,
    }
}

/// Reads an optional text field of the front matter.
fn text_field(entries: &Vec<(String, serde_json::Value)>, key: &str) -> (res: Result<Option<String>, CollectError>)
    ensures
        match opt_text_field(lookup(entries_view(entries@), key@)) {
            Some(t) => res is Ok && opt_text(res->Ok_0) == t,
            None => res is Err && err_view(res->Err_0) == ErrView::InvalidFrontmatter,
        },
{
    match find_entry(entries, key) {
        None => Ok(None),
        Some(i) => {
            if crate::json::json_is_null(&entries[i].1) {
                Ok(None)
            } else {
                match crate::json::json_as_string(&entries[i].1) {
                    Some(s) => Ok(Some(s)),
                    None => Err(CollectError::InvalidFrontmatter),
                }
            }
        },
    }
}

/// The front matter a JSON value describes.
pub fn frontmatter_from_value(value: &serde_json::Value) -> (res: Result<Frontmatter, CollectError>)
    ensures
        match frontmatter_of(json_view(*value)) {
            Some(v) => res is Ok && frontmatter_matches(res->Ok_0, v),
            None => res is Err && err_view(res->Err_0) == ErrView::InvalidFrontmatter,
        },
{
    let entries = match crate::json::json_object_entries(value) {
        Some(e) => e,
        None => {
            return Err(CollectError::InvalidFrontmatter);
        },
    };
    let ghost es = match json_view(*value) {
        JsonView::Object(es) => es,
        _ => Seq::empty(),
    };
    assert(entries_view(entries@) =~= es);
    let mantra_schema = text_field(&entries, "mantra_schema")?;
    let product_id = text_field(&entries, "product_id")?;
    let properties = match find_entry(&entries, "properties") {
        None => None,
        Some(i) => {
            if crate::json::json_is_null(&entries[i].1) {
                None
            } else {
                match crate::json::json_object_entries(&entries[i].1) {
                    Some(inner) => {
                        let ghost ies = match json_view(entries@[i as int].1) {
                            JsonView::Object(ies) => ies,
                            _ => Seq::empty(),
                        };
                        assert(entries_view(inner@) =~= ies);
                        Some(properties_from_entries(&inner))
                    },
                    None => {
                        return Err(CollectError::InvalidFrontmatter);
                    },
                }
            }
        },
    };
    let origin = match find_entry(&entries, "origin") {
        None => None,
        Some(i) => {
            if crate::json::json_is_null(&entries[i].1) {
                None
            } else {
                Some(crate::properties::clone_json(&entries[i].1))
            }
        },
    };
    Ok(Frontmatter { mantra_schema, product_id, properties, origin })
}

/// The JSON5 text of a front matter: the first delimiter becomes `{`, and the text up to the
/// last delimiter is closed with `}`; `None` where no closing delimiter is left.
pub open spec fn frontmatter_json_text(s: Seq<char>) -> Option<Seq<char>> {
    let r = match find_from(s, delimiter(), 0) {
        Some(k) => s.take(k) + "{"@ + s.skip(k + delimiter().len()),
        None => s,
    };
    match rfind(r, delimiter()) {
        Some(k) => Some(r.take(k).push('}')),
        None => None,
    }
}

/// The front matter a text describes, or why it does not describe one.
pub open spec fn frontmatter_spec(s: Seq<char>) -> Result<FrontmatterView, ErrView> {
    match frontmatter_json_text(s) {
        None => Err(ErrView::MissingFrontmatterEnd),
        Some(t) => match json5_document(t) {
            None => Err(ErrView::Json5(crate::json::json5_document_error(t))),
            Some(doc) => match frontmatter_of(doc) {
                None => Err(ErrView::InvalidFrontmatter),
                Some(f) => Ok(f),
            },
        },
    }
}

/// The text of a front matter, delimiters included, turned into JSON5.
pub fn frontmatter_json(content: &str) -> (res: Option<String>)
    ensures
        match frontmatter_json_text(content@) {
            Some(t) => res is Some && res->0@ == t,
            None => res is None,
        },
{
    let chars = to_chars(content);
    let d = to_chars("+++");
    proof {
        reveal_strlit("+++");
    }
    let found = crate::text::find_chars(&chars, &d);
    let r = match found {
        Some(k) => {
            assert(crate::text::occurs_at(chars@, d@, k as int));
            assert(k + d@.len() <= chars@.len());
            assert(d@.len() == d.len());
            assert(k + d.len() <= chars.len());
            let after = k + d.len();
            let mut r = crate::text::slice_chars(&chars, 0, k);
            append_str(&mut r, "{");
            let rest = crate::text::slice_chars(&chars, after, chars.len());
            append_str(&mut r, from_chars(rest.as_slice()).as_str());
            assert(chars@.subrange(0, k as int) == chars@.take(k as int));
            assert(rest@ == chars@.skip(after as int));
            r
        },
        None => chars,
    };
    match crate::text::rfind_chars(&r, &d) {
        Some(k) => {
            let mut t = crate::text::slice_chars(&r, 0, k);
            t.push('}');
            assert(r@.subrange(0, k as int) == r@.take(k as int));
            Some(from_chars(t.as_slice()))
        },
        None => None,
    }
}

/// Reads the front matter of a Markdown document (its text including the delimiters).
pub fn resolve_frontmatter(content: &str) -> (res: Result<Frontmatter, CollectError>)
    ensures
        match frontmatter_spec(content@) {
            Ok(v) => res is Ok && frontmatter_matches(res->Ok_0, v),
            Err(e) => res is Err && err_view(res->Err_0) == e,
        },
{
    let text = match frontmatter_json(content) {
        Some(t) => t,
        None => {
            return Err(CollectError::MissingFrontmatterEnd);
        },
    };
    match parse_json5_value(text.as_str()) {
        Ok(value) => frontmatter_from_value(&value),
        Err(e) => Err(CollectError::Json5(e)),
    }
}

/// The fields set by the list that follows a requirement heading.
pub struct ReqFields {
    pub parents: Option<Vec<String>>,
    pub manual_verification: Option<bool>,
    pub deprecated: Option<bool>,
    pub exclude: Option<bool>,
    pub optional: Option<bool>,
    pub replaces: Option<Vec<String>>,
    pub properties: Option<Properties>,
}

/// Requirement fields as plain data.
pub struct FieldsView {
    pub parents: Option<Seq<Seq<char>>>,
    pub manual_verification: Option<bool>,
    pub deprecated: Option<bool>,
    pub exclude: Option<bool>,
    pub optional: Option<bool>,
    pub replaces: Option<Seq<Seq<char>>>,
    pub properties: Option<Map<Seq<char>, JsonView>>,
}

/// Optional lists of strings as plain data.
pub open spec fn opt_strings(o: Option<Vec<String>>) -> Option<Seq<Seq<char>>> {
    match o {
        Some(v) => Some(strings_view(v@)),
        None => None,
    }
}

/// The plain data of requirement fields.
pub open spec fn fields_view(f: ReqFields) -> FieldsView {
    FieldsView {
        parents: opt_strings(f.parents),
        manual_verification: f.manual_verification,
        deprecated: f.deprecated,
        exclude: f.exclude,
        optional: f.optional,
        replaces: opt_strings(f.replaces),
        properties: opt_props_view(f.properties),
    }
}

/// The properties of the fields are well formed.
pub open spec fn fields_wf(f: ReqFields) -> bool {
    match f.properties {
        Some(p) => p.wf(),
        None => true,
    }
}

/// No field set.
pub open spec fn no_fields() -> FieldsView {
    FieldsView {
        parents: None,
        manual_verification: None,
        deprecated: None,
        exclude: None,
        optional: None,
        replaces: None,
        properties: None,
    }
}

impl ReqFields {
    /// No field set.
    pub fn new() -> (f: ReqFields)
        ensures
            fields_view(f) == no_fields(),
            fields_wf(f),
    {
        ReqFields {
            parents: None,
            manual_verification: None,
            deprecated: None,
            exclude: None,
            optional: None,
            replaces: None,
            properties: None,
        }
    }
}

/// A field value as it is read: trimmed, with the `\[` and `\]` escapes that formatting
/// adds undone.
pub open spec fn unescape(v: Seq<char>) -> Seq<char> {
    crate::text::replace_all(crate::text::replace_all(trim(v), "\\["@, "["@), "\\]"@, "]"@)
}

/// The parent IDs a `Parents` value lists: the list up to its last `]`, read without
/// backslashes as a JSON5 list of strings, which must not be empty.
pub open spec fn parents_of(u: Seq<char>) -> Result<Seq<Seq<char>>, ErrView> {
    match crate::text::rfind_char_before(u, ']', u.len() as int) {
        None => Err(ErrView::MissingParentsEnd),
        Some(k) => match json5_strings(crate::text::remove_char(u.take(k + 1), '\\')) {
            None => Err(ErrView::Json5(crate::json::json5_strings_error(crate::text::remove_char(u.take(k + 1), '\\')))),
            Some(ids) => if ids.len() == 0 {
                Err(ErrView::NoParents(u))
            } else {
                Ok(ids)
            },
        },
    }
}

/// A flag read from its text, where it was not set before.
pub open spec fn bool_field(old: Option<bool>, u: Seq<char>) -> Result<bool, ErrView> {
    match bool_of(u) {
        None => Err(ErrView::ExpectedBool(u)),
        Some(b) => if old is Some {
            Err(ErrView::DuplicateEntry)
        } else {
            Ok(b)
        },
    }
}

/// The fields after the entry `raw_key: raw_value`.
pub open spec fn apply_field_spec(acc: FieldsView, raw_key: Seq<char>, raw_value: Seq<char>) -> Result<FieldsView, ErrView> {
    let u = unescape(raw_value);
    match field_key_of(lowercase(raw_key)) {
        FieldKey::Parents => match parents_of(u) {
            Err(e) => Err(e),
            Ok(ids) => if acc.parents is Some {
                Err(ErrView::DuplicateField(FieldKey::Parents))
            } else {
                Ok(FieldsView { parents: Some(ids), ..acc })
            },
        },
        FieldKey::ManualVerification => match bool_field(acc.manual_verification, u) {
            Err(e) => Err(ErrView::InField(FieldKey::ManualVerification, Box::new(e))),
            Ok(b) => Ok(FieldsView { manual_verification: Some(b), ..acc }),
        },
        FieldKey::Deprecated => match bool_field(acc.deprecated, u) {
            Err(e) => Err(ErrView::InField(FieldKey::Deprecated, Box::new(e))),
            Ok(b) => Ok(FieldsView { deprecated: Some(b), ..acc }),
        },
        FieldKey::Exclude => match bool_field(acc.exclude, u) {
            Err(e) => Err(ErrView::InField(FieldKey::Exclude, Box::new(e))),
            Ok(b) => Ok(FieldsView { exclude: Some(b), ..acc }),
        },
        FieldKey::Optional => match bool_field(acc.optional, u) {
            Err(e) => Err(ErrView::InField(FieldKey::Optional, Box::new(e))),
            Ok(b) => Ok(FieldsView { optional: Some(b), ..acc }),
        },
        FieldKey::Replaces => match json5_strings(u) {
            None => Err(ErrView::Json5(crate::json::json5_strings_error(u))),
            Some(ids) => if acc.replaces is Some {
                Err(ErrView::DuplicateField(FieldKey::Replaces))
            } else {
                Ok(FieldsView { replaces: Some(ids), ..acc })
            },
        },
        FieldKey::Properties => match json5_document(u) {
            None => Err(ErrView::Json5(crate::json::json5_document_error(u))),
            Some(v) => Ok(
                FieldsView {
                    properties: Some(
                        match acc.properties {
                            Some(m) => m.insert(raw_key, v),
                            None => Map::empty().insert(raw_key, v),
                        },
                    ),
                    ..acc
                },
            ),
        },
    }
}

/// The parent IDs a `Parents` value lists.
fn parse_parents(u: &Vec<char>) -> (res: Result<Vec<String>, CollectError>)
    ensures
        match parents_of(u@) {
            Ok(ids) => res is Ok && strings_view(res->Ok_0@) == ids,
            Err(e) => res is Err && err_view(res->Err_0) == e,
        },
{
    let k = match crate::text::rfind_char(u, ']') {
        Some(k) => k,
        None => {
            return Err(CollectError::MissingParentsEnd);
        },
    };
    assert(k < u@.len());
    assert(k + 1 <= u.len());
    let list = crate::text::remove_char_exec(&crate::text::slice_chars(u, 0, k + 1), '\\');
    assert(u@.subrange(0, k + 1) == u@.take(k + 1));
    match parse_json5_strings(from_chars(list.as_slice()).as_str()) {
        Ok(ids) => {
            if ids.len() == 0 {
                Err(CollectError::NoParents(from_chars(u.as_slice())))
            } else {
                Ok(ids)
            }
        },
        Err(e) => Err(CollectError::Json5(e)),
    }
}

/// Applies the entry `raw_key: raw_value` to the fields.
pub fn apply_field(fields: &mut ReqFields, raw_key: &String, raw_value: &String) -> (res: Result<(), CollectError>)
    requires
        fields_wf(*old(fields)),
    ensures
        match apply_field_spec(fields_view(*old(fields)), raw_key@, raw_value@) {
            Ok(v) => res is Ok && fields_view(*final(fields)) == v && fields_wf(*final(fields)),
            Err(e) => res is Err && err_view(res->Err_0) == e,
        },
{
    proof {
        reveal_strlit("\\[");
        reveal_strlit("\\]");
    }
    let trimmed = trim_chars(&to_chars(raw_value.as_str()));
    let u = crate::text::replace_all_chars(
        &crate::text::replace_all_chars(&trimmed, &to_chars("\\["), &to_chars("[")),
        &to_chars("\\]"),
        &to_chars("]"),
    );
    let value = from_chars(u.as_slice());
    match FieldKey::from_str(raw_key.as_str()) {
        FieldKey::Parents => {
            let ids = match parse_parents(&u) {
                Ok(ids) => ids,
                Err(e) => {
                    return Err(e);
                },
            };
            if fields.parents.is_some() {
                return Err(CollectError::DuplicateField(FieldKey::Parents));
            }
            fields.parents = Some(ids);
        },
        FieldKey::ManualVerification => {
            if let Err(e) = update_bool(&mut fields.manual_verification, value.as_str()) {
                return Err(CollectError::InField(FieldKey::ManualVerification, Box::new(e)));
            }
        },
        FieldKey::Deprecated => {
            if let Err(e) = update_bool(&mut fields.deprecated, value.as_str()) {
                return Err(CollectError::InField(FieldKey::Deprecated, Box::new(e)));
            }
        },
        FieldKey::Exclude => {
            if let Err(e) = update_bool(&mut fields.exclude, value.as_str()) {
                return Err(CollectError::InField(FieldKey::Exclude, Box::new(e)));
            }
        },
        FieldKey::Optional => {
            if let Err(e) = update_bool(&mut fields.optional, value.as_str()) {
                return Err(CollectError::InField(FieldKey::Optional, Box::new(e)));
            }
        },
        FieldKey::Replaces => {
            let ids = match parse_json5_strings(value.as_str()) {
                Ok(ids) => ids,
                Err(e) => {
                    return Err(CollectError::Json5(e));
                },
            };
            if fields.replaces.is_some() {
                return Err(CollectError::DuplicateField(FieldKey::Replaces));
            }
            fields.replaces = Some(ids);
        },
        FieldKey::Properties => {
            let v = match parse_json5_value(value.as_str()) {
                Ok(v) => v,
                Err(e) => {
                    return Err(CollectError::Json5(e));
                },
            };
            let ghost jv = json_view(v);
            let ghost had = fields.properties is Some;
            let mut props = match fields.properties.take() {
                Some(p) => p,
                None => Properties::new(),
            };
            let ghost before = props@;
            assert(!had ==> before.map_values(|x: serde_json::Value| json_view(x)) =~= Map::<
                Seq<char>,
                JsonView,
            >::empty());
            props.insert(from_chars(to_chars(raw_key.as_str()).as_slice()), v);
            assert(props_view(props) =~= before.map_values(|x: serde_json::Value| json_view(x)).insert(raw_key@, jv));
            fields.properties = Some(props);
        },
    }
    Ok(())
}

/// The list item at `ip` holds a paragraph with content: a bullet item whose first child is
/// a paragraph with at least one child.
pub open spec fn item_ok(c: Seq<char>, ip: Seq<usize>) -> bool {
    &&& tag(c, ip) == NodeTag::BulletItem
    &&& kids(c, ip) > 0
    &&& tag(c, ip.push(0)) == NodeTag::Paragraph
    &&& kids(c, ip.push(0)) > 0
}

/// The key of a bold key node at `fp` and what follows its first `:`, where the node is bold
/// text with a `:`.
pub open spec fn strong_key(c: Seq<char>, fp: Seq<usize>) -> Option<(Seq<char>, Seq<char>)> {
    if tag(c, fp) == NodeTag::Strong && kids(c, fp) > 0 && tag(c, fp.push(0)) == NodeTag::Text {
        crate::text::split_once(literal(c, fp.push(0)), ':')
    } else {
        None
    }
}

/// The key and value of a plain-text entry of the paragraph at `pp`, whose first child is `fp`.
pub open spec fn plain_kv(c: Seq<char>, pp: Seq<usize>, fp: Seq<usize>) -> Result<(Seq<char>, Seq<char>), ErrView> {
    if tag(c, fp) == NodeTag::Text {
        match crate::text::split_once(render_range(c, pp, 0, kids(c, pp) as int), ':') {
            Some(kv) => Ok(kv),
            None => Err(ErrView::MissingKeyDelimiter(line_of(c, fp))),
        }
    } else {
        Err(ErrView::InvalidKey)
    }
}

/// The raw key and value of the list item at `ip`: a bold `Key:` followed by the value, or
/// plain text `key: value`.
pub open spec fn entry_kv(c: Seq<char>, ip: Seq<usize>) -> Result<(Seq<char>, Seq<char>), ErrView> {
    let pp = ip.push(0);
    let fp = pp.push(0);
    match strong_key(c, fp) {
        Some((key, after)) => if after.len() == 0 {
            Ok((key, render_range(c, pp, 1, kids(c, pp) as int)))
        } else {
            plain_kv(c, pp, fp)
        },
        None => plain_kv(c, pp, fp),
    }
}

/// The raw key and value of the list item at `ip`.
pub fn item_key_value(content: &str, ip: &Vec<usize>) -> (res: Result<(String, String), CollectError>)
    ensures
        match entry_kv(content@, ip@) {
            Ok((k, v)) => match res {
                Ok((rk, rv)) => rk@ == k && rv@ == v,
                Err(_) => false,
            },
            Err(e) => res is Err && err_view(res->Err_0) == e,
        },
{
    let pp = child_path(ip, 0);
    let fp = child_path(&pp, 0);
    let n = node_child_count(content, "+++", &pp);
    let first_tag = node_tag(content, "+++", &fp);
    if first_tag == NodeTag::Strong && node_child_count(content, "+++", &fp) > 0 {
        let kp = child_path(&fp, 0);
        if node_tag(content, "+++", &kp) == NodeTag::Text {
            let key_text = to_chars(node_literal(content, "+++", &kp).as_str());
            if let Some((key, after)) = crate::text::split_once_chars(&key_text, ':') {
                if after.len() == 0 {
                    let value = render_children(content, &pp, 1, n);
                    return Ok((from_chars(key.as_slice()), from_chars(value.as_slice())));
                }
            }
        }
    }
    if first_tag == NodeTag::Text {
        let kv = render_children(content, &pp, 0, n);
        match crate::text::split_once_chars(&kv, ':') {
            Some((k, v)) => Ok((from_chars(k.as_slice()), from_chars(v.as_slice()))),
            None => Err(CollectError::MissingKeyDelimiter(node_line(content, "+++", &fp))),
        }
    } else {
        Err(CollectError::InvalidKey)
    }
}

/// The fields set by the items of the list at `lp` from item `j` on, given those set before.
/// Reading stops at the first item that is not a bullet item holding a paragraph.
pub open spec fn fields_from(c: Seq<char>, lp: Seq<usize>, j: int, acc: FieldsView) -> Result<FieldsView, ErrView>
    decreases kids(c, lp) - j,
{
    if j < 0 || j >= kids(c, lp) || !item_ok(c, lp.push(j as usize)) {
        Ok(acc)
    } else {
        match entry_kv(c, lp.push(j as usize)) {
            Err(e) => Err(e),
            Ok((k, v)) => match apply_field_spec(acc, k, v) {
                Err(e) => Err(e),
                Ok(next) => fields_from(c, lp, j + 1, next),
            },
        }
    }
}

/// Whether the list item at `ip` holds a paragraph with content.
fn item_holds_entry(content: &str, ip: &Vec<usize>) -> (res: bool)
    ensures
        res == item_ok(content@, ip@),
{
    if node_tag(content, "+++", ip) != NodeTag::BulletItem || node_child_count(content, "+++", ip) == 0 {
        return false;
    }
    let pp = child_path(ip, 0);
    node_tag(content, "+++", &pp) == NodeTag::Paragraph && node_child_count(content, "+++", &pp) > 0
}

/// The fields set by the list at `lp`.
pub fn extract_req_fields(content: &str, lp: &Vec<usize>) -> (res: Result<ReqFields, CollectError>)
    ensures
        match fields_from(content@, lp@, 0, no_fields()) {
            Ok(v) => res is Ok && fields_view(res->Ok_0) == v && fields_wf(res->Ok_0),
            Err(e) => res is Err && err_view(res->Err_0) == e,
        },
{
    let mut fields = ReqFields::new();
    let n = node_child_count(content, "+++", lp);
    let mut j: usize = 0;
    while j < n
        invariant
            n == kids(content@, lp@),
            j <= n,
            fields_wf(fields),
            fields_from(content@, lp@, 0, no_fields()) == fields_from(content@, lp@, j as int, fields_view(fields)),
        decreases n - j,
    {
        let ip = child_path(lp, j);
        if !item_holds_entry(content, &ip) {
            return Ok(fields);
        }
        let (key, value) = match item_key_value(content, &ip) {
            Ok(kv) => kv,
            Err(e) => {
                return Err(e);
            },
        };
        if let Err(e) = apply_field(&mut fields, &key, &value) {
            return Err(e);
        }
        j = j + 1;
    }
    Ok(fields)
}

/// Where a requirement was defined in its document.
#[derive(Debug, Clone, Copy, PartialEq, Eq, Structural)]
pub struct RequirementOrigin {
    /// Line of the requirement heading.
    pub line: usize,
}

/// A requirement collected from a document.
pub struct Requirement {
    pub id: String,
    pub title: String,
    pub origin: RequirementOrigin,
    pub description: Option<String>,
    pub parents: Option<Vec<String>>,
    pub manual_verification: bool,
    pub deprecated: bool,
    pub exclude: bool,
    pub optional: bool,
    pub replaces: Option<Vec<String>>,
    pub properties: Option<Properties>,
}

impl Requirement {
    /// A requirement with only ID, title and origin; all flags unset and no other fields.
    pub fn new_minimal(id: String, title: String, origin: RequirementOrigin) -> (r: Requirement)
        ensures
            r.id == id,
            r.title == title,
            r.origin == origin,
            r.description is None,
            r.parents is None,
            !r.manual_verification,
            !r.deprecated,
            !r.exclude,
            !r.optional,
            r.replaces is None,
            r.properties is None,
    {
        Requirement {
            id,
            title,
            origin,
            description: None,
            parents: None,
            manual_verification: false,
            deprecated: false,
            exclude: false,
            optional: false,
            replaces: None,
            properties: None,
        }
    }
}

/// A requirement as plain data.
pub struct ReqView {
    pub id: Seq<char>,
    pub title: Seq<char>,
    pub line: nat,
    pub description: Option<Seq<char>>,
    pub fields: FieldsView,
}

/// A flag that was not set counts as not set.
pub open spec fn flag(b: Option<bool>) -> bool {
    match b {
        Some(b) => b,
        None => false,
    }
}

/// The requirement and its plain data agree.
pub open spec fn req_matches(r: Requirement, v: ReqView) -> bool {
    &&& r.id@ == v.id
    &&& r.title@ == v.title
    &&& r.origin.line == v.line
    &&& opt_text(r.description) == v.description
    &&& opt_strings(r.parents) == v.fields.parents
    &&& r.manual_verification == flag(v.fields.manual_verification)
    &&& r.deprecated == flag(v.fields.deprecated)
    &&& r.exclude == flag(v.fields.exclude)
    &&& r.optional == flag(v.fields.optional)
    &&& opt_strings(r.replaces) == v.fields.replaces
    &&& opt_props_view(r.properties) == v.fields.properties
    &&& match r.properties {
        Some(p) => p.wf(),
        None => true,
    }
}

/// The number of top-level nodes.
pub open spec fn top(c: Seq<char>) -> nat {
    kids(c, Seq::empty())
}

/// The path of top-level node `i`.
pub open spec fn at(i: int) -> Seq<usize> {
    seq![i as usize]
}

/// Top-level node `i` is a heading.
pub open spec fn is_heading(c: Seq<char>, i: int) -> bool {
    tag(c, at(i)) == NodeTag::Heading
}

/// Top-level node `i` is a requirement heading.
pub open spec fn is_req_heading(c: Seq<char>, i: int) -> bool {
    is_heading(c, i) && heading_of(c, at(i)) matches Some(Ok(_))
}

/// The first top-level heading at or after `i`, or the end.
pub open spec fn next_heading(c: Seq<char>, i: int) -> int
    decreases top(c) - i,
{
    if i >= top(c) || is_heading(c, i) {
        i
    } else {
        next_heading(c, i + 1)
    }
}

/// The first top-level requirement heading at or after `j`, or the end.
pub open spec fn body_end(c: Seq<char>, j: int) -> int
    decreases top(c) - j,
{
    if j >= top(c) || is_req_heading(c, j) {
        j
    } else {
        body_end(c, j + 1)
    }
}

/// The next heading lies between `i` and the end.
pub proof fn lemma_next_heading_bounds(c: Seq<char>, i: int)
    requires
        i <= top(c),
    ensures
        i <= next_heading(c, i) <= top(c),
    decreases top(c) - i,
{
    if i < top(c) && !is_heading(c, i) {
        lemma_next_heading_bounds(c, i + 1);
    }
}

/// The end of a body lies between its start and the end of the document.
pub proof fn lemma_body_end_bounds(c: Seq<char>, j: int)
    requires
        j <= top(c),
    ensures
        j <= body_end(c, j) <= top(c),
    decreases top(c) - j,
{
    if j < top(c) && !is_req_heading(c, j) {
        lemma_body_end_bounds(c, j + 1);
    }
}

/// The fields of a requirement whose heading is top-level node `i`, read from a bullet list
/// right after the heading, and the index of the first node after them.
pub open spec fn fields_after(c: Seq<char>, i: int) -> (Result<FieldsView, ErrView>, int) {
    if i + 1 < top(c) && tag(c, at(i + 1)) == NodeTag::BulletList {
        (fields_from(c, at(i + 1), 0, no_fields()), i + 2)
    } else {
        (Ok(no_fields()), i + 1)
    }
}

/// The description made of the top-level nodes `j..e`: `None` where there are none.
pub open spec fn description_of(c: Seq<char>, j: int, e: int) -> Option<Seq<char>> {
    if e > j {
        Some(render_range(c, Seq::empty(), j, e))
    } else {
        None
    }
}

/// The requirements defined from top-level node `i` on. A requirement heading starts a
/// requirement, which takes its fields from a bullet list right after it and its
/// description from the nodes up to the next requirement heading; a heading in error fails
/// the collection; any other node starts a section that is skipped up to the next heading.
pub open spec fn reqs_from(c: Seq<char>, i: int) -> Result<Seq<ReqView>, ErrView>
    decreases top(c) - i,
{
    if i < 0 || i >= top(c) {
        Ok(Seq::empty())
    } else if is_heading(c, i) && heading_of(c, at(i)) matches Some(Err(_)) {
        Err(heading_of(c, at(i))->0->Err_0)
    } else if is_req_heading(c, i) {
        let h = heading_of(c, at(i))->0->Ok_0;
        let (fr, j) = fields_after(c, i);
        match fr {
            Err(e) => Err(e),
            Ok(f) => {
                proof {
                    lemma_body_end_bounds(c, j);
                }
                let e = body_end(c, j);
                let req = ReqView { id: h.0, title: h.1, line: line_of(c, at(i)), description: description_of(c, j, e), fields: f };
                match reqs_from(c, e) {
                    Err(x) => Err(x),
                    Ok(rest) => Ok(seq![req] + rest),
                }
            },
        }
    } else {
        proof {
            lemma_next_heading_bounds(c, i + 1);
        }
        reqs_from(c, next_heading(c, i + 1))
    }
}

/// The fields of the requirement are those of `f`, unset flags counting as not set.
pub open spec fn fields_set(r: Requirement, f: FieldsView) -> bool {
    &&& opt_strings(r.parents) == f.parents
    &&& r.manual_verification == flag(f.manual_verification)
    &&& r.deprecated == flag(f.deprecated)
    &&& r.exclude == flag(f.exclude)
    &&& r.optional == flag(f.optional)
    &&& opt_strings(r.replaces) == f.replaces
    &&& opt_props_view(r.properties) == f.properties
    &&& match r.properties {
        Some(p) => p.wf(),
        None => true,
    }
}

/// The path of top-level node `i`.
fn top_path(i: usize) -> (p: Vec<usize>)
    ensures
        p@ == at(i as int),
{
    let mut p: Vec<usize> = Vec::new();
    p.push(i);
    assert(p@ =~= at(i as int));
    p
}

/// Fills in the body of the requirement whose heading is top-level node `i`: the fields of
/// a bullet list right after the heading, and as description the nodes up to the next
/// requirement heading. Returns the index of that heading, or the end.
pub fn fill_req_body(requirement: &mut Requirement, content: &str, i: usize) -> (res: Result<usize, CollectError>)
    requires
        i < top(content@),
    ensures
        match fields_after(content@, i as int).0 {
            Err(e) => res is Err && err_view(res->Err_0) == e,
            Ok(f) => {
                let j = fields_after(content@, i as int).1;
                &&& res is Ok
                &&& res->Ok_0 == body_end(content@, j)
                &&& final(requirement).id == old(requirement).id
                &&& final(requirement).title == old(requirement).title
                &&& final(requirement).origin == old(requirement).origin
                &&& opt_text(final(requirement).description) == description_of(content@, j, body_end(content@, j))
                &&& j == i + 2 ==> fields_set(*final(requirement), f)
                &&& j == i + 1 ==> {
                    &&& final(requirement).parents == old(requirement).parents
                    &&& final(requirement).manual_verification == old(requirement).manual_verification
                    &&& final(requirement).deprecated == old(requirement).deprecated
                    &&& final(requirement).exclude == old(requirement).exclude
                    &&& final(requirement).optional == old(requirement).optional
                    &&& final(requirement).replaces == old(requirement).replaces
                    &&& final(requirement).properties == old(requirement).properties
                }
            },
        },
{
    let root: Vec<usize> = Vec::new();
    let n = node_child_count(content, "+++", &root);
    let mut j = i + 1;
    if j < n {
        let lp = top_path(j);
        if node_tag(content, "+++", &lp) == NodeTag::BulletList {
            let fields = match extract_req_fields(content, &lp) {
                Ok(f) => f,
                Err(e) => {
                    return Err(e);
                },
            };
            requirement.deprecated = match fields.deprecated {
                Some(b) => b,
                None => false,
            };
            requirement.exclude = match fields.exclude {
                Some(b) => b,
                None => false,
            };
            requirement.manual_verification = match fields.manual_verification {
                Some(b) => b,
                None => false,
            };
            requirement.optional = match fields.optional {
                Some(b) => b,
                None => false,
            };
            requirement.parents = fields.parents;
            requirement.properties = fields.properties;
            requirement.replaces = fields.replaces;
            j = j + 1;
        }
    }
    let start = j;
    proof {
        lemma_body_end_bounds(content@, start as int);
    }
    while j < n && !(node_tag(content, "+++", &top_path(j)) == NodeTag::Heading && matches!(
        extract_requirement_heading(content, &top_path(j)),
        Ok(Some(_))
    ))
        invariant
            n == top(content@),
            start <= j <= n,
            body_end(content@, start as int) == body_end(content@, j as int),
        decreases n - j,
    {
        j = j + 1;
    }
    let description = if j > start {
        Some(from_chars(render_children(content, &root, start, j).as_slice()))
    } else {
        None
    };
    requirement.description = description;
    Ok(j)
}

/// The requirements already found followed by those still to come.
pub open spec fn combine(acc: Seq<ReqView>, r: Result<Seq<ReqView>, ErrView>) -> Result<Seq<ReqView>, ErrView> {
    match r {
        Ok(rest) => Ok(acc + rest),
        Err(e) => Err(e),
    }
}

/// The requirements and their plain data agree one by one.
pub open spec fn reqs_match(rs: Seq<Requirement>, vs: Seq<ReqView>) -> bool {
    rs.len() == vs.len() && forall|k: int| 0 <= k < rs.len() ==> req_matches(#[trigger] rs[k], vs[k])
}

/// The requirements defined in a document from top-level node `start` on.
pub fn extract_requirements(content: &str, start: usize) -> (res: Result<Vec<Requirement>, CollectError>)
    ensures
        match reqs_from(content@, start as int) {
            Ok(vs) => res is Ok && reqs_match(res->Ok_0@, vs),
            Err(e) => res is Err && err_view(res->Err_0) == e,
        },
{
    let root: Vec<usize> = Vec::new();
    let n = node_child_count(content, "+++", &root);
    let mut requirements: Vec<Requirement> = Vec::new();
    let ghost mut found: Seq<ReqView> = Seq::empty();
    let mut i = start;
    assert(found + Seq::<ReqView>::empty() == found);
    assert(combine(found, reqs_from(content@, start as int)) == reqs_from(content@, start as int)) by {
        if let Ok(rest) = reqs_from(content@, start as int) {
            assert(found + rest =~= rest);
        }
    }
    while i < n
        invariant
            n == top(content@),
            reqs_from(content@, start as int) == combine(found, reqs_from(content@, i as int)),
            reqs_match(requirements@, found),
        decreases n - i,
    {
        let p = top_path(i);
        if node_tag(content, "+++", &p) == NodeTag::Heading {
            let parsed = match extract_requirement_heading(content, &p) {
                Ok(h) => h,
                Err(e) => {
                    return Err(e);
                },
            };
            if let Some(heading) = parsed {
                let line = node_line(content, "+++", &p);
                let mut requirement = Requirement::new_minimal(heading.id, heading.title, RequirementOrigin { line });
                let next = match fill_req_body(&mut requirement, content, i) {
                    Ok(e) => e,
                    Err(e) => {
                        return Err(e);
                    },
                };
                proof {
                    let (fr, j) = fields_after(content@, i as int);
                    let f = fr->Ok_0;
                    lemma_body_end_bounds(content@, j);
                    let h = heading_of(content@, at(i as int))->0->Ok_0;
                    let v = ReqView {
                        id: h.0,
                        title: h.1,
                        line: line_of(content@, at(i as int)),
                        description: description_of(content@, j, next as int),
                        fields: f,
                    };
                    assert(req_matches(requirement, v));
                    let old_found = found;
                    found = found.push(v);
                    match reqs_from(content@, next as int) {
                        Ok(rest) => {
                            assert(old_found + (seq![v] + rest) =~= found + rest);
                        },
                        Err(_) => {},
                    }
                }
                requirements.push(requirement);
                i = next;
                continue;
            }
        }
        let ghost from = i + 1;
        proof {
            lemma_next_heading_bounds(content@, from);
        }
        i = i + 1;
        while i < n && node_tag(content, "+++", &top_path(i)) != NodeTag::Heading
            invariant
                n == top(content@),
                from <= i <= n,
                next_heading(content@, from) == next_heading(content@, i as int),
            decreases n - i,
        {
            i = i + 1;
        }
    }
    proof {
        assert(found + Seq::<ReqView>::empty() =~= found);
    }
    Ok(requirements)
}

/// A file to collect from: its path and content.
pub struct CollectableFile {
    pub filepath: String,
    pub content: String,
}

/// The file a requirement schema was collected from.
pub struct BaseOrigin {
    pub file: String,
}

/// The origin of the requirements of a document: given in its front matter, or the file.
pub enum SchemaOrigin {
    Explicit(serde_json::Value),
    File(BaseOrigin),
}

/// The version of the requirement schema that these types define; collected schemas are
/// stamped with it.
pub const SCHEMA_VERSION: &'static str = "0.1.0";

/// The requirements of one document for one product.
pub struct RequirementSchema {
    /// The version of the schema the requirements were collected for.
    pub schema_version: Option<String>,
    pub product_id: Option<String>,
    pub requirements: Vec<Requirement>,
    pub properties: Option<Properties>,
    pub origin: Option<SchemaOrigin>,
}

/// The document opens with a front matter.
pub open spec fn has_frontmatter(c: Seq<char>) -> bool {
    top(c) > 0 && tag(c, at(0)) == NodeTag::FrontMatter
}

/// The schema, stamped with the schema version, holds the requirements `vs` for product
/// `pid`, the properties `props`, and as origin the value `origin` or else the file `file`.
pub open spec fn schema_matches(
    s: RequirementSchema,
    pid: Seq<char>,
    vs: Seq<ReqView>,
    props: Option<Map<Seq<char>, JsonView>>,
    origin: Option<JsonView>,
    file: Seq<char>,
) -> bool {
    &&& opt_text(s.schema_version) == Some(SCHEMA_VERSION@)
    &&& opt_text(s.product_id) == Some(pid)
    &&& reqs_match(s.requirements@, vs)
    &&& opt_props_view(s.properties) == props
    &&& match origin {
        Some(o) => s.origin matches Some(SchemaOrigin::Explicit(v)) && json_view(v) == o,
        None => s.origin matches Some(SchemaOrigin::File(b)) && b.file@ == file,
    }
}

/// What collection returns for the requirements `r` found in a document.
pub open spec fn collected(
    res: Result<Option<RequirementSchema>, CollectError>,
    r: Result<Seq<ReqView>, ErrView>,
    pid: Seq<char>,
    props: Option<Map<Seq<char>, JsonView>>,
    origin: Option<JsonView>,
    file: Seq<char>,
) -> bool {
    match r {
        Err(e) => res is Err && err_view(res->Err_0) == e,
        Ok(vs) => if vs.len() == 0 {
            res is Ok && res->Ok_0 is None
        } else {
            res is Ok && res->Ok_0 is Some && schema_matches(res->Ok_0->0, pid, vs, props, origin, file)
        },
    }
}

/// What collecting from a Markdown file gives: the error, nothing (another product, or no
/// requirement), or the schema of its requirements.
pub open spec fn collect_outcome(
    res: Result<Option<RequirementSchema>, CollectError>,
    pid: Seq<char>,
    filepath: Seq<char>,
    c: Seq<char>,
) -> bool {
    if has_frontmatter(c) {
        match frontmatter_spec(literal(c, at(0))) {
            Err(e) => res is Err && err_view(res->Err_0) == e,
            Ok(f) => if f.product_id is Some && f.product_id->0 != pid {
                res is Ok && res->Ok_0 is None
            } else {
                collected(res, reqs_from(c, 1), pid, f.properties, f.origin, filepath)
            },
        }
    } else {
        collected(res, reqs_from(c, 0), pid, None, None, filepath)
    }
}

/// Collects the requirements that a Markdown file defines for a product.
///
/// A front matter may set properties and an origin for the whole document; where it names
/// another product, the file is skipped (`Ok(None)`). A document without requirements gives
/// `Ok(None)` too.
pub fn collect_requirements(product_id: &String, file: &CollectableFile) -> (res: Result<
    Option<RequirementSchema>,
    CollectError,
>)
    ensures
        collect_outcome(res, product_id@, file.filepath@, file.content@),
{
    let content = file.content.as_str();
    let root: Vec<usize> = Vec::new();
    let n = node_child_count(content, "+++", &root);
    let first = top_path(0);
    let (properties, origin, start) = if n > 0 && node_tag(content, "+++", &first) == NodeTag::FrontMatter {
        let frontmatter = match resolve_frontmatter(node_literal(content, "+++", &first).as_str()) {
            Ok(f) => f,
            Err(e) => {
                return Err(e);
            },
        };
        if let Some(pid) = &frontmatter.product_id {
            let p = to_chars(pid.as_str());
            if !chars_are(p.as_slice(), product_id.as_str()) {
                return Ok(None);
            }
        }
        let origin = match frontmatter.origin {
            Some(o) => SchemaOrigin::Explicit(o),
            None => SchemaOrigin::File(BaseOrigin { file: file.filepath.clone() }),
        };
        (frontmatter.properties, origin, 1)
    } else {
        (None, SchemaOrigin::File(BaseOrigin { file: file.filepath.clone() }), 0)
    };
    let requirements = match extract_requirements(content, start) {
        Ok(r) => r,
        Err(e) => {
            return Err(e);
        },
    };
    if requirements.len() == 0 {
        Ok(None)
    } else {
        let schema_version = from_chars(to_chars(SCHEMA_VERSION).as_slice());
        Ok(
            Some(
                RequirementSchema {
                    schema_version: Some(schema_version),
                    product_id: Some(product_id.clone()),
                    requirements,
                    properties,
                    origin: Some(origin),
                },
            ),
        )
    }
}

/// The name of a key reads back as that key: it is ASCII text, and its lowercase names the
/// key (`FieldKey::from_str` of `FieldKey::name`).
pub proof fn law_key_name_reads_back(k: FieldKey)
    ensures
        forall|i: int| 0 <= i < field_name(k).len() ==> crate::text::is_ascii_char(#[trigger] field_name(k)[i]),
        field_key_of(crate::text::ascii_lowercase(field_name(k))) == k,
{
    reveal_strlit("Parents");
    reveal_strlit("Manual Verification");
    reveal_strlit("Deprecated");
    reveal_strlit("Exclude");
    reveal_strlit("Optional");
    reveal_strlit("Replaces");
    reveal_strlit("Properties");
    reveal_strlit("parents");
    reveal_strlit("manual verification");
    reveal_strlit("manual");
    reveal_strlit("deprecated");
    reveal_strlit("exclude");
    reveal_strlit("optional");
    reveal_strlit("replaces");
    let l = crate::text::ascii_lowercase(field_name(k));
    match k {
        FieldKey::Parents => {
            assert(l =~= "parents"@);
            assert(field_key_of(l) == FieldKey::Parents);
        },
        FieldKey::ManualVerification => {
            assert(l =~= "manual verification"@);
            assert(field_key_of(l) == FieldKey::ManualVerification);
        },
        FieldKey::Deprecated => {
            assert(l =~= "deprecated"@);
            assert(field_key_of(l) == FieldKey::Deprecated);
        },
        FieldKey::Exclude => {
            assert(l =~= "exclude"@);
            assert(l[0] != "parents"@[0]);
            assert(field_key_of(l) == FieldKey::Exclude);
        },
        FieldKey::Optional => {
            assert(l =~= "optional"@);
            assert(field_key_of(l) == FieldKey::Optional);
        },
        FieldKey::Replaces => {
            assert(l =~= "replaces"@);
            assert(l[0] != "optional"@[0]);
            assert(field_key_of(l) == FieldKey::Replaces);
        },
        FieldKey::Properties => {
            assert(l.len() == 10 && l[0] == 'p' && l[1] == 'r');
            assert(field_key_of(l) == FieldKey::Properties);
        },
    }
}

} // verus!
