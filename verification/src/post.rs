//! The validated content record, built from one source file in a fixed
//! order: file name, extension, date, title, content, frontmatter,
//! collection. The first failed step names the failure.

use vstd::prelude::*;

use crate::date::Date;
use crate::error::{message_of, PostError, Reason};
use crate::filename::{
    file_name_of, parse_file_name, spec_components, spec_file_name, spec_parse_name,
};
use crate::frontmatter::{
    parse_yaml_document, spec_frontmatter, yaml_document_of, FrontV, PostFrontmatter,
};
use crate::text::{join_strs, join_with, split_str};

verus! {

/// One published content item. Constructed only by
/// [`Post::from_file_path`], atomically and immutably: a record exists only
/// for a file that passed every validation step.
#[derive(Debug)]
pub struct Post {
    pub frontmatter: PostFrontmatter,
    pub source_file_path: String,
    /// The full filename stem `YYYY-MM-DD-title-words`: the stable output key.
    pub file_name: String,
    /// The title tokens joined with spaces: the display string.
    pub title: String,
    pub date: Date,
    /// The immediate parent directory below the content root.
    pub collection: String,
    /// The public address `collection/file_name`.
    pub url: String,
}

/// The mathematical shape of a content record.
pub struct PostV {
    pub frontmatter: FrontV,
    pub source_file_path: Seq<char>,
    pub file_name: Seq<char>,
    pub title: Seq<char>,
    pub date: Date,
    pub collection: Seq<char>,
    pub url: Seq<char>,
}

impl View for Post {
    type V = PostV;

    open spec fn view(&self) -> PostV {
        PostV {
            frontmatter: self.frontmatter@,
            source_file_path: self.source_file_path@,
            file_name: self.file_name@,
            title: self.title@,
            date: self.date,
            collection: self.collection@,
            url: self.url@,
        }
    }
}

impl PartialEq for Post {
    fn eq(&self, other: &Post) -> (r: bool) {
        self.frontmatter == other.frontmatter && self.source_file_path == other.source_file_path
            && self.file_name == other.file_name && self.title == other.title && self.date
            == other.date && self.collection == other.collection && self.url == other.url
    }
}

impl vstd::std_specs::cmp::PartialEqSpecImpl for Post {
    open spec fn obeys_eq_spec() -> bool {
        true
    }

    open spec fn eq_spec(&self, other: &Post) -> bool {
        self@ == other@
    }
}

/// The path components strictly between the content root (the first
/// component) and the file name (the last one).
pub open spec fn spec_parents(path: Seq<char>) -> Seq<Seq<char>> {
    let comps = spec_components(path);
    if comps.len() >= 2 {
        comps.subrange(1, comps.len() - 1)
    } else {
        Seq::empty()
    }
}

/// The collection of the file at `path`: the design requires exactly one
/// directory level between the content root and the file.
pub open spec fn spec_collection(path: Seq<char>) -> Result<Seq<char>, Reason> {
    let parents = spec_parents(path);
    if parents.len() > 1 {
        Err(Reason::NestedTooDeep)
    } else if parents.len() == 0 {
        Err(Reason::NotInCollection)
    } else {
        Ok(parents[0])
    }
}

/// Resolve the collection directory of the file at `path`.
pub fn collection_of(path: &str) -> (r: Result<String, PostError>)
    ensures
        match r {
            Ok(s) => spec_collection(path@) matches Ok(v) && s@ == v,
            Err(e) => spec_collection(path@) matches Err(k) && e.message@ == message_of(k),
        },
{
    let comps = split_str(path, '/');
    proof {
        let compsv = spec_components(path@);
        assert(comps@.map_values(|t: String| t@).len() == compsv.len());
        if compsv.len() >= 2 {
            assert(spec_parents(path@).len() == compsv.len() - 2);
        }
    }
    if comps.len() > 3 {
        Err(PostError::from_reason(Reason::NestedTooDeep))
    } else if comps.len() < 3 {
        Err(PostError::from_reason(Reason::NotInCollection))
    } else {
        let s = comps[1].clone();
        proof {
            assert(s@ == spec_components(path@)[1]);
            assert(spec_parents(path@)[0] == spec_components(path@)[1]);
        }
        Ok(s)
    }
}

/// The view of an optional content text.
pub open spec fn content_view(content: Option<&str>) -> Option<Seq<char>> {
    match content {
        Some(c) => Some(c@),
        None => None,
    }
}

/// The outcome of building a record for the file at `path` whose text is
/// `content` (`None` when the file could not be read). The steps run in a
/// fixed order — file name, extension, date, title, content read,
/// frontmatter, collection — and the first failure wins.
pub open spec fn spec_post_of(path: Seq<char>, content: Option<Seq<char>>) -> Result<
    PostV,
    Reason,
> {
    let name = spec_file_name(path);
    if name.len() == 0 {
        Err(Reason::MissingName)
    } else {
        match spec_parse_name(name, "md"@) {
            Err(k) => Err(k),
            Ok(p) => match content {
                None => Err(Reason::ReadError),
                Some(c) => match yaml_document_of(c) {
                    None => Err(Reason::MetadataDecodeError),
                    Some(doc) => match spec_frontmatter(doc.0) {
                        None => Err(Reason::MetadataDecodeError),
                        Some(fm) => match spec_collection(path) {
                            Err(k) => Err(k),
                            Ok(coll) => Ok(
                                PostV {
                                    frontmatter: fm,
                                    source_file_path: path,
                                    file_name: p.stem,
                                    title: join_with(p.tail, ' '),
                                    date: Date { year: p.year, month: p.month, day: p.day },
                                    collection: coll,
                                    url: coll + seq!['/'] + p.stem,
                                },
                            ),
                        },
                    },
                },
            },
        }
    }
}

/// Law: for every input with a well-formed dated file name, readable
/// content, a well-formed metadata block, and a place exactly one
/// directory below the content root, the builder yields a record carrying
/// the file name's date and the parent directory as its collection.
pub proof fn lemma_valid_input_builds(path: Seq<char>, content: Seq<char>)
    requires
        spec_file_name(path).len() > 0,
        spec_parse_name(spec_file_name(path), "md"@) is Ok,
        yaml_document_of(content) is Some,
        spec_frontmatter(yaml_document_of(content)->Some_0.0) is Some,
        spec_parents(path).len() == 1,
    ensures
        spec_post_of(path, Some(content)) is Ok,
        ({
            let p = spec_parse_name(spec_file_name(path), "md"@)->Ok_0;
            spec_post_of(path, Some(content))->Ok_0.date == (Date {
                year: p.year,
                month: p.month,
                day: p.day,
            })
        }),
        spec_post_of(path, Some(content))->Ok_0.collection == spec_parents(path)[0],
{
}

/// Law: with everything else in order, a file sitting directly under the
/// content root is rejected as belonging to no collection.
pub proof fn lemma_not_in_collection(path: Seq<char>, content: Seq<char>)
    requires
        spec_file_name(path).len() > 0,
        spec_parse_name(spec_file_name(path), "md"@) is Ok,
        yaml_document_of(content) is Some,
        spec_frontmatter(yaml_document_of(content)->Some_0.0) is Some,
        spec_parents(path).len() == 0,
    ensures
        spec_post_of(path, Some(content)) == Err::<PostV, Reason>(Reason::NotInCollection),
{
}

/// Law: with everything else in order, a file more than one directory
/// below the content root is rejected as nested too deep.
pub proof fn lemma_nested_too_deep(path: Seq<char>, content: Seq<char>)
    requires
        spec_file_name(path).len() > 0,
        spec_parse_name(spec_file_name(path), "md"@) is Ok,
        yaml_document_of(content) is Some,
        spec_frontmatter(yaml_document_of(content)->Some_0.0) is Some,
        spec_parents(path).len() > 1,
    ensures
        spec_post_of(path, Some(content)) == Err::<PostV, Reason>(Reason::NestedTooDeep),
{
}

impl Post {
    /// Build the validated record for the content file at `file_path`,
    /// whose text is `content` (`None` when the file could not be read).
    pub fn from_file_path(file_path: &str, content: Option<&str>) -> (r: Result<Post, PostError>)
        ensures
            match r {
                Ok(p) => spec_post_of(file_path@, content_view(content)) matches Ok(v) && p@ == v,
                Err(e) => spec_post_of(file_path@, content_view(content)) matches Err(k)
                    && e.message@ == message_of(k),
            },
    {
        let name = file_name_of(file_path);
        if name.as_str().unicode_len() == 0 {
            return Err(PostError::from_reason(Reason::MissingName));
        }
        let parsed = match parse_file_name(name.as_str(), "md") {
            Err(e) => {
                return Err(e);
            },
            Ok(p) => p,
        };
        let text = match content {
            None => {
                return Err(PostError::from_reason(Reason::ReadError));
            },
            Some(t) => t,
        };
        let doc = match parse_yaml_document(text) {
            None => {
                return Err(PostError::from_reason(Reason::MetadataDecodeError));
            },
            Some(d) => d,
        };
        let fm = match PostFrontmatter::from_fields(&doc.fields) {
            None => {
                return Err(PostError::from_reason(Reason::MetadataDecodeError));
            },
            Some(f) => f,
        };
        let collection = match collection_of(file_path) {
            Err(e) => {
                return Err(e);
            },
            Ok(s) => s,
        };
        proof {
            reveal_strlit(" ");
            reveal_strlit("/");
            assert(" "@ =~= seq![' ']);
            assert("/"@ =~= seq!['/']);
        }
        let title = join_strs(&parsed.tail, " ");
        let mut url = collection.clone();
        url.append("/");
        url.append(parsed.stem.as_str());
        let p = Post {
            frontmatter: fm,
            source_file_path: String::from_str(file_path),
            file_name: parsed.stem,
            title,
            date: parsed.date,
            collection,
            url,
        };
        Ok(p)
    }
}

} // verus!
