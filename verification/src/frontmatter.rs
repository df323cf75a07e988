//! The frontmatter extractor: a content file starts with a YAML block
//! between `---` markers, holding at least the fields `topic` and
//! `description`, and optionally a `title` override.

use vstd::prelude::*;

use crate::text::str_eq;

verus! {

/// The raw outcome of decoding a content file: the frontmatter block's
/// key/value pairs and the body text after the block.
pub struct RawDocument {
    pub fields: Vec<(String, String)>,
    pub body: String,
}

impl View for RawDocument {
    type V = (Seq<(Seq<char>, Seq<char>)>, Seq<char>);

    open spec fn view(&self) -> Self::V {
        (self.fields@.map_values(|p: (String, String)| (p.0@, p.1@)), self.body@)
    }
}

/// What the frontmatter parser extracts from `content`: the block's
/// key/value pairs and the body after it, or nothing when the block is
/// absent, malformed, or not a flat string mapping.
pub uninterp spec fn yaml_document_of(content: Seq<char>) -> Option<
    (Seq<(Seq<char>, Seq<char>)>, Seq<char>),
>;

/// Relies on `yaml_front_matter::YamlFrontMatter::parse`: it cuts the YAML
/// block between the leading `---` markers out of the text, decodes the
/// block with serde_yaml, and returns the remaining lines as the body.
/// Both steps depend on the text alone. Decoding into a map of strings
/// fails exactly when the block is absent or is not a flat string mapping.
#[verifier::external_body]
pub(crate) fn parse_yaml_document(content: &str) -> (r: Option<RawDocument>)
    ensures
        r is Some <==> yaml_document_of(content@) is Some,
        r matches Some(d) ==> yaml_document_of(content@) == Some(d@),
{
    match yaml_front_matter::YamlFrontMatter::parse::<
        std::collections::BTreeMap<String, String>,
    >(content) {
        Ok(doc) => Some(
            RawDocument { fields: doc.metadata.into_iter().collect(), body: doc.content },
        ),
        Err(_) => None,
    }
}

/// The value of the first field named `key`, if any.
pub open spec fn spec_lookup(fields: Seq<(Seq<char>, Seq<char>)>, key: Seq<char>) -> Option<
    Seq<char>,
>
    decreases fields.len(),
{
    if fields.len() == 0 {
        None
    } else if fields[0].0 == key {
        Some(fields[0].1)
    } else {
        spec_lookup(fields.drop_first(), key)
    }
}

proof fn lemma_lookup_at(fields: Seq<(Seq<char>, Seq<char>)>, key: Seq<char>, i: int)
    requires
        0 <= i < fields.len(),
        fields[i].0 == key,
        forall|j: int| 0 <= j < i ==> (#[trigger] fields[j]).0 != key,
    ensures
        spec_lookup(fields, key) == Some(fields[i].1),
    decreases fields.len(),
{
    if fields[0].0 == key {
        if i > 0 {
            assert(fields[0].0 != key);
        }
    } else {
        let tail = fields.drop_first();
        assert(tail[i - 1] == fields[i]);
        assert forall|j: int| 0 <= j < i - 1 implies (#[trigger] tail[j]).0 != key by {
            assert(fields[j + 1].0 != key);
        }
        lemma_lookup_at(tail, key, i - 1);
    }
}

proof fn lemma_lookup_none(fields: Seq<(Seq<char>, Seq<char>)>, key: Seq<char>)
    requires
        forall|j: int| 0 <= j < fields.len() ==> (#[trigger] fields[j]).0 != key,
    ensures
        spec_lookup(fields, key) is None,
    decreases fields.len(),
{
    if fields.len() > 0 {
        assert(fields[0].0 != key);
        let tail = fields.drop_first();
        assert forall|j: int| 0 <= j < tail.len() implies (#[trigger] tail[j]).0 != key by {
            assert(fields[j + 1].0 != key);
        }
        lemma_lookup_none(tail, key);
    }
}

/// Find the value of the first field named `key`.
pub fn lookup_field(fields: &Vec<(String, String)>, key: &str) -> (r: Option<String>)
    ensures
        match r {
            Some(v) => spec_lookup(
                fields@.map_values(|p: (String, String)| (p.0@, p.1@)),
                key@,
            ) == Some(v@),
            None => spec_lookup(fields@.map_values(|p: (String, String)| (p.0@, p.1@)), key@)
                is None,
        },
{
    let ghost fieldsv = fields@.map_values(|p: (String, String)| (p.0@, p.1@));
    let mut i: usize = 0;
    while i < fields.len()
        invariant
            0 <= i <= fields@.len(),
            fieldsv == fields@.map_values(|p: (String, String)| (p.0@, p.1@)),
            forall|j: int| 0 <= j < i ==> (#[trigger] fieldsv[j]).0 != key@,
        decreases fields@.len() - i,
    {
        if str_eq(fields[i].0.as_str(), key) {
            let v = fields[i].1.clone();
            proof {
                assert(fieldsv[i as int] == (fields@[i as int].0@, fields@[i as int].1@));
                lemma_lookup_at(fieldsv, key@, i as int);
            }
            return Some(v);
        }
        proof {
            assert(fieldsv[i as int] == (fields@[i as int].0@, fields@[i as int].1@));
        }
        i = i + 1;
    }
    proof {
        lemma_lookup_none(fieldsv, key@);
    }
    None
}

/// The typed metadata record decoded from a file's frontmatter block. The
/// fields `topic` and `description` are required; a `title` override is
/// optional.
#[derive(Debug)]
pub struct PostFrontmatter {
    pub topic: String,
    pub description: String,
    pub title: Option<String>,
}

/// The mathematical shape of a frontmatter record.
pub struct FrontV {
    pub topic: Seq<char>,
    pub description: Seq<char>,
    pub title: Option<Seq<char>>,
}

impl View for PostFrontmatter {
    type V = FrontV;

    open spec fn view(&self) -> FrontV {
        FrontV {
            topic: self.topic@,
            description: self.description@,
            title: match self.title {
                Some(t) => Some(t@),
                None => None,
            },
        }
    }
}

impl PartialEq for PostFrontmatter {
    fn eq(&self, other: &PostFrontmatter) -> (r: bool) {
        if !(self.topic == other.topic) {
            return false;
        }
        if !(self.description == other.description) {
            return false;
        }
        match &self.title {
            Some(a) => match &other.title {
                Some(b) => str_eq(a.as_str(), b.as_str()),
                None => false,
            },
            None => match &other.title {
                Some(_) => false,
                None => true,
            },
        }
    }
}

impl vstd::std_specs::cmp::PartialEqSpecImpl for PostFrontmatter {
    open spec fn obeys_eq_spec() -> bool {
        true
    }

    open spec fn eq_spec(&self, other: &PostFrontmatter) -> bool {
        self@ == other@
    }
}

/// The typed record held in `fields`: present exactly when the required
/// fields `topic` and `description` both are. Each field takes the value
/// of its first occurrence; the `title` override may be absent.
pub open spec fn spec_frontmatter(fields: Seq<(Seq<char>, Seq<char>)>) -> Option<FrontV> {
    if spec_lookup(fields, "topic"@) is Some && spec_lookup(fields, "description"@) is Some {
        Some(
            FrontV {
                topic: spec_lookup(fields, "topic"@)->Some_0,
                description: spec_lookup(fields, "description"@)->Some_0,
                title: spec_lookup(fields, "title"@),
            },
        )
    } else {
        None
    }
}

impl PostFrontmatter {
    /// Build the typed record from the decoded fields, or nothing when a
    /// required field is missing.
    pub fn from_fields(fields: &Vec<(String, String)>) -> (r: Option<PostFrontmatter>)
        ensures
            match r {
                Some(fm) => spec_frontmatter(
                    fields@.map_values(|p: (String, String)| (p.0@, p.1@)),
                ) == Some(fm@),
                None => spec_frontmatter(fields@.map_values(|p: (String, String)| (p.0@, p.1@)))
                    is None,
            },
    {
        let topic = match lookup_field(fields, "topic") {
            None => {
                return None;
            },
            Some(v) => v,
        };
        let description = match lookup_field(fields, "description") {
            None => {
                return None;
            },
            Some(v) => v,
        };
        let title = lookup_field(fields, "title");
        Some(PostFrontmatter { topic, description, title })
    }
}

} // verus!
