//! The render pipeline: each validated record's source text is converted
//! from markdown to HTML and paired with its deterministic output file
//! name `<file_name>.html`. Writing the files is the caller's work.

use vstd::prelude::*;

use crate::error::{message_of, PostError, Reason};
use crate::post::{spec_post_of, Post, PostV};

verus! {

/// What `comrak::markdown_to_html` makes of a markdown text: the result
/// depends on the text alone.
pub uninterp spec fn html_of(s: Seq<char>) -> Seq<char>;

/// Relies on `comrak::markdown_to_html` with default options: it converts
/// markdown text to HTML, reading nothing but its input.
#[verifier::external_body]
pub(crate) fn render_markdown(input: &str) -> (r: String)
    ensures
        r@ == html_of(input@),
{
    comrak::markdown_to_html(input, &comrak::Options::default())
}

/// The source file that a published address `collection/post_name` names:
/// the serving layer reads the post's markdown back from this path.
pub fn post_source_path(collection: &str, post_name: &str) -> (r: String)
    ensures
        r@ == "posts/"@ + collection@ + seq!['/'] + post_name@ + ".md"@,
{
    proof {
        reveal_strlit("/");
        assert("/"@ =~= seq!['/']);
    }
    let mut r = String::from_str("posts/");
    r.append(collection);
    r.append("/");
    r.append(post_name);
    r.append(".md");
    r
}

/// One output artifact: the file name under the output directory, and the
/// HTML text to write there.
pub struct RenderedPage {
    pub file_name: String,
    pub html: String,
}

impl View for RenderedPage {
    type V = (Seq<char>, Seq<char>);

    open spec fn view(&self) -> (Seq<char>, Seq<char>) {
        (self.file_name@, self.html@)
    }
}

/// The view of one walked entry: a file's path, and its text when it could
/// be read.
pub open spec fn entry_view(e: (String, Option<String>)) -> (Seq<char>, Option<Seq<char>>) {
    (
        e.0@,
        match e.1 {
            Some(s) => Some(s@),
            None => None,
        },
    )
}

/// Whether the build outcomes `rs` are exactly what
/// [`spec_post_of`] demands for `entries`, element by element.
pub open spec fn results_match(
    rs: Seq<Result<Post, PostError>>,
    entries: Seq<(Seq<char>, Option<Seq<char>>)>,
) -> bool {
    &&& rs.len() == entries.len()
    &&& forall|i: int|
        0 <= i < rs.len() ==> match #[trigger] rs[i] {
            Ok(p) => spec_post_of(entries[i].0, entries[i].1) matches Ok(v) && p@ == v,
            Err(e) => spec_post_of(entries[i].0, entries[i].1) matches Err(k) && e.message@
                == message_of(k),
        }
}

/// The output pages owed for `entries`: one page per successful record, in
/// discovery order, named after the record's stem and holding the HTML of
/// the file's text.
pub open spec fn spec_pages_of(entries: Seq<(Seq<char>, Option<Seq<char>>)>) -> Seq<
    (Seq<char>, Seq<char>),
>
    decreases entries.len(),
{
    if entries.len() == 0 {
        Seq::empty()
    } else {
        let rest = spec_pages_of(entries.drop_last());
        let e = entries.last();
        match spec_post_of(e.0, e.1) {
            Ok(v) => rest.push((v.file_name + ".html"@, html_of(e.1->Some_0))),
            Err(_) => rest,
        }
    }
}

/// Build every record and render every success: one outcome per entry, and
/// one rendered page per success, both in discovery order. A failure never
/// stops the remaining entries from being processed.
pub fn build(entries: &Vec<(String, Option<String>)>) -> (r: (
    Vec<Result<Post, PostError>>,
    Vec<RenderedPage>,
))
    ensures
        results_match(r.0@, entries@.map_values(|e: (String, Option<String>)| entry_view(e))),
        r.1@.map_values(|p: RenderedPage| p@) == spec_pages_of(
            entries@.map_values(|e: (String, Option<String>)| entry_view(e)),
        ),
{
    let ghost entriesv = entries@.map_values(|e: (String, Option<String>)| entry_view(e));
    let mut results: Vec<Result<Post, PostError>> = Vec::new();
    let mut pages: Vec<RenderedPage> = Vec::new();
    let mut i: usize = 0;
    while i < entries.len()
        invariant
            entriesv == entries@.map_values(|e: (String, Option<String>)| entry_view(e)),
            0 <= i <= entries@.len(),
            results_match(results@, entriesv.subrange(0, i as int)),
            pages@.map_values(|p: RenderedPage| p@) == spec_pages_of(
                entriesv.subrange(0, i as int),
            ),
        decreases entries@.len() - i,
    {
        let entry = &entries[i];
        let content: Option<&str> = match &entry.1 {
            Some(s) => Some(s.as_str()),
            None => None,
        };
        proof {
            assert(entriesv[i as int] == entry_view(entries@[i as int]));
        }
        let outcome = Post::from_file_path(entry.0.as_str(), content);
        let ghost prev_results = results@;
        let ghost prev_pages = pages@;
        match outcome {
            Ok(post) => {
                let mut out_name = post.file_name.clone();
                out_name.append(".html");
                let html = match &entry.1 {
                    Some(s) => render_markdown(s.as_str()),
                    None => {
                        // unreachable: a record exists only for readable files
                        String::new()
                    },
                };
                pages.push(RenderedPage { file_name: out_name, html });
                results.push(Ok(post));
            },
            Err(e) => {
                results.push(Err(e));
            },
        }
        proof {
            assert(entriesv.subrange(0, i + 1).drop_last() =~= entriesv.subrange(0, i as int));
            assert(entriesv.subrange(0, i + 1).last() == entriesv[i as int]);
            assert(pages@.map_values(|p: RenderedPage| p@) =~= spec_pages_of(
                entriesv.subrange(0, i + 1),
            ));
            assert forall|j: int| 0 <= j < results@.len() implies match #[trigger] results@[j] {
                Ok(p) => spec_post_of(
                    entriesv.subrange(0, i + 1)[j].0,
                    entriesv.subrange(0, i + 1)[j].1,
                ) matches Ok(v) && p@ == v,
                Err(e) => spec_post_of(
                    entriesv.subrange(0, i + 1)[j].0,
                    entriesv.subrange(0, i + 1)[j].1,
                ) matches Err(k) && e.message@ == message_of(k),
            } by {
                if j < i {
                    assert(results@[j] == prev_results[j]);
                }
            }
        }
        i = i + 1;
    }
    proof {
        assert(entriesv.subrange(0, entriesv.len() as int) =~= entriesv);
    }
    (results, pages)
}

/// The view of each outcome: the record's shape on success, the message on
/// failure.
pub open spec fn results_view(rs: Seq<Result<Post, PostError>>) -> Seq<
    Result<PostV, Seq<char>>,
> {
    rs.map_values(
        |r: Result<Post, PostError>|
            match r {
                Ok(p) => Ok(p@),
                Err(e) => Err(e.message@),
            },
    )
}

/// Building is deterministic: any two outcome sequences that satisfy the
/// build contract for the same entries agree. Running the build twice on
/// unchanged input thus yields identical successes and failures.
pub proof fn lemma_build_deterministic(
    r1: Seq<Result<Post, PostError>>,
    r2: Seq<Result<Post, PostError>>,
    entries: Seq<(Seq<char>, Option<Seq<char>>)>,
)
    requires
        results_match(r1, entries),
        results_match(r2, entries),
    ensures
        results_view(r1) == results_view(r2),
{
    assert forall|i: int| 0 <= i < r1.len() implies results_view(r1)[i] == results_view(r2)[i] by {
        match spec_post_of(entries[i].0, entries[i].1) {
            Ok(v) => {
                assert(r1[i] matches Ok(p) && p@ == v);
                assert(r2[i] matches Ok(p) && p@ == v);
            },
            Err(k) => {
                assert(r1[i] matches Err(e) && e.message@ == message_of(k));
                assert(r2[i] matches Err(e) && e.message@ == message_of(k));
            },
        }
    }
    assert(results_view(r1) =~= results_view(r2));
}

} // verus!
