//! Posts of the early flat `.mk` layout: the date and title come from the
//! file name alone, with the title tokens rejoined by `-`. No frontmatter
//! and no collection are involved.

use vstd::prelude::*;

use crate::date::Date;
use crate::error::{message_of, PostError, Reason};
use crate::filename::{file_name_of, parse_file_name, spec_file_name, spec_parse_name};
use crate::text::{join_strs, join_with};

verus! {

/// A post of the flat `.mk` layout: just its display title and date.
#[derive(Debug)]
pub struct Post {
    pub title: String,
    pub date: Date,
}

impl View for Post {
    type V = (Seq<char>, Date);

    open spec fn view(&self) -> (Seq<char>, Date) {
        (self.title@, self.date)
    }
}

impl PartialEq for Post {
    fn eq(&self, other: &Post) -> (r: bool) {
        self.title == other.title && self.date == other.date
    }
}

impl vstd::std_specs::cmp::PartialEqSpecImpl for Post {
    open spec fn obeys_eq_spec() -> bool {
        true
    }

    open spec fn eq_spec(&self, other: &Post) -> bool {
        self.title@ == other.title@ && self.date == other.date
    }
}

/// The outcome of parsing the file at `path` as a flat-layout post: its
/// name must read `YYYY-MM-DD-title.mk`, and the title tokens are rejoined
/// with `-`.
pub open spec fn spec_mk_post_of(path: Seq<char>) -> Result<(Seq<char>, Date), Reason> {
    let name = spec_file_name(path);
    if name.len() == 0 {
        Err(Reason::MissingName)
    } else {
        match spec_parse_name(name, "mk"@) {
            Err(k) => Err(k),
            Ok(p) => Ok(
                (join_with(p.tail, '-'), Date { year: p.year, month: p.month, day: p.day }),
            ),
        }
    }
}

impl Post {
    /// Parse the name of the file at `file_path` into a flat-layout post.
    pub fn from_file_path(file_path: &str) -> (r: Result<Post, PostError>)
        ensures
            match r {
                Ok(p) => spec_mk_post_of(file_path@) matches Ok(v) && p@ == v,
                Err(e) => spec_mk_post_of(file_path@) matches Err(k) && e.message@ == message_of(
                    k,
                ),
            },
    {
        let name = file_name_of(file_path);
        if name.as_str().unicode_len() == 0 {
            return Err(PostError::from_reason(Reason::MissingName));
        }
        let parsed = match parse_file_name(name.as_str(), "mk") {
            Err(e) => {
                return Err(e);
            },
            Ok(p) => p,
        };
        proof {
            reveal_strlit("-");
            assert("-"@ =~= seq!['-']);
        }
        let title = join_strs(&parsed.tail, "-");
        Ok(Post { title, date: parsed.date })
    }
}

} // verus!
