//! The filename codec: a content file is named `YYYY-MM-DD-title.<ext>`.
//! The stem before the first `.` splits on `-` into three numeric tokens
//! (year, month, day) followed by the title tokens.

use vstd::prelude::*;

use crate::date::{valid_date, Date};
use crate::error::{message_of, PostError, Reason};
use crate::text::{
    all_digits, digits_val, find, find_char, lemma_find_char, parse_decimal, split_on, split_str,
    str_eq,
};

verus! {

/// What a well-formed file name encodes.
pub struct ParsedV {
    /// The whole stem before the first `.` (the machine key).
    pub stem: Seq<char>,
    pub year: u32,
    pub month: u32,
    pub day: u32,
    /// The title tokens after the date, still unjoined.
    pub tail: Seq<Seq<char>>,
}

/// Parse a file name against the accepted extension `ext`, step by step:
/// extension, then year, month, day, date validity, title tokens. The first
/// failed step names the failure, so exactly one reason is reported even
/// when several conditions are violated.
pub open spec fn spec_parse_name(name: Seq<char>, ext: Seq<char>) -> Result<ParsedV, Reason> {
    let dot = find_char(name, '.');
    if dot < 0 {
        Err(Reason::MissingExtension)
    } else if name.subrange(dot + 1, name.len() as int) != ext {
        Err(Reason::InvalidExtension)
    } else {
        let stem = name.subrange(0, dot);
        let toks = split_on(stem, '-');
        if !(toks[0].len() > 0 && all_digits(toks[0]) && digits_val(toks[0]) <= 2147483647) {
            Err(Reason::InvalidYear)
        } else if toks.len() < 2 {
            Err(Reason::MissingMonth)
        } else if !(toks[1].len() > 0 && all_digits(toks[1]) && digits_val(toks[1])
            <= 4294967295) {
            Err(Reason::InvalidMonth)
        } else if toks.len() < 3 {
            Err(Reason::MissingDay)
        } else if !(toks[2].len() > 0 && all_digits(toks[2]) && digits_val(toks[2])
            <= 4294967295) {
            Err(Reason::InvalidDay)
        } else if !valid_date(digits_val(toks[0]), digits_val(toks[1]), digits_val(toks[2])) {
            Err(Reason::InvalidDate)
        } else {
            let tail = toks.skip(3);
            if tail.len() == 0 || (tail.len() == 1 && tail[0].len() == 0) {
                Err(Reason::EmptyTitle)
            } else {
                Ok(
                    ParsedV {
                        stem,
                        year: digits_val(toks[0]) as u32,
                        month: digits_val(toks[1]) as u32,
                        day: digits_val(toks[2]) as u32,
                        tail,
                    },
                )
            }
        }
    }
}

/// The parsed form of one file name.
pub struct ParsedName {
    pub stem: String,
    pub date: Date,
    pub tail: Vec<String>,
}

impl View for ParsedName {
    type V = ParsedV;

    open spec fn view(&self) -> ParsedV {
        ParsedV {
            stem: self.stem@,
            year: self.date.year,
            month: self.date.month,
            day: self.date.day,
            tail: self.tail@.map_values(|t: String| t@),
        }
    }
}

/// Parse `name` as a dated content file name with extension `ext`.
pub fn parse_file_name(name: &str, ext: &str) -> (r: Result<ParsedName, PostError>)
    ensures
        match r {
            Ok(p) => spec_parse_name(name@, ext@) matches Ok(v) && p@ == v,
            Err(e) => spec_parse_name(name@, ext@) matches Err(k) && e.message@ == message_of(k),
        },
{
    let dot = match find(name, '.') {
        None => {
            return Err(PostError::from_reason(Reason::MissingExtension));
        },
        Some(i) => i,
    };
    proof {
        lemma_find_char(name@, '.');
    }
    let n = name.unicode_len();
    let e = name.substring_char(dot + 1, n);
    if !str_eq(e, ext) {
        return Err(PostError::from_reason(Reason::InvalidExtension));
    }
    let stem = name.substring_char(0, dot);
    let toks = split_str(stem, '-');
    let ghost toksv = split_on(stem@, '-');
    proof {
        assert(toks@.map_values(|t: String| t@).len() == toksv.len());
        assert(toksv.len() >= 1);
        assert(toks@[0]@ == toksv[0]);
    }
    let year = match parse_decimal(toks[0].as_str(), 2147483647) {
        None => {
            return Err(PostError::from_reason(Reason::InvalidYear));
        },
        Some(v) => v,
    };
    if toks.len() < 2 {
        return Err(PostError::from_reason(Reason::MissingMonth));
    }
    proof {
        assert(toks@[1]@ == toksv[1]);
    }
    let month = match parse_decimal(toks[1].as_str(), 4294967295) {
        None => {
            return Err(PostError::from_reason(Reason::InvalidMonth));
        },
        Some(v) => v,
    };
    if toks.len() < 3 {
        return Err(PostError::from_reason(Reason::MissingDay));
    }
    proof {
        assert(toks@[2]@ == toksv[2]);
    }
    let day = match parse_decimal(toks[2].as_str(), 4294967295) {
        None => {
            return Err(PostError::from_reason(Reason::InvalidDay));
        },
        Some(v) => v,
    };
    let date = match Date::from_ymd(year, month, day) {
        None => {
            return Err(PostError::from_reason(Reason::InvalidDate));
        },
        Some(d) => d,
    };
    let mut tail: Vec<String> = Vec::new();
    let mut i: usize = 3;
    while i < toks.len()
        invariant
            3 <= i <= toks@.len(),
            tail@.map_values(|t: String| t@) =~= toks@.map_values(|t: String| t@).subrange(
                3,
                i as int,
            ),
        decreases toks@.len() - i,
    {
        let ghost prev = tail@;
        tail.push(toks[i].clone());
        proof {
            assert(tail@.map_values(|t: String| t@) =~= prev.map_values(|t: String| t@).push(
                toks@[i as int]@,
            ));
            assert(toks@.map_values(|t: String| t@).subrange(3, i + 1) =~= toks@.map_values(
                |t: String| t@,
            ).subrange(3, i as int).push(toks@[i as int]@));
        }
        i = i + 1;
    }
    proof {
        assert(tail@.map_values(|t: String| t@) =~= toksv.skip(3));
    }
    let empty_title = if tail.len() == 0 {
        true
    } else if tail.len() == 1 {
        tail[0].as_str().unicode_len() == 0
    } else {
        false
    };
    if empty_title {
        return Err(PostError::from_reason(Reason::EmptyTitle));
    }
    let p = ParsedName { stem: String::from_str(stem), date, tail };
    Ok(p)
}

/// Law: a file name without a `.` is rejected for its missing extension.
pub proof fn lemma_missing_extension(name: Seq<char>, ext: Seq<char>)
    requires
        forall|i: int| 0 <= i < name.len() ==> name[i] != '.',
    ensures
        spec_parse_name(name, ext) == Err::<ParsedV, Reason>(Reason::MissingExtension),
{
    lemma_find_char(name, '.');
    if find_char(name, '.') >= 0 {
        assert(name[find_char(name, '.')] != '.');
    }
}

/// Law: a name whose extension differs from the accepted one is rejected
/// for its invalid extension.
pub proof fn lemma_invalid_extension(name: Seq<char>, ext: Seq<char>)
    requires
        find_char(name, '.') >= 0,
        name.subrange(find_char(name, '.') + 1, name.len() as int) != ext,
    ensures
        spec_parse_name(name, ext) == Err::<ParsedV, Reason>(Reason::InvalidExtension),
{
}

/// Law: when the three leading tokens read as numbers but do not form a
/// real calendar date — a thirteenth month, a thirtieth of February — the
/// name is rejected for its invalid date.
pub proof fn lemma_invalid_date(name: Seq<char>, ext: Seq<char>)
    requires
        find_char(name, '.') >= 0,
        name.subrange(find_char(name, '.') + 1, name.len() as int) == ext,
        ({
            let toks = split_on(name.subrange(0, find_char(name, '.')), '-');
            &&& toks.len() >= 3
            &&& toks[0].len() > 0 && all_digits(toks[0]) && digits_val(toks[0]) <= 2147483647
            &&& toks[1].len() > 0 && all_digits(toks[1]) && digits_val(toks[1]) <= 4294967295
            &&& toks[2].len() > 0 && all_digits(toks[2]) && digits_val(toks[2]) <= 4294967295
            &&& !valid_date(digits_val(toks[0]), digits_val(toks[1]), digits_val(toks[2]))
        }),
    ensures
        spec_parse_name(name, ext) == Err::<ParsedV, Reason>(Reason::InvalidDate),
{
}

/// The components of `path` between the separators `/`.
pub open spec fn spec_components(path: Seq<char>) -> Seq<Seq<char>> {
    split_on(path, '/')
}

/// The file-name component of `path`: what follows the last `/`.
pub open spec fn spec_file_name(path: Seq<char>) -> Seq<char> {
    spec_components(path).last()
}

/// Extract the file-name component of `path`.
pub fn file_name_of(path: &str) -> (r: String)
    ensures
        r@ == spec_file_name(path@),
{
    let comps = split_str(path, '/');
    proof {
        assert(comps@.map_values(|t: String| t@).len() >= 1);
    }
    let r = comps[comps.len() - 1].clone();
    proof {
        assert(r@ == comps@.map_values(|t: String| t@).last());
    }
    r
}

} // verus!
