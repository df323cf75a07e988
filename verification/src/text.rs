//! Verified string utilities: searching, splitting, joining and decimal
//! parsing over `Seq<char>` views.

use vstd::prelude::*;

verus! {

/// Index of the first occurrence of `c` in `s`, or `-1` if `c` is absent.
pub open spec fn find_char(s: Seq<char>, c: char) -> int
    decreases s.len(),
{
    if s.len() == 0 {
        -1
    } else if s[0] == c {
        0
    } else {
        let r = find_char(s.subrange(1, s.len() as int), c);
        if r < 0 {
            -1
        } else {
            r + 1
        }
    }
}

/// `find_char` returns either `-1` with no occurrence, or the first index
/// holding `c`.
pub proof fn lemma_find_char(s: Seq<char>, c: char)
    ensures
        find_char(s, c) == -1 ==> forall|i: int| 0 <= i < s.len() ==> s[i] != c,
        find_char(s, c) != -1 ==> {
            &&& 0 <= find_char(s, c) < s.len()
            &&& s[find_char(s, c)] == c
            &&& forall|i: int| 0 <= i < find_char(s, c) ==> s[i] != c
        },
    decreases s.len(),
{
    if s.len() == 0 {
    } else if s[0] == c {
    } else {
        let tail = s.subrange(1, s.len() as int);
        lemma_find_char(tail, c);
        let ft = find_char(tail, c);
        if ft == -1 {
            assert forall|i: int| 0 <= i < s.len() implies s[i] != c by {
                if i >= 1 {
                    assert(tail[i - 1] != c);
                }
            }
        } else {
            assert(s[ft + 1] == tail[ft]);
            assert forall|i: int| 0 <= i < ft + 1 implies s[i] != c by {
                if i >= 1 {
                    assert(tail[i - 1] != c);
                }
            }
        }
    }
}

/// If `i` is an occurrence of `c` with a clean prefix, it is the first one.
proof fn lemma_find_char_at(s: Seq<char>, c: char, i: int)
    requires
        0 <= i < s.len(),
        s[i] == c,
        forall|j: int| 0 <= j < i ==> s[j] != c,
    ensures
        find_char(s, c) == i,
    decreases s.len(),
{
    if s[0] == c {
        if i > 0 {
            assert(s[0] != c);
        }
    } else {
        let tail = s.subrange(1, s.len() as int);
        assert(tail[i - 1] == c);
        assert forall|j: int| 0 <= j < i - 1 implies tail[j] != c by {
            assert(s[j + 1] != c);
        }
        lemma_find_char_at(tail, c, i - 1);
    }
}

/// If no position holds `c`, the search reports absence.
proof fn lemma_find_char_none(s: Seq<char>, c: char)
    requires
        forall|j: int| 0 <= j < s.len() ==> s[j] != c,
    ensures
        find_char(s, c) == -1,
    decreases s.len(),
{
    if s.len() > 0 {
        assert(s[0] != c);
        let tail = s.subrange(1, s.len() as int);
        assert forall|j: int| 0 <= j < tail.len() implies tail[j] != c by {
            assert(s[j + 1] != c);
        }
        lemma_find_char_none(tail, c);
    }
}

/// Find the first occurrence of `c` in `s`.
pub fn find(s: &str, c: char) -> (r: Option<usize>)
    ensures
        match r {
            Some(i) => i == find_char(s@, c),
            None => find_char(s@, c) == -1,
        },
{
    let n = s.unicode_len();
    let mut i: usize = 0;
    while i < n
        invariant
            n == s@.len(),
            0 <= i <= n,
            forall|j: int| 0 <= j < i ==> s@[j] != c,
        decreases n - i,
    {
        if s.get_char(i) == c {
            proof {
                lemma_find_char_at(s@, c, i as int);
            }
            return Some(i);
        }
        i = i + 1;
    }
    proof {
        lemma_find_char_none(s@, c);
    }
    None
}

/// The pieces of `s` between occurrences of the separator `c`.
/// Splitting always yields at least one piece; none contains `c`.
pub open spec fn split_on(s: Seq<char>, c: char) -> Seq<Seq<char>>
    decreases s.len(),
    via split_on_decreases
{
    if find_char(s, c) < 0 {
        seq![s]
    } else {
        seq![s.subrange(0, find_char(s, c))] + split_on(
            s.subrange(find_char(s, c) + 1, s.len() as int),
            c,
        )
    }
}

#[via_fn]
proof fn split_on_decreases(s: Seq<char>, c: char) {
    lemma_find_char(s, c);
}

/// Split `s` on every occurrence of `c`.
pub fn split_str(s: &str, c: char) -> (r: Vec<String>)
    ensures
        r@.map_values(|t: String| t@) == split_on(s@, c),
    decreases s@.len(),
{
    proof {
        lemma_find_char(s@, c);
    }
    match find(s, c) {
        None => {
            let mut v: Vec<String> = Vec::new();
            v.push(String::from_str(s));
            proof {
                assert(v@.map_values(|t: String| t@) =~= seq![s@]);
            }
            v
        },
        Some(i) => {
            let n = s.unicode_len();
            let head = s.substring_char(0, i);
            let tail = s.substring_char(i + 1, n);
            let mut rest = split_str(tail, c);
            rest.insert(0, String::from_str(head));
            proof {
                assert(rest@.map_values(|t: String| t@) =~= seq![s@.subrange(0, i as int)]
                    + split_on(s@.subrange(i + 1, s@.len() as int), c));
            }
            rest
        },
    }
}

/// The elements of `parts` laid end to end with `c` between neighbours.
pub open spec fn join_with(parts: Seq<Seq<char>>, c: char) -> Seq<char>
    decreases parts.len(),
{
    if parts.len() == 0 {
        Seq::empty()
    } else if parts.len() == 1 {
        parts[0]
    } else {
        parts[0] + seq![c] + join_with(parts.drop_first(), c)
    }
}

fn join_from(parts: &Vec<String>, from: usize, sep: &str) -> (r: String)
    requires
        sep@.len() == 1,
        from <= parts@.len(),
    ensures
        r@ == join_with(parts@.skip(from as int).map_values(|t: String| t@), sep@[0]),
    decreases parts@.len() - from,
{
    let ghost mapped = parts@.skip(from as int).map_values(|t: String| t@);
    if from == parts.len() {
        proof {
            assert(mapped =~= Seq::<Seq<char>>::empty());
        }
        String::new()
    } else if from + 1 == parts.len() {
        proof {
            assert(mapped.len() == 1);
            assert(mapped[0] == parts@[from as int]@);
        }
        parts[from].clone()
    } else {
        let mut out = parts[from].clone();
        out.append(sep);
        let rest = join_from(parts, from + 1, sep);
        out.append(rest.as_str());
        proof {
            assert(parts@.skip(from + 1).map_values(|t: String| t@) =~= mapped.drop_first());
            assert(sep@ =~= seq![sep@[0]]);
            assert(out@ == mapped[0] + seq![sep@[0]] + join_with(mapped.drop_first(), sep@[0]));
        }
        out
    }
}

/// Join `parts` with the one-character separator `sep`.
pub fn join_strs(parts: &Vec<String>, sep: &str) -> (r: String)
    requires
        sep@.len() == 1,
    ensures
        r@ == join_with(parts@.map_values(|t: String| t@), sep@[0]),
{
    let r = join_from(parts, 0, sep);
    proof {
        assert(parts@.skip(0) =~= parts@);
    }
    r
}

/// Whether the two strings hold the same characters.
pub fn str_eq(a: &str, b: &str) -> (r: bool)
    ensures
        r == (a@ == b@),
{
    let n = a.unicode_len();
    if n != b.unicode_len() {
        return false;
    }
    let mut i: usize = 0;
    while i < n
        invariant
            n == a@.len() == b@.len(),
            0 <= i <= n,
            forall|j: int| 0 <= j < i ==> a@[j] == b@[j],
        decreases n - i,
    {
        if a.get_char(i) != b.get_char(i) {
            return false;
        }
        i = i + 1;
    }
    proof {
        assert(a@ =~= b@);
    }
    true
}

/// Whether `c` is an ASCII decimal digit.
pub open spec fn is_digit(c: char) -> bool {
    48 <= c as u32 <= 57
}

/// Whether `s` consists of decimal digits only (an empty `s` qualifies).
pub open spec fn all_digits(s: Seq<char>) -> bool {
    forall|i: int| 0 <= i < s.len() ==> is_digit(#[trigger] s[i])
}

/// The numeric value of one digit character.
pub open spec fn digit_val(c: char) -> int {
    c as u32 - 48
}

/// The value of `s` read as a decimal numeral.
pub open spec fn digits_val(s: Seq<char>) -> int
    decreases s.len(),
{
    if s.len() == 0 {
        0
    } else {
        digits_val(s.drop_last()) * 10 + digit_val(s.last())
    }
}

proof fn lemma_digits_val_nonneg(s: Seq<char>)
    requires
        all_digits(s),
    ensures
        digits_val(s) >= 0,
    decreases s.len(),
{
    if s.len() > 0 {
        lemma_digits_val_nonneg(s.drop_last());
    }
}

/// Reading more digits never shrinks the value.
proof fn lemma_digits_val_extend(s: Seq<char>, i: int)
    requires
        0 <= i <= s.len(),
        all_digits(s),
    ensures
        digits_val(s.subrange(0, i)) >= 0,
        digits_val(s) >= digits_val(s.subrange(0, i)),
    decreases s.len() - i,
{
    assert(all_digits(s.subrange(0, i)));
    lemma_digits_val_nonneg(s.subrange(0, i));
    if i < s.len() {
        lemma_digits_val_extend(s, i + 1);
        assert(s.subrange(0, i + 1).drop_last() =~= s.subrange(0, i));
        assert(digits_val(s.subrange(0, i + 1)) == digits_val(s.subrange(0, i)) * 10 + digit_val(
            s[i],
        ));
    } else {
        assert(s.subrange(0, i) =~= s);
    }
}

/// Parse `s` as a decimal number of value at most `max`.
/// Returns `None` exactly when `s` is empty, holds a non-digit, or its
/// value exceeds `max`.
pub fn parse_decimal(s: &str, max: u32) -> (r: Option<u32>)
    ensures
        match r {
            Some(v) => s@.len() > 0 && all_digits(s@) && v == digits_val(s@) && digits_val(s@)
                <= max,
            None => !(s@.len() > 0 && all_digits(s@) && digits_val(s@) <= max),
        },
{
    let n = s.unicode_len();
    if n == 0 {
        return None;
    }
    let mut acc: u64 = 0;
    let mut i: usize = 0;
    while i < n
        invariant
            n == s@.len(),
            0 <= i <= n,
            all_digits(s@.subrange(0, i as int)),
            acc == digits_val(s@.subrange(0, i as int)),
            acc <= max,
        decreases n - i,
    {
        let c = s.get_char(i);
        let code = c as u32;
        if code < 48 || code > 57 {
            return None;
        }
        let d = (code - 48) as u64;
        let next: u64 = acc * 10 + d;
        proof {
            assert(s@.subrange(0, i + 1).drop_last() =~= s@.subrange(0, i as int));
            assert(digits_val(s@.subrange(0, i + 1)) == acc * 10 + digit_val(s@[i as int]));
        }
        if next > max as u64 {
            proof {
                if all_digits(s@) && digits_val(s@) <= max {
                    lemma_digits_val_extend(s@, i + 1);
                }
            }
            return None;
        }
        acc = next;
        i = i + 1;
    }
    proof {
        assert(s@.subrange(0, n as int) =~= s@);
    }
    Some(acc as u32)
}

} // verus!
