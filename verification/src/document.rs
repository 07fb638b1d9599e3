//! The source-document grammar: a compact JSON-shaped array of records,
//! each an object with exactly the string fields `id`, `name`,
//! `timedate` and `tags`, in that order, with no blank space between
//! tokens.  String values support the single-character escapes
//! `\"  \\  \/  \n  \t  \r  \b  \f`; any other use of a backslash, and
//! any other shape, rejects the whole document.  A record either matches
//! the full shape or is rejected.

use crate::dto::{DtoView, TaskDTO};
use crate::text::push_char;
use vstd::prelude::*;
use vstd::string::StrSliceExecFns;

verus! {

/// The single-character escape codes accepted after a backslash.
pub open spec fn is_escape_code(c: char) -> bool {
    c == '"' || c == '\\' || c == '/' || c == 'n' || c == 't' || c == 'r' || c == 'b' || c == 'f'
}

/// The character denoted by an escape code.
pub open spec fn escape_char(c: char) -> char {
    if c == 'n' {
        '\n'
    } else if c == 't' {
        '\t'
    } else if c == 'r' {
        '\r'
    } else if c == 'b' {
        '\u{0008}'
    } else if c == 'f' {
        '\u{000C}'
    } else {
        c
    }
}

/// Parses a string body starting at `i` (just past the opening quote):
/// the decoded characters and the position just past the closing quote.
pub open spec fn parse_strbody(s: Seq<char>, i: int) -> Option<(Seq<char>, int)>
    decreases s.len() - i,
{
    if i < 0 || i >= s.len() {
        None
    } else if s[i] == '"' {
        Some((Seq::empty(), i + 1))
    } else if s[i] == '\\' {
        if i + 1 < s.len() && is_escape_code(s[i + 1]) {
            match parse_strbody(s, i + 2) {
                Some((rest, j)) => Some((seq![escape_char(s[i + 1])] + rest, j)),
                None => None,
            }
        } else {
            None
        }
    } else {
        match parse_strbody(s, i + 1) {
            Some((rest, j)) => Some((seq![s[i]] + rest, j)),
            None => None,
        }
    }
}

/// The literal `lit` occurs in `s` at position `i`.
pub open spec fn parse_lit(s: Seq<char>, i: int, lit: Seq<char>) -> bool {
    &&& 0 <= i
    &&& i + lit.len() <= s.len()
    &&& forall|j: int| 0 <= j < lit.len() ==> s[i + j] == lit[j]
}

/// The opening of a record up to the `id` value: `{"id":"`.
pub open spec fn key_id() -> Seq<char> {
    seq!['{', '"', 'i', 'd', '"', ':', '"']
}

/// The separator before the `name` value: `,"name":"`.
pub open spec fn key_name() -> Seq<char> {
    seq![',', '"', 'n', 'a', 'm', 'e', '"', ':', '"']
}

/// The separator before the `timedate` value: `,"timedate":"`.
pub open spec fn key_timedate() -> Seq<char> {
    seq![',', '"', 't', 'i', 'm', 'e', 'd', 'a', 't', 'e', '"', ':', '"']
}

/// The separator before the `tags` value: `,"tags":"`.
pub open spec fn key_tags() -> Seq<char> {
    seq![',', '"', 't', 'a', 'g', 's', '"', ':', '"']
}

/// Parses one record object starting at `i`: the raw record and the
/// position just past its closing brace.
pub open spec fn parse_rec(s: Seq<char>, i: int) -> Option<(DtoView, int)> {
    if !parse_lit(s, i, key_id()) {
        None
    } else {
        match parse_strbody(s, i + key_id().len()) {
            None => None,
            Some((idv, j1)) => {
                if !parse_lit(s, j1, key_name()) {
                    None
                } else {
                    match parse_strbody(s, j1 + key_name().len()) {
                        None => None,
                        Some((namev, j2)) => {
                            if !parse_lit(s, j2, key_timedate()) {
                                None
                            } else {
                                match parse_strbody(s, j2 + key_timedate().len()) {
                                    None => None,
                                    Some((tdv, j3)) => {
                                        if !parse_lit(s, j3, key_tags()) {
                                            None
                                        } else {
                                            match parse_strbody(s, j3 + key_tags().len()) {
                                                None => None,
                                                Some((tagv, j4)) => {
                                                    if j4 < s.len() && s[j4] == '}' {
                                                        Some(
                                                            (
                                                                DtoView {
                                                                    id: idv,
                                                                    name: namev,
                                                                    timedate: tdv,
                                                                    tags: tagv,
                                                                },
                                                                j4 + 1,
                                                            ),
                                                        )
                                                    } else {
                                                        None
                                                    }
                                                },
                                            }
                                        }
                                    },
                                }
                            }
                        },
                    }
                }
            },
        }
    }
}

/// Parses one or more comma-separated records starting at `i`.  A record
/// always advances the position; a non-advance is treated as a parse
/// failure.
pub open spec fn parse_recs(s: Seq<char>, i: int) -> Option<(Seq<DtoView>, int)>
    decreases s.len() - i,
{
    match parse_rec(s, i) {
        None => None,
        Some((d, j)) => {
            if j <= i {
                None
            } else if j < s.len() && s[j] == ',' {
                match parse_recs(s, j + 1) {
                    None => None,
                    Some((ds, j2)) => Some((seq![d] + ds, j2)),
                }
            } else {
                Some((seq![d], j))
            }
        },
    }
}

/// Parses a whole document: `[]`, or `[` records `]`, and nothing after.
pub open spec fn parse_doc(s: Seq<char>) -> Option<Seq<DtoView>> {
    if s.len() == 2 && s[0] == '[' && s[1] == ']' {
        Some(Seq::empty())
    } else if s.len() >= 2 && s[0] == '[' {
        match parse_recs(s, 1) {
            None => None,
            Some((ds, j)) => {
                if j + 1 == s.len() && s[j] == ']' {
                    Some(ds)
                } else {
                    None
                }
            },
        }
    } else {
        None
    }
}

/// The models of a sequence of raw records.
pub open spec fn dto_views(v: Seq<TaskDTO>) -> Seq<DtoView> {
    v.map_values(|d: TaskDTO| d@)
}

/// Prepends already-decoded characters to a string-body parse.
pub open spec fn spec_prepend(p: Seq<char>, o: Option<(Seq<char>, int)>) -> Option<
    (Seq<char>, int),
> {
    match o {
        None => None,
        Some((v, j)) => Some((p + v, j)),
    }
}

/// Prepends already-parsed records to a record-list parse.
pub open spec fn spec_prepend_recs(p: Seq<DtoView>, o: Option<(Seq<DtoView>, int)>) -> Option<
    (Seq<DtoView>, int),
> {
    match o {
        None => None,
        Some((v, j)) => Some((p + v, j)),
    }
}

fn is_escape_code_exec(c: char) -> (r: bool)
    ensures
        r == is_escape_code(c),
{
    c == '"' || c == '\\' || c == '/' || c == 'n' || c == 't' || c == 'r' || c == 'b' || c == 'f'
}

fn escape_char_exec(c: char) -> (r: char)
    ensures
        r == escape_char(c),
{
    if c == 'n' {
        '\n'
    } else if c == 't' {
        '\t'
    } else if c == 'r' {
        '\r'
    } else if c == 'b' {
        '\u{0008}'
    } else if c == 'f' {
        '\u{000C}'
    } else {
        c
    }
}

/// Decodes a string body starting at `i` (just past the opening quote).
fn take_strbody(s: &str, len: usize, i: usize) -> (r: Option<(String, usize)>)
    requires
        len == s@.len(),
        i <= len,
    ensures
        r is Some <==> parse_strbody(s@, i as int) is Some,
        r matches Some(p) ==> parse_strbody(s@, i as int) == Some((p.0@, p.1 as int)) && p.1 <= len,
{
    let mut acc = String::new();
    let mut idx: usize = i;
    proof {
        if parse_strbody(s@, i as int) is Some {
            let (v, j) = parse_strbody(s@, i as int)->0;
            assert(Seq::<char>::empty() + v =~= v);
        }
    }
    loop
        invariant
            len == s@.len(),
            i <= idx <= len,
            parse_strbody(s@, i as int) == spec_prepend(acc@, parse_strbody(s@, idx as int)),
        decreases len - idx,
    {
        if idx == len {
            return None;
        }
        let c = s.get_char(idx);
        if c == '"' {
            proof {
                assert(acc@ + Seq::<char>::empty() =~= acc@);
            }
            return Some((acc, idx + 1));
        }
        if c == '\\' {
            if idx + 1 == len {
                return None;
            }
            let c2 = s.get_char(idx + 1);
            if !is_escape_code_exec(c2) {
                return None;
            }
            let e = escape_char_exec(c2);
            proof {
                if parse_strbody(s@, idx + 2) is Some {
                    let (rest, j) = parse_strbody(s@, idx + 2)->0;
                    assert(acc@ + (seq![e] + rest) =~= acc@.push(e) + rest);
                }
            }
            push_char(&mut acc, e);
            idx = idx + 2;
        } else {
            proof {
                if parse_strbody(s@, idx + 1) is Some {
                    let (rest, j) = parse_strbody(s@, idx + 1)->0;
                    assert(acc@ + (seq![c] + rest) =~= acc@.push(c) + rest);
                }
            }
            push_char(&mut acc, c);
            idx = idx + 1;
        }
    }
}

/// Whether the literal `lit` stands in `s` at position `i`.
fn expect_lit(s: &str, len: usize, i: usize, lit: &str) -> (r: bool)
    requires
        len == s@.len(),
        i <= len,
    ensures
        r == parse_lit(s@, i as int, lit@),
{
    let m = lit.unicode_len();
    if len - i < m {
        return false;
    }
    let mut j: usize = 0;
    while j < m
        invariant
            len == s@.len(),
            m == lit@.len(),
            i + m <= len,
            j <= m,
            forall|q: int| 0 <= q < j ==> s@[i + q] == lit@[q],
        decreases m - j,
    {
        if s.get_char(i + j) != lit.get_char(j) {
            return false;
        }
        j += 1;
    }
    true
}

/// Parses one record object starting at `i`.
fn take_record(s: &str, len: usize, i: usize) -> (r: Option<(TaskDTO, usize)>)
    requires
        len == s@.len(),
        i <= len,
    ensures
        r is Some <==> parse_rec(s@, i as int) is Some,
        r matches Some(p) ==> parse_rec(s@, i as int) == Some((p.0@, p.1 as int)) && p.1 <= len,
{
    proof {
        reveal_strlit("{\"id\":\"");
        reveal_strlit(",\"name\":\"");
        reveal_strlit(",\"timedate\":\"");
        reveal_strlit(",\"tags\":\"");
        assert(("{\"id\":\"")@ =~= key_id());
        assert((",\"name\":\"")@ =~= key_name());
        assert((",\"timedate\":\"")@ =~= key_timedate());
        assert((",\"tags\":\"")@ =~= key_tags());
    }
    if !expect_lit(s, len, i, "{\"id\":\"") {
        return None;
    }
    let (id, j1) = match take_strbody(s, len, i + 7) {
        Some(p) => p,
        None => {
            return None;
        },
    };
    if !expect_lit(s, len, j1, ",\"name\":\"") {
        return None;
    }
    let (name, j2) = match take_strbody(s, len, j1 + 9) {
        Some(p) => p,
        None => {
            return None;
        },
    };
    if !expect_lit(s, len, j2, ",\"timedate\":\"") {
        return None;
    }
    let (timedate, j3) = match take_strbody(s, len, j2 + 13) {
        Some(p) => p,
        None => {
            return None;
        },
    };
    if !expect_lit(s, len, j3, ",\"tags\":\"") {
        return None;
    }
    let (tags, j4) = match take_strbody(s, len, j3 + 9) {
        Some(p) => p,
        None => {
            return None;
        },
    };
    if j4 < len && s.get_char(j4) == '}' {
        Some((TaskDTO { id, name, timedate, tags }, j4 + 1))
    } else {
        None
    }
}

/// Parses one or more comma-separated records starting at `i`.
fn take_records(s: &str, len: usize, i: usize) -> (r: Option<(Vec<TaskDTO>, usize)>)
    requires
        len == s@.len(),
        i <= len,
    ensures
        r is Some <==> parse_recs(s@, i as int) is Some,
        r matches Some(p) ==> parse_recs(s@, i as int) == Some((dto_views(p.0@), p.1 as int))
            && p.1 <= len,
{
    let mut acc: Vec<TaskDTO> = Vec::new();
    let mut idx: usize = i;
    proof {
        assert(dto_views(acc@) =~= Seq::<DtoView>::empty());
        if parse_recs(s@, i as int) is Some {
            let (v, j) = parse_recs(s@, i as int)->0;
            assert(Seq::<DtoView>::empty() + v =~= v);
        }
    }
    loop
        invariant
            len == s@.len(),
            i <= idx <= len,
            parse_recs(s@, i as int) == spec_prepend_recs(
                dto_views(acc@),
                parse_recs(s@, idx as int),
            ),
        decreases len - idx,
    {
        let (d, j) = match take_record(s, len, idx) {
            Some(p) => p,
            None => {
                return None;
            },
        };
        if j <= idx {
            return None;
        }
        let ghost dv = d@;
        acc.push(d);
        proof {
            assert(dto_views(acc@) =~= dto_views(acc@.drop_last()).push(dv));
        }
        if j < len && s.get_char(j) == ',' {
            proof {
                if parse_recs(s@, j + 1) is Some {
                    let (ds, j2) = parse_recs(s@, j + 1)->0;
                    assert(dto_views(acc@.drop_last()) + (seq![dv] + ds) =~= dto_views(acc@) + ds);
                }
            }
            idx = j + 1;
        } else {
            proof {
                assert(dto_views(acc@.drop_last()) + seq![dv] =~= dto_views(acc@));
            }
            return Some((acc, j));
        }
    }
}

/// Parses the whole source document as an array of raw records; `None`
/// when the document does not match the expected shape.
pub fn parse_document(s: &str) -> (r: Option<Vec<TaskDTO>>)
    ensures
        r is Some <==> parse_doc(s@) is Some,
        r matches Some(v) ==> parse_doc(s@) == Some(dto_views(v@)),
{
    let len = s.unicode_len();
    if len < 2 {
        return None;
    }
    if s.get_char(0) != '[' {
        return None;
    }
    if len == 2 && s.get_char(1) == ']' {
        let v: Vec<TaskDTO> = Vec::new();
        proof {
            assert(dto_views(v@) =~= Seq::<DtoView>::empty());
        }
        return Some(v);
    }
    match take_records(s, len, 1) {
        Some((v, j)) => {
            if j == len - 1 && s.get_char(j) == ']' {
                Some(v)
            } else {
                None
            }
        },
        None => None,
    }
}

} // verus!
