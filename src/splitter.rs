//! Splitting of a `range(...)` argument list on its top-level commas, and the
//! prose phrase that describes such a range.
use vstd::prelude::*;
use vstd::string::StringExecFns;
use crate::text::{chars_of, lemma_concat_lacks, string_of};

verus! {

pub open spec fn opens(c: char) -> bool {
    c == '(' || c == '[' || c == '{'
}

pub open spec fn closes(c: char) -> bool {
    c == ')' || c == ']' || c == '}'
}

/// The splitter's state after reading `s`: the finished fields, the field being
/// built, and the bracket depth.
pub open spec fn scan(s: Seq<char>) -> (Seq<Seq<char>>, Seq<char>, int)
    decreases s.len(),
{
    if s.len() == 0 {
        (Seq::empty(), Seq::empty(), 0)
    } else {
        let (fields, buf, depth) = scan(s.drop_last());
        let c = s.last();
        if opens(c) {
            (fields, buf, depth + 1)
        } else if closes(c) {
            (fields, buf, depth - 1)
        } else if c == ',' && depth == 0 {
            (fields.push(buf), Seq::empty(), depth)
        } else if c == ' ' || depth != 0 {
            (fields, buf, depth)
        } else {
            (fields, buf.push(c), depth)
        }
    }
}

/// The fields of `s`: the text between top-level commas, with spaces,
/// brackets and everything inside brackets left out.
pub open spec fn split_spec(s: Seq<char>) -> Seq<Seq<char>> {
    scan(s).0.push(scan(s).1)
}

/// The phrase that describes `range(s)`: one field is the end, two are start
/// and end, three add the step; any other count leaves `s` as it is.
pub open spec fn range_phrase(s: Seq<char>) -> Seq<char> {
    let f = split_spec(s);
    if f.len() == 1 {
        "from 0 to "@ + f[0]
    } else if f.len() == 2 {
        "from "@ + f[0] + " to "@ + f[1]
    } else if f.len() == 3 {
        "from "@ + f[0] + " to "@ + f[1] + " with step "@ + f[2]
    } else {
        s
    }
}

/// Scanning text without `c` builds fields without `c`.
proof fn lemma_scan_lacks(s: Seq<char>, c: char)
    requires
        !s.contains(c),
    ensures
        forall|i: int| 0 <= i < scan(s).0.len() ==> !(#[trigger] scan(s).0[i]).contains(c),
        !scan(s).1.contains(c),
    decreases s.len(),
{
    if s.len() > 0 {
        let p = s.drop_last();
        assert(!p.contains(c)) by {
            assert forall|i: int| 0 <= i < p.len() implies p[i] != c by {
                assert(s[i] == p[i]);
            }
        }
        lemma_scan_lacks(p, c);
        assert(s[s.len() - 1] == s.last());
        lemma_concat_lacks(scan(p).1, seq![s.last()], c);
        assert(scan(p).1.push(s.last()) == scan(p).1 + seq![s.last()]);
    }
}

/// The fields of text without `c` are without `c`.
pub proof fn lemma_split_lacks(s: Seq<char>, c: char)
    requires
        !s.contains(c),
    ensures
        forall|i: int| 0 <= i < split_spec(s).len() ==> !(#[trigger] split_spec(s)[i]).contains(c),
{
    lemma_scan_lacks(s, c);
    assert forall|i: int| 0 <= i < split_spec(s).len() implies !(#[trigger] split_spec(s)[i]).contains(c) by {
        if i < scan(s).0.len() {
            assert(split_spec(s)[i] == scan(s).0[i]);
        }
    }
}

/// A range phrase built from text without `#` holds no `#`.
pub proof fn lemma_phrase_unmarked(s: Seq<char>)
    requires
        !s.contains('#'),
    ensures
        !range_phrase(s).contains('#'),
{
    reveal_strlit("from 0 to ");
    reveal_strlit("from ");
    reveal_strlit(" to ");
    reveal_strlit(" with step ");
    let f = split_spec(s);
    lemma_split_lacks(s, '#');
    assert(!"from 0 to "@.contains('#'));
    assert(!"from "@.contains('#'));
    assert(!" to "@.contains('#'));
    assert(!" with step "@.contains('#'));
    if f.len() == 1 {
        lemma_concat_lacks("from 0 to "@, f[0], '#');
    } else if f.len() == 2 || f.len() == 3 {
        lemma_concat_lacks("from "@, f[0], '#');
        lemma_concat_lacks("from "@ + f[0], " to "@, '#');
        lemma_concat_lacks("from "@ + f[0] + " to "@, f[1], '#');
        if f.len() == 3 {
            lemma_concat_lacks("from "@ + f[0] + " to "@ + f[1], " with step "@, '#');
            lemma_concat_lacks("from "@ + f[0] + " to "@ + f[1] + " with step "@, f[2], '#');
        }
    }
}

pub open spec fn views(v: Seq<String>) -> Seq<Seq<char>> {
    v.map_values(|x: String| x@)
}

/// Splits an argument list on its top-level commas.
pub fn py_parse_args(range_str: &String) -> (r: Vec<String>)
    ensures
        views(r@) == split_spec(range_str@),
        r@.len() >= 1,
{
    let s = chars_of(range_str.as_str());
    let mut fields: Vec<String> = Vec::new();
    let mut buf: Vec<char> = Vec::new();
    let mut depth: i128 = 0;
    let mut i: usize = 0;
    while i < s.len()
        invariant
            s@ == range_str@,
            i <= s.len(),
            -(i as int) <= depth <= i as int,
            (views(fields@), buf@, depth as int) == scan(s@.take(i as int)),
        decreases s.len() - i,
    {
        let c = s[i];
        proof {
            assert(s@.take(i + 1).drop_last() == s@.take(i as int));
        }
        if c == '(' || c == '[' || c == '{' {
            depth = depth + 1;
        } else if c == ')' || c == ']' || c == '}' {
            depth = depth - 1;
        } else if c == ',' && depth == 0 {
            let f = string_of(&buf);
            fields.push(f);
            buf = Vec::new();
            proof {
                assert(views(fields@) == scan(s@.take(i as int)).0.push(f@));
            }
        } else if c != ' ' && depth == 0 {
            buf.push(c);
        }
        i = i + 1;
    }
    assert(s@.take(i as int) == s@);
    let last = string_of(&buf);
    fields.push(last);
    assert(views(fields@) == split_spec(range_str@));
    fields
}

/// Rewrites an argument list of `range(...)` into the phrase that describes it.
pub fn py_range_to_string(range_str: &mut String)
    ensures
        final(range_str)@ == range_phrase(old(range_str)@),
{
    let args = py_parse_args(range_str);
    let n = args.len();
    if n == 1 {
        let mut r = String::from_str("from 0 to ");
        r.append(args[0].as_str());
        *range_str = r;
    } else if n == 2 || n == 3 {
        let mut r = String::from_str("from ");
        r.append(args[0].as_str());
        r.append(" to ");
        r.append(args[1].as_str());
        if n == 3 {
            r.append(" with step ");
            r.append(args[2].as_str());
        }
        *range_str = r;
    }
    proof {
        let f = split_spec(old(range_str)@);
        assert(f[0] == args@[0]@);
        if n >= 2 {
            assert(f[1] == args@[1]@);
        }
        if n >= 3 {
            assert(f[2] == args@[2]@);
        }
    }
}

} // verus!
