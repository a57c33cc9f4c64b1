//! The document driver: each non-empty line gets the comment inferred for its
//! trimmed text appended after a space; empty lines stay empty.
use vstd::prelude::*;
use vstd::string::StringExecFns;
use crate::engine::{comment_spec, first_rule, infer, infer_spec, Rule};
use crate::splitter::views;
use crate::text::{is_white, trim_end_spec, trim_spec, trim_start_spec};

verus! {

/// The output line for one input line.
pub open spec fn line_out(line: Seq<char>) -> Seq<char> {
    if line.len() == 0 {
        Seq::empty()
    } else {
        line + " "@ + infer_spec(trim_spec(line))
    }
}

/// The output lines for a document's lines, one for one.
pub open spec fn document_spec(lines: Seq<Seq<char>>) -> Seq<Seq<char>> {
    lines.map_values(|l: Seq<char>| line_out(l))
}

/// Annotates each line of a document with its inferred comment.
pub fn process(lines: &Vec<String>) -> (r: Vec<String>)
    ensures
        r@.len() == lines@.len(),
        views(r@) == document_spec(views(lines@)),
        forall|i: int| 0 <= i < lines@.len() && lines@[i]@.len() == 0 ==> r@[i]@.len() == 0,
{
    let mut r: Vec<String> = Vec::new();
    let mut i: usize = 0;
    while i < lines.len()
        invariant
            i <= lines.len(),
            r@.len() == i,
            views(r@) == document_spec(views(lines@)).take(i as int),
        decreases lines.len() - i,
    {
        let line = lines[i].as_str();
        let out = if line.is_empty() {
            String::new()
        } else {
            let comment = infer(line.trim());
            let mut out = String::from_str(line);
            out.append(" ");
            out.append(comment.as_str());
            out
        };
        assert(out@ == line_out(lines@[i as int]@));
        let ghost prev = r@;
        r.push(out);
        proof {
            assert(views(lines@)[i as int] == lines@[i as int]@);
            assert(views(r@) =~= views(prev).push(out@));
            assert(views(r@) =~= document_spec(views(lines@)).take(i + 1));
        }
        i = i + 1;
    }
    proof {
        assert(document_spec(views(lines@)).take(i as int) =~= document_spec(views(lines@)));
        assert forall|j: int| 0 <= j < lines@.len() && lines@[j]@.len() == 0 implies r@[j]@.len()
            == 0 by {
            assert(views(r@)[j] == r@[j]@);
            assert(views(lines@)[j] == lines@[j]@);
        }
    }
    r
}

proof fn lemma_trim_start_append(s: Seq<char>, t: Seq<char>)
    ensures
        trim_start_spec(s + t) == if trim_start_spec(s).len() > 0 {
            trim_start_spec(s) + t
        } else {
            trim_start_spec(t)
        },
    decreases s.len(),
{
    if s.len() == 0 {
        assert(s + t == t);
    } else {
        assert((s + t).drop_first() == s.drop_first() + t);
        lemma_trim_start_append(s.drop_first(), t);
    }
}

/// One more trailing space does not change what a line trims to.
proof fn lemma_trim_space(s: Seq<char>)
    ensures
        trim_spec(s + " "@) == trim_spec(s),
{
    reveal_strlit(" ");
    lemma_trim_start_append(s, " "@);
    let u = trim_start_spec(s);
    if u.len() > 0 {
        assert((u + " "@).drop_last() == u);
    } else {
        assert(" "@.drop_first().len() == 0);
        assert(trim_start_spec(" "@.drop_first()) == Seq::<char>::empty());
    }
}

proof fn lemma_trim_start_keeps(s: Seq<char>, c: char)
    requires
        !is_white(c),
        s.contains(c),
    ensures
        trim_start_spec(s).contains(c),
    decreases s.len(),
{
    if is_white(s[0]) {
        let j = choose|j: int| 0 <= j < s.len() && s[j] == c;
        assert(s.drop_first()[j - 1] == c);
        lemma_trim_start_keeps(s.drop_first(), c);
    }
}

proof fn lemma_trim_end_keeps(s: Seq<char>, c: char)
    requires
        !is_white(c),
        s.contains(c),
    ensures
        trim_end_spec(s).contains(c),
    decreases s.len(),
{
    if is_white(s.last()) {
        let j = choose|j: int| 0 <= j < s.len() && s[j] == c;
        assert(s.drop_last()[j] == c);
        lemma_trim_end_keeps(s.drop_last(), c);
    }
}

/// Every comment that a rule renders is empty or starts with `#`.
proof fn lemma_comment_marked(rule: Rule, g: Seq<Seq<char>>)
    ensures
        comment_spec(rule, g).len() > 0 ==> comment_spec(rule, g)[0] == '#',
{
    reveal_strlit("# Define function ");
    reveal_strlit("# Set ");
    reveal_strlit("# Loop forever");
    reveal_strlit("# Repeat while ");
    reveal_strlit("# Loop ");
    reveal_strlit("# Loop through ");
    reveal_strlit("# Print value of ");
    reveal_strlit("# Print result of ");
    reveal_strlit("# Increase ");
    reveal_strlit("# Decrease ");
    reveal_strlit("# Add ");
    reveal_strlit("# Subtract ");
}

proof fn lemma_infer_marked(line: Seq<char>)
    ensures
        infer_spec(line).len() > 0 ==> infer_spec(line)[0] == '#',
{
    if !line.contains('#') {
        match first_rule(line, 0) {
            Some((rule, g)) => lemma_comment_marked(rule, g),
            None => {},
        }
    }
}

/// Annotating a line's output again adds no comment: the second output is the
/// first followed by one space, and an empty line stays empty.
pub proof fn lemma_line_rerun(line: Seq<char>)
    ensures
        line_out(line_out(line)) == if line.len() == 0 {
            line_out(line)
        } else {
            line_out(line) + " "@
        },
{
    reveal_strlit(" ");
    if line.len() > 0 {
        let c = infer_spec(trim_spec(line));
        let o = line_out(line);
        assert(o.len() > 0);
        if c.len() > 0 {
            lemma_infer_marked(trim_spec(line));
            assert(o[(line.len() + 1) as int] == c[0]);
            lemma_trim_start_keeps(o, '#');
            lemma_trim_end_keeps(trim_start_spec(o), '#');
        } else {
            assert(o == line + " "@);
            lemma_trim_space(line);
        }
        assert(infer_spec(trim_spec(o)).len() == 0);
        assert(o + " "@ + infer_spec(trim_spec(o)) == o + " "@);
    }
}

/// Annotating a document's output again adds no comment: each line of the
/// second output is the line of the first followed by one space, and empty
/// lines stay empty.
pub proof fn lemma_document_rerun(lines: Seq<Seq<char>>)
    ensures
        document_spec(document_spec(lines)).len() == lines.len(),
        forall|i: int| #![auto] 0 <= i < lines.len() ==> document_spec(document_spec(lines))[i]
            == if lines[i].len() == 0 {
                document_spec(lines)[i]
            } else {
                document_spec(lines)[i] + " "@
            },
{
    assert forall|i: int| #![auto] 0 <= i < lines.len() implies document_spec(document_spec(lines))[i]
        == if lines[i].len() == 0 {
            document_spec(lines)[i]
        } else {
            document_spec(lines)[i] + " "@
        } by {
        lemma_line_rerun(lines[i]);
    }
}

} // verus!
