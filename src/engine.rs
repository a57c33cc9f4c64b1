//! The comment inference engine: an ordered list of line shapes, each a regular
//! expression, tried in turn; the first that matches decides the comment.
use vstd::prelude::*;
use vstd::string::StringExecFns;
use crate::splitter::{lemma_phrase_unmarked, py_range_to_string, range_phrase, views};
use crate::text::{has_char, lemma_concat_lacks};

verus! {

/// The shapes of line that the engine recognises, in the order they are tried.
#[derive(Clone, Copy, Debug, PartialEq, Eq, Structural)]
pub enum Rule {
    Define,
    Assign,
    LoopForever,
    RepeatWhile,
    LoopRange,
    LoopThrough,
    PrintText,
    PrintValue,
    PrintBare,
    PrintCall,
    Increase,
    Decrease,
    AddTo,
    SubtractFrom,
}

/// How many rules there are.
pub const RULE_COUNT: usize = 14;

/// The rule tried at position `i`.
pub open spec fn rule_order(i: int) -> Rule {
    if i <= 0 {
        Rule::Define
    } else if i == 1 {
        Rule::Assign
    } else if i == 2 {
        Rule::LoopForever
    } else if i == 3 {
        Rule::RepeatWhile
    } else if i == 4 {
        Rule::LoopRange
    } else if i == 5 {
        Rule::LoopThrough
    } else if i == 6 {
        Rule::PrintText
    } else if i == 7 {
        Rule::PrintValue
    } else if i == 8 {
        Rule::PrintBare
    } else if i == 9 {
        Rule::PrintCall
    } else if i == 10 {
        Rule::Increase
    } else if i == 11 {
        Rule::Decrease
    } else if i == 12 {
        Rule::AddTo
    } else {
        Rule::SubtractFrom
    }
}

/// The regular expression of each rule.
pub open spec fn pattern_spec(rule: Rule) -> Seq<char> {
    match rule {
        Rule::Define => r"^def\s+([a-zA-Z_][a-zA-Z0-9_]*)\s*\(.*$"@,
        Rule::Assign => r"^([a-zA-Z_][a-zA-Z0-9_]*)\s*=\s*(.+?)$"@,
        Rule::LoopForever => r"^while\s+True\s*:$"@,
        Rule::RepeatWhile => r"^while\s+(.+)\s*:$"@,
        Rule::LoopRange => r"^for.+in\s+range\((.+)\):$"@,
        Rule::LoopThrough => r"^for.+in\s+(.+):$"@,
        Rule::PrintText => r#"^print(?:\s+|\s*\()"(.+)"\)?\s*$"#@,
        Rule::PrintValue => r"^print(?:\s+|\s*\()([a-zA-Z_][a-zA-Z0-9_]*)\)?$"@,
        Rule::PrintBare => r"^print\s+([^(\s].*)$"@,
        Rule::PrintCall => r"^print\s*\((.+)\)\s*$"@,
        Rule::Increase => r"^\s*([a-zA-Z_][a-zA-Z0-9_]*)\s*\+=\s*1\s*$"@,
        Rule::Decrease => r"^\s*([a-zA-Z_][a-zA-Z0-9_]*)\s*-=\s*1\s*$"@,
        Rule::AddTo => r"^\s*([a-zA-Z_][a-zA-Z0-9_]*)\s*\+=\s*(.+)\s*$"@,
        Rule::SubtractFrom => r"^\s*([a-zA-Z_][a-zA-Z0-9_]*)\s*-=\s*(.+)\s*$"@,
    }
}

/// How many capture groups a rule reads.
pub open spec fn arity(rule: Rule) -> nat {
    match rule {
        Rule::LoopForever => 0,
        Rule::Assign | Rule::AddTo | Rule::SubtractFrom => 2,
        _ => 1,
    }
}

/// The capture groups (all but the whole match) that the regex crate finds for
/// `pattern` on `text`, each `None` where the group took no part, or `None`
/// where it finds no match.
pub uninterp spec fn pattern_captures(pattern: Seq<char>, text: Seq<char>) -> Option<Seq<Option<Seq<char>>>>;

pub open spec fn group_views(g: Seq<Option<String>>) -> Seq<Option<Seq<char>>> {
    g.map_values(|o: Option<String>| match o {
        Some(t) => Some(t@),
        None => None,
    })
}

pub open spec fn opt_views(caps: Option<Vec<Option<String>>>) -> Option<Seq<Option<Seq<char>>>> {
    match caps {
        Some(v) => Some(group_views(v@)),
        None => None,
    }
}

/// Whether `part` stands somewhere in `whole` as a contiguous run.
pub open spec fn occurs_in(part: Seq<char>, whole: Seq<char>) -> bool {
    exists|k: int| 0 <= k && k + part.len() <= whole.len() && #[trigger] whole.subrange(k, k + part.len()) == part
}

/// Relies on regex::Regex::new and regex::Regex::captures: the text of each
/// capture group of the leftmost match of `pattern` in `text`, `None` for a
/// group that took no part, or `None` where the pattern is refused or nothing
/// matches. Each group's text is a slice of `text`.
#[verifier::external_body]
fn regex_captures(pattern: &str, text: &str) -> (r: Option<Vec<Option<String>>>)
    ensures
        opt_views(r) == pattern_captures(pattern@, text@),
        r matches Some(g) ==> forall|i: int| 0 <= i < g@.len() && #[trigger] g@[i] is Some
            ==> occurs_in(g@[i]->0@, text@),
{
    let caps = regex::Regex::new(pattern).ok()?.captures(text)?;
    Some(caps.iter().skip(1).map(|m| m.map(|m| m.as_str().to_string())).collect())
}

/// Whether a rule applies, given what its expression captured: there was a
/// match in which each group that the rule reads took part, and a rule that
/// reads one group takes it only when it is not empty.
pub open spec fn fires(rule: Rule, caps: Option<Seq<Option<Seq<char>>>>) -> bool {
    match caps {
        None => false,
        Some(g) => g.len() >= arity(rule)
            && (forall|i: int| 0 <= i < arity(rule) ==> #[trigger] g[i] is Some)
            && (arity(rule) != 1 || g[0]->0.len() > 0),
    }
}

/// The first `n` groups, each of which took part.
pub open spec fn taken(g: Seq<Option<Seq<char>>>, n: nat) -> Seq<Seq<char>> {
    g.take(n as int).map_values(|o: Option<Seq<char>>| o->0)
}

/// The comment that a rule renders from its groups `g`.
pub open spec fn comment_spec(rule: Rule, g: Seq<Seq<char>>) -> Seq<char> {
    match rule {
        Rule::Define => "# Define function "@ + g[0],
        Rule::Assign => "# Set "@ + g[0] + " to "@ + g[1],
        Rule::LoopForever => "# Loop forever"@,
        Rule::RepeatWhile => "# Repeat while "@ + g[0] + " is true"@,
        Rule::LoopRange => "# Loop "@ + range_phrase(g[0]),
        Rule::LoopThrough => "# Loop through "@ + g[0],
        Rule::PrintText => Seq::empty(),
        Rule::PrintValue => "# Print value of "@ + g[0],
        Rule::PrintBare | Rule::PrintCall => "# Print result of "@ + g[0],
        Rule::Increase => "# Increase "@ + g[0] + " by one"@,
        Rule::Decrease => "# Decrease "@ + g[0] + " by one"@,
        Rule::AddTo => "# Add "@ + g[1] + " to "@ + g[0],
        Rule::SubtractFrom => "# Subtract "@ + g[1] + " from "@ + g[0],
    }
}

/// The first rule from position `i` on that applies to `line`, with its groups.
pub open spec fn first_rule(line: Seq<char>, i: int) -> Option<(Rule, Seq<Seq<char>>)>
    decreases RULE_COUNT - i,
{
    if i < 0 || i >= RULE_COUNT {
        None
    } else {
        let rule = rule_order(i);
        let caps = pattern_captures(pattern_spec(rule), line);
        if fires(rule, caps) {
            Some((rule, taken(caps->0, arity(rule))))
        } else {
            first_rule(line, i + 1)
        }
    }
}

/// The comment inferred for a trimmed line; empty where the line holds `#` or
/// no rule applies.
pub open spec fn infer_spec(line: Seq<char>) -> Seq<char> {
    if line.contains('#') {
        Seq::empty()
    } else {
        match first_rule(line, 0) {
            Some((rule, g)) => comment_spec(rule, g),
            None => Seq::empty(),
        }
    }
}

/// The rule tried at position `i`.
pub fn rule_at(i: usize) -> (r: Rule)
    requires
        i < RULE_COUNT,
    ensures
        r == rule_order(i as int),
{
    if i == 0 {
        Rule::Define
    } else if i == 1 {
        Rule::Assign
    } else if i == 2 {
        Rule::LoopForever
    } else if i == 3 {
        Rule::RepeatWhile
    } else if i == 4 {
        Rule::LoopRange
    } else if i == 5 {
        Rule::LoopThrough
    } else if i == 6 {
        Rule::PrintText
    } else if i == 7 {
        Rule::PrintValue
    } else if i == 8 {
        Rule::PrintBare
    } else if i == 9 {
        Rule::PrintCall
    } else if i == 10 {
        Rule::Increase
    } else if i == 11 {
        Rule::Decrease
    } else if i == 12 {
        Rule::AddTo
    } else {
        Rule::SubtractFrom
    }
}

/// The regular expression of a rule.
pub fn pattern(rule: Rule) -> (r: &'static str)
    ensures
        r@ == pattern_spec(rule),
{
    match rule {
        Rule::Define => r"^def\s+([a-zA-Z_][a-zA-Z0-9_]*)\s*\(.*$",
        Rule::Assign => r"^([a-zA-Z_][a-zA-Z0-9_]*)\s*=\s*(.+?)$",
        Rule::LoopForever => r"^while\s+True\s*:$",
        Rule::RepeatWhile => r"^while\s+(.+)\s*:$",
        Rule::LoopRange => r"^for.+in\s+range\((.+)\):$",
        Rule::LoopThrough => r"^for.+in\s+(.+):$",
        Rule::PrintText => r#"^print(?:\s+|\s*\()"(.+)"\)?\s*$"#,
        Rule::PrintValue => r"^print(?:\s+|\s*\()([a-zA-Z_][a-zA-Z0-9_]*)\)?$",
        Rule::PrintBare => r"^print\s+([^(\s].*)$",
        Rule::PrintCall => r"^print\s*\((.+)\)\s*$",
        Rule::Increase => r"^\s*([a-zA-Z_][a-zA-Z0-9_]*)\s*\+=\s*1\s*$",
        Rule::Decrease => r"^\s*([a-zA-Z_][a-zA-Z0-9_]*)\s*-=\s*1\s*$",
        Rule::AddTo => r"^\s*([a-zA-Z_][a-zA-Z0-9_]*)\s*\+=\s*(.+)\s*$",
        Rule::SubtractFrom => r"^\s*([a-zA-Z_][a-zA-Z0-9_]*)\s*-=\s*(.+)\s*$",
    }
}

/// Whether `rule` applies, given what its expression captured.
pub fn rule_fires(rule: Rule, caps: &Option<Vec<Option<String>>>) -> (r: bool)
    ensures
        r == fires(rule, opt_views(*caps)),
{
    match caps {
        None => false,
        Some(g) => {
            let ghost gv = group_views(g@);
            let n = g.len();
            match rule {
                Rule::LoopForever => true,
                Rule::Assign | Rule::AddTo | Rule::SubtractFrom => {
                    if n >= 2 && g[0].is_some() && g[1].is_some() {
                        assert(gv[0] is Some && gv[1] is Some);
                        true
                    } else {
                        assert(n < 2 || gv[0] is None || gv[1] is None);
                        false
                    }
                },
                _ => {
                    if n >= 1 {
                        assert(gv[0] is Some <==> g@[0] is Some);
                        match &g[0] {
                            Some(t) => !t.as_str().is_empty(),
                            None => false,
                        }
                    } else {
                        false
                    }
                },
            }
        },
    }
}

/// The first `n` groups of `caps`, each of which took part.
pub fn taken_groups(caps: &Vec<Option<String>>, n: usize) -> (r: Vec<String>)
    requires
        n <= caps@.len(),
        forall|i: int| 0 <= i < n ==> #[trigger] caps@[i] is Some,
    ensures
        r@.len() == n,
        views(r@) == taken(group_views(caps@), n as nat),
{
    let mut r: Vec<String> = Vec::new();
    let mut i: usize = 0;
    while i < n
        invariant
            i <= n <= caps@.len(),
            forall|j: int| 0 <= j < n ==> #[trigger] caps@[j] is Some,
            r@.len() == i,
            views(r@) == taken(group_views(caps@), i as nat),
        decreases n - i,
    {
        let ghost prev = r@;
        match &caps[i] {
            Some(t) => {
                r.push(t.clone());
            },
            None => {},
        }
        proof {
            assert(views(r@) =~= views(prev).push(caps@[i as int]->0@));
            assert(taken(group_views(caps@), (i + 1) as nat) =~= taken(group_views(caps@), i as nat).push(
                caps@[i as int]->0@));
        }
        i = i + 1;
    }
    r
}

/// An empty text, or one whose only `#` is its first character.
pub open spec fn single_mark(c: Seq<char>) -> bool {
    c.len() > 0 ==> c[0] == '#' && forall|i: int| 0 < i < c.len() ==> c[i] != '#'
}

proof fn lemma_mark_extend(a: Seq<char>, b: Seq<char>)
    requires
        a.len() > 0,
        single_mark(a),
        !b.contains('#'),
    ensures
        single_mark(a + b),
{
    assert forall|i: int| 0 < i < (a + b).len() implies (a + b)[i] != '#' by {
        if i < a.len() {
            assert(a[i] == (a + b)[i]);
        } else {
            assert(b[i - a.len()] == (a + b)[i]);
        }
    }
}

proof fn lemma_occurs_lacks(part: Seq<char>, whole: Seq<char>, c: char)
    requires
        occurs_in(part, whole),
        !whole.contains(c),
    ensures
        !part.contains(c),
{
    let k = choose|k: int| 0 <= k && k + part.len() <= whole.len() && #[trigger] whole.subrange(k, k + part.len()) == part;
    assert forall|i: int| 0 <= i < part.len() implies part[i] != c by {
        assert(whole.subrange(k, k + part.len())[i] == whole[k + i]);
    }
}

/// A comment rendered from groups without `#` holds exactly one `#`, its
/// first character, or is empty.
pub proof fn lemma_comment_single_mark(rule: Rule, g: Seq<Seq<char>>)
    requires
        g.len() >= arity(rule),
        forall|i: int| 0 <= i < g.len() ==> !(#[trigger] g[i]).contains('#'),
    ensures
        single_mark(comment_spec(rule, g)),
{
    reveal_strlit("# Define function ");
    reveal_strlit("# Set ");
    reveal_strlit(" to ");
    reveal_strlit("# Loop forever");
    reveal_strlit("# Repeat while ");
    reveal_strlit(" is true");
    reveal_strlit("# Loop ");
    reveal_strlit("# Loop through ");
    reveal_strlit("# Print value of ");
    reveal_strlit("# Print result of ");
    reveal_strlit("# Increase ");
    reveal_strlit("# Decrease ");
    reveal_strlit(" by one");
    reveal_strlit("# Add ");
    reveal_strlit("# Subtract ");
    reveal_strlit(" from ");
    assert(!" to "@.contains('#'));
    assert(!" is true"@.contains('#'));
    assert(!" by one"@.contains('#'));
    assert(!" from "@.contains('#'));
    match rule {
        Rule::Define => lemma_mark_extend("# Define function "@, g[0]),
        Rule::Assign => {
            lemma_mark_extend("# Set "@, g[0]);
            lemma_mark_extend("# Set "@ + g[0], " to "@);
            lemma_mark_extend("# Set "@ + g[0] + " to "@, g[1]);
        },
        Rule::LoopForever => {},
        Rule::RepeatWhile => {
            lemma_mark_extend("# Repeat while "@, g[0]);
            lemma_mark_extend("# Repeat while "@ + g[0], " is true"@);
        },
        Rule::LoopRange => {
            lemma_phrase_unmarked(g[0]);
            lemma_mark_extend("# Loop "@, range_phrase(g[0]));
        },
        Rule::LoopThrough => lemma_mark_extend("# Loop through "@, g[0]),
        Rule::PrintText => {},
        Rule::PrintValue => lemma_mark_extend("# Print value of "@, g[0]),
        Rule::PrintBare | Rule::PrintCall => lemma_mark_extend("# Print result of "@, g[0]),
        Rule::Increase => {
            lemma_mark_extend("# Increase "@, g[0]);
            lemma_mark_extend("# Increase "@ + g[0], " by one"@);
        },
        Rule::Decrease => {
            lemma_mark_extend("# Decrease "@, g[0]);
            lemma_mark_extend("# Decrease "@ + g[0], " by one"@);
        },
        Rule::AddTo => {
            lemma_mark_extend("# Add "@, g[1]);
            lemma_mark_extend("# Add "@ + g[1], " to "@);
            lemma_mark_extend("# Add "@ + g[1] + " to "@, g[0]);
        },
        Rule::SubtractFrom => {
            lemma_mark_extend("# Subtract "@, g[1]);
            lemma_mark_extend("# Subtract "@ + g[1], " from "@);
            lemma_mark_extend("# Subtract "@ + g[1] + " from "@, g[0]);
        },
    }
}

/// Renders the comment of `rule` from the groups its expression captured.
pub fn comment_for(rule: Rule, groups: &Vec<String>) -> (r: String)
    requires
        groups@.len() >= arity(rule),
    ensures
        r@ == comment_spec(rule, views(groups@)),
{
    let ghost g = views(groups@);
    match rule {
        Rule::Define => {
            let mut r = String::from_str("# Define function ");
            r.append(groups[0].as_str());
            r
        },
        Rule::Assign => {
            let mut r = String::from_str("# Set ");
            r.append(groups[0].as_str());
            r.append(" to ");
            r.append(groups[1].as_str());
            assert(r@ == comment_spec(rule, g));
            r
        },
        Rule::LoopForever => String::from_str("# Loop forever"),
        Rule::RepeatWhile => {
            let mut r = String::from_str("# Repeat while ");
            r.append(groups[0].as_str());
            r.append(" is true");
            r
        },
        Rule::LoopRange => {
            let mut args = groups[0].clone();
            py_range_to_string(&mut args);
            let mut r = String::from_str("# Loop ");
            r.append(args.as_str());
            r
        },
        Rule::LoopThrough => {
            let mut r = String::from_str("# Loop through ");
            r.append(groups[0].as_str());
            r
        },
        Rule::PrintText => String::new(),
        Rule::PrintValue => {
            let mut r = String::from_str("# Print value of ");
            r.append(groups[0].as_str());
            r
        },
        Rule::PrintBare | Rule::PrintCall => {
            let mut r = String::from_str("# Print result of ");
            r.append(groups[0].as_str());
            r
        },
        Rule::Increase => {
            let mut r = String::from_str("# Increase ");
            r.append(groups[0].as_str());
            r.append(" by one");
            r
        },
        Rule::Decrease => {
            let mut r = String::from_str("# Decrease ");
            r.append(groups[0].as_str());
            r.append(" by one");
            r
        },
        Rule::AddTo => {
            let mut r = String::from_str("# Add ");
            r.append(groups[1].as_str());
            r.append(" to ");
            r.append(groups[0].as_str());
            assert(r@ == comment_spec(rule, g));
            r
        },
        Rule::SubtractFrom => {
            let mut r = String::from_str("# Subtract ");
            r.append(groups[1].as_str());
            r.append(" from ");
            r.append(groups[0].as_str());
            assert(r@ == comment_spec(rule, g));
            r
        },
    }
}

/// Infers the comment for a trimmed line of code: the rules are tried in order
/// and the first that applies renders the comment; a line that holds `#` gets
/// none.
pub fn infer(line: &str) -> (r: String)
    ensures
        r@ == infer_spec(line@),
        line@.contains('#') ==> r@.len() == 0,
        single_mark(r@),
{
    if has_char(line, '#') {
        return String::new();
    }
    let mut i: usize = 0;
    while i < RULE_COUNT
        invariant
            !line@.contains('#'),
            first_rule(line@, 0) == first_rule(line@, i as int),
        decreases RULE_COUNT - i,
    {
        let rule = rule_at(i);
        let caps = regex_captures(pattern(rule), line);
        if rule_fires(rule, &caps) {
            match caps {
                Some(g) => {
                    proof {
                        assert forall|j: int| 0 <= j < arity(rule) implies #[trigger] g@[j] is Some by {
                            assert(group_views(g@)[j] is Some);
                        }
                    }
                    let n: usize = if rule == Rule::LoopForever {
                        0
                    } else if rule == Rule::Assign || rule == Rule::AddTo || rule == Rule::SubtractFrom {
                        2
                    } else {
                        1
                    };
                    assert(n == arity(rule));
                    let groups = taken_groups(&g, n);
                    proof {
                        assert forall|j: int| 0 <= j < groups@.len() implies !(#[trigger] views(groups@)[j]).contains('#') by {
                            assert(views(groups@)[j] == taken(group_views(g@), n as nat)[j]);
                            assert(group_views(g@)[j] == Some(g@[j]->0@));
                            lemma_occurs_lacks(g@[j]->0@, line@, '#');
                        }
                        lemma_comment_single_mark(rule, views(groups@));
                    }
                    return comment_for(rule, &groups);
                },
                None => {},
            }
        }
        i = i + 1;
    }
    String::new()
}

/// Replaces a trimmed line of code by the comment inferred for it.
pub fn generate_comment(result: &mut String)
    ensures
        final(result)@ == infer_spec(old(result)@),
{
    let comment = infer(result.as_str());
    *result = comment;
}

} // verus!
