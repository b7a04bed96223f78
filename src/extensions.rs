//! Sub-agent and skill files: their names and descriptions.
use vstd::prelude::*;

use crate::text::{
    blank, chars_at, chars_of, ends_with, has_prefix, has_suffix, is_blank, same_text,
    starts_with, std_lines, string_of_range, strings_view, text_lines, trim, trim_text,
};

verus! {

/// A sub-agent definition file.
#[derive(Debug)]
pub struct SubagentFile {
    /// The agent's name: the file name without `.md`.
    pub name: String,
    /// The file's full path.
    pub path: String,
    /// `"project"` or `"user"`.
    pub scope: String,
    /// From the front matter, or the first plain line.
    pub description: Option<String>,
    /// The file's text.
    pub content: String,
}

/// An agent skill file.
#[derive(Debug)]
pub struct AgentSkillFile {
    /// The skill's name: the file name without `SKILL.md` and the dots
    /// before it.
    pub name: String,
    /// The file's full path.
    pub path: String,
    /// `"project"` or `"user"`.
    pub scope: String,
    /// From the front matter, or the first plain line.
    pub description: Option<String>,
    /// The file's text.
    pub content: String,
}

/// The text with every leading copy of `p` removed.
pub open spec fn strip_prefixes(s: Seq<char>, p: Seq<char>) -> Seq<char>
    decreases s.len(),
{
    if p.len() > 0 && has_prefix(s, p) {
        strip_prefixes(s.subrange(p.len() as int, s.len() as int), p)
    } else {
        s
    }
}

/// The text with every trailing copy of `p` removed.
pub open spec fn strip_suffixes(s: Seq<char>, p: Seq<char>) -> Seq<char>
    decreases s.len(),
{
    if p.len() > 0 && has_suffix(s, p) {
        strip_suffixes(s.subrange(0, s.len() - p.len()), p)
    } else {
        s
    }
}

/// The description in the front matter, looking from line `i` to the
/// closing `---`.
pub open spec fn front_matter_description(ls: Seq<Seq<char>>, i: int) -> Option<Seq<char>>
    decreases ls.len() - i,
{
    if i < 0 || i >= ls.len() {
        None
    } else if ls[i] == "---"@ {
        None
    } else if has_prefix(ls[i], "description:"@) {
        Some(trim(strip_prefixes(ls[i], "description:"@)))
    } else {
        front_matter_description(ls, i + 1)
    }
}

/// The first line from line `i` that is neither blank nor a heading,
/// trimmed.
pub open spec fn first_plain_line(ls: Seq<Seq<char>>, i: int) -> Option<Seq<char>>
    decreases ls.len() - i,
{
    if i < 0 || i >= ls.len() {
        None
    } else if !is_blank(ls[i]) && !has_prefix(ls[i], "#"@) {
        Some(trim(ls[i]))
    } else {
        first_plain_line(ls, i + 1)
    }
}

/// A file's description: the `description:` entry of its front matter,
/// or else its first plain line.
pub open spec fn description_of(content: Seq<char>) -> Option<Seq<char>> {
    let ls = std_lines(content);
    let front = if ls.len() > 2 && ls[0] == "---"@ {
        front_matter_description(ls, 1)
    } else {
        None
    };
    match front {
        Some(d) => Some(d),
        None => first_plain_line(ls, 0),
    }
}

/// The text with every leading copy of `p` removed.
pub fn strip_prefixes_of(s: &str, p: &str) -> (r: String)
    ensures
        r@ == strip_prefixes(s@, p@),
{
    let cs = chars_of(s);
    let ps = chars_of(p);
    let n = cs.len();
    let mut at: usize = 0;
    assert(cs@.subrange(0, n as int) == cs@);
    if ps.len() > 0 {
        while chars_at(&cs, &ps, at)
            invariant
                cs@ == s@,
                ps@ == p@,
                ps@.len() > 0,
                n == cs@.len(),
                at <= n,
                strip_prefixes(s@, p@) == strip_prefixes(cs@.subrange(at as int, n as int), p@),
            decreases n - at,
        {
            let ghost rest = cs@.subrange(at as int, n as int);
            assert(rest.subrange(0, p@.len() as int) == cs@.subrange(at as int, at + p@.len()));
            assert(rest.subrange(p@.len() as int, rest.len() as int) == cs@.subrange(
                at + p@.len(),
                n as int,
            ));
            at = at + ps.len();
        }
        let ghost rest = cs@.subrange(at as int, n as int);
        assert(!has_prefix(rest, p@)) by {
            if has_prefix(rest, p@) {
                assert(rest.subrange(0, p@.len() as int) == cs@.subrange(
                    at as int,
                    at + p@.len(),
                ));
            }
        }
    } else {
        assert(cs@.subrange(0, n as int) == cs@);
    }
    string_of_range(&cs, at, n)
}

/// The text with every trailing copy of `p` removed.
pub fn strip_suffixes_of(s: &str, p: &str) -> (r: String)
    ensures
        r@ == strip_suffixes(s@, p@),
{
    let cs = chars_of(s);
    let ps = chars_of(p);
    let mut end: usize = cs.len();
    assert(cs@.subrange(0, end as int) == cs@);
    if ps.len() > 0 {
        while end >= ps.len() && chars_at(&cs, &ps, end - ps.len())
            invariant
                cs@ == s@,
                ps@ == p@,
                ps@.len() > 0,
                end <= cs@.len(),
                strip_suffixes(s@, p@) == strip_suffixes(cs@.subrange(0, end as int), p@),
            decreases end,
        {
            let ghost rest = cs@.subrange(0, end as int);
            assert(rest.subrange(rest.len() - p@.len(), rest.len() as int) == cs@.subrange(
                end - p@.len(),
                end as int,
            ));
            assert(rest.subrange(0, rest.len() - p@.len()) == cs@.subrange(0, end - p@.len()));
            end = end - ps.len();
        }
        let ghost rest = cs@.subrange(0, end as int);
        assert(!has_suffix(rest, p@)) by {
            if has_suffix(rest, p@) {
                assert(rest.subrange(rest.len() - p@.len(), rest.len() as int) == cs@.subrange(
                    end - p@.len(),
                    end as int,
                ));
            }
        }
    } else {
        assert(cs@.subrange(0, end as int) == cs@);
    }
    string_of_range(&cs, 0, end)
}

/// The `description:` entry of a front matter that opens at line 0.
fn front_matter_of(lines: &Vec<String>) -> (r: Option<String>)
    ensures
        match r {
            Some(d) => front_matter_description(strings_view(lines@), 1) == Some(d@),
            None => front_matter_description(strings_view(lines@), 1) is None,
        },
{
    let ghost ls = strings_view(lines@);
    let mut i: usize = 1;
    while i < lines.len()
        invariant
            ls == strings_view(lines@),
            1 <= i,
            front_matter_description(ls, 1) == front_matter_description(ls, i as int),
        decreases lines.len() - i,
    {
        assert(ls[i as int] == lines@[i as int]@);
        if same_text(lines[i].as_str(), "---") {
            return None;
        }
        if starts_with(lines[i].as_str(), "description:") {
            let rest = strip_prefixes_of(lines[i].as_str(), "description:");
            return Some(trim_text(rest.as_str()));
        }
        i = i + 1;
    }
    None
}

/// The description of a sub-agent or skill file: the `description:`
/// entry of its front matter, or else its first line that is neither
/// blank nor a heading, trimmed.
pub fn parse_description_from_content(content: &str) -> (r: Option<String>)
    ensures
        match r {
            Some(d) => description_of(content@) == Some(d@),
            None => description_of(content@) is None,
        },
{
    let lines = text_lines(content);
    let ghost ls = std_lines(content@);
    let front = if lines.len() > 2 && same_text(lines[0].as_str(), "---") {
        assert(ls[0] == lines@[0]@);
        front_matter_of(&lines)
    } else {
        None
    };
    match front {
        Some(d) => {
            return Some(d);
        },
        None => {},
    }
    let mut j: usize = 0;
    while j < lines.len()
        invariant
            strings_view(lines@) == ls,
            j <= lines@.len(),
            description_of(content@) == first_plain_line(ls, 0),
            first_plain_line(ls, 0) == first_plain_line(ls, j as int),
        decreases lines.len() - j,
    {
        assert(ls[j as int] == lines@[j as int]@);
        if !blank(lines[j].as_str()) && !starts_with(lines[j].as_str(), "#") {
            return Some(trim_text(lines[j].as_str()));
        }
        j = j + 1;
    }
    None
}

/// The agent name a file name gives: the name without `.md`, for a file
/// whose extension is `md`.
pub fn agent_name_from_file_name(file_name: &str) -> (r: Option<String>)
    ensures
        match r {
            Some(n) => has_suffix(file_name@, ".md"@) && file_name@.len() > 3 && n@
                == file_name@.subrange(0, file_name@.len() - 3),
            None => !(has_suffix(file_name@, ".md"@) && file_name@.len() > 3),
        },
{
    proof {
        reveal_strlit(".md");
    }
    let cs = chars_of(file_name);
    if cs.len() > 3 && ends_with(file_name, ".md") {
        Some(string_of_range(&cs, 0, cs.len() - 3))
    } else {
        None
    }
}

/// The skill name a file name gives: for a file whose name ends with
/// `SKILL.md`, the name without those endings and the dots before them.
pub fn skill_name_from_file_name(file_name: &str) -> (r: Option<String>)
    ensures
        match r {
            Some(n) => has_suffix(file_name@, "SKILL.md"@) && n@ == strip_suffixes(
                strip_suffixes(file_name@, "SKILL.md"@),
                "."@,
            ),
            None => !has_suffix(file_name@, "SKILL.md"@),
        },
{
    if ends_with(file_name, "SKILL.md") {
        let base = strip_suffixes_of(file_name, "SKILL.md");
        Some(strip_suffixes_of(base.as_str(), "."))
    } else {
        None
    }
}

/// The sub-agent a file defines, for a file whose extension is `md`.
pub fn subagent_from_file(file_name: &str, path: String, scope: &str, content: String) -> (r:
    Option<SubagentFile>)
    ensures
        match r {
            Some(a) => has_suffix(file_name@, ".md"@) && file_name@.len() > 3 && a.name@
                == file_name@.subrange(0, file_name@.len() - 3) && a.path == path && a.scope@
                == scope@ && a.content == content && match a.description {
                Some(d) => description_of(content@) == Some(d@),
                None => description_of(content@) is None,
            },
            None => !(has_suffix(file_name@, ".md"@) && file_name@.len() > 3),
        },
{
    match agent_name_from_file_name(file_name) {
        Some(name) => {
            let description = parse_description_from_content(content.as_str());
            Some(
                SubagentFile {
                    name,
                    path,
                    scope: String::from_str(scope),
                    description,
                    content,
                },
            )
        },
        None => None,
    }
}

/// The skill a file defines, for a file whose name ends with `SKILL.md`.
pub fn skill_from_file(file_name: &str, path: String, scope: &str, content: String) -> (r:
    Option<AgentSkillFile>)
    ensures
        match r {
            Some(s) => has_suffix(file_name@, "SKILL.md"@) && s.name@ == strip_suffixes(
                strip_suffixes(file_name@, "SKILL.md"@),
                "."@,
            ) && s.path == path && s.scope@ == scope@ && s.content == content
                && match s.description {
                Some(d) => description_of(content@) == Some(d@),
                None => description_of(content@) is None,
            },
            None => !has_suffix(file_name@, "SKILL.md"@),
        },
{
    match skill_name_from_file_name(file_name) {
        Some(name) => {
            let description = parse_description_from_content(content.as_str());
            Some(
                AgentSkillFile {
                    name,
                    path,
                    scope: String::from_str(scope),
                    description,
                    content,
                },
            )
        },
        None => None,
    }
}

} // verus!
