//! Skill documents: the front matter of a `SKILL.md`, and the rules that a skill's
//! name and description follow.
use vstd::prelude::*;
use vstd::utf8::encode_utf8;
use crate::records::strings_view;
use crate::text::{
    chars_of, find_in, find_sub, has_sub, lemma_find_from_bounds, lines_of, matches_at, next_line,
    occurs_at, string_from, trim, trim_range,
};

verus! {

/// A skill's metadata, from its front matter.
#[derive(Debug, Clone, PartialEq, Eq)]
pub struct SkillMetadata {
    pub name: String,
    pub description: String,
    pub allowed_tools: Option<Vec<String>>,
}

/// A file of a skill's directory.
#[derive(Debug, Clone, PartialEq, Eq)]
pub struct SkillFile {
    pub name: String,
    pub path: String,
    pub content: Option<String>,
    pub is_directory: bool,
}

/// A skill.
#[derive(Debug, Clone, PartialEq, Eq)]
pub struct Skill {
    pub name: String,
    /// "personal" or "project".
    pub skill_type: String,
    pub description: String,
    pub file_path: String,
    pub yaml_frontmatter: Option<String>,
    pub markdown_content: String,
    pub files: Vec<SkillFile>,
    pub allowed_tools: Option<Vec<String>>,
    pub last_modified: String,
}

/// The findings of a skill's validation.
#[derive(Debug, Clone, PartialEq, Eq)]
pub struct ValidationResult {
    pub is_valid: bool,
    pub errors: Vec<String>,
    pub warnings: Vec<String>,
}

/// The message when the closing `---` of the front matter is missing.
pub open spec fn unclosed_frontmatter_text() -> Seq<char> {
    "未找到 YAML 前置元数据结束符 '---'"@
}

/// Where the front matter after the opening `---` ends: the first `"---\n"`, else the
/// first `"---\r\n"`, else -1.
pub open spec fn frontmatter_end(after: Seq<char>) -> int {
    if has_sub(after, "---\n"@) {
        find_sub(after, "---\n"@)
    } else {
        find_sub(after, "---\r\n"@)
    }
}

/// A document split into its front matter, if it opens with `---`, and its markdown body,
/// both trimmed.
pub open spec fn frontmatter_split(content: Seq<char>) -> Result<(Option<Seq<char>>, Seq<char>), Seq<char>> {
    let t = trim(content);
    if occurs_at(t, "---"@, 0) {
        let after = t.subrange(3, t.len() as int);
        let e = frontmatter_end(after);
        if e < 0 {
            Err(unclosed_frontmatter_text())
        } else {
            Ok(
                (
                    Some(trim(after.subrange(0, e))),
                    if e + 3 < after.len() {
                        trim(after.subrange(e + 3, after.len() as int))
                    } else {
                        seq![]
                    },
                ),
            )
        }
    } else {
        Ok((None, t))
    }
}

/// Splits a skill document into its YAML front matter and its markdown body.
///
/// A document that opens with `---` (once trimmed) must close the front matter with a
/// line `---`; the front matter and the body are each trimmed. A document without it is
/// all body.
pub fn parse_yaml_frontmatter(content: &str) -> (r: Result<(Option<String>, String), String>)
    ensures
        match (r, frontmatter_split(content@)) {
            (Ok((y, m)), Ok((sy, sm))) => m@ == sm && match (y, sy) {
                (Some(a), Some(b)) => a@ == b,
                (None, None) => true,
                _ => false,
            },
            (Err(e), Err(se)) => e@ == se,
            _ => false,
        },
{
    let cs = chars_of(content);
    assert(cs@.subrange(0, cs.len() as int) =~= content@);
    let (a, b) = trim_range(&cs, 0, cs.len());
    let ghost t = cs@.subrange(a as int, b as int);
    let opening = chars_of("---");
    proof {
        reveal_strlit("---");
        reveal_strlit("---\n");
        reveal_strlit("---\r\n");
    }
    if !matches_at(&cs, a, b, a, &opening) {
        return Ok((None, string_from(&cs, a, b)));
    }
    let s = a + 3;
    let ghost after = cs@.subrange(s as int, b as int);
    assert(t.subrange(3, t.len() as int) =~= after);
    let end = match find_in(&cs, s, b, &chars_of("---\n")) {
        Some(k) => Some(k),
        None => find_in(&cs, s, b, &chars_of("---\r\n")),
    };
    match end {
        None => Err(String::from_str("未找到 YAML 前置元数据结束符 '---'")),
        Some(k) => {
            assert(after.subrange(0, k - s) =~= cs@.subrange(s as int, k as int));
            let (ya, yb) = trim_range(&cs, s, k);
            let body = if k + 3 < b {
                assert(after.subrange(k - s + 3, after.len() as int) =~= cs@.subrange(
                    k + 3,
                    b as int,
                ));
                let (ma, mb) = trim_range(&cs, k + 3, b);
                string_from(&cs, ma, mb)
            } else {
                String::new()
            };
            Ok((Some(string_from(&cs, ya, yb)), body))
        },
    }
}

/// Whether a character is lowercase, by the Unicode `Lowercase` property.
pub uninterp spec fn lowercase_letter(c: char) -> bool;

/// Whether a character is numeric, by the Unicode general categories `Nd`, `Nl` and `No`.
pub uninterp spec fn numeric_char(c: char) -> bool;

/// Relies on `char::is_lowercase`: the Unicode `Lowercase` property of `c`.
#[verifier::external_body]
fn is_lowercase_char(c: char) -> (r: bool)
    ensures
        r == lowercase_letter(c),
{
    c.is_lowercase()
}

/// Relies on `char::is_numeric`: whether `c` is in a numeric general category.
#[verifier::external_body]
fn is_numeric_char(c: char) -> (r: bool)
    ensures
        r == numeric_char(c),
{
    c.is_numeric()
}

/// The message of the YAML parser for a text it refuses, or none when it accepts it.
pub uninterp spec fn yaml_error_of(s: Seq<char>) -> Option<Seq<char>>;

/// Relies on `serde_yaml::from_str` into a `serde_yaml::Value`: whether the text is
/// YAML, and the parser's message when it is not.
#[verifier::external_body]
fn yaml_error(s: &str) -> (r: Option<String>)
    ensures
        match r {
            Some(m) => yaml_error_of(s@) == Some(m@),
            None => yaml_error_of(s@) is None,
        },
{
    match serde_yaml::from_str::<serde_yaml::Value>(s) {
        Ok(_) => None,
        Err(e) => Some(e.to_string()),
    }
}

/// The length of a text in bytes, as UTF-8.
pub open spec fn byte_len(s: Seq<char>) -> int {
    encode_utf8(s).len() as int
}

/// Whether a skill name holds only lowercase letters, digits and `-`.
pub open spec fn name_chars_ok(s: Seq<char>) -> bool {
    forall|i: int| 0 <= i < s.len() ==> lowercase_letter(#[trigger] s[i]) || numeric_char(s[i]) || s[i] == '-'
}

/// Whether every character of `s` is a lowercase letter, a digit or `-`.
fn name_chars_valid(s: &String) -> (r: bool)
    ensures
        r == name_chars_ok(s@),
{
    let cs = chars_of(s.as_str());
    let mut i: usize = 0;
    while i < cs.len()
        invariant
            i <= cs.len(),
            cs@ == s@,
            forall|j: int| 0 <= j < i ==> lowercase_letter(#[trigger] cs@[j]) || numeric_char(cs@[j]) || cs@[j] == '-',
        decreases cs.len() - i,
    {
        let c = cs[i];
        if !(is_lowercase_char(c) || is_numeric_char(c) || c == '-') {
            return false;
        }
        i = i + 1;
    }
    true
}

/// A one-element sequence when `cond` holds, else an empty one.
pub open spec fn msg_if(cond: bool, m: Seq<char>) -> Seq<Seq<char>> {
    if cond {
        seq![m]
    } else {
        seq![]
    }
}

/// The errors that a skill's validation reports, in order.
pub open spec fn skill_errors(
    name: Seq<char>,
    description: Seq<char>,
    yaml: Option<Seq<char>>,
    file_path: Seq<char>,
    dir_exists: bool,
) -> Seq<Seq<char>> {
    msg_if(byte_len(name) > 64, "技能名称不能超过 64 个字符"@)
        + msg_if(byte_len(name) < 1, "技能名称不能为空"@)
        + msg_if(!name_chars_ok(name), "技能名称只能包含小写字母、数字和连字符"@)
        + msg_if(byte_len(description) > 1024, "技能描述不能超过 1024 个字符"@)
        + match yaml {
            Some(y) => match yaml_error_of(y) {
                Some(m) => seq!["YAML 语法错误: "@ + m],
                None => seq![],
            },
            None => seq![],
        }
        + msg_if(file_path.len() > 0 && !dir_exists, "技能目录不存在"@)
}

/// The warnings that a skill's validation reports.
pub open spec fn skill_warnings(description: Seq<char>) -> Seq<Seq<char>> {
    msg_if(byte_len(description) < 10, "建议提供更详细的技能描述（至少 10 个字符）"@)
}

/// Appends `m` to `v` when `cond` holds.
fn push_msg_if(v: &mut Vec<String>, cond: bool, m: &str)
    ensures
        strings_view(final(v)@) == strings_view(old(v)@) + msg_if(cond, m@),
{
    if cond {
        v.push(String::from_str(m));
        assert(strings_view(final(v)@) =~= strings_view(old(v)@) + msg_if(cond, m@));
    } else {
        assert(strings_view(final(v)@) =~= strings_view(old(v)@) + msg_if(cond, m@));
    }
}

/// Validates a skill: its name (at most 64 bytes, not empty, only lowercase letters,
/// digits and `-`), its description (at most 1024 bytes; under 10 is a warning), its
/// front matter (it must be YAML), and its directory, which must exist when a path is
/// given (`dir_exists` says whether it does). The skill is valid when there is no error.
pub fn validate_skill(skill: &Skill, dir_exists: bool) -> (r: ValidationResult)
    ensures
        strings_view(r.errors@) == skill_errors(
            skill.name@,
            skill.description@,
            match skill.yaml_frontmatter {
                Some(y) => Some(y@),
                None => None,
            },
            skill.file_path@,
            dir_exists,
        ),
        strings_view(r.warnings@) == skill_warnings(skill.description@),
        r.is_valid == (r.errors@.len() == 0),
{
    let mut errors: Vec<String> = Vec::new();
    assert(strings_view(errors@) =~= seq![]);
    let name_len = skill.name.as_str().as_bytes().len();
    let desc_len = skill.description.as_str().as_bytes().len();
    push_msg_if(&mut errors, name_len > 64, "技能名称不能超过 64 个字符");
    push_msg_if(&mut errors, name_len < 1, "技能名称不能为空");
    push_msg_if(&mut errors, !name_chars_valid(&skill.name), "技能名称只能包含小写字母、数字和连字符");
    push_msg_if(&mut errors, desc_len > 1024, "技能描述不能超过 1024 个字符");
    let ghost before_yaml = strings_view(errors@);
    match &skill.yaml_frontmatter {
        Some(y) => match yaml_error(y.as_str()) {
            Some(m) => {
                let line = String::from_str("YAML 语法错误: ").concat(m.as_str());
                errors.push(line);
                assert(strings_view(errors@) =~= before_yaml + seq!["YAML 语法错误: "@ + m@]);
            },
            None => {
                assert(strings_view(errors@) =~= before_yaml + seq![]);
            },
        },
        None => {
            assert(strings_view(errors@) =~= before_yaml + seq![]);
        },
    }
    let path_len = skill.file_path.as_str().unicode_len();
    push_msg_if(&mut errors, path_len > 0 && !dir_exists, "技能目录不存在");
    let mut warnings: Vec<String> = Vec::new();
    assert(strings_view(warnings@) =~= seq![]);
    push_msg_if(&mut warnings, desc_len < 10, "建议提供更详细的技能描述（至少 10 个字符）");
    assert(strings_view(warnings@) =~= skill_warnings(skill.description@));
    let is_valid = errors.len() == 0;
    ValidationResult { is_valid, errors, warnings }
}

} // verus!

verus! {

/// Why a new skill with this name and description is refused, if it is: the first
/// rule that it breaks.
pub open spec fn new_skill_refusal(name: Seq<char>, description: Seq<char>) -> Option<Seq<char>> {
    if name.len() == 0 {
        Some("技能名称不能为空"@)
    } else if byte_len(name) > 64 {
        Some("技能名称不能超过 64 个字符"@)
    } else if !name_chars_ok(name) {
        Some("技能名称只能包含小写字母、数字和连字符"@)
    } else if byte_len(description) > 1024 {
        Some("技能描述不能超过 1024 个字符"@)
    } else {
        None
    }
}

/// Checks the name and description of a skill about to be created.
pub fn check_new_skill(name: &String, description: &String) -> (r: Result<(), String>)
    ensures
        match new_skill_refusal(name@, description@) {
            Some(m) => r matches Err(e) && e@ == m,
            None => r is Ok,
        },
{
    if name.as_str().unicode_len() == 0 {
        return Err(String::from_str("技能名称不能为空"));
    }
    if name.as_str().as_bytes().len() > 64 {
        return Err(String::from_str("技能名称不能超过 64 个字符"));
    }
    if !name_chars_valid(name) {
        return Err(String::from_str("技能名称只能包含小写字母、数字和连字符"));
    }
    if description.as_str().as_bytes().len() > 1024 {
        return Err(String::from_str("技能描述不能超过 1024 个字符"));
    }
    Ok(())
}

/// The items joined with `", "` between them.
pub open spec fn comma_joined(items: Seq<Seq<char>>) -> Seq<char>
    decreases items.len(),
{
    if items.len() == 0 {
        seq![]
    } else if items.len() == 1 {
        items[0]
    } else {
        comma_joined(items.drop_last()) + ", "@ + items.last()
    }
}

/// The front matter written for a skill.
pub open spec fn frontmatter_text(
    name: Seq<char>,
    description: Seq<char>,
    tools: Option<Seq<Seq<char>>>,
) -> Seq<char> {
    "---\nname: "@ + name + "\ndescription: \""@ + description + "\""@ + match tools {
        Some(t) => "\nallowed-tools: "@ + comma_joined(t),
        None => seq![],
    } + "\n---\n"@
}

/// The tool names joined with `", "`.
fn join_tools(tools: &Vec<String>) -> (r: String)
    ensures
        r@ == comma_joined(strings_view(tools@)),
{
    let mut r = String::new();
    let mut i: usize = 0;
    while i < tools.len()
        invariant
            i <= tools.len(),
            r@ == comma_joined(strings_view(tools@.subrange(0, i as int))),
        decreases tools.len() - i,
    {
        let ghost prev = strings_view(tools@.subrange(0, i as int));
        let ghost next = strings_view(tools@.subrange(0, i + 1));
        assert(next.drop_last() =~= prev);
        assert(next.last() == tools@[i as int]@);
        if i == 0 {
            r = tools[i].clone();
        } else {
            r = r.concat(", ").concat(tools[i].as_str());
        }
        i = i + 1;
    }
    assert(tools@.subrange(0, tools.len() as int) =~= tools@);
    r
}

/// The YAML front matter written for a skill: its name, its quoted description, and its
/// allowed tools when there are any, between `---` lines.
pub fn skill_frontmatter(name: &String, description: &String, allowed_tools: &Option<Vec<String>>) -> (r: String)
    ensures
        r@ == frontmatter_text(
            name@,
            description@,
            match allowed_tools {
                Some(t) => Some(strings_view(t@)),
                None => None,
            },
        ),
{
    let mut r = String::from_str("---\nname: ").concat(name.as_str()).concat(
        "\ndescription: \"",
    ).concat(description.as_str()).concat("\"");
    match allowed_tools {
        Some(t) => {
            r = r.concat("\nallowed-tools: ").concat(join_tools(t).as_str());
        },
        None => {},
    }
    r.concat("\n---\n")
}

/// The index of the last `c` in `s`, or -1.
pub open spec fn last_index(s: Seq<char>, c: char) -> int
    decreases s.len(),
{
    if s.len() == 0 {
        -1
    } else if s.last() == c {
        s.len() - 1
    } else {
        last_index(s.drop_last(), c)
    }
}

/// The second-to-last `'/'`-separated segment of a path (the directory holding the
/// file), or empty when the path has no `'/'`.
pub open spec fn parent_segment(path: Seq<char>) -> Seq<char> {
    let k = last_index(path, '/');
    if k < 0 {
        seq![]
    } else {
        let before = path.subrange(0, k);
        before.subrange(last_index(before, '/') + 1, k)
    }
}

/// The index of the last `c` in `cs[0..hi]`, if any.
fn last_char_index(cs: &Vec<char>, hi: usize, c: char) -> (r: Option<usize>)
    requires
        hi <= cs.len(),
    ensures
        match r {
            Some(k) => k == last_index(cs@.subrange(0, hi as int), c) && k < hi,
            None => last_index(cs@.subrange(0, hi as int), c) == -1,
        },
{
    let mut i: usize = hi;
    while i > 0
        invariant
            i <= hi <= cs.len(),
            last_index(cs@.subrange(0, hi as int), c) == last_index(cs@.subrange(0, i as int), c),
        decreases i,
    {
        assert(cs@.subrange(0, i as int).drop_last() =~= cs@.subrange(0, i - 1));
        if cs[i - 1] == c {
            return Some(i - 1);
        }
        i = i - 1;
    }
    None
}

/// The name of the directory that holds a skill file, from its path.
pub fn skill_dir_name(path: &str) -> (r: String)
    ensures
        r@ == parent_segment(path@),
{
    let cs = chars_of(path);
    assert(cs@.subrange(0, cs.len() as int) =~= path@);
    match last_char_index(&cs, cs.len(), '/') {
        None => String::new(),
        Some(k) => {
            assert(cs@.subrange(0, k as int) =~= path@.subrange(0, k as int));
            let start = match last_char_index(&cs, k, '/') {
                None => 0,
                Some(j) => j + 1,
            };
            assert(path@.subrange(0, k as int).subrange(start as int, k as int) =~= cs@.subrange(
                start as int,
                k as int,
            ));
            string_from(&cs, start, k)
        },
    }
}

/// `s` without the leading `'#'` characters.
pub open spec fn strip_hashes(s: Seq<char>) -> Seq<char>
    decreases s.len(),
{
    if s.len() > 0 && s[0] == '#' {
        strip_hashes(s.drop_first())
    } else {
        s
    }
}

/// The title of a markdown body: its first line without leading `'#'`, trimmed.
pub open spec fn markdown_title(markdown: Seq<char>) -> Seq<char> {
    if lines_of(markdown).len() == 0 {
        seq![]
    } else {
        trim(strip_hashes(lines_of(markdown)[0]))
    }
}

/// The metadata a skill file has before its front matter is read: named after the
/// directory that holds it, or, when it has no front matter, after the non-empty title
/// of its body; no description and no tools.
pub open spec fn default_name(path: Seq<char>, has_frontmatter: bool, markdown: Seq<char>) -> Seq<char> {
    if !has_frontmatter && markdown_title(markdown).len() > 0 {
        markdown_title(markdown)
    } else {
        parent_segment(path)
    }
}

/// The metadata of a skill file before (or without) what its front matter says.
pub fn default_skill_metadata(skill_file_path: &str, has_frontmatter: bool, markdown: &str) -> (r: SkillMetadata)
    ensures
        r.name@ == default_name(skill_file_path@, has_frontmatter, markdown@),
        r.description@ == Seq::<char>::empty(),
        r.allowed_tools is None,
{
    let dir_name = skill_dir_name(skill_file_path);
    let mut name = dir_name;
    if !has_frontmatter {
        let cs = chars_of(markdown);
        let n = cs.len();
        assert(cs@.subrange(0, n as int) =~= markdown@);
        if n > 0 {
            let (e, q) = next_line(&cs, 0, n);
            let ghost line = cs@.subrange(0, e as int);
            assert((seq![line] + lines_of(cs@.subrange(q as int, n as int)))[0] == line);
            let mut h: usize = 0;
            while h < e && cs[h] == '#'
                invariant
                    h <= e <= n == cs.len(),
                    strip_hashes(line) == strip_hashes(cs@.subrange(h as int, e as int)),
                    line == cs@.subrange(0, e as int),
                decreases e - h,
            {
                assert(cs@.subrange(h as int, e as int).drop_first() =~= cs@.subrange(h + 1, e as int));
                h = h + 1;
            }
            let (ta, tb) = trim_range(&cs, h, e);
            if ta < tb {
                name = string_from(&cs, ta, tb);
            }
        } else {
            assert(lines_of(markdown@) =~= seq![]);
        }
    }
    SkillMetadata { name, description: String::new(), allowed_tools: None }
}

/// `s` without the `'/'` and `'\\'` characters at its end.
pub open spec fn strip_trailing_separators(s: Seq<char>) -> Seq<char>
    decreases s.len(),
{
    if s.len() > 0 && (s.last() == '/' || s.last() == '\\') {
        strip_trailing_separators(s.drop_last())
    } else {
        s
    }
}

/// A directory path written without trailing separators.
pub fn skill_dir_text(dir: &str) -> (r: String)
    ensures
        r@ == strip_trailing_separators(dir@),
{
    let cs = chars_of(dir);
    let mut b: usize = cs.len();
    assert(cs@.subrange(0, b as int) =~= dir@);
    while b > 0 && (cs[b - 1] == '/' || cs[b - 1] == '\\')
        invariant
            b <= cs.len(),
            strip_trailing_separators(dir@) == strip_trailing_separators(cs@.subrange(0, b as int)),
        decreases b,
    {
        assert(cs@.subrange(0, b as int).drop_last() =~= cs@.subrange(0, b - 1));
        b = b - 1;
    }
    string_from(&cs, 0, b)
}

} // verus!
