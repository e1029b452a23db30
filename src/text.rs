use vstd::prelude::*;

verus! {

/// Characters with the Unicode `White_Space` property.
pub open spec fn is_white(c: char) -> bool {
    let u = c as u32;
    (0x9 <= u <= 0xd) || u == 0x20 || u == 0x85 || u == 0xa0 || u == 0x1680 || (0x2000 <= u
        <= 0x200a) || u == 0x2028 || u == 0x2029 || u == 0x202f || u == 0x205f || u == 0x3000
}

/// A text without its leading and trailing white space.
pub open spec fn trimmed(s: Seq<char>) -> Seq<char>
    decreases s.len(),
{
    if s.len() > 0 && is_white(s[0]) {
        trimmed(s.skip(1))
    } else if s.len() > 0 && is_white(s.last()) {
        trimmed(s.drop_last())
    } else {
        s
    }
}

/// Index of the first comma at or after `i`, or the length of `s`.
pub open spec fn field_end(s: Seq<char>, i: int) -> int
    decreases s.len() - i,
{
    if i < 0 || i >= s.len() || s[i] == ',' {
        i
    } else {
        field_end(s, i + 1)
    }
}

/// The trimmed, non-empty comma-separated fields of `s` from index `start` on.
pub open spec fn keys_from(s: Seq<char>, start: int) -> Seq<Seq<char>>
    decreases s.len() - start,
{
    let e = field_end(s, start);
    let key = trimmed(s.subrange(start, e));
    let here = if key.len() > 0 {
        seq![key]
    } else {
        Seq::empty()
    };
    if 0 <= start <= e < s.len() {
        here + keys_from(s, e + 1)
    } else {
        here
    }
}

/// The project keys that a comma-separated configuration lists: each field
/// trimmed, empty fields left out.
pub open spec fn project_keys_of(s: Seq<char>) -> Seq<Seq<char>> {
    keys_from(s, 0)
}

/// Whether an issue key belongs to a project: it starts with the project key
/// followed by `-`.
pub open spec fn in_project(issue_key: Seq<char>, project: Seq<char>) -> bool {
    issue_key.len() > project.len() && issue_key.subrange(0, project.len() as int) == project
        && issue_key[project.len() as int] == '-'
}

/// Whether an issue key belongs to one of the projects.
pub open spec fn in_any_project(issue_key: Seq<char>, projects: Seq<Seq<char>>) -> bool {
    exists|i: int| 0 <= i < projects.len() && in_project(issue_key, #[trigger] projects[i])
}

/// Whether `needle` occurs in `haystack` as a contiguous run of characters.
pub open spec fn occurs_in(haystack: Seq<char>, needle: Seq<char>) -> bool {
    exists|i: int|
        0 <= i && i + needle.len() <= haystack.len() && #[trigger] haystack.subrange(
            i,
            i + needle.len(),
        ) == needle
}

/// Relies on `str::contains` with a string pattern: true exactly when the
/// pattern occurs in the text.
#[verifier::external_body]
pub(crate) fn contains_text(haystack: &str, needle: &str) -> (r: bool)
    ensures
        r == occurs_in(haystack@, needle@),
{
    haystack.contains(needle)
}

pub fn is_white_char(c: char) -> (r: bool)
    ensures
        r == is_white(c),
{
    let u = c as u32;
    (0x9 <= u && u <= 0xd) || u == 0x20 || u == 0x85 || u == 0xa0 || u == 0x1680 || (0x2000 <= u
        && u <= 0x200a) || u == 0x2028 || u == 0x2029 || u == 0x202f || u == 0x205f || u == 0x3000
}

proof fn lemma_trimmed_bounds(s: Seq<char>, a: int, b: int)
    requires
        0 <= a <= b <= s.len(),
        forall|i: int| 0 <= i < a ==> is_white(#[trigger] s[i]),
        forall|i: int| b <= i < s.len() ==> is_white(#[trigger] s[i]),
        a < b ==> !is_white(s[a]) && !is_white(s[b - 1]),
    ensures
        trimmed(s) == s.subrange(a, b),
    decreases s.len(),
{
    if s.len() == 0 {
        assert(s.subrange(a, b) =~= s);
    } else if is_white(s[0]) {
        let t = s.skip(1);
        if a == 0 {
            assert(b == 0);
            lemma_trimmed_bounds(t, 0, 0);
            assert(s.subrange(a, b) =~= t.subrange(0, 0));
        } else {
            lemma_trimmed_bounds(t, a - 1, b - 1);
            assert(s.subrange(a, b) =~= t.subrange(a - 1, b - 1));
        }
    } else if is_white(s.last()) {
        let t = s.drop_last();
        assert(b < s.len());
        lemma_trimmed_bounds(t, a, b);
        assert(s.subrange(a, b) =~= t.subrange(a, b));
    } else {
        assert(b == s.len());
        assert(s.subrange(a, b) =~= s);
    }
}

/// The text without leading and trailing white space.
pub fn trim_text(s: &str) -> (r: &str)
    ensures
        r@ == trimmed(s@),
{
    let n = s.unicode_len();
    let mut a: usize = 0;
    while a < n && is_white_char(s.get_char(a))
        invariant
            n == s@.len(),
            a <= n,
            forall|i: int| 0 <= i < a ==> is_white(#[trigger] s@[i]),
        decreases n - a,
    {
        a = a + 1;
    }
    let mut b: usize = n;
    while b > a && is_white_char(s.get_char(b - 1))
        invariant
            n == s@.len(),
            a <= b <= n,
            forall|i: int| b <= i < n ==> is_white(#[trigger] s@[i]),
        decreases b - a,
    {
        b = b - 1;
    }
    proof {
        lemma_trimmed_bounds(s@, a as int, b as int);
    }
    s.substring_char(a, b)
}

proof fn lemma_field_end_bounds(s: Seq<char>, i: int)
    requires
        0 <= i <= s.len(),
    ensures
        i <= field_end(s, i) <= s.len(),
        forall|j: int| i <= j < field_end(s, i) ==> s[j] != ',',
        field_end(s, i) < s.len() ==> s[field_end(s, i)] == ',',
    decreases s.len() - i,
{
    if i < s.len() && s[i] != ',' {
        lemma_field_end_bounds(s, i + 1);
    }
}

/// Splits a comma-separated list of project keys, trims each field and leaves
/// out the empty ones.
pub fn split_project_keys(s: &str) -> (r: Vec<String>)
    ensures
        r.deep_view() == project_keys_of(s@),
{
    let n = s.unicode_len();
    let mut keys: Vec<String> = Vec::new();
    let mut start: usize = 0;
    loop
        invariant
            n == s@.len(),
            start <= n,
            keys.deep_view() + keys_from(s@, start as int) == project_keys_of(s@),
        decreases n - start,
    {
        let mut e: usize = start;
        while e < n && s.get_char(e) != ','
            invariant
                n == s@.len(),
                start <= e <= n,
                forall|j: int| start <= j < e ==> s@[j] != ',',
            decreases n - e,
        {
            e = e + 1;
        }
        proof {
            lemma_field_end_bounds(s@, start as int);
            assert(field_end(s@, start as int) == e);
        }
        let key = trim_text(s.substring_char(start, e));
        let ghost before = keys.deep_view();
        if key.unicode_len() > 0 {
            keys.push(key.to_string());
            assert(keys.deep_view() =~= before + seq![key@]);
        }
        if e == n {
            assert(keys.deep_view() =~= before + keys_from(s@, start as int));
            return keys;
        }
        proof {
            let here = if key@.len() > 0 { seq![key@] } else { Seq::empty() };
            assert(keys.deep_view() =~= before + here);
            assert(keys_from(s@, start as int) == here + keys_from(s@, e + 1));
            assert(before + (here + keys_from(s@, e + 1)) =~= (before + here) + keys_from(
                s@,
                e + 1,
            ));
        }
        start = e + 1;
    }
}

/// Whether the issue key starts with the project key followed by `-`.
pub fn is_in_project(issue_key: &str, project: &str) -> (r: bool)
    ensures
        r == in_project(issue_key@, project@),
{
    let n = issue_key.unicode_len();
    let m = project.unicode_len();
    if n <= m {
        return false;
    }
    let mut i: usize = 0;
    while i < m
        invariant
            n == issue_key@.len(),
            m == project@.len(),
            m < n,
            i <= m,
            forall|j: int| 0 <= j < i ==> issue_key@[j] == project@[j],
        decreases m - i,
    {
        if issue_key.get_char(i) != project.get_char(i) {
            assert(issue_key@.subrange(0, m as int)[i as int] != project@[i as int]);
            return false;
        }
        i = i + 1;
    }
    assert(issue_key@.subrange(0, m as int) =~= project@);
    issue_key.get_char(m) == '-'
}

/// Whether the issue key belongs to one of the projects.
pub fn is_in_any_project(issue_key: &str, projects: &Vec<String>) -> (r: bool)
    ensures
        r == in_any_project(issue_key@, projects.deep_view()),
{
    let mut i: usize = 0;
    while i < projects.len()
        invariant
            i <= projects.len(),
            forall|j: int| 0 <= j < i ==> !in_project(issue_key@, #[trigger] projects.deep_view()[j]),
        decreases projects.len() - i,
    {
        if is_in_project(issue_key, projects[i].as_str()) {
            assert(in_project(issue_key@, projects.deep_view()[i as int]));
            return true;
        }
        i = i + 1;
    }
    false
}

} // verus!
