//! Recognising markdown file paths by their extension.
//!
//! A path names a markdown file when the extension of its file name,
//! compared ASCII-case-insensitively, is "md" or "markdown".

use vstd::prelude::*;

verus! {

/// A path separator. Both styles are recognised, wherever the arguments came
/// from.
pub open spec fn is_separator(c: char) -> bool {
    c == '/' || c == '\\'
}

/// The extension of a path: the characters after the last '.' of its file
/// name (the part after the last separator), provided that '.' is neither the
/// file name's first character nor absent. So "notes.md" has extension "md",
/// while "archive", ".gitignore" and "dir.d/notes" have none.
pub open spec fn path_extension(s: Seq<char>) -> Option<Seq<char>>
    decreases s.len(),
{
    if s.len() == 0 {
        None
    } else if is_separator(s.last()) {
        None
    } else if s.last() == '.' {
        if s.len() >= 2 && !is_separator(s[s.len() - 2]) {
            Some(Seq::<char>::empty())
        } else {
            None
        }
    } else {
        match path_extension(s.drop_last()) {
            Some(e) => Some(e.push(s.last())),
            None => None,
        }
    }
}

/// `c` is an ASCII capital letter.
pub open spec fn is_ascii_uppercase(c: char) -> bool {
    65 <= c as u32 && c as u32 <= 90
}

/// `a` and `b` are the same character up to ASCII case: equal outright, or
/// the same letter with one of the two capitalised.
pub open spec fn chars_eq_ignore_ascii_case(a: char, b: char) -> bool {
    ||| a == b
    ||| (is_ascii_uppercase(a) && b as u32 == a as u32 + 32)
    ||| (is_ascii_uppercase(b) && a as u32 == b as u32 + 32)
}

/// `s` and `t` agree character by character up to ASCII case.
pub open spec fn seq_eq_ignore_ascii_case(s: Seq<char>, t: Seq<char>) -> bool {
    &&& s.len() == t.len()
    &&& forall|i: int| 0 <= i < s.len() ==> chars_eq_ignore_ascii_case(s[i], t[i])
}

/// The short markdown extension.
pub open spec fn md_seq() -> Seq<char> {
    seq!['m', 'd']
}

/// The long markdown extension.
pub open spec fn markdown_seq() -> Seq<char> {
    seq!['m', 'a', 'r', 'k', 'd', 'o', 'w', 'n']
}

/// The path names a markdown file: it has an extension, and that extension is
/// "md" or "markdown" up to ASCII case.
pub open spec fn is_markdown_path(s: Seq<char>) -> bool {
    match path_extension(s) {
        Some(e) => seq_eq_ignore_ascii_case(e, md_seq()) || seq_eq_ignore_ascii_case(
            e,
            markdown_seq(),
        ),
        None => false,
    }
}

fn char_eq_ignore_ascii_case(a: char, b: char) -> (r: bool)
    ensures
        r == chars_eq_ignore_ascii_case(a, b),
{
    let au = a as u32;
    let bu = b as u32;
    a == b || (65 <= au && au <= 90 && bu == au + 32) || (65 <= bu && bu <= 90 && au == bu + 32)
}

/// Compare two strings character by character, ignoring ASCII case.
pub fn eq_ignore_ascii_case(s: &str, t: &str) -> (r: bool)
    ensures
        r == seq_eq_ignore_ascii_case(s@, t@),
{
    let n = s.unicode_len();
    let m = t.unicode_len();
    if n != m {
        return false;
    }
    let mut i: usize = 0;
    while i < n
        invariant
            i <= n,
            n == s@.len(),
            n == t@.len(),
            forall|j: int| 0 <= j < i ==> chars_eq_ignore_ascii_case(s@[j], t@[j]),
        decreases n - i,
    {
        if !char_eq_ignore_ascii_case(s.get_char(i), t.get_char(i)) {
            assert(!chars_eq_ignore_ascii_case(s@[i as int], t@[i as int]));
            return false;
        }
        i += 1;
    }
    true
}

proof fn lemma_chars_eq_sym(a: char, b: char)
    requires
        chars_eq_ignore_ascii_case(a, b),
    ensures
        chars_eq_ignore_ascii_case(b, a),
{
}

proof fn lemma_chars_eq_trans(a: char, b: char, c: char)
    requires
        chars_eq_ignore_ascii_case(a, b),
        chars_eq_ignore_ascii_case(b, c),
    ensures
        chars_eq_ignore_ascii_case(a, c),
{
    vstd::utf8::char_u32_cast(a, a as u32);
    vstd::utf8::char_u32_cast(b, b as u32);
    vstd::utf8::char_u32_cast(c, c as u32);
}

/// A character that is equal to `b` up to ASCII case and is not a letter —
/// a '.' or a separator — is equal to `b` outright.
proof fn lemma_special_chars_eq(a: char, b: char)
    requires
        chars_eq_ignore_ascii_case(a, b),
        a == '.' || a == '/' || a == '\\' || b == '.' || b == '/' || b == '\\',
    ensures
        a == b,
{
    vstd::utf8::char_u32_cast(a, a as u32);
    vstd::utf8::char_u32_cast(b, b as u32);
}

/// Characters that agree up to ASCII case are separators together or not at
/// all.
proof fn lemma_separator_eq(a: char, b: char)
    requires
        chars_eq_ignore_ascii_case(a, b),
    ensures
        is_separator(a) == is_separator(b),
{
    if is_separator(a) || is_separator(b) {
        lemma_special_chars_eq(a, b);
    }
}

/// Two paths that agree up to ASCII case either both lack an extension or
/// have extensions that agree up to ASCII case.
proof fn lemma_path_extension_respects_case(s: Seq<char>, t: Seq<char>)
    requires
        seq_eq_ignore_ascii_case(s, t),
    ensures
        match (path_extension(s), path_extension(t)) {
            (Some(e1), Some(e2)) => seq_eq_ignore_ascii_case(e1, e2),
            (None, None) => true,
            _ => false,
        },
    decreases s.len(),
{
    if s.len() == 0 {
    } else {
        let a = s.last();
        let b = t.last();
        assert(chars_eq_ignore_ascii_case(a, b));
        if is_separator(a) || is_separator(b) || a == '.' || b == '.' {
            lemma_special_chars_eq(a, b);
            if a == '.' && s.len() >= 2 {
                lemma_separator_eq(s[s.len() - 2], t[t.len() - 2]);
            }
        } else {
            assert(seq_eq_ignore_ascii_case(s.drop_last(), t.drop_last())) by {
                assert forall|i: int| 0 <= i < s.len() - 1 implies chars_eq_ignore_ascii_case(
                    s.drop_last()[i],
                    t.drop_last()[i],
                ) by {
                    assert(s.drop_last()[i] == s[i]);
                    assert(t.drop_last()[i] == t[i]);
                }
            }
            lemma_path_extension_respects_case(s.drop_last(), t.drop_last());
        }
    }
}

/// Whether two sequences agree with a third up to ASCII case is itself
/// insensitive to ASCII case.
proof fn lemma_seq_eq_same_target(e1: Seq<char>, e2: Seq<char>, m: Seq<char>)
    requires
        seq_eq_ignore_ascii_case(e1, e2),
    ensures
        seq_eq_ignore_ascii_case(e1, m) == seq_eq_ignore_ascii_case(e2, m),
{
    if seq_eq_ignore_ascii_case(e1, m) {
        assert forall|i: int| 0 <= i < e2.len() implies chars_eq_ignore_ascii_case(
            e2[i],
            m[i],
        ) by {
            lemma_chars_eq_sym(e1[i], e2[i]);
            lemma_chars_eq_trans(e2[i], e1[i], m[i]);
        }
    }
    if seq_eq_ignore_ascii_case(e2, m) {
        assert forall|i: int| 0 <= i < e1.len() implies chars_eq_ignore_ascii_case(
            e1[i],
            m[i],
        ) by {
            lemma_chars_eq_trans(e1[i], e2[i], m[i]);
        }
    }
}

/// Extension matching ignores ASCII case: two paths that agree character by
/// character up to ASCII case are either both markdown paths or both not.
pub proof fn lemma_markdown_case_insensitive(s: Seq<char>, t: Seq<char>)
    requires
        seq_eq_ignore_ascii_case(s, t),
    ensures
        is_markdown_path(s) == is_markdown_path(t),
{
    lemma_path_extension_respects_case(s, t);
    match (path_extension(s), path_extension(t)) {
        (Some(e1), Some(e2)) => {
            lemma_seq_eq_same_target(e1, e2, md_seq());
            lemma_seq_eq_same_target(e1, e2, markdown_seq());
        },
        _ => {},
    }
}

/// What `path_extension` yields once a scan from the end of `s` has passed
/// the characters of `[i, len)` without meeting a '.' or a separator: the
/// outcome is settled by the character at `i - 1` (or by reaching the start).
proof fn lemma_path_extension_scan(s: Seq<char>, i: int)
    requires
        0 <= i <= s.len(),
        forall|j: int| i <= j < s.len() ==> s[j] != '.' && !is_separator(s[j]),
        i == 0 || s[i - 1] == '.' || is_separator(s[i - 1]),
    ensures
        path_extension(s) == (if i == 0 {
            None::<Seq<char>>
        } else if is_separator(s[i - 1]) {
            None::<Seq<char>>
        } else if i >= 2 && !is_separator(s[i - 2]) {
            Some(s.subrange(i, s.len() as int))
        } else {
            None::<Seq<char>>
        }),
    decreases s.len() - i,
{
    if s.len() == i {
        if i == 0 {
        } else if is_separator(s[i - 1]) {
        } else {
            assert(s.subrange(i, s.len() as int) =~= Seq::<char>::empty());
        }
    } else {
        let t = s.drop_last();
        assert(s[s.len() - 1] != '.' && !is_separator(s[s.len() - 1]));
        lemma_path_extension_scan(t, i);
        if i >= 1 && s[i - 1] == '.' && i >= 2 && !is_separator(s[i - 2]) {
            assert(t.subrange(i, t.len() as int).push(s.last()) =~= s.subrange(
                i,
                s.len() as int,
            ));
        }
    }
}

/// The extension of `path`, as `path_extension` defines it: the part of the
/// file name after its last '.', if that dot is neither absent nor the file
/// name's first character.
pub fn extension_of(path: &str) -> (r: Option<&str>)
    ensures
        match r {
            Some(e) => path_extension(path@) == Some(e@),
            None => path_extension(path@) is None,
        },
{
    let n = path.unicode_len();
    let mut i: usize = n;
    while i > 0
        invariant
            i <= n,
            n == path@.len(),
            forall|j: int| i <= j < n ==> path@[j] != '.' && !is_separator(path@[j]),
        decreases i,
    {
        let c = path.get_char(i - 1);
        if c == '/' || c == '\\' {
            proof {
                lemma_path_extension_scan(path@, i as int);
            }
            return None;
        }
        if c == '.' {
            proof {
                lemma_path_extension_scan(path@, i as int);
            }
            if i >= 2 {
                let prev = path.get_char(i - 2);
                if !(prev == '/' || prev == '\\') {
                    return Some(path.substring_char(i, n));
                }
            }
            return None;
        }
        i = i - 1;
    }
    proof {
        lemma_path_extension_scan(path@, 0);
    }
    None
}

/// True when `path` names a markdown file: its extension is "md" or
/// "markdown", compared ASCII-case-insensitively.
pub fn has_markdown_extension(path: &str) -> (r: bool)
    ensures
        r == is_markdown_path(path@),
{
    match extension_of(path) {
        Some(e) => {
            proof {
                reveal_strlit("md");
                reveal_strlit("markdown");
                assert("md"@ =~= md_seq());
                assert("markdown"@ =~= markdown_seq());
            }
            let short = eq_ignore_ascii_case(e, "md");
            let long = eq_ignore_ascii_case(e, "markdown");
            short || long
        },
        None => false,
    }
}

} // verus!
