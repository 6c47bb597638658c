//! Tool names that the upstream does not intercept: every client name has a
//! safe alias, and names are matched back by a normalised key.

use crate::text;
use vstd::prelude::*;

verus! {

/// A character that an alias may hold.
pub open spec fn is_safe(c: char) -> bool {
    is_ascii_alphanumeric(c) || c == '_'
}

pub open spec fn is_ascii_alphanumeric(c: char) -> bool {
    'a' <= c <= 'z' || 'A' <= c <= 'Z' || '0' <= c <= '9'
}

fn check_ascii_alphanumeric(c: char) -> (r: bool)
    ensures
        r == is_ascii_alphanumeric(c),
{
    ('a' <= c && c <= 'z') || ('A' <= c && c <= 'Z') || ('0' <= c && c <= '9')
}

/// The lowercase form of an ASCII letter; any other character as it is.
pub open spec fn ascii_lower(c: char) -> char {
    if 'A' <= c <= 'Z' {
        (c as u32 + 32) as char
    } else {
        c
    }
}

/// The alias of a well-known tool.
pub open spec fn table_alias(name: Seq<char>) -> Option<Seq<char>> {
    if name == "Read"@ {
        Some("fs_open_file"@)
    } else if name == "Write"@ {
        Some("fs_put_file"@)
    } else if name == "Edit"@ {
        Some("fs_patch_file"@)
    } else if name == "MultiEdit"@ {
        Some("fs_multi_patch"@)
    } else if name == "Bash"@ {
        Some("shell_run"@)
    } else if name == "Grep"@ {
        Some("text_search"@)
    } else if name == "Glob"@ {
        Some("path_find"@)
    } else if name == "NotebookEdit"@ {
        Some("notebook_patch"@)
    } else if name == "WebFetch"@ {
        Some("http_get_url"@)
    } else if name == "WebSearch"@ {
        Some("web_query"@)
    } else if name == "LS"@ {
        Some("dir_list"@)
    } else if name == "TodoWrite"@ {
        Some("todo_put"@)
    } else if name == "Task"@ {
        Some("agent_task"@)
    } else {
        None
    }
}

/// A name with every unsafe character replaced by an underscore.
pub open spec fn cleaned(name: Seq<char>) -> Seq<char> {
    name.map_values(|c: char| if is_safe(c) { c } else { '_' })
}

/// The alias of any tool: from the table, or else the cleaned name behind
/// `u_`.
pub open spec fn alias(name: Seq<char>) -> Seq<char> {
    match table_alias(name) {
        Some(safe) => safe,
        None => "u_"@ + cleaned(name),
    }
}

fn known_alias(name: &str) -> (r: Option<&'static str>)
    ensures
        (match r {
            Some(safe) => table_alias(name@) == Some(safe@),
            None => table_alias(name@) is None,
        }),
{
    if text::same(name, "Read") {
        Some("fs_open_file")
    } else if text::same(name, "Write") {
        Some("fs_put_file")
    } else if text::same(name, "Edit") {
        Some("fs_patch_file")
    } else if text::same(name, "MultiEdit") {
        Some("fs_multi_patch")
    } else if text::same(name, "Bash") {
        Some("shell_run")
    } else if text::same(name, "Grep") {
        Some("text_search")
    } else if text::same(name, "Glob") {
        Some("path_find")
    } else if text::same(name, "NotebookEdit") {
        Some("notebook_patch")
    } else if text::same(name, "WebFetch") {
        Some("http_get_url")
    } else if text::same(name, "WebSearch") {
        Some("web_query")
    } else if text::same(name, "LS") {
        Some("dir_list")
    } else if text::same(name, "TodoWrite") {
        Some("todo_put")
    } else if text::same(name, "Task") {
        Some("agent_task")
    } else {
        None
    }
}

/// The name that a client's tool goes by upstream.
pub fn to_qwen_name(name: &str) -> (r: String)
    ensures
        r@ == alias(name@),
{
    if let Some(safe) = known_alias(name) {
        return safe.to_owned();
    }
    let mut out = "u_".to_owned();
    assert(out@ =~= "u_"@ + cleaned(name@.take(0)));
    for c in iter: name.chars()
        invariant
            iter.seq() == name@,
            out@ =~= "u_"@ + cleaned(name@.take(iter.index())),
    {
        let kept: char = if check_ascii_alphanumeric(c) || c == '_' {
            c
        } else {
            '_'
        };
        assert(name@.take(iter.index() + 1) =~= name@.take(iter.index()).push(c));
        out.push(kept);
    }
    assert(name@.take(name@.len() as int) =~= name@);
    out
}

/// The key that names are matched by: ASCII letters and digits only, in lower
/// case.
pub open spec fn key_of(s: Seq<char>) -> Seq<char> {
    s.filter(|c: char| is_ascii_alphanumeric(c)).map_values(|c: char| ascii_lower(c))
}

fn lower(c: char) -> (r: char)
    requires
        is_ascii_alphanumeric(c),
    ensures
        r == ascii_lower(c),
{
    if 'A' <= c && c <= 'Z' {
        (c as u8 + 32) as char
    } else {
        c
    }
}

/// The key that a name is matched by.
pub fn norm_key(s: &str) -> (r: String)
    ensures
        r@ == key_of(s@),
{
    let ghost keep = |c: char| is_ascii_alphanumeric(c);
    let mut out = String::new();
    assert(out@ =~= key_of(s@.take(0)));
    for c in iter: s.chars()
        invariant
            iter.seq() == s@,
            keep == (|c: char| is_ascii_alphanumeric(c)),
            out@ =~= key_of(s@.take(iter.index())),
    {
        proof {
            let ghost before = s@.take(iter.index());
            assert(s@.take(iter.index() + 1) =~= before.push(c));
            assert(before.push(c).drop_last() =~= before);
            reveal(Seq::filter);
        }
        if check_ascii_alphanumeric(c) {
            out.push(lower(c));
        }
    }
    assert(s@.take(s@.len() as int) =~= s@);
    out
}

/// Gives the prover the characters of the table's aliases.
proof fn lemma_reveal_aliases()
    ensures
        "fs_open_file"@ =~= seq!['f', 's', '_', 'o', 'p', 'e', 'n', '_', 'f', 'i', 'l', 'e'],
        "fs_put_file"@ =~= seq!['f', 's', '_', 'p', 'u', 't', '_', 'f', 'i', 'l', 'e'],
        "fs_patch_file"@ =~= seq!['f', 's', '_', 'p', 'a', 't', 'c', 'h', '_', 'f', 'i', 'l', 'e'],
        "fs_multi_patch"@ =~= seq!['f', 's', '_', 'm', 'u', 'l', 't', 'i', '_', 'p', 'a', 't', 'c', 'h'],
        "shell_run"@ =~= seq!['s', 'h', 'e', 'l', 'l', '_', 'r', 'u', 'n'],
        "text_search"@ =~= seq!['t', 'e', 'x', 't', '_', 's', 'e', 'a', 'r', 'c', 'h'],
        "path_find"@ =~= seq!['p', 'a', 't', 'h', '_', 'f', 'i', 'n', 'd'],
        "notebook_patch"@ =~= seq!['n', 'o', 't', 'e', 'b', 'o', 'o', 'k', '_', 'p', 'a', 't', 'c', 'h'],
        "http_get_url"@ =~= seq!['h', 't', 't', 'p', '_', 'g', 'e', 't', '_', 'u', 'r', 'l'],
        "web_query"@ =~= seq!['w', 'e', 'b', '_', 'q', 'u', 'e', 'r', 'y'],
        "dir_list"@ =~= seq!['d', 'i', 'r', '_', 'l', 'i', 's', 't'],
        "todo_put"@ =~= seq!['t', 'o', 'd', 'o', '_', 'p', 'u', 't'],
        "agent_task"@ =~= seq!['a', 'g', 'e', 'n', 't', '_', 't', 'a', 's', 'k'],
        "u_"@ =~= seq!['u', '_'],
{
    reveal_strlit("fs_open_file");
    reveal_strlit("fs_put_file");
    reveal_strlit("fs_patch_file");
    reveal_strlit("fs_multi_patch");
    reveal_strlit("shell_run");
    reveal_strlit("text_search");
    reveal_strlit("path_find");
    reveal_strlit("notebook_patch");
    reveal_strlit("http_get_url");
    reveal_strlit("web_query");
    reveal_strlit("dir_list");
    reveal_strlit("todo_put");
    reveal_strlit("agent_task");
    reveal_strlit("u_");
}

/// Every alias consists of ASCII letters, digits and underscores only.
pub proof fn law_alias_is_safe(name: Seq<char>)
    ensures
        forall|i: int| 0 <= i < alias(name).len() ==> is_safe(#[trigger] alias(name)[i]),
{
    lemma_reveal_aliases();
}

/// The table can be read backwards: no other name, in the table or not, has
/// the alias of a well-known tool.
pub proof fn law_table_alias_is_unique(known: Seq<char>, other: Seq<char>)
    requires
        table_alias(known) is Some,
        alias(known) == alias(other),
    ensures
        known == other,
{
    lemma_reveal_aliases();
    let a = alias(known);
    let b = alias(other);
    assert(a[0] == b[0]);
    assert(a.len() == b.len());
    if table_alias(other) is None {
        assert(b[0] == 'u' && b[1] == '_');
    }
}

/// Names that need no cleaning keep their identity: two of them share an alias
/// only where they are one name.
pub proof fn law_safe_names_have_distinct_aliases(a: Seq<char>, b: Seq<char>)
    requires
        forall|i: int| 0 <= i < a.len() ==> is_safe(#[trigger] a[i]),
        forall|i: int| 0 <= i < b.len() ==> is_safe(#[trigger] b[i]),
        alias(a) == alias(b),
    ensures
        a == b,
{
    if table_alias(a) is Some {
        law_table_alias_is_unique(a, b);
    } else if table_alias(b) is Some {
        law_table_alias_is_unique(b, a);
    } else {
        assert(cleaned(a) =~= a);
        assert(cleaned(b) =~= b);
        let prefix = "u_"@;
        assert((prefix + a).skip(prefix.len() as int) =~= a);
        assert((prefix + b).skip(prefix.len() as int) =~= b);
    }
}

/// A key holds ASCII lowercase letters and digits only.
pub proof fn law_key_is_normal(s: Seq<char>)
    ensures
        forall|i: int|
            0 <= i < key_of(s).len() ==> ('a' <= #[trigger] key_of(s)[i] <= 'z' || '0' <= key_of(s)[i]
                <= '9'),
{
    let keep = |c: char| is_ascii_alphanumeric(c);
    assert forall|i: int| 0 <= i < key_of(s).len() implies ('a' <= #[trigger] key_of(s)[i] <= 'z'
        || '0' <= key_of(s)[i] <= '9') by {
        s.lemma_filter_pred(keep, i);
        assert(keep(s.filter(keep)[i]));
    }
}

/// A text of normal characters is its own key.
proof fn lemma_normal_is_fixed(s: Seq<char>)
    requires
        forall|i: int| 0 <= i < s.len() ==> ('a' <= #[trigger] s[i] <= 'z' || '0' <= s[i] <= '9'),
    ensures
        key_of(s) == s,
    decreases s.len(),
{
    let keep = |c: char| is_ascii_alphanumeric(c);
    reveal(Seq::filter);
    if s.len() > 0 {
        let init = s.drop_last();
        assert forall|i: int| 0 <= i < init.len() implies ('a' <= #[trigger] init[i] <= 'z' || '0'
            <= init[i] <= '9') by {
            assert(init[i] == s[i]);
        }
        lemma_normal_is_fixed(init);
        assert(s[s.len() - 1] == s.last());
        assert(keep(s.last()));
        assert(s.filter(keep) == init.filter(keep).push(s.last()));
        assert(key_of(s) =~= key_of(init).push(s.last()));
        assert(s =~= init.push(s.last()));
    } else {
        assert(key_of(s) =~= s);
    }
}

/// Normalising twice is normalising once.
pub proof fn law_key_is_idempotent(s: Seq<char>)
    ensures
        key_of(key_of(s)) == key_of(s),
{
    law_key_is_normal(s);
    lemma_normal_is_fixed(key_of(s));
}

/// Whether a name is that of a well-known tool.
pub open spec fn is_well_known(name: Seq<char>) -> bool {
    ||| name == "Read"@
    ||| name == "Write"@
    ||| name == "Edit"@
    ||| name == "MultiEdit"@
    ||| name == "Bash"@
    ||| name == "Grep"@
    ||| name == "Glob"@
    ||| name == "NotebookEdit"@
    ||| name == "WebFetch"@
    ||| name == "WebSearch"@
    ||| name == "LS"@
    ||| name == "TodoWrite"@
    ||| name == "Task"@
}

/// The alias of any other tool is `u_` and its name, in which letters, digits
/// and underscores stay in their places, and an underscore stands for each other
/// character.
pub proof fn law_other_names_are_cleaned_character_by_character(name: Seq<char>)
    requires
        !is_well_known(name),
    ensures
        alias(name).len() == name.len() + 2,
        alias(name)[0] == 'u',
        alias(name)[1] == '_',
        forall|i: int|
            0 <= i < name.len() ==> #[trigger] alias(name)[i + 2] == if 'a' <= name[i] <= 'z'
                || 'A' <= name[i] <= 'Z' || '0' <= name[i] <= '9' {
                name[i]
            } else {
                '_'
            },
{
    reveal_strlit("u_");
    assert("u_"@.len() == 2 && "u_"@[0] == 'u' && "u_"@[1] == '_');
}

/// The alias of a well-known tool is the one of the table.
pub proof fn law_well_known_names_have_their_aliases(name: Seq<char>)
    requires
        is_well_known(name),
    ensures
        alias(name) == if name == "Read"@ {
            "fs_open_file"@
        } else if name == "Write"@ {
            "fs_put_file"@
        } else if name == "Edit"@ {
            "fs_patch_file"@
        } else if name == "MultiEdit"@ {
            "fs_multi_patch"@
        } else if name == "Bash"@ {
            "shell_run"@
        } else if name == "Grep"@ {
            "text_search"@
        } else if name == "Glob"@ {
            "path_find"@
        } else if name == "NotebookEdit"@ {
            "notebook_patch"@
        } else if name == "WebFetch"@ {
            "http_get_url"@
        } else if name == "WebSearch"@ {
            "web_query"@
        } else if name == "LS"@ {
            "dir_list"@
        } else if name == "TodoWrite"@ {
            "todo_put"@
        } else {
            "agent_task"@
        },
{
}

/// A key is made character by character: that of two texts in a row is that of
/// the first and then that of the second, and of one character it is its lower
/// case form, itself, or nothing.
pub proof fn law_key_is_made_character_by_character(a: Seq<char>, b: Seq<char>, c: char)
    ensures
        key_of(a + b) == key_of(a) + key_of(b),
        key_of(seq![c]) == if 'a' <= c <= 'z' || '0' <= c <= '9' {
            seq![c]
        } else if 'A' <= c <= 'Z' {
            seq![(c as u32 + 32) as char]
        } else {
            seq![]
        },
        key_of(seq![]) == Seq::<char>::empty(),
{
    let keep = |c: char| is_ascii_alphanumeric(c);
    Seq::filter_distributes_over_add(a, b, keep);
    assert(key_of(a + b) =~= key_of(a) + key_of(b));
    reveal(Seq::filter);
    assert(seq![c].drop_last() =~= seq![]);
    assert(seq![c].drop_last().filter(keep) =~= seq![]);
    assert(seq![c].last() == c);
    assert(key_of(seq![c]) =~= if 'a' <= c <= 'z' || '0' <= c <= '9' {
        seq![c]
    } else if 'A' <= c <= 'Z' {
        seq![(c as u32 + 32) as char]
    } else {
        seq![]
    });
    assert(key_of(seq![]) =~= Seq::<char>::empty());
}

} // verus!
