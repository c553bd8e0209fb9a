//! Paths as texts with `/` between names: joining a name to a directory, and
//! the extension that a path ends in.

use crate::text::{chars_of, push_str, string_of};
use vstd::prelude::*;

verus! {

/// The path of a name inside a directory: the two with one `/` between
/// them; the name alone inside the empty directory, and no second `/` behind
/// a directory that ends in one.
pub open spec fn joined_path(dir: Seq<char>, name: Seq<char>) -> Seq<char> {
    if dir.len() == 0 || dir.last() == '/' {
        dir + name
    } else {
        dir + seq!['/'] + name
    }
}

/// The index of the last `c` in `s`, or -1 where there is none.
pub open spec fn last_index_of(s: Seq<char>, c: char) -> int
    decreases s.len(),
{
    if s.len() == 0 {
        -1
    } else if s.last() == c {
        s.len() - 1
    } else {
        last_index_of(s.drop_last(), c)
    }
}

/// A path without what does not count at its end: slashes, and names that
/// are a single dot.
pub open spec fn trimmed_path(path: Seq<char>) -> Seq<char>
    decreases path.len(),
{
    if path.len() == 0 {
        path
    } else if path.last() == '/' {
        trimmed_path(path.drop_last())
    } else if path.last() == '.' && (path.len() == 1 || path[path.len() - 2] == '/') {
        trimmed_path(path.drop_last())
    } else {
        path
    }
}

/// The last name of a path: what follows the last `/` of the trimmed path.
pub open spec fn last_name(path: Seq<char>) -> Seq<char> {
    let p = trimmed_path(path);
    p.subrange(last_index_of(p, '/') + 1, p.len() as int)
}

/// The extension of a name: what follows its last dot. A name without a
/// dot, one whose only dot is its first character, and the name `..` have
/// none.
pub open spec fn name_suffix(name: Seq<char>) -> Option<Seq<char>> {
    let dot = last_index_of(name, '.');
    if dot <= 0 || name == seq!['.', '.'] {
        None
    } else {
        Some(name.subrange(dot + 1, name.len() as int))
    }
}

/// The extension that a path ends in: that of its last name.
pub open spec fn path_suffix(path: Seq<char>) -> Option<Seq<char>> {
    name_suffix(last_name(path))
}

/// `last_index_of` is -1 or the index of a `c` behind which no `c` follows.
pub proof fn lemma_last_index_of(s: Seq<char>, c: char)
    ensures
        -1 <= last_index_of(s, c) < s.len(),
        last_index_of(s, c) >= 0 ==> s[last_index_of(s, c)] == c,
        forall|k: int| last_index_of(s, c) < k < s.len() ==> s[k] != c,
    decreases s.len(),
{
    if s.len() > 0 && s.last() != c {
        let head = s.drop_last();
        lemma_last_index_of(head, c);
        assert forall|k: int| last_index_of(s, c) < k < s.len() implies s[k] != c by {
            if k < head.len() {
                assert(head[k] != c);
            }
        }
    }
}

/// Different names have different paths inside one directory.
pub proof fn lemma_joined_path_injective(dir: Seq<char>, a: Seq<char>, b: Seq<char>)
    requires
        joined_path(dir, a) == joined_path(dir, b),
    ensures
        a == b,
{
    let prefix = if dir.len() == 0 || dir.last() == '/' {
        dir
    } else {
        dir + seq!['/']
    };
    let e = Seq::<char>::empty();
    assert(joined_path(dir, a) =~= prefix + a + e);
    assert(joined_path(dir, b) =~= prefix + b + e);
    crate::naming::lemma_middle(prefix, a, b, e);
}

/// The path of a name inside a directory.
pub fn join_path(dir: &str, name: &str) -> (r: String)
    ensures
        r@ == joined_path(dir@, name@),
{
    let mut out: Vec<char> = chars_of(dir);
    if out.len() > 0 && out[out.len() - 1] != '/' {
        out.push('/');
    }
    push_str(&mut out, name);
    assert(out@ =~= joined_path(dir@, name@));
    string_of(&out)
}

/// The index behind the last `c` among the first `end` characters of `s`;
/// 0 where there is none.
fn after_last(s: &Vec<char>, end: usize, c: char) -> (r: usize)
    requires
        end <= s.len(),
    ensures
        r == last_index_of(s@.take(end as int), c) + 1,
{
    let mut i: usize = end;
    while i > 0
        invariant
            i <= end <= s.len(),
            last_index_of(s@.take(end as int), c) == last_index_of(s@.take(i as int), c),
        decreases i,
    {
        if s[i - 1] == c {
            return i;
        }
        assert(s@.take(i as int).drop_last() =~= s@.take(i - 1));
        i -= 1;
    }
    0
}

/// The length of the trimmed path.
fn trimmed_len(path: &Vec<char>) -> (r: usize)
    ensures
        r <= path.len(),
        path@.take(r as int) == trimmed_path(path@),
{
    let mut end: usize = path.len();
    assert(path@.take(end as int) =~= path@);
    while end > 0
        invariant
            end <= path.len(),
            trimmed_path(path@) == trimmed_path(path@.take(end as int)),
        decreases end,
    {
        let last = path[end - 1];
        let dropped = last == '/' || (last == '.' && (end == 1 || path[end - 2] == '/'));
        if !dropped {
            return end;
        }
        assert(path@.take(end as int).drop_last() =~= path@.take(end - 1));
        end -= 1;
    }
    end
}

/// The extension that a path ends in, if it has one.
pub fn path_extension(path: &str) -> (r: Option<String>)
    ensures
        crate::text::opt_text(r) == path_suffix(path@),
{
    let chars = chars_of(path);
    let end = trimmed_len(&chars);
    let start = after_last(&chars, end, '/');
    proof {
        lemma_last_index_of(chars@.take(end as int), '/');
    }
    let ghost name = last_name(path@);
    assert(name == chars@.subrange(start as int, end as int));
    let mut name_chars: Vec<char> = Vec::new();
    let mut i: usize = start;
    while i < end
        invariant
            start <= i <= end <= chars.len(),
            name_chars@ == chars@.subrange(start as int, i as int),
        decreases end - i,
    {
        name_chars.push(chars[i]);
        i += 1;
    }
    assert(name_chars@ == name);
    assert(name_chars@.take(name_chars.len() as int) =~= name_chars@);
    let after_dot = after_last(&name_chars, name_chars.len(), '.');
    proof {
        lemma_last_index_of(name, '.');
    }
    let is_parent = name_chars.len() == 2 && name_chars[0] == '.' && name_chars[1] == '.';
    assert(is_parent == (name == seq!['.', '.'])) by {
        if is_parent {
            assert(name =~= seq!['.', '.']);
        }
    }
    if after_dot <= 1 || is_parent {
        return None;
    }
    let mut suffix: Vec<char> = Vec::new();
    let mut j: usize = after_dot;
    while j < name_chars.len()
        invariant
            after_dot <= j <= name_chars.len(),
            suffix@ == name_chars@.subrange(after_dot as int, j as int),
        decreases name_chars.len() - j,
    {
        suffix.push(name_chars[j]);
        j += 1;
    }
    Some(string_of(&suffix))
}

} // verus!
