//! String-level path reasoning: lowercasing, entry-name resolution (the
//! traversal check applied to every archive entry), component joining, and
//! file-name extension / stem splitting.
use vstd::prelude::*;

verus! {

/// Relies on String::push: appends exactly one character to the string.
#[verifier::external_body]
pub fn push_char(s: &mut String, c: char)
    ensures
        final(s)@ == old(s)@.push(c),
{
    s.push(c);
}

/// ASCII lowercase of a single character; other characters are unchanged.
pub open spec fn lower_char(c: char) -> char {
    if 'A' <= c && c <= 'Z' {
        (((c as u32) + 32) as u8) as char
    } else {
        c
    }
}

/// ASCII lowercase of a character sequence.
pub open spec fn lower_seq(s: Seq<char>) -> Seq<char> {
    s.map_values(|c: char| lower_char(c))
}

fn lower_char_exec(c: char) -> (r: char)
    ensures
        r == lower_char(c),
{
    let u = c as u32;
    if 65 <= u && u <= 90 {
        ((u + 32) as u8) as char
    } else {
        c
    }
}

/// ASCII-lowercases a string, leaving all other characters unchanged.
pub fn ascii_lower(s: &str) -> (r: String)
    ensures
        r@ == lower_seq(s@),
{
    let n = s.unicode_len();
    let mut out = String::new();
    let mut i: usize = 0;
    while i < n
        invariant
            n == s@.len(),
            i <= n,
            out@ == lower_seq(s@.take(i as int)),
        decreases n - i,
    {
        let c = s.get_char(i);
        push_char(&mut out, lower_char_exec(c));
        proof {
            assert(lower_seq(s@.take(i + 1)) =~= lower_seq(s@.take(i as int)).push(
                lower_char(s@[i as int]),
            ));
        }
        i += 1;
    }
    proof {
        assert(s@.take(n as int) =~= s@);
    }
    out
}


/// Both `/` and `\` separate components of an archive entry name.
pub open spec fn is_sep(c: char) -> bool {
    c == '/' || c == '\\'
}

/// Scanning state after reading a prefix of an entry name: the components
/// completed so far and the partial component being read.
pub open spec fn split_state(s: Seq<char>) -> (Seq<Seq<char>>, Seq<char>)
    decreases s.len(),
{
    if s.len() == 0 {
        (Seq::empty(), Seq::empty())
    } else {
        let prev = split_state(s.drop_last());
        if is_sep(s.last()) {
            (prev.0.push(prev.1), Seq::empty())
        } else {
            (prev.0, prev.1.push(s.last()))
        }
    }
}

/// The raw components of an entry name, split on either separator.
pub open spec fn split_parts(s: Seq<char>) -> Seq<Seq<char>> {
    split_state(s).0.push(split_state(s).1)
}

/// One step of path resolution: empty and `.` components are skipped, `..`
/// pops the last resolved component and fails on underflow (a path that
/// escapes its root), anything else is a normal component.
pub open spec fn resolve_step(acc: Option<Seq<Seq<char>>>, part: Seq<char>) -> Option<
    Seq<Seq<char>>,
> {
    match acc {
        None => None,
        Some(stack) => if part.len() == 0 || part == seq!['.'] {
            Some(stack)
        } else if part == seq!['.', '.'] {
            if stack.len() == 0 {
                None
            } else {
                Some(stack.drop_last())
            }
        } else {
            Some(stack.push(part))
        },
    }
}

/// Resolves a component list left to right, or fails on the first component
/// that would climb above the root.
pub open spec fn resolve_parts(parts: Seq<Seq<char>>) -> Option<Seq<Seq<char>>>
    decreases parts.len(),
{
    if parts.len() == 0 {
        Some(Seq::empty())
    } else {
        resolve_step(resolve_parts(parts.drop_last()), parts.last())
    }
}

/// Whether a character is an ASCII letter.
pub open spec fn is_ascii_letter(c: char) -> bool {
    ('A' <= c && c <= 'Z') || ('a' <= c && c <= 'z')
}

/// Whether the name begins with a Windows drive-style prefix such as a
/// letter followed by a colon. An extractor strips such a prefix rather than
/// treating it as a directory name, so names carrying one do not land where
/// their components say and are rejected outright.
pub open spec fn has_drive_prefix(s: Seq<char>) -> bool {
    s.len() >= 2 && is_ascii_letter(s[0]) && s[1] == ':'
}

/// The resolved relative path of an archive entry name, as its list of normal
/// components, or `None` for a name that cannot be safely resolved relative
/// to an extraction root: one holding a NUL byte, an absolute one (leading
/// separator), one opening with a drive-style prefix, or one whose `..`
/// components climb above the root.
pub open spec fn resolved_entry_path(s: Seq<char>) -> Option<Seq<Seq<char>>> {
    if s.contains('\0') || (s.len() > 0 && is_sep(s[0])) || has_drive_prefix(s) {
        None
    } else {
        resolve_parts(split_parts(s))
    }
}

/// The views of a vector of strings.
pub open spec fn views_of(v: Seq<String>) -> Seq<Seq<char>> {
    v.map_values(|s: String| s@)
}

fn is_dot(cur: &String) -> (r: bool)
    ensures
        r == (cur@ == seq!['.']),
{
    let r = cur.unicode_len() == 1 && cur.as_str().get_char(0) == '.';
    proof {
        if r {
            assert(cur@ =~= seq!['.']);
        }
        if cur@ == seq!['.'] {
            assert(cur@.len() == 1 && cur@[0] == '.');
        }
    }
    r
}

fn is_dot_dot(cur: &String) -> (r: bool)
    ensures
        r == (cur@ == seq!['.', '.']),
{
    let r = cur.unicode_len() == 2 && cur.as_str().get_char(0) == '.' && cur.as_str().get_char(1)
        == '.';
    proof {
        if r {
            assert(cur@ =~= seq!['.', '.']);
        }
        if cur@ == seq!['.', '.'] {
            assert(cur@.len() == 2 && cur@[0] == '.' && cur@[1] == '.');
        }
    }
    r
}

/// Applies one resolution step to the component stack; returns false exactly
/// when the step fails (a `..` with nothing left to pop).
fn resolve_push(stack: &mut Vec<String>, cur: String) -> (ok: bool)
    ensures
        ok ==> Some(views_of(final(stack)@)) == resolve_step(
            Some(views_of(old(stack)@)),
            cur@,
        ),
        !ok ==> resolve_step(Some(views_of(old(stack)@)), cur@) is None,
{
    let cur_len = cur.as_str().unicode_len();
    if cur_len == 0 || is_dot(&cur) {
        true
    } else if is_dot_dot(&cur) {
        if stack.len() == 0 {
            assert(views_of(stack@).len() == 0);
            false
        } else {
            stack.pop();
            proof {
                assert(views_of(final(stack)@) =~= views_of(old(stack)@).drop_last());
            }
            true
        }
    } else {
        stack.push(cur);
        proof {
            assert(views_of(final(stack)@) =~= views_of(old(stack)@).push(cur@));
        }
        true
    }
}

/// Resolves an archive entry name to the relative path components it would
/// occupy under an extraction root, rejecting names that cannot be safely
/// placed there.
pub fn resolve_entry_path(name: &str) -> (r: Option<Vec<String>>)
    ensures
        match r {
            Some(v) => resolved_entry_path(name@) == Some(views_of(v@)),
            None => resolved_entry_path(name@) is None,
        },
{
    let n = name.unicode_len();
    if n > 0 {
        let first = name.get_char(0);
        if first == '/' || first == '\\' {
            return None;
        }
        let letter = ('A' <= first && first <= 'Z') || ('a' <= first && first <= 'z');
        if n >= 2 && letter && name.get_char(1) == ':' {
            return None;
        }
    }
    let mut stack: Vec<String> = Vec::new();
    let mut cur = String::new();
    let mut i: usize = 0;
    while i < n
        invariant
            n == name@.len(),
            i <= n,
            !name@.take(i as int).contains('\0'),
            cur@ == split_state(name@.take(i as int)).1,
            Some(views_of(stack@)) == resolve_parts(split_state(name@.take(i as int)).0),
        decreases n - i,
    {
        let c = name.get_char(i);
        proof {
            assert(name@.take(i + 1).drop_last() =~= name@.take(i as int));
            assert(name@.take(i + 1).last() == name@[i as int]);
            if c != '\0' {
                assert forall|k: int| 0 <= k < i + 1 implies #[trigger] name@.take(i + 1)[k]
                    != '\0' by {
                    if k < i {
                        assert(name@.take(i as int)[k] != '\0');
                    }
                }
                assert(!name@.take(i + 1).contains('\0'));
            }
        }
        if c == '\0' {
            proof {
                assert(name@.contains('\0')) by {
                    assert(name@[i as int] == '\0');
                }
            }
            return None;
        }
        if c == '/' || c == '\\' {
            let finished = cur;
            cur = String::new();
            proof {
                let parts = split_state(name@.take(i as int)).0;
                assert(split_state(name@.take(i + 1)).0 =~= parts.push(finished@));
                assert(parts.push(finished@).drop_last() =~= parts);
            }
            if !resolve_push(&mut stack, finished) {
                proof {
                    lemma_split_state_prefix(name@, i + 1);
                    lemma_resolve_prefix_none(split_parts(name@), split_state(name@.take(i + 1)).0);
                }
                return None;
            }
        } else {
            push_char(&mut cur, c);
        }
        i += 1;
    }
    proof {
        assert(name@.take(n as int) =~= name@);
        let parts = split_state(name@).0;
        assert(split_parts(name@).drop_last() =~= parts);
    }
    if !resolve_push(&mut stack, cur) {
        return None;
    }
    Some(stack)
}

/// The components completed after scanning a prefix of a name are a prefix of
/// the components completed after scanning the whole name.
proof fn lemma_split_state_prefix(s: Seq<char>, i: int)
    requires
        0 <= i <= s.len(),
    ensures
        split_state(s.take(i)).0.len() <= split_state(s).0.len(),
        forall|k: int|
            0 <= k < split_state(s.take(i)).0.len() ==> split_state(s).0[k] == split_state(
                s.take(i),
            ).0[k],
    decreases s.len() - i,
{
    if i == s.len() {
        assert(s.take(i) =~= s);
    } else {
        assert(s.take(i + 1).drop_last() =~= s.take(i));
        lemma_split_state_prefix(s, i + 1);
    }
}

/// If resolution fails on a prefix of the completed components, it fails on
/// the whole list.
proof fn lemma_resolve_prefix_none(parts: Seq<Seq<char>>, pre: Seq<Seq<char>>)
    requires
        pre.len() <= parts.len(),
        forall|k: int| 0 <= k < pre.len() ==> parts[k] == pre[k],
        resolve_parts(pre) is None,
    ensures
        resolve_parts(parts) is None,
    decreases parts.len(),
{
    if parts.len() > pre.len() {
        lemma_resolve_prefix_none(parts.drop_last(), pre);
    } else {
        assert(parts =~= pre);
    }
}


/// The components of a relative path joined with `/`.
pub open spec fn spec_join(parts: Seq<Seq<char>>) -> Seq<char>
    decreases parts.len(),
{
    if parts.len() == 0 {
        Seq::empty()
    } else if parts.len() == 1 {
        parts[0]
    } else {
        spec_join(parts.drop_last()) + seq!['/'] + parts.last()
    }
}

/// Joins path components with `/`.
pub fn join_parts(parts: &Vec<String>) -> (r: String)
    ensures
        r@ == spec_join(views_of(parts@)),
{
    let mut out = String::new();
    let mut i: usize = 0;
    while i < parts.len()
        invariant
            i <= parts.len(),
            out@ == spec_join(views_of(parts@).take(i as int)),
        decreases parts.len() - i,
    {
        if i > 0 {
            push_char(&mut out, '/');
        }
        out.append(parts[i].as_str());
        proof {
            let vs = views_of(parts@);
            assert(vs.take(i + 1).drop_last() =~= vs.take(i as int));
            assert(vs.take(i + 1).last() == vs[i as int]);
            if i == 0 {
                assert(out@ =~= vs.take(1)[0]);
            }
        }
        i += 1;
    }
    proof {
        assert(views_of(parts@).take(parts@.len() as int) =~= views_of(parts@));
    }
    out
}

/// The position of the last `.` in a file name, if any.
pub open spec fn last_dot(name: Seq<char>) -> Option<int>
    decreases name.len(),
{
    if name.len() == 0 {
        None
    } else if name.last() == '.' {
        Some(name.len() - 1)
    } else {
        last_dot(name.drop_last())
    }
}

/// Finds the position of the last `.` in a name.
fn find_last_dot(name: &str) -> (r: Option<usize>)
    ensures
        match r {
            Some(j) => last_dot(name@) == Some(j as int) && j < name@.len(),
            None => last_dot(name@) is None,
        },
{
    let n = name.unicode_len();
    proof {
        assert(name@.take(n as int) =~= name@);
    }
    let mut j: usize = n;
    while j > 0
        invariant
            n == name@.len(),
            j <= n,
            last_dot(name@) == last_dot(name@.take(j as int)),
        decreases j,
    {
        proof {
            assert(name@.take(j as int).drop_last() =~= name@.take(j - 1));
            assert(name@.take(j as int).last() == name@[j - 1]);
        }
        if name.get_char(j - 1) == '.' {
            return Some(j - 1);
        }
        j -= 1;
    }
    proof {
        assert(name@.take(0).len() == 0);
    }
    None
}

/// The extension of a file name: the text after the last `.`, provided that
/// dot is not the leading character (so a bare dotfile has no extension).
pub open spec fn ext_of(name: Seq<char>) -> Option<Seq<char>> {
    match last_dot(name) {
        Some(i) => if i > 0 {
            Some(name.skip(i + 1))
        } else {
            None
        },
        None => None,
    }
}

/// The stem of a file name: the text before the last `.`, or the whole name
/// when it has no extension.
pub open spec fn stem_of(name: Seq<char>) -> Seq<char> {
    match last_dot(name) {
        Some(i) => if i > 0 {
            name.take(i)
        } else {
            name
        },
        None => name,
    }
}

/// Extracts the extension of a file name, if it has one.
pub fn extension_of(name: &str) -> (r: Option<String>)
    ensures
        match r {
            Some(e) => ext_of(name@) == Some(e@),
            None => ext_of(name@) is None,
        },
{
    match find_last_dot(name) {
        Some(j) => {
            if j > 0 {
                let n = name.unicode_len();
                let e = String::from_str(name.substring_char(j + 1, n));
                proof {
                    assert(name@.skip(j + 1) =~= name@.subrange(j + 1, name@.len() as int));
                }
                Some(e)
            } else {
                None
            }
        },
        None => None,
    }
}

/// The stem of a file name: the part before the last `.`, if that dot is not
/// leading; otherwise the whole name.
pub fn file_stem_of(name: &str) -> (r: String)
    ensures
        r@ == stem_of(name@),
{
    match find_last_dot(name) {
        Some(j) => {
            if j > 0 {
                let s = String::from_str(name.substring_char(0, j));
                proof {
                    assert(name@.take(j as int) =~= name@.subrange(0, j as int));
                }
                s
            } else {
                String::from_str(name)
            }
        },
        None => String::from_str(name),
    }
}

/// Whether an entry name denotes a directory: it ends with a separator.
pub open spec fn spec_is_dir_name(s: Seq<char>) -> bool {
    s.len() > 0 && is_sep(s.last())
}

/// Whether an archive entry name denotes a directory entry.
pub fn is_dir_name(name: &str) -> (r: bool)
    ensures
        r == spec_is_dir_name(name@),
{
    let n = name.unicode_len();
    if n == 0 {
        false
    } else {
        let c = name.get_char(n - 1);
        c == '/' || c == '\\'
    }
}

/// `base` with `name` appended below it, separated by `/`.
pub open spec fn spec_path_under(base: Seq<char>, name: Seq<char>) -> Seq<char> {
    base + seq!['/'] + name
}

/// Returns the path of `name` placed directly under the directory `base`.
pub fn path_under(base: &str, name: &str) -> (r: String)
    ensures
        r@ == spec_path_under(base@, name@),
{
    let mut out = String::from_str(base);
    push_char(&mut out, '/');
    out.append(name);
    out
}

/// `path` with the literal suffix appended, used to derive the staging
/// sibling of an installation root.
pub fn append_suffix(path: &str, suffix: &str) -> (r: String)
    ensures
        r@ == path@ + suffix@,
{
    let mut out = String::from_str(path);
    out.append(suffix);
    out
}

/// The last component of a path: the text after the final separator.
pub open spec fn last_component(s: Seq<char>) -> Seq<char> {
    split_state(s).1
}

/// Returns the last component of a path (the file name part).
pub fn last_component_of(path: &str) -> (r: String)
    ensures
        r@ == last_component(path@),
{
    let n = path.unicode_len();
    proof {
        assert(path@.take(n as int) =~= path@);
        assert(split_state(path@).1 + path@.subrange(n as int, n as int) =~= split_state(
            path@,
        ).1);
    }
    let mut j: usize = n;
    while j > 0
        invariant
            n == path@.len(),
            j <= n,
            last_component(path@) == split_state(path@.take(j as int)).1 + path@.subrange(
                j as int,
                n as int,
            ),
        decreases j,
    {
        proof {
            assert(path@.take(j as int).drop_last() =~= path@.take(j - 1));
            assert(path@.take(j as int).last() == path@[j - 1]);
        }
        let c = path.get_char(j - 1);
        if c == '/' || c == '\\' {
            let r = String::from_str(path.substring_char(j, n));
            proof {
                assert(split_state(path@.take(j as int)).1 =~= Seq::<char>::empty());
                assert(last_component(path@) =~= path@.subrange(j as int, n as int));
            }
            return r;
        }
        proof {
            let pre = path@.take(j - 1);
            assert(split_state(pre).1.push(path@[j - 1]) + path@.subrange(j as int, n as int)
                =~= split_state(pre).1 + path@.subrange(j - 1, n as int));
        }
        j -= 1;
    }
    let r = String::from_str(path);
    proof {
        assert(split_state(path@.take(0)).1.len() == 0);
        assert(last_component(path@) =~= path@.subrange(0, n as int));
        assert(path@.subrange(0, n as int) =~= path@);
    }
    r
}

} // verus!
