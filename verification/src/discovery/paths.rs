//! Paths as text. A path is cut at `/` into components; `.` and empty
//! components say nothing, `..` steps back. Nothing here looks at a disk.

use crate::text::{chars_of, lemma_texts_push, string_of, texts};
use vstd::prelude::*;
use vstd::string::StringExecFns;

verus! {

/// The character that parts the components of a path.
pub const SEPARATOR: char = '/';

/// The index of the last separator in `s`, or -1 when there is none.
pub open spec fn last_separator(s: Seq<char>) -> int
    decreases s.len(),
{
    if s.len() == 0 {
        -1
    } else if s.last() == SEPARATOR {
        s.len() - 1
    } else {
        last_separator(s.drop_last())
    }
}

/// A component that says nothing about where a path leads: the empty one
/// (between two separators) and `.`.
pub open spec fn is_idle(component: Seq<char>) -> bool {
    component.len() == 0 || component == seq!['.']
}

/// The component that steps back to the parent directory.
pub open spec fn is_parent(component: Seq<char>) -> bool {
    component == seq!['.', '.']
}

/// The components of a path in order, without the idle ones.
pub open spec fn components(path: Seq<char>) -> Seq<Seq<char>>
    decreases path.len(),
{
    let k = last_separator(path);
    let last = path.skip(k + 1);
    let before = if 0 <= k < path.len() {
        components(path.take(k))
    } else {
        Seq::empty()
    };
    if is_idle(last) {
        before
    } else {
        before.push(last)
    }
}

/// A path is absolute when it starts with a separator.
pub open spec fn is_absolute(path: Seq<char>) -> bool {
    path.len() > 0 && path[0] == SEPARATOR
}

/// The components with every `..` resolved against the component before it.
/// At the root of an absolute path `..` leads nowhere and is dropped; at the
/// start of a relative path it is kept.
pub open spec fn collapse(parts: Seq<Seq<char>>, absolute: bool) -> Seq<Seq<char>>
    decreases parts.len(),
{
    if parts.len() == 0 {
        Seq::empty()
    } else {
        let before = collapse(parts.drop_last(), absolute);
        let last = parts.last();
        if !is_parent(last) {
            before.push(last)
        } else if before.len() > 0 && !is_parent(before.last()) {
            before.drop_last()
        } else if absolute {
            before
        } else {
            before.push(last)
        }
    }
}

/// The components joined by separators.
pub open spec fn join(parts: Seq<Seq<char>>) -> Seq<char>
    decreases parts.len(),
{
    if parts.len() == 0 {
        Seq::empty()
    } else if parts.len() == 1 {
        parts[0]
    } else {
        join(parts.drop_last()) + seq![SEPARATOR] + parts.last()
    }
}

/// The text of a path given by its components.
pub open spec fn render(absolute: bool, parts: Seq<Seq<char>>) -> Seq<char> {
    if absolute {
        seq![SEPARATOR] + join(parts)
    } else {
        join(parts)
    }
}

/// The name of the file a path leads to: its last component, unless the
/// path has none or ends in `..`.
pub open spec fn file_name_of(path: Seq<char>) -> Option<Seq<char>> {
    let parts = components(path);
    if parts.len() == 0 || is_parent(parts.last()) {
        None
    } else {
        Some(parts.last())
    }
}

/// The index of the last dot in `name`, or -1 when there is none.
pub open spec fn last_dot(name: Seq<char>) -> int
    decreases name.len(),
{
    if name.len() == 0 {
        -1
    } else if name.last() == '.' {
        name.len() - 1
    } else {
        last_dot(name.drop_last())
    }
}

/// The extension of a file name: what follows its last dot. A name without
/// a dot has none, and neither has a name whose only dot is its first
/// character.
pub open spec fn extension_of(name: Seq<char>) -> Option<Seq<char>> {
    let d = last_dot(name);
    if d <= 0 {
        None
    } else {
        Some(name.skip(d + 1))
    }
}

/// A path is hidden when the name of its file begins with a dot.
pub open spec fn is_hidden(path: Seq<char>) -> bool {
    file_name_of(path) is Some && file_name_of(path)->0[0] == '.'
}

/// A path below a directory: the path itself if it is absolute, else the
/// directory, a separator unless the directory ends in one, and the path.
pub open spec fn joined(base: Seq<char>, path: Seq<char>) -> Seq<char> {
    if is_absolute(path) || base.len() == 0 {
        path
    } else if base.last() == SEPARATOR {
        base + path
    } else {
        base + seq![SEPARATOR] + path
    }
}

/// `last_separator` is -1 or the position of a separator, and no separator
/// stands behind it.
pub proof fn lemma_last_separator(s: Seq<char>)
    ensures
        -1 <= last_separator(s) < s.len(),
        last_separator(s) >= 0 ==> s[last_separator(s)] == SEPARATOR,
        forall|j: int| last_separator(s) < j < s.len() ==> s[j] != SEPARATOR,
    decreases s.len(),
{
    if s.len() > 0 && s.last() != SEPARATOR {
        let init = s.drop_last();
        lemma_last_separator(init);
        assert forall|j: int| last_separator(s) < j < s.len() implies s[j] != SEPARATOR by {
            if j < init.len() {
                assert(s[j] == init[j]);
            }
        }
        if last_separator(s) >= 0 {
            assert(s[last_separator(s)] == init[last_separator(init)]);
        }
    }
}

/// The position `k` behind which no separator stands, and which holds one
/// unless it is -1, is `last_separator(s)`.
pub proof fn lemma_last_separator_is(s: Seq<char>, k: int)
    requires
        -1 <= k < s.len(),
        k >= 0 ==> s[k] == SEPARATOR,
        forall|j: int| k < j < s.len() ==> s[j] != SEPARATOR,
    ensures
        last_separator(s) == k,
{
    lemma_last_separator(s);
}

/// `last_dot` is -1 or the position of a dot, and no dot stands behind it.
pub proof fn lemma_last_dot(s: Seq<char>)
    ensures
        -1 <= last_dot(s) < s.len(),
        last_dot(s) >= 0 ==> s[last_dot(s)] == '.',
        forall|j: int| last_dot(s) < j < s.len() ==> s[j] != '.',
    decreases s.len(),
{
    if s.len() > 0 && s.last() != '.' {
        let init = s.drop_last();
        lemma_last_dot(init);
        assert forall|j: int| last_dot(s) < j < s.len() implies s[j] != '.' by {
            if j < init.len() {
                assert(s[j] == init[j]);
            }
        }
        if last_dot(s) >= 0 {
            assert(s[last_dot(s)] == init[last_dot(init)]);
        }
    }
}

/// No component of a path is idle.
pub proof fn lemma_components_busy(path: Seq<char>)
    ensures
        forall|i: int| 0 <= i < components(path).len() ==> !is_idle(#[trigger] components(path)[i]),
    decreases path.len(),
{
    lemma_last_separator(path);
    let k = last_separator(path);
    let last = path.skip(k + 1);
    let before = if 0 <= k < path.len() {
        components(path.take(k))
    } else {
        Seq::empty()
    };
    if 0 <= k < path.len() {
        lemma_components_busy(path.take(k));
    }
    assert forall|i: int| 0 <= i < components(path).len() implies !is_idle(
        #[trigger] components(path)[i],
    ) by {
        if i < before.len() {
            assert(components(path)[i] == before[i]);
        } else {
            assert(components(path)[i] == last);
        }
    }
}

/// Whether the path starts with a separator.
pub fn starts_at_root(path: &str) -> (absolute: bool)
    ensures
        absolute == is_absolute(path@),
{
    let mut first: Option<char> = None;
    for c in it: path.chars()
        invariant
            it.seq() == path@,
            first == (if it.index() >= 1 {
                Some(path@[0])
            } else {
                None
            }),
    {
        if first.is_none() {
            first = Some(c);
        }
    }
    match first {
        Some(c) => c == SEPARATOR,
        None => false,
    }
}

/// Whether `chars[from..to]` is an idle component.
fn idle_range(chars: &Vec<char>, from: usize, to: usize) -> (idle: bool)
    requires
        from <= to <= chars@.len(),
    ensures
        idle == is_idle(chars@.subrange(from as int, to as int)),
{
    let ghost part = chars@.subrange(from as int, to as int);
    if to == from {
        true
    } else if to - from == 1 && chars[from] == '.' {
        assert(part =~= seq!['.']);
        true
    } else {
        proof {
            if part.len() == 1 {
                assert(part[0] == chars@[from as int]);
            }
        }
        false
    }
}

/// Cuts a path into its components, leaving out the idle ones.
pub fn split_path(path: &str) -> (parts: Vec<String>)
    ensures
        texts(parts@) == components(path@),
{
    let chars = chars_of(path);
    let n: usize = chars.len();
    let mut parts: Vec<String> = Vec::new();
    let mut start: usize = 0;
    let mut i: usize = 0;
    assert(texts(parts@) =~= Seq::<Seq<char>>::empty());
    while i < n
        invariant
            n == chars@.len(),
            chars@ == path@,
            0 <= start <= i <= n,
            start == 0 || chars@[start - 1] == SEPARATOR,
            forall|j: int| start <= j < i ==> chars@[j] != SEPARATOR,
            texts(parts@) == (if start == 0 {
                Seq::<Seq<char>>::empty()
            } else {
                components(chars@.take(start - 1))
            }),
        decreases n - i,
    {
        if chars[i] == SEPARATOR {
            let idle = idle_range(&chars, start, i);
            proof {
                let prefix = chars@.take(i as int);
                lemma_last_separator_is(prefix, start as int - 1);
                assert(prefix.skip(start as int) =~= chars@.subrange(start as int, i as int));
                if start > 0 {
                    assert(prefix.take(start as int - 1) =~= chars@.take(start as int - 1));
                }
            }
            if !idle {
                let part = string_of(&chars, start, i);
                proof {
                    lemma_texts_push(parts@, part);
                }
                parts.push(part);
            }
            start = i + 1;
        }
        i = i + 1;
    }
    let idle = idle_range(&chars, start, n);
    proof {
        lemma_last_separator_is(chars@, start as int - 1);
        assert(chars@.skip(start as int) =~= chars@.subrange(start as int, n as int));
    }
    if !idle {
        let part = string_of(&chars, start, n);
        proof {
            lemma_texts_push(parts@, part);
        }
        parts.push(part);
    }
    parts
}

/// Whether the component is `..`.
pub fn steps_back(component: &str) -> (parent: bool)
    ensures
        parent == is_parent(component@),
{
    let chars = chars_of(component);
    let parent = chars.len() == 2 && chars[0] == '.' && chars[1] == '.';
    proof {
        if parent {
            assert(chars@ =~= seq!['.', '.']);
        }
    }
    parent
}

/// Resolves every `..` among the components, without looking at a disk.
pub fn collapse_parts(parts: &Vec<String>, absolute: bool) -> (kept: Vec<String>)
    ensures
        texts(kept@) == collapse(texts(parts@), absolute),
{
    let mut kept: Vec<String> = Vec::new();
    let mut i: usize = 0;
    assert(texts(parts@).take(0) =~= Seq::<Seq<char>>::empty());
    assert(texts(kept@) =~= Seq::<Seq<char>>::empty());
    while i < parts.len()
        invariant
            0 <= i <= parts@.len(),
            texts(kept@) == collapse(texts(parts@).take(i as int), absolute),
        decreases parts@.len() - i,
    {
        let ghost all = texts(parts@);
        let ghost before = texts(kept@);
        proof {
            assert(all.take(i as int + 1).drop_last() =~= all.take(i as int));
            assert(all.take(i as int + 1).last() == parts@[i as int]@);
        }
        let part = &parts[i];
        if !steps_back(part.as_str()) {
            let copy = part.clone();
            proof {
                lemma_texts_push(kept@, copy);
            }
            kept.push(copy);
        } else {
            let n: usize = kept.len();
            let top_is_parent = n > 0 && steps_back(kept[n - 1].as_str());
            proof {
                if n > 0 {
                    assert(before.last() == kept@[n - 1]@);
                }
            }
            if n > 0 && !top_is_parent {
                kept.pop();
                assert(texts(kept@) =~= before.drop_last());
            } else if !absolute {
                let copy = part.clone();
                proof {
                    lemma_texts_push(kept@, copy);
                }
                kept.push(copy);
            }
        }
        i = i + 1;
    }
    assert(texts(parts@).take(parts@.len() as int) =~= texts(parts@));
    kept
}

/// The text of the path with the given components.
pub fn render_parts(absolute: bool, parts: &Vec<String>) -> (text: String)
    ensures
        text@ == render(absolute, texts(parts@)),
{
    let mut text = String::new();
    let mut i: usize = 0;
    assert(texts(parts@).take(0) =~= Seq::<Seq<char>>::empty());
    while i < parts.len()
        invariant
            0 <= i <= parts@.len(),
            text@ == join(texts(parts@).take(i as int)),
        decreases parts@.len() - i,
    {
        let ghost all = texts(parts@);
        proof {
            assert(all.take(i as int + 1).drop_last() =~= all.take(i as int));
            assert(all.take(i as int + 1).last() == parts@[i as int]@);
            if i == 0 {
                assert(all.take(1)[0] == parts@[0]@);
                assert(join(all.take(0)) + parts@[0]@ =~= parts@[0]@);
            }
        }
        if i > 0 {
            text.push(SEPARATOR);
        }
        text.append(parts[i].as_str());
        i = i + 1;
    }
    assert(texts(parts@).take(parts@.len() as int) =~= texts(parts@));
    if absolute {
        let mut rooted = String::new();
        rooted.push(SEPARATOR);
        rooted.append(text.as_str());
        assert(rooted@ =~= seq![SEPARATOR] + text@);
        rooted
    } else {
        text
    }
}

/// The path below a directory.
pub fn join_path(base: &str, path: &str) -> (full: String)
    ensures
        full@ == joined(base@, path@),
{
    let chars = chars_of(base);
    let n: usize = chars.len();
    if starts_at_root(path) || n == 0 {
        return path.to_owned();
    }
    let mut full = base.to_owned();
    if chars[n - 1] != SEPARATOR {
        full.push(SEPARATOR);
    }
    full.append(path);
    assert(full@ =~= joined(base@, path@));
    full
}

/// The name of the file that the path leads to, if it names one.
pub fn file_name(path: &str) -> (name: Option<String>)
    ensures
        name is Some <==> file_name_of(path@) is Some,
        name is Some ==> name->0@ == file_name_of(path@)->0,
{
    let mut parts = split_path(path);
    let ghost all = texts(parts@);
    match parts.pop() {
        None => None,
        Some(last) => {
            assert(all.last() == last@);
            if steps_back(last.as_str()) {
                None
            } else {
                Some(last)
            }
        },
    }
}

/// The extension of a file name, if it has one.
pub fn extension(name: &str) -> (ext: Option<String>)
    ensures
        ext is Some <==> extension_of(name@) is Some,
        ext is Some ==> ext->0@ == extension_of(name@)->0,
{
    let chars = chars_of(name);
    let n: usize = chars.len();
    let mut i: usize = n;
    while i > 0 && chars[i - 1] != '.'
        invariant
            n == chars@.len(),
            0 <= i <= n,
            forall|j: int| i <= j < n ==> chars@[j] != '.',
        decreases i,
    {
        i = i - 1;
    }
    proof {
        lemma_last_dot(chars@);
        if i > 0 {
            assert(chars@[i - 1] == '.');
            assert(last_dot(chars@) == i - 1);
        } else {
            assert(last_dot(chars@) == -1);
        }
    }
    if i <= 1 {
        None
    } else {
        let ext = string_of(&chars, i, n);
        assert(chars@.skip(i as int) =~= chars@.subrange(i as int, n as int));
        Some(ext)
    }
}

/// Whether the name of the file that the path leads to begins with a dot.
pub fn is_hidden_file(path: &str) -> (hidden: bool)
    ensures
        hidden == is_hidden(path@),
{
    match file_name(path) {
        None => false,
        Some(name) => {
            proof {
                lemma_components_busy(path@);
                assert(!is_idle(components(path@).last()));
            }
            let chars = chars_of(name.as_str());
            chars[0] == '.'
        },
    }
}

} // verus!
