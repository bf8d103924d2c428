//! Which paths the ignore patterns leave out. The patterns are compiled
//! once; a pattern that does not compile never matches and is no error.

use super::glob_match::{glob_compiles, glob_matches, pattern_source};
use super::paths::{
    collapse, collapse_parts, components, is_absolute, is_parent, render, render_parts,
    split_path, starts_at_root, steps_back,
};
use crate::text::{lemma_texts_push, same_text, texts};
use vstd::prelude::*;

verus! {

/// A path after normalising: whether it starts at the root of the file
/// system, and its components, none of them idle and every `..` resolved.
pub struct Location {
    pub absolute: bool,
    pub parts: Seq<Seq<char>>,
}

/// The path normalised, without looking at a disk.
pub open spec fn normal(path: Seq<char>) -> Location {
    Location {
        absolute: is_absolute(path),
        parts: collapse(components(path), is_absolute(path)),
    }
}

/// Whether `short` is the start of `long`.
pub open spec fn is_prefix(short: Seq<Seq<char>>, long: Seq<Seq<char>>) -> bool {
    short.len() <= long.len() && long.take(short.len() as int) == short
}

/// A location as seen from the search root: one that lies under the root
/// loses the root's components and becomes relative, any other stays.
pub open spec fn relative_to(root: Location, at: Location) -> Location {
    if at.absolute && root.absolute && is_prefix(root.parts, at.parts) {
        Location { absolute: false, parts: at.parts.skip(root.parts.len() as int) }
    } else {
        at
    }
}

/// The patterns that compile, in their order.
pub open spec fn compiling(sources: Seq<Seq<char>>) -> Seq<Seq<char>>
    decreases sources.len(),
{
    if sources.len() == 0 {
        Seq::empty()
    } else if glob_compiles(sources.last()) {
        compiling(sources.drop_last()).push(sources.last())
    } else {
        compiling(sources.drop_last())
    }
}

/// A bare pattern holds no separator of either slash style. Only a bare
/// pattern is tried on names alone.
pub open spec fn is_bare(pattern: Seq<char>) -> bool {
    forall|i: int| 0 <= i < pattern.len() ==> pattern[i] != '/' && pattern[i] != '\\'
}

/// The text of the location cut after its first `k` components: the
/// location itself for `k == parts.len()`, an ancestor directory below that.
pub open spec fn form(at: Location, k: int) -> Seq<char> {
    render(at.absolute, at.parts.take(k))
}

/// Whether the pattern matches a component as a name. The component `..`
/// is the name of nothing.
pub open spec fn names_component(pattern: Seq<char>, part: Seq<char>) -> bool {
    !is_parent(part) && glob_matches(pattern, part)
}

/// Whether the bare pattern matches a name on the way: the name of the
/// file, which is the last component, or the name of a directory above it,
/// which is any component before.
pub open spec fn name_hit(pattern: Seq<char>, at: Location) -> bool {
    &&& is_bare(pattern)
    &&& exists|k: int| 0 <= k < at.parts.len() && names_component(pattern, #[trigger] at.parts[k])
}

/// Whether one pattern leaves the location out: it matches the location
/// or one of its ancestor directories by the path, or, being bare, the
/// name of the file or of one of its ancestor directories.
pub open spec fn pattern_hits(pattern: Seq<char>, at: Location) -> bool {
    ||| exists|k: int| 1 <= k <= at.parts.len() && glob_matches(pattern, #[trigger] form(at, k))
    ||| name_hit(pattern, at)
}

/// Whether any of the patterns leaves the location out.
pub open spec fn ignored_by(patterns: Seq<Seq<char>>, at: Location) -> bool {
    exists|i: int| 0 <= i < patterns.len() && pattern_hits(#[trigger] patterns[i], at)
}

/// The sources of compiled patterns, in the same order.
pub open spec fn sources_of(patterns: Seq<glob::Pattern>) -> Seq<Seq<char>> {
    Seq::new(patterns.len(), |i: int| pattern_source(patterns[i]))
}

/// The compiled ignore patterns of one run, and the root that paths are
/// seen from.
pub struct IgnoreMatcher {
    root_absolute: bool,
    root: Vec<String>,
    patterns: Vec<glob::Pattern>,
}

impl IgnoreMatcher {
    /// The texts of the patterns in use: those that compiled.
    pub closed spec fn patterns(&self) -> Seq<Seq<char>> {
        sources_of(self.patterns@)
    }

    /// The search root, normalised.
    pub closed spec fn root(&self) -> Location {
        Location { absolute: self.root_absolute, parts: texts(self.root@) }
    }

    /// Where the matcher sees a path: normalised, and relative to the
    /// search root if it lies under it.
    pub open spec fn locate(&self, path: Seq<char>) -> Location {
        relative_to(self.root(), normal(path))
    }

    /// Compiles the patterns, once. One that does not compile is left out
    /// without an error. Paths will be seen from `root`.
    pub fn new(patterns: &Vec<String>, root: &str) -> (matcher: Self)
        ensures
            matcher.patterns() == compiling(texts(patterns@)),
            matcher.root() == normal(root@),
    {
        let mut compiled: Vec<glob::Pattern> = Vec::new();
        let mut i: usize = 0;
        assert(texts(patterns@).take(0) =~= Seq::<Seq<char>>::empty());
        assert(sources_of(compiled@) =~= Seq::<Seq<char>>::empty());
        while i < patterns.len()
            invariant
                0 <= i <= patterns@.len(),
                sources_of(compiled@) == compiling(texts(patterns@).take(i as int)),
            decreases patterns@.len() - i,
        {
            let ghost all = texts(patterns@);
            proof {
                assert(all.take(i as int + 1).drop_last() =~= all.take(i as int));
                assert(all.take(i as int + 1).last() == patterns@[i as int]@);
            }
            match glob::Pattern::new(patterns[i].as_str()) {
                Ok(pattern) => {
                    assert(sources_of(compiled@.push(pattern)) =~= sources_of(compiled@).push(
                        pattern_source(pattern),
                    ));
                    compiled.push(pattern);
                },
                Err(_) => {},
            }
            i = i + 1;
        }
        assert(texts(patterns@).take(patterns@.len() as int) =~= texts(patterns@));
        let absolute = starts_at_root(root);
        let parts = collapse_parts(&split_path(root), absolute);
        IgnoreMatcher { root_absolute: absolute, root: parts, patterns: compiled }
    }

    /// Whether the path is left out: some pattern matches the path as seen
    /// from the root, or one of its ancestor directories, or, if the pattern
    /// holds no separator, the bare name of the file or of a directory
    /// above it.
    pub fn is_ignored(&self, path: &str) -> (ignored: bool)
        ensures
            ignored == ignored_by(self.patterns(), self.locate(path@)),
    {
        if self.patterns.len() == 0 {
            return false;
        }
        let absolute = starts_at_root(path);
        let whole = collapse_parts(&split_path(path), absolute);
        let under = absolute && self.root_absolute && starts_with(&whole, &self.root);
        let parts = if under {
            tail_from(&whole, self.root.len())
        } else {
            whole
        };
        let rooted = absolute && !under;
        let ghost at = self.locate(path@);
        assert(at.absolute == rooted);
        assert(at.parts == texts(parts@));
        let forms = forms_of(rooted, &parts);
        let mut i: usize = 0;
        while i < self.patterns.len()
            invariant
                0 <= i <= self.patterns@.len(),
                at == self.locate(path@),
                at.parts == texts(parts@),
                forms@.len() == parts@.len(),
                forall|k: int|
                    1 <= k <= parts@.len() ==> (#[trigger] forms@[k - 1])@ == form(at, k),
                forall|j: int| 0 <= j < i ==> !pattern_hits(#[trigger] self.patterns()[j], at),
            decreases self.patterns@.len() - i,
        {
            let pattern = &self.patterns[i];
            assert(self.patterns()[i as int] == pattern_source(*pattern));
            if matches_a_form(pattern, &forms, Ghost(at)) || matches_a_name(
                pattern,
                &parts,
                Ghost(at),
            ) {
                return true;
            }
            i = i + 1;
        }
        false
    }
}

/// Whether the pattern matches the location or one of its ancestor
/// directories by the path. `forms` holds the texts to try.
fn matches_a_form(pattern: &glob::Pattern, forms: &Vec<String>, Ghost(at): Ghost<Location>) -> (hit:
    bool)
    requires
        forms@.len() == at.parts.len(),
        forall|k: int| 1 <= k <= forms@.len() ==> (#[trigger] forms@[k - 1])@ == form(at, k),
    ensures
        hit == (exists|k: int|
            1 <= k <= at.parts.len() && glob_matches(
                pattern_source(*pattern),
                #[trigger] form(at, k),
            )),
{
    let ghost source = pattern_source(*pattern);
    let mut k: usize = 0;
    while k < forms.len()
        invariant
            0 <= k <= forms@.len(),
            forms@.len() == at.parts.len(),
            source == pattern_source(*pattern),
            forall|m: int| 1 <= m <= forms@.len() ==> (#[trigger] forms@[m - 1])@ == form(at, m),
            forall|m: int| 1 <= m <= k ==> !glob_matches(source, #[trigger] form(at, m)),
        decreases forms@.len() - k,
    {
        if pattern.matches(forms[k].as_str()) {
            assert(forms@[k as int + 1 - 1]@ == form(at, k as int + 1));
            assert(glob_matches(source, form(at, k as int + 1)));
            return true;
        }
        k = k + 1;
    }
    false
}

/// Whether the pattern is bare and matches the name of the file or of one
/// of the directories above it. `parts` holds the components.
fn matches_a_name(pattern: &glob::Pattern, parts: &Vec<String>, Ghost(at): Ghost<Location>) -> (hit:
    bool)
    requires
        at.parts == texts(parts@),
    ensures
        hit == name_hit(pattern_source(*pattern), at),
{
    if !is_bare_pattern(pattern.as_str()) {
        return false;
    }
    let ghost source = pattern_source(*pattern);
    let mut k: usize = 0;
    while k < parts.len()
        invariant
            0 <= k <= parts@.len(),
            at.parts == texts(parts@),
            source == pattern_source(*pattern),
            is_bare(source),
            forall|m: int| 0 <= m < k ==> !names_component(source, #[trigger] at.parts[m]),
        decreases parts@.len() - k,
    {
        let part = parts[k].as_str();
        assert(at.parts[k as int] == part@);
        if !steps_back(part) && pattern.matches(part) {
            assert(names_component(source, at.parts[k as int]));
            return true;
        }
        k = k + 1;
    }
    false
}

/// Whether the pattern holds no separator, of either slash style.
pub fn is_bare_pattern(pattern: &str) -> (bare: bool)
    ensures
        bare == is_bare(pattern@),
{
    let mut bare = true;
    for c in it: pattern.chars()
        invariant
            it.seq() == pattern@,
            bare == (forall|j: int|
                0 <= j < it.index() ==> pattern@[j] != '/' && pattern@[j] != '\\'),
    {
        if c == '/' || c == '\\' {
            bare = false;
        }
    }
    bare
}

/// Whether the components `long` begin with the components `short`.
pub fn starts_with(long: &Vec<String>, short: &Vec<String>) -> (yes: bool)
    ensures
        yes == is_prefix(texts(short@), texts(long@)),
{
    if short.len() > long.len() {
        return false;
    }
    let mut i: usize = 0;
    while i < short.len()
        invariant
            short@.len() <= long@.len(),
            0 <= i <= short@.len(),
            forall|j: int| 0 <= j < i ==> short@[j]@ == long@[j]@,
        decreases short@.len() - i,
    {
        if !same_text(short[i].as_str(), long[i].as_str()) {
            assert(texts(long@).take(short@.len() as int)[i as int] != texts(short@)[i as int]);
            return false;
        }
        i = i + 1;
    }
    assert(texts(long@).take(short@.len() as int) =~= texts(short@));
    true
}

/// The components from position `from` on.
pub fn tail_from(parts: &Vec<String>, from: usize) -> (rest: Vec<String>)
    requires
        from <= parts@.len(),
    ensures
        texts(rest@) == texts(parts@).skip(from as int),
{
    let mut rest: Vec<String> = Vec::new();
    let mut i: usize = from;
    while i < parts.len()
        invariant
            from <= i <= parts@.len(),
            texts(rest@) == texts(parts@).subrange(from as int, i as int),
        decreases parts@.len() - i,
    {
        let copy = parts[i].clone();
        proof {
            lemma_texts_push(rest@, copy);
            assert(texts(parts@).subrange(from as int, i as int + 1) =~= texts(parts@).subrange(
                from as int,
                i as int,
            ).push(parts@[i as int]@));
        }
        rest.push(copy);
        i = i + 1;
    }
    assert(texts(parts@).subrange(from as int, parts@.len() as int) =~= texts(parts@).skip(
        from as int,
    ));
    rest
}

/// The texts a pattern is tried on: for each `k` from 1 to the number of
/// components, the path cut after its first `k` components.
pub fn forms_of(absolute: bool, parts: &Vec<String>) -> (forms: Vec<String>)
    ensures
        forms@.len() == parts@.len(),
        forall|k: int|
            1 <= k <= parts@.len() ==> (#[trigger] forms@[k - 1])@ == render(
                absolute,
                texts(parts@).take(k),
            ),
{
    let mut forms: Vec<String> = Vec::new();
    let mut shown: Vec<String> = Vec::new();
    let mut i: usize = 0;
    assert(texts(shown@) =~= texts(parts@).take(0));
    while i < parts.len()
        invariant
            0 <= i <= parts@.len(),
            forms@.len() == i,
            texts(shown@) == texts(parts@).take(i as int),
            forall|k: int|
                1 <= k <= i ==> (#[trigger] forms@[k - 1])@ == render(
                    absolute,
                    texts(parts@).take(k),
                ),
        decreases parts@.len() - i,
    {
        let copy = parts[i].clone();
        proof {
            lemma_texts_push(shown@, copy);
            assert(texts(parts@).take(i as int + 1) =~= texts(parts@).take(i as int).push(
                parts@[i as int]@,
            ));
        }
        shown.push(copy);
        let text = render_parts(absolute, &shown);
        forms.push(text);
        i = i + 1;
    }
    forms
}

} // verus!
