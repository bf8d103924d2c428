//! What holds of discovery for every input: stated over the functions that
//! the contracts of discovery use, and proved.

use super::ignore::{
    form, ignored_by, is_bare, name_hit, names_component, pattern_hits, Location,
};
use super::glob_match::glob_matches;
use super::paths::{extension_of, file_name_of, is_parent};
use super::{
    admits, distinct, identity, is_binary, known, offered, passes_extension_policy, Origin,
    Policy,
};
use crate::text::lowercase_of;
use vstd::prelude::*;

verus! {

/// A bare pattern, one without a separator, that matches the name of a
/// file leaves the file out at any depth: whatever directories the name
/// stands under.
pub proof fn law_bare_pattern_reaches_any_depth(
    patterns: Seq<Seq<char>>,
    i: int,
    absolute: bool,
    directories: Seq<Seq<char>>,
    name: Seq<char>,
)
    requires
        0 <= i < patterns.len(),
        is_bare(patterns[i]),
        !is_parent(name),
        glob_matches(patterns[i], name),
    ensures
        ignored_by(patterns, Location { absolute, parts: directories.push(name) }),
{
    law_bare_pattern_covers_descendants(patterns, i, absolute, directories, name, Seq::empty());
    assert(directories.push(name) + Seq::<Seq<char>>::empty() =~= directories.push(name));
}

/// A bare pattern that matches the name of a directory leaves out
/// everything below that directory, wherever the directory stands.
pub proof fn law_bare_pattern_covers_descendants(
    patterns: Seq<Seq<char>>,
    i: int,
    absolute: bool,
    above: Seq<Seq<char>>,
    name: Seq<char>,
    below: Seq<Seq<char>>,
)
    requires
        0 <= i < patterns.len(),
        is_bare(patterns[i]),
        !is_parent(name),
        glob_matches(patterns[i], name),
    ensures
        ignored_by(patterns, Location { absolute, parts: above.push(name) + below }),
{
    let at = Location { absolute, parts: above.push(name) + below };
    assert(at.parts[above.len() as int] == name);
    assert(names_component(patterns[i], at.parts[above.len() as int]));
    assert(name_hit(patterns[i], at));
    assert(pattern_hits(patterns[i], at));
}

/// A pattern that matches a directory leaves out everything below it:
/// every path whose components begin with those of the directory.
pub proof fn law_ancestor_match_covers_descendants(
    patterns: Seq<Seq<char>>,
    i: int,
    absolute: bool,
    directory: Seq<Seq<char>>,
    below: Seq<Seq<char>>,
)
    requires
        0 <= i < patterns.len(),
        directory.len() > 0,
        glob_matches(
            patterns[i],
            form(Location { absolute, parts: directory }, directory.len() as int),
        ),
    ensures
        ignored_by(patterns, Location { absolute, parts: directory + below }),
{
    let dir = Location { absolute, parts: directory };
    let at = Location { absolute, parts: directory + below };
    let k = directory.len() as int;
    assert(at.parts.take(k) =~= dir.parts.take(k));
    assert(form(at, k) == form(dir, k));
    assert(glob_matches(patterns[i], form(at, k)));
    assert(pattern_hits(patterns[i], at));
}

/// A directory that the patterns leave out takes everything below it with
/// it, however it is left out: by its path, by the path of a directory
/// above it, or by a bare pattern that matches its name or the name of a
/// directory above it. One pattern so hides a whole subtree.
pub proof fn law_ignored_directory_hides_all_below(
    patterns: Seq<Seq<char>>,
    absolute: bool,
    directory: Seq<Seq<char>>,
    below: Seq<Seq<char>>,
)
    requires
        ignored_by(patterns, Location { absolute, parts: directory }),
    ensures
        ignored_by(patterns, Location { absolute, parts: directory + below }),
{
    let dir = Location { absolute, parts: directory };
    let at = Location { absolute, parts: directory + below };
    let i = choose|i: int| 0 <= i < patterns.len() && pattern_hits(#[trigger] patterns[i], dir);
    if exists|k: int|
        1 <= k <= dir.parts.len() && glob_matches(patterns[i], #[trigger] form(dir, k)) {
        let k = choose|k: int|
            1 <= k <= dir.parts.len() && glob_matches(patterns[i], #[trigger] form(dir, k));
        assert(at.parts.take(k) =~= dir.parts.take(k));
        assert(form(at, k) == form(dir, k));
        assert(glob_matches(patterns[i], form(at, k)));
    } else {
        assert(name_hit(patterns[i], dir));
        let k = choose|k: int|
            0 <= k < dir.parts.len() && names_component(patterns[i], #[trigger] dir.parts[k]);
        assert(at.parts[k] == dir.parts[k]);
        assert(names_component(patterns[i], at.parts[k]));
        assert(name_hit(patterns[i], at));
    }
    assert(pattern_hits(patterns[i], at));
}

/// The extensions of binary files are refused before the allow-list is
/// looked at: a file with such an extension is not checked, whatever the
/// allow-list holds, that extension included.
pub proof fn law_binary_extension_beats_allow_list(path: Seq<char>, allowed: Seq<Seq<char>>)
    requires
        file_name_of(path) is Some,
        extension_of(file_name_of(path)->0) is Some,
        is_binary(lowercase_of(extension_of(file_name_of(path)->0)->0)),
    ensures
        !passes_extension_policy(path, allowed),
{
}

/// A file without an extension passes the extension policy, whatever the
/// allow-list holds.
pub proof fn law_no_extension_passes(path: Seq<char>, allowed: Seq<Seq<char>>)
    requires
        file_name_of(path) is None || extension_of(file_name_of(path)->0) is None,
    ensures
        passes_extension_policy(path, allowed),
{
}

/// Offering a candidate never brings a file into the list twice: a list
/// without two files of the same identity stays one, and a candidate of an
/// identity that the list holds leaves it as it is.
pub proof fn law_offer_keeps_files_distinct(
    policy: Policy,
    files: Seq<Seq<char>>,
    path: Seq<char>,
    is_file: bool,
    origin: Origin,
)
    requires
        distinct(policy.root, files),
    ensures
        distinct(policy.root, offered(policy, files, path, is_file, origin)),
        known(policy.root, files, path) ==> offered(policy, files, path, is_file, origin) == files,
{
    let after = offered(policy, files, path, is_file, origin);
    if after != files {
        assert forall|a: int, b: int| 0 <= a < b < after.len() implies identity(
            policy.root,
            #[trigger] after[a],
        ) != identity(policy.root, #[trigger] after[b]) by {
            if b < files.len() {
                assert(after[a] == files[a] && after[b] == files[b]);
            } else {
                assert(after[a] == files[a]);
            }
        }
    }
}

/// The hidden-file test never refuses a path that was given literally: a
/// literal candidate is admitted exactly when it would be admitted with
/// hidden files allowed.
pub proof fn law_literal_ignores_hidden_flag(policy: Policy, path: Seq<char>, is_file: bool)
    ensures
        admits(policy, path, is_file, Origin::Literal) == admits(
            Policy { no_hidden: false, ..policy },
            path,
            is_file,
            Origin::Walked,
        ),
{
}

} // verus!
