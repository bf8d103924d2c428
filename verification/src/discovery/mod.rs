//! Finding the files to check. The library decides; the caller looks at the
//! disk and reports what it saw.

pub mod glob_match;
pub mod ignore;
pub mod laws;
pub mod paths;

use self::ignore::{ignored_by, normal, relative_to, IgnoreMatcher};
use self::paths::{
    collapse, collapse_parts, components, extension, extension_of, file_name, file_name_of,
    is_absolute, is_hidden, render, render_parts, split_path, starts_at_root, SEPARATOR,
};
use crate::cli::CliArgs;
use crate::config::Config;
use crate::text::{
    copy_texts, holds_text, lemma_texts_push, lowercase_of, same_text, texts, trimmed,
};
use vstd::prelude::*;
use vstd::string::StringExecFns;

pub use self::paths::is_hidden_file;

verus! {

/// The extensions of files that are never text: images, audio and video,
/// archives, executables and libraries, binary data, office documents,
/// compiled artefacts and fonts.
pub open spec fn is_binary(ext: Seq<char>) -> bool {
    ||| ext == "jpg"@ || ext == "jpeg"@ || ext == "png"@ || ext == "gif"@ || ext == "bmp"@
    ||| ext == "ico"@ || ext == "svg"@ || ext == "webp"@
    ||| ext == "mp3"@ || ext == "mp4"@ || ext == "avi"@ || ext == "mov"@ || ext == "wmv"@
    ||| ext == "flv"@ || ext == "webm"@
    ||| ext == "zip"@ || ext == "tar"@ || ext == "gz"@ || ext == "bz2"@ || ext == "xz"@
    ||| ext == "7z"@ || ext == "rar"@
    ||| ext == "exe"@ || ext == "dll"@ || ext == "so"@ || ext == "dylib"@ || ext == "a"@
    ||| ext == "o"@
    ||| ext == "bin"@ || ext == "dat"@ || ext == "db"@ || ext == "sqlite"@
    ||| ext == "pdf"@ || ext == "doc"@ || ext == "docx"@ || ext == "xls"@ || ext == "xlsx"@
    ||| ext == "class"@ || ext == "jar"@ || ext == "war"@
    ||| ext == "pyc"@ || ext == "pyo"@
    ||| ext == "woff"@ || ext == "woff2"@ || ext == "ttf"@ || ext == "otf"@ || ext == "eot"@
}

/// Whether the extension, already in lower case, is one of a binary file.
pub fn is_binary_extension(ext: &str) -> (binary: bool)
    ensures
        binary == is_binary(ext@),
{
    same_text(ext, "jpg") || same_text(ext, "jpeg") || same_text(ext, "png") || same_text(
        ext,
        "gif",
    ) || same_text(ext, "bmp") || same_text(ext, "ico") || same_text(ext, "svg") || same_text(
        ext,
        "webp",
    ) || same_text(ext, "mp3") || same_text(ext, "mp4") || same_text(ext, "avi") || same_text(
        ext,
        "mov",
    ) || same_text(ext, "wmv") || same_text(ext, "flv") || same_text(ext, "webm") || same_text(
        ext,
        "zip",
    ) || same_text(ext, "tar") || same_text(ext, "gz") || same_text(ext, "bz2") || same_text(
        ext,
        "xz",
    ) || same_text(ext, "7z") || same_text(ext, "rar") || same_text(ext, "exe") || same_text(
        ext,
        "dll",
    ) || same_text(ext, "so") || same_text(ext, "dylib") || same_text(ext, "a") || same_text(
        ext,
        "o",
    ) || same_text(ext, "bin") || same_text(ext, "dat") || same_text(ext, "db") || same_text(
        ext,
        "sqlite",
    ) || same_text(ext, "pdf") || same_text(ext, "doc") || same_text(ext, "docx") || same_text(
        ext,
        "xls",
    ) || same_text(ext, "xlsx") || same_text(ext, "class") || same_text(ext, "jar") || same_text(
        ext,
        "war",
    ) || same_text(ext, "pyc") || same_text(ext, "pyo") || same_text(ext, "woff") || same_text(
        ext,
        "woff2",
    ) || same_text(ext, "ttf") || same_text(ext, "otf") || same_text(ext, "eot")
}

/// The extension policy on an extension in lower case: a binary extension
/// is refused whatever the allow-list says; any other passes if the
/// allow-list is empty or holds it.
pub open spec fn extension_passes(lower: Seq<char>, allowed: Seq<Seq<char>>) -> bool {
    !is_binary(lower) && (allowed.len() == 0 || allowed.contains(lower))
}

/// The extension policy on a path. A path without an extension passes.
pub open spec fn passes_extension_policy(path: Seq<char>, allowed: Seq<Seq<char>>) -> bool {
    match file_name_of(path) {
        None => true,
        Some(name) => match extension_of(name) {
            None => true,
            Some(ext) => extension_passes(lowercase_of(ext), allowed),
        },
    }
}

/// Whether a file is to be checked, by its extension: not if the extension,
/// in lower case, is that of a binary file; else only if the configured
/// extensions are empty or hold it. A file without an extension is checked.
pub fn should_check_file(path: &str, config: &Config) -> (checked: bool)
    ensures
        checked == passes_extension_policy(path@, texts(config.file_extensions@)),
{
    extension_allows(path, &config.file_extensions)
}

/// The extension policy with the allow-list given directly.
pub fn extension_allows(path: &str, allowed: &Vec<String>) -> (checked: bool)
    ensures
        checked == passes_extension_policy(path@, texts(allowed@)),
{
    let name = match file_name(path) {
        None => {
            return true;
        },
        Some(name) => name,
    };
    let ext = match extension(name.as_str()) {
        None => {
            return true;
        },
        Some(ext) => ext,
    };
    let lower = ext.as_str().to_lowercase();
    extension_permitted(lower.as_str(), allowed)
}

/// The extension policy on an extension that is already in lower case:
/// the extension of a binary file is refused before the allow-list is
/// looked at; any other passes if the allow-list is empty or holds it.
pub fn extension_permitted(lower: &str, allowed: &Vec<String>) -> (permitted: bool)
    ensures
        permitted == extension_passes(lower@, texts(allowed@)),
{
    if is_binary_extension(lower) {
        return false;
    }
    if allowed.len() == 0 {
        return true;
    }
    holds_text(allowed, lower)
}

/// What is known of a path on disk when it is offered.
#[derive(Debug, Clone)]
pub struct Entry {
    pub path: String,
    /// It is a regular file.
    pub is_file: bool,
    /// It is a directory.
    pub is_dir: bool,
}

/// How a candidate was found.
#[derive(Debug, Clone, Copy, PartialEq, Eq, Structural)]
pub enum Origin {
    /// It was named on the command line, or in the list of inputs, as it is.
    Literal,
    /// It was met while walking a directory.
    Walked,
    /// A glob pattern expanded to it.
    Expanded,
}

/// What to do with an input: list it as a directory, or expand it as a pattern.
#[derive(Debug, Clone, Copy, PartialEq, Eq, Structural)]
pub enum InputPlan {
    Walk,
    Expand,
}

/// What to do after an entry of a directory was visited.
#[derive(Debug, Clone, Copy, PartialEq, Eq, Structural)]
pub enum WalkAction {
    /// The entry is a directory to walk into.
    Descend,
    /// Go on with the next entry.
    Continue,
}

/// The revisions of a git range and the files that changed between them.
#[derive(Debug, Clone)]
pub struct GitRangeInfo {
    pub from: String,
    pub to: String,
    pub changed_files: Vec<String>,
}

/// The files to check, in the order they were found and each once.
#[derive(Debug, Clone)]
pub struct DiscoveryResult {
    pub files: Vec<String>,
    pub git_range: Option<GitRangeInfo>,
}

/// The settings that decide which candidates are taken.
pub struct Policy {
    /// The extensions to check; empty for all.
    pub allowed: Seq<Seq<char>>,
    /// The ignore patterns in use.
    pub patterns: Seq<Seq<char>>,
    /// The search root that paths are seen from.
    pub root: Seq<char>,
    pub recursive: bool,
    pub no_hidden: bool,
}

/// The ignore patterns in use: those of the command line if it gives any,
/// else those of the configuration. The two are never merged.
pub open spec fn effective_patterns(cli: Seq<Seq<char>>, config: Seq<Seq<char>>) -> Seq<
    Seq<char>,
> {
    if cli.len() > 0 {
        cli
    } else {
        config
    }
}

/// The extensions in use: those of the command line if it gives any.
pub open spec fn effective_extensions(cli: Option<Seq<Seq<char>>>, config: Seq<Seq<char>>) -> Seq<
    Seq<char>,
> {
    match cli {
        Some(given) => given,
        None => config,
    }
}

/// The path made absolute against the root, then normalised. Two paths
/// name the same file for discovery when they agree in this.
pub open spec fn identity(root: Seq<char>, path: Seq<char>) -> Seq<char> {
    let full = if is_absolute(path) {
        path
    } else {
        root + seq![SEPARATOR] + path
    };
    render(is_absolute(full), collapse(components(full), is_absolute(full)))
}

/// Whether the path is left out by the ignore patterns of the policy.
pub open spec fn is_ignored_under(policy: Policy, path: Seq<char>) -> bool {
    ignored_by(policy.patterns, relative_to(normal(policy.root), normal(path)))
}

/// The filter that every candidate goes through, in this order: it is a
/// regular file; its extension passes; no ignore pattern leaves it out; and,
/// where hidden files are skipped, its name does not begin with a dot. The
/// last test is never made on a path that was given literally.
pub open spec fn admits(policy: Policy, path: Seq<char>, is_file: bool, origin: Origin) -> bool {
    &&& is_file
    &&& passes_extension_policy(path, policy.allowed)
    &&& !is_ignored_under(policy, path)
    &&& !(policy.no_hidden && origin != Origin::Literal && is_hidden(path))
}

/// Whether a file of the same identity is already in the list.
pub open spec fn known(root: Seq<char>, files: Seq<Seq<char>>, path: Seq<char>) -> bool {
    exists|i: int|
        0 <= i < files.len() && identity(root, #[trigger] files[i]) == identity(root, path)
}

/// The list after a candidate was offered: it is added at the end if the
/// filter admits it and the list does not hold it yet.
pub open spec fn offered(
    policy: Policy,
    files: Seq<Seq<char>>,
    path: Seq<char>,
    is_file: bool,
    origin: Origin,
) -> Seq<Seq<char>> {
    if admits(policy, path, is_file, origin) && !known(policy.root, files, path) {
        files.push(path)
    } else {
        files
    }
}

/// How a match of an expansion counts. A match that is the input itself,
/// that is, has its identity, was named directly: it counts as a literal
/// path. Any other match was found by the pattern.
pub open spec fn origin_of_match(root: Seq<char>, input: Seq<char>, path: Seq<char>) -> Origin {
    if identity(root, path) == identity(root, input) {
        Origin::Literal
    } else {
        Origin::Expanded
    }
}

/// The list after every match of an expansion was offered, in order.
pub open spec fn matched_all(
    policy: Policy,
    files: Seq<Seq<char>>,
    input: Seq<char>,
    entries: Seq<Entry>,
) -> Seq<Seq<char>>
    decreases entries.len(),
{
    if entries.len() == 0 {
        files
    } else {
        offered(
            policy,
            matched_all(policy, files, input, entries.drop_last()),
            entries.last().path@,
            entries.last().is_file,
            origin_of_match(policy.root, input, entries.last().path@),
        )
    }
}

/// The list after a glob pattern was expanded. Each match is offered, as
/// a literal path if it is the input itself and as expanded if not. If the
/// pattern is not valid, or matches nothing, the input itself is offered
/// as a literal path.
pub open spec fn expanded(
    policy: Policy,
    files: Seq<Seq<char>>,
    input: Seq<char>,
    input_is_file: bool,
    matches: Option<Seq<Entry>>,
) -> Seq<Seq<char>> {
    if matches is Some && matches->0.len() > 0 {
        matched_all(policy, files, input, matches->0)
    } else {
        offered(policy, files, input, input_is_file, Origin::Literal)
    }
}

/// Whether a visited entry is skipped as hidden.
pub open spec fn skipped_as_hidden(policy: Policy, path: Seq<char>) -> bool {
    policy.no_hidden && is_hidden(path)
}

/// Whether the walk goes into a visited entry: it is a directory and no
/// file, it is not skipped as hidden, the walk is recursive, and no ignore
/// pattern leaves the directory out.
pub open spec fn descends(policy: Policy, path: Seq<char>, is_file: bool, is_dir: bool) -> bool {
    &&& !skipped_as_hidden(policy, path)
    &&& !is_file
    &&& is_dir
    &&& policy.recursive
    &&& !is_ignored_under(policy, path)
}

/// The list after an entry of a directory was visited.
pub open spec fn visited(
    policy: Policy,
    files: Seq<Seq<char>>,
    path: Seq<char>,
    is_file: bool,
) -> Seq<Seq<char>> {
    if skipped_as_hidden(policy, path) {
        files
    } else {
        offered(policy, files, path, is_file, Origin::Walked)
    }
}

/// Whether some path of `changed` has the identity of `path`.
pub open spec fn among(root: Seq<char>, changed: Seq<Seq<char>>, path: Seq<char>) -> bool {
    exists|i: int|
        0 <= i < changed.len() && identity(root, #[trigger] changed[i]) == identity(root, path)
}

/// The files that are among the changed ones, in their order.
pub open spec fn narrowed(root: Seq<char>, files: Seq<Seq<char>>, changed: Seq<Seq<char>>) -> Seq<
    Seq<char>,
>
    decreases files.len(),
{
    if files.len() == 0 {
        Seq::empty()
    } else if among(root, changed, files.last()) {
        narrowed(root, files.drop_last(), changed).push(files.last())
    } else {
        narrowed(root, files.drop_last(), changed)
    }
}

/// No two files of the list have the same identity.
pub open spec fn distinct(root: Seq<char>, files: Seq<Seq<char>>) -> bool {
    forall|i: int, j: int|
        0 <= i < j < files.len() ==> identity(root, #[trigger] files[i]) != identity(
            root,
            #[trigger] files[j],
        )
}

/// Every file of the list passes the extension policy and is not ignored.
pub open spec fn all_wanted(policy: Policy, files: Seq<Seq<char>>) -> bool {
    forall|i: int|
        0 <= i < files.len() ==> passes_extension_policy(#[trigger] files[i], policy.allowed)
            && !is_ignored_under(policy, files[i])
}

/// The inputs that a list of lines names: each line without the
/// whitespace around it, and no line that is blank.
pub open spec fn named_inputs(lines: Seq<Seq<char>>) -> Seq<Seq<char>>
    decreases lines.len(),
{
    if lines.len() == 0 {
        Seq::empty()
    } else if trimmed(lines.last()).len() == 0 {
        named_inputs(lines.drop_last())
    } else {
        named_inputs(lines.drop_last()).push(trimmed(lines.last()))
    }
}

/// The inputs of a run: the lines read from standard input where the
/// command line asks for that, else the arguments of the command line.
pub open spec fn inputs_for(stdin: bool, arguments: Seq<Seq<char>>, piped: Seq<Seq<char>>) -> Seq<
    Seq<char>,
> {
    if stdin {
        named_inputs(piped)
    } else {
        arguments
    }
}

/// The inputs that the lines read from standard input name.
pub fn clean_inputs(lines: &Vec<String>) -> (inputs: Vec<String>)
    ensures
        texts(inputs@) == named_inputs(texts(lines@)),
{
    let mut inputs: Vec<String> = Vec::new();
    let mut i: usize = 0;
    let ghost all = texts(lines@);
    assert(all.take(0) =~= Seq::<Seq<char>>::empty());
    assert(texts(inputs@) =~= Seq::<Seq<char>>::empty());
    while i < lines.len()
        invariant
            0 <= i <= lines@.len(),
            all == texts(lines@),
            texts(inputs@) == named_inputs(all.take(i as int)),
        decreases lines@.len() - i,
    {
        proof {
            assert(all.take(i as int + 1).drop_last() =~= all.take(i as int));
            assert(all.take(i as int + 1).last() == lines@[i as int]@);
        }
        let inner = lines[i].as_str().trim();
        if inner.unicode_len() > 0 {
            let input = inner.to_owned();
            proof {
                lemma_texts_push(inputs@, input);
            }
            inputs.push(input);
        }
        i = i + 1;
    }
    assert(all.take(lines@.len() as int) =~= all);
    inputs
}

/// The inputs of a run. With the flag for standard input set, the lines
/// read from it take the place of the arguments.
pub fn select_inputs(args: &CliArgs, piped: &Vec<String>) -> (inputs: Vec<String>)
    ensures
        texts(inputs@) == inputs_for(args.stdin, texts(args.files@), texts(piped@)),
{
    if args.stdin {
        clean_inputs(piped)
    } else {
        copy_texts(&args.files)
    }
}

/// What to do with an input: walk it if it names a directory, else expand
/// it as a glob pattern.
pub fn plan_input(is_dir: bool) -> (plan: InputPlan)
    ensures
        plan == (if is_dir {
            InputPlan::Walk
        } else {
            InputPlan::Expand
        }),
{
    if is_dir {
        InputPlan::Walk
    } else {
        InputPlan::Expand
    }
}

/// The identity of a path: made absolute against `root`, then normalised.
pub fn identity_of(root: &str, path: &str) -> (id: String)
    ensures
        id@ == identity(root@, path@),
{
    let full = if starts_at_root(path) {
        path.to_owned()
    } else {
        let mut joined = root.to_owned();
        joined.push(SEPARATOR);
        joined.append(path);
        assert(joined@ =~= root@ + seq![SEPARATOR] + path@);
        joined
    };
    let absolute = starts_at_root(full.as_str());
    let parts = collapse_parts(&split_path(full.as_str()), absolute);
    render_parts(absolute, &parts)
}

/// The state of one discovery: the policy, and the files taken so far.
pub struct Discoverer {
    allowed: Vec<String>,
    matcher: IgnoreMatcher,
    root: String,
    recursive: bool,
    no_hidden: bool,
    files: Vec<String>,
    keys: Vec<String>,
}

impl Discoverer {
    /// The policy in use.
    pub closed spec fn policy(&self) -> Policy {
        Policy {
            allowed: texts(self.allowed@),
            patterns: self.matcher.patterns(),
            root: self.root@,
            recursive: self.recursive,
            no_hidden: self.no_hidden,
        }
    }

    /// The files taken so far, in the order they were found.
    pub closed spec fn files(&self) -> Seq<Seq<char>> {
        texts(self.files@)
    }

    /// The identities kept beside the files are theirs, and the matcher
    /// sees paths from the root of the policy.
    pub closed spec fn wf(&self) -> bool {
        &&& self.keys@.len() == self.files@.len()
        &&& forall|i: int|
            0 <= i < self.files@.len() ==> (#[trigger] self.keys@[i])@ == identity(
                self.root@,
                self.files@[i]@,
            )
        &&& self.matcher.root() == normal(self.root@)
        &&& distinct(self.root@, texts(self.files@))
        &&& all_wanted(self.policy(), texts(self.files@))
    }

    /// What `wf` gives to callers: no file was taken twice, and every file
    /// taken passes the extension policy and is not ignored.
    pub proof fn lemma_wf(&self)
        requires
            self.wf(),
        ensures
            distinct(self.policy().root, self.files()),
            all_wanted(self.policy(), self.files()),
    {
    }

    /// A discovery that has taken no file yet. The ignore patterns and the
    /// extensions of the command line, where given, replace those of the
    /// configuration. A pattern that does not compile is dropped.
    pub fn new(args: &CliArgs, config: &Config, root: &str) -> (session: Self)
        ensures
            session.wf(),
            session.files() == Seq::<Seq<char>>::empty(),
            session.policy().allowed == effective_extensions(
                match args.extensions {
                    Some(given) => Some(texts(given@)),
                    None => None,
                },
                texts(config.file_extensions@),
            ),
            session.policy().patterns == self::ignore::compiling(
                effective_patterns(texts(args.ignore@), texts(config.ignore_patterns@)),
            ),
            session.policy().root == root@,
            session.policy().recursive == args.recursive,
            session.policy().no_hidden == args.no_hidden,
    {
        let allowed = match &args.extensions {
            Some(given) => copy_texts(given),
            None => copy_texts(&config.file_extensions),
        };
        let matcher = if args.ignore.len() > 0 {
            IgnoreMatcher::new(&args.ignore, root)
        } else {
            IgnoreMatcher::new(&config.ignore_patterns, root)
        };
        let session = Discoverer {
            allowed,
            matcher,
            root: root.to_owned(),
            recursive: args.recursive,
            no_hidden: args.no_hidden,
            files: Vec::new(),
            keys: Vec::new(),
        };
        assert(session.files() =~= Seq::<Seq<char>>::empty());
        session
    }

    /// Whether the ignore patterns leave the path out.
    pub fn is_ignored(&self, path: &str) -> (ignored: bool)
        requires
            self.wf(),
        ensures
            ignored == is_ignored_under(self.policy(), path@),
    {
        self.matcher.is_ignored(path)
    }

    /// Whether the filter admits a candidate.
    pub fn admits_candidate(&self, path: &str, is_file: bool, origin: Origin) -> (admitted: bool)
        requires
            self.wf(),
        ensures
            admitted == admits(self.policy(), path@, is_file, origin),
    {
        if !is_file {
            return false;
        }
        if !extension_allows(path, &self.allowed) {
            return false;
        }
        if self.matcher.is_ignored(path) {
            return false;
        }
        let literal = match origin {
            Origin::Literal => true,
            _ => false,
        };
        !(self.no_hidden && !literal && is_hidden_file(path))
    }

    /// Offers a candidate. It is taken, at the end of the list, if the
    /// filter admits it and no file of the same identity was taken before.
    pub fn offer(&mut self, path: &str, is_file: bool, origin: Origin) -> (taken: bool)
        requires
            old(self).wf(),
        ensures
            final(self).wf(),
            final(self).policy() == old(self).policy(),
            final(self).files() == offered(
                old(self).policy(),
                old(self).files(),
                path@,
                is_file,
                origin,
            ),
            taken == (final(self).files().len() == old(self).files().len() + 1),
    {
        if !self.admits_candidate(path, is_file, origin) {
            return false;
        }
        let id = identity_of(self.root.as_str(), path);
        let mut i: usize = 0;
        while i < self.keys.len()
            invariant
                self.wf(),
                0 <= i <= self.keys@.len(),
                id@ == identity(self.root@, path@),
                forall|j: int|
                    0 <= j < i ==> identity(self.root@, #[trigger] self.files()[j]) != id@,
            decreases self.keys@.len() - i,
        {
            if same_text(self.keys[i].as_str(), id.as_str()) {
                assert(identity(self.root@, self.files()[i as int]) == id@);
                return false;
            }
            i = i + 1;
        }
        let copy = path.to_owned();
        proof {
            lemma_texts_push(self.files@, copy);
            let before = texts(self.files@);
            let after = before.push(path@);
            assert forall|a: int, b: int| 0 <= a < b < after.len() implies identity(
                self.root@,
                #[trigger] after[a],
            ) != identity(self.root@, #[trigger] after[b]) by {
                if b < before.len() {
                    assert(after[a] == before[a] && after[b] == before[b]);
                } else {
                    assert(after[a] == self.files()[a]);
                }
            }
            assert forall|a: int| 0 <= a < after.len() implies passes_extension_policy(
                #[trigger] after[a],
                self.policy().allowed,
            ) && !is_ignored_under(self.policy(), after[a]) by {
                if a < before.len() {
                    assert(after[a] == before[a]);
                }
            }
        }
        self.files.push(copy);
        self.keys.push(id);
        true
    }

    /// Takes in the expansion of an input that is no directory. Each match
    /// is offered: as a literal path if it is the input itself, which the
    /// hidden-file test never refuses, and as expanded if the pattern found
    /// it. If the pattern was not valid (`matches` is `None`) or matched
    /// nothing, the input itself is offered as a literal path.
    pub fn take_matches(&mut self, input: &str, input_is_file: bool, matches: Option<&Vec<Entry>>)
        requires
            old(self).wf(),
        ensures
            final(self).wf(),
            final(self).policy() == old(self).policy(),
            final(self).files() == expanded(
                old(self).policy(),
                old(self).files(),
                input@,
                input_is_file,
                match matches {
                    Some(list) => Some(list@),
                    None => None,
                },
            ),
    {
        match matches {
            Some(list) => {
                if list.len() > 0 {
                    let named = identity_of(self.root.as_str(), input);
                    let mut i: usize = 0;
                    assert(list@.take(0) =~= Seq::<Entry>::empty());
                    while i < list.len()
                        invariant
                            self.wf(),
                            self.policy() == old(self).policy(),
                            0 <= i <= list@.len(),
                            named@ == identity(old(self).policy().root, input@),
                            self.files() == matched_all(
                                old(self).policy(),
                                old(self).files(),
                                input@,
                                list@.take(i as int),
                            ),
                        decreases list@.len() - i,
                    {
                        proof {
                            assert(list@.take(i as int + 1).drop_last() =~= list@.take(i as int));
                            assert(list@.take(i as int + 1).last() == list@[i as int]);
                        }
                        let entry = &list[i];
                        let found = identity_of(self.root.as_str(), entry.path.as_str());
                        let origin = if same_text(found.as_str(), named.as_str()) {
                            Origin::Literal
                        } else {
                            Origin::Expanded
                        };
                        self.offer(entry.path.as_str(), entry.is_file, origin);
                        i = i + 1;
                    }
                    assert(list@.take(list@.len() as int) =~= list@);
                    return ;
                }
            },
            None => {},
        }
        self.offer(input, input_is_file, Origin::Literal);
    }

    /// Visits one entry of a directory that is being walked. An entry whose
    /// name begins with a dot is passed over when hidden files are skipped.
    /// A regular file is offered. A directory is walked into only in a
    /// recursive walk, and only if no ignore pattern leaves it out.
    pub fn visit(&mut self, entry: &Entry) -> (action: WalkAction)
        requires
            old(self).wf(),
        ensures
            final(self).wf(),
            final(self).policy() == old(self).policy(),
            final(self).files() == visited(
                old(self).policy(),
                old(self).files(),
                entry.path@,
                entry.is_file,
            ),
            action == (if descends(old(self).policy(), entry.path@, entry.is_file, entry.is_dir) {
                WalkAction::Descend
            } else {
                WalkAction::Continue
            }),
    {
        let path = entry.path.as_str();
        if self.no_hidden && is_hidden_file(path) {
            return WalkAction::Continue;
        }
        if entry.is_file {
            self.offer(path, true, Origin::Walked);
            return WalkAction::Continue;
        }
        if entry.is_dir && self.recursive && !self.matcher.is_ignored(path) {
            WalkAction::Descend
        } else {
            WalkAction::Continue
        }
    }

    /// Keeps only the files that are among the changed ones, in their
    /// order. Two paths are the same file when they agree once made
    /// absolute and normalised.
    pub fn narrow(&mut self, changed: &Vec<String>)
        requires
            old(self).wf(),
        ensures
            final(self).wf(),
            final(self).policy() == old(self).policy(),
            final(self).files() == narrowed(
                old(self).policy().root,
                old(self).files(),
                texts(changed@),
            ),
    {
        let mut changed_keys: Vec<String> = Vec::new();
        let mut c: usize = 0;
        while c < changed.len()
            invariant
                0 <= c <= changed@.len(),
                changed_keys@.len() == c,
                forall|j: int|
                    0 <= j < c ==> (#[trigger] changed_keys@[j])@ == identity(
                        self.root@,
                        changed@[j]@,
                    ),
            decreases changed@.len() - c,
        {
            changed_keys.push(identity_of(self.root.as_str(), changed[c].as_str()));
            c = c + 1;
        }
        let mut files: Vec<String> = Vec::new();
        let mut keys: Vec<String> = Vec::new();
        let mut i: usize = 0;
        let ghost root = self.root@;
        let ghost all = texts(self.files@);
        let ghost policy = self.policy();
        let ghost mut picks: Seq<int> = Seq::empty();
        assert(all.take(0) =~= Seq::<Seq<char>>::empty());
        assert(texts(files@) =~= Seq::<Seq<char>>::empty());
        while i < self.files.len()
            invariant
                self.wf(),
                root == self.root@,
                all == texts(self.files@),
                policy == self.policy(),
                0 <= i <= self.files@.len(),
                picks.len() == files@.len(),
                forall|j: int|
                    0 <= j < picks.len() ==> 0 <= #[trigger] picks[j] < i && files@[j]@
                        == all[picks[j]],
                forall|a: int, b: int|
                    0 <= a < b < picks.len() ==> #[trigger] picks[a] < #[trigger] picks[b],
                changed_keys@.len() == changed@.len(),
                forall|j: int|
                    0 <= j < changed@.len() ==> (#[trigger] changed_keys@[j])@ == identity(
                        root,
                        changed@[j]@,
                    ),
                keys@.len() == files@.len(),
                forall|j: int|
                    0 <= j < files@.len() ==> (#[trigger] keys@[j])@ == identity(root, files@[j]@),
                texts(files@) == narrowed(root, all.take(i as int), texts(changed@)),
            decreases self.files@.len() - i,
        {
            proof {
                assert(all.take(i as int + 1).drop_last() =~= all.take(i as int));
                assert(all.take(i as int + 1).last() == self.files@[i as int]@);
            }
            let key = &self.keys[i];
            let mut hit = false;
            let mut k: usize = 0;
            while k < changed_keys.len()
                invariant
                    0 <= k <= changed_keys@.len(),
                    changed_keys@.len() == changed@.len(),
                    key@ == identity(root, self.files@[i as int]@),
                    forall|j: int|
                        0 <= j < changed@.len() ==> (#[trigger] changed_keys@[j])@ == identity(
                            root,
                            changed@[j]@,
                        ),
                    !hit ==> forall|j: int|
                        0 <= j < k ==> identity(root, #[trigger] texts(changed@)[j]) != key@,
                    hit ==> among(root, texts(changed@), self.files@[i as int]@),
                decreases changed_keys@.len() - k,
            {
                if same_text(changed_keys[k].as_str(), key.as_str()) {
                    assert(identity(root, texts(changed@)[k as int]) == key@);
                    hit = true;
                }
                k = k + 1;
            }
            if hit {
                let file = self.files[i].clone();
                let id = key.clone();
                proof {
                    lemma_texts_push(files@, file);
                    picks = picks.push(i as int);
                }
                files.push(file);
                keys.push(id);
            }
            i = i + 1;
        }
        proof {
            assert(all.take(self.files@.len() as int) =~= all);
            let kept = texts(files@);
            assert forall|a: int, b: int| 0 <= a < b < kept.len() implies identity(
                root,
                #[trigger] kept[a],
            ) != identity(root, #[trigger] kept[b]) by {
                assert(kept[a] == all[picks[a]] && kept[b] == all[picks[b]]);
                assert(picks[a] < picks[b]);
            }
            assert forall|a: int| 0 <= a < kept.len() implies passes_extension_policy(
                #[trigger] kept[a],
                policy.allowed,
            ) && !is_ignored_under(policy, kept[a]) by {
                assert(kept[a] == all[picks[a]]);
            }
        }
        self.files = files;
        self.keys = keys;
    }

    /// Ends the discovery: the files taken, and the git range if one was used.
    pub fn finish(self, git_range: Option<GitRangeInfo>) -> (result: DiscoveryResult)
        requires
            self.wf(),
        ensures
            texts(result.files@) == self.files(),
            distinct(self.policy().root, texts(result.files@)),
            result.git_range == git_range,
    {
        DiscoveryResult { files: self.files, git_range }
    }
}

} // verus!
