//! The fallback of the memory writer: a file under the memory directory.
//!
//! The library decides what to do next and what to write; the files themselves
//! are touched outside. A write goes through these states:
//!
//! 1. [`ParentPending`]: create the directory that the file is to stand in;
//! 2. [`ProbePending`], only when appending: find out whether the file exists;
//! 3. [`ReadPending`], only when it does: read it;
//! 4. [`StorePending`]: write the file.

use crate::exchange::Context;
use crate::exchange::Fault;
use vstd::prelude::*;

verus! {

/// The name of the memory directory.
pub const MEMORY_DIR: &'static str = "._b00t_";

/// What stands in for the home directory where it is not known.
pub const HOME_SUBSTITUTE: &'static str = "/tmp";

/// The directory in which the memory directory stands.
#[derive(Debug, Clone, Copy, PartialEq, Eq, Structural)]
pub enum BaseRoot {
    CurrentDir,
    HomeDir,
    /// The directory of [`HOME_SUBSTITUTE`].
    Substitute,
}

impl BaseRoot {
    /// Picks the directory: the current one, if it is known and holds a memory
    /// directory, else the home directory, if that is known.
    pub fn detect(current_dir_holds_memory_dir: bool, home_dir_known: bool) -> (root: Self)
        ensures
            root == (if current_dir_holds_memory_dir {
                BaseRoot::CurrentDir
            } else if home_dir_known {
                BaseRoot::HomeDir
            } else {
                BaseRoot::Substitute
            }),
    {
        if current_dir_holds_memory_dir {
            BaseRoot::CurrentDir
        } else if home_dir_known {
            BaseRoot::HomeDir
        } else {
            BaseRoot::Substitute
        }
    }
}

/// A component of a path.
#[derive(Debug, Clone, Copy, PartialEq, Eq, Structural)]
pub enum PathPart {
    /// A Windows prefix, such as `C:`.
    Prefix,
    /// The separator that a path from the root begins with.
    RootDir,
    /// `.`
    CurDir,
    /// `..`
    ParentDir,
    /// A name.
    Normal,
}

/// Why a file is not written.
#[derive(Debug, Clone, Copy, PartialEq, Eq, Structural)]
pub enum PathFault {
    /// The path leads upwards.
    Traversal,
    /// The path does not start from the memory directory.
    Absolute,
}

impl PathFault {
    /// The words for the fault of `file`.
    pub open spec fn words(self, file: Seq<char>) -> Seq<char> {
        match self {
            PathFault::Traversal => "path traversal in memory file: "@ + file,
            PathFault::Absolute => "absolute path not allowed: "@ + file,
        }
    }

    /// The error message for `file`.
    pub fn message(self, file: &str) -> (message: String)
        ensures
            message@ == self.words(file@),
            self is Traversal ==> message@ == "path traversal in memory file: "@ + file@,
            self is Absolute ==> message@ == "absolute path not allowed: "@ + file@,
    {
        let mut message = match self {
            PathFault::Traversal => "path traversal in memory file: ".to_owned(),
            PathFault::Absolute => "absolute path not allowed: ".to_owned(),
        };
        message.append(file);
        message
    }
}

/// The components that are still to come out of `std::path::Components`.
#[verifier::external_type_specification]
#[verifier::external_body]
pub struct ExComponents<'a>(std::path::Components<'a>);

/// What an iterator over a path's components has yet to yield.
pub uninterp spec fn parts_left(components: std::path::Components<'_>) -> Seq<PathPart>;

/// Whether a path begins at the root.
pub open spec fn is_rooted(path: Seq<char>) -> bool {
    path.len() > 0 && path[0] == '/'
}

/// Whether a path starts, on Unix and on Windows, from the directory that it is
/// taken in: on Windows `\` at the start stands for the root, and a `:` behind the
/// first character ends the name of a drive.
pub open spec fn starts_below(path: Seq<char>) -> bool {
    &&& path.len() > 0 ==> path[0] != '/' && path[0] != '\\'
    &&& path.len() > 1 ==> path[1] != ':'
}

/// Whether a character parts the segments of a path: `/`, and on Windows, where
/// `backslash` holds, `\` too.
pub open spec fn is_separator(c: char, backslash: bool) -> bool {
    c == '/' || (backslash && c == '\\')
}

/// Whether `..` is a segment of a path: stands between two separators, or a
/// separator and an end of the path.
pub open spec fn has_parent_segment(path: Seq<char>, backslash: bool) -> bool {
    exists|i: int|
        0 <= i && i + 1 < path.len() && #[trigger] path[i] == '.' && path[i + 1] == '.' && (i == 0
            || is_separator(path[i - 1], backslash)) && (i + 2 == path.len() || is_separator(
            path[i + 2],
            backslash,
        ))
}

/// Whether the first of a path's components is the root or a prefix.
pub open spec fn lead_absolute(parts: Seq<PathPart>) -> bool {
    parts.len() > 0 && (parts[0] == PathPart::RootDir || parts[0] == PathPart::Prefix)
}

/// What is known of the components of a path, on Unix and on Windows alike.
pub open spec fn are_parts_of(parts: Seq<PathPart>, path: Seq<char>) -> bool {
    &&& is_rooted(path) ==> lead_absolute(parts)
    &&& starts_below(path) ==> !lead_absolute(parts)
    &&& !lead_absolute(parts) ==> {
        &&& !parts.contains(PathPart::RootDir)
        &&& !parts.contains(PathPart::Prefix)
        &&& has_parent_segment(path, false) ==> parts.contains(PathPart::ParentDir)
        &&& parts.contains(PathPart::ParentDir) ==> has_parent_segment(path, true)
    }
}

/// `std::path::Path::components`: the components of a path, in order. Trusted, on
/// Unix and on Windows: a path that begins with `/` begins with the root or with a
/// prefix, and one that begins with neither `/` nor `\`, and has no `:` as its second
/// character, with neither. A path that begins with neither has neither further on;
/// it has a `ParentDir` for a segment `..` between slashes, and has one only for a
/// segment `..` between slashes or backslashes. Where the two platforms differ,
/// which is in the meaning of `\` and of a `:` behind the first character, the
/// contract holds of both.
#[verifier::external_body]
fn components_of(path: &str) -> (components: std::path::Components<'_>)
    ensures
        are_parts_of(parts_left(components), path@),
{
    std::path::Path::new(path).components()
}

/// `std::path::Components::next`: takes the next component out of the iterator,
/// if there is one.
#[verifier::external_body]
fn next_part(components: &mut std::path::Components<'_>) -> (part: Option<PathPart>)
    ensures
        match part {
            Some(next) => parts_left(*old(components)).len() > 0 && next == parts_left(
                *old(components),
            )[0] && parts_left(*final(components)) == parts_left(*old(components)).skip(1),
            None => parts_left(*old(components)).len() == 0,
        },
{
    match components.next() {
        None => None,
        Some(std::path::Component::Prefix(_)) => Some(PathPart::Prefix),
        Some(std::path::Component::RootDir) => Some(PathPart::RootDir),
        Some(std::path::Component::CurDir) => Some(PathPart::CurDir),
        Some(std::path::Component::ParentDir) => Some(PathPart::ParentDir),
        Some(std::path::Component::Normal(_)) => Some(PathPart::Normal),
    }
}

/// The components of a path, in order.
fn path_parts(path: &str) -> (parts: Vec<PathPart>)
    ensures
        are_parts_of(parts@, path@),
{
    let mut components = components_of(path);
    let ghost all = parts_left(components);
    let mut parts: Vec<PathPart> = Vec::new();
    loop
        invariant_except_break
            parts@ + parts_left(components) == all,
        ensures
            parts@ == all,
        decreases parts_left(components).len(),
    {
        match next_part(&mut components) {
            Some(part) => {
                parts.push(part);
            },
            None => {
                break;
            },
        }
    }
    parts
}

/// Whether a component is one that no path of a memory file may have.
pub open spec fn is_refused(part: PathPart) -> bool {
    part == PathPart::ParentDir || part == PathPart::RootDir || part == PathPart::Prefix
}

/// Whether `checked` is what the components of a memory file's path come to: the
/// first that is refused decides.
pub open spec fn is_verdict(parts: Seq<PathPart>, checked: Result<(), PathFault>) -> bool {
    match checked {
        Ok(()) => forall|i: int| 0 <= i < parts.len() ==> !is_refused(#[trigger] parts[i]),
        Err(fault) => exists|i: int|
            0 <= i < parts.len() && is_refused(#[trigger] parts[i]) && (fault
                == PathFault::Traversal <==> parts[i] == PathPart::ParentDir) && forall|j: int|
                0 <= j < i ==> !is_refused(#[trigger] parts[j]),
    }
}

/// Checks the components of a memory file's path.
pub fn check_parts(parts: &[PathPart]) -> (checked: Result<(), PathFault>)
    ensures
        is_verdict(parts@, checked),
{
    for i in 0..parts.len()
        invariant
            forall|j: int| 0 <= j < i ==> !is_refused(#[trigger] parts@[j]),
    {
        match parts[i] {
            PathPart::ParentDir => {
                assert(is_refused(parts@[i as int]));
                return Err(PathFault::Traversal);
            },
            PathPart::RootDir | PathPart::Prefix => {
                assert(is_refused(parts@[i as int]));
                return Err(PathFault::Absolute);
            },
            PathPart::CurDir | PathPart::Normal => {},
        }
    }
    Ok(())
}

/// What the check of a memory file's path comes to, on Unix and on Windows alike.
/// `fault` is why the path is refused, if it is.
pub open spec fn is_file_verdict(file: Seq<char>, fault: Option<PathFault>) -> bool {
    &&& is_rooted(file) ==> fault == Some(PathFault::Absolute)
    &&& starts_below(file) ==> fault != Some(PathFault::Absolute)
    &&& has_parent_segment(file, false) ==> fault is Some
    &&& fault == Some(PathFault::Traversal) ==> has_parent_segment(file, true)
}

/// Checks the path of a memory file.
///
/// - A path that begins with `/` is refused as absolute.
/// - A path with a segment `..` between slashes is refused.
/// - A path that begins with neither `/` nor `\`, has no `:` as its second
///   character, and no segment `..` between slashes or backslashes, is accepted.
///
/// Of other paths the platform decides: whether `\` parts segments, and whether the
/// path begins with the name of a drive.
pub fn check_file(file: &str) -> (checked: Result<(), PathFault>)
    ensures
        exists|parts: Seq<PathPart>|
            are_parts_of(parts, file@) && #[trigger] is_verdict(parts, checked),
        is_file_verdict(
            file@,
            match checked {
                Ok(()) => None,
                Err(fault) => Some(fault),
            },
        ),
        starts_below(file@) && !has_parent_segment(file@, true) ==> checked is Ok,
        starts_below(file@) && has_parent_segment(file@, false) ==> checked == Err::<
            (),
            PathFault,
        >(PathFault::Traversal),
{
    let parts = path_parts(file);
    let checked = check_parts(parts.as_slice());
    proof {
        lemma_verdict_of_file(parts@, file@, checked);
    }
    checked
}

proof fn lemma_verdict_of_file(
    parts: Seq<PathPart>,
    file: Seq<char>,
    checked: Result<(), PathFault>,
)
    requires
        are_parts_of(parts, file),
        is_verdict(parts, checked),
    ensures
        lead_absolute(parts) ==> checked == Err::<(), PathFault>(PathFault::Absolute),
        !lead_absolute(parts) ==> {
            &&& checked != Err::<(), PathFault>(PathFault::Absolute)
            &&& checked is Err <==> parts.contains(PathPart::ParentDir)
        },
{
    if lead_absolute(parts) {
        assert(is_refused(parts[0]));
    }
    if parts.contains(PathPart::ParentDir) {
        let i = choose|i: int| 0 <= i < parts.len() && parts[i] == PathPart::ParentDir;
        assert(is_refused(parts[i]));
    }
    if let Err(fault) = checked {
        let i = choose|i: int|
            0 <= i < parts.len() && is_refused(#[trigger] parts[i]) && (fault
                == PathFault::Traversal <==> parts[i] == PathPart::ParentDir) && forall|j: int|
                0 <= j < i ==> !is_refused(#[trigger] parts[j]);
        assert(parts.contains(parts[i]));
    }
}

/// Of a path that starts below its directory and holds no `\`, nothing is left to
/// the platform: it is refused, as leading upwards, if and only if it has a segment
/// `..`.
pub proof fn law_plain_path_refused_iff_it_leads_up(file: Seq<char>, fault: Option<PathFault>)
    requires
        starts_below(file),
        !file.contains('\\'),
        is_file_verdict(file, fault),
    ensures
        fault == if has_parent_segment(file, false) {
            Some(PathFault::Traversal)
        } else {
            None
        },
{
    if has_parent_segment(file, true) {
        let i = choose|i: int|
            0 <= i && i + 1 < file.len() && #[trigger] file[i] == '.' && file[i + 1] == '.' && (i
                == 0 || is_separator(file[i - 1], true)) && (i + 2 == file.len() || is_separator(
                file[i + 2],
                true,
            ));
        assert(i > 0 ==> file.contains(file[i - 1]));
        assert(i + 2 < file.len() ==> file.contains(file[i + 2]));
        assert(has_parent_segment(file, false));
    }
    if let Some(why) = fault {
        assert(why == PathFault::Traversal || why == PathFault::Absolute);
    }
}

/// What was written, and where.
#[derive(Debug, PartialEq, Eq)]
pub struct MemoryWriteResult {
    pub location: String,
    pub bytes_written: usize,
}

/// The characters with the Unicode property White_Space.
pub open spec fn is_white_space(c: char) -> bool {
    let n = c as u32;
    ||| 0x9 <= n <= 0xd
    ||| n == 0x20
    ||| n == 0x85
    ||| n == 0xa0
    ||| n == 0x1680
    ||| 0x2000 <= n <= 0x200a
    ||| 0x2028 <= n <= 0x2029
    ||| n == 0x202f
    ||| n == 0x205f
    ||| n == 0x3000
}

/// A text without the white space that it ends in.
pub open spec fn trimmed_end(text: Seq<char>) -> Seq<char>
    decreases text.len(),
{
    if text.len() > 0 && is_white_space(text.last()) {
        trimmed_end(text.drop_last())
    } else {
        text
    }
}

/// `str::trim_end` removes trailing characters with the Unicode property
/// White_Space.
pub assume_specification[ str::trim_end ](text: &str) -> (trimmed: &str)
    ensures
        trimmed@ == trimmed_end(text@),
;

/// What a file holds after content was appended to what it held before: a blank
/// line parts the two.
pub open spec fn appended(existing: Seq<char>, content: Seq<char>) -> Seq<char> {
    trimmed_end(existing) + seq!['\n', '\n'] + content
}

/// What a file holds after a write. `existing` is what it held before, if it was
/// there.
pub open spec fn written(
    existing: Option<Seq<char>>,
    content: Seq<char>,
    append: bool,
) -> Seq<char> {
    match existing {
        Some(before) if append => appended(before, content),
        _ => content,
    }
}

/// Appends content to what a file holds.
pub fn append_content(existing: &str, content: &str) -> (text: String)
    ensures
        text@ == appended(existing@, content@),
        exists|n: int|
            0 <= n <= existing@.len() && text@ == #[trigger] existing@.take(n) + seq!['\n', '\n']
                + content@ && (n > 0 ==> !is_white_space(existing@[n - 1])) && forall|i: int|
                n <= i < existing@.len() ==> is_white_space(#[trigger] existing@[i]),
{
    let mut text = existing.trim_end().to_owned();
    text.append("\n\n");
    text.append(content);
    proof {
        reveal_strlit("\n\n");
        assert("\n\n"@ =~= seq!['\n', '\n']);
        law_appended_text(existing@, content@);
    }
    text
}

/// The directory of the file is to be created.
#[derive(Debug, PartialEq, Eq)]
pub struct ParentPending {
    pub content: String,
    pub append: bool,
}

/// It is to be found out whether the file exists.
#[derive(Debug, PartialEq, Eq)]
pub struct ProbePending {
    pub content: String,
}

/// The file is to be read.
#[derive(Debug, PartialEq, Eq)]
pub struct ReadPending {
    pub content: String,
}

/// `content` is to be written to the file, in place of what it held.
#[derive(Debug, PartialEq, Eq)]
pub struct StorePending {
    pub content: String,
}

/// What to do once the directory is there.
#[derive(Debug, PartialEq, Eq)]
pub enum AfterParent {
    Probe(ProbePending),
    Store(StorePending),
}

/// What to do once it is known whether the file exists.
#[derive(Debug, PartialEq, Eq)]
pub enum AfterProbe {
    Read(ReadPending),
    Store(StorePending),
}

impl ParentPending {
    /// What to do once the directory was created.
    pub open spec fn after_created(self) -> AfterParent {
        if self.append {
            AfterParent::Probe(ProbePending { content: self.content })
        } else {
            AfterParent::Store(StorePending { content: self.content })
        }
    }

    /// Begins to write `content` to `file`, a path under the memory directory. A
    /// refused path is where it ends.
    pub fn write_memory(file: &str, content: &str, append: bool) -> (begun: Result<
        Self,
        PathFault,
    >)
        ensures
            match begun {
                Ok(state) => state.content@ == content@ && state.append == append
                    && is_file_verdict(file@, None),
                Err(fault) => is_file_verdict(file@, Some(fault)),
            },
            starts_below(file@) && !has_parent_segment(file@, true) ==> begun is Ok,
            starts_below(file@) && has_parent_segment(file@, false) ==> begun == Err::<
                Self,
                PathFault,
            >(PathFault::Traversal),
    {
        match check_file(file) {
            Ok(()) => Ok(ParentPending { content: content.to_owned(), append }),
            Err(fault) => Err(fault),
        }
    }

    /// Goes on once the directory was created, or could not be.
    pub fn created<E>(self, made: Result<(), E>) -> (next: Result<AfterParent, Fault<E>>)
        ensures
            match made {
                Err(cause) => next == Err::<AfterParent, Fault<E>>(
                    Fault::Failed { context: Context::CreateMemoryDir, cause },
                ),
                Ok(()) => next == Ok::<AfterParent, Fault<E>>(self.after_created()),
            },
            made is Ok && self.append ==> (next matches Ok(AfterParent::Probe(probe))
                && probe.content == self.content),
            made is Ok && !self.append ==> (next matches Ok(AfterParent::Store(store))
                && store.content == self.content),
    {
        match made {
            Err(cause) => Err(Fault::Failed { context: Context::CreateMemoryDir, cause }),
            Ok(()) => if self.append {
                Ok(AfterParent::Probe(ProbePending { content: self.content }))
            } else {
                Ok(AfterParent::Store(StorePending { content: self.content }))
            },
        }
    }
}

impl ProbePending {
    /// What to do once it is known whether the file exists.
    pub open spec fn after_probed(self, exists_already: bool) -> AfterProbe {
        if exists_already {
            AfterProbe::Read(ReadPending { content: self.content })
        } else {
            AfterProbe::Store(StorePending { content: self.content })
        }
    }

    /// Goes on once it is known whether the file exists.
    pub fn probed(self, exists_already: bool) -> (next: AfterProbe)
        ensures
            next == self.after_probed(exists_already),
            exists_already ==> (next matches AfterProbe::Read(read) && read.content
                == self.content),
            !exists_already ==> (next matches AfterProbe::Store(store) && store.content
                == self.content),
    {
        if exists_already {
            AfterProbe::Read(ReadPending { content: self.content })
        } else {
            AfterProbe::Store(StorePending { content: self.content })
        }
    }
}

impl ReadPending {
    /// Goes on once the file was read, or could not be.
    pub fn read<E>(self, existing: Result<String, E>) -> (next: Result<StorePending, Fault<E>>)
        ensures
            match existing {
                Ok(text) => next matches Ok(state) && state.content@ == appended(
                    text@,
                    self.content@,
                ),
                Err(cause) => next == Err::<StorePending, Fault<E>>(
                    Fault::Failed { context: Context::ReadExisting, cause },
                ),
            },
            existing matches Ok(text) ==> (next matches Ok(state) && exists|n: int|
                0 <= n <= text@.len() && state.content@ == #[trigger] text@.take(n) + seq![
                    '\n',
                    '\n',
                ] + self.content@ && (n > 0 ==> !is_white_space(text@[n - 1])) && forall|i: int|
                    n <= i < text@.len() ==> is_white_space(#[trigger] text@[i])),
    {
        match existing {
            Ok(text) => Ok(
                StorePending { content: append_content(text.as_str(), self.content.as_str()) },
            ),
            Err(cause) => Err(Fault::Failed { context: Context::ReadExisting, cause }),
        }
    }
}

impl StorePending {
    /// Ends once the file was written, or could not be. `location` tells where the
    /// file is.
    pub fn stored<E>(self, done: Result<(), E>, location: String) -> (result: Result<
        MemoryWriteResult,
        Fault<E>,
    >)
        ensures
            match done {
                Ok(()) => result matches Ok(written) && written.location == location
                    && written.bytes_written == vstd::utf8::encode_utf8(self.content@).len(),
                Err(cause) => result == Err::<MemoryWriteResult, Fault<E>>(
                    Fault::Failed { context: Context::WriteMemoryFile, cause },
                ),
            },
    {
        match done {
            Ok(()) => Ok(
                MemoryWriteResult { location, bytes_written: self.content.as_str().as_bytes().len() },
            ),
            Err(cause) => Err(Fault::Failed { context: Context::WriteMemoryFile, cause }),
        }
    }
}

/// Whatever the content, once the directory is there a write goes on to find out
/// whether the file exists if it is to append, and to store the content if it is not.
pub proof fn law_append_alone_decides_the_next_state<E>(
    begun: ParentPending,
    next: Result<AfterParent, Fault<E>>,
)
    requires
        call_ensures(ParentPending::created::<E>, (begun, Ok::<(), E>(())), next),
    ensures
        begun.append ==> next == Ok::<AfterParent, Fault<E>>(
            AfterParent::Probe(ProbePending { content: begun.content }),
        ),
        !begun.append ==> next == Ok::<AfterParent, Fault<E>>(
            AfterParent::Store(StorePending { content: begun.content }),
        ),
{
}

/// The states that a write goes through depend on its flag and on whether the file
/// exists, and on nothing else: two writes of different contents with the same flag
/// go the same way.
pub proof fn law_states_are_blind_to_content(a: ParentPending, b: ParentPending, there: bool)
    requires
        a.append == b.append,
    ensures
        a.after_created() is Probe <==> a.append,
        a.after_created() is Probe <==> b.after_created() is Probe,
        a.after_created() matches AfterParent::Probe(probe) ==> probe.content == a.content
            && probe.after_probed(there) == if there {
            AfterProbe::Read(ReadPending { content: a.content })
        } else {
            AfterProbe::Store(StorePending { content: a.content })
        },
        a.after_created() matches AfterParent::Store(store) ==> store.content == a.content,
{
}

/// On an append to a file that is there, what gets stored begins with the old text
/// without the white space at its end, and ends with the new content. A blank line,
/// and nothing else, stands between the two.
pub proof fn law_append_stores_old_text_then_content<E>(
    begun: ParentPending,
    text: String,
    made: Result<AfterParent, Fault<E>>,
    probed: AfterProbe,
    merged: Result<StorePending, Fault<E>>,
) -> (n: int)
    requires
        begun.append,
        call_ensures(ParentPending::created::<E>, (begun, Ok::<(), E>(())), made),
        call_ensures(ProbePending::probed, (made->Ok_0->Probe_0, true), probed),
        call_ensures(ReadPending::read::<E>, (probed->Read_0, Ok::<String, E>(text)), merged),
    ensures
        made is Ok && made->Ok_0 is Probe,
        probed is Read,
        merged is Ok,
        0 <= n <= text@.len(),
        n > 0 ==> !is_white_space(text@[n - 1]),
        forall|i: int| n <= i < text@.len() ==> is_white_space(#[trigger] text@[i]),
        text@.take(n).is_prefix_of(merged->Ok_0.content@),
        begun.content@.is_suffix_of(merged->Ok_0.content@),
        merged->Ok_0.content@.len() == n + 2 + begun.content@.len(),
        merged->Ok_0.content@[n] == '\n' && merged->Ok_0.content@[n + 1] == '\n',
{
    let stored = merged->Ok_0.content@;
    let n = choose|n: int|
        0 <= n <= text@.len() && stored == #[trigger] text@.take(n) + seq!['\n', '\n']
            + begun.content@ && (n > 0 ==> !is_white_space(text@[n - 1])) && forall|i: int|
            n <= i < text@.len() ==> is_white_space(#[trigger] text@[i]);
    assert(text@.take(n) =~= stored.take(n));
    assert(begun.content@ =~= stored.skip(stored.len() - begun.content@.len()));
    n
}

/// An append to a file that is not there, and any write that is to overwrite, stores
/// the content as it is.
pub proof fn law_other_writes_store_the_content<E>(
    begun: ParentPending,
    made: Result<AfterParent, Fault<E>>,
    probed: AfterProbe,
)
    requires
        call_ensures(ParentPending::created::<E>, (begun, Ok::<(), E>(())), made),
        call_ensures(ProbePending::probed, (made->Ok_0->Probe_0, false), probed),
    ensures
        ({
            let store = StorePending { content: begun.content };
            if begun.append {
                probed == AfterProbe::Store(store)
            } else {
                made == Ok::<AfterParent, Fault<E>>(AfterParent::Store(store))
            }
        }),
{
}

/// What a file holds after a write: the content, if it is to overwrite or the file was
/// not there. Else the old text up to its last character that is no white space, a
/// blank line, and the content.
pub proof fn law_written_text(existing: Option<Seq<char>>, content: Seq<char>, append: bool)
    ensures
        !append || existing is None ==> written(existing, content, append) == content,
        existing matches Some(before) ==> append ==> exists|n: int|
            0 <= n <= before.len() && written(existing, content, append) == #[trigger] before.take(n)
                + seq!['\n', '\n'] + content && (n > 0 ==> !is_white_space(before[n - 1]))
                && forall|i: int| n <= i < before.len() ==> is_white_space(#[trigger] before[i]),
{
    if let Some(before) = existing {
        law_appended_text(before, content);
    }
}

/// Appending leaves the old text up to its last character that is no white space,
/// and puts a blank line and the content behind it.
pub proof fn law_appended_text(existing: Seq<char>, content: Seq<char>)
    ensures
        exists|n: int|
            0 <= n <= existing.len() && appended(existing, content) == #[trigger] existing.take(n)
                + seq!['\n', '\n'] + content && (n > 0 ==> !is_white_space(existing[n - 1]))
                && forall|i: int| n <= i < existing.len() ==> is_white_space(#[trigger] existing[i]),
{
    lemma_trimmed_end_is_prefix(existing);
    lemma_trimmed_end_stops(existing);
    let n = trimmed_end(existing).len() as int;
    assert(appended(existing, content) == existing.take(n) + seq!['\n', '\n'] + content);
}

/// Of the ASCII characters, the space and those from the tab to the carriage return
/// are white space, and no others.
pub proof fn law_ascii_white_space(c: char)
    requires
        c <= '\x7f',
    ensures
        is_white_space(c) <==> c == ' ' || '\t' <= c <= '\r',
{
}

/// A path that begins with `/` is refused as absolute, whatever follows.
pub proof fn law_rooted_file_is_refused(file: &str, checked: Result<(), PathFault>)
    requires
        call_ensures(check_file, (file,), checked),
        file@.len() > 0,
        file@[0] == '/',
    ensures
        checked == Err::<(), PathFault>(PathFault::Absolute),
{
}

/// A path in which `..` stands between slashes, or a slash and an end of the path, is
/// refused, wherever it stands and whatever else the path holds. It is refused as leading
/// upwards where the path does not begin like one from a root or a drive.
pub proof fn law_upward_file_is_refused(file: &str, at: int, checked: Result<(), PathFault>)
    requires
        call_ensures(check_file, (file,), checked),
        0 <= at,
        at + 2 <= file@.len(),
        file@[at] == '.',
        file@[at + 1] == '.',
        at == 0 || file@[at - 1] == '/',
        at + 2 == file@.len() || file@[at + 2] == '/',
    ensures
        checked is Err,
        file@[0] != '/' && file@[0] != '\\' && file@[1] != ':' ==> checked == Err::<(), PathFault>(
            PathFault::Traversal,
        ),
{
    assert(has_parent_segment(file@, false)) by {
        assert(file@[at] == '.');
    }
}

/// Any other path is accepted that has neither `/` nor `\` at its start, no `:` as its
/// second character, and no `..` between separators, however long it is.
pub proof fn law_harmless_file_is_accepted(file: &str, checked: Result<(), PathFault>)
    requires
        call_ensures(check_file, (file,), checked),
        file@.len() > 0 ==> file@[0] != '/' && file@[0] != '\\',
        file@.len() > 1 ==> file@[1] != ':',
        forall|i: int|
            0 <= i && i + 2 <= file@.len() && #[trigger] file@[i] == '.' && file@[i + 1] == '.' ==> {
                ||| i > 0 && file@[i - 1] != '/' && file@[i - 1] != '\\'
                ||| i + 2 < file@.len() && file@[i + 2] != '/' && file@[i + 2] != '\\'
            },
    ensures
        checked is Ok,
{
    if has_parent_segment(file@, true) {
        let i = choose|i: int|
            0 <= i && i + 1 < file@.len() && #[trigger] file@[i] == '.' && file@[i + 1] == '.' && (i
                == 0 || is_separator(file@[i - 1], true)) && (i + 2 == file@.len() || is_separator(
                file@[i + 2],
                true,
            ));
        assert(file@[i] == '.');
    }
}

/// Of the components of a path, the first that is the root, a prefix or `..` decides,
/// wherever it stands; without one the path is accepted.
pub proof fn law_first_refused_part_decides(
    parts: &[PathPart],
    first: int,
    checked: Result<(), PathFault>,
)
    requires
        call_ensures(check_parts, (parts,), checked),
        0 <= first <= parts@.len(),
        forall|j: int|
            0 <= j < first ==> #[trigger] parts@[j] == PathPart::CurDir || parts@[j]
                == PathPart::Normal,
        first < parts@.len() ==> parts@[first] != PathPart::CurDir && parts@[first]
            != PathPart::Normal,
    ensures
        first == parts@.len() ==> checked is Ok,
        first < parts@.len() && parts@[first] == PathPart::ParentDir ==> checked == Err::<
            (),
            PathFault,
        >(PathFault::Traversal),
        first < parts@.len() && parts@[first] != PathPart::ParentDir ==> checked == Err::<
            (),
            PathFault,
        >(PathFault::Absolute),
{
    if first < parts@.len() {
        assert(is_refused(parts@[first]));
    }
    if let Err(fault) = checked {
        let i = choose|i: int|
            0 <= i < parts@.len() && is_refused(#[trigger] parts@[i]) && (fault
                == PathFault::Traversal <==> parts@[i] == PathPart::ParentDir) && forall|j: int|
                0 <= j < i ==> !is_refused(#[trigger] parts@[j]);
        assert(i == first);
        assert(fault == PathFault::Traversal || fault == PathFault::Absolute);
    }
}

/// A write that begins carries the content and the flag that it was asked for, and it
/// begins wherever the path is harmless; a path from the root, or with `..` between
/// slashes, is where it ends.
pub proof fn law_begun_write_carries_its_arguments(
    file: &str,
    content: &str,
    append: bool,
    begun: Result<ParentPending, PathFault>,
)
    requires
        call_ensures(ParentPending::write_memory, (file, content, append), begun),
    ensures
        begun matches Ok(state) ==> state.content@ == content@ && state.append == append,
        file@.len() > 0 && file@[0] == '/' ==> begun == Err::<ParentPending, PathFault>(
            PathFault::Absolute,
        ),
        (exists|i: int|
            0 <= i && i + 2 <= file@.len() && #[trigger] file@[i] == '.' && file@[i + 1] == '.' && (i
                == 0 || file@[i - 1] == '/') && (i + 2 == file@.len() || file@[i + 2] == '/'))
            ==> begun is Err,
        (file@.len() > 0 ==> file@[0] != '/' && file@[0] != '\\') && (file@.len() > 1 ==> file@[1]
            != ':') && (forall|i: int|
            0 <= i && i + 2 <= file@.len() && #[trigger] file@[i] == '.' && file@[i + 1] == '.' ==> {
                ||| i > 0 && file@[i - 1] != '/' && file@[i - 1] != '\\'
                ||| i + 2 < file@.len() && file@[i + 2] != '/' && file@[i + 2] != '\\'
            }) ==> begun is Ok,
{
}

/// Where nothing fails, a write ends with storing what `written` says. `existing`
/// is what the file holds, if it is there, and `merged` the state that reading it
/// leads to.
pub proof fn law_write_stores_what_is_written(
    begun: ParentPending,
    existing: Option<Seq<char>>,
    merged: StorePending,
)
    requires
        existing matches Some(text) ==> merged.content@ == appended(text, begun.content@),
    ensures
        ({
            let text = written(existing, begun.content@, begun.append);
            match begun.after_created() {
                AfterParent::Store(state) => state.content@ == text,
                AfterParent::Probe(probe) => match probe.after_probed(existing is Some) {
                    AfterProbe::Store(state) => state.content@ == text,
                    AfterProbe::Read(read) => read.content == begun.content && merged.content@
                        == text,
                },
            }
        }),
{
}

/// Appending keeps what was there but for the white space at its end, and the new
/// content whole.
pub proof fn law_appending_keeps_both(existing: Seq<char>, content: Seq<char>)
    ensures
        trimmed_end(existing).is_prefix_of(appended(existing, content)),
        content.is_suffix_of(appended(existing, content)),
        trimmed_end(existing).is_prefix_of(existing),
        forall|i: int|
            trimmed_end(existing).len() <= i < existing.len() ==> is_white_space(existing[i]),
{
    lemma_trimmed_end_is_prefix(existing);
    let text = appended(existing, content);
    assert(trimmed_end(existing) =~= text.take(trimmed_end(existing).len() as int));
    assert(content =~= text.skip(text.len() - content.len()));
}

/// Entries build up: appending once more leaves the earlier entries in place, the
/// last of them without the white space at its end. An entry of white space alone
/// leaves no trace.
pub proof fn law_entries_build_up(existing: Seq<char>, entry: Seq<char>, content: Seq<char>)
    ensures
        appended(appended(existing, entry), content) == if trimmed_end(entry).len() > 0 {
            trimmed_end(existing) + seq!['\n', '\n'] + trimmed_end(entry) + seq!['\n', '\n'] + content
        } else {
            appended(existing, content)
        },
{
    let head = trimmed_end(existing) + seq!['\n', '\n'];
    lemma_trimmed_end_add(head, entry);
    if trimmed_end(entry).len() == 0 {
        let kept = trimmed_end(existing);
        lemma_trimmed_end_twice(existing);
        assert(head.drop_last() =~= kept.push('\n'));
        assert(head.drop_last().drop_last() =~= kept);
        reveal_with_fuel(trimmed_end, 3);
        assert(trimmed_end(head) == kept);
    }
}

proof fn lemma_trimmed_end_is_prefix(text: Seq<char>)
    ensures
        trimmed_end(text).len() <= text.len(),
        trimmed_end(text) == text.take(trimmed_end(text).len() as int),
        forall|i: int| trimmed_end(text).len() <= i < text.len() ==> is_white_space(text[i]),
    decreases text.len(),
{
    if text.len() > 0 && is_white_space(text.last()) {
        let rest = text.drop_last();
        lemma_trimmed_end_is_prefix(rest);
        assert forall|i: int| trimmed_end(text).len() <= i < text.len() implies is_white_space(
            text[i],
        ) by {
            if i < rest.len() {
                assert(is_white_space(rest[i]));
            }
        }
        assert(rest.take(trimmed_end(text).len() as int) =~= text.take(
            trimmed_end(text).len() as int,
        ));
    } else {
        assert(text =~= text.take(text.len() as int));
    }
}

proof fn lemma_trimmed_end_stops(text: Seq<char>)
    ensures
        trimmed_end(text).len() > 0 ==> !is_white_space(trimmed_end(text).last()),
    decreases text.len(),
{
    if text.len() > 0 && is_white_space(text.last()) {
        lemma_trimmed_end_stops(text.drop_last());
    }
}

proof fn lemma_trimmed_end_twice(text: Seq<char>)
    ensures
        trimmed_end(trimmed_end(text)) == trimmed_end(text),
    decreases text.len(),
{
    if text.len() > 0 && is_white_space(text.last()) {
        lemma_trimmed_end_twice(text.drop_last());
    }
}

proof fn lemma_trimmed_end_add(head: Seq<char>, tail: Seq<char>)
    ensures
        trimmed_end(head + tail) == if trimmed_end(tail).len() > 0 {
            head + trimmed_end(tail)
        } else {
            trimmed_end(head)
        },
    decreases tail.len(),
{
    if tail.len() == 0 {
        assert(head + tail =~= head);
    } else {
        assert((head + tail).last() == tail.last());
        assert((head + tail).drop_last() =~= head + tail.drop_last());
        lemma_trimmed_end_add(head, tail.drop_last());
    }
}

} // verus!
