//! The content classifier: decides for each archive entry whether its bytes
//! are kept, computes the version-control blob digest of the bytes, counts
//! line terminators, and normalizes the destination path.

use vstd::prelude::*;

use crate::text::{
    ascii_bytes, ascii_of, clone_bytes, count_byte, count_byte_occurrences, ends_with,
    extend_bytes, has_prefix, has_suffix, matches_at, replace_all, replace_bytes, starts_with,
    take_prefix,
};

verus! {

pub const KB: usize = 1024;

pub const MB: usize = 1024 * KB;

/// Entries destined for a path with the primary source extension are kept up
/// to this many bytes.
pub const MAX_PYTHON_SIZE: usize = 5 * MB;

/// Entries destined for any other path are kept up to this many bytes.
pub const MAX_NON_PYTHON_SIZE: usize = 200 * KB;

/// An entry of at least this size with almost no line breaks is treated as a
/// packed or obfuscated payload.
pub const LONG_LINES_SIZE: usize = 50 * KB;

/// An entry with fewer than this many line terminators falls under the
/// long-lines heuristic.
pub const LONG_LINES_MIN_TERMINATORS: usize = 5;

/// Why an entry's bytes were not persisted.
#[derive(Copy, Clone, Debug, PartialEq, Eq, Structural)]
pub enum SkipReason {
    Binary,
    LongLines,
    TooLarge,
    Empty,
    VersionControlSystem,
    Venv,
}

impl SkipReason {
    /// The stable textual label recorded for this reason.
    pub fn label(&self) -> (r: &'static str)
        ensures
            r@ == match *self {
                SkipReason::Binary => "binary"@,
                SkipReason::LongLines => "text-long-lines"@,
                SkipReason::TooLarge => "too-large"@,
                SkipReason::Empty => "empty"@,
                SkipReason::VersionControlSystem => "version-control"@,
                SkipReason::Venv => "virtualenv"@,
            },
    {
        match *self {
            SkipReason::Binary => "binary",
            SkipReason::LongLines => "text-long-lines",
            SkipReason::TooLarge => "too-large",
            SkipReason::Empty => "empty",
            SkipReason::VersionControlSystem => "version-control",
            SkipReason::Venv => "virtualenv",
        }
    }
}

/// The classifier's verdict on one archive entry.
#[allow(inconsistent_fields)]
pub enum Content {
    Skip {
        path: Vec<u8>,
        archive_path: Vec<u8>,
        hash: Vec<u8>,
        reason: SkipReason,
        lines: Option<usize>,
    },
    Add {
        path: Vec<u8>,
        archive_path: Vec<u8>,
        hash: Vec<u8>,
        lines: usize,
        contents: Vec<u8>,
    },
}

impl Content {
    /// The normalized destination path of the verdict.
    pub open spec fn spec_path(self) -> Seq<u8> {
        match self {
            Content::Skip { path, .. } => path@,
            Content::Add { path, .. } => path@,
        }
    }

    /// The original path inside the archive.
    pub open spec fn spec_archive_path(self) -> Seq<u8> {
        match self {
            Content::Skip { archive_path, .. } => archive_path@,
            Content::Add { archive_path, .. } => archive_path@,
        }
    }

    /// The blob digest recorded for the entry.
    pub open spec fn spec_hash(self) -> Seq<u8> {
        match self {
            Content::Skip { hash, .. } => hash@,
            Content::Add { hash, .. } => hash@,
        }
    }

    /// The skip reason, or `None` for a kept entry.
    pub open spec fn spec_reason(self) -> Option<SkipReason> {
        match self {
            Content::Skip { reason, .. } => Some(reason),
            Content::Add { .. } => None,
        }
    }

    /// The recorded count of line terminators, absent when the content was
    /// never scanned as text.
    pub open spec fn spec_lines(self) -> Option<nat> {
        match self {
            Content::Skip { lines: Some(l), .. } => Some(l as nat),
            Content::Skip { lines: None, .. } => None,
            Content::Add { lines, .. } => Some(lines as nat),
        }
    }

    /// The bytes retained for a kept entry.
    pub open spec fn spec_kept(self) -> Option<Seq<u8>> {
        match self {
            Content::Skip { .. } => None,
            Content::Add { contents, .. } => Some(contents@),
        }
    }
}

/// What the binary sniffer decides for a buffer.  The sniffer inspects at
/// most the first `KB` bytes of an entry; callers pass exactly that prefix.
pub uninterp spec fn sniffed_binary(prefix: Seq<u8>) -> bool;

/// The 20-byte version-control blob identifier of a buffer: the digest of
/// `"blob " + decimal(len) + NUL + bytes`, as the version-control tool
/// computes it for a blob object.
pub uninterp spec fn blob_digest(data: Seq<u8>) -> Seq<u8>;

/// Whether the version-control library computes a digest for a buffer.  The
/// library's collision-detecting digest refuses exactly the buffers that
/// carry a detected collision pattern, a pure function of the bytes.
pub uninterp spec fn blob_digest_ok(data: Seq<u8>) -> bool;

/// Relies on `content_inspector::inspect`: a pure function of the bytes it
/// is given, used here to decide whether a buffer holds binary content.  An
/// empty buffer is reported as text, which its documentation states.
#[verifier::external_body]
fn inspect_is_binary(prefix: &Vec<u8>) -> (r: bool)
    ensures
        r == sniffed_binary(prefix@),
        prefix@.len() == 0 ==> !r,
{
    content_inspector::inspect(prefix.as_slice()) == content_inspector::ContentType::BINARY
}

/// Relies on `git2::Oid::hash_object` with the blob object type: it returns
/// the 20-byte object id that the version-control tool assigns to the bytes,
/// a pure function of the buffer; it fails exactly when the underlying
/// collision-detecting digest refuses the buffer.
#[verifier::external_body]
fn git_blob_oid(data: &Vec<u8>) -> (r: Option<Vec<u8>>)
    ensures
        r matches Some(h) ==> h@ == blob_digest(data@) && h@.len() == 20,
        r is Some <==> blob_digest_ok(data@),
{
    match git2::Oid::hash_object(git2::ObjectType::Blob, data.as_slice()) {
        Ok(oid) => Some(oid.as_bytes().to_vec()),
        Err(_) => None,
    }
}

/// The prefix of a buffer that the binary sniffer inspects.
pub open spec fn sniff_prefix(data: Seq<u8>) -> Seq<u8> {
    if data.len() <= KB {
        data
    } else {
        data.take(KB as int)
    }
}

/// The number of line terminators in a buffer.
pub open spec fn newline_count(data: Seq<u8>) -> nat {
    count_byte(data, 10)
}

/// Whether `d` occurs in `path` as a directory segment: at the start of the
/// path or right after a separator.
pub open spec fn occurs_as_dir(path: Seq<u8>, d: Seq<u8>) -> bool {
    exists|i: int| matches_at(path, d, i) && (i == 0 || path[i - 1] == 47)
}

/// Whether the path lies under version-control metadata directories.
pub open spec fn vcs_path(path: Seq<u8>) -> bool {
    ||| occurs_as_dir(path, ascii_of(".git/"))
    ||| occurs_as_dir(path, ascii_of(".hg/"))
    ||| occurs_as_dir(path, ascii_of(".svn/"))
}

/// Whether the path lies under a virtual-environment or vendored-dependency
/// directory.
pub open spec fn venv_path(path: Seq<u8>) -> bool {
    ||| occurs_as_dir(path, ascii_of(".venv/"))
    ||| occurs_as_dir(path, ascii_of("venv/"))
    ||| occurs_as_dir(path, ascii_of("site-packages/"))
}

/// Whether the destination path carries the primary source extension.
pub open spec fn python_path(path: Seq<u8>) -> bool {
    ends_with(path, ascii_of(".py"))
}

/// The normalized destination path: the package prefix is prepended, newline
/// bytes in the archive path become a literal placeholder, doubled
/// separators collapse, a trailing version-control metadata name is renamed,
/// and `./` segments are stripped.
pub open spec fn normalize_path(prefix: Seq<u8>, archive_path: Seq<u8>) -> Seq<u8> {
    let joined = prefix + replace_all(archive_path, seq![10u8], ascii_of("_newline"));
    let collapsed = replace_all(joined, ascii_of("//"), ascii_of("/"));
    let renamed = if ends_with(collapsed, ascii_of(".git")) {
        collapsed + seq![95u8]
    } else {
        collapsed
    };
    replace_all(renamed, ascii_of("./"), Seq::empty())
}

/// The classifier's verdict for a buffer, its declared size and its
/// normalized destination path: `None` when the entry is kept, otherwise the
/// reason it is skipped.  The gates short-circuit in this order.
pub open spec fn skip_verdict(data: Seq<u8>, size: nat, path: Seq<u8>) -> Option<SkipReason> {
    if sniffed_binary(sniff_prefix(data)) {
        Some(SkipReason::Binary)
    } else if size == 0 {
        Some(SkipReason::Empty)
    } else if starts_with(data, ascii_of("__pyarmor")) {
        Some(SkipReason::Binary)
    } else if starts_with(data, ascii_of("version https://git-lfs")) {
        Some(SkipReason::VersionControlSystem)
    } else if python_path(path) && !(1 <= size <= MAX_PYTHON_SIZE) {
        Some(SkipReason::TooLarge)
    } else if !python_path(path) && !(1 <= size <= MAX_NON_PYTHON_SIZE) {
        Some(SkipReason::TooLarge)
    } else if vcs_path(path) {
        Some(SkipReason::VersionControlSystem)
    } else if venv_path(path) {
        Some(SkipReason::Venv)
    } else if newline_count(data) < LONG_LINES_MIN_TERMINATORS && size >= LONG_LINES_SIZE {
        Some(SkipReason::LongLines)
    } else {
        None
    }
}

/// The line count the classifier records: absent for sniffed binary content,
/// zero for an empty entry, otherwise the number of line terminators.
pub open spec fn lines_verdict(data: Seq<u8>, size: nat) -> Option<nat> {
    if sniffed_binary(sniff_prefix(data)) {
        None
    } else if size == 0 {
        Some(0)
    } else {
        Some(newline_count(data))
    }
}

/// The full relation between the classifier's inputs and its verdict.
pub open spec fn classified(
    size: nat,
    data: Seq<u8>,
    archive_path: Seq<u8>,
    prefix: Seq<u8>,
    hash: Seq<u8>,
    r: Content,
) -> bool {
    let path = normalize_path(prefix, archive_path);
    &&& r.spec_path() == path
    &&& r.spec_archive_path() == archive_path
    &&& r.spec_hash() == hash
    &&& r.spec_reason() == skip_verdict(data, size, path)
    &&& r.spec_lines() == lines_verdict(data, size)
    &&& r.spec_kept() == if skip_verdict(data, size, path) is None {
        Some(data)
    } else {
        None::<Seq<u8>>
    }
}

/// Normalizes an archive path into its destination path.
pub fn normalize_entry_path(prefix: &Vec<u8>, archive_path: &Vec<u8>) -> (r: Vec<u8>)
    ensures
        r@ == normalize_path(prefix@, archive_path@),
{
    proof {
        reveal_strlit("_newline");
        reveal_strlit("//");
        reveal_strlit("/");
        reveal_strlit(".git");
        reveal_strlit("./");
    }
    let newline: Vec<u8> = vec![10u8];
    proof {
        assert(newline@ =~= seq![10u8]);
    }
    let placeholder = ascii_bytes("_newline");
    let replaced = replace_bytes(archive_path, &newline, &placeholder);
    let mut joined = clone_bytes(prefix);
    extend_bytes(&mut joined, &replaced);
    let double = ascii_bytes("//");
    let single = ascii_bytes("/");
    let mut path = replace_bytes(&joined, &double, &single);
    let ghost collapsed = path@;
    let git_tail = ascii_bytes(".git");
    if has_suffix(&path, &git_tail) {
        path.push(95);
        proof {
            assert(path@ =~= collapsed + seq![95u8]);
        }
    }
    let dot_slash = ascii_bytes("./");
    let empty: Vec<u8> = Vec::new();
    proof {
        assert(empty@ =~= Seq::<u8>::empty());
    }
    let r = replace_bytes(&path, &dot_slash, &empty);
    r
}

/// Whether `d` occurs in `path` at the start or right after a separator.
fn find_dir_marker(path: &Vec<u8>, d: &Vec<u8>) -> (r: bool)
    requires
        d@.len() > 0,
    ensures
        r == occurs_as_dir(path@, d@),
{
    if d.len() > path.len() {
        assert(forall|i: int| !matches_at(path@, d@, i));
        return false;
    }
    let last = path.len() - d.len();
    let mut i: usize = 0;
    while i <= last
        invariant_except_break
            d.len() > 0,
            d.len() <= path.len(),
            last == path.len() - d.len(),
            i <= last + 1,
            forall|k: int|
                0 <= k < i ==> !(matches_at(path@, d@, k) && (k == 0 || path@[k - 1] == 47)),
        ensures
            forall|k: int|
                0 <= k <= last ==> !(matches_at(path@, d@, k) && (k == 0 || path@[k - 1] == 47)),
        decreases last + 1 - i,
    {
        if i == 0 || path[i - 1] == 47 {
            if crate::text::window_eq(path, d, i) {
                assert(matches_at(path@, d@, i as int));
                return true;
            }
        }
        if i == last {
            break ;
        }
        i += 1;
    }
    assert(forall|k: int| matches_at(path@, d@, k) ==> 0 <= k <= last);
    false
}

/// Classifies one entry whose blob digest has already been computed: applies
/// every gate in order and returns the verdict record.
pub fn classify_with_hash(
    size: usize,
    data: Vec<u8>,
    archive_path: Vec<u8>,
    prefix: &Vec<u8>,
    hash: Vec<u8>,
) -> (r: Content)
    ensures
        classified(size as nat, data@, archive_path@, prefix@, hash@, r),
        size == 0 && data@.len() == 0 ==> r.spec_reason() == Some(SkipReason::Empty)
            && r.spec_lines() == Some(0nat),
{
    let path = normalize_entry_path(prefix, &archive_path);
    let sniffed = take_prefix(&data, KB);
    proof {
        assert(sniffed@ == sniff_prefix(data@));
    }
    if inspect_is_binary(&sniffed) {
        return Content::Skip {
            path,
            archive_path,
            hash,
            reason: SkipReason::Binary,
            lines: None,
        };
    }
    if size == 0 {
        return Content::Skip {
            path,
            archive_path,
            hash,
            reason: SkipReason::Empty,
            lines: Some(0),
        };
    }
    let lines = count_byte_occurrences(&data, 10);
    proof {
        reveal_strlit("__pyarmor");
        reveal_strlit("version https://git-lfs");
        reveal_strlit(".py");
        reveal_strlit(".git/");
        reveal_strlit(".hg/");
        reveal_strlit(".svn/");
        reveal_strlit(".venv/");
        reveal_strlit("venv/");
        reveal_strlit("site-packages/");
    }
    let pyarmor = ascii_bytes("__pyarmor");
    if has_prefix(&data, &pyarmor) {
        return Content::Skip {
            path,
            archive_path,
            hash,
            reason: SkipReason::Binary,
            lines: Some(lines),
        };
    }
    let lfs = ascii_bytes("version https://git-lfs");
    if has_prefix(&data, &lfs) {
        return Content::Skip {
            path,
            archive_path,
            hash,
            reason: SkipReason::VersionControlSystem,
            lines: Some(lines),
        };
    }
    let py = ascii_bytes(".py");
    if has_suffix(&path, &py) {
        if !(1 <= size && size <= MAX_PYTHON_SIZE) {
            return Content::Skip {
                path,
                archive_path,
                hash,
                reason: SkipReason::TooLarge,
                lines: Some(lines),
            };
        }
    } else if !(1 <= size && size <= MAX_NON_PYTHON_SIZE) {
        return Content::Skip {
            path,
            archive_path,
            hash,
            reason: SkipReason::TooLarge,
            lines: Some(lines),
        };
    }
    let git_dir = ascii_bytes(".git/");
    let hg_dir = ascii_bytes(".hg/");
    let svn_dir = ascii_bytes(".svn/");
    if find_dir_marker(&path, &git_dir) || find_dir_marker(&path, &hg_dir) || find_dir_marker(
        &path,
        &svn_dir,
    ) {
        return Content::Skip {
            path,
            archive_path,
            hash,
            reason: SkipReason::VersionControlSystem,
            lines: Some(lines),
        };
    }
    let dot_venv_dir = ascii_bytes(".venv/");
    let venv_dir = ascii_bytes("venv/");
    let site_packages_dir = ascii_bytes("site-packages/");
    if find_dir_marker(&path, &dot_venv_dir) || find_dir_marker(&path, &venv_dir)
        || find_dir_marker(&path, &site_packages_dir) {
        return Content::Skip {
            path,
            archive_path,
            hash,
            reason: SkipReason::Venv,
            lines: Some(lines),
        };
    }
    if lines < LONG_LINES_MIN_TERMINATORS && size >= LONG_LINES_SIZE {
        return Content::Skip {
            path,
            archive_path,
            hash,
            reason: SkipReason::LongLines,
            lines: Some(lines),
        };
    }
    Content::Add { path, archive_path, hash, lines, contents: data }
}

/// The binary sniff is deterministic and depends only on the first `KB`
/// bytes of a buffer, or on the whole buffer when it is shorter: two buffers
/// that agree on that prefix are sniffed identically, whatever their
/// remaining bytes, declared sizes or destination paths; and a buffer the
/// sniffer calls binary is always skipped as `Binary`, before any other
/// gate.
pub proof fn lemma_binary_sniff_depends_only_on_prefix(
    data1: Seq<u8>,
    data2: Seq<u8>,
    size1: nat,
    size2: nat,
    path1: Seq<u8>,
    path2: Seq<u8>,
)
    requires
        sniff_prefix(data1) == sniff_prefix(data2),
    ensures
        sniffed_binary(sniff_prefix(data1)) <==> sniffed_binary(sniff_prefix(data2)),
        sniffed_binary(sniff_prefix(data1)) ==> skip_verdict(data1, size1, path1) == Some(
            SkipReason::Binary,
        ) && skip_verdict(data2, size2, path2) == Some(SkipReason::Binary),
{
}

/// A path under a version-control metadata directory is skipped as
/// `VersionControlSystem`, and a path under a virtual-environment directory
/// as `Venv`, by the path alone: the conclusions mention no byte of the
/// content.  The gates before the path gates must pass, which is what the
/// preconditions say: content the sniffer calls binary, an empty entry, a
/// marker prefix or an oversized entry is skipped earlier, for its own
/// reason.
pub proof fn lemma_path_gates_decide(data: Seq<u8>, size: nat, path: Seq<u8>)
    requires
        !sniffed_binary(sniff_prefix(data)),
        size != 0,
        !starts_with(data, ascii_of("__pyarmor")),
        !starts_with(data, ascii_of("version https://git-lfs")),
        python_path(path) ==> size <= MAX_PYTHON_SIZE,
        !python_path(path) ==> size <= MAX_NON_PYTHON_SIZE,
    ensures
        vcs_path(path) ==> skip_verdict(data, size, path) == Some(
            SkipReason::VersionControlSystem,
        ),
        !vcs_path(path) && venv_path(path) ==> skip_verdict(data, size, path) == Some(
            SkipReason::Venv,
        ),
{
}

/// A destination path that mentions `/.venv/site-packages/` anywhere is
/// skipped as `Venv`, whatever the content and whatever the declared size
/// within the extension's ceiling.  The preconditions exclude exactly the
/// gates that fire earlier: sniffed binary content, an empty entry, marker
/// prefixes, an oversized entry, and a version-control path.
pub proof fn lemma_venv_segment_decides(data: Seq<u8>, size: nat, path: Seq<u8>)
    requires
        !sniffed_binary(sniff_prefix(data)),
        size != 0,
        !starts_with(data, ascii_of("__pyarmor")),
        !starts_with(data, ascii_of("version https://git-lfs")),
        python_path(path) ==> size <= MAX_PYTHON_SIZE,
        !python_path(path) ==> size <= MAX_NON_PYTHON_SIZE,
        !vcs_path(path),
        crate::text::contains_seq(path, ascii_of("/.venv/site-packages/")),
    ensures
        venv_path(path),
        skip_verdict(data, size, path) == Some(SkipReason::Venv),
{
    reveal_strlit("/.venv/site-packages/");
    reveal_strlit(".venv/");
    let segment = ascii_of("/.venv/site-packages/");
    let marker = ascii_of(".venv/");
    let i = choose|i: int| matches_at(path, segment, i);
    assert(path.subrange(i, i + 21) == segment);
    assert(path[i] == 47) by {
        assert(path.subrange(i, i + 21)[0] == path[i]);
    }
    assert(matches_at(path, marker, i + 1)) by {
        assert(path.subrange(i + 1, i + 7) =~= marker) by {
            assert(forall|k: int|
                0 <= k < 6 ==> #[trigger] (path.subrange(i + 1, i + 7)[k]) == path.subrange(
                    i,
                    i + 21,
                )[k + 1]);
        }
    }
    assert(occurs_as_dir(path, marker)) by {
        assert(matches_at(path, marker, i + 1) && (i + 1 == 0 || path[i + 1 - 1] == 47));
    }
}

/// The size gate: an entry destined for a primary-source path is never
/// skipped for size when its declared size lies in `[1, MAX_PYTHON_SIZE]`,
/// and always is when the size is zero (as `Empty`) or above the ceiling (as
/// `TooLarge`); for any other destination the ceiling is
/// `MAX_NON_PYTHON_SIZE`.  The preconditions exclude only the gates that
/// fire before the size gate.
pub proof fn lemma_size_gate(data: Seq<u8>, size: nat, path: Seq<u8>)
    requires
        !sniffed_binary(sniff_prefix(data)),
        !starts_with(data, ascii_of("__pyarmor")),
        !starts_with(data, ascii_of("version https://git-lfs")),
    ensures
        size == 0 ==> skip_verdict(data, size, path) == Some(SkipReason::Empty),
        python_path(path) && 1 <= size <= MAX_PYTHON_SIZE ==> skip_verdict(data, size, path)
            != Some(SkipReason::TooLarge) && skip_verdict(data, size, path) != Some(
            SkipReason::Empty,
        ),
        python_path(path) && size > MAX_PYTHON_SIZE ==> skip_verdict(data, size, path) == Some(
            SkipReason::TooLarge,
        ),
        !python_path(path) && 1 <= size <= MAX_NON_PYTHON_SIZE ==> skip_verdict(data, size, path)
            != Some(SkipReason::TooLarge) && skip_verdict(data, size, path) != Some(
            SkipReason::Empty,
        ),
        !python_path(path) && size > MAX_NON_PYTHON_SIZE ==> skip_verdict(data, size, path)
            == Some(SkipReason::TooLarge),
{
}

/// The long-lines heuristic: a buffer with fewer than
/// `LONG_LINES_MIN_TERMINATORS` line terminators whose declared size is at
/// least `LONG_LINES_SIZE` is skipped as `LongLines`, whatever its
/// extension.  The preconditions exclude only the gates that fire earlier:
/// sniffed binary content, marker prefixes, an entry outside its size
/// ceiling, and version-control or virtual-environment paths.
pub proof fn lemma_long_lines_gate(data: Seq<u8>, size: nat, path: Seq<u8>)
    requires
        !sniffed_binary(sniff_prefix(data)),
        !starts_with(data, ascii_of("__pyarmor")),
        !starts_with(data, ascii_of("version https://git-lfs")),
        python_path(path) ==> size <= MAX_PYTHON_SIZE,
        !python_path(path) ==> size <= MAX_NON_PYTHON_SIZE,
        !vcs_path(path),
        !venv_path(path),
        newline_count(data) < LONG_LINES_MIN_TERMINATORS,
        size >= LONG_LINES_SIZE,
    ensures
        skip_verdict(data, size, path) == Some(SkipReason::LongLines),
{
}

/// Classifies one archive entry: computes the blob digest over the complete
/// buffer, then applies the gates.  Fails exactly when the digest refuses
/// the buffer.
pub fn get_contents(size: usize, data: Vec<u8>, archive_path: Vec<u8>, prefix: &Vec<u8>) -> (r:
    Result<Content, crate::archive::ExtractionError>)
    ensures
        r is Ok <==> blob_digest_ok(data@),
        r matches Ok(c) ==> classified(
            size as nat,
            data@,
            archive_path@,
            prefix@,
            blob_digest(data@),
            c,
        ) && c.spec_hash().len() == 20,
        r matches Ok(c) ==> (size == 0 && data@.len() == 0 ==> c.spec_reason() == Some(
            SkipReason::Empty,
        ) && c.spec_lines() == Some(0nat)),
        r matches Err(e) ==> e == crate::archive::ExtractionError::IOError,
{
    let hash = match git_blob_oid(&data) {
        Some(h) => h,
        None => {
            return Err(crate::archive::ExtractionError::IOError);
        },
    };
    Ok(classify_with_hash(size, data, archive_path, prefix, hash))
}

} // verus!
