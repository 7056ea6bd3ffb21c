//! The package extractor and pipeline: pulls the entries out of a package
//! archive, classifies each one, and emits the kept files through the
//! fast-import writer as one commit for the package.

use vstd::prelude::*;

use crate::archive::{ArchiveItem, ArchiveItemModel, ArchiveType, ExtractionError, RawEntry,
    RawEntryModel};
use crate::content::{blob_digest, blob_digest_ok, get_contents, lines_verdict, normalize_path,
    skip_verdict, Content};
use crate::data::{IndexItem, IndexItemModel};
use crate::text::clone_bytes;

verus! {

/// Why one package could not be processed.  A `Missing` archive is a soft
/// outcome: the package stays unprocessed and is retried in a later run.
#[allow(inconsistent_fields)]
#[derive(Debug)]
pub enum DownloadError {
    Missing,
    UnexpectedStatus(u16),
    TransportError,
    WriteError,
    UnknownArchive(Vec<u8>),
    ExtractionError(ExtractionError),
    PanicError,
}

/// How a failed archive fetch is classified: a 404 means the package is
/// missing from the index, a soft outcome; any other status is unexpected.
pub fn classify_status(status: u16) -> (r: DownloadError)
    ensures
        status == 404 ==> r is Missing,
        status != 404 ==> (r matches DownloadError::UnexpectedStatus(s) && s == status),
{
    if status == 404 {
        DownloadError::Missing
    } else {
        DownloadError::UnexpectedStatus(status)
    }
}

/// The position of the last `.` in `name`, or `-1` when there is none.
pub open spec fn last_dot_index(name: Seq<u8>) -> int
    decreases name.len(),
{
    if name.len() == 0 {
        -1
    } else if name.last() == 46 {
        name.len() - 1
    } else {
        last_dot_index(name.drop_last())
    }
}

/// The extension of a file name: what follows the last `.`, provided that
/// dot is not the leading byte.
pub open spec fn extension_of(name: Seq<u8>) -> Option<Seq<u8>> {
    let j = last_dot_index(name);
    if j >= 1 {
        Some(name.skip(j + 1))
    } else {
        None
    }
}

/// The extension of a file name held as bytes.
pub fn extension_bytes(name: &Vec<u8>) -> (r: Option<Vec<u8>>)
    ensures
        r matches Some(v) ==> extension_of(name@) == Some(v@),
        r is None ==> extension_of(name@) is None,
{
    let mut dot: Option<usize> = None;
    let mut i: usize = 0;
    while i < name.len()
        invariant
            i <= name@.len(),
            match dot {
                None => last_dot_index(name@.take(i as int)) == -1,
                Some(d) => d < i && last_dot_index(name@.take(i as int)) == d,
            },
        decreases name@.len() - i,
    {
        proof {
            assert(name@.take(i + 1).drop_last() =~= name@.take(i as int));
            assert(name@.take(i + 1).last() == name@[i as int]);
        }
        if name[i] == 46 {
            dot = Some(i);
        }
        i += 1;
    }
    proof {
        assert(name@.take(name@.len() as int) =~= name@);
    }
    match dot {
        Some(j) if j >= 1 => {
            let start = j + 1;
            let mut out: Vec<u8> = Vec::new();
            let mut k: usize = start;
            while k < name.len()
                invariant
                    start <= k <= name@.len(),
                    out@ == name@.subrange(start as int, k as int),
                decreases name@.len() - k,
            {
                out.push(name[k]);
                proof {
                    assert(out@ =~= name@.subrange(start as int, k + 1));
                }
                k += 1;
            }
            proof {
                assert(out@ =~= name@.skip(j + 1));
            }
            Some(out)
        },
        _ => None,
    }
}

/// What the `zip` crate finds in a zip archive: `Some` of the entries in
/// index order — file flag, raw path, declared size, bytes — or `None` when
/// the container or an entry is malformed.  A pure function of the archive
/// bytes.
pub uninterp spec fn zip_entries_of(data: Seq<u8>) -> Option<Seq<RawEntryModel>>;

/// What the `tar` and `flate2` crates find in a gzip-compressed tar
/// archive, as `zip_entries_of`.
pub uninterp spec fn tar_gz_entries_of(data: Seq<u8>) -> Option<Seq<RawEntryModel>>;

/// What the `tar` and `bzip2` crates find in a bzip2-compressed tar
/// archive, as `zip_entries_of`.
pub uninterp spec fn tar_bz_entries_of(data: Seq<u8>) -> Option<Seq<RawEntryModel>>;

/// Relies on `zip::ZipArchive::{new, len, by_index}` and
/// `Read::read_to_end`: lists every entry of the archive in index order,
/// with its file flag, raw path, declared size and bytes; fails when the
/// container or an entry is malformed.
#[verifier::external_body]
fn zip_entries(data: &Vec<u8>) -> (r: Result<Vec<RawEntry>, ExtractionError>)
    ensures
        r matches Ok(v) ==> zip_entries_of(data@) == Some(v.deep_view()),
        r matches Err(e) ==> zip_entries_of(data@) is None && e == ExtractionError::ZipError,
{
    let cursor = std::io::Cursor::new(data.as_slice());
    let mut archive = zip::ZipArchive::new(cursor).map_err(|_| ExtractionError::ZipError)?;
    let mut out: Vec<RawEntry> = Vec::new();
    for i in 0..archive.len() {
        let mut f = archive.by_index(i).map_err(|_| ExtractionError::ZipError)?;
        let mut bytes: Vec<u8> = Vec::new();
        std::io::Read::read_to_end(&mut f, &mut bytes).map_err(|_| ExtractionError::ZipError)?;
        out.push(RawEntry { is_file: f.is_file(), path: f.name_raw().to_vec(), size: f.size(), data: bytes });
    }
    Ok(out)
}

/// Relies on `tar::Archive::entries`, `tar::Entry::{path_bytes, size,
/// header}` and `flate2::read::GzDecoder`: lists every entry of the
/// gzip-compressed tar archive in order; fails when the container or an
/// entry is malformed.
#[verifier::external_body]
fn tar_gz_entries(data: &Vec<u8>) -> (r: Result<Vec<RawEntry>, ExtractionError>)
    ensures
        r matches Ok(v) ==> tar_gz_entries_of(data@) == Some(v.deep_view()),
        r matches Err(e) ==> tar_gz_entries_of(data@) is None && e == ExtractionError::IOError,
{
    let mut archive = tar::Archive::new(flate2::read::GzDecoder::new(data.as_slice()));
    let entries = archive.entries().map_err(|_| ExtractionError::IOError)?;
    let mut out: Vec<RawEntry> = Vec::new();
    for entry in entries {
        let mut e = entry.map_err(|_| ExtractionError::IOError)?;
        let (path, size) = (e.path_bytes().to_vec(), e.size());
        let is_file = e.header().entry_type().is_file();
        let mut bytes: Vec<u8> = Vec::new();
        std::io::Read::read_to_end(&mut e, &mut bytes).map_err(|_| ExtractionError::IOError)?;
        out.push(RawEntry { is_file, path, size, data: bytes });
    }
    Ok(out)
}

/// Relies on `tar::Archive::entries`, `tar::Entry::{path_bytes, size,
/// header}` and `bzip2::read::BzDecoder`: lists every entry of the
/// bzip2-compressed tar archive in order; fails when the container or an
/// entry is malformed.
#[verifier::external_body]
fn tar_bz_entries(data: &Vec<u8>) -> (r: Result<Vec<RawEntry>, ExtractionError>)
    ensures
        r matches Ok(v) ==> tar_bz_entries_of(data@) == Some(v.deep_view()),
        r matches Err(e) ==> tar_bz_entries_of(data@) is None && e == ExtractionError::IOError,
{
    let mut archive = tar::Archive::new(bzip2::read::BzDecoder::new(data.as_slice()));
    let entries = archive.entries().map_err(|_| ExtractionError::IOError)?;
    let mut out: Vec<RawEntry> = Vec::new();
    for entry in entries {
        let mut e = entry.map_err(|_| ExtractionError::IOError)?;
        let (path, size) = (e.path_bytes().to_vec(), e.size());
        let is_file = e.header().entry_type().is_file();
        let mut bytes: Vec<u8> = Vec::new();
        std::io::Read::read_to_end(&mut e, &mut bytes).map_err(|_| ExtractionError::IOError)?;
        out.push(RawEntry { is_file, path, size, data: bytes });
    }
    Ok(out)
}

/// The entries a container of the given format holds, or `None` when the
/// archive is malformed.  An `exe` installer carries a zip container.
pub open spec fn entries_of(t: ArchiveType, data: Seq<u8>) -> Option<Seq<RawEntryModel>> {
    match t {
        ArchiveType::Zip => zip_entries_of(data),
        ArchiveType::Exe => zip_entries_of(data),
        ArchiveType::TarGz => tar_gz_entries_of(data),
        ArchiveType::TarBz => tar_bz_entries_of(data),
    }
}

/// Adapts any supported container into the uniform, forward-ordered
/// sequence of raw entries that the extractor consumes.
pub fn read_archive_entries(t: ArchiveType, data: &Vec<u8>) -> (r: Result<
    Vec<RawEntry>,
    ExtractionError,
>)
    ensures
        r matches Ok(v) ==> entries_of(t, data@) == Some(v.deep_view()),
        r is Err ==> entries_of(t, data@) is None,
{
    match t {
        ArchiveType::Zip => zip_entries(data),
        ArchiveType::Exe => zip_entries(data),
        ArchiveType::TarGz => tar_gz_entries(data),
        ArchiveType::TarBz => tar_bz_entries(data),
    }
}

/// Whether an entry never reaches the classifier: it is not a regular file,
/// or its path ends in a separator.
pub open spec fn entry_dropped(e: RawEntryModel) -> bool {
    !e.is_file || (e.path.len() > 0 && e.path.last() == 47)
}

/// Whether the digest accepts the bytes of every entry that reaches the
/// classifier.
pub open spec fn digests_ok(entries: Seq<RawEntryModel>) -> bool {
    forall|i: int|
        0 <= i < entries.len() ==> entry_dropped(#[trigger] entries[i]) || blob_digest_ok(
            entries[i].data,
        )
}

/// The outcome record the classifier produces for one entry.
pub open spec fn item_for(e: RawEntryModel, prefix: Seq<u8>) -> IndexItemModel {
    let path = normalize_path(prefix, e.path);
    let sz = (e.size as usize) as nat;
    IndexItemModel {
        path,
        archive_path: e.path,
        size: e.size,
        hash: blob_digest(e.data),
        skip_reason: skip_verdict(e.data, sz, path),
        lines: lines_verdict(e.data, sz),
    }
}

/// The kept file for one entry whose bytes are persisted.
pub open spec fn kept_for(e: RawEntryModel, prefix: Seq<u8>) -> ArchiveItemModel {
    ArchiveItemModel { path: normalize_path(prefix, e.path), size: e.size, data: e.data }
}

/// The outcome records for a sequence of entries, in order, one per entry
/// that reaches the classifier.
pub open spec fn records_of(entries: Seq<RawEntryModel>, prefix: Seq<u8>) -> Seq<IndexItemModel>
    decreases entries.len(),
{
    if entries.len() == 0 {
        Seq::empty()
    } else {
        let rest = records_of(entries.drop_last(), prefix);
        if entry_dropped(entries.last()) {
            rest
        } else {
            rest.push(item_for(entries.last(), prefix))
        }
    }
}

/// The kept files for a sequence of entries, in order: those that reach the
/// classifier and are not skipped.
pub open spec fn kept_of(entries: Seq<RawEntryModel>, prefix: Seq<u8>) -> Seq<ArchiveItemModel>
    decreases entries.len(),
{
    if entries.len() == 0 {
        Seq::empty()
    } else {
        let rest = kept_of(entries.drop_last(), prefix);
        let e = entries.last();
        if entry_dropped(e) || skip_verdict(
            e.data,
            (e.size as usize) as nat,
            normalize_path(prefix, e.path),
        ) is Some {
            rest
        } else {
            rest.push(kept_for(e, prefix))
        }
    }
}

/// Drives one package's archive through the classifier: every regular-file
/// entry becomes an outcome record, and the kept ones also yield their
/// bytes for the writer.  It succeeds exactly when the container lists its
/// entries and the digest accepts each classified entry's bytes; a
/// malformed container, a failed entry read or a refused digest aborts the
/// whole package: no partial result is returned.
pub fn extract_package(t: ArchiveType, data: &Vec<u8>, prefix: &Vec<u8>) -> (r: Result<
    (Vec<IndexItem>, Vec<ArchiveItem>),
    ExtractionError,
>)
    ensures
        r is Ok <==> (entries_of(t, data@) matches Some(es) && digests_ok(es)),
        r matches Ok(p) ==> entries_of(t, data@) matches Some(es) && p.0.deep_view() == records_of(
            es,
            prefix@,
        ) && p.1.deep_view() == kept_of(es, prefix@),
        r matches Err(e) ==> (entries_of(t, data@) is None || e == ExtractionError::IOError),
{
    let entries = match read_archive_entries(t, data) {
        Ok(v) => v,
        Err(e) => {
            return Err(e);
        },
    };
    let ghost es = entries.deep_view();
    let mut remaining = entries;
    let mut items: Vec<IndexItem> = Vec::new();
    let mut kept: Vec<ArchiveItem> = Vec::new();
    let ghost total = es.len();
    proof {
        assert(remaining.deep_view() =~= es.skip(0));
        assert(es.take(0) =~= Seq::<RawEntryModel>::empty());
        assert(items.deep_view() =~= records_of(es.take(0), prefix@));
        assert(kept.deep_view() =~= kept_of(es.take(0), prefix@));
    }
    while remaining.len() > 0
        invariant
            entries_of(t, data@) == Some(es),
            remaining.deep_view() == es.skip(total - remaining@.len() as int),
            remaining@.len() <= total == es.len(),
            items.deep_view() == records_of(es.take(total - remaining@.len() as int), prefix@),
            kept.deep_view() == kept_of(es.take(total - remaining@.len() as int), prefix@),
            digests_ok(es.take(total - remaining@.len() as int)),
        decreases remaining@.len(),
    {
        let ghost done = total - remaining@.len() as int;
        let ghost pre_at = remaining@;
        let ghost pre_deep = remaining.deep_view();
        let e = remaining.remove(0);
        proof {
            assert(pre_deep == es.skip(done));
            assert(remaining@ == pre_at.remove(0));
            assert(e == pre_at[0]);
            assert(e@ == pre_deep[0]);
            assert(e@ == es[done]);
            assert forall|k: int| 0 <= k < remaining@.len() implies remaining.deep_view()[k]
                == es.skip(done + 1)[k] by {
                assert(remaining@[k] == pre_at[k + 1]);
                assert(remaining.deep_view()[k] == pre_deep[k + 1]);
            }
            assert(remaining.deep_view() =~= es.skip(done + 1));
            assert(es.take(done + 1).drop_last() =~= es.take(done));
            assert(es.take(done + 1).last() == es[done]);
        }
        let is_dir_path = e.path.len() > 0 && e.path[e.path.len() - 1] == 47;
        if e.is_file && !is_dir_path {
            assert(!entry_dropped(es[done]));
            #[verifier::truncate]
            let sz = e.size as usize;
            let size = e.size;
            match get_contents(sz, e.data, e.path, prefix) {
                Err(err) => {
                    proof {
                        assert(!blob_digest_ok(es[done].data));
                        assert(!digests_ok(es));
                    }
                    return Err(err);
                },
                Ok(Content::Skip { path, archive_path, hash, reason, lines }) => {
                    let item = IndexItem {
                        path,
                        archive_path,
                        size,
                        hash,
                        skip_reason: Some(reason),
                        lines,
                    };
                    proof {
                        assert(item@ =~= item_for(es[done], prefix@));
                    }
                    items.push(item);
                },
                Ok(Content::Add { path, archive_path, hash, lines, contents }) => {
                    let item_path = clone_bytes(&path);
                    let item = IndexItem {
                        path,
                        archive_path,
                        size,
                        hash,
                        skip_reason: None,
                        lines: Some(lines),
                    };
                    proof {
                        assert(item@ =~= item_for(es[done], prefix@));
                    }
                    items.push(item);
                    let kept_item = ArchiveItem { path: item_path, size, data: contents };
                    proof {
                        assert(kept_item@ =~= kept_for(es[done], prefix@));
                    }
                    kept.push(kept_item);
                },
            }
        } else {
            assert(entry_dropped(es[done]));
        }
        proof {
            assert(items.deep_view() =~= records_of(es.take(done + 1), prefix@));
            assert(kept.deep_view() =~= kept_of(es.take(done + 1), prefix@));
            assert forall|k: int| 0 <= k < done + 1 implies entry_dropped(
                #[trigger] (es.take(done + 1)[k]),
            ) || blob_digest_ok(es.take(done + 1)[k].data) by {
                if k < done {
                    assert(es.take(done)[k] == es.take(done + 1)[k]);
                    assert(entry_dropped(es.take(done)[k]) || blob_digest_ok(es.take(done)[k].data));
                }
            }
        }
    }
    proof {
        assert(es.take(total as int) =~= es);
    }
    Ok((items, kept))
}

/// The blob records emitted for a list of kept files, in order, when the
/// mark counter stood at `base` before the first of them.
pub open spec fn blob_records(kept: Seq<ArchiveItemModel>, skip: bool, base: int) -> Seq<u8>
    decreases kept.len(),
{
    if kept.len() == 0 {
        Seq::empty()
    } else {
        blob_records(kept.drop_last(), skip, base) + crate::git::blob_record(
            base + kept.len(),
            if skip {
                seq![100u8]
            } else {
                kept.last().data
            },
        )
    }
}

/// The `(mark, path)` pairs a package's commit records for its kept files.
pub open spec fn file_pairs(kept: Seq<ArchiveItemModel>, base: int) -> Seq<(usize, Seq<u8>)> {
    Seq::new(kept.len(), |i: int| (((base + 1 + i) as usize), kept[i].path))
}

/// The marks of those pairs.
pub open spec fn pair_marks(kept: Seq<ArchiveItemModel>, base: int) -> Seq<int> {
    Seq::new(kept.len(), |i: int| base + 1 + i)
}

/// Whether the step from `pre` to `post` wrote one package: a blob record
/// per kept file, then exactly one commit naming `name` that references
/// exactly those blobs' marks, with timestamp `ts`.
pub open spec fn package_committed(
    pre: crate::git::GitFastImporter,
    post: crate::git::GitFastImporter,
    name: Seq<u8>,
    kept: Seq<ArchiveItemModel>,
    ts: i64,
) -> bool {
    let base = pre.mark_counter();
    let commit_mark = base + kept.len() + 1;
    &&& post.mark_counter() == commit_mark
    &&& post.commit_log() == pre.commit_log().push((commit_mark, pair_marks(kept, base)))
    &&& post.commit_parents() == pre.commit_parents().push(pre.previous_commit())
    &&& post.stream() == pre.stream() + blob_records(kept, pre.spec_skip_contents(), base)
        + crate::git::commit_record(
        pre.spec_branch(),
        commit_mark,
        ts as int,
        name,
        pre.anchors_to_branch(),
        pre.previous_commit(),
        file_pairs(kept, base),
    )
    &&& post.previous_commit() == Some(commit_mark as usize)
    &&& !post.anchors_to_branch()
    &&& !post.is_finished()
    &&& post.spec_branch() == pre.spec_branch()
    &&& post.spec_skip_contents() == pre.spec_skip_contents()
    &&& post.spec_total() == pre.spec_total()
    &&& post.progress_count() == pre.progress_count()
}

/// Writes one extracted package through the fast-import writer: every kept
/// file becomes a blob, and one commit for the package references exactly
/// those blobs under their destination paths.  Returns the package's
/// outcome records unchanged.
pub fn write_package_contents(
    output: &mut crate::git::GitFastImporter,
    name: &Vec<u8>,
    items: Vec<IndexItem>,
    kept: Vec<ArchiveItem>,
) -> (r: Vec<IndexItem>)
    requires
        old(output).wf(),
        !old(output).is_finished(),
        old(output).mark_counter() + kept@.len() + 1 <= usize::MAX,
    ensures
        final(output).wf(),
        exists|ts: i64|
            #[trigger] package_committed(
                *old(output),
                *final(output),
                name@,
                kept.deep_view(),
                ts,
            ),
        r == items,
{
    let ghost kmodels = kept.deep_view();
    let base_mark = output.current_mark();
    let ghost base = base_mark as int;
    let ghost ktotal = kmodels.len();
    let mut pairs: Vec<(usize, Vec<u8>)> = Vec::new();
    let mut remaining = kept;
    proof {
        assert(remaining.deep_view() =~= kmodels.skip(0));
        assert(kmodels.take(0) =~= Seq::<ArchiveItemModel>::empty());
        assert(output.stream() =~= old(output).stream() + blob_records(
            kmodels.take(0),
            output.spec_skip_contents(),
            base,
        ));
        assert(crate::git::file_views(pairs@) =~= file_pairs(kmodels.take(0), base));
    }
    while remaining.len() > 0
        invariant
            output.wf(),
            !output.is_finished(),
            0 <= base == old(output).mark_counter(),
            ktotal == kmodels.len(),
            base + ktotal + 1 <= usize::MAX,
            remaining.deep_view() == kmodels.skip(ktotal - remaining@.len() as int),
            remaining@.len() <= ktotal,
            output.mark_counter() == base + (ktotal - remaining@.len() as int),
            output.stream() == old(output).stream() + blob_records(
                kmodels.take(ktotal - remaining@.len() as int),
                old(output).spec_skip_contents(),
                base,
            ),
            crate::git::file_views(pairs@) == file_pairs(
                kmodels.take(ktotal - remaining@.len() as int),
                base,
            ),
            pairs@.len() == ktotal - remaining@.len() as int,
            forall|k: int| 0 <= k < pairs@.len() ==> #[trigger] (pairs@[k].0) == ((base + 1
                + k) as usize),
            output.commit_log() == old(output).commit_log(),
            output.commit_parents() == old(output).commit_parents(),
            output.spec_branch() == old(output).spec_branch(),
            output.anchors_to_branch() == old(output).anchors_to_branch(),
            output.previous_commit() == old(output).previous_commit(),
            output.spec_skip_contents() == old(output).spec_skip_contents(),
            output.spec_total() == old(output).spec_total(),
            output.progress_count() == old(output).progress_count(),
        decreases remaining@.len(),
    {
        let ghost done = ktotal - remaining@.len() as int;
        let ghost pre_at = remaining@;
        let ghost pre_deep = remaining.deep_view();
        let e = remaining.remove(0);
        proof {
            assert(e == pre_at[0]);
            assert(e@ == pre_deep[0]);
            assert(e@ == kmodels[done]);
            assert forall|k: int| 0 <= k < remaining@.len() implies remaining.deep_view()[k]
                == kmodels.skip(done + 1)[k] by {
                assert(remaining@[k] == pre_at[k + 1]);
                assert(remaining.deep_view()[k] == pre_deep[k + 1]);
            }
            assert(remaining.deep_view() =~= kmodels.skip(done + 1));
            assert(kmodels.take(done + 1).drop_last() =~= kmodels.take(done));
            assert(kmodels.take(done + 1).last() == kmodels[done]);
        }
        let path = e.path;
        let mark = output.add_file(e.data);
        let ghost prev_pairs = pairs@;
        pairs.push((mark, path));
        proof {
            assert(output.stream() =~= old(output).stream() + blob_records(
                kmodels.take(done + 1),
                old(output).spec_skip_contents(),
                base,
            ));
            assert(pairs@ == prev_pairs.push((mark, path)));
            assert forall|k: int| 0 <= k < pairs@.len() implies crate::git::file_views(pairs@)[k]
                == file_pairs(kmodels.take(done + 1), base)[k] by {
                if k < done {
                    assert(pairs@[k] == prev_pairs[k]);
                    assert(crate::git::file_views(prev_pairs)[k] == file_pairs(
                        kmodels.take(done),
                        base,
                    )[k]);
                    assert(kmodels.take(done + 1)[k] == kmodels.take(done)[k]);
                } else {
                    assert(pairs@[k] == (mark, path));
                    assert(kmodels.take(done + 1)[k] == kmodels[done]);
                }
            }
            assert(crate::git::file_views(pairs@) =~= file_pairs(kmodels.take(done + 1), base));
        }
    }
    proof {
        assert(kmodels.take(ktotal as int) =~= kmodels);
        assert forall|i: int| 0 <= i < pairs@.len() implies 1 <= #[trigger] (pairs@[i].0)
            <= output.mark_counter() by {
            assert(pairs@[i].0 == ((base + 1 + i) as usize));
        }
    }
    let ghost mid = *output;
    output.flush_commit(name, pairs);
    proof {
        let pairs_view = crate::git::file_views(pairs@);
        let ts = choose|ts: i64|
            crate::git::commit_emitted(mid, *output, name@, pairs_view, ts);
        assert forall|k: int| 0 <= k < pairs@.len() implies crate::git::mark_views(pairs@)[k]
            == pair_marks(kmodels, base)[k] by {
            assert(pairs@[k].0 == ((base + 1 + k) as usize));
        }
        assert(crate::git::mark_views(pairs@) =~= pair_marks(kmodels, base));
        assert(output.commit_log() =~= old(output).commit_log().push(
            (base + ktotal + 1, pair_marks(kmodels, base)),
        ));
        assert(output.stream() =~= old(output).stream() + blob_records(
            kmodels,
            old(output).spec_skip_contents(),
            base,
        ) + crate::git::commit_record(
            old(output).spec_branch(),
            base + ktotal + 1,
            ts as int,
            name@,
            old(output).anchors_to_branch(),
            old(output).previous_commit(),
            file_pairs(kmodels, base),
        ));
        assert(package_committed(*old(output), *output, name@, kmodels, ts));
    }
    items
}

/// The container format a package's retrieval URL announces: `None` when
/// the URL yields no file name, the file name no extension, or the
/// extension no known format.
pub open spec fn archive_type_of(p: crate::repository::PackageModel) -> Option<ArchiveType> {
    match crate::repository::url_filename_of(p.url) {
        Some(f) => match extension_of(f) {
            Some(x) => ArchiveType::spec_from_extension(x),
            None => None,
        },
        None => None,
    }
}

/// The processing plan for one package and its archive bytes: the commit
/// message identifier, the destination prefix, and the archive's entries.
/// `None` when the URL yields no file name, the file name no known archive
/// extension, or the container is malformed.
pub open spec fn package_plan(p: crate::repository::PackageModel, data: Seq<u8>) -> Option<
    (Seq<u8>, Seq<u8>, Seq<RawEntryModel>),
> {
    match crate::repository::url_filename_of(p.url) {
        Some(f) => match extension_of(f) {
            Some(x) => match ArchiveType::spec_from_extension(x) {
                Some(t) => match entries_of(t, data) {
                    Some(es) => Some(
                        (
                            p.project_name + crate::text::ascii_of("/") + p.project_version
                                + crate::text::ascii_of("/") + f,
                            crate::text::ascii_of("packages/") + p.project_name
                                + crate::text::ascii_of("/") + f + crate::text::ascii_of("/"),
                            es,
                        ),
                    ),
                    None => None,
                },
                None => None,
            },
            None => None,
        },
        None => None,
    }
}

/// Whether the step from `pre` to `post` processed one package whose plan
/// yields identifier `id`, prefix `prefix` and entries `es`: blobs and one
/// commit for the kept files, then one progress step.
pub open spec fn package_processed(
    pre: crate::git::GitFastImporter,
    post: crate::git::GitFastImporter,
    id: Seq<u8>,
    prefix: Seq<u8>,
    es: Seq<RawEntryModel>,
    ts: i64,
) -> bool {
    let kept = kept_of(es, prefix);
    let base = pre.mark_counter();
    let commit_mark = base + kept.len() + 1;
    let progress = if (pre.progress_count() + 1) % (crate::git::PROGRESS_EVERY as int) == 0 {
        crate::git::progress_line(pre.progress_count() + 1, pre.spec_total())
    } else {
        Seq::<u8>::empty()
    };
    &&& post.mark_counter() == commit_mark
    &&& post.commit_log() == pre.commit_log().push((commit_mark, pair_marks(kept, base)))
    &&& post.commit_parents() == pre.commit_parents().push(pre.previous_commit())
    &&& post.stream() == pre.stream() + blob_records(kept, pre.spec_skip_contents(), base)
        + crate::git::commit_record(
        pre.spec_branch(),
        commit_mark,
        ts as int,
        id,
        pre.anchors_to_branch(),
        pre.previous_commit(),
        file_pairs(kept, base),
    ) + progress
    &&& post.previous_commit() == Some(commit_mark as usize)
    &&& !post.anchors_to_branch()
    &&& !post.is_finished()
    &&& post.spec_branch() == pre.spec_branch()
    &&& post.spec_skip_contents() == pre.spec_skip_contents()
    &&& post.spec_total() == pre.spec_total()
    &&& post.progress_count() == pre.progress_count() + 1
}

/// Processes one fetched package: determines the container format from the
/// retrieval URL, extracts and classifies every entry, writes the kept
/// files and one commit for the package, and counts the commit for
/// progress reporting.  It succeeds exactly when the URL announces a known
/// container format, the container lists its entries, the digest accepts
/// every classified entry, and the mark counter has room; each failure is
/// tied to its cause.  On any failure the writer is untouched: a package
/// that fails never leaves a partial commit behind.
pub fn process_package(
    output: &mut crate::git::GitFastImporter,
    package: &crate::repository::RepositoryPackage,
    data: &Vec<u8>,
) -> (r: Result<Vec<IndexItem>, DownloadError>)
    requires
        old(output).wf(),
        !old(output).is_finished(),
        old(output).progress_count() < usize::MAX,
    ensures
        final(output).wf(),
        !final(output).is_finished(),
        r is Err ==> *final(output) == *old(output),
        r is Ok <==> (package_plan(package@, data@) matches Some(plan) && digests_ok(plan.2)
            && old(output).mark_counter() + kept_of(plan.2, plan.1).len() + 1 <= usize::MAX),
        (r matches Err(e) && e matches DownloadError::UnknownArchive(_)) <==> archive_type_of(
            package@,
        ) is None,
        (r matches Err(e) && e matches DownloadError::ExtractionError(_)) <==> (archive_type_of(
            package@,
        ) is Some && !(package_plan(package@, data@) matches Some(plan) && digests_ok(plan.2))),
        (r matches Err(e) && e is WriteError) <==> (package_plan(package@, data@) matches Some(
            plan,
        ) && digests_ok(plan.2) && old(output).mark_counter() + kept_of(plan.2, plan.1).len() + 1
            > usize::MAX),
        r matches Ok(items) ==> (package_plan(package@, data@) matches Some(plan)
            && items.deep_view() == records_of(plan.2, plan.1) && exists|ts: i64|
            #[trigger] package_processed(
                *old(output),
                *final(output),
                plan.0,
                plan.1,
                plan.2,
                ts,
            )),
{
    let filename = match package.package_filename() {
        Some(f) => f,
        None => {
            return Err(DownloadError::UnknownArchive(Vec::new()));
        },
    };
    let ext = match extension_bytes(&filename) {
        Some(x) => x,
        None => {
            return Err(DownloadError::UnknownArchive(Vec::new()));
        },
    };
    let t = match ArchiveType::from_extension(&ext) {
        Some(t) => t,
        None => {
            return Err(DownloadError::UnknownArchive(ext));
        },
    };
    let prefix = match package.file_prefix() {
        Some(p) => p,
        None => {
            return Err(DownloadError::UnknownArchive(Vec::new()));
        },
    };
    let identifier = match package.identifier() {
        Some(i) => i,
        None => {
            return Err(DownloadError::UnknownArchive(Vec::new()));
        },
    };
    let (items, kept) = match extract_package(t, data, &prefix) {
        Ok(p) => p,
        Err(e) => {
            return Err(DownloadError::ExtractionError(e));
        },
    };
    let cur = output.current_mark();
    if usize::MAX - cur < 1 || usize::MAX - cur - 1 < kept.len() {
        return Err(DownloadError::WriteError);
    }
    let ghost plan = package_plan(package@, data@).unwrap();
    proof {
        assert(package_plan(package@, data@) == Some(
            (identifier@, prefix@, entries_of(t, data@).unwrap()),
        ));
        assert(plan.1 == prefix@);
        assert(items.deep_view() == records_of(plan.2, plan.1));
        assert(kept.deep_view() == kept_of(plan.2, plan.1));
    }
    let items = write_package_contents(output, &identifier, items, kept);
    let ghost mid = *output;
    output.flush_progress();
    proof {
        let kmodels = kept_of(plan.2, plan.1);
        let ts = choose|ts: i64|
            package_committed(*old(output), mid, identifier@, kmodels, ts);
        assert(output.stream() =~= old(output).stream() + blob_records(
            kmodels,
            old(output).spec_skip_contents(),
            old(output).mark_counter(),
        ) + crate::git::commit_record(
            old(output).spec_branch(),
            old(output).mark_counter() + kmodels.len() + 1,
            ts as int,
            identifier@,
            old(output).anchors_to_branch(),
            old(output).previous_commit(),
            file_pairs(kmodels, old(output).mark_counter()),
        ) + (if (old(output).progress_count() + 1) % (crate::git::PROGRESS_EVERY as int) == 0 {
            crate::git::progress_line(old(output).progress_count() + 1, old(output).spec_total())
        } else {
            Seq::<u8>::empty()
        }));
        assert(package_processed(*old(output), *output, plan.0, plan.1, plan.2, ts));
    }
    Ok(items)
}

} // verus!
