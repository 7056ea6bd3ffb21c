//! The fast-import stream writer: the single, order-sensitive sink that
//! assigns monotonically increasing object marks, emits blob records, and
//! emits one commit record per package.  Every record's bytes are pinned
//! exactly by the contracts, so the emitted stream is byte-exact.

use vstd::prelude::*;

use crate::text::{append_ascii, ascii_of, dec_of, dec_of_int, extend_bytes, i64_to_dec,
    u64_to_dec};

verus! {

/// A single line terminator.
pub open spec fn nl() -> Seq<u8> {
    seq![10u8]
}

/// The identity recorded on every commit.
pub open spec fn committer_prefix() -> Seq<u8> {
    ascii_of("committer Bot <41898282+github-actions[bot]@users.noreply.github.com> ")
}

/// The bytes of one blob record: the `blob` line, its mark, the payload
/// length, the payload, and a blank line.
pub open spec fn blob_record(mark: int, payload: Seq<u8>) -> Seq<u8> {
    ascii_of("blob") + nl() + ascii_of("mark :") + dec_of(mark as nat) + nl() + ascii_of("data ")
        + dec_of(payload.len()) + nl() + payload + nl()
}

/// The commit message naming a package.
pub open spec fn commit_message(name: Seq<u8>) -> Seq<u8> {
    ascii_of("Add package ") + name
}

/// The file-modify line for one `(mark, path)` pair; a pair with an empty
/// path is skipped.
pub open spec fn file_line(mark: int, path: Seq<u8>) -> Seq<u8> {
    if path.len() == 0 {
        Seq::empty()
    } else {
        ascii_of("M 100644 :") + dec_of(mark as nat) + ascii_of(" ") + path + nl()
    }
}

/// The file-modify lines for a list of `(mark, path)` pairs, in order.
pub open spec fn file_lines(files: Seq<(usize, Seq<u8>)>) -> Seq<u8>
    decreases files.len(),
{
    if files.len() == 0 {
        Seq::empty()
    } else {
        file_lines(files.drop_last()) + file_line(files.last().0 as int, files.last().1)
    }
}

/// The bytes of one commit record on `branch`: header lines, the message,
/// the optional anchoring `from` lines, the file-modify lines, and a blank
/// line.
pub open spec fn commit_record(
    branch: Seq<u8>,
    mark: int,
    ts: int,
    name: Seq<u8>,
    anchor_branch: bool,
    prev: Option<usize>,
    files: Seq<(usize, Seq<u8>)>,
) -> Seq<u8> {
    ascii_of("commit refs/heads/") + branch + nl() + ascii_of("mark :") + dec_of(mark as nat)
        + nl() + committer_prefix() + dec_of_int(ts) + ascii_of(" +0000") + nl() + ascii_of("data ")
        + dec_of(commit_message(name).len()) + nl() + commit_message(name) + nl() + (
    if anchor_branch {
        ascii_of("from ") + branch + nl()
    } else {
        Seq::empty()
    }) + (match prev {
        Some(p) => ascii_of("from :") + dec_of(p as nat) + nl(),
        None => Seq::empty(),
    }) + file_lines(files) + nl()
}

/// The mathematical view of a file-modify list: each pair's mark and the
/// bytes of its path.
pub open spec fn file_views(files: Seq<(usize, Vec<u8>)>) -> Seq<(usize, Seq<u8>)> {
    Seq::new(files.len(), |i: int| (files[i].0, files[i].1@))
}

/// The marks of a file-modify list.
pub open spec fn mark_views(files: Seq<(usize, Vec<u8>)>) -> Seq<int> {
    Seq::new(files.len(), |i: int| files[i].0 as int)
}

/// Whether the step from `pre` to `post` emitted exactly one commit record
/// for `name` and `files` with timestamp `ts`, appended to both the stream
/// and the pending buffer.
pub open spec fn commit_emitted(
    pre: GitFastImporter,
    post: GitFastImporter,
    name: Seq<u8>,
    files: Seq<(usize, Seq<u8>)>,
    ts: i64,
) -> bool {
    let rec = commit_record(
        pre.spec_branch(),
        pre.mark_counter() + 1,
        ts as int,
        name,
        pre.anchors_to_branch(),
        pre.previous_commit(),
        files,
    );
    post.stream() == pre.stream() + rec && post.pending() == pre.pending() + rec
}

/// The progress line emitted at the reporting cadence.
pub open spec fn progress_line(count: int, total: int) -> Seq<u8> {
    ascii_of("progress Commit: ") + dec_of(count as nat) + ascii_of("/") + dec_of(total as nat)
        + nl()
}

/// The terminal marker of a complete stream.
pub open spec fn done_record() -> Seq<u8> {
    ascii_of("done") + nl()
}

/// How many commits pass between two progress lines.
pub const PROGRESS_EVERY: usize = 10;

/// Relies on `chrono::Utc::now`: the wall-clock time as seconds since the
/// epoch.  Nothing is promised of the value.
#[verifier::external_body]
fn unix_timestamp_now() -> i64 {
    chrono::Utc::now().timestamp()
}

/// The fast-import stream writer.  It owns the mark counter for the whole
/// run and buffers the emitted bytes until they are drained with
/// [`GitFastImporter::take_output`].
pub struct GitFastImporter {
    out: Vec<u8>,
    current_mark: usize,
    previous_commit_mark: Option<usize>,
    branch: Vec<u8>,
    should_use_from: bool,
    total: usize,
    commit_count: usize,
    skip_contents: bool,
    finished: bool,
    taken: Ghost<Seq<u8>>,
    issued: Ghost<Seq<int>>,
    commits: Ghost<Seq<(int, Seq<int>)>>,
    parents: Ghost<Seq<Option<usize>>>,
}

impl GitFastImporter {
    /// Every byte emitted since construction, drained or not.
    pub closed spec fn stream(self) -> Seq<u8> {
        self.taken@ + self.out@
    }

    /// The emitted bytes not yet drained.
    pub closed spec fn pending(self) -> Seq<u8> {
        self.out@
    }

    /// The value of the mark counter: the last mark allocated, 0 before any.
    pub closed spec fn mark_counter(self) -> int {
        self.current_mark as int
    }

    /// Every mark allocated so far, in allocation order.
    pub closed spec fn issued_marks(self) -> Seq<int> {
        self.issued@
    }

    /// The commits emitted so far: each one's own mark and the marks its
    /// file-modify list was given.
    pub closed spec fn commit_log(self) -> Seq<(int, Seq<int>)> {
        self.commits@
    }

    /// The previous-commit mark each emitted commit chained to, in emission
    /// order: `None` for the first commit of the run.
    pub closed spec fn commit_parents(self) -> Seq<Option<usize>> {
        self.parents@
    }

    /// Whether the terminal marker has been written.
    pub closed spec fn is_finished(self) -> bool {
        self.finished
    }

    /// The branch every commit goes to.
    pub closed spec fn spec_branch(self) -> Seq<u8> {
        self.branch@
    }

    /// Whether the next commit anchors to the existing branch tip.
    pub closed spec fn anchors_to_branch(self) -> bool {
        self.should_use_from
    }

    /// The mark of the previous commit of this run, if any.
    pub closed spec fn previous_commit(self) -> Option<usize> {
        self.previous_commit_mark
    }

    /// Whether blob payloads are replaced by a one-byte placeholder.
    pub closed spec fn spec_skip_contents(self) -> bool {
        self.skip_contents
    }

    /// The expected number of commits, used by progress lines.
    pub closed spec fn spec_total(self) -> int {
        self.total as int
    }

    /// The number of commits counted by `flush_progress` so far.
    pub closed spec fn progress_count(self) -> int {
        self.commit_count as int
    }

    /// The writer's invariant: marks are exactly `1..=mark_counter` in
    /// allocation order; commit marks increase strictly and each commit
    /// references only marks allocated before its own.
    pub closed spec fn wf(self) -> bool {
        &&& self.issued@ == Seq::new(self.current_mark as nat, |i: int| i + 1)
        &&& forall|i: int, j: int|
            0 <= i < j < self.commits@.len() ==> self.commits@[i].0 < self.commits@[j].0
        &&& forall|i: int|
            0 <= i < self.commits@.len() ==> 1 <= #[trigger] self.commits@[i].0
                <= self.current_mark
        &&& forall|i: int, k: int|
            0 <= i < self.commits@.len() && 0 <= k < self.commits@[i].1.len() ==> 1 <= #[trigger] (
            self.commits@[i].1[k]) < self.commits@[i].0
        &&& match self.previous_commit_mark {
            None => self.commits@.len() == 0,
            Some(m) => self.commits@.len() > 0 && self.commits@.last().0 == m as int
                && m as int <= self.current_mark,
        }
        &&& self.parents@.len() == self.commits@.len()
        &&& self.commits@.len() > 0 ==> self.parents@[0] is None
        &&& forall|i: int|
            1 <= i < self.commits@.len() ==> (#[trigger] (self.parents@[i]) matches Some(p)
                && p as int == self.commits@[i - 1].0)
    }

    /// A fresh writer: no bytes emitted, no marks allocated.  When
    /// `has_code_branch` is set, the first commit of the run anchors to the
    /// existing tip of `branch`.
    pub fn new(total: usize, branch: Vec<u8>, has_code_branch: bool, skip_contents: bool) -> (w:
        Self)
        ensures
            w.wf(),
            w.stream() == Seq::<u8>::empty(),
            w.pending() == Seq::<u8>::empty(),
            w.mark_counter() == 0,
            w.issued_marks() == Seq::<int>::empty(),
            w.commit_log() == Seq::<(int, Seq<int>)>::empty(),
            w.commit_parents() == Seq::<Option<usize>>::empty(),
            !w.is_finished(),
            w.spec_branch() == branch@,
            w.anchors_to_branch() == has_code_branch,
            w.previous_commit() is None,
            w.spec_skip_contents() == skip_contents,
            w.spec_total() == total,
            w.progress_count() == 0,
    {
        let w = GitFastImporter {
            out: Vec::new(),
            current_mark: 0,
            previous_commit_mark: None,
            branch,
            should_use_from: has_code_branch,
            total,
            commit_count: 0,
            skip_contents,
            finished: false,
            taken: Ghost(Seq::empty()),
            issued: Ghost(Seq::empty()),
            commits: Ghost(Seq::empty()),
            parents: Ghost(Seq::empty()),
        };
        proof {
            assert(w.stream() =~= Seq::<u8>::empty());
            assert(w.issued@ =~= Seq::new(0, |i: int| i + 1));
        }
        w
    }

    /// The last mark allocated, 0 before any.
    pub fn current_mark(&self) -> (r: usize)
        ensures
            r == self.mark_counter(),
    {
        self.current_mark
    }

    /// Drains the buffered bytes so the caller can hand them to the sink.
    /// The total stream is unchanged.
    pub fn take_output(&mut self) -> (r: Vec<u8>)
        ensures
            r@ == old(self).pending(),
            final(self).pending() == Seq::<u8>::empty(),
            final(self).stream() == old(self).stream(),
            final(self).wf() == old(self).wf(),
            final(self).mark_counter() == old(self).mark_counter(),
            final(self).issued_marks() == old(self).issued_marks(),
            final(self).commit_log() == old(self).commit_log(),
            final(self).commit_parents() == old(self).commit_parents(),
            final(self).is_finished() == old(self).is_finished(),
            final(self).spec_branch() == old(self).spec_branch(),
            final(self).anchors_to_branch() == old(self).anchors_to_branch(),
            final(self).previous_commit() == old(self).previous_commit(),
            final(self).spec_skip_contents() == old(self).spec_skip_contents(),
            final(self).spec_total() == old(self).spec_total(),
            final(self).progress_count() == old(self).progress_count(),
    {
        proof {
            self.taken@ = self.taken@ + self.out@;
        }
        let mut r: Vec<u8> = Vec::new();
        core::mem::swap(&mut r, &mut self.out);
        proof {
            assert(self.stream() =~= old(self).stream());
        }
        r
    }

    /// Allocates the next mark and emits a blob record carrying it and the
    /// given bytes, or the one-byte placeholder in dry-run mode.  Returns
    /// the mark.
    pub fn add_file(&mut self, data: Vec<u8>) -> (mark: usize)
        requires
            old(self).wf(),
            !old(self).is_finished(),
            old(self).mark_counter() < usize::MAX,
        ensures
            final(self).wf(),
            mark == old(self).mark_counter() + 1,
            final(self).mark_counter() == mark,
            final(self).issued_marks() == old(self).issued_marks().push(mark as int),
            final(self).stream() == old(self).stream() + blob_record(
                mark as int,
                if old(self).spec_skip_contents() {
                    seq![100u8]
                } else {
                    data@
                },
            ),
            final(self).pending() == old(self).pending() + blob_record(
                mark as int,
                if old(self).spec_skip_contents() {
                    seq![100u8]
                } else {
                    data@
                },
            ),
            final(self).commit_log() == old(self).commit_log(),
            final(self).commit_parents() == old(self).commit_parents(),
            !final(self).is_finished(),
            final(self).spec_branch() == old(self).spec_branch(),
            final(self).anchors_to_branch() == old(self).anchors_to_branch(),
            final(self).previous_commit() == old(self).previous_commit(),
            final(self).spec_skip_contents() == old(self).spec_skip_contents(),
            final(self).spec_total() == old(self).spec_total(),
            final(self).progress_count() == old(self).progress_count(),
    {
        proof {
            reveal_strlit("blob");
            reveal_strlit("mark :");
            reveal_strlit("data ");
        }
        let mark = self.current_mark + 1;
        self.current_mark = mark;
        let ghost payload_spec = if self.skip_contents {
            seq![100u8]
        } else {
            data@
        };
        let mut rec: Vec<u8> = Vec::new();
        append_ascii(&mut rec, "blob");
        rec.push(10);
        append_ascii(&mut rec, "mark :");
        let mut digits = u64_to_dec(mark as u64);
        rec.append(&mut digits);
        rec.push(10);
        append_ascii(&mut rec, "data ");
        let mut payload = if self.skip_contents {
            let placeholder: Vec<u8> = vec![100u8];
            placeholder
        } else {
            data
        };
        let mut len_digits = u64_to_dec(payload.len() as u64);
        rec.append(&mut len_digits);
        rec.push(10);
        rec.append(&mut payload);
        rec.push(10);
        proof {
            assert(rec@ =~= blob_record(mark as int, payload_spec));
        }
        proof {
            self.issued@ = self.issued@.push(mark as int);
        }
        self.out.append(&mut rec);
        proof {
            assert(self.stream() =~= old(self).stream() + blob_record(mark as int, payload_spec));
            assert(self.pending() =~= old(self).pending() + blob_record(
                mark as int,
                payload_spec,
            ));
            assert(self.issued@ =~= Seq::new(self.current_mark as nat, |i: int| i + 1));
        }
        mark
    }

    /// Allocates the next mark and emits one commit record on the writer's
    /// branch: a message naming the package, `from` lines anchoring the
    /// commit to the existing branch tip (first commit of a continuing run)
    /// and to the previous commit of this run, and one file-modify line per
    /// `(mark, path)` pair with a non-empty path.  The commit's timestamp is
    /// the wall clock, of which nothing is known.
    #[verifier::rlimit(100)]
    pub fn flush_commit(&mut self, name: &Vec<u8>, paths_to_nodes: Vec<(usize, Vec<u8>)>)
        requires
            old(self).wf(),
            !old(self).is_finished(),
            old(self).mark_counter() < usize::MAX,
            forall|i: int|
                0 <= i < paths_to_nodes@.len() ==> 1 <= #[trigger] (paths_to_nodes@[i].0) <= old(
                    self,
                ).mark_counter(),
        ensures
            final(self).wf(),
            final(self).mark_counter() == old(self).mark_counter() + 1,
            final(self).issued_marks() == old(self).issued_marks().push(
                old(self).mark_counter() + 1,
            ),
            final(self).commit_log() == old(self).commit_log().push(
                (old(self).mark_counter() + 1, mark_views(paths_to_nodes@)),
            ),
            final(self).commit_parents() == old(self).commit_parents().push(
                old(self).previous_commit(),
            ),
            exists|ts: i64|
                #[trigger] commit_emitted(
                    *old(self),
                    *final(self),
                    name@,
                    file_views(paths_to_nodes@),
                    ts,
                ),
            final(self).previous_commit() == Some((old(self).mark_counter() + 1) as usize),
            !final(self).anchors_to_branch(),
            !final(self).is_finished(),
            final(self).spec_branch() == old(self).spec_branch(),
            final(self).spec_skip_contents() == old(self).spec_skip_contents(),
            final(self).spec_total() == old(self).spec_total(),
            final(self).progress_count() == old(self).progress_count(),
    {
        proof {
            reveal_strlit("commit refs/heads/");
            reveal_strlit("mark :");
            reveal_strlit("committer Bot <41898282+github-actions[bot]@users.noreply.github.com> ");
            reveal_strlit(" +0000");
            reveal_strlit("data ");
            reveal_strlit("Add package ");
            reveal_strlit("from ");
            reveal_strlit("from :");
            reveal_strlit("M 100644 :");
            reveal_strlit(" ");
        }
        let ghost files_spec = file_views(paths_to_nodes@);
        let mark = self.current_mark + 1;
        self.current_mark = mark;
        let mut rec: Vec<u8> = Vec::new();
        append_ascii(&mut rec, "commit refs/heads/");
        extend_bytes(&mut rec, &self.branch);
        rec.push(10);
        append_ascii(&mut rec, "mark :");
        let mut d = u64_to_dec(mark as u64);
        rec.append(&mut d);
        rec.push(10);
        append_ascii(
            &mut rec,
            "committer Bot <41898282+github-actions[bot]@users.noreply.github.com> ",
        );
        let ts = unix_timestamp_now();
        let mut tsd = i64_to_dec(ts);
        rec.append(&mut tsd);
        append_ascii(&mut rec, " +0000");
        rec.push(10);
        let mut msg: Vec<u8> = Vec::new();
        append_ascii(&mut msg, "Add package ");
        extend_bytes(&mut msg, name);
        proof {
            assert(msg@ =~= commit_message(name@));
        }
        append_ascii(&mut rec, "data ");
        let mut ld = u64_to_dec(msg.len() as u64);
        rec.append(&mut ld);
        rec.push(10);
        rec.append(&mut msg);
        rec.push(10);
        if self.should_use_from {
            append_ascii(&mut rec, "from ");
            extend_bytes(&mut rec, &self.branch);
            rec.push(10);
            self.should_use_from = false;
        }
        match self.previous_commit_mark {
            Some(p) => {
                append_ascii(&mut rec, "from :");
                let mut pd = u64_to_dec(p as u64);
                rec.append(&mut pd);
                rec.push(10);
            },
            None => {},
        }
        self.previous_commit_mark = Some(mark);
        proof {
            assert(rec@ =~= ascii_of("commit refs/heads/") + old(self).spec_branch() + nl()
                + ascii_of("mark :") + dec_of(mark as nat) + nl() + committer_prefix() + dec_of_int(
                ts as int,
            ) + ascii_of(" +0000") + nl() + ascii_of("data ") + dec_of(
                commit_message(name@).len(),
            ) + nl() + commit_message(name@) + nl() + (
            if old(self).anchors_to_branch() {
                ascii_of("from ") + old(self).spec_branch() + nl()
            } else {
                Seq::<u8>::empty()
            }) + (match old(self).previous_commit() {
                Some(p) => ascii_of("from :") + dec_of(p as nat) + nl(),
                None => Seq::<u8>::empty(),
            }));
        }
        let ghost header = rec@;
        let mut i: usize = 0;
        while i < paths_to_nodes.len()
            invariant
                i <= paths_to_nodes@.len(),
                files_spec == file_views(paths_to_nodes@),
                rec@ == header + file_lines(files_spec.take(i as int)),
            decreases paths_to_nodes@.len() - i,
        {
            proof {
                reveal_strlit("M 100644 :");
                reveal_strlit(" ");
                assert(files_spec.take(i + 1).drop_last() =~= files_spec.take(i as int));
                assert(files_spec.take(i + 1).last() == files_spec[i as int]);
                assert(files_spec[i as int] == (paths_to_nodes@[i as int].0, paths_to_nodes@[i as int].1@));
            }
            let m = paths_to_nodes[i].0;
            if paths_to_nodes[i].1.len() > 0 {
                append_ascii(&mut rec, "M 100644 :");
                let mut md = u64_to_dec(m as u64);
                rec.append(&mut md);
                append_ascii(&mut rec, " ");
                extend_bytes(&mut rec, &paths_to_nodes[i].1);
                rec.push(10);
            }
            proof {
                assert(rec@ =~= header + file_lines(files_spec.take(i + 1)));
            }
            i += 1;
        }
        proof {
            assert(files_spec.take(paths_to_nodes@.len() as int) =~= files_spec);
        }
        rec.push(10);
        proof {
            assert(rec@ =~= commit_record(
                old(self).spec_branch(),
                mark as int,
                ts as int,
                name@,
                old(self).anchors_to_branch(),
                old(self).previous_commit(),
                files_spec,
            ));
        }
        proof {
            self.issued@ = self.issued@.push(mark as int);
            self.commits@ = self.commits@.push((mark as int, mark_views(paths_to_nodes@)));
            self.parents@ = self.parents@.push(old(self).previous_commit_mark);
        }
        self.out.append(&mut rec);
        proof {
            let rec_spec = commit_record(
                old(self).spec_branch(),
                mark as int,
                ts as int,
                name@,
                old(self).anchors_to_branch(),
                old(self).previous_commit(),
                files_spec,
            );
            assert(self.stream() =~= old(self).stream() + rec_spec);
            assert(self.pending() =~= old(self).pending() + rec_spec);
            assert(commit_emitted(*old(self), *self, name@, files_spec, ts));
            assert(self.issued@ =~= Seq::new(self.current_mark as nat, |k: int| k + 1));
            assert forall|a: int, k: int|
                0 <= a < self.commits@.len() && 0 <= k < self.commits@[a].1.len() implies 1
                <= #[trigger] (self.commits@[a].1[k]) < self.commits@[a].0 by {
                if a < self.commits@.len() - 1 {
                    assert(old(self).commits@[a] == self.commits@[a]);
                }
            }
        }
    }

    /// Counts one more emitted commit and, every `PROGRESS_EVERY` commits,
    /// emits a progress line reporting emitted over expected commits.
    pub fn flush_progress(&mut self)
        requires
            old(self).wf(),
            !old(self).is_finished(),
            old(self).progress_count() < usize::MAX,
        ensures
            final(self).wf(),
            final(self).progress_count() == old(self).progress_count() + 1,
            ({
                let emitted = if (old(self).progress_count() + 1) % (PROGRESS_EVERY as int) == 0 {
                    progress_line(old(self).progress_count() + 1, old(self).spec_total())
                } else {
                    Seq::<u8>::empty()
                };
                final(self).stream() == old(self).stream() + emitted && final(self).pending()
                    == old(self).pending() + emitted
            }),
            final(self).mark_counter() == old(self).mark_counter(),
            final(self).issued_marks() == old(self).issued_marks(),
            final(self).commit_log() == old(self).commit_log(),
            final(self).commit_parents() == old(self).commit_parents(),
            !final(self).is_finished(),
            final(self).spec_branch() == old(self).spec_branch(),
            final(self).anchors_to_branch() == old(self).anchors_to_branch(),
            final(self).previous_commit() == old(self).previous_commit(),
            final(self).spec_skip_contents() == old(self).spec_skip_contents(),
            final(self).spec_total() == old(self).spec_total(),
    {
        proof {
            reveal_strlit("progress Commit: ");
            reveal_strlit("/");
        }
        self.commit_count = self.commit_count + 1;
        if self.commit_count % PROGRESS_EVERY == 0 {
            append_ascii(&mut self.out, "progress Commit: ");
            let mut cd = u64_to_dec(self.commit_count as u64);
            self.out.append(&mut cd);
            append_ascii(&mut self.out, "/");
            let mut td = u64_to_dec(self.total as u64);
            self.out.append(&mut td);
            self.out.push(10);
            proof {
                assert(self.pending() =~= old(self).pending() + progress_line(
                    old(self).progress_count() + 1,
                    old(self).spec_total(),
                ));
                assert(self.stream() =~= old(self).stream() + progress_line(
                    old(self).progress_count() + 1,
                    old(self).spec_total(),
                ));
            }
        } else {
            proof {
                assert(self.pending() =~= old(self).pending() + Seq::<u8>::empty());
                assert(self.stream() =~= old(self).stream() + Seq::<u8>::empty());
            }
        }
    }

    /// The marks a writer has issued form a strictly increasing sequence
    /// starting above zero: mark `i + 1` was the `i`-th allocated, whether
    /// `add_file` or `flush_commit` allocated it.
    pub proof fn lemma_marks_strictly_increasing(self)
        requires
            self.wf(),
        ensures
            self.issued_marks().len() == self.mark_counter(),
            forall|i: int|
                0 <= i < self.issued_marks().len() ==> #[trigger] self.issued_marks()[i] == i + 1,
            forall|i: int, j: int|
                0 <= i < j < self.issued_marks().len() ==> self.issued_marks()[i]
                    < self.issued_marks()[j],
            forall|i: int| 0 <= i < self.issued_marks().len() ==> #[trigger] self.issued_marks()[i] >= 1,
    {
    }

    /// Every commit in the log was emitted by exactly one `flush_commit`
    /// call, carries a mark that was allocated for it, and references in its
    /// file-modify list only marks allocated strictly before its own; commit
    /// marks increase strictly across the run.
    pub proof fn lemma_commits_reference_earlier_marks(self)
        requires
            self.wf(),
        ensures
            forall|i: int, j: int|
                0 <= i < j < self.commit_log().len() ==> self.commit_log()[i].0
                    < self.commit_log()[j].0,
            forall|i: int|
                0 <= i < self.commit_log().len() ==> 1 <= #[trigger] (self.commit_log()[i].0)
                    <= self.mark_counter(),
            forall|i: int, k: int|
                0 <= i < self.commit_log().len() && 0 <= k < self.commit_log()[i].1.len() ==> 1
                    <= #[trigger] (self.commit_log()[i].1[k]) < self.commit_log()[i].0,
            forall|i: int|
                0 <= i < self.commit_log().len() ==> self.issued_marks().contains(
                    #[trigger] (self.commit_log()[i].0),
                ),
    {
        assert forall|i: int|
            0 <= i < self.commit_log().len() implies self.issued_marks().contains(
            #[trigger] (self.commit_log()[i].0),
        ) by {
            let m = self.commit_log()[i].0;
            assert(self.issued_marks()[m - 1] == m);
        }
    }

    /// The emitted history is linear: the first commit of the run chains to
    /// no earlier mark (it anchors to the existing branch tip instead, when
    /// the writer was built for a continuing run), and every later commit
    /// chains to exactly the commit emitted just before it.  Replayed in
    /// order, the stream therefore appends one linear chain of commits, one
    /// per package.
    pub proof fn lemma_history_linear(self)
        requires
            self.wf(),
        ensures
            self.commit_parents().len() == self.commit_log().len(),
            self.commit_log().len() > 0 ==> self.commit_parents()[0] is None,
            forall|i: int|
                1 <= i < self.commit_log().len() ==> (#[trigger] (self.commit_parents()[i])
                    matches Some(p) && p as int == self.commit_log()[i - 1].0),
    {
    }

    /// Emits the terminal `done` marker.  Must be called exactly once, after
    /// the last package.
    pub fn finish(&mut self)
        requires
            old(self).wf(),
            !old(self).is_finished(),
        ensures
            final(self).wf(),
            final(self).is_finished(),
            final(self).stream() == old(self).stream() + done_record(),
            final(self).pending() == old(self).pending() + done_record(),
            final(self).mark_counter() == old(self).mark_counter(),
            final(self).issued_marks() == old(self).issued_marks(),
            final(self).commit_log() == old(self).commit_log(),
            final(self).commit_parents() == old(self).commit_parents(),
            final(self).previous_commit() == old(self).previous_commit(),
            final(self).spec_branch() == old(self).spec_branch(),
            final(self).spec_total() == old(self).spec_total(),
            final(self).progress_count() == old(self).progress_count(),
    {
        proof {
            reveal_strlit("done");
        }
        append_ascii(&mut self.out, "done");
        self.out.push(10);
        self.finished = true;
        proof {
            assert(self.pending() =~= old(self).pending() + done_record());
            assert(self.stream() =~= old(self).stream() + done_record());
        }
    }
}

} // verus!
