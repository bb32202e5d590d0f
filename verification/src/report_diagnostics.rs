//! What a block report shows that an operator should know.

use vstd::prelude::*;

use crate::block_report::{BlockOwner, BlockReportInfo, BlockReportStatus};
use crate::text::{append_i64, append_u64};

verus! {

/// The findings of a block report, over all its chunks.
pub struct BlockReportDiagnostics {
    pub worker_id: u32,
    pub full_report: bool,
    /// The blocks to delete whose inode is gone.
    pub missing: u64,
    /// The blocks to delete whose inode is not a file.
    pub non_file: u64,
    /// The blocks to delete that a file gave up.
    pub obsolete: u64,
    /// The lines on blocks whose deletion has to wait.
    pub deferred: Vec<String>,
}

/// The most that a counter can show.
pub open spec fn counted(n: nat) -> u64 {
    if n > u64::MAX {
        u64::MAX
    } else {
        n as u64
    }
}

/// How many of the blocks are to be deleted and have such an owner.
pub open spec fn to_delete(
    full_report: bool,
    chunk: Seq<BlockReportInfo>,
    owners: Seq<BlockOwner>,
    owner: BlockOwner,
) -> nat
    decreases owners.len(),
{
    if owners.len() == 0 {
        0
    } else {
        let i = owners.len() - 1;
        to_delete(full_report, chunk, owners.drop_last(), owner) + if owners.last() == owner
            && deletes(chunk[i], owner, full_report) {
            1nat
        } else {
            0nat
        }
    }
}

/// The worker is to delete the block.
pub open spec fn deletes(info: BlockReportInfo, owner: BlockOwner, full_report: bool) -> bool {
    crate::block_report::meaning(info, owner.holds_block(), full_report) is Obsolete
}

/// The deletion of the block has to wait.
pub open spec fn defers(info: BlockReportInfo, owner: BlockOwner, full_report: bool) -> bool {
    crate::block_report::meaning(info, owner.holds_block(), full_report) is Deferred && (owner
        == BlockOwner::Missing || owner == BlockOwner::NotFile)
}

/// The line on a block whose deletion has to wait.
pub open spec fn deferred_line(worker_id: u32, id: i64, owner: BlockOwner) -> Seq<char> {
    "block_report deferred deletion for writing block "@ + crate::text::signed_decimal(id as int)
        + " on worker "@ + crate::text::decimal(worker_id as nat) + if owner
        == BlockOwner::Missing {
        " because its inode is missing"@
    } else {
        " because its inode is not a file"@
    }
}

/// The lines on the blocks whose deletion has to wait, in order.
pub open spec fn deferred_lines(
    worker_id: u32,
    full_report: bool,
    chunk: Seq<BlockReportInfo>,
    owners: Seq<BlockOwner>,
) -> Seq<Seq<char>>
    decreases owners.len(),
{
    if owners.len() == 0 {
        Seq::empty()
    } else {
        let i = owners.len() - 1;
        let rest = deferred_lines(worker_id, full_report, chunk, owners.drop_last());
        if defers(chunk[i], owners.last(), full_report) {
            rest.push(deferred_line(worker_id, chunk[i].id, owners.last()))
        } else {
            rest
        }
    }
}

/// The line on blocks whose inodes are no files.
pub open spec fn orphans_line(worker_id: u32, missing: u64, non_file: u64) -> Seq<char> {
    "block_report found "@ + crate::text::decimal(missing as nat) + " missing-inode and "@
        + crate::text::decimal(non_file as nat) + " non-file-inode blocks for worker "@
        + crate::text::decimal(worker_id as nat) + "; scheduling worker deletion"@
}

/// The line on blocks that their files gave up.
pub open spec fn obsolete_line(worker_id: u32, obsolete: u64) -> Seq<char> {
    "block_report found "@ + crate::text::decimal(obsolete as nat)
        + " obsolete blocks in existing files for worker "@ + crate::text::decimal(
        worker_id as nat,
    ) + "; scheduling worker deletion"@
}

/// The texts of a list.
pub open spec fn texts(lines: Seq<String>) -> Seq<Seq<char>> {
    lines.map_values(|l: String| l@)
}

/// The text of a line, where there is one.
pub open spec fn line_if_any(line: Option<String>) -> Seq<Seq<char>> {
    match line {
        Some(l) => seq![l@],
        None => Seq::empty(),
    }
}

impl BlockReportDiagnostics {
    /// One line on the blocks whose inodes are no files and one on those that
    /// files gave up, as far as there are such blocks.
    pub open spec fn summary_lines(self) -> Seq<Seq<char>> {
        (if self.missing > 0 || self.non_file > 0 {
            seq![orphans_line(self.worker_id, self.missing, self.non_file)]
        } else {
            Seq::empty()
        }) + (if self.obsolete > 0 {
            seq![obsolete_line(self.worker_id, self.obsolete)]
        } else {
            Seq::empty()
        })
    }

    pub fn new(worker_id: u32, full_report: bool) -> (r: Self)
        ensures
            r.worker_id == worker_id,
            r.full_report == full_report,
            r.missing == 0,
            r.non_file == 0,
            r.obsolete == 0,
            r.deferred@.len() == 0,
    {
        BlockReportDiagnostics {
            worker_id,
            full_report,
            missing: 0,
            non_file: 0,
            obsolete: 0,
            deferred: Vec::new(),
        }
    }

    /// Takes in a chunk, as far as its owners could be read. Where one could
    /// not be read the chunk fails as a whole, and nothing of it is counted.
    pub fn observe(&mut self, chunk: &Vec<BlockReportInfo>, owners: &Vec<BlockOwner>)
        requires
            owners@.len() <= chunk@.len(),
        ensures
            final(self).worker_id == old(self).worker_id,
            final(self).full_report == old(self).full_report,
            texts(final(self).deferred@) == texts(old(self).deferred@) + deferred_lines(
                old(self).worker_id,
                old(self).full_report,
                chunk@,
                owners@,
            ),
            owners@.len() < chunk@.len() ==> {
                &&& final(self).missing == old(self).missing
                &&& final(self).non_file == old(self).non_file
                &&& final(self).obsolete == old(self).obsolete
            },
            owners@.len() == chunk@.len() ==> {
                &&& final(self).missing == counted(
                    old(self).missing as nat + to_delete(
                        old(self).full_report,
                        chunk@,
                        owners@,
                        BlockOwner::Missing,
                    ),
                )
                &&& final(self).non_file == counted(
                    old(self).non_file as nat + to_delete(
                        old(self).full_report,
                        chunk@,
                        owners@,
                        BlockOwner::NotFile,
                    ),
                )
                &&& final(self).obsolete == counted(
                    old(self).obsolete as nat + to_delete(
                        old(self).full_report,
                        chunk@,
                        owners@,
                        BlockOwner::File { holds: false },
                    ),
                )
            },
    {
        let worker_id: u32 = self.worker_id;
        let full_report: bool = self.full_report;
        let ghost before = texts(self.deferred@);
        let mut missing: u64 = self.missing;
        let mut non_file: u64 = self.non_file;
        let mut obsolete: u64 = self.obsolete;
        let mut i: usize = 0;
        assert(before =~= before + deferred_lines(
            worker_id,
            full_report,
            chunk@,
            owners@.take(0),
        ));
        while i < owners.len()
            invariant
                i <= owners.len() <= chunk.len(),
                worker_id == self.worker_id,
                full_report == self.full_report,
                self.worker_id == old(self).worker_id,
                self.full_report == old(self).full_report,
                self.missing == old(self).missing,
                self.non_file == old(self).non_file,
                self.obsolete == old(self).obsolete,
                texts(self.deferred@) == before + deferred_lines(
                    worker_id,
                    full_report,
                    chunk@,
                    owners@.take(i as int),
                ),
                missing == counted(
                    old(self).missing as nat + to_delete(
                        full_report,
                        chunk@,
                        owners@.take(i as int),
                        BlockOwner::Missing,
                    ),
                ),
                non_file == counted(
                    old(self).non_file as nat + to_delete(
                        full_report,
                        chunk@,
                        owners@.take(i as int),
                        BlockOwner::NotFile,
                    ),
                ),
                obsolete == counted(
                    old(self).obsolete as nat + to_delete(
                        full_report,
                        chunk@,
                        owners@.take(i as int),
                        BlockOwner::File { holds: false },
                    ),
                ),
            decreases owners.len() - i,
        {
            let info: BlockReportInfo = chunk[i];
            let owner: BlockOwner = owners[i];
            proof {
                crate::ids::take_step(owners@, i as int);
            }
            let ghost lines = self.deferred@;
            if info.status == BlockReportStatus::Writing && !full_report {
                if owner == BlockOwner::Missing || owner == BlockOwner::NotFile {
                    let line: String = describe_deferred(worker_id, info.id, owner);
                    self.deferred.push(line);
                    assert(texts(self.deferred@) =~= texts(lines).push(
                        deferred_line(worker_id, info.id, owner),
                    ));
                }
            } else if info.status != BlockReportStatus::Deleted {
                match owner {
                    BlockOwner::Missing => {
                        missing = missing.saturating_add(1);
                    },
                    BlockOwner::NotFile => {
                        non_file = non_file.saturating_add(1);
                    },
                    BlockOwner::File { holds: false } => {
                        obsolete = obsolete.saturating_add(1);
                    },
                    _ => {},
                }
            }
            assert(texts(self.deferred@) =~= before + deferred_lines(
                worker_id,
                full_report,
                chunk@,
                owners@.take(i + 1),
            ));
            i += 1;
        }
        assert(owners@.take(owners@.len() as int) =~= owners@);
        if owners.len() == chunk.len() {
            self.missing = missing;
            self.non_file = non_file;
            self.obsolete = obsolete;
        }
    }

    /// One line on the blocks whose inodes are no files and one on those that
    /// files gave up, as far as there are such blocks.
    pub fn summary(&self) -> (r: Vec<String>)
        ensures
            texts(r@) == self.summary_lines(),
    {
        let mut r: Vec<String> = Vec::new();
        if self.missing > 0 || self.non_file > 0 {
            let mut line: String = String::new();
            line.append("block_report found ");
            append_u64(&mut line, self.missing);
            line.append(" missing-inode and ");
            append_u64(&mut line, self.non_file);
            line.append(" non-file-inode blocks for worker ");
            append_u64(&mut line, self.worker_id as u64);
            line.append("; scheduling worker deletion");
            assert(line@ =~= orphans_line(self.worker_id, self.missing, self.non_file));
            r.push(line);
        }
        if self.obsolete > 0 {
            let mut line: String = String::new();
            line.append("block_report found ");
            append_u64(&mut line, self.obsolete);
            line.append(" obsolete blocks in existing files for worker ");
            append_u64(&mut line, self.worker_id as u64);
            line.append("; scheduling worker deletion");
            assert(line@ =~= obsolete_line(self.worker_id, self.obsolete));
            r.push(line);
        }
        assert(texts(r@) =~= self.summary_lines());
        r
    }

    /// All lines on the report in the order in which they are given out:
    /// those on deletions that have to wait, the one on a block whose owner
    /// could not be read, and the summary.
    pub fn warnings(self, error_line: Option<String>) -> (r: Vec<String>)
        ensures
            texts(r@) == texts(self.deferred@) + line_if_any(error_line) + self.summary_lines(),
    {
        let mut summary: Vec<String> = self.summary();
        let ghost last = summary@;
        let ghost middle = line_if_any(error_line);
        let mut r: Vec<String> = self.deferred;
        if let Some(line) = error_line {
            r.push(line);
        }
        assert(texts(r@) =~= texts(self.deferred@) + middle);
        let ghost first = r@;
        r.append(&mut summary);
        assert(texts(r@) =~= texts(first) + texts(last));
        r
    }
}

fn describe_deferred(worker_id: u32, id: i64, owner: BlockOwner) -> (r: String)
    ensures
        r@ == deferred_line(worker_id, id, owner),
{
    let mut r: String = String::new();
    r.append("block_report deferred deletion for writing block ");
    append_i64(&mut r, id);
    r.append(" on worker ");
    append_u64(&mut r, worker_id as u64);
    if owner == BlockOwner::Missing {
        r.append(" because its inode is missing");
    } else {
        r.append(" because its inode is not a file");
    }
    assert(r@ =~= deferred_line(worker_id, id, owner));
    r
}

} // verus!
