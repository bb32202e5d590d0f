//! Plain values that describe workers, storages and blocks.

use vstd::prelude::*;

use crate::text::{append_u64, same_text};

verus! {

/// The text of an optional string.
pub open spec fn text_of(s: Option<String>) -> Option<Seq<char>> {
    match s {
        Some(t) => Some(t@),
        None => None,
    }
}

/// The texts of a list of strings.
pub open spec fn texts_of(s: Seq<String>) -> Seq<Seq<char>> {
    s.map_values(|t: String| t@)
}

/// A copy of an optional string.
pub fn copy_text(s: &Option<String>) -> (r: Option<String>)
    ensures
        text_of(r) == text_of(*s),
{
    match s {
        Some(t) => Some(t.clone()),
        None => None,
    }
}

/// A copy of a list of strings.
pub fn copy_texts(s: &Vec<String>) -> (r: Vec<String>)
    ensures
        texts_of(r@) == texts_of(s@),
{
    let mut r: Vec<String> = Vec::new();
    let mut i: usize = 0;
    while i < s.len()
        invariant
            i <= s.len(),
            r@.len() == i,
            forall|j: int| 0 <= j < i ==> r@[j]@ == s@[j]@,
        decreases s.len() - i,
    {
        r.push(s[i].clone());
        i += 1;
    }
    assert(texts_of(r@) =~= texts_of(s@));
    r
}

/// The sum of two values, kept inside the range of `i64`.
pub open spec fn saturating_sum(a: i64, b: i64) -> i64 {
    let sum = a + b;
    if sum > i64::MAX {
        i64::MAX
    } else if sum < i64::MIN {
        i64::MIN
    } else {
        sum as i64
    }
}

/// Adds two values, staying inside the range of `i64`.
pub fn add_saturating(a: i64, b: i64) -> (r: i64)
    ensures
        r == saturating_sum(a, b),
{
    let sum: i128 = a as i128 + b as i128;
    if sum > i64::MAX as i128 {
        i64::MAX
    } else if sum < i64::MIN as i128 {
        i64::MIN
    } else {
        sum as i64
    }
}

#[derive(Clone, Copy, Debug, PartialEq, Eq, Structural)]
pub enum HeartbeatStatus {
    Start,
    Running,
    End,
}

#[derive(Clone, Copy, Debug, PartialEq, Eq, Structural)]
pub enum WorkerStatus {
    Live,
    Blacklist,
    Decommission,
    Lost,
}

#[derive(Clone, Copy, Debug, PartialEq, Eq, Structural)]
pub enum StorageType {
    Disk,
    SpdkDisk,
}

/// The transfer features that a worker announces.
#[derive(Clone, Copy, Debug, PartialEq, Eq, Structural)]
pub struct TransferWorkerCapabilities {
    pub task_submit: bool,
    pub report_target: bool,
    pub query_task: bool,
    pub attempt_safe_output: bool,
    pub source_read_plan: bool,
}

impl Default for TransferWorkerCapabilities {
    fn default() -> (r: Self)
        ensures
            r == (TransferWorkerCapabilities {
                task_submit: false,
                report_target: false,
                query_task: false,
                attempt_safe_output: false,
                source_read_plan: false,
            }),
    {
        TransferWorkerCapabilities {
            task_submit: false,
            report_target: false,
            query_task: false,
            attempt_safe_output: false,
            source_read_plan: false,
        }
    }
}

/// Where a worker listens, and the id that it registered with.
#[derive(Debug, PartialEq, Eq)]
pub struct WorkerAddress {
    pub worker_id: u32,
    pub hostname: String,
    pub ip_addr: String,
    pub rpc_port: u32,
    pub web_port: u32,
}

#[verifier::ext_equal]
pub struct AddressView {
    pub worker_id: u32,
    pub hostname: Seq<char>,
    pub ip_addr: Seq<char>,
    pub rpc_port: u32,
    pub web_port: u32,
}

impl View for WorkerAddress {
    type V = AddressView;

    open spec fn view(&self) -> AddressView {
        AddressView {
            worker_id: self.worker_id,
            hostname: self.hostname@,
            ip_addr: self.ip_addr@,
            rpc_port: self.rpc_port,
            web_port: self.web_port,
        }
    }
}

impl AddressView {
    /// Two addresses that name the same listening process slot: the host and
    /// the RPC port agree.
    pub open spec fn same_endpoint(self, other: AddressView) -> bool {
        self.hostname == other.hostname && self.rpc_port == other.rpc_port
    }
}

impl WorkerAddress {
    /// Appends the address as an operator reads it.
    pub(crate) fn append_to(&self, s: &mut String)
        ensures
            final(s)@ == old(s)@ + self@.text(),
    {
        s.append(self.hostname.as_str());
        s.append(":");
        append_u64(s, self.rpc_port as u64);
        assert(s@ =~= old(s)@ + self@.text());
    }
}

impl Clone for WorkerAddress {
    fn clone(&self) -> (r: Self)
        ensures
            r@ == self@,
    {
        WorkerAddress {
            worker_id: self.worker_id,
            hostname: self.hostname.clone(),
            ip_addr: self.ip_addr.clone(),
            rpc_port: self.rpc_port,
            web_port: self.web_port,
        }
    }
}

impl Default for WorkerAddress {
    fn default() -> (r: Self)
        ensures
            r@ == (AddressView {
                worker_id: 0,
                hostname: Seq::empty(),
                ip_addr: Seq::empty(),
                rpc_port: 0,
                web_port: 0,
            }),
    {
        let r = WorkerAddress {
            worker_id: 0,
            hostname: String::new(),
            ip_addr: String::new(),
            rpc_port: 0,
            web_port: 0,
        };
        assert(r.hostname@ =~= Seq::<char>::empty());
        assert(r.ip_addr@ =~= Seq::<char>::empty());
        r
    }
}

impl WorkerAddress {
    pub fn same_endpoint(&self, other: &WorkerAddress) -> (r: bool)
        ensures
            r == self@.same_endpoint(other@),
    {
        same_text(self.hostname.as_str(), other.hostname.as_str()) && self.rpc_port
            == other.rpc_port
    }

    /// Whether every field agrees.
    pub fn same_address(&self, other: &WorkerAddress) -> (r: bool)
        ensures
            r == (self@ == other@),
    {
        self.worker_id == other.worker_id && same_text(
            self.hostname.as_str(),
            other.hostname.as_str(),
        ) && same_text(self.ip_addr.as_str(), other.ip_addr.as_str()) && self.rpc_port
            == other.rpc_port && self.web_port == other.web_port
    }
}

/// One storage directory as its worker reports it.
#[derive(Debug, PartialEq, Eq)]
pub struct StorageInfo {
    pub dir_id: u32,
    pub storage_id: String,
    pub failed: bool,
    pub capacity: i64,
    pub fs_used: i64,
    pub non_fs_used: i64,
    pub available: i64,
    pub reserved_bytes: i64,
    pub block_num: i64,
    pub storage_type: StorageType,
}

#[verifier::ext_equal]
pub struct StorageView {
    pub dir_id: u32,
    pub storage_id: Seq<char>,
    pub failed: bool,
    pub capacity: i64,
    pub fs_used: i64,
    pub non_fs_used: i64,
    pub available: i64,
    pub reserved_bytes: i64,
    pub block_num: i64,
    pub storage_type: StorageType,
}

impl View for StorageInfo {
    type V = StorageView;

    open spec fn view(&self) -> StorageView {
        StorageView {
            dir_id: self.dir_id,
            storage_id: self.storage_id@,
            failed: self.failed,
            capacity: self.capacity,
            fs_used: self.fs_used,
            non_fs_used: self.non_fs_used,
            available: self.available,
            reserved_bytes: self.reserved_bytes,
            block_num: self.block_num,
            storage_type: self.storage_type,
        }
    }
}

impl Clone for StorageInfo {
    fn clone(&self) -> (r: Self)
        ensures
            r@ == self@,
    {
        StorageInfo {
            dir_id: self.dir_id,
            storage_id: self.storage_id.clone(),
            failed: self.failed,
            capacity: self.capacity,
            fs_used: self.fs_used,
            non_fs_used: self.non_fs_used,
            available: self.available,
            reserved_bytes: self.reserved_bytes,
            block_num: self.block_num,
            storage_type: self.storage_type,
        }
    }
}

impl Default for StorageInfo {
    fn default() -> (r: Self)
        ensures
            r@ == (StorageView {
                dir_id: 0,
                storage_id: Seq::empty(),
                failed: false,
                capacity: 0,
                fs_used: 0,
                non_fs_used: 0,
                available: 0,
                reserved_bytes: 0,
                block_num: 0,
                storage_type: StorageType::Disk,
            }),
    {
        let r = StorageInfo {
            dir_id: 0,
            storage_id: String::new(),
            failed: false,
            capacity: 0,
            fs_used: 0,
            non_fs_used: 0,
            available: 0,
            reserved_bytes: 0,
            block_num: 0,
            storage_type: StorageType::Disk,
        };
        assert(r.storage_id@ =~= Seq::<char>::empty());
        r
    }
}

/// The views of a list of storages.
pub open spec fn storages_of(s: Seq<StorageInfo>) -> Seq<StorageView> {
    s.map_values(|t: StorageInfo| t@)
}

/// The build and protocol identity that a peer announces.
#[derive(Debug, PartialEq, Eq)]
pub struct ComponentInfo {
    pub component: Option<String>,
    pub release_version: Option<String>,
    pub git_commit: Option<String>,
    pub git_tag: Option<String>,
    pub git_branch: Option<String>,
    pub protocol_version: Option<u32>,
    pub min_protocol_version: Option<u32>,
    pub capabilities: Vec<String>,
}

#[verifier::ext_equal]
pub struct ComponentView {
    pub component: Option<Seq<char>>,
    pub release_version: Option<Seq<char>>,
    pub git_commit: Option<Seq<char>>,
    pub git_tag: Option<Seq<char>>,
    pub git_branch: Option<Seq<char>>,
    pub protocol_version: Option<u32>,
    pub min_protocol_version: Option<u32>,
    pub capabilities: Seq<Seq<char>>,
}

impl View for ComponentInfo {
    type V = ComponentView;

    open spec fn view(&self) -> ComponentView {
        ComponentView {
            component: text_of(self.component),
            release_version: text_of(self.release_version),
            git_commit: text_of(self.git_commit),
            git_tag: text_of(self.git_tag),
            git_branch: text_of(self.git_branch),
            protocol_version: self.protocol_version,
            min_protocol_version: self.min_protocol_version,
            capabilities: texts_of(self.capabilities@),
        }
    }
}

impl Clone for ComponentInfo {
    fn clone(&self) -> (r: Self)
        ensures
            r@ == self@,
    {
        ComponentInfo {
            component: copy_text(&self.component),
            release_version: copy_text(&self.release_version),
            git_commit: copy_text(&self.git_commit),
            git_tag: copy_text(&self.git_tag),
            git_branch: copy_text(&self.git_branch),
            protocol_version: self.protocol_version,
            min_protocol_version: self.min_protocol_version,
            capabilities: copy_texts(&self.capabilities),
        }
    }
}

/// The view of optional component information.
pub open spec fn component_of(c: Option<ComponentInfo>) -> Option<ComponentView> {
    match c {
        Some(v) => Some(v@),
        None => None,
    }
}

/// A copy of optional component information.
pub fn copy_component(c: &Option<ComponentInfo>) -> (r: Option<ComponentInfo>)
    ensures
        component_of(r) == component_of(*c),
{
    match c {
        Some(v) => Some(v.clone()),
        None => None,
    }
}

/// A worker as the master knows it.
#[derive(Debug, PartialEq, Eq)]
pub struct WorkerInfo {
    pub address: WorkerAddress,
    pub weight: u32,
    pub worker_session_id: String,
    pub startup_time_ms: u64,
    pub software_version: String,
    pub transfer_capabilities: TransferWorkerCapabilities,
    pub component_info: Option<ComponentInfo>,
    pub status: WorkerStatus,
    pub last_update: u64,
    pub storages: Vec<StorageInfo>,
    pub capacity: i64,
    pub available: i64,
    pub fs_used: i64,
    pub non_fs_used: i64,
    pub reserved_bytes: i64,
    pub block_num: i64,
}

#[verifier::ext_equal]
pub struct WorkerView {
    pub address: AddressView,
    pub weight: u32,
    pub worker_session_id: Seq<char>,
    pub startup_time_ms: u64,
    pub software_version: Seq<char>,
    pub transfer_capabilities: TransferWorkerCapabilities,
    pub component_info: Option<ComponentView>,
    pub status: WorkerStatus,
    pub last_update: u64,
    pub storages: Seq<StorageView>,
    pub capacity: i64,
    pub available: i64,
    pub fs_used: i64,
    pub non_fs_used: i64,
    pub reserved_bytes: i64,
    pub block_num: i64,
}

impl View for WorkerInfo {
    type V = WorkerView;

    open spec fn view(&self) -> WorkerView {
        WorkerView {
            address: self.address@,
            weight: self.weight,
            worker_session_id: self.worker_session_id@,
            startup_time_ms: self.startup_time_ms,
            software_version: self.software_version@,
            transfer_capabilities: self.transfer_capabilities,
            component_info: component_of(self.component_info),
            status: self.status,
            last_update: self.last_update,
            storages: storages_of(self.storages@),
            capacity: self.capacity,
            available: self.available,
            fs_used: self.fs_used,
            non_fs_used: self.non_fs_used,
            reserved_bytes: self.reserved_bytes,
            block_num: self.block_num,
        }
    }
}

impl WorkerView {
    /// A worker seen at `now_ms` that has reported no storage yet.
    pub open spec fn fresh(address: AddressView, weight: u32, now_ms: u64) -> WorkerView {
        WorkerView {
            address,
            weight,
            worker_session_id: Seq::empty(),
            startup_time_ms: 0,
            software_version: Seq::empty(),
            transfer_capabilities: TransferWorkerCapabilities {
                task_submit: false,
                report_target: false,
                query_task: false,
                attempt_safe_output: false,
                source_read_plan: false,
            },
            component_info: None,
            status: WorkerStatus::Live,
            last_update: now_ms,
            storages: Seq::empty(),
            capacity: 0,
            available: 0,
            fs_used: 0,
            non_fs_used: 0,
            reserved_bytes: 0,
            block_num: 0,
        }
    }

    /// The worker with one more storage: a failed directory changes nothing,
    /// a healthy one is listed and counted.
    pub open spec fn with_storage(self, s: StorageView) -> WorkerView {
        if s.failed {
            self
        } else {
            WorkerView {
                storages: self.storages.push(s),
                capacity: saturating_sum(self.capacity, s.capacity),
                available: saturating_sum(self.available, s.available),
                fs_used: saturating_sum(self.fs_used, s.fs_used),
                non_fs_used: saturating_sum(self.non_fs_used, s.non_fs_used),
                reserved_bytes: saturating_sum(self.reserved_bytes, s.reserved_bytes),
                block_num: saturating_sum(self.block_num, s.block_num),
                ..self
            }
        }
    }

    /// The worker with all of `s` added in turn.
    pub open spec fn with_storages(self, s: Seq<StorageView>) -> WorkerView
        decreases s.len(),
    {
        if s.len() == 0 {
            self
        } else {
            self.with_storages(s.drop_last()).with_storage(s.last())
        }
    }

    /// The worker under another status.
    pub open spec fn with_status(self, status: WorkerStatus) -> WorkerView {
        WorkerView { status, ..self }
    }
}

impl Clone for WorkerInfo {
    fn clone(&self) -> (r: Self)
        ensures
            r@ == self@,
    {
        let mut storages: Vec<StorageInfo> = Vec::new();
        let mut i: usize = 0;
        while i < self.storages.len()
            invariant
                i <= self.storages.len(),
                storages@.len() == i,
                forall|j: int| 0 <= j < i ==> storages@[j]@ == self.storages@[j]@,
            decreases self.storages.len() - i,
        {
            storages.push(self.storages[i].clone());
            i += 1;
        }
        assert(storages_of(storages@) =~= storages_of(self.storages@));
        WorkerInfo {
            address: self.address.clone(),
            weight: self.weight,
            worker_session_id: self.worker_session_id.clone(),
            startup_time_ms: self.startup_time_ms,
            software_version: self.software_version.clone(),
            transfer_capabilities: self.transfer_capabilities,
            component_info: copy_component(&self.component_info),
            status: self.status,
            last_update: self.last_update,
            storages,
            capacity: self.capacity,
            available: self.available,
            fs_used: self.fs_used,
            non_fs_used: self.non_fs_used,
            reserved_bytes: self.reserved_bytes,
            block_num: self.block_num,
        }
    }
}

impl Default for WorkerInfo {
    fn default() -> (r: Self)
        ensures
            r@ == WorkerView::fresh(
                (AddressView {
                    worker_id: 0,
                    hostname: Seq::empty(),
                    ip_addr: Seq::empty(),
                    rpc_port: 0,
                    web_port: 0,
                }),
                0,
                0,
            ),
    {
        WorkerInfo::new(WorkerAddress::default(), 0, 0)
    }
}

impl WorkerInfo {
    /// A live worker last seen at `now_ms`, without session or storages.
    pub fn new(address: WorkerAddress, weight: u32, now_ms: u64) -> (r: Self)
        ensures
            r@ == WorkerView::fresh(address@, weight, now_ms),
    {
        let r = WorkerInfo {
            address,
            weight,
            worker_session_id: String::new(),
            startup_time_ms: 0,
            software_version: String::new(),
            transfer_capabilities: TransferWorkerCapabilities::default(),
            component_info: None,
            status: WorkerStatus::Live,
            last_update: now_ms,
            storages: Vec::new(),
            capacity: 0,
            available: 0,
            fs_used: 0,
            non_fs_used: 0,
            reserved_bytes: 0,
            block_num: 0,
        };
        assert(r@ =~= WorkerView::fresh(address@, weight, now_ms));
        r
    }

    pub fn worker_id(&self) -> (r: u32)
        ensures
            r == self@.address.worker_id,
    {
        self.address.worker_id
    }

    /// Lists and counts a healthy storage directory; a failed one is skipped.
    pub fn add_storage(&mut self, storage: StorageInfo)
        ensures
            final(self)@ == old(self)@.with_storage(storage@),
    {
        if storage.failed {
            return;
        }
        self.capacity = add_saturating(self.capacity, storage.capacity);
        self.available = add_saturating(self.available, storage.available);
        self.fs_used = add_saturating(self.fs_used, storage.fs_used);
        self.non_fs_used = add_saturating(self.non_fs_used, storage.non_fs_used);
        self.reserved_bytes = add_saturating(self.reserved_bytes, storage.reserved_bytes);
        self.block_num = add_saturating(self.block_num, storage.block_num);
        self.storages.push(storage);
        assert(self@ =~= old(self)@.with_storage(storage@));
    }

    /// Adds every storage of the list in turn.
    pub fn add_storages(&mut self, list: Vec<StorageInfo>)
        ensures
            final(self)@ == old(self)@.with_storages(storages_of(list@)),
    {
        let ghost all = storages_of(list@);
        let mut i: usize = 0;
        while i < list.len()
            invariant
                i <= list.len(),
                all == storages_of(list@),
                self@ == old(self)@.with_storages(all.take(i as int)),
            decreases list.len() - i,
        {
            self.add_storage(list[i].clone());
            proof {
                let next = all.take(i + 1);
                assert(next.drop_last() =~= all.take(i as int));
                assert(next.last() == list@[i as int]@);
            }
            i += 1;
        }
        assert(all.take(all.len() as int) =~= all);
    }

    /// `<worker id>,<host>:<rpc port>`
    pub fn simple_string(&self) -> (r: String)
        ensures
            r@ == self@.address.simple_text(),
    {
        let mut s: String = String::new();
        append_u64(&mut s, self.address.worker_id as u64);
        s.append(",");
        self.address.append_to(&mut s);
        assert(s@ =~= self@.address.simple_text());
        s
    }
}

impl AddressView {
    /// `<worker id>,<host>:<rpc port>`
    pub open spec fn simple_text(self) -> Seq<char> {
        crate::text::decimal(self.worker_id as nat) + ","@ + self.text()
    }

    /// `<host>:<rpc port>`
    pub open spec fn text(self) -> Seq<char> {
        self.hostname + ":"@ + crate::text::decimal(self.rpc_port as nat)
    }
}

/// Where one replica of a block lies.
#[derive(Clone, Copy, Debug, PartialEq, Eq, Structural)]
pub struct BlockLocation {
    pub worker_id: u32,
    pub storage_type: StorageType,
}

impl BlockLocation {
    /// A location on the worker's default storage.
    pub fn with_id(worker_id: u32) -> (r: Self)
        ensures
            r == (BlockLocation { worker_id, storage_type: StorageType::Disk }),
    {
        BlockLocation { worker_id, storage_type: StorageType::Disk }
    }
}

/// What an inode stands for.
#[derive(Clone, Copy, Debug, PartialEq, Eq, Structural)]
pub enum FileType {
    Dir,
    File,
    Link,
}

/// How a file's space is to be allocated.
#[derive(Clone, Copy, Debug, PartialEq, Eq, Structural)]
pub struct FileAllocOpts {
    pub truncate: bool,
    pub len: i64,
    pub mode: i32,
}

impl FileAllocOpts {
    /// Allocates space up to `len`.
    pub fn with_alloc(len: i64, mode: i32) -> (r: Self)
        ensures
            r == (FileAllocOpts { truncate: false, len, mode }),
    {
        FileAllocOpts { truncate: false, len, mode }
    }

    /// Sets the length to `len` without allocating space.
    pub fn with_truncate(len: i64) -> (r: Self)
        ensures
            r == (FileAllocOpts { truncate: true, len, mode: 0 }),
    {
        FileAllocOpts { truncate: true, len, mode: 0 }
    }
}

/// A block as clients see it.
#[derive(Clone, Copy, Debug, PartialEq, Eq, Structural)]
pub struct ExtendedBlock {
    pub id: i64,
    pub len: i64,
    pub storage_type: StorageType,
    pub file_type: FileType,
    pub alloc_opts: Option<FileAllocOpts>,
}

/// A block with the workers that hold it.
#[derive(Debug, PartialEq, Eq)]
pub struct LocatedBlock {
    pub block: ExtendedBlock,
    pub locs: Vec<WorkerAddress>,
    pub has_spdk: bool,
}

#[verifier::ext_equal]
pub struct LocatedView {
    pub block: ExtendedBlock,
    pub locs: Seq<AddressView>,
    pub has_spdk: bool,
}

/// The views of a list of addresses.
pub open spec fn addresses_of(s: Seq<WorkerAddress>) -> Seq<AddressView> {
    s.map_values(|a: WorkerAddress| a@)
}

impl View for LocatedBlock {
    type V = LocatedView;

    open spec fn view(&self) -> LocatedView {
        LocatedView {
            block: self.block,
            locs: addresses_of(self.locs@),
            has_spdk: self.has_spdk,
        }
    }
}

/// One block of a file.
#[derive(Clone, Copy, Debug, PartialEq, Eq, Structural)]
pub struct BlockMeta {
    pub id: i64,
    pub len: i64,
    pub alloc_opts: Option<FileAllocOpts>,
}

/// A file's record, as far as blocks are concerned.
#[derive(Debug, PartialEq, Eq)]
pub struct InodeFile {
    pub id: i64,
    pub len: i64,
    pub block_size: i64,
    pub replicas: u8,
    pub storage_type: StorageType,
    pub file_type: FileType,
    pub blocks: Vec<BlockMeta>,
}

impl InodeFile {
    /// The block as clients see it.
    pub open spec fn extended(self, meta: BlockMeta) -> ExtendedBlock {
        ExtendedBlock {
            id: meta.id,
            len: meta.len,
            storage_type: self.storage_type,
            file_type: self.file_type,
            alloc_opts: meta.alloc_opts,
        }
    }

    pub fn extended_block(&self, meta: &BlockMeta) -> (r: ExtendedBlock)
        ensures
            r == self.extended(*meta),
    {
        ExtendedBlock {
            id: meta.id,
            len: meta.len,
            storage_type: self.storage_type,
            file_type: self.file_type,
            alloc_opts: meta.alloc_opts,
        }
    }

    /// The block that is already allocated behind `last`, if there is one.
    pub fn search_next_block(&self, last: Option<i64>) -> (r: Option<BlockMeta>)
        ensures
            r == next_block(self.blocks@, last),
    {
        let id: i64 = match last {
            Some(id) => id,
            None => {
                if self.blocks.len() > 0 {
                    return Some(self.blocks[0]);
                }
                return None;
            },
        };
        let mut i: usize = 0;
        assert(self.blocks@.skip(0) =~= self.blocks@);
        while i < self.blocks.len()
            invariant
                i <= self.blocks.len(),
                last == Some(id),
                next_block(self.blocks@, last) == block_behind(self.blocks@.skip(i as int), id),
            decreases self.blocks.len() - i,
        {
            let ghost rest = self.blocks@.skip(i as int);
            assert(rest[0] == self.blocks@[i as int]);
            if self.blocks[i].id == id {
                if i + 1 < self.blocks.len() {
                    assert(rest[1] == self.blocks@[i + 1]);
                    return Some(self.blocks[i + 1]);
                }
                return None;
            }
            assert(rest.drop_first() =~= self.blocks@.skip(i + 1));
            i += 1;
        }
        None
    }
}

/// The block right behind the first one with the id.
pub open spec fn block_behind(blocks: Seq<BlockMeta>, id: i64) -> Option<BlockMeta>
    decreases blocks.len(),
{
    if blocks.len() == 0 {
        None
    } else if blocks[0].id == id {
        if blocks.len() > 1 {
            Some(blocks[1])
        } else {
            None
        }
    } else {
        block_behind(blocks.drop_first(), id)
    }
}

/// The block behind `last`: the first block where there is no last one.
pub open spec fn next_block(blocks: Seq<BlockMeta>, last: Option<i64>) -> Option<BlockMeta> {
    match last {
        None => if blocks.len() > 0 {
            Some(blocks[0])
        } else {
            None
        },
        Some(id) => block_behind(blocks, id),
    }
}

/// What a client learns of a file or directory.
#[derive(Debug, PartialEq, Eq)]
pub struct FileStatus {
    pub id: i64,
    pub path: String,
    pub name: String,
    pub len: i64,
    pub is_dir: bool,
}

impl Clone for FileStatus {
    fn clone(&self) -> (r: Self)
        ensures
            r == *self,
    {
        FileStatus {
            id: self.id,
            path: self.path.clone(),
            name: self.name.clone(),
            len: self.len,
            is_dir: self.is_dir,
        }
    }
}

/// A file with the locations of its blocks.
#[derive(Debug, PartialEq, Eq)]
pub struct FileBlocks {
    pub status: FileStatus,
    pub block_locs: Vec<LocatedBlock>,
}

/// Who asks for a block.
#[derive(Debug, PartialEq, Eq)]
pub struct ClientAddress {
    pub client_name: String,
    pub hostname: String,
}

/// A block that a client has written.
#[derive(Debug, PartialEq, Eq)]
pub struct CommitBlock {
    pub block_id: i64,
    pub block_len: i64,
    pub locations: Vec<BlockLocation>,
}

} // verus!
