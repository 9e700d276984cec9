//! Topology snapshot of a leader.

use crate::common::{max_int, min_int, LogicalLayoutHandle};
use vstd::prelude::*;

verus! {

/// Axis of a KV tensor.
#[derive(Debug, Clone, Copy, PartialEq, Eq, Structural)]
pub enum KvDim {
    Layer,
    Outer,
    Page,
    HeadCount,
    HeadSize,
}

/// Axis of a block.
#[derive(Debug, Clone, Copy, PartialEq, Eq, Structural)]
pub enum BlockDim {
    Layer,
    Outer,
    Page,
    Head,
}

/// Order of the axes inside a block.
#[derive(Debug, Clone, Copy, PartialEq, Eq)]
pub enum KvBlockLayout {
    Universal,
    OperationalHND,
    OperationalNHD,
    Unknown,
    Custom([BlockDim; 4]),
}

/// How a layout places its blocks in memory.
#[derive(Debug, Clone, Copy, PartialEq, Eq)]
pub enum LayoutTypeDetails {
    FullyContiguous(KvBlockLayout),
    LayerSeparate(KvBlockLayout),
}

/// Where a layout lives.
#[derive(Debug, Clone, Copy, PartialEq, Eq, Structural)]
pub enum StorageKind {
    System,
    Pinned,
    Device(u32),
    Disk(u64),
}

/// Shape of a layout.
#[derive(Debug, Clone, Copy, PartialEq, Eq, Structural)]
pub struct LayoutConfig {
    pub num_blocks: usize,
    pub num_layers: usize,
    pub outer_dim: usize,
    pub page_size: usize,
    pub inner_dim: usize,
    pub alignment: usize,
    pub dtype_width_bytes: usize,
    pub num_heads: Option<usize>,
}

/// Half-open range of layers.
#[derive(Debug, Clone, Copy, PartialEq, Eq, Structural)]
pub struct LayerRange {
    pub start: usize,
    pub end: usize,
}

/// Place of one worker in its parallelism group.
#[derive(Debug)]
pub struct ParallelismDescription {
    pub rank: usize,
    pub tp_size: usize,
    pub pp_size: usize,
    pub shard_axis: KvDim,
    pub layer_ownership: LayerRange,
    pub global_extents: Vec<(KvDim, usize)>,
}

impl ParallelismDescription {
    /// Both belong to the same group: sizes, axis and extents agree.
    pub open spec fn agrees(self, other: Self) -> bool {
        &&& self.tp_size == other.tp_size
        &&& self.pp_size == other.pp_size
        &&& self.shard_axis == other.shard_axis
        &&& self.global_extents@ == other.global_extents@
    }
}

/// One layout as a worker exports it.
#[derive(Debug)]
pub struct ExportedLayout {
    pub tier: LogicalLayoutHandle,
    pub config: LayoutConfig,
    pub location: StorageKind,
    pub details: LayoutTypeDetails,
    /// Size of one block, from the physical layout.
    pub bytes_per_block: usize,
}

/// Everything one worker exports.
#[derive(Debug)]
pub struct ExportedWorker {
    pub worker_id: u64,
    pub nixl_agent_name: String,
    /// The stamped descriptor, if the worker carries one.
    pub parallelism: Option<ParallelismDescription>,
    pub layouts: Vec<ExportedLayout>,
}

/// One layout as the snapshot shows it.
#[derive(Debug)]
pub struct LayoutDescription {
    pub tier: LogicalLayoutHandle,
    pub config: LayoutConfig,
    pub location: StorageKind,
    pub layout_type: &'static str,
    pub block_layout: String,
    pub bytes_per_block: usize,
    pub total_bytes: usize,
}

/// One worker as the snapshot shows it.
#[derive(Debug)]
pub struct WorkerInfo {
    pub worker_id: u64,
    pub nixl_agent_name: String,
    pub parallelism: Option<ParallelismDescription>,
    pub layouts: Vec<LayoutDescription>,
}

/// Capacity of one tier over all workers.
#[derive(Debug, Clone, Copy, PartialEq, Eq, Structural)]
pub struct TierCapacity {
    pub tier: LogicalLayoutHandle,
    pub num_blocks: usize,
    pub bytes_per_block: usize,
    pub total_bytes: u64,
}

/// The name of a layout type.
pub open spec fn layout_type_text(details: LayoutTypeDetails) -> Seq<char> {
    match details {
        LayoutTypeDetails::FullyContiguous(_) => "fully_contiguous"@,
        LayoutTypeDetails::LayerSeparate(_) => "layer_separate"@,
    }
}

/// The name of a block axis.
pub open spec fn block_dim_text(dim: BlockDim) -> Seq<char> {
    match dim {
        BlockDim::Layer => "layer"@,
        BlockDim::Outer => "outer"@,
        BlockDim::Page => "page"@,
        BlockDim::Head => "head"@,
    }
}

/// The block layout that a layout type carries.
pub open spec fn block_layout_of(details: LayoutTypeDetails) -> KvBlockLayout {
    match details {
        LayoutTypeDetails::FullyContiguous(layout) => layout,
        LayoutTypeDetails::LayerSeparate(layout) => layout,
    }
}

/// The name of a block layout. A custom order lists its axes.
pub open spec fn block_layout_text(layout: KvBlockLayout) -> Seq<char> {
    match layout {
        KvBlockLayout::Universal => "universal"@,
        KvBlockLayout::OperationalHND => "operational_hnd"@,
        KvBlockLayout::OperationalNHD => "operational_nhd"@,
        KvBlockLayout::Unknown => "unknown"@,
        KvBlockLayout::Custom(dims) => "custom["@ + block_dim_text(dims@[0]) + "-"@ + block_dim_text(
            dims@[1],
        ) + "-"@ + block_dim_text(dims@[2]) + "-"@ + block_dim_text(dims@[3]) + "]"@,
    }
}

/// Name of a layout type.
pub fn layout_type_name(details: &LayoutTypeDetails) -> (name: &'static str)
    ensures
        name@ == layout_type_text(*details),
{
    match details {
        LayoutTypeDetails::FullyContiguous(_) => "fully_contiguous",
        LayoutTypeDetails::LayerSeparate(_) => "layer_separate",
    }
}

/// Name of a block axis.
pub fn block_dim_short_name(dim: &BlockDim) -> (name: &'static str)
    ensures
        name@ == block_dim_text(*dim),
{
    match dim {
        BlockDim::Layer => "layer",
        BlockDim::Outer => "outer",
        BlockDim::Page => "page",
        BlockDim::Head => "head",
    }
}

/// Name of the block layout that a layout type carries.
pub fn kv_block_layout_name(details: &LayoutTypeDetails) -> (name: String)
    ensures
        name@ == block_layout_text(block_layout_of(*details)),
{
    let layout: KvBlockLayout = match details {
        LayoutTypeDetails::FullyContiguous(layout) => *layout,
        LayoutTypeDetails::LayerSeparate(layout) => *layout,
    };
    match layout {
        KvBlockLayout::Universal => String::from_str("universal"),
        KvBlockLayout::OperationalHND => String::from_str("operational_hnd"),
        KvBlockLayout::OperationalNHD => String::from_str("operational_nhd"),
        KvBlockLayout::Unknown => String::from_str("unknown"),
        KvBlockLayout::Custom(dims) => {
            let mut name = String::from_str("custom[");
            name.append(block_dim_short_name(&dims[0]));
            name.append("-");
            name.append(block_dim_short_name(&dims[1]));
            name.append("-");
            name.append(block_dim_short_name(&dims[2]));
            name.append("-");
            name.append(block_dim_short_name(&dims[3]));
            name.append("]");
            name
        },
    }
}

/// What the snapshot shows of an exported layout.
pub open spec fn describes_layout(shown: LayoutDescription, exported: ExportedLayout) -> bool {
    &&& shown.tier == exported.tier
    &&& shown.config == exported.config
    &&& shown.location == exported.location
    &&& shown.layout_type@ == layout_type_text(exported.details)
    &&& shown.block_layout@ == block_layout_text(block_layout_of(exported.details))
    &&& shown.bytes_per_block == exported.bytes_per_block
    &&& shown.total_bytes == min_int(
        exported.bytes_per_block * exported.config.num_blocks,
        usize::MAX as int,
    )
}

/// What the snapshot shows of an exported worker. A worker without a stamped
/// descriptor is shown without one.
pub open spec fn describes_worker(shown: WorkerInfo, exported: ExportedWorker) -> bool {
    &&& shown.worker_id == exported.worker_id
    &&& shown.nixl_agent_name == exported.nixl_agent_name
    &&& shown.parallelism == exported.parallelism
    &&& shown.layouts@.len() == exported.layouts@.len()
    &&& forall|i: int|
        #![trigger shown.layouts@[i]]
        0 <= i < shown.layouts@.len() ==> describes_layout(
            shown.layouts@[i],
            exported.layouts@[i],
        )
}

/// Shows one exported layout.
pub fn describe_layout(exported: &ExportedLayout) -> (shown: LayoutDescription)
    ensures
        describes_layout(shown, *exported),
{
    let total_bytes: usize = match exported.bytes_per_block.checked_mul(exported.config.num_blocks) {
        Some(total) => total,
        None => usize::MAX,
    };
    LayoutDescription {
        tier: exported.tier,
        config: exported.config,
        location: exported.location,
        layout_type: layout_type_name(&exported.details),
        block_layout: kv_block_layout_name(&exported.details),
        bytes_per_block: exported.bytes_per_block,
        total_bytes,
    }
}

/// Shows one exported worker.
pub fn describe_worker(exported: ExportedWorker) -> (shown: WorkerInfo)
    ensures
        describes_worker(shown, exported),
{
    let mut layouts: Vec<LayoutDescription> = Vec::with_capacity(exported.layouts.len());
    let mut index: usize = 0;
    while index < exported.layouts.len()
        invariant
            index <= exported.layouts@.len(),
            layouts@.len() == index,
            forall|i: int|
                #![trigger layouts@[i]]
                0 <= i < index ==> describes_layout(layouts@[i], exported.layouts@[i]),
        decreases exported.layouts@.len() - index,
    {
        layouts.push(describe_layout(&exported.layouts[index]));
        index = index + 1;
    }
    WorkerInfo {
        worker_id: exported.worker_id,
        nixl_agent_name: exported.nixl_agent_name,
        parallelism: exported.parallelism,
        layouts,
    }
}

/// The layouts of all workers, in order.
pub open spec fn layouts_of(workers: Seq<WorkerInfo>) -> Seq<LayoutDescription>
    decreases workers.len(),
{
    if workers.len() == 0 {
        Seq::empty()
    } else {
        layouts_of(workers.drop_last()) + workers.last().layouts@
    }
}

/// The page size that all layouts share.
pub open spec fn shared_page_size(layouts: Seq<LayoutDescription>) -> Option<usize> {
    if layouts.len() > 0 && forall|i: int|
        #![trigger layouts[i]]
        0 <= i < layouts.len() ==> layouts[i].config.page_size == layouts[0].config.page_size {
        Some(layouts[0].config.page_size)
    } else {
        None
    }
}

/// Blocks of one tier.
pub open spec fn tier_blocks(layouts: Seq<LayoutDescription>, tier: LogicalLayoutHandle) -> int
    decreases layouts.len(),
{
    if layouts.len() == 0 {
        0
    } else {
        tier_blocks(layouts.drop_last(), tier) + if layouts.last().tier == tier {
            layouts.last().config.num_blocks as int
        } else {
            0
        }
    }
}

/// Bytes of one tier.
pub open spec fn tier_bytes(layouts: Seq<LayoutDescription>, tier: LogicalLayoutHandle) -> int
    decreases layouts.len(),
{
    if layouts.len() == 0 {
        0
    } else {
        tier_bytes(layouts.drop_last(), tier) + if layouts.last().tier == tier {
            layouts.last().total_bytes as int
        } else {
            0
        }
    }
}

/// Block size of the first layout of one tier, if the tier has any.
pub open spec fn tier_block_bytes(
    layouts: Seq<LayoutDescription>,
    tier: LogicalLayoutHandle,
) -> Option<usize>
    decreases layouts.len(),
{
    if layouts.len() == 0 {
        None
    } else {
        match tier_block_bytes(layouts.drop_last(), tier) {
            Some(bytes) => Some(bytes),
            None => if layouts.last().tier == tier {
                Some(layouts.last().bytes_per_block)
            } else {
                None
            },
        }
    }
}

/// Capacity of one tier, if it has a layout. Counters stop at their limit.
pub open spec fn tier_capacity(
    layouts: Seq<LayoutDescription>,
    tier: LogicalLayoutHandle,
) -> Option<TierCapacity> {
    match tier_block_bytes(layouts, tier) {
        Some(bytes) => Some(
            TierCapacity {
                tier,
                num_blocks: min_int(tier_blocks(layouts, tier), usize::MAX as int) as usize,
                bytes_per_block: bytes,
                total_bytes: min_int(tier_bytes(layouts, tier), u64::MAX as int) as u64,
            },
        ),
        None => None,
    }
}

/// A list of at most one element.
pub open spec fn option_seq<T>(value: Option<T>) -> Seq<T> {
    match value {
        Some(v) => seq![v],
        None => Seq::empty(),
    }
}

/// Capacities of the tiers that have layouts, from device memory to object
/// store.
pub open spec fn tier_capacities(layouts: Seq<LayoutDescription>) -> Seq<TierCapacity> {
    option_seq(tier_capacity(layouts, LogicalLayoutHandle::G1)) + option_seq(
        tier_capacity(layouts, LogicalLayoutHandle::G2),
    ) + option_seq(tier_capacity(layouts, LogicalLayoutHandle::G3)) + option_seq(
        tier_capacity(layouts, LogicalLayoutHandle::G4),
    )
}

/// Every worker carries a descriptor, and all belong to one group.
pub open spec fn one_group(workers: Seq<WorkerInfo>) -> bool {
    &&& workers.len() > 0
    &&& workers[0].parallelism is Some
    &&& forall|i: int|
        #![trigger workers[i]]
        0 <= i < workers.len() ==> workers[i].parallelism is Some
            && workers[i].parallelism->0.agrees(workers[0].parallelism->0)
}

/// Lowest layer that some worker owns.
pub open spec fn first_layer(workers: Seq<WorkerInfo>) -> int
    recommends
        workers.len() > 0,
    decreases workers.len(),
{
    let own = workers.last().parallelism->0.layer_ownership.start as int;
    if workers.len() <= 1 {
        own
    } else {
        min_int(first_layer(workers.drop_last()), own)
    }
}

/// End of the highest layer range that some worker owns.
pub open spec fn last_layer(workers: Seq<WorkerInfo>) -> int
    recommends
        workers.len() > 0,
    decreases workers.len(),
{
    let own = workers.last().parallelism->0.layer_ownership.end as int;
    if workers.len() <= 1 {
        own
    } else {
        max_int(last_layer(workers.drop_last()), own)
    }
}

/// Page size shared by all layouts of all workers, if there is one.
pub fn common_page_size(workers: &Vec<WorkerInfo>) -> (size: Option<usize>)
    ensures
        size == shared_page_size(layouts_of(workers@)),
{
    let mut seen: Option<usize> = None;
    let mut windex: usize = 0;
    let ghost all = layouts_of(workers@);
    while windex < workers.len()
        invariant
            windex <= workers@.len(),
            all == layouts_of(workers@),
            seen == shared_page_size(layouts_of(workers@.take(windex as int))),
            seen is None ==> layouts_of(workers@.take(windex as int)).len() == 0,
        decreases workers@.len() - windex,
    {
        let layouts = &workers[windex].layouts;
        let ghost before = layouts_of(workers@.take(windex as int));
        let mut lindex: usize = 0;
        assert(before + layouts@.take(0) =~= before);
        while lindex < layouts.len()
            invariant
                windex < workers@.len(),
                *layouts == workers@[windex as int].layouts,
                lindex <= layouts@.len(),
                all == layouts_of(workers@),
                before == layouts_of(workers@.take(windex as int)),
                seen == shared_page_size(before + layouts@.take(lindex as int)),
                seen is None ==> (before + layouts@.take(lindex as int)).len() == 0,
            decreases layouts@.len() - lindex,
        {
            let page_size: usize = layouts[lindex].config.page_size;
            let ghost known = before + layouts@.take(lindex as int);
            let ghost next = before + layouts@.take(lindex + 1);
            assert(next =~= known.push(layouts@[lindex as int]));
            match seen {
                None => {
                    assert(next[0] == layouts@[lindex as int]);
                    seen = Some(page_size);
                },
                Some(size) => {
                    assert(next[0] == known[0]);
                    if size != page_size {
                        proof {
                            lemma_layouts_prefix(workers@, windex as int, lindex + 1);
                            assert(all[next.len() - 1] == next[next.len() - 1]);
                            assert(all[0] == next[0]);
                        }
                        return None;
                    }
                    assert forall|i: int| #![trigger next[i]] 0 <= i < next.len() implies next[i].config.page_size
                        == next[0].config.page_size by {
                        if i < known.len() {
                            assert(next[i] == known[i]);
                        }
                    }
                },
            }
            lindex = lindex + 1;
        }
        proof {
            assert(layouts@.take(lindex as int) =~= layouts@);
            assert(workers@.take(windex + 1).drop_last() =~= workers@.take(windex as int));
        }
        windex = windex + 1;
    }
    assert(workers@.take(windex as int) =~= workers@);
    seen
}

/// The layouts seen up to some point are a prefix of all layouts.
proof fn lemma_layouts_prefix(workers: Seq<WorkerInfo>, windex: int, count: int)
    requires
        0 <= windex < workers.len(),
        0 <= count <= workers[windex].layouts@.len(),
    ensures
        (layouts_of(workers.take(windex)) + workers[windex].layouts@.take(count)).is_prefix_of(
            layouts_of(workers),
        ),
    decreases workers.len() - windex,
{
    let seen = layouts_of(workers.take(windex)) + workers[windex].layouts@.take(count);
    let full = layouts_of(workers.take(windex + 1));
    assert(workers.take(windex + 1).drop_last() =~= workers.take(windex));
    assert(full =~= layouts_of(workers.take(windex)) + workers[windex].layouts@);
    if windex + 1 == workers.len() {
        assert(workers.take(windex + 1) =~= workers);
    } else {
        lemma_layouts_prefix(workers, windex + 1, 0);
        let further = full + workers[windex + 1].layouts@.take(0);
        assert(further =~= full);
    }
}

/// Copies extents.
fn copy_extents(extents: &Vec<(KvDim, usize)>) -> (copy: Vec<(KvDim, usize)>)
    ensures
        copy@ == extents@,
{
    let mut copy: Vec<(KvDim, usize)> = Vec::with_capacity(extents.len());
    let mut index: usize = 0;
    while index < extents.len()
        invariant
            index <= extents@.len(),
            copy@ == extents@.take(index as int),
        decreases extents@.len() - index,
    {
        copy.push(extents[index]);
        index = index + 1;
    }
    assert(extents@.take(index as int) =~= extents@);
    copy
}

/// Compares extents.
fn same_extents(a: &Vec<(KvDim, usize)>, b: &Vec<(KvDim, usize)>) -> (same: bool)
    ensures
        same == (a@ == b@),
{
    if a.len() != b.len() {
        return false;
    }
    let mut index: usize = 0;
    while index < a.len()
        invariant
            index <= a@.len(),
            a@.len() == b@.len(),
            a@.take(index as int) == b@.take(index as int),
        decreases a@.len() - index,
    {
        if a[index].0 != b[index].0 || a[index].1 != b[index].1 {
            assert(a@[index as int] != b@[index as int]);
            return false;
        }
        assert(a@.take(index + 1) =~= a@.take(index as int).push(a@[index as int]));
        assert(b@.take(index + 1) =~= b@.take(index as int).push(b@[index as int]));
        index = index + 1;
    }
    assert(a@.take(index as int) =~= a@);
    assert(b@.take(index as int) =~= b@);
    true
}

/// Parallelism of the leader as a whole: known only if every worker carries a
/// descriptor and all belong to one group. The view is rank 0 over the union of
/// the layer ranges.
pub fn aggregate_parallelism(workers: &Vec<WorkerInfo>) -> (aggregate: Option<
    ParallelismDescription,
>)
    ensures
        aggregate is Some <==> one_group(workers@),
        aggregate matches Some(p) ==> {
            &&& p.rank == 0
            &&& p.agrees(workers@[0].parallelism->0)
            &&& p.layer_ownership.start == first_layer(workers@)
            &&& p.layer_ownership.end == last_layer(workers@)
        },
{
    if workers.len() == 0 {
        return None;
    }
    let first = match &workers[0].parallelism {
        Some(first) => first,
        None => {
            return None;
        },
    };
    let mut layer_start: usize = first.layer_ownership.start;
    let mut layer_end: usize = first.layer_ownership.end;
    let mut index: usize = 1;
    assert(workers@.take(1).last() == workers@[0]);
    while index < workers.len()
        invariant
            1 <= index <= workers@.len(),
            workers@[0].parallelism == Some(*first),
            forall|i: int|
                #![trigger workers@[i]]
                0 <= i < index ==> workers@[i].parallelism is Some
                    && workers@[i].parallelism->0.agrees(*first),
            layer_start == first_layer(workers@.take(index as int)),
            layer_end == last_layer(workers@.take(index as int)),
        decreases workers@.len() - index,
    {
        let ghost prefix = workers@.take(index + 1);
        assert(prefix.drop_last() =~= workers@.take(index as int));
        assert(prefix.last() == workers@[index as int]);
        let own = match &workers[index].parallelism {
            Some(own) => own,
            None => {
                assert(!one_group(workers@));
                return None;
            },
        };
        if own.tp_size != first.tp_size || own.pp_size != first.pp_size || own.shard_axis
            != first.shard_axis || !same_extents(&own.global_extents, &first.global_extents) {
            assert(!workers@[index as int].parallelism->0.agrees(*first));
            return None;
        }
        if own.layer_ownership.start < layer_start {
            layer_start = own.layer_ownership.start;
        }
        if own.layer_ownership.end > layer_end {
            layer_end = own.layer_ownership.end;
        }
        index = index + 1;
    }
    assert(workers@.take(index as int) =~= workers@);
    Some(
        ParallelismDescription {
            rank: 0,
            tp_size: first.tp_size,
            pp_size: first.pp_size,
            shard_axis: first.shard_axis,
            layer_ownership: LayerRange { start: layer_start, end: layer_end },
            global_extents: copy_extents(&first.global_extents),
        },
    )
}

/// A tier's capacity with one more layout counted in.
fn count_layout(
    known: Option<TierCapacity>,
    layout: &LayoutDescription,
    tier: LogicalLayoutHandle,
    Ghost(layouts): Ghost<Seq<LayoutDescription>>,
) -> (counted: Option<TierCapacity>)
    requires
        known == tier_capacity(layouts, tier),
    ensures
        counted == tier_capacity(layouts.push(*layout), tier),
{
    proof {
        assert(layouts.push(*layout).drop_last() =~= layouts);
        lemma_tier_sums_nonnegative(layouts, tier);
    }
    if layout.tier != tier {
        return known;
    }
    match known {
        Some(capacity) => Some(
            TierCapacity {
                tier,
                num_blocks: capacity.num_blocks.saturating_add(layout.config.num_blocks),
                bytes_per_block: capacity.bytes_per_block,
                total_bytes: capacity.total_bytes.saturating_add(layout.total_bytes as u64),
            },
        ),
        None => Some(
            TierCapacity {
                tier,
                num_blocks: layout.config.num_blocks,
                bytes_per_block: layout.bytes_per_block,
                total_bytes: layout.total_bytes as u64,
            },
        ),
    }
}

/// Tier sums are not negative, and zero for a tier without layouts.
proof fn lemma_tier_sums_nonnegative(layouts: Seq<LayoutDescription>, tier: LogicalLayoutHandle)
    ensures
        0 <= tier_blocks(layouts, tier),
        0 <= tier_bytes(layouts, tier),
        tier_block_bytes(layouts, tier) is None ==> tier_blocks(layouts, tier) == 0 && tier_bytes(
            layouts,
            tier,
        ) == 0,
    decreases layouts.len(),
{
    if layouts.len() > 0 {
        lemma_tier_sums_nonnegative(layouts.drop_last(), tier);
    }
}

/// Capacity of one tier over all workers.
fn sum_one_tier(workers: &Vec<WorkerInfo>, tier: LogicalLayoutHandle) -> (capacity: Option<
    TierCapacity,
>)
    ensures
        capacity == tier_capacity(layouts_of(workers@), tier),
{
    let mut capacity: Option<TierCapacity> = None;
    let mut windex: usize = 0;
    while windex < workers.len()
        invariant
            windex <= workers@.len(),
            capacity == tier_capacity(layouts_of(workers@.take(windex as int)), tier),
        decreases workers@.len() - windex,
    {
        let layouts = &workers[windex].layouts;
        let ghost before = layouts_of(workers@.take(windex as int));
        let mut lindex: usize = 0;
        assert(before + layouts@.take(0) =~= before);
        while lindex < layouts.len()
            invariant
                lindex <= layouts@.len(),
                capacity == tier_capacity(before + layouts@.take(lindex as int), tier),
            decreases layouts@.len() - lindex,
        {
            let ghost known = before + layouts@.take(lindex as int);
            capacity = count_layout(capacity, &layouts[lindex], tier, Ghost(known));
            assert(known.push(layouts@[lindex as int]) =~= before + layouts@.take(lindex + 1));
            lindex = lindex + 1;
        }
        proof {
            assert(layouts@.take(lindex as int) =~= layouts@);
            assert(workers@.take(windex + 1).drop_last() =~= workers@.take(windex as int));
        }
        windex = windex + 1;
    }
    assert(workers@.take(windex as int) =~= workers@);
    capacity
}

/// Capacity by tier over all workers, from device memory to object store.
pub fn sum_tier_capacity(workers: &Vec<WorkerInfo>) -> (capacities: Vec<TierCapacity>)
    ensures
        capacities@ == tier_capacities(layouts_of(workers@)),
{
    let mut capacities: Vec<TierCapacity> = Vec::new();
    if let Some(capacity) = sum_one_tier(workers, LogicalLayoutHandle::G1) {
        capacities.push(capacity);
    }
    if let Some(capacity) = sum_one_tier(workers, LogicalLayoutHandle::G2) {
        capacities.push(capacity);
    }
    if let Some(capacity) = sum_one_tier(workers, LogicalLayoutHandle::G3) {
        capacities.push(capacity);
    }
    if let Some(capacity) = sum_one_tier(workers, LogicalLayoutHandle::G4) {
        capacities.push(capacity);
    }
    assert(capacities@ =~= tier_capacities(layouts_of(workers@)));
    capacities
}

/// The aggregate never invents a topology: one worker without a stamped
/// descriptor leaves it unknown.
pub proof fn law_unstamped_worker_hides_topology(workers: Seq<WorkerInfo>, index: int)
    requires
        0 <= index < workers.len(),
        workers[index].parallelism is None,
    ensures
        !one_group(workers),
{
}

/// The aggregated layer range covers the range of every worker.
pub proof fn law_aggregate_covers_layers(workers: Seq<WorkerInfo>, index: int)
    requires
        one_group(workers),
        0 <= index < workers.len(),
    ensures
        first_layer(workers) <= workers[index].parallelism->0.layer_ownership.start,
        workers[index].parallelism->0.layer_ownership.end <= last_layer(workers),
{
    lemma_layer_bounds(workers, index);
}

proof fn lemma_layer_bounds(workers: Seq<WorkerInfo>, index: int)
    requires
        0 <= index < workers.len(),
    ensures
        first_layer(workers) <= workers[index].parallelism->0.layer_ownership.start,
        workers[index].parallelism->0.layer_ownership.end <= last_layer(workers),
    decreases workers.len(),
{
    if index < workers.len() - 1 {
        lemma_layer_bounds(workers.drop_last(), index);
    }
}

/// A tier appears at most once in the capacities, and tiers appear in order.
pub proof fn law_capacities_ordered(layouts: Seq<LayoutDescription>, i: int, j: int)
    requires
        0 <= i < j < tier_capacities(layouts).len(),
    ensures
        tier_rank(tier_capacities(layouts)[i].tier) < tier_rank(tier_capacities(layouts)[j].tier),
{
}

/// Distance of a tier from the device.
pub open spec fn tier_rank(tier: LogicalLayoutHandle) -> int {
    match tier {
        LogicalLayoutHandle::G1 => 0,
        LogicalLayoutHandle::G2 => 1,
        LogicalLayoutHandle::G3 => 2,
        LogicalLayoutHandle::G4 => 3,
    }
}

/// A layout is shown as it was exported, with the bytes of all its blocks; a
/// product that does not fit is shown as the largest count.
pub proof fn law_layout_shown_as_exported(shown: LayoutDescription, exported: ExportedLayout)
    requires
        describes_layout(shown, exported),
    ensures
        shown.tier == exported.tier,
        shown.config == exported.config,
        shown.location == exported.location,
        shown.bytes_per_block == exported.bytes_per_block,
        exported.bytes_per_block * exported.config.num_blocks <= usize::MAX ==> shown.total_bytes
            == exported.bytes_per_block * exported.config.num_blocks,
        exported.bytes_per_block * exported.config.num_blocks > usize::MAX ==> shown.total_bytes
            == usize::MAX,
        match exported.details {
            LayoutTypeDetails::FullyContiguous(layout) => {
                &&& shown.layout_type@ == "fully_contiguous"@
                &&& shown.block_layout@ == block_layout_text(layout)
            },
            LayoutTypeDetails::LayerSeparate(layout) => {
                &&& shown.layout_type@ == "layer_separate"@
                &&& shown.block_layout@ == block_layout_text(layout)
            },
        },
{
}

/// Every block layout has its own name; a custom one lists its axes in order.
pub proof fn law_block_layouts_are_named(dims: [BlockDim; 4])
    ensures
        block_layout_text(KvBlockLayout::Universal) == "universal"@,
        block_layout_text(KvBlockLayout::OperationalHND) == "operational_hnd"@,
        block_layout_text(KvBlockLayout::OperationalNHD) == "operational_nhd"@,
        block_layout_text(KvBlockLayout::Unknown) == "unknown"@,
        block_layout_text(KvBlockLayout::Custom(dims)) == "custom["@ + block_dim_text(dims@[0])
            + "-"@ + block_dim_text(dims@[1]) + "-"@ + block_dim_text(dims@[2]) + "-"@
            + block_dim_text(dims@[3]) + "]"@,
        block_dim_text(BlockDim::Layer) == "layer"@,
        block_dim_text(BlockDim::Outer) == "outer"@,
        block_dim_text(BlockDim::Page) == "page"@,
        block_dim_text(BlockDim::Head) == "head"@,
{
}

/// A worker is shown as it was exported, layout by layout, and with a descriptor
/// exactly if it carries one.
pub proof fn law_worker_shown_as_exported(shown: WorkerInfo, exported: ExportedWorker, index: int)
    requires
        describes_worker(shown, exported),
        0 <= index < exported.layouts@.len(),
    ensures
        shown.worker_id == exported.worker_id,
        shown.nixl_agent_name == exported.nixl_agent_name,
        shown.parallelism == exported.parallelism,
        shown.layouts@.len() == exported.layouts@.len(),
        shown.layouts@[index].tier == exported.layouts@[index].tier,
        shown.layouts@[index].config == exported.layouts@[index].config,
        shown.layouts@[index].bytes_per_block == exported.layouts@[index].bytes_per_block,
{
    assert(describes_layout(shown.layouts@[index], exported.layouts@[index]));
}

/// A page size is common exactly if there are layouts and all of them have it.
pub proof fn law_page_size_is_common(layouts: Seq<LayoutDescription>, size: usize)
    ensures
        shared_page_size(layouts) == Some(size) <==> layouts.len() > 0 && forall|i: int|
            0 <= i < layouts.len() ==> (#[trigger] layouts[i]).config.page_size == size,
        layouts.len() == 0 ==> shared_page_size(layouts) is None,
{
    if layouts.len() > 0 {
        assert(layouts[0].config.page_size == layouts[0].config.page_size);
    }
}

/// The layouts of a leader are those of its workers, worker after worker.
pub proof fn law_layouts_follow_workers(workers: Seq<WorkerInfo>, worker: WorkerInfo)
    ensures
        layouts_of(Seq::<WorkerInfo>::empty()).len() == 0,
        layouts_of(workers.push(worker)) == layouts_of(workers) + worker.layouts@,
{
    assert(workers.push(worker).drop_last() =~= workers);
}

/// Blocks and bytes of a tier add up over its layouts; layouts of other tiers
/// count for nothing. The block size shown for a tier is that of its first
/// layout.
pub proof fn law_tier_sums_add_up(
    layouts: Seq<LayoutDescription>,
    layout: LayoutDescription,
    tier: LogicalLayoutHandle,
)
    ensures
        tier_blocks(Seq::<LayoutDescription>::empty(), tier) == 0,
        tier_bytes(Seq::<LayoutDescription>::empty(), tier) == 0,
        tier_block_bytes(Seq::<LayoutDescription>::empty(), tier) is None,
        layout.tier == tier ==> {
            &&& tier_blocks(layouts.push(layout), tier) == tier_blocks(layouts, tier)
                + layout.config.num_blocks
            &&& tier_bytes(layouts.push(layout), tier) == tier_bytes(layouts, tier)
                + layout.total_bytes
            &&& tier_block_bytes(layouts, tier) is None ==> tier_block_bytes(
                layouts.push(layout),
                tier,
            ) == Some(layout.bytes_per_block)
        },
        layout.tier != tier ==> {
            &&& tier_blocks(layouts.push(layout), tier) == tier_blocks(layouts, tier)
            &&& tier_bytes(layouts.push(layout), tier) == tier_bytes(layouts, tier)
            &&& tier_block_bytes(layouts.push(layout), tier) == tier_block_bytes(layouts, tier)
        },
        tier_block_bytes(layouts, tier) is Some ==> tier_block_bytes(layouts.push(layout), tier)
            == tier_block_bytes(layouts, tier),
{
    assert(layouts.push(layout).drop_last() =~= layouts);
}

/// A tier has a capacity exactly if some layout is in it: its blocks and bytes
/// over all layouts, as far as the counters reach.
pub proof fn law_capacity_of_used_tiers(
    layouts: Seq<LayoutDescription>,
    tier: LogicalLayoutHandle,
)
    ensures
        tier_capacity(layouts, tier) is Some <==> exists|i: int|
            0 <= i < layouts.len() && (#[trigger] layouts[i]).tier == tier,
        tier_capacity(layouts, tier) matches Some(capacity) ==> {
            &&& capacity.tier == tier
            &&& 0 <= tier_blocks(layouts, tier) <= usize::MAX ==> capacity.num_blocks
                == tier_blocks(layouts, tier)
            &&& tier_blocks(layouts, tier) > usize::MAX ==> capacity.num_blocks == usize::MAX
            &&& 0 <= tier_bytes(layouts, tier) <= u64::MAX ==> capacity.total_bytes == tier_bytes(
                layouts,
                tier,
            )
            &&& tier_bytes(layouts, tier) > u64::MAX ==> capacity.total_bytes == u64::MAX
            &&& Some(capacity.bytes_per_block) == tier_block_bytes(layouts, tier)
        },
    decreases layouts.len(),
{
    if layouts.len() > 0 {
        let rest = layouts.drop_last();
        law_capacity_of_used_tiers(rest, tier);
        assert(layouts[layouts.len() - 1] == layouts.last());
        if tier_capacity(rest, tier) is Some {
            let i = choose|i: int| 0 <= i < rest.len() && (#[trigger] rest[i]).tier == tier;
            assert(layouts[i].tier == tier);
        }
        if exists|i: int| 0 <= i < layouts.len() && (#[trigger] layouts[i]).tier == tier {
            let i = choose|i: int| 0 <= i < layouts.len() && (#[trigger] layouts[i]).tier == tier;
            if i < rest.len() {
                assert(rest[i].tier == tier);
            }
        }
    }
}

/// Every tier with a capacity is in the list, and nothing else is.
pub proof fn law_capacities_list_every_tier(
    layouts: Seq<LayoutDescription>,
    tier: LogicalLayoutHandle,
    index: int,
)
    ensures
        tier_capacity(layouts, tier) matches Some(capacity) ==> tier_capacities(layouts).contains(
            capacity,
        ),
        0 <= index < tier_capacities(layouts).len() ==> tier_capacity(
            layouts,
            tier_capacities(layouts)[index].tier,
        ) == Some(tier_capacities(layouts)[index]),
{
    let all = tier_capacities(layouts);
    let one = option_seq(tier_capacity(layouts, LogicalLayoutHandle::G1));
    let two = option_seq(tier_capacity(layouts, LogicalLayoutHandle::G2));
    let three = option_seq(tier_capacity(layouts, LogicalLayoutHandle::G3));
    let four = option_seq(tier_capacity(layouts, LogicalLayoutHandle::G4));
    if let Some(capacity) = tier_capacity(layouts, tier) {
        match tier {
            LogicalLayoutHandle::G1 => {
                assert(all[0] == capacity);
            },
            LogicalLayoutHandle::G2 => {
                assert(all[one.len() as int] == capacity);
            },
            LogicalLayoutHandle::G3 => {
                assert(all[(one + two).len() as int] == capacity);
            },
            LogicalLayoutHandle::G4 => {
                assert(all[(one + two + three).len() as int] == capacity);
            },
        }
    }
}

/// Workers form a group exactly if there are any, each carries a descriptor, and
/// sizes, axis and extents of all are those of the first.
pub proof fn law_group_agrees_on_everything(workers: Seq<WorkerInfo>)
    ensures
        one_group(workers) <==> workers.len() > 0 && forall|i: int|
            0 <= i < workers.len() ==> {
                &&& (#[trigger] workers[i]).parallelism is Some
                &&& workers[0].parallelism is Some
                &&& workers[i].parallelism->0.tp_size == workers[0].parallelism->0.tp_size
                &&& workers[i].parallelism->0.pp_size == workers[0].parallelism->0.pp_size
                &&& workers[i].parallelism->0.shard_axis == workers[0].parallelism->0.shard_axis
                &&& workers[i].parallelism->0.global_extents@
                    == workers[0].parallelism->0.global_extents@
            },
{
    if workers.len() > 0 && (forall|i: int|
        0 <= i < workers.len() ==> {
            &&& (#[trigger] workers[i]).parallelism is Some
            &&& workers[0].parallelism is Some
            &&& workers[i].parallelism->0.tp_size == workers[0].parallelism->0.tp_size
            &&& workers[i].parallelism->0.pp_size == workers[0].parallelism->0.pp_size
            &&& workers[i].parallelism->0.shard_axis == workers[0].parallelism->0.shard_axis
            &&& workers[i].parallelism->0.global_extents@
                == workers[0].parallelism->0.global_extents@
        }) {
        assert(workers[0].parallelism is Some);
        assert(one_group(workers));
    }
}

/// The ends of the aggregated layer range are ends of some worker's own range.
pub proof fn law_aggregate_range_is_tight(workers: Seq<WorkerInfo>) -> (ends: (int, int))
    requires
        workers.len() > 0,
    ensures
        0 <= ends.0 < workers.len(),
        0 <= ends.1 < workers.len(),
        first_layer(workers) == workers[ends.0].parallelism->0.layer_ownership.start,
        last_layer(workers) == workers[ends.1].parallelism->0.layer_ownership.end,
    decreases workers.len(),
{
    let top = workers.len() - 1;
    if workers.len() == 1 {
        (0, 0)
    } else {
        let ends = law_aggregate_range_is_tight(workers.drop_last());
        let low = if first_layer(workers.drop_last())
            <= workers.last().parallelism->0.layer_ownership.start {
            ends.0
        } else {
            top
        };
        let high = if last_layer(workers.drop_last())
            <= workers.last().parallelism->0.layer_ownership.end {
            top
        } else {
            ends.1
        };
        (low, high)
    }
}

} // verus!
