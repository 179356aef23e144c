//! Sizes of blocks and transactions.
use crate::text::push_decimal;
use vstd::prelude::*;
use vstd::string::StringExecFns;

verus! {

/// The three kinds of transactions.
#[derive(Debug, Clone, Copy, PartialEq, Eq, Structural)]
pub enum TxKind {
    Public,
    PrivacyPreserving,
    ProgramDeployment,
}

/// A transaction as far as its size goes. `bytes` is the length of its Borsh
/// encoding, if it has one.
#[derive(Debug, Clone, Copy, PartialEq, Eq)]
pub struct TxSize {
    pub kind: TxKind,
    pub bytes: Option<usize>,
}

/// Borsh-serialized sizes for one zone block fetched after a step. `block_bytes`
/// is the full block (header + body + bedrock metadata), the closest proxy to
/// the L1 payload posted per block. The contained transactions are split by
/// kind, each kind in the order of the block.
#[derive(Debug, Clone, Default)]
pub struct BlockSize {
    pub block_id: u64,
    pub block_bytes: usize,
    pub public_tx_bytes: Vec<usize>,
    pub ppe_tx_bytes: Vec<usize>,
    pub deploy_tx_bytes: Vec<usize>,
}

impl BlockSize {
    /// The sizes of the transactions of one kind.
    pub open spec fn sizes_of(self, kind: TxKind) -> Seq<usize> {
        match kind {
            TxKind::Public => self.public_tx_bytes@,
            TxKind::PrivacyPreserving => self.ppe_tx_bytes@,
            TxKind::ProgramDeployment => self.deploy_tx_bytes@,
        }
    }
}

/// The size of something that could not be encoded counts as zero.
pub open spec fn size_or_zero(size: Option<usize>) -> usize {
    match size {
        Some(n) => n,
        None => 0,
    }
}

/// The sizes of the transactions of one kind, in order.
pub open spec fn sizes_of_kind(txs: Seq<TxSize>, kind: TxKind) -> Seq<usize>
    decreases txs.len(),
{
    if txs.len() == 0 {
        Seq::empty()
    } else if txs.last().kind == kind {
        sizes_of_kind(txs.drop_last(), kind).push(size_or_zero(txs.last().bytes))
    } else {
        sizes_of_kind(txs.drop_last(), kind)
    }
}

/// A block as far as its sizes go. `bytes` is the length of its Borsh encoding,
/// if it has one.
#[derive(Debug, Clone)]
pub struct FetchedBlock {
    pub bytes: Option<usize>,
    pub txs: Vec<TxSize>,
}

/// The contents of a [`BlockSize`].
#[verifier::ext_equal]
pub struct BlockSizeModel {
    pub block_id: u64,
    pub block_bytes: usize,
    pub public_tx_bytes: Seq<usize>,
    pub ppe_tx_bytes: Seq<usize>,
    pub deploy_tx_bytes: Seq<usize>,
}

impl View for BlockSize {
    type V = BlockSizeModel;

    open spec fn view(&self) -> BlockSizeModel {
        BlockSizeModel {
            block_id: self.block_id,
            block_bytes: self.block_bytes,
            public_tx_bytes: self.public_tx_bytes@,
            ppe_tx_bytes: self.ppe_tx_bytes@,
            deploy_tx_bytes: self.deploy_tx_bytes@,
        }
    }
}

/// The sizes of a block and of its transactions.
pub open spec fn measured(block_id: u64, bytes: Option<usize>, txs: Seq<TxSize>) -> BlockSizeModel {
    BlockSizeModel {
        block_id,
        block_bytes: size_or_zero(bytes),
        public_tx_bytes: sizes_of_kind(txs, TxKind::Public),
        ppe_tx_bytes: sizes_of_kind(txs, TxKind::PrivacyPreserving),
        deploy_tx_bytes: sizes_of_kind(txs, TxKind::ProgramDeployment),
    }
}

/// The sizes of the blocks with the given numbers, without those that were not
/// found.
pub open spec fn measured_blocks(ids: Seq<u64>, fetched: Seq<Option<FetchedBlock>>) -> Seq<
    BlockSizeModel,
>
    decreases ids.len(),
{
    if ids.len() == 0 || fetched.len() == 0 {
        Seq::empty()
    } else {
        let before = measured_blocks(ids.drop_last(), fetched.drop_last());
        match fetched.last() {
            Some(block) => before.push(measured(ids.last(), block.bytes, block.txs@)),
            None => before,
        }
    }
}

/// No block gets lost: if every block was found, there is one measurement for
/// each, in order, empty blocks not excepted.
pub proof fn every_found_block_is_measured(ids: Seq<u64>, fetched: Seq<Option<FetchedBlock>>)
    requires
        ids.len() == fetched.len(),
        forall|i: int| 0 <= i < fetched.len() ==> #[trigger] fetched[i] is Some,
    ensures
        measured_blocks(ids, fetched).len() == ids.len(),
        forall|i: int|
            0 <= i < ids.len() ==> #[trigger] measured_blocks(ids, fetched)[i] == measured(
                ids[i],
                fetched[i]->Some_0.bytes,
                fetched[i]->Some_0.txs@,
            ),
    decreases ids.len(),
{
    if ids.len() > 0 {
        let last = fetched[fetched.len() - 1];
        assert(last is Some);
        every_found_block_is_measured(ids.drop_last(), fetched.drop_last());
    }
}

/// Records the sizes of a block and of its transactions.
pub fn measure_block(block_id: u64, block_bytes: Option<usize>, txs: &Vec<TxSize>) -> (size:
    BlockSize)
    ensures
        size@ == measured(block_id, block_bytes, txs@),
{
    let mut size = BlockSize {
        block_id,
        block_bytes: block_bytes.unwrap_or(0),
        public_tx_bytes: Vec::new(),
        ppe_tx_bytes: Vec::new(),
        deploy_tx_bytes: Vec::new(),
    };
    let mut i: usize = 0;
    assert(txs@.take(0) =~= Seq::empty());
    while i < txs.len()
        invariant
            i <= txs@.len(),
            size.block_id == block_id,
            size.block_bytes == size_or_zero(block_bytes),
            forall|kind: TxKind| #[trigger]
                size.sizes_of(kind) == sizes_of_kind(txs@.take(i as int), kind),
        decreases txs@.len() - i,
    {
        let ghost before = size;
        let n: usize = txs[i].bytes.unwrap_or(0);
        match txs[i].kind {
            TxKind::Public => size.public_tx_bytes.push(n),
            TxKind::PrivacyPreserving => size.ppe_tx_bytes.push(n),
            TxKind::ProgramDeployment => size.deploy_tx_bytes.push(n),
        }
        proof {
            let upto = txs@.take(i + 1);
            assert(upto.drop_last() =~= txs@.take(i as int));
            assert(upto.last() == txs@[i as int]);
            assert forall|kind: TxKind| #[trigger]
                size.sizes_of(kind) == sizes_of_kind(upto, kind) by {
                assert(before.sizes_of(kind) == sizes_of_kind(txs@.take(i as int), kind));
            }
        }
        i = i + 1;
    }
    assert(txs@.take(i as int) =~= txs@);
    assert(size.sizes_of(TxKind::Public) == sizes_of_kind(txs@, TxKind::Public));
    assert(size.sizes_of(TxKind::PrivacyPreserving) == sizes_of_kind(
        txs@,
        TxKind::PrivacyPreserving,
    ));
    assert(size.sizes_of(TxKind::ProgramDeployment) == sizes_of_kind(
        txs@,
        TxKind::ProgramDeployment,
    ));
    size
}

/// Records the sizes of several blocks, in order. A block that was not found is
/// left out.
pub fn measure_blocks(ids: &Vec<u64>, fetched: &Vec<Option<FetchedBlock>>) -> (sizes: Vec<
    BlockSize,
>)
    requires
        ids@.len() == fetched@.len(),
    ensures
        sizes@.map_values(|s: BlockSize| s@) == measured_blocks(ids@, fetched@),
{
    let mut sizes: Vec<BlockSize> = Vec::new();
    let mut i: usize = 0;
    assert(sizes@.map_values(|s: BlockSize| s@) =~= measured_blocks(ids@.take(0), fetched@.take(0)));
    while i < ids.len()
        invariant
            ids@.len() == fetched@.len(),
            i <= ids@.len(),
            sizes@.map_values(|s: BlockSize| s@) == measured_blocks(
                ids@.take(i as int),
                fetched@.take(i as int),
            ),
        decreases ids@.len() - i,
    {
        let ghost before = sizes@.map_values(|s: BlockSize| s@);
        proof {
            let ids_upto = ids@.take(i + 1);
            let fetched_upto = fetched@.take(i + 1);
            assert(ids_upto.drop_last() =~= ids@.take(i as int));
            assert(fetched_upto.drop_last() =~= fetched@.take(i as int));
            assert(ids_upto.last() == ids@[i as int]);
            assert(fetched_upto.last() == fetched@[i as int]);
        }
        if let Some(block) = &fetched[i] {
            let size = measure_block(ids[i], block.bytes, &block.txs);
            let ghost model = size@;
            sizes.push(size);
            assert(sizes@.map_values(|s: BlockSize| s@) =~= before.push(model));
        }
        i = i + 1;
    }
    assert(ids@.take(i as int) =~= ids@);
    assert(fetched@.take(i as int) =~= fetched@);
    sizes
}

/// The sum of several sizes.
pub open spec fn sum_of(sizes: Seq<usize>) -> nat
    decreases sizes.len(),
{
    if sizes.len() == 0 {
        0
    } else {
        sum_of(sizes.drop_last()) + sizes.last() as nat
    }
}

/// The smallest of several sizes, zero if there are none.
pub open spec fn least_of(sizes: Seq<usize>) -> usize
    decreases sizes.len(),
{
    if sizes.len() == 0 {
        0
    } else if sizes.len() == 1 || sizes.last() < least_of(sizes.drop_last()) {
        sizes.last()
    } else {
        least_of(sizes.drop_last())
    }
}

/// The largest of several sizes, zero if there are none.
pub open spec fn greatest_of(sizes: Seq<usize>) -> usize
    decreases sizes.len(),
{
    if sizes.len() == 0 {
        0
    } else if sizes.last() > greatest_of(sizes.drop_last()) {
        sizes.last()
    } else {
        greatest_of(sizes.drop_last())
    }
}

/// The mean of several sizes, rounded down, zero if there are none.
pub open spec fn mean_of(sizes: Seq<usize>) -> nat {
    if sizes.len() == 0 {
        0
    } else {
        sum_of(sizes) / sizes.len()
    }
}

/// Every transaction of a block is counted under exactly one kind: the counts
/// and the sizes of the three kinds add up to those of the block.
pub proof fn kinds_partition_transactions(txs: Seq<TxSize>)
    ensures
        sizes_of_kind(txs, TxKind::Public).len() + sizes_of_kind(
            txs,
            TxKind::PrivacyPreserving,
        ).len() + sizes_of_kind(txs, TxKind::ProgramDeployment).len() == txs.len(),
        sum_of(sizes_of_kind(txs, TxKind::Public)) + sum_of(
            sizes_of_kind(txs, TxKind::PrivacyPreserving),
        ) + sum_of(sizes_of_kind(txs, TxKind::ProgramDeployment)) == sum_of(
            txs.map_values(|tx: TxSize| size_or_zero(tx.bytes)),
        ),
    decreases txs.len(),
{
    let all = txs.map_values(|tx: TxSize| size_or_zero(tx.bytes));
    if txs.len() > 0 {
        let rest = txs.drop_last();
        kinds_partition_transactions(rest);
        assert(all.drop_last() =~= rest.map_values(|tx: TxSize| size_or_zero(tx.bytes)));
        let n = size_or_zero(txs.last().bytes);
        assert(sizes_of_kind(rest, txs.last().kind).push(n).drop_last() =~= sizes_of_kind(
            rest,
            txs.last().kind,
        ));
    }
}

/// The least and the greatest size occur among the sizes and bound them all,
/// and the mean lies between them.
pub proof fn extremes_bound_sizes(sizes: Seq<usize>)
    requires
        sizes.len() > 0,
    ensures
        sizes.contains(least_of(sizes)),
        sizes.contains(greatest_of(sizes)),
        forall|i: int|
            0 <= i < sizes.len() ==> least_of(sizes) <= #[trigger] sizes[i] <= greatest_of(sizes),
        least_of(sizes) <= mean_of(sizes) <= greatest_of(sizes),
{
    extremes_bound_elements(sizes);
    sum_between(sizes, least_of(sizes), greatest_of(sizes));
    let n = sizes.len();
    let low = least_of(sizes);
    let high = greatest_of(sizes);
    let total = sum_of(sizes);
    assert(low <= total / n <= high) by (nonlinear_arith)
        requires
            n > 0,
            low * n <= total <= high * n,
    ;
}

/// The least and the greatest size occur among the sizes and bound them all.
proof fn extremes_bound_elements(sizes: Seq<usize>)
    requires
        sizes.len() > 0,
    ensures
        sizes.contains(least_of(sizes)),
        sizes.contains(greatest_of(sizes)),
        forall|i: int|
            0 <= i < sizes.len() ==> least_of(sizes) <= #[trigger] sizes[i] <= greatest_of(sizes),
    decreases sizes.len(),
{
    let rest = sizes.drop_last();
    let last = sizes.len() - 1;
    assert(sizes[last] == sizes.last());
    if sizes.len() == 1 {
        reveal_with_fuel(greatest_of, 2);
        assert(sizes.contains(sizes[last]));
    } else {
        extremes_bound_elements(rest);
        let i = choose|i: int| 0 <= i < rest.len() && rest[i] == least_of(rest);
        let j = choose|j: int| 0 <= j < rest.len() && rest[j] == greatest_of(rest);
        assert(sizes[i] == least_of(rest));
        assert(sizes[j] == greatest_of(rest));
        assert forall|k: int| 0 <= k < sizes.len() implies least_of(sizes) <= #[trigger] sizes[k]
            <= greatest_of(sizes) by {
            if k < last {
                assert(rest[k] == sizes[k]);
            }
        }
    }
}

/// A sum lies between as many times the bounds of its terms.
proof fn sum_between(sizes: Seq<usize>, low: usize, high: usize)
    requires
        forall|i: int| 0 <= i < sizes.len() ==> low <= #[trigger] sizes[i] <= high,
    ensures
        low * sizes.len() <= sum_of(sizes) <= high * sizes.len(),
    decreases sizes.len(),
{
    if sizes.len() > 0 {
        let rest = sizes.drop_last();
        assert forall|i: int| 0 <= i < rest.len() implies low <= #[trigger] rest[i] <= high by {
            assert(rest[i] == sizes[i]);
        }
        sum_between(rest, low, high);
        assert(low <= sizes[sizes.len() - 1] <= high);
        let n = sizes.len() as int;
        assert(low * n == low * (n - 1) + low) by (nonlinear_arith);
        assert(high * n == high * (n - 1) + high) by (nonlinear_arith);
    }
}

/// The sum of some of the first sizes is no more than the sum of all.
proof fn sum_of_prefix(sizes: Seq<usize>, n: int)
    requires
        0 <= n <= sizes.len(),
    ensures
        sum_of(sizes.take(n)) <= sum_of(sizes),
    decreases sizes.len(),
{
    if n == sizes.len() {
        assert(sizes.take(n) =~= sizes);
    } else {
        sum_of_prefix(sizes.drop_last(), n);
        assert(sizes.drop_last().take(n) =~= sizes.take(n));
    }
}

/// Adds up several sizes, if the sum can be represented.
pub fn checked_sum(xs: &[usize]) -> (total: Option<usize>)
    ensures
        match total {
            Some(n) => n == sum_of(xs@),
            None => sum_of(xs@) > usize::MAX,
        },
{
    let mut total: usize = 0;
    let mut i: usize = 0;
    assert(xs@.take(0) =~= Seq::empty());
    while i < xs.len()
        invariant
            i <= xs@.len(),
            total == sum_of(xs@.take(i as int)),
        decreases xs@.len() - i,
    {
        proof {
            let upto = xs@.take(i + 1);
            assert(upto.drop_last() =~= xs@.take(i as int));
            assert(upto.last() == xs@[i as int]);
            sum_of_prefix(xs@, i + 1);
        }
        match total.checked_add(xs[i]) {
            Some(more) => {
                total = more;
            },
            None => {
                return None;
            },
        }
        i = i + 1;
    }
    assert(xs@.take(i as int) =~= xs@);
    Some(total)
}

/// Adds up several sizes.
fn sum_usize(xs: &[usize]) -> (total: usize)
    requires
        sum_of(xs@) <= usize::MAX,
    ensures
        total == sum_of(xs@),
{
    checked_sum(xs).unwrap_or(0)
}

/// The mean of several sizes, rounded down.
pub fn mean_usize(xs: &[usize]) -> (mean: usize)
    requires
        sum_of(xs@) <= usize::MAX,
    ensures
        mean == mean_of(xs@),
{
    let total: usize = sum_usize(xs);
    if xs.len() == 0 {
        0
    } else {
        total / xs.len()
    }
}

/// The figures that describe several sizes.
#[derive(Debug, Clone, Copy, PartialEq, Eq, Structural)]
pub struct SizeFigures {
    pub n: usize,
    pub total: usize,
    pub mean: usize,
    pub min: usize,
    pub max: usize,
}

/// Works out the figures of several sizes.
pub fn size_figures(xs: &[usize]) -> (figures: SizeFigures)
    requires
        sum_of(xs@) <= usize::MAX,
    ensures
        figures.n == xs@.len(),
        figures.total == sum_of(xs@),
        figures.mean == mean_of(xs@),
        figures.min == least_of(xs@),
        figures.max == greatest_of(xs@),
{
    let mut min: usize = 0;
    let mut max: usize = 0;
    let mut i: usize = 0;
    assert(xs@.take(0) =~= Seq::empty());
    while i < xs.len()
        invariant
            i <= xs@.len(),
            min == least_of(xs@.take(i as int)),
            max == greatest_of(xs@.take(i as int)),
        decreases xs@.len() - i,
    {
        proof {
            let upto = xs@.take(i + 1);
            assert(upto.drop_last() =~= xs@.take(i as int));
            assert(upto.last() == xs@[i as int]);
        }
        if i == 0 || xs[i] < min {
            min = xs[i];
        }
        if xs[i] > max {
            max = xs[i];
        }
        i = i + 1;
    }
    assert(xs@.take(i as int) =~= xs@);
    SizeFigures { n: xs.len(), total: sum_usize(xs), mean: mean_usize(xs), min, max }
}

/// The figures behind a total: `total=.., mean=.., min=.., max=..`.
pub open spec fn figures_text(sizes: Seq<usize>) -> Seq<char> {
    "total="@ + crate::text::decimal(sum_of(sizes)) + ", mean="@ + crate::text::decimal(
        mean_of(sizes),
    ) + ", min="@ + crate::text::decimal(least_of(sizes) as nat) + ", max="@
        + crate::text::decimal(greatest_of(sizes) as nat) + "\n"@
}

/// The line of one kind of transactions.
pub open spec fn tx_line(label: Seq<char>, sizes: Seq<usize>) -> Seq<char> {
    if sizes.len() == 0 {
        "  "@ + label + ": (none)\n"@
    } else {
        "  "@ + label + ": n="@ + crate::text::decimal(sizes.len()) + ", "@ + figures_text(sizes)
    }
}

/// The block sizes of several blocks.
pub open spec fn block_sizes(blocks: Seq<BlockSize>) -> Seq<usize> {
    blocks.map_values(|b: BlockSize| b.block_bytes)
}

/// The transaction sizes of one kind in several blocks.
pub open spec fn tx_sizes(blocks: Seq<BlockSize>, kind: TxKind) -> Seq<usize>
    decreases blocks.len(),
{
    if blocks.len() == 0 {
        Seq::empty()
    } else {
        tx_sizes(blocks.drop_last(), kind) + blocks.last().sizes_of(kind)
    }
}

/// The summary of all blocks, nothing if there are none.
pub open spec fn size_summary_text(blocks: Seq<BlockSize>) -> Seq<char> {
    if blocks.len() == 0 {
        Seq::empty()
    } else {
        "\nBlock + tx size summary ("@ + crate::text::decimal(blocks.len())
            + " blocks captured):\n"@ + "  block_bytes: "@ + figures_text(block_sizes(blocks))
            + tx_line("public_tx_bytes      "@, tx_sizes(blocks, TxKind::Public)) + tx_line(
            "ppe_tx_bytes         "@,
            tx_sizes(blocks, TxKind::PrivacyPreserving),
        ) + tx_line("deploy_tx_bytes      "@, tx_sizes(blocks, TxKind::ProgramDeployment))
    }
}

/// Appends the figures of several sizes.
fn push_figures(out: &mut String, figures: &SizeFigures)
    ensures
        final(out)@ == old(out)@ + ("total="@ + crate::text::decimal(figures.total as nat)
            + ", mean="@ + crate::text::decimal(figures.mean as nat) + ", min="@
            + crate::text::decimal(figures.min as nat) + ", max="@ + crate::text::decimal(
            figures.max as nat,
        ) + "\n"@),
{
    out.append("total=");
    push_decimal(out, figures.total as u128);
    out.append(", mean=");
    push_decimal(out, figures.mean as u128);
    out.append(", min=");
    push_decimal(out, figures.min as u128);
    out.append(", max=");
    push_decimal(out, figures.max as u128);
    out.append("\n");
    assert(out@ =~= old(out)@ + ("total="@ + crate::text::decimal(figures.total as nat)
        + ", mean="@ + crate::text::decimal(figures.mean as nat) + ", min="@
        + crate::text::decimal(figures.min as nat) + ", max="@ + crate::text::decimal(
        figures.max as nat,
    ) + "\n"@));
}

/// Appends the line of one kind of transactions.
fn push_tx_line(out: &mut String, label: &str, samples: &[usize])
    requires
        sum_of(samples@) <= usize::MAX,
    ensures
        final(out)@ == old(out)@ + tx_line(label@, samples@),
{
    out.append("  ");
    out.append(label);
    if samples.len() == 0 {
        out.append(": (none)\n");
    } else {
        let figures = size_figures(samples);
        out.append(": n=");
        push_decimal(out, figures.n as u128);
        out.append(", ");
        push_figures(out, &figures);
    }
    assert(out@ =~= old(out)@ + tx_line(label@, samples@));
}

/// Appends all sizes in `sizes`.
fn push_sizes(out: &mut Vec<usize>, sizes: &Vec<usize>)
    ensures
        final(out)@ == old(out)@ + sizes@,
{
    let mut i: usize = 0;
    assert(out@ =~= old(out)@ + sizes@.take(0));
    while i < sizes.len()
        invariant
            i <= sizes@.len(),
            out@ == old(out)@ + sizes@.take(i as int),
        decreases sizes@.len() - i,
    {
        out.push(sizes[i]);
        i = i + 1;
        assert(out@ =~= old(out)@ + sizes@.take(i as int));
    }
    assert(sizes@.take(i as int) =~= sizes@);
}

/// Collects the block sizes of several blocks.
fn collect_block_sizes(blocks: &Vec<&BlockSize>) -> (sizes: Vec<usize>)
    ensures
        sizes@ == block_sizes(blocks@.map_values(|b: &BlockSize| *b)),
{
    let mut sizes: Vec<usize> = Vec::new();
    let mut i: usize = 0;
    while i < blocks.len()
        invariant
            i <= blocks@.len(),
            sizes@.len() == i,
            forall|j: int| 0 <= j < i ==> sizes@[j] == (*blocks@[j]).block_bytes,
        decreases blocks@.len() - i,
    {
        sizes.push(blocks[i].block_bytes);
        i = i + 1;
    }
    assert(sizes@ =~= block_sizes(blocks@.map_values(|b: &BlockSize| *b)));
    sizes
}

/// Collects the transaction sizes of one kind in several blocks.
fn collect_tx_sizes(blocks: &Vec<&BlockSize>, kind: TxKind) -> (sizes: Vec<usize>)
    ensures
        sizes@ == tx_sizes(blocks@.map_values(|b: &BlockSize| *b), kind),
{
    let ghost all = blocks@.map_values(|b: &BlockSize| *b);
    let mut sizes: Vec<usize> = Vec::new();
    let mut i: usize = 0;
    assert(all.take(0) =~= Seq::empty());
    while i < blocks.len()
        invariant
            all == blocks@.map_values(|b: &BlockSize| *b),
            i <= blocks@.len(),
            sizes@ == tx_sizes(all.take(i as int), kind),
        decreases blocks@.len() - i,
    {
        proof {
            let upto = all.take(i + 1);
            assert(upto.drop_last() =~= all.take(i as int));
            assert(upto.last() == *blocks@[i as int]);
        }
        match kind {
            TxKind::Public => push_sizes(&mut sizes, &blocks[i].public_tx_bytes),
            TxKind::PrivacyPreserving => push_sizes(&mut sizes, &blocks[i].ppe_tx_bytes),
            TxKind::ProgramDeployment => push_sizes(&mut sizes, &blocks[i].deploy_tx_bytes),
        }
        i = i + 1;
    }
    assert(all.take(i as int) =~= all);
    sizes
}

/// Whether the sizes of all blocks can be added up.
pub open spec fn sums_fit(blocks: Seq<BlockSize>) -> bool {
    &&& sum_of(block_sizes(blocks)) <= usize::MAX
    &&& forall|kind: TxKind| sum_of(#[trigger] tx_sizes(blocks, kind)) <= usize::MAX
}

/// Tells whether the sizes of all blocks can be added up.
pub fn can_add_up(blocks: &Vec<&BlockSize>) -> (res: bool)
    ensures
        res == sums_fit(blocks@.map_values(|b: &BlockSize| *b)),
{
    let ghost all = blocks@.map_values(|b: &BlockSize| *b);
    let sizes = collect_block_sizes(blocks);
    let public = collect_tx_sizes(blocks, TxKind::Public);
    let ppe = collect_tx_sizes(blocks, TxKind::PrivacyPreserving);
    let deploy = collect_tx_sizes(blocks, TxKind::ProgramDeployment);
    let res = checked_sum(sizes.as_slice()).is_some() && checked_sum(public.as_slice()).is_some()
        && checked_sum(ppe.as_slice()).is_some() && checked_sum(deploy.as_slice()).is_some();
    proof {
        assert(public@ == tx_sizes(all, TxKind::Public));
        assert(ppe@ == tx_sizes(all, TxKind::PrivacyPreserving));
        assert(deploy@ == tx_sizes(all, TxKind::ProgramDeployment));
    }
    res
}

/// Aggregates the sizes of several blocks: total, mean, least and greatest
/// block size, and the same for the transactions of each kind.
pub fn size_summary(blocks: &Vec<&BlockSize>) -> (text: String)
    requires
        sums_fit(blocks@.map_values(|b: &BlockSize| *b)),
    ensures
        text@ == size_summary_text(blocks@.map_values(|b: &BlockSize| *b)),
{
    let ghost all = blocks@.map_values(|b: &BlockSize| *b);
    let mut out = String::new();
    if blocks.len() == 0 {
        return out;
    }
    let sizes = collect_block_sizes(blocks);
    let public = collect_tx_sizes(blocks, TxKind::Public);
    let ppe = collect_tx_sizes(blocks, TxKind::PrivacyPreserving);
    let deploy = collect_tx_sizes(blocks, TxKind::ProgramDeployment);
    out.append("\nBlock + tx size summary (");
    push_decimal(&mut out, blocks.len() as u128);
    out.append(" blocks captured):\n");
    out.append("  block_bytes: ");
    let figures = size_figures(sizes.as_slice());
    push_figures(&mut out, &figures);
    push_tx_line(&mut out, "public_tx_bytes      ", public.as_slice());
    push_tx_line(&mut out, "ppe_tx_bytes         ", ppe.as_slice());
    push_tx_line(&mut out, "deploy_tx_bytes      ", deploy.as_slice());
    assert(out@ =~= size_summary_text(all));
    out
}

/// The sizes recorded of a block are those of its transactions, each under its
/// kind and in the order of the block; what could not be encoded counts as zero.
pub proof fn block_is_measured_kind_by_kind(block_id: u64, bytes: Option<usize>, txs: Seq<TxSize>)
    ensures
        ({
            let size = |tx: TxSize|
                match tx.bytes {
                    Some(n) => n,
                    None => 0usize,
                };
            let measure = measured(block_id, bytes, txs);
            &&& measure.block_id == block_id
            &&& measure.block_bytes == match bytes {
                Some(n) => n,
                None => 0usize,
            }
            &&& measure.public_tx_bytes == txs.filter(
                |tx: TxSize| tx.kind is Public,
            ).map_values(size)
            &&& measure.ppe_tx_bytes == txs.filter(
                |tx: TxSize| tx.kind is PrivacyPreserving,
            ).map_values(size)
            &&& measure.deploy_tx_bytes == txs.filter(
                |tx: TxSize| tx.kind is ProgramDeployment,
            ).map_values(size)
        }),
    decreases txs.len(),
{
    let size = |tx: TxSize|
        match tx.bytes {
            Some(n) => n,
            None => 0usize,
        };
    let public = |tx: TxSize| tx.kind is Public;
    let ppe = |tx: TxSize| tx.kind is PrivacyPreserving;
    let deploy = |tx: TxSize| tx.kind is ProgramDeployment;
    reveal(Seq::filter);
    let measure = measured(block_id, bytes, txs);
    if txs.len() > 0 {
        let fewer = txs.drop_last();
        let last = txs.last();
        block_is_measured_kind_by_kind(block_id, bytes, fewer);
        assert(fewer.filter(public).push(last).map_values(size) =~= fewer.filter(
            public,
        ).map_values(size).push(size(last)));
        assert(fewer.filter(ppe).push(last).map_values(size) =~= fewer.filter(ppe).map_values(
            size,
        ).push(size(last)));
        assert(fewer.filter(deploy).push(last).map_values(size) =~= fewer.filter(
            deploy,
        ).map_values(size).push(size(last)));
    }
    assert(measure.public_tx_bytes =~= txs.filter(public).map_values(size));
    assert(measure.ppe_tx_bytes =~= txs.filter(ppe).map_values(size));
    assert(measure.deploy_tx_bytes =~= txs.filter(deploy).map_values(size));
}

/// A block that was not found adds nothing, and one that was found adds its
/// measurement behind those before it.
pub proof fn blocks_are_measured_one_by_one(
    ids: Seq<u64>,
    fetched: Seq<Option<FetchedBlock>>,
    id: u64,
    block: FetchedBlock,
)
    requires
        ids.len() == fetched.len(),
    ensures
        measured_blocks(ids.push(id), fetched.push(None)) == measured_blocks(ids, fetched),
        measured_blocks(ids.push(id), fetched.push(Some(block))) == measured_blocks(
            ids,
            fetched,
        ).push(measured(id, block.bytes, block.txs@)),
        measured_blocks(Seq::empty(), Seq::empty()).len() == 0,
{
    assert(ids.push(id).drop_last() =~= ids);
    assert(fetched.push(None).drop_last() =~= fetched);
    assert(fetched.push(Some(block)).drop_last() =~= fetched);
}

/// Sums add up: that of two lists is the sum of both, that of one size is the
/// size, and that of none is zero.
pub proof fn sums_add_up(first: Seq<usize>, second: Seq<usize>, one: usize)
    ensures
        sum_of(first + second) == sum_of(first) + sum_of(second),
        sum_of(seq![one]) == one,
        sum_of(Seq::empty()) == 0,
    decreases second.len(),
{
    assert(seq![one].drop_last() =~= Seq::empty());
    reveal_with_fuel(sum_of, 2);
    if second.len() == 0 {
        assert(first + second =~= first);
    } else {
        sums_add_up(first, second.drop_last(), one);
        assert((first + second).drop_last() =~= first + second.drop_last());
    }
}

/// The mean is the sum divided by the number of sizes, rounded down.
pub proof fn mean_is_rounded_down(sizes: Seq<usize>)
    ensures
        sizes.len() == 0 ==> mean_of(sizes) == 0,
        sizes.len() > 0 ==> mean_of(sizes) * sizes.len() <= sum_of(sizes) < (mean_of(sizes) + 1)
            * sizes.len(),
{
    if sizes.len() > 0 {
        let total = sum_of(sizes);
        let n = sizes.len();
        assert((total / n) * n <= total < (total / n + 1) * n) by (nonlinear_arith)
            requires
                n > 0,
        ;
    }
}

/// The transaction sizes of one kind in several blocks are those of each block,
/// one block after the other.
pub proof fn sizes_of_a_kind_are_those_of_the_blocks(blocks: Seq<BlockSize>)
    ensures
        tx_sizes(blocks, TxKind::Public) == blocks.map_values(
            |b: BlockSize| b.public_tx_bytes@,
        ).flatten(),
        tx_sizes(blocks, TxKind::PrivacyPreserving) == blocks.map_values(
            |b: BlockSize| b.ppe_tx_bytes@,
        ).flatten(),
        tx_sizes(blocks, TxKind::ProgramDeployment) == blocks.map_values(
            |b: BlockSize| b.deploy_tx_bytes@,
        ).flatten(),
        block_sizes(blocks) == blocks.map_values(|b: BlockSize| b.block_bytes),
    decreases blocks.len(),
{
    let public = blocks.map_values(|b: BlockSize| b.public_tx_bytes@);
    let ppe = blocks.map_values(|b: BlockSize| b.ppe_tx_bytes@);
    let deploy = blocks.map_values(|b: BlockSize| b.deploy_tx_bytes@);
    public.lemma_flatten_and_flatten_alt_are_equivalent();
    ppe.lemma_flatten_and_flatten_alt_are_equivalent();
    deploy.lemma_flatten_and_flatten_alt_are_equivalent();
    if blocks.len() > 0 {
        let fewer = blocks.drop_last();
        sizes_of_a_kind_are_those_of_the_blocks(fewer);
        let fewer_public = fewer.map_values(|b: BlockSize| b.public_tx_bytes@);
        let fewer_ppe = fewer.map_values(|b: BlockSize| b.ppe_tx_bytes@);
        let fewer_deploy = fewer.map_values(|b: BlockSize| b.deploy_tx_bytes@);
        fewer_public.lemma_flatten_and_flatten_alt_are_equivalent();
        fewer_ppe.lemma_flatten_and_flatten_alt_are_equivalent();
        fewer_deploy.lemma_flatten_and_flatten_alt_are_equivalent();
        assert(public.drop_last() =~= fewer_public);
        assert(ppe.drop_last() =~= fewer_ppe);
        assert(deploy.drop_last() =~= fewer_deploy);
    }
}

/// There are sizes of a kind exactly if some block holds a transaction of that
/// kind.
pub proof fn a_kind_is_missing_only_if_no_block_has_it(blocks: Seq<BlockSize>)
    ensures
        tx_sizes(blocks, TxKind::Public).len() == 0 <==> forall|i: int|
            0 <= i < blocks.len() ==> (#[trigger] blocks[i]).public_tx_bytes@.len() == 0,
        tx_sizes(blocks, TxKind::PrivacyPreserving).len() == 0 <==> forall|i: int|
            0 <= i < blocks.len() ==> (#[trigger] blocks[i]).ppe_tx_bytes@.len() == 0,
        tx_sizes(blocks, TxKind::ProgramDeployment).len() == 0 <==> forall|i: int|
            0 <= i < blocks.len() ==> (#[trigger] blocks[i]).deploy_tx_bytes@.len() == 0,
    decreases blocks.len(),
{
    if blocks.len() > 0 {
        let fewer = blocks.drop_last();
        let last = blocks.len() - 1;
        a_kind_is_missing_only_if_no_block_has_it(fewer);
        assert(blocks[last] == blocks.last());
        assert(forall|i: int| 0 <= i < fewer.len() ==> #[trigger] fewer[i] == blocks[i]);
        assert(forall|i: int| 0 <= i < last ==> #[trigger] blocks[i] == fewer[i]);
    }
}

/// The line of a summary for sizes with the given label.
pub open spec fn described(label: Seq<char>, sizes: Seq<usize>) -> Seq<char> {
    if sizes.len() == 0 {
        "  "@ + label + ": (none)\n"@
    } else {
        "  "@ + label + ": n="@ + crate::text::decimal(sizes.len()) + ", "@ + ("total="@
            + crate::text::decimal(sum_of(sizes)) + ", mean="@ + crate::text::decimal(
            mean_of(sizes),
        ) + ", min="@ + crate::text::decimal(least_of(sizes) as nat) + ", max="@
            + crate::text::decimal(greatest_of(sizes) as nat) + "\n"@)
    }
}

/// The summary of some blocks: how many there are, what their sizes are, and for
/// each of the three kinds, in this order, a line under its label with the
/// figures of all transactions of that kind in these blocks. A kind is said to
/// have none exactly if no block holds a transaction of it.
pub proof fn summary_describes_every_kind(blocks: Seq<BlockSize>)
    requires
        blocks.len() > 0,
    ensures
        ({
            let sizes = blocks.map_values(|b: BlockSize| b.block_bytes);
            let public = blocks.map_values(|b: BlockSize| b.public_tx_bytes@).flatten();
            let ppe = blocks.map_values(|b: BlockSize| b.ppe_tx_bytes@).flatten();
            let deploy = blocks.map_values(|b: BlockSize| b.deploy_tx_bytes@).flatten();
            size_summary_text(blocks) == "\nBlock + tx size summary ("@ + crate::text::decimal(
                blocks.len(),
            ) + " blocks captured):\n"@ + "  block_bytes: "@ + ("total="@ + crate::text::decimal(
                sum_of(sizes),
            ) + ", mean="@ + crate::text::decimal(mean_of(sizes)) + ", min="@
                + crate::text::decimal(least_of(sizes) as nat) + ", max="@
                + crate::text::decimal(greatest_of(sizes) as nat) + "\n"@) + described(
                "public_tx_bytes      "@,
                public,
            ) + described("ppe_tx_bytes         "@, ppe) + described(
                "deploy_tx_bytes      "@,
                deploy,
            )
        }),
        size_summary_text(Seq::empty()).len() == 0,
{
    sizes_of_a_kind_are_those_of_the_blocks(blocks);
}

/// The line of a kind in the summary of some blocks: where it stands, and that it
/// says `(none)` exactly if no block holds a transaction of the kind.
pub proof fn kinds_are_shown_or_said_to_be_missing(blocks: Seq<BlockSize>) -> (places: (
    int,
    int,
    int,
))
    requires
        blocks.len() > 0,
    ensures
        ({
            let text = size_summary_text(blocks);
            let public = described("public_tx_bytes      "@, tx_sizes(blocks, TxKind::Public));
            let ppe = described(
                "ppe_tx_bytes         "@,
                tx_sizes(blocks, TxKind::PrivacyPreserving),
            );
            let deploy = described(
                "deploy_tx_bytes      "@,
                tx_sizes(blocks, TxKind::ProgramDeployment),
            );
            &&& 0 < places.0
            &&& text.subrange(places.0, places.0 + public.len()) == public
            &&& places.1 == places.0 + public.len()
            &&& text.subrange(places.1, places.1 + ppe.len()) == ppe
            &&& places.2 == places.1 + ppe.len()
            &&& text.subrange(places.2, places.2 + deploy.len()) == deploy
            &&& text.len() == places.2 + deploy.len()
        }),
        tx_sizes(blocks, TxKind::Public) == blocks.map_values(
            |b: BlockSize| b.public_tx_bytes@,
        ).flatten(),
        tx_sizes(blocks, TxKind::PrivacyPreserving) == blocks.map_values(
            |b: BlockSize| b.ppe_tx_bytes@,
        ).flatten(),
        tx_sizes(blocks, TxKind::ProgramDeployment) == blocks.map_values(
            |b: BlockSize| b.deploy_tx_bytes@,
        ).flatten(),
{
    sizes_of_a_kind_are_those_of_the_blocks(blocks);
    summary_describes_every_kind(blocks);
    let text = size_summary_text(blocks);
    let public = described("public_tx_bytes      "@, tx_sizes(blocks, TxKind::Public));
    let ppe = described("ppe_tx_bytes         "@, tx_sizes(blocks, TxKind::PrivacyPreserving));
    let deploy = described("deploy_tx_bytes      "@, tx_sizes(blocks, TxKind::ProgramDeployment));
    let c = text.len() - deploy.len();
    let b = c - ppe.len();
    let a = b - public.len();
    reveal_strlit("  block_bytes: ");
    assert(text.subrange(a, a + public.len()) =~= public);
    assert(text.subrange(b, b + ppe.len()) =~= ppe);
    assert(text.subrange(c, c + deploy.len()) =~= deploy);
    (a, b, c)
}

/// Sizes can be added up exactly if none of the four sums of a summary, that of
/// the blocks and those of the three kinds, is too large.
pub proof fn only_large_sums_cannot_be_added_up(blocks: Seq<BlockSize>)
    ensures
        sums_fit(blocks) <==> {
            &&& sum_of(blocks.map_values(|b: BlockSize| b.block_bytes)) <= usize::MAX
            &&& sum_of(blocks.map_values(|b: BlockSize| b.public_tx_bytes@).flatten())
                <= usize::MAX
            &&& sum_of(blocks.map_values(|b: BlockSize| b.ppe_tx_bytes@).flatten()) <= usize::MAX
            &&& sum_of(blocks.map_values(|b: BlockSize| b.deploy_tx_bytes@).flatten())
                <= usize::MAX
        },
{
    sizes_of_a_kind_are_those_of_the_blocks(blocks);
    if sums_fit(blocks) {
        assert(sum_of(tx_sizes(blocks, TxKind::Public)) <= usize::MAX);
        assert(sum_of(tx_sizes(blocks, TxKind::PrivacyPreserving)) <= usize::MAX);
        assert(sum_of(tx_sizes(blocks, TxKind::ProgramDeployment)) <= usize::MAX);
    }
}

} // verus!
