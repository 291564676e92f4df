//! The packet-filter-table rule compiler.
//!
//! A block set is compiled into per-chunk transaction plans (at most
//! [`CHUNK_LIMIT`] blocks per chunk, to respect the kernel's batch message
//! size), each holding one batch per address family: create the reserved
//! table on the first chunk, create the output chain, then one drop rule per
//! block of that family, matching the control-group classifier id and the
//! masked destination address. The surrounding program submits each batch
//! over its netlink socket; [`FilterState`] models what that submission does
//! to the kernel's state, so that install and teardown can be reasoned about
//! and exercised.

use vstd::prelude::*;

use crate::net::NetworkBlock;

verus! {

/// The reserved name of the filter table (one per address family).
pub const TABLE_NAME: &'static str = "ow2dropshiprs";

/// The name of the single output-hook chain in each table.
pub const CHAIN_NAME: &'static str = "output";

/// The output-hook priority, placing the chain after default system rules.
pub const HOOK_PRIORITY: u32 = 500;

/// The largest number of blocks submitted in one batched transaction.
pub const CHUNK_LIMIT: usize = 50;

/// One drop rule: traffic from processes carrying `classid` whose
/// destination, masked with the block's netmask, equals the block's network
/// address is dropped. The block is stored in masked (canonical) form.
#[derive(Clone, Copy, PartialEq, Eq, Structural, Debug)]
pub struct RuleSpec {
    pub classid: u32,
    pub block: NetworkBlock,
}

impl RuleSpec {
    pub open spec fn is_wf(self) -> bool {
        &&& self.block.is_wf()
        &&& self.block == self.block.spec_masked()
    }
}

/// The drop rules compiled from `blocks` for one address family: the blocks
/// of that family, in order, masked, tagged with `classid`.
pub open spec fn spec_family_rules(
    blocks: Seq<NetworkBlock>,
    classid: u32,
    v4: bool,
) -> Seq<RuleSpec>
    decreases blocks.len(),
{
    if blocks.len() == 0 {
        Seq::empty()
    } else {
        let rest = spec_family_rules(blocks.drop_last(), classid, v4);
        if blocks.last().spec_is_v4() == v4 {
            rest.push(RuleSpec { classid, block: blocks.last().spec_masked() })
        } else {
            rest
        }
    }
}

/// How many chunks a block set is submitted in, each chunk being one
/// batched transaction per address family: the ceiling of `n / 50`, and one
/// even for an empty set, so that the table and chain are still created
/// (armed, matching nothing).
pub open spec fn spec_chunk_count(n: nat) -> nat {
    if n == 0 {
        1
    } else {
        (n + 49) / 50
    }
}

/// The `i`-th chunk of a block set.
pub open spec fn spec_chunk(blocks: Seq<NetworkBlock>, i: int) -> Seq<NetworkBlock> {
    blocks.subrange(
        50 * i,
        if 50 * i + 50 <= blocks.len() {
            50 * i + 50
        } else {
            blocks.len() as int
        },
    )
}

/// One batched transaction per address family: re-create the reserved table
/// (first chunk only), the output chain, and one drop rule per block of the
/// family in this chunk.
#[derive(Debug)]
pub struct ChunkPlan {
    pub create_table: bool,
    pub v4_rules: Vec<RuleSpec>,
    pub v6_rules: Vec<RuleSpec>,
}

/// The compiled plan is correct for `blocks` when it has one entry per
/// chunk, creates the table exactly on the first, and each entry carries the
/// chunk's rules of either family.
pub open spec fn spec_plan_matches(
    plan: Seq<ChunkPlan>,
    blocks: Seq<NetworkBlock>,
    classid: u32,
) -> bool {
    &&& plan.len() == spec_chunk_count(blocks.len())
    &&& forall|i: int|
        0 <= i < plan.len() ==> {
            &&& (#[trigger] plan[i]).create_table == (i == 0)
            &&& plan[i].v4_rules@ == spec_family_rules(spec_chunk(blocks, i), classid, true)
            &&& plan[i].v6_rules@ == spec_family_rules(spec_chunk(blocks, i), classid, false)
        }
}

/// Compiles the drop rules of one address family for `blocks[start..end]`.
fn family_rules(
    blocks: &Vec<NetworkBlock>,
    start: usize,
    end: usize,
    classid: u32,
    v4: bool,
) -> (r: Vec<RuleSpec>)
    requires
        start <= end <= blocks@.len(),
        forall|i: int| 0 <= i < blocks@.len() ==> (#[trigger] blocks@[i]).is_wf(),
    ensures
        r@ == spec_family_rules(blocks@.subrange(start as int, end as int), classid, v4),
{
    let mut out: Vec<RuleSpec> = Vec::new();
    let mut j: usize = start;
    while j < end
        invariant
            start <= j <= end <= blocks@.len(),
            forall|i: int| 0 <= i < blocks@.len() ==> (#[trigger] blocks@[i]).is_wf(),
            out@ == spec_family_rules(blocks@.subrange(start as int, j as int), classid, v4),
        decreases end - j,
    {
        let b = &blocks[j];
        let is4 = match b {
            NetworkBlock::V4 { .. } => true,
            NetworkBlock::V6 { .. } => false,
        };
        if is4 == v4 {
            out.push(RuleSpec { classid, block: b.masked() });
        }
        proof {
            let pre = blocks@.subrange(start as int, j as int);
            let post = blocks@.subrange(start as int, j + 1 as int);
            assert(post.drop_last() =~= pre);
            assert(post.last() == blocks@[j as int]);
        }
        j += 1;
    }
    out
}

/// Compiles a block set into its chunked transaction plans.
pub fn build_install_plan(blocks: &Vec<NetworkBlock>, classid: u32) -> (plan: Vec<ChunkPlan>)
    requires
        forall|i: int| 0 <= i < blocks@.len() ==> (#[trigger] blocks@[i]).is_wf(),
    ensures
        spec_plan_matches(plan@, blocks@, classid),
{
    let mut plan: Vec<ChunkPlan> = Vec::new();
    let mut start: usize = 0;
    loop
        invariant
            forall|i: int| 0 <= i < blocks@.len() ==> (#[trigger] blocks@[i]).is_wf(),
            start == 50 * plan@.len(),
            start <= blocks@.len(),
            plan@.len() > 0 ==> start < blocks@.len(),
            forall|i: int|
                0 <= i < plan@.len() ==> {
                    &&& (#[trigger] plan@[i]).create_table == (i == 0)
                    &&& plan@[i].v4_rules@ == spec_family_rules(
                        spec_chunk(blocks@, i),
                        classid,
                        true,
                    )
                    &&& plan@[i].v6_rules@ == spec_family_rules(
                        spec_chunk(blocks@, i),
                        classid,
                        false,
                    )
                },
        ensures
            spec_plan_matches(plan@, blocks@, classid),
        decreases blocks@.len() - start,
    {
        let end = if blocks.len() - start > 50 {
            start + 50
        } else {
            blocks.len()
        };
        let v4_rules = family_rules(blocks, start, end, classid, true);
        let v6_rules = family_rules(blocks, start, end, classid, false);
        proof {
            assert(blocks@.subrange(start as int, end as int) =~= spec_chunk(
                blocks@,
                plan@.len() as int,
            ));
        }
        plan.push(
            ChunkPlan {
                create_table: start == 0,
                v4_rules,
                v6_rules,
            },
        );
        start = end;
        if start >= blocks.len() {
            proof {
                let n = blocks@.len() as int;
                let k = plan@.len() as int;
                if n > 0 {
                    assert(50 * (k - 1) < n <= 50 * k);
                    assert((n + 49) / 50 == k) by (nonlinear_arith)
                        requires
                            50 * (k - 1) < n <= 50 * k,
                    ;
                }
                assert(plan@.len() == spec_chunk_count(blocks@.len()));
            }
            return plan;
        }
    }
}

/// What one read of the acknowledgement socket produced, after a batch was
/// submitted.
#[derive(Debug)]
pub enum AckEvent {
    /// A message was processed and more may follow.
    Processed,
    /// The stop indicator arrived.
    Stop,
    /// The socket yielded no more data.
    Drained,
    /// Processing an acknowledgement failed with the carried message.
    Error(String),
}

/// How the acknowledgement loop goes on after one event.
pub open spec fn spec_ack_step(ev: AckEvent) -> Result<bool, String> {
    match ev {
        AckEvent::Processed => Ok(true),
        AckEvent::Stop => Ok(false),
        AckEvent::Drained => Ok(false),
        AckEvent::Error(m) => Err(m),
    }
}

/// Decides one step of the acknowledgement loop: keep reading after a
/// processed message, finish on the stop indicator or a drained socket, and
/// abort with the error of a failed acknowledgement.
pub fn ack_step(ev: AckEvent) -> (r: Result<bool, String>)
    ensures
        r == spec_ack_step(ev),
        r == Ok::<bool, String>(true) <==> ev is Processed,
        r is Err <==> ev is Error,
{
    match ev {
        AckEvent::Processed => Ok(true),
        AckEvent::Stop => Ok(false),
        AckEvent::Drained => Ok(false),
        AckEvent::Error(m) => Err(m),
    }
}

/// The characterization of the transaction count as a ceiling: for a
/// non-empty block set it is the least `k` with `n <= 50 * k`.
pub proof fn lemma_chunk_count_is_ceiling(n: nat)
    requires
        n > 0,
    ensures
        50 * (spec_chunk_count(n) - 1) < n <= 50 * spec_chunk_count(n),
{
    vstd::arithmetic::div_mod::lemma_fundamental_div_mod(n + 49 as int, 50);
    vstd::arithmetic::div_mod::lemma_mod_bound(n + 49 as int, 50);
}

/// The abstract kernel filter state for the reserved table name: per address
/// family, either no table, or a table holding the output chain's drop rules
/// in order.
pub ghost struct FilterView {
    pub v4: Option<Seq<RuleSpec>>,
    pub v6: Option<Seq<RuleSpec>>,
}

/// The reserved table of one address family, with its output chain's rules.
#[derive(Debug)]
pub struct TableState {
    pub rules: Vec<RuleSpec>,
}

/// A model of the kernel's filter state, tracking for each address family
/// whether a table with the reserved name exists and which drop rules it
/// holds. Applying the compiled plans to it says exactly what an install or
/// teardown does to the kernel.
#[derive(Debug)]
pub struct FilterState {
    pub v4: Option<TableState>,
    pub v6: Option<TableState>,
}

impl View for FilterState {
    type V = FilterView;

    open spec fn view(&self) -> FilterView {
        FilterView {
            v4: match self.v4 {
                Some(t) => Some(t.rules@),
                None => None,
            },
            v6: match self.v6 {
                Some(t) => Some(t.rules@),
                None => None,
            },
        }
    }
}

/// Deleting the reserved tables by name removes both, whatever they held;
/// deleting an absent table is a tolerated no-op.
pub open spec fn spec_teardown(s: FilterView) -> FilterView {
    FilterView { v4: None, v6: None }
}

/// Installing a block set replaces whatever was present by exactly the
/// rules compiled from the new set, per address family.
pub open spec fn spec_install(s: FilterView, blocks: Seq<NetworkBlock>, classid: u32) -> FilterView {
    FilterView {
        v4: Some(spec_family_rules(blocks, classid, true)),
        v6: Some(spec_family_rules(blocks, classid, false)),
    }
}

/// What one family's batch of a chunk does to that family's table: rules are
/// appended to an existing table; a fresh table starts with the chunk's
/// rules; without a create marker an absent table stays absent.
pub open spec fn spec_table_after(
    t: Option<Seq<RuleSpec>>,
    create: bool,
    rules: Seq<RuleSpec>,
) -> Option<Seq<RuleSpec>> {
    match t {
        Some(r) => Some(r + rules),
        None => if create {
            Some(rules)
        } else {
            None
        },
    }
}

/// Appends copies of `rules` to `dst`.
fn append_rules(dst: &mut Vec<RuleSpec>, rules: &Vec<RuleSpec>)
    ensures
        final(dst)@ == old(dst)@ + rules@,
{
    proof {
        assert(old(dst)@ + rules@.take(0) =~= old(dst)@);
    }
    let mut i: usize = 0;
    while i < rules.len()
        invariant
            i <= rules@.len(),
            dst@ == old(dst)@ + rules@.take(i as int),
        decreases rules@.len() - i,
    {
        dst.push(rules[i]);
        proof {
            assert(rules@.take(i + 1 as int) =~= rules@.take(i as int).push(rules@[i as int]));
            assert(old(dst)@ + rules@.take(i + 1 as int) =~= (old(dst)@ + rules@.take(
                i as int,
            )).push(rules@[i as int]));
        }
        i += 1;
    }
    proof {
        assert(rules@.take(rules@.len() as int) =~= rules@);
    }
}

/// Applies one family's batch to that family's table state.
fn apply_family(t: Option<TableState>, create: bool, rules: &Vec<RuleSpec>) -> (r: Option<
    TableState,
>)
    ensures
        (match r {
            Some(ts) => Some(ts.rules@),
            None => None::<Seq<RuleSpec>>,
        }) == spec_table_after(
            match t {
                Some(ts) => Some(ts.rules@),
                None => None::<Seq<RuleSpec>>,
            },
            create,
            rules@,
        ),
{
    match t {
        Some(mut ts) => {
            append_rules(&mut ts.rules, rules);
            Some(ts)
        },
        None => {
            if create {
                let mut fresh: Vec<RuleSpec> = Vec::new();
                append_rules(&mut fresh, rules);
                proof {
                    assert(fresh@ =~= rules@);
                }
                Some(TableState { rules: fresh })
            } else {
                None
            }
        },
    }
}

impl FilterState {
    /// The state in which no table with the reserved name exists.
    pub fn empty() -> (s: Self)
        ensures
            s@.v4 is None,
            s@.v6 is None,
    {
        FilterState { v4: None, v6: None }
    }

    /// Removes the reserved table of both address families, whether or not
    /// one exists: the delete-by-name requests are best effort.
    pub fn teardown(&mut self)
        ensures
            final(self)@ == spec_teardown(old(self)@),
    {
        self.v4 = None;
        self.v6 = None;
    }

    /// Applies one chunk's two batches (one per address family).
    pub fn apply_chunk(&mut self, chunk: &ChunkPlan)
        ensures
            final(self)@.v4 == spec_table_after(old(self)@.v4, chunk.create_table, chunk.v4_rules@),
            final(self)@.v6 == spec_table_after(old(self)@.v6, chunk.create_table, chunk.v6_rules@),
    {
        let t4 = self.v4.take();
        self.v4 = apply_family(t4, chunk.create_table, &chunk.v4_rules);
        let t6 = self.v6.take();
        self.v6 = apply_family(t6, chunk.create_table, &chunk.v6_rules);
    }

    /// The transactional replace: tear down whatever install came before,
    /// then create the reserved tables and the drop rules compiled from
    /// `blocks`. The resulting state depends on `blocks` alone.
    pub fn install(&mut self, blocks: &Vec<NetworkBlock>, classid: u32)
        requires
            forall|i: int| 0 <= i < blocks@.len() ==> (#[trigger] blocks@[i]).is_wf(),
        ensures
            final(self)@ == spec_install(old(self)@, blocks@, classid),
    {
        self.teardown();
        let plan = build_install_plan(blocks, classid);
        let mut i: usize = 0;
        while i < plan.len()
            invariant
                spec_plan_matches(plan@, blocks@, classid),
                i <= plan@.len(),
                i == 0 ==> self@.v4 is None && self@.v6 is None,
                i > 0 ==> {
                    &&& self@.v4 == Some(spec_family_rules(spec_chunks_prefix(blocks@, i as int), classid, true))
                    &&& self@.v6 == Some(spec_family_rules(spec_chunks_prefix(blocks@, i as int), classid, false))
                },
            decreases plan@.len() - i,
        {
            self.apply_chunk(&plan[i]);
            proof {
                let n = blocks@.len() as int;
                if i > 0 {
                    lemma_chunk_count_is_ceiling(blocks@.len());
                    assert(50 * (i as int) < n);
                }
                lemma_chunk_step(blocks@, classid, i as int);
                let cur4 = spec_family_rules(spec_chunk(blocks@, i as int), classid, true);
                let cur6 = spec_family_rules(spec_chunk(blocks@, i as int), classid, false);
                if i == 0 {
                    assert(spec_family_rules(spec_chunks_prefix(blocks@, 0), classid, true)
                        =~= Seq::<RuleSpec>::empty());
                    assert(spec_family_rules(spec_chunks_prefix(blocks@, 0), classid, false)
                        =~= Seq::<RuleSpec>::empty());
                    assert(Seq::<RuleSpec>::empty() + cur4 =~= cur4);
                    assert(Seq::<RuleSpec>::empty() + cur6 =~= cur6);
                }
            }
            i += 1;
        }
        proof {
            lemma_chunks_prefix_complete(blocks@, classid);
        }
    }
}

/// The concatenation of the first `k` chunks of a block set.
pub open spec fn spec_chunks_prefix(blocks: Seq<NetworkBlock>, k: int) -> Seq<NetworkBlock> {
    blocks.take(
        if 50 * k <= blocks.len() {
            50 * k
        } else {
            blocks.len() as int
        },
    )
}

/// Compiling the rules of a family commutes with appending blocks: the rules
/// of `a + b` are the rules of `a` followed by the rules of `b`.
pub proof fn lemma_family_rules_concat(
    a: Seq<NetworkBlock>,
    b: Seq<NetworkBlock>,
    classid: u32,
    v4: bool,
)
    ensures
        spec_family_rules(a + b, classid, v4) == spec_family_rules(a, classid, v4)
            + spec_family_rules(b, classid, v4),
    decreases b.len(),
{
    if b.len() == 0 {
        assert(a + b =~= a);
        assert(spec_family_rules(a, classid, v4) + spec_family_rules(b, classid, v4)
            =~= spec_family_rules(a, classid, v4));
    } else {
        lemma_family_rules_concat(a, b.drop_last(), classid, v4);
        assert((a + b).drop_last() =~= a + b.drop_last());
        assert((a + b).last() == b.last());
    }
}

/// Applying chunk `i`'s rules extends the rules of the first `i` chunks to
/// the rules of the first `i + 1` chunks.
proof fn lemma_chunk_step(blocks: Seq<NetworkBlock>, classid: u32, i: int)
    requires
        0 <= i,
        i == 0 || 50 * i < blocks.len(),
    ensures
        spec_family_rules(spec_chunks_prefix(blocks, i), classid, true) + spec_family_rules(
            spec_chunk(blocks, i),
            classid,
            true,
        ) == spec_family_rules(spec_chunks_prefix(blocks, i + 1), classid, true),
        spec_family_rules(spec_chunks_prefix(blocks, i), classid, false) + spec_family_rules(
            spec_chunk(blocks, i),
            classid,
            false,
        ) == spec_family_rules(spec_chunks_prefix(blocks, i + 1), classid, false),
{
    assert(spec_chunks_prefix(blocks, i) + spec_chunk(blocks, i) =~= spec_chunks_prefix(
        blocks,
        i + 1,
    ));
    lemma_family_rules_concat(spec_chunks_prefix(blocks, i), spec_chunk(blocks, i), classid, true);
    lemma_family_rules_concat(spec_chunks_prefix(blocks, i), spec_chunk(blocks, i), classid, false);
}

/// After all chunks, the accumulated rules are those of the whole block set.
proof fn lemma_chunks_prefix_complete(blocks: Seq<NetworkBlock>, classid: u32)
    ensures
        spec_chunks_prefix(blocks, spec_chunk_count(blocks.len()) as int) =~= blocks,
{
    let k = spec_chunk_count(blocks.len()) as int;
    if blocks.len() > 0 {
        lemma_chunk_count_is_ceiling(blocks.len());
    }
    assert(50 * k >= blocks.len());
}

/// Law: masking before compiling changes nothing — a block whose address
/// still has host bits set compiles to exactly the rules of the block
/// authored with its masked network address.
pub proof fn lemma_premasked_blocks_same_rules(blocks: Seq<NetworkBlock>, classid: u32, v4: bool)
    requires
        forall|i: int| 0 <= i < blocks.len() ==> (#[trigger] blocks[i]).is_wf(),
    ensures
        spec_family_rules(
            blocks.map_values(|b: NetworkBlock| b.spec_masked()),
            classid,
            v4,
        ) == spec_family_rules(blocks, classid, v4),
    decreases blocks.len(),
{
    let mapped = blocks.map_values(|b: NetworkBlock| b.spec_masked());
    if blocks.len() == 0 {
    } else {
        let init = blocks.drop_last();
        assert(forall|i: int| 0 <= i < init.len() ==> (#[trigger] init[i]).is_wf());
        lemma_premasked_blocks_same_rules(init, classid, v4);
        assert(mapped.drop_last() =~= init.map_values(|b: NetworkBlock| b.spec_masked()));
        assert(mapped.last() == blocks.last().spec_masked());
        crate::net::lemma_masked_idempotent(blocks.last());
        assert(mapped.last().spec_is_v4() == blocks.last().spec_is_v4());
        assert(mapped.last().spec_masked() == blocks.last().spec_masked());
    }
}

/// Law: installing a block set and then tearing down leaves no filter table
/// with the reserved name in either address family.
pub proof fn lemma_install_then_teardown(
    s: FilterView,
    blocks: Seq<NetworkBlock>,
    classid: u32,
)
    ensures
        spec_teardown(spec_install(s, blocks, classid)).v4 is None,
        spec_teardown(spec_install(s, blocks, classid)).v6 is None,
{
}

/// Law: re-installing replaces the previous rules entirely; the state after
/// installing `b` over an earlier install of `a` is exactly the state of a
/// fresh install of `b`.
pub proof fn lemma_reinstall_replaces(
    s: FilterView,
    a: Seq<NetworkBlock>,
    b: Seq<NetworkBlock>,
    classid: u32,
)
    ensures
        spec_install(spec_install(s, a, classid), b, classid) == spec_install(s, b, classid),
{
}

} // verus!
