use vstd::prelude::*;
use crate::hexcodec::{decode_gensig, hex_encode, hex_lower, spec_decode_gensig, GensigError};
use crate::plot::{check_nonce, poc2_scoop};
use crate::text::{push_char, str_chars};
use vstd::string::StringExecFns;
use crate::poc::{calculate_new_gensig, nonce_data, scoop_deadline, spec_new_gensig, spec_scoop};

verus! {

/// A block header as exported from a chain.
pub struct Block {
    pub height: u64,
    pub time: u64,
    pub base_target: u64,
    pub plotter_id: u64,
    pub nonce: u64,
    pub generation_signature: String,
    pub deadline: u64,
}

/// What is written out for each verified block.
#[derive(Debug, Clone, Copy, PartialEq, Eq, Structural)]
pub struct Info {
    pub scoop: u64,
    pub deadline: u64,
    pub elapsed: u64,
}

/// The outcome of verifying a block against the block before it.
#[derive(Debug, Clone, Copy, PartialEq, Eq, Structural)]
pub struct BlockVerification {
    /// The stored generation signature is the one derived from the
    /// previous block.
    pub gensig_valid: bool,
    /// The stored deadline is the one the forger's nonce gives.
    pub deadline_valid: bool,
    /// Scoop, deadline and time since the previous block.
    pub info: Info,
}

/// The scaled deadline of a forger's nonce under the derived generation
/// signature `g` and the previous block's base target.
pub open spec fn block_deadline(
    g: Seq<u8>,
    height: u64,
    plotter_id: u64,
    nonce: u64,
    base_target: u64,
) -> u64 {
    let scoop = spec_scoop(height, g);
    scoop_deadline(g, poc2_scoop(nonce_data(plotter_id, nonce), scoop as int)) / base_target
}

/// `earlier - later` in 64-bit wrapping arithmetic (the time between two
/// blocks, taken the wrong way round, as the exported rows hold it).
pub open spec fn wrapping_time_diff(earlier: u64, later: u64) -> u64 {
    if earlier >= later {
        (earlier - later) as u64
    } else {
        (earlier - later + 0x1_0000_0000_0000_0000) as u64
    }
}

/// The outcome of verifying `block` against `prev`.
pub open spec fn spec_verify_block(prev: Block, block: Block) -> Result<
    BlockVerification,
    GensigError,
> {
    match spec_decode_gensig(prev.generation_signature@) {
        Err(e) => Err(e),
        Ok(last) => {
            let g = spec_new_gensig(prev.plotter_id, last);
            let dl = block_deadline(g, block.height, block.plotter_id, block.nonce, prev.base_target);
            Ok(
                BlockVerification {
                    gensig_valid: hex_lower(g) == block.generation_signature@,
                    deadline_valid: dl == block.deadline,
                    info: Info {
                        scoop: spec_scoop(block.height, g) as u64,
                        deadline: dl,
                        elapsed: wrapping_time_diff(prev.time, block.time),
                    },
                },
            )
        },
    }
}

fn time_diff(earlier: u64, later: u64) -> (d: u64)
    ensures
        d == wrapping_time_diff(earlier, later),
{
    if earlier >= later {
        earlier - later
    } else {
        (u64::MAX - (later - earlier)) + 1
    }
}

/// Verifies `block` against the block `prev` before it: derives the
/// generation signature from `prev`, compares it with the stored one,
/// recomputes the forger's PoC2 deadline and compares it with the stored
/// deadline.
pub fn verify_block(prev: &Block, block: &Block) -> (r: Result<BlockVerification, GensigError>)
    requires
        prev.base_target > 0,
    ensures
        r == spec_verify_block(*prev, *block),
{
    let last = match decode_gensig(prev.generation_signature.as_str()) {
        Err(e) => {
            return Err(e);
        },
        Ok(g) => g,
    };
    let gensig = calculate_new_gensig(prev.plotter_id, &last);
    let encoded = hex_encode(gensig.as_slice());
    let gensig_valid = encoded == block.generation_signature;
    let check = check_nonce(block.height, block.plotter_id, block.nonce, &gensig);
    let deadline = check.deadline_poc2 / prev.base_target;
    let deadline_valid = deadline == block.deadline;
    let info = Info {
        scoop: check.scoop as u64,
        deadline,
        elapsed: time_diff(prev.time, block.time),
    };
    Ok(BlockVerification { gensig_valid, deadline_valid, info })
}

/// Two blocks that differ only in their stored generation signature are
/// verified alike, but for the signature check itself.
pub proof fn lemma_stored_gensig_only_affects_gensig_check(prev: Block, b1: Block, b2: Block)
    requires
        b1.height == b2.height,
        b1.time == b2.time,
        b1.base_target == b2.base_target,
        b1.plotter_id == b2.plotter_id,
        b1.nonce == b2.nonce,
        b1.deadline == b2.deadline,
    ensures
        spec_verify_block(prev, b1) is Ok <==> spec_verify_block(prev, b2) is Ok,
        spec_verify_block(prev, b1) matches Ok(v1) ==> spec_verify_block(prev, b2) matches Ok(v2)
            && v1.info == v2.info && v1.deadline_valid == v2.deadline_valid,
{
}

/// Where a run of failed validations begins or ends.
#[derive(Debug, Clone, Copy, PartialEq, Eq, Structural)]
pub enum ValidationEvent {
    /// The first failing block of a run.
    ErrorStart(u64),
    /// The first passing block after a run, or the last block.
    ErrorEnd(u64),
}

/// One step of the validation tracker: `pass` says whether the previous
/// block passed; gives the new state and the event, if any.
pub open spec fn spec_track_step(pass: bool, height: u64, valid: bool) -> (bool, Option<
    ValidationEvent,
>) {
    if !valid && pass {
        (false, Some(ValidationEvent::ErrorStart(height)))
    } else if valid && !pass {
        (true, Some(ValidationEvent::ErrorEnd(height)))
    } else {
        (pass, None)
    }
}

/// The tracker's state and events after the results `results`.
pub open spec fn spec_track(results: Seq<(u64, bool)>) -> (bool, Seq<ValidationEvent>)
    decreases results.len(),
{
    if results.len() == 0 {
        (true, Seq::empty())
    } else {
        let prev = spec_track(results.drop_last());
        let step = spec_track_step(prev.0, results.last().0, results.last().1);
        (
            step.0,
            match step.1 {
                Some(e) => prev.1.push(e),
                None => prev.1,
            },
        )
    }
}

/// The events reported for a run of results: those of the tracker, and a
/// closing `ErrorEnd` at the last block if a run of failures is still open.
pub open spec fn spec_validation_events(results: Seq<(u64, bool)>) -> Seq<ValidationEvent> {
    let t = spec_track(results);
    if t.0 {
        t.1
    } else {
        t.1.push(ValidationEvent::ErrorEnd(results.last().0))
    }
}

/// Advances the validation tracker by one block.
pub fn track_step(pass: bool, height: u64, valid: bool) -> (r: (bool, Option<ValidationEvent>))
    ensures
        r == spec_track_step(pass, height, valid),
{
    if !valid && pass {
        (false, Some(ValidationEvent::ErrorStart(height)))
    } else if valid && !pass {
        (true, Some(ValidationEvent::ErrorEnd(height)))
    } else {
        (pass, None)
    }
}

/// Reports where runs of failed validations begin and end, given the
/// height of each block and whether it passed.
pub fn validation_events(results: &Vec<(u64, bool)>) -> (events: Vec<ValidationEvent>)
    ensures
        events@ == spec_validation_events(results@),
{
    let mut events: Vec<ValidationEvent> = Vec::new();
    let mut pass = true;
    let mut i: usize = 0;
    while i < results.len()
        invariant
            i <= results@.len(),
            (pass, events@) == spec_track(results@.take(i as int)),
        decreases results@.len() - i,
    {
        let (height, valid) = results[i];
        let (next, event) = track_step(pass, height, valid);
        proof {
            assert(results@.take(i + 1).drop_last() =~= results@.take(i as int));
        }
        pass = next;
        match event {
            Some(e) => events.push(e),
            None => {},
        }
        i = i + 1;
    }
    assert(results@.take(results@.len() as int) =~= results@);
    if !pass {
        let last = results.len() - 1;
        events.push(ValidationEvent::ErrorEnd(results[last].0));
    }
    events
}

/// The events alternate: a start, then an end, and so on.
pub open spec fn events_alternate(events: Seq<ValidationEvent>) -> bool {
    forall|k: int|
        0 <= k < events.len() ==> (#[trigger] events[k] is ErrorStart <==> k % 2 == 0)
}

proof fn lemma_track_alternates(results: Seq<(u64, bool)>)
    ensures
        events_alternate(spec_track(results).1),
        spec_track(results).0 <==> spec_track(results).1.len() % 2 == 0,
    decreases results.len(),
{
    if results.len() > 0 {
        lemma_track_alternates(results.drop_last());
    }
}

/// Reported failure runs alternate start and end, and every run that is
/// started is also ended.
pub proof fn lemma_validation_events_balanced(results: Seq<(u64, bool)>)
    ensures
        events_alternate(spec_validation_events(results)),
        spec_validation_events(results).len() % 2 == 0,
{
    lemma_track_alternates(results);
    let t = spec_track(results);
    if !t.0 {
        let ev = spec_validation_events(results);
        assert forall|k: int| 0 <= k < ev.len() implies (#[trigger] ev[k] is ErrorStart <==> k % 2
            == 0) by {
            if k < t.1.len() {
                assert(ev[k] == t.1[k]);
            }
        }
    }
}

/// The event the tracker reports at the `i`-th result: a start where a
/// failure follows a pass (or opens the run), an end where a pass follows
/// a failure.
pub open spec fn run_edge(results: Seq<(u64, bool)>, i: int) -> Option<ValidationEvent> {
    if !results[i].1 && (i == 0 || results[i - 1].1) {
        Some(ValidationEvent::ErrorStart(results[i].0))
    } else if results[i].1 && i > 0 && !results[i - 1].1 {
        Some(ValidationEvent::ErrorEnd(results[i].0))
    } else {
        None
    }
}

/// The tracker's state after some results is whether the last of them
/// passed (and it starts out passing).
pub proof fn lemma_track_state_is_last_result(results: Seq<(u64, bool)>)
    ensures
        spec_track(results).0 == (results.len() == 0 || results.last().1),
    decreases results.len(),
{
    if results.len() > 0 {
        lemma_track_state_is_last_result(results.drop_last());
    }
}

/// At each result the tracker reports exactly its run edge, and after the
/// last result it closes a run that is still open at the last block.
pub proof fn lemma_track_reports_run_edges(results: Seq<(u64, bool)>, i: int)
    requires
        0 <= i < results.len(),
    ensures
        spec_track(results.take(i + 1)).0 == results[i].1,
        spec_track_step(spec_track(results.take(i)).0, results[i].0, results[i].1) == (
            results[i].1,
            run_edge(results, i),
        ),
        spec_track(results.take(i + 1)).1 == match run_edge(results, i) {
            Some(e) => spec_track(results.take(i)).1.push(e),
            None => spec_track(results.take(i)).1,
        },
        spec_validation_events(results) == if results.len() > 0 && !results.last().1 {
            spec_track(results).1.push(ValidationEvent::ErrorEnd(results.last().0))
        } else {
            spec_track(results).1
        },
{
    lemma_track_state_is_last_result(results.take(i));
    lemma_track_state_is_last_result(results.take(i + 1));
    lemma_track_state_is_last_result(results);
    assert(results.take(i + 1).drop_last() =~= results.take(i));
    assert(results.take(i + 1).last() == results[i]);
    if i > 0 {
        assert(results.take(i).last() == results[i - 1]);
    }
}

/// The first block checked: the blocks before it are premined.
pub const FIRST_VERIFIED_BLOCK: usize = 84002;

/// The outcomes of checking blocks `first..end` of a chain, each against
/// the block before it; the first failure to decode a signature stops it.
pub open spec fn spec_chain_results(blocks: Seq<Block>, first: nat, end: nat) -> Result<
    Seq<BlockVerification>,
    GensigError,
>
    decreases end,
{
    if end <= first || end < 2 {
        Ok(Seq::empty())
    } else {
        match spec_chain_results(blocks, first, (end - 1) as nat) {
            Err(e) => Err(e),
            Ok(rs) => match spec_verify_block(blocks[end - 2], blocks[end - 1]) {
                Err(e) => Err(e),
                Ok(v) => Ok(rs.push(v)),
            },
        }
    }
}

/// Height and signature check of each checked block.
pub open spec fn gensig_results(blocks: Seq<Block>, first: nat, rs: Seq<BlockVerification>) -> Seq<
    (u64, bool),
> {
    Seq::new(rs.len(), |k: int| (blocks[first + k].height, rs[k].gensig_valid))
}

/// Height and deadline check of each checked block.
pub open spec fn deadline_results(blocks: Seq<Block>, first: nat, rs: Seq<BlockVerification>) -> Seq<
    (u64, bool),
> {
    Seq::new(rs.len(), |k: int| (blocks[first + k].height, rs[k].deadline_valid))
}

/// The outcome of checking a chain from block `first` on.
pub struct ChainVerification {
    /// One outcome per checked block, in order.
    pub results: Vec<BlockVerification>,
    /// Runs of wrong generation signatures.
    pub gensig_events: Vec<ValidationEvent>,
    /// Runs of wrong deadlines.
    pub deadline_events: Vec<ValidationEvent>,
}

proof fn lemma_chain_error_sticks(blocks: Seq<Block>, first: nat, end: nat, later: nat)
    requires
        end <= later,
        spec_chain_results(blocks, first, end) is Err,
    ensures
        spec_chain_results(blocks, first, later) == spec_chain_results(blocks, first, end),
    decreases later - end,
{
    if end < later {
        lemma_chain_error_sticks(blocks, first, end, (later - 1) as nat);
    }
}

/// Checks blocks `first..` of a chain, each against the block before it,
/// and reports the runs of failed signature and deadline checks.
pub fn verify_chain_from(blocks: &Vec<Block>, first: usize) -> (r: Result<
    ChainVerification,
    GensigError,
>)
    requires
        1 <= first <= blocks@.len(),
        forall|i: int| first <= i < blocks@.len() ==> #[trigger] blocks@[i - 1].base_target > 0,
    ensures
        match spec_chain_results(blocks@, first as nat, blocks@.len()) {
            Err(e) => r == Err::<ChainVerification, GensigError>(e),
            Ok(rs) => r matches Ok(c) && c.results@ == rs && c.gensig_events@
                == spec_validation_events(gensig_results(blocks@, first as nat, rs))
                && c.deadline_events@ == spec_validation_events(
                deadline_results(blocks@, first as nat, rs),
            ),
        },
{
    let mut results: Vec<BlockVerification> = Vec::new();
    let mut gensig: Vec<(u64, bool)> = Vec::new();
    let mut deadline: Vec<(u64, bool)> = Vec::new();
    let mut i: usize = first;
    while i < blocks.len()
        invariant
            1 <= first <= i <= blocks@.len(),
            forall|j: int| first <= j < blocks@.len() ==> #[trigger] blocks@[j - 1].base_target > 0,
            spec_chain_results(blocks@, first as nat, i as nat) == Ok::<
                Seq<BlockVerification>,
                GensigError,
            >(results@),
            results@.len() == i - first,
            gensig@ == gensig_results(blocks@, first as nat, results@),
            deadline@ == deadline_results(blocks@, first as nat, results@),
        decreases blocks@.len() - i,
    {
        assert(blocks@[i - 1].base_target > 0);
        let v = match verify_block(&blocks[i - 1], &blocks[i]) {
            Err(e) => {
                proof {
                    lemma_chain_error_sticks(blocks@, first as nat, (i + 1) as nat, blocks@.len());
                }
                return Err(e);
            },
            Ok(v) => v,
        };
        results.push(v);
        gensig.push((blocks[i].height, v.gensig_valid));
        deadline.push((blocks[i].height, v.deadline_valid));
        assert(gensig@ =~= gensig_results(blocks@, first as nat, results@));
        assert(deadline@ =~= deadline_results(blocks@, first as nat, results@));
        i = i + 1;
    }
    let gensig_events = validation_events(&gensig);
    let deadline_events = validation_events(&deadline);
    Ok(ChainVerification { results, gensig_events, deadline_events })
}

/// Checks a chain from the first block after the premine on.
pub fn verify_chain(blocks: &Vec<Block>) -> (r: Result<ChainVerification, GensigError>)
    requires
        FIRST_VERIFIED_BLOCK <= blocks@.len(),
        forall|i: int|
            FIRST_VERIFIED_BLOCK <= i < blocks@.len() ==> #[trigger] blocks@[i - 1].base_target > 0,
    ensures
        match spec_chain_results(blocks@, FIRST_VERIFIED_BLOCK as nat, blocks@.len()) {
            Err(e) => r == Err::<ChainVerification, GensigError>(e),
            Ok(rs) => r matches Ok(c) && c.results@ == rs && c.gensig_events@
                == spec_validation_events(gensig_results(blocks@, FIRST_VERIFIED_BLOCK as nat, rs))
                && c.deadline_events@ == spec_validation_events(
                deadline_results(blocks@, FIRST_VERIFIED_BLOCK as nat, rs),
            ),
        },
{
    verify_chain_from(blocks, FIRST_VERIFIED_BLOCK)
}

proof fn lemma_chain_prefix_alike(b1: Seq<Block>, b2: Seq<Block>, first: nat, end: nat)
    requires
        end < b1.len(),
        b1.len() == b2.len(),
        forall|i: int| 0 <= i < b1.len() - 1 ==> b1[i] == b2[i],
    ensures
        spec_chain_results(b1, first, end) == spec_chain_results(b2, first, end),
    decreases end,
{
    if end > first && end >= 2 {
        lemma_chain_prefix_alike(b1, b2, first, (end - 1) as nat);
    }
}

/// Two chains that differ only in the stored generation signature of their
/// last block are checked alike, but for that block's signature check: the
/// same blocks fail to decode, and every checked block gets the same scoop,
/// deadline, elapsed time and deadline check.
pub proof fn lemma_last_stored_gensig_does_not_change_rows(
    b1: Seq<Block>,
    b2: Seq<Block>,
    first: nat,
)
    requires
        b1.len() == b2.len(),
        b1.len() >= 1,
        forall|i: int| 0 <= i < b1.len() - 1 ==> b1[i] == b2[i],
        b1.last().height == b2.last().height,
        b1.last().time == b2.last().time,
        b1.last().base_target == b2.last().base_target,
        b1.last().plotter_id == b2.last().plotter_id,
        b1.last().nonce == b2.last().nonce,
        b1.last().deadline == b2.last().deadline,
    ensures
        spec_chain_results(b1, first, b1.len()) is Ok <==> spec_chain_results(b2, first, b2.len()) is Ok,
        spec_chain_results(b1, first, b1.len()) matches Ok(r1) ==> spec_chain_results(
            b2,
            first,
            b2.len(),
        ) matches Ok(r2) && r1.len() == r2.len() && forall|k: int|
            0 <= k < r1.len() ==> #[trigger] r1[k].info == r2[k].info && r1[k].deadline_valid
                == r2[k].deadline_valid,
{
    let n = b1.len();
    lemma_chain_prefix_alike(b1, b2, first, (n - 1) as nat);
    if n > first && n >= 2 {
        assert(b1[n - 2] == b2[n - 2]);
        lemma_stored_gensig_only_affects_gensig_check(b1[n - 2], b1[n - 1], b2[n - 1]);
    }
}

/// The deadline of a block is the raw deadline of the forger's PoC2 scoop,
/// under the signature derived from the previous block, divided by the
/// previous block's base target; the block's own base target plays no part.
pub proof fn lemma_deadline_scaled_by_previous_base_target(prev: Block, block: Block, other: Block)
    requires
        other.height == block.height,
        other.time == block.time,
        other.plotter_id == block.plotter_id,
        other.nonce == block.nonce,
        other.generation_signature == block.generation_signature,
        other.deadline == block.deadline,
    ensures
        spec_verify_block(prev, other) == spec_verify_block(prev, block),
        spec_verify_block(prev, block) matches Ok(v) ==> spec_decode_gensig(
            prev.generation_signature@,
        ) matches Ok(last) && {
            let g = spec_new_gensig(prev.plotter_id, last);
            let s = spec_scoop(block.height, g) as int;
            let nonce = nonce_data(block.plotter_id, block.nonce);
            let scoop = nonce.subrange(64 * s, 64 * s + 32) + nonce.subrange(
                64 * (4095 - s) + 32,
                64 * (4095 - s) + 64,
            );
            &&& v.info.deadline == scoop_deadline(g, scoop) / prev.base_target
            &&& v.info.scoop == spec_scoop(block.height, g)
            &&& v.deadline_valid == (v.info.deadline == block.deadline)
            &&& v.gensig_valid == (hex_lower(g) == block.generation_signature@)
        },
{
}

proof fn lemma_all_pass_no_events(r: Seq<(u64, bool)>)
    requires
        forall|i: int| 0 <= i < r.len() ==> #[trigger] r[i].1,
    ensures
        spec_track(r).0,
        spec_track(r).1.len() == 0,
    decreases r.len(),
{
    if r.len() > 0 {
        assert forall|i: int| 0 <= i < r.drop_last().len() implies #[trigger] r.drop_last()[i].1 by {
            assert(r.drop_last()[i] == r[i]);
        }
        lemma_all_pass_no_events(r.drop_last());
        assert(r.last().1);
    }
}

proof fn lemma_no_events_all_pass(r: Seq<(u64, bool)>)
    requires
        spec_track(r).1.len() == 0,
    ensures
        spec_track(r).0,
        forall|i: int| 0 <= i < r.len() ==> #[trigger] r[i].1,
    decreases r.len(),
{
    if r.len() > 0 {
        let prev = spec_track(r.drop_last());
        if prev.1.len() > 0 {
            assert(spec_track(r).1.len() >= prev.1.len());
        }
        lemma_no_events_all_pass(r.drop_last());
        assert forall|i: int| 0 <= i < r.len() implies #[trigger] r[i].1 by {
            if i < r.len() - 1 {
                assert(r.drop_last()[i] == r[i]);
            }
        }
    }
}

proof fn lemma_track_prefix(r: Seq<(u64, bool)>, j: int)
    requires
        0 <= j <= r.len(),
    ensures
        spec_track(r.take(j)).1.len() <= spec_track(r).1.len(),
        spec_track(r).1.subrange(0, spec_track(r.take(j)).1.len() as int) == spec_track(r.take(j)).1,
    decreases r.len() - j,
{
    if j == r.len() {
        assert(r.take(j) =~= r);
        assert(spec_track(r).1.subrange(0, spec_track(r).1.len() as int) =~= spec_track(r).1);
    } else {
        lemma_track_prefix(r, j + 1);
        assert(r.take(j + 1).drop_last() =~= r.take(j));
        let a = spec_track(r.take(j)).1;
        let b = spec_track(r.take(j + 1)).1;
        let c = spec_track(r).1;
        assert(b.subrange(0, a.len() as int) =~= a);
        assert(c.subrange(0, a.len() as int) =~= c.subrange(0, b.len() as int).subrange(0, a.len() as int));
    }
}

/// A run report is empty exactly when every check passed; otherwise it
/// opens with the start of a run at the first failing block.
pub proof fn lemma_run_report_tracks_checks(r: Seq<(u64, bool)>)
    ensures
        spec_validation_events(r).len() == 0 <==> forall|i: int| 0 <= i < r.len() ==> #[trigger] r[i].1,
        forall|i0: int|
            0 <= i0 < r.len() && !r[i0].1 && (forall|i: int| 0 <= i < i0 ==> #[trigger] r[i].1)
                ==> spec_validation_events(r).len() >= 1 && spec_validation_events(r)[0]
                == ValidationEvent::ErrorStart(#[trigger] r[i0].0),
{
    if forall|i: int| 0 <= i < r.len() ==> #[trigger] r[i].1 {
        lemma_all_pass_no_events(r);
    }
    if spec_validation_events(r).len() == 0 {
        lemma_no_events_all_pass(r);
    }
    assert forall|i0: int|
        0 <= i0 < r.len() && !r[i0].1 && (forall|i: int| 0 <= i < i0 ==> #[trigger] r[i].1)
        implies spec_validation_events(r).len() >= 1 && spec_validation_events(r)[0]
        == ValidationEvent::ErrorStart(#[trigger] r[i0].0) by {
        let pre = r.take(i0);
        assert forall|i: int| 0 <= i < pre.len() implies #[trigger] pre[i].1 by {
            assert(pre[i] == r[i]);
        }
        lemma_all_pass_no_events(pre);
        lemma_track_reports_run_edges(r, i0);
        lemma_track_prefix(r, i0 + 1);
        let t = spec_track(r.take(i0 + 1)).1;
        assert(t =~= seq![ValidationEvent::ErrorStart(r[i0].0)]);
        assert(spec_track(r).1[0] == t[0]);
        assert(spec_validation_events(r)[0] == spec_track(r).1[0]);
    }
}

/// The deadline runs of a chain report the deadline checks and nothing
/// else: the k-th entry is the height of block `first + k` with its
/// deadline check, so the report is empty exactly when every deadline
/// matches, opens at the first block whose deadline does not, and does not
/// change when only signature checks change.
pub proof fn lemma_deadline_runs_follow_deadline_checks(
    blocks: Seq<Block>,
    first: nat,
    rs: Seq<BlockVerification>,
    other: Seq<BlockVerification>,
)
    requires
        first + rs.len() <= blocks.len(),
        other.len() == rs.len(),
        forall|k: int| 0 <= k < rs.len() ==> #[trigger] other[k].deadline_valid == rs[k].deadline_valid,
    ensures
        forall|k: int|
            0 <= k < rs.len() ==> #[trigger] deadline_results(blocks, first, rs)[k] == (
                blocks[first + k].height,
                rs[k].deadline_valid,
            ),
        spec_validation_events(deadline_results(blocks, first, rs)).len() == 0 <==> forall|k: int|
            0 <= k < rs.len() ==> #[trigger] rs[k].deadline_valid,
        forall|k0: int|
            0 <= k0 < rs.len() && !rs[k0].deadline_valid && (forall|k: int|
                0 <= k < k0 ==> #[trigger] rs[k].deadline_valid) ==> spec_validation_events(
                deadline_results(blocks, first, rs),
            )[0] == ValidationEvent::ErrorStart(blocks[first + k0].height),
        spec_validation_events(deadline_results(blocks, first, other)) == spec_validation_events(
            deadline_results(blocks, first, rs),
        ),
{
    let r = deadline_results(blocks, first, rs);
    lemma_run_report_tracks_checks(r);
    assert(deadline_results(blocks, first, other) =~= r);
    assert((forall|i: int| 0 <= i < r.len() ==> #[trigger] r[i].1) <==> (forall|k: int|
        0 <= k < rs.len() ==> #[trigger] rs[k].deadline_valid)) by {
        if forall|k: int| 0 <= k < rs.len() ==> #[trigger] rs[k].deadline_valid {
            assert forall|i: int| 0 <= i < r.len() implies #[trigger] r[i].1 by {
                assert(rs[i].deadline_valid);
            }
        }
        if forall|i: int| 0 <= i < r.len() ==> #[trigger] r[i].1 {
            assert forall|k: int| 0 <= k < rs.len() implies #[trigger] rs[k].deadline_valid by {
                assert(r[k].1);
            }
        }
    }
    assert forall|k0: int|
        0 <= k0 < rs.len() && !rs[k0].deadline_valid && (forall|k: int|
            0 <= k < k0 ==> #[trigger] rs[k].deadline_valid) implies spec_validation_events(r)[0]
        == ValidationEvent::ErrorStart(blocks[first + k0].height) by {
        assert(!r[k0].1);
        assert forall|i: int| 0 <= i < k0 implies #[trigger] r[i].1 by {
            assert(rs[i].deadline_valid);
        }
        assert(r[k0].0 == blocks[first + k0].height);
    }
}

/// The signature runs of a chain report the signature checks and nothing
/// else, in the same way.
pub proof fn lemma_gensig_runs_follow_gensig_checks(
    blocks: Seq<Block>,
    first: nat,
    rs: Seq<BlockVerification>,
    other: Seq<BlockVerification>,
)
    requires
        first + rs.len() <= blocks.len(),
        other.len() == rs.len(),
        forall|k: int| 0 <= k < rs.len() ==> #[trigger] other[k].gensig_valid == rs[k].gensig_valid,
    ensures
        forall|k: int|
            0 <= k < rs.len() ==> #[trigger] gensig_results(blocks, first, rs)[k] == (
                blocks[first + k].height,
                rs[k].gensig_valid,
            ),
        spec_validation_events(gensig_results(blocks, first, rs)).len() == 0 <==> forall|k: int|
            0 <= k < rs.len() ==> #[trigger] rs[k].gensig_valid,
        spec_validation_events(gensig_results(blocks, first, other)) == spec_validation_events(
            gensig_results(blocks, first, rs),
        ),
{
    let r = gensig_results(blocks, first, rs);
    lemma_run_report_tracks_checks(r);
    assert(gensig_results(blocks, first, other) =~= r);
    if forall|k: int| 0 <= k < rs.len() ==> #[trigger] rs[k].gensig_valid {
        assert forall|i: int| 0 <= i < r.len() implies #[trigger] r[i].1 by {
            assert(rs[i].gensig_valid);
        }
    }
    if forall|i: int| 0 <= i < r.len() ==> #[trigger] r[i].1 {
        assert forall|k: int| 0 <= k < rs.len() implies #[trigger] rs[k].gensig_valid by {
            assert(r[k].1);
        }
    }
}

/// Does `pattern` occur in `s` at position `i`.
pub open spec fn occurs_at(s: Seq<char>, pattern: Seq<char>, i: int) -> bool {
    0 <= i && i + pattern.len() <= s.len() && s.subrange(i, i + pattern.len()) == pattern
}

/// Where the output of a verification run goes: the input name up to its
/// first `.csv` (or all of it), followed by `_scoop_dl.csv`.
pub open spec fn spec_output_file_name(input: Seq<char>) -> Seq<char> {
    let pattern = seq!['.', 'c', 's', 'v'];
    let cut = if exists|i: int| occurs_at(input, pattern, i) {
        choose|i: int| occurs_at(input, pattern, i) && forall|j: int| 0 <= j < i ==> !occurs_at(input, pattern, j)
    } else {
        input.len() as int
    };
    input.take(cut) + seq!['_', 's', 'c', 'o', 'o', 'p', '_', 'd', 'l', '.', 'c', 's', 'v']
}

/// Names the file that the scoops and deadlines of a verification run of
/// `input` are written to.
pub fn output_file_name(input: &str) -> (name: String)
    ensures
        name@ == spec_output_file_name(input@),
{
    let chars = str_chars(input);
    let ghost pattern = seq!['.', 'c', 's', 'v'];
    let n = chars.len();
    let mut cut: usize = n;
    let mut i: usize = 0;
    assert(pattern.len() == 4 && pattern[0] == '.' && pattern[1] == 'c' && pattern[2] == 's'
        && pattern[3] == 'v');
    while cut == n && i < n
        invariant
            n == chars@.len(),
            chars@ == input@,
            i <= n,
            pattern == seq!['.', 'c', 's', 'v'],
            pattern.len() == 4 && pattern[0] == '.' && pattern[1] == 'c' && pattern[2] == 's'
                && pattern[3] == 'v',
            cut == n ==> forall|j: int| 0 <= j < i ==> !occurs_at(chars@, pattern, j),
            cut != n ==> cut < n && occurs_at(chars@, pattern, cut as int) && forall|j: int|
                0 <= j < cut ==> !occurs_at(chars@, pattern, j),
        decreases n - i,
    {
        if n - i >= 4 && chars[i] == '.' && chars[i + 1] == 'c' && chars[i + 2] == 's' && chars[i
            + 3] == 'v' {
            assert(chars@.subrange(i as int, i + 4) =~= pattern);
            cut = i;
        } else {
            assert(!occurs_at(chars@, pattern, i as int)) by {
                if occurs_at(chars@, pattern, i as int) {
                    assert(chars@.subrange(i as int, i + 4)[0] == chars@[i as int]);
                    assert(chars@.subrange(i as int, i + 4)[1] == chars@[i + 1]);
                    assert(chars@.subrange(i as int, i + 4)[2] == chars@[i + 2]);
                    assert(chars@.subrange(i as int, i + 4)[3] == chars@[i + 3]);
                }
            }
        }
        i = i + 1;
    }
    proof {
        if cut == n {
            assert forall|j: int| !occurs_at(chars@, pattern, j) by {
                if 0 <= j && j < i {
                }
            }
        } else {
            let c = choose|j: int|
                occurs_at(chars@, pattern, j) && forall|k: int| 0 <= k < j ==> !occurs_at(chars@, pattern, k);
            assert(occurs_at(chars@, pattern, c));
            assert(c == cut as int) by {
                if c < cut {
                } else if c > cut {
                }
            }
        }
    }
    let mut name = String::new();
    let mut k: usize = 0;
    while k < cut
        invariant
            cut <= n,
            n == chars@.len(),
            k <= cut,
            name@ == chars@.take(k as int),
        decreases cut - k,
    {
        push_char(&mut name, chars[k]);
        assert(chars@.take(k + 1) =~= chars@.take(k as int).push(chars@[k as int]));
        k = k + 1;
    }
    push_char(&mut name, '_');
    push_char(&mut name, 's');
    push_char(&mut name, 'c');
    push_char(&mut name, 'o');
    push_char(&mut name, 'o');
    push_char(&mut name, 'p');
    push_char(&mut name, '_');
    push_char(&mut name, 'd');
    push_char(&mut name, 'l');
    push_char(&mut name, '.');
    push_char(&mut name, 'c');
    push_char(&mut name, 's');
    push_char(&mut name, 'v');
    assert(name@ =~= input@.take(cut as int) + seq!['_', 's', 'c', 'o', 'o', 'p', '_', 'd', 'l', '.', 'c', 's', 'v']);
    name
}

} // verus!
