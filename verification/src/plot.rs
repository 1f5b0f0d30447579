use vstd::prelude::*;
use crate::decimal::{parse_u64_chars, spec_parse_u64, ParseNumberError};
use crate::poc::{
    calculate_scoop, find_best_deadline_rust, noncegen_rust, nonce_data, scoop_deadline,
    spec_scoop, NONCE_SIZE, NUM_SCOOPS,
};
use crate::text::{split_chars, split_on, str_chars};

verus! {

/// Byte offset of a scoop within a nonce.
pub open spec fn scoop_address(scoop: int) -> int {
    64 * scoop
}

/// The scoop whose second hash a PoC2 scoop borrows.
pub open spec fn mirror_scoop(scoop: int) -> int {
    4095 - scoop
}

/// A PoC1 scoop of a nonce: its 64 bytes as generated.
pub open spec fn poc1_scoop(nonce: Seq<u8>, scoop: int) -> Seq<u8> {
    nonce.subrange(scoop_address(scoop), scoop_address(scoop) + 64)
}

/// A PoC2 scoop of a nonce: the first hash of the scoop followed by the
/// second hash of its mirror scoop.
pub open spec fn poc2_scoop(nonce: Seq<u8>, scoop: int) -> Seq<u8> {
    nonce.subrange(scoop_address(scoop), scoop_address(scoop) + 32) + nonce.subrange(
        scoop_address(mirror_scoop(scoop)) + 32,
        scoop_address(mirror_scoop(scoop)) + 64,
    )
}

/// A PoC2 scoop is a PoC1 scoop whose second hash is taken from the mirror
/// scoop; the mirror of the mirror is the scoop itself.
pub proof fn lemma_poc2_scoop_mirrors(nonce: Seq<u8>, scoop: int)
    requires
        0 <= scoop < 4096,
        nonce.len() == NONCE_SIZE,
    ensures
        mirror_scoop(mirror_scoop(scoop)) == scoop,
        0 <= mirror_scoop(scoop) < 4096,
        poc2_scoop(nonce, scoop).subrange(0, 32) == poc1_scoop(nonce, scoop).subrange(0, 32),
        poc2_scoop(nonce, scoop).subrange(32, 64) == poc1_scoop(nonce, mirror_scoop(scoop)).subrange(
            32,
            64,
        ),
        poc2_scoop(nonce, mirror_scoop(scoop)).subrange(32, 64) == poc1_scoop(nonce, scoop).subrange(
            32,
            64,
        ),
{
    assert(poc2_scoop(nonce, scoop).subrange(0, 32) =~= poc1_scoop(nonce, scoop).subrange(0, 32));
    assert(poc2_scoop(nonce, scoop).subrange(32, 64) =~= poc1_scoop(
        nonce,
        mirror_scoop(scoop),
    ).subrange(32, 64));
    assert(poc2_scoop(nonce, mirror_scoop(scoop)).subrange(32, 64) =~= poc1_scoop(
        nonce,
        scoop,
    ).subrange(32, 64));
}

/// What `check_nonce` finds for one nonce.
pub struct NonceCheck {
    /// The scoop the block selects.
    pub scoop: u32,
    /// The PoC1 scoop: first hash, then second hash.
    pub poc1_scoop: Vec<u8>,
    /// The PoC2 scoop: first hash, then the mirror scoop's second hash.
    pub poc2_scoop: Vec<u8>,
    /// Raw deadline of the PoC1 scoop.
    pub deadline_poc1: u64,
    /// Raw deadline of the PoC2 scoop.
    pub deadline_poc2: u64,
}

fn copy_range(src: &[u8], from: usize, to: usize, out: &mut Vec<u8>)
    requires
        from <= to <= src@.len(),
    ensures
        final(out)@ == old(out)@ + src@.subrange(from as int, to as int),
{
    let ghost start = out@;
    let mut i: usize = from;
    while i < to
        invariant
            from <= i <= to,
            to <= src@.len(),
            out@ == start + src@.subrange(from as int, i as int),
        decreases to - i,
    {
        out.push(src[i]);
        assert(src@.subrange(from as int, i + 1) =~= src@.subrange(from as int, i as int).push(
            src@[i as int],
        ));
        i = i + 1;
    }
}

/// Generates nonce `nonce` of account `numeric_id`, picks the scoop that
/// `height` and `gensig` select, and computes its PoC1 and PoC2 deadlines.
pub fn check_nonce(height: u64, numeric_id: u64, nonce: u64, gensig: &[u8; 32]) -> (r: NonceCheck)
    ensures
        r.scoop == spec_scoop(height, gensig@),
        r.scoop < NUM_SCOOPS,
        r.poc1_scoop@ == poc1_scoop(nonce_data(numeric_id, nonce), r.scoop as int),
        r.poc2_scoop@ == poc2_scoop(nonce_data(numeric_id, nonce), r.scoop as int),
        r.deadline_poc1 == scoop_deadline(gensig@, r.poc1_scoop@),
        r.deadline_poc2 == scoop_deadline(gensig@, r.poc2_scoop@),
{
    let scoop = calculate_scoop(height, gensig);
    let mut cache: Vec<u8> = Vec::new();
    let mut z: usize = 0;
    while z < NONCE_SIZE
        invariant
            z <= NONCE_SIZE,
            cache@.len() == z,
        decreases NONCE_SIZE - z,
    {
        cache.push(0u8);
        z = z + 1;
    }
    noncegen_rust(cache.as_mut_slice(), numeric_id, nonce, 1);
    assert(cache@ =~= cache@.subrange(0 * NONCE_SIZE, 0 * NONCE_SIZE + NONCE_SIZE));
    let address: usize = 64 * (scoop as usize);
    let mirror: usize = 4095 - (scoop as usize);
    let mirror_address: usize = 64 * mirror;
    let mut poc1: Vec<u8> = Vec::new();
    copy_range(cache.as_slice(), address, address + 64, &mut poc1);
    let mut poc2: Vec<u8> = Vec::new();
    copy_range(cache.as_slice(), address, address + 32, &mut poc2);
    copy_range(cache.as_slice(), mirror_address + 32, mirror_address + 64, &mut poc2);
    assert(poc1@ =~= poc1_scoop(nonce_data(numeric_id, nonce), scoop as int));
    assert(poc2@ =~= poc2_scoop(nonce_data(numeric_id, nonce), scoop as int));
    let (deadline_poc1, _) = find_best_deadline_rust(poc1.as_slice(), 1, gensig);
    assert(poc1@.subrange(0, 64) =~= poc1@);
    let (deadline_poc2, _) = find_best_deadline_rust(poc2.as_slice(), 1, gensig);
    assert(poc2@.subrange(0, 64) =~= poc2@);
    NonceCheck { scoop, poc1_scoop: poc1, poc2_scoop: poc2, deadline_poc1, deadline_poc2 }
}

/// A raw deadline scaled by the base target of the previous block.
pub fn adjust_deadline(raw: u64, base_target: u64) -> (adjusted: u64)
    requires
        base_target > 0,
    ensures
        adjusted == raw / base_target,
{
    raw / base_target
}

/// The network difficulty that a base target stands for.
pub fn net_difficulty(base_target: u64) -> (difficulty: u64)
    requires
        base_target > 0,
    ensures
        difficulty == 4398046511104u64 / 240 / base_target,
{
    4398046511104u64 / 240 / base_target
}

/// Layout of a plot file, told by the number of parts in its name.
#[derive(Debug, Clone, Copy, PartialEq, Eq, Structural)]
pub enum PlotFormat {
    /// `id_start_nonces_stagger`
    Poc1,
    /// `id_start_nonces`
    Poc2,
}

/// What a plot file's name says about its contents.
#[derive(Debug, Clone, Copy, PartialEq, Eq, Structural)]
pub struct PlotFileName {
    /// The account the file was plotted for.
    pub account_id: u64,
    /// The first nonce in the file.
    pub start_nonce: u64,
    /// How many nonces the file holds.
    pub nonces: u64,
    /// The layout the name announces.
    pub format: PlotFormat,
}

/// Why a plot file cannot be checked for a nonce.
#[derive(Debug, Clone, Copy, PartialEq, Eq, Structural)]
pub enum PlotCheckError {
    /// The name has neither three nor four parts.
    UnknownFormat,
    /// A PoC1 name whose stagger differs from its nonce count.
    Unoptimized,
    /// The file belongs to another account.
    IdMismatch,
    /// The file's size is not what its name announces.
    SizeMismatch { expected: u64, actual: u64 },
    /// The nonce asked for is not in the file.
    NonceNotInFile,
}

/// Where to read in a plot file.
#[derive(Debug, Clone, Copy, PartialEq, Eq, Structural)]
pub struct PlotReadPlan {
    /// Offset of the 64-byte scoop.
    pub scoop_offset: u64,
    /// Offset of the 32-byte second hash of the mirror scoop.
    pub mirror_offset: u64,
}

/// The layout a plot file name announces.
pub open spec fn spec_plot_format(name: Seq<char>) -> Option<PlotFormat> {
    let parts = split_on(name, '_');
    if parts.len() == 3 {
        Some(PlotFormat::Poc2)
    } else if parts.len() == 4 {
        Some(PlotFormat::Poc1)
    } else {
        None
    }
}

/// The value of a successful number read.
pub open spec fn parse_value(r: Result<u64, ParseNumberError>) -> u64 {
    match r {
        Ok(v) => v,
        Err(_) => 0,
    }
}

/// Reading a plot file name for account `numeric_id`, in this order: the
/// number of parts; for PoC1, stagger and nonce count, which must agree;
/// the account id, which must be `numeric_id`; the start nonce; the nonce
/// count. `None` where a part that is read on the way is not a number.
pub open spec fn spec_scan_plot_name(name: Seq<char>, numeric_id: u64) -> Option<
    Result<PlotFileName, PlotCheckError>,
> {
    let parts = split_on(name, '_');
    let n = parts.len();
    if n != 3 && n != 4 {
        Some(Err(PlotCheckError::UnknownFormat))
    } else if n == 4 && (spec_parse_u64(parts[2]) is Err || spec_parse_u64(parts[3]) is Err) {
        None
    } else if n == 4 && parse_value(spec_parse_u64(parts[2])) != parse_value(
        spec_parse_u64(parts[3]),
    ) {
        Some(Err(PlotCheckError::Unoptimized))
    } else if spec_parse_u64(parts[0]) is Err {
        None
    } else if parse_value(spec_parse_u64(parts[0])) != numeric_id {
        Some(Err(PlotCheckError::IdMismatch))
    } else if spec_parse_u64(parts[1]) is Err || spec_parse_u64(parts[2]) is Err {
        None
    } else {
        Some(
            Ok(
                PlotFileName {
                    account_id: numeric_id,
                    start_nonce: parse_value(spec_parse_u64(parts[1])),
                    nonces: parse_value(spec_parse_u64(parts[2])),
                    format: if n == 3 {
                        PlotFormat::Poc2
                    } else {
                        PlotFormat::Poc1
                    },
                },
            ),
        )
    }
}

/// Can a plot file name be read for account `numeric_id`: every part that
/// is read on the way to an answer is a number.
pub open spec fn plot_name_readable(name: Seq<char>, numeric_id: u64) -> bool {
    spec_scan_plot_name(name, numeric_id) is Some
}

/// The answer for a readable plot file name.
pub open spec fn spec_read_plot_name(name: Seq<char>, numeric_id: u64) -> Result<
    PlotFileName,
    PlotCheckError,
> {
    match spec_scan_plot_name(name, numeric_id) {
        Some(r) => r,
        None => Err(PlotCheckError::UnknownFormat),
    }
}

/// The layout a plot file name announces: PoC2 for three parts separated
/// by `_`, PoC1 for four, none otherwise.
pub fn plot_format(name: &str) -> (r: Option<PlotFormat>)
    ensures
        r == spec_plot_format(name@),
{
    let chars = str_chars(name);
    let parts = split_chars(&chars, '_');
    if parts.len() == 3 {
        Some(PlotFormat::Poc2)
    } else if parts.len() == 4 {
        Some(PlotFormat::Poc1)
    } else {
        None
    }
}

fn scan_plot_name(name: &str, numeric_id: u64) -> (r: Option<Result<PlotFileName, PlotCheckError>>)
    ensures
        r == spec_scan_plot_name(name@, numeric_id),
{
    let chars = str_chars(name);
    let parts = split_chars(&chars, '_');
    let n = parts.len();
    if n != 3 && n != 4 {
        return Some(Err(PlotCheckError::UnknownFormat));
    }
    assert(parts@[0]@ == split_on(name@, '_')[0]);
    assert(parts@[1]@ == split_on(name@, '_')[1]);
    assert(parts@[2]@ == split_on(name@, '_')[2]);
    if n == 4 {
        assert(parts@[3]@ == split_on(name@, '_')[3]);
        let stagger = parse_u64_chars(&parts[2]);
        let count = parse_u64_chars(&parts[3]);
        match stagger {
            Err(_) => {
                return None;
            },
            Ok(a) => match count {
                Err(_) => {
                    return None;
                },
                Ok(b) => {
                    if a != b {
                        return Some(Err(PlotCheckError::Unoptimized));
                    }
                },
            },
        }
    }
    let account = match parse_u64_chars(&parts[0]) {
        Err(_) => {
            return None;
        },
        Ok(v) => v,
    };
    if account != numeric_id {
        return Some(Err(PlotCheckError::IdMismatch));
    }
    let start_nonce = match parse_u64_chars(&parts[1]) {
        Err(_) => {
            return None;
        },
        Ok(v) => v,
    };
    let nonces = match parse_u64_chars(&parts[2]) {
        Err(_) => {
            return None;
        },
        Ok(v) => v,
    };
    let format = if n == 3 {
        PlotFormat::Poc2
    } else {
        PlotFormat::Poc1
    };
    Some(Ok(PlotFileName { account_id: account, start_nonce, nonces, format }))
}

/// Tells whether `read_plot_name` can read `name` for `numeric_id`, that is,
/// whether every part it reads on the way to an answer is a number.
pub fn plot_name_is_readable(name: &str, numeric_id: u64) -> (readable: bool)
    ensures
        readable == plot_name_readable(name@, numeric_id),
{
    scan_plot_name(name, numeric_id).is_some()
}

/// Reads a plot file name and checks that the file belongs to `numeric_id`.
pub fn read_plot_name(name: &str, numeric_id: u64) -> (r: Result<PlotFileName, PlotCheckError>)
    requires
        plot_name_readable(name@, numeric_id),
    ensures
        r == spec_read_plot_name(name@, numeric_id),
{
    match scan_plot_name(name, numeric_id) {
        Some(r) => r,
        None => Err(PlotCheckError::UnknownFormat),
    }
}

/// Where the scoop and the mirror scoop's second hash of `nonce` lie in a
/// plot file of `file_size` bytes named as `plot` says; the scoop groups
/// are taken to be 4096 nonces apart.
pub open spec fn spec_plan_scoop_reads(
    plot: PlotFileName,
    nonce: u64,
    scoop: u32,
    file_size: u64,
) -> Result<PlotReadPlan, PlotCheckError> {
    let expected = plot.nonces * NONCE_SIZE;
    if file_size != expected {
        Err(PlotCheckError::SizeMismatch { expected: expected as u64, actual: file_size })
    } else if !(plot.start_nonce <= nonce && nonce < plot.start_nonce + plot.nonces) {
        Err(PlotCheckError::NonceNotInFile)
    } else {
        Ok(
            PlotReadPlan {
                scoop_offset: (scoop * 262144 + (nonce - plot.start_nonce) * 64) as u64,
                mirror_offset: ((4095 - scoop) * 262144 + (nonce - plot.start_nonce) * 64
                    + 32) as u64,
            },
        )
    }
}

/// Checks the size of a plot file and that it holds `nonce`, and says
/// where to read the scoop and the mirror scoop's second hash.
pub fn plan_scoop_reads(plot: &PlotFileName, nonce: u64, scoop: u32, file_size: u64) -> (r: Result<
    PlotReadPlan,
    PlotCheckError,
>)
    requires
        plot.nonces * NONCE_SIZE <= u64::MAX,
        scoop < NUM_SCOOPS,
        file_size == plot.nonces * NONCE_SIZE && plot.start_nonce <= nonce ==> plot.start_nonce
            + plot.nonces <= u64::MAX,
    ensures
        r == spec_plan_scoop_reads(*plot, nonce, scoop, file_size),
        plot.nonces == NUM_SCOOPS ==> (r matches Ok(p) ==> p.scoop_offset + 64 <= file_size
            && p.mirror_offset + 32 <= file_size),
{
    let expected: u64 = plot.nonces * (NONCE_SIZE as u64);
    if file_size != expected {
        return Err(PlotCheckError::SizeMismatch { expected, actual: file_size });
    }
    if !(nonce >= plot.start_nonce && nonce < plot.start_nonce + plot.nonces) {
        return Err(PlotCheckError::NonceNotInFile);
    }
    let within: u64 = nonce - plot.start_nonce;
    assert(within * 64 <= plot.nonces * 64);
    let scoop_offset: u64 = (scoop as u64) * 262144 + within * 64;
    let mirror_offset: u64 = (4095 - scoop as u64) * 262144 + within * 64 + 32;
    Ok(PlotReadPlan { scoop_offset, mirror_offset })
}

/// Deadlines of a scoop read from a plot file.
pub struct PlotScoopDeadlines {
    /// The scoop's first hash followed by the mirror scoop's second hash.
    pub mirrored_scoop: Vec<u8>,
    /// Raw deadline of `mirrored_scoop`.
    pub deadline_mirrored: u64,
    /// Raw deadline of the scoop as read.
    pub deadline_direct: u64,
}

/// Computes the deadlines of a 64-byte scoop read from a plot file, as it
/// is and with its second hash replaced by the 32 bytes read at the mirror
/// scoop.
pub fn plot_file_deadlines(scoop_read: &[u8], mirror_read: &[u8], gensig: &[u8; 32]) -> (r:
    PlotScoopDeadlines)
    requires
        scoop_read@.len() == 64,
        mirror_read@.len() == 32,
    ensures
        r.mirrored_scoop@ == scoop_read@.subrange(0, 32) + mirror_read@,
        r.deadline_mirrored == scoop_deadline(gensig@, r.mirrored_scoop@),
        r.deadline_direct == scoop_deadline(gensig@, scoop_read@),
{
    let mut mirrored: Vec<u8> = Vec::new();
    copy_range(scoop_read, 0, 32, &mut mirrored);
    copy_range(mirror_read, 0, 32, &mut mirrored);
    assert(mirror_read@.subrange(0, 32) =~= mirror_read@);
    assert(mirrored@.subrange(0, 64) =~= mirrored@);
    assert(scoop_read@.subrange(0, 64) =~= scoop_read@);
    let (deadline_mirrored, _) = find_best_deadline_rust(mirrored.as_slice(), 1, gensig);
    let (deadline_direct, _) = find_best_deadline_rust(scoop_read, 1, gensig);
    PlotScoopDeadlines { mirrored_scoop: mirrored, deadline_mirrored, deadline_direct }
}

/// A successful plan reads the scoop at `scoop * 262144` plus 64 bytes per
/// nonce before `nonce` in the file, and the mirror scoop's second hash at
/// `(4095 - scoop) * 262144` plus the same, plus 32; it is given only for a
/// file of the announced size that holds `nonce`.
pub proof fn lemma_plan_offsets(plot: PlotFileName, nonce: u64, scoop: u32, file_size: u64)
    requires
        plot.nonces * NONCE_SIZE <= u64::MAX,
        scoop < NUM_SCOOPS,
    ensures
        spec_plan_scoop_reads(plot, nonce, scoop, file_size) matches Ok(p) ==> {
            &&& file_size == plot.nonces * 262144
            &&& plot.start_nonce <= nonce < plot.start_nonce + plot.nonces
            &&& p.scoop_offset == scoop * 262144 + (nonce - plot.start_nonce) * 64
            &&& p.mirror_offset == (4095 - scoop) * 262144 + (nonce - plot.start_nonce) * 64 + 32
        },
        file_size != plot.nonces * 262144 ==> spec_plan_scoop_reads(plot, nonce, scoop, file_size)
            == Err::<PlotReadPlan, PlotCheckError>(
            PlotCheckError::SizeMismatch { expected: (plot.nonces * 262144) as u64, actual: file_size },
        ),
        file_size == plot.nonces * 262144 && !(plot.start_nonce <= nonce < plot.start_nonce
            + plot.nonces) ==> spec_plan_scoop_reads(plot, nonce, scoop, file_size) == Err::<
            PlotReadPlan,
            PlotCheckError,
        >(PlotCheckError::NonceNotInFile),
{
    if file_size == plot.nonces * 262144 && plot.start_nonce <= nonce < plot.start_nonce
        + plot.nonces {
        assert((nonce - plot.start_nonce) * 64 < plot.nonces * 64);
    }
}

/// Only the position of the nonce within the file counts: moving the
/// file's start nonce and the nonce asked for by the same amount gives the
/// same plan.
pub proof fn lemma_plan_shift_invariant(
    plot: PlotFileName,
    nonce: u64,
    scoop: u32,
    file_size: u64,
    shifted: PlotFileName,
    shifted_nonce: u64,
)
    requires
        plot.nonces * NONCE_SIZE <= u64::MAX,
        scoop < NUM_SCOOPS,
        shifted.nonces == plot.nonces,
        shifted.start_nonce - plot.start_nonce == shifted_nonce - nonce,
    ensures
        spec_plan_scoop_reads(shifted, shifted_nonce, scoop, file_size) == spec_plan_scoop_reads(
            plot,
            nonce,
            scoop,
            file_size,
        ),
{
    lemma_plan_offsets(plot, nonce, scoop, file_size);
    lemma_plan_offsets(shifted, shifted_nonce, scoop, file_size);
}

/// A plot file name is accepted for `numeric_id` only if it has three parts
/// (PoC2) or four (PoC1, whose last two agree), its first part reads as
/// `numeric_id`, and the second and third read as the start nonce and the
/// nonce count given back; a readable name of the right shape whose first
/// part reads as another account is refused as `IdMismatch`.
pub proof fn lemma_plot_name_checks_account(name: Seq<char>, numeric_id: u64)
    requires
        plot_name_readable(name, numeric_id),
    ensures
        spec_read_plot_name(name, numeric_id) matches Ok(p) ==> {
            let parts = split_on(name, '_');
            &&& parts.len() == 3 || parts.len() == 4
            &&& spec_parse_u64(parts[0]) == Ok::<u64, ParseNumberError>(numeric_id)
            &&& p.account_id == numeric_id
            &&& spec_parse_u64(parts[1]) == Ok::<u64, ParseNumberError>(p.start_nonce)
            &&& spec_parse_u64(parts[2]) == Ok::<u64, ParseNumberError>(p.nonces)
            &&& parts.len() == 4 ==> spec_parse_u64(parts[3]) == Ok::<u64, ParseNumberError>(
                p.nonces,
            ) && p.format == PlotFormat::Poc1
            &&& parts.len() == 3 ==> p.format == PlotFormat::Poc2
        },
        ({
            let parts = split_on(name, '_');
            &&& parts.len() == 3 || parts.len() == 4
            &&& spec_parse_u64(parts[0]) matches Ok(a) && a != numeric_id
            &&& parts.len() == 4 ==> spec_parse_u64(parts[2]) == spec_parse_u64(parts[3])
        }) ==> spec_read_plot_name(name, numeric_id) == Err::<PlotFileName, PlotCheckError>(
            PlotCheckError::IdMismatch,
        ),
{
}

} // verus!
