use deadline_checker::hexcodec::GensigError;
use deadline_checker::plot::check_nonce;
use deadline_checker::poc::{calculate_new_gensig, calculate_scoop};
use deadline_checker::verify::{
    validation_events, verify_block, verify_chain, verify_chain_from, Block, ValidationEvent,
    FIRST_VERIFIED_BLOCK,
};

fn block(height: u64, time: u64, gensig: String, plotter: u64, nonce: u64, deadline: u64) -> Block {
    Block {
        height,
        time,
        base_target: 1000,
        plotter_id: plotter,
        nonce,
        generation_signature: gensig,
        deadline,
    }
}

#[test]
fn verify_block_accepts_derived_header() {
    let last = [5u8; 32];
    let prev = block(99, 50, hex::encode(last), 4242, 1, 0);
    let g = calculate_new_gensig(4242, &last);
    let check = check_nonce(100, 31337, 77, &g);
    let dl = check.deadline_poc2 / 1000;
    let cur = block(100, 40, hex::encode(g), 31337, 77, dl);
    let v = verify_block(&prev, &cur).unwrap();
    assert!(v.gensig_valid);
    assert!(v.deadline_valid);
    assert_eq!(v.info.scoop, calculate_scoop(100, &g) as u64);
    assert_eq!(v.info.deadline, dl);
    assert_eq!(v.info.elapsed, 10);

    // times ascend on a real chain: the elapsed field wraps around
    let later = block(100, 60, hex::encode(g), 31337, 77, dl);
    let v = verify_block(&prev, &later).unwrap();
    assert!(v.gensig_valid && v.deadline_valid);
    assert_eq!(v.info.elapsed, 50u64.wrapping_sub(60));

    let bad = block(100, 40, hex::encode([0u8; 32]), 31337, 77, dl + 1);
    let v = verify_block(&prev, &bad).unwrap();
    assert!(!v.gensig_valid);
    assert!(!v.deadline_valid);
}

#[test]
fn verify_block_rejects_bad_previous_gensig() {
    let prev = block(99, 50, "xyz".to_string(), 1, 1, 0);
    let cur = block(100, 40, String::new(), 1, 1, 0);
    assert_eq!(verify_block(&prev, &cur).err(), Some(GensigError::InvalidHex));
}

#[test]
fn validation_runs() {
    assert_eq!(validation_events(&vec![]), vec![]);
    assert_eq!(validation_events(&vec![(1, true), (2, true)]), vec![]);
    assert_eq!(
        validation_events(&vec![(1, true), (2, false), (3, false), (4, true), (5, false)]),
        vec![ValidationEvent::ErrorStart(2), ValidationEvent::ErrorEnd(4), ValidationEvent::ErrorStart(5), ValidationEvent::ErrorEnd(5)]
    );
    assert_eq!(
        validation_events(&vec![(7, false), (8, true)]),
        vec![ValidationEvent::ErrorStart(7), ValidationEvent::ErrorEnd(8)]
    );
}

fn chain(n: usize) -> Vec<Block> {
    let mut blocks = Vec::new();
    let mut gensig = [3u8; 32];
    for h in 0..n as u64 {
        blocks.push(block(h, 1000 + h * 240, hex::encode(gensig), 500 + h, h, 0));
        gensig = calculate_new_gensig(500 + h, &gensig);
    }
    blocks
}

#[test]
fn chain_pass_from_first_block() {
    let mut blocks = chain(4);
    // a wrong signature stored at block 2; block 3 is then derived from it and
    // fails too, so the run is closed at the last block
    blocks[2].generation_signature = hex::encode([0u8; 32]);
    let r = verify_chain_from(&blocks, 2).unwrap();
    assert_eq!(r.results.len(), 2);
    assert!(!r.results[0].gensig_valid);
    assert!(!r.results[1].gensig_valid);
    assert_eq!(r.results[0].info.elapsed, 1240u64.wrapping_sub(1480));
    assert_eq!(
        r.gensig_events,
        vec![ValidationEvent::ErrorStart(2), ValidationEvent::ErrorEnd(3)]
    );
    // deadlines stored as 0 are wrong unless the scaled deadline is 0
    let expected: Vec<bool> = r.results.iter().map(|v| v.info.deadline == 0).collect();
    let got: Vec<bool> = r.results.iter().map(|v| v.deadline_valid).collect();
    assert_eq!(expected, got);
}

#[test]
fn chain_pass_stops_at_undecodable_signature() {
    let mut blocks = chain(3);
    blocks[1].generation_signature = "nothex".to_string();
    assert_eq!(verify_chain_from(&blocks, 1).err(), Some(GensigError::InvalidHex));
}

#[test]
fn chain_pass_skips_premine() {
    let mut blocks: Vec<Block> = (0..FIRST_VERIFIED_BLOCK as u64)
        .map(|h| block(h, h, String::new(), 1, 1, 0))
        .collect();
    blocks[FIRST_VERIFIED_BLOCK - 1].generation_signature = hex::encode([9u8; 32]);
    let g = calculate_new_gensig(1, &[9u8; 32]);
    blocks.push(block(FIRST_VERIFIED_BLOCK as u64, 0, hex::encode(g), 2, 2, 0));
    let r = verify_chain(&blocks).unwrap();
    assert_eq!(r.results.len(), 1);
    assert!(r.results[0].gensig_valid);
    assert!(r.gensig_events.is_empty());
    // only the premined blocks: nothing is checked
    blocks.pop();
    assert_eq!(verify_chain(&blocks).unwrap().results.len(), 0);
}
