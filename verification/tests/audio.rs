use ezstreamer_core::audio::{mix_run_len, BLOCK, MIC_ID};

#[test]
fn run_is_the_shortest_available_queue() {
    assert_eq!(mix_run_len(&vec![2880, 960]), Some(960));
    assert_eq!(mix_run_len(&vec![500, 0, 700]), Some(500));
    assert_eq!(mix_run_len(&vec![0, 0]), None);
    assert_eq!(mix_run_len(&vec![]), None);
}

#[test]
fn run_is_capped_at_one_block() {
    assert_eq!(BLOCK, 960);
    assert_eq!(mix_run_len(&vec![5000, 4000]), Some(960));
    assert_eq!(mix_run_len(&vec![961]), Some(960));
    assert_eq!(mix_run_len(&vec![1]), Some(1));
    assert_eq!(MIC_ID, "__mic__");
}

use ezstreamer_core::audio::{pump_step, PumpStep, BLOCK_MS};

#[test]
fn idle_sources_get_a_silent_block() {
    assert_eq!(pump_step(&vec![0, 0]), PumpStep::Silence { len: 960 });
    assert_eq!(pump_step(&vec![]), PumpStep::Silence { len: 960 });
    assert_eq!(pump_step(&vec![0, 300]), PumpStep::Mix { len: 300 });
    assert_eq!(pump_step(&vec![5000]), PumpStep::Mix { len: 960 });
    assert_eq!(BLOCK_MS, 10);
}
