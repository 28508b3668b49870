use sha256_miner::buffers::{convert_fat_buf, input_words, result_is_hit};
use sha256_miner::candidate::start_candidate;
use sha256_miner::counter::add_big_int;
use sha256_miner::search::{batch_size, ConfigError, Phase, Search, SearchConfig};

fn config(workgroup_size: u32, dispatch_x: u32, iterations: u32, difficulty_bits: u32) -> SearchConfig {
    SearchConfig { workgroup_size, dispatch_x, iterations, difficulty_bits }
}

#[test]
fn batch_size_multiplies_the_three_widths() {
    assert_eq!(batch_size(&config(256, 2048, 64, 32)), Ok(33_554_432));
    assert_eq!(batch_size(&config(0, 4_000_000_000, 4_000_000_000, 0)), Ok(0));
}

#[test]
fn batch_size_that_overflows_is_refused() {
    assert_eq!(batch_size(&config(65_536, 65_536, 1, 0)), Err(ConfigError::BatchTooLarge));
    assert_eq!(batch_size(&config(256, 2048, 8192, 32)), Err(ConfigError::BatchTooLarge));
}

#[test]
fn difficulty_above_full_width_is_refused() {
    assert!(matches!(Search::new(&config(1, 1, 1, 257), [0u8; 32]), Err(ConfigError::DifficultyTooLarge)));
    assert!(Search::new(&config(1, 1, 1, 256), [0u8; 32]).is_ok());
}

#[test]
fn new_search_starts_at_the_start() {
    let mut start = [0u8; 32];
    start[0] = 9;
    let s = Search::new(&config(4, 2, 3, 16), start).ok().unwrap();
    assert_eq!(s.candidate(), start);
    assert_eq!(s.batch_size(), 24);
    assert_eq!(s.batches(), 0);
    assert_eq!(s.hashes(), 0);
    assert_eq!(s.winner(), None);
}

#[test]
fn quiet_batches_advance_by_batch_size() {
    let mut s = Search::new(&config(256, 2048, 64, 32), [0u8; 32]).ok().unwrap();
    let b = s.batch_size();
    let zero = [0u32; 32];
    let k: u32 = 5;
    for _ in 0..k {
        assert!(s.begin_batch().is_some());
        assert_eq!(s.on_result(&zero), None);
    }
    let mut expected = [0u8; 32];
    add_big_int(&mut expected, k * b);
    assert_eq!(s.candidate(), expected);
    assert_eq!(s.batches(), 5);
    assert_eq!(s.hashes(), 5 * 33_554_432);
}

#[test]
fn hit_stops_without_advancing() {
    let mut s = Search::new(&config(2, 2, 2, 8), [0u8; 32]).ok().unwrap();
    let zero = [0u32; 32];
    let mut hit = [0u32; 32];
    hit[0] = 0x1_23;
    hit[5] = 7;
    let mut steps = 0;
    let mut found = None;
    for batch in 0..10 {
        steps += 1;
        let slot = if batch == 3 { hit } else { zero };
        assert!(s.begin_batch().is_some());
        if let Some(w) = s.on_result(&slot) {
            found = Some(w);
            break;
        }
    }
    assert_eq!(steps, 4);
    let mut expected_winner = [0u8; 32];
    expected_winner[0] = 0x23;
    expected_winner[5] = 7;
    assert_eq!(found, Some(expected_winner));
    let mut expected = [0u8; 32];
    add_big_int(&mut expected, 3 * 8);
    assert_eq!(s.candidate(), expected);
    assert_eq!(s.batches(), 3);
    assert_eq!(s.phase(), Phase::HitFound);
    // Nothing starts or changes once the winner is known.
    assert_eq!(s.begin_batch(), None);
    assert_eq!(s.on_result(&zero), Some(expected_winner));
    assert_eq!(s.candidate(), expected);
    assert_eq!(s.batches(), 3);
}

#[test]
fn all_zero_slots_never_hit() {
    let mut s = Search::new(&config(1, 1, 1, 256), [0u8; 32]).ok().unwrap();
    for _ in 0..1000 {
        assert!(s.begin_batch().is_some());
        assert_eq!(s.on_result(&[0u32; 32]), None);
    }
    assert_eq!(s.phase(), Phase::Ready);
    assert_eq!(s.winner(), None);
    assert_eq!(s.batches(), 1000);
}

#[test]
fn first_slot_with_a_hit_wins_at_once() {
    let mut s = Search::new(&config(1, 1, 1, 0), [0u8; 32]).ok().unwrap();
    let mut slot = [0u32; 32];
    slot[31] = 1;
    assert!(s.begin_batch().is_some());
    assert!(s.on_result(&slot).is_some());
    assert_eq!(s.batches(), 0);
    assert_eq!(s.candidate(), [0u8; 32]);
}

#[test]
fn same_candidate_gives_same_input() {
    let mut start = [0u8; 32];
    start[1] = 0xAB;
    let mut a = Search::new(&config(1, 1, 1, 0), start).ok().unwrap();
    let mut b = Search::new(&config(1, 1, 1, 0), start).ok().unwrap();
    let first = a.begin_batch().unwrap();
    let second = b.begin_batch().unwrap();
    assert_eq!(first, second);
    assert_eq!(first[1], 0xAB);
    assert_eq!(first[0], 0);
    let mut slot = [0u32; 32];
    slot[2] = 5;
    assert_eq!(a.on_result(&slot), b.on_result(&slot));
}

#[test]
fn only_one_batch_is_out_at_a_time() {
    let mut s = Search::new(&config(1, 1, 1, 0), [0u8; 32]).ok().unwrap();
    assert_eq!(s.phase(), Phase::Ready);
    assert!(s.begin_batch().is_some());
    assert_eq!(s.phase(), Phase::AwaitingResult);
    assert_eq!(s.begin_batch(), None);
    assert_eq!(s.on_result(&[0u32; 32]), None);
    assert_eq!(s.phase(), Phase::Ready);
    // A slot handed in while no batch is out is ignored.
    let mut slot = [0u32; 32];
    slot[0] = 1;
    assert_eq!(s.on_result(&slot), None);
    assert_eq!(s.batches(), 1);
}

#[test]
fn failure_ends_the_search() {
    let mut s = Search::new(&config(1, 1, 1, 0), [0u8; 32]).ok().unwrap();
    assert!(s.begin_batch().is_some());
    s.on_failure();
    assert_eq!(s.phase(), Phase::Failed);
    assert_eq!(s.begin_batch(), None);
    assert_eq!(s.on_result(&[1u32; 32]), None);
    assert_eq!(s.candidate(), [0u8; 32]);
}

#[test]
fn input_words_widen_each_byte() {
    let words = input_words(&[1, 2, 255]);
    let mut expected = [0u32; 32];
    expected[0] = 1;
    expected[1] = 2;
    expected[2] = 255;
    assert_eq!(words, expected);
    assert_eq!(input_words(&[]), [0u32; 32]);
}

#[test]
fn result_words_narrow_to_low_bytes() {
    let mut words = [0u32; 32];
    words[0] = 0x1FF;
    words[31] = 0x42;
    let bytes = convert_fat_buf(&words);
    assert_eq!(bytes[0], 0xFF);
    assert_eq!(bytes[31], 0x42);
    assert_eq!(bytes[1], 0);
}

#[test]
fn hit_detection_looks_at_every_word() {
    assert!(!result_is_hit(&[0u32; 32]));
    let mut words = [0u32; 32];
    words[31] = 0x100;
    assert!(result_is_hit(&words));
}

#[test]
fn empty_start_is_zero() {
    assert_eq!(start_candidate(""), Ok([0u8; 32]));
}

#[test]
fn start_bytes_fill_from_byte_zero() {
    let mut expected = [0u8; 32];
    expected[0] = 0x01;
    expected[1] = 0xAB;
    expected[2] = 0xFF;
    assert_eq!(start_candidate("01abFF"), Ok(expected));
}

#[test]
fn start_of_full_width_is_accepted() {
    let text = "11".repeat(32);
    assert_eq!(start_candidate(&text), Ok([0x11u8; 32]));
}

#[test]
fn odd_length_start_is_refused() {
    assert_eq!(start_candidate("abc"), Err(ConfigError::InvalidStartHex));
}

#[test]
fn non_hex_start_is_refused() {
    assert_eq!(start_candidate("zz"), Err(ConfigError::InvalidStartHex));
}

#[test]
fn start_longer_than_full_width_is_refused() {
    let text = "00".repeat(33);
    assert_eq!(start_candidate(&text), Err(ConfigError::StartTooLong));
}
