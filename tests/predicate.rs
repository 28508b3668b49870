use sha256_miner::predicate::{difficulty_checks, ByteCheck};
use sha256_miner::wgsl::{condition_wgsl, generate_check_difficulty_wgsl, wgsl_source};

fn holds(checks: &[ByteCheck], h: &[u8; 32]) -> bool {
    checks.iter().all(|c| (h[c.index] >> c.shift) == 0)
}

#[test]
fn difficulty_zero_has_no_checks() {
    let checks = difficulty_checks(0);
    assert!(checks.is_empty());
    assert!(holds(&checks, &[0xFFu8; 32]));
    assert!(holds(&checks, &[0u8; 32]));
}

#[test]
fn difficulty_eight_tests_first_byte() {
    let checks = difficulty_checks(8);
    assert_eq!(checks, vec![ByteCheck { index: 0, shift: 0 }]);
    let mut h = [0xFFu8; 32];
    assert!(!holds(&checks, &h));
    h[0] = 0;
    assert!(holds(&checks, &h));
    h[0] = 1;
    assert!(!holds(&checks, &h));
}

#[test]
fn difficulty_twelve_tests_half_of_second_byte() {
    let checks = difficulty_checks(12);
    assert_eq!(
        checks,
        vec![ByteCheck { index: 0, shift: 0 }, ByteCheck { index: 1, shift: 4 }]
    );
    let mut h = [0xFFu8; 32];
    h[0] = 0;
    h[1] = 0x0F;
    assert!(holds(&checks, &h));
    h[1] = 0x10;
    assert!(!holds(&checks, &h));
    h[1] = 0;
    h[0] = 0x80;
    assert!(!holds(&checks, &h));
}

#[test]
fn difficulty_full_width_needs_zero_hash() {
    let checks = difficulty_checks(256);
    assert_eq!(checks.len(), 32);
    assert!(holds(&checks, &[0u8; 32]));
    let mut h = [0u8; 32];
    h[31] = 1;
    assert!(!holds(&checks, &h));
}

#[test]
fn condition_text_for_twelve_bits() {
    let checks = difficulty_checks(12);
    assert_eq!(condition_wgsl(&checks), "buf[0] == 0u && (buf[1] >> 4u) == 0u");
}

#[test]
fn condition_text_for_no_checks() {
    assert_eq!(condition_wgsl(&Vec::new()), "true");
}

#[test]
fn check_function_for_zero_difficulty() {
    assert_eq!(
        generate_check_difficulty_wgsl(0),
        "\nfn check_difficulty(buf: ptr<function, array<u32, SHA256_BLOCK_SIZE>>) -> bool {\n    return true;\n}\n"
    );
}

#[test]
fn check_function_for_twenty_bits() {
    assert_eq!(
        generate_check_difficulty_wgsl(20),
        "\nfn check_difficulty(buf: ptr<function, array<u32, SHA256_BLOCK_SIZE>>) -> bool {\n    return buf[0] == 0u && buf[1] == 0u && (buf[2] >> 4u) == 0u;\n}\n"
    );
}

#[test]
fn check_function_for_full_width_names_last_byte() {
    let text = generate_check_difficulty_wgsl(256);
    assert!(text.contains("buf[31] == 0u;"));
    assert!(!text.contains(" >> "));
}

#[test]
fn kernel_source_replaces_first_line() {
    let template = "// check_difficulty goes here\nfn main() {\r\n}\n";
    assert_eq!(
        wgsl_source(template, 8),
        "\nfn check_difficulty(buf: ptr<function, array<u32, SHA256_BLOCK_SIZE>>) -> bool {\n    return buf[0] == 0u;\n}\nfn main() {\n}"
    );
}

#[test]
fn kernel_source_of_one_line_template() {
    assert_eq!(
        wgsl_source("placeholder", 0),
        "\nfn check_difficulty(buf: ptr<function, array<u32, SHA256_BLOCK_SIZE>>) -> bool {\n    return true;\n}"
    );
}

#[test]
fn kernel_source_keeps_bare_trailing_cr() {
    let expected = format!("{}\nfoo\r", generate_check_difficulty_wgsl(0).trim_end_matches('\n'));
    assert_eq!(wgsl_source("x\nfoo\r", 0), expected);
}

#[test]
fn kernel_source_keeps_empty_lines() {
    let expected = format!("{}\n\nbar", generate_check_difficulty_wgsl(4).trim_end_matches('\n'));
    assert_eq!(wgsl_source("x\n\nbar\n", 4), expected);
}

#[test]
fn kernel_source_of_empty_template() {
    let expected = generate_check_difficulty_wgsl(1).trim_end_matches('\n').to_string();
    assert_eq!(wgsl_source("", 1), expected);
    assert!(expected.contains("(buf[0] >> 7u) == 0u"));
}
