use soulmemory_rs::pattern::{parse_pattern_text, scan, ResolveMode, ScanError, ScanPattern, resolve_match_exec};
use soulmemory_rs::pointer::PointerWidth;

fn buffer_with(at: &[(usize, &[u8])], len: usize) -> Vec<u8> {
    let mut b = vec![0u8; len];
    for (offset, bytes) in at {
        b[*offset..*offset + bytes.len()].copy_from_slice(bytes);
    }
    b
}

#[test]
fn parses_text_with_wildcards_and_both_cases() {
    let p = parse_pattern_text("48 8B 05 ? ? ? ? 0f").unwrap();
    assert_eq!(p, vec![Some(0x48), Some(0x8b), Some(0x05), None, None, None, None, Some(0x0f)]);
}

#[test]
fn rejects_malformed_pattern_text() {
    assert_eq!(parse_pattern_text(""), None);
    assert_eq!(parse_pattern_text("48  8b"), None);
    assert_eq!(parse_pattern_text("48 8b "), None);
    assert_eq!(parse_pattern_text("4"), None);
    assert_eq!(parse_pattern_text("48 zz"), None);
    assert_eq!(parse_pattern_text("488b"), None);
    assert_eq!(parse_pattern_text("?4"), None);
}

#[test]
fn single_occurrence_gives_its_offset() {
    let pattern = parse_pattern_text("48 8b ? ? 90").unwrap();
    let h = buffer_with(&[(37, &[0x48, 0x8b, 0xaa, 0xbb, 0x90])], 128);
    assert_eq!(scan(&h, &pattern), Ok(37));
}

#[test]
fn zero_occurrences_is_not_found() {
    let pattern = parse_pattern_text("48 8b ? ? 90").unwrap();
    let h = buffer_with(&[(37, &[0x48, 0x8b, 0xaa, 0xbb, 0x91])], 128);
    assert_eq!(scan(&h, &pattern), Err(ScanError::PatternNotFound));
}

#[test]
fn two_occurrences_is_ambiguous() {
    let pattern = parse_pattern_text("48 8b ? ? 90").unwrap();
    let h = buffer_with(&[(3, &[0x48, 0x8b, 1, 2, 0x90]), (90, &[0x48, 0x8b, 3, 4, 0x90])], 128);
    assert_eq!(scan(&h, &pattern), Err(ScanError::PatternAmbiguous));
}

#[test]
fn match_at_the_very_end_is_found() {
    let pattern = parse_pattern_text("de ad").unwrap();
    let h = buffer_with(&[(126, &[0xde, 0xad])], 128);
    assert_eq!(scan(&h, &pattern), Ok(126));
}

#[test]
fn pattern_longer_than_buffer_is_not_found() {
    let pattern = parse_pattern_text("00 00 00").unwrap();
    assert_eq!(scan(&[0u8, 0], &pattern), Err(ScanError::PatternNotFound));
}

#[test]
fn relative_displacement_worked_example() {
    let h = buffer_with(&[(0x100, &[0x48, 0x8b, 0x05, 0x10, 0x00, 0x00, 0x00])], 0x200);
    let pattern = ScanPattern {
        label: String::from("global"),
        bytes: parse_pattern_text("48 8b 05 ? ? ? ?").unwrap(),
        mode: ResolveMode::RelativeDisplacement { displacement_offset: 3, instruction_length: 7 },
        offsets: vec![0],
    };
    let chain = pattern.resolve(&h, 0, PointerWidth::W64).unwrap();
    assert_eq!(chain.base, 0x117);
    assert_eq!(chain.offsets, vec![0]);
}

#[test]
fn relative_displacement_is_signed_and_module_relative() {
    let h = buffer_with(&[(0x40, &[0x48, 0x8d, 0x0d, 0xf0, 0xff, 0xff, 0xff])], 0x80);
    let pattern = ScanPattern {
        label: String::from("back"),
        bytes: parse_pattern_text("48 8d 0d ? ? ? ?").unwrap(),
        mode: ResolveMode::RelativeDisplacement { displacement_offset: 3, instruction_length: 7 },
        offsets: vec![],
    };
    let chain = pattern.resolve(&h, 0x1400_0000, PointerWidth::W64).unwrap();
    assert_eq!(chain.base, 0x1400_0000 + 0x40 + 7 - 0x10);
}

#[test]
fn absolute_mode_adds_scan_offset() {
    let h = buffer_with(&[(0x20, &[0x56, 0xff, 0xd2, 0xc7, 0x05])], 0x40);
    let pattern = ScanPattern {
        label: String::from("abs"),
        bytes: parse_pattern_text("56 ff d2 c7 05").unwrap(),
        mode: ResolveMode::Absolute { scan_offset: 5 },
        offsets: vec![0, 0x44],
    };
    let chain = pattern.resolve(&h, 0x40_0000, PointerWidth::W32).unwrap();
    assert_eq!(chain.base, 0x40_0025);
    assert_eq!(chain.offsets, vec![0, 0x44]);
    assert_eq!(chain.width, PointerWidth::W32);
}

#[test]
fn displacement_past_the_end_is_reported() {
    let h = buffer_with(&[(0x3c, &[0x48, 0x8b, 0x05, 0x01])], 0x40);
    assert_eq!(
        resolve_match_exec(&h, 0, 0x3c, ResolveMode::RelativeDisplacement { displacement_offset: 3, instruction_length: 7 }),
        Err(ScanError::DisplacementOutOfBounds)
    );
}

#[test]
fn negative_target_is_out_of_range() {
    let h = buffer_with(&[(0, &[0x48, 0x8b, 0x05, 0x00, 0x00, 0x00, 0x80])], 0x10);
    assert_eq!(
        resolve_match_exec(&h, 0, 0, ResolveMode::RelativeDisplacement { displacement_offset: 3, instruction_length: 7 }),
        Err(ScanError::AddressOutOfRange)
    );
}

#[test]
fn ambiguous_pattern_does_not_resolve() {
    let h = buffer_with(&[(0, &[0xaa, 0xbb]), (8, &[0xaa, 0xbb])], 0x10);
    let pattern = ScanPattern {
        label: String::from("twice"),
        bytes: parse_pattern_text("aa bb").unwrap(),
        mode: ResolveMode::Absolute { scan_offset: 0 },
        offsets: vec![],
    };
    assert!(matches!(pattern.resolve(&h, 0, PointerWidth::W64), Err(ScanError::PatternAmbiguous)));
}
