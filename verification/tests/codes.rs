use backbone::codes::{
    accepted_lines, amino_acid_codes, check_fields, check_if_correct, check_line, count_fields,
    is_code, is_whitespace, secondary_structure_codes, AA_FIELD, SS_FIELD,
};

#[test]
fn alphabets_are_the_standard_ones() {
    let aa: String = amino_acid_codes().into_iter().collect();
    let ss: String = secondary_structure_codes().into_iter().collect();
    assert_eq!(aa, "ARNDCQEGHILKMFPSTWYV");
    assert_eq!(ss, "HEC");
    assert_eq!(AA_FIELD, 4);
    assert_eq!(SS_FIELD, 5);
}

#[test]
fn is_code_looks_the_character_up() {
    let aa = amino_acid_codes();
    assert!(is_code(&aa, 'A'));
    assert!(is_code(&aa, 'V'));
    assert!(!is_code(&aa, 'B'));
    assert!(!is_code(&aa, 'a'));
    assert!(!is_code(&Vec::new(), 'A'));
}

#[test]
fn whitespace_is_what_the_standard_library_calls_whitespace() {
    let mut count = 0;
    for code in 0u32..=0x10ffff {
        if let Some(c) = char::from_u32(code) {
            assert_eq!(is_whitespace(c), c.is_whitespace());
            if is_whitespace(c) {
                count += 1;
            }
        }
    }
    assert_eq!(count, 25);
    assert!(is_whitespace(' '));
    assert!(is_whitespace('\t'));
    assert!(is_whitespace('\u{3000}'));
    assert!(!is_whitespace('\u{200b}'));
    assert!(!is_whitespace('a'));
}

#[test]
fn a_line_without_the_code_fields_is_not_correct() {
    assert!(!check_if_correct(""));
    assert!(!check_if_correct("   \t "));
    assert!(!check_if_correct("short line"));
    assert!(!check_if_correct("1abc A 10 20 MKV"));
    assert!(check_if_correct("1abc A 10 20 MKV H"));
}

#[test]
fn fields_are_counted_as_split_whitespace_counts_them() {
    let lines = [
        "",
        " ",
        "a",
        " a ",
        "a b",
        "a  b\tc\n",
        "\t\ta\u{2003}b\u{a0}c d\u{3000}e",
        "1abc A 10 20 MKV HEC 0.5",
        "x\u{200b}y z",
    ];
    for line in lines {
        assert_eq!(count_fields(line), line.split_whitespace().count());
    }
    assert_eq!(count_fields("a  b\tc\n"), 3);
    assert_eq!(count_fields("\t\ta\u{2003}b\u{a0}c d\u{3000}e"), 5);
}

#[test]
fn a_line_with_standard_codes_is_correct() {
    assert!(check_if_correct("1abc A 10 20 MKVLA HHEEC 0.5"));
    assert!(check_if_correct("  1abc\tA 10 20 ARNDCQEGHILKMFPSTWYV HEC"));
}

#[test]
fn a_foreign_amino_acid_code_makes_the_line_incorrect() {
    assert!(!check_if_correct("1abc A 10 20 MKXLA HHEEC 0.5"));
    assert!(!check_if_correct("1abc A 10 20 mkv HEC 0.5"));
    assert!(!check_if_correct("1abc A 10 20 MKB HEC"));
}

#[test]
fn a_foreign_structure_code_makes_the_line_incorrect() {
    assert!(!check_if_correct("1abc A 10 20 MKV HEX 0.5"));
    assert!(!check_if_correct("1abc A 10 20 MKV HEA"));
    assert!(!check_if_correct("id chain start end sequence structure"));
}

#[test]
fn only_the_two_code_fields_are_looked_at() {
    assert!(check_if_correct("#!? zz 1.5 -- A H @@ ~~"));
}

#[test]
fn check_fields_takes_other_alphabets() {
    let aa = vec!['x', 'y'];
    let ss = vec!['0', '1'];
    assert!(check_fields("a b c d xyxy 0110", &aa, &ss));
    assert!(!check_fields("a b c d xyz 0110", &aa, &ss));
    assert!(!check_fields("a b c d xyxy 0120", &aa, &ss));
    assert!(check_fields("a b c d", &aa, &ss));
    assert!(!check_fields("a b c d A", &aa, &ss));
}

#[test]
fn checked_gives_no_verdict_on_a_line_without_the_code_fields() {
    assert_eq!(check_line(""), None);
    assert_eq!(check_line("1abc A 10 20 MKV"), None);
    assert_eq!(check_line("1abc A 10 20 MKV HEC"), Some(true));
    assert_eq!(check_line("1abc A 10 20 MKV HEX"), Some(false));
    assert_eq!(check_line("1abc A 10 20 MKZ HEC tail"), Some(false));
}

#[test]
fn accepted_lines_keeps_the_correct_lines_in_order() {
    let lines: Vec<String> = [
        "id chain start end sequence structure",
        "1abc A 10 20 MKV HEC",
        "",
        "short line",
        "2xyz B 1 5 AAAAX CCCCC",
        "2xyz B\t1 5 AAAAA CCCCC 0.1 0.2",
        "1abc A 10 20 MKV HEC",
    ]
    .iter()
    .map(|s| s.to_string())
    .collect();
    let kept = accepted_lines(&lines);
    assert_eq!(
        kept,
        vec![
            "1abc A 10 20 MKV HEC".to_string(),
            "2xyz B\t1 5 AAAAA CCCCC 0.1 0.2".to_string(),
            "1abc A 10 20 MKV HEC".to_string(),
        ]
    );
    assert_eq!(accepted_lines(&Vec::new()), Vec::<String>::new());
}
