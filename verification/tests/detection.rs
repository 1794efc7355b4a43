use cuneiform::{
    aggregate, collect_readings, is_cache_line_probe, parse_reading, ProbeError, ProbeFile,
    CACHE_LINE_PROBE, FALLBACK_COHERENCE_LINE_SIZE, LINUX_CPU_PROC_PROBE,
};

fn contents(text: &str) -> ProbeFile {
    ProbeFile::Contents(text.to_string())
}

#[test]
fn probe_paths_are_those_of_the_kernel() {
    assert_eq!(LINUX_CPU_PROC_PROBE, "/sys/devices/system/cpu/");
    assert_eq!(CACHE_LINE_PROBE, "coherency_line_size");
}

#[test]
fn probe_file_names_are_matched_exactly() {
    assert!(is_cache_line_probe("coherency_line_size"));
    assert!(!is_cache_line_probe("coherency_line_sizes"));
    assert!(!is_cache_line_probe("coherency_line_siz"));
    assert!(!is_cache_line_probe("Coherency_line_size"));
    assert!(!is_cache_line_probe("coherency_line_sizE"));
    assert!(!is_cache_line_probe(" coherency_line_size"));
    assert!(!is_cache_line_probe("index0/coherency_line_size"));
    assert!(!is_cache_line_probe("size"));
    assert!(!is_cache_line_probe(""));
}

#[test]
fn plain_numbers_are_read() {
    assert_eq!(parse_reading("64"), Ok(64));
    assert_eq!(parse_reading("128"), Ok(128));
    assert_eq!(parse_reading("0"), Ok(0));
    assert_eq!(parse_reading("7"), Ok(7));
    assert_eq!(parse_reading("0064"), Ok(64));
    assert_eq!(parse_reading("1234567890"), Ok(1234567890));
}

#[test]
fn white_space_around_the_number_is_set_aside() {
    assert_eq!(parse_reading("64\n"), Ok(64));
    assert_eq!(parse_reading("  128  "), Ok(128));
    assert_eq!(parse_reading("\t\r\n32\n\n"), Ok(32));
    assert_eq!(parse_reading("\u{b}\u{c}16\u{85}\u{a0}"), Ok(16));
    assert_eq!(parse_reading("\u{1680}\u{2000}\u{200a}8\u{2028}\u{2029}\u{202f}\u{205f}\u{3000}"), Ok(8));
}

#[test]
fn a_plus_sign_may_lead() {
    assert_eq!(parse_reading("+64"), Ok(64));
    assert_eq!(parse_reading(" +64\n"), Ok(64));
    assert_eq!(parse_reading("+0"), Ok(0));
}

#[test]
fn anything_else_is_a_parse_failure() {
    let bad = [
        "", " ", "\n", "+", "-", "++64", "+-64", "-64", "- 64", "+ 64", "64+", "6 4", "64k", "k64",
        "0x40", "64.0", "6_4", "sixty-four", "٦٤", "６４", "64\u{200b}", "\u{200b}64", "\u{feff}64",
        "64\0", "1e3", "64,128",
    ];
    for text in bad {
        assert_eq!(parse_reading(text), Err(ProbeError::ParseFailure), "{:?}", text);
    }
}

#[test]
fn numbers_beyond_the_machine_word_are_a_parse_failure() {
    let most = usize::MAX.to_string();
    assert_eq!(parse_reading(&most), Ok(usize::MAX));
    assert_eq!(parse_reading(&format!(" +000{}\n", most)), Ok(usize::MAX));
    let beyond = (usize::MAX as u128 + 1).to_string();
    assert_eq!(parse_reading(&beyond), Err(ProbeError::ParseFailure));
    let tenfold = format!("{}0", most);
    assert_eq!(parse_reading(&tenfold), Err(ProbeError::ParseFailure));
    assert_eq!(
        parse_reading("99999999999999999999999999999999999999999999"),
        Err(ProbeError::ParseFailure)
    );
    assert_eq!(parse_reading("99999999999999999999999999999x"), Err(ProbeError::ParseFailure));
}

#[test]
fn readings_agree_with_trim_and_parse() {
    let samples = [
        "64", "64\n", " 64 ", "+64", "-64", "", "+", "0", "00", "abc", "12a", "a12", " 1 2 ",
        "\u{3000}5\u{a0}", "\u{200b}5", "18446744073709551615", "18446744073709551616",
        "4294967295", "4294967296", "+4294967296 ", "\t+0\t",
    ];
    for text in samples {
        let expected = text.trim().parse::<usize>().map_err(|_| ProbeError::ParseFailure);
        assert_eq!(parse_reading(text), expected, "{:?}", text);
    }
}

#[test]
fn a_probe_file_gives_its_reading_or_its_failure() {
    assert_eq!(contents("64\n").reading(), Ok(64));
    assert_eq!(contents("").reading(), Err(ProbeError::ParseFailure));
    assert_eq!(contents("line").reading(), Err(ProbeError::ParseFailure));
    assert_eq!(ProbeFile::Unreadable.reading(), Err(ProbeError::ReadFailure));
}

#[test]
fn readings_are_collected_in_order() {
    assert_eq!(collect_readings(&Vec::new()), Ok(Vec::new()));
    let files = vec![contents("64\n"), contents("128\n"), contents("64\n")];
    assert_eq!(collect_readings(&files), Ok(vec![64, 128, 64]));
    let files = vec![contents("3"), contents("1"), contents("2"), contents("1")];
    assert_eq!(collect_readings(&files), Ok(vec![3, 1, 2, 1]));
}

#[test]
fn the_first_failure_ends_the_collection() {
    let files = vec![contents("64"), ProbeFile::Unreadable, contents("x")];
    assert_eq!(collect_readings(&files), Err(ProbeError::ReadFailure));
    let files = vec![contents("64"), contents("x"), ProbeFile::Unreadable];
    assert_eq!(collect_readings(&files), Err(ProbeError::ParseFailure));
    let files = vec![ProbeFile::Unreadable];
    assert_eq!(collect_readings(&files), Err(ProbeError::ReadFailure));
    let files = vec![contents("1"), contents("2"), contents("")];
    assert_eq!(collect_readings(&files), Err(ProbeError::ParseFailure));
}

#[test]
fn the_least_reading_is_taken() {
    assert_eq!(aggregate(&vec![64, 128, 64]), 64);
    assert_eq!(aggregate(&vec![128, 64]), 64);
    assert_eq!(aggregate(&vec![64, 128]), 64);
    assert_eq!(aggregate(&vec![3, 1, 2]), 1);
    assert_eq!(aggregate(&vec![5]), 5);
    assert_eq!(aggregate(&vec![128]), 128);
    assert_eq!(aggregate(&vec![0, 64]), 0);
    assert_eq!(aggregate(&vec![usize::MAX, usize::MAX]), usize::MAX);
    assert_eq!(aggregate(&vec![9, 8, 7, 6, 5, 4, 3, 2]), 2);
}

#[test]
fn no_reading_gives_the_fallback() {
    assert_eq!(aggregate(&Vec::new()), 64);
    assert_eq!(aggregate(&Vec::new()), FALLBACK_COHERENCE_LINE_SIZE);
}

#[test]
fn every_character_is_taken_as_trim_and_parse_take_it() {
    let mut code: u32 = 0;
    while code <= 0x10FFFF {
        if let Some(c) = char::from_u32(code) {
            let text = format!("{}5{}", c, c);
            let expected = text.trim().parse::<usize>().map_err(|_| ProbeError::ParseFailure);
            assert_eq!(parse_reading(&text), expected, "U+{:04X}", code);
        }
        code += 1;
    }
}
