use influx_export::error::ExportError;
use influx_export::lister::{
    is_separator, is_whitespace, measurement_names, read_listing, split_lines, trim_bounds,
};

fn joined(lines: Vec<Vec<char>>) -> Vec<String> {
    lines.into_iter().map(|line| line.into_iter().collect()).collect()
}

#[test]
fn listing_without_header_lines_has_no_names() {
    assert_eq!(measurement_names(""), Vec::<String>::new());
    assert_eq!(measurement_names("name: measurements"), Vec::<String>::new());
    assert_eq!(measurement_names("name: measurements\nname\n"), Vec::<String>::new());
}

#[test]
fn listing_names_follow_the_two_header_lines() {
    let raw = "name: measurements\nname\n----\nBattery power\nLoad power\n\nPV power\n";
    assert_eq!(
        measurement_names(raw),
        vec!["Battery power".to_string(), "Load power".to_string(), "PV power".to_string()]
    );
}

#[test]
fn listing_names_are_trimmed_and_blank_lines_dropped() {
    let raw = "h1\nh2\n  spaced out \t\n   \n\t\nlast";
    assert_eq!(measurement_names(raw), vec!["spaced out".to_string(), "last".to_string()]);
}

#[test]
fn listing_keeps_repeats_and_order() {
    let raw = "h1\nh2\nb\na\nb\n";
    assert_eq!(
        measurement_names(raw),
        vec!["b".to_string(), "a".to_string(), "b".to_string()]
    );
}

#[test]
fn listing_drops_only_the_exact_separator() {
    let raw = "h1\nh2\n----\n -----\n ----\n---\n";
    assert_eq!(
        measurement_names(raw),
        vec!["-----".to_string(), "----".to_string(), "---".to_string()]
    );
}

#[test]
fn listing_with_carriage_returns() {
    let raw = "name: measurements\r\nname\r\n----\r\nLoad power\r\nPV power\r\n";
    assert_eq!(
        measurement_names(raw),
        vec!["Load power".to_string(), "PV power".to_string()]
    );
}

#[test]
fn listing_agrees_with_the_standard_pipeline() {
    let samples = [
        "",
        "\n",
        "a\nb\nc",
        "a\nb\nc\n",
        "h\nh\n----\n x \n\n----\ny\r\n\r\n z\u{a0}\n",
        "h\nh\n\u{3000}wide\u{2003}\n----\r\n----\r",
        "one\ntwo\n\n\n\nthree\n",
    ];
    for raw in samples {
        let expected: Vec<String> = raw
            .lines()
            .skip(2)
            .filter(|line| !line.trim().is_empty() && *line != "----")
            .map(|line| line.trim().to_string())
            .collect();
        assert_eq!(measurement_names(raw), expected, "listing {:?}", raw);
    }
}

#[test]
fn lines_agree_with_the_standard_ones() {
    let samples = [
        "",
        "\n",
        "\n\n",
        "a",
        "a\n",
        "a\r\n",
        "a\r",
        "a\r\r\n",
        "\r\n",
        "a\nb",
        "a\n\nb\r\n\r\nc\r",
        "x\ry\n",
    ];
    for raw in samples {
        let expected: Vec<String> = raw.lines().map(|line| line.to_string()).collect();
        assert_eq!(joined(split_lines(raw)), expected, "text {:?}", raw);
    }
}

#[test]
fn whitespace_agrees_with_the_standard_test_on_every_character() {
    for code in 0..=0x10FFFFu32 {
        if let Some(c) = char::from_u32(code) {
            assert_eq!(is_whitespace(c), c.is_whitespace(), "U+{:04X}", code);
        }
    }
}

#[test]
fn trim_bounds_cut_white_space_on_both_sides() {
    let chars: Vec<char> = "  ab c\t ".chars().collect();
    assert_eq!(trim_bounds(&chars, 0, chars.len()), (2, 6));
    assert_eq!(trim_bounds(&chars, 3, 5), (3, 4));
    let blank: Vec<char> = " \t ".chars().collect();
    let (from, to) = trim_bounds(&blank, 0, blank.len());
    assert_eq!(from, to);
    let none: Vec<char> = Vec::new();
    assert_eq!(trim_bounds(&none, 0, 0), (0, 0));
}

#[test]
fn separator_is_four_dashes() {
    let dashes = |n: usize| -> Vec<char> { vec!['-'; n] };
    assert!(is_separator(&dashes(4)));
    assert!(!is_separator(&dashes(3)));
    assert!(!is_separator(&dashes(5)));
    assert!(!is_separator(&"--a-".chars().collect()));
}

#[test]
fn failed_listing_is_an_execution_failure() {
    assert_eq!(
        read_listing(Err("unable to connect".to_string())),
        Err(ExportError::ExecutionFailure("unable to connect".to_string()))
    );
    assert_eq!(
        read_listing(Ok("name: measurements\nname\n----\nLoad power\n".to_string())),
        Ok(vec!["Load power".to_string()])
    );
    assert_eq!(read_listing(Ok(String::new())), Ok(Vec::new()));
}
