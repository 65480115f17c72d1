use seeder::console::{parse_count, parse_digit, run, Args, Command, UsageError};

fn strings(items: &[&str]) -> Vec<String> {
    items.iter().map(|s| s.to_string()).collect()
}

#[test]
fn files_are_seeded_in_the_order_given() {
    let args = Args { file_paths: strings(&["a.json", "b.json"]), random: None, create: None };
    assert_eq!(run(args), Ok(Command::Seed(strings(&["a.json", "b.json"]))));
}

#[test]
fn files_win_over_the_other_options() {
    let args = Args {
        file_paths: strings(&["a.json"]),
        random: Some(strings(&["b.json"])),
        create: Some("c.json".to_string()),
    };
    assert_eq!(run(args), Ok(Command::Seed(strings(&["a.json"]))));
}

#[test]
fn a_synthetic_seed_takes_a_file_and_a_count() {
    let args =
        Args { file_paths: vec![], random: Some(strings(&["column.json", "25"])), create: None };
    assert_eq!(
        run(args),
        Ok(Command::Random { file_path: "column.json".to_string(), count: 25 })
    );
}

#[test]
fn a_synthetic_seed_wins_over_a_template() {
    let args = Args {
        file_paths: vec![],
        random: Some(strings(&["column.json", "0"])),
        create: Some("c.json".to_string()),
    };
    assert_eq!(run(args), Ok(Command::Random { file_path: "column.json".to_string(), count: 0 }));
}

#[test]
fn a_synthetic_seed_with_one_argument_is_refused() {
    let args = Args { file_paths: vec![], random: Some(strings(&["column.json"])), create: None };
    assert_eq!(run(args), Err(UsageError::RandomArity));
}

#[test]
fn a_synthetic_seed_with_three_arguments_is_refused() {
    let args =
        Args { file_paths: vec![], random: Some(strings(&["a", "1", "2"])), create: None };
    assert_eq!(run(args), Err(UsageError::RandomArity));
}

#[test]
fn a_synthetic_seed_without_arguments_is_refused_even_with_a_template() {
    let args = Args { file_paths: vec![], random: Some(vec![]), create: Some("c".to_string()) };
    assert_eq!(run(args), Err(UsageError::RandomArity));
}

#[test]
fn a_count_that_is_no_number_is_refused() {
    let args =
        Args { file_paths: vec![], random: Some(strings(&["column.json", "many"])), create: None };
    assert_eq!(run(args), Err(UsageError::InvalidCount));
}

#[test]
fn a_template_is_written_where_nothing_else_is_asked() {
    let args = Args { file_paths: vec![], random: None, create: Some("new.json".to_string()) };
    assert_eq!(run(args), Ok(Command::Create("new.json".to_string())));
}

#[test]
fn no_arguments_ask_for_nothing() {
    let args = Args { file_paths: vec![], random: None, create: None };
    assert_eq!(run(args), Ok(Command::Nothing));
}

#[test]
fn counts_are_read_like_the_standard_parser_reads_them() {
    let samples = [
        "0", "7", "42", "007", "+5", "+0", "", "+", "-1", "-0", "1 ", " 1", "1_000", "12a", "a12",
        "++1", "1+", "0x10", "1.0", "١٢", "18446744073709551615", "18446744073709551616",
        "99999999999999999999999999", "4294967295", "4294967296",
    ];
    for sample in samples {
        assert_eq!(parse_count(sample), sample.parse::<usize>().ok(), "{:?}", sample);
    }
}

#[test]
fn counts_have_their_values() {
    assert_eq!(parse_count("0"), Some(0));
    assert_eq!(parse_count("+120"), Some(120));
    assert_eq!(parse_count("0012"), Some(12));
    assert_eq!(parse_count(&usize::MAX.to_string()), Some(usize::MAX));
    assert_eq!(parse_count(&format!("{}0", usize::MAX)), None);
    assert_eq!(parse_count(""), None);
    assert_eq!(parse_count("+"), None);
    assert_eq!(parse_count("-3"), None);
}

#[test]
fn digits_are_the_ten_ascii_digits() {
    assert_eq!(parse_digit('0'), Some(0));
    assert_eq!(parse_digit('9'), Some(9));
    assert_eq!(parse_digit('a'), None);
    assert_eq!(parse_digit('٣'), None);
}

#[test]
fn usage_errors_have_their_words() {
    assert_eq!(
        UsageError::RandomArity.message(),
        "The --random option requires exactly 2 arguments: <file_path> and <number>"
    );
    assert_eq!(UsageError::InvalidCount.message(), "Invalid number format for random data entries");
}
