use knapsack_ga::loader::{
    chars_of, get_first_line_variables, parse_usize, split_commas, variables_of_fields,
    LoadError,
};

fn text(s: &str) -> Vec<char> {
    s.chars().collect()
}

#[test]
fn head_line_gives_three_numbers() {
    assert_eq!(get_first_line_variables("3,5,5"), Ok((3, 5, 5)));
    assert_eq!(get_first_line_variables("100,2000,3000\n"), Ok((100, 2000, 3000)));
}

#[test]
fn head_line_is_trimmed_at_both_ends() {
    assert_eq!(get_first_line_variables("  7,8,9 \r\n"), Ok((7, 8, 9)));
    assert_eq!(get_first_line_variables("\t1,2,3"), Ok((1, 2, 3)));
}

#[test]
fn head_line_ignores_fields_after_the_third() {
    assert_eq!(get_first_line_variables("10,20,30,40"), Ok((10, 20, 30)));
}

#[test]
fn head_line_accepts_a_plus_sign_and_leading_zeros() {
    assert_eq!(get_first_line_variables("+3,005,0"), Ok((3, 5, 0)));
}

#[test]
fn head_line_with_too_few_fields_is_refused() {
    assert_eq!(get_first_line_variables("1,2"), Err(LoadError::TooFewFields));
    assert_eq!(get_first_line_variables("42"), Err(LoadError::TooFewFields));
}

#[test]
fn head_line_with_a_field_that_is_no_number_is_refused() {
    assert_eq!(get_first_line_variables("a,b,c"), Err(LoadError::Unparsable));
    assert_eq!(get_first_line_variables("1,2,3,x"), Err(LoadError::Unparsable));
    assert_eq!(get_first_line_variables("1, 2,3"), Err(LoadError::Unparsable));
    assert_eq!(get_first_line_variables("1,,3"), Err(LoadError::Unparsable));
    assert_eq!(get_first_line_variables("1,-2,3"), Err(LoadError::Unparsable));
    assert_eq!(get_first_line_variables("1.5,2,3"), Err(LoadError::Unparsable));
    assert_eq!(get_first_line_variables("+,2,3"), Err(LoadError::Unparsable));
    assert_eq!(get_first_line_variables(""), Err(LoadError::Unparsable));
    assert_eq!(get_first_line_variables("x"), Err(LoadError::Unparsable));
}

#[test]
fn head_line_with_a_number_too_large_is_refused() {
    assert_eq!(
        get_first_line_variables("1,2,99999999999999999999999999999999999999999"),
        Err(LoadError::Unparsable)
    );
    let max = format!("{},0,0", usize::MAX);
    assert_eq!(get_first_line_variables(&max), Ok((usize::MAX, 0, 0)));
}

#[test]
fn variables_of_fields_reads_the_leading_three() {
    let fields = vec![text("4"), text("5"), text("6"), text("7")];
    assert_eq!(variables_of_fields(&fields), Ok((4, 5, 6)));
    let short = vec![text("4")];
    assert_eq!(variables_of_fields(&short), Err(LoadError::TooFewFields));
    let none: Vec<Vec<char>> = Vec::new();
    assert_eq!(variables_of_fields(&none), Err(LoadError::TooFewFields));
    let bad = vec![text("4"), text(" 5"), text("6")];
    assert_eq!(variables_of_fields(&bad), Err(LoadError::Unparsable));
}

#[test]
fn chars_of_keeps_every_character() {
    assert_eq!(chars_of("1,2"), vec!['1', ',', '2']);
    assert_eq!(chars_of(""), Vec::<char>::new());
    assert_eq!(chars_of("a\u{e9}\u{4e2d}b"), vec!['a', '\u{e9}', '\u{4e2d}', 'b']);
}

#[test]
fn split_commas_keeps_empty_pieces() {
    assert_eq!(split_commas(&text("1,22,333")), vec![text("1"), text("22"), text("333")]);
    assert_eq!(split_commas(&text("")), vec![text("")]);
    assert_eq!(split_commas(&text(",")), vec![text(""), text("")]);
    assert_eq!(split_commas(&text("a,,b,")), vec![text("a"), text(""), text("b"), text("")]);
    assert_eq!(split_commas(&text("no comma")), vec![text("no comma")]);
}

#[test]
fn split_commas_agrees_with_str_split() {
    for line in ["3,5,5", "", ",,", "x,y", " 1 , 2 ", "12"] {
        let expected: Vec<Vec<char>> = line.split(',').map(text).collect();
        assert_eq!(split_commas(&text(line)), expected);
    }
}

#[test]
fn parse_usize_reads_decimal_digits() {
    assert_eq!(parse_usize(&text("0")), Some(0));
    assert_eq!(parse_usize(&text("7")), Some(7));
    assert_eq!(parse_usize(&text("1234567890")), Some(1_234_567_890));
    assert_eq!(parse_usize(&text("+42")), Some(42));
    assert_eq!(parse_usize(&text("0007")), Some(7));
    assert_eq!(parse_usize(&text(&usize::MAX.to_string())), Some(usize::MAX));
}

#[test]
fn parse_usize_refuses_what_is_no_number() {
    for bad in ["", "+", "-1", "++1", "1+", " 1", "1 ", "1_000", "0x10", "1.0", "\u{664}", "184467440737095516160"] {
        assert_eq!(parse_usize(&text(bad)), None);
    }
    let over = format!("{}0", usize::MAX);
    assert_eq!(parse_usize(&text(&over)), None);
    let next = format!("{}", usize::MAX as u128 + 1);
    assert_eq!(parse_usize(&text(&next)), None);
}

#[test]
fn parse_usize_agrees_with_str_parse() {
    for s in ["0", "+0", "12", "+", "", "-0", "99999999999999999999", "18446744073709551615", "4294967295", "5a", "a5"] {
        assert_eq!(parse_usize(&text(s)), s.parse::<usize>().ok());
    }
}

#[test]
fn load_errors_have_messages() {
    assert_eq!(
        LoadError::TooFewFields.message(),
        "the first line of the file is not formatted properly"
    );
    assert_eq!(LoadError::Unparsable.message(), "cannot parse argument");
}
