use testing_errors::file::{check_file, read_file, FileError, IoCause};
use testing_errors::number::{get_number, parse_u32, trim_white_space, ParseIntError};
use testing_errors::{extract_integer, ExtractError};

fn read_ok(text: &str) -> Result<String, IoCause> {
    Ok(text.to_string())
}

#[test]
fn read_file_should_return_correct_str() {
    let actual_str = read_file("test_data/correct.txt", true, read_ok("5\n")).unwrap();
    let expected_str = "5\n".to_string();
    assert_eq!(actual_str, expected_str);
}

#[test]
fn read_file_should_return_err_if_not_file() {
    assert!(read_file("test_data/", false, Err(IoCause::Other)).is_err());
}

#[test]
fn read_file_fail_but_should_pass_if_points_to_txt_file() {
    assert!(read_file("test_data/perm_denied.txt", true, Err(IoCause::PermissionDenied)).is_err());
}

#[test]
fn read_file_should_return_error_if_perm_denied() {
    let actual_error_kind = read_file("test_data/perm_denied.txt", true, Err(IoCause::PermissionDenied))
        .unwrap_err()
        .io_cause();
    let expected_error_kind = Some(IoCause::PermissionDenied);
    assert_eq!(actual_error_kind, expected_error_kind);
}

#[test]
fn read_file_should_return_error_if_not_file() {
    let actual_error = read_file("test_data/", false, Err(IoCause::Other)).unwrap_err();
    assert!(matches!(actual_error, FileError::NotAFile(_)));
}

#[test]
fn read_file_should_return_not_a_file_str_error_if_not_file_alt() {
    let file_path = "test_data/";
    let actual_inner_error_disp = read_file(file_path, false, Err(IoCause::Other))
        .unwrap_err()
        .message();
    let expected_inner_error_disp = format!("Not a file: {}", file_path);
    assert_eq!(actual_inner_error_disp, expected_inner_error_disp);
}

#[test]
fn get_number_should_return_integer_when_correct_string() {
    let expected_val: u32 = 5;
    let actual_val = get_number(&expected_val.to_string()).unwrap();
    assert_eq!(expected_val, actual_val);
}

#[test]
fn get_number_should_parse_correctly_when_string_with_spaces() {
    let expected_val: u32 = 5;
    let actual_val = get_number(&format!(" {}   ", expected_val)).unwrap();
    assert_eq!(expected_val, actual_val);
}

#[test]
fn get_number_returns_error_when_string_cannot_be_parsed() {
    assert!(get_number("j").is_err());
}

#[test]
fn get_number_should_return_error_when_string_if_incorrect_number() {
    match get_number("j") {
        Err(e) if e.message() == "invalid digit found in string" => return (),
        Err(_) => panic!("Returned incorrect Err!"),
        Ok(_) => panic!("Returned an Ok variant!"),
    }
}

#[test]
fn extract_integer_should_return_err_if_incorrect_number() {
    assert!(extract_integer("test_data/incorrect_number.txt", true, read_ok("j\n")).is_err());
}

#[test]
fn extract_integer_should_return_parseinterror_if_incorrect_number() {
    assert!(matches!(
        extract_integer("test_data/incorrect_number.txt", true, read_ok("j\n")).unwrap_err(),
        ExtractError::Number(_)
    ));
}

#[test]
fn read_file_refuses_wrong_extension() {
    let e = read_file("test_data/incorrect.ttt", true, read_ok("5\n")).unwrap_err();
    assert_eq!(e, FileError::WrongExtension);
    assert_eq!(e.message(), "The file should have txt extension!");
}

#[test]
fn read_file_refuses_a_name_without_extension() {
    assert_eq!(
        read_file("test_data/correct", true, read_ok("5\n")),
        Err(FileError::WrongExtension)
    );
    assert_eq!(read_file("test_data/.txt", true, read_ok("5\n")), Err(FileError::WrongExtension));
    assert_eq!(read_file("txt", true, read_ok("5\n")), Err(FileError::WrongExtension));
    assert_eq!(read_file("a.TXT", true, read_ok("5\n")), Err(FileError::WrongExtension));
    assert_eq!(read_file("a.txt.bak", true, read_ok("5\n")), Err(FileError::WrongExtension));
}

#[test]
fn read_file_accepts_txt_names() {
    assert_eq!(read_file("a.txt", true, read_ok("x")), Ok("x".to_string()));
    assert_eq!(read_file("dir/..txt", true, read_ok("x")), Ok("x".to_string()));
    assert_eq!(read_file("d.ir/n.tar.txt", true, read_ok("")), Ok(String::new()));
}

#[test]
fn not_a_file_comes_before_the_extension() {
    let e = read_file("test_data/incorrect.ttt", false, read_ok("5\n")).unwrap_err();
    assert_eq!(e, FileError::NotAFile("test_data/incorrect.ttt".to_string()));
    assert!(e.message().contains("test_data/incorrect.ttt"));
}

#[test]
fn check_file_decides_before_reading() {
    assert_eq!(check_file("a.txt", true), Ok(()));
    assert_eq!(check_file("a.txt", false), Err(FileError::NotAFile("a.txt".to_string())));
    assert_eq!(check_file("a.md", true), Err(FileError::WrongExtension));
}

#[test]
fn other_io_failure_is_not_permission_denied() {
    let e = read_file("a.txt", true, Err(IoCause::Other)).unwrap_err();
    assert_eq!(e.io_cause(), Some(IoCause::Other));
    assert_ne!(e.io_cause(), Some(IoCause::PermissionDenied));
    assert_eq!(FileError::WrongExtension.io_cause(), None);
    assert_eq!(e.message(), "input/output failure");
    assert_eq!(FileError::Io(IoCause::PermissionDenied).message(), "permission denied");
}

#[test]
fn extract_integer_reads_a_number() {
    assert_eq!(extract_integer("test_data/correct.txt", true, read_ok("5\n")), Ok(5));
    assert_eq!(extract_integer("n.txt", true, read_ok("\t 4294967295 \r\n")), Ok(4294967295));
}

#[test]
fn extract_integer_missing_path_is_not_a_file() {
    let e = extract_integer("test_data/missing.txt", false, read_ok("5\n")).unwrap_err();
    assert_eq!(
        e,
        ExtractError::File(FileError::NotAFile("test_data/missing.txt".to_string()))
    );
    assert_eq!(e.message(), "Not a file: test_data/missing.txt");
}

#[test]
fn extract_integer_passes_read_failures_on() {
    assert_eq!(
        extract_integer("p.txt", true, Err(IoCause::PermissionDenied)),
        Err(ExtractError::File(FileError::Io(IoCause::PermissionDenied)))
    );
    assert_eq!(
        extract_integer("p.ttt", true, read_ok("5")),
        Err(ExtractError::File(FileError::WrongExtension))
    );
}

#[test]
fn extract_integer_twice_gives_the_same() {
    let first = extract_integer("c.txt", true, read_ok("17\n"));
    let second = extract_integer("c.txt", true, read_ok("17\n"));
    assert_eq!(first, second);
    let first = extract_integer("c.txt", true, read_ok("x"));
    let second = extract_integer("c.txt", true, read_ok("x"));
    assert_eq!(first, second);
}

#[test]
fn get_number_edge_cases() {
    assert_eq!(get_number(""), Err(ParseIntError::Empty));
    assert_eq!(get_number(" \n\t "), Err(ParseIntError::Empty));
    assert_eq!(get_number("0"), Ok(0));
    assert_eq!(get_number("007"), Ok(7));
    assert_eq!(get_number("+5"), Ok(5));
    assert_eq!(get_number("+"), Err(ParseIntError::InvalidDigit));
    assert_eq!(get_number("-5"), Err(ParseIntError::InvalidDigit));
    assert_eq!(get_number("5 5"), Err(ParseIntError::InvalidDigit));
    assert_eq!(get_number("4294967295"), Ok(4294967295));
    assert_eq!(get_number("4294967296"), Err(ParseIntError::PosOverflow));
    assert_eq!(get_number("99999999999x"), Err(ParseIntError::PosOverflow));
    assert_eq!(get_number("12x99999999999"), Err(ParseIntError::InvalidDigit));
    assert_eq!(get_number("\u{3000}42\u{a0}"), Ok(42));
    assert_eq!(get_number("\u{663}"), Err(ParseIntError::InvalidDigit));
}

#[test]
fn parse_error_messages() {
    assert_eq!(ParseIntError::Empty.message(), "cannot parse integer from empty string");
    assert_eq!(ParseIntError::PosOverflow.message(), "number too large to fit in target type");
    let e = ExtractError::Number(ParseIntError::InvalidDigit);
    assert_eq!(e.message(), "invalid digit found in string");
}

#[test]
fn parse_u32_does_not_trim() {
    assert_eq!(parse_u32(" 5"), Err(ParseIntError::InvalidDigit));
    assert_eq!(parse_u32("123"), Ok(123));
}

#[test]
fn trim_white_space_both_ends() {
    assert_eq!(trim_white_space("  a b \n"), "a b");
    assert_eq!(trim_white_space("\u{2028}x\u{205f}"), "x");
    assert_eq!(trim_white_space("   "), "");
    assert_eq!(trim_white_space("x"), "x");
}
