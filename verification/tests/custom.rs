use read_human::{
    custom_outcome, read_custom, read_custom_nonempty, read_custom_noquestion, Outcome,
};
use std::cell::Cell;
use std::cell::RefCell;

fn parse_u16(raw: &str) -> Result<u16, std::num::ParseIntError> {
    raw.parse::<u16>()
}

fn parse_u32(raw: &str) -> Result<u32, std::num::ParseIntError> {
    raw.parse::<u32>()
}

#[test]
fn read_custom_nonempty_parse_failure_then_value() {
    assert_eq!(
        read_custom_nonempty("abc", parse_u16),
        Outcome::Retry("abc is not valid".to_string())
    );
    assert_eq!(read_custom_nonempty("42", parse_u16), Outcome::Done(42));

    let mut messages = Vec::new();
    let mut read = 0;
    let mut answer = None;
    for line in ["abc\n", "42\n", "43\n"] {
        read += 1;
        match read_custom_nonempty(line, parse_u16) {
            Outcome::Done(value) => {
                answer = Some(value);
                break;
            }
            Outcome::Retry(message) => messages.push(message),
        }
    }
    assert_eq!(answer, Some(42));
    assert_eq!(read, 2);
    assert_eq!(messages, vec!["abc is not valid"]);
}

#[test]
fn read_custom_empty_line_is_none_at_once() {
    assert_eq!(read_custom("", parse_u32), Outcome::Done(None));
    assert_eq!(read_custom("\n", parse_u32), Outcome::Done(None));
    assert_eq!(read_custom("   \r\n", parse_u32), Outcome::Done(None));
}

#[test]
fn read_custom_does_not_ask_the_parser_about_an_empty_line() {
    let asked = Cell::new(0);
    let parse = |raw: &str| {
        asked.set(asked.get() + 1);
        raw.parse::<u32>()
    };
    assert_eq!(read_custom("\n", &parse), Outcome::Done(None));
    assert_eq!(read_custom_noquestion("  \n", &parse), Outcome::Done(None));
    assert_eq!(
        read_custom_nonempty("\n", &parse),
        Outcome::Retry("Input must not be empty.".to_string())
    );
    assert_eq!(asked.get(), 0);
    assert_eq!(read_custom("7\n", &parse), Outcome::Done(Some(7)));
    assert_eq!(asked.get(), 1);
}

#[test]
fn read_custom_accepts_what_parses() {
    assert_eq!(read_custom("17\n", parse_u32), Outcome::Done(Some(17)));
    assert_eq!(read_custom("  17  \n", parse_u32), Outcome::Done(Some(17)));
    assert_eq!(read_custom("4294967295", parse_u32), Outcome::Done(Some(u32::MAX)));
    assert_eq!(read_custom("true\n", |raw: &str| raw.parse::<bool>()), Outcome::Done(Some(true)));
    assert_eq!(read_custom("x\n", |raw: &str| raw.parse::<char>()), Outcome::Done(Some('x')));
}

#[test]
fn read_custom_asks_again_for_what_does_not_parse() {
    assert_eq!(read_custom("x\n", parse_u32), Outcome::Retry("x is not valid".to_string()));
    assert_eq!(read_custom(" -1 \n", parse_u32), Outcome::Retry("-1 is not valid".to_string()));
    assert_eq!(
        read_custom("4294967296\n", parse_u32),
        Outcome::Retry("4294967296 is not valid".to_string())
    );
    assert_eq!(
        read_custom("1 2\n", parse_u32),
        Outcome::Retry("1 2 is not valid".to_string())
    );
}

#[test]
fn read_custom_retries_parse_failures_only() {
    let mut messages = Vec::new();
    let mut read = 0;
    let mut answer = None;
    for line in ["abc\n", "1.5\n", "\n", "9\n"] {
        read += 1;
        match read_custom(line, parse_u32) {
            Outcome::Done(value) => {
                answer = Some(value);
                break;
            }
            Outcome::Retry(message) => messages.push(message),
        }
    }
    assert_eq!(answer, Some(None));
    assert_eq!(read, 3);
    assert_eq!(messages, vec!["abc is not valid", "1.5 is not valid"]);
}

#[test]
fn read_custom_nonempty_asks_again_on_empty_line() {
    let again = Outcome::Retry("Input must not be empty.".to_string());
    assert_eq!(read_custom_nonempty("", parse_u16), again);
    assert_eq!(read_custom_nonempty("\n", parse_u16), again);
    assert_eq!(read_custom_nonempty("  \t \n", parse_u16), again);
}

#[test]
fn read_custom_nonempty_retries_empty_lines_and_parse_failures() {
    let mut messages = Vec::new();
    let mut read = 0;
    let mut answer = None;
    for line in ["\n", "seven\n", "  \n", "70000\n", " 7 \n", "8\n"] {
        read += 1;
        match read_custom_nonempty(line, parse_u16) {
            Outcome::Done(value) => {
                answer = Some(value);
                break;
            }
            Outcome::Retry(message) => messages.push(message),
        }
    }
    assert_eq!(answer, Some(7));
    assert_eq!(read, 5);
    assert_eq!(
        messages,
        vec![
            "Input must not be empty.",
            "seven is not valid",
            "Input must not be empty.",
            "70000 is not valid",
        ]
    );
}

#[test]
fn read_custom_noquestion_decides_as_read_custom() {
    for line in ["", "\n", "17\n", "  17  ", "x\n", "-1\n", " 1 2 \n"] {
        assert_eq!(read_custom_noquestion(line, parse_u32), read_custom(line, parse_u32));
    }
    assert_eq!(read_custom_noquestion("17\n", parse_u32), Outcome::Done(Some(17)));
    assert_eq!(read_custom_noquestion("\n", parse_u32), Outcome::Done(None));
    assert_eq!(
        read_custom_noquestion("x\n", parse_u32),
        Outcome::Retry("x is not valid".to_string())
    );
}

#[test]
fn the_parser_gets_the_trimmed_text() {
    let seen = RefCell::new(Vec::new());
    let parse = |raw: &str| {
        seen.borrow_mut().push(raw.to_string());
        raw.parse::<u32>()
    };
    assert_eq!(read_custom("  42  \n", &parse), Outcome::Done(Some(42)));
    assert_eq!(read_custom_nonempty("\t4 2\r\n", &parse), Outcome::Retry("4 2 is not valid".to_string()));
    assert_eq!(read_custom_noquestion("7", &parse), Outcome::Done(Some(7)));
    assert_eq!(*seen.borrow(), vec!["42", "4 2", "7"]);
}

#[test]
fn custom_outcome_follows_the_verdict() {
    let ok: Result<u8, ()> = Ok(5);
    let err: Result<u8, ()> = Err(());
    assert_eq!(custom_outcome("5", ok), Outcome::Done(5));
    assert_eq!(custom_outcome("five", err), Outcome::Retry("five is not valid".to_string()));
    let empty: Result<u8, &str> = Err("whatever the parser says");
    assert_eq!(custom_outcome("", empty), Outcome::Retry(" is not valid".to_string()));
}

#[test]
fn a_parser_of_the_callers_own() {
    let name = |raw: &str| -> Result<(String, String), ()> {
        match raw.split_once(' ') {
            Some((given, family)) if !family.trim().is_empty() => {
                Ok((given.to_string(), family.trim().to_string()))
            }
            _ => Err(()),
        }
    };
    assert_eq!(
        read_custom_nonempty("  Ada Lovelace \n", name),
        Outcome::Done(("Ada".to_string(), "Lovelace".to_string()))
    );
    assert_eq!(read_custom_nonempty("Ada\n", name), Outcome::Retry("Ada is not valid".to_string()));
}
