use mp5_usenet::command::{decimal_digit, parse_article_number, recognize, Command};
use regex::Regex;

fn describe(c: Option<Command>) -> String {
    match c {
        None => "none".to_string(),
        Some(Command::List) => "list".to_string(),
        Some(Command::Group { name }) => format!("group:{}", name),
        Some(Command::Article { number }) => format!("article:{}", number.iter().collect::<String>()),
        Some(Command::Help) => "help".to_string(),
        Some(Command::Quit) => "quit".to_string(),
    }
}

struct Patterns {
    list: Regex,
    group: Regex,
    article: Regex,
    help: Regex,
    quit: Regex,
}

fn patterns() -> Patterns {
    Patterns {
        list: Regex::new(r"(?i)list").unwrap(),
        group: Regex::new(r"(?i)group (?<name>[a-z.]+)").unwrap(),
        article: Regex::new(r"(?i)article (?<number>\d+)").unwrap(),
        help: Regex::new(r"(?i)help").unwrap(),
        quit: Regex::new(r"(?i)quit").unwrap(),
    }
}

fn by_regex(p: &Patterns, line: &str) -> String {
    let (list, group, article) = (&p.list, &p.group, &p.article);
    if list.is_match(line) {
        "list".to_string()
    } else if let Some(m) = group.captures(line) {
        format!("group:{}", m.name("name").unwrap().as_str())
    } else if let Some(m) = article.captures(line) {
        format!("article:{}", m.name("number").unwrap().as_str())
    } else if p.help.is_match(line) {
        "help".to_string()
    } else if p.quit.is_match(line) {
        "quit".to_string()
    } else {
        "none".to_string()
    }
}

#[test]
fn list_anywhere_in_line() {
    assert_eq!(describe(recognize("LIST\r\n")), "list");
    assert_eq!(describe(recognize("list newsgroups\r\n")), "list");
    assert_eq!(describe(recognize("xxLiStyy")), "list");
    assert_eq!(describe(recognize("group alist\r\n")), "list");
}

#[test]
fn group_takes_longest_name() {
    assert_eq!(describe(recognize("GROUP alt.tacos\r\n")), "group:alt.tacos");
    assert_eq!(describe(recognize("group Alt.Tacos2\r\n")), "group:Alt.Tacos");
    assert_eq!(describe(recognize("group  alt\r\n")), "none");
    assert_eq!(describe(recognize("group 9 group comp.lang\r\n")), "group:comp.lang");
}

#[test]
fn article_takes_digits() {
    assert_eq!(describe(recognize("ARTICLE 10\r\n")), "article:10");
    assert_eq!(describe(recognize("article x article 0042z\r\n")), "article:0042");
    assert_eq!(describe(recognize("article \r\n")), "none");
    assert_eq!(describe(recognize("article ١٢\r\n")), "article:١٢");
}

#[test]
fn no_command() {
    assert_eq!(describe(recognize("")), "none");
    assert_eq!(describe(recognize("NEWNEWS\r\n")), "none");
    assert_eq!(describe(recognize("hello\r\n")), "none");
}

#[test]
fn help_and_quit() {
    assert_eq!(describe(recognize("HELP\r\n")), "help");
    assert_eq!(describe(recognize("quit\r\n")), "quit");
    assert_eq!(describe(recognize("Quit\r\n")), "quit");
    assert_eq!(describe(recognize("group quitters\r\n")), "group:quitters");
}

#[test]
fn case_folding_beyond_ascii() {
    // LATIN SMALL LETTER LONG S folds to s, KELVIN SIGN to k.
    assert_eq!(describe(recognize("liſt")), "list");
    assert_eq!(describe(recognize("group \u{212A}ey\r\n")), "group:\u{212A}ey");
    assert_eq!(describe(recognize("lİst")), "none");
}

#[test]
fn agrees_with_regex_on_generated_lines() {
    let tokens = [
        "list", "LIST", "Li", "st", "liſt", "group ", "GROUP ", "Group", "article ", "ARTICLE ",
        "artic", "le ", "alt", ".", "tacos", "\u{212A}", "ſ", "x", " ", "  ", "0", "42", "9",
        "18446744073709551615", "18446744073709551616", "١٢", "²", "Ⅻ", "٣", "İ", "ı", "é", "-",
        "\r\n", "\t", "Z", "_", "help", "HeLp", "quit", "QUIT", "qu", "he",
    ];
    let p = patterns();
    let mut seed: u64 = 0x2545F4914F6CDD1D;
    for _ in 0..5000 {
        let mut line = String::new();
        seed = seed.wrapping_mul(6364136223846793005).wrapping_add(1442695040888963407);
        let n = (seed >> 60) as usize;
        for _ in 0..n {
            seed = seed.wrapping_mul(6364136223846793005).wrapping_add(1442695040888963407);
            line.push_str(tokens[(seed >> 33) as usize % tokens.len()]);
        }
        assert_eq!(describe(recognize(&line)), by_regex(&p, &line), "line {:?}", line);
    }
}

#[test]
fn decimal_digits_agree_with_regex() {
    let digit = Regex::new(r"^\d$").unwrap();
    for v in 0u32..0x20000 {
        if let Some(c) = char::from_u32(v) {
            assert_eq!(decimal_digit(c), digit.is_match(&c.to_string()), "char {:x}", v);
        }
    }
}

#[test]
fn article_numbers() {
    let digits = |s: &str| s.chars().collect::<Vec<char>>();
    assert_eq!(parse_article_number(&digits("10")), Some(10));
    assert_eq!(parse_article_number(&digits("0042")), Some(42));
    assert_eq!(parse_article_number(&digits("18446744073709551615")), Some(u64::MAX));
    assert_eq!(parse_article_number(&digits("18446744073709551616")), None);
    assert_eq!(parse_article_number(&digits("99999999999999999999")), None);
    assert_eq!(parse_article_number(&digits("١٢")), None);
    assert_eq!(parse_article_number(&digits("")), None);
    for s in ["7", "123", "18446744073709551615", "18446744073709551616", "1٢"] {
        assert_eq!(parse_article_number(&digits(s)), s.parse::<u64>().ok(), "{}", s);
    }
}
