use laria::lexer::scanner::Scanner;

fn assert_scan_dollar(src: &str, exp_dollar_loc: (usize, usize)) {
    let mut scanner = Scanner::new(src);

    while let Some(c) = scanner.peek_char() {
        if c == '$' {
            assert_eq!(
                exp_dollar_loc,
                scanner.loc(),
                "unexpected location for '{src}'",
            );
        }
        scanner.next_char();
    }
}

#[test]
fn test_scans() {
    let tests = &[
        ("$", (1, 1)),
        ("1234$", (1, 5)),
        ("\n$", (2, 1)),
        ("\n1234$", (2, 5)),
        ("\n\n$", (3, 1)),
        ("\n\n1234$", (3, 5)),
    ];

    for (src, exp_dollar_loc) in tests {
        assert_scan_dollar(src, *exp_dollar_loc);
    }
}

#[test]
fn scanner_walks_every_character_once() {
    let mut scanner = Scanner::new("ab\ncd");
    let mut seen = String::new();
    let mut locs = vec![];
    while let Some(c) = scanner.peek_char() {
        seen.push(c);
        locs.push(scanner.loc());
        scanner.next_char();
    }
    assert_eq!(seen, "ab\ncd");
    assert_eq!(locs, vec![(1, 1), (1, 2), (2, 0), (2, 1), (2, 2)]);
    // At the end the place stays that of the last character.
    assert_eq!(scanner.loc(), (2, 2));
    assert_eq!(scanner.index(), 5);
}

#[test]
fn scanner_range_gives_the_characters_between() {
    let scanner = Scanner::new("héllo wörld");
    assert_eq!(scanner.range(0, 5), "héllo");
    assert_eq!(scanner.range(6, 11), "wörld");
    assert_eq!(scanner.range(3, 3), "");
}
