use oclsp::util::parse_range;
use oclsp::Position;
use oclsp::Range;

#[test]
fn parse_range_test() {
    assert_eq!(
        parse_range("';' expected, but found identifier (<memory>:16:36)"),
        Range {
            start: Position { line: 15, character: 35 },
            end: Position { line: 15, character: 36 }
        }
    );
}

#[test]
fn parse_range_no_fragment_yields_default() {
    let expected = Range {
        start: Position { line: 0, character: 0 },
        end: Position { line: 0, character: 0 },
    };
    assert_eq!(parse_range("unexpected end of input"), expected);
    assert_eq!(parse_range(""), expected);
    assert_eq!(parse_range("almost (a:b:c) but not digits"), expected);
    assert_eq!(parse_range("unclosed (f:1:2"), expected);
    assert_eq!(parse_range("missing column (f:12)"), expected);
}

#[test]
fn parse_range_first_fragment_wins() {
    assert_eq!(
        parse_range("two spans (f:2:3) and (g:4:5)"),
        Range {
            start: Position { line: 1, character: 2 },
            end: Position { line: 1, character: 3 }
        }
    );
}

#[test]
fn parse_range_path_may_hold_parentheses() {
    assert_eq!(
        parse_range("(a)b:1:2)"),
        Range {
            start: Position { line: 0, character: 1 },
            end: Position { line: 0, character: 2 }
        }
    );
}

#[test]
fn parse_range_empty_path_matches() {
    assert_eq!(
        parse_range("(:1:2)"),
        Range {
            start: Position { line: 0, character: 1 },
            end: Position { line: 0, character: 2 }
        }
    );
}

#[test]
fn parse_range_zero_or_huge_numbers_yield_default() {
    let expected = Range {
        start: Position { line: 0, character: 0 },
        end: Position { line: 0, character: 0 },
    };
    assert_eq!(parse_range("(x:0:5)"), expected);
    assert_eq!(parse_range("(x:5:0)"), expected);
    assert_eq!(parse_range("(x:99999999999999999999:1)"), expected);
}

#[test]
fn parse_range_bad_fragment_then_good_one() {
    // the leftmost structural match decides, even when its numbers are unusable
    let expected = Range {
        start: Position { line: 0, character: 0 },
        end: Position { line: 0, character: 0 },
    };
    assert_eq!(parse_range("(x:0:5) later (g:4:5)"), expected);
}
