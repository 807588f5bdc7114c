use totui::date::Date;
use totui::todo::parsing::{
    build_item, tokenize, DateToken, ItemParseError, LineTokens, ListParseError, Part, Token,
};
use totui::todo::{
    add_unless_present, Content, ContentPart, Recurring, RecurringUnit, TodoItem, TodoList,
};

fn date(y: i32, m: u32, d: u32) -> Date {
    Date::new(y, m, d).unwrap()
}

fn parse(line: &str) -> TodoItem {
    TodoItem::parse(line).unwrap()
}

fn error(line: &str) -> ItemParseError {
    TodoItem::parse(line).unwrap_err()
}

#[test]
fn parses_a_plain_task() {
    let item = parse("2024-01-01 Call mom");
    assert!(!item.completed);
    assert_eq!(item.priority, None);
    assert_eq!(item.creation_date, Some(date(2024, 1, 1)));
    assert_eq!(item.completion_date, None);
    assert_eq!(item.content, "Call mom");
    assert_eq!(item.due, None);
    assert_eq!(item.t, None);
    assert_eq!(item.rec, None);
}

#[test]
fn parses_every_part_of_a_line() {
    let item = parse("(B) 2024-03-05 Pay rent @home +flat due:2024-04-01 t:2024-03-25 rec:+1m");
    assert!(!item.completed);
    assert_eq!(item.priority, Some('B'));
    assert_eq!(item.creation_date, Some(date(2024, 3, 5)));
    assert_eq!(item.content, "Pay rent @home +flat");
    assert_eq!(item.due, Some(date(2024, 4, 1)));
    assert_eq!(item.t, Some(date(2024, 3, 25)));
    assert_eq!(item.rec, Recurring::new(true, 1, RecurringUnit::Months));
}

#[test]
fn parses_a_completed_task() {
    let item = parse("x 2024-02-10 2024-01-31 Water plants pri:C");
    assert!(item.completed);
    assert_eq!(item.completion_date, Some(date(2024, 2, 10)));
    assert_eq!(item.creation_date, Some(date(2024, 1, 31)));
    assert_eq!(item.priority, Some('C'));
    assert_eq!(item.content, "Water plants");
}

#[test]
fn tags_are_taken_out_of_the_text() {
    let item = parse("2024-01-01 one due:2024-01-05   two rec:3w three");
    assert_eq!(item.content, "one   two three");
    assert_eq!(item.due, Some(date(2024, 1, 5)));
    assert_eq!(item.rec, Recurring::new(false, 3, RecurringUnit::Weeks));
}

#[test]
fn a_line_may_end_behind_the_creation_date() {
    let item = parse("2024-01-01");
    assert_eq!(item.content, "");
    let spaced = parse("2024-01-01   ");
    assert_eq!(spaced.content, "");
}

#[test]
fn words_that_only_look_like_tags_stay_in_the_text() {
    let item = parse("2024-01-01 due:soon rec:d rec:+w rec:1x rec:1 t:1 pri:a @ +");
    assert_eq!(item.content, "due:soon rec:d rec:+w rec:1x rec:1 t:1 pri:a @ +");
    assert_eq!(item.due, None);
    assert_eq!(item.rec, None);
    assert_eq!(item.t, None);
    assert_eq!(item.priority, None);
}

#[test]
fn rule_amounts_may_have_zeros_in_front() {
    let item = parse("2024-01-01 rec:007y");
    assert_eq!(item.rec, Recurring::new(false, 7, RecurringUnit::Years));
    let largest = parse("2024-01-01 rec:4294967295d");
    assert_eq!(largest.rec, Recurring::new(false, u32::MAX, RecurringUnit::Days));
    let zeros = parse("2024-01-01 rec:+000000000000000000000012w");
    assert_eq!(zeros.rec, Recurring::new(true, 12, RecurringUnit::Weeks));
}

#[test]
fn a_rule_amount_that_does_not_fit_is_rejected() {
    let e = error("2024-01-01 a rec:99999999999d");
    assert_eq!(e.error_message, "Failed to parse recurrence");
    assert_eq!(e.error_span, 14..30);
    let e = error("2024-01-01 rec:4294967296d");
    assert_eq!(e.error_message, "Failed to parse recurrence");
    assert_eq!(e.error_span, 12..27);
    let e = error("2024-01-01 rec:+99999999999999999999999999999999999999y b");
    assert_eq!(e.error_message, "Failed to parse recurrence");
    assert_eq!(e.error_span, 12..56);
}

#[test]
fn a_rule_amount_of_zero_is_rejected() {
    let e = error("2024-01-01 a rec:0d");
    assert_eq!(e.error_message, "Failed to parse recurrence");
    assert_eq!(e.error_span, 14..20);
    let e = error("(A) 2024-01-01 rec:+000m");
    assert_eq!(e.error_message, "Failed to parse recurrence");
    assert_eq!(e.error_span, 16..25);
}

#[test]
fn a_second_rule_is_rejected_before_its_amount_is_read() {
    let e = error("2024-01-01 rec:1d rec:0d");
    assert_eq!(e.error_message, "Illegal second 'rec' definition");
    assert_eq!(e.error_span, 19..25);
    let e = error("2024-01-01 rec:0d rec:1d");
    assert_eq!(e.error_message, "Failed to parse recurrence");
    assert_eq!(e.error_span, 12..18);
}

#[test]
fn second_due_is_rejected_at_its_columns() {
    let e = error("(A) 2024-01-01 due:2024-01-05 due:2024-01-06 task");
    assert_eq!(e.error_message, "Illegal second 'due' definition");
    assert_eq!(e.error_span, 31..45);
}

#[test]
fn second_t_is_rejected() {
    let e = error("2024-01-01 t:2024-01-05 a t:2024-01-06");
    assert_eq!(e.error_message, "Illegal second 't' definition");
    assert_eq!(e.error_span, 27..39);
}

#[test]
fn second_rec_is_rejected() {
    let e = error("2024-01-01 rec:1d rec:+2w");
    assert_eq!(e.error_message, "Illegal second 'rec' definition");
    assert_eq!(e.error_span, 19..26);
}

#[test]
fn second_pri_is_rejected() {
    let e = error("x 2024-01-02 2024-01-01 pri:A pri:B");
    assert_eq!(e.error_message, "Illegal second 'pri' definition");
    assert_eq!(e.error_span, 31..36);
}

#[test]
fn pri_tag_behind_a_priority_mark_is_rejected() {
    let e = error("(A) 2024-01-01 task pri:B");
    assert_eq!(e.error_message, "Illegal second 'pri' definition");
    assert_eq!(e.error_span, 21..26);
}

#[test]
fn a_date_that_names_no_day_is_rejected() {
    let e = error("2024-02-30 task");
    assert_eq!(e.error_message, "Failed to parse date");
    assert_eq!(e.error_span, 1..11);
    let e = error("2024-01-01 task due:2023-02-29");
    assert_eq!(e.error_message, "Failed to parse date");
    assert_eq!(e.error_span, 21..31);
    let e = error("x 2024-13-01 2024-01-01 task");
    assert_eq!(e.error_message, "Failed to parse date");
    assert_eq!(e.error_span, 3..13);
    let e = error("2024-01-01 t:2024-00-10");
    assert_eq!(e.error_span, 14..24);
}

#[test]
fn a_line_without_creation_date_is_rejected() {
    let e = error("Call mom");
    assert_eq!(e.error_message, "expected date");
    assert_eq!(e.error_span, 1..2);
    let e = error("");
    assert_eq!(e.error_message, "expected date");
    assert_eq!(e.error_span, 1..2);
    let e = error("(A) Call mom");
    assert_eq!(e.error_message, "expected date");
    assert_eq!(e.error_span, 5..6);
    let e = error("x 2024-01-01 Call mom");
    assert_eq!(e.error_message, "expected date");
    assert_eq!(e.error_span, 14..15);
    let e = error("2024-1-1 Call mom");
    assert_eq!(e.error_message, "expected date");
}

#[test]
fn a_broken_mark_is_rejected() {
    let e = error("x soon");
    assert_eq!(e.error_message, "expected date");
    assert_eq!(e.error_span, 3..4);
    let e = error("x 2024-01-01");
    assert_eq!(e.error_message, "expected space");
    assert_eq!(e.error_span, 13..14);
    let e = error("(a) 2024-01-01 task");
    assert_eq!(e.error_message, "expected priority letter");
    assert_eq!(e.error_span, 2..3);
    let e = error("(AB) 2024-01-01 task");
    assert_eq!(e.error_message, "expected ')'");
    assert_eq!(e.error_span, 3..4);
    let e = error("(A)2024-01-01 task");
    assert_eq!(e.error_message, "expected space");
    assert_eq!(e.error_span, 4..5);
    let e = error("2024-01-01task");
    assert_eq!(e.error_message, "expected space");
    assert_eq!(e.error_span, 11..12);
}

#[test]
fn the_form_of_the_line_is_checked_before_its_dates() {
    let e = error("x 2024-13-01 task");
    assert_eq!(e.error_message, "expected date");
    assert_eq!(e.error_span, 14..15);
}

#[test]
fn tokenize_gives_the_words_with_their_columns() {
    let tokens = tokenize("(A) 2024-01-01 Call  @mom due:2024-01-05").unwrap();
    assert_eq!(tokens.completion, None);
    assert_eq!(tokens.priority, Some('A'));
    assert_eq!(tokens.creation, Some(DateToken { text: "2024-01-01".to_string(), span: 5..15 }));
    assert_eq!(tokens.parts.len(), 3);
    assert_eq!(
        tokens.parts[0],
        Token {
            part: Part::Text(ContentPart {
                space: " ".to_string(),
                content: Content::Word("Call".to_string()),
            }),
            span: 16..20,
        }
    );
    assert_eq!(
        tokens.parts[1],
        Token {
            part: Part::Text(ContentPart {
                space: "  ".to_string(),
                content: Content::Context("mom".to_string()),
            }),
            span: 22..26,
        }
    );
    assert_eq!(
        tokens.parts[2],
        Token {
            part: Part::Due(DateToken { text: "2024-01-05".to_string(), span: 31..41 }),
            span: 27..41,
        }
    );
}

#[test]
fn completion_date_without_creation_date_is_rejected() {
    let tokens = LineTokens {
        completion: Some(DateToken { text: "2024-01-02".to_string(), span: 3..13 }),
        priority: None,
        creation: None,
        parts: vec![],
    };
    let e = build_item(&tokens).unwrap_err();
    assert_eq!(e.error_message, "Completion date without creation date");
    assert_eq!(e.error_span, 3..13);
}

#[test]
fn build_item_takes_tokens_of_any_make() {
    let tokens = LineTokens {
        completion: None,
        priority: Some('D'),
        creation: None,
        parts: vec![
            Token {
                part: Part::Text(ContentPart {
                    space: "   ".to_string(),
                    content: Content::Project("garden".to_string()),
                }),
                span: 1..8,
            },
            Token { part: Part::Rec("+2d".to_string()), span: 9..16 },
            Token {
                part: Part::Text(ContentPart {
                    space: "  ".to_string(),
                    content: Content::Word("dig".to_string()),
                }),
                span: 18..21,
            },
        ],
    };
    let item = build_item(&tokens).unwrap();
    assert_eq!(item.content, "+garden  dig");
    assert_eq!(item.priority, Some('D'));
    assert_eq!(item.creation_date, None);
    assert!(!item.completed);
    assert_eq!(item.rec, Recurring::new(true, 2, RecurringUnit::Days));
    let bad = LineTokens {
        completion: None,
        priority: None,
        creation: Some(DateToken { text: "yesterday".to_string(), span: 1..10 }),
        parts: vec![],
    };
    let e = build_item(&bad).unwrap_err();
    assert_eq!(e.error_message, "Failed to parse date");
    assert_eq!(e.error_span, 1..10);
    for text in ["", "d", "+d", "1", "0d", "1x", "4294967296y", "1d "] {
        let odd = LineTokens {
            completion: None,
            priority: None,
            creation: None,
            parts: vec![Token { part: Part::Rec(text.to_string()), span: 7..9 }],
        };
        let e = build_item(&odd).unwrap_err();
        assert_eq!(e.error_message, "Failed to parse recurrence");
        assert_eq!(e.error_span, 7..9);
    }
}

#[test]
fn writes_the_parts_in_their_order() {
    let item = parse("(B) 2024-03-05 rec:+1m Pay rent t:2024-03-25 due:2024-04-01");
    assert_eq!(
        item.to_string(),
        "(B) 2024-03-05 Pay rent due:2024-04-01 t:2024-03-25 rec:+1m"
    );
    let done = parse("x 2024-02-10 (C) 2024-01-31 Water plants");
    assert_eq!(done.to_string(), "x 2024-02-10 2024-01-31 Water plants pri:C");
}

#[test]
fn writes_tasks_that_no_line_gives() {
    let mut item = TodoItem::new(date(2024, 5, 6));
    assert_eq!(item.to_string(), "2024-05-06");
    item.creation_date = None;
    assert_eq!(item.to_string(), "");
    item.content = "loose".to_string();
    item.completed = true;
    assert_eq!(item.to_string(), "x loose");
    item.priority = Some('A');
    item.completed = false;
    assert_eq!(item.to_string(), "(A) loose");
}

#[test]
fn written_tasks_read_back_equal() {
    let lines = [
        "2024-01-01",
        "2024-01-01 Call mom",
        "(A) 2024-01-01 Call   mom @Phone +family",
        "x 2024-02-10 2024-01-31 Water plants pri:C due:2024-02-09 t:2024-02-01 rec:2w",
        "x 2024-02-10 (C) 2024-01-31 Water plants",
        "2024-01-01 pri:Z due:0000-01-01 rec:+4294967295y",
        "2024-01-01 due:9999-12-31 only tags t:2024-02-29",
        "(A) 2024-01-01 due:tomorrow @ + x (B) 2024-01-01",
    ];
    for line in lines {
        let item = parse(line);
        let written = item.to_string();
        let again = parse(&written);
        assert_eq!(again, item);
        assert_eq!(again.to_string(), written);
    }
}

#[test]
fn reads_the_words_of_a_text() {
    let item = parse("2024-01-01 Call  mom @Phone +family due:2024-01-05 now");
    let parts = item.content_parts();
    assert_eq!(parts.len(), 5);
    assert_eq!(parts[0], ContentPart { space: "".to_string(), content: Content::Word("Call".to_string()) });
    assert_eq!(parts[1], ContentPart { space: "  ".to_string(), content: Content::Word("mom".to_string()) });
    assert_eq!(parts[2], ContentPart { space: " ".to_string(), content: Content::Context("Phone".to_string()) });
    assert_eq!(parts[3], ContentPart { space: " ".to_string(), content: Content::Project("family".to_string()) });
    assert_eq!(parts[4], ContentPart { space: " ".to_string(), content: Content::Word("now".to_string()) });
    assert_eq!(item.contexts(), vec!["Phone".to_string()]);
    assert_eq!(item.projects(), vec!["family".to_string()]);
    assert_eq!(parts[2].content.to_string(), "@Phone");
    assert_eq!(parts[3].content.to_string(), "+family");
}

#[test]
fn words_are_read_anew_after_the_text_changed() {
    let mut item = parse("2024-01-01 at @work");
    assert_eq!(item.contexts(), vec!["work".to_string()]);
    item.content = "at @home with +kids and @dog".to_string();
    assert_eq!(item.contexts(), vec!["home".to_string(), "dog".to_string()]);
    assert_eq!(item.projects(), vec!["kids".to_string()]);
}

#[test]
fn a_text_with_a_tag_is_not_valid() {
    let mut item = parse("2024-01-01 fine @home");
    assert!(item.is_valid());
    item.content = "fine due:2024-01-05".to_string();
    assert!(!item.is_valid());
    item.content = "fine due:soon".to_string();
    assert!(item.is_valid());
    item.content = "rec:+12d".to_string();
    assert!(!item.is_valid());
    item.content = "soon rec:0d".to_string();
    assert!(!item.is_valid());
    item.content = "rec:99999999999y".to_string();
    assert!(!item.is_valid());
    item.content = "rec:y rec:12".to_string();
    assert!(item.is_valid());
    item.content = "a pri:Q b".to_string();
    assert!(!item.is_valid());
    item.content = "t:2024-01-01".to_string();
    assert!(!item.is_valid());
}

#[test]
fn reads_a_list_line_by_line() {
    let list = TodoList::parse("2024-01-01 one\r\n(A) 2024-01-02 two\n2024-01-03 three").unwrap();
    assert_eq!(list.len(), 3);
    assert_eq!(list.items[0].content, "one");
    assert_eq!(list.items[1].priority, Some('A'));
    assert_eq!(list.items[2].content, "three");
    assert_eq!(
        list.to_string(),
        "2024-01-01 one\n(A) 2024-01-02 two\n2024-01-03 three\n"
    );
    assert_eq!(TodoList::parse("").unwrap().len(), 0);
    assert_eq!(TodoList::parse("2024-01-01 one\n").unwrap().len(), 1);
}

#[test]
fn a_list_stops_at_its_first_bad_line() {
    let e: ListParseError =
        TodoList::parse("2024-01-01 one\n2024-01-02 due:2024-01-05 due:2024-01-06\nnonsense\n")
            .unwrap_err();
    assert_eq!(e.line, 1);
    assert_eq!(e.text, "2024-01-02 due:2024-01-05 due:2024-01-06");
    assert_eq!(e.error.error_message, "Illegal second 'due' definition");
    assert_eq!(e.error.error_span, 27..41);
    assert_eq!(
        e.to_string(),
        "Failed to parse item in line 1:\n2024-01-02 due:2024-01-05 due:2024-01-06\n                          ^^^^^^^^^^^^^^\nIllegal second 'due' definition"
    );
    let blank = TodoList::parse("2024-01-01 one\n\n2024-01-03 three").unwrap_err();
    assert_eq!(blank.line, 1);
    assert_eq!(blank.text, "");
    assert_eq!(blank.error.error_message, "expected date");
}

#[test]
fn an_error_is_written_with_its_columns() {
    let e = error("2024-01-01 rec:1d rec:+2w");
    assert_eq!(e.to_string(), "Illegal second 'rec' definition at 19..26");
    let e = ItemParseError { error_message: "m".to_string(), error_span: 0..0 };
    assert_eq!(e.to_string(), "m at 0..0");
    let list_error = ListParseError { line: 12, text: "abc".to_string(), error: e };
    assert_eq!(list_error.to_string(), "Failed to parse item in line 12:\nabc\n\nm");
}

#[test]
fn units_are_read_from_their_letters() {
    assert_eq!(RecurringUnit::parse("d"), Ok(RecurringUnit::Days));
    assert_eq!(RecurringUnit::parse("w"), Ok(RecurringUnit::Weeks));
    assert_eq!(RecurringUnit::parse("m"), Ok(RecurringUnit::Months));
    assert_eq!(RecurringUnit::parse("y"), Ok(RecurringUnit::Years));
    assert_eq!(RecurringUnit::parse("h"), Err("Invalid recurring unit 'h'".to_string()));
    assert_eq!(RecurringUnit::parse(""), Err("Invalid recurring unit ''".to_string()));
    assert_eq!(RecurringUnit::parse("dd"), Err("Invalid recurring unit 'dd'".to_string()));
}

#[test]
fn a_task_is_added_once_only() {
    let mut items = vec![parse("2024-01-01 one"), parse("2024-01-01 two rec:1d")];
    assert!(!add_unless_present(&mut items, parse("2024-01-01   one")));
    assert_eq!(items.len(), 2);
    assert!(add_unless_present(&mut items, parse("2024-01-01 two rec:2d")));
    assert_eq!(items.len(), 3);
    assert_eq!(items[2].to_string(), "2024-01-01 two rec:2d");
    let mut none: Vec<TodoItem> = vec![];
    assert!(add_unless_present(&mut none, parse("2024-01-01 one")));
    assert!(items[0].same_as(&none[0]));
    assert!(!items[1].same_as(&items[2]));
    assert_eq!(items[0].clone(), items[0]);
}

#[test]
fn many_made_up_lines_read_back_equal() {
    let words = [
        "a", "Call", "@home", "+work", "due:2024-01-05", "t:0001-12-31", "rec:+3m", "rec:12y",
        "pri:B", "due:", "t:2024-1-1", "x", "(A)", "2024-01-01", "rec:0d", "@", "+", "日本語",
        "rec:4294967296w", "rec:d",
        "due:2023-02-29", "  ",
    ];
    let heads = ["2024-01-01", "(C) 1999-12-31", "x 2000-02-29 2000-02-28", "x 2024-05-05 (Z) 2024-05-04"];
    let mut state: u64 = 12345;
    let mut next = |n: usize| {
        state = state.wrapping_mul(6364136223846793005).wrapping_add(1442695040888963407);
        ((state >> 33) as usize) % n
    };
    let mut parsed = 0;
    for _ in 0..2000 {
        let mut line = heads[next(heads.len())].to_string();
        for _ in 0..next(7) {
            line.push_str(&" ".repeat(1 + next(3)));
            line.push_str(words[next(words.len())]);
        }
        if let Ok(item) = TodoItem::parse(&line) {
            parsed += 1;
            let written = item.to_string();
            assert_eq!(TodoItem::parse(&written), Ok(item));
            assert!(TodoItem::parse(&written).unwrap().is_valid());
        }
    }
    assert!(parsed > 500);
}
