use totui::app::TodoListFilter;
use totui::config::Config;
use totui::date::Date;
use totui::todo::{Recurring, RecurringUnit, TodoItem};
use totui::ui::{add_widths, item_lines, item_row, widen, Piece, PieceKind};
use totui::widgets::{PickerCell, PickerStyle, RecurrencePickerState};

fn piece(kind: PieceKind, text: &str) -> Piece {
    Piece { kind, text: text.to_string() }
}

#[test]
fn a_short_task_takes_one_line() {
    let item = TodoItem::parse("2024-01-01 Call  mom @phone +family t:2024-02-01 due:2024-03-05").unwrap();
    let lines = item_lines(&item, 80);
    assert_eq!(
        lines,
        vec![vec![
            piece(PieceKind::Space, ""),
            piece(PieceKind::Word, "Call"),
            piece(PieceKind::Space, "  "),
            piece(PieceKind::Word, "mom"),
            piece(PieceKind::Space, " "),
            piece(PieceKind::Context, "phone"),
            piece(PieceKind::Space, " "),
            piece(PieceKind::Project, "family"),
            piece(PieceKind::Plain, " "),
            piece(PieceKind::Threshold, "01.02.2024"),
            piece(PieceKind::Plain, " "),
            piece(PieceKind::Due, "05.03.2024"),
        ]]
    );
}

#[test]
fn a_long_task_is_broken_where_the_line_is_full() {
    let item = TodoItem::parse("2024-01-01 aaaa bbbb cccc due:2024-03-05").unwrap();
    let lines = item_lines(&item, 9);
    assert_eq!(
        lines,
        vec![
            vec![
                piece(PieceKind::Space, ""),
                piece(PieceKind::Word, "aaaa"),
                piece(PieceKind::Space, " "),
                piece(PieceKind::Word, "bbbb"),
            ],
            vec![piece(PieceKind::Word, "cccc")],
            vec![piece(PieceKind::Due, "05.03.2024")],
        ]
    );
    let exact = item_lines(&item, 14);
    assert_eq!(exact.len(), 2);
    assert_eq!(exact[0].len(), 6);
}

#[test]
fn a_word_wider_than_the_column_leaves_an_empty_line() {
    let item = TodoItem::parse("2024-01-01 abcdefgh").unwrap();
    let lines = item_lines(&item, 3);
    assert_eq!(lines, vec![vec![], vec![piece(PieceKind::Word, "abcdefgh")]]);
    let empty = TodoItem::parse("2024-01-01").unwrap();
    assert_eq!(item_lines(&empty, 10), Vec::<Vec<Piece>>::new());
}

#[test]
fn wide_characters_count_double() {
    let item = TodoItem::parse("2024-01-01 日本 語").unwrap();
    assert_eq!(item_lines(&item, 7).len(), 1);
    assert_eq!(item_lines(&item, 6).len(), 2);
}

#[test]
fn widths_are_added_without_running_over() {
    assert_eq!(add_widths(2, 3), 5);
    assert_eq!(add_widths(usize::MAX, 3), usize::MAX);
    assert_eq!(add_widths(usize::MAX - 3, 3), usize::MAX);
}

#[test]
fn a_row_has_its_marks() {
    let config = Config::default();
    let item = TodoItem::parse("x 2024-01-02 (B) 2024-01-01 done").unwrap();
    let row = item_row(&item, 20, &config);
    assert_eq!(row.completion, "[x]");
    assert_eq!(row.priority, "(B)");
    assert_eq!(row.lines.len(), 1);
    let open = TodoItem::parse("2024-01-01 open").unwrap();
    let row = item_row(&open, 20, &config);
    assert_eq!(row.completion, "[ ]");
    assert_eq!(row.priority, "");
}

#[test]
fn the_filter_shows_what_it_asks() {
    let config = Config { filter_t_enabled: "T".to_string(), ..Config::default() };
    let mut filter = TodoListFilter::default();
    assert_eq!(config.filter_completion_mark(&filter), "[*]");
    assert_eq!(config.filter_priority_mark(&filter), "(*)");
    assert_eq!(config.filter_t_mark(&filter), "T");
    filter.completion = Some(true);
    filter.priority = Some(Some('C'));
    filter.hide_threshold_beyond_days = None;
    assert_eq!(config.filter_completion_mark(&filter), "[x]");
    assert_eq!(config.filter_priority_mark(&filter), "(C)");
    assert_eq!(config.filter_t_mark(&filter), "t");
    filter.completion = Some(false);
    filter.priority = Some(None);
    assert_eq!(config.filter_completion_mark(&filter), "[ ]");
    assert_eq!(config.filter_priority_mark(&filter), "");
}

#[test]
fn dates_are_written_day_first() {
    assert_eq!(Date::new(2024, 3, 5).unwrap().to_dotted_string(), "05.03.2024");
    assert_eq!(Date::new(-44, 3, 15).unwrap().to_dotted_string(), "15.03.-0044");
    assert_eq!(Date::new(12345, 12, 1).unwrap().to_dotted_string(), "01.12.+12345");
}

fn cell(x: u16, y: u16, text: &str, style: PickerStyle) -> PickerCell {
    PickerCell { x, y, text: text.to_string(), style }
}

#[test]
fn the_recurrence_picker_shows_its_parts_and_arrows() {
    let empty = RecurrencePickerState::new(None);
    assert_eq!(
        empty.cells(),
        vec![
            cell(1, 1, " ", PickerStyle::Selected),
            cell(1, 0, "▲", PickerStyle::Arrow),
            cell(3, 1, "0", PickerStyle::Normal),
            cell(3, 0, "▲", PickerStyle::Arrow),
            cell(5, 1, "d", PickerStyle::Normal),
            cell(5, 0, "▲", PickerStyle::Arrow),
        ]
    );
    let mut full = RecurrencePickerState::new(Recurring::new(true, 120, RecurringUnit::Years));
    full.select_previous();
    assert_eq!(
        full.cells(),
        vec![
            cell(1, 1, "+", PickerStyle::Normal),
            cell(1, 2, "▼", PickerStyle::Arrow),
            cell(3, 1, "120", PickerStyle::Normal),
            cell(3, 2, "▼", PickerStyle::Arrow),
            cell(3, 0, "▲", PickerStyle::Arrow),
            cell(7, 1, "y", PickerStyle::Selected),
            cell(7, 2, "▼", PickerStyle::Arrow),
        ]
    );
    let mut weeks = RecurrencePickerState::new(Recurring::new(false, 7, RecurringUnit::Weeks));
    weeks.select_next();
    let cells = weeks.cells();
    assert_eq!(cells.len(), 8);
    assert_eq!(cells[2], cell(3, 1, "7", PickerStyle::Selected));
    assert_eq!(cells[6], cell(5, 2, "▼", PickerStyle::Arrow));
    assert_eq!(cells[7], cell(5, 0, "▲", PickerStyle::Arrow));
}

#[test]
fn a_line_takes_a_piece_while_it_fits() {
    assert_eq!(widen(4, 4, 1, 9), Some(9));
    assert_eq!(widen(4, 4, 1, 8), None);
    assert_eq!(widen(0, 0, 0, 0), Some(0));
    assert_eq!(widen(usize::MAX, 1, 1, usize::MAX), Some(usize::MAX));
    assert_eq!(widen(usize::MAX, 1, 1, usize::MAX - 1), None);
}
