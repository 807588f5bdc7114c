//! Reading a line of text as a task.
//!
//! A line is read in two steps. [`tokenize`] recognizes its form: the
//! completion mark, the priority mark, the creation date, and then words
//! separated by spaces, some of which are tags. [`build_item`] makes the
//! task from what was recognized: it reads the dates and sees to it that no
//! tag stands twice. [`parse_line`] says what the two steps give together.

use std::ops::Range;
use vstd::prelude::*;
use vstd::string::StringExecFns;

use crate::date::{date_of_text, has_date_shape, is_date_shape, Date};
use crate::text::{
    all_digits, char_is_digit, char_is_upper, decimal_value, is_digit, is_upper, parse_decimal,
    string_of_range, to_chars,
};
use crate::text::{decimal_text, push_decimal, push_repeated};
use crate::todo::round_trip::lemma_parse_gives_parsed;
use crate::todo::{
    item_views, Content, ContentPart, ContentPartView, ContentView, ItemView, Recurring,
    RecurringUnit, TodoItem, TodoList,
};

verus! {

/// Why a line is not a task: a message, and the columns of the line that
/// it is about, counted from 1, the last one excluded.
#[derive(Debug, PartialEq, Eq)]
pub struct ItemParseError {
    pub error_message: String,
    pub error_span: Range<usize>,
}

/// What an [`ItemParseError`] holds, its message as a sequence of
/// characters.
pub struct ErrorView {
    pub message: Seq<char>,
    pub span: Range<usize>,
}

impl View for ItemParseError {
    type V = ErrorView;

    open spec fn view(&self) -> ErrorView {
        ErrorView { message: self.error_message@, span: self.error_span }
    }
}

impl ErrorView {
    /// The error as one line: the message, and the columns it is about.
    pub open spec fn text(self) -> Seq<char> {
        self.message + " at "@ + decimal_text(self.span.start as nat) + seq!['.', '.']
            + decimal_text(self.span.end as nat)
    }
}

impl ItemParseError {
    /// The error as one line: the message, and the columns it is about.
    pub fn to_string(&self) -> (r: String)
        ensures
            r@ == self@.text(),
    {
        let mut out = self.error_message.clone();
        out.append(" at ");
        push_decimal(&mut out, self.error_span.start as u64);
        out.push('.');
        out.push('.');
        push_decimal(&mut out, self.error_span.end as u64);
        assert(out@ =~= self@.text());
        out
    }
}

/// The message where a date should stand and none does.
pub open spec fn expected_date() -> Seq<char> {
    "expected date"@
}

/// The message where a space should stand and none does.
pub open spec fn expected_space() -> Seq<char> {
    "expected space"@
}

/// The message where the letter of a priority mark should stand.
pub open spec fn expected_priority() -> Seq<char> {
    "expected priority letter"@
}

/// The message where the closing bracket of a priority mark should stand.
pub open spec fn expected_bracket() -> Seq<char> {
    "expected ')'"@
}

/// The message for a text of the form `YYYY-MM-DD` that names no day.
pub open spec fn failed_date() -> Seq<char> {
    "Failed to parse date"@
}

/// The message for a recurrence tag whose amount is zero or too great.
pub open spec fn failed_rule() -> Seq<char> {
    "Failed to parse recurrence"@
}

/// The message for a completion date in a line without creation date.
pub open spec fn missing_creation_date() -> Seq<char> {
    "Completion date without creation date"@
}

/// The message for a second `due:` tag.
pub open spec fn second_due() -> Seq<char> {
    "Illegal second 'due' definition"@
}

/// The message for a second `t:` tag.
pub open spec fn second_t() -> Seq<char> {
    "Illegal second 't' definition"@
}

/// The message for a second `rec:` tag.
pub open spec fn second_rec() -> Seq<char> {
    "Illegal second 'rec' definition"@
}

/// The message for a second priority.
pub open spec fn second_pri() -> Seq<char> {
    "Illegal second 'pri' definition"@
}

/// The columns of the characters at positions `from` up to `to`, the last
/// one excluded: columns count from 1.
pub open spec fn columns(from: int, to: int) -> Range<usize> {
    Range { start: (from + 1) as usize, end: (to + 1) as usize }
}

/// The error with the given message about the one character at `at`.
pub open spec fn fault_at(message: Seq<char>, at: int) -> ErrorView {
    ErrorView { message, span: columns(at, at + 1) }
}

/// What a word of a line is.
#[derive(Clone, Copy, Debug, PartialEq, Eq, Structural)]
pub enum TokenKind {
    Word,
    Context,
    Project,
    Due,
    Threshold,
    Rec,
    Pri,
}

/// The word is `due:` and a text of the form `YYYY-MM-DD`.
pub open spec fn is_due_tag(w: Seq<char>) -> bool {
    w.len() == 14 && w[0] == 'd' && w[1] == 'u' && w[2] == 'e' && w[3] == ':' && is_date_shape(
        w.skip(4),
    )
}

/// The word is `t:` and a text of the form `YYYY-MM-DD`.
pub open spec fn is_t_tag(w: Seq<char>) -> bool {
    w.len() == 12 && w[0] == 't' && w[1] == ':' && is_date_shape(w.skip(2))
}

/// The letter stands for a unit: days, weeks, months or years.
pub open spec fn is_unit_letter(c: char) -> bool {
    c == 'd' || c == 'w' || c == 'm' || c == 'y'
}

/// The unit that a letter stands for.
pub open spec fn unit_of_letter(c: char) -> RecurringUnit {
    if c == 'd' {
        RecurringUnit::Days
    } else if c == 'w' {
        RecurringUnit::Weeks
    } else if c == 'm' {
        RecurringUnit::Months
    } else {
        RecurringUnit::Years
    }
}

/// 1 where a rule begins with a plus sign, else 0.
pub open spec fn rule_sign(b: Seq<char>) -> int {
    if b.len() > 0 && b[0] == '+' {
        1
    } else {
        0
    }
}

/// The digits of a rule: what stands between the sign and the last
/// character.
pub open spec fn rule_digits(b: Seq<char>) -> Seq<char> {
    b.subrange(rule_sign(b), b.len() - 1)
}

/// `b` has the form of a recurrence rule: an optional plus sign, one digit
/// or more, and the letter of a unit.
pub open spec fn is_rule_form(b: Seq<char>) -> bool {
    &&& b.len() >= rule_sign(b) + 2
    &&& all_digits(rule_digits(b))
    &&& is_unit_letter(b.last())
}

/// `b` is a recurrence rule: it has the form of one, and its digits make a
/// number from 1 to `u32::MAX`.
pub open spec fn is_rule(b: Seq<char>) -> bool {
    is_rule_form(b) && 1 <= decimal_value(rule_digits(b)) <= u32::MAX
}

/// The rule that `b` is.
pub open spec fn rule_of(b: Seq<char>) -> Recurring {
    Recurring::of(rule_sign(b) == 1, decimal_value(rule_digits(b)) as int, unit_of_letter(b.last()))
}

/// The rule that a text is, if it is one: a text that has the form of a
/// rule is none where its amount is zero or greater than `u32::MAX`.
pub open spec fn rule_of_text(b: Seq<char>) -> Option<Recurring> {
    if is_rule(b) {
        Some(rule_of(b))
    } else {
        None
    }
}

/// The word is `rec:` and a text of the form of a recurrence rule.
pub open spec fn is_rec_tag(w: Seq<char>) -> bool {
    w.len() >= 4 && w[0] == 'r' && w[1] == 'e' && w[2] == 'c' && w[3] == ':' && is_rule_form(
        w.skip(4),
    )
}

/// The word is `pri:` and a capital letter.
pub open spec fn is_pri_tag(w: Seq<char>) -> bool {
    w.len() == 5 && w[0] == 'p' && w[1] == 'r' && w[2] == 'i' && w[3] == ':' && is_upper(w[4])
}

/// What the word `w` is: one of the four tags, or else a context or a
/// project if it has the sign for it and a name behind the sign, or else an
/// ordinary word.
pub open spec fn kind_of(w: Seq<char>) -> TokenKind {
    if is_due_tag(w) {
        TokenKind::Due
    } else if is_t_tag(w) {
        TokenKind::Threshold
    } else if is_rec_tag(w) {
        TokenKind::Rec
    } else if is_pri_tag(w) {
        TokenKind::Pri
    } else if w.len() > 1 && w[0] == '@' {
        TokenKind::Context
    } else if w.len() > 1 && w[0] == '+' {
        TokenKind::Project
    } else {
        TokenKind::Word
    }
}

/// The word is one of the four tags.
pub open spec fn is_tag(w: Seq<char>) -> bool {
    is_due_tag(w) || is_t_tag(w) || is_rec_tag(w) || is_pri_tag(w)
}

/// The word `word` as a part of a task's text, with the spaces `space` in
/// front of it.
pub open spec fn text_part(space: Seq<char>, word: Seq<char>) -> ContentPartView {
    ContentPartView {
        space,
        content: if word.len() > 1 && word[0] == '@' {
            ContentView::Context(word.skip(1))
        } else if word.len() > 1 && word[0] == '+' {
            ContentView::Project(word.skip(1))
        } else {
            ContentView::Word(word)
        },
    }
}

/// A text that should be a date, and where it stands in the line.
#[derive(Debug, PartialEq, Eq)]
pub struct DateToken {
    pub text: String,
    pub span: Range<usize>,
}

/// What a [`DateToken`] holds, its text as a sequence of characters.
pub struct DateTokenView {
    pub text: Seq<char>,
    pub span: Range<usize>,
}

impl View for DateToken {
    type V = DateTokenView;

    open spec fn view(&self) -> DateTokenView {
        DateTokenView { text: self.text@, span: self.span }
    }
}

/// What a word of a line says.
#[derive(Debug, PartialEq, Eq)]
pub enum Part {
    /// A word of the task's text.
    Text(ContentPart),
    /// `due:` with the text behind it.
    Due(DateToken),
    /// `t:` with the text behind it.
    Threshold(DateToken),
    /// `rec:` with the text behind it.
    Rec(String),
    /// `pri:` with the letter behind it.
    Pri(char),
}

/// What a [`Part`] holds, its texts as sequences of characters.
pub enum PartView {
    Text(ContentPartView),
    Due(DateTokenView),
    Threshold(DateTokenView),
    Rec(Seq<char>),
    Pri(char),
}

impl View for Part {
    type V = PartView;

    open spec fn view(&self) -> PartView {
        match self {
            Part::Text(p) => PartView::Text(p@),
            Part::Due(d) => PartView::Due(d@),
            Part::Threshold(d) => PartView::Threshold(d@),
            Part::Rec(rule) => PartView::Rec(rule@),
            Part::Pri(c) => PartView::Pri(*c),
        }
    }
}

/// A word of a line: what it says, and the columns it stands in.
#[derive(Debug, PartialEq, Eq)]
pub struct Token {
    pub part: Part,
    pub span: Range<usize>,
}

/// What a [`Token`] holds, its texts as sequences of characters.
pub struct TokenView {
    pub part: PartView,
    pub span: Range<usize>,
}

impl View for Token {
    type V = TokenView;

    open spec fn view(&self) -> TokenView {
        TokenView { part: self.part@, span: self.span }
    }
}

/// A line as [`tokenize`] recognized it.
#[derive(Debug, PartialEq, Eq)]
pub struct LineTokens {
    /// The text behind the completion mark `x`.
    pub completion: Option<DateToken>,
    /// The letter of the priority mark.
    pub priority: Option<char>,
    /// The text of the creation date.
    pub creation: Option<DateToken>,
    /// The words behind the creation date.
    pub parts: Vec<Token>,
}

/// What a [`LineTokens`] holds, its texts as sequences of characters.
pub struct LineTokensView {
    pub completion: Option<DateTokenView>,
    pub priority: Option<char>,
    pub creation: Option<DateTokenView>,
    pub parts: Seq<TokenView>,
}

/// The view of a date token that may be missing.
pub open spec fn date_token_view(t: Option<DateToken>) -> Option<DateTokenView> {
    match t {
        Some(d) => Some(d@),
        None => None,
    }
}

/// The views of the tokens, in order.
pub open spec fn token_views(tokens: Seq<Token>) -> Seq<TokenView> {
    Seq::new(tokens.len(), |i: int| tokens[i]@)
}

impl View for LineTokens {
    type V = LineTokensView;

    open spec fn view(&self) -> LineTokensView {
        LineTokensView {
            completion: date_token_view(self.completion),
            priority: self.priority,
            creation: date_token_view(self.creation),
            parts: token_views(self.parts@),
        }
    }
}

/// The first position from `i` on that holds no space; the length of `s`
/// where there is none.
pub open spec fn spaces_end(s: Seq<char>, i: int) -> int
    decreases s.len() - i,
{
    if 0 <= i < s.len() && s[i] == ' ' {
        spaces_end(s, i + 1)
    } else {
        i
    }
}

/// The first position from `i` on that holds a space; the length of `s`
/// where there is none.
pub open spec fn word_end(s: Seq<char>, i: int) -> int
    decreases s.len() - i,
{
    if 0 <= i < s.len() && s[i] != ' ' {
        word_end(s, i + 1)
    } else {
        i
    }
}

/// What the word at positions `a` up to `b` says, the spaces in front of it
/// beginning at `i`.
pub open spec fn part_at(s: Seq<char>, i: int, a: int, b: int) -> PartView {
    let word = s.subrange(a, b);
    match kind_of(word) {
        TokenKind::Due => PartView::Due(
            DateTokenView { text: word.skip(4), span: columns(a + 4, b) },
        ),
        TokenKind::Threshold => PartView::Threshold(
            DateTokenView { text: word.skip(2), span: columns(a + 2, b) },
        ),
        TokenKind::Rec => PartView::Rec(word.skip(4)),
        TokenKind::Pri => PartView::Pri(word[4]),
        _ => PartView::Text(text_part(s.subrange(i, a), word)),
    }
}

/// The words of `s` from position `i` on: each is a longest run of
/// characters other than the space.
pub open spec fn tokens_from(s: Seq<char>, i: int) -> Seq<TokenView>
    decreases s.len() - i,
{
    let a = spaces_end(s, i);
    let b = word_end(s, a);
    if 0 <= i <= a && a < b <= s.len() {
        seq![TokenView { part: part_at(s, i, a, b), span: columns(a, b) }] + tokens_from(s, b)
    } else {
        Seq::empty()
    }
}

/// The line begins with the completion mark: `x` and a space.
pub open spec fn has_completion_mark(s: Seq<char>) -> bool {
    s.len() >= 2 && s[0] == 'x' && s[1] == ' '
}

/// A text of the form `YYYY-MM-DD` stands at position `at`.
pub open spec fn date_at(s: Seq<char>, at: int) -> bool {
    0 <= at && at + 10 <= s.len() && is_date_shape(s.subrange(at, at + 10))
}

/// Where the priority mark stands, if there is one: behind the completion
/// mark, its date and a space.
pub open spec fn priority_start(s: Seq<char>) -> int {
    if has_completion_mark(s) {
        13
    } else {
        0
    }
}

/// A priority mark begins at its place: an opening bracket stands there.
pub open spec fn has_priority_mark(s: Seq<char>) -> bool {
    priority_start(s) < s.len() && s[priority_start(s)] == '('
}

/// Where the creation date stands: behind the marks.
pub open spec fn creation_start(s: Seq<char>) -> int {
    if has_priority_mark(s) {
        priority_start(s) + 4
    } else {
        priority_start(s)
    }
}

/// The first place where the line departs from the form of a task, if
/// there is one. The form is: optionally `x`, a space, a date and a space;
/// optionally a capital letter in round brackets and a space; a date; and
/// then nothing, or a space and anything.
pub open spec fn form_error(s: Seq<char>) -> Option<ErrorView> {
    let p = priority_start(s);
    let c = creation_start(s);
    if has_completion_mark(s) && !date_at(s, 2) {
        Some(fault_at(expected_date(), 2))
    } else if has_completion_mark(s) && !(12 < s.len() && s[12] == ' ') {
        Some(fault_at(expected_space(), 12))
    } else if has_priority_mark(s) && !(p + 1 < s.len() && is_upper(s[p + 1])) {
        Some(fault_at(expected_priority(), p + 1))
    } else if has_priority_mark(s) && !(p + 2 < s.len() && s[p + 2] == ')') {
        Some(fault_at(expected_bracket(), p + 2))
    } else if has_priority_mark(s) && !(p + 3 < s.len() && s[p + 3] == ' ') {
        Some(fault_at(expected_space(), p + 3))
    } else if !date_at(s, c) {
        Some(fault_at(expected_date(), c))
    } else if c + 10 < s.len() && s[c + 10] != ' ' {
        Some(fault_at(expected_space(), c + 10))
    } else {
        None
    }
}

/// What [`tokenize`] recognizes in the line `s`.
pub open spec fn line_tokens(s: Seq<char>) -> Result<LineTokensView, ErrorView> {
    let p = priority_start(s);
    let c = creation_start(s);
    match form_error(s) {
        Some(e) => Err(e),
        None => Ok(
            LineTokensView {
                completion: if has_completion_mark(s) {
                    Some(DateTokenView { text: s.subrange(2, 12), span: columns(2, 12) })
                } else {
                    None
                },
                priority: if has_priority_mark(s) {
                    Some(s[p + 1])
                } else {
                    None
                },
                creation: Some(
                    DateTokenView { text: s.subrange(c, c + 10), span: columns(c, c + 10) },
                ),
                parts: tokens_from(s, c + 10),
            },
        ),
    }
}

/// The fields of a task that the words of a line fill.
pub struct Fields {
    pub priority: Option<char>,
    pub due: Option<Date>,
    pub t: Option<Date>,
    pub rec: Option<Recurring>,
    pub content: Seq<char>,
}

/// The text `content` with one more word behind it. The spaces in front of
/// the word are kept, but for the first word.
pub open spec fn with_word(content: Seq<char>, part: ContentPartView) -> Seq<char> {
    if content.len() == 0 {
        part.content.text()
    } else {
        content + part.space + part.content.text()
    }
}

/// The fields after one more word. A word of the text is added to the text.
/// A tag fills its field; where the field is filled already, that is an
/// error about the whole tag; where the tag's date names no day, that is an
/// error about the date; where the amount of the tag's rule is zero or
/// greater than `u32::MAX`, that is an error about the whole tag.
pub open spec fn add_part(f: Fields, token: TokenView) -> Result<Fields, ErrorView> {
    match token.part {
        PartView::Text(part) => Ok(
            Fields {
                priority: f.priority,
                due: f.due,
                t: f.t,
                rec: f.rec,
                content: with_word(f.content, part),
            },
        ),
        PartView::Due(d) => if f.due is Some {
            Err(ErrorView { message: second_due(), span: token.span })
        } else {
            match date_of_text(d.text) {
                Some(date) => Ok(
                    Fields {
                        priority: f.priority,
                        due: Some(date),
                        t: f.t,
                        rec: f.rec,
                        content: f.content,
                    },
                ),
                None => Err(ErrorView { message: failed_date(), span: d.span }),
            }
        },
        PartView::Threshold(d) => if f.t is Some {
            Err(ErrorView { message: second_t(), span: token.span })
        } else {
            match date_of_text(d.text) {
                Some(date) => Ok(
                    Fields {
                        priority: f.priority,
                        due: f.due,
                        t: Some(date),
                        rec: f.rec,
                        content: f.content,
                    },
                ),
                None => Err(ErrorView { message: failed_date(), span: d.span }),
            }
        },
        PartView::Rec(text) => if f.rec is Some {
            Err(ErrorView { message: second_rec(), span: token.span })
        } else {
            match rule_of_text(text) {
                Some(rule) => Ok(
                    Fields {
                        priority: f.priority,
                        due: f.due,
                        t: f.t,
                        rec: Some(rule),
                        content: f.content,
                    },
                ),
                None => Err(ErrorView { message: failed_rule(), span: token.span }),
            }
        },
        PartView::Pri(c) => if f.priority is Some {
            Err(ErrorView { message: second_pri(), span: token.span })
        } else {
            Ok(Fields { priority: Some(c), due: f.due, t: f.t, rec: f.rec, content: f.content })
        },
    }
}

/// The fields after the words `tokens`, taken from left to right; the first
/// error, where there is one.
pub open spec fn add_parts(f: Fields, tokens: Seq<TokenView>) -> Result<Fields, ErrorView>
    decreases tokens.len(),
{
    if tokens.len() == 0 {
        Ok(f)
    } else {
        match add_part(f, tokens[0]) {
            Ok(g) => add_parts(g, tokens.drop_first()),
            Err(e) => Err(e),
        }
    }
}

/// The date that a token names, where there is a token.
pub open spec fn token_date(t: Option<DateTokenView>) -> Result<Option<Date>, ErrorView> {
    match t {
        None => Ok(None),
        Some(d) => match date_of_text(d.text) {
            Some(date) => Ok(Some(date)),
            None => Err(ErrorView { message: failed_date(), span: d.span }),
        },
    }
}

/// The task that [`build_item`] makes of a recognized line, or the first
/// error: of the completion date, of the creation date, a completion date
/// without creation date, and then of the words from left to right. The
/// task is completed where the line has a completion date. A priority mark
/// in front counts as the first priority.
pub open spec fn build(t: LineTokensView) -> Result<ItemView, ErrorView> {
    match token_date(t.completion) {
        Err(e) => Err(e),
        Ok(completion) => match token_date(t.creation) {
            Err(e) => Err(e),
            Ok(creation) => if completion is Some && creation is None {
                Err(ErrorView { message: missing_creation_date(), span: t.completion->0.span })
            } else {
                match add_parts(
                    Fields {
                        priority: t.priority,
                        due: None,
                        t: None,
                        rec: None,
                        content: Seq::empty(),
                    },
                    t.parts,
                ) {
                    Err(e) => Err(e),
                    Ok(f) => Ok(
                        ItemView {
                            completed: completion is Some,
                            priority: f.priority,
                            content: f.content,
                            creation_date: creation,
                            completion_date: completion,
                            due: f.due,
                            t: f.t,
                            rec: f.rec,
                        },
                    ),
                }
            },
        },
    }
}

/// The task that the line `s` is, or why it is none.
pub open spec fn parse_line(s: Seq<char>) -> Result<ItemView, ErrorView> {
    match line_tokens(s) {
        Ok(t) => build(t),
        Err(e) => Err(e),
    }
}

/// The views of what [`tokenize`] returned.
pub open spec fn tokens_result_view(r: Result<LineTokens, ItemParseError>) -> Result<
    LineTokensView,
    ErrorView,
> {
    match r {
        Ok(t) => Ok(t@),
        Err(e) => Err(e@),
    }
}

/// The views of what [`build_item`] or [`TodoItem::parse`] returned.
pub open spec fn item_result_view(r: Result<TodoItem, ItemParseError>) -> Result<
    ItemView,
    ErrorView,
> {
    match r {
        Ok(item) => Ok(item@),
        Err(e) => Err(e@),
    }
}

/// The first position from `i` on that holds no space.
pub fn skip_spaces(v: &Vec<char>, i: usize) -> (a: usize)
    requires
        i <= v.len(),
    ensures
        a == spaces_end(v@, i as int),
        i <= a <= v.len(),
        forall|k: int| i <= k < a ==> v@[k] == ' ',
        a < v.len() ==> v@[a as int] != ' ',
{
    let mut a: usize = i;
    while a < v.len() && v[a] == ' '
        invariant
            i <= a <= v.len(),
            spaces_end(v@, i as int) == spaces_end(v@, a as int),
            forall|k: int| i <= k < a ==> v@[k] == ' ',
        decreases v.len() - a,
    {
        a += 1;
    }
    a
}

/// The first position from `i` on that holds a space.
pub fn skip_word(v: &Vec<char>, i: usize) -> (b: usize)
    requires
        i <= v.len(),
    ensures
        b == word_end(v@, i as int),
        i <= b <= v.len(),
        forall|k: int| i <= k < b ==> v@[k] != ' ',
        b < v.len() ==> v@[b as int] == ' ',
        i < v.len() && v@[i as int] != ' ' ==> i < b,
{
    let mut b: usize = i;
    while b < v.len() && v[b] != ' '
        invariant
            i <= b <= v.len(),
            word_end(v@, i as int) == word_end(v@, b as int),
            forall|k: int| i <= k < b ==> v@[k] != ' ',
            i < v.len() && v@[i as int] != ' ' && b < v.len() && v@[b as int] == ' ' ==> i < b,
        decreases v.len() - b,
    {
        b += 1;
    }
    b
}

/// Whether the characters at positions `from` up to `to` have the form of
/// a rule.
pub fn has_rule_form(v: &Vec<char>, from: usize, to: usize) -> (r: bool)
    requires
        from <= to <= v.len(),
    ensures
        r == is_rule_form(v@.subrange(from as int, to as int)),
{
    let ghost b = v@.subrange(from as int, to as int);
    if to - from < 2 {
        return false;
    }
    assert(b[0] == v@[from as int]);
    let first: usize = if v[from] == '+' {
        from + 1
    } else {
        from
    };
    let last: usize = to - 1;
    assert(b.last() == v@[last as int]);
    if first >= last {
        return false;
    }
    let ghost digits = rule_digits(b);
    assert(digits =~= v@.subrange(first as int, last as int));
    let mut k: usize = first;
    while k < last
        invariant
            first <= k <= last < v.len(),
            b == v@.subrange(from as int, to as int),
            digits == rule_digits(b),
            digits == v@.subrange(first as int, last as int),
            forall|j: int| 0 <= j < k - first ==> is_digit(#[trigger] digits[j]),
        decreases last - k,
    {
        if !char_is_digit(v[k]) {
            assert(digits[k - first] == v@[k as int]);
            assert(!all_digits(digits));
            return false;
        }
        k += 1;
    }
    RecurringUnit::from_letter(v[last]).is_some()
}

/// The rule that stands at positions `from` up to `to`, if those characters
/// are a rule.
pub fn read_rule(v: &Vec<char>, from: usize, to: usize) -> (r: Option<Recurring>)
    requires
        from <= to <= v.len(),
    ensures
        r == rule_of_text(v@.subrange(from as int, to as int)),
{
    let ghost b = v@.subrange(from as int, to as int);
    if !has_rule_form(v, from, to) {
        return None;
    }
    assert(b[0] == v@[from as int]);
    let relative = v[from] == '+';
    let first: usize = if relative {
        from + 1
    } else {
        from
    };
    let last: usize = to - 1;
    assert(b.last() == v@[last as int]);
    assert(rule_digits(b) =~= v@.subrange(first as int, last as int));
    let unit = match RecurringUnit::from_letter(v[last]) {
        Some(unit) => unit,
        None => {
            return None;
        },
    };
    match parse_decimal(v, first, last) {
        Some(amount) => {
            if amount == 0 {
                None
            } else {
                Some(Recurring { relative, amount, unit })
            }
        },
        None => None,
    }
}

/// What the word at positions `a` up to `b` says.
pub fn read_part(v: &Vec<char>, i: usize, a: usize, b: usize) -> (r: Part)
    requires
        i <= a < b <= v.len(),
        v.len() < usize::MAX,
    ensures
        r@ == part_at(v@, i as int, a as int, b as int),
{
    let ghost w = v@.subrange(a as int, b as int);
    assert(forall|k: int| 0 <= k < b - a ==> w[k] == v@[a + k]);
    let n: usize = b - a;
    if n == 14 && v[a] == 'd' && v[a + 1] == 'u' && v[a + 2] == 'e' && v[a + 3] == ':' {
        assert(w.skip(4) =~= v@.subrange(a + 4, a + 14));
        if has_date_shape(v, a + 4) {
            return Part::Due(
                DateToken { text: string_of_range(v, a + 4, b), span: (a + 5)..(b + 1) },
            );
        }
    }
    if n == 12 && v[a] == 't' && v[a + 1] == ':' {
        assert(w.skip(2) =~= v@.subrange(a + 2, a + 12));
        if has_date_shape(v, a + 2) {
            return Part::Threshold(
                DateToken { text: string_of_range(v, a + 2, b), span: (a + 3)..(b + 1) },
            );
        }
    }
    if n >= 4 && v[a] == 'r' && v[a + 1] == 'e' && v[a + 2] == 'c' && v[a + 3] == ':' {
        assert(w.skip(4) =~= v@.subrange(a + 4, b as int));
        if has_rule_form(v, a + 4, b) {
            return Part::Rec(string_of_range(v, a + 4, b));
        }
    }
    if n == 5 && v[a] == 'p' && v[a + 1] == 'r' && v[a + 2] == 'i' && v[a + 3] == ':'
        && char_is_upper(v[a + 4]) {
        return Part::Pri(v[a + 4]);
    }
    let space = string_of_range(v, i, a);
    if n > 1 && v[a] == '@' {
        assert(w.skip(1) =~= v@.subrange(a + 1, b as int));
        Part::Text(ContentPart { space, content: Content::Context(string_of_range(v, a + 1, b)) })
    } else if n > 1 && v[a] == '+' {
        assert(w.skip(1) =~= v@.subrange(a + 1, b as int));
        Part::Text(ContentPart { space, content: Content::Project(string_of_range(v, a + 1, b)) })
    } else {
        Part::Text(ContentPart { space, content: Content::Word(string_of_range(v, a, b)) })
    }
}

/// The words of `v` from position `from` on.
pub fn read_tokens(v: &Vec<char>, from: usize) -> (r: Vec<Token>)
    requires
        from <= v.len(),
        v.len() < usize::MAX,
    ensures
        token_views(r@) == tokens_from(v@, from as int),
{
    let mut out: Vec<Token> = Vec::new();
    let mut i: usize = from;
    loop
        invariant
            from <= i <= v.len(),
            v.len() < usize::MAX,
            tokens_from(v@, from as int) == token_views(out@) + tokens_from(v@, i as int),
        decreases v.len() - i,
    {
        let a = skip_spaces(v, i);
        if a >= v.len() {
            proof {
                assert(tokens_from(v@, i as int) =~= Seq::<TokenView>::empty());
                assert(token_views(out@) + Seq::<TokenView>::empty() =~= token_views(out@));
            }
            return out;
        }
        let b = skip_word(v, a);
        let part = read_part(v, i, a, b);
        let token = Token { part, span: (a + 1)..(b + 1) };
        proof {
            let rest = tokens_from(v@, b as int);
            assert(tokens_from(v@, i as int) == seq![token@] + rest);
            assert(token_views(out@.push(token)) =~= token_views(out@) + seq![token@]);
            assert(token_views(out@) + (seq![token@] + rest) =~= (token_views(out@) + seq![
                token@,
            ]) + rest);
        }
        out.push(token);
        i = b;
    }
}

/// The error with the given message about the one character at `at`.
fn fault(message: &str, at: usize) -> (r: ItemParseError)
    requires
        at + 2 <= usize::MAX,
    ensures
        r@ == fault_at(message@, at as int),
{
    ItemParseError { error_message: message.to_owned(), error_span: (at + 1)..(at + 2) }
}

/// Recognizes the form of a line.
pub fn tokenize(line: &str) -> (r: Result<LineTokens, ItemParseError>)
    requires
        line@.len() + 2 <= usize::MAX,
    ensures
        tokens_result_view(r) == line_tokens(line@),
{
    let v = to_chars(line);
    let n = v.len();
    let mut p: usize = 0;
    let mut completion: Option<DateToken> = None;
    if n >= 2 && v[0] == 'x' && v[1] == ' ' {
        if !has_date_shape(&v, 2) {
            return Err(fault("expected date", 2));
        }
        if !(n > 12 && v[12] == ' ') {
            return Err(fault("expected space", 12));
        }
        completion = Some(DateToken { text: string_of_range(&v, 2, 12), span: 3..13 });
        p = 13;
    }
    let mut priority: Option<char> = None;
    let mut c: usize = p;
    if p < n && v[p] == '(' {
        if !(p + 1 < n && char_is_upper(v[p + 1])) {
            return Err(fault("expected priority letter", p + 1));
        }
        if !(p + 2 < n && v[p + 2] == ')') {
            return Err(fault("expected ')'", p + 2));
        }
        if !(p + 3 < n && v[p + 3] == ' ') {
            return Err(fault("expected space", p + 3));
        }
        priority = Some(v[p + 1]);
        c = p + 4;
    }
    if !has_date_shape(&v, c) {
        return Err(fault("expected date", c));
    }
    if c + 10 < n && v[c + 10] != ' ' {
        return Err(fault("expected space", c + 10));
    }
    let creation = DateToken { text: string_of_range(&v, c, c + 10), span: (c + 1)..(c + 11) };
    let parts = read_tokens(&v, c + 10);
    Ok(LineTokens { completion, priority, creation: Some(creation), parts })
}

/// The fields of a task while the words of its line are read.
struct FieldsBuf {
    priority: Option<char>,
    due: Option<Date>,
    t: Option<Date>,
    rec: Option<Recurring>,
    content: String,
}

impl View for FieldsBuf {
    type V = Fields;

    closed spec fn view(&self) -> Fields {
        Fields {
            priority: self.priority,
            due: self.due,
            t: self.t,
            rec: self.rec,
            content: self.content@,
        }
    }
}

/// The error with the given message about the given columns.
fn error_about(message: &str, span: &Range<usize>) -> (r: ItemParseError)
    ensures
        r@ == (ErrorView { message: message@, span: *span }),
{
    ItemParseError { error_message: message.to_owned(), error_span: span.start..span.end }
}

/// The date that a token names.
fn read_date(token: &DateToken) -> (r: Result<Date, ItemParseError>)
    ensures
        match r {
            Ok(date) => date_of_text(token@.text) == Some(date),
            Err(e) => date_of_text(token@.text) is None && e@ == (ErrorView {
                message: failed_date(),
                span: token@.span,
            }),
        },
{
    match Date::parse(token.text.as_str()) {
        Some(date) => Ok(date),
        None => Err(error_about("Failed to parse date", &token.span)),
    }
}

/// The date that a token names, where there is a token.
fn read_optional_date(token: &Option<DateToken>) -> (r: Result<Option<Date>, ItemParseError>)
    ensures
        match r {
            Ok(date) => token_date(date_token_view(*token)) == Ok::<Option<Date>, ErrorView>(date),
            Err(e) => token_date(date_token_view(*token)) == Err::<Option<Date>, ErrorView>(e@),
        },
{
    match token {
        None => Ok(None),
        Some(t) => match read_date(t) {
            Ok(date) => Ok(Some(date)),
            Err(e) => Err(e),
        },
    }
}

/// Takes one more word into the fields.
fn add_token(f: &mut FieldsBuf, token: &Token) -> (r: Result<(), ItemParseError>)
    ensures
        match r {
            Ok(_) => add_part(old(f)@, token@) == Ok::<Fields, ErrorView>(final(f)@),
            Err(e) => add_part(old(f)@, token@) == Err::<Fields, ErrorView>(e@),
        },
{
    match &token.part {
        Part::Text(part) => {
            if !f.content.as_str().is_empty() {
                f.content.append(part.space.as_str());
            }
            let word = part.content.to_string();
            f.content.append(word.as_str());
            assert(f.content@ =~= with_word(old(f).content@, part@));
            Ok(())
        },
        Part::Due(d) => {
            if f.due.is_some() {
                return Err(error_about("Illegal second 'due' definition", &token.span));
            }
            match read_date(d) {
                Ok(date) => {
                    f.due = Some(date);
                    Ok(())
                },
                Err(e) => Err(e),
            }
        },
        Part::Threshold(d) => {
            if f.t.is_some() {
                return Err(error_about("Illegal second 't' definition", &token.span));
            }
            match read_date(d) {
                Ok(date) => {
                    f.t = Some(date);
                    Ok(())
                },
                Err(e) => Err(e),
            }
        },
        Part::Rec(text) => {
            if f.rec.is_some() {
                return Err(error_about("Illegal second 'rec' definition", &token.span));
            }
            let chars = to_chars(text.as_str());
            assert(chars@.subrange(0, chars.len() as int) =~= text@);
            match read_rule(&chars, 0, chars.len()) {
                Some(rule) => {
                    f.rec = Some(rule);
                    Ok(())
                },
                None => Err(error_about("Failed to parse recurrence", &token.span)),
            }
        },
        Part::Pri(c) => {
            if f.priority.is_some() {
                return Err(error_about("Illegal second 'pri' definition", &token.span));
            }
            f.priority = Some(*c);
            Ok(())
        },
    }
}

/// Takes the words into the fields, from left to right, up to the first
/// error.
fn add_tokens(f: &mut FieldsBuf, parts: &Vec<Token>) -> (r: Result<(), ItemParseError>)
    ensures
        match r {
            Ok(_) => add_parts(old(f)@, token_views(parts@)) == Ok::<Fields, ErrorView>(final(f)@),
            Err(e) => add_parts(old(f)@, token_views(parts@)) == Err::<Fields, ErrorView>(e@),
        },
{
    let ghost first = f@;
    let ghost views = token_views(parts@);
    let mut i: usize = 0;
    assert(views.skip(0) =~= views);
    while i < parts.len()
        invariant
            i <= parts.len(),
            first == old(f)@,
            views == token_views(parts@),
            add_parts(first, views) == add_parts(f@, views.skip(i as int)),
        decreases parts.len() - i,
    {
        let ghost before = f@;
        let ghost rest = views.skip(i as int);
        assert(rest.len() > 0);
        assert(rest[0] == parts@[i as int]@);
        assert(rest.drop_first() =~= views.skip(i + 1));
        match add_token(f, &parts[i]) {
            Ok(_) => {
                assert(add_parts(before, rest) == add_parts(f@, rest.drop_first()));
            },
            Err(e) => {
                assert(add_parts(before, rest) == Err::<Fields, ErrorView>(e@));
                return Err(e);
            },
        }
        i += 1;
    }
    assert(views.skip(i as int) =~= Seq::<TokenView>::empty());
    Ok(())
}

/// Makes the task of a recognized line.
pub fn build_item(tokens: &LineTokens) -> (r: Result<TodoItem, ItemParseError>)
    ensures
        item_result_view(r) == build(tokens@),
{
    let completion = match read_optional_date(&tokens.completion) {
        Ok(date) => date,
        Err(e) => {
            return Err(e);
        },
    };
    let creation = match read_optional_date(&tokens.creation) {
        Ok(date) => date,
        Err(e) => {
            return Err(e);
        },
    };
    if completion.is_some() && creation.is_none() {
        match &tokens.completion {
            Some(t) => {
                return Err(error_about("Completion date without creation date", &t.span));
            },
            None => {},
        }
    }
    let mut f = FieldsBuf {
        priority: tokens.priority,
        due: None,
        t: None,
        rec: None,
        content: String::new(),
    };
    match add_tokens(&mut f, &tokens.parts) {
        Ok(_) => {},
        Err(e) => {
            return Err(e);
        },
    }
    Ok(
        TodoItem {
            completed: completion.is_some(),
            priority: f.priority,
            content: f.content,
            creation_date: creation,
            completion_date: completion,
            due: f.due,
            t: f.t,
            rec: f.rec,
        },
    )
}

impl TodoItem {
    /// Reads a line of text as a task.
    pub fn parse(line: &str) -> (r: Result<TodoItem, ItemParseError>)
        requires
            line@.len() + 2 <= usize::MAX,
        ensures
            item_result_view(r) == parse_line(line@),
            r matches Ok(item) ==> item@.is_parsed() && item@.wf(),
    {
        proof {
            lemma_parse_gives_parsed(line@);
        }
        match tokenize(line) {
            Ok(tokens) => build_item(&tokens),
            Err(e) => Err(e),
        }
    }
}

/// The words of the text `s` from position `i` on, each with the spaces in
/// front of it. A word with the sign of a context or of a project and a
/// name behind the sign is one; every other word is an ordinary word.
pub open spec fn parts_from(s: Seq<char>, i: int) -> Seq<ContentPartView>
    decreases s.len() - i,
{
    let a = spaces_end(s, i);
    let b = word_end(s, a);
    if 0 <= i <= a && a < b <= s.len() {
        seq![text_part(s.subrange(i, a), s.subrange(a, b))] + parts_from(s, b)
    } else {
        Seq::empty()
    }
}

/// The words of a task's text.
pub open spec fn content_parts(content: Seq<char>) -> Seq<ContentPartView> {
    parts_from(content, 0)
}

/// The names of the contexts among the words, or of the projects, in the
/// order of the words.
pub open spec fn names_in(parts: Seq<ContentPartView>, projects: bool) -> Seq<Seq<char>>
    decreases parts.len(),
{
    if parts.len() == 0 {
        Seq::empty()
    } else {
        let before = names_in(parts.drop_last(), projects);
        match parts.last().content {
            ContentView::Context(name) if !projects => before.push(name),
            ContentView::Project(name) if projects => before.push(name),
            _ => before,
        }
    }
}

/// A word of the text from position `i` on is a tag.
pub open spec fn has_tag_from(s: Seq<char>, i: int) -> bool
    decreases s.len() - i,
{
    let a = spaces_end(s, i);
    let b = word_end(s, a);
    if 0 <= i <= a && a < b <= s.len() {
        is_tag(s.subrange(a, b)) || has_tag_from(s, b)
    } else {
        false
    }
}

/// The views of the parts, in order.
pub open spec fn part_views(parts: Seq<ContentPart>) -> Seq<ContentPartView> {
    Seq::new(parts.len(), |i: int| parts[i]@)
}

/// The views of the strings, in order.
pub open spec fn string_views(strings: Seq<String>) -> Seq<Seq<char>> {
    Seq::new(strings.len(), |i: int| strings[i]@)
}

/// The word at positions `a` up to `b` as a part of a text.
fn read_text_part(v: &Vec<char>, i: usize, a: usize, b: usize) -> (r: ContentPart)
    requires
        i <= a < b <= v.len(),
    ensures
        r@ == text_part(v@.subrange(i as int, a as int), v@.subrange(a as int, b as int)),
{
    let ghost w = v@.subrange(a as int, b as int);
    assert(w[0] == v@[a as int]);
    let space = string_of_range(v, i, a);
    if b - a > 1 && v[a] == '@' {
        assert(w.skip(1) =~= v@.subrange(a + 1, b as int));
        ContentPart { space, content: Content::Context(string_of_range(v, a + 1, b)) }
    } else if b - a > 1 && v[a] == '+' {
        assert(w.skip(1) =~= v@.subrange(a + 1, b as int));
        ContentPart { space, content: Content::Project(string_of_range(v, a + 1, b)) }
    } else {
        ContentPart { space, content: Content::Word(string_of_range(v, a, b)) }
    }
}

/// The words of a text.
pub fn read_parts(content: &str) -> (r: Vec<ContentPart>)
    ensures
        part_views(r@) == content_parts(content@),
{
    let v = to_chars(content);
    let mut out: Vec<ContentPart> = Vec::new();
    let mut i: usize = 0;
    loop
        invariant
            i <= v.len(),
            v@ == content@,
            parts_from(v@, 0) == part_views(out@) + parts_from(v@, i as int),
        decreases v.len() - i,
    {
        let a = skip_spaces(&v, i);
        if a >= v.len() {
            proof {
                assert(parts_from(v@, i as int) =~= Seq::<ContentPartView>::empty());
                assert(part_views(out@) + Seq::<ContentPartView>::empty() =~= part_views(out@));
            }
            return out;
        }
        let b = skip_word(&v, a);
        let part = read_text_part(&v, i, a, b);
        proof {
            let rest = parts_from(v@, b as int);
            assert(parts_from(v@, i as int) == seq![part@] + rest);
            assert(part_views(out@.push(part)) =~= part_views(out@) + seq![part@]);
            assert(part_views(out@) + (seq![part@] + rest) =~= (part_views(out@) + seq![part@])
                + rest);
        }
        out.push(part);
        i = b;
    }
}

/// Whether the word at positions `a` up to `b` is a tag.
pub fn is_tag_at(v: &Vec<char>, a: usize, b: usize) -> (r: bool)
    requires
        a < b <= v.len(),
    ensures
        r == is_tag(v@.subrange(a as int, b as int)),
{
    let ghost w = v@.subrange(a as int, b as int);
    assert(forall|k: int| 0 <= k < b - a ==> w[k] == v@[a + k]);
    let n: usize = b - a;
    if n == 14 && v[a] == 'd' && v[a + 1] == 'u' && v[a + 2] == 'e' && v[a + 3] == ':' {
        assert(w.skip(4) =~= v@.subrange(a + 4, a + 14));
        if has_date_shape(v, a + 4) {
            return true;
        }
    }
    if n == 12 && v[a] == 't' && v[a + 1] == ':' {
        assert(w.skip(2) =~= v@.subrange(a + 2, a + 12));
        if has_date_shape(v, a + 2) {
            return true;
        }
    }
    if n >= 4 && v[a] == 'r' && v[a + 1] == 'e' && v[a + 2] == 'c' && v[a + 3] == ':' {
        assert(w.skip(4) =~= v@.subrange(a + 4, b as int));
        if has_rule_form(v, a + 4, b) {
            return true;
        }
    }
    n == 5 && v[a] == 'p' && v[a + 1] == 'r' && v[a + 2] == 'i' && v[a + 3] == ':'
        && char_is_upper(v[a + 4])
}

/// Whether a word of the text is a tag.
pub fn has_tag(content: &str) -> (r: bool)
    ensures
        r == has_tag_from(content@, 0),
{
    let v = to_chars(content);
    let mut i: usize = 0;
    loop
        invariant
            i <= v.len(),
            v@ == content@,
            has_tag_from(v@, 0) == has_tag_from(v@, i as int),
        decreases v.len() - i,
    {
        let a = skip_spaces(&v, i);
        if a >= v.len() {
            return false;
        }
        let b = skip_word(&v, a);
        if is_tag_at(&v, a, b) {
            return true;
        }
        i = b;
    }
}

/// The names of the contexts among the words, or of the projects.
pub fn read_names(parts: &Vec<ContentPart>, projects: bool) -> (r: Vec<String>)
    ensures
        string_views(r@) == names_in(part_views(parts@), projects),
{
    let mut out: Vec<String> = Vec::new();
    let mut i: usize = 0;
    let ghost all = part_views(parts@);
    assert(all.take(0) =~= Seq::<ContentPartView>::empty());
    while i < parts.len()
        invariant
            i <= parts.len(),
            all == part_views(parts@),
            string_views(out@) == names_in(all.take(i as int), projects),
        decreases parts.len() - i,
    {
        proof {
            let upto = all.take(i + 1);
            assert(upto.drop_last() =~= all.take(i as int));
            assert(upto.last() == parts@[i as int]@);
        }
        let ghost before = out@;
        match &parts[i].content {
            Content::Context(name) => {
                if !projects {
                    out.push(name.clone());
                    assert(string_views(out@) =~= string_views(before).push(name@));
                }
            },
            Content::Project(name) => {
                if projects {
                    out.push(name.clone());
                    assert(string_views(out@) =~= string_views(before).push(name@));
                }
            },
            Content::Word(_) => {},
        }
        i += 1;
    }
    assert(all.take(i as int) =~= all);
    out
}

impl TodoItem {
    /// The words of the task's text, each with the spaces in front of it.
    /// They are read from the text at each call.
    pub fn content_parts(&self) -> (r: Vec<ContentPart>)
        ensures
            part_views(r@) == content_parts(self@.content),
    {
        read_parts(self.content.as_str())
    }

    /// The names of the contexts in the task's text, in order.
    pub fn contexts(&self) -> (r: Vec<String>)
        ensures
            string_views(r@) == names_in(content_parts(self@.content), false),
    {
        let parts = self.content_parts();
        read_names(&parts, false)
    }

    /// The names of the projects in the task's text, in order.
    pub fn projects(&self) -> (r: Vec<String>)
        ensures
            string_views(r@) == names_in(content_parts(self@.content), true),
    {
        let parts = self.content_parts();
        read_names(&parts, true)
    }

    /// Whether the task can go into a list as it is: none of the words of
    /// its text is a tag.
    pub fn is_valid(&self) -> (r: bool)
        ensures
            r == !has_tag_from(self@.content, 0),
    {
        !has_tag(self.content.as_str())
    }
}

/// Where the line that begins at `i` ends: at the next line feed, or at
/// the end of the text.
pub open spec fn line_end(s: Seq<char>, i: int) -> int
    decreases s.len() - i,
{
    if 0 <= i < s.len() && s[i] != '\n' {
        line_end(s, i + 1)
    } else {
        i
    }
}

/// The line that begins at `i`, without the line feed at its end and
/// without a carriage return in front of that line feed.
pub open spec fn line_at(s: Seq<char>, i: int) -> Seq<char> {
    let e = line_end(s, i);
    if i < e < s.len() && s[e - 1] == '\r' {
        s.subrange(i, e - 1)
    } else {
        s.subrange(i, e)
    }
}

/// The lines of the text from position `i` on. A line feed at the end of
/// the text ends the last line and begins no new one.
pub open spec fn lines_from(s: Seq<char>, i: int) -> Seq<Seq<char>>
    decreases s.len() - i,
{
    let e = line_end(s, i);
    if 0 <= i < s.len() && i <= e < s.len() {
        seq![line_at(s, i)] + lines_from(s, e + 1)
    } else if 0 <= i < s.len() {
        seq![line_at(s, i)]
    } else {
        Seq::empty()
    }
}

/// Why a text is not a list of tasks: the number of the first line that is
/// no task, counted from 0, that line, and why it is no task.
#[derive(Debug, PartialEq, Eq)]
pub struct ListParseError {
    pub line: usize,
    pub text: String,
    pub error: ItemParseError,
}

/// What a [`ListParseError`] holds, its texts as sequences of characters.
pub struct ListErrorView {
    pub line: int,
    pub text: Seq<char>,
    pub error: ErrorView,
}

impl View for ListParseError {
    type V = ListErrorView;

    open spec fn view(&self) -> ListErrorView {
        ListErrorView { line: self.line as int, text: self.text@, error: self.error@ }
    }
}

/// The tasks that the lines are, or the first line that is none.
pub open spec fn parse_lines(lines: Seq<Seq<char>>) -> Result<Seq<ItemView>, ListErrorView>
    decreases lines.len(),
{
    if lines.len() == 0 {
        Ok(Seq::empty())
    } else {
        match parse_lines(lines.drop_last()) {
            Err(e) => Err(e),
            Ok(items) => match parse_line(lines.last()) {
                Ok(item) => Ok(items.push(item)),
                Err(e) => Err(
                    ListErrorView { line: lines.len() - 1, text: lines.last(), error: e },
                ),
            },
        }
    }
}

/// The tasks that the text of a file holds, one in each line, or the first
/// line that is no task.
pub open spec fn parse_text(s: Seq<char>) -> Result<Seq<ItemView>, ListErrorView> {
    parse_lines(lines_from(s, 0))
}

/// The views of what [`TodoList::parse`] returned.
pub open spec fn list_result_view(r: Result<TodoList, ListParseError>) -> Result<
    Seq<ItemView>,
    ListErrorView,
> {
    match r {
        Ok(list) => Ok(list@),
        Err(e) => Err(e@),
    }
}

/// The spaces and carets that point at the columns `span` of a line.
pub open spec fn markers(span: Range<usize>) -> Seq<char> {
    Seq::new(
        if span.start > 0 {
            (span.start - 1) as nat
        } else {
            0
        },
        |i: int| ' ',
    ) + Seq::new(
        if span.end > span.start {
            (span.end - span.start) as nat
        } else {
            0
        },
        |i: int| '^',
    )
}

impl ListErrorView {
    /// The error as a text of four lines: which line it is about, the
    /// line, marks under the columns it is about, and the message.
    pub open spec fn text(self) -> Seq<char> {
        "Failed to parse item in line "@ + decimal_text(self.line as nat) + seq![':', '\n']
            + self.text + seq!['\n'] + markers(self.error.span) + seq!['\n']
            + self.error.message
    }
}

impl ListParseError {
    /// The error as a text of four lines.
    pub fn to_string(&self) -> (r: String)
        ensures
            r@ == self@.text(),
    {
        let mut out = "Failed to parse item in line ".to_owned();
        push_decimal(&mut out, self.line as u64);
        out.push(':');
        out.push('\n');
        out.append(self.text.as_str());
        out.push('\n');
        let start = self.error.error_span.start;
        let end = self.error.error_span.end;
        push_repeated(
            &mut out,
            ' ',
            if start > 0 {
                start - 1
            } else {
                0
            },
        );
        push_repeated(
            &mut out,
            '^',
            if end > start {
                end - start
            } else {
                0
            },
        );
        out.push('\n');
        out.append(self.error.error_message.as_str());
        assert(out@ =~= self@.text());
        out
    }
}

/// The end of the line that begins at `i`.
fn find_line_end(v: &Vec<char>, i: usize) -> (e: usize)
    requires
        i <= v.len(),
    ensures
        e == line_end(v@, i as int),
        i <= e <= v.len(),
{
    let mut e: usize = i;
    while e < v.len() && v[e] != '\n'
        invariant
            i <= e <= v.len(),
            line_end(v@, i as int) == line_end(v@, e as int),
        decreases v.len() - e,
    {
        e += 1;
    }
    e
}

impl TodoList {
    /// Reads the text of a file as a list of tasks, one in each line. The
    /// first line that is no task ends the reading.
    pub fn parse(text: &str) -> (r: Result<TodoList, ListParseError>)
        requires
            text@.len() + 2 <= usize::MAX,
        ensures
            list_result_view(r) == parse_text(text@),
    {
        let v = to_chars(text);
        let mut items: Vec<TodoItem> = Vec::new();
        let mut i: usize = 0;
        let ghost mut seen: Seq<Seq<char>> = Seq::empty();
        assert(item_views(items@) =~= Seq::<ItemView>::empty());
        assert(seen + lines_from(v@, 0) =~= lines_from(v@, 0));
        while i < v.len()
            invariant
                i <= v.len() + 1,
                v@ == text@,
                v.len() + 2 <= usize::MAX,
                lines_from(v@, 0) == seen + lines_from(v@, i as int),
                seen.len() == items.len(),
                parse_lines(seen) == Ok::<Seq<ItemView>, ListErrorView>(item_views(items@)),
            decreases v.len() + 1 - i,
        {
            let e = find_line_end(&v, i);
            let to: usize = if i < e && e < v.len() && v[e - 1] == '\r' {
                e - 1
            } else {
                e
            };
            let line = string_of_range(&v, i, to);
            proof {
                let rest = lines_from(v@, e + 1);
                assert(rest =~= Seq::<Seq<char>>::empty() || e < v.len());
                assert(lines_from(v@, i as int) =~= seq![line@] + rest);
                assert(seen + (seq![line@] + rest) =~= seen.push(line@) + rest);
                assert(seen.push(line@).drop_last() =~= seen);
            }
            match TodoItem::parse(line.as_str()) {
                Ok(item) => {
                    proof {
                        assert(item_views(items@.push(item)) =~= item_views(items@).push(item@));
                    }
                    items.push(item);
                },
                Err(error) => {
                    proof {
                        let upto = seen.push(line@);
                        lemma_first_failure(upto, lines_from(v@, e + 1));
                    }
                    return Err(ListParseError { line: items.len(), text: line, error });
                },
            }
            proof {
                seen = seen.push(line@);
            }
            i = e + 1;
        }
        proof {
            assert(lines_from(v@, i as int) =~= Seq::<Seq<char>>::empty());
            assert(seen + Seq::<Seq<char>>::empty() =~= seen);
        }
        Ok(TodoList { items })
    }
}

/// Once a line is no task, the lines behind it make no difference.
proof fn lemma_first_failure(lines: Seq<Seq<char>>, more: Seq<Seq<char>>)
    requires
        parse_lines(lines) is Err,
    ensures
        parse_lines(lines + more) == parse_lines(lines),
    decreases more.len(),
{
    if more.len() == 0 {
        assert(lines + more =~= lines);
    } else {
        lemma_first_failure(lines, more.drop_last());
        assert((lines + more).drop_last() =~= lines + more.drop_last());
    }
}

} // verus!
