//! Writing a task and reading it again.
//!
//! The tasks that come out of [`parse_line`] are the ones that
//! [`ItemView::is_parsed`] describes, and for each of them reading the line
//! that [`ItemView::text`] writes gives the task back.

use vstd::prelude::*;

use crate::date::{date_of_text, is_date_shape, lemma_date_text_round_trip, shape_year, Date};
use crate::text::{
    all_spaces, decimal_text, is_digit, is_upper, lemma_decimal_round_trip,
    lemma_decimal_text_digits, no_spaces,
};
use crate::todo::parsing::{
    add_part, add_parts, columns, creation_start, date_at, form_error, has_completion_mark,
    has_priority_mark, is_rule, is_tag, kind_of, line_tokens, parse_line, part_at,
    priority_start, rule_digits, rule_of, rule_of_text, spaces_end, text_part, token_date, tokens_from,
    unit_of_letter, with_word, word_end, DateTokenView, ErrorView, Fields, PartView, TokenKind,
    TokenView,
};
use crate::todo::{unit_letter, with_segment, ItemView, Recurring};

verus! {

/// The characters of `s` at positions `a` up to `b` are a word: a longest
/// run of characters other than the space.
pub open spec fn is_word_at(s: Seq<char>, a: int, b: int) -> bool {
    &&& 0 <= a < b <= s.len()
    &&& forall|k: int| a <= k < b ==> #[trigger] s[k] != ' '
    &&& (a == 0 || s[a - 1] == ' ')
    &&& (b == s.len() || s[b] == ' ')
}

/// `c` can be the text of a task that was read from a line: no space
/// stands at its ends, and none of its words is a tag.
pub open spec fn is_text(c: Seq<char>) -> bool {
    &&& c.len() > 0 ==> c[0] != ' ' && c.last() != ' '
    &&& forall|a: int, b: int| is_word_at(c, a, b) ==> !is_tag(#[trigger] c.subrange(a, b))
}

/// The date, where there is one, is a day of the calendar in the years 0 to
/// 9999: the years that four digits can write.
pub open spec fn is_plain_date(d: Option<Date>) -> bool {
    d matches Some(date) ==> date.inv() && 0 <= date.y() <= 9999
}

impl ItemView {
    /// What holds of every task that was read from a line: it has a
    /// creation date; it is completed exactly if it has a completion date;
    /// its dates lie in the years 0 to 9999; its priority is a capital
    /// letter; the amount of its rule is positive; and its text has no
    /// space at its ends and no tag among its words.
    pub open spec fn is_parsed(self) -> bool {
        &&& self.creation_date is Some
        &&& self.completed == (self.completion_date is Some)
        &&& is_plain_date(self.creation_date)
        &&& is_plain_date(self.completion_date)
        &&& is_plain_date(self.due)
        &&& is_plain_date(self.t)
        &&& (self.priority matches Some(p) ==> is_upper(p))
        &&& (self.rec matches Some(rule) ==> rule.inv())
        &&& is_text(self.content)
    }
}

/// Where the spaces from `i` on end.
pub proof fn lemma_spaces_end(s: Seq<char>, i: int)
    requires
        0 <= i <= s.len(),
    ensures
        i <= spaces_end(s, i) <= s.len(),
        forall|k: int| i <= k < spaces_end(s, i) ==> #[trigger] s[k] == ' ',
        spaces_end(s, i) < s.len() ==> s[spaces_end(s, i)] != ' ',
    decreases s.len() - i,
{
    if i < s.len() && s[i] == ' ' {
        lemma_spaces_end(s, i + 1);
    }
}

/// Where the word from `i` on ends.
pub proof fn lemma_word_end(s: Seq<char>, i: int)
    requires
        0 <= i <= s.len(),
    ensures
        i <= word_end(s, i) <= s.len(),
        forall|k: int| i <= k < word_end(s, i) ==> #[trigger] s[k] != ' ',
        word_end(s, i) < s.len() ==> s[word_end(s, i)] == ' ',
        i < s.len() && s[i] != ' ' ==> i < word_end(s, i),
    decreases s.len() - i,
{
    if i < s.len() && s[i] != ' ' {
        lemma_word_end(s, i + 1);
    }
}

/// The words from `i` on are the first word and the words behind it.
pub proof fn lemma_tokens_step(s: Seq<char>, i: int)
    requires
        0 <= i <= s.len(),
    ensures
        ({
            let a = spaces_end(s, i);
            let b = word_end(s, a);
            if a < s.len() {
                &&& i <= a < b <= s.len()
                &&& tokens_from(s, i) == seq![
                    TokenView { part: part_at(s, i, a, b), span: columns(a, b) },
                ] + tokens_from(s, b)
            } else {
                tokens_from(s, i) == Seq::<TokenView>::empty()
            }
        }),
{
    lemma_spaces_end(s, i);
    lemma_word_end(s, spaces_end(s, i));
}

/// A word as a part of the text is written as the word.
pub proof fn lemma_text_part(space: Seq<char>, word: Seq<char>)
    ensures
        text_part(space, word).content.text() == word,
        text_part(space, word).space == space,
{
    if word.len() > 1 && word[0] == '@' {
        assert(seq!['@'] + word.skip(1) =~= word);
    } else if word.len() > 1 && word[0] == '+' {
        assert(seq!['+'] + word.skip(1) =~= word);
    }
}

/// A word that can stand in the text of a task: it is not empty, holds no
/// space and is no tag.
pub open spec fn is_plain_word(w: Seq<char>) -> bool {
    w.len() > 0 && no_spaces(w) && !is_tag(w)
}

/// What holds of every word that [`tokens_from`] gives.
pub open spec fn is_sound(token: TokenView) -> bool {
    match token.part {
        PartView::Text(part) => part.space.len() > 0 && all_spaces(part.space) && is_plain_word(
            part.content.text(),
        ),
        PartView::Pri(c) => is_upper(c),
        _ => true,
    }
}

/// Every word of a line is sound, where the words begin at a space.
pub proof fn lemma_tokens_sound(s: Seq<char>, i: int)
    requires
        0 <= i <= s.len(),
        i < s.len() ==> s[i] == ' ',
    ensures
        forall|k: int| 0 <= k < tokens_from(s, i).len() ==> is_sound(#[trigger] tokens_from(s, i)[k]),
    decreases s.len() - i,
{
    lemma_tokens_step(s, i);
    lemma_spaces_end(s, i);
    let a = spaces_end(s, i);
    if a < s.len() {
        let b = word_end(s, a);
        lemma_word_end(s, a);
        let word = s.subrange(a, b);
        let space = s.subrange(i, a);
        let first = TokenView { part: part_at(s, i, a, b), span: columns(a, b) };
        lemma_text_part(space, word);
        assert(is_sound(first)) by {
            match kind_of(word) {
                TokenKind::Rec => {},
                TokenKind::Pri => {},
                TokenKind::Due => {},
                TokenKind::Threshold => {},
                _ => {
                    assert(!is_tag(word));
                    assert(i < a);
                },
            }
        }
        lemma_tokens_sound(s, b);
        let rest = tokens_from(s, b);
        assert forall|k: int| 0 <= k < tokens_from(s, i).len() implies is_sound(
            #[trigger] tokens_from(s, i)[k],
        ) by {
            if k > 0 {
                assert(tokens_from(s, i)[k] == rest[k - 1]);
            }
        }
    }
}

/// A text stays a text when a plain word is put behind it, with spaces
/// between the two.
pub proof fn lemma_text_with_word(content: Seq<char>, space: Seq<char>, word: Seq<char>)
    requires
        is_text(content),
        space.len() > 0,
        all_spaces(space),
        is_plain_word(word),
    ensures
        is_text(
            if content.len() == 0 {
                word
            } else {
                content + space + word
            },
        ),
{
    if content.len() == 0 {
        assert forall|a: int, b: int| is_word_at(word, a, b) implies !is_tag(
            #[trigger] word.subrange(a, b),
        ) by {
            if a > 0 {
                assert(word[a - 1] != ' ');
            }
            if b < word.len() {
                assert(word[b] != ' ');
            }
            assert(word.subrange(a, b) =~= word);
        }
    } else {
        let c = content + space + word;
        let n1 = content.len() as int;
        let n2 = n1 + space.len();
        let n3 = n2 + word.len();
        assert(c.len() == n3);
        assert(forall|k: int| 0 <= k < n1 ==> c[k] == content[k]);
        assert(forall|k: int| n1 <= k < n2 ==> c[k] == space[k - n1]);
        assert(forall|k: int| n2 <= k < n3 ==> c[k] == word[k - n2]);
        assert(c.last() == word.last());
        assert forall|a: int, b: int| is_word_at(c, a, b) implies !is_tag(
            #[trigger] c.subrange(a, b),
        ) by {
            assert(c[a] != ' ');
            if a >= n2 {
                if a > n2 {
                    assert(c[a - 1] == word[a - 1 - n2]);
                }
                if b < n3 {
                    assert(c[b] == word[b - n2]);
                }
                assert(c.subrange(a, b) =~= word);
            } else {
                if a >= n1 {
                    assert(c[a] == space[a - n1]);
                }
                assert(c[n1] == space[0]);
                if b > n1 {
                    assert(c[n1] != ' ');
                }
                assert(is_word_at(content, a, b));
                assert(c.subrange(a, b) =~= content.subrange(a, b));
            }
        }
    }
}

/// The fields of a task as the words of a line can fill them.
pub open spec fn is_parsed_fields(f: Fields) -> bool {
    &&& is_plain_date(f.due)
    &&& is_plain_date(f.t)
    &&& (f.priority matches Some(p) ==> is_upper(p))
    &&& (f.rec matches Some(rule) ==> rule.inv())
    &&& is_text(f.content)
}

/// A date that was read from a text lies in the years 0 to 9999.
pub proof fn lemma_read_date_plain(text: Seq<char>)
    ensures
        is_plain_date(date_of_text(text)),
{
    if is_date_shape(text) {
        assert(0 <= shape_year(text) <= 9999);
    }
}

/// Sound words keep the fields as the words of a line can fill them.
pub proof fn lemma_parts_keep_parsed(f: Fields, tokens: Seq<TokenView>)
    requires
        is_parsed_fields(f),
        forall|k: int| 0 <= k < tokens.len() ==> is_sound(#[trigger] tokens[k]),
    ensures
        add_parts(f, tokens) matches Ok(g) ==> is_parsed_fields(g),
    decreases tokens.len(),
{
    if tokens.len() > 0 {
        let token = tokens[0];
        assert(is_sound(token));
        match add_part(f, token) {
            Ok(g) => {
                match token.part {
                    PartView::Text(part) => {
                        lemma_text_with_word(f.content, part.space, part.content.text());
                    },
                    PartView::Due(d) => {
                        lemma_read_date_plain(d.text);
                    },
                    PartView::Threshold(d) => {
                        lemma_read_date_plain(d.text);
                    },
                    PartView::Rec(text) => {
                        assert(is_rule(text));
                    },
                    _ => {},
                }
                assert(is_parsed_fields(g));
                let rest = tokens.drop_first();
                assert forall|k: int| 0 <= k < rest.len() implies is_sound(#[trigger] rest[k]) by {
                    assert(rest[k] == tokens[k + 1]);
                }
                lemma_parts_keep_parsed(g, rest);
            },
            Err(_) => {},
        }
    }
}

/// Every task that was read from a line is as [`ItemView::is_parsed`] says.
pub proof fn lemma_parse_gives_parsed(line: Seq<char>)
    ensures
        parse_line(line) matches Ok(item) ==> item.is_parsed(),
{
    match line_tokens(line) {
        Ok(t) => {
            let c = creation_start(line);
            assert(date_at(line, c));
            lemma_tokens_sound(line, c + 10);
            match t.completion {
                Some(d) => {
                    lemma_read_date_plain(d.text);
                },
                None => {},
            }
            lemma_read_date_plain(t.creation->0.text);
            let first = Fields {
                priority: t.priority,
                due: None,
                t: None,
                rec: None,
                content: Seq::empty(),
            };
            assert(is_text(Seq::<char>::empty()));
            assert(is_parsed_fields(first));
            lemma_parts_keep_parsed(first, t.parts);
        },
        Err(_) => {},
    }
}

/// The line `s` begins with `stage` and goes on behind it, if at all, with
/// a space.
pub open spec fn continues(s: Seq<char>, stage: Seq<char>) -> bool {
    &&& stage.len() <= s.len()
    &&& s.subrange(0, stage.len() as int) == stage
    &&& (stage.len() == s.len() || s[stage.len() as int] == ' ')
}

/// A line that goes on behind a stage with a segment went on behind the
/// stage before it with a space and that segment.
proof fn lemma_continues_segment(s: Seq<char>, acc: Seq<char>, segment: Seq<char>)
    requires
        continues(s, with_segment(acc, segment)),
        acc.len() > 0,
    ensures
        continues(s, acc),
        with_segment(acc, segment).len() == acc.len() + 1 + segment.len(),
        s[acc.len() as int] == ' ',
        s.subrange(acc.len() as int + 1, acc.len() as int + 1 + segment.len()) == segment,
{
    let whole = with_segment(acc, segment);
    let n = acc.len() as int;
    assert(whole == acc + seq![' '] + segment);
    assert(forall|k: int| 0 <= k < whole.len() ==> s[k] == s.subrange(0, whole.len() as int)[k]);
    assert(forall|k: int| 0 <= k < n ==> whole[k] == acc[k]);
    assert(whole[n] == ' ');
    assert(forall|k: int| 0 <= k < segment.len() ==> whole[n + 1 + k] == segment[k]);
    assert(s.subrange(0, n) =~= acc);
    assert(s.subrange(n + 1, n + 1 + segment.len()) =~= segment);
}

/// The words from a space on, where one word `w` stands behind the space
/// and a space or nothing behind the word, are that word and the words
/// behind it.
proof fn lemma_one_word(s: Seq<char>, i: int, w: Seq<char>)
    requires
        0 <= i,
        i + 1 + w.len() <= s.len(),
        s[i] == ' ',
        w.len() > 0,
        no_spaces(w),
        s.subrange(i + 1, i + 1 + w.len()) == w,
        i + 1 + w.len() == s.len() || s[i + 1 + w.len()] == ' ',
    ensures
        tokens_from(s, i) == seq![
            TokenView {
                part: part_at(s, i, i + 1, i + 1 + w.len()),
                span: columns(i + 1, i + 1 + w.len()),
            },
        ] + tokens_from(s, i + 1 + w.len()),
{
    let e = i + 1 + w.len();
    assert(forall|k: int| 0 <= k < w.len() ==> s[i + 1 + k] == w[k]);
    assert(s[i + 1] == w[0]);
    assert(spaces_end(s, i) == spaces_end(s, i + 1));
    assert(spaces_end(s, i + 1) == i + 1);
    lemma_word_end(s, i + 1);
    let b = word_end(s, i + 1);
    if b > e {
        assert(s[e] != ' ');
    }
    if b < e {
        assert(s[b] == w[b - i - 1]);
    }
    lemma_tokens_step(s, i);
}

/// What a tag says that stands as the word `w` behind the space at `i`.
pub open spec fn tag_at(s: Seq<char>, i: int, w: Seq<char>) -> TokenView {
    TokenView {
        part: part_at(s, i, i + 1, i + 1 + w.len()),
        span: columns(i + 1, i + 1 + w.len()),
    }
}

/// Reading the words of a line from a space on, where one word stands
/// behind the space that fills the fields `f` to `g`, is reading the words
/// behind that word into `g`.
proof fn lemma_read_one_word(s: Seq<char>, i: int, w: Seq<char>, f: Fields, g: Fields)
    requires
        0 <= i,
        i + 1 + w.len() <= s.len(),
        s[i] == ' ',
        w.len() > 0,
        no_spaces(w),
        s.subrange(i + 1, i + 1 + w.len()) == w,
        i + 1 + w.len() == s.len() || s[i + 1 + w.len()] == ' ',
        add_part(f, tag_at(s, i, w)) == Ok::<Fields, ErrorView>(g),
    ensures
        add_parts(f, tokens_from(s, i)) == add_parts(g, tokens_from(s, i + 1 + w.len())),
{
    lemma_one_word(s, i, w);
    let rest = tokens_from(s, i + 1 + w.len());
    let all = tokens_from(s, i);
    assert(all[0] == tag_at(s, i, w));
    assert(all.drop_first() =~= rest);
}

/// Reading the words of a line whose characters from `lo` up to `hi` are a
/// text, from a point `i` on up to which the text was read already, fills
/// the text in and goes on behind it.
proof fn lemma_read_text(s: Seq<char>, lo: int, hi: int, i: int, f: Fields)
    requires
        0 < lo < hi <= s.len(),
        s[lo - 1] == ' ',
        hi == s.len() || s[hi] == ' ',
        is_text(s.subrange(lo, hi)),
        (i == lo - 1 && f.content.len() == 0) || (lo < i <= hi && s[i - 1] != ' ' && (i == hi
            || s[i] == ' ') && f.content == s.subrange(lo, i)),
    ensures
        add_parts(f, tokens_from(s, i)) == add_parts(
            Fields {
                priority: f.priority,
                due: f.due,
                t: f.t,
                rec: f.rec,
                content: s.subrange(lo, hi),
            },
            tokens_from(s, hi),
        ),
    decreases hi - i,
{
    let c = s.subrange(lo, hi);
    assert(forall|k: int| 0 <= k < hi - lo ==> c[k] == s[lo + k]);
    assert(c[0] == s[lo]);
    assert(c.last() == s[hi - 1]);
    if i == hi {
    } else {
        lemma_tokens_step(s, i);
        lemma_spaces_end(s, i);
        let a = spaces_end(s, i);
        if a > hi - 1 {
            assert(s[hi - 1] == ' ');
        }
        lemma_word_end(s, a);
        let b = word_end(s, a);
        if b > hi {
            assert(s[hi] != ' ');
        }
        if i == lo - 1 {
            assert(spaces_end(s, i) == spaces_end(s, lo));
            assert(a == lo);
        }
        let w = s.subrange(a, b);
        let space = s.subrange(i, a);
        assert(is_word_at(c, a - lo, b - lo)) by {
            assert(forall|k: int| a - lo <= k < b - lo ==> c[k] == s[lo + k]);
            if a > lo {
                assert(s[a - 1] == ' ');
                assert(c[a - lo - 1] == s[a - 1]);
            }
            if b < hi {
                assert(c[b - lo] == s[b]);
            }
        }
        assert(c.subrange(a - lo, b - lo) =~= w);
        assert(!is_tag(w));
        lemma_text_part(space, w);
        let token = TokenView { part: part_at(s, i, a, b), span: columns(a, b) };
        assert(token.part == PartView::Text(text_part(space, w)));
        let g = Fields {
            priority: f.priority,
            due: f.due,
            t: f.t,
            rec: f.rec,
            content: with_word(f.content, text_part(space, w)),
        };
        assert(add_part(f, token) == Ok::<Fields, ErrorView>(g));
        assert(g.content =~= s.subrange(lo, b)) by {
            if i == lo - 1 {
            } else {
                assert(f.content.len() > 0);
                assert(s.subrange(lo, i) + space + w =~= s.subrange(lo, b));
            }
        }
        let all = tokens_from(s, i);
        assert(all.drop_first() =~= tokens_from(s, b));
        assert(add_parts(f, all) == add_parts(g, tokens_from(s, b)));
        assert(s[b - 1] != ' ');
        lemma_read_text(s, lo, hi, b, g);
    }
}

/// The word `pri:` with a capital letter is a `pri:` tag and nothing else.
proof fn lemma_pri_word(p: char)
    requires
        is_upper(p),
    ensures
        ({
            let w = seq!['p', 'r', 'i', ':', p];
            &&& kind_of(w) == TokenKind::Pri
            &&& w[4] == p
            &&& no_spaces(w)
        }),
{
}

/// The word `due:` with a date is a `due:` tag with the text of the date.
proof fn lemma_due_word(date: Date)
    requires
        date.inv(),
        0 <= date.y() <= 9999,
    ensures
        ({
            let w = seq!['d', 'u', 'e', ':'] + date.text();
            &&& kind_of(w) == TokenKind::Due
            &&& w.skip(4) == date.text()
            &&& no_spaces(w)
            &&& w.len() == 14
        }),
{
    lemma_date_text_round_trip(date);
    let w = seq!['d', 'u', 'e', ':'] + date.text();
    assert(w.skip(4) =~= date.text());
    assert forall|k: int| 0 <= k < w.len() implies #[trigger] w[k] != ' ' by {
        if k >= 4 {
            assert(w[k] == date.text()[k - 4]);
        }
    }
}

/// The word `t:` with a date is a `t:` tag with the text of the date.
proof fn lemma_t_word(date: Date)
    requires
        date.inv(),
        0 <= date.y() <= 9999,
    ensures
        ({
            let w = seq!['t', ':'] + date.text();
            &&& kind_of(w) == TokenKind::Threshold
            &&& w.skip(2) == date.text()
            &&& no_spaces(w)
            &&& w.len() == 12
        }),
{
    lemma_date_text_round_trip(date);
    let w = seq!['t', ':'] + date.text();
    assert(w.skip(2) =~= date.text());
    assert forall|k: int| 0 <= k < w.len() implies #[trigger] w[k] != ' ' by {
        if k >= 2 {
            assert(w[k] == date.text()[k - 2]);
        }
    }
}

/// The text of a rule is a rule, and reading it gives the rule back.
proof fn lemma_rule_text(rule: Recurring)
    requires
        rule.inv(),
    ensures
        is_rule(rule.text()),
        rule_of(rule.text()) == rule,
        no_spaces(rule.text()),
{
    let digits = decimal_text(rule.amt() as nat);
    lemma_decimal_text_digits(rule.amt() as nat);
    lemma_decimal_round_trip(rule.amt() as nat);
    let b = rule.text();
    let unit = seq![unit_letter(rule.per())];
    assert(is_digit(digits[0]));
    if rule.rel() {
        assert(b == seq!['+'] + digits + unit);
        assert(b[0] == '+');
        assert(rule_digits(b) =~= digits);
        assert forall|k: int| 0 <= k < b.len() implies #[trigger] b[k] != ' ' by {
            if 1 <= k < b.len() - 1 {
                assert(b[k] == digits[k - 1]);
            }
        }
    } else {
        assert(b =~= digits + unit);
        assert(b[0] == digits[0]);
        assert(rule_digits(b) =~= digits);
        assert forall|k: int| 0 <= k < b.len() implies #[trigger] b[k] != ' ' by {
            if k < b.len() - 1 {
                assert(b[k] == digits[k]);
            }
        }
    }
    assert(b.last() == unit_letter(rule.per()));
    assert(unit_of_letter(unit_letter(rule.per())) == rule.per());
}

/// The word `rec:` with a rule is a `rec:` tag with that rule.
proof fn lemma_rec_word(rule: Recurring)
    requires
        rule.inv(),
    ensures
        ({
            let w = seq!['r', 'e', 'c', ':'] + rule.text();
            &&& kind_of(w) == TokenKind::Rec
            &&& w.skip(4) == rule.text()
            &&& rule_of_text(w.skip(4)) == Some(rule)
            &&& no_spaces(w)
        }),
{
    lemma_rule_text(rule);
    let w = seq!['r', 'e', 'c', ':'] + rule.text();
    assert(w.skip(4) =~= rule.text());
    assert forall|k: int| 0 <= k < w.len() implies #[trigger] w[k] != ' ' by {
        if k >= 4 {
            assert(w[k] == rule.text()[k - 4]);
        }
    }
}

/// The fields that the words of a line fill, for a task read from a line.
pub open spec fn fields_of(item: ItemView) -> Fields {
    Fields {
        priority: item.priority,
        due: item.due,
        t: item.t,
        rec: item.rec,
        content: item.content,
    }
}

/// The line of a task goes on behind each of its stages with a space, or
/// ends there.
proof fn lemma_stages(item: ItemView)
    requires
        item.is_parsed(),
    ensures
        item.text_creation().len() > 0,
        item.text_creation().len() <= item.text_content().len() <= item.text_pri().len()
            <= item.text_due().len() <= item.text_t().len() <= item.text().len(),
        continues(item.text(), item.text()),
        continues(item.text(), item.text_t()),
        continues(item.text(), item.text_due()),
        continues(item.text(), item.text_pri()),
        continues(item.text(), item.text_content()),
        continues(item.text(), item.text_creation()),
{
    let s = item.text();
    lemma_date_text_round_trip(item.creation_date->0);
    assert(item.text_creation().len() >= 10);
    assert(s.subrange(0, s.len() as int) =~= s);
    match item.rec {
        Some(rule) => {
            lemma_continues_segment(s, item.text_t(), seq!['r', 'e', 'c', ':'] + rule.text());
        },
        None => {},
    }
    match item.t {
        Some(date) => {
            lemma_continues_segment(s, item.text_due(), seq!['t', ':'] + date.text());
        },
        None => {},
    }
    match item.due {
        Some(date) => {
            lemma_continues_segment(s, item.text_pri(), seq!['d', 'u', 'e', ':'] + date.text());
        },
        None => {},
    }
    match item.priority {
        Some(p) if item.completed => {
            lemma_continues_segment(s, item.text_content(), seq!['p', 'r', 'i', ':', p]);
        },
        _ => {},
    }
    if item.content.len() > 0 {
        lemma_continues_segment(s, item.text_creation(), item.content);
    }
}

/// Reading the words behind the creation date fills in the text.
proof fn lemma_read_content(item: ItemView, f: Fields)
    requires
        item.is_parsed(),
        f.content.len() == 0,
    ensures
        add_parts(f, tokens_from(item.text(), item.text_creation().len() as int)) == add_parts(
            Fields {
                priority: f.priority,
                due: f.due,
                t: f.t,
                rec: f.rec,
                content: item.content,
            },
            tokens_from(item.text(), item.text_content().len() as int),
        ),
{
    lemma_stages(item);
    let s = item.text();
    let n = item.text_creation().len() as int;
    if item.content.len() > 0 {
        lemma_continues_segment(s, item.text_creation(), item.content);
        lemma_read_text(s, n + 1, n + 1 + item.content.len(), n, f);
    } else {
        assert(f.content =~= item.content);
    }
}

/// Reading the words behind the text fills in the priority of a completed
/// task.
proof fn lemma_read_pri(item: ItemView, f: Fields)
    requires
        item.is_parsed(),
        item.completed ==> f.priority is None,
        !item.completed ==> f.priority == item.priority,
    ensures
        add_parts(f, tokens_from(item.text(), item.text_content().len() as int)) == add_parts(
            Fields {
                priority: item.priority,
                due: f.due,
                t: f.t,
                rec: f.rec,
                content: f.content,
            },
            tokens_from(item.text(), item.text_pri().len() as int),
        ),
{
    lemma_stages(item);
    let s = item.text();
    let n = item.text_content().len() as int;
    match item.priority {
        Some(p) if item.completed => {
            let w = seq!['p', 'r', 'i', ':', p];
            lemma_continues_segment(s, item.text_content(), w);
            lemma_pri_word(p);
            let g = Fields {
                priority: item.priority,
                due: f.due,
                t: f.t,
                rec: f.rec,
                content: f.content,
            };
            assert(s.subrange(n + 1, n + 1 + w.len()) == w);
            assert(tag_at(s, n, w).part == PartView::Pri(p));
            assert(add_part(f, tag_at(s, n, w)) == Ok::<Fields, ErrorView>(g));
            lemma_read_one_word(s, n, w, f, g);
        },
        _ => {},
    }
}

/// Reading the words behind the priority fills in the due date.
proof fn lemma_read_due(item: ItemView, f: Fields)
    requires
        item.is_parsed(),
        f.due is None,
    ensures
        add_parts(f, tokens_from(item.text(), item.text_pri().len() as int)) == add_parts(
            Fields {
                priority: f.priority,
                due: item.due,
                t: f.t,
                rec: f.rec,
                content: f.content,
            },
            tokens_from(item.text(), item.text_due().len() as int),
        ),
{
    lemma_stages(item);
    let s = item.text();
    let n = item.text_pri().len() as int;
    match item.due {
        Some(date) => {
            let w = seq!['d', 'u', 'e', ':'] + date.text();
            lemma_continues_segment(s, item.text_pri(), w);
            lemma_due_word(date);
            lemma_date_text_round_trip(date);
            let g = Fields {
                priority: f.priority,
                due: item.due,
                t: f.t,
                rec: f.rec,
                content: f.content,
            };
            assert(s.subrange(n + 1, n + 1 + w.len()) == w);
            assert(tag_at(s, n, w).part == PartView::Due(
                DateTokenView { text: date.text(), span: columns(n + 1 + 4, n + 1 + w.len()) },
            ));
            assert(date_of_text(date.text()) == Some(date));
            assert(add_part(f, tag_at(s, n, w)) == Ok::<Fields, ErrorView>(g));
            lemma_read_one_word(s, n, w, f, g);
        },
        None => {},
    }
}

/// Reading the words behind the due date fills in the threshold date.
proof fn lemma_read_t(item: ItemView, f: Fields)
    requires
        item.is_parsed(),
        f.t is None,
    ensures
        add_parts(f, tokens_from(item.text(), item.text_due().len() as int)) == add_parts(
            Fields {
                priority: f.priority,
                due: f.due,
                t: item.t,
                rec: f.rec,
                content: f.content,
            },
            tokens_from(item.text(), item.text_t().len() as int),
        ),
{
    lemma_stages(item);
    let s = item.text();
    let n = item.text_due().len() as int;
    match item.t {
        Some(date) => {
            let w = seq!['t', ':'] + date.text();
            lemma_continues_segment(s, item.text_due(), w);
            lemma_t_word(date);
            lemma_date_text_round_trip(date);
            let g = Fields {
                priority: f.priority,
                due: f.due,
                t: item.t,
                rec: f.rec,
                content: f.content,
            };
            assert(s.subrange(n + 1, n + 1 + w.len()) == w);
            assert(tag_at(s, n, w).part == PartView::Threshold(
                DateTokenView { text: date.text(), span: columns(n + 1 + 2, n + 1 + w.len()) },
            ));
            assert(date_of_text(date.text()) == Some(date));
            assert(add_part(f, tag_at(s, n, w)) == Ok::<Fields, ErrorView>(g));
            lemma_read_one_word(s, n, w, f, g);
        },
        None => {},
    }
}

/// Reading the words behind the threshold date fills in the rule, and
/// that is the end of the line.
proof fn lemma_read_rec(item: ItemView, f: Fields)
    requires
        item.is_parsed(),
        f.rec is None,
    ensures
        add_parts(f, tokens_from(item.text(), item.text_t().len() as int)) == Ok::<
            Fields,
            ErrorView,
        >(
            Fields {
                priority: f.priority,
                due: f.due,
                t: f.t,
                rec: item.rec,
                content: f.content,
            },
        ),
{
    lemma_stages(item);
    let s = item.text();
    let n = item.text_t().len() as int;
    lemma_tokens_step(s, s.len() as int);
    assert(tokens_from(s, s.len() as int) =~= Seq::<TokenView>::empty());
    match item.rec {
        Some(rule) => {
            let w = seq!['r', 'e', 'c', ':'] + rule.text();
            lemma_continues_segment(s, item.text_t(), w);
            lemma_rec_word(rule);
            let g = Fields {
                priority: f.priority,
                due: f.due,
                t: f.t,
                rec: item.rec,
                content: f.content,
            };
            assert(s.subrange(n + 1, n + 1 + w.len()) == w);
            assert(tag_at(s, n, w).part == PartView::Rec(rule.text()));
            assert(add_part(f, tag_at(s, n, w)) == Ok::<Fields, ErrorView>(g));
            lemma_read_one_word(s, n, w, f, g);
        },
        None => {},
    }
}

/// Reading the words behind the creation date of a task's line fills in
/// the fields of the task.
proof fn lemma_read_words(item: ItemView, lead: Option<char>)
    requires
        item.is_parsed(),
        item.completed ==> lead is None,
        !item.completed ==> lead == item.priority,
    ensures
        add_parts(
            Fields { priority: lead, due: None, t: None, rec: None, content: Seq::empty() },
            tokens_from(item.text(), item.text_creation().len() as int),
        ) == Ok::<Fields, ErrorView>(fields_of(item)),
{
    let f0 = Fields { priority: lead, due: None, t: None, rec: None, content: Seq::empty() };
    let f1 = Fields { priority: lead, due: None, t: None, rec: None, content: item.content };
    let f2 = Fields {
        priority: item.priority,
        due: None,
        t: None,
        rec: None,
        content: item.content,
    };
    let f3 = Fields {
        priority: item.priority,
        due: item.due,
        t: None,
        rec: None,
        content: item.content,
    };
    let f4 = Fields {
        priority: item.priority,
        due: item.due,
        t: item.t,
        rec: None,
        content: item.content,
    };
    lemma_read_content(item, f0);
    lemma_read_pri(item, f1);
    lemma_read_due(item, f2);
    lemma_read_t(item, f3);
    lemma_read_rec(item, f4);
}

/// What stands in front of a task's line: the marks, and the creation
/// date.
proof fn lemma_read_head(item: ItemView)
    requires
        item.is_parsed(),
    ensures
        ({
            let s = item.text();
            let c = creation_start(s);
            &&& form_error(s) is None
            &&& has_completion_mark(s) == item.completed
            &&& item.completed ==> s.subrange(2, 12) == item.completion_date->0.text()
            &&& has_priority_mark(s) == (!item.completed && item.priority is Some)
            &&& has_priority_mark(s) ==> s[priority_start(s) + 1] == item.priority->0
            &&& c + 10 == item.text_creation().len()
            &&& s.subrange(c, c + 10) == item.creation_date->0.text()
        }),
{
    lemma_stages(item);
    let s = item.text();
    let head = item.text_creation();
    let created = item.creation_date->0;
    lemma_date_text_round_trip(created);
    let ct = created.text();
    assert(forall|k: int| 0 <= k < head.len() ==> s[k] == s.subrange(0, head.len() as int)[k]);
    if item.completed {
        let done = item.completion_date->0;
        lemma_date_text_round_trip(done);
        let dt = done.text();
        assert(head == seq!['x', ' '] + dt + seq![' '] + ct);
        assert(head.len() == 23);
        assert(head[0] == 'x' && head[1] == ' ' && head[12] == ' ');
        assert(forall|k: int| 0 <= k < 10 ==> head[2 + k] == dt[k]);
        assert(forall|k: int| 0 <= k < 10 ==> head[13 + k] == ct[k]);
        assert(s.subrange(2, 12) =~= dt);
        assert(s.subrange(13, 23) =~= ct);
        assert(s[13] == ct[0]);
        assert(is_digit(ct[0]));
    } else {
        match item.priority {
            Some(p) => {
                assert(head == seq!['(', p, ')'] + seq![' '] + ct);
                assert(head.len() == 14);
                assert(head[0] == '(' && head[1] == p && head[2] == ')' && head[3] == ' ');
                assert(forall|k: int| 0 <= k < 10 ==> head[4 + k] == ct[k]);
                assert(s.subrange(4, 14) =~= ct);
            },
            None => {
                assert(head == ct);
                assert(s.subrange(0, 10) =~= ct);
                assert(s[0] == ct[0]);
                assert(is_digit(ct[0]));
            },
        }
    }
}

/// Reading the line of a task that is as [`ItemView::is_parsed`] says
/// gives the task.
pub proof fn lemma_parsed_round_trip(item: ItemView)
    requires
        item.is_parsed(),
    ensures
        parse_line(item.text()) == Ok::<ItemView, ErrorView>(item),
{
    let s = item.text();
    lemma_read_head(item);
    let lead: Option<char> = if item.completed {
        None
    } else {
        item.priority
    };
    lemma_read_words(item, lead);
    lemma_date_text_round_trip(item.creation_date->0);
    if item.completed {
        lemma_date_text_round_trip(item.completion_date->0);
    }
    let t = line_tokens(s)->Ok_0;
    assert(line_tokens(s) is Ok);
    assert(t.priority == lead);
    assert(token_date(t.creation) == Ok::<Option<Date>, ErrorView>(item.creation_date));
    assert(token_date(t.completion) == Ok::<Option<Date>, ErrorView>(item.completion_date));
    assert(t.parts == tokens_from(s, item.text_creation().len() as int));
}

/// Writing a task that was read from a line, and reading what was written,
/// gives the same task, equal in every field.
pub proof fn law_round_trip(line: Seq<char>, item: ItemView)
    requires
        parse_line(line) == Ok::<ItemView, ErrorView>(item),
    ensures
        parse_line(item.text()) == Ok::<ItemView, ErrorView>(item),
{
    lemma_parse_gives_parsed(line);
    lemma_parsed_round_trip(item);
}

} // verus!
