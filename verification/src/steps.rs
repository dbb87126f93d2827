//! The phrases of a scenario: a pattern is literal text with typed slots,
//! `{word}`, `{int}` and `{string}`; a phrase that fits a pattern yields one
//! value for each slot.

use crate::text::{chars_of, digit_value, number, same_text, string_of};
use vstd::prelude::*;

verus! {

/// The kinds of slot.
#[derive(Clone, Copy, Debug, PartialEq, Eq, Structural)]
pub enum SlotKind {
    /// The longest run of characters that are not blank; at least one.
    Word,
    /// The longest run of decimal digits; at least one, and a number that fits 64 bits.
    Int,
    /// Text between two double quotes or two single quotes, without the quotes.
    Text,
}

/// A part of a pattern, as the contracts see it.
pub enum TokenView {
    Literal(Seq<char>),
    Slot(SlotKind),
}

/// A part of a pattern.
#[derive(Debug)]
pub enum Token {
    Literal(Vec<char>),
    Slot(SlotKind),
}

impl View for Token {
    type V = TokenView;

    open spec fn view(&self) -> TokenView {
        match self {
            Token::Literal(text) => TokenView::Literal(text@),
            Token::Slot(kind) => TokenView::Slot(*kind),
        }
    }
}

/// What a phrase holds at a slot, as the contracts see it.
pub enum CaptureView {
    Word(Seq<char>),
    Int(u64),
    Text(Seq<char>),
}

/// What a phrase holds at a slot.
#[derive(Debug, PartialEq, Eq)]
pub enum Capture {
    Word(String),
    Int(u64),
    Text(String),
}

impl View for Capture {
    type V = CaptureView;

    open spec fn view(&self) -> CaptureView {
        match self {
            Capture::Word(text) => CaptureView::Word(text@),
            Capture::Int(value) => CaptureView::Int(*value),
            Capture::Text(text) => CaptureView::Text(text@),
        }
    }
}

/// Whether `c` separates words.
pub open spec fn is_blank(c: char) -> bool {
    c == ' ' || c == '\t' || c == '\n' || c == '\r'
}

/// How many characters of `s` from `pos` on are not blank, up to the first blank one.
pub open spec fn word_len(s: Seq<char>, pos: int) -> nat
    decreases s.len() - pos,
{
    if pos < 0 || pos >= s.len() || is_blank(s[pos]) {
        0
    } else {
        1 + word_len(s, pos + 1)
    }
}

/// How many characters of `s` from `pos` on are digits, up to the first that is none.
pub open spec fn digits_len(s: Seq<char>, pos: int) -> nat
    decreases s.len() - pos,
{
    if pos < 0 || pos >= s.len() || digit_value(s[pos]) is None {
        0
    } else {
        1 + digits_len(s, pos + 1)
    }
}

/// How many characters of `s` from `pos` on come before the first `stop`.
pub open spec fn len_until(s: Seq<char>, pos: int, stop: char) -> nat
    decreases s.len() - pos,
{
    if pos < 0 || pos >= s.len() || s[pos] == stop {
        0
    } else {
        1 + len_until(s, pos + 1, stop)
    }
}

/// What the part `token` of a pattern takes from `phrase` at `pos`: the value
/// it yields, if it is a slot, and where the rest of the phrase begins.
/// `None` if the phrase does not fit there.
pub open spec fn taken(token: TokenView, phrase: Seq<char>, pos: int) -> Option<
    (Option<CaptureView>, int),
> {
    match token {
        TokenView::Literal(text) => if 0 <= pos && pos + text.len() <= phrase.len()
            && phrase.subrange(pos, pos + text.len()) == text {
            Some((None, pos + text.len()))
        } else {
            None
        },
        TokenView::Slot(SlotKind::Word) => {
            let n = word_len(phrase, pos);
            if n > 0 {
                Some((Some(CaptureView::Word(phrase.subrange(pos, pos + n))), pos + n))
            } else {
                None
            }
        },
        TokenView::Slot(SlotKind::Int) => {
            let n = digits_len(phrase, pos);
            if n > 0 && number(phrase.subrange(pos, pos + n)) <= u64::MAX {
                Some(
                    (
                        Some(CaptureView::Int(number(phrase.subrange(pos, pos + n)) as u64)),
                        pos + n,
                    ),
                )
            } else {
                None
            }
        },
        TokenView::Slot(SlotKind::Text) => if 0 <= pos < phrase.len() && (phrase[pos] == '"'
            || phrase[pos] == '\'') {
            let n = len_until(phrase, pos + 1, phrase[pos]);
            if pos + 1 + n < phrase.len() {
                Some(
                    (
                        Some(CaptureView::Text(phrase.subrange(pos + 1, pos + 1 + n))),
                        pos + n + 2,
                    ),
                )
            } else {
                None
            }
        } else {
            None
        },
    }
}

/// `values` before the values in `rest`, if there are any.
pub open spec fn before<A>(values: Seq<A>, rest: Option<Seq<A>>) -> Option<Seq<A>> {
    match rest {
        Some(more) => Some(values + more),
        None => None,
    }
}

/// Putting two runs of values before the rest is putting their
/// concatenation before it.
pub proof fn lemma_before_twice<A>(first: Seq<A>, second: Seq<A>, rest: Option<Seq<A>>)
    ensures
        before(first, before(second, rest)) == before(first + second, rest),
{
    match rest {
        Some(more) => {
            assert(first + (second + more) =~= (first + second) + more);
        },
        None => {},
    }
}

/// The value that a part of a pattern has yielded, as a sequence.
pub open spec fn yielded(capture: Option<CaptureView>) -> Seq<CaptureView> {
    match capture {
        Some(c) => seq![c],
        None => Seq::empty(),
    }
}

/// The values that `phrase` holds at the slots of `tokens`, if it fits them
/// from `pos` to its end; `None` if it does not.
pub open spec fn matched(tokens: Seq<TokenView>, phrase: Seq<char>, pos: int) -> Option<
    Seq<CaptureView>,
>
    decreases tokens.len(),
{
    if tokens.len() == 0 {
        if pos == phrase.len() {
            Some(Seq::empty())
        } else {
            None
        }
    } else {
        match taken(tokens[0], phrase, pos) {
            Some((capture, next)) => before(
                yielded(capture),
                matched(tokens.drop_first(), phrase, next),
            ),
            None => None,
        }
    }
}

fn blank(c: char) -> (b: bool)
    ensures
        b == is_blank(c),
{
    c == ' ' || c == '\t' || c == '\n' || c == '\r'
}

fn digit(c: char) -> (d: Option<u64>)
    ensures
        match d {
            Some(v) => digit_value(c) == Some(v as nat) && v < 10,
            None => digit_value(c) is None,
        },
{
    if c == '0' {
        Some(0)
    } else if c == '1' {
        Some(1)
    } else if c == '2' {
        Some(2)
    } else if c == '3' {
        Some(3)
    } else if c == '4' {
        Some(4)
    } else if c == '5' {
        Some(5)
    } else if c == '6' {
        Some(6)
    } else if c == '7' {
        Some(7)
    } else if c == '8' {
        Some(8)
    } else if c == '9' {
        Some(9)
    } else {
        None
    }
}

/// Where the word that begins at `pos` ends.
fn word_end(s: &Vec<char>, pos: usize) -> (end: usize)
    requires
        pos <= s.len(),
    ensures
        pos <= end <= s.len(),
        end - pos == word_len(s@, pos as int),
{
    let mut end = pos;
    while end < s.len() && !blank(s[end])
        invariant
            pos <= end <= s.len(),
            word_len(s@, pos as int) == (end - pos) + word_len(s@, end as int),
        decreases s.len() - end,
    {
        end += 1;
    }
    end
}

/// Where the characters before the first `stop` from `pos` on end.
fn end_until(s: &Vec<char>, pos: usize, stop: char) -> (end: usize)
    requires
        pos <= s.len(),
    ensures
        pos <= end <= s.len(),
        end - pos == len_until(s@, pos as int, stop),
{
    let mut end = pos;
    while end < s.len() && s[end] != stop
        invariant
            pos <= end <= s.len(),
            len_until(s@, pos as int, stop) == (end - pos) + len_until(s@, end as int, stop),
        decreases s.len() - end,
    {
        end += 1;
    }
    end
}

/// The digits from `pos` on: where they end, and the number they write if it fits.
fn read_number(s: &Vec<char>, pos: usize) -> (r: (usize, Option<u64>))
    requires
        pos <= s.len(),
    ensures
        pos <= r.0 <= s.len(),
        r.0 - pos == digits_len(s@, pos as int),
        match r.1 {
            Some(v) => v == number(s@.subrange(pos as int, r.0 as int)),
            None => number(s@.subrange(pos as int, r.0 as int)) > u64::MAX,
        },
{
    let mut end = pos;
    let mut value: Option<u64> = Some(0);
    assert(s@.subrange(pos as int, pos as int) =~= Seq::<char>::empty());
    loop
        invariant
            pos <= end <= s.len(),
            digits_len(s@, pos as int) == (end - pos) + digits_len(s@, end as int),
            match value {
                Some(v) => v == number(s@.subrange(pos as int, end as int)),
                None => number(s@.subrange(pos as int, end as int)) > u64::MAX,
            },
        ensures
            pos <= end <= s.len(),
            end - pos == digits_len(s@, pos as int),
            match value {
                Some(v) => v == number(s@.subrange(pos as int, end as int)),
                None => number(s@.subrange(pos as int, end as int)) > u64::MAX,
            },
        decreases s.len() - end,
    {
        if end >= s.len() {
            break;
        }
        let d = match digit(s[end]) {
            Some(d) => d,
            None => {
                break;
            },
        };
        proof {
            let next = s@.subrange(pos as int, end + 1);
            assert(next.drop_last() =~= s@.subrange(pos as int, end as int));
            assert(next.last() == s@[end as int]);
        }
        value = match value {
            Some(v) => if v <= (u64::MAX - d) / 10 {
                Some(v * 10 + d)
            } else {
                None
            },
            None => None,
        };
        end += 1;
    }
    (end, value)
}

/// Whether `phrase` holds the text `text` at `pos`.
fn holds_at(phrase: &Vec<char>, pos: usize, text: &Vec<char>) -> (yes: bool)
    requires
        pos <= phrase.len(),
    ensures
        yes == (pos + text.len() <= phrase.len() && phrase@.subrange(
            pos as int,
            pos + text.len(),
        ) == text@),
{
    if text.len() > phrase.len() - pos {
        return false;
    }
    let mut i: usize = 0;
    while i < text.len()
        invariant
            i <= text.len(),
            pos + text.len() <= phrase.len(),
            forall|j: int| 0 <= j < i ==> phrase[pos + j] == text[j],
        decreases text.len() - i,
    {
        if phrase[pos + i] != text[i] {
            assert(phrase@.subrange(pos as int, pos + text.len())[i as int] != text@[i as int]);
            return false;
        }
        i += 1;
    }
    assert(phrase@.subrange(pos as int, pos + text.len()) =~= text@);
    true
}

/// What `token` takes from `phrase` at `pos`.
fn take(token: &Token, phrase: &Vec<char>, pos: usize) -> (r: Option<(Option<Capture>, usize)>)
    requires
        pos <= phrase.len(),
    ensures
        match r {
            Some((capture, next)) => next <= phrase.len() && taken(token@, phrase@, pos as int)
                == Some(
                (
                    match capture {
                        Some(c) => Some(c@),
                        None => None,
                    },
                    next as int,
                ),
            ),
            None => taken(token@, phrase@, pos as int) is None,
        },
{
    match token {
        Token::Literal(text) => {
            if holds_at(phrase, pos, text) {
                Some((None, pos + text.len()))
            } else {
                None
            }
        },
        Token::Slot(SlotKind::Word) => {
            let end = word_end(phrase, pos);
            if end > pos {
                Some((Some(Capture::Word(string_of(phrase, pos, end))), end))
            } else {
                None
            }
        },
        Token::Slot(SlotKind::Int) => {
            let (end, value) = read_number(phrase, pos);
            if end > pos {
                match value {
                    Some(v) => Some((Some(Capture::Int(v)), end)),
                    None => None,
                }
            } else {
                None
            }
        },
        Token::Slot(SlotKind::Text) => {
            if pos < phrase.len() && (phrase[pos] == '"' || phrase[pos] == '\'') {
                let end = end_until(phrase, pos + 1, phrase[pos]);
                if end < phrase.len() {
                    Some((Some(Capture::Text(string_of(phrase, pos + 1, end))), end + 1))
                } else {
                    None
                }
            } else {
                None
            }
        },
    }
}

/// The kind of slot that is written with the name `name`.
pub open spec fn slot_named(name: Seq<char>) -> Option<SlotKind> {
    if name == "word"@ {
        Some(SlotKind::Word)
    } else if name == "int"@ {
        Some(SlotKind::Int)
    } else if name == "string"@ {
        Some(SlotKind::Text)
    } else {
        None
    }
}

/// The parts of the pattern that `text` writes from `pos` on: a slot is the
/// name of its kind in braces, all else is literal text. `None` if a brace is
/// not closed or a name stands for no kind.
pub open spec fn parsed(text: Seq<char>, pos: int) -> Option<Seq<TokenView>>
    decreases text.len() - pos,
{
    if pos < 0 || pos >= text.len() {
        Some(Seq::empty())
    } else if text[pos] == '{' {
        let close = pos + 1 + len_until(text, pos + 1, '}');
        if close >= text.len() {
            None
        } else {
            match slot_named(text.subrange(pos + 1, close)) {
                Some(kind) => before(seq![TokenView::Slot(kind)], parsed(text, close + 1)),
                None => None,
            }
        }
    } else {
        let end = pos + 1 + len_until(text, pos + 1, '{');
        if end > text.len() {
            None
        } else {
            before(seq![TokenView::Literal(text.subrange(pos, end))], parsed(text, end))
        }
    }
}

/// The parts `tokens` as the contracts see them.
pub open spec fn token_views(tokens: Seq<Token>) -> Seq<TokenView> {
    Seq::new(tokens.len(), |i: int| tokens[i]@)
}

/// The values `captures` as the contracts see them.
pub open spec fn capture_views(captures: Seq<Capture>) -> Seq<CaptureView> {
    Seq::new(captures.len(), |i: int| captures[i]@)
}

/// A pattern: the text it was written as, and its parts.
#[derive(Debug)]
pub struct Pattern {
    source: String,
    tokens: Vec<Token>,
}

impl View for Pattern {
    type V = Seq<TokenView>;

    closed spec fn view(&self) -> Seq<TokenView> {
        token_views(self.tokens@)
    }
}

fn slot_kind(name: &str) -> (r: Option<SlotKind>)
    ensures
        r == slot_named(name@),
{
    if same_text(name, "word") {
        Some(SlotKind::Word)
    } else if same_text(name, "int") {
        Some(SlotKind::Int)
    } else if same_text(name, "string") {
        Some(SlotKind::Text)
    } else {
        None
    }
}

fn copy_range(v: &Vec<char>, from: usize, to: usize) -> (out: Vec<char>)
    requires
        from <= to <= v.len(),
    ensures
        out@ == v@.subrange(from as int, to as int),
{
    let mut out: Vec<char> = Vec::new();
    let mut i: usize = from;
    while i < to
        invariant
            from <= i <= to <= v.len(),
            out@ == v@.subrange(from as int, i as int),
        decreases to - i,
    {
        out.push(v[i]);
        i += 1;
    }
    out
}

impl Pattern {
    /// The text that the pattern was written as.
    pub closed spec fn source(&self) -> Seq<char> {
        self.source@
    }

    /// The pattern that `text` writes; `None` if it writes none.
    pub fn compile(text: &str) -> (r: Option<Pattern>)
        ensures
            match r {
                Some(pattern) => parsed(text@, 0) == Some(pattern@) && pattern.source() == text@,
                None => parsed(text@, 0) is None,
            },
    {
        let chars = chars_of(text);
        let mut tokens: Vec<Token> = Vec::new();
        let mut pos: usize = 0;
        assert(token_views(tokens@) =~= Seq::<TokenView>::empty());
        while pos < chars.len()
            invariant
                pos <= chars.len(),
                chars@ == text@,
                parsed(chars@, 0) == before(token_views(tokens@), parsed(chars@, pos as int)),
            decreases chars.len() - pos,
        {
            let ghost done = token_views(tokens@);
            if chars[pos] == '{' {
                let close = end_until(&chars, pos + 1, '}');
                if close >= chars.len() {
                    return None;
                }
                let name = string_of(&chars, pos + 1, close);
                match slot_kind(name.as_str()) {
                    Some(kind) => {
                        tokens.push(Token::Slot(kind));
                        assert(token_views(tokens@) =~= done + seq![TokenView::Slot(kind)]);
                        proof {
                            lemma_before_twice(
                                done,
                                seq![TokenView::Slot(kind)],
                                parsed(chars@, close + 1),
                            );
                        }
                        pos = close + 1;
                    },
                    None => {
                        return None;
                    },
                }
            } else {
                let end = end_until(&chars, pos + 1, '{');
                let literal = copy_range(&chars, pos, end);
                let ghost part = TokenView::Literal(chars@.subrange(pos as int, end as int));
                tokens.push(Token::Literal(literal));
                assert(token_views(tokens@) =~= done + seq![part]);
                proof {
                    lemma_before_twice(done, seq![part], parsed(chars@, end as int));
                }
                pos = end;
            }
        }
        assert(token_views(tokens@) + Seq::<TokenView>::empty() =~= token_views(tokens@));
        Some(Pattern { source: text.to_owned(), tokens })
    }

    /// The values that `phrase` holds at the slots of this pattern; `None` if
    /// the phrase does not fit the pattern from its first character to its last.
    pub fn match_phrase(&self, phrase: &str) -> (r: Option<Vec<Capture>>)
        ensures
            match r {
                Some(captures) => matched(self@, phrase@, 0) == Some(capture_views(captures@)),
                None => matched(self@, phrase@, 0) is None,
            },
    {
        let chars = chars_of(phrase);
        let mut captures: Vec<Capture> = Vec::new();
        let mut pos: usize = 0;
        let mut i: usize = 0;
        let ghost tokens = token_views(self.tokens@);
        assert(capture_views(captures@) =~= Seq::<CaptureView>::empty());
        assert(tokens.skip(0) =~= tokens);
        while i < self.tokens.len()
            invariant
                i <= self.tokens.len(),
                pos <= chars.len(),
                chars@ == phrase@,
                tokens == token_views(self.tokens@),
                matched(tokens, chars@, 0) == before(
                    capture_views(captures@),
                    matched(tokens.skip(i as int), chars@, pos as int),
                ),
            decreases self.tokens.len() - i,
        {
            let ghost done = capture_views(captures@);
            proof {
                assert(tokens.skip(i as int)[0] == self.tokens[i as int]@);
                assert(tokens.skip(i as int).drop_first() =~= tokens.skip(i + 1));
            }
            match take(&self.tokens[i], &chars, pos) {
                Some((capture, next)) => {
                    let ghost rest = matched(tokens.skip(i + 1), chars@, next as int);
                    match capture {
                        Some(c) => {
                            let ghost cv = c@;
                            captures.push(c);
                            assert(capture_views(captures@) =~= done + seq![cv]);
                            proof {
                                lemma_before_twice(done, seq![cv], rest);
                            }
                        },
                        None => {
                            proof {
                                lemma_before_twice(done, Seq::<CaptureView>::empty(), rest);
                                assert(done + Seq::<CaptureView>::empty() =~= done);
                            }
                        },
                    }
                    pos = next;
                },
                None => {
                    return None;
                },
            }
            i += 1;
        }
        assert(tokens.skip(self.tokens.len() as int) =~= Seq::<TokenView>::empty());
        if pos == chars.len() {
            assert(capture_views(captures@) + Seq::<CaptureView>::empty() =~= capture_views(
                captures@,
            ));
            Some(captures)
        } else {
            None
        }
    }
}

/// The kinds of the slots of `tokens`, in their order.
pub open spec fn slots(tokens: Seq<TokenView>) -> Seq<SlotKind>
    decreases tokens.len(),
{
    if tokens.len() == 0 {
        Seq::empty()
    } else {
        match tokens[0] {
            TokenView::Slot(kind) => seq![kind] + slots(tokens.drop_first()),
            TokenView::Literal(_) => slots(tokens.drop_first()),
        }
    }
}

/// Whether `capture` is a value that a slot of kind `kind` can yield: a word
/// is not empty and holds no blank, a number is a number, a text is a text.
pub open spec fn fits(capture: CaptureView, kind: SlotKind) -> bool {
    match (capture, kind) {
        (CaptureView::Word(word), SlotKind::Word) => word.len() > 0 && forall|i: int|
            0 <= i < word.len() ==> !is_blank(word[i]),
        (CaptureView::Int(_), SlotKind::Int) => true,
        (CaptureView::Text(_), SlotKind::Text) => true,
        _ => false,
    }
}

proof fn lemma_word_has_no_blank(s: Seq<char>, pos: int, i: int)
    requires
        0 <= pos,
        pos <= i < pos + word_len(s, pos),
    ensures
        i < s.len(),
        !is_blank(s[i]),
    decreases i - pos,
{
    if i > pos {
        lemma_word_has_no_blank(s, pos + 1, i);
    }
}

/// A phrase that fits a pattern yields one value for each slot of the
/// pattern, in the order of the slots, and each value is one that its slot
/// can yield.
pub proof fn law_captures_fit_slots(tokens: Seq<TokenView>, phrase: Seq<char>, pos: int)
    requires
        0 <= pos,
        matched(tokens, phrase, pos) is Some,
    ensures
        matched(tokens, phrase, pos)->0.len() == slots(tokens).len(),
        forall|i: int|
            0 <= i < slots(tokens).len() ==> fits(
                #[trigger] matched(tokens, phrase, pos)->0[i],
                slots(tokens)[i],
            ),
    decreases tokens.len(),
{
    if tokens.len() > 0 {
        let (capture, next) = taken(tokens[0], phrase, pos)->0;
        law_captures_fit_slots(tokens.drop_first(), phrase, next);
        let rest = matched(tokens.drop_first(), phrase, next)->0;
        let all = matched(tokens, phrase, pos)->0;
        assert(all == yielded(capture) + rest);
        match tokens[0] {
            TokenView::Literal(_) => {
                assert(all =~= rest);
            },
            TokenView::Slot(kind) => {
                assert(all[0] == capture->0);
                if kind == SlotKind::Word {
                    let word = phrase.subrange(pos, pos + word_len(phrase, pos));
                    assert forall|i: int| 0 <= i < word.len() implies !is_blank(word[i]) by {
                        lemma_word_has_no_blank(phrase, pos, pos + i);
                    }
                }
                assert(fits(all[0], kind));
                assert forall|i: int| 0 <= i < slots(tokens).len() implies fits(
                    #[trigger] all[i],
                    slots(tokens)[i],
                ) by {
                    if i > 0 {
                        assert(all[i] == rest[i - 1]);
                        assert(slots(tokens)[i] == slots(tokens.drop_first())[i - 1]);
                    }
                }
            },
        }
    }
}

/// What a phrase has been resolved to: the place in the table of the
/// pattern it fits, the handler that is registered for the pattern, and the
/// values that the phrase holds at the slots.
#[derive(Debug, PartialEq, Eq)]
pub struct Resolved {
    pub place: usize,
    pub handler: usize,
    pub captures: Vec<Capture>,
}

/// The patterns of the steps, each with the handler that carries the step
/// out. A phrase goes to the first pattern that it fits.
pub struct StepTable {
    patterns: Vec<Pattern>,
    handlers: Vec<usize>,
}

impl StepTable {
    /// The texts that the patterns were written as, in the order of registration.
    pub closed spec fn sources(&self) -> Seq<Seq<char>> {
        Seq::new(self.patterns.len() as nat, |i: int| self.patterns[i].source())
    }

    /// The patterns, in the order of registration.
    pub closed spec fn patterns(&self) -> Seq<Seq<TokenView>> {
        Seq::new(self.patterns.len() as nat, |i: int| self.patterns[i]@)
    }

    /// The handlers, each at the place of its pattern.
    pub closed spec fn handlers(&self) -> Seq<usize> {
        self.handlers@
    }

    /// Every pattern has a handler, is what its text writes, and no text
    /// is registered twice.
    pub closed spec fn wf(&self) -> bool {
        &&& self.patterns.len() == self.handlers.len()
        &&& forall|i: int|
            0 <= i < self.patterns.len() ==> parsed((#[trigger] self.patterns[i]).source(), 0)
                == Some(self.patterns[i]@)
        &&& forall|i: int, j: int|
            0 <= i < j < self.patterns.len() ==> self.patterns[i].source()
                != self.patterns[j].source()
    }

    /// In a sound table there are as many texts, patterns and handlers, each
    /// pattern is what its text writes, and no text occurs twice.
    pub proof fn lemma_wf(&self)
        requires
            self.wf(),
        ensures
            self.sources().len() == self.patterns().len() == self.handlers().len(),
            self.sources().no_duplicates(),
            forall|i: int|
                0 <= i < self.sources().len() ==> parsed(#[trigger] self.sources()[i], 0) == Some(
                    self.patterns()[i],
                ),
    {
        assert forall|i: int| 0 <= i < self.sources().len() implies parsed(
            #[trigger] self.sources()[i],
            0,
        ) == Some(self.patterns()[i]) by {
            assert(parsed(self.patterns[i].source(), 0) == Some(self.patterns[i]@));
        }
    }

    /// A table without patterns.
    pub fn new() -> (t: StepTable)
        ensures
            t.wf(),
            t.sources() == Seq::<Seq<char>>::empty(),
            t.patterns() == Seq::<Seq<TokenView>>::empty(),
            t.handlers() == Seq::<usize>::empty(),
    {
        let t = StepTable { patterns: Vec::new(), handlers: Vec::new() };
        assert(t.sources() =~= Seq::<Seq<char>>::empty());
        assert(t.patterns() =~= Seq::<Seq<TokenView>>::empty());
        t
    }

    /// How many patterns are registered.
    pub fn len(&self) -> (n: usize)
        ensures
            n == self.sources().len(),
    {
        self.patterns.len()
    }

    /// Registers `handler` for the pattern that `pattern` writes, and says
    /// whether it writes one. A pattern that is registered already keeps its
    /// place and gets the handler: registering the same pair again changes nothing.
    pub fn register(&mut self, pattern: &str, handler: usize) -> (ok: bool)
        requires
            old(self).wf(),
        ensures
            final(self).wf(),
            ok == parsed(pattern@, 0) is Some,
            if !ok {
                *final(self) == *old(self)
            } else if old(self).sources().contains(pattern@) {
                &&& final(self).sources() == old(self).sources()
                &&& final(self).patterns() == old(self).patterns()
                &&& final(self).handlers() == old(self).handlers().update(
                    old(self).sources().index_of(pattern@),
                    handler,
                )
            } else {
                &&& final(self).sources() == old(self).sources().push(pattern@)
                &&& final(self).patterns() == old(self).patterns().push(parsed(pattern@, 0)->0)
                &&& final(self).handlers() == old(self).handlers().push(handler)
            },
    {
        let compiled = match Pattern::compile(pattern) {
            Some(p) => p,
            None => {
                return false;
            },
        };
        proof {
            self.lemma_wf();
        }
        let mut i: usize = 0;
        while i < self.patterns.len()
            invariant
                i <= self.patterns.len(),
                *self == *old(self),
                self.wf(),
                forall|j: int| 0 <= j < i ==> self.patterns[j].source() != pattern@,
            decreases self.patterns.len() - i,
        {
            if same_text(self.patterns[i].source.as_str(), pattern) {
                proof {
                    assert(self.sources()[i as int] == pattern@);
                    assert(self.sources().contains(pattern@));
                    let k = self.sources().index_of(pattern@);
                    assert(self.sources()[k] == pattern@);
                    assert(k == i);
                }
                self.handlers.set(i, handler);
                assert(self.sources() =~= old(self).sources());
                assert(self.patterns() =~= old(self).patterns());
                return true;
            }
            i += 1;
        }
        proof {
            if self.sources().contains(pattern@) {
                let k = self.sources().index_of(pattern@);
                assert(self.sources()[k] == pattern@);
                assert(self.patterns[k].source() == pattern@);
            }
        }
        self.patterns.push(compiled);
        self.handlers.push(handler);
        assert(self.sources() =~= old(self).sources().push(pattern@));
        assert(self.patterns() =~= old(self).patterns().push(parsed(pattern@, 0)->0));
        true
    }

    /// The first pattern that `phrase` fits, with its handler and the values
    /// of its slots; `None` if the phrase fits no pattern.
    pub fn resolve(&self, phrase: &str) -> (r: Option<Resolved>)
        requires
            self.wf(),
        ensures
            match r {
                Some(found) => {
                    &&& found.place < self.patterns().len()
                    &&& matched(self.patterns()[found.place as int], phrase@, 0) == Some(
                        capture_views(found.captures@),
                    )
                    &&& forall|j: int|
                        0 <= j < found.place ==> matched(
                            #[trigger] self.patterns()[j],
                            phrase@,
                            0,
                        ) is None
                    &&& found.handler == self.handlers()[found.place as int]
                },
                None => forall|j: int|
                    0 <= j < self.patterns().len() ==> matched(
                        #[trigger] self.patterns()[j],
                        phrase@,
                        0,
                    ) is None,
            },
    {
        let mut i: usize = 0;
        while i < self.patterns.len()
            invariant
                i <= self.patterns.len(),
                self.wf(),
                forall|j: int|
                    0 <= j < i ==> matched(#[trigger] self.patterns()[j], phrase@, 0) is None,
            decreases self.patterns.len() - i,
        {
            match self.patterns[i].match_phrase(phrase) {
                Some(captures) => {
                    assert(self.patterns()[i as int] == self.patterns[i as int]@);
                    return Some(Resolved { place: i, handler: self.handlers[i], captures });
                },
                None => {
                    assert(self.patterns()[i as int] == self.patterns[i as int]@);
                },
            }
            i += 1;
        }
        None
    }
}

} // verus!
