//! Styled text for a terminal.
use crate::text::texts;
use crossterm::style::Stylize;
use vstd::prelude::*;
use vstd::string::StringExecFns;

verus! {

/// The styles that are used.
#[derive(Debug, PartialEq, Eq, Clone, Copy, Structural)]
pub enum Paint {
    Grey,
    Cyan,
    Magenta,
    DarkRed,
    DarkGreen,
    BoldDarkRed,
    BoldDarkGreen,
    BoldDarkYellow,
}

/// How a colour is written to a terminal.
pub ghost enum Ink {
    /// With the colour.
    Colored,
    /// With the sequence that would set the colour, but without the colour.
    Uncolored,
    /// Not at all: the console takes no sequences.
    Silent,
}

/// The number of a style's colour among the 256 of a terminal.
pub open spec fn color_number(paint: Paint) -> Seq<char> {
    match paint {
        Paint::Grey => "7"@,
        Paint::Cyan => "14"@,
        Paint::Magenta => "13"@,
        Paint::DarkRed => "1"@,
        Paint::DarkGreen => "2"@,
        Paint::BoldDarkRed => "1"@,
        Paint::BoldDarkGreen => "2"@,
        Paint::BoldDarkYellow => "3"@,
    }
}

/// Whether a style is bold.
pub open spec fn is_bold(paint: Paint) -> bool {
    paint is BoldDarkRed || paint is BoldDarkGreen || paint is BoldDarkYellow
}

/// The sequence that sets the colour of a style.
pub open spec fn color_set(paint: Paint, ink: Ink) -> Seq<char> {
    match ink {
        Ink::Colored => "\u{1b}[38;5;"@ + color_number(paint) + "m"@,
        Ink::Uncolored => "\u{1b}[m"@,
        Ink::Silent => seq![],
    }
}

/// The sequence that takes a colour back.
pub open spec fn color_reset(ink: Ink) -> Seq<char> {
    match ink {
        Ink::Colored => "\u{1b}[39m"@,
        Ink::Uncolored => "\u{1b}[m"@,
        Ink::Silent => seq![],
    }
}

/// A styled text as it is written: the colour is set and, where the style is bold, that too; then
/// comes the text; then what was set is taken back, all at once where the style is bold. A console
/// that takes no sequences gets nothing.
pub open spec fn painted(paint: Paint, text: Seq<char>, set: Ink, reset: Ink) -> Seq<char> {
    if set is Silent {
        seq![]
    } else if is_bold(paint) {
        color_set(paint, set) + "\u{1b}[1m"@ + text + "\u{1b}[0m"@
    } else {
        color_set(paint, set) + text + color_reset(reset)
    }
}

/// What a style writes before a text and behind it does not depend on the text, which is written in
/// full between them.
pub proof fn law_painted(paint: Paint, text: Seq<char>, set: Ink, reset: Ink) -> (n: int)
    requires
        !(set is Silent),
    ensures
        0 <= n <= painted(paint, seq![], set, reset).len(),
        painted(paint, text, set, reset) == painted(paint, seq![], set, reset).take(n) + text
            + painted(paint, seq![], set, reset).skip(n),
{
    let start = if is_bold(paint) {
        color_set(paint, set) + "\u{1b}[1m"@
    } else {
        color_set(paint, set)
    };
    let end = if is_bold(paint) {
        "\u{1b}[0m"@
    } else {
        color_reset(reset)
    };
    let empty = painted(paint, seq![], set, reset);
    let n = start.len() as int;
    assert(empty == start + end);
    assert(empty.take(n) == start);
    assert(empty.skip(n) == end);
    n
}

/// Whether `written` is a text in a style. Whether colours are written may change between the start
/// of the text and its end; whether the console takes sequences does not.
pub open spec fn is_painted(paint: Paint, text: Seq<char>, written: Seq<char>) -> bool {
    exists|set: Ink, reset: Ink|
        (set is Silent <==> reset is Silent) && written == #[trigger] painted(
            paint,
            text,
            set,
            reset,
        )
}

/// `Stylize::grey` of `crossterm`, shown: the text between the sequences that set the colour and
/// take it back, and nothing on a console that takes no sequences. Whether the colour is written is
/// asked of a flag of the process when it is set, and again when it is taken back.
#[verifier::external_body]
fn grey(text: &str) -> (r: String)
    ensures
        is_painted(Paint::Grey, text@, r@),
{
    text.grey().to_string()
}

/// `Stylize::cyan` of `crossterm`, shown: the text between the sequences that set the colour and
/// take it back, and nothing on a console that takes no sequences. Whether the colour is written is
/// asked of a flag of the process when it is set, and again when it is taken back.
#[verifier::external_body]
fn cyan(text: &str) -> (r: String)
    ensures
        is_painted(Paint::Cyan, text@, r@),
{
    text.cyan().to_string()
}

/// `Stylize::magenta` of `crossterm`, shown: the text between the sequences that set the colour and
/// take it back, and nothing on a console that takes no sequences. Whether the colour is written is
/// asked of a flag of the process when it is set, and again when it is taken back.
#[verifier::external_body]
fn magenta(text: &str) -> (r: String)
    ensures
        is_painted(Paint::Magenta, text@, r@),
{
    text.magenta().to_string()
}

/// `Stylize::dark_red` of `crossterm`, shown: the text between the sequences that set the colour and
/// take it back, and nothing on a console that takes no sequences. Whether the colour is written is
/// asked of a flag of the process when it is set, and again when it is taken back.
#[verifier::external_body]
fn dark_red(text: &str) -> (r: String)
    ensures
        is_painted(Paint::DarkRed, text@, r@),
{
    text.dark_red().to_string()
}

/// `Stylize::dark_green` of `crossterm`, shown: the text between the sequences that set the colour and
/// take it back, and nothing on a console that takes no sequences. Whether the colour is written is
/// asked of a flag of the process when it is set, and again when it is taken back.
#[verifier::external_body]
fn dark_green(text: &str) -> (r: String)
    ensures
        is_painted(Paint::DarkGreen, text@, r@),
{
    text.dark_green().to_string()
}

/// `Stylize::dark_red` and `Stylize::bold` of `crossterm`, shown: the text between the sequences that
/// set the colour and bold type and the one that takes all back, and nothing on a console that takes
/// no sequences. Whether the colour is written is asked of a flag of the process.
#[verifier::external_body]
fn bold_dark_red(text: &str) -> (r: String)
    ensures
        is_painted(Paint::BoldDarkRed, text@, r@),
{
    text.dark_red().bold().to_string()
}

/// `Stylize::dark_green` and `Stylize::bold` of `crossterm`, shown: the text between the sequences that
/// set the colour and bold type and the one that takes all back, and nothing on a console that takes
/// no sequences. Whether the colour is written is asked of a flag of the process.
#[verifier::external_body]
fn bold_dark_green(text: &str) -> (r: String)
    ensures
        is_painted(Paint::BoldDarkGreen, text@, r@),
{
    text.dark_green().bold().to_string()
}

/// `Stylize::dark_yellow` and `Stylize::bold` of `crossterm`, shown: the text between the sequences
/// that set the colour and bold type and the one that takes all back, and nothing on a console that
/// takes no sequences. Whether the colour is written is asked of a flag of the process.
#[verifier::external_body]
fn bold_dark_yellow(text: &str) -> (r: String)
    ensures
        is_painted(Paint::BoldDarkYellow, text@, r@),
{
    text.dark_yellow().bold().to_string()
}

/// A text in a style, as the terminal takes it.
pub fn paint(text: &str, style: Paint) -> (r: String)
    ensures
        is_painted(style, text@, r@),
{
    match style {
        Paint::Grey => grey(text),
        Paint::Cyan => cyan(text),
        Paint::Magenta => magenta(text),
        Paint::DarkRed => dark_red(text),
        Paint::DarkGreen => dark_green(text),
        Paint::BoldDarkRed => bold_dark_red(text),
        Paint::BoldDarkGreen => bold_dark_green(text),
        Paint::BoldDarkYellow => bold_dark_yellow(text),
    }
}

/// A piece of text, styled or plain.
#[derive(Debug, PartialEq, Eq)]
pub struct Span {
    pub paint: Option<Paint>,
    pub text: String,
}

impl View for Span {
    type V = (Option<Paint>, Seq<char>);

    open spec fn view(&self) -> (Option<Paint>, Seq<char>) {
        (self.paint, self.text@)
    }
}

/// What the spans of a sequence hold.
pub open spec fn span_views(spans: Seq<Span>) -> Seq<(Option<Paint>, Seq<char>)> {
    spans.map_values(|s: Span| s@)
}

/// A plain piece of text.
pub open spec fn plain(text: Seq<char>) -> (Option<Paint>, Seq<char>) {
    (None, text)
}

/// A styled piece of text.
pub open spec fn styled(paint: Paint, text: Seq<char>) -> (Option<Paint>, Seq<char>) {
    (Some(paint), text)
}

/// Whether `written` is what becomes of a span: a plain one is its text, and a styled one is its
/// text in that style.
pub open spec fn is_written(span: (Option<Paint>, Seq<char>), written: Seq<char>) -> bool {
    match span.0 {
        Some(paint) => is_painted(paint, span.1, written),
        None => written == span.1,
    }
}

/// Whether `written` is what becomes of spans, one for one.
pub open spec fn are_written(
    spans: Seq<(Option<Paint>, Seq<char>)>,
    written: Seq<Seq<char>>,
) -> bool {
    &&& written.len() == spans.len()
    &&& forall|i: int| 0 <= i < spans.len() ==> is_written(#[trigger] spans[i], written[i])
}

/// What becomes of spans, one for one.
pub fn pieces(spans: &Vec<Span>) -> (r: Vec<String>)
    ensures
        are_written(span_views(spans@), texts(r@)),
        r@.len() == spans@.len(),
        forall|i: int|
            0 <= i < r@.len() && spans@[i].paint is None ==> (#[trigger] r@[i])@ == spans@[i].text@,
        forall|i: int|
            0 <= i < r@.len() && spans@[i].paint is Some ==> is_painted(
                spans@[i].paint->0,
                spans@[i].text@,
                (#[trigger] r@[i])@,
            ),
{
    let mut pieces: Vec<String> = Vec::new();
    let mut i: usize = 0;
    while i < spans.len()
        invariant
            i <= spans@.len(),
            are_written(span_views(spans@).take(i as int), texts(pieces@)),
        decreases spans@.len() - i,
    {
        let span = &spans[i];
        let piece = match span.paint {
            Some(style) => paint(span.text.as_str(), style),
            None => span.text.as_str().to_owned(),
        };
        let ghost written = texts(pieces@);
        pieces.push(piece);
        proof {
            let views = span_views(spans@);
            assert(texts(pieces@) == written.push(piece@));
            assert forall|j: int| 0 <= j < i + 1 implies is_written(
                #[trigger] views.take(i + 1)[j],
                texts(pieces@)[j],
            ) by {
                if j < i {
                    assert(views.take(i as int)[j] == views[j]);
                }
            }
        }
        i += 1;
    }
    assert(span_views(spans@).take(i as int) == span_views(spans@));
    proof {
        assert forall|i: int| 0 <= i < pieces@.len() implies is_written(
            spans@[i]@,
            (#[trigger] pieces@[i])@,
        ) by {
            assert(span_views(spans@)[i] == spans@[i]@);
            assert(texts(pieces@)[i] == pieces@[i]@);
        }
    }
    pieces
}

/// Pieces of text put together, in order.
pub fn assemble(pieces: &Vec<String>) -> (r: String)
    ensures
        r@ == texts(pieces@).flatten(),
{
    let mut text: String = String::new();
    let mut i: usize = 0;
    while i < pieces.len()
        invariant
            i <= pieces@.len(),
            text@ == texts(pieces@).take(i as int).flatten(),
        decreases pieces@.len() - i,
    {
        proof {
            let all = texts(pieces@);
            assert(all.take(i + 1) == all.take(i as int).push(all[i as int]));
            all.take(i as int).lemma_flatten_push(all[i as int]);
        }
        text.append(pieces[i].as_str());
        i += 1;
    }
    assert(texts(pieces@).take(i as int) == texts(pieces@));
    text
}

/// Whether `written` is what becomes of spans, put together in order.
pub open spec fn is_rendered(spans: Seq<(Option<Paint>, Seq<char>)>, written: Seq<char>) -> bool {
    exists|pieces: Seq<Seq<char>>|
        #[trigger] are_written(spans, pieces) && written == pieces.flatten()
}

/// What is written of spans has one piece for each of them, in order, and nothing else: a plain span
/// is written as its text, and a styled one as its text in its style.
pub proof fn law_rendered(spans: Seq<(Option<Paint>, Seq<char>)>, written: Seq<char>) -> (pieces: Seq<
    Seq<char>,
>)
    requires
        is_rendered(spans, written),
    ensures
        written == pieces.flatten(),
        pieces.len() == spans.len(),
        forall|i: int|
            0 <= i < spans.len() && (#[trigger] spans[i]).0 is None ==> pieces[i] == spans[i].1,
        forall|i: int|
            0 <= i < spans.len() && (#[trigger] spans[i]).0 is Some ==> is_painted(
                spans[i].0->0,
                spans[i].1,
                pieces[i],
            ),
{
    let pieces = choose|pieces: Seq<Seq<char>>| #[trigger]
        are_written(spans, pieces) && written == pieces.flatten();
    assert forall|i: int| 0 <= i < spans.len() implies is_written(#[trigger] spans[i], pieces[i]) by {
    }
    pieces
}

/// Plain spans are written as their texts, one behind the other.
pub proof fn law_plain_rendered(spans: Seq<(Option<Paint>, Seq<char>)>, written: Seq<char>)
    requires
        is_rendered(spans, written),
        forall|i: int| 0 <= i < spans.len() ==> (#[trigger] spans[i]).0 is None,
    ensures
        written == spans.map_values(|s: (Option<Paint>, Seq<char>)| s.1).flatten(),
{
    let pieces = law_rendered(spans, written);
    assert(pieces =~= spans.map_values(|s: (Option<Paint>, Seq<char>)| s.1));
}

/// Spans as the terminal takes them, one after the other.
pub fn render(spans: &Vec<Span>) -> (r: String)
    ensures
        is_rendered(span_views(spans@), r@),
{
    let pieces = pieces(spans);
    assemble(&pieces)
}

} // verus!
