//! Output sinks. A sink collects what the shell prints as pieces of text,
//! each with the style it is to be shown in; the escape codes are only added
//! when the sink is rendered.

use vstd::prelude::*;

verus! {

/// How a piece of text is shown.
#[derive(Debug, Clone, Copy, PartialEq, Eq, Structural)]
pub enum Style {
    /// As it is.
    Plain,
    /// Bold red: the word that opens an error report.
    Alert,
    /// Yellow: the title of an error report.
    Title,
    /// Bold, in the terminal's own colours: a name that a message is about.
    Strong,
    /// The given red, green and blue as the foreground colour.
    Rgb(u8, u8, u8),
}

/// A piece of output: a style and the text shown in it.
pub type Piece = (Style, Seq<char>);

/// `text` in `style` as a terminal shows it while painting is enabled: the
/// text between the escape codes of the style.
pub uninterp spec fn ansi_painted(style: Style, text: Seq<char>) -> Seq<char>;

/// The pieces `pieces` shown one after the other, the piece at each position
/// with the escape codes of its style where `painted` says so and bare where
/// it does not. A plain piece is always bare.
pub open spec fn rendered(pieces: Seq<Piece>, painted: Seq<bool>) -> Seq<char>
    recommends
        painted.len() == pieces.len(),
    decreases pieces.len(),
{
    if pieces.len() == 0 {
        Seq::empty()
    } else {
        let (style, text) = pieces.last();
        rendered(pieces.drop_last(), painted.drop_last()) + if painted.last() && style
            != Style::Plain {
            ansi_painted(style, text)
        } else {
            text
        }
    }
}

/// `out` is the pieces `pieces` shown one after the other, each of them
/// either bare or with the escape codes of its style.
pub open spec fn is_rendering(pieces: Seq<Piece>, out: Seq<char>) -> bool {
    exists|painted: Seq<bool>|
        painted.len() == pieces.len() && out == #[trigger] rendered(pieces, painted)
}

/// The text of the pieces `pieces` without any styling.
pub open spec fn plain_text(pieces: Seq<Piece>) -> Seq<char>
    decreases pieces.len(),
{
    if pieces.len() == 0 {
        Seq::empty()
    } else {
        plain_text(pieces.drop_last()) + pieces.last().1
    }
}

/// With nothing painted, the pieces show as their unstyled text.
pub proof fn lemma_rendered_bare(pieces: Seq<Piece>)
    ensures
        rendered(pieces, Seq::new(pieces.len(), |i: int| false)) == plain_text(pieces),
        is_rendering(pieces, plain_text(pieces)),
    decreases pieces.len(),
{
    let bare = Seq::new(pieces.len(), |i: int| false);
    if pieces.len() != 0 {
        lemma_rendered_bare(pieces.drop_last());
        assert(bare.drop_last() == Seq::new(pieces.drop_last().len(), |i: int| false));
    }
    assert(rendered(pieces, bare) == plain_text(pieces));
}

/// `yansi::Paint::red` with `bold`, written out by `Display`. While painting
/// is disabled the result is the text itself; otherwise it is the text
/// between the escape codes for bold red.
#[verifier::external_body]
fn paint_alert(text: &str) -> (out: String)
    ensures
        out@ == text@ || out@ == ansi_painted(Style::Alert, text@),
{
    format!("{}", yansi::Paint::red(text).bold())
}

/// `yansi::Paint::yellow`, written out by `Display`. While painting is
/// disabled the result is the text itself; otherwise it is the text between
/// the escape codes for yellow.
#[verifier::external_body]
fn paint_title(text: &str) -> (out: String)
    ensures
        out@ == text@ || out@ == ansi_painted(Style::Title, text@),
{
    format!("{}", yansi::Paint::yellow(text))
}

/// `yansi::Paint::default` with `bold`, written out by `Display`. While
/// painting is disabled the result is the text itself; otherwise it is the
/// text between the escape codes for bold in the default colours.
#[verifier::external_body]
fn paint_strong(text: &str) -> (out: String)
    ensures
        out@ == text@ || out@ == ansi_painted(Style::Strong, text@),
{
    format!("{}", yansi::Paint::default(text).bold())
}

/// `yansi::Paint::rgb`, written out by `Display`. While painting is disabled
/// the result is the text itself; otherwise it is the text between the
/// escape codes for the foreground colour `r`, `g`, `b`.
#[verifier::external_body]
fn paint_rgb(r: u8, g: u8, b: u8, text: &str) -> (out: String)
    ensures
        out@ == text@ || out@ == ansi_painted(Style::Rgb(r, g, b), text@),
{
    format!("{}", yansi::Paint::rgb(r, g, b, text))
}

/// A piece of output as the sink holds it.
pub struct Span {
    pub style: Style,
    pub text: String,
}

impl View for Span {
    type V = Piece;

    open spec fn view(&self) -> Piece {
        (self.style, self.text@)
    }
}

impl Span {
    /// The piece `text` in `style`.
    pub fn new(style: Style, text: &str) -> (span: Span)
        ensures
            span@ == (style, text@),
    {
        Span { style, text: text.to_owned() }
    }
}

/// The pieces that a vector of spans holds.
pub open spec fn pieces_of(spans: Seq<Span>) -> Seq<Piece> {
    Seq::new(spans.len(), |i: int| spans[i]@)
}

/// An output sink that keeps what was written to it.
pub struct Writer {
    spans: Vec<Span>,
}

impl View for Writer {
    type V = Seq<Piece>;

    closed spec fn view(&self) -> Seq<Piece> {
        self.spans@.map_values(|s: Span| s@)
    }
}

impl Writer {
    /// An empty sink.
    pub fn new_buf() -> (w: Writer)
        ensures
            w@ == Seq::<Piece>::empty(),
    {
        let w = Writer { spans: Vec::new() };
        assert(w@ == Seq::<Piece>::empty());
        w
    }

    /// Appends `text`, to be shown in `style`.
    pub fn write(&mut self, style: Style, text: &str)
        ensures
            final(self)@ == old(self)@.push((style, text@)),
    {
        self.spans.push(Span { style, text: text.to_owned() });
        assert(self@ == old(self)@.push((style, text@)));
    }

    /// Appends the pieces of `spans`, in order.
    pub fn write_spans(&mut self, spans: &Vec<Span>)
        ensures
            final(self)@ == old(self)@ + pieces_of(spans@),
    {
        let mut i: usize = 0;
        while i < spans.len()
            invariant
                i <= spans@.len(),
                self@ == old(self)@ + pieces_of(spans@).take(i as int),
            decreases spans@.len() - i,
        {
            self.write(spans[i].style, spans[i].text.as_str());
            assert(pieces_of(spans@).take(i + 1) == pieces_of(spans@).take(i as int).push(
                spans@[i as int]@,
            ));
            i += 1;
        }
        assert(pieces_of(spans@).take(i as int) == pieces_of(spans@));
    }

    /// Everything written so far, without styling.
    pub fn text(&self) -> (out: String)
        ensures
            out@ == plain_text(self@),
    {
        let mut out = String::new();
        let mut i: usize = 0;
        while i < self.spans.len()
            invariant
                i <= self.spans@.len(),
                out@ == plain_text(self@.take(i as int)),
            decreases self.spans@.len() - i,
        {
            assert(self@.take(i + 1).drop_last() == self@.take(i as int));
            out.append(self.spans[i].text.as_str());
            i += 1;
        }
        assert(self@.take(i as int) == self@);
        out
    }

    /// Everything written so far, as the terminal is to receive it: each
    /// piece carries the escape codes of its style if painting is enabled.
    pub fn utf8_string(&self) -> (out: String)
        ensures
            is_rendering(self@, out@),
    {
        let mut out = String::new();
        let ghost mut painted: Seq<bool> = Seq::empty();
        let mut i: usize = 0;
        while i < self.spans.len()
            invariant
                i <= self.spans@.len(),
                painted.len() == i,
                out@ == rendered(self@.take(i as int), painted),
            decreases self.spans@.len() - i,
        {
            let span = &self.spans[i];
            let shown = match span.style {
                Style::Plain => span.text.clone(),
                Style::Alert => paint_alert(span.text.as_str()),
                Style::Title => paint_title(span.text.as_str()),
                Style::Strong => paint_strong(span.text.as_str()),
                Style::Rgb(r, g, b) => paint_rgb(r, g, b, span.text.as_str()),
            };
            out.append(shown.as_str());
            proof {
                let upto = self@.take(i + 1);
                let next = painted.push(shown@ != span.text@);
                assert(upto.drop_last() == self@.take(i as int));
                assert(upto.last() == span@);
                assert(next.drop_last() == painted);
                painted = next;
            }
            i += 1;
        }
        assert(self@.take(i as int) == self@);
        out
    }
}

} // verus!
