//! Drawing the panel on a ratatui buffer.
//!
//! The panel is drawn by one paragraph of ratatui inside one block. What
//! ratatui leaves in the cells has no short description: it is named, not
//! stated, and the contracts here say which values it depends on. What goes
//! into ratatui is stated: the style of every label, the line of each
//! heading, the border and the area.

use vstd::prelude::*;
use crate::app::App;
use crate::panel::{
    label_views,
    panel_of,
    Align,
    Border,
    Color,
    HeadingView,
    Label,
    LabelView,
    Panel,
    PanelView,
    TextStyle,
};
use ratatui::buffer::Buffer;
use ratatui::layout::{Alignment, Rect};
use ratatui::style::{Modifier, Style};
use ratatui::style::Color as Tint;
use ratatui::symbols::border;
use ratatui::text::{Line, Span, Text};
use ratatui::widgets::{Block, Paragraph, Widget};

verus! {

/// A rectangle of terminal cells: its top left corner and its size.
#[derive(Clone, Copy, Debug, PartialEq, Eq)]
pub struct Area {
    pub x: u16,
    pub y: u16,
    pub width: u16,
    pub height: u16,
}

/// A colour as ratatui has it: the terminal's default (`Reset`), one of
/// sixteen named colours, red, green and blue, or a colour of the 256-colour
/// palette.
pub enum Paint {
    Reset,
    Black,
    Red,
    Green,
    Yellow,
    Blue,
    Magenta,
    Cyan,
    Gray,
    DarkGray,
    LightRed,
    LightGreen,
    LightYellow,
    LightBlue,
    LightMagenta,
    LightCyan,
    White,
    Rgb(u8, u8, u8),
    Indexed(u8),
}

/// What a style of ratatui holds: the three colours it sets, if any, and the
/// bits of the modifiers that it adds and that it takes away.
pub struct StyleView {
    pub fg: Option<Paint>,
    pub bg: Option<Paint>,
    pub underline: Option<Paint>,
    pub add: u16,
    pub sub: u16,
}

/// A piece of text in a style of ratatui.
pub struct StyledView {
    pub content: Seq<char>,
    pub style: StyleView,
}

/// What a line of ratatui holds: its spans, the style of the whole line, and
/// its alignment, if it has one.
pub struct LineView {
    pub spans: Seq<StyledView>,
    pub style: StyleView,
    pub alignment: Option<Align>,
}

/// What one cell of a buffer holds: the symbol it shows, its foreground,
/// background and underline colours, the bits of its modifiers, and whether
/// the terminal is to skip it.
pub struct CellView {
    pub symbol: Seq<char>,
    pub fg: Paint,
    pub bg: Paint,
    pub underline: Paint,
    pub modifier: u16,
    pub skip: bool,
}

/// ratatui's `Buffer`: a grid of cells that widgets draw on.
#[verifier::external_type_specification]
#[verifier::external_body]
pub struct ExBuffer(Buffer);

/// ratatui's `Style`.
#[verifier::external_type_specification]
#[verifier::external_body]
pub struct ExStyle(Style);

/// ratatui's `Line`: spans of text that are drawn in one row.
#[verifier::external_type_specification]
#[verifier::external_body]
pub struct ExLine<'a>(Line<'a>);

/// The rectangle of the terminal that a buffer covers (its field `area`).
pub uninterp spec fn buffer_area(buf: Buffer) -> Area;

/// The cells that a buffer holds (its field `content`), row by row.
pub uninterp spec fn buffer_cells(buf: Buffer) -> Seq<CellView>;

/// What a style holds (its fields `fg`, `bg`, `underline_color`,
/// `add_modifier` and `sub_modifier`).
pub uninterp spec fn style_view(style: Style) -> StyleView;

/// What a line holds (its fields `spans`, `style` and `alignment`).
pub uninterp spec fn line_view(line: Line<'static>) -> LineView;

/// The cells of a buffer over `surface` that held `cells`, after ratatui has
/// drawn in `area` a paragraph in a block. The block has all four borders, in
/// the border set of `border`, with `title` as its title and `caption` as its
/// bottom title. The paragraph has one line for each of `body`, made of the
/// text in the style, and is neither wrapped nor scrolled.
pub uninterp spec fn painted(
    border: Border,
    title: LineView,
    caption: LineView,
    body: Seq<StyledView>,
    area: Area,
    surface: Area,
    cells: Seq<CellView>,
) -> Seq<CellView>;

/// The bit of the modifier that makes text bold.
pub const BOLD: u16 = 1;

/// The widest area in which a panel is drawn.
pub const MAX_WIDTH: u16 = 0x7fff;

/// The style of ratatui that sets nothing.
pub open spec fn no_style() -> StyleView {
    StyleView { fg: None, bg: None, underline: None, add: 0, sub: 0 }
}

/// The colour of ratatui for a colour of the panel.
pub open spec fn paint_of(color: Color) -> Paint {
    match color {
        Color::Blue => Paint::Blue,
        Color::Green => Paint::Green,
        Color::Yellow => Paint::Yellow,
    }
}

/// The style of ratatui for a style of the panel: it sets the foreground, if
/// there is one, adds the bold modifier, if the text is bold, and leaves
/// everything else as it is.
pub open spec fn style_of(style: TextStyle) -> StyleView {
    StyleView {
        fg: match style.fg {
            Some(color) => Some(paint_of(color)),
            None => None,
        },
        add: if style.bold {
            BOLD
        } else {
            0
        },
        ..no_style()
    }
}

/// A label in the style of ratatui for its own.
pub open spec fn styled_of(label: LabelView) -> StyledView {
    StyledView { content: label.content, style: style_of(label.style) }
}

/// Each of `labels` in the style of ratatui for its own.
pub open spec fn all_styled(labels: Seq<LabelView>) -> Seq<StyledView> {
    labels.map_values(|l: LabelView| styled_of(l))
}

/// The line of ratatui for a heading: a span for each label, no style of its
/// own, and the heading's alignment.
pub open spec fn heading_line(heading: HeadingView) -> LineView {
    LineView {
        spans: all_styled(heading.labels),
        style: no_style(),
        alignment: Some(heading.align),
    }
}

/// The cells of a buffer over `surface` that held `cells`, after `panel` has
/// been drawn in `area`.
pub open spec fn drawn(panel: PanelView, area: Area, surface: Area, cells: Seq<CellView>) -> Seq<
    CellView,
> {
    painted(
        panel.border,
        heading_line(panel.title),
        heading_line(panel.caption),
        all_styled(panel.body),
        area,
        surface,
        cells,
    )
}

/// The buffer holds one cell for each position of its area.
pub open spec fn well_formed(buf: Buffer) -> bool {
    buffer_cells(buf).len() == buffer_area(buf).width * buffer_area(buf).height
}

/// The rectangle ends at or before the last column and row that a `u16` can
/// count.
pub open spec fn fits(area: Area) -> bool {
    &&& area.x + area.width <= u16::MAX
    &&& area.y + area.height <= u16::MAX
}

/// Every position of `area` is a position of `outer`.
pub open spec fn within(area: Area, outer: Area) -> bool {
    &&& outer.x <= area.x
    &&& area.x + area.width <= outer.x + outer.width
    &&& outer.y <= area.y
    &&& area.y + area.height <= outer.y + outer.height
}

/// Whether `area` of `buf` can be drawn on: the buffer is well formed, and the
/// area lies within it and is no wider than `MAX_WIDTH`.
pub open spec fn can_render(area: Area, buf: Buffer) -> bool {
    &&& well_formed(buf)
    &&& fits(area)
    &&& within(area, buffer_area(buf))
    &&& area.width <= MAX_WIDTH
}

/// Whether `c` is a printable character of ASCII: one from the space to the
/// tilde.
pub open spec fn is_printable(c: char) -> bool {
    0x20 <= c as u32 <= 0x7e
}

/// Every character of every piece of text is a printable character of ASCII.
pub open spec fn printable(texts: Seq<StyledView>) -> bool {
    forall|i: int, j: int|
        0 <= i < texts.len() && 0 <= j < texts[i].content.len() ==> is_printable(
            #[trigger] texts[i].content[j],
        )
}

/// The number of characters in all of `texts`.
pub open spec fn text_len(texts: Seq<StyledView>) -> nat
    decreases texts.len(),
{
    if texts.len() == 0 {
        0
    } else {
        text_len(texts.drop_last()) + texts.last().content.len()
    }
}

/// A line that a block can take as a title: printable, and shorter than a
/// `u16` counts.
pub open spec fn fit_for_title(line: LineView) -> bool {
    printable(line.spans) && text_len(line.spans) < u16::MAX
}

/// A piece of text with the style of ratatui that it is drawn in.
struct Styled {
    content: String,
    style: Style,
}

impl View for Styled {
    type V = StyledView;

    closed spec fn view(&self) -> StyledView {
        StyledView { content: self.content@, style: style_view(self.style) }
    }
}

/// The views of a sequence of styled texts, in order.
spec fn styled_views(texts: Seq<Styled>) -> Seq<StyledView> {
    texts.map_values(|t: Styled| t@)
}

/// Reads `Buffer::area`.
#[verifier::external_body]
fn area_of(buf: &Buffer) -> (area: Area)
    ensures
        area == buffer_area(*buf),
{
    let rect = buf.area();
    Area { x: rect.x, y: rect.y, width: rect.width, height: rect.height }
}

/// Counts the cells of `Buffer::content`.
#[verifier::external_body]
fn cell_count(buf: &Buffer) -> (n: usize)
    ensures
        n == buffer_cells(*buf).len(),
{
    buf.content().len()
}

/// `Style::new`, with the foreground set to the colour of ratatui of the same
/// name, if the style has one, and `Modifier::BOLD`, whose bit is `BOLD`,
/// added if the style is bold. `Style::new` sets no colour and holds no
/// modifier.
#[verifier::external_body]
fn to_style(style: TextStyle) -> (out: Style)
    ensures
        style_view(out) == style_of(style),
{
    Style {
        fg: style.fg.map(|c| match c {
            Color::Blue => Tint::Blue,
            Color::Green => Tint::Green,
            Color::Yellow => Tint::Yellow,
        }),
        add_modifier: if style.bold { Modifier::BOLD } else { Modifier::empty() },
        ..Style::new()
    }
}

/// `Line::from_iter` of one `Span::styled` for each text, then
/// `Line::alignment`. The line holds the spans in order, each with its text
/// and style; its own style is the default one, which sets nothing; its
/// alignment is the one given.
#[verifier::external_body]
fn to_line(texts: &Vec<Styled>, align: Align) -> (line: Line<'static>)
    ensures
        line_view(line) == (LineView {
            spans: styled_views(texts@),
            style: no_style(),
            alignment: Some(align),
        }),
{
    let spans = texts.iter().map(|t| Span::styled(t.content.clone(), t.style));
    Line::from_iter(spans).alignment(match align {
        Align::Left => Alignment::Left,
        Align::Center => Alignment::Center,
        Align::Right => Alignment::Right,
    })
}

/// `Widget::render` of a `Paragraph` in a `Block`, into `buf`: the block is
/// `Block::bordered` with `title` as `Block::title`, `caption` as
/// `Block::title_bottom` and the border set of `border`; the paragraph is
/// `Paragraph::new` of one `Line::styled` for each of `body`.
///
/// The block is drawn in `area` and the text in what the border leaves of it,
/// so with `area` inside a well formed buffer no cell outside the buffer is
/// asked for. That holds also of a symbol whose width is a multiple of 65536:
/// the paragraph counts it as nothing, may place it after a full line, and
/// writes it one column past the text, which is the column of the right
/// border. The paragraph adds the width of a line so far to the width of the
/// next symbol in a `u16`, each at most the width of the text, so `area` is
/// to be no wider than `MAX_WIDTH`. A title of 65535 columns or more would
/// overflow the sums that place it. A title wider than the area is cut at its
/// start by unicode-truncate, which in a debug build asserts that the widths
/// of the characters it keeps add up to the width of what it returns; they
/// do where every character is printable ASCII, one column each.
///
/// The buffer keeps its area and the number of its cells.
#[verifier::external_body]
fn paint(
    border: Border,
    title: Line<'static>,
    caption: Line<'static>,
    body: &Vec<Styled>,
    area: Area,
    buf: &mut Buffer,
)
    requires
        can_render(area, *old(buf)),
        fit_for_title(line_view(title)),
        fit_for_title(line_view(caption)),
    ensures
        buffer_area(*final(buf)) == buffer_area(*old(buf)),
        buffer_cells(*final(buf)).len() == buffer_cells(*old(buf)).len(),
        buffer_cells(*final(buf)) == painted(
            border,
            line_view(title),
            line_view(caption),
            styled_views(body@),
            area,
            buffer_area(*old(buf)),
            buffer_cells(*old(buf)),
        ),
{
    let set = match border {
        Border::Plain => border::PLAIN,
        Border::Rounded => border::ROUNDED,
        Border::Double => border::DOUBLE,
        Border::Thick => border::THICK,
    };
    let block = Block::bordered().title(title).title_bottom(caption).border_set(set);
    let text = body.iter().map(|t| Line::styled(t.content.clone(), t.style));
    let rect = Rect::new(area.x, area.y, area.width, area.height);
    Paragraph::new(Text::from_iter(text)).block(block).render(rect, buf);
}

/// Each of `labels` with the style of ratatui for its own.
fn styled(labels: &Vec<Label>) -> (texts: Vec<Styled>)
    ensures
        styled_views(texts@) == all_styled(label_views(labels@)),
{
    let mut texts: Vec<Styled> = Vec::new();
    let mut i: usize = 0;
    assert(styled_views(texts@) =~= all_styled(label_views(labels@).take(0)));
    while i < labels.len()
        invariant
            i <= labels.len(),
            styled_views(texts@) == all_styled(label_views(labels@).take(i as int)),
        decreases labels.len() - i,
    {
        let ghost before = texts@;
        let label = &labels[i];
        let text = Styled { content: label.content.clone(), style: to_style(label.style) };
        assert(text@ == styled_of(label@));
        texts.push(text);
        i += 1;
        proof {
            let all = label_views(labels@);
            assert(all.take(i as int) =~= all.take(i - 1).push(label@));
            assert(styled_views(texts@) =~= styled_views(before).push(text@));
            assert(all_styled(all.take(i as int)) =~= all_styled(all.take(i - 1)).push(
                styled_of(label@),
            ));
        }
    }
    assert(label_views(labels@).take(i as int) =~= label_views(labels@));
    texts
}

/// The title and the caption are printable and far shorter than a block can
/// take.
proof fn lemma_fixed_text_fits()
    ensures
        fit_for_title(heading_line(panel_of(Seq::empty(), Seq::empty()).title)),
        fit_for_title(heading_line(panel_of(Seq::empty(), Seq::empty()).caption)),
{
    reveal_strlit(" Counter App Tutorial ");
    reveal_strlit(" Up ");
    reveal_strlit("<Up>");
    reveal_strlit(" Down ");
    reveal_strlit("<Down>");
    reveal_strlit(" Calculate Size ");
    reveal_strlit("<Enter>");
    reveal_strlit(" Quit ");
    reveal_strlit("<Q> ");
    let t = all_styled(crate::panel::title_labels());
    assert(t.len() == 1);
    assert(t.drop_last() =~= Seq::<StyledView>::empty());
    assert(text_len(t) == 22) by {
        reveal_with_fuel(text_len, 2);
    }
    assert forall|i: int, j: int| 0 <= i < t.len() && 0 <= j < t[i].content.len() implies is_printable(
        #[trigger] t[i].content[j],
    ) by {
        assert(i == 0);
    }
    let c = all_styled(crate::panel::caption_labels());
    assert(c.len() == 8);
    let c7 = c.drop_last();
    let c6 = c7.drop_last();
    let c5 = c6.drop_last();
    let c4 = c5.drop_last();
    let c3 = c4.drop_last();
    let c2 = c3.drop_last();
    let c1 = c2.drop_last();
    assert(c1.drop_last() =~= Seq::<StyledView>::empty());
    assert(text_len(c1) == 4) by {
        reveal_with_fuel(text_len, 2);
    }
    assert(text_len(c2) == 8);
    assert(text_len(c3) == 14);
    assert(text_len(c4) == 20);
    assert(text_len(c5) == 36);
    assert(text_len(c6) == 43);
    assert(text_len(c7) == 49);
    assert(text_len(c) == 53);
    assert forall|j: int| 0 <= j < c[0].content.len() implies is_printable(#[trigger] c[0].content[j]) by {}
    assert forall|j: int| 0 <= j < c[1].content.len() implies is_printable(#[trigger] c[1].content[j]) by {}
    assert forall|j: int| 0 <= j < c[2].content.len() implies is_printable(#[trigger] c[2].content[j]) by {}
    assert forall|j: int| 0 <= j < c[3].content.len() implies is_printable(#[trigger] c[3].content[j]) by {}
    assert forall|j: int| 0 <= j < c[4].content.len() implies is_printable(#[trigger] c[4].content[j]) by {}
    assert forall|j: int| 0 <= j < c[5].content.len() implies is_printable(#[trigger] c[5].content[j]) by {}
    assert forall|j: int| 0 <= j < c[6].content.len() implies is_printable(#[trigger] c[6].content[j]) by {}
    assert forall|j: int| 0 <= j < c[7].content.len() implies is_printable(#[trigger] c[7].content[j]) by {}
}

impl Panel {
    /// Draws the panel in `area` of `buf`: the border with the title and the
    /// caption, and inside it the lines of the body, as many as there is room
    /// for. The buffer keeps its area, and its cells are those that ratatui
    /// makes of the panel, the area and the cells that were there.
    pub fn render(&self, area: Area, buf: &mut Buffer)
        requires
            can_render(area, *old(buf)),
            fit_for_title(heading_line(self@.title)),
            fit_for_title(heading_line(self@.caption)),
        ensures
            buffer_area(*final(buf)) == buffer_area(*old(buf)),
            well_formed(*final(buf)),
            buffer_cells(*final(buf)) == drawn(
                self@,
                area,
                buffer_area(*old(buf)),
                buffer_cells(*old(buf)),
            ),
    {
        let title = to_line(&styled(&self.title.labels), self.title.align);
        let caption = to_line(&styled(&self.caption.labels), self.caption.align);
        let body = styled(&self.body);
        paint(self.border, title, caption, &body, area, buf);
    }
}

impl App {
    /// Draws the panel of this state in `area` of `buf`. The state is read
    /// only; the buffer keeps its area, and its cells are those that ratatui
    /// makes of the panel, the area and the cells that were there.
    pub fn render(&self, area: Area, buf: &mut Buffer)
        requires
            can_render(area, *old(buf)),
        ensures
            buffer_area(*final(buf)) == buffer_area(*old(buf)),
            well_formed(*final(buf)),
            buffer_cells(*final(buf)) == drawn(
                panel_of(self@.dirs, self@.files),
                area,
                buffer_area(*old(buf)),
                buffer_cells(*old(buf)),
            ),
    {
        let panel = self.panel();
        proof {
            lemma_fixed_text_fits();
        }
        panel.render(area, buf);
    }

    /// Draws as `render` does where `area` of `buf` can be drawn on, and
    /// leaves the buffer as it is where it cannot. Returns whether it drew.
    pub fn try_render(&self, area: Area, buf: &mut Buffer) -> (done: bool)
        ensures
            done == can_render(area, *old(buf)),
            done ==> buffer_area(*final(buf)) == buffer_area(*old(buf)) && well_formed(
                *final(buf),
            ) && buffer_cells(*final(buf)) == drawn(
                panel_of(self@.dirs, self@.files),
                area,
                buffer_area(*old(buf)),
                buffer_cells(*old(buf)),
            ),
            !done ==> *final(buf) == *old(buf),
    {
        let surface = area_of(buf);
        let cells = cell_count(buf);
        let right: u32 = area.x as u32 + area.width as u32;
        let bottom: u32 = area.y as u32 + area.height as u32;
        assert(surface.width * surface.height <= 0xffff * 0xffff) by (nonlinear_arith)
            requires
                surface.width <= 0xffff,
                surface.height <= 0xffff,
        ;
        let positions: u64 = surface.width as u64 * surface.height as u64;
        let fitting = cells as u64 == positions && right <= 0xffff && bottom <= 0xffff
            && surface.x <= area.x && right <= surface.x as u32 + surface.width as u32
            && surface.y <= area.y && bottom <= surface.y as u32 + surface.height as u32
            && area.width <= MAX_WIDTH;
        if fitting {
            self.render(area, buf);
        }
        fitting
    }
}

/// Drawing is a function of the state: two states that hold the same names
/// give the same cells on equal buffers, whatever else differs between them,
/// and however often the state is drawn.
pub proof fn lemma_render_depends_on_names_only(a: App, b: App, area: Area, before: Buffer)
    requires
        a@.dirs == b@.dirs,
        a@.files == b@.files,
    ensures
        drawn(
            panel_of(a@.dirs, a@.files),
            area,
            buffer_area(before),
            buffer_cells(before),
        ) == drawn(
            panel_of(b@.dirs, b@.files),
            area,
            buffer_area(before),
            buffer_cells(before),
        ),
{
}

} // verus!
