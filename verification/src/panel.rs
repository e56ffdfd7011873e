//! The panel that the viewer draws, as plain values: a title and a caption on
//! the border, and one line of text for each name.

use vstd::prelude::*;
use crate::app::App;

verus! {

/// A foreground colour of the panel's text.
#[derive(Clone, Copy, Debug, PartialEq, Eq)]
pub enum Color {
    Blue,
    Green,
    Yellow,
}

/// How a piece of text is drawn: in its own colour or the terminal's, bold or
/// not.
#[derive(Clone, Copy, Debug, PartialEq, Eq)]
pub struct TextStyle {
    pub fg: Option<Color>,
    pub bold: bool,
}

/// The lines that a panel's border is drawn with.
#[derive(Clone, Copy, Debug, PartialEq, Eq)]
pub enum Border {
    Plain,
    Rounded,
    Double,
    Thick,
}

/// Where a line of text stands in the room it has.
#[derive(Clone, Copy, Debug, PartialEq, Eq)]
pub enum Align {
    Left,
    Center,
    Right,
}

/// A piece of text with its style.
#[derive(Debug, PartialEq, Eq)]
pub struct Label {
    pub content: String,
    pub style: TextStyle,
}

/// A [`Label`] with its text as a sequence of characters.
pub struct LabelView {
    pub content: Seq<char>,
    pub style: TextStyle,
}

impl View for Label {
    type V = LabelView;

    open spec fn view(&self) -> LabelView {
        LabelView { content: self.content@, style: self.style }
    }
}

/// One line of text on a panel's border: its labels, one after the other, and
/// where on the border the line stands.
#[derive(Debug, PartialEq, Eq)]
pub struct Heading {
    pub labels: Vec<Label>,
    pub align: Align,
}

/// A [`Heading`] with each label taken by its view.
pub struct HeadingView {
    pub labels: Seq<LabelView>,
    pub align: Align,
}

impl View for Heading {
    type V = HeadingView;

    open spec fn view(&self) -> HeadingView {
        HeadingView { labels: label_views(self.labels@), align: self.align }
    }
}

/// A panel with a border on all four sides, drawn with the lines of
/// `border`. The `title` stands on the top border and the `caption` on the
/// bottom border. Each label of `body` is a line of its own inside the
/// border, from the top down.
#[derive(Debug, PartialEq, Eq)]
pub struct Panel {
    pub border: Border,
    pub title: Heading,
    pub caption: Heading,
    pub body: Vec<Label>,
}

/// A [`Panel`] with each label taken by its view.
pub struct PanelView {
    pub border: Border,
    pub title: HeadingView,
    pub caption: HeadingView,
    pub body: Seq<LabelView>,
}

/// The views of a sequence of labels, in order.
pub open spec fn label_views(labels: Seq<Label>) -> Seq<LabelView> {
    labels.map_values(|l: Label| l@)
}

impl View for Panel {
    type V = PanelView;

    open spec fn view(&self) -> PanelView {
        PanelView {
            border: self.border,
            title: self.title@,
            caption: self.caption@,
            body: label_views(self.body@),
        }
    }
}

/// Text in the terminal's own colour, not bold.
pub open spec fn plain_style() -> TextStyle {
    TextStyle { fg: None, bold: false }
}

/// The style of the title: bold.
pub open spec fn title_style() -> TextStyle {
    TextStyle { fg: None, bold: true }
}

/// The style of a key's name in the caption: blue and bold.
pub open spec fn key_style() -> TextStyle {
    TextStyle { fg: Some(Color::Blue), bold: true }
}

/// The style of a directory's name: yellow and bold.
pub open spec fn dir_style() -> TextStyle {
    TextStyle { fg: Some(Color::Yellow), bold: true }
}

/// The style of a file's name: green.
pub open spec fn file_style() -> TextStyle {
    TextStyle { fg: Some(Color::Green), bold: false }
}

/// The title line.
pub open spec fn title_labels() -> Seq<LabelView> {
    seq![LabelView { content: " Counter App Tutorial "@, style: title_style() }]
}

/// The caption line: the four key bindings, each an action and then its key.
pub open spec fn caption_labels() -> Seq<LabelView> {
    seq![
        LabelView { content: " Up "@, style: plain_style() },
        LabelView { content: "<Up>"@, style: key_style() },
        LabelView { content: " Down "@, style: plain_style() },
        LabelView { content: "<Down>"@, style: key_style() },
        LabelView { content: " Calculate Size "@, style: plain_style() },
        LabelView { content: "<Enter>"@, style: key_style() },
        LabelView { content: " Quit "@, style: plain_style() },
        LabelView { content: "<Q> "@, style: key_style() },
    ]
}

/// One line for each of `names`, in order, all in `style`.
pub open spec fn name_lines(names: Seq<Seq<char>>, style: TextStyle) -> Seq<LabelView> {
    names.map_values(|name: Seq<char>| LabelView { content: name, style })
}

/// The body of the panel: the directories' names, then the files' names.
pub open spec fn body_labels(dirs: Seq<Seq<char>>, files: Seq<Seq<char>>) -> Seq<LabelView> {
    name_lines(dirs, dir_style()) + name_lines(files, file_style())
}

/// The panel that shows the directories `dirs` and the files `files`: a thick
/// border with the title and the caption centred on it.
pub open spec fn panel_of(dirs: Seq<Seq<char>>, files: Seq<Seq<char>>) -> PanelView {
    PanelView {
        border: Border::Thick,
        title: HeadingView { labels: title_labels(), align: Align::Center },
        caption: HeadingView { labels: caption_labels(), align: Align::Center },
        body: body_labels(dirs, files),
    }
}

fn label(content: &str, style: TextStyle) -> (l: Label)
    ensures
        l@ == (LabelView { content: content@, style }),
{
    Label { content: content.to_owned(), style }
}

/// Appends one line for each of `names`, in order, all in `style`.
fn push_names(lines: &mut Vec<Label>, names: &Vec<String>, style: TextStyle)
    ensures
        label_views(final(lines)@) == label_views(old(lines)@) + name_lines(
            names.deep_view(),
            style,
        ),
{
    let mut i: usize = 0;
    while i < names.len()
        invariant
            i <= names.len(),
            label_views(lines@) == label_views(old(lines)@) + name_lines(
                names.deep_view().take(i as int),
                style,
            ),
        decreases names.len() - i,
    {
        let ghost before = lines@;
        let ghost done = names.deep_view().take(i as int);
        let line = label(names[i].as_str(), style);
        lines.push(line);
        i += 1;
        proof {
            let now = names.deep_view().take(i as int);
            assert(now =~= done.push(names[i - 1]@));
            assert(label_views(lines@) =~= label_views(before).push(line@));
            assert(name_lines(now, style) =~= name_lines(done, style).push(line@));
        }
    }
    assert(names.deep_view().take(i as int) =~= names.deep_view());
}

impl App {
    /// The panel that shows this state: a thick border, the fixed title and
    /// caption, both centred, and in the body the directories before the
    /// files, each list in its own style and order.
    pub fn panel(&self) -> (p: Panel)
        ensures
            p@ == panel_of(self@.dirs, self@.files),
    {
        let plain = TextStyle { fg: None, bold: false };
        let key = TextStyle { fg: Some(Color::Blue), bold: true };
        let mut title: Vec<Label> = Vec::new();
        title.push(label(" Counter App Tutorial ", TextStyle { fg: None, bold: true }));
        let mut caption: Vec<Label> = Vec::new();
        caption.push(label(" Up ", plain));
        caption.push(label("<Up>", key));
        caption.push(label(" Down ", plain));
        caption.push(label("<Down>", key));
        caption.push(label(" Calculate Size ", plain));
        caption.push(label("<Enter>", key));
        caption.push(label(" Quit ", plain));
        caption.push(label("<Q> ", key));
        let mut body: Vec<Label> = Vec::new();
        push_names(&mut body, self.tree_dirs(), TextStyle { fg: Some(Color::Yellow), bold: true });
        push_names(&mut body, self.tree_files(), TextStyle { fg: Some(Color::Green), bold: false });
        proof {
            assert(label_views(title@) =~= title_labels());
            assert(label_views(caption@) =~= caption_labels());
            assert(name_lines(self@.dirs, dir_style()) =~= Seq::<LabelView>::empty() + name_lines(
                self@.dirs,
                dir_style(),
            ));
        }
        Panel {
            border: Border::Thick,
            title: Heading { labels: title, align: Align::Center },
            caption: Heading { labels: caption, align: Align::Center },
            body,
        }
    }
}

} // verus!
