//! What the two panes show, and where on the terminal they stand.

use crate::input::InputBuffer;
use ratatui::layout::{Constraint, Direction, Layout, Rect};
use vstd::prelude::*;

verus! {

/// The least height of the body pane, in rows: it takes what the prompt leaves.
pub const BODY_MIN_ROWS: u16 = 0;

/// The height of the prompt pane, in rows.
pub const PROMPT_ROWS: u16 = 3;

/// A bordered box: the title on its border and the text inside.
#[derive(Debug, PartialEq, Eq)]
pub struct Pane {
    pub title: String,
    pub text: String,
}

/// The two panes of the screen, the body above the prompt.
#[derive(Debug, PartialEq, Eq)]
pub struct Screen {
    pub body: Pane,
    pub prompt: Pane,
}

/// The title of the body pane.
pub open spec fn body_title() -> Seq<char> {
    " body "@
}

/// The text of the body pane.
pub open spec fn body_text() -> Seq<char> {
    " Welcome to the CLI app!"@
}

/// The title of the prompt pane: the working directory between ` PS ` and a
/// blank.
pub open spec fn prompt_title(dir: Seq<char>) -> Seq<char> {
    " PS "@ + dir + " "@
}

/// The text of the prompt pane: the typed line behind one blank.
pub open spec fn prompt_text(input: Seq<char>) -> Seq<char> {
    " "@ + input
}

/// The body pane: a welcome that never changes.
pub fn body_pane() -> (pane: Pane)
    ensures
        pane.title@ == body_title(),
        pane.text@ == body_text(),
{
    Pane { title: " body ".to_owned(), text: " Welcome to the CLI app!".to_owned() }
}

/// The prompt pane for the line `input`, typed in the directory `dir`.
pub fn prompt_pane(input: &str, dir: &str) -> (pane: Pane)
    ensures
        pane.title@ == prompt_title(dir@),
        pane.text@ == prompt_text(input@),
{
    let mut title = " PS ".to_owned();
    title.append(dir);
    title.append(" ");
    let mut text = " ".to_owned();
    text.append(input);
    Pane { title, text }
}

/// The screen for the line `input`, typed in the directory `dir`. It depends
/// on these two and on nothing else.
pub fn render(input: &InputBuffer, dir: &str) -> (screen: Screen)
    ensures
        screen.body.title@ == body_title(),
        screen.body.text@ == body_text(),
        screen.prompt.title@ == prompt_title(dir@),
        screen.prompt.text@ == prompt_text(input@),
{
    Screen { body: body_pane(), prompt: prompt_pane(input.as_str(), dir) }
}

/// The label of the working directory: the path where it was found and is
/// text, and else the empty label.
pub fn directory_label(found: Option<String>) -> (label: String)
    ensures
        label@ == match found {
            Some(path) => path@,
            None => Seq::<char>::empty(),
        },
{
    match found {
        Some(path) => path,
        None => String::new(),
    }
}

/// A rectangle of terminal cells: its upper left corner and its size.
#[derive(Clone, Copy, Debug, PartialEq, Eq, Structural)]
pub struct Area {
    pub x: u16,
    pub y: u16,
    pub width: u16,
    pub height: u16,
}

/// Where the two panes stand.
#[derive(Clone, Copy, Debug, PartialEq, Eq, Structural)]
pub struct Regions {
    pub body: Area,
    pub prompt: Area,
}

/// The rows of `area` that lie on the terminal. Coordinates end at the
/// largest `u16`: an area that reaches beyond it is cut off there.
pub open spec fn rows_of(area: Area) -> int {
    if area.y + area.height > u16::MAX {
        u16::MAX - area.y
    } else {
        area.height as int
    }
}

/// The height of the lower of two rows that is asked `lower_rows` rows: as
/// many, or all rows of `area` where it has fewer.
pub open spec fn lower_height(area: Area, lower_rows: u16) -> int {
    if rows_of(area) < lower_rows {
        rows_of(area)
    } else {
        lower_rows as int
    }
}

/// Where the two panes stand on `area`: the prompt has `PROMPT_ROWS` rows at
/// the bottom, or all rows of an area that has fewer; the body has the rows
/// above. Both span the width of `area`.
pub open spec fn layout_of(area: Area) -> Regions {
    let prompt_rows = lower_height(area, PROMPT_ROWS);
    let body_rows = rows_of(area) - prompt_rows;
    Regions {
        body: Area { x: area.x, y: area.y, width: area.width, height: body_rows as u16 },
        prompt: Area {
            x: area.x,
            y: (area.y + body_rows) as u16,
            width: area.width,
            height: prompt_rows as u16,
        },
    }
}

/// Splits `area` into two rows with ratatui's `Layout::split`, for a vertical
/// layout of the constraints `Min(upper_min)` and `Length(lower_rows)`, with
/// ratatui's defaults for the rest (no margin, no spacing, items packed at the
/// start).
///
/// What is claimed of ratatui: there is one row for each of the two
/// constraints, and each has the left edge and the width of `area`. Where
/// `upper_min` is 0, the rows tile `area` from its upper edge: the lower row
/// has `lower_rows` rows, or all rows of `area` where it has fewer, and the
/// upper row has the rows above it. Of another `upper_min` nothing more is
/// claimed.
///
/// The heights are the solution of ratatui's constraint system. With
/// `Min(0)` above `Length(n)` that system has one best solution: the empty
/// gaps before, between and after the rows cost most, then a lower row that
/// is not `n` high, then an upper row that does not fill the area.
#[verifier::external_body]
fn split_rows(area: Area, upper_min: u16, lower_rows: u16) -> (rows: Vec<Area>)
    ensures
        rows@.len() == 2,
        forall|i: int|
            0 <= i < rows@.len() ==> (#[trigger] rows@[i]).x == area.x && rows@[i].width
                == area.width,
        upper_min == 0 ==> rows@[0].y == area.y && rows@[0].height == rows_of(area) - lower_height(
            area,
            lower_rows,
        ) && rows@[1].y == area.y + rows@[0].height && rows@[1].height == lower_height(
            area,
            lower_rows,
        ),
{
    let rect = Rect { x: area.x, y: area.y, width: area.width, height: area.height };
    let layout = Layout::default().direction(Direction::Vertical).constraints(
        [Constraint::Min(upper_min), Constraint::Length(lower_rows)],
    );
    layout.split(rect).iter().map(
        |r| Area { x: r.x, y: r.y, width: r.width, height: r.height },
    ).collect()
}

impl Regions {
    /// Gives the first of two rows to the body and the second to the prompt.
    /// Any other number of rows is no layout of the screen.
    pub fn from_rows(rows: &Vec<Area>) -> (regions: Option<Regions>)
        ensures
            regions == if rows@.len() == 2 {
                Some(Regions { body: rows@[0], prompt: rows@[1] })
            } else {
                None
            },
    {
        if rows.len() == 2 {
            Some(Regions { body: rows[0], prompt: rows[1] })
        } else {
            None
        }
    }
}

/// Lays the two panes out on `area`: the prompt is asked `PROMPT_ROWS` rows
/// at the bottom, the body at least `BODY_MIN_ROWS` rows and all that is left
/// above. The result is [`layout_of`]: the prompt at the bottom, the body
/// above it, both as wide as `area`.
pub fn regions(area: Area) -> (regions: Regions)
    ensures
        regions == layout_of(area),
{
    let rows = split_rows(area, BODY_MIN_ROWS, PROMPT_ROWS);
    Regions::from_rows(&rows).unwrap()
}

/// On an area of three rows or more that lies on the terminal, the prompt
/// has exactly three rows at the bottom and the body all rows above it.
pub proof fn prompt_takes_three_rows_at_the_bottom(area: Area)
    requires
        area.height >= 3,
        area.y + area.height <= u16::MAX,
    ensures
        layout_of(area).body == (Area {
            x: area.x,
            y: area.y,
            width: area.width,
            height: (area.height - 3) as u16,
        }),
        layout_of(area).prompt == (Area {
            x: area.x,
            y: (area.y + area.height - 3) as u16,
            width: area.width,
            height: 3,
        }),
{
}

/// The two panes tile the rows of the area: the body begins where the area
/// begins, the prompt begins where the body ends, and the prompt ends where
/// the rows of the area end. Both are as wide as the area, and the prompt is
/// never higher than `PROMPT_ROWS`.
pub proof fn panes_tile_the_area(area: Area)
    ensures
        layout_of(area).body.x == area.x && layout_of(area).prompt.x == area.x,
        layout_of(area).body.width == area.width && layout_of(area).prompt.width == area.width,
        layout_of(area).body.y == area.y,
        layout_of(area).prompt.y == layout_of(area).body.y + layout_of(area).body.height,
        layout_of(area).prompt.y + layout_of(area).prompt.height == area.y + rows_of(area),
        layout_of(area).prompt.height <= PROMPT_ROWS,
        layout_of(area).prompt.height < PROMPT_ROWS ==> layout_of(area).body.height == 0,
{
}

} // verus!
