//! Drawing steps that the display drivers carry out one after another.

use crate::color::Rgb565;
use vstd::prelude::*;
use vstd::string::*;

verus! {

/// A named colour of the display library, or one given by its channels.
#[derive(Copy, Clone, Debug, PartialEq, Eq, Structural)]
pub enum Ink {
    Black,
    White,
    Yellow,
    Green,
    LightGreen,
    DarkGreen,
    Rgb(Rgb565),
}

/// The fonts in use, by the pixel size of a character.
#[derive(Copy, Clone, Debug, PartialEq, Eq, Structural)]
pub enum Font {
    Size6x12,
    Size10x20,
    Size6x10,
    Size5x8,
}

/// One drawing step.
pub enum DrawOp {
    /// The whole display in one colour.
    Clear { ink: Ink },
    /// A filled rectangle.
    Fill { x: i32, y: i32, w: u32, h: u32, ink: Ink },
    /// Text whose baseline begins at a point.
    Text { text: String, x: i32, y: i32, font: Font, ink: Ink },
    /// A horizontal line one pixel high.
    Line { x1: i32, x2: i32, y: i32, ink: Ink },
}

/// One drawing step as plain values.
pub enum Op {
    Clear { ink: Ink },
    Fill { x: i32, y: i32, w: u32, h: u32, ink: Ink },
    Text { text: Seq<char>, x: i32, y: i32, font: Font, ink: Ink },
    Line { x1: i32, x2: i32, y: i32, ink: Ink },
}

impl View for DrawOp {
    type V = Op;

    open spec fn view(&self) -> Op {
        match *self {
            DrawOp::Clear { ink } => Op::Clear { ink },
            DrawOp::Fill { x, y, w, h, ink } => Op::Fill { x, y, w, h, ink },
            DrawOp::Text { text, x, y, font, ink } => Op::Text { text: text@, x, y, font, ink },
            DrawOp::Line { x1, x2, y, ink } => Op::Line { x1, x2, y, ink },
        }
    }
}

/// The steps of a list as plain values.
pub open spec fn ops(v: Seq<DrawOp>) -> Seq<Op> {
    v.map_values(|d: DrawOp| d@)
}

/// Adds a step to a list.
pub fn add_op(out: &mut Vec<DrawOp>, op: DrawOp)
    ensures
        ops(final(out)@) == ops(old(out)@).push(op@),
{
    out.push(op);
    proof {
        assert(ops(out@) =~= ops(old(out)@).push(op@));
    }
}

/// Adds a filled rectangle to a list.
pub fn add_fill(out: &mut Vec<DrawOp>, x: i32, y: i32, w: u32, h: u32, ink: Ink)
    ensures
        ops(final(out)@) == ops(old(out)@).push(Op::Fill { x, y, w, h, ink }),
{
    add_op(out, DrawOp::Fill { x, y, w, h, ink });
}

/// Adds text to a list.
pub fn add_text(out: &mut Vec<DrawOp>, text: &str, x: i32, y: i32, font: Font, ink: Ink)
    ensures
        ops(final(out)@) == ops(old(out)@).push(Op::Text { text: text@, x, y, font, ink }),
{
    add_op(out, DrawOp::Text { text: text.to_owned(), x, y, font, ink });
}

/// Moves the steps of `more` behind those of `out`.
pub fn add_all(out: &mut Vec<DrawOp>, more: Vec<DrawOp>)
    ensures
        ops(final(out)@) == ops(old(out)@) + ops(more@),
{
    let mut more = more;
    let ghost a = out@;
    let ghost b = more@;
    out.append(&mut more);
    proof {
        assert(ops(a + b) =~= ops(a) + ops(b));
    }
}

/// The plain values of drawing steps are what they hold, each under its own name.
pub proof fn law_step_views(
    x: i32,
    y: i32,
    w: u32,
    h: u32,
    x1: i32,
    x2: i32,
    text: String,
    font: Font,
    ink: Ink,
)
    ensures
        (DrawOp::Clear { ink })@ == (Op::Clear { ink }),
        (DrawOp::Fill { x, y, w, h, ink })@ == (Op::Fill { x, y, w, h, ink }),
        (DrawOp::Text { text, x, y, font, ink })@ == (Op::Text { text: text@, x, y, font, ink }),
        (DrawOp::Line { x1, x2, y, ink })@ == (Op::Line { x1, x2, y, ink }),
{
}

} // verus!
