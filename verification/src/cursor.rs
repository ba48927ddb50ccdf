use vstd::prelude::*;
use vstd::string::*;
use crate::error::{CirnoError, ErrorView};
use crate::project::{Color, ObjectEnum, ObjectView, Region, Vector2, views};
use crate::state::CirnoState;
use crate::text::is_digit;
use crate::voltage::{collect_wires, find_wire, first_wire_at, wires_in};

verus! {

/// How far the cursor goes when it is asked to go `cells` cells and has
/// `lim` cells before it: one cell where no number was given, `cells`
/// where there is room for them, else as far as there is room.
pub open spec fn step(cells: u16, lim: u16) -> u16 {
    if cells == 0 {
        1
    } else if cells <= lim {
        cells
    } else {
        lim
    }
}

fn stride(cells: u16, lim: u16) -> (r: u16)
    ensures
        r == step(cells, lim),
{
    if cells == 0 {
        1
    } else if cells <= lim {
        cells
    } else {
        lim
    }
}

/// How many cells the cursor has to its right: the last column is the
/// limit.
pub open spec fn room_right(cursor: Vector2, bounds: Vector2) -> u16 {
    if bounds.x - cursor.x - 1 > 0 {
        (bounds.x - cursor.x - 1) as u16
    } else {
        0
    }
}

/// How many cells the cursor has below it: the row above the last row is
/// the limit.
pub open spec fn room_down(cursor: Vector2, bounds: Vector2) -> u16 {
    if bounds.y - cursor.y - 2 > 0 {
        (bounds.y - cursor.y - 2) as u16
    } else {
        0
    }
}

/// Move the cursor left, up to the given number of cells. Returns whether
/// the cursor has moved.
pub fn move_left(cells: u16, state: &mut CirnoState) -> (moved: bool)
    ensures
        moved == (old(state).cursor.x > 0),
        moved ==> *final(state) == (CirnoState {
            cursor: Vector2 {
                x: (old(state).cursor.x - step(cells, old(state).cursor.x)) as u16,
                y: old(state).cursor.y,
            },
            ..*old(state)
        }),
        !moved ==> *final(state) == *old(state),
{
    let lim = state.cursor.x;
    if lim == 0 {
        return false;
    }
    state.cursor.x = state.cursor.x - stride(cells, lim);
    true
}

/// Move the cursor right, up to the given number of cells. Returns whether
/// the cursor has moved.
pub fn move_right(cells: u16, state: &mut CirnoState) -> (moved: bool)
    ensures
        moved == (room_right(old(state).cursor, old(state).meta.bounds) > 0),
        moved ==> *final(state) == (CirnoState {
            cursor: Vector2 {
                x: (old(state).cursor.x + step(
                    cells,
                    room_right(old(state).cursor, old(state).meta.bounds),
                )) as u16,
                y: old(state).cursor.y,
            },
            ..*old(state)
        }),
        !moved ==> *final(state) == *old(state),
{
    if state.meta.bounds.x <= state.cursor.x {
        return false;
    }
    let lim = state.meta.bounds.x - state.cursor.x - 1;
    if lim == 0 {
        return false;
    }
    state.cursor.x = state.cursor.x + stride(cells, lim);
    true
}

/// Move the cursor up, up to the given number of cells. Returns whether
/// the cursor has moved.
pub fn move_up(cells: u16, state: &mut CirnoState) -> (moved: bool)
    ensures
        moved == (old(state).cursor.y > 0),
        moved ==> *final(state) == (CirnoState {
            cursor: Vector2 {
                x: old(state).cursor.x,
                y: (old(state).cursor.y - step(cells, old(state).cursor.y)) as u16,
            },
            ..*old(state)
        }),
        !moved ==> *final(state) == *old(state),
{
    let lim = state.cursor.y;
    if lim == 0 {
        return false;
    }
    state.cursor.y = state.cursor.y - stride(cells, lim);
    true
}

/// Move the cursor down, up to the given number of cells. Returns whether
/// the cursor has moved.
pub fn move_down(cells: u16, state: &mut CirnoState) -> (moved: bool)
    ensures
        moved == (room_down(old(state).cursor, old(state).meta.bounds) > 0),
        moved ==> *final(state) == (CirnoState {
            cursor: Vector2 {
                x: old(state).cursor.x,
                y: (old(state).cursor.y + step(
                    cells,
                    room_down(old(state).cursor, old(state).meta.bounds),
                )) as u16,
            },
            ..*old(state)
        }),
        !moved ==> *final(state) == *old(state),
{
    if state.meta.bounds.y <= state.cursor.y || state.meta.bounds.y - state.cursor.y < 2 {
        return false;
    }
    let lim = state.meta.bounds.y - state.cursor.y - 2;
    if lim == 0 {
        return false;
    }
    state.cursor.y = state.cursor.y + stride(cells, lim);
    true
}

/// Whether `object` exposes a region that covers the cell `cell`.
pub open spec fn covers_cell(object: ObjectView, cell: Vector2) -> bool {
    match object.region() {
        Some(region) => region.overlaps(Region::cell(cell)),
        None => false,
    }
}

/// The indices of those of the first `n` objects that cover the cell
/// `cell`, in their order.
pub open spec fn covering(objects: Seq<ObjectView>, cell: Vector2, n: int) -> Seq<usize>
    decreases n,
{
    if n <= 0 {
        Seq::empty()
    } else if covers_cell(objects[n - 1], cell) {
        covering(objects, cell, n - 1).push((n - 1) as usize)
    } else {
        covering(objects, cell, n - 1)
    }
}

/// The indices of the objects that cover the cell `cell`.
pub fn objects_at(objects: &Vec<ObjectEnum>, cell: Vector2) -> (found: Vec<usize>)
    ensures
        found@ == covering(views(objects@), cell, objects@.len() as int),
{
    let mut found: Vec<usize> = Vec::new();
    let n = objects.len();
    let mut i: usize = 0;
    while i < n
        invariant
            n == objects@.len(),
            i <= n,
            found@ == covering(views(objects@), cell, i as int),
        decreases n - i,
    {
        proof {
            assert(views(objects@)[i as int] == objects@[i as int]@);
        }
        let covers = match objects[i].get_region() {
            Some(region) => region.overlapping_vec2(cell),
            None => false,
        };
        if covers {
            found.push(i);
        }
        i = i + 1;
    }
    found
}

/// What is to be said and shown of the cell under the cursor.
pub struct Sight {
    pub text: Seq<char>,
    pub color: Option<Color>,
    pub under: (char, Option<Color>),
}

/// What the first `n` objects leave to say of the cell `cursor`: the report
/// of the last of them whose region covers the cell, and the character of
/// the last of those that has one. Without such an object the report is
/// empty and the cell blank.
pub open spec fn seen(objects: Seq<ObjectView>, cursor: Vector2, n: int) -> Sight
    decreases n,
{
    if n <= 0 {
        Sight { text: Seq::empty(), color: None, under: (' ', None) }
    } else {
        let before = seen(objects, cursor, n - 1);
        match objects[n - 1].region() {
            Some(region) => if region.overlaps(Region::cell(cursor)) {
                Sight {
                    text: objects[n - 1].report().0,
                    color: objects[n - 1].report().1,
                    under: match objects[n - 1].glyph() {
                        Some(glyph) => glyph,
                        None => before.under,
                    },
                }
            } else {
                before
            },
            None => before,
        }
    }
}

/// What is to be said and shown of the cell `cursor`: what the objects
/// leave to say, and before it in brackets the label of the first wire
/// that ends there, which also gives the color and the character.
pub open spec fn sight(objects: Seq<ObjectView>, cursor: Vector2) -> Sight {
    let base = seen(objects, cursor, objects.len() as int);
    match first_wire_at(wires_in(objects, objects.len() as int), cursor, 0) {
        Some(wire) => Sight {
            text: seq!['(', wire.label, ')', ' '] + base.text,
            color: Some(wire.color),
            under: (wire.label, Some(wire.color)),
        },
        None => base,
    }
}

/// Says what the cursor is on: the text for the bar and its color. Sets
/// `state.char_under_cursor`.
pub fn report(state: &mut CirnoState) -> (r: (String, Option<Color>))
    ensures
        r.0@ == sight(views(old(state).objects@), old(state).cursor).text,
        r.1 == sight(views(old(state).objects@), old(state).cursor).color,
        *final(state) == (CirnoState {
            char_under_cursor: sight(views(old(state).objects@), old(state).cursor).under,
            ..*old(state)
        }),
{
    let cursor = state.cursor;
    let mut report: String = String::new();
    let mut color: Option<Color> = None;
    let mut under: (char, Option<Color>) = (' ', None);
    let n = state.objects.len();
    let mut i: usize = 0;
    while i < n
        invariant
            n == state.objects@.len(),
            i <= n,
            *state == *old(state),
            cursor == state.cursor,
            report@ == seen(views(state.objects@), cursor, i as int).text,
            color == seen(views(state.objects@), cursor, i as int).color,
            under == seen(views(state.objects@), cursor, i as int).under,
        decreases n - i,
    {
        proof {
            assert(views(state.objects@)[i as int] == state.objects@[i as int]@);
        }
        let covers = match state.objects[i].get_region() {
            Some(region) => region.overlapping_vec2(cursor),
            None => false,
        };
        if covers {
            let said = state.objects[i].report();
            report = said.0;
            color = said.1;
            match state.objects[i].get_char() {
                Some(glyph) => {
                    under = glyph;
                },
                None => {},
            }
        }
        i = i + 1;
    }
    let wires = collect_wires(&state.objects);
    match find_wire(&wires, cursor) {
        Some(wire) => {
            let mut text = String::new();
            text.push('(');
            text.push(wire.label);
            text.push(')');
            text.push(' ');
            text.append(report.as_str());
            proof {
                assert(text@ =~= seq!['(', wire.label, ')', ' '] + report@);
            }
            report = text;
            color = Some(wire.color);
            under = (wire.label, Some(wire.color));
        },
        None => {},
    }
    state.char_under_cursor = under;
    (report, color)
}

/// The number that the editor repeats the next action by, after the key
/// `c`: a digit is taken as the next digit of that number. No number over
/// 1000 is taken: the number is then none again.
pub open spec fn repeated(amount: u16, c: char) -> Result<u16, ErrorView> {
    if !is_digit(c) {
        Ok(amount)
    } else if amount == 0 {
        Ok((c as int - '0' as int) as u16)
    } else if amount * 10 + (c as int - '0' as int) > 1000 {
        Err(ErrorView::TooManyRepetitions)
    } else {
        Ok((amount * 10 + (c as int - '0' as int)) as u16)
    }
}

/// Update `state.repeat_amount` based on a character `c`. A character that
/// is no digit leaves it.
pub fn update_repeat_amount(c: char, state: &mut CirnoState) -> (r: Result<(), CirnoError>)
    ensures
        match repeated(old(state).repeat_amount, c) {
            Ok(amount) => r is Ok && *final(state) == (CirnoState {
                repeat_amount: amount,
                ..*old(state)
            }),
            Err(e) => r is Err && r->Err_0@ == e && *final(state) == (CirnoState {
                repeat_amount: 0,
                ..*old(state)
            }),
        },
{
    if !(c >= '0' && c <= '9') {
        return Ok(());
    }
    let digit: u32 = c as u32 - '0' as u32;
    if state.repeat_amount == 0 {
        state.repeat_amount = digit as u16;
        return Ok(());
    }
    let amount: u32 = state.repeat_amount as u32 * 10 + digit;
    if amount > 1000 {
        state.repeat_amount = 0;
        return Err(CirnoError::TooManyRepetitions);
    }
    state.repeat_amount = amount as u16;
    Ok(())
}

} // verus!
