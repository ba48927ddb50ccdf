use vstd::prelude::*;
use crate::error::{CirnoError, ErrorView};
use crate::project::{Color, ObjectEnum, ObjectView, views};
use crate::state::CirnoState;
use crate::text::chars_of;

verus! {

/// The color that a letter of a search stands for.
pub open spec fn search_color(c: char) -> Option<Color> {
    if c == 'r' {
        Some(Color::Red)
    } else if c == 'g' {
        Some(Color::Green)
    } else if c == 'y' {
        Some(Color::Yellow)
    } else if c == 'b' {
        Some(Color::Blue)
    } else if c == 'm' {
        Some(Color::Magenta)
    } else if c == 'c' {
        Some(Color::Cyan)
    } else {
        None
    }
}

/// Whether `object` is a wire of the color `color` and, where a label is
/// asked for, with that label.
pub open spec fn is_match(object: ObjectView, color: Color, label: Option<char>) -> bool {
    match object {
        ObjectView::Wire(w) => w.color == color && (label is None || label == Some(w.label)),
        _ => false,
    }
}

/// The wires among the first `n` objects that a search asks for, in their
/// order.
pub open spec fn matches_in(
    objects: Seq<ObjectView>,
    color: Color,
    label: Option<char>,
    n: int,
) -> Seq<ObjectView>
    decreases n,
{
    if n <= 0 {
        Seq::empty()
    } else if is_match(objects[n - 1], color, label) {
        matches_in(objects, color, label, n - 1).push(objects[n - 1])
    } else {
        matches_in(objects, color, label, n - 1)
    }
}

/// What a search for wires finds, given the letter of a color and, if
/// wanted, a label.
pub open spec fn wire_search(
    color: Option<char>,
    label: Option<char>,
    objects: Seq<ObjectView>,
) -> Result<Seq<ObjectView>, ErrorView> {
    match color {
        None => Err(ErrorView::InvalidSearch),
        Some(c) => match search_color(c) {
            None => Err(ErrorView::InvalidSearch),
            Some(found) => Ok(matches_in(objects, found, label, objects.len() as int)),
        },
    }
}

/// What the search `line` finds: `w`, the letter of a color and, if
/// wanted, a label ask for wires. A search that finds nothing fails.
pub open spec fn search(line: Seq<char>, objects: Seq<ObjectView>) -> Result<
    Seq<ObjectView>,
    ErrorView,
> {
    if line.len() == 0 || line[0] != 'w' || line.len() > 3 {
        Err(ErrorView::InvalidSearch)
    } else {
        match wire_search(
            if line.len() > 1 {
                Some(line[1])
            } else {
                None
            },
            if line.len() > 2 {
                Some(line[2])
            } else {
                None
            },
            objects,
        ) {
            Err(e) => Err(e),
            Ok(found) => if found.len() == 0 {
                Err(ErrorView::NoResultsFound)
            } else {
                Ok(found)
            },
        }
    }
}

fn color_for(c: char) -> (r: Option<Color>)
    ensures
        r == search_color(c),
{
    if c == 'r' {
        Some(Color::Red)
    } else if c == 'g' {
        Some(Color::Green)
    } else if c == 'y' {
        Some(Color::Yellow)
    } else if c == 'b' {
        Some(Color::Blue)
    } else if c == 'm' {
        Some(Color::Magenta)
    } else if c == 'c' {
        Some(Color::Cyan)
    } else {
        None
    }
}

/// Perform a wire search, given a color and optional label.
pub fn query_wire(color: Option<char>, label: Option<char>, objects: &Vec<ObjectEnum>) -> (r:
    Result<Vec<ObjectEnum>, CirnoError>)
    ensures
        match wire_search(color, label, views(objects@)) {
            Ok(found) => r is Ok && views(r->Ok_0@) == found,
            Err(e) => r is Err && r->Err_0@ == e,
        },
{
    let wanted: Color = match color {
        None => {
            return Err(CirnoError::InvalidSearch);
        },
        Some(c) => match color_for(c) {
            None => {
                return Err(CirnoError::InvalidSearch);
            },
            Some(found) => found,
        },
    };
    let mut result: Vec<ObjectEnum> = Vec::new();
    let n = objects.len();
    let mut i: usize = 0;
    proof {
        assert(views(result@) =~= matches_in(views(objects@), wanted, label, 0));
    }
    while i < n
        invariant
            n == objects@.len(),
            i <= n,
            views(result@) == matches_in(views(objects@), wanted, label, i as int),
        decreases n - i,
    {
        proof {
            assert(views(objects@)[i as int] == objects@[i as int]@);
        }
        match &objects[i] {
            ObjectEnum::Wire(w) => {
                let fits = w.color == wanted && match label {
                    None => true,
                    Some(l) => w.label == l,
                };
                if fits {
                    let ghost before = views(result@);
                    result.push(ObjectEnum::Wire(*w));
                    proof {
                        assert(views(result@) =~= before.push(ObjectView::Wire(*w)));
                    }
                }
            },
            _ => {},
        }
        i = i + 1;
    }
    Ok(result)
}

/// Clear `state.search_result`.
pub fn clear(state: &mut CirnoState)
    ensures
        final(state).search_result@.len() == 0,
        *final(state) == (CirnoState {
            search_result: final(state).search_result,
            ..*old(state)
        }),
{
    state.search_result = Vec::new();
}

/// Perform a search. What it finds is kept in `state.search_result`, and
/// how much it found is returned. A search that fails leaves nothing there.
pub fn query(line: String, state: &mut CirnoState) -> (r: Result<usize, CirnoError>)
    ensures
        *final(state) == (CirnoState { search_result: final(state).search_result, ..*old(state) }),
        match search(line@, views(old(state).objects@)) {
            Ok(found) => r is Ok && r->Ok_0 == found.len() && views(final(state).search_result@)
                == found,
            Err(e) => r is Err && r->Err_0@ == e && final(state).search_result@.len() == 0,
        },
{
    clear(state);
    let chars = chars_of(line.as_str());
    if chars.len() == 0 || chars[0] != 'w' || chars.len() > 3 {
        return Err(CirnoError::InvalidSearch);
    }
    let color: Option<char> = if chars.len() > 1 {
        Some(chars[1])
    } else {
        None
    };
    let label: Option<char> = if chars.len() > 2 {
        Some(chars[2])
    } else {
        None
    };
    let result = query_wire(color, label, &state.objects)?;
    let len = result.len();
    if len == 0 {
        return Err(CirnoError::NoResultsFound);
    }
    state.search_result = result;
    Ok(len)
}

} // verus!
