use vstd::prelude::*;
use crate::error::{CirnoError, ErrorView};
use crate::project::{Color, ObjectEnum, ObjectView, Wire, views};

verus! {

/// The name of a color, as the description language writes it.
pub open spec fn color_name(color: Color) -> Seq<char> {
    match color {
        Color::Red => "red"@,
        Color::Green => "green"@,
        Color::Yellow => "yellow"@,
        Color::Blue => "blue"@,
        Color::Magenta => "magenta"@,
        Color::Cyan => "cyan"@,
    }
}

/// The name of a color, as the description language writes it.
pub fn color_to_string(color: Color) -> (s: String)
    ensures
        s@ == color_name(color),
{
    match color {
        Color::Red => "red".to_owned(),
        Color::Green => "green".to_owned(),
        Color::Yellow => "yellow".to_owned(),
        Color::Blue => "blue".to_owned(),
        Color::Magenta => "magenta".to_owned(),
        Color::Cyan => "cyan".to_owned(),
    }
}

/// The label of the wire that has `count` wires of its color before it:
/// `a` to `z` for the first 26, then `A` to `Z`.
pub open spec fn label_char(count: nat) -> char
    recommends
        count < 52,
{
    if count < 26 {
        ('a' as int + count) as char
    } else {
        ('A' as int + count - 26) as char
    }
}

/// Whether `object` is a wire of the color `color`.
pub open spec fn is_wire_of_color(object: ObjectView, color: Color) -> bool {
    object matches ObjectView::Wire(w) && w.color == color
}

/// How many of the first `n` objects are wires of the color `color`.
pub open spec fn wires_of_color(objects: Seq<ObjectView>, color: Color, n: int) -> nat
    decreases n,
{
    if n <= 0 {
        0
    } else {
        wires_of_color(objects, color, n - 1) + if is_wire_of_color(objects[n - 1], color) {
            1nat
        } else {
            0nat
        }
    }
}

/// Whether the object with the index `i` is a wire for which no label is
/// left: 52 wires of its color come before it.
pub open spec fn unlabelable(objects: Seq<ObjectView>, i: int) -> bool {
    objects[i] matches ObjectView::Wire(w) && wires_of_color(objects, w.color, i) >= 52
}

/// The error that names the color of a wire for which no label is left.
pub open spec fn unlabelable_error(object: ObjectView) -> ErrorView {
    match object {
        ObjectView::Wire(w) => ErrorView::TooManyWiresOfColor(color_name(w.color)),
        _ => ErrorView::TooManyWiresOfColor(Seq::empty()),
    }
}

/// The index of the first wire from `i` on for which no label is left.
pub open spec fn first_unlabelable(objects: Seq<ObjectView>, i: int) -> Option<int>
    decreases objects.len() - i,
{
    if i < 0 || i >= objects.len() {
        None
    } else if unlabelable(objects, i) {
        Some(i)
    } else {
        first_unlabelable(objects, i + 1)
    }
}

/// The object with the index `i` with its label: a wire gets the label that
/// its place among the wires of its color gives it.
pub open spec fn labelled_object(objects: Seq<ObjectView>, i: int) -> ObjectView {
    match objects[i] {
        ObjectView::Wire(w) => ObjectView::Wire(
            Wire {
                color: w.color,
                from: w.from,
                to: w.to,
                label: label_char(wires_of_color(objects, w.color, i)),
            },
        ),
        other => other,
    }
}

/// The objects with the first `upto` of them labelled.
pub open spec fn labelled(objects: Seq<ObjectView>, upto: int) -> Seq<ObjectView> {
    Seq::new(
        objects.len(),
        |i: int|
            if i < upto {
                labelled_object(objects, i)
            } else {
                objects[i]
            },
    )
}

/// The labels in their order are the lower case letters, then the upper
/// case letters.
pub proof fn lemma_label_alphabet(count: nat)
    requires
        count < 52,
    ensures
        label_char(count) == "abcdefghijklmnopqrstuvwxyzABCDEFGHIJKLMNOPQRSTUVWXYZ"@[count as int],
{
    reveal_strlit("abcdefghijklmnopqrstuvwxyzABCDEFGHIJKLMNOPQRSTUVWXYZ");
    let s = "abcdefghijklmnopqrstuvwxyzABCDEFGHIJKLMNOPQRSTUVWXYZ"@;
    assert(s.len() == 52);
    assert forall|k: int| 0 <= k < 52 implies label_char(k as nat) == #[trigger] s[k] by {
        if k < 26 {
            assert(s[k] == ('a' as int + k) as char);
        } else {
            assert(s[k] == ('A' as int + k - 26) as char);
        }
    }
}

/// Two wires of one color with different numbers of wires of that color
/// before them get different labels.
pub proof fn lemma_labels_differ(a: nat, b: nat)
    requires
        a < 52,
        b < 52,
        a != b,
    ensures
        label_char(a) != label_char(b),
{
}

/// The count of the wires of a color does not fall along the list.
pub proof fn lemma_wires_of_color_grows(objects: Seq<ObjectView>, color: Color, m: int, n: int)
    requires
        m <= n,
    ensures
        wires_of_color(objects, color, m) <= wires_of_color(objects, color, n),
    decreases n - m,
{
    if m < n {
        lemma_wires_of_color_grows(objects, color, m, n - 1);
    }
}

/// Every wire can be labelled exactly when no color has more than 52 wires.
pub proof fn lemma_labelling_succeeds(objects: Seq<ObjectView>)
    ensures
        first_unlabelable(objects, 0) is None <==> forall|color: Color|
            wires_of_color(objects, color, objects.len() as int) <= 52,
{
    lemma_first_unlabelable(objects, 0);
    if first_unlabelable(objects, 0) is Some {
        let k = first_unlabelable(objects, 0)->Some_0;
        let color = objects[k]->Wire_0.color;
        lemma_wires_of_color_grows(objects, color, k + 1, objects.len() as int);
        assert(wires_of_color(objects, color, objects.len() as int) > 52);
    } else {
        assert forall|color: Color| wires_of_color(objects, color, objects.len() as int)
            <= 52 by {
            lemma_count_bounded(objects, color, objects.len() as int);
        }
    }
}

/// What `first_unlabelable` gives is the least index of a wire for which
/// no label is left.
pub proof fn lemma_first_unlabelable(objects: Seq<ObjectView>, i: int)
    requires
        0 <= i,
    ensures
        match first_unlabelable(objects, i) {
            Some(k) => i <= k < objects.len() && unlabelable(objects, k) && forall|j: int|
                i <= j < k ==> !unlabelable(objects, j),
            None => forall|j: int| i <= j < objects.len() ==> !unlabelable(objects, j),
        },
    decreases objects.len() - i,
{
    if i < objects.len() && !unlabelable(objects, i) {
        lemma_first_unlabelable(objects, i + 1);
    }
}

proof fn lemma_count_bounded(objects: Seq<ObjectView>, color: Color, n: int)
    requires
        0 <= n <= objects.len(),
        forall|j: int| 0 <= j < objects.len() ==> !unlabelable(objects, j),
    ensures
        wires_of_color(objects, color, n) <= 52,
    decreases n,
{
    if n > 0 {
        lemma_count_bounded(objects, color, n - 1);
        assert(!unlabelable(objects, n - 1));
    }
}

/// One counter for each color.
struct ColorCounts {
    red: u32,
    green: u32,
    yellow: u32,
    blue: u32,
    magenta: u32,
    cyan: u32,
}

impl ColorCounts {
    spec fn of(self, color: Color) -> u32 {
        match color {
            Color::Red => self.red,
            Color::Green => self.green,
            Color::Yellow => self.yellow,
            Color::Blue => self.blue,
            Color::Magenta => self.magenta,
            Color::Cyan => self.cyan,
        }
    }

    fn get(&self, color: Color) -> (n: u32)
        ensures
            n == self.of(color),
    {
        match color {
            Color::Red => self.red,
            Color::Green => self.green,
            Color::Yellow => self.yellow,
            Color::Blue => self.blue,
            Color::Magenta => self.magenta,
            Color::Cyan => self.cyan,
        }
    }

    fn bump(&mut self, color: Color)
        requires
            old(self).of(color) < u32::MAX,
        ensures
            final(self).of(color) == old(self).of(color) + 1,
            forall|other: Color| other != color ==> final(self).of(other) == old(self).of(other),
    {
        match color {
            Color::Red => self.red = self.red + 1,
            Color::Green => self.green = self.green + 1,
            Color::Yellow => self.yellow = self.yellow + 1,
            Color::Blue => self.blue = self.blue + 1,
            Color::Magenta => self.magenta = self.magenta + 1,
            Color::Cyan => self.cyan = self.cyan + 1,
        }
    }
}

fn label_for(count: u32) -> (c: char)
    requires
        count < 52,
    ensures
        c == label_char(count as nat),
{
    if count > 25 {
        (39u8 + count as u8) as char
    } else {
        (97u8 + count as u8) as char
    }
}

/// Gives every wire its label, in the order of the list: the wires of one
/// color are labelled `a` to `z`, then `A` to `Z`. At the first wire for
/// which no label is left the labelling stops with an error; the wires
/// before it keep their new labels.
#[verifier::loop_isolation(false)]
pub fn label_wires(objects: &mut Vec<ObjectEnum>) -> (r: Result<(), CirnoError>)
    ensures
        match first_unlabelable(views(old(objects)@), 0) {
            None => r is Ok && views(final(objects)@) == labelled(
                views(old(objects)@),
                old(objects)@.len() as int,
            ),
            Some(k) => r is Err && r->Err_0@ == unlabelable_error(views(old(objects)@)[k])
                && views(final(objects)@) == labelled(views(old(objects)@), k),
        },
{
    let mut counts = ColorCounts { red: 0, green: 0, yellow: 0, blue: 0, magenta: 0, cyan: 0 };
    let ghost before = views(objects@);
    let n = objects.len();
    let mut i: usize = 0;
    proof {
        assert(views(objects@) =~= labelled(before, 0));
    }
    while i < n
        invariant
            n == objects@.len(),
            n == before.len(),
            i <= n,
            views(objects@) == labelled(before, i as int),
            first_unlabelable(before, 0) == first_unlabelable(before, i as int),
            forall|color: Color| counts.of(color) == wires_of_color(before, color, i as int),
            forall|color: Color| counts.of(color) <= 52,
        decreases n - i,
    {
        let ghost current = objects@;
        assert(views(current)[i as int] == before[i as int]);
        let found: Option<Wire> = match &objects[i] {
            ObjectEnum::Wire(wire) => Some(*wire),
            _ => None,
        };
        match found {
            Some(wire) => {
                let count: u32 = counts.get(wire.color);
                if count > 51 {
                    return Err(CirnoError::TooManyWiresOfColor(color_to_string(wire.color)));
                }
                let label = label_for(count);
                objects.set(
                    i,
                    ObjectEnum::Wire(
                        Wire { color: wire.color, from: wire.from, to: wire.to, label },
                    ),
                );
                counts.bump(wire.color);
                proof {
                    assert forall|color: Color| counts.of(color) == wires_of_color(
                        before,
                        color,
                        i + 1,
                    ) by {}
                    assert(current[i as int]@ == ObjectView::Wire(wire));
                    assert(before[i as int] == ObjectView::Wire(wire));
                    assert(count == wires_of_color(before, wire.color, i as int));
                    assert(objects@[i as int]@ == labelled_object(before, i as int));
                    assert forall|j: int| 0 <= j < n implies #[trigger] views(objects@)[j]
                        == labelled(before, i + 1)[j] by {
                        if j != i {
                            assert(objects@[j] == current[j]);
                            assert(views(current)[j] == labelled(before, i as int)[j]);
                        }
                    }
                    assert(views(objects@) =~= labelled(before, i + 1));
                }
            },
            None => {
                proof {
                    assert(!(objects@[i as int] is Wire));
                    assert(views(objects@)[i as int] == objects@[i as int]@);
                    assert(!(before[i as int] is Wire));
                    assert(labelled_object(before, i as int) == before[i as int]);
                    assert(views(objects@) =~= labelled(before, i + 1));
                }
            },
        }
        i = i + 1;
    }
    Ok(())
}

} // verus!
