use vstd::prelude::*;
use vstd::string::*;
use crate::error::{CirnoError, ErrorView};
use crate::parser::prepend;
use crate::project::{
    Chip, ChipView, ObjectEnum, ObjectView, Pin, PinView, Region, Value, ValueView, Vector2,
    lemma_overlap_shares_cell, pin_views, template_position, template_views, views,
};
use crate::table::Table;
use crate::text::{all_digits, decimal, decimal_digits, is_digit, lemma_decimal_round_trip, texts};

verus! {

/// Where the last segment of a path starts, looking at its first `n`
/// characters: behind the last `/` among them, or at 0.
pub open spec fn segment_start(t: Seq<char>, n: int) -> int
    decreases n,
{
    if n <= 0 {
        0
    } else if t[n - 1] == '/' {
        n
    } else {
        segment_start(t, n - 1)
    }
}

/// The last segment of a type name: what follows its last `/`, or all of it.
pub open spec fn short_type(t: Seq<char>) -> Seq<char> {
    t.subrange(segment_start(t, t.len() as int), t.len() as int)
}

/// The last segment starts inside the name, and has no `/` in it.
pub proof fn lemma_segment_start(t: Seq<char>, n: int)
    requires
        0 <= n <= t.len(),
    ensures
        0 <= segment_start(t, n) <= n,
        forall|k: int| segment_start(t, n) <= k < n ==> t[k] != '/',
        segment_start(t, n) > 0 ==> t[segment_start(t, n) - 1] == '/',
    decreases n,
{
    if n > 0 && t[n - 1] != '/' {
        lemma_segment_start(t, n - 1);
    }
}

/// The label `original` as the instance `count` of a chip of the short
/// type `t` carries it.
pub open spec fn unique(original: Seq<char>, t: Seq<char>, count: nat) -> Seq<char> {
    original + seq!['_'] + t + seq!['_'] + decimal_digits(count)
}

/// The labels `originals`, each as the instance `count` carries it.
pub open spec fn unique_all(originals: Seq<Seq<char>>, t: Seq<char>, count: nat) -> Seq<Seq<char>> {
    originals.map_values(|l: Seq<char>| unique(l, t, count))
}

/// The last segment of the name of a type of chip.
pub fn short_chip_type(t: String) -> (r: String)
    ensures
        r@ == short_type(t@),
{
    let chars = crate::text::chars_of(t.as_str());
    let n = chars.len();
    let mut i: usize = n;
    while i > 0 && chars[i - 1] != '/'
        invariant
            chars@ == t@,
            n == chars@.len(),
            i <= n,
            segment_start(chars@, n as int) == segment_start(chars@, i as int),
        decreases i,
    {
        i = i - 1;
    }
    crate::text::string_of(&chars, i, n)
}

/// The unique label for an instance with any number: a list can hold more
/// chips of one type than 32 bits count.
fn numbered_label(original: String, t: &str, count: u64) -> (r: String)
    ensures
        r@ == unique(original@, t@, count as nat),
{
    let mut s = original;
    s.push('_');
    s.append(t);
    s.push('_');
    let digits = decimal(count);
    s.append(digits.as_str());
    s
}

/// The unique label of each of `originals` for an instance with any number.
fn numbered_labels(originals: Vec<String>, t: &str, count: u64) -> (r: Vec<String>)
    ensures
        texts(r@) == unique_all(texts(originals@), t@, count as nat),
{
    let mut v: Vec<String> = Vec::new();
    let n = originals.len();
    let mut i: usize = 0;
    while i < n
        invariant
            n == originals@.len(),
            i <= n,
            v@.len() == i,
            forall|j: int| 0 <= j < i ==> (#[trigger] v@[j])@ == unique(originals@[j]@, t@, count as nat),
        decreases n - i,
    {
        v.push(numbered_label(originals[i].clone(), t, count));
        i = i + 1;
    }
    proof {
        assert(texts(v@) =~= unique_all(texts(originals@), t@, count as nat));
    }
    v
}

/// The label of a pin of a chip: the label of the template, the short
/// type of the chip and the number of the instance, joined by `_`.
pub fn unique_label(original: String, t: &str, count: u32) -> (r: String)
    ensures
        r@ == unique(original@, t@, count as nat),
{
    numbered_label(original, t, count as u64)
}

/// The unique label of each of `originals`, in their order.
pub fn unique_label_vec(originals: Vec<String>, t: &str, count: u32) -> (r: Vec<String>)
    ensures
        texts(r@) == unique_all(texts(originals@), t@, count as nat),
{
    numbered_labels(originals, t, count as u64)
}

/// Two texts that end in `_` and a number are equal only if the numbers are.
pub proof fn lemma_numbered_suffix(front_a: Seq<char>, digits_a: Seq<char>, front_b: Seq<char>, digits_b: Seq<char>)
    requires
        all_digits(digits_a),
        all_digits(digits_b),
        front_a + seq!['_'] + digits_a == front_b + seq!['_'] + digits_b,
    ensures
        digits_a == digits_b,
        front_a == front_b,
{
    let whole_a = front_a + seq!['_'] + digits_a;
    let whole_b = front_b + seq!['_'] + digits_b;
    assert(whole_a.len() == front_a.len() + 1 + digits_a.len());
    assert(whole_b.len() == front_b.len() + 1 + digits_b.len());
    if digits_a.len() < digits_b.len() {
        let k = front_a.len() as int;
        assert(whole_a[k] == '_');
        assert(whole_b[k] == digits_b[k - front_b.len() - 1]);
        assert(is_digit(digits_b[k - front_b.len() - 1]));
    } else if digits_b.len() < digits_a.len() {
        let k = front_b.len() as int;
        assert(whole_b[k] == '_');
        assert(whole_a[k] == digits_a[k - front_a.len() - 1]);
        assert(is_digit(digits_a[k - front_a.len() - 1]));
    }
    assert(digits_a =~= digits_b) by {
        assert forall|k: int| 0 <= k < digits_a.len() implies digits_a[k] == digits_b[k] by {
            assert(whole_a[front_a.len() + 1 + k] == digits_a[k]);
            assert(whole_b[front_b.len() + 1 + k] == digits_b[k]);
        }
    }
    assert(front_a =~= front_b) by {
        assert forall|k: int| 0 <= k < front_a.len() implies front_a[k] == front_b[k] by {
            assert(whole_a[k] == front_a[k]);
            assert(whole_b[k] == front_b[k]);
        }
    }
}

/// Labels of two instances with different numbers differ, whatever the
/// labels were and whatever the types are.
pub proof fn lemma_unique_label_distinct(
    a: Seq<char>,
    t: Seq<char>,
    i: nat,
    b: Seq<char>,
    u: Seq<char>,
    j: nat,
)
    requires
        i != j,
    ensures
        unique(a, t, i) != unique(b, u, j),
{
    lemma_decimal_round_trip(i);
    lemma_decimal_round_trip(j);
    if unique(a, t, i) == unique(b, u, j) {
        lemma_numbered_suffix(
            a + seq!['_'] + t,
            decimal_digits(i),
            b + seq!['_'] + u,
            decimal_digits(j),
        );
    }
}

/// Within one instance, different labels stay different.
pub proof fn lemma_unique_label_injective(a: Seq<char>, b: Seq<char>, t: Seq<char>, i: nat)
    requires
        unique(a, t, i) == unique(b, t, i),
    ensures
        a == b,
{
    lemma_decimal_round_trip(i);
    lemma_numbered_suffix(a + seq!['_'] + t, decimal_digits(i), b + seq!['_'] + t, decimal_digits(i));
    let x = a + seq!['_'] + t;
    let y = b + seq!['_'] + t;
    assert(x.len() == a.len() + 1 + t.len());
    assert(y.len() == b.len() + 1 + t.len());
    assert(a =~= b) by {
        assert forall|k: int| 0 <= k < a.len() implies a[k] == b[k] by {
            assert(x[k] == a[k]);
            assert(y[k] == b[k]);
        }
    }
}

/// How many of the first `n` objects are chips of the type `t`.
pub open spec fn chips_of_type(objects: Seq<ObjectView>, t: Seq<char>, n: int) -> nat
    decreases n,
{
    if n <= 0 {
        0
    } else {
        chips_of_type(objects, t, n - 1) + if is_chip_of_type(objects[n - 1], t) {
            1nat
        } else {
            0nat
        }
    }
}

/// Whether `object` is a chip of the type `t`.
pub open spec fn is_chip_of_type(object: ObjectView, t: Seq<char>) -> bool {
    object matches ObjectView::Chip(c) && c.t == t
}

/// There are no more chips of a type than objects.
pub proof fn lemma_chips_of_type_bound(objects: Seq<ObjectView>, t: Seq<char>, n: int)
    requires
        0 <= n,
    ensures
        chips_of_type(objects, t, n) <= n,
    decreases n,
{
    if n > 0 {
        lemma_chips_of_type_bound(objects, t, n - 1);
    }
}

/// The value `v` with every label that it names renamed for an instance.
pub open spec fn renamed_value(v: ValueView, t: Seq<char>, count: nat) -> ValueView {
    match v {
        ValueView::And(labels) => ValueView::And(unique_all(labels, t, count)),
        ValueView::Or(labels) => ValueView::Or(unique_all(labels, t, count)),
        other => other,
    }
}

/// Whether the pin of a template can be moved to its place in `chip`
/// without leaving the range of coordinates.
pub open spec fn placeable(pin: PinView, chip: ChipView) -> bool {
    &&& pin.region.position.x + chip.region.position.x <= u16::MAX
    &&& pin.region.position.y + chip.region.position.y <= u16::MAX
}

/// The pin of a template as the instance `count` of `chip` holds it: moved
/// by the chip's position, its label, if it has one, and the labels that
/// its value names renamed.
pub open spec fn placed(pin: PinView, chip: ChipView, count: nat) -> PinView {
    PinView {
        label: if pin.label.len() == 0 {
            pin.label
        } else {
            unique(pin.label, short_type(chip.t), count)
        },
        value: renamed_value(pin.value, short_type(chip.t), count),
        region: Region {
            position: Vector2 {
                x: (pin.region.position.x + chip.region.position.x) as u16,
                y: (pin.region.position.y + chip.region.position.y) as u16,
            },
            size: pin.region.size,
        },
        voltage: pin.voltage,
    }
}

/// Whether every pin of `template` can be moved to its place in `chip`.
pub open spec fn all_placeable(template: Seq<PinView>, chip: ChipView) -> bool {
    forall|k: int| 0 <= k < template.len() ==> placeable(#[trigger] template[k], chip)
}

/// The pins that stand for the instance `count` of `chip`.
pub open spec fn expanded(chip: ChipView, template: Seq<PinView>, count: nat) -> Result<
    Seq<ObjectView>,
    ErrorView,
> {
    if all_placeable(template, chip) {
        Ok(template.map_values(|p: PinView| ObjectView::Pin(placed(p, chip, count))))
    } else {
        Err(ErrorView::OutOfBounds)
    }
}

/// What stands for the object with the index `i` in the flattened list: a
/// chip gives the pins of its template, numbered by how many chips of its
/// type there are up to it; any other object stays.
pub open spec fn piece(
    objects: Seq<ObjectView>,
    templates: Map<Seq<char>, Seq<PinView>>,
    i: int,
) -> Result<
    Seq<ObjectView>,
    ErrorView,
> {
    match objects[i] {
        ObjectView::Chip(c) => if templates.contains_key(c.t) {
            expanded(c, templates[c.t], chips_of_type(objects, c.t, i + 1))
        } else {
            Err(ErrorView::NotFoundInStdlib(c.t))
        },
        other => Ok(seq![other]),
    }
}

/// The flattened form of the objects from the index `i` on, or the error of
/// the first chip that has one.
pub open spec fn flatten_from(
    objects: Seq<ObjectView>,
    templates: Map<Seq<char>, Seq<PinView>>,
    i: int,
) -> Result<Seq<ObjectView>, ErrorView>
    decreases objects.len() - i,
{
    if i < 0 || i >= objects.len() {
        Ok(Seq::empty())
    } else {
        match piece(objects, templates, i) {
            Err(e) => Err(e),
            Ok(p) => prepend(p, flatten_from(objects, templates, i + 1)),
        }
    }
}

/// No chip is left among the flattened objects.
pub proof fn lemma_flattened_has_no_chip(
    objects: Seq<ObjectView>,
    templates: Map<Seq<char>, Seq<PinView>>,
    i: int,
)
    requires
        0 <= i,
        flatten_from(objects, templates, i) is Ok,
    ensures
        forall|k: int|
            0 <= k < flatten_from(objects, templates, i)->Ok_0.len() ==> !((
            #[trigger] flatten_from(objects, templates, i)->Ok_0[k]) is Chip),
    decreases objects.len() - i,
{
    if i < objects.len() {
        lemma_flattened_has_no_chip(objects, templates, i + 1);
        let first = piece(objects, templates, i)->Ok_0;
        let rest = flatten_from(objects, templates, i + 1)->Ok_0;
        assert(flatten_from(objects, templates, i)->Ok_0 == first + rest);
        assert forall|k: int| 0 <= k < first.len() implies !((#[trigger] first[k]) is Chip) by {}
        assert forall|k: int| 0 <= k < (first + rest).len() implies !((#[trigger] (first
            + rest)[k]) is Chip) by {
            if k >= first.len() {
                assert((first + rest)[k] == rest[k - first.len()]);
            } else {
                assert((first + rest)[k] == first[k]);
            }
        }
    }
}

/// An object that is no chip is kept as it is, and a chip gives as many
/// pins as its template has.
pub proof fn lemma_piece_length(
    objects: Seq<ObjectView>,
    templates: Map<Seq<char>, Seq<PinView>>,
    i: int,
)
    requires
        0 <= i < objects.len(),
        piece(objects, templates, i) is Ok,
    ensures
        objects[i] is Chip ==> piece(objects, templates, i)->Ok_0.len() == templates[objects[i]->Chip_0.t].len(),
        !(objects[i] is Chip) ==> piece(objects, templates, i)->Ok_0 == seq![objects[i]],
{
}

/// The flattened form of a list of objects: every chip replaced by the pins
/// of its template.
pub open spec fn flattened(objects: Seq<ObjectView>, templates: Map<Seq<char>, Seq<PinView>>) -> Result<
    Seq<ObjectView>,
    ErrorView,
> {
    flatten_from(objects, templates, 0)
}

/// The count of the chips of a type does not fall along the list.
pub proof fn lemma_chips_of_type_grows(objects: Seq<ObjectView>, t: Seq<char>, m: int, n: int)
    requires
        m <= n,
    ensures
        chips_of_type(objects, t, m) <= chips_of_type(objects, t, n),
    decreases n - m,
{
    if m < n {
        lemma_chips_of_type_grows(objects, t, m, n - 1);
    }
}

/// Two chips of one type never give two pins the same label: where both
/// pins of the template have a label, the label of the one in the earlier
/// chip differs from the label of the other in the later chip.
pub proof fn lemma_instances_have_distinct_labels(
    objects: Seq<ObjectView>,
    i: int,
    j: int,
    a: PinView,
    b: PinView,
)
    requires
        0 <= i < j < objects.len(),
        objects[i] is Chip,
        objects[j] is Chip,
        objects[i]->Chip_0.t == objects[j]->Chip_0.t,
        a.label.len() > 0,
        b.label.len() > 0,
    ensures
        placed(a, objects[i]->Chip_0, chips_of_type(objects, objects[i]->Chip_0.t, i + 1)).label
            != placed(
            b,
            objects[j]->Chip_0,
            chips_of_type(objects, objects[j]->Chip_0.t, j + 1),
        ).label,
{
    let t = objects[i]->Chip_0.t;
    lemma_chips_of_type_grows(objects, t, i + 1, j);
    assert(chips_of_type(objects, t, j + 1) == chips_of_type(objects, t, j) + 1);
    lemma_unique_label_distinct(
        a.label,
        short_type(t),
        chips_of_type(objects, t, i + 1),
        b.label,
        short_type(t),
        chips_of_type(objects, t, j + 1),
    );
}

/// Within one chip, two pins with different labels keep different labels.
pub proof fn lemma_instance_keeps_labels_apart(chip: ChipView, count: nat, a: PinView, b: PinView)
    requires
        a.label != b.label,
    ensures
        placed(a, chip, count).label != placed(b, chip, count).label,
{
    lemma_decimal_round_trip(count);
    let t = short_type(chip.t);
    if a.label.len() > 0 && b.label.len() > 0 {
        if unique(a.label, t, count) == unique(b.label, t, count) {
            lemma_unique_label_injective(a.label, b.label, t, count);
        }
    } else if a.label.len() > 0 {
        assert(unique(a.label, t, count).len() > 0);
    } else if b.label.len() > 0 {
        assert(unique(b.label, t, count).len() > 0);
    }
}

/// Whether `pin` is the pin with the index `index` of a template of `n`
/// pins, in its place and one cell large.
pub open spec fn in_template(pin: PinView, index: int, n: int) -> bool {
    &&& 0 <= index < n
    &&& template_position(index, n / 2) == Some(pin.region.position)
    &&& pin.region.size == (Vector2 { x: 1, y: 1 })
}

/// A pin of a template, moved to its place in a chip with the size that
/// the template gives it, lies on a cell of the chip.
pub proof fn lemma_pin_stays_in_chip(pin: PinView, index: int, n: int, chip: ChipView, count: nat)
    requires
        in_template(pin, index, n),
        placeable(pin, chip),
        chip.region.size == (Vector2 { x: (n / 2) as u16, y: 3 }),
        n / 2 <= u16::MAX,
    ensures
        placed(pin, chip, count).region == Region::cell(placed(pin, chip, count).region.position),
        chip.region.covers(
            placed(pin, chip, count).region.position.x as int,
            placed(pin, chip, count).region.position.y as int,
        ),
{
}

/// The pins of two chips that do not overlap do not overlap either.
pub proof fn lemma_apart_chips_give_apart_pins(
    a: PinView,
    index_a: int,
    n_a: int,
    chip_a: ChipView,
    count_a: nat,
    b: PinView,
    index_b: int,
    n_b: int,
    chip_b: ChipView,
    count_b: nat,
)
    requires
        in_template(a, index_a, n_a),
        placeable(a, chip_a),
        chip_a.region.size == (Vector2 { x: (n_a / 2) as u16, y: 3 }),
        n_a / 2 <= u16::MAX,
        in_template(b, index_b, n_b),
        placeable(b, chip_b),
        chip_b.region.size == (Vector2 { x: (n_b / 2) as u16, y: 3 }),
        n_b / 2 <= u16::MAX,
        !chip_a.region.overlaps(chip_b.region),
    ensures
        !placed(a, chip_a, count_a).region.overlaps(placed(b, chip_b, count_b).region),
{
    let pa = placed(a, chip_a, count_a).region;
    let pb = placed(b, chip_b, count_b).region;
    lemma_pin_stays_in_chip(a, index_a, n_a, chip_a, count_a);
    lemma_pin_stays_in_chip(b, index_b, n_b, chip_b, count_b);
    lemma_overlap_shares_cell(chip_a.region, chip_b.region);
    if pa.overlaps(pb) {
        assert(pa.position == pb.position);
        assert(chip_a.region.covers(pa.position.x as int, pa.position.y as int));
        assert(chip_b.region.covers(pa.position.x as int, pa.position.y as int));
    }
}

/// Two pins of one template in different places are in different places
/// in the chip too.
pub proof fn lemma_pins_of_one_chip_stay_apart(
    a: PinView,
    index_a: int,
    b: PinView,
    index_b: int,
    n: int,
    chip: ChipView,
    count: nat,
)
    requires
        in_template(a, index_a, n),
        in_template(b, index_b, n),
        index_a != index_b,
        placeable(a, chip),
        placeable(b, chip),
    ensures
        !placed(a, chip, count).region.overlaps(placed(b, chip, count).region),
{
}

/// The number that `counts` holds for the type `t`: 0 where it holds none.
pub open spec fn counted(counts: Map<Seq<char>, u64>, t: Seq<char>) -> nat {
    if counts.contains_key(t) {
        counts[t] as nat
    } else {
        0
    }
}

fn rename_value(value: Value, t: &str, count: u64) -> (r: Value)
    ensures
        r@ == renamed_value(value@, t@, count as nat),
{
    match value {
        Value::And(labels) => Value::And(numbered_labels(labels, t, count)),
        Value::Or(labels) => Value::Or(numbered_labels(labels, t, count)),
        other => other,
    }
}

fn expand_chip(chip: &Chip, template: &Vec<Pin>, short: &str, count: u64) -> (r: Result<
    Vec<ObjectEnum>,
    CirnoError,
>)
    requires
        short@ == short_type(chip@.t),
    ensures
        match expanded(chip@, pin_views(template@), count as nat) {
            Ok(pins) => r is Ok && views(r->Ok_0@) == pins,
            Err(e) => r is Err && r->Err_0@ == e,
        },
{
    let origin = chip.region.position;
    let mut out: Vec<ObjectEnum> = Vec::new();
    let n = template.len();
    let mut k: usize = 0;
    while k < n
        invariant
            n == template@.len(),
            k <= n,
            out@.len() == k,
            origin == chip@.region.position,
            short@ == short_type(chip@.t),
            forall|j: int| 0 <= j < k ==> placeable(#[trigger] pin_views(template@)[j], chip@),
            forall|j: int|
                0 <= j < k ==> (#[trigger] out@[j])@ == ObjectView::Pin(
                    placed(template@[j]@, chip@, count as nat),
                ),
        decreases n - k,
    {
        let mut pin = template[k].clone();
        if pin.region.position.x > u16::MAX - origin.x || pin.region.position.y > u16::MAX
            - origin.y {
            proof {
                assert(!placeable(pin_views(template@)[k as int], chip@));
            }
            return Err(CirnoError::OutOfBounds);
        }
        pin.region.position.x = pin.region.position.x + origin.x;
        pin.region.position.y = pin.region.position.y + origin.y;
        if !pin.label.as_str().is_empty() {
            pin.label = numbered_label(pin.label, short, count);
        }
        pin.value = rename_value(pin.value, short, count);
        out.push(ObjectEnum::Pin(pin));
        k = k + 1;
    }
    proof {
        assert(all_placeable(pin_views(template@), chip@));
        assert(views(out@) =~= pin_views(template@).map_values(
            |p: PinView| ObjectView::Pin(placed(p, chip@, count as nat)),
        ));
    }
    Ok(out)
}

/// Replaces every chip by the pins of its template, each moved to its place
/// and renamed for its instance.
pub fn flatten(objects: &Vec<ObjectEnum>, templates: &Table<Vec<Pin>>) -> (r: Result<
    Vec<ObjectEnum>,
    CirnoError,
>)
    ensures
        match flattened(views(objects@), template_views(templates@)) {
            Ok(flat) => r is Ok && views(r->Ok_0@) == flat,
            Err(e) => r is Err && r->Err_0@ == e,
        },
{
    let mut v: Vec<ObjectEnum> = Vec::new();
    let mut chip_counts: Table<u64> = Table::new();
    let n = objects.len();
    let mut i: usize = 0;
    let ghost all = views(objects@);
    let ghost known = template_views(templates@);
    proof {
        assert(views(v@) =~= Seq::<ObjectView>::empty());
        assert(Seq::<ObjectView>::empty() + flatten_from(all, known, 0)->Ok_0 =~= flatten_from(
            all,
            known,
            0,
        )->Ok_0);
    }
    while i < n
        invariant
            all == views(objects@),
            n == objects@.len(),
            i <= n,
            known == template_views(templates@),
            flattened(all, known) == prepend(views(v@), flatten_from(all, known, i as int)),
            forall|t: Seq<char>| counted(chip_counts@, t) == chips_of_type(all, t, i as int),
        decreases n - i,
    {
        let ghost before = views(v@);
        let ghost rest = flatten_from(all, known, i + 1);
        match &objects[i] {
            ObjectEnum::Chip(chip) => {
                let short = short_chip_type(chip.t.clone());
                let c: u64 = match chip_counts.get(chip.t.as_str()) {
                    Some(c) => *c,
                    None => 0,
                };
                proof {
                    lemma_chips_of_type_bound(all, chip.t@, i as int);
                    assert(c == chips_of_type(all, chip.t@, i as int));
                    assert(all[i as int] == ObjectView::Chip(chip@));
                }
                let c: u64 = c + 1;
                let ghost old_counts = chip_counts@;
                chip_counts.insert(chip.t.clone(), c);
                proof {
                    assert forall|t: Seq<char>| counted(chip_counts@, t) == chips_of_type(
                        all,
                        t,
                        i + 1,
                    ) by {
                        assert(counted(old_counts, t) == chips_of_type(all, t, i as int));
                    }
                }
                match templates.get(chip.t.as_str()) {
                    None => {
                        return Err(CirnoError::NotFoundInStdlib(chip.t.clone()));
                    },
                    Some(template) => {
                        let mut pins = expand_chip(chip, template, short.as_str(), c)?;
                        let ghost added = views(pins@);
                        v.append(&mut pins);
                        proof {
                            assert(piece(all, known, i as int) == Ok::<Seq<ObjectView>, ErrorView>(
                                added,
                            ));
                            assert(views(v@) =~= before + added);
                            if rest is Ok {
                                assert(before + (added + rest->Ok_0) =~= before + added
                                    + rest->Ok_0);
                            }
                        }
                    },
                }
            },
            other => {
                let copy = other.clone();
                let ghost o = copy@;
                v.push(copy);
                proof {
                    assert(all[i as int] == o);
                    assert(piece(all, known, i as int) == Ok::<Seq<ObjectView>, ErrorView>(
                        seq![o],
                    ));
                    assert(views(v@) =~= before + seq![o]);
                    if rest is Ok {
                        assert(before + (seq![o] + rest->Ok_0) =~= before + seq![o] + rest->Ok_0);
                    }
                    assert forall|t: Seq<char>| counted(chip_counts@, t) == chips_of_type(
                        all,
                        t,
                        i + 1,
                    ) by {
                        assert(counted(chip_counts@, t) == chips_of_type(all, t, i as int));
                    }
                }
            },
        }
        i = i + 1;
    }
    proof {
        assert(views(v@) + Seq::<ObjectView>::empty() =~= views(v@));
    }
    Ok(v)
}

} // verus!
