use vstd::prelude::*;
use vstd::string::*;
use crate::error::{CirnoError, ErrorView};
use crate::flatten::{chips_of_type, in_template};
use crate::parser::{parse, parse_text};
use crate::project::{
    ObjectEnum, ObjectView, Pin, PinView, Region, Vector2, pin_views, template_position,
    template_views, views,
};
use crate::table::Table;
use crate::text::{
    lemma_text_before_irreflexive, lemma_text_before_transitive, text_before, text_lt,
};

verus! {

/// The name of the file that describes the chips of the type `t`.
pub open spec fn file_name(t: Seq<char>) -> Seq<char> {
    t + ".cic"@
}

/// The description of the chips of the type `filename` among `files`.
pub fn stdlib(filename: &str, files: &Table<String>) -> (r: Result<String, CirnoError>)
    ensures
        files@.contains_key(file_name(filename@)) ==> r is Ok && r->Ok_0@ == files@[file_name(
            filename@,
        )]@,
        !files@.contains_key(file_name(filename@)) ==> r is Err && r->Err_0@
            == ErrorView::NotFoundInStdlib(filename@),
{
    let mut name = filename.to_owned();
    name.append(".cic");
    match files.get(name.as_str()) {
        None => Err(CirnoError::NotFoundInStdlib(filename.to_owned())),
        Some(contents) => Ok(contents.clone()),
    }
}

/// The pin of a template that `object` describes, in its place: the pin
/// with the index `index` of a template that is `width` cells wide.
pub open spec fn template_pin(object: ObjectView, index: int, width: int) -> Result<
    PinView,
    ErrorView,
> {
    match object {
        ObjectView::Pin(p) => match template_position(index, width) {
            Some(position) => Ok(
                PinView {
                    label: p.label,
                    value: p.value,
                    region: Region { position, size: Vector2 { x: 1, y: 1 } },
                    voltage: p.voltage,
                },
            ),
            None => Err(ErrorView::OutOfBounds),
        },
        other => Err(ErrorView::InvalidObjectType(other.kind())),
    }
}

/// `pin` in front of what `rest` holds, or the error of `rest`.
pub open spec fn prepend_pin(pins: Seq<PinView>, rest: Result<Seq<PinView>, ErrorView>) -> Result<
    Seq<PinView>,
    ErrorView,
> {
    match rest {
        Ok(more) => Ok(pins + more),
        Err(e) => Err(e),
    }
}

/// The pins of a template that the objects from the index `i` on describe,
/// or the error of the first of them that has one. A template is half as
/// wide as it has pins.
pub open spec fn template_from(objects: Seq<ObjectView>, i: int) -> Result<Seq<PinView>, ErrorView>
    decreases objects.len() - i,
{
    if i < 0 || i >= objects.len() {
        Ok(Seq::empty())
    } else {
        match template_pin(objects[i], i, objects.len() as int / 2) {
            Err(e) => Err(e),
            Ok(p) => prepend_pin(seq![p], template_from(objects, i + 1)),
        }
    }
}

/// Every pin of a template is in its place and one cell large.
pub proof fn lemma_template_in_place(objects: Seq<ObjectView>, i: int, k: int)
    requires
        0 <= i <= objects.len(),
        template_from(objects, i) is Ok,
        0 <= k < objects.len() - i,
    ensures
        template_from(objects, i)->Ok_0.len() == objects.len() - i,
        in_template(template_from(objects, i)->Ok_0[k], i + k, objects.len() as int),
    decreases objects.len() - i,
{
    if i < objects.len() {
        let rest = template_from(objects, i + 1);
        let first = template_pin(objects[i], i, objects.len() as int / 2)->Ok_0;
        lemma_template_length(objects, i + 1);
        assert(template_from(objects, i)->Ok_0 == seq![first] + rest->Ok_0);
        if k > 0 {
            lemma_template_in_place(objects, i + 1, k - 1);
        }
    }
}

/// A template has as many pins as its description has objects.
pub proof fn lemma_template_length(objects: Seq<ObjectView>, i: int)
    requires
        0 <= i <= objects.len(),
        template_from(objects, i) is Ok,
    ensures
        template_from(objects, i)->Ok_0.len() == objects.len() - i,
    decreases objects.len() - i,
{
    if i < objects.len() {
        lemma_template_length(objects, i + 1);
    }
}

/// The template that a description gives.
pub open spec fn template_of(contents: Seq<char>) -> Result<Seq<PinView>, ErrorView> {
    match parse_text(contents) {
        Err(e) => Err(e),
        Ok(objects) => template_from(objects, 0),
    }
}

/// Reads the description of a type of chip: its pins, each in its place.
#[verifier::loop_isolation(false)]
pub fn load_template(contents: &str) -> (r: Result<Vec<Pin>, CirnoError>)
    ensures
        match template_of(contents@) {
            Ok(pins) => r is Ok && pin_views(r->Ok_0@) == pins,
            Err(e) => r is Err && r->Err_0@ == e,
        },
{
    let mut objects = parse(contents)?;
    let ghost all = views(objects@);
    let n = objects.len();
    let width = n / 2;
    let mut pins: Vec<Pin> = Vec::new();
    let mut index: usize = 0;
    proof {
        assert(pin_views(pins@) =~= Seq::<PinView>::empty());
        assert(Seq::<PinView>::empty() + template_from(all, 0)->Ok_0 =~= template_from(all, 0)->Ok_0);
    }
    while index < n
        invariant
            all == views(objects@),
            n == objects@.len(),
            width == n / 2,
            index <= n,
            template_from(all, 0) == prepend_pin(pin_views(pins@), template_from(all, index as int)),
        decreases n - index,
    {
        let ghost before = pin_views(pins@);
        let ghost rest = template_from(all, index + 1);
        proof {
            assert(all[index as int] == objects@[index as int]@);
        }
        match &objects[index] {
            ObjectEnum::Chip(_) => {
                return Err(CirnoError::InvalidObjectType("chip".to_owned()));
            },
            ObjectEnum::Meta(_) => {
                return Err(CirnoError::InvalidObjectType("meta".to_owned()));
            },
            ObjectEnum::Net(_) => {
                return Err(CirnoError::InvalidObjectType("net".to_owned()));
            },
            ObjectEnum::Wire(_) => {
                return Err(CirnoError::InvalidObjectType("wire".to_owned()));
            },
            ObjectEnum::Pin(found) => {
                let mut pin = found.clone();
                pin.set_temp_region_position(index, width)?;
                pin.set_region_size()?;
                let ghost p = pin@;
                pins.push(pin);
                proof {
                    assert(template_pin(all[index as int], index as int, n as int / 2) == Ok::<
                        PinView,
                        ErrorView,
                    >(p));
                    assert(pin_views(pins@) =~= before + seq![p]);
                    if rest is Ok {
                        assert(before + (seq![p] + rest->Ok_0) =~= before + seq![p] + rest->Ok_0);
                    }
                }
            },
        }
        index = index + 1;
    }
    proof {
        assert(pin_views(pins@) + Seq::<PinView>::empty() =~= pin_views(pins@));
    }
    Ok(pins)
}

/// The template of the chips of the type `t`, from the description that
/// `files` holds for it.
pub open spec fn resolved(t: Seq<char>, files: Map<Seq<char>, String>) -> Result<
    Seq<PinView>,
    ErrorView,
> {
    if files.contains_key(file_name(t)) {
        template_of(files[file_name(t)]@)
    } else {
        Err(ErrorView::NotFoundInStdlib(t))
    }
}

/// Finds and reads the description of the chips of the type `t`.
pub fn resolve(t: &str, files: &Table<String>) -> (r: Result<Vec<Pin>, CirnoError>)
    ensures
        match resolved(t@, files@) {
            Ok(pins) => r is Ok && pin_views(r->Ok_0@) == pins,
            Err(e) => r is Err && r->Err_0@ == e,
        },
{
    let contents = stdlib(t, files)?;
    load_template(contents.as_str())
}

/// The least, in the order of a dictionary, of the types of chip among the
/// first `n` objects whose template cannot be had.
pub open spec fn least_failing(objects: Seq<ObjectView>, files: Map<Seq<char>, String>, n: int) -> Option<
    Seq<char>,
>
    decreases n,
{
    if n <= 0 {
        None
    } else {
        let least = least_failing(objects, files, n - 1);
        match objects[n - 1] {
            ObjectView::Chip(c) => if resolved(c.t, files) is Err && (least is None || text_before(
                c.t,
                least->Some_0,
            )) {
                Some(c.t)
            } else {
                least
            },
            _ => least,
        }
    }
}

/// What `least_failing` gives is the type of a chip among the objects, its
/// template cannot be had, and no type of which that is true comes before
/// it. Where it gives none, the template of every chip can be had.
pub proof fn lemma_least_failing(objects: Seq<ObjectView>, files: Map<Seq<char>, String>, n: int)
    requires
        0 <= n <= objects.len(),
    ensures
        match least_failing(objects, files, n) {
            Some(t) => {
                &&& chips_of_type(objects, t, n) > 0
                &&& resolved(t, files) is Err
                &&& forall|j: int|
                    0 <= j < n && (#[trigger] objects[j]) is Chip && resolved(
                        objects[j]->Chip_0.t,
                        files,
                    ) is Err ==> !text_before(objects[j]->Chip_0.t, t)
            },
            None => forall|j: int|
                0 <= j < n && (#[trigger] objects[j]) is Chip ==> resolved(
                    objects[j]->Chip_0.t,
                    files,
                ) is Ok,
        },
    decreases n,
{
    if n > 0 {
        lemma_least_failing(objects, files, n - 1);
        let least = least_failing(objects, files, n - 1);
        match objects[n - 1] {
            ObjectView::Chip(c) => {
                if resolved(c.t, files) is Err {
                    if least is None {
                        lemma_text_before_irreflexive(c.t, 0);
                    } else if text_before(c.t, least->Some_0) {
                        lemma_text_before_irreflexive(c.t, 0);
                        assert forall|j: int|
                            0 <= j < n - 1 && (#[trigger] objects[j]) is Chip && resolved(
                                objects[j]->Chip_0.t,
                                files,
                            ) is Err implies !text_before(objects[j]->Chip_0.t, c.t) by {
                            if text_before(objects[j]->Chip_0.t, c.t) {
                                lemma_text_before_transitive(
                                    objects[j]->Chip_0.t,
                                    c.t,
                                    least->Some_0,
                                    0,
                                );
                            }
                        }
                    }
                }
            },
            _ => {},
        }
    }
}

/// The error of the chip whose template cannot be had: where there are
/// several types of such chips, that of the type that comes first in the
/// order of a dictionary.
pub open spec fn unresolved(objects: Seq<ObjectView>, files: Map<Seq<char>, String>) -> Option<
    ErrorView,
> {
    match least_failing(objects, files, objects.len() as int) {
        Some(t) => Some(resolved(t, files)->Err_0),
        None => None,
    }
}

/// The templates of the types of chip among `objects`.
pub open spec fn resolved_templates(objects: Seq<ObjectView>, files: Map<Seq<char>, String>) -> Map<
    Seq<char>,
    Seq<PinView>,
> {
    Map::new(
        |t: Seq<char>| chips_of_type(objects, t, objects.len() as int) > 0,
        |t: Seq<char>| resolved(t, files)->Ok_0,
    )
}

/// Whether `templates` holds the template of every type of chip among the
/// first `n` objects that has one, and nothing else.
pub open spec fn holds_templates(
    templates: Map<Seq<char>, Vec<Pin>>,
    objects: Seq<ObjectView>,
    files: Map<Seq<char>, String>,
    n: int,
) -> bool {
    forall|t: Seq<char>|
        {
            &&& templates.contains_key(t) <==> chips_of_type(objects, t, n) > 0 && resolved(
                t,
                files,
            ) is Ok
            &&& #[trigger] templates.contains_key(t) ==> resolved(t, files) == Ok::<
                Seq<PinView>,
                ErrorView,
            >(pin_views(templates[t]@))
        }
}

/// The type that a failure names.
pub open spec fn failed_type(worst: Option<(String, CirnoError)>) -> Option<Seq<char>> {
    match worst {
        Some((t, _)) => Some(t@),
        None => None,
    }
}

/// Loads the template of every type of chip among `objects`, each once.
/// Where the templates of several types cannot be had, the error is that
/// of the type that comes first in the order of a dictionary.
pub fn load_templates(objects: &Vec<ObjectEnum>, files: &Table<String>) -> (r: Result<
    Table<Vec<Pin>>,
    CirnoError,
>)
    ensures
        match unresolved(views(objects@), files@) {
            Some(e) => r is Err && r->Err_0@ == e,
            None => r is Ok && template_views(r->Ok_0@) == resolved_templates(
                views(objects@),
                files@,
            ),
        },
{
    let mut templates: Table<Vec<Pin>> = Table::new();
    let mut worst: Option<(String, CirnoError)> = None;
    let ghost all = views(objects@);
    let n = objects.len();
    let mut i: usize = 0;
    while i < n
        invariant
            all == views(objects@),
            n == objects@.len(),
            i <= n,
            failed_type(worst) == least_failing(all, files@, i as int),
            worst matches Some((t, e)) ==> resolved(t@, files@) is Err && e@ == resolved(
                t@,
                files@,
            )->Err_0,
            worst is None ==> forall|t: Seq<char>|
                chips_of_type(all, t, i as int) > 0 ==> (#[trigger] resolved(t, files@)) is Ok,
            holds_templates(templates@, all, files@, i as int),
        decreases n - i,
    {
        proof {
            assert(all[i as int] == objects@[i as int]@);
        }
        let ghost loaded = templates@;
        let ghost was = worst;
        match &objects[i] {
            ObjectEnum::Chip(chip) => {
                if !templates.contains_key(chip.t.as_str()) {
                    match resolve(chip.t.as_str(), files) {
                        Ok(pins) => {
                            templates.insert(chip.t.clone(), pins);
                        },
                        Err(e) => {
                            let better = match &worst {
                                None => true,
                                Some((t, _)) => text_lt(chip.t.as_str(), t.as_str()),
                            };
                            if better {
                                worst = Some((chip.t.clone(), e));
                            }
                        },
                    }
                }
                proof {
                    assert forall|t: Seq<char>|
                        {
                            &&& templates@.contains_key(t) <==> chips_of_type(all, t, i + 1) > 0
                                && resolved(t, files@) is Ok
                            &&& #[trigger] templates@.contains_key(t) ==> resolved(t, files@)
                                == Ok::<Seq<PinView>, ErrorView>(pin_views(templates@[t]@))
                        } by {
                        assert(loaded.contains_key(t) <==> chips_of_type(all, t, i as int) > 0
                            && resolved(t, files@) is Ok);
                    }
                    if worst is None {
                        assert(was is None);
                        assert forall|t: Seq<char>| chips_of_type(all, t, i + 1) > 0 implies (
                        #[trigger] resolved(t, files@)) is Ok by {
                            if t != chip.t@ {
                                assert(chips_of_type(all, t, i as int) > 0);
                            }
                        }
                    }
                }
            },
            _ => {
                proof {
                    assert forall|t: Seq<char>|
                        {
                            &&& templates@.contains_key(t) <==> chips_of_type(all, t, i + 1) > 0
                                && resolved(t, files@) is Ok
                            &&& #[trigger] templates@.contains_key(t) ==> resolved(t, files@)
                                == Ok::<Seq<PinView>, ErrorView>(pin_views(templates@[t]@))
                        } by {
                        assert(loaded.contains_key(t) <==> chips_of_type(all, t, i as int) > 0
                            && resolved(t, files@) is Ok);
                    }
                    if worst is None {
                        assert forall|t: Seq<char>| chips_of_type(all, t, i + 1) > 0 implies (
                        #[trigger] resolved(t, files@)) is Ok by {
                            assert(chips_of_type(all, t, i as int) > 0);
                        }
                    }
                }
            },
        }
        i = i + 1;
    }
    match worst {
        Some((_, e)) => Err(e),
        None => {
            proof {
                assert forall|t: Seq<char>| #[trigger]
                    template_views(templates@).contains_key(t) == resolved_templates(
                        all,
                        files@,
                    ).contains_key(t) by {
                    assert(templates@.contains_key(t) <==> chips_of_type(all, t, n as int) > 0
                        && resolved(t, files@) is Ok);
                    if chips_of_type(all, t, n as int) > 0 {
                        assert(resolved(t, files@) is Ok);
                    }
                }
                assert(template_views(templates@) =~= resolved_templates(all, files@));
            }
            Ok(templates)
        },
    }
}

} // verus!
