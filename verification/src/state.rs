use vstd::prelude::*;
use crate::error::{CirnoError, ErrorView};
use crate::flatten::{flatten, flattened};
use crate::parser::{parse, parse_text};
use crate::project::{
    Color, Meta, ObjectEnum, ObjectView, Pin, PinView, Vector2, template_views, views,
};
use crate::stdlib::{load_templates, resolved_templates, unresolved};
use crate::table::Table;
use crate::text::text_eq;
use crate::validate::{first_overlap, verification, verify_overlap, verify_project};
use crate::voltage::{connect_pins, connected, propagate_logic, propagated};
use crate::wires::{first_unlabelable, label_wires, labelled, unlabelable_error};

verus! {

/// The modes of the editor.
#[derive(Clone, Copy, Debug, PartialEq, Eq, Structural)]
pub enum Modes {
    Console,
    Normal,
}

/// Whether a file with the extension `extension` can be opened: only a
/// project, a file that ends in `.cip`, can.
pub open spec fn extension_error(filename: Seq<char>, extension: Option<Seq<char>>) -> Option<
    ErrorView,
> {
    match extension {
        None => Some(ErrorView::InvalidFile(filename)),
        Some(e) => if e == "cip"@ {
            None
        } else if e == "cic"@ {
            Some(ErrorView::OpenCicNotImplemented)
        } else {
            Some(ErrorView::InvalidFiletype(e))
        },
    }
}

/// Checks by its extension that the file `filename` is a project.
pub fn check_extension(filename: &str, extension: Option<&str>) -> (r: Result<(), CirnoError>)
    ensures
        match extension_error(
            filename@,
            match extension {
                Some(e) => Some(e@),
                None => None,
            },
        ) {
            None => r is Ok,
            Some(e) => r is Err && r->Err_0@ == e,
        },
{
    match extension {
        None => Err(CirnoError::InvalidFile(filename.to_owned())),
        Some(e) => if text_eq(e, "cip") {
            Ok(())
        } else if text_eq(e, "cic") {
            Err(CirnoError::OpenCicNotImplemented)
        } else {
            Err(CirnoError::InvalidFiletype(e.to_owned()))
        },
    }
}

/// The first canvas from the index `i` on.
pub open spec fn first_meta(objects: Seq<ObjectView>, i: int) -> Option<Meta>
    decreases objects.len() - i,
{
    if i < 0 || i >= objects.len() {
        None
    } else {
        match objects[i] {
            ObjectView::Meta(m) => Some(m),
            _ => first_meta(objects, i + 1),
        }
    }
}

/// How many of the first `n` objects are a canvas.
pub open spec fn metas_in(objects: Seq<ObjectView>, n: int) -> nat
    decreases n,
{
    if n <= 0 {
        0
    } else {
        metas_in(objects, n - 1) + if objects[n - 1] is Meta {
            1nat
        } else {
            0nat
        }
    }
}

/// The canvas of a project: the one canvas among its objects. A project
/// without a canvas has none, and neither has one with several.
pub open spec fn only_meta(objects: Seq<ObjectView>) -> Option<Meta> {
    if metas_in(objects, objects.len() as int) == 1 {
        first_meta(objects, 0)
    } else {
        None
    }
}

/// Where there is a canvas among the first `n` objects, `first_meta` finds
/// one.
proof fn lemma_first_meta_found(objects: Seq<ObjectView>, i: int, k: int)
    requires
        0 <= i <= k < objects.len(),
        objects[k] is Meta,
    ensures
        first_meta(objects, i) is Some,
    decreases objects.len() - i,
{
    if !(objects[i] is Meta) {
        lemma_first_meta_found(objects, i + 1, k);
    }
}

proof fn lemma_counted_meta(objects: Seq<ObjectView>, n: int)
    requires
        0 <= n <= objects.len(),
        metas_in(objects, n) > 0,
    ensures
        exists|k: int| 0 <= k < n && (#[trigger] objects[k]) is Meta,
    decreases n,
{
    if !(objects[n - 1] is Meta) {
        lemma_counted_meta(objects, n - 1);
    }
}

/// A project has a canvas exactly when one of its objects is a canvas and
/// no other is.
pub proof fn lemma_only_meta(objects: Seq<ObjectView>)
    ensures
        only_meta(objects) is Some <==> metas_in(objects, objects.len() as int) == 1,
{
    if metas_in(objects, objects.len() as int) == 1 {
        lemma_counted_meta(objects, objects.len() as int);
        let k = choose|k: int| 0 <= k < objects.len() && (#[trigger] objects[k]) is Meta;
        lemma_first_meta_found(objects, 0, k);
    }
}

/// Return the canvas of a project, or `MetaObjectError` if the project has
/// none or more than one.
pub fn only_meta_in(objects: &Vec<ObjectEnum>) -> (r: Result<Meta, CirnoError>)
    ensures
        match only_meta(views(objects@)) {
            Some(m) => r is Ok && r->Ok_0 == m,
            None => r is Err && r->Err_0@ == ErrorView::MetaObjectError,
        },
{
    let meta = find_meta_in(objects)?;
    let n = objects.len();
    let mut count: usize = 0;
    let mut i: usize = 0;
    while i < n
        invariant
            n == objects@.len(),
            i <= n,
            count == metas_in(views(objects@), i as int),
            count <= i,
        decreases n - i,
    {
        proof {
            assert(views(objects@)[i as int] == objects@[i as int]@);
        }
        match &objects[i] {
            ObjectEnum::Meta(_) => {
                count = count + 1;
            },
            _ => {},
        }
        i = i + 1;
    }
    if count != 1 {
        return Err(CirnoError::MetaObjectError);
    }
    Ok(meta)
}

/// Return the first meta object, or `MetaObjectError` if there is none.
pub fn find_meta_in(objects: &Vec<ObjectEnum>) -> (r: Result<Meta, CirnoError>)
    ensures
        match first_meta(views(objects@), 0) {
            Some(m) => r is Ok && r->Ok_0 == m,
            None => r is Err && r->Err_0@ == ErrorView::MetaObjectError,
        },
{
    let n = objects.len();
    let mut i: usize = 0;
    while i < n
        invariant
            n == objects@.len(),
            i <= n,
            first_meta(views(objects@), 0) == first_meta(views(objects@), i as int),
        decreases n - i,
    {
        proof {
            assert(views(objects@)[i as int] == objects@[i as int]@);
        }
        match &objects[i] {
            ObjectEnum::Meta(meta) => {
                return Ok(*meta);
            },
            _ => {},
        }
        i = i + 1;
    }
    Err(CirnoError::MetaObjectError)
}

/// The index of the first object from `i` on that cannot be given its
/// size, with the reason.
pub open spec fn first_unsizable(
    objects: Seq<ObjectView>,
    bounds: Vector2,
    templates: Map<Seq<char>, Seq<PinView>>,
    i: int,
) -> Option<(int, ErrorView)>
    decreases objects.len() - i,
{
    if i < 0 || i >= objects.len() {
        None
    } else {
        match objects[i].sized(bounds, templates) {
            Err(e) => Some((i, e)),
            Ok(_) => first_unsizable(objects, bounds, templates, i + 1),
        }
    }
}

/// The objects with the first `upto` of them given their size.
pub open spec fn sized_upto(
    objects: Seq<ObjectView>,
    bounds: Vector2,
    templates: Map<Seq<char>, Seq<PinView>>,
    upto: int,
) -> Seq<ObjectView> {
    Seq::new(
        objects.len(),
        |i: int|
            if i < upto {
                objects[i].sized(bounds, templates)->Ok_0
            } else {
                objects[i]
            },
    )
}

/// Set the size of the region of every object, in the order of the list.
/// At the first object that cannot be given its size the work stops with
/// an error; the objects before it keep their new size.
#[verifier::loop_isolation(false)]
pub fn size_objects(objects: &mut Vec<ObjectEnum>, bounds: Vector2, templates: &Table<Vec<Pin>>) -> (r:
    Result<(), CirnoError>)
    ensures
        match first_unsizable(views(old(objects)@), bounds, template_views(templates@), 0) {
            None => r is Ok && views(final(objects)@) == sized_upto(
                views(old(objects)@),
                bounds,
                template_views(templates@),
                old(objects)@.len() as int,
            ),
            Some((k, e)) => r is Err && r->Err_0@ == e && views(final(objects)@) == sized_upto(
                views(old(objects)@),
                bounds,
                template_views(templates@),
                k,
            ),
        },
{
    let ghost before = views(objects@);
    let ghost known = template_views(templates@);
    let n = objects.len();
    let mut i: usize = 0;
    proof {
        assert(views(objects@) =~= sized_upto(before, bounds, known, 0));
    }
    while i < n
        invariant
            n == objects@.len(),
            i <= n,
            views(objects@) == sized_upto(before, bounds, known, i as int),
            first_unsizable(before, bounds, known, 0) == first_unsizable(
                before,
                bounds,
                known,
                i as int,
            ),
        decreases n - i,
    {
        let ghost current = objects@;
        proof {
            assert(views(current)[i as int] == current[i as int]@);
            assert(current[i as int]@ == before[i as int]);
        }
        let step = objects[i].set_region_size(bounds, templates);
        proof {
            assert forall|j: int| 0 <= j < n && j != i implies objects@[j] == current[j] by {}
            assert forall|j: int| 0 <= j < n && j != i implies #[trigger] views(objects@)[j]
                == views(current)[j] by {
                assert(objects@[j] == current[j]);
            }
        }
        match step {
            Err(e) => {
                proof {
                    assert(objects@[i as int]@ == before[i as int]);
                    assert(views(objects@) =~= sized_upto(before, bounds, known, i as int));
                }
                return Err(e);
            },
            Ok(_) => {
                proof {
                    assert(views(objects@) =~= sized_upto(before, bounds, known, i + 1));
                }
            },
        }
        i = i + 1;
    }
    Ok(())
}

/// The objects of a project ready for validation: each with its size,
/// the wires labelled.
pub open spec fn prepared(
    parsed: Seq<ObjectView>,
    bounds: Vector2,
    templates: Map<Seq<char>, Seq<PinView>>,
) -> Result<Seq<ObjectView>, ErrorView> {
    match first_unsizable(parsed, bounds, templates, 0) {
        Some((_, e)) => Err(e),
        None => {
            let sized = sized_upto(parsed, bounds, templates, parsed.len() as int);
            match first_unlabelable(sized, 0) {
                Some(k) => Err(unlabelable_error(sized[k])),
                None => Ok(labelled(sized, sized.len() as int)),
            }
        },
    }
}

/// The final objects of a validated project: the chips replaced by their
/// pins, the voltages of the pins found.
pub open spec fn resolved_objects(
    ready: Seq<ObjectView>,
    templates: Map<Seq<char>, Seq<PinView>>,
) -> Result<Seq<ObjectView>, ErrorView> {
    match flattened(ready, templates) {
        Err(e) => Err(e),
        Ok(flat) => Ok(propagated(connected(flat))),
    }
}

/// What loading a project gives.
pub struct Loaded {
    pub meta: Meta,
    pub templates: Map<Seq<char>, Seq<PinView>>,
    pub objects: Seq<ObjectView>,
}

/// What the source text `contents` gives on a terminal of `columns` by
/// `rows` cells, with the descriptions of chips `files`: the stages in
/// their order, and the error of the first stage that has one. A project
/// has exactly one canvas.
pub open spec fn loaded(
    contents: Seq<char>,
    files: Map<Seq<char>, String>,
    columns: u16,
    rows: u16,
) -> Result<Loaded, ErrorView> {
    match parse_text(contents) {
        Err(e) => Err(e),
        Ok(parsed) => match only_meta(parsed) {
            None => Err(ErrorView::MetaObjectError),
            Some(meta) => match unresolved(parsed, files) {
                Some(e) => Err(e),
                None => {
                    let templates = resolved_templates(parsed, files);
                    match prepared(parsed, meta.bounds, templates) {
                        Err(e) => Err(e),
                        Ok(ready) => match verification(columns, rows, meta, ready) {
                            Some(e) => Err(e),
                            None => match resolved_objects(ready, templates) {
                                Err(e) => Err(e),
                                Ok(objects) => Ok(Loaded { meta, templates, objects }),
                            },
                        },
                    }
                },
            },
        },
    }
}

/// The state of the editor: the terminal, the cursor and the project.
pub struct CirnoState {
    pub columns: u16,
    pub rows: u16,
    pub mode: Modes,
    pub cursor: Vector2,
    pub char_under_cursor: (char, Option<Color>),
    pub objects: Vec<ObjectEnum>,
    pub meta: Meta,
    pub error: String,
    pub cic_data: Table<Vec<Pin>>,
    pub repeat_amount: u16,
    pub search_result: Vec<ObjectEnum>,
}

impl CirnoState {
    /// What the state holds beside the project.
    pub open spec fn editor(&self) -> (
        u16,
        u16,
        Modes,
        Vector2,
        (char, Option<Color>),
        String,
        u16,
        Vec<ObjectEnum>,
    ) {
        (
            self.columns,
            self.rows,
            self.mode,
            self.cursor,
            self.char_under_cursor,
            self.error,
            self.repeat_amount,
            self.search_result,
        )
    }

    /// Whether `other` differs from this state in nothing but its objects.
    pub open spec fn same_but_objects(&self, other: &CirnoState) -> bool {
        &&& self.editor() == other.editor()
        &&& self.meta == other.meta
        &&& self.cic_data == other.cic_data
    }

    /// Create a new state for a terminal of `columns` by `rows` cells.
    pub fn new(columns: u16, rows: u16) -> (state: CirnoState)
        ensures
            state.columns == columns,
            state.rows == rows,
            state.mode == Modes::Normal,
            state.cursor == (Vector2 { x: 0, y: 0 }),
            state.char_under_cursor == (' ', None::<Color>),
            state.objects@.len() == 0,
            state.meta == Meta::blank(),
            state.error@.len() == 0,
            state.cic_data@ == Map::<Seq<char>, Vec<Pin>>::empty(),
            state.repeat_amount == 0,
            state.search_result@.len() == 0,
    {
        CirnoState {
            columns,
            rows,
            mode: Modes::Normal,
            cursor: Vector2 { x: 0, y: 0 },
            char_under_cursor: (' ', None),
            objects: Vec::new(),
            meta: Meta { bounds: Vector2 { x: 0, y: 0 } },
            error: String::new(),
            cic_data: Table::new(),
            repeat_amount: 0,
            search_result: Vec::new(),
        }
    }

    /// Set the current mode.
    pub fn set_mode(&mut self, mode: Modes)
        ensures
            *final(self) == (CirnoState { mode, ..*old(self) }),
    {
        self.mode = mode;
    }

    /// Populate `cic_data` with the template of every type of chip among
    /// `objects`. The first pin of each template is at (0, 2), the last
    /// at (0, 0).
    pub fn set_cic_data(&mut self, files: &Table<String>) -> (r: Result<(), CirnoError>)
        ensures
            match unresolved(views(old(self).objects@), files@) {
                Some(e) => r is Err && r->Err_0@ == e && *final(self) == *old(self),
                None => r is Ok && template_views(final(self).cic_data@) == resolved_templates(
                    views(old(self).objects@),
                    files@,
                ) && final(self).editor() == old(self).editor() && final(self).meta == old(
                    self,
                ).meta && final(self).objects == old(self).objects,
            },
    {
        let templates = load_templates(&self.objects, files)?;
        self.cic_data = templates;
        Ok(())
    }

    /// Set the `region.size` property of every object.
    pub fn set_region_sizes(&mut self) -> (r: Result<(), CirnoError>)
        ensures
            final(self).same_but_objects(old(self)),
            match first_unsizable(
                views(old(self).objects@),
                old(self).meta.bounds,
                template_views(old(self).cic_data@),
                0,
            ) {
                None => r is Ok && views(final(self).objects@) == sized_upto(
                    views(old(self).objects@),
                    old(self).meta.bounds,
                    template_views(old(self).cic_data@),
                    old(self).objects@.len() as int,
                ),
                Some((k, e)) => r is Err && r->Err_0@ == e && views(final(self).objects@)
                    == sized_upto(
                    views(old(self).objects@),
                    old(self).meta.bounds,
                    template_views(old(self).cic_data@),
                    k,
                ),
            },
    {
        size_objects(&mut self.objects, self.meta.bounds, &self.cic_data)
    }

    /// Set the `label` property of every wire object.
    pub fn set_wire_labels(&mut self) -> (r: Result<(), CirnoError>)
        ensures
            final(self).same_but_objects(old(self)),
            match first_unlabelable(views(old(self).objects@), 0) {
                None => r is Ok && views(final(self).objects@) == labelled(
                    views(old(self).objects@),
                    old(self).objects@.len() as int,
                ),
                Some(k) => r is Err && r->Err_0@ == unlabelable_error(
                    views(old(self).objects@)[k],
                ) && views(final(self).objects@) == labelled(views(old(self).objects@), k),
            },
    {
        label_wires(&mut self.objects)
    }

    /// Set the `voltage` property of every pin object connected to a net with a wire.
    pub fn set_pin_voltages(&mut self) -> (r: Result<(), CirnoError>)
        ensures
            r is Ok,
            final(self).same_but_objects(old(self)),
            views(final(self).objects@) == connected(views(old(self).objects@)),
    {
        connect_pins(&mut self.objects);
        Ok(())
    }

    /// Calculate the `voltage` property for every pin object with a calculable Value.
    pub fn calculate_voltages_from_values(&mut self) -> (r: Result<(), CirnoError>)
        ensures
            r is Ok,
            final(self).same_but_objects(old(self)),
            views(final(self).objects@) == propagated(views(old(self).objects@)),
    {
        propagate_logic(&mut self.objects);
        Ok(())
    }

    /// Replace the chips in `objects` with the corresponding pins from `cic_data`, updating the
    /// position of each.
    pub fn convert_chips(&mut self) -> (r: Result<(), CirnoError>)
        ensures
            final(self).same_but_objects(old(self)),
            match flattened(views(old(self).objects@), template_views(old(self).cic_data@)) {
                Ok(flat) => r is Ok && views(final(self).objects@) == flat,
                Err(e) => r is Err && r->Err_0@ == e && final(self).objects == old(self).objects,
            },
    {
        let v = flatten(&self.objects, &self.cic_data)?;
        self.objects = v;
        Ok(())
    }

    /// Return the meta object, or CirnoError::MetaObjectError if it cannot be found.
    pub fn find_meta(&mut self) -> (r: Result<Meta, CirnoError>)
        ensures
            *final(self) == *old(self),
            match first_meta(views(old(self).objects@), 0) {
                Some(m) => r is Ok && r->Ok_0 == m,
                None => r is Err && r->Err_0@ == ErrorView::MetaObjectError,
            },
    {
        find_meta_in(&self.objects)
    }

    /// Verify the current state.
    pub fn verify(&mut self) -> (r: Result<(), CirnoError>)
        ensures
            *final(self) == *old(self),
            match verification(
                old(self).columns,
                old(self).rows,
                old(self).meta,
                views(old(self).objects@),
            ) {
                None => r is Ok,
                Some(e) => r is Err && r->Err_0@ == e,
            },
    {
        verify_project(self.columns, self.rows, &self.meta, &self.objects)
    }

    /// Verify that no objects overlap with each other.
    pub fn verify_overlap(&mut self) -> (r: Result<(), CirnoError>)
        ensures
            *final(self) == *old(self),
            match first_overlap(views(old(self).objects@), 0) {
                None => r is Ok,
                Some((i, j)) => r is Err && r->Err_0@ == ErrorView::OverlappingRegion(
                    i as usize,
                    j as usize,
                ) && i < j < old(self).objects@.len(),
            },
    {
        verify_overlap(&self.objects)
    }

    /// Loads a project from its source text: every stage in its order, up
    /// to the first that fails. A failure leaves the state as it was, and
    /// so does an empty text.
    pub fn load(&mut self, contents: &str, files: &Table<String>) -> (r: Result<(), CirnoError>)
        ensures
            contents@.len() == 0 ==> r is Ok && *final(self) == *old(self),
            contents@.len() > 0 ==> match loaded(
                contents@,
                files@,
                old(self).columns,
                old(self).rows,
            ) {
                Ok(l) => {
                    &&& r is Ok
                    &&& final(self).meta == l.meta
                    &&& template_views(final(self).cic_data@) == l.templates
                    &&& views(final(self).objects@) == l.objects
                    &&& final(self).editor() == old(self).editor()
                },
                Err(e) => r is Err && r->Err_0@ == e && *final(self) == *old(self),
            },
    {
        if contents.is_empty() {
            return Ok(());
        }
        let mut objects = parse(contents)?;
        let meta = only_meta_in(&objects)?;
        let templates = load_templates(&objects, files)?;
        size_objects(&mut objects, meta.bounds, &templates)?;
        label_wires(&mut objects)?;
        verify_project(self.columns, self.rows, &meta, &objects)?;
        let mut flat = flatten(&objects, &templates)?;
        connect_pins(&mut flat);
        propagate_logic(&mut flat);
        self.objects = flat;
        self.meta = meta;
        self.cic_data = templates;
        Ok(())
    }
}

} // verus!
