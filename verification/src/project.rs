use vstd::prelude::*;
use vstd::string::*;
use crate::error::{CirnoError, ErrorView};
use crate::table::Table;
use crate::text::{text_eq, texts};

verus! {

/// A cell of the canvas, counted from the top left corner.
#[derive(Clone, Copy, Debug, PartialEq, Eq, Structural)]
pub struct Vector2 {
    pub x: u16,
    pub y: u16,
}

impl Default for Vector2 {
    fn default() -> (v: Vector2)
        ensures
            v == (Vector2 { x: 0, y: 0 }),
    {
        Vector2 { x: 0, y: 0 }
    }
}

/// An axis-aligned rectangle of cells: `size.x` columns and `size.y` rows
/// whose top left cell is `position`.
#[derive(Clone, Copy, Debug, PartialEq, Eq, Structural)]
pub struct Region {
    pub position: Vector2,
    pub size: Vector2,
}

impl Default for Region {
    fn default() -> (r: Region)
        ensures
            r == Region::blank(),
    {
        Region { position: Vector2 { x: 0, y: 0 }, size: Vector2 { x: 0, y: 0 } }
    }
}

impl Region {
    /// The region at the origin without any cell.
    pub open spec fn blank() -> Region {
        Region { position: Vector2 { x: 0, y: 0 }, size: Vector2 { x: 0, y: 0 } }
    }

    /// A region without columns or without rows covers no cell.
    pub open spec fn degenerate(self) -> bool {
        self.size.x == 0 || self.size.y == 0
    }

    /// Whether the cell `(x, y)` lies in the region.
    pub open spec fn covers(self, x: int, y: int) -> bool {
        &&& self.position.x <= x < self.position.x + self.size.x
        &&& self.position.y <= y < self.position.y + self.size.y
    }

    /// The rectangle intersection test on inclusive edges. A degenerate
    /// region overlaps nothing.
    pub open spec fn overlaps(self, other: Region) -> bool {
        &&& !self.degenerate()
        &&& !other.degenerate()
        &&& self.position.x <= other.position.x + other.size.x - 1
        &&& self.position.x + self.size.x - 1 >= other.position.x
        &&& self.position.y <= other.position.y + other.size.y - 1
        &&& self.position.y + self.size.y - 1 >= other.position.y
    }

    /// The region of one cell at `point`.
    pub open spec fn cell(point: Vector2) -> Region {
        Region { position: point, size: Vector2 { x: 1, y: 1 } }
    }

    /// Return whether a region is overlapping another.
    pub fn overlapping(&self, other: &Region) -> (b: bool)
        ensures
            b == self.overlaps(*other),
    {
        if self.size.x == 0 || self.size.y == 0 || other.size.x == 0 || other.size.y == 0 {
            return false;
        }
        let r1_left: u32 = self.position.x as u32;
        let r1_right: u32 = self.position.x as u32 + self.size.x as u32 - 1;
        let r1_top: u32 = self.position.y as u32;
        let r1_bottom: u32 = self.position.y as u32 + self.size.y as u32 - 1;
        let r2_left: u32 = other.position.x as u32;
        let r2_right: u32 = other.position.x as u32 + other.size.x as u32 - 1;
        let r2_top: u32 = other.position.y as u32;
        let r2_bottom: u32 = other.position.y as u32 + other.size.y as u32 - 1;
        r1_left <= r2_right && r1_right >= r2_left && r1_top <= r2_bottom && r1_bottom >= r2_top
    }

    /// Return whether a region is overlapping a Vector2.
    pub fn overlapping_vec2(&self, vec2: Vector2) -> (b: bool)
        ensures
            b == self.overlaps(Region::cell(vec2)),
            b == self.covers(vec2.x as int, vec2.y as int),
    {
        self.overlapping(&Region { position: vec2, size: Vector2 { x: 1, y: 1 } })
    }
}

/// Overlap does not depend on the order of the two regions.
pub proof fn lemma_overlap_symmetric(a: Region, b: Region)
    ensures
        a.overlaps(b) == b.overlaps(a),
{
}

/// A region that covers at least one cell overlaps itself.
pub proof fn lemma_overlap_reflexive(a: Region)
    requires
        a.size.x > 0,
        a.size.y > 0,
    ensures
        a.overlaps(a),
{
}

/// Two regions overlap exactly when some cell lies in both.
pub proof fn lemma_overlap_shares_cell(a: Region, b: Region)
    ensures
        a.overlaps(b) <==> exists|x: int, y: int| a.covers(x, y) && b.covers(x, y),
{
    if a.overlaps(b) {
        let x = if a.position.x >= b.position.x { a.position.x as int } else { b.position.x as int };
        let y = if a.position.y >= b.position.y { a.position.y as int } else { b.position.y as int };
        assert(a.covers(x, y) && b.covers(x, y));
    }
}

/// Copies a list of texts.
pub fn clone_texts(v: &Vec<String>) -> (r: Vec<String>)
    ensures
        texts(r@) == texts(v@),
{
    let mut r: Vec<String> = Vec::new();
    let n = v.len();
    let mut i: usize = 0;
    while i < n
        invariant
            n == v@.len(),
            i <= n,
            r@.len() == i,
            forall|j: int| 0 <= j < i ==> (#[trigger] r@[j])@ == v@[j]@,
        decreases n - i,
    {
        r.push(v[i].clone());
        i = i + 1;
    }
    proof {
        assert(texts(r@) =~= texts(v@));
    }
    r
}

/// What a pin is declared to hold.
#[derive(Debug, PartialEq, Eq)]
pub enum Value {
    And(Vec<String>),
    Gnd,
    Unset,
    Or(Vec<String>),
    Vcc,
}

/// The mathematical form of a `Value`.
pub enum ValueView {
    And(Seq<Seq<char>>),
    Gnd,
    Unset,
    Or(Seq<Seq<char>>),
    Vcc,
}

impl View for Value {
    type V = ValueView;

    open spec fn view(&self) -> ValueView {
        match *self {
            Value::And(labels) => ValueView::And(texts(labels@)),
            Value::Gnd => ValueView::Gnd,
            Value::Unset => ValueView::Unset,
            Value::Or(labels) => ValueView::Or(texts(labels@)),
            Value::Vcc => ValueView::Vcc,
        }
    }
}

impl Default for Value {
    fn default() -> (v: Value)
        ensures
            v@ == ValueView::Unset,
    {
        Value::Unset
    }
}

impl Clone for Value {
    fn clone(&self) -> (r: Value)
        ensures
            r@ == self@,
    {
        match self {
            Value::And(labels) => Value::And(clone_texts(labels)),
            Value::Gnd => Value::Gnd,
            Value::Unset => Value::Unset,
            Value::Or(labels) => Value::Or(clone_texts(labels)),
            Value::Vcc => Value::Vcc,
        }
    }
}

/// The electrical state that a pin is found to have.
#[derive(Clone, Copy, Debug, PartialEq, Eq, Structural)]
pub enum Voltage {
    Floating,
    High,
    Low,
}

impl Default for Voltage {
    fn default() -> (v: Voltage)
        ensures
            v == Voltage::Floating,
    {
        Voltage::Floating
    }
}

/// The colors that a wire can have.
#[derive(Clone, Copy, Debug, PartialEq, Eq, Structural)]
pub enum Color {
    Red,
    Green,
    Yellow,
    Blue,
    Magenta,
    Cyan,
}

/// A parsed key and value that no object owns yet.
#[derive(Debug, PartialEq, Eq)]
pub enum Attribute {
    Bounds(Vector2),
    Color(Color),
    From(Vector2),
    Label(String),
    Num(u16),
    Position(Vector2),
    To(Vector2),
    Type(String),
    Value(Value),
    YCoordinate(u16),
}

/// The mathematical form of an `Attribute`.
pub enum AttributeView {
    Bounds(Vector2),
    Color(Color),
    From(Vector2),
    Label(Seq<char>),
    Num(u16),
    Position(Vector2),
    To(Vector2),
    Type(Seq<char>),
    Value(ValueView),
    YCoordinate(u16),
}

impl View for Attribute {
    type V = AttributeView;

    open spec fn view(&self) -> AttributeView {
        match *self {
            Attribute::Bounds(v) => AttributeView::Bounds(v),
            Attribute::Color(c) => AttributeView::Color(c),
            Attribute::From(v) => AttributeView::From(v),
            Attribute::Label(l) => AttributeView::Label(l@),
            Attribute::Num(n) => AttributeView::Num(n),
            Attribute::Position(v) => AttributeView::Position(v),
            Attribute::To(v) => AttributeView::To(v),
            Attribute::Type(t) => AttributeView::Type(t@),
            Attribute::Value(v) => AttributeView::Value(v@),
            Attribute::YCoordinate(y) => AttributeView::YCoordinate(y),
        }
    }
}

/// A placed reference to a part of the library of chips.
#[derive(Debug, PartialEq, Eq)]
pub struct Chip {
    pub t: String,
    pub region: Region,
}

/// The mathematical form of a `Chip`.
pub struct ChipView {
    pub t: Seq<char>,
    pub region: Region,
}

impl View for Chip {
    type V = ChipView;

    open spec fn view(&self) -> ChipView {
        ChipView { t: self.t@, region: self.region }
    }
}

impl Default for Chip {
    fn default() -> (c: Chip)
        ensures
            c@ == ChipView::blank(),
    {
        Chip { t: String::new(), region: Region::default() }
    }
}

impl Clone for Chip {
    fn clone(&self) -> (r: Chip)
        ensures
            r@ == self@,
    {
        Chip { t: self.t.clone(), region: self.region }
    }
}

/// The canvas of a project.
#[derive(Clone, Copy, Debug, PartialEq, Eq, Structural)]
pub struct Meta {
    pub bounds: Vector2,
}

impl Default for Meta {
    fn default() -> (m: Meta)
        ensures
            m == Meta::blank(),
    {
        Meta { bounds: Vector2 { x: 0, y: 0 } }
    }
}

/// A power or ground rail: one row over the whole width of the canvas.
#[derive(Debug, PartialEq, Eq)]
pub struct Net {
    pub t: String,
    pub region: Region,
}

/// The mathematical form of a `Net`.
pub struct NetView {
    pub t: Seq<char>,
    pub region: Region,
}

impl View for Net {
    type V = NetView;

    open spec fn view(&self) -> NetView {
        NetView { t: self.t@, region: self.region }
    }
}

impl Default for Net {
    fn default() -> (n: Net)
        ensures
            n@ == NetView::blank(),
    {
        Net { t: String::new(), region: Region::default() }
    }
}

impl Clone for Net {
    fn clone(&self) -> (r: Net)
        ensures
            r@ == self@,
    {
        Net { t: self.t.clone(), region: self.region }
    }
}

/// One pin: a single cell with a label, a declared value and a voltage.
#[derive(Debug, PartialEq, Eq)]
pub struct Pin {
    pub label: String,
    pub value: Value,
    pub region: Region,
    pub voltage: Voltage,
}

/// The mathematical form of a `Pin`.
pub struct PinView {
    pub label: Seq<char>,
    pub value: ValueView,
    pub region: Region,
    pub voltage: Voltage,
}

impl View for Pin {
    type V = PinView;

    open spec fn view(&self) -> PinView {
        PinView {
            label: self.label@,
            value: self.value@,
            region: self.region,
            voltage: self.voltage,
        }
    }
}

impl Default for Pin {
    fn default() -> (p: Pin)
        ensures
            p@ == PinView::blank(),
    {
        Pin {
            label: String::new(),
            value: Value::Unset,
            region: Region::default(),
            voltage: Voltage::Floating,
        }
    }
}

impl Clone for Pin {
    fn clone(&self) -> (r: Pin)
        ensures
            r@ == self@,
    {
        Pin {
            label: self.label.clone(),
            value: self.value.clone(),
            region: self.region,
            voltage: self.voltage,
        }
    }
}

/// A connection between two cells.
#[derive(Clone, Copy, Debug, PartialEq, Eq, Structural)]
pub struct Wire {
    pub color: Color,
    pub from: Vector2,
    pub to: Vector2,
    pub label: char,
}

impl Default for Wire {
    fn default() -> (w: Wire)
        ensures
            w == Wire::blank(),
    {
        Wire {
            color: Color::Red,
            from: Vector2 { x: 0, y: 0 },
            to: Vector2 { x: 0, y: 0 },
            label: 'a',
        }
    }
}

/// An object of a project.
#[derive(Debug, PartialEq, Eq)]
pub enum ObjectEnum {
    Chip(Chip),
    Meta(Meta),
    Net(Net),
    Pin(Pin),
    Wire(Wire),
}

/// The mathematical form of an `ObjectEnum`.
pub enum ObjectView {
    Chip(ChipView),
    Meta(Meta),
    Net(NetView),
    Pin(PinView),
    Wire(Wire),
}

impl View for ObjectEnum {
    type V = ObjectView;

    open spec fn view(&self) -> ObjectView {
        match *self {
            ObjectEnum::Chip(c) => ObjectView::Chip(c@),
            ObjectEnum::Meta(m) => ObjectView::Meta(m),
            ObjectEnum::Net(n) => ObjectView::Net(n@),
            ObjectEnum::Pin(p) => ObjectView::Pin(p@),
            ObjectEnum::Wire(w) => ObjectView::Wire(w),
        }
    }
}

impl Clone for ObjectEnum {
    fn clone(&self) -> (r: ObjectEnum)
        ensures
            r@ == self@,
    {
        match self {
            ObjectEnum::Chip(c) => ObjectEnum::Chip(c.clone()),
            ObjectEnum::Meta(m) => ObjectEnum::Meta(*m),
            ObjectEnum::Net(n) => ObjectEnum::Net(n.clone()),
            ObjectEnum::Pin(p) => ObjectEnum::Pin(p.clone()),
            ObjectEnum::Wire(w) => ObjectEnum::Wire(*w),
        }
    }
}

/// The mathematical forms of a list of objects.
pub open spec fn views(objects: Seq<ObjectEnum>) -> Seq<ObjectView> {
    objects.map_values(|o: ObjectEnum| o@)
}

/// The mathematical forms of a list of pins.
pub open spec fn pin_views(pins: Seq<Pin>) -> Seq<PinView> {
    pins.map_values(|p: Pin| p@)
}

/// The mathematical forms of the templates of a set of types of chip.
pub open spec fn template_views(templates: Map<Seq<char>, Vec<Pin>>) -> Map<
    Seq<char>,
    Seq<PinView>,
> {
    Map::new(|t: Seq<char>| templates.contains_key(t), |t: Seq<char>| pin_views(templates[t]@))
}

impl ChipView {
    /// A chip before any attribute is applied.
    pub open spec fn blank() -> ChipView {
        ChipView { t: Seq::empty(), region: Region::blank() }
    }
}

impl NetView {
    /// A net before any attribute is applied.
    pub open spec fn blank() -> NetView {
        NetView { t: Seq::empty(), region: Region::blank() }
    }
}

impl PinView {
    /// A pin before any attribute is applied.
    pub open spec fn blank() -> PinView {
        PinView {
            label: Seq::empty(),
            value: ValueView::Unset,
            region: Region::blank(),
            voltage: Voltage::Floating,
        }
    }
}

impl Meta {
    /// A canvas before any attribute is applied.
    pub open spec fn blank() -> Meta {
        Meta { bounds: Vector2 { x: 0, y: 0 } }
    }
}

impl Wire {
    /// A wire before any attribute is applied.
    pub open spec fn blank() -> Wire {
        Wire {
            color: Color::Red,
            from: Vector2 { x: 0, y: 0 },
            to: Vector2 { x: 0, y: 0 },
            label: 'a',
        }
    }
}

/// Whether the cell `(x, y)` lies on a canvas of the size `bounds`.
pub open spec fn within_bounds(x: int, y: int, bounds: Vector2) -> bool {
    x < bounds.x && y < bounds.y
}

/// Assert that a position (x, y) is within the bounds, without checking that
/// the bounds have been set.
pub fn assert_is_within_bounds_unchecked(x: u16, y: u16, bounds: Vector2) -> (r: Result<
    (),
    CirnoError,
>)
    ensures
        within_bounds(x as int, y as int, bounds) ==> r is Ok,
        !within_bounds(x as int, y as int, bounds) ==> r is Err && r->Err_0@
            == ErrorView::OutOfBounds,
{
    if x >= bounds.x || y >= bounds.y {
        return Err(CirnoError::OutOfBounds);
    }
    Ok(())
}

impl ObjectView {
    /// The name of the object's kind, as the description language writes it.
    pub open spec fn kind(self) -> Seq<char> {
        match self {
            ObjectView::Chip(_) => "chip"@,
            ObjectView::Meta(_) => "meta"@,
            ObjectView::Net(_) => "net"@,
            ObjectView::Pin(_) => "pin"@,
            ObjectView::Wire(_) => "wire"@,
        }
    }

    /// The object with one attribute applied, or the error that says that
    /// the attribute means nothing for an object of this kind.
    pub open spec fn apply(self, a: AttributeView) -> Result<ObjectView, ErrorView> {
        match (self, a) {
            (ObjectView::Chip(c), AttributeView::Type(t)) => Ok(
                ObjectView::Chip(ChipView { t, region: c.region }),
            ),
            (ObjectView::Chip(c), AttributeView::Position(v)) => Ok(
                ObjectView::Chip(
                    ChipView { t: c.t, region: Region { position: v, size: c.region.size } },
                ),
            ),
            (ObjectView::Meta(_), AttributeView::Bounds(v)) => Ok(
                ObjectView::Meta(Meta { bounds: v }),
            ),
            (ObjectView::Net(n), AttributeView::Type(t)) => Ok(
                ObjectView::Net(NetView { t, region: n.region }),
            ),
            (ObjectView::Net(n), AttributeView::YCoordinate(y)) => Ok(
                ObjectView::Net(
                    NetView {
                        t: n.t,
                        region: Region {
                            position: Vector2 { x: n.region.position.x, y },
                            size: n.region.size,
                        },
                    },
                ),
            ),
            (ObjectView::Pin(p), AttributeView::Label(l)) => Ok(
                ObjectView::Pin(
                    PinView { label: l, value: p.value, region: p.region, voltage: p.voltage },
                ),
            ),
            (ObjectView::Pin(p), AttributeView::Value(v)) => Ok(
                ObjectView::Pin(
                    PinView { label: p.label, value: v, region: p.region, voltage: p.voltage },
                ),
            ),
            (ObjectView::Wire(w), AttributeView::Color(c)) => Ok(
                ObjectView::Wire(Wire { color: c, from: w.from, to: w.to, label: w.label }),
            ),
            (ObjectView::Wire(w), AttributeView::From(v)) => Ok(
                ObjectView::Wire(Wire { color: w.color, from: v, to: w.to, label: w.label }),
            ),
            (ObjectView::Wire(w), AttributeView::To(v)) => Ok(
                ObjectView::Wire(Wire { color: w.color, from: w.from, to: v, label: w.label }),
            ),
            _ => Err(ErrorView::InvalidAttributeForObject(a, self.kind())),
        }
    }

    /// The region that the object exposes: a chip, a net and a pin have one.
    pub open spec fn region(self) -> Option<Region> {
        match self {
            ObjectView::Chip(c) => Some(c.region),
            ObjectView::Net(n) => Some(n.region),
            ObjectView::Pin(p) => Some(p.region),
            _ => None,
        }
    }

    /// What is wrong with the object by itself, whatever the canvas.
    pub open spec fn shape_error(self) -> Option<ErrorView> {
        match self {
            ObjectView::Chip(c) => if c.t.len() == 0 {
                Some(ErrorView::MissingAttribute("chip type"@))
            } else {
                None
            },
            ObjectView::Meta(m) => if m.bounds.x == 0 && m.bounds.y == 0 {
                Some(ErrorView::MissingAttribute("bounds"@))
            } else if m.bounds.x == 0 || m.bounds.y == 0 {
                Some(ErrorView::NamelessInvalidValueForAttribute("bounds"@))
            } else {
                None
            },
            ObjectView::Net(n) => if n.t == "vcc"@ || n.t == "gnd"@ {
                None
            } else if n.t.len() == 0 {
                Some(ErrorView::MissingAttribute("net type"@))
            } else {
                Some(ErrorView::InvalidValueForAttribute(n.t, "net type"@))
            },
            ObjectView::Pin(_) => None,
            ObjectView::Wire(w) => if w.from == w.to {
                Some(ErrorView::InvalidWire)
            } else {
                None
            },
        }
    }

    /// Whether every cell of the object lies on a canvas of the size `bounds`.
    pub open spec fn fits(self, bounds: Vector2) -> bool {
        match self {
            ObjectView::Chip(c) => {
                &&& within_bounds(c.region.position.x as int, c.region.position.y as int, bounds)
                &&& c.region.position.x + c.region.size.x <= bounds.x
                &&& c.region.position.y + c.region.size.y <= bounds.y
            },
            ObjectView::Meta(_) => true,
            ObjectView::Net(n) => within_bounds(0, n.region.position.y as int, bounds),
            ObjectView::Pin(p) => within_bounds(
                p.region.position.x as int,
                p.region.position.y as int,
                bounds,
            ),
            ObjectView::Wire(w) => {
                &&& within_bounds(w.from.x as int, w.from.y as int, bounds)
                &&& within_bounds(w.to.x as int, w.to.y as int, bounds)
            },
        }
    }

    /// The first thing that is wrong with the object on a canvas of the size
    /// `bounds`: its own shape comes before its place.
    pub open spec fn verify_error(self, bounds: Vector2) -> Option<ErrorView> {
        if self.shape_error() is Some {
            self.shape_error()
        } else if !self.fits(bounds) {
            Some(ErrorView::OutOfBounds)
        } else {
            None
        }
    }

    /// The object with the size that its kind gives it: a chip is half as
    /// wide as its template has pins and three rows high, a net spans the
    /// canvas in one row, a pin is one cell.
    pub open spec fn sized(self, bounds: Vector2, templates: Map<Seq<char>, Seq<PinView>>) -> Result<
        ObjectView,
        ErrorView,
    > {
        match self {
            ObjectView::Chip(c) => if !templates.contains_key(c.t) {
                Err(ErrorView::NotFoundInStdlib(c.t))
            } else if templates[c.t].len() / 2 > u16::MAX {
                Err(ErrorView::OutOfBounds)
            } else {
                Ok(
                    ObjectView::Chip(
                        ChipView {
                            t: c.t,
                            region: Region {
                                position: c.region.position,
                                size: Vector2 { x: (templates[c.t].len() / 2) as u16, y: 3 },
                            },
                        },
                    ),
                )
            },
            ObjectView::Net(n) => Ok(
                ObjectView::Net(
                    NetView {
                        t: n.t,
                        region: Region {
                            position: n.region.position,
                            size: Vector2 { x: bounds.x, y: 1 },
                        },
                    },
                ),
            ),
            ObjectView::Pin(p) => Ok(
                ObjectView::Pin(
                    PinView {
                        label: p.label,
                        value: p.value,
                        region: Region { position: p.region.position, size: Vector2 { x: 1, y: 1 } },
                        voltage: p.voltage,
                    },
                ),
            ),
            _ => Ok(self),
        }
    }
}

impl Chip {
    /// Applies one attribute: a chip takes a type and a position.
    pub fn apply_attribute(&mut self, attribute: Attribute) -> (r: Result<(), CirnoError>)
        ensures
            match ObjectView::Chip(old(self)@).apply(attribute@) {
                Ok(o) => r is Ok && ObjectView::Chip(final(self)@) == o,
                Err(e) => r is Err && r->Err_0@ == e && final(self)@ == old(self)@,
            },
    {
        match attribute {
            Attribute::Type(t) => self.t = t,
            Attribute::Position(vec2) => self.region.position = vec2,
            a => return Err(CirnoError::InvalidAttributeForObject(a, "chip".to_owned())),
        }
        Ok(())
    }

    /// The region of the chip.
    pub fn get_region(&self) -> (r: Option<&Region>)
        ensures
            r == Some(&self.region),
    {
        Some(&self.region)
    }

    /// Gives the chip the size of its template: half as wide as the
    /// template has pins, three rows high.
    pub fn set_region_size(&mut self, templates: &Table<Vec<Pin>>) -> (r: Result<(), CirnoError>)
        ensures
            match ObjectView::Chip(old(self)@).sized(
                Vector2 { x: 0, y: 0 },
                template_views(templates@),
            ) {
                Ok(o) => r is Ok && ObjectView::Chip(final(self)@) == o,
                Err(e) => r is Err && r->Err_0@ == e && final(self)@ == old(self)@,
            },
    {
        match templates.get(self.t.as_str()) {
            None => Err(CirnoError::NotFoundInStdlib(self.t.clone())),
            Some(pins) => {
                let width: usize = pins.len() / 2;
                if width > 65535 {
                    return Err(CirnoError::OutOfBounds);
                }
                self.region.size = Vector2 { x: width as u16, y: 3 };
                Ok(())
            },
        }
    }

    /// Checks the chip by itself: it names its type.
    pub fn verify_shape(&self) -> (r: Result<(), CirnoError>)
        ensures
            match ObjectView::Chip(self@).shape_error() {
                None => r is Ok,
                Some(e) => r is Err && r->Err_0@ == e,
            },
    {
        if self.t.as_str().is_empty() {
            return Err(CirnoError::MissingAttribute("chip type".to_owned()));
        }
        Ok(())
    }

    /// Checks the chip by itself and its place on a canvas of the size
    /// `bounds`: all of its region lies on the canvas.
    pub fn verify(&self, bounds: Vector2) -> (r: Result<(), CirnoError>)
        ensures
            match ObjectView::Chip(self@).verify_error(bounds) {
                None => r is Ok,
                Some(e) => r is Err && r->Err_0@ == e,
            },
    {
        self.verify_shape()?;
        assert_is_within_bounds_unchecked(self.region.position.x, self.region.position.y, bounds)?;
        let right: u32 = self.region.position.x as u32 + self.region.size.x as u32;
        let bottom: u32 = self.region.position.y as u32 + self.region.size.y as u32;
        if right > bounds.x as u32 || bottom > bounds.y as u32 {
            return Err(CirnoError::OutOfBounds);
        }
        Ok(())
    }
}

impl Meta {
    /// Applies one attribute: a canvas takes its bounds.
    pub fn apply_attribute(&mut self, attribute: Attribute) -> (r: Result<(), CirnoError>)
        ensures
            match ObjectView::Meta(*old(self)).apply(attribute@) {
                Ok(o) => r is Ok && ObjectView::Meta(*final(self)) == o,
                Err(e) => r is Err && r->Err_0@ == e && *final(self) == *old(self),
            },
    {
        match attribute {
            Attribute::Bounds(vec2) => self.bounds = vec2,
            a => return Err(CirnoError::InvalidAttributeForObject(a, "meta".to_owned())),
        }
        Ok(())
    }

    /// A canvas exposes no region.
    pub fn get_region(&self) -> (r: Option<&Region>)
        ensures
            r is None,
    {
        None
    }

    /// A canvas has no size to set.
    pub fn set_region_size(&mut self) -> (r: Result<(), CirnoError>)
        ensures
            r is Ok,
            *final(self) == *old(self),
    {
        Ok(())
    }

    /// Checks the canvas: both of its bounds are set.
    pub fn verify(&self) -> (r: Result<(), CirnoError>)
        ensures
            match ObjectView::Meta(*self).shape_error() {
                None => r is Ok,
                Some(e) => r is Err && r->Err_0@ == e,
            },
    {
        if self.bounds.x == 0 && self.bounds.y == 0 {
            return Err(CirnoError::MissingAttribute("bounds".to_owned()));
        }
        if self.bounds.x == 0 || self.bounds.y == 0 {
            return Err(CirnoError::NamelessInvalidValueForAttribute("bounds".to_owned()));
        }
        Ok(())
    }
}

impl Net {
    /// Applies one attribute: a net takes a type and a row.
    pub fn apply_attribute(&mut self, attribute: Attribute) -> (r: Result<(), CirnoError>)
        ensures
            match ObjectView::Net(old(self)@).apply(attribute@) {
                Ok(o) => r is Ok && ObjectView::Net(final(self)@) == o,
                Err(e) => r is Err && r->Err_0@ == e && final(self)@ == old(self)@,
            },
    {
        match attribute {
            Attribute::Type(t) => self.t = t,
            Attribute::YCoordinate(y) => self.region.position.y = y,
            a => return Err(CirnoError::InvalidAttributeForObject(a, "net".to_owned())),
        }
        Ok(())
    }

    /// The region of the net.
    pub fn get_region(&self) -> (r: Option<&Region>)
        ensures
            r == Some(&self.region),
    {
        Some(&self.region)
    }

    /// Gives the net its size: one row over the width of the canvas.
    pub fn set_region_size(&mut self, bounds: Vector2) -> (r: Result<(), CirnoError>)
        ensures
            r is Ok,
            ObjectView::Net(old(self)@).sized(bounds, Map::empty()) == Ok::<ObjectView, ErrorView>(
                ObjectView::Net(final(self)@),
            ),
    {
        self.region.size = Vector2 { x: bounds.x, y: 1 };
        Ok(())
    }

    /// Checks the net by itself: its type is `vcc` or `gnd`.
    pub fn verify_shape(&self) -> (r: Result<(), CirnoError>)
        ensures
            match ObjectView::Net(self@).shape_error() {
                None => r is Ok,
                Some(e) => r is Err && r->Err_0@ == e,
            },
    {
        if text_eq(self.t.as_str(), "vcc") || text_eq(self.t.as_str(), "gnd") {
            Ok(())
        } else if self.t.as_str().is_empty() {
            Err(CirnoError::MissingAttribute("net type".to_owned()))
        } else {
            Err(CirnoError::InvalidValueForAttribute(self.t.clone(), "net type".to_owned()))
        }
    }

    /// Checks the net by itself and its place on a canvas of the size
    /// `bounds`: its row lies on the canvas.
    pub fn verify(&self, bounds: Vector2) -> (r: Result<(), CirnoError>)
        ensures
            match ObjectView::Net(self@).verify_error(bounds) {
                None => r is Ok,
                Some(e) => r is Err && r->Err_0@ == e,
            },
    {
        self.verify_shape()?;
        assert_is_within_bounds_unchecked(0, self.region.position.y, bounds)?;
        Ok(())
    }
}

/// Where the pin with the index `index` sits in a template that is `width`
/// cells wide: the first `width` pins on the bottom row from the left, the
/// next `width` pins on the top row from the right. No other pin has a
/// place, nor one whose column is above 65535.
pub open spec fn template_position(index: int, width: int) -> Option<Vector2> {
    if 0 <= index < width && index <= u16::MAX {
        Some(Vector2 { x: index as u16, y: 2 })
    } else if 0 <= width <= index < 2 * width && 2 * width - index - 1 <= u16::MAX {
        Some(Vector2 { x: (2 * width - index - 1) as u16, y: 0 })
    } else {
        None
    }
}

/// Whether `voltages` gives the label `label` the voltage `High`.
pub open spec fn is_high(voltages: Map<Seq<char>, Voltage>, label: Seq<char>) -> bool {
    voltages.contains_key(label) && voltages[label] == Voltage::High
}

/// Whether `voltages` gives every label of `labels` the voltage `High`.
pub open spec fn every_high(voltages: Map<Seq<char>, Voltage>, labels: Seq<Seq<char>>) -> bool {
    forall|i: int| 0 <= i < labels.len() ==> is_high(voltages, #[trigger] labels[i])
}

/// Whether `voltages` gives a label of `labels` the voltage `High`.
pub open spec fn some_high(voltages: Map<Seq<char>, Voltage>, labels: Seq<Seq<char>>) -> bool {
    exists|i: int| 0 <= i < labels.len() && is_high(voltages, #[trigger] labels[i])
}

impl ValueView {
    /// Whether the value is computed from other pins.
    pub open spec fn is_logic(self) -> bool {
        self is And || self is Or
    }

    /// The voltage that the value gives: a conjunction is `High` when every
    /// label that it names is `High`, a disjunction when one is; both are
    /// `Low` otherwise, and any other value is `Floating`.
    pub open spec fn voltage(self, voltages: Map<Seq<char>, Voltage>) -> Voltage {
        match self {
            ValueView::And(labels) => if every_high(voltages, labels) {
                Voltage::High
            } else {
                Voltage::Low
            },
            ValueView::Or(labels) => if some_high(voltages, labels) {
                Voltage::High
            } else {
                Voltage::Low
            },
            _ => Voltage::Floating,
        }
    }
}

fn label_is_high(voltages: &Table<Voltage>, label: &String) -> (b: bool)
    ensures
        b == is_high(voltages@, label@),
{
    match voltages.get(label.as_str()) {
        Some(v) => match v {
            Voltage::High => true,
            _ => false,
        },
        None => false,
    }
}

fn all_high(voltages: &Table<Voltage>, labels: &Vec<String>) -> (b: bool)
    ensures
        b == every_high(voltages@, texts(labels@)),
{
    let n = labels.len();
    let mut i: usize = 0;
    while i < n
        invariant
            n == labels@.len(),
            i <= n,
            forall|j: int| 0 <= j < i ==> is_high(voltages@, #[trigger] texts(labels@)[j]),
        decreases n - i,
    {
        if !label_is_high(voltages, &labels[i]) {
            assert(!is_high(voltages@, texts(labels@)[i as int]));
            return false;
        }
        i = i + 1;
    }
    true
}

fn any_high(voltages: &Table<Voltage>, labels: &Vec<String>) -> (b: bool)
    ensures
        b == some_high(voltages@, texts(labels@)),
{
    let n = labels.len();
    let mut i: usize = 0;
    while i < n
        invariant
            n == labels@.len(),
            i <= n,
            forall|j: int| 0 <= j < i ==> !is_high(voltages@, #[trigger] texts(labels@)[j]),
        decreases n - i,
    {
        if label_is_high(voltages, &labels[i]) {
            assert(is_high(voltages@, texts(labels@)[i as int]));
            return true;
        }
        i = i + 1;
    }
    false
}

impl Pin {
    /// Gives the pin its place in a template.
    pub fn set_temp_region_position(&mut self, index: usize, width: usize) -> (r: Result<
        (),
        CirnoError,
    >)
        ensures
            match template_position(index as int, width as int) {
                Some(position) => r is Ok && final(self)@ == (PinView {
                    region: Region { position, size: old(self).region.size },
                    ..old(self)@
                }),
                None => r is Err && r->Err_0@ == ErrorView::OutOfBounds && final(self)@ == old(
                    self,
                )@,
            },
    {
        if index >= width {
            let past: usize = index - width;
            if past >= width {
                return Err(CirnoError::OutOfBounds);
            }
            let x: usize = width - 1 - past;
            if x > 65535 {
                return Err(CirnoError::OutOfBounds);
            }
            self.region.position = Vector2 { x: x as u16, y: 0 };
        } else {
            if index > 65535 {
                return Err(CirnoError::OutOfBounds);
            }
            self.region.position = Vector2 { x: index as u16, y: 2 };
        }
        Ok(())
    }

    /// The voltage that the pin's value gives under `voltages`.
    pub fn calculate_voltage_from_value(&mut self, voltages: &Table<Voltage>) -> (r: Result<
        Voltage,
        CirnoError,
    >)
        ensures
            r is Ok,
            r->Ok_0 == old(self)@.value.voltage(voltages@),
            final(self)@ == old(self)@,
    {
        match &self.value {
            Value::And(labels) => {
                if all_high(voltages, labels) {
                    Ok(Voltage::High)
                } else {
                    Ok(Voltage::Low)
                }
            },
            Value::Or(labels) => {
                if any_high(voltages, labels) {
                    Ok(Voltage::High)
                } else {
                    Ok(Voltage::Low)
                }
            },
            _ => Ok(Voltage::Floating),
        }
    }

    /// Applies one attribute: a pin takes a label and a value.
    pub fn apply_attribute(&mut self, attribute: Attribute) -> (r: Result<(), CirnoError>)
        ensures
            match ObjectView::Pin(old(self)@).apply(attribute@) {
                Ok(o) => r is Ok && ObjectView::Pin(final(self)@) == o,
                Err(e) => r is Err && r->Err_0@ == e && final(self)@ == old(self)@,
            },
    {
        match attribute {
            Attribute::Label(label) => self.label = label,
            Attribute::Value(value) => self.value = value,
            a => return Err(CirnoError::InvalidAttributeForObject(a, "pin".to_owned())),
        }
        Ok(())
    }

    /// The region of the pin.
    pub fn get_region(&self) -> (r: Option<&Region>)
        ensures
            r == Some(&self.region),
    {
        Some(&self.region)
    }

    /// Gives the pin its size: one cell.
    pub fn set_region_size(&mut self) -> (r: Result<(), CirnoError>)
        ensures
            r is Ok,
            ObjectView::Pin(old(self)@).sized(Vector2 { x: 0, y: 0 }, Map::empty()) == Ok::<
                ObjectView,
                ErrorView,
            >(ObjectView::Pin(final(self)@)),
    {
        self.region.size = Vector2 { x: 1, y: 1 };
        Ok(())
    }

    /// Checks the place of the pin on a canvas of the size `bounds`.
    pub fn verify(&self, bounds: Vector2) -> (r: Result<(), CirnoError>)
        ensures
            match ObjectView::Pin(self@).verify_error(bounds) {
                None => r is Ok,
                Some(e) => r is Err && r->Err_0@ == e,
            },
    {
        assert_is_within_bounds_unchecked(self.region.position.x, self.region.position.y, bounds)?;
        Ok(())
    }
}

impl Wire {
    /// Whether one end of the wire is at `position`.
    pub open spec fn touches(self, position: Vector2) -> bool {
        self.from == position || self.to == position
    }

    /// Whether one end of the wire is at `position`.
    pub fn is_connected_to(&self, position: Vector2) -> (b: bool)
        ensures
            b == self.touches(position),
    {
        self.from == position || self.to == position
    }

    /// Applies one attribute: a wire takes a color and its two ends.
    pub fn apply_attribute(&mut self, attribute: Attribute) -> (r: Result<(), CirnoError>)
        ensures
            match ObjectView::Wire(*old(self)).apply(attribute@) {
                Ok(o) => r is Ok && ObjectView::Wire(*final(self)) == o,
                Err(e) => r is Err && r->Err_0@ == e && *final(self) == *old(self),
            },
    {
        match attribute {
            Attribute::Color(color) => self.color = color,
            Attribute::From(vec2) => self.from = vec2,
            Attribute::To(vec2) => self.to = vec2,
            a => return Err(CirnoError::InvalidAttributeForObject(a, "wire".to_owned())),
        }
        Ok(())
    }

    /// A wire exposes no region.
    pub fn get_region(&self) -> (r: Option<&Region>)
        ensures
            r is None,
    {
        None
    }

    /// A wire has no size to set.
    pub fn set_region_size(&mut self) -> (r: Result<(), CirnoError>)
        ensures
            r is Ok,
            *final(self) == *old(self),
    {
        Ok(())
    }

    /// Checks the wire by itself: its two ends differ.
    pub fn verify_shape(&self) -> (r: Result<(), CirnoError>)
        ensures
            match ObjectView::Wire(*self).shape_error() {
                None => r is Ok,
                Some(e) => r is Err && r->Err_0@ == e,
            },
    {
        if self.from == self.to {
            return Err(CirnoError::InvalidWire);
        }
        Ok(())
    }

    /// Checks the wire by itself and its place on a canvas of the size
    /// `bounds`: both of its ends lie on the canvas.
    pub fn verify(&self, bounds: Vector2) -> (r: Result<(), CirnoError>)
        ensures
            match ObjectView::Wire(*self).verify_error(bounds) {
                None => r is Ok,
                Some(e) => r is Err && r->Err_0@ == e,
            },
    {
        self.verify_shape()?;
        assert_is_within_bounds_unchecked(self.from.x, self.from.y, bounds)?;
        assert_is_within_bounds_unchecked(self.to.x, self.to.y, bounds)?;
        Ok(())
    }
}

impl ObjectEnum {
    /// Applies one attribute to the object.
    pub fn apply_attribute(&mut self, attribute: Attribute) -> (r: Result<(), CirnoError>)
        ensures
            match old(self)@.apply(attribute@) {
                Ok(o) => r is Ok && final(self)@ == o,
                Err(e) => r is Err && r->Err_0@ == e && final(self)@ == old(self)@,
            },
    {
        match self {
            ObjectEnum::Chip(chip) => chip.apply_attribute(attribute),
            ObjectEnum::Meta(meta) => meta.apply_attribute(attribute),
            ObjectEnum::Net(net) => net.apply_attribute(attribute),
            ObjectEnum::Pin(pin) => pin.apply_attribute(attribute),
            ObjectEnum::Wire(wire) => wire.apply_attribute(attribute),
        }
    }

    /// The region that the object exposes, if its kind has one.
    pub fn get_region(&self) -> (r: Option<&Region>)
        ensures
            match r {
                Some(region) => self@.region() == Some(*region),
                None => self@.region() is None,
            },
    {
        match self {
            ObjectEnum::Chip(chip) => chip.get_region(),
            ObjectEnum::Meta(meta) => meta.get_region(),
            ObjectEnum::Net(net) => net.get_region(),
            ObjectEnum::Pin(pin) => pin.get_region(),
            ObjectEnum::Wire(wire) => wire.get_region(),
        }
    }

    /// Gives the object the size that its kind asks for.
    pub fn set_region_size(&mut self, bounds: Vector2, templates: &Table<Vec<Pin>>) -> (r: Result<
        (),
        CirnoError,
    >)
        ensures
            match old(self)@.sized(bounds, template_views(templates@)) {
                Ok(o) => r is Ok && final(self)@ == o,
                Err(e) => r is Err && r->Err_0@ == e && final(self)@ == old(self)@,
            },
    {
        match self {
            ObjectEnum::Chip(chip) => chip.set_region_size(templates),
            ObjectEnum::Meta(meta) => meta.set_region_size(),
            ObjectEnum::Net(net) => net.set_region_size(bounds),
            ObjectEnum::Pin(pin) => pin.set_region_size(),
            ObjectEnum::Wire(wire) => wire.set_region_size(),
        }
    }

    /// Checks the object by itself, whatever the canvas.
    pub fn verify_shape(&self) -> (r: Result<(), CirnoError>)
        ensures
            match self@.shape_error() {
                None => r is Ok,
                Some(e) => r is Err && r->Err_0@ == e,
            },
    {
        match self {
            ObjectEnum::Chip(chip) => chip.verify_shape(),
            ObjectEnum::Meta(meta) => meta.verify(),
            ObjectEnum::Net(net) => net.verify_shape(),
            ObjectEnum::Pin(_) => Ok(()),
            ObjectEnum::Wire(wire) => wire.verify_shape(),
        }
    }

    /// Checks the object by itself and its place on a canvas of the size
    /// `bounds`.
    pub fn verify(&self, bounds: Vector2) -> (r: Result<(), CirnoError>)
        ensures
            match self@.verify_error(bounds) {
                None => r is Ok,
                Some(e) => r is Err && r->Err_0@ == e,
            },
    {
        match self {
            ObjectEnum::Chip(chip) => chip.verify(bounds),
            ObjectEnum::Meta(meta) => meta.verify(),
            ObjectEnum::Net(net) => net.verify(bounds),
            ObjectEnum::Pin(pin) => pin.verify(bounds),
            ObjectEnum::Wire(wire) => wire.verify(bounds),
        }
    }
}

impl PinView {
    /// What the bar says of the pin before its voltage: its label, or what
    /// a pin without a label is tied to, with the color for it.
    pub open spec fn name(self) -> (Seq<char>, Option<Color>) {
        if self.label.len() > 0 {
            (self.label, Some(Color::Cyan))
        } else {
            match self.value {
                ValueView::Gnd => ("gnd"@, Some(Color::Blue)),
                ValueView::Vcc => ("vcc"@, Some(Color::Red)),
                _ => (Seq::empty(), None),
            }
        }
    }
}

impl ObjectView {
    /// The character and the color that show the object. `None` for the
    /// color is the color of plain text.
    pub open spec fn glyph(self) -> Option<(char, Option<Color>)> {
        match self {
            ObjectView::Chip(_) => None,
            ObjectView::Meta(_) => None,
            ObjectView::Net(n) => if n.t == "vcc"@ {
                Some(('+', Some(Color::Red)))
            } else if n.t == "gnd"@ {
                Some(('-', Some(Color::Blue)))
            } else {
                None
            },
            ObjectView::Pin(_) => Some(('.', None)),
            ObjectView::Wire(w) => Some((w.label, Some(w.color))),
        }
    }

    /// What the bar says of the object, and in which color.
    pub open spec fn report(self) -> (Seq<char>, Option<Color>) {
        match self {
            ObjectView::Net(n) => if n.t == "vcc"@ {
                ("vcc net"@, Some(Color::Red))
            } else if n.t == "gnd"@ {
                ("gnd net"@, Some(Color::Blue))
            } else {
                (Seq::empty(), None)
            },
            ObjectView::Pin(p) => match p.voltage {
                Voltage::High => (p.name().0 + " (hi)"@, p.name().1),
                Voltage::Low => (p.name().0 + " (lo)"@, p.name().1),
                Voltage::Floating => p.name(),
            },
            _ => (Seq::empty(), None),
        }
    }
}

impl Net {
    /// The character and the color that show the net.
    pub fn get_char(&self) -> (r: Option<(char, Option<Color>)>)
        ensures
            r == ObjectView::Net(self@).glyph(),
    {
        if text_eq(self.t.as_str(), "vcc") {
            Some(('+', Some(Color::Red)))
        } else if text_eq(self.t.as_str(), "gnd") {
            Some(('-', Some(Color::Blue)))
        } else {
            None
        }
    }

    /// What the bar says of the net, and in which color.
    pub fn report(&self) -> (r: (String, Option<Color>))
        ensures
            (r.0@, r.1) == ObjectView::Net(self@).report(),
    {
        if text_eq(self.t.as_str(), "vcc") {
            ("vcc net".to_owned(), Some(Color::Red))
        } else if text_eq(self.t.as_str(), "gnd") {
            ("gnd net".to_owned(), Some(Color::Blue))
        } else {
            (String::new(), None)
        }
    }
}

impl Pin {
    /// The character and the color that show the pin.
    pub fn get_char(&self) -> (r: Option<(char, Option<Color>)>)
        ensures
            r == ObjectView::Pin(self@).glyph(),
    {
        Some(('.', None))
    }

    /// What the bar says of the pin, and in which color.
    pub fn report(&self) -> (r: (String, Option<Color>))
        ensures
            (r.0@, r.1) == ObjectView::Pin(self@).report(),
    {
        let mut report: String = String::new();
        let mut color: Option<Color> = None;
        if !self.label.as_str().is_empty() {
            report = self.label.clone();
            color = Some(Color::Cyan);
        } else {
            match &self.value {
                Value::Gnd => {
                    report = "gnd".to_owned();
                    color = Some(Color::Blue);
                },
                Value::Vcc => {
                    report = "vcc".to_owned();
                    color = Some(Color::Red);
                },
                _ => {},
            }
        }
        match self.voltage {
            Voltage::High => {
                report.append(" (hi)");
            },
            Voltage::Low => {
                report.append(" (lo)");
            },
            Voltage::Floating => {},
        }
        (report, color)
    }
}

impl Wire {
    /// The character and the color that show the wire.
    pub fn get_char(&self) -> (r: Option<(char, Option<Color>)>)
        ensures
            r == ObjectView::Wire(*self).glyph(),
    {
        Some((self.label, Some(self.color)))
    }
}

impl ObjectEnum {
    /// The character and the color that show the object.
    pub fn get_char(&self) -> (r: Option<(char, Option<Color>)>)
        ensures
            r == self@.glyph(),
    {
        match self {
            ObjectEnum::Chip(_) => None,
            ObjectEnum::Meta(_) => None,
            ObjectEnum::Net(net) => net.get_char(),
            ObjectEnum::Pin(pin) => pin.get_char(),
            ObjectEnum::Wire(wire) => wire.get_char(),
        }
    }

    /// What the bar says of the object, and in which color.
    pub fn report(&self) -> (r: (String, Option<Color>))
        ensures
            (r.0@, r.1) == self@.report(),
    {
        match self {
            ObjectEnum::Net(net) => net.report(),
            ObjectEnum::Pin(pin) => pin.report(),
            _ => (String::new(), None),
        }
    }
}

} // verus!
