use vstd::prelude::*;
use crate::project::{
    Net, NetView, ObjectEnum, ObjectView, Pin, PinView, Region, Value, Vector2, Voltage, Wire,
    views,
};
use crate::table::Table;
use crate::text::text_eq;

verus! {

/// The wires among the first `n` objects, in their order.
pub open spec fn wires_in(objects: Seq<ObjectView>, n: int) -> Seq<Wire>
    decreases n,
{
    if n <= 0 {
        Seq::empty()
    } else {
        match objects[n - 1] {
            ObjectView::Wire(w) => wires_in(objects, n - 1).push(w),
            _ => wires_in(objects, n - 1),
        }
    }
}

/// The nets among the first `n` objects, in their order.
pub open spec fn nets_in(objects: Seq<ObjectView>, n: int) -> Seq<NetView>
    decreases n,
{
    if n <= 0 {
        Seq::empty()
    } else {
        match objects[n - 1] {
            ObjectView::Net(net) => nets_in(objects, n - 1).push(net),
            _ => nets_in(objects, n - 1),
        }
    }
}

/// The mathematical forms of a list of nets.
pub open spec fn net_views(nets: Seq<Net>) -> Seq<NetView> {
    nets.map_values(|n: Net| n@)
}

/// The first wire from the index `i` on with an end at `position`.
pub open spec fn first_wire_at(wires: Seq<Wire>, position: Vector2, i: int) -> Option<Wire>
    decreases wires.len() - i,
{
    if i < 0 || i >= wires.len() {
        None
    } else if wires[i].touches(position) {
        Some(wires[i])
    } else {
        first_wire_at(wires, position, i + 1)
    }
}

/// Whether the band of `net` covers an end of `wire`.
pub open spec fn net_on(net: NetView, wire: Wire) -> bool {
    net.region.overlaps(Region::cell(wire.from)) || net.region.overlaps(Region::cell(wire.to))
}

/// The first net from the index `i` on whose band covers an end of `wire`.
pub open spec fn first_net_on(nets: Seq<NetView>, wire: Wire, i: int) -> Option<NetView>
    decreases nets.len() - i,
{
    if i < 0 || i >= nets.len() {
        None
    } else if net_on(nets[i], wire) {
        Some(nets[i])
    } else {
        first_net_on(nets, wire, i + 1)
    }
}

/// The voltage that a net of the type `t` carries.
pub open spec fn rail_voltage(t: Seq<char>) -> Option<Voltage> {
    if t == "vcc"@ {
        Some(Voltage::High)
    } else if t == "gnd"@ {
        Some(Voltage::Low)
    } else {
        None
    }
}

/// The voltage that a pin at `position` gets from the nets: that of the
/// first net under an end of the first wire that ends at the pin. Without
/// such a wire, without such a net, or with a net of neither type, none.
pub open spec fn rail_at(wires: Seq<Wire>, nets: Seq<NetView>, position: Vector2) -> Option<
    Voltage,
> {
    match first_wire_at(wires, position, 0) {
        None => None,
        Some(wire) => match first_net_on(nets, wire, 0) {
            None => None,
            Some(net) => rail_voltage(net.t),
        },
    }
}

/// The object as the nets leave it: a pin that a wire connects to a net has
/// the voltage of the net; anything else is as it was.
pub open spec fn connected_object(wires: Seq<Wire>, nets: Seq<NetView>, object: ObjectView) -> ObjectView {
    match object {
        ObjectView::Pin(p) => match rail_at(wires, nets, p.region.position) {
            Some(v) => ObjectView::Pin(
                PinView { label: p.label, value: p.value, region: p.region, voltage: v },
            ),
            None => object,
        },
        _ => object,
    }
}

/// The objects as the nets leave them.
pub open spec fn connected(objects: Seq<ObjectView>) -> Seq<ObjectView> {
    objects.map_values(
        |o: ObjectView|
            connected_object(
                wires_in(objects, objects.len() as int),
                nets_in(objects, objects.len() as int),
                o,
            ),
    )
}

/// The wires among the objects, in their order.
pub fn collect_wires(objects: &Vec<ObjectEnum>) -> (wires: Vec<Wire>)
    ensures
        wires@ == wires_in(views(objects@), objects@.len() as int),
{
    let mut wires: Vec<Wire> = Vec::new();
    let n = objects.len();
    let mut i: usize = 0;
    while i < n
        invariant
            n == objects@.len(),
            i <= n,
            wires@ == wires_in(views(objects@), i as int),
        decreases n - i,
    {
        proof {
            assert(views(objects@)[i as int] == objects@[i as int]@);
        }
        match &objects[i] {
            ObjectEnum::Wire(wire) => wires.push(*wire),
            _ => {},
        }
        i = i + 1;
    }
    wires
}

fn collect_nets(objects: &Vec<ObjectEnum>) -> (nets: Vec<Net>)
    ensures
        net_views(nets@) == nets_in(views(objects@), objects@.len() as int),
{
    let mut nets: Vec<Net> = Vec::new();
    let n = objects.len();
    let mut i: usize = 0;
    proof {
        assert(net_views(nets@) =~= nets_in(views(objects@), 0));
    }
    while i < n
        invariant
            n == objects@.len(),
            i <= n,
            net_views(nets@) == nets_in(views(objects@), i as int),
        decreases n - i,
    {
        proof {
            assert(views(objects@)[i as int] == objects@[i as int]@);
        }
        match &objects[i] {
            ObjectEnum::Net(net) => {
                let ghost before = net_views(nets@);
                nets.push(net.clone());
                proof {
                    assert(net_views(nets@) =~= before.push(net@));
                }
            },
            _ => {},
        }
        i = i + 1;
    }
    nets
}

/// The first wire with an end at `position`.
pub fn find_wire(wires: &Vec<Wire>, position: Vector2) -> (r: Option<Wire>)
    ensures
        r == first_wire_at(wires@, position, 0),
{
    let n = wires.len();
    let mut i: usize = 0;
    while i < n
        invariant
            n == wires@.len(),
            i <= n,
            first_wire_at(wires@, position, 0) == first_wire_at(wires@, position, i as int),
        decreases n - i,
    {
        if wires[i].is_connected_to(position) {
            return Some(wires[i]);
        }
        i = i + 1;
    }
    None
}

fn find_rail(nets: &Vec<Net>, wire: Wire) -> (r: Option<Voltage>)
    ensures
        r == match first_net_on(net_views(nets@), wire, 0) {
            None => None,
            Some(net) => rail_voltage(net.t),
        },
{
    let n = nets.len();
    let mut i: usize = 0;
    while i < n
        invariant
            n == nets@.len(),
            i <= n,
            first_net_on(net_views(nets@), wire, 0) == first_net_on(
                net_views(nets@),
                wire,
                i as int,
            ),
        decreases n - i,
    {
        proof {
            assert(net_views(nets@)[i as int] == nets@[i as int]@);
        }
        if nets[i].region.overlapping_vec2(wire.from) || nets[i].region.overlapping_vec2(wire.to) {
            if text_eq(nets[i].t.as_str(), "vcc") {
                return Some(Voltage::High);
            } else if text_eq(nets[i].t.as_str(), "gnd") {
                return Some(Voltage::Low);
            } else {
                return None;
            }
        }
        i = i + 1;
    }
    None
}

/// Set the voltage of every pin that a wire connects to a net.
#[verifier::loop_isolation(false)]
pub fn connect_pins(objects: &mut Vec<ObjectEnum>)
    ensures
        views(final(objects)@) == connected(views(old(objects)@)),
{
    let wires = collect_wires(objects);
    let nets = collect_nets(objects);
    let ghost before = views(objects@);
    let n = objects.len();
    let ghost w = wires_in(before, n as int);
    let ghost t = nets_in(before, n as int);
    let mut i: usize = 0;
    while i < n
        invariant
            n == objects@.len(),
            i <= n,
            forall|j: int| 0 <= j < i ==> (#[trigger] objects@[j])@ == connected_object(w, t, before[j]),
            forall|j: int| i <= j < n ==> (#[trigger] objects@[j])@ == before[j],
        decreases n - i,
    {
        let ghost current = objects@;
        let position: Option<Vector2> = match &objects[i] {
            ObjectEnum::Pin(pin) => Some(pin.region.position),
            _ => None,
        };
        let rail: Option<Voltage> = match position {
            None => None,
            Some(p) => match find_wire(&wires, p) {
                None => None,
                Some(wire) => find_rail(&nets, wire),
            },
        };
        match rail {
            None => {},
            Some(voltage) => {
                match &mut objects[i] {
                    ObjectEnum::Pin(pin) => {
                        pin.voltage = voltage;
                    },
                    _ => {},
                }
            },
        }
        proof {
            assert(current[i as int]@ == before[i as int]);
            assert(objects@[i as int]@ == connected_object(w, t, before[i as int]));
            assert forall|j: int| 0 <= j < n && j != i implies objects@[j] == current[j] by {}
        }
        i = i + 1;
    }
    proof {
        assert(views(objects@) =~= connected(before));
    }
}

/// The voltages of the pins with a label among the first `n` objects, by
/// label. Of two pins with one label the later one counts.
pub open spec fn labelled_voltages(objects: Seq<ObjectView>, n: int) -> Map<Seq<char>, Voltage>
    decreases n,
{
    if n <= 0 {
        Map::empty()
    } else {
        match objects[n - 1] {
            ObjectView::Pin(p) => if p.label.len() > 0 {
                labelled_voltages(objects, n - 1).insert(p.label, p.voltage)
            } else {
                labelled_voltages(objects, n - 1)
            },
            _ => labelled_voltages(objects, n - 1),
        }
    }
}

/// The pin with another voltage.
pub open spec fn with_voltage(p: PinView, voltage: Voltage) -> PinView {
    PinView { label: p.label, value: p.value, region: p.region, voltage }
}

/// The objects after one pass over the pins from the index `i` on, in the
/// order of the list. A pin whose value is a conjunction or a disjunction
/// gets the voltage that its value gives under `voltages`, and `voltages`
/// holds that voltage under the pin's label from then on. The pass does
/// not start over: a pin sees a pin behind it as it was before the pass.
pub open spec fn propagate_from(
    objects: Seq<ObjectView>,
    voltages: Map<Seq<char>, Voltage>,
    i: int,
) -> Seq<ObjectView>
    decreases objects.len() - i,
{
    if i < 0 || i >= objects.len() {
        objects
    } else {
        match objects[i] {
            ObjectView::Pin(p) => if p.value.is_logic() {
                propagate_from(
                    objects.update(i, ObjectView::Pin(with_voltage(p, p.value.voltage(voltages)))),
                    voltages.insert(p.label, p.value.voltage(voltages)),
                    i + 1,
                )
            } else {
                propagate_from(objects, voltages, i + 1)
            },
            _ => propagate_from(objects, voltages, i + 1),
        }
    }
}

/// Whether `after` is `before`, or `before` is a pin whose value is
/// computed from other pins and `after` is that pin with another voltage.
pub open spec fn same_but_logic_voltage(before: ObjectView, after: ObjectView) -> bool {
    after == before || match before {
        ObjectView::Pin(p) => p.value.is_logic() && exists|v: Voltage|
            after == ObjectView::Pin(#[trigger] with_voltage(p, v)),
        _ => false,
    }
}

/// The pass changes nothing but the voltage of pins whose value is
/// computed from other pins, and only from the index `i` on.
pub proof fn lemma_propagate_changes_voltages_only(
    objects: Seq<ObjectView>,
    voltages: Map<Seq<char>, Voltage>,
    i: int,
)
    requires
        0 <= i,
    ensures
        propagate_from(objects, voltages, i).len() == objects.len(),
        forall|k: int|
            0 <= k < objects.len() ==> same_but_logic_voltage(
                objects[k],
                #[trigger] propagate_from(objects, voltages, i)[k],
            ),
        forall|k: int| 0 <= k < i && k < objects.len() ==> propagate_from(objects, voltages, i)[k]
                == objects[k],
    decreases objects.len() - i,
{
    if i < objects.len() {
        match objects[i] {
            ObjectView::Pin(p) => {
                if p.value.is_logic() {
                    let v = p.value.voltage(voltages);
                    let next = objects.update(i, ObjectView::Pin(with_voltage(p, v)));
                    lemma_propagate_changes_voltages_only(next, voltages.insert(p.label, v), i + 1);
                    let out = propagate_from(objects, voltages, i);
                    assert(out == propagate_from(next, voltages.insert(p.label, v), i + 1));
                    assert forall|k: int| 0 <= k < objects.len() implies same_but_logic_voltage(
                        objects[k],
                        #[trigger] out[k],
                    ) by {
                        assert(same_but_logic_voltage(next[k], out[k]));
                        if k == i {
                            assert(out[i] == next[i]);
                            assert(out[i] == ObjectView::Pin(with_voltage(p, v)));
                        } else {
                            assert(next[k] == objects[k]);
                        }
                    }
                } else {
                    lemma_propagate_changes_voltages_only(objects, voltages, i + 1);
                }
            },
            _ => {
                lemma_propagate_changes_voltages_only(objects, voltages, i + 1);
            },
        }
    }
}

/// The voltage that the pass gives the logic pin with the index `i` is the
/// one that its value gives under the voltages that the pass knows when it
/// gets there.
pub proof fn lemma_propagate_step(
    objects: Seq<ObjectView>,
    voltages: Map<Seq<char>, Voltage>,
    i: int,
)
    requires
        0 <= i < objects.len(),
        objects[i] is Pin,
        objects[i]->Pin_0.value.is_logic(),
    ensures
        propagate_from(objects, voltages, i)[i] == ObjectView::Pin(
            with_voltage(objects[i]->Pin_0, objects[i]->Pin_0.value.voltage(voltages)),
        ),
{
    let p = objects[i]->Pin_0;
    let v = p.value.voltage(voltages);
    let next = objects.update(i, ObjectView::Pin(with_voltage(p, v)));
    lemma_propagate_changes_voltages_only(next, voltages.insert(p.label, v), i + 1);
}

/// The objects with the voltages that the values of the pins give.
pub open spec fn propagated(objects: Seq<ObjectView>) -> Seq<ObjectView> {
    propagate_from(objects, labelled_voltages(objects, objects.len() as int), 0)
}

fn collect_voltages(objects: &Vec<ObjectEnum>) -> (voltages: Table<Voltage>)
    ensures
        voltages@ == labelled_voltages(views(objects@), objects@.len() as int),
{
    let mut voltages: Table<Voltage> = Table::new();
    let n = objects.len();
    let mut i: usize = 0;
    while i < n
        invariant
            n == objects@.len(),
            i <= n,
            voltages@ == labelled_voltages(views(objects@), i as int),
        decreases n - i,
    {
        proof {
            assert(views(objects@)[i as int] == objects@[i as int]@);
        }
        match &objects[i] {
            ObjectEnum::Pin(pin) => {
                if !pin.label.as_str().is_empty() {
                    voltages.insert(pin.label.clone(), pin.voltage);
                }
            },
            _ => {},
        }
        i = i + 1;
    }
    voltages
}

/// Calculate the voltage of every pin whose value is computed from other
/// pins, in one pass over the list.
#[verifier::loop_isolation(false)]
pub fn propagate_logic(objects: &mut Vec<ObjectEnum>)
    ensures
        views(final(objects)@) == propagated(views(old(objects)@)),
{
    let mut voltages = collect_voltages(objects);
    let ghost before = views(objects@);
    let n = objects.len();
    let mut i: usize = 0;
    while i < n
        invariant
            n == objects@.len(),
            i <= n,
            propagated(before) == propagate_from(views(objects@), voltages@, i as int),
        decreases n - i,
    {
        let ghost current = objects@;
        let ghost known = voltages@;
        proof {
            assert(views(current)[i as int] == current[i as int]@);
        }
        match &mut objects[i] {
            ObjectEnum::Pin(pin) => {
                let logic = match &pin.value {
                    Value::And(_) => true,
                    Value::Or(_) => true,
                    _ => false,
                };
                if logic {
                    match pin.calculate_voltage_from_value(&voltages) {
                        Ok(voltage) => {
                            pin.voltage = voltage;
                            voltages.insert(pin.label.clone(), voltage);
                        },
                        Err(_) => {},
                    }
                }
            },
            _ => {},
        }
        proof {
            match current[i as int]@ {
                ObjectView::Pin(p) => {
                    if p.value.is_logic() {
                        let v = p.value.voltage(known);
                        assert(objects@[i as int]@ == ObjectView::Pin(with_voltage(p, v)));
                        assert(views(objects@) =~= views(current).update(
                            i as int,
                            ObjectView::Pin(with_voltage(p, v)),
                        ));
                    } else {
                        assert(views(objects@) =~= views(current));
                    }
                },
                _ => {
                    assert(views(objects@) =~= views(current));
                },
            }
        }
        i = i + 1;
    }
}

} // verus!
