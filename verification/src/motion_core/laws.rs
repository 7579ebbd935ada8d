use vstd::prelude::*;

use super::attributes::{attribute_updated, same_kind, AttributeValue, AttributeView, Matrix44};
use super::commands::{CommandError, CommandReply, CommandResult};
use super::devices::{attrs_of, devices_outcome, is_device, raw_device, Command, Device};
use super::devices::with_attributes;
use super::scene::{link_step, links_upto, object_links, read_link, run_links};
use super::world::{alive, raw_alive, spawn_index, WorldView};
use crate::scalar::Scalar;

verus! {

/// A registered device is a live device in the slot that the answer
/// gives: the slot freed last, or a new slot where none is free. It holds
/// the registered name and attributes, keeps the slot's generation, and the
/// other entities stay as they were.
pub proof fn law_register_then_read(w: WorldView, d: Device, r: CommandResult, w2: WorldView)
    requires
        forall|k: int| 0 <= k < w.free.len() ==> #[trigger] w.free[k] < w.entities.len(),
        devices_outcome(w, Command::Register(d), r, w2),
    ensures
        r == Ok::<Option<CommandReply>, CommandError>(
            Some(CommandReply::EntityId(spawn_index(w) as u32)),
        ),
        is_device(w2, spawn_index(w)),
        w2.entities[spawn_index(w)].name == Some(d.name@),
        attrs_of(w2, spawn_index(w)) == d.attributes@,
        w2.entities[spawn_index(w)].generation == (if w.free.len() > 0 {
            w.entities[spawn_index(w)].generation
        } else {
            0
        }),
        forall|i: int|
            0 <= i < w.entities.len() && i != spawn_index(w) ==> #[trigger] w2.entities[i]
                == w.entities[i],
{
    if w.free.len() > 0 {
        assert(w.free[w.free.len() - 1] < w.entities.len());
    }
}

/// A removed device frees its slot: the next registration gets the same
/// index back, but the id no longer names the device in it, because the
/// slot is a generation further.
pub proof fn law_removed_index_reused(
    w: WorldView,
    id: super::devices::DeviceId,
    r: CommandResult,
    w2: WorldView,
    d: Device,
    r3: CommandResult,
    w3: WorldView,
)
    requires
        raw_alive(w, id.id() as int),
        devices_outcome(w, Command::Remove(id), r, w2),
        devices_outcome(w2, Command::Register(d), r3, w3),
    ensures
        r == Ok::<Option<CommandReply>, CommandError>(Some(CommandReply::EntityId(id.id()))),
        !alive(w2, id.id() as int),
        r3 == Ok::<Option<CommandReply>, CommandError>(Some(CommandReply::EntityId(id.id()))),
        is_device(w3, id.id() as int),
        !raw_device(w3, id.id() as int),
{
}

/// While motion is off, samples change nothing.
pub proof fn law_samples_need_motion(
    w: WorldView,
    id: super::devices::DeviceId,
    samples: Vec<super::attributes::AttributeSample>,
    r: CommandResult,
    w2: WorldView,
)
    requires
        !w.motion,
        devices_outcome(w, Command::Sample((id, samples)), r, w2),
    ensures
        w2 == w,
        r == Ok::<Option<CommandReply>, CommandError>(None),
{
}

/// While motion is on, devices cannot be replaced.
pub proof fn law_no_update_in_motion(
    w: WorldView,
    id: super::devices::DeviceId,
    d: Device,
    r: CommandResult,
    w2: WorldView,
)
    requires
        w.motion,
        devices_outcome(w, Command::Update((id, d)), r, w2),
    ensures
        w2 == w,
        r == Err::<Option<CommandReply>, CommandError>(CommandError::NotFound),
{
}

/// Updating an attribute and then resetting it gives its default back.
pub proof fn law_attribute_update_then_reset(a: AttributeView, v: AttributeValue)
    ensures
        (AttributeView { value: attribute_updated(a, v).default_value, ..attribute_updated(a, v) })
            == (AttributeView { value: a.default_value, ..a }),
        same_kind(a.value, v) ==> attribute_updated(a, v).value == v,
        !same_kind(a.value, v) ==> attribute_updated(a, v) == a,
{
}

/// Setting an element of a matrix and reading it gives the value back; the
/// other elements stay as they were.
pub proof fn law_matrix_set_then_get(m: Seq<Scalar>, x: int, y: int, v: Scalar)
    requires
        m.len() == 16,
        0 <= x < 4,
        0 <= y < 4,
    ensures
        m.update(y * 4 + x, v)[y * 4 + x] == v,
        forall|x2: int, y2: int|
            0 <= x2 < 4 && 0 <= y2 < 4 && (x2 != x || y2 != y) ==> #[trigger] m.update(
                y * 4 + x,
                v,
            )[y2 * 4 + x2] == m[y2 * 4 + x2],
{
}

/// A scene update with no links changes nothing and succeeds.
pub proof fn law_update_without_links(w: WorldView)
    ensures
        run_links(w, Seq::empty()) == (w, true),
{
}

/// A link step: object, attribute of the object, link.
type Step = (int, Seq<char>, super::attributes::AttributeLinkView);

/// The kind of a value, as a number.
spec fn kind(v: AttributeValue) -> int {
    match v {
        AttributeValue::Float(_) => 0,
        AttributeValue::Vec3(_) => 1,
        AttributeValue::Vec4(_) => 2,
        AttributeValue::Matrix44(_) => 3,
    }
}

/// `x` is `w` after some writes to attributes of objects that are not
/// devices: the devices are untouched and every attribute keeps its kind.
spec fn similar(w: WorldView, x: WorldView) -> bool {
    &&& x.entities.len() == w.entities.len()
    &&& x.motion == w.motion
    &&& forall|j: int| 0 <= j < w.entities.len() ==> (#[trigger] is_device(x, j)) == is_device(w, j)
    &&& forall|j: int| #![trigger x.entities[j]] 0 <= j < w.entities.len() && is_device(w, j) ==> x.entities[j] == w.entities[j]
    &&& forall|j: int, k: Seq<char>|
        #![trigger attrs_of(x, j)[k]]
        0 <= j < w.entities.len() ==> kind(attrs_of(x, j)[k].value) == kind(attrs_of(w, j)[k].value)
}

/// The step writes an attribute of an object that is not a device, the
/// link reads a value, and the value is of the attribute's kind.
spec fn step_ok(w: WorldView, s: Step) -> bool {
    &&& 0 <= s.0 < w.entities.len()
    &&& !is_device(w, s.0)
    &&& read_link(w, s.2) is Some
    &&& same_kind(attrs_of(w, s.0)[s.1].value, read_link(w, s.2)->0)
}

/// The world after each step, applied in order, with no stop.
spec fn apply_all(x: WorldView, steps: Seq<Step>) -> WorldView
    decreases steps.len(),
{
    if steps.len() == 0 {
        x
    } else {
        link_step(apply_all(x, steps.drop_last()), steps.last()).0
    }
}

proof fn lemma_same_kind(a: AttributeValue, b: AttributeValue)
    ensures
        same_kind(a, b) == (kind(a) == kind(b)),
{
}

/// A step that is fine in `w` is fine, and does the same write, in a world
/// similar to `w`; the result is still similar to `w`.
proof fn lemma_step_similar(w: WorldView, x: WorldView, s: Step)
    requires
        similar(w, x),
        step_ok(w, s),
    ensures
        read_link(x, s.2) == read_link(w, s.2),
        link_step(x, s).1,
        similar(w, link_step(x, s).0),
{
    let l = s.2;
    if 0 <= l.device < w.entities.len() {
        assert(is_device(x, l.device as int) == is_device(w, l.device as int));
        if is_device(w, l.device as int) {
            assert(x.entities[l.device as int] == w.entities[l.device as int]);
        }
    }
    let v = read_link(w, l)->0;
    let a = attrs_of(x, s.0);
    assert(kind(a[s.1].value) == kind(attrs_of(w, s.0)[s.1].value));
    lemma_same_kind(a[s.1].value, v);
    lemma_same_kind(attrs_of(w, s.0)[s.1].value, v);
    let y = link_step(x, s).0;
    assert(y == with_attributes(x, s.0, a.insert(s.1, attribute_updated(a[s.1], v))));
    assert forall|j: int| 0 <= j < w.entities.len() implies (#[trigger] is_device(y, j)) == is_device(w, j) by {
        assert(is_device(x, j) == is_device(w, j));
    }
    assert forall|j: int| #![trigger y.entities[j]] 0 <= j < w.entities.len() && is_device(w, j) implies y.entities[j] == w.entities[j] by {
        assert(is_device(x, j) == is_device(w, j));
        assert(x.entities[j] == w.entities[j]);
    }
    assert forall|j: int, k: Seq<char>|
        #![trigger attrs_of(y, j)[k]]
        0 <= j < w.entities.len() implies kind(attrs_of(y, j)[k].value) == kind(attrs_of(w, j)[k].value) by {
        assert(kind(attrs_of(x, j)[k].value) == kind(attrs_of(w, j)[k].value));
        if j == s.0 && k == s.1 {
            lemma_same_kind(a[s.1].value, v);
        }
    }
}

/// A successful run from `w` made only of steps that are fine in `w`, and
/// it applies each of them.
proof fn lemma_run_ok(w: WorldView, steps: Seq<Step>)
    requires
        forall|i: int| 0 <= i < steps.len() ==> 0 <= (#[trigger] steps[i]).0 < w.entities.len() && !is_device(w, steps[i].0),
        run_links(w, steps).1,
    ensures
        forall|i: int| 0 <= i < steps.len() ==> step_ok(w, #[trigger] steps[i]),
        run_links(w, steps).0 == apply_all(w, steps),
        similar(w, apply_all(w, steps)),
    decreases steps.len(),
{
    if steps.len() == 0 {
        assert forall|j: int, k: Seq<char>|
            #![trigger attrs_of(w, j)[k]]
            0 <= j < w.entities.len() implies kind(attrs_of(w, j)[k].value) == kind(attrs_of(w, j)[k].value) by {}
    } else {
        let pre = steps.drop_last();
        let s = steps.last();
        assert forall|i: int| 0 <= i < pre.len() implies 0 <= (#[trigger] pre[i]).0 < w.entities.len() && !is_device(w, pre[i].0) by {
            assert(pre[i] == steps[i]);
        }
        lemma_run_ok(w, pre);
        let x = apply_all(w, pre);
        let l = s.2;
        if 0 <= l.device < w.entities.len() {
            assert(is_device(x, l.device as int) == is_device(w, l.device as int));
            if is_device(w, l.device as int) {
                assert(x.entities[l.device as int] == w.entities[l.device as int]);
            }
        }
        assert(steps[steps.len() - 1] == s);
        assert(read_link(x, l) == read_link(w, l));
        assert(kind(attrs_of(x, s.0)[s.1].value) == kind(attrs_of(w, s.0)[s.1].value));
        if read_link(w, l) is Some {
            lemma_same_kind(attrs_of(x, s.0)[s.1].value, read_link(w, l)->0);
            lemma_same_kind(attrs_of(w, s.0)[s.1].value, read_link(w, l)->0);
        }
        assert(step_ok(w, s));
        lemma_step_similar(w, x, s);
        assert forall|i: int| 0 <= i < steps.len() implies step_ok(w, #[trigger] steps[i]) by {
            if i < pre.len() {
                assert(pre[i] == steps[i]);
            }
        }
    }
}

/// From a world similar to `w`, steps that are fine in `w` all succeed
/// and are applied in order.
proof fn lemma_run_similar(w: WorldView, x: WorldView, steps: Seq<Step>)
    requires
        similar(w, x),
        forall|i: int| 0 <= i < steps.len() ==> step_ok(w, #[trigger] steps[i]),
    ensures
        run_links(x, steps) == (apply_all(x, steps), true),
        similar(w, apply_all(x, steps)),
    decreases steps.len(),
{
    if steps.len() > 0 {
        let pre = steps.drop_last();
        assert forall|i: int| 0 <= i < pre.len() implies step_ok(w, #[trigger] pre[i]) by {
            assert(pre[i] == steps[i]);
        }
        lemma_run_similar(w, x, pre);
        assert(step_ok(w, steps[steps.len() - 1]));
        lemma_step_similar(w, apply_all(x, pre), steps.last());
    }
}

/// Doing a step twice is doing it once.
proof fn lemma_step_twice(w: WorldView, x: WorldView, s: Step)
    requires
        similar(w, x),
        step_ok(w, s),
    ensures
        link_step(link_step(x, s).0, s).0 == link_step(x, s).0,
{
    lemma_step_similar(w, x, s);
    let y = link_step(x, s).0;
    lemma_step_similar(w, y, s);
    let v = read_link(w, s.2)->0;
    let a = attrs_of(x, s.0);
    let b = attrs_of(y, s.0);
    assert(b == a.insert(s.1, attribute_updated(a[s.1], v)));
    lemma_same_kind(a[s.1].value, v);
    lemma_same_kind(v, v);
    assert(attribute_updated(b[s.1], v) == b[s.1]);
    assert(b.insert(s.1, attribute_updated(b[s.1], v)) =~= b);
    assert(y.entities[s.0] == (super::world::EntityView { attributes: Some(b), ..y.entities[s.0] }));
    assert(link_step(y, s).0.entities =~= y.entities);
}

/// The later of two steps on the same attribute is the one that counts;
/// steps on different attributes can be swapped.
proof fn lemma_steps_swap(w: WorldView, x: WorldView, s: Step, t: Step)
    requires
        similar(w, x),
        step_ok(w, s),
        step_ok(w, t),
    ensures
        (s.0 == t.0 && s.1 == t.1) ==> link_step(link_step(x, s).0, t).0 == link_step(x, t).0,
        !(s.0 == t.0 && s.1 == t.1) ==> link_step(link_step(x, s).0, t).0 == link_step(
            link_step(x, t).0,
            s,
        ).0,
{
    lemma_step_similar(w, x, s);
    lemma_step_similar(w, x, t);
    let xs = link_step(x, s).0;
    let xt = link_step(x, t).0;
    lemma_step_similar(w, xs, t);
    lemma_step_similar(w, xt, s);
    let vs = read_link(w, s.2)->0;
    let vt = read_link(w, t.2)->0;
    let a = attrs_of(x, s.0);
    let c = attrs_of(x, t.0);
    lemma_same_kind(a[s.1].value, vs);
    lemma_same_kind(c[t.1].value, vt);
    lemma_same_kind(vs, vt);
    let st = link_step(xs, t).0;
    let ts = link_step(xt, s).0;
    if s.0 == t.0 && s.1 == t.1 {
        let b = attrs_of(xs, t.0);
        assert(b[t.1] == attribute_updated(a[s.1], vs));
        assert(attribute_updated(b[t.1], vt) == attribute_updated(a[s.1], vt));
        assert(b.insert(t.1, attribute_updated(b[t.1], vt)) =~= a.insert(
            t.1,
            attribute_updated(a[t.1], vt),
        ));
        assert(st.entities =~= xt.entities);
    } else if s.0 == t.0 {
        let ms = a.insert(s.1, attribute_updated(a[s.1], vs));
        let mt = a.insert(t.1, attribute_updated(a[t.1], vt));
        assert(attrs_of(xs, t.0) == ms);
        assert(attrs_of(xt, s.0) == mt);
        assert(ms[t.1] == a[t.1]);
        assert(mt[s.1] == a[s.1]);
        assert(ms.insert(t.1, attribute_updated(ms[t.1], vt)) =~= mt.insert(
            s.1,
            attribute_updated(mt[s.1], vs),
        ));
        assert(st.entities =~= ts.entities);
    } else {
        assert(attrs_of(xs, t.0) == c);
        assert(attrs_of(xt, s.0) == a);
        assert(st.entities =~= ts.entities);
    }
}

/// A step done before a run and again after it counts as done only after.
proof fn lemma_absorb(w: WorldView, x: WorldView, s: Step, steps: Seq<Step>)
    requires
        similar(w, x),
        step_ok(w, s),
        forall|i: int| 0 <= i < steps.len() ==> step_ok(w, #[trigger] steps[i]),
    ensures
        link_step(apply_all(link_step(x, s).0, steps), s).0 == link_step(apply_all(x, steps), s).0,
    decreases steps.len(),
{
    lemma_step_similar(w, x, s);
    let xs = link_step(x, s).0;
    if steps.len() == 0 {
        lemma_step_twice(w, x, s);
    } else {
        let pre = steps.drop_last();
        let t = steps.last();
        assert forall|i: int| 0 <= i < pre.len() implies step_ok(w, #[trigger] pre[i]) by {
            assert(pre[i] == steps[i]);
        }
        assert(step_ok(w, steps[steps.len() - 1]));
        lemma_absorb(w, x, s, pre);
        lemma_run_similar(w, xs, pre);
        lemma_run_similar(w, x, pre);
        let y1 = apply_all(xs, pre);
        let y2 = apply_all(x, pre);
        lemma_step_similar(w, y1, t);
        lemma_step_similar(w, y2, t);
        if s.0 == t.0 && s.1 == t.1 {
            lemma_steps_swap(w, y1, t, s);
            lemma_steps_swap(w, y2, t, s);
        } else {
            lemma_steps_swap(w, y1, t, s);
            lemma_steps_swap(w, y2, t, s);
            lemma_steps_swap(w, y1, s, t);
            lemma_steps_swap(w, y2, s, t);
            lemma_step_similar(w, y1, s);
            lemma_step_similar(w, y2, s);
            lemma_steps_swap(w, link_step(y2, s).0, s, t);
        }
    }
}

/// Applying the steps to their own result changes nothing.
proof fn lemma_apply_twice(w: WorldView, steps: Seq<Step>)
    requires
        forall|i: int| 0 <= i < steps.len() ==> step_ok(w, #[trigger] steps[i]),
        similar(w, w),
    ensures
        apply_all(apply_all(w, steps), steps) == apply_all(w, steps),
    decreases steps.len(),
{
    if steps.len() > 0 {
        let pre = steps.drop_last();
        let s = steps.last();
        assert forall|i: int| 0 <= i < pre.len() implies step_ok(w, #[trigger] pre[i]) by {
            assert(pre[i] == steps[i]);
        }
        assert(step_ok(w, steps[steps.len() - 1]));
        lemma_apply_twice(w, pre);
        lemma_run_similar(w, w, pre);
        let x = apply_all(w, pre);
        lemma_absorb(w, x, s, pre);
    }
}

/// Running the scene links a second time, with no new samples in between,
/// changes nothing: the update is idempotent. The steps write attributes
/// of objects that are not devices.
pub proof fn law_update_twice_same(w: WorldView, steps: Seq<(int, Seq<char>, super::attributes::AttributeLinkView)>)
    requires
        forall|i: int| 0 <= i < steps.len() ==> 0 <= (#[trigger] steps[i]).0 < w.entities.len() && !is_device(w, steps[i].0),
        run_links(w, steps).1,
    ensures
        run_links(run_links(w, steps).0, steps) == run_links(w, steps),
{
    lemma_run_ok(w, steps);
    assert(similar(w, w)) by {
        assert forall|j: int, k: Seq<char>|
            #![trigger attrs_of(w, j)[k]]
            0 <= j < w.entities.len() implies kind(attrs_of(w, j)[k].value) == kind(attrs_of(w, j)[k].value) by {}
    }
    lemma_run_similar(w, apply_all(w, steps), steps);
    lemma_apply_twice(w, steps);
}

/// Any step on an object that is not a device keeps the world similar.
proof fn lemma_step_keeps(w: WorldView, x: WorldView, s: Step)
    requires
        similar(w, x),
        0 <= s.0 < w.entities.len(),
        !is_device(w, s.0),
    ensures
        similar(w, link_step(x, s).0),
{
    let y = link_step(x, s).0;
    if read_link(x, s.2) is Some {
        let v = read_link(x, s.2)->0;
        let a = attrs_of(x, s.0);
        assert forall|j: int| 0 <= j < w.entities.len() implies (#[trigger] is_device(y, j)) == is_device(w, j) by {
            assert(is_device(x, j) == is_device(w, j));
        }
        assert forall|j: int| #![trigger y.entities[j]] 0 <= j < w.entities.len() && is_device(w, j) implies y.entities[j] == w.entities[j] by {
            assert(is_device(x, j) == is_device(w, j));
            assert(x.entities[j] == w.entities[j]);
        }
        assert forall|j: int, k: Seq<char>|
            #![trigger attrs_of(y, j)[k]]
            0 <= j < w.entities.len() implies kind(attrs_of(y, j)[k].value) == kind(attrs_of(w, j)[k].value) by {
            assert(kind(attrs_of(x, j)[k].value) == kind(attrs_of(w, j)[k].value));
            if j == s.0 && k == s.1 {
                lemma_same_kind(a[s.1].value, v);
            }
        }
    }
}

proof fn lemma_run_keeps(w: WorldView, steps: Seq<Step>)
    requires
        forall|i: int| 0 <= i < steps.len() ==> 0 <= (#[trigger] steps[i]).0 < w.entities.len() && !is_device(w, steps[i].0),
    ensures
        similar(w, run_links(w, steps).0),
    decreases steps.len(),
{
    if steps.len() == 0 {
        assert forall|j: int, k: Seq<char>|
            #![trigger attrs_of(w, j)[k]]
            0 <= j < w.entities.len() implies kind(attrs_of(w, j)[k].value) == kind(attrs_of(w, j)[k].value) by {}
    } else {
        let pre = steps.drop_last();
        assert forall|i: int| 0 <= i < pre.len() implies 0 <= (#[trigger] pre[i]).0 < w.entities.len() && !is_device(w, pre[i].0) by {
            assert(pre[i] == steps[i]);
        }
        lemma_run_keeps(w, pre);
        assert(steps[steps.len() - 1] == steps.last());
        lemma_step_keeps(w, run_links(w, pre).0, steps.last());
    }
}

/// A scene update, whether it succeeds or stops at a failing link, leaves
/// every device as it was, keeps the entities and the motion setting, and
/// keeps the kind of every attribute. The steps write attributes of objects
/// that are not devices.
pub proof fn law_update_keeps_devices(w: WorldView, steps: Seq<(int, Seq<char>, super::attributes::AttributeLinkView)>)
    requires
        forall|i: int| 0 <= i < steps.len() ==> 0 <= (#[trigger] steps[i]).0 < w.entities.len() && !is_device(w, steps[i].0),
    ensures
        run_links(w, steps).0.entities.len() == w.entities.len(),
        run_links(w, steps).0.motion == w.motion,
        forall|j: int|
            #![trigger run_links(w, steps).0.entities[j]]
            0 <= j < w.entities.len() && is_device(w, j) ==> run_links(w, steps).0.entities[j] == w.entities[j],
        forall|j: int, k: Seq<char>|
            #![trigger attrs_of(run_links(w, steps).0, j)[k]]
            0 <= j < w.entities.len() ==> same_kind(attrs_of(run_links(w, steps).0, j)[k].value, attrs_of(w, j)[k].value),
{
    lemma_run_keeps(w, steps);
    let x = run_links(w, steps).0;
    assert forall|j: int, k: Seq<char>|
        #![trigger attrs_of(x, j)[k]]
        0 <= j < w.entities.len() implies same_kind(attrs_of(x, j)[k].value, attrs_of(w, j)[k].value) by {
        lemma_same_kind(attrs_of(x, j)[k].value, attrs_of(w, j)[k].value);
    }
}

/// Samples applied in order, as `(attribute name, value)` pairs: the
/// attributes keep their names and defaults and the kinds of their values;
/// an attribute that no sample names keeps its value; an attribute named by
/// a sample of its kind, with no later sample naming it, ends holding that
/// sample's value.
proof fn lemma_attrs_sampled(
    attrs: Map<Seq<char>, AttributeView>,
    s: Seq<(Seq<char>, AttributeValue)>,
)
    ensures
        super::devices::attrs_sampled(attrs, s).dom() == attrs.dom(),
        forall|k: Seq<char>|
            #![trigger super::devices::attrs_sampled(attrs, s)[k]]
            attrs.contains_key(k) ==> super::devices::attrs_sampled(attrs, s)[k] == (AttributeView {
                value: super::devices::attrs_sampled(attrs, s)[k].value,
                ..attrs[k]
            }) && same_kind(super::devices::attrs_sampled(attrs, s)[k].value, attrs[k].value),
        forall|k: Seq<char>|
            #![trigger super::devices::attrs_sampled(attrs, s)[k]]
            attrs.contains_key(k) && (forall|j: int| 0 <= j < s.len() ==> (#[trigger] s[j]).0 != k)
                ==> super::devices::attrs_sampled(attrs, s)[k] == attrs[k],
        forall|j: int|
            0 <= j < s.len() && attrs.contains_key((#[trigger] s[j]).0) && same_kind(
                attrs[s[j].0].value,
                s[j].1,
            ) && (forall|q: int| j < q < s.len() ==> (#[trigger] s[q]).0 != s[j].0)
                ==> super::devices::attrs_sampled(attrs, s)[s[j].0].value == s[j].1,
    decreases s.len(),
{
    if s.len() > 0 {
        let pre = s.drop_last();
        let x = s.last();
        lemma_attrs_sampled(attrs, pre);
        let r1 = super::devices::attrs_sampled(attrs, pre);
        let r = super::devices::attrs_sampled(attrs, s);
        assert(r == super::devices::attrs_sampled_once(r1, x));
        if attrs.contains_key(x.0) {
            assert(r1.contains_key(x.0));
            assert(r == r1.insert(x.0, attribute_updated(r1[x.0], x.1)));
        } else {
            assert(r == r1);
        }
        assert(r.dom() =~= attrs.dom());
        assert forall|k: Seq<char>| #![trigger r[k]] attrs.contains_key(k) implies r[k] == (AttributeView {
            value: r[k].value,
            ..attrs[k]
        }) && same_kind(r[k].value, attrs[k].value) by {
            assert(r1[k] == (AttributeView { value: r1[k].value, ..attrs[k] }));
        }
        assert forall|k: Seq<char>|
            #![trigger r[k]]
            attrs.contains_key(k) && (forall|j: int| 0 <= j < s.len() ==> (#[trigger] s[j]).0 != k)
                implies r[k] == attrs[k] by {
            assert forall|j: int| 0 <= j < pre.len() implies (#[trigger] pre[j]).0 != k by {
                assert(pre[j] == s[j]);
            }
            assert(s[s.len() - 1].0 != k);
        }
        assert forall|j: int|
            0 <= j < s.len() && attrs.contains_key((#[trigger] s[j]).0) && same_kind(
                attrs[s[j].0].value,
                s[j].1,
            ) && (forall|q: int| j < q < s.len() ==> (#[trigger] s[q]).0 != s[j].0)
                implies r[s[j].0].value == s[j].1 by {
            let k = s[j].0;
            if j == s.len() - 1 {
                assert(x == s[j]);
                assert(r1[k] == (AttributeView { value: r1[k].value, ..attrs[k] }));
            } else {
                assert(pre[j] == s[j]);
                assert forall|q: int| j < q < pre.len() implies (#[trigger] pre[q]).0 != pre[j].0 by {
                    assert(pre[q] == s[q]);
                }
                assert(s[s.len() - 1].0 != k);
            }
        }
    }
}

/// While motion is on, a batch of samples for the device that `id` names
/// is applied sample by sample: the device keeps its attribute names,
/// their defaults and the kinds of their values; an attribute that no
/// sample names keeps its value; an attribute named by a sample of its
/// kind, with no later sample in the batch naming it, ends holding that
/// sample's value. The answer is `Ok(None)`.
pub proof fn law_samples_apply_in_order(
    w: WorldView,
    id: super::devices::DeviceId,
    samples: Vec<super::attributes::AttributeSample>,
    r: CommandResult,
    w2: WorldView,
)
    requires
        w.motion,
        raw_device(w, id.id() as int),
        devices_outcome(w, Command::Sample((id, samples)), r, w2),
    ensures
        ({
            let a = attrs_of(w, id.id() as int);
            let a2 = attrs_of(w2, id.id() as int);
            &&& r == Ok::<Option<CommandReply>, CommandError>(None)
            &&& a2.dom() == a.dom()
            &&& forall|k: Seq<char>|
                #![trigger a2[k]]
                a.contains_key(k) ==> a2[k] == (AttributeView { value: a2[k].value, ..a[k] })
                    && same_kind(a2[k].value, a[k].value)
            &&& forall|k: Seq<char>|
                #![trigger a2[k]]
                a.contains_key(k) && (forall|j: int|
                    0 <= j < samples@.len() ==> (#[trigger] samples@[j]).name@ != k) ==> a2[k]
                    == a[k]
            &&& forall|j: int|
                0 <= j < samples@.len() && a.contains_key((#[trigger] samples@[j]).name@)
                    && same_kind(a[samples@[j].name@].value, samples@[j].value) && (forall|q: int|
                    j < q < samples@.len() ==> (#[trigger] samples@[q]).name@
                        != samples@[j].name@) ==> a2[samples@[j].name@].value == samples@[j].value
        }),
{
    let a = attrs_of(w, id.id() as int);
    let sv = super::devices::samples_view(samples@);
    lemma_attrs_sampled(a, sv);
    let a2 = attrs_of(w2, id.id() as int);
    assert(a2 == super::devices::attrs_sampled(a, sv));
    assert forall|k: Seq<char>|
        #![trigger a2[k]]
        a.contains_key(k) && (forall|j: int|
            0 <= j < samples@.len() ==> (#[trigger] samples@[j]).name@ != k) implies a2[k] == a[k] by {
        assert forall|j: int| 0 <= j < sv.len() implies (#[trigger] sv[j]).0 != k by {
            assert(sv[j].0 == samples@[j].name@);
        }
    }
    assert forall|j: int|
        0 <= j < samples@.len() && a.contains_key((#[trigger] samples@[j]).name@) && same_kind(
            a[samples@[j].name@].value,
            samples@[j].value,
        ) && (forall|q: int|
            j < q < samples@.len() ==> (#[trigger] samples@[q]).name@ != samples@[j].name@)
            implies a2[samples@[j].name@].value == samples@[j].value by {
        assert(sv[j] == (samples@[j].name@, samples@[j].value));
        assert forall|q: int| j < q < sv.len() implies (#[trigger] sv[q]).0 != sv[j].0 by {
            assert(sv[q].0 == samples@[q].name@);
        }
    }
}

/// Links read the same values in a world similar to `w`.
proof fn lemma_similar_read(w: WorldView, x: WorldView, l: super::attributes::AttributeLinkView)
    requires
        similar(w, x),
    ensures
        read_link(x, l) == read_link(w, l),
{
    if 0 <= l.device < w.entities.len() {
        assert(is_device(x, l.device as int) == is_device(w, l.device as int));
        if is_device(w, l.device as int) {
            assert(x.entities[l.device as int] == w.entities[l.device as int]);
        }
    }
}

/// In a successful run, a step that no later step overwrites leaves its
/// attribute holding the value its link reads in the starting world.
proof fn lemma_last_write(w: WorldView, steps: Seq<Step>, p: int)
    requires
        forall|i: int| 0 <= i < steps.len() ==> 0 <= (#[trigger] steps[i]).0 < w.entities.len() && !is_device(w, steps[i].0),
        run_links(w, steps).1,
        0 <= p < steps.len(),
        forall|q: int| p < q < steps.len() ==> !((#[trigger] steps[q]).0 == steps[p].0 && steps[q].1 == steps[p].1),
    ensures
        read_link(w, steps[p].2) is Some,
        attrs_of(run_links(w, steps).0, steps[p].0)[steps[p].1].value == read_link(w, steps[p].2)->0,
    decreases steps.len(),
{
    let pre = steps.drop_last();
    let x = steps.last();
    assert forall|i: int| 0 <= i < pre.len() implies 0 <= (#[trigger] pre[i]).0 < w.entities.len() && !is_device(w, pre[i].0) by {
        assert(pre[i] == steps[i]);
    }
    let prun = run_links(w, pre);
    assert(prun.1);
    lemma_run_keeps(w, pre);
    let y = prun.0;
    lemma_similar_read(w, y, x.2);
    assert(link_step(y, x).1);
    let v = read_link(y, x.2)->0;
    let a = attrs_of(y, x.0);
    assert(run_links(w, steps).0 == with_attributes(y, x.0, a.insert(x.1, attribute_updated(a[x.1], v))));
    if p == steps.len() - 1 {
        assert(steps[p] == x);
    } else {
        assert(pre[p] == steps[p]);
        assert forall|q: int| p < q < pre.len() implies !((#[trigger] pre[q]).0 == pre[p].0 && pre[q].1 == pre[p].1) by {
            assert(pre[q] == steps[q]);
        }
        lemma_last_write(w, pre, p);
        assert(steps[steps.len() - 1] == x);
    }
}

/// What the steps of `links_upto(world, n)` are: each writes a live scene
/// object below `n`; no two write the same attribute of the same object;
/// and every link of every live scene object below `n` is among them.
proof fn lemma_links_upto_facts(world: super::world::World, n: int)
    requires
        world.well_formed(),
        0 <= n <= world@.entities.len(),
    ensures
        forall|q: int|
            0 <= q < links_upto(world, n).len() ==> 0 <= (#[trigger] links_upto(world, n)[q]).0 < n
                && world@.entities[links_upto(world, n)[q].0].alive
                && world@.entities[links_upto(world, n)[q].0].scene_marker,
        forall|q1: int, q2: int|
            0 <= q1 < q2 < links_upto(world, n).len() ==> !((#[trigger] links_upto(world, n)[q1]).0
                == (#[trigger] links_upto(world, n)[q2]).0 && links_upto(world, n)[q1].1
                == links_upto(world, n)[q2].1),
        forall|i: int, k: Seq<char>|
            #![trigger world@.entities[i].links->0.contains_key(k)]
            0 <= i < n && world@.entities[i].alive && world@.entities[i].scene_marker
                && world@.entities[i].links is Some && world@.entities[i].links->0.contains_key(k)
                ==> exists|p: int|
                0 <= p < links_upto(world, n).len() && #[trigger] links_upto(world, n)[p] == (
                    i,
                    k,
                    world@.entities[i].links->0[k],
                ),
    decreases n,
{
    if n > 0 {
        lemma_links_upto_facts(world, n - 1);
        let base = links_upto(world, n - 1);
        let obj = object_links(world, n - 1);
        let all = links_upto(world, n);
        assert(all == base + obj);
        let i0 = n - 1;
        world.lemma_entity(i0);
        let e = world.entity_spec(i0);
        if e.alive && e.scene_marker && e.links is Some {
            let lm = e.links->0;
            lm.lemma_view();
            let m = lm.entries_spec();
            assert(m.wf());
            assert(obj.len() == m.spec_len());
            assert forall|j: int| 0 <= j < obj.len() implies #[trigger] obj[j] == (i0, m.key(j), m.value(j)@) by {}
        } else {
            assert(obj.len() == 0);
        }
        assert forall|q: int| 0 <= q < all.len() implies 0 <= (#[trigger] all[q]).0 < n
            && world@.entities[all[q].0].alive && world@.entities[all[q].0].scene_marker by {
            if q < base.len() {
                assert(all[q] == base[q]);
            } else {
                assert(all[q] == obj[q - base.len()]);
            }
        }
        assert forall|q1: int, q2: int|
            0 <= q1 < q2 < all.len() implies !((#[trigger] all[q1]).0 == (#[trigger] all[q2]).0
                && all[q1].1 == all[q2].1) by {
            if q2 < base.len() {
                assert(all[q1] == base[q1]);
                assert(all[q2] == base[q2]);
            } else if q1 < base.len() {
                assert(all[q1] == base[q1]);
                assert(all[q2] == obj[q2 - base.len()]);
            } else {
                let lm = e.links->0;
                let m = lm.entries_spec();
                assert(all[q1] == obj[q1 - base.len()]);
                assert(all[q2] == obj[q2 - base.len()]);
                assert(m.key(q1 - base.len()) != m.key(q2 - base.len()));
            }
        }
        assert forall|i: int, k: Seq<char>|
            #![trigger world@.entities[i].links->0.contains_key(k)]
            0 <= i < n && world@.entities[i].alive && world@.entities[i].scene_marker
                && world@.entities[i].links is Some && world@.entities[i].links->0.contains_key(k)
                implies exists|p: int|
                0 <= p < all.len() && #[trigger] all[p] == (i, k, world@.entities[i].links->0[k]) by {
            if i < n - 1 {
                let p = choose|p: int|
                    0 <= p < base.len() && #[trigger] base[p] == (i, k, world@.entities[i].links->0[k]);
                assert(all[p] == base[p]);
            } else {
                let lm = e.links->0;
                let m = lm.entries_spec();
                m.lemma_key_in_entries(k);
                let j = m.index_of(k);
                assert(obj[j] == (i0, m.key(j), m.value(j)@));
                assert(all[base.len() + j] == obj[j]);
            }
        }
    }
}

/// A successful scene update follows every link of every live scene
/// object: the attribute a link starts from ends holding the value of the
/// device attribute the link points at (as the world held it before the
/// update). Scene objects are not devices.
pub proof fn law_update_follows_every_link(world: super::world::World, i: int, k: Seq<char>)
    requires
        world.well_formed(),
        forall|j: int|
            0 <= j < world@.entities.len() && (#[trigger] world@.entities[j]).scene_marker
                ==> !world@.entities[j].device_marker,
        run_links(world@, links_upto(world, world@.entities.len() as int)).1,
        super::scene::is_scene_object(world@, i),
        world@.entities[i].links is Some,
        world@.entities[i].links->0.contains_key(k),
    ensures
        read_link(world@, world@.entities[i].links->0[k]) is Some,
        attrs_of(run_links(world@, links_upto(world, world@.entities.len() as int)).0, i)[k].value
            == read_link(world@, world@.entities[i].links->0[k])->0,
{
    let n = world@.entities.len() as int;
    let steps = links_upto(world, n);
    lemma_links_upto_facts(world, n);
    assert(world@.entities[i].links->0.contains_key(k));
    let p = choose|p: int| 0 <= p < steps.len() && #[trigger] steps[p] == (i, k, world@.entities[i].links->0[k]);
    assert forall|q: int| 0 <= q < steps.len() implies 0 <= (#[trigger] steps[q]).0 < world@.entities.len()
        && !is_device(world@, steps[q].0) by {
        assert(world@.entities[steps[q].0].scene_marker);
    }
    assert forall|q: int| p < q < steps.len() implies !((#[trigger] steps[q]).0 == steps[p].0 && steps[q].1 == steps[p].1) by {
        assert(!(steps[p].0 == steps[q].0 && steps[p].1 == steps[q].1));
    }
    lemma_last_write(world@, steps, p);
}

} // verus!
