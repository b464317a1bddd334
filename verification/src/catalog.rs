//! Enumeration of counter objects, per-object counters and instances, and
//! wildcard path expansion.
//!
//! Every enumeration call of the subsystem follows the same two-phase
//! size-probing protocol: a first call with no buffer reports the needed
//! length, a second call fills a buffer of exactly that length. The native
//! calls happen outside the library; their raw replies come back in as
//! plain values, and everything decided about them is decided here.

use vstd::prelude::*;

use crate::codec::null_separated_to_vec;
use crate::codec::split_on_terminator;
use crate::codec::utf16_lossy_of;
use crate::codec::utf16_units_to_string;
use crate::constants::ERROR_SUCCESS;
use crate::constants::PDH_CSTATUS_NO_OBJECT;
use crate::constants::PDH_MORE_DATA;
use crate::constants::PDHStatus;
use crate::error::PdhError;
use crate::path::parse_instance;
use crate::path::spec_host_part;
use crate::path::spec_instance_part;
use crate::path::spec_parse_instance;
use crate::path::spec_rendered;

verus! {

/// The status and reported length of a size-probing call.
pub struct ProbeReply {
    /// The status the probe call returned.
    pub status: PDHStatus,
    /// The buffer length the probe call reported, in units.
    pub needed_len: u32,
}

/// The status and buffer of a fill call that returns one multi-string.
pub struct BufferReply {
    /// The status the fill call returned.
    pub status: PDHStatus,
    /// The buffer the fill call wrote.
    pub data: Vec<u16>,
}

/// The status and the two buffers of a fill call that returns the counter
/// names and the instance names of one object at once.
pub struct ItemsBufferReply {
    /// The status the fill call returned.
    pub status: PDHStatus,
    /// The buffer of counter names.
    pub counters: Vec<u16>,
    /// The buffer of instance names.
    pub instances: Vec<u16>,
}

/// First phase of the two-phase protocol for enumeration calls: the probe
/// must report that more data is waiting, together with the length to
/// allocate; any other status is fatal to the call.
pub fn enumeration_probe(probe: &ProbeReply) -> (r: Result<u32, PdhError>)
    ensures
        probe.status == PDH_MORE_DATA ==> r == Ok::<u32, PdhError>(probe.needed_len),
        probe.status != PDH_MORE_DATA ==> r == Err::<u32, PdhError>(
            PdhError::Enumeration(probe.status),
        ),
{
    if probe.status == PDH_MORE_DATA {
        Ok(probe.needed_len)
    } else {
        Err(PdhError::Enumeration(probe.status))
    }
}

/// First phase of the two-phase protocol for wildcard path expansion: there
/// the probe call itself must succeed while reporting the length.
pub fn expansion_probe(probe: &ProbeReply) -> (r: Result<u32, PdhError>)
    ensures
        probe.status == ERROR_SUCCESS ==> r == Ok::<u32, PdhError>(probe.needed_len),
        probe.status != ERROR_SUCCESS ==> r == Err::<u32, PdhError>(
            PdhError::Enumeration(probe.status),
        ),
{
    if probe.status == ERROR_SUCCESS {
        Ok(probe.needed_len)
    } else {
        Err(PdhError::Enumeration(probe.status))
    }
}

/// Each segment of a decoded multi-string, decoded from UTF-16 in order.
pub open spec fn spec_strings_of(segs: Seq<Seq<u16>>) -> Seq<Seq<char>> {
    Seq::new(segs.len(), |k: int| utf16_lossy_of(segs[k]))
}

/// The strings held by a well-formed multi-string buffer: its segments,
/// each decoded from UTF-16.
pub open spec fn spec_decoded_strings(data: Seq<u16>) -> Seq<Seq<char>> {
    spec_strings_of(split_on_terminator(data.take(data.len() - 2)))
}

/// Decodes each segment of a multi-string into an owned string.
fn strings_of_segments(segs: &Vec<Vec<u16>>) -> (r: Vec<String>)
    ensures
        r.deep_view() == spec_strings_of(segs.deep_view()),
{
    let mut r: Vec<String> = Vec::new();
    let mut i: usize = 0;
    proof {
        assert(r.deep_view() =~~= spec_strings_of(segs.deep_view().take(0)));
    }
    while i < segs.len()
        invariant
            i <= segs@.len(),
            segs@.len() == segs.deep_view().len(),
            r.deep_view() == spec_strings_of(segs.deep_view().take(i as int)),
        decreases segs@.len() - i,
    {
        let s = utf16_units_to_string(&segs[i]);
        let ghost prev = r;
        r.push(s);
        proof {
            lemma_push_deep_view(prev, r, s);
            assert(segs.deep_view()[i as int] == segs@[i as int]@);
            assert(prev.deep_view() == spec_strings_of(segs.deep_view().take(i as int)));
            assert(r.deep_view() =~~= spec_strings_of(segs.deep_view().take(i + 1)));
        }
        i += 1;
    }
    proof {
        assert(segs.deep_view().take(segs@.len() as int) =~~= segs.deep_view());
    }
    r
}

/// Completes a multi-string enumeration from the fill call's reply: a
/// failing status is fatal, a buffer without the closing terminators is
/// malformed, and otherwise the decoded strings come back in buffer order.
fn decode_multi_string_reply(status: PDHStatus, data: Vec<u16>) -> (r: Result<
    Vec<String>,
    PdhError,
>)
    ensures
        status != ERROR_SUCCESS ==> r == Err::<Vec<String>, PdhError>(
            PdhError::Enumeration(status),
        ),
        status == ERROR_SUCCESS && data@.len() < 2 ==> r == Err::<Vec<String>, PdhError>(
            PdhError::Protocol,
        ),
        status == ERROR_SUCCESS && data@.len() >= 2 ==> r is Ok && r->Ok_0.deep_view()
            == spec_decoded_strings(data@),
{
    if status != ERROR_SUCCESS {
        return Err(PdhError::Enumeration(status));
    }
    match null_separated_to_vec(data) {
        Ok(segs) => Ok(strings_of_segments(&segs)),
        Err(e) => Err(e),
    }
}

/// One session with the counter subsystem's catalog, for the local machine
/// or for one named machine.
pub struct PDH {
    /// The machine to enumerate on, as UTF-16 units; none means the local
    /// machine.
    pub machine_name: Option<Vec<u16>>,
}

impl PDH {
    /// The rendered host prefix of this session's machine: two separators
    /// and the decoded name, or empty for the local machine.
    pub open spec fn spec_prefix(&self) -> Seq<char> {
        match self.machine_name {
            Some(m) => seq!['\\', '\\'] + utf16_lossy_of(m@),
            None => Seq::<char>::empty(),
        }
    }

    /// A session for the local machine.
    pub fn new() -> (r: Self)
        ensures
            r.machine_name is None,
    {
        Self { machine_name: None }
    }

    /// Directs this session at the named machine.
    pub fn with_machine_name(self, machine_name: Vec<u16>) -> (r: Self)
        ensures
            r.machine_name == Some(machine_name),
    {
        Self { machine_name: Some(machine_name) }
    }

    /// The rendered host prefix of this session's machine, for building
    /// counter paths.
    pub fn machine_prefix(&self) -> (r: String)
        ensures
            r@ == self.spec_prefix(),
    {
        proof {
            reveal_strlit("\\\\");
            assert(("\\\\")@ =~= seq!['\\', '\\']);
        }
        match &self.machine_name {
            Some(m) => {
                let mut s = "\\\\".to_owned();
                let name = utf16_units_to_string(m);
                s.append(name.as_str());
                proof {
                    assert(s@ =~= self.spec_prefix());
                }
                s
            },
            None => String::new(),
        }
    }

    /// Completes object enumeration from the fill call's reply: the decoded
    /// object names, in the subsystem's enumeration order.
    pub fn enumerate_objects_string(&self, fill: BufferReply) -> (r: Result<
        Vec<String>,
        PdhError,
    >)
        ensures
            fill.status != ERROR_SUCCESS ==> r == Err::<Vec<String>, PdhError>(
                PdhError::Enumeration(fill.status),
            ),
            fill.status == ERROR_SUCCESS && fill.data@.len() < 2 ==> r == Err::<
                Vec<String>,
                PdhError,
            >(PdhError::Protocol),
            fill.status == ERROR_SUCCESS && fill.data@.len() >= 2 ==> r is Ok
                && r->Ok_0.deep_view() == spec_decoded_strings(fill.data@),
    {
        decode_multi_string_reply(fill.status, fill.data)
    }

    /// Completes item enumeration for one object from the fill call's
    /// reply: the decoded counter names and instance names, each in the
    /// subsystem's enumeration order.
    pub fn enumerate_items_string(&self, fill: ItemsBufferReply) -> (r: Result<
        (Vec<String>, Vec<String>),
        PdhError,
    >)
        ensures
            fill.status != ERROR_SUCCESS ==> r == Err::<(Vec<String>, Vec<String>), PdhError>(
                PdhError::Enumeration(fill.status),
            ),
            fill.status == ERROR_SUCCESS && (fill.counters@.len() < 2 || fill.instances@.len()
                < 2) ==> r == Err::<(Vec<String>, Vec<String>), PdhError>(PdhError::Protocol),
            fill.status == ERROR_SUCCESS && fill.counters@.len() >= 2 && fill.instances@.len()
                >= 2 ==> r is Ok && r->Ok_0.0.deep_view() == spec_decoded_strings(
                fill.counters@,
            ) && r->Ok_0.1.deep_view() == spec_decoded_strings(fill.instances@),
    {
        if fill.status != ERROR_SUCCESS {
            return Err(PdhError::Enumeration(fill.status));
        }
        let counter_segs = match null_separated_to_vec(fill.counters) {
            Ok(segs) => segs,
            Err(e) => {
                return Err(e);
            },
        };
        let instance_segs = match null_separated_to_vec(fill.instances) {
            Ok(segs) => segs,
            Err(e) => {
                return Err(e);
            },
        };
        Ok((strings_of_segments(&counter_segs), strings_of_segments(&instance_segs)))
    }

    /// Completes wildcard path expansion from the fill call's reply: the
    /// decoded concrete paths, in the subsystem's order.
    pub fn expand_counter_path_string(&self, fill: BufferReply) -> (r: Result<
        Vec<String>,
        PdhError,
    >)
        ensures
            fill.status != ERROR_SUCCESS ==> r == Err::<Vec<String>, PdhError>(
                PdhError::Enumeration(fill.status),
            ),
            fill.status == ERROR_SUCCESS && fill.data@.len() < 2 ==> r == Err::<
                Vec<String>,
                PdhError,
            >(PdhError::Protocol),
            fill.status == ERROR_SUCCESS && fill.data@.len() >= 2 ==> r is Ok
                && r->Ok_0.deep_view() == spec_decoded_strings(fill.data@),
    {
        decode_multi_string_reply(fill.status, fill.data)
    }
}

/// A pushed string extends a vector's deep view by the string's view.
proof fn lemma_push_deep_view(prev: Vec<String>, cur: Vec<String>, s: String)
    requires
        cur@ == prev@.push(s),
    ensures
        cur.deep_view() =~~= prev.deep_view().push(s@),
{
    assert forall|k: int| 0 <= k < cur@.len() implies cur.deep_view()[k]
        == prev.deep_view().push(s@)[k] by {
        if k < prev@.len() {
            assert(cur@[k] == prev@[k]);
        } else {
            assert(cur@[k] == s);
        }
    }
}

/// An appended vector extends a vector's deep view by the appended deep view.
proof fn lemma_append_deep_view(prev: Vec<String>, cur: Vec<String>, added: Vec<String>)
    requires
        cur@ == prev@ + added@,
    ensures
        cur.deep_view() =~~= prev.deep_view() + added.deep_view(),
{
    assert forall|k: int| 0 <= k < cur@.len() implies cur.deep_view()[k] == (prev.deep_view()
        + added.deep_view())[k] by {
        if k < prev@.len() {
            assert(cur@[k] == prev@[k]);
        } else {
            assert(cur@[k] == added@[k - prev@.len()]);
        }
    }
}

/// One concrete path: a prefix, the object, the parenthesized instance when
/// the instance is not empty, and the counter.
pub open spec fn spec_prefixed_path(
    prefix: Seq<char>,
    object: Seq<char>,
    instance: Seq<char>,
    counter: Seq<char>,
) -> Seq<char> {
    prefix + seq!['\\'] + object + spec_instance_part(instance) + seq!['\\'] + counter
}

/// Law: a catalog path built under a machine's host prefix is exactly the
/// rendered form of the counter path with that host.
pub proof fn lemma_prefixed_path_is_rendered(
    host: Option<Seq<char>>,
    object: Seq<char>,
    instance: Seq<char>,
    counter: Seq<char>,
)
    ensures
        spec_prefixed_path(spec_host_part(host), object, instance, counter) == spec_rendered(
            host,
            object,
            instance,
            counter,
        ),
{
}

/// The paths of one object and one instance: one per counter, in order.
pub open spec fn spec_instance_paths(
    prefix: Seq<char>,
    object: Seq<char>,
    instance: Seq<char>,
    counters: Seq<Seq<char>>,
) -> Seq<Seq<char>>
    decreases counters.len(),
{
    if counters.len() == 0 {
        Seq::<Seq<char>>::empty()
    } else {
        seq![spec_prefixed_path(prefix, object, instance, counters[0])] + spec_instance_paths(
            prefix,
            object,
            instance,
            counters.drop_first(),
        )
    }
}

/// The paths of one object: instances in enumeration order, counters in
/// enumeration order within each instance.
pub open spec fn spec_cross_paths(
    prefix: Seq<char>,
    object: Seq<char>,
    instances: Seq<Seq<char>>,
    counters: Seq<Seq<char>>,
) -> Seq<Seq<char>>
    decreases instances.len(),
{
    if instances.len() == 0 {
        Seq::<Seq<char>>::empty()
    } else {
        spec_instance_paths(prefix, object, instances[0], counters) + spec_cross_paths(
            prefix,
            object,
            instances.drop_first(),
            counters,
        )
    }
}

/// One more counter appends one more path.
proof fn lemma_instance_paths_push(
    prefix: Seq<char>,
    object: Seq<char>,
    instance: Seq<char>,
    counters: Seq<Seq<char>>,
    c: Seq<char>,
)
    ensures
        spec_instance_paths(prefix, object, instance, counters.push(c)) =~~= spec_instance_paths(
            prefix,
            object,
            instance,
            counters,
        ) + seq![spec_prefixed_path(prefix, object, instance, c)],
    decreases counters.len(),
{
    if counters.len() == 0 {
        reveal_with_fuel(spec_instance_paths, 3);
        assert(counters.push(c)[0] == c);
        assert(counters.push(c).drop_first() =~~= Seq::<Seq<char>>::empty());
    } else {
        assert(counters.push(c)[0] == counters[0]);
        assert(counters.push(c).drop_first() =~~= counters.drop_first().push(c));
        lemma_instance_paths_push(prefix, object, instance, counters.drop_first(), c);
    }
}

/// One more instance appends that instance's paths.
proof fn lemma_cross_paths_push(
    prefix: Seq<char>,
    object: Seq<char>,
    instances: Seq<Seq<char>>,
    counters: Seq<Seq<char>>,
    inst: Seq<char>,
)
    ensures
        spec_cross_paths(prefix, object, instances.push(inst), counters) =~~= spec_cross_paths(
            prefix,
            object,
            instances,
            counters,
        ) + spec_instance_paths(prefix, object, inst, counters),
    decreases instances.len(),
{
    if instances.len() == 0 {
        reveal_with_fuel(spec_cross_paths, 3);
        assert(instances.push(inst)[0] == inst);
        assert(instances.push(inst).drop_first() =~~= Seq::<Seq<char>>::empty());
    } else {
        assert(instances.push(inst)[0] == instances[0]);
        assert(instances.push(inst).drop_first() =~~= instances.drop_first().push(inst));
        lemma_cross_paths_push(prefix, object, instances.drop_first(), counters, inst);
    }
}

/// Renders one concrete path from a prefix and the three segments.
pub fn render_prefixed_path(prefix: &str, object: &str, instance: &str, counter: &str) -> (r:
    String)
    ensures
        r@ == spec_prefixed_path(prefix@, object@, instance@, counter@),
{
    proof {
        reveal_strlit("\\");
        reveal_strlit("(");
        reveal_strlit(")");
        assert(("\\")@ =~= seq!['\\']);
        assert(("(")@ =~= seq!['(']);
        assert((")")@ =~= seq![')']);
    }
    let mut s = prefix.to_owned();
    s.append("\\");
    s.append(object);
    if !instance.is_empty() {
        s.append("(");
        s.append(instance);
        s.append(")");
    }
    s.append("\\");
    s.append(counter);
    proof {
        assert(s@ =~= spec_prefixed_path(prefix@, object@, instance@, counter@));
    }
    s
}

/// Builds all concrete paths of one object: for each instance in
/// enumeration order, one path per counter in enumeration order.
pub fn object_counter_paths(
    prefix: &str,
    object: &str,
    counters: &Vec<String>,
    instances: &Vec<String>,
) -> (r: Vec<String>)
    ensures
        r.deep_view() == spec_cross_paths(
            prefix@,
            object@,
            instances.deep_view(),
            counters.deep_view(),
        ),
{
    let mut r: Vec<String> = Vec::new();
    let mut i: usize = 0;
    proof {
        assert(instances.deep_view().take(0) =~~= Seq::<Seq<char>>::empty());
        assert(r.deep_view() =~~= spec_cross_paths(
            prefix@,
            object@,
            instances.deep_view().take(0),
            counters.deep_view(),
        ));
    }
    while i < instances.len()
        invariant
            i <= instances@.len(),
            instances@.len() == instances.deep_view().len(),
            r.deep_view() == spec_cross_paths(
                prefix@,
                object@,
                instances.deep_view().take(i as int),
                counters.deep_view(),
            ),
        decreases instances@.len() - i,
    {
        let ghost before = r.deep_view();
        let ghost inst_view = instances.deep_view()[i as int];
        proof {
            assert(inst_view == instances@[i as int]@);
        }
        let mut j: usize = 0;
        proof {
            assert(counters.deep_view().take(0) =~~= Seq::<Seq<char>>::empty());
            assert(r.deep_view() =~~= before + spec_instance_paths(
                prefix@,
                object@,
                inst_view,
                counters.deep_view().take(0),
            ));
        }
        while j < counters.len()
            invariant
                i < instances@.len(),
                j <= counters@.len(),
                counters@.len() == counters.deep_view().len(),
                inst_view == instances@[i as int]@,
                r.deep_view() == before + spec_instance_paths(
                    prefix@,
                    object@,
                    inst_view,
                    counters.deep_view().take(j as int),
                ),
            decreases counters@.len() - j,
        {
            let p = render_prefixed_path(prefix, object, instances[i].as_str(), counters[
                j
            ].as_str());
            let ghost prev = r;
            r.push(p);
            proof {
                lemma_push_deep_view(prev, r, p);
                assert(counters.deep_view()[j as int] == counters@[j as int]@);
                lemma_instance_paths_push(
                    prefix@,
                    object@,
                    inst_view,
                    counters.deep_view().take(j as int),
                    counters.deep_view()[j as int],
                );
                assert(counters.deep_view().take(j as int).push(counters.deep_view()[j as int])
                    =~~= counters.deep_view().take(j + 1));
                assert(r.deep_view() =~~= before + spec_instance_paths(
                    prefix@,
                    object@,
                    inst_view,
                    counters.deep_view().take(j + 1),
                ));
            }
            j += 1;
        }
        proof {
            assert(counters.deep_view().take(counters@.len() as int) =~~= counters.deep_view());
            lemma_cross_paths_push(
                prefix@,
                object@,
                instances.deep_view().take(i as int),
                counters.deep_view(),
                inst_view,
            );
            assert(instances.deep_view().take(i as int).push(inst_view)
                =~~= instances.deep_view().take(i + 1));
            assert(r.deep_view() =~~= spec_cross_paths(
                prefix@,
                object@,
                instances.deep_view().take(i + 1),
                counters.deep_view(),
            ));
        }
        i += 1;
    }
    proof {
        assert(instances.deep_view().take(instances@.len() as int) =~~= instances.deep_view());
    }
    r
}

/// The counter names and instance names of one object, as one enumeration
/// call reports them.
pub struct ObjectItems {
    /// The object's counter names, in enumeration order.
    pub counters: Vec<String>,
    /// The object's instance names, in enumeration order; a single empty
    /// name for single-instance objects.
    pub instances: Vec<String>,
}

/// The full catalog walk over enumerated objects and each object's item
/// outcome: an object whose items call reported "no object" is skipped, any
/// other error aborts the walk, and the paths of the remaining objects come
/// out in object order.
pub open spec fn spec_walk(
    prefix: Seq<char>,
    objects: Seq<Seq<char>>,
    outcomes: Seq<Result<ObjectItems, PdhError>>,
) -> Result<Seq<Seq<char>>, PdhError>
    decreases objects.len(),
{
    if objects.len() == 0 || outcomes.len() == 0 {
        Ok(Seq::<Seq<char>>::empty())
    } else {
        match outcomes[0] {
            Err(e) => {
                if e == PdhError::Enumeration(PDH_CSTATUS_NO_OBJECT) {
                    spec_walk(prefix, objects.drop_first(), outcomes.drop_first())
                } else {
                    Err(e)
                }
            },
            Ok(items) => {
                match spec_walk(prefix, objects.drop_first(), outcomes.drop_first()) {
                    Ok(rest) => Ok(
                        spec_cross_paths(
                            prefix,
                            objects[0],
                            items.instances.deep_view(),
                            items.counters.deep_view(),
                        ) + rest,
                    ),
                    Err(e) => Err(e),
                }
            },
        }
    }
}

/// Law: an object that the subsystem reports as missing never aborts the
/// catalog walk; the walk gives exactly what it gives without that object.
pub proof fn lemma_walk_skips_missing_object(
    prefix: Seq<char>,
    objects: Seq<Seq<char>>,
    outcomes: Seq<Result<ObjectItems, PdhError>>,
    i: int,
)
    requires
        objects.len() == outcomes.len(),
        0 <= i < objects.len(),
        outcomes[i] == Err::<ObjectItems, PdhError>(
            PdhError::Enumeration(PDH_CSTATUS_NO_OBJECT),
        ),
    ensures
        spec_walk(prefix, objects, outcomes) == spec_walk(
            prefix,
            objects.remove(i),
            outcomes.remove(i),
        ),
    decreases i,
{
    if i == 0 {
        assert(objects.remove(0) =~= objects.drop_first());
        assert(outcomes.remove(0) =~= outcomes.drop_first());
    } else {
        lemma_walk_skips_missing_object(
            prefix,
            objects.drop_first(),
            outcomes.drop_first(),
            i - 1,
        );
        assert(objects.remove(i)[0] == objects[0]);
        assert(outcomes.remove(i)[0] == outcomes[0]);
        assert(objects.remove(i).drop_first() =~= objects.drop_first().remove(i - 1));
        assert(outcomes.remove(i).drop_first() =~= outcomes.drop_first().remove(i - 1));
        assert(objects.drop_first()[i - 1] == objects[i]);
        assert(outcomes.drop_first()[i - 1] == outcomes[i]);
    }
}

/// Combines the paths already walked with the walk of the rest.
pub open spec fn spec_prepend_paths(
    acc: Seq<Seq<char>>,
    rest: Result<Seq<Seq<char>>, PdhError>,
) -> Result<Seq<Seq<char>>, PdhError> {
    match rest {
        Ok(paths) => Ok(acc + paths),
        Err(e) => Err(e),
    }
}

impl PDH {
    /// Walks the whole catalog: for every enumerated object, in order, the
    /// outcome of its items enumeration either contributes that object's
    /// paths, is skipped when the subsystem reported no such object, or
    /// aborts the walk with its error.
    pub fn enumerate_counters(
        &self,
        objects: &Vec<String>,
        outcomes: &Vec<Result<ObjectItems, PdhError>>,
    ) -> (r: Result<Vec<String>, PdhError>)
        requires
            objects@.len() == outcomes@.len(),
        ensures
            match spec_walk(self.spec_prefix(), objects.deep_view(), outcomes@) {
                Ok(paths) => r is Ok && r->Ok_0.deep_view() == paths,
                Err(e) => r == Err::<Vec<String>, PdhError>(e),
            },
    {
        let ghost prefix_view = self.spec_prefix();
        let ghost objs = objects.deep_view();
        let ghost outs = outcomes@;
        let prefix = self.machine_prefix();
        let mut out: Vec<String> = Vec::new();
        let mut i: usize = 0;
        proof {
            assert(objs.skip(0) =~~= objs);
            assert(outs.skip(0) =~= outs);
            assert(out.deep_view() =~~= Seq::<Seq<char>>::empty());
            assert(spec_walk(prefix_view, objs, outs) == spec_prepend_paths(
                out.deep_view(),
                spec_walk(prefix_view, objs.skip(0), outs.skip(0)),
            ));
        }
        while i < objects.len()
            invariant
                objects@.len() == outcomes@.len(),
                i <= objects@.len(),
                objs == objects.deep_view(),
                outs == outcomes@,
                objs.len() == objects@.len(),
                prefix@ == prefix_view,
                prefix_view == self.spec_prefix(),
                spec_walk(prefix_view, objs, outs) == spec_prepend_paths(
                    out.deep_view(),
                    spec_walk(prefix_view, objs.skip(i as int), outs.skip(i as int)),
                ),
            decreases objects@.len() - i,
        {
            proof {
                assert(objs.skip(i as int)[0] == objs[i as int]);
                assert(outs.skip(i as int)[0] == outs[i as int]);
                assert(objs.skip(i as int).drop_first() =~~= objs.skip(i + 1));
                assert(outs.skip(i as int).drop_first() =~= outs.skip(i + 1));
            }
            match &outcomes[i] {
                Err(e) => {
                    if *e == PdhError::Enumeration(PDH_CSTATUS_NO_OBJECT) {
                        proof {
                            assert(spec_walk(prefix_view, objs.skip(i as int), outs.skip(i as int))
                                == spec_walk(prefix_view, objs.skip(i + 1), outs.skip(i + 1)));
                        }
                    } else {
                        proof {
                            assert(spec_walk(prefix_view, objs, outs) == Err::<
                                Seq<Seq<char>>,
                                PdhError,
                            >(*e));
                        }
                        return Err(*e);
                    }
                },
                Ok(items) => {
                    let mut paths = object_counter_paths(
                        prefix.as_str(),
                        objects[i].as_str(),
                        &items.counters,
                        &items.instances,
                    );
                    let ghost out_prev = out;
                    let ghost paths_prev = paths;
                    out.append(&mut paths);
                    proof {
                        lemma_append_deep_view(out_prev, out, paths_prev);
                        assert(objects.deep_view()[i as int] == objects@[i as int]@);
                        assert(out.deep_view() =~~= out_prev.deep_view()
                            + paths_prev.deep_view());
                        assert forall|rest: Seq<Seq<char>>|
                            true implies (out_prev.deep_view() + (paths_prev.deep_view() + rest))
                            =~~= (out.deep_view() + rest) by {}
                    }
                },
            }
            i += 1;
        }
        proof {
            assert(objs.skip(objects@.len() as int).len() == 0);
            assert(spec_walk(prefix_view, objs.skip(objects@.len() as int), outs.skip(
                objects@.len() as int,
            )) == Ok::<Seq<Seq<char>>, PdhError>(Seq::<Seq<char>>::empty()));
            assert(out.deep_view() + Seq::<Seq<char>>::empty() =~~= out.deep_view());
        }
        Ok(out)
    }
}

/// Labels each wildcard-expanded path with its parsed instance token, in
/// the order the expansion reported the paths.
pub fn wildcard_labels(expanded: &Vec<String>) -> (r: Vec<(String, String)>)
    ensures
        r@.len() == expanded@.len(),
        forall|k: int|
            0 <= k < r@.len() ==> (#[trigger] r@[k]).0@ == expanded.deep_view()[k] && r@[k].1@
                == spec_parse_instance(expanded.deep_view()[k]),
{
    let mut r: Vec<(String, String)> = Vec::new();
    let mut i: usize = 0;
    while i < expanded.len()
        invariant
            i <= expanded@.len(),
            r@.len() == i,
            forall|k: int|
                0 <= k < i ==> (#[trigger] r@[k]).0@ == expanded.deep_view()[k] && r@[k].1@
                    == spec_parse_instance(expanded.deep_view()[k]),
        decreases expanded@.len() - i,
    {
        let path = expanded[i].clone();
        let label = parse_instance(path.as_str());
        r.push((path, label));
        proof {
            assert(expanded.deep_view()[i as int] == expanded@[i as int]@);
        }
        i += 1;
    }
    r
}

} // verus!
