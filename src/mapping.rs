//! The mapping table: which action a normalized event triggers.

use std::collections::HashMap;

use vstd::prelude::*;

use crate::action::{Action, ConditionalAction};
use crate::input::{Input, Lpd8Message};

verus! {

broadcast use vstd::std_specs::hash::group_hash_axioms;

/// The value of the last entry with key `k`, if any: what a map filled by
/// inserting the entries in order would hold at `k`.
pub open spec fn last_for<K, V>(entries: Seq<(K, V)>, k: K) -> Option<V>
    decreases entries.len(),
{
    if entries.len() == 0 {
        None
    } else if entries.last().0 == k {
        Some(entries.last().1)
    } else {
        last_for(entries.drop_last(), k)
    }
}

/// The key of the first entry whose key an earlier entry already has.
pub open spec fn first_repeat<K, V>(entries: Seq<(K, V)>) -> Option<K>
    decreases entries.len(),
{
    if entries.len() == 0 {
        None
    } else {
        match first_repeat(entries.drop_last()) {
            Some(k) => Some(k),
            None => if last_for(entries.drop_last(), entries.last().0) is Some {
                Some(entries.last().0)
            } else {
                None
            },
        }
    }
}

/// A repeated key stays the first one whatever entries follow.
pub proof fn lemma_first_repeat_extends<K, V>(s: Seq<(K, V)>, t: Seq<(K, V)>)
    requires
        first_repeat(s) is Some,
    ensures
        first_repeat(s + t) == first_repeat(s),
    decreases t.len(),
{
    if t.len() > 0 {
        lemma_first_repeat_extends(s, t.drop_last());
        assert((s + t).drop_last() =~= s + t.drop_last());
    } else {
        assert(s + t =~= s);
    }
}

/// The entries of control-change blocks, in order, one block after another.
pub open spec fn flatten_blocks(blocks: Seq<Vec<(Input, ConditionalAction)>>) -> Seq<
    (Input, ConditionalAction),
>
    decreases blocks.len(),
{
    if blocks.len() == 0 {
        seq![]
    } else {
        flatten_blocks(blocks.drop_last()) + blocks.last()@
    }
}

/// Control-change entries keyed by control and trigger value (absent for the
/// default action).
pub open spec fn keyed(entries: Seq<(Input, ConditionalAction)>) -> Seq<
    ((Input, Option<u8>), Action),
> {
    entries.map_values(|e: (Input, ConditionalAction)| ((e.0, e.1.on), e.1.action))
}

/// The control-change entries of a list of configuration blocks.
pub open spec fn cc_entries(blocks: Seq<Vec<(Input, ConditionalAction)>>) -> Seq<
    ((Input, Option<u8>), Action),
> {
    keyed(flatten_blocks(blocks))
}

/// Some program-change entry names the control with index `k`.
pub open spec fn pc_names(entries: Seq<(Input, Action)>, k: u8) -> bool {
    exists|j: int| 0 <= j < entries.len() && (#[trigger] entries[j]).0.spec_index() == k
}

/// Some control-change entry names the control with index `k`.
pub open spec fn cc_names(entries: Seq<((Input, Option<u8>), Action)>, k: u8) -> bool {
    exists|j: int| 0 <= j < entries.len() && (#[trigger] entries[j]).0.0.spec_index() == k
}

proof fn lemma_pc_names_push(entries: Seq<(Input, Action)>, e: (Input, Action), k: u8)
    ensures
        pc_names(entries.push(e), k) <==> (pc_names(entries, k) || e.0.spec_index() == k),
{
    let s = entries.push(e);
    if pc_names(s, k) {
        let j = choose|j: int| 0 <= j < s.len() && (#[trigger] s[j]).0.spec_index() == k;
        if j < entries.len() {
            assert(entries[j] == s[j]);
        }
    }
    if pc_names(entries, k) {
        let j = choose|j: int| 0 <= j < entries.len() && (#[trigger] entries[j]).0.spec_index() == k;
        assert(s[j] == entries[j]);
    }
    if e.0.spec_index() == k {
        assert(s[entries.len() as int] == e);
    }
}

proof fn lemma_cc_names_push(
    entries: Seq<((Input, Option<u8>), Action)>,
    e: ((Input, Option<u8>), Action),
    k: u8,
)
    ensures
        cc_names(entries.push(e), k) <==> (cc_names(entries, k) || e.0.0.spec_index() == k),
{
    let s = entries.push(e);
    if cc_names(s, k) {
        let j = choose|j: int| 0 <= j < s.len() && (#[trigger] s[j]).0.0.spec_index() == k;
        if j < entries.len() {
            assert(entries[j] == s[j]);
        }
    }
    if cc_names(entries, k) {
        let j = choose|j: int|
            0 <= j < entries.len() && (#[trigger] entries[j]).0.0.spec_index() == k;
        assert(s[j] == entries[j]);
    }
    if e.0.0.spec_index() == k {
        assert(s[entries.len() as int] == e);
    }
}

/// The actions of one control in control-change mode: one per raw value, and
/// an optional default for every other value.
#[derive(Debug)]
pub struct MappingWithDefault {
    pub by_value: HashMap<u8, Action>,
    pub default: Option<Action>,
}

impl MappingWithDefault {
    /// The action stored for a trigger value, or the default when `on` is absent.
    pub open spec fn slot(self, on: Option<u8>) -> Option<Action> {
        match on {
            Some(v) => if self.by_value@.contains_key(v) {
                Some(self.by_value@[v])
            } else {
                None
            },
            None => self.default,
        }
    }

    /// The action for a raw value: the value's own entry, else the default.
    pub open spec fn lookup(self, value: u8) -> Option<Action> {
        match self.slot(Some(value)) {
            Some(a) => Some(a),
            None => self.default,
        }
    }

    pub fn new() -> (r: MappingWithDefault)
        ensures
            forall|on: Option<u8>| #[trigger] r.slot(on) is None,
    {
        MappingWithDefault { by_value: HashMap::new(), default: None }
    }

    /// The action for a raw value: the value's own entry takes precedence over
    /// the default.
    pub fn get(&self, value: u8) -> (r: Option<&Action>)
        ensures
            match r {
                Some(a) => self.lookup(value) == Some(*a),
                None => self.lookup(value) is None,
            },
    {
        match self.by_value.get(&value) {
            Some(a) => Some(a),
            None => self.default.as_ref(),
        }
    }
}

/// A mapping configuration that names one `(control, trigger)` pair twice.
#[derive(Clone, Copy, Debug, PartialEq, Eq, Structural)]
pub enum MappingError {
    DuplicateProgramChange { input: Input },
    DuplicateControlChange { input: Input, on: Option<u8> },
}

/// The action that a grouped control-change table holds for a control and a
/// trigger value (or the default, when `on` is absent).
pub open spec fn cc_slot(t: Map<u8, MappingWithDefault>, input: Input, on: Option<u8>) -> Option<
    Action,
> {
    if t.contains_key(input.spec_index()) {
        t[input.spec_index()].slot(on)
    } else {
        None
    }
}

/// The action that a program-change table holds for a control.
pub open spec fn pc_slot(t: Map<u8, Action>, input: Input) -> Option<Action> {
    if t.contains_key(input.spec_index()) {
        Some(t[input.spec_index()])
    } else {
        None
    }
}

/// Builds the program-change table; a control named twice is a configuration
/// error, reported for the first repetition.
pub fn build_pc_mappings(entries: Vec<(Input, Action)>) -> (r: Result<HashMap<u8, Action>, MappingError>)
    ensures
        match first_repeat(entries@) {
            Some(i) => r == Err::<HashMap<u8, Action>, MappingError>(
                MappingError::DuplicateProgramChange { input: i },
            ),
            None => r is Ok && (forall|i: Input| #[trigger]
                pc_slot(r->Ok_0@, i) == last_for(entries@, i)) && (forall|k: u8|
                #[trigger] r->Ok_0@.contains_key(k) <==> pc_names(entries@, k)),
        },
{
    let ghost all = entries@;
    let mut table: HashMap<u8, Action> = HashMap::new();
    let ghost mut done: Seq<(Input, Action)> = seq![];
    for e in it: entries
        invariant
            it.seq() == all,
            done == all.take(it.index() as int),
            first_repeat(done) is None,
            forall|i: Input| #[trigger] pc_slot(table@, i) == last_for(done, i),
            forall|k: u8| #[trigger] table@.contains_key(k) <==> pc_names(done, k),
    {
        let ghost before = done;
        proof {
            done = done.push(e);
            assert(done.drop_last() == before);
            assert(all.take(it.index() + 1) =~= done);
        }
        let (input, action) = e;
        let k = input.index();
        if table.contains_key(&k) {
            proof {
                assert(pc_slot(table@, input) is Some);
                assert(first_repeat(done) == Some(input));
                lemma_first_repeat_extends(done, all.skip(it.index() + 1));
                assert(done + all.skip(it.index() + 1) =~= all);
            }
            return Err(MappingError::DuplicateProgramChange { input });
        }
        let ghost old_table = table@;
        table.insert(k, action);
        proof {
            assert forall|i: Input| #[trigger] pc_slot(table@, i) == last_for(done, i) by {
                if i != input {
                    assert(i.spec_index() != input.spec_index());
                    assert(pc_slot(table@, i) == pc_slot(old_table, i));
                    assert(last_for(done, i) == last_for(before, i));
                }
            }
            assert forall|k: u8| #[trigger] table@.contains_key(k) <==> pc_names(done, k) by {
                lemma_pc_names_push(before, e, k);
            }
        }
    }
    proof {
        assert(done =~= all);
    }
    Ok(table)
}

fn flatten_entries(blocks: Vec<Vec<(Input, ConditionalAction)>>) -> (r: Vec<
    (Input, ConditionalAction),
>)
    ensures
        r@ == flatten_blocks(blocks@),
{
    let ghost all = blocks@;
    let mut flat: Vec<(Input, ConditionalAction)> = Vec::new();
    for block in bit: blocks
        invariant
            bit.seq() == all,
            flat@ == flatten_blocks(all.take(bit.index() as int)),
    {
        let ghost start = flat@;
        for e in eit: block
            invariant
                eit.seq() == block@,
                flat@ == start + block@.take(eit.index() as int),
        {
            flat.push(e);
            proof {
                assert(block@.take(eit.index() + 1) =~= block@.take(eit.index() as int).push(e));
            }
        }
        proof {
            let next = all.take(bit.index() + 1);
            assert(next.drop_last() =~= all.take(bit.index() as int));
            assert(block@.take(block@.len() as int) =~= block@);
            assert(flat@ =~= flatten_blocks(next));
        }
    }
    proof {
        assert(all.take(all.len() as int) =~= all);
    }
    flat
}

/// Groups the control-change blocks by control. Every `(control, trigger
/// value)` pair, and every control's default, may be given once across all
/// blocks; a second one is a configuration error, reported for the first
/// repetition in block order.
pub fn build_cc_mappings(cc_mappings: Vec<Vec<(Input, ConditionalAction)>>) -> (r: Result<
    HashMap<u8, MappingWithDefault>,
    MappingError,
>)
    ensures
        match first_repeat(cc_entries(cc_mappings@)) {
            Some(k) => r == Err::<HashMap<u8, MappingWithDefault>, MappingError>(
                MappingError::DuplicateControlChange { input: k.0, on: k.1 },
            ),
            None => r is Ok && (forall|i: Input, on: Option<u8>| #[trigger]
                cc_slot(r->Ok_0@, i, on) == last_for(cc_entries(cc_mappings@), (i, on))) && (
            forall|k: u8| #[trigger]
                r->Ok_0@.contains_key(k) <==> cc_names(cc_entries(cc_mappings@), k)),
        },
{
    let ghost cfg = cc_mappings@;
    let entries = flatten_entries(cc_mappings);
    let ghost all = keyed(entries@);
    assert(all == cc_entries(cfg));
    let mut grouped: HashMap<u8, MappingWithDefault> = HashMap::new();
    let ghost mut done: Seq<((Input, Option<u8>), Action)> = seq![];
    for e in it: entries
        invariant
            it.seq() == entries@,
            all == keyed(entries@),
            all == cc_entries(cfg),
            cfg == cc_mappings@,
            done == all.take(it.index() as int),
            first_repeat(done) is None,
            forall|i: Input, on: Option<u8>| #[trigger]
                cc_slot(grouped@, i, on) == last_for(done, (i, on)),
            forall|k: u8| #[trigger] grouped@.contains_key(k) <==> cc_names(done, k),
    {
        let ghost before = done;
        let ghost key = (e.0, e.1.on);
        proof {
            done = done.push((key, e.1.action));
            assert(done.drop_last() == before);
            assert(all.take(it.index() + 1) =~= done);
        }
        let ghost old_grouped = grouped@;
        let (input, cond) = e;
        let k = input.index();
        let mut m = match grouped.remove(&k) {
            Some(m) => m,
            None => MappingWithDefault::new(),
        };
        assert(m.slot(cond.on) == cc_slot(old_grouped, input, cond.on));
        let taken = match cond.on {
            Some(v) => m.by_value.contains_key(&v),
            None => m.default.is_some(),
        };
        if taken {
            proof {
                assert(first_repeat(done) == Some(key));
                lemma_first_repeat_extends(done, all.skip(it.index() + 1));
                assert(done + all.skip(it.index() + 1) =~= all);
            }
            return Err(MappingError::DuplicateControlChange { input, on: cond.on });
        }
        let ghost old_m = m;
        match cond.on {
            Some(v) => {
                m.by_value.insert(v, cond.action);
            },
            None => {
                m.default = Some(cond.action);
            },
        }
        grouped.insert(k, m);
        proof {
            assert forall|i: Input, on: Option<u8>| #[trigger]
                cc_slot(grouped@, i, on) == last_for(done, (i, on)) by {
                if (i, on) != key {
                    assert(last_for(done, (i, on)) == last_for(before, (i, on)));
                    if i != input {
                        assert(i.spec_index() != input.spec_index());
                        assert(cc_slot(grouped@, i, on) == cc_slot(old_grouped, i, on));
                    } else {
                        assert(m.slot(on) == old_m.slot(on));
                    }
                }
            }
            assert forall|k: u8| #[trigger] grouped@.contains_key(k) <==> cc_names(done, k) by {
                lemma_cc_names_push(before, (key, e.1.action), k);
            }
        }
    }
    proof {
        assert(done =~= all);
    }
    Ok(grouped)
}

/// The mapping configuration as handed over by the configuration layer: one
/// action per pad in program-change mode, and blocks of control-change entries.
#[derive(Debug)]
pub struct Mappings {
    pub program_changes: Vec<(Input, Action)>,
    pub control_changes: Vec<Vec<(Input, ConditionalAction)>>,
}

/// The compiled, read-only mapping table, keyed by control index.
#[derive(Debug)]
pub struct MappingTable {
    pub program_changes: HashMap<u8, Action>,
    pub control_changes: HashMap<u8, MappingWithDefault>,
}

impl MappingTable {
    /// The action of a control in program-change mode.
    pub open spec fn pc_action(self, input: Input) -> Option<Action> {
        pc_slot(self.program_changes@, input)
    }

    /// The action of a control in control-change mode for a raw value: the
    /// value's own entry, else the control's default, else none.
    pub open spec fn cc_action(self, input: Input, value: u8) -> Option<Action> {
        match cc_slot(self.control_changes@, input, Some(value)) {
            Some(a) => Some(a),
            None => cc_slot(self.control_changes@, input, None),
        }
    }

    /// The action an event triggers, with the raw value handed to it (zero for
    /// a program change, which carries none).
    pub open spec fn resolution(self, msg: Lpd8Message) -> Option<(Action, u8)> {
        match msg {
            Lpd8Message::ProgramChange(i) => match self.pc_action(i) {
                Some(a) => Some((a, 0u8)),
                None => None,
            },
            Lpd8Message::ControlChange(i, v) => match self.cc_action(i, v) {
                Some(a) => Some((a, v)),
                None => None,
            },
        }
    }

    /// Compiles a configuration. A repeated program-change control is
    /// reported first, then a repeated control-change pair; otherwise every
    /// slot of the table holds exactly the configured action.
    pub fn new(mappings: Mappings) -> (r: Result<MappingTable, MappingError>)
        ensures
            match first_repeat(mappings.program_changes@) {
                Some(i) => r == Err::<MappingTable, MappingError>(
                    MappingError::DuplicateProgramChange { input: i },
                ),
                None => match first_repeat(cc_entries(mappings.control_changes@)) {
                    Some(k) => r == Err::<MappingTable, MappingError>(
                        MappingError::DuplicateControlChange { input: k.0, on: k.1 },
                    ),
                    None => r is Ok && (forall|i: Input| #[trigger]
                        r->Ok_0.pc_action(i) == last_for(mappings.program_changes@, i)) && (
                    forall|i: Input, on: Option<u8>| #[trigger]
                        cc_slot(r->Ok_0.control_changes@, i, on) == last_for(
                            cc_entries(mappings.control_changes@),
                            (i, on),
                        )) && (forall|k: u8| #[trigger]
                        r->Ok_0.program_changes@.contains_key(k) <==> pc_names(
                            mappings.program_changes@,
                            k,
                        )) && (forall|k: u8| #[trigger]
                        r->Ok_0.control_changes@.contains_key(k) <==> cc_names(
                            cc_entries(mappings.control_changes@),
                            k,
                        )),
                },
            },
    {
        let Mappings { program_changes, control_changes } = mappings;
        let pc = match build_pc_mappings(program_changes) {
            Ok(t) => t,
            Err(e) => return Err(e),
        };
        let cc = match build_cc_mappings(control_changes) {
            Ok(t) => t,
            Err(e) => return Err(e),
        };
        Ok(MappingTable { program_changes: pc, control_changes: cc })
    }

    /// The action an event triggers and the raw value handed to it; a pure read.
    pub fn resolve(&self, msg: &Lpd8Message) -> (r: Option<(&Action, u8)>)
        ensures
            match r {
                Some((a, v)) => self.resolution(*msg) == Some((*a, v)),
                None => self.resolution(*msg) is None,
            },
    {
        match msg {
            Lpd8Message::ProgramChange(i) => {
                let k = i.index();
                match self.program_changes.get(&k) {
                    Some(a) => Some((a, 0)),
                    None => None,
                }
            },
            Lpd8Message::ControlChange(i, v) => {
                let k = i.index();
                match self.control_changes.get(&k) {
                    Some(m) => match m.get(*v) {
                        Some(a) => Some((a, *v)),
                        None => None,
                    },
                    None => None,
                }
            },
        }
    }
}

proof fn lemma_last_for_some<K, V>(entries: Seq<(K, V)>, i: int)
    requires
        0 <= i < entries.len(),
    ensures
        last_for(entries, entries[i].0) is Some,
    decreases entries.len(),
{
    if i < entries.len() - 1 && entries.last().0 != entries[i].0 {
        lemma_last_for_some(entries.drop_last(), i);
    }
}

proof fn lemma_repeat_found<K, V>(entries: Seq<(K, V)>, i: int, j: int)
    requires
        0 <= i < j < entries.len(),
        entries[i].0 == entries[j].0,
    ensures
        first_repeat(entries) is Some,
    decreases entries.len(),
{
    if j < entries.len() - 1 {
        lemma_repeat_found(entries.drop_last(), i, j);
    } else {
        lemma_last_for_some(entries.drop_last(), i);
    }
}

/// Two control-change entries for the same control and trigger value (or two
/// defaults of one control), in the same block or in different ones, make
/// table construction fail.
pub proof fn lemma_duplicate_pair_fails(
    blocks: Seq<Vec<(Input, ConditionalAction)>>,
    i: int,
    j: int,
)
    requires
        0 <= i < j < flatten_blocks(blocks).len(),
        flatten_blocks(blocks)[i].0 == flatten_blocks(blocks)[j].0,
        flatten_blocks(blocks)[i].1.on == flatten_blocks(blocks)[j].1.on,
    ensures
        first_repeat(cc_entries(blocks)) is Some,
{
    lemma_repeat_found(cc_entries(blocks), i, j);
}

/// Two program-change entries for the same control make table construction
/// fail.
pub proof fn lemma_duplicate_pad_fails(entries: Seq<(Input, Action)>, i: int, j: int)
    requires
        0 <= i < j < entries.len(),
        entries[i].0 == entries[j].0,
    ensures
        first_repeat(entries) is Some,
{
    lemma_repeat_found(entries, i, j);
}

} // verus!
