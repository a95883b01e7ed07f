//! Commands from the interface, applied to what the user asked for.
//!
//! A command edits the configuration and may ask the supervisor for a side
//! effect that only it can carry out: forgetting the source's retry schedule,
//! pushing new gains to running streams, rebuilding every destination, or
//! enumerating devices again.

use vstd::prelude::*;
use crate::device::{catalog_name, name_for, DeviceCatalog};
use crate::model::{LatencyProfile, MirrorConfig, SourceConfig, TargetConfig};

verus! {

pub enum Command<G> {
    SetEnabled(bool),
    SetSource(Option<String>),
    AddTarget(String),
    RemoveTarget(String),
    SetTargetEnabled { id: String, enabled: bool },
    SetTargetGain { id: String, gain_db: G, muted: bool },
    SetLatency { profile: LatencyProfile, custom_ms: u32 },
    Rescan,
    /// Whether anyone is watching the meters. When nobody is, the engine stops
    /// publishing them, which is most of its idle cost.
    SetTelemetry(bool),
    Shutdown,
}

/// What the supervisor has to do after a command.
#[derive(Clone, Copy, Debug, PartialEq, Eq, Structural)]
pub enum Effect {
    Nothing,
    /// The source changed: its retry schedule starts afresh.
    ResetSourceLink,
    /// Gain reaches the callbacks through an atomic, so it takes effect without
    /// disturbing the streams.
    ApplyGains,
    /// Buffer size is fixed when a stream opens, so every destination has to
    /// be rebuilt for a new latency setting to mean anything.
    CloseAllTargets,
    /// Enumerate again and republish everything, even when nothing on the
    /// system changed: this is how a freshly loaded interface asks for it all.
    Rescan,
    SetTelemetry(bool),
}

pub struct Handled {
    /// The persisted configuration changed.
    pub changed: bool,
    pub effect: Effect,
}

/// Index of the first destination carrying this identifier.
pub open spec fn first_target<G>(targets: Seq<TargetConfig<G>>, id: Seq<char>) -> Option<int>
    decreases targets.len(),
{
    if targets.len() == 0 {
        None
    } else if targets[0].id@ == id {
        Some(0)
    } else {
        match first_target(targets.drop_first(), id) {
            Some(i) => Some(i + 1),
            None => None,
        }
    }
}

/// The destinations that do not carry this identifier, in order.
pub open spec fn without_id<G>(targets: Seq<TargetConfig<G>>, id: Seq<char>) -> Seq<TargetConfig<G>>
    decreases targets.len(),
{
    if targets.len() == 0 {
        Seq::empty()
    } else {
        let rest = without_id(targets.drop_last(), id);
        if targets.last().id@ == id {
            rest
        } else {
            rest.push(targets.last())
        }
    }
}

proof fn lemma_first_target_bounds<G>(targets: Seq<TargetConfig<G>>, id: Seq<char>)
    ensures
        match first_target(targets, id) {
            Some(i) => 0 <= i < targets.len() && targets[i].id@ == id && forall|j: int|
                0 <= j < i ==> #[trigger] targets[j].id@ != id,
            None => forall|j: int| 0 <= j < targets.len() ==> #[trigger] targets[j].id@ != id,
        },
    decreases targets.len(),
{
    if targets.len() > 0 {
        lemma_first_target_bounds(targets.drop_first(), id);
        if targets[0].id@ != id {
            match first_target(targets.drop_first(), id) {
                Some(i) => {
                    assert forall|j: int| 0 <= j < i + 1 implies #[trigger] targets[j].id@ != id by {
                        if j > 0 {
                            assert(targets[j] == targets.drop_first()[j - 1]);
                        }
                    }
                },
                None => {
                    assert forall|j: int| 0 <= j < targets.len() implies #[trigger] targets[j].id@ != id by {
                        if j > 0 {
                            assert(targets[j] == targets.drop_first()[j - 1]);
                        }
                    }
                },
            }
        }
    }
}

fn find_target<G>(targets: &Vec<TargetConfig<G>>, id: &String) -> (position: Option<usize>)
    ensures
        match position {
            Some(i) => i < targets@.len() && first_target(targets@, id@) == Some(i as int),
            None => first_target(targets@, id@) is None,
        },
{
    let mut index: usize = 0;
    proof {
        lemma_first_target_bounds(targets@, id@);
    }
    while index < targets.len()
        invariant
            0 <= index <= targets@.len(),
            forall|j: int| 0 <= j < index ==> #[trigger] targets@[j].id@ != id@,
            match first_target(targets@, id@) {
                Some(i) => 0 <= i < targets@.len() && targets@[i].id@ == id@ && forall|j: int|
                    0 <= j < i ==> #[trigger] targets@[j].id@ != id@,
                None => forall|j: int| 0 <= j < targets@.len() ==> #[trigger] targets@[j].id@ != id@,
            },
        decreases targets@.len() - index,
    {
        if targets[index].id == *id {
            proof {
                let f = first_target(targets@, id@);
                if let Some(i) = f {
                    if i < index {
                        assert(targets@[i].id@ != id@);
                    } else if i > index {
                        assert(targets@[index as int].id@ != id@);
                    }
                }
            }
            return Some(index);
        }
        index = index + 1;
    }
    None
}

fn remove_all_with_id<G>(targets: &mut Vec<TargetConfig<G>>, id: &String)
    ensures
        final(targets)@ == without_id(old(targets)@, id@),
{
    let mut rest: Vec<TargetConfig<G>> = Vec::new();
    std::mem::swap(targets, &mut rest);
    let ghost all = rest@;
    let total = rest.len();
    let mut taken: usize = 0;
    assert(all.take(0) =~= Seq::<TargetConfig<G>>::empty());
    while rest.len() > 0
        invariant
            taken + rest@.len() == all.len(),
            total == all.len(),
            rest@ == all.skip(taken as int),
            targets@ == without_id(all.take(taken as int), id@),
        decreases rest@.len(),
    {
        let target = rest.remove(0);
        proof {
            assert(all.take(taken + 1).drop_last() =~= all.take(taken as int));
            assert(all.take(taken + 1).last() == target);
            assert(rest@ =~= all.skip(taken + 1));
        }
        if target.id != *id {
            targets.push(target);
        }
        taken = taken + 1;
    }
    proof {
        assert(all.take(taken as int) =~= all);
    }
}

/// What a command leaves of the configuration and asks of the supervisor.
/// Names come from the catalog, and a new destination starts enabled, unmuted,
/// at `unity_gain`.
pub open spec fn handled_as<G>(
    before: MirrorConfig<G>,
    after: MirrorConfig<G>,
    command: Command<G>,
    catalog: DeviceCatalog,
    unity_gain: G,
    outcome: Handled,
) -> bool {
    match command {
        Command::SetEnabled(enabled) => {
            &&& after == MirrorConfig { enabled, ..before }
            &&& outcome.changed
            &&& outcome.effect == Effect::Nothing
        },
        Command::SetSource(wanted) => {
            &&& after.enabled == before.enabled
            &&& after.targets == before.targets
            &&& after.latency == before.latency
            &&& after.latency_ms == before.latency_ms
            &&& match wanted {
                Some(id) => after.source matches Some(source) && source.id == id && source.name@ == catalog_name(
                    catalog,
                    id@,
                ),
                None => after.source is None,
            }
            &&& outcome.changed
            &&& outcome.effect == Effect::ResetSourceLink
        },
        Command::AddTarget(id) => {
            &&& outcome.effect == Effect::Nothing
            &&& match first_target(before.targets@, id@) {
                Some(_) => after == before && !outcome.changed,
                None => {
                    &&& outcome.changed
                    &&& after.enabled == before.enabled
                    &&& after.source == before.source
                    &&& after.latency == before.latency
                    &&& after.latency_ms == before.latency_ms
                    &&& after.targets@.len() == before.targets@.len() + 1
                    &&& after.targets@.drop_last() == before.targets@
                    &&& after.targets@.last().id == id
                    &&& after.targets@.last().name@ == catalog_name(catalog, id@)
                    &&& after.targets@.last().enabled
                    &&& after.targets@.last().gain_db == unity_gain
                    &&& !after.targets@.last().muted
                },
            }
        },
        Command::RemoveTarget(id) => {
            &&& after == MirrorConfig { targets: after.targets, ..before }
            &&& after.targets@ == without_id(before.targets@, id@)
            &&& outcome.changed == (after.targets@.len() != before.targets@.len())
            &&& outcome.effect == Effect::Nothing
        },
        Command::SetTargetEnabled { id, enabled } => {
            &&& outcome.effect == Effect::Nothing
            &&& match first_target(before.targets@, id@) {
                Some(i) => if before.targets@[i].enabled != enabled {
                    &&& outcome.changed
                    &&& after == MirrorConfig { targets: after.targets, ..before }
                    &&& after.targets@ == before.targets@.update(
                        i,
                        TargetConfig { enabled, ..before.targets@[i] },
                    )
                } else {
                    after == before && !outcome.changed
                },
                None => after == before && !outcome.changed,
            }
        },
        Command::SetTargetGain { id, gain_db, muted } => match first_target(before.targets@, id@) {
            Some(i) => {
                &&& outcome.changed
                &&& outcome.effect == Effect::ApplyGains
                &&& after == MirrorConfig { targets: after.targets, ..before }
                &&& after.targets@ == before.targets@.update(
                    i,
                    TargetConfig { gain_db, muted, ..before.targets@[i] },
                )
            },
            None => after == before && !outcome.changed && outcome.effect == Effect::Nothing,
        },
        Command::SetLatency { profile, custom_ms } => if before.latency == profile && before.latency_ms
            == custom_ms {
            after == before && !outcome.changed && outcome.effect == Effect::Nothing
        } else {
            &&& after == MirrorConfig { latency: profile, latency_ms: custom_ms, ..before }
            &&& outcome.changed
            &&& outcome.effect == Effect::CloseAllTargets
        },
        Command::Rescan => after == before && !outcome.changed && outcome.effect == Effect::Rescan,
        Command::SetTelemetry(watching) => after == before && !outcome.changed && outcome.effect
            == Effect::SetTelemetry(watching),
        Command::Shutdown => after == before && !outcome.changed && outcome.effect == Effect::Nothing,
    }
}

/// Applies one command, returning whether the persisted configuration
/// changed and what the supervisor has to do.
pub fn handle<G>(
    config: &mut MirrorConfig<G>,
    command: Command<G>,
    catalog: &DeviceCatalog,
    unity_gain: G,
) -> (outcome: Handled)
    ensures
        handled_as(*old(config), *final(config), command, *catalog, unity_gain, outcome),
{
    match command {
        Command::SetEnabled(enabled) => {
            config.enabled = enabled;
            Handled { changed: true, effect: Effect::Nothing }
        },
        Command::SetSource(wanted) => {
            config.source = match wanted {
                Some(id) => {
                    let name = name_for(catalog, &id);
                    Some(SourceConfig { id, name })
                },
                None => None,
            };
            Handled { changed: true, effect: Effect::ResetSourceLink }
        },
        Command::AddTarget(id) => {
            if find_target(&config.targets, &id).is_some() {
                return Handled { changed: false, effect: Effect::Nothing };
            }
            let name = name_for(catalog, &id);
            let ghost before = config.targets@;
            config.targets.push(TargetConfig { id, name, enabled: true, gain_db: unity_gain, muted: false });
            proof {
                assert(config.targets@.drop_last() =~= before);
            }
            Handled { changed: true, effect: Effect::Nothing }
        },
        Command::RemoveTarget(id) => {
            let before = config.targets.len();
            remove_all_with_id(&mut config.targets, &id);
            Handled { changed: before != config.targets.len(), effect: Effect::Nothing }
        },
        Command::SetTargetEnabled { id, enabled } => {
            match find_target(&config.targets, &id) {
                Some(index) => {
                    if config.targets[index].enabled != enabled {
                        let ghost before = config.targets@;
                        let mut target = config.targets.remove(index);
                        target.enabled = enabled;
                        config.targets.insert(index, target);
                        proof {
                            assert(config.targets@ =~= before.update(
                                index as int,
                                TargetConfig { enabled, ..before[index as int] },
                            ));
                        }
                        Handled { changed: true, effect: Effect::Nothing }
                    } else {
                        Handled { changed: false, effect: Effect::Nothing }
                    }
                },
                None => Handled { changed: false, effect: Effect::Nothing },
            }
        },
        Command::SetTargetGain { id, gain_db, muted } => {
            match find_target(&config.targets, &id) {
                Some(index) => {
                    let ghost before = config.targets@;
                    let mut target = config.targets.remove(index);
                    target.gain_db = gain_db;
                    target.muted = muted;
                    config.targets.insert(index, target);
                    proof {
                        assert(config.targets@ =~= before.update(
                            index as int,
                            TargetConfig { gain_db, muted, ..before[index as int] },
                        ));
                    }
                    Handled { changed: true, effect: Effect::ApplyGains }
                },
                None => Handled { changed: false, effect: Effect::Nothing },
            }
        },
        Command::SetLatency { profile, custom_ms } => {
            if config.latency == profile && config.latency_ms == custom_ms {
                return Handled { changed: false, effect: Effect::Nothing };
            }
            config.latency = profile;
            config.latency_ms = custom_ms;
            Handled { changed: true, effect: Effect::CloseAllTargets }
        },
        Command::Rescan => Handled { changed: false, effect: Effect::Rescan },
        Command::SetTelemetry(watching) => Handled { changed: false, effect: Effect::SetTelemetry(watching) },
        Command::Shutdown => Handled { changed: false, effect: Effect::Nothing },
    }
}

/// Whether some destination carries this identifier under another name.
pub open spec fn renamed_target<G>(targets: Seq<TargetConfig<G>>, id: Seq<char>, name: Seq<char>) -> bool {
    exists|i: int| 0 <= i < targets.len() && #[trigger] targets[i].id@ == id && targets[i].name@ != name
}

/// The configuration with the source's name replaced.
pub open spec fn with_source_name<G>(config: MirrorConfig<G>, name: String) -> MirrorConfig<G> {
    MirrorConfig { source: Some(SourceConfig { id: config.source->0.id, name }), ..config }
}

/// The destinations with the first one carrying `id` renamed.
pub open spec fn renamed_at<G>(targets: Seq<TargetConfig<G>>, id: Seq<char>, name: String) -> Seq<TargetConfig<G>> {
    let i = first_target(targets, id)->0;
    targets.update(i, TargetConfig { name, ..targets[i] })
}

/// Keeps the persisted source name aligned with the device's current one, so
/// a renamed device stays readable while it is away. Returns whether the
/// configuration changed.
pub fn remember_source_name<G>(config: &mut MirrorConfig<G>, name: String) -> (changed: bool)
    ensures
        changed == (old(config).source is Some && old(config).source->0.name@ != name@),
        changed ==> *final(config) == with_source_name(*old(config), name),
        !changed ==> *final(config) == *old(config),
{
    let renamed = match &config.source {
        Some(source) => source.name != name,
        None => false,
    };
    if !renamed {
        return false;
    }
    config.source = match config.source.take() {
        Some(source) => Some(SourceConfig { id: source.id, name }),
        None => None,
    };
    true
}

/// Keeps a destination's persisted name aligned with the device's current
/// one. When some entry with this identifier carries another name, the first
/// entry with this identifier takes the new one. Returns whether the
/// configuration changed.
pub fn remember_target_name<G>(config: &mut MirrorConfig<G>, id: &String, name: String) -> (changed: bool)
    ensures
        changed == renamed_target(old(config).targets@, id@, name@),
        changed ==> final(config).enabled == old(config).enabled && final(config).source == old(config).source,
        changed ==> final(config).latency == old(config).latency && final(config).latency_ms == old(config).latency_ms,
        changed ==> final(config).targets@ == renamed_at(old(config).targets@, id@, name),
        !changed ==> *final(config) == *old(config),
{
    let mut index: usize = 0;
    let mut renamed = false;
    while index < config.targets.len()
        invariant
            0 <= index <= config.targets@.len(),
            renamed == (exists|j: int|
                0 <= j < index && #[trigger] config.targets@[j].id@ == id@ && config.targets@[j].name@ != name@),
        decreases config.targets@.len() - index,
    {
        if config.targets[index].id == *id && config.targets[index].name != name {
            renamed = true;
        }
        index = index + 1;
    }
    if !renamed {
        return false;
    }
    proof {
        lemma_first_target_bounds(config.targets@, id@);
    }
    match find_target(&config.targets, id) {
        Some(position) => {
            let ghost before = config.targets@;
            let mut target = config.targets.remove(position);
            target.name = name;
            config.targets.insert(position, target);
            proof {
                assert(config.targets@ =~= before.update(position as int, TargetConfig { name, ..before[position as int] }));
            }
        },
        None => {},
    }
    true
}

/// Removing a destination leaves no entry carrying its identifier, and
/// keeps every other one.
pub proof fn lemma_remove_clears<G>(targets: Seq<TargetConfig<G>>, id: Seq<char>)
    ensures
        forall|i: int| 0 <= i < without_id(targets, id).len() ==> #[trigger] without_id(targets, id)[i].id@ != id,
        forall|j: int|
            0 <= j < targets.len() && targets[j].id@ != id ==> #[trigger] without_id(targets, id).contains(
                targets[j],
            ),
    decreases targets.len(),
{
    lemma_first_target_bounds(targets, id);
    if targets.len() > 0 {
        lemma_remove_clears(targets.drop_last(), id);
        let rest = without_id(targets.drop_last(), id);
        if targets.last().id@ != id {
            assert forall|i: int| 0 <= i < rest.push(targets.last()).len() implies #[trigger] rest.push(
                targets.last(),
            )[i].id@ != id by {
                if i < rest.len() {
                    assert(rest[i].id@ != id);
                }
            }
        }
        assert forall|j: int|
            0 <= j < targets.len() && targets[j].id@ != id implies #[trigger] without_id(targets, id).contains(
            targets[j],
        ) by {
            if j < targets.len() - 1 {
                assert(targets.drop_last()[j] == targets[j]);
                assert(without_id(targets.drop_last(), id).contains(targets.drop_last()[j]));
                let k = choose|k: int| 0 <= k < rest.len() && rest[k] == targets[j];
                if targets.last().id@ != id {
                    assert(rest.push(targets.last())[k] == targets[j]);
                }
            } else {
                assert(rest.push(targets.last())[rest.len() as int] == targets[j]);
            }
        }
    }
}

proof fn lemma_without_absent<G>(targets: Seq<TargetConfig<G>>, id: Seq<char>)
    requires
        forall|j: int| 0 <= j < targets.len() ==> #[trigger] targets[j].id@ != id,
    ensures
        without_id(targets, id) == targets,
    decreases targets.len(),
{
    if targets.len() > 0 {
        lemma_without_absent(targets.drop_last(), id);
        assert(targets.drop_last().push(targets.last()) =~= targets);
    }
}

/// Adding a destination that was not configured and then removing it leaves
/// the configuration as it was.
pub proof fn lemma_remove_undoes_add<G>(
    start: MirrorConfig<G>,
    added: MirrorConfig<G>,
    end: MirrorConfig<G>,
    id: String,
    catalog: DeviceCatalog,
    unity_gain: G,
    first: Handled,
    second: Handled,
)
    requires
        first_target(start.targets@, id@) is None,
        handled_as(start, added, Command::AddTarget(id), catalog, unity_gain, first),
        handled_as(added, end, Command::RemoveTarget(id), catalog, unity_gain, second),
    ensures
        end.targets@ == start.targets@,
        end.enabled == start.enabled,
        end.source == start.source,
        end.latency == start.latency,
        end.latency_ms == start.latency_ms,
        first.changed && second.changed,
{
    lemma_first_target_bounds(start.targets@, id@);
    lemma_without_absent(start.targets@, id@);
    let grown = added.targets@;
    assert(grown.drop_last() == start.targets@);
    assert(grown.last().id@ == id@);
    assert(without_id(grown, id@) == without_id(grown.drop_last(), id@));
}

} // verus!
