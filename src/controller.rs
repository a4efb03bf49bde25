//! Action dispatch and the decisions of the event loop.

use vstd::prelude::*;

use crate::action::{description, Action, Volume};
use crate::input::{Input, Lpd8Message};
use crate::mapping::{cc_slot, MappingTable};
use crate::scene::{find_id, id_named, item_named, RemoteId, SceneCache, SceneItem};

verus! {

/// A volume level as the fraction `num / den`.
#[derive(Clone, Copy, Debug, PartialEq, Eq, Structural)]
pub struct Ratio {
    pub num: u8,
    pub den: u8,
}

/// A command to the remote session.
#[derive(Debug, PartialEq, Eq)]
pub enum Command {
    /// Make `scene` the active scene.
    SetCurrentScene { scene: RemoteId },
    /// Set the volume of `input` to `ratio`.
    SetVolume { input: RemoteId, ratio: Ratio },
    /// Toggle the mute state of `input`.
    ToggleMute { input: RemoteId },
    /// Show or hide the item `item_id` of `scene`.
    SetItemEnabled { scene: RemoteId, item_id: i64, enabled: bool },
    /// Flip the visibility of the item `item_id` of `scene`.
    ToggleItem { scene: RemoteId, item_id: i64 },
}

/// The volume level of a volume action triggered with raw value `data`: the
/// value as a fraction of 127, or the fixed percentage.
pub open spec fn ratio_of(v: Volume, data: u8) -> Ratio {
    match v {
        Volume::Pass => Ratio { num: data, den: 127 },
        Volume::Value(p) => Ratio { num: p, den: 100 },
    }
}

/// The command an action issues: scenes and inputs are looked up in the
/// session's catalogs, scene items in the active scene; an unknown name issues
/// nothing.
pub open spec fn command_for(
    action: Action,
    data: u8,
    scenes: Seq<RemoteId>,
    inputs: Seq<RemoteId>,
    current: (RemoteId, Seq<SceneItem>),
) -> Option<Command> {
    match action {
        Action::SetScene { name } => match id_named(scenes, name@) {
            Some(s) => Some(Command::SetCurrentScene { scene: s }),
            None => None,
        },
        Action::SetVolume { name, value } => match id_named(inputs, name@) {
            Some(i) => Some(Command::SetVolume { input: i, ratio: ratio_of(value, data) }),
            None => None,
        },
        Action::ToggleInput { name } => match id_named(inputs, name@) {
            Some(i) => Some(Command::ToggleMute { input: i }),
            None => None,
        },
        Action::EnableSceneItem { name } => match item_named(current.1, name@) {
            Some(id) => Some(Command::SetItemEnabled { scene: current.0, item_id: id, enabled: true }),
            None => None,
        },
        Action::DisableSceneItem { name } => match item_named(current.1, name@) {
            Some(id) => Some(
                Command::SetItemEnabled { scene: current.0, item_id: id, enabled: false },
            ),
            None => None,
        },
        Action::ToggleSceneItem { name } => match item_named(current.1, name@) {
            Some(id) => Some(Command::ToggleItem { scene: current.0, item_id: id }),
            None => None,
        },
    }
}

/// The state that the event loop owns: the mapping table, the catalogs of
/// scenes and inputs taken at connect time, and the cache of the active scene.
#[derive(Debug)]
pub struct Controller {
    pub table: MappingTable,
    pub scenes: Vec<RemoteId>,
    pub inputs: Vec<RemoteId>,
    pub current: SceneCache,
}

impl Controller {
    pub fn new(
        table: MappingTable,
        scenes: Vec<RemoteId>,
        inputs: Vec<RemoteId>,
        current: SceneCache,
    ) -> (r: Controller)
        ensures
            r.table == table,
            r.scenes@ == scenes@,
            r.inputs@ == inputs@,
            r.current@ == current@,
    {
        Controller { table, scenes, inputs, current }
    }

    /// The command that an event leads to, if any.
    pub open spec fn outcome(self, msg: Lpd8Message) -> Option<Command> {
        match self.table.resolution(msg) {
            Some((a, v)) => command_for(a, v, self.scenes@, self.inputs@, self.current@),
            None => None,
        }
    }

    /// Decides the command for an action triggered with raw value `data`,
    /// against the current scene snapshot.
    pub fn execute_action(&self, action: &Action, data: u8) -> (r: Option<Command>)
        ensures
            r == command_for(*action, data, self.scenes@, self.inputs@, self.current@),
    {
        match action {
            Action::SetScene { name } => match find_id(&self.scenes, name) {
                Some(s) => Some(Command::SetCurrentScene { scene: s }),
                None => None,
            },
            Action::SetVolume { name, value } => match find_id(&self.inputs, name) {
                Some(i) => {
                    let ratio = match value {
                        Volume::Pass => Ratio { num: data, den: 127 },
                        Volume::Value(p) => Ratio { num: *p, den: 100 },
                    };
                    Some(Command::SetVolume { input: i, ratio })
                },
                None => None,
            },
            Action::ToggleInput { name } => match find_id(&self.inputs, name) {
                Some(i) => Some(Command::ToggleMute { input: i }),
                None => None,
            },
            Action::EnableSceneItem { name } => match self.current.item_id(name) {
                Some(id) => Some(
                    Command::SetItemEnabled {
                        scene: self.current.scene().clone(),
                        item_id: id,
                        enabled: true,
                    },
                ),
                None => None,
            },
            Action::DisableSceneItem { name } => match self.current.item_id(name) {
                Some(id) => Some(
                    Command::SetItemEnabled {
                        scene: self.current.scene().clone(),
                        item_id: id,
                        enabled: false,
                    },
                ),
                None => None,
            },
            Action::ToggleSceneItem { name } => match self.current.item_id(name) {
                Some(id) => Some(
                    Command::ToggleItem { scene: self.current.scene().clone(), item_id: id },
                ),
                None => None,
            },
        }
    }

    /// Handles one control-surface event: resolves it against the mapping
    /// table and decides the command of the resolved action, together with the
    /// action's description for diagnostics. Nothing is issued when no action
    /// is mapped or its target is unknown.
    pub fn handle_message(&self, msg: &Lpd8Message) -> (r: Option<(Command, String)>)
        ensures
            match r {
                Some((c, d)) => self.outcome(*msg) == Some(c) && d@ == description(
                    self.table.resolution(*msg)->Some_0.0,
                ),
                None => self.outcome(*msg) is None,
            },
    {
        match self.table.resolve(msg) {
            Some((action, value)) => match self.execute_action(action, value) {
                Some(c) => Some((c, action.describe())),
                None => None,
            },
            None => None,
        }
    }

    /// Handles an "active scene changed" notification with the outcome of
    /// querying the new scene's items: the scene cache is replaced as a whole,
    /// or kept as it was when the query failed. Nothing else changes.
    pub fn scene_changed<E>(&mut self, scene: RemoteId, fetched: Result<Vec<SceneItem>, E>) -> (r:
        Result<(), E>)
        ensures
            final(self).table == old(self).table,
            final(self).scenes@ == old(self).scenes@,
            final(self).inputs@ == old(self).inputs@,
            match fetched {
                Ok(items) => r is Ok && final(self).current@ == (scene, items@),
                Err(e) => r == Err::<(), E>(e) && final(self).current@ == old(self).current@,
            },
    {
        self.current.replace(scene, fetched)
    }
}

/// A control that has a default action and no value-specific entry resolves
/// every raw value to that default, so every value issues the command of the
/// same action.
pub proof fn lemma_default_serves_every_value(c: Controller, i: Input, a: Action, v: u8)
    requires
        forall|w: u8| #[trigger] cc_slot(c.table.control_changes@, i, Some(w)) is None,
        cc_slot(c.table.control_changes@, i, None) == Some(a),
    ensures
        c.table.resolution(Lpd8Message::ControlChange(i, v)) == Some((a, v)),
        c.outcome(Lpd8Message::ControlChange(i, v)) == command_for(
            a,
            v,
            c.scenes@,
            c.inputs@,
            c.current@,
        ),
{
    assert(cc_slot(c.table.control_changes@, i, Some(v)) is None);
}

} // verus!
