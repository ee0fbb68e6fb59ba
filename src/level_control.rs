use vstd::prelude::*;

use crate::access::AccessReq;
use crate::attribute::{
    consistent, has_bits16, has_bits8, ACCESS_WRITE, AttrValue, Attribute, ACCESS_RV, ACCESS_RWVO, QUALITY_FIXED,
    QUALITY_PERSISTENT,
};
use crate::cluster::{lemma_lookup, Cluster};
use crate::error::{Error, IMStatusCode};
use crate::tlv::{u16_of, u8_of, TlvElement};

verus! {

/// Cluster id of Level Control.
pub const ID: u32 = 0x0008;
/// Attribute id of `CurrentLevel`.
pub const ATTR_CURRENT_LEVEL: u16 = 0x0000;
/// Attribute id of `RemainingTime`.
pub const ATTR_REMAINING_TIME: u16 = 0x0001;
/// Attribute id of `MinLevel`.
pub const ATTR_MIN_LEVEL: u16 = 0x0002;
/// Attribute id of `MaxLevel`.
pub const ATTR_MAX_LEVEL: u16 = 0x0003;
/// Attribute id of `Options`.
pub const ATTR_OPTIONS: u16 = 0x000F;
/// Attribute id of `OnLevel`.
pub const ATTR_ON_LEVEL: u16 = 0x0011;
/// Attribute id of `StartUpCurrentLevel`.
pub const ATTR_START_UP_CURRENT_LEVEL: u16 = 0x4000;
/// Default upper bound of `CurrentLevel`.
pub const DEFAULT_MAX_LEVEL: u8 = 254;
/// A transition time that asks for the device default, taken as immediate.
pub const TRANSITION_TIME_DEFAULT: u16 = 0xFFFF;

/// Attributes of the Level Control cluster.
#[derive(Debug, Clone, Copy, PartialEq, Eq, Structural)]
pub enum Attributes {
    CurrentLevel,
    RemainingTime,
    MinLevel,
    MaxLevel,
    OnLevel,
    Options,
    StartUpCurrentLevel,
}

impl Attributes {
    /// The attribute's id.
    pub fn id(self) -> (r: u16)
        ensures
            r == match self {
                Attributes::CurrentLevel => ATTR_CURRENT_LEVEL,
                Attributes::RemainingTime => ATTR_REMAINING_TIME,
                Attributes::MinLevel => ATTR_MIN_LEVEL,
                Attributes::MaxLevel => ATTR_MAX_LEVEL,
                Attributes::OnLevel => ATTR_ON_LEVEL,
                Attributes::Options => ATTR_OPTIONS,
                Attributes::StartUpCurrentLevel => ATTR_START_UP_CURRENT_LEVEL,
            },
    {
        match self {
            Attributes::CurrentLevel => ATTR_CURRENT_LEVEL,
            Attributes::RemainingTime => ATTR_REMAINING_TIME,
            Attributes::MinLevel => ATTR_MIN_LEVEL,
            Attributes::MaxLevel => ATTR_MAX_LEVEL,
            Attributes::OnLevel => ATTR_ON_LEVEL,
            Attributes::Options => ATTR_OPTIONS,
            Attributes::StartUpCurrentLevel => ATTR_START_UP_CURRENT_LEVEL,
        }
    }
}

/// Direction of a Move command.
#[derive(Debug, Clone, Copy, PartialEq, Eq, Structural)]
pub enum MoveMode {
    Up,
    Down,
}

impl MoveMode {
    /// 0 is Up; any other value is Down.
    pub fn from_int(src: u8) -> (r: MoveMode)
        ensures
            r == (if src == 0 {
                MoveMode::Up
            } else {
                MoveMode::Down
            }),
    {
        if src == 0x00 {
            MoveMode::Up
        } else {
            MoveMode::Down
        }
    }
}

/// Direction of a Step command.
#[derive(Debug, Clone, Copy, PartialEq, Eq, Structural)]
pub enum StepMode {
    Up,
    Down,
}

impl StepMode {
    /// 0 is Up; any other value is Down.
    pub fn from_int(src: u8) -> (r: StepMode)
        ensures
            r == (if src == 0 {
                StepMode::Up
            } else {
                StepMode::Down
            }),
    {
        if src == 0x00 {
            StepMode::Up
        } else {
            StepMode::Down
        }
    }
}

/// Commands of the Level Control cluster.
#[derive(Debug, Clone, Copy, PartialEq, Eq, Structural)]
pub enum Commands {
    MoveToLevel,
    Move,
    Step,
    Stop,
    MoveToLevelWithOnOff,
    MoveWithOnOff,
    StepWithOnOff,
    StopWithOnOff,
    MoveToClosestFrequency,
}

/// The command that a command id names, if any (0x00 to 0x08).
pub open spec fn command_of(id: u32) -> Option<Commands> {
    if id == 0 {
        Some(Commands::MoveToLevel)
    } else if id == 1 {
        Some(Commands::Move)
    } else if id == 2 {
        Some(Commands::Step)
    } else if id == 3 {
        Some(Commands::Stop)
    } else if id == 4 {
        Some(Commands::MoveToLevelWithOnOff)
    } else if id == 5 {
        Some(Commands::MoveWithOnOff)
    } else if id == 6 {
        Some(Commands::StepWithOnOff)
    } else if id == 7 {
        Some(Commands::StopWithOnOff)
    } else if id == 8 {
        Some(Commands::MoveToClosestFrequency)
    } else {
        None
    }
}

impl Commands {
    /// The command that `id` names, if any.
    pub fn from_u32(id: u32) -> (r: Option<Commands>)
        ensures
            r == command_of(id),
    {
        if id == 0 {
            Some(Commands::MoveToLevel)
        } else if id == 1 {
            Some(Commands::Move)
        } else if id == 2 {
            Some(Commands::Step)
        } else if id == 3 {
            Some(Commands::Stop)
        } else if id == 4 {
            Some(Commands::MoveToLevelWithOnOff)
        } else if id == 5 {
            Some(Commands::MoveWithOnOff)
        } else if id == 6 {
            Some(Commands::StepWithOnOff)
        } else if id == 7 {
            Some(Commands::StopWithOnOff)
        } else if id == 8 {
            Some(Commands::MoveToClosestFrequency)
        } else {
            None
        }
    }
}

/// The transition in flight, if any.
#[derive(Debug, Clone, Copy, PartialEq, Eq, Structural)]
pub enum Transition {
    Idle,
    /// Moving towards `target` by at most `rate` per tick.
    Running { target: u8, rate: u8 },
    Completed,
    Stopped,
}

/// The mutable part of a Level Control cluster.
#[derive(Debug, Clone, Copy, PartialEq, Eq, Structural)]
pub struct LevelState {
    pub current: u8,
    pub remaining: u16,
    pub transition: Transition,
}

/// `v` clamped to `[min, max]`.
pub open spec fn clamp(v: int, min: u8, max: u8) -> u8 {
    if v < min {
        min
    } else if v > max {
        max
    } else {
        v as u8
    }
}

/// The level that stepping `cur` by `size` in direction `mode` gives, clamped to `[min, max]`.
pub open spec fn stepped(cur: u8, mode: StepMode, size: u8, min: u8, max: u8) -> u8 {
    match mode {
        StepMode::Up => clamp(cur + size, min, max),
        StepMode::Down => clamp(cur - size, min, max),
    }
}

/// Per-tick rate that covers `diff` in `tt` ticks (rounded up), at most 255.
pub open spec fn rate_for(diff: u8, tt: u16) -> u8 {
    let r = (diff + tt - 1) / (tt as int);
    if r > 255 {
        255
    } else {
        r as u8
    }
}

/// The distance between two levels.
pub open spec fn distance(a: u8, b: u8) -> u8 {
    if a >= b {
        (a - b) as u8
    } else {
        (b - a) as u8
    }
}

/// The state after heading for `target` over `tt` tenths of a second: at once for
/// 0 or the default marker, else as a transition.
pub open spec fn towards(s: LevelState, target: u8, tt: u16) -> LevelState {
    if tt == 0 || tt == TRANSITION_TIME_DEFAULT {
        LevelState { current: target, remaining: 0, transition: Transition::Idle }
    } else {
        LevelState {
            current: s.current,
            remaining: tt,
            transition: Transition::Running { target, rate: rate_for(distance(s.current, target), tt) },
        }
    }
}

/// The level that a state is at, or heads for while a transition runs.
pub open spec fn effective_level(s: LevelState) -> u8 {
    match s.transition {
        Transition::Running { target, rate } => target,
        _ => s.current,
    }
}

/// The base command that a command stands for, without its On/Off coupling.
pub open spec fn plain(cmd: Commands) -> Commands {
    match cmd {
        Commands::MoveToLevelWithOnOff => Commands::MoveToLevel,
        Commands::MoveWithOnOff => Commands::Move,
        Commands::StepWithOnOff => Commands::Step,
        Commands::StopWithOnOff => Commands::Stop,
        _ => cmd,
    }
}

/// Whether the command also drives the companion On/Off cluster.
pub open spec fn couples_on_off(cmd: Commands) -> bool {
    match cmd {
        Commands::MoveToLevelWithOnOff => true,
        Commands::MoveWithOnOff => true,
        Commands::StepWithOnOff => true,
        Commands::StopWithOnOff => true,
        _ => false,
    }
}

/// The state that the command `cmd` with payload `data` leads to, or the status it fails with.
pub open spec fn command_result(
    s: LevelState,
    min: u8,
    max: u8,
    cmd: Commands,
    data: Seq<TlvElement>,
) -> Result<LevelState, IMStatusCode> {
    match plain(cmd) {
        Commands::MoveToLevel => if data.len() < 4 {
            Err(IMStatusCode::InvalidDataType)
        } else {
            match u8_of(data[0]) {
                Err(e) => Err(e),
                Ok(level) => match u16_of(data[1]) {
                    Err(e) => Err(e),
                    Ok(tt) => Ok(towards(s, clamp(level as int, min, max), tt)),
                },
            }
        },
        Commands::Move => if data.len() < 4 {
            Err(IMStatusCode::InvalidDataType)
        } else {
            match u8_of(data[0]) {
                Err(e) => Err(e),
                Ok(mode) => match u8_of(data[1]) {
                    Err(e) => Err(e),
                    Ok(rate) => if rate == 0 {
                        Ok(s)
                    } else {
                        Ok(
                            LevelState {
                                current: s.current,
                                remaining: s.remaining,
                                transition: Transition::Running {
                                    target: if mode == 0 {
                                        max
                                    } else {
                                        min
                                    },
                                    rate,
                                },
                            },
                        )
                    },
                },
            }
        },
        Commands::Step => if data.len() < 5 {
            Err(IMStatusCode::InvalidDataType)
        } else {
            match u8_of(data[0]) {
                Err(e) => Err(e),
                Ok(mode) => match u8_of(data[1]) {
                    Err(e) => Err(e),
                    Ok(size) => match u16_of(data[2]) {
                        Err(e) => Err(e),
                        Ok(tt) => Ok(
                            towards(
                                s,
                                stepped(
                                    s.current,
                                    if mode == 0 {
                                        StepMode::Up
                                    } else {
                                        StepMode::Down
                                    },
                                    size,
                                    min,
                                    max,
                                ),
                                tt,
                            ),
                        ),
                    },
                },
            }
        },
        Commands::Stop => if data.len() < 2 {
            Err(IMStatusCode::InvalidDataType)
        } else {
            Ok(LevelState { current: s.current, remaining: 0, transition: Transition::Stopped })
        },
        _ => Ok(s),
    }
}

/// One tick of the transition in flight: the level moves towards the target by
/// at most the rate, and the transition completes on reaching it.
pub open spec fn ticked(s: LevelState) -> LevelState {
    match s.transition {
        Transition::Running { target, rate } => {
            let next: u8 = if s.current < target {
                if target - s.current <= rate {
                    target
                } else {
                    (s.current + rate) as u8
                }
            } else {
                if s.current - target <= rate {
                    target
                } else {
                    (s.current - rate) as u8
                }
            };
            if next == target {
                LevelState { current: next, remaining: 0, transition: Transition::Completed }
            } else {
                LevelState {
                    current: next,
                    remaining: if s.remaining > 0 {
                        (s.remaining - 1) as u16
                    } else {
                        0
                    },
                    transition: s.transition,
                }
            }
        },
        _ => s,
    }
}

/// `CurrentLevel`, `MinLevel`, `MaxLevel` or `OnLevel` as the cluster holds it.
pub open spec fn level_attr(id: u16, v: u8) -> Attribute {
    Attribute { id, value: AttrValue::Uint8(v), access: ACCESS_RV, quality: QUALITY_PERSISTENT }
}

/// `RemainingTime` as the cluster holds it.
pub open spec fn remaining_attr(v: u16) -> Attribute {
    Attribute { id: ATTR_REMAINING_TIME, value: AttrValue::Uint16(v), access: ACCESS_RV, quality: 0 }
}

/// A response of the Level Control cluster: the status, and for a command that is
/// coupled to On/Off, the state that the companion On/Off cluster is to take.
#[derive(Debug, Clone, Copy, PartialEq, Eq, Structural)]
pub struct LevelResponse {
    pub status: IMStatusCode,
    pub on_off: Option<bool>,
}

/// `v` clamped to `[min, max]`.
fn clamp_level(v: i32, min: u8, max: u8) -> (r: u8)
    requires
        min <= max,
    ensures
        r == clamp(v as int, min, max),
{
    if v < min as i32 {
        min
    } else if v > max as i32 {
        max
    } else {
        v as u8
    }
}

/// The distance between two levels.
fn level_distance(a: u8, b: u8) -> (r: u8)
    ensures
        r == distance(a, b),
{
    if a >= b {
        a - b
    } else {
        b - a
    }
}

/// Per-tick rate that covers `diff` in `tt` ticks.
fn rate_of(diff: u8, tt: u16) -> (r: u8)
    requires
        tt >= 1,
    ensures
        r == rate_for(diff, tt),
{
    let r: u32 = (diff as u32 + tt as u32 - 1) / (tt as u32);
    if r > 255 {
        255
    } else {
        r as u8
    }
}

/// The state after heading for `target` over `tt` tenths of a second.
fn towards_exec(s: LevelState, target: u8, tt: u16) -> (r: LevelState)
    ensures
        r == towards(s, target, tt),
{
    if tt == 0 || tt == TRANSITION_TIME_DEFAULT {
        LevelState { current: target, remaining: 0, transition: Transition::Idle }
    } else {
        LevelState {
            current: s.current,
            remaining: tt,
            transition: Transition::Running { target, rate: rate_of(level_distance(s.current, target), tt) },
        }
    }
}

/// The level of `cur` after a step, clamped.
fn stepped_exec(cur: u8, mode: StepMode, size: u8, min: u8, max: u8) -> (r: u8)
    requires
        min <= max,
    ensures
        r == stepped(cur, mode, size, min, max),
{
    match mode {
        StepMode::Up => clamp_level(cur as i32 + size as i32, min, max),
        StepMode::Down => clamp_level(cur as i32 - size as i32, min, max),
    }
}

/// The state `s` after one tick of its transition.
fn ticked_exec(s: LevelState) -> (r: LevelState)
    ensures
        r == ticked(s),
{
    match s.transition {
        Transition::Running { target, rate } => {
            let next: u8 = if s.current < target {
                if target - s.current <= rate {
                    target
                } else {
                    s.current + rate
                }
            } else {
                if s.current - target <= rate {
                    target
                } else {
                    s.current - rate
                }
            };
            if next == target {
                LevelState { current: next, remaining: 0, transition: Transition::Completed }
            } else {
                LevelState {
                    current: next,
                    remaining: if s.remaining > 0 {
                        s.remaining - 1
                    } else {
                        0
                    },
                    transition: s.transition,
                }
            }
        },
        _ => s,
    }
}

/// The Level Control cluster.
pub struct LevelControlCluster {
    base: Cluster,
    transition: Transition,
}

impl LevelControlCluster {
    /// The base cluster.
    pub closed spec fn base_spec(&self) -> Cluster {
        self.base
    }

    /// The transition in flight.
    pub closed spec fn transition_spec(&self) -> Transition {
        self.transition
    }

    /// The value of a `u8` attribute.
    pub open spec fn u8_value(&self, id: u16) -> u8 {
        match self.base_spec().value(id) {
            Some(AttrValue::Uint8(v)) => v,
            _ => 0,
        }
    }

    /// `CurrentLevel`.
    pub open spec fn current(&self) -> u8 {
        self.u8_value(ATTR_CURRENT_LEVEL)
    }

    /// `MinLevel`.
    pub open spec fn min_level(&self) -> u8 {
        self.u8_value(ATTR_MIN_LEVEL)
    }

    /// `MaxLevel`.
    pub open spec fn max_level(&self) -> u8 {
        self.u8_value(ATTR_MAX_LEVEL)
    }

    /// `RemainingTime`.
    pub open spec fn remaining(&self) -> u16 {
        match self.base_spec().value(ATTR_REMAINING_TIME) {
            Some(AttrValue::Uint16(v)) => v,
            _ => 0,
        }
    }

    /// The mutable state: level, remaining time and transition.
    pub open spec fn state(&self) -> LevelState {
        LevelState { current: self.current(), remaining: self.remaining(), transition: self.transition_spec() }
    }

    /// The base is well formed and holds the level attributes with their variants.
    pub open spec fn layout_ok(&self) -> bool {
        &&& self.base_spec().wf()
        &&& self.base_spec().cluster_id() == ID
        &&& self.base_spec().get(ATTR_CURRENT_LEVEL) == Some(level_attr(ATTR_CURRENT_LEVEL, self.current()))
        &&& self.base_spec().get(ATTR_MIN_LEVEL) == Some(level_attr(ATTR_MIN_LEVEL, self.min_level()))
        &&& self.base_spec().get(ATTR_MAX_LEVEL) == Some(level_attr(ATTR_MAX_LEVEL, self.max_level()))
        &&& self.base_spec().get(ATTR_REMAINING_TIME) == Some(remaining_attr(self.remaining()))
    }

    /// Well formed: the layout holds and `MinLevel <= CurrentLevel <= MaxLevel`,
    /// with a running transition's target within the same bounds.
    pub open spec fn wf(&self) -> bool {
        &&& self.layout_ok()
        &&& self.min_level() <= self.current() <= self.max_level()
        &&& match self.transition_spec() {
            Transition::Running { target, rate } => self.min_level() <= target <= self.max_level(),
            _ => true,
        }
    }

    /// `new` holds the state `s` and is otherwise `old`.
    pub open spec fn moved_to(old: LevelControlCluster, new: LevelControlCluster, s: LevelState) -> bool {
        &&& new.wf()
        &&& new.state() == s
        &&& new.min_level() == old.min_level()
        &&& new.max_level() == old.max_level()
        &&& new.base_spec().cluster_id() == old.base_spec().cluster_id()
        &&& forall|k: u16|
            k != ATTR_CURRENT_LEVEL && k != ATTR_REMAINING_TIME ==> #[trigger] new.base_spec().get(k)
                == old.base_spec().get(k)
    }

    /// What handling `cmd` with `data` does: on a failure it returns the status and
    /// changes nothing, else the cluster moves to the command's state.
    pub open spec fn handled(
        old: LevelControlCluster,
        new: LevelControlCluster,
        cmd: Commands,
        data: Seq<TlvElement>,
        r: Result<(), IMStatusCode>,
    ) -> bool {
        match command_result(old.state(), old.min_level(), old.max_level(), cmd, data) {
            Err(e) => r == Err::<(), IMStatusCode>(e) && new == old,
            Ok(s) => r is Ok && LevelControlCluster::moved_to(old, new, s),
        }
    }

    /// A cluster at level 0 within `[0, 254]`, with no transition in flight.
    pub fn new() -> (r: Result<Box<LevelControlCluster>, Error>)
        ensures
            r is Ok,
            r->Ok_0.wf(),
            r->Ok_0.state() == (LevelState { current: 0, remaining: 0, transition: Transition::Idle }),
            r->Ok_0.min_level() == 0,
            r->Ok_0.max_level() == DEFAULT_MAX_LEVEL,
            r->Ok_0.base_spec().get(ATTR_ON_LEVEL) == Some(level_attr(ATTR_ON_LEVEL, 0)),
            r->Ok_0.base_spec().get(ATTR_START_UP_CURRENT_LEVEL) == Some(level_attr(ATTR_START_UP_CURRENT_LEVEL, 0)),
            r->Ok_0.base_spec().get(ATTR_OPTIONS) == Some(
                Attribute { id: ATTR_OPTIONS, value: AttrValue::Uint8(0), access: ACCESS_RWVO, quality: 0 },
            ),
    {
        let mut base = Cluster::new(ID);
        assert(consistent(ACCESS_RV, QUALITY_PERSISTENT)) by (bit_vector);
        assert(consistent(ACCESS_RV, 0)) by (bit_vector);
        assert(consistent(ACCESS_RWVO, 0)) by (bit_vector);
        let attrs = [
            Attribute { id: ATTR_CURRENT_LEVEL, value: AttrValue::Uint8(0), access: ACCESS_RV, quality: QUALITY_PERSISTENT },
            Attribute { id: ATTR_ON_LEVEL, value: AttrValue::Uint8(0), access: ACCESS_RV, quality: QUALITY_PERSISTENT },
            Attribute { id: ATTR_MIN_LEVEL, value: AttrValue::Uint8(0), access: ACCESS_RV, quality: QUALITY_PERSISTENT },
            Attribute { id: ATTR_MAX_LEVEL, value: AttrValue::Uint8(DEFAULT_MAX_LEVEL), access: ACCESS_RV, quality: QUALITY_PERSISTENT },
            Attribute { id: ATTR_START_UP_CURRENT_LEVEL, value: AttrValue::Uint8(0), access: ACCESS_RV, quality: QUALITY_PERSISTENT },
            Attribute { id: ATTR_REMAINING_TIME, value: AttrValue::Uint16(0), access: ACCESS_RV, quality: 0 },
            Attribute { id: ATTR_OPTIONS, value: AttrValue::Uint8(0), access: ACCESS_RWVO, quality: 0 },
        ];
        let ghost start = base.attrs();
        let mut i: usize = 0;
        while i < 7
            invariant
                i <= 7,
                base.wf(),
                base.cluster_id() == ID,
                base.dirty_ids().len() == 0,
                base.attrs() == start + attrs@.subrange(0, i as int),
                start.len() == 2,
                start[0].id == 0xFFFC,
                start[1].id == 0xFFFD,
                forall|j: int| 0 <= j < 7 ==> #[trigger] consistent(attrs@[j].access, attrs@[j].quality),
                attrs@ == seq![
                    level_attr(ATTR_CURRENT_LEVEL, 0),
                    level_attr(ATTR_ON_LEVEL, 0),
                    level_attr(ATTR_MIN_LEVEL, 0),
                    level_attr(ATTR_MAX_LEVEL, DEFAULT_MAX_LEVEL),
                    level_attr(ATTR_START_UP_CURRENT_LEVEL, 0),
                    remaining_attr(0),
                    Attribute { id: ATTR_OPTIONS, value: AttrValue::Uint8(0), access: ACCESS_RWVO, quality: 0 },
                ],
            decreases 7 - i,
        {
            let a = attrs[i].copy();
            proof {
                lemma_lookup(base.attrs(), a.id);
                assert forall|j: int| 0 <= j < base.attrs().len() implies base.attrs()[j].id != a.id by {
                    if j >= 2 {
                        assert(base.attrs()[j] == attrs@[j - 2]);
                    }
                }
            }
            base.add_attribute(a)?;
            assert(base.attrs() =~= start + attrs@.subrange(0, i + 1));
            i = i + 1;
        }
        let r = Box::new(LevelControlCluster { base, transition: Transition::Idle });
        proof {
            let s = r.base_spec().attrs();
            assert(s[2] == attrs@[0]);
            assert(s[3] == attrs@[1]);
            assert(s[4] == attrs@[2]);
            assert(s[5] == attrs@[3]);
            assert(s[6] == attrs@[4]);
            assert(s[7] == attrs@[5]);
            assert(s[8] == attrs@[6]);
            crate::cluster::lemma_lookup_at(s, 2);
            crate::cluster::lemma_lookup_at(s, 3);
            crate::cluster::lemma_lookup_at(s, 4);
            crate::cluster::lemma_lookup_at(s, 5);
            crate::cluster::lemma_lookup_at(s, 6);
            crate::cluster::lemma_lookup_at(s, 7);
            crate::cluster::lemma_lookup_at(s, 8);
        }
        Ok(r)
    }

    /// The base cluster.
    pub fn base(&self) -> (r: &Cluster)
        ensures
            *r == self.base_spec(),
    {
        &self.base
    }

    /// The ids of persistent attributes written since the last call, in the order written.
    pub fn take_dirty(&mut self) -> (r: Vec<u16>)
        requires
            old(self).wf(),
        ensures
            r@ == old(self).base_spec().dirty_ids(),
            final(self).base_spec().dirty_ids().len() == 0,
            final(self).base_spec().attrs() == old(self).base_spec().attrs(),
            final(self).base_spec().cluster_id() == old(self).base_spec().cluster_id(),
            final(self).transition_spec() == old(self).transition_spec(),
            final(self).wf(),
    {
        self.base.take_dirty()
    }

    /// An Interaction Model read of attribute `id` on behalf of `req`.
    pub fn read_attribute(&self, req: &AccessReq, id: u16) -> (r: Result<TlvElement, IMStatusCode>)
        requires
            self.wf(),
        ensures
            r == self.base_spec().read_result(*req, id),
    {
        self.base.read_attribute(req, id)
    }

    /// An Interaction Model write of `t` to attribute `id` on behalf of `req`.
    /// The level attributes are read-only; `Options` is writable.
    pub fn write_attribute(&mut self, req: &AccessReq, id: u16, t: &TlvElement) -> (r: Result<(), IMStatusCode>)
        requires
            old(self).wf(),
        ensures
            final(self).wf(),
            r is Ok <==> old(self).base_spec().write_result(*req, id, *t) is Ok,
            r is Err ==> r->Err_0 == old(self).base_spec().write_result(*req, id, *t)->Err_0,
            r is Err ==> *final(self) == *old(self),
            r is Ok ==> Cluster::written(
                old(self).base_spec(),
                final(self).base_spec(),
                id,
                old(self).base_spec().write_result(*req, id, *t)->Ok_0,
            ),
            final(self).state() == old(self).state(),
            final(self).min_level() == old(self).min_level(),
            final(self).max_level() == old(self).max_level(),
    {
        assert(!has_bits16(ACCESS_RV, ACCESS_WRITE)) by (bit_vector);
        self.base.write_attribute(req, id, t)
    }

    /// The transition in flight.
    pub fn transition(&self) -> (r: Transition)
        ensures
            r == self.transition_spec(),
    {
        self.transition
    }

    /// Reads `CurrentLevel`, `MinLevel` or `MaxLevel`.
    fn read_level(&self, id: u16) -> (r: u8)
        requires
            self.layout_ok(),
            id == ATTR_CURRENT_LEVEL || id == ATTR_MIN_LEVEL || id == ATTR_MAX_LEVEL,
        ensures
            r == self.u8_value(id),
    {
        match self.base.read_attribute_raw(id) {
            Ok(AttrValue::Uint8(v)) => *v,
            _ => 0,
        }
    }

    /// Reads `RemainingTime`.
    fn read_remaining(&self) -> (r: u16)
        requires
            self.layout_ok(),
        ensures
            r == self.remaining(),
    {
        match self.base.read_attribute_raw(ATTR_REMAINING_TIME) {
            Ok(AttrValue::Uint16(v)) => *v,
            _ => 0,
        }
    }

    /// The mutable state.
    pub fn get_state(&self) -> (r: LevelState)
        requires
            self.layout_ok(),
        ensures
            r == self.state(),
    {
        LevelState {
            current: self.read_level(ATTR_CURRENT_LEVEL),
            remaining: self.read_remaining(),
            transition: self.transition,
        }
    }

    /// Stores the state `s`; bounds are the caller's to keep.
    fn apply(&mut self, s: LevelState)
        requires
            old(self).layout_ok(),
            old(self).min_level() <= s.current <= old(self).max_level(),
            match s.transition {
                Transition::Running { target, rate } => old(self).min_level() <= target <= old(self).max_level(),
                _ => true,
            },
        ensures
            LevelControlCluster::moved_to(*old(self), *final(self), s),
    {
        assert(!has_bits8(QUALITY_PERSISTENT, QUALITY_FIXED)) by (bit_vector);
        assert(!has_bits8(0, QUALITY_FIXED)) by (bit_vector);
        let ghost b0 = self.base;
        let _ = self.base.write_attribute_raw(ATTR_CURRENT_LEVEL, AttrValue::Uint8(s.current));
        let ghost b1 = self.base;
        let _ = self.base.write_attribute_raw(ATTR_REMAINING_TIME, AttrValue::Uint16(s.remaining));
        self.transition = s.transition;
        proof {
            assert(b1.get(ATTR_MIN_LEVEL) == b0.get(ATTR_MIN_LEVEL));
            assert(b1.get(ATTR_MAX_LEVEL) == b0.get(ATTR_MAX_LEVEL));
            assert(self.base.get(ATTR_MIN_LEVEL) == b1.get(ATTR_MIN_LEVEL));
            assert(self.base.get(ATTR_MAX_LEVEL) == b1.get(ATTR_MAX_LEVEL));
            assert(self.base.get(ATTR_CURRENT_LEVEL) == b1.get(ATTR_CURRENT_LEVEL));
            assert forall|k: u16|
                k != ATTR_CURRENT_LEVEL && k != ATTR_REMAINING_TIME implies #[trigger] self.base.get(k)
                    == b0.get(k) by {
                assert(b1.get(k) == b0.get(k));
            }
        }
    }
    /// Steps the level at once by `step_size`, clamped to `[MinLevel, MaxLevel]`,
    /// cancelling any transition.
    pub fn step_level(&mut self, step_mode: StepMode, step_size: u8) -> (r: Result<(), IMStatusCode>)
        requires
            old(self).wf(),
        ensures
            r is Ok,
            LevelControlCluster::moved_to(
                *old(self),
                *final(self),
                towards(
                    old(self).state(),
                    stepped(old(self).current(), step_mode, step_size, old(self).min_level(), old(self).max_level()),
                    0,
                ),
            ),
    {
        let min = self.read_level(ATTR_MIN_LEVEL);
        let max = self.read_level(ATTR_MAX_LEVEL);
        let s = self.get_state();
        let target = stepped_exec(s.current, step_mode, step_size, min, max);
        self.apply(towards_exec(s, target, 0));
        Ok(())
    }

    /// Starts moving towards `MaxLevel` (Up) or `MinLevel` (Down) at `rate` per tick;
    /// a rate of 0 changes nothing.
    pub fn move_level(&mut self, move_mode: MoveMode, rate: u8) -> (r: Result<(), IMStatusCode>)
        requires
            old(self).wf(),
        ensures
            r is Ok,
            rate == 0 ==> *final(self) == *old(self),
            rate != 0 ==> LevelControlCluster::moved_to(
                *old(self),
                *final(self),
                LevelState {
                    current: old(self).current(),
                    remaining: old(self).remaining(),
                    transition: Transition::Running {
                        target: match move_mode {
                            MoveMode::Up => old(self).max_level(),
                            MoveMode::Down => old(self).min_level(),
                        },
                        rate,
                    },
                },
            ),
    {
        if rate == 0 {
            return Ok(());
        }
        let target = match move_mode {
            MoveMode::Up => self.read_level(ATTR_MAX_LEVEL),
            MoveMode::Down => self.read_level(ATTR_MIN_LEVEL),
        };
        let s = self.get_state();
        self.apply(LevelState { current: s.current, remaining: s.remaining, transition: Transition::Running { target, rate } });
        Ok(())
    }

    /// MoveToLevel: `(level, transition_time, options_mask, options_override)`.
    fn handle_move_to_lvl(&mut self, cmd_data: &Vec<TlvElement>) -> (r: Result<(), IMStatusCode>)
        requires
            old(self).wf(),
        ensures
            LevelControlCluster::handled(*old(self), *final(self), Commands::MoveToLevel, cmd_data@, r),
    {
        if cmd_data.len() < 4 {
            return Err(IMStatusCode::InvalidDataType);
        }
        let level = cmd_data[0].u8()?;
        let tt = cmd_data[1].u16()?;
        let min = self.read_level(ATTR_MIN_LEVEL);
        let max = self.read_level(ATTR_MAX_LEVEL);
        let s = self.get_state();
        let target = clamp_level(level as i32, min, max);
        self.apply(towards_exec(s, target, tt));
        Ok(())
    }

    /// Move: `(move_mode, rate, options_mask, options_override)`.
    fn handle_move(&mut self, cmd_data: &Vec<TlvElement>) -> (r: Result<(), IMStatusCode>)
        requires
            old(self).wf(),
        ensures
            LevelControlCluster::handled(*old(self), *final(self), Commands::Move, cmd_data@, r),
    {
        if cmd_data.len() < 4 {
            return Err(IMStatusCode::InvalidDataType);
        }
        let move_mode = cmd_data[0].u8()?;
        let rate = cmd_data[1].u8()?;
        self.move_level(MoveMode::from_int(move_mode), rate)
    }

    /// Stop: `(options_mask, options_override)`; ends any transition and zeroes `RemainingTime`.
    fn handle_stop(&mut self, cmd_data: &Vec<TlvElement>) -> (r: Result<(), IMStatusCode>)
        requires
            old(self).wf(),
        ensures
            LevelControlCluster::handled(*old(self), *final(self), Commands::Stop, cmd_data@, r),
    {
        if cmd_data.len() < 2 {
            return Err(IMStatusCode::InvalidDataType);
        }
        let s = self.get_state();
        self.apply(LevelState { current: s.current, remaining: 0, transition: Transition::Stopped });
        Ok(())
    }

    /// Step: `(step_mode, step_size, transition_time, options_mask, options_override)`.
    fn handle_step(&mut self, cmd_data: &Vec<TlvElement>) -> (r: Result<(), IMStatusCode>)
        requires
            old(self).wf(),
        ensures
            LevelControlCluster::handled(*old(self), *final(self), Commands::Step, cmd_data@, r),
    {
        if cmd_data.len() < 5 {
            return Err(IMStatusCode::InvalidDataType);
        }
        let step_mode = cmd_data[0].u8()?;
        let step_size = cmd_data[1].u8()?;
        let tt = cmd_data[2].u16()?;
        if tt == 0 || tt == TRANSITION_TIME_DEFAULT {
            return self.step_level(StepMode::from_int(step_mode), step_size);
        }
        let min = self.read_level(ATTR_MIN_LEVEL);
        let max = self.read_level(ATTR_MAX_LEVEL);
        let s = self.get_state();
        let target = stepped_exec(s.current, StepMode::from_int(step_mode), step_size, min, max);
        self.apply(towards_exec(s, target, tt));
        Ok(())
    }

    /// MoveToLevelWithOnOff: as MoveToLevel; the caller couples On/Off.
    fn handle_move_to_lvl_with_onoff(&mut self, cmd_data: &Vec<TlvElement>) -> (r: Result<(), IMStatusCode>)
        requires
            old(self).wf(),
        ensures
            LevelControlCluster::handled(*old(self), *final(self), Commands::MoveToLevelWithOnOff, cmd_data@, r),
    {
        self.handle_move_to_lvl(cmd_data)
    }

    /// MoveWithOnOff: as Move; the caller couples On/Off.
    fn handle_move_with_onoff(&mut self, cmd_data: &Vec<TlvElement>) -> (r: Result<(), IMStatusCode>)
        requires
            old(self).wf(),
        ensures
            LevelControlCluster::handled(*old(self), *final(self), Commands::MoveWithOnOff, cmd_data@, r),
    {
        self.handle_move(cmd_data)
    }

    /// StepWithOnOff: as Step; the caller couples On/Off.
    fn handle_step_with_onoff(&mut self, cmd_data: &Vec<TlvElement>) -> (r: Result<(), IMStatusCode>)
        requires
            old(self).wf(),
        ensures
            LevelControlCluster::handled(*old(self), *final(self), Commands::StepWithOnOff, cmd_data@, r),
    {
        self.handle_step(cmd_data)
    }

    /// StopWithOnOff: as Stop; the caller couples On/Off.
    fn handle_stop_with_onoff(&mut self, cmd_data: &Vec<TlvElement>) -> (r: Result<(), IMStatusCode>)
        requires
            old(self).wf(),
        ensures
            LevelControlCluster::handled(*old(self), *final(self), Commands::StopWithOnOff, cmd_data@, r),
    {
        self.handle_stop(cmd_data)
    }

    /// Handles the command with id `cmd_id` and payload `cmd_data`. An absent or
    /// unknown id gives `UnsupportedCommand`, a malformed payload its decoding
    /// status; either changes nothing. Otherwise the cluster moves to the
    /// command's state and the status is `Success`; a command coupled to On/Off
    /// also says whether the companion cluster is to be on: when the level it
    /// reaches or heads for is not 0.
    pub fn handle_command(&mut self, cmd_id: Option<u32>, cmd_data: &Vec<TlvElement>) -> (r: LevelResponse)
        requires
            old(self).wf(),
        ensures
            final(self).wf(),
            cmd_id is None || command_of(cmd_id->Some_0) is None ==> r == (LevelResponse {
                status: IMStatusCode::UnsupportedCommand,
                on_off: None,
            }) && *final(self) == *old(self),
            cmd_id is Some && command_of(cmd_id->Some_0) is Some ==> match command_result(
                old(self).state(),
                old(self).min_level(),
                old(self).max_level(),
                command_of(cmd_id->Some_0)->Some_0,
                cmd_data@,
            ) {
                Err(e) => r == (LevelResponse { status: e, on_off: None }) && *final(self) == *old(self),
                Ok(s) => LevelControlCluster::moved_to(*old(self), *final(self), s) && r == (LevelResponse {
                    status: IMStatusCode::Success,
                    on_off: if couples_on_off(command_of(cmd_id->Some_0)->Some_0) {
                        Some(effective_level(s) != 0)
                    } else {
                        None
                    },
                }),
            },
    {
        let cmd = match cmd_id {
            None => return LevelResponse { status: IMStatusCode::UnsupportedCommand, on_off: None },
            Some(id) => match Commands::from_u32(id) {
                None => return LevelResponse { status: IMStatusCode::UnsupportedCommand, on_off: None },
                Some(c) => c,
            },
        };
        let r = match cmd {
            Commands::MoveToLevel => self.handle_move_to_lvl(cmd_data),
            Commands::Move => self.handle_move(cmd_data),
            Commands::Step => self.handle_step(cmd_data),
            Commands::Stop => self.handle_stop(cmd_data),
            Commands::MoveToLevelWithOnOff => self.handle_move_to_lvl_with_onoff(cmd_data),
            Commands::MoveWithOnOff => self.handle_move_with_onoff(cmd_data),
            Commands::StepWithOnOff => self.handle_step_with_onoff(cmd_data),
            Commands::StopWithOnOff => self.handle_stop_with_onoff(cmd_data),
            Commands::MoveToClosestFrequency => Ok(()),
        };
        match r {
            Err(e) => LevelResponse { status: e, on_off: None },
            Ok(()) => {
                let coupled = match cmd {
                    Commands::MoveToLevelWithOnOff | Commands::MoveWithOnOff | Commands::StepWithOnOff
                    | Commands::StopWithOnOff => true,
                    _ => false,
                };
                let on_off = if coupled {
                    let s = self.get_state();
                    let level = match s.transition {
                        Transition::Running { target, rate } => target,
                        _ => s.current,
                    };
                    Some(level != 0)
                } else {
                    None
                };
                LevelResponse { status: IMStatusCode::Success, on_off }
            },
        }
    }

    /// Advances the transition in flight by one tick.
    pub fn tick(&mut self)
        requires
            old(self).wf(),
        ensures
            LevelControlCluster::moved_to(*old(self), *final(self), ticked(old(self).state())),
    {
        let s = self.get_state();
        let next = ticked_exec(s);
        self.apply(next);
    }
}

/// A level in a well-formed Level Control cluster lies within `[MinLevel, MaxLevel]`.
pub proof fn lemma_level_within_bounds(c: LevelControlCluster)
    requires
        c.wf(),
    ensures
        c.min_level() <= c.current() <= c.max_level(),
{
}

/// Every command that succeeds leaves `MinLevel <= CurrentLevel <= MaxLevel`, with
/// the bounds themselves unchanged.
pub proof fn lemma_command_keeps_bounds(
    c0: LevelControlCluster,
    c1: LevelControlCluster,
    cmd: Commands,
    data: Seq<TlvElement>,
)
    requires
        c0.wf(),
        command_result(c0.state(), c0.min_level(), c0.max_level(), cmd, data) is Ok,
        LevelControlCluster::moved_to(
            c0,
            c1,
            command_result(c0.state(), c0.min_level(), c0.max_level(), cmd, data)->Ok_0,
        ),
    ensures
        c1.min_level() == c0.min_level(),
        c1.max_level() == c0.max_level(),
        c1.min_level() <= c1.current() <= c1.max_level(),
{
}

/// Stepping up by `k` and then down by `k` gives the level back when the step up
/// was not clamped.
pub proof fn lemma_step_up_down(cur: u8, k: u8, min: u8, max: u8)
    requires
        min <= cur <= max,
        cur + k <= max,
    ensures
        stepped(stepped(cur, StepMode::Up, k, min, max), StepMode::Down, k, min, max) == cur,
{
}

} // verus!
