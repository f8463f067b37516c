use vstd::prelude::*;

verus! {

/// Mining progress of a worker.
#[derive(Debug, Clone, Copy, PartialEq, Eq, Structural)]
pub enum WorkerState {
    Idle,
    MovingToResource,
    Mining,
    MovingToBase,
}

/// Combat behaviour of a soldier.
#[derive(Debug, Clone, Copy, PartialEq, Eq, Structural)]
pub enum SoldierState {
    Idle,
    MovingToGround,
    AttackMoving,
    HoldingPosition,
    Patrolling,
    ChasingTarget,
    Attacking,
}

/// Mode of a siege tank.
#[derive(Debug, Clone, Copy, PartialEq, Eq, Structural)]
pub enum TankMode {
    Tank,
    TransformingToSiege,
    Siege,
    TransformingToTank,
}

/// State of a match as the local player sees it.
#[derive(Debug, Clone, Copy, PartialEq, Eq, Structural)]
pub enum MatchOutcome {
    InProgress,
    Victory,
    Defeat,
}

/// Selection marker of an entity.
#[derive(Debug, Clone, Copy, PartialEq, Eq, Structural)]
pub struct Selectable {
    pub is_selected: bool,
}

/// Network identity of a replicated entity.
#[derive(Debug, Clone, Copy, PartialEq, Eq, Structural)]
pub struct NetEntity {
    pub net_id: u32,
    pub owner_peer_id: u64,
}

/// The room an entity belongs to.
#[derive(Debug, Clone, Copy, PartialEq, Eq, Structural)]
pub struct RoomId(pub u32);

/// A mineral field.
#[derive(Debug, Clone, Copy, PartialEq, Eq, Structural)]
pub struct ResourceNode {
    pub remaining_minerals: u32,
    pub max_minerals: u32,
}

impl ResourceNode {
    /// A full field of `amount` minerals.
    pub fn new(amount: u32) -> (res: Self)
        ensures
            res.remaining_minerals == amount,
            res.max_minerals == amount,
    {
        ResourceNode { remaining_minerals: amount, max_minerals: amount }
    }

    /// Takes up to `desired` minerals out of the field and returns how many were taken.
    pub fn harvest(&mut self, desired: u32) -> (taken: u32)
        ensures
            taken == (if desired <= old(self).remaining_minerals {
                desired
            } else {
                old(self).remaining_minerals
            }),
            final(self).remaining_minerals == old(self).remaining_minerals - taken,
            final(self).max_minerals == old(self).max_minerals,
    {
        let amount = if desired <= self.remaining_minerals {
            desired
        } else {
            self.remaining_minerals
        };
        self.remaining_minerals = self.remaining_minerals - amount;
        amount
    }
}

impl Default for ResourceNode {
    fn default() -> (res: Self)
        ensures
            res.remaining_minerals == 1500,
            res.max_minerals == 1500,
    {
        ResourceNode::new(1500)
    }
}

/// Where a unit is heading: a destination reached through a list of waypoints.
#[derive(Debug, Clone, PartialEq)]
pub struct MoveTarget<P> {
    pub destination: P,
    pub is_attack_move: bool,
    pub waypoints: Vec<P>,
    pub current_waypoint_idx: usize,
}

/// The point a unit heads for: the current waypoint, or the destination once the waypoints
/// are used up.
pub open spec fn goal_of<P>(t: MoveTarget<P>) -> P {
    if t.current_waypoint_idx < t.waypoints@.len() {
        t.waypoints@[t.current_waypoint_idx as int]
    } else {
        t.destination
    }
}

impl<P: Copy> MoveTarget<P> {
    /// Heads straight for `destination`.
    pub fn new(destination: P, is_attack_move: bool) -> (res: Self)
        ensures
            res.destination == destination,
            res.is_attack_move == is_attack_move,
            res.waypoints@ == seq![destination],
            res.current_waypoint_idx == 0,
    {
        let mut waypoints: Vec<P> = Vec::new();
        waypoints.push(destination);
        MoveTarget { destination, is_attack_move, waypoints, current_waypoint_idx: 0 }
    }

    /// Heads for `destination` through `waypoints`; with no waypoints, straight.
    pub fn with_waypoints(destination: P, is_attack_move: bool, waypoints: Vec<P>) -> (res: Self)
        ensures
            res.destination == destination,
            res.is_attack_move == is_attack_move,
            res.waypoints@ == (if waypoints@.len() == 0 {
                seq![destination]
            } else {
                waypoints@
            }),
            res.current_waypoint_idx == 0,
    {
        let wps = if waypoints.len() == 0 {
            let mut v: Vec<P> = Vec::new();
            v.push(destination);
            v
        } else {
            waypoints
        };
        MoveTarget { destination, is_attack_move, waypoints: wps, current_waypoint_idx: 0 }
    }

    /// The point the unit heads for now.
    pub fn current_goal(&self) -> (res: P)
        ensures
            res == goal_of(*self),
    {
        if self.current_waypoint_idx < self.waypoints.len() {
            self.waypoints[self.current_waypoint_idx]
        } else {
            self.destination
        }
    }

    /// Whether the unit is on its last waypoint (or past it).
    pub fn is_final_waypoint(&self) -> (res: bool)
        requires
            self.waypoints@.len() > 0,
        ensures
            res == (self.current_waypoint_idx >= self.waypoints@.len() - 1),
    {
        self.current_waypoint_idx >= self.waypoints.len() - 1
    }

    /// Moves on to the next waypoint; returns whether one is left.
    pub fn advance_waypoint(&mut self) -> (more: bool)
        requires
            old(self).current_waypoint_idx < usize::MAX,
        ensures
            final(self).current_waypoint_idx == old(self).current_waypoint_idx + 1,
            final(self).destination == old(self).destination,
            final(self).is_attack_move == old(self).is_attack_move,
            final(self).waypoints@ == old(self).waypoints@,
            more == (final(self).current_waypoint_idx < final(self).waypoints@.len()),
    {
        self.current_waypoint_idx = self.current_waypoint_idx + 1;
        self.current_waypoint_idx < self.waypoints.len()
    }
}

} // verus!
