//! The simulation loop's state and decisions: the feature toggles, the
//! command handling, the per-tick update over all bodies and pairs, and the
//! randomized spawn with its overlap rejection. The host runs the frame loop,
//! polls the keys, draws the scene and hands wall-clock seeds in; everything
//! it decides with comes from here.

use vstd::prelude::*;
use crate::body::{Body, BodyState, SCALE_SQ, VIEW_LIMIT};
use crate::intmath::trunc_div;
use crate::randsrc::seed_random;
use crate::trail::push_model;
use crate::vec2d::Vec2d;
use crate::{COORD_LIMIT, SCALE};

verus! {

/// How many redraws the spawn rejection affords one body before the whole
/// randomization gives up.
pub const SPAWN_TRIES: u32 = 1000;

/// The per-tick feature toggles, rebuilt only when a command fires.
#[derive(Clone, Copy, Debug, PartialEq, Eq, Structural)]
pub struct SimConfig {
    pub trails: bool,
    pub collision: bool,
    pub boundary_collision: bool,
    pub body_info: bool,
    pub show_help: bool,
}

impl SimConfig {
    /// The toggles the simulation starts with: trails and the help overlay
    /// on, everything else off.
    pub fn start() -> (r: SimConfig)
        ensures
            r.trails == true,
            r.collision == false,
            r.boundary_collision == false,
            r.body_info == false,
            r.show_help == true,
    {
        SimConfig {
            trails: true,
            collision: false,
            boundary_collision: false,
            body_info: false,
            show_help: true,
        }
    }

    /// Flips the toggle the command names; `Randomize` flips none (the
    /// simulation state handles it separately).
    pub fn toggle(&mut self, cmd: Command)
        ensures
            final(self).trails == (if cmd == Command::ToggleTrails {
                !old(self).trails
            } else {
                old(self).trails
            }),
            final(self).collision == (if cmd == Command::ToggleCollision {
                !old(self).collision
            } else {
                old(self).collision
            }),
            final(self).boundary_collision == (if cmd == Command::ToggleBoundary {
                !old(self).boundary_collision
            } else {
                old(self).boundary_collision
            }),
            final(self).body_info == (if cmd == Command::ToggleBodyInfo {
                !old(self).body_info
            } else {
                old(self).body_info
            }),
            final(self).show_help == (if cmd == Command::ToggleHelp {
                !old(self).show_help
            } else {
                old(self).show_help
            }),
    {
        match cmd {
            Command::ToggleTrails => {
                self.trails = !self.trails;
            },
            Command::ToggleCollision => {
                self.collision = !self.collision;
            },
            Command::ToggleBoundary => {
                self.boundary_collision = !self.boundary_collision;
            },
            Command::ToggleBodyInfo => {
                self.body_info = !self.body_info;
            },
            Command::ToggleHelp => {
                self.show_help = !self.show_help;
            },
            Command::Randomize => {},
        }
    }
}

/// The commands the host's input polling can issue.
#[derive(Clone, Copy, Debug, PartialEq, Eq, Structural)]
pub enum Command {
    Randomize,
    ToggleTrails,
    ToggleCollision,
    ToggleBoundary,
    ToggleBodyInfo,
    ToggleHelp,
}

/// The states of the bodies in a collection, in order.
pub open spec fn states_of(bodies: Seq<Body>) -> Seq<BodyState> {
    bodies.map_values(|b: Body| b.state())
}

/// One explicit-Euler move on a state, as `Body::move_body` commits it.
pub open spec fn move_step(s: BodyState, dt_num: int, dt_den: int) -> BodyState {
    let nx = s.position.x + trunc_div(s.velocity.x * dt_num, dt_den);
    let ny = s.position.y + trunc_div(s.velocity.y * dt_num, dt_den);
    let pos = if -COORD_LIMIT <= nx <= COORD_LIMIT && -COORD_LIMIT <= ny <= COORD_LIMIT {
        (Vec2d { x: nx as i64, y: ny as i64 })
    } else {
        s.position
    };
    BodyState { position: pos, trail: push_model(s.trail, s.trail_capacity, pos), ..s }
}

/// One boundary reflection on a state, as `Body::check_boundary_collision`
/// commits it.
pub open spec fn boundary_step(s: BodyState, width: int, height: int) -> BodyState {
    let vx = if s.position.x + s.radius >= width || s.position.x - s.radius <= 0 {
        (-(s.velocity.x as int)) as i64
    } else {
        s.velocity.x
    };
    let vy = if s.position.y + s.radius >= height || s.position.y - s.radius <= 0 {
        (-(s.velocity.y as int)) as i64
    } else {
        s.velocity.y
    };
    BodyState { velocity: (Vec2d { x: vx, y: vy }), ..s }
}

/// The per-body phase of a tick: move, then reflect when the boundary toggle
/// is on.
pub open spec fn body_step(
    s: BodyState,
    cfg: SimConfig,
    width: int,
    height: int,
    dt_num: int,
    dt_den: int,
) -> BodyState {
    let moved = move_step(s, dt_num, dt_den);
    if cfg.boundary_collision {
        boundary_step(moved, width, height)
    } else {
        moved
    }
}

/// The elastic response on a pair of states, as `Body::handle_collision`
/// commits it: both velocities replaced when the discs touch, the centers are
/// distinct and the results fit; no change otherwise.
pub open spec fn collide_step(a: BodyState, b: BodyState) -> (BodyState, BodyState) {
    if a.touching(b) && a.dist_sq(b) > 0 && a.response_fits(b) {
        (
            BodyState {
                velocity: (Vec2d {
                    x: (a.velocity.x - a.impulse_x(b, b.mass as int)) as i64,
                    y: (a.velocity.y - a.impulse_y(b, b.mass as int)) as i64,
                }),
                ..a
            },
            BodyState {
                velocity: (Vec2d {
                    x: (b.velocity.x + a.impulse_x(b, a.mass as int)) as i64,
                    y: (b.velocity.y + a.impulse_y(b, a.mass as int)) as i64,
                }),
                ..b
            },
        )
    } else {
        (a, b)
    }
}

/// The gravity pull on a state, as `Body::apply_gravity` commits it.
pub open spec fn gravity_step(a: BodyState, b: BodyState) -> BodyState {
    if a.dist_sq(b) > SCALE_SQ && a.gravity_fits(b) {
        BodyState {
            velocity: (Vec2d {
                x: (a.velocity.x + a.gravity_dvx(b)) as i64,
                y: (a.velocity.y + a.gravity_dvy(b)) as i64,
            }),
            ..a
        }
    } else {
        a
    }
}

/// The pair phase for one ordered pair: the collision response when the
/// toggle is on, then the one-directional gravity pull on the first body.
pub open spec fn pair_step(a: BodyState, b: BodyState, collision_on: bool) -> (
    BodyState,
    BodyState,
) {
    let hit = if collision_on {
        collide_step(a, b)
    } else {
        (a, b)
    };
    (gravity_step(hit.0, hit.1), hit.1)
}

/// Folds the pair phase over `remaining` partners of body `i`, starting at
/// index `j`.
pub open spec fn inner_pairs(
    bodies: Seq<BodyState>,
    i: int,
    j: int,
    remaining: nat,
    collision_on: bool,
) -> Seq<BodyState>
    decreases remaining,
{
    if remaining == 0 {
        bodies
    } else {
        let stepped = pair_step(bodies[i], bodies[j], collision_on);
        inner_pairs(
            bodies.update(i, stepped.0).update(j, stepped.1),
            i,
            j + 1,
            (remaining - 1) as nat,
            collision_on,
        )
    }
}

/// Folds one whole tick over `remaining` bodies, starting at index `i`: each
/// body moves and reflects, then meets every later body pairwise.
pub open spec fn outer_bodies(
    bodies: Seq<BodyState>,
    i: int,
    remaining: nat,
    cfg: SimConfig,
    width: int,
    height: int,
    dt_num: int,
    dt_den: int,
) -> Seq<BodyState>
    decreases remaining,
{
    if remaining == 0 {
        bodies
    } else {
        let moved = bodies.update(i, body_step(bodies[i], cfg, width, height, dt_num, dt_den));
        let paired = inner_pairs(moved, i, i + 1, (bodies.len() - i - 1) as nat, cfg.collision);
        outer_bodies(
            paired,
            i + 1,
            (remaining - 1) as nat,
            cfg,
            width,
            height,
            dt_num,
            dt_den,
        )
    }
}

/// What one tick does to the body collection, in the documented order.
pub open spec fn tick_spec(
    bodies: Seq<BodyState>,
    cfg: SimConfig,
    width: int,
    height: int,
    dt_num: int,
    dt_den: int,
) -> Seq<BodyState> {
    outer_bodies(bodies, 0, bodies.len(), cfg, width, height, dt_num, dt_den)
}

/// The simulation's whole mutable state: the ordered body collection and the
/// toggles. The loop owns it exclusively.
pub struct Sim {
    pub bodies: Vec<Body>,
    pub config: SimConfig,
}

impl Sim {
    /// Every body in the collection is well-formed.
    pub open spec fn wf(self) -> bool {
        forall|i: int| 0 <= i < self.bodies@.len() ==> (#[trigger] self.bodies@[i]).wf()
    }

    /// No two distinct bodies overlap.
    pub open spec fn pairwise_clear(self) -> bool {
        forall|i: int, j: int|
            0 <= i < j < self.bodies@.len() ==> !(#[trigger] self.bodies@[i]).touching(
                #[trigger] self.bodies@[j],
            )
    }

    /// An empty simulation with the starting toggles.
    pub fn start() -> (r: Sim)
        ensures
            r.bodies@.len() == 0,
            r.config.trails == true,
            r.config.collision == false,
            r.config.boundary_collision == false,
            r.config.body_info == false,
            r.config.show_help == true,
            r.wf(),
    {
        Sim { bodies: Vec::new(), config: SimConfig::start() }
    }

    /// Clears the collection, seeds the random source once, and spawns three
    /// random bodies inside the viewport, redrawing any candidate that
    /// overlaps an already accepted one. Returns whether a non-overlapping
    /// batch was found within the retry budget; on failure the collection
    /// stays empty.
    pub fn randomize(&mut self, width: i64, height: i64, seed: u64) -> (ok: bool)
        requires
            1 <= width <= VIEW_LIMIT,
            1 <= height <= VIEW_LIMIT,
        ensures
            final(self).wf(),
            final(self).config == old(self).config,
            ok ==> final(self).bodies@.len() == 3,
            ok ==> final(self).pairwise_clear(),
            ok ==> forall|k: int|
                0 <= k < 3 ==> (#[trigger] final(self).bodies@[k]).spawn_bounds(
                    width as int,
                    height as int,
                ),
            !ok ==> final(self).bodies@.len() == 0,
    {
        self.bodies = Vec::new();
        seed_random(seed);
        let b1 = Body::random(width, height);
        let mut b2 = Body::random(width, height);
        let mut tries: u32 = 0;
        while tries < SPAWN_TRIES && b2.overlaps(&b1)
            invariant
                b1.wf(),
                b2.wf(),
                b1.spawn_bounds(width as int, height as int),
                b2.spawn_bounds(width as int, height as int),
                1 <= width <= VIEW_LIMIT,
                1 <= height <= VIEW_LIMIT,
            decreases SPAWN_TRIES - tries,
        {
            b2 = Body::random(width, height);
            tries = tries + 1;
        }
        if b2.overlaps(&b1) {
            return false;
        }
        let mut b3 = Body::random(width, height);
        tries = 0;
        while tries < SPAWN_TRIES && (b3.overlaps(&b1) || b3.overlaps(&b2))
            invariant
                b1.wf(),
                b2.wf(),
                b3.wf(),
                b1.spawn_bounds(width as int, height as int),
                b2.spawn_bounds(width as int, height as int),
                b3.spawn_bounds(width as int, height as int),
                1 <= width <= VIEW_LIMIT,
                1 <= height <= VIEW_LIMIT,
            decreases SPAWN_TRIES - tries,
        {
            b3 = Body::random(width, height);
            tries = tries + 1;
        }
        if b3.overlaps(&b1) || b3.overlaps(&b2) {
            return false;
        }
        proof {
            crate::body::lemma_touching_symmetric(b1, b2);
            crate::body::lemma_touching_symmetric(b1, b3);
            crate::body::lemma_touching_symmetric(b2, b3);
        }
        self.bodies.push(b1);
        self.bodies.push(b2);
        self.bodies.push(b3);
        true
    }

    /// One tick: every body advances by `dt = dt_num / dt_den` and, when the
    /// boundary toggle is on, reflects at the viewport edges; then every
    /// ordered pair `(i, j)` with `i < j` resolves its collision when the
    /// collision toggle is on, and body `i` always receives the gravity pull
    /// of body `j`. The pull is deliberately one-directional per pair: `j`
    /// never receives the reciprocal pull of `i` within the same pairing, and
    /// evening it out would change the dynamics. The body count and the
    /// toggles do not change.
    pub fn tick(&mut self, width: i64, height: i64, dt_num: i64, dt_den: i64)
        requires
            old(self).wf(),
            1 <= width <= COORD_LIMIT,
            1 <= height <= COORD_LIMIT,
            1 <= dt_num <= SCALE,
            1 <= dt_den <= SCALE,
        ensures
            final(self).wf(),
            final(self).bodies@.len() == old(self).bodies@.len(),
            final(self).config == old(self).config,
            forall|k: int|
                0 <= k < old(self).bodies@.len() ==> {
                    &&& (#[trigger] final(self).bodies@[k]).mass == old(self).bodies@[k].mass
                    &&& final(self).bodies@[k].radius == old(self).bodies@[k].radius
                    &&& final(self).bodies@[k].color == old(self).bodies@[k].color
                },
            states_of(final(self).bodies@) == tick_spec(
                states_of(old(self).bodies@),
                old(self).config,
                width as int,
                height as int,
                dt_num as int,
                dt_den as int,
            ),
    {
        let n = self.bodies.len();
        let ghost cfg0 = self.config;
        let ghost bodies0 = self.bodies@;
        let ghost goal = tick_spec(
            states_of(self.bodies@),
            cfg0,
            width as int,
            height as int,
            dt_num as int,
            dt_den as int,
        );
        proof {
            assert(states_of(self.bodies@).len() == n);
        }
        let mut i: usize = 0;
        while i < n
            invariant
                self.wf(),
                self.bodies@.len() == n,
                self.config == cfg0,
                i <= n,
                1 <= width <= COORD_LIMIT,
                1 <= height <= COORD_LIMIT,
                1 <= dt_num <= SCALE,
                1 <= dt_den <= SCALE,
                bodies0.len() == n,
                forall|k: int|
                    0 <= k < n ==> {
                        &&& (#[trigger] self.bodies@[k]).mass == bodies0[k].mass
                        &&& self.bodies@[k].radius == bodies0[k].radius
                        &&& self.bodies@[k].color == bodies0[k].color
                    },
                outer_bodies(
                    states_of(self.bodies@),
                    i as int,
                    (n - i) as nat,
                    cfg0,
                    width as int,
                    height as int,
                    dt_num as int,
                    dt_den as int,
                ) == goal,
            decreases n - i,
        {
            let ghost pre = states_of(self.bodies@);
            let ghost stepped = body_step(
                pre[i as int],
                cfg0,
                width as int,
                height as int,
                dt_num as int,
                dt_den as int,
            );
            self.bodies[i].move_body(dt_num, dt_den);
            proof {
                assert(self.bodies@[i as int].state() =~= move_step(
                    pre[i as int],
                    dt_num as int,
                    dt_den as int,
                ));
            }
            if self.config.boundary_collision {
                let ghost moved_state = self.bodies@[i as int].state();
                self.bodies[i].check_boundary_collision(width, height);
                proof {
                    assert(self.bodies@[i as int].state() =~= boundary_step(
                        moved_state,
                        width as int,
                        height as int,
                    ));
                }
            }
            proof {
                assert(self.bodies@[i as int].state() =~= stepped);
                assert(states_of(self.bodies@) =~= pre.update(i as int, stepped));
            }
            let ghost moved = states_of(self.bodies@);
            let ghost inner_goal = inner_pairs(
                moved,
                i as int,
                i as int + 1,
                (n - i - 1) as nat,
                cfg0.collision,
            );
            proof {
                assert(pre.len() == n);
                assert(outer_bodies(
                    pre,
                    i as int,
                    (n - i) as nat,
                    cfg0,
                    width as int,
                    height as int,
                    dt_num as int,
                    dt_den as int,
                ) == outer_bodies(
                    inner_goal,
                    i as int + 1,
                    (n - i - 1) as nat,
                    cfg0,
                    width as int,
                    height as int,
                    dt_num as int,
                    dt_den as int,
                ));
            }
            let mut j: usize = i + 1;
            while j < n
                invariant
                    self.wf(),
                    self.bodies@.len() == n,
                    self.config == cfg0,
                    i < j <= n,
                    i < n,
                    bodies0.len() == n,
                    forall|k: int|
                        0 <= k < n ==> {
                            &&& (#[trigger] self.bodies@[k]).mass == bodies0[k].mass
                            &&& self.bodies@[k].radius == bodies0[k].radius
                            &&& self.bodies@[k].color == bodies0[k].color
                        },
                    inner_pairs(
                        states_of(self.bodies@),
                        i as int,
                        j as int,
                        (n - j) as nat,
                        cfg0.collision,
                    ) == inner_goal,
                decreases n - j,
            {
                let ghost prej = states_of(self.bodies@);
                let ghost bi0 = self.bodies@[i as int].state();
                let ghost bj0 = self.bodies@[j as int].state();
                let ghost hit = if cfg0.collision {
                    collide_step(bi0, bj0)
                } else {
                    (bi0, bj0)
                };
                if self.config.collision {
                    let response = self.bodies[i].collision_response(&self.bodies[j]);
                    if let Some((va, vb)) = response {
                        self.bodies[i].set_velocity(va);
                        self.bodies[j].set_velocity(vb);
                    }
                }
                proof {
                    assert(self.bodies@[i as int].state() =~= hit.0);
                    assert(self.bodies@[j as int].state() =~= hit.1);
                }
                let pulled = self.bodies[i].gravity_update(&self.bodies[j]);
                if let Some(v) = pulled {
                    self.bodies[i].set_velocity(v);
                }
                proof {
                    assert(self.bodies@[i as int].state() =~= gravity_step(hit.0, hit.1));
                    assert(states_of(self.bodies@) =~= prej.update(
                        i as int,
                        pair_step(bi0, bj0, cfg0.collision).0,
                    ).update(j as int, pair_step(bi0, bj0, cfg0.collision).1));
                    assert(inner_pairs(
                        prej,
                        i as int,
                        j as int,
                        (n - j) as nat,
                        cfg0.collision,
                    ) == inner_pairs(
                        states_of(self.bodies@),
                        i as int,
                        j as int + 1,
                        (n - j - 1) as nat,
                        cfg0.collision,
                    ));
                }
                j = j + 1;
            }
            i = i + 1;
        }
    }
}

} // verus!
