//! The rules of the game: the menu, the player's controls, the camera, the
//! pickups and the ways a round ends.
//!
//! The host runs the frame loop. Each frame it asks these rules what to
//! do, does it (plays the sound, applies the force, removes the body), and
//! tells them what came of it.
use vstd::prelude::*;
use crate::fixed::clamp;
use crate::fixed::multiply;
use crate::fixed::ONE;
use crate::fixed::times;
use crate::fixed::trunc_div;
use crate::heightmap::HeightMap;
use crate::input::Input;
use crate::math::GRAVITY;
use crate::math::Pnt3;
use crate::math::Vec2;
use crate::math::Vec3;
use crate::math::Vec4;
use crate::particle::Particle;

verus! {

/// Strength of the player's push on the ball (20).
pub const FORCE_NORMAL: i64 = 20_000_000;

/// Strength of the push while the power-up lasts (62.8).
pub const FORCE_BOOSTED: i64 = 62_800_000;

/// How long the power-up lasts, in milliseconds.
pub const BOOST_DURATION: u64 = 10_000;

/// A jump pushes up with this many times gravity times the strength of the
/// push (3.14).
pub const JUMP_FACTOR: i64 = 3_140_000;

/// Below this height (-300) the player has fallen off the world.
pub const FALL_LIMIT: i64 = -300_000_000;

/// The fountain at the origin throws a particle when more than this many
/// milliseconds have passed since the last.
pub const FOUNTAIN_INTERVAL: u64 = 150;

/// Camera input is divided by this before it turns the camera.
pub const CAMERA_SLOWNESS: i64 = 10;

/// The camera pitches no further than a right angle up or down: half of
/// [`crate::math::PI`].
pub const PITCH_LIMIT: i64 = 1_570_800;

/// Narrowest field of view: an eighth of a half turn.
pub const FOV_MIN: i64 = 392_700;

/// Widest field of view: seven eighths of a half turn.
pub const FOV_MAX: i64 = 2_748_900;

/// The field of view a round begins with: a right angle.
pub const FOV_START: i64 = 1_570_800;

/// Contacts quieter than this (0.01) make no sound.
pub const QUIET: i64 = 10_000;

/// Closing speeds count up to this much (a million units per second).
pub const SPEED_CAP: i64 = 1_000_000_000_000;

/// The entries of the menu.
#[derive(Clone, Copy, Debug, PartialEq, Eq, Structural)]
pub enum MenuItem {
    Play,
    Quit,
}

/// Where the program is.
#[derive(Clone, Copy, Debug, PartialEq, Eq, Structural)]
pub enum State {
    /// In the menu, with this entry highlighted.
    Menu(MenuItem),
    /// In a round.
    Game,
}

/// What a frame in the menu leads to.
#[derive(Clone, Copy, Debug, PartialEq, Eq, Structural)]
pub enum MenuOutcome {
    /// The menu stays, with this entry highlighted.
    Stay(MenuItem),
    /// A round begins, and with it the music.
    Start,
    /// The program ends.
    Leave,
}

/// What a frame in the menu leads to: pushing the stick up highlights
/// "Play" and pushing it down "Quit"; with the stick at rest, jumping takes
/// the highlighted entry.
pub open spec fn menu_outcome(selected: MenuItem, input: Input) -> MenuOutcome {
    if input.player.y < 0 {
        MenuOutcome::Stay(MenuItem::Play)
    } else if input.player.y > 0 {
        MenuOutcome::Stay(MenuItem::Quit)
    } else if input.jump {
        match selected {
            MenuItem::Play => MenuOutcome::Start,
            MenuItem::Quit => MenuOutcome::Leave,
        }
    } else {
        MenuOutcome::Stay(selected)
    }
}

/// One frame in the menu.
pub fn menu_step(selected: MenuItem, input: &Input) -> (r: MenuOutcome)
    ensures
        r == menu_outcome(selected, *input),
{
    if input.player.y < 0 {
        MenuOutcome::Stay(MenuItem::Play)
    } else if input.player.y > 0 {
        MenuOutcome::Stay(MenuItem::Quit)
    } else if input.jump {
        match selected {
            MenuItem::Play => MenuOutcome::Start,
            MenuItem::Quit => MenuOutcome::Leave,
        }
    } else {
        MenuOutcome::Stay(selected)
    }
}

/// The state after a frame in the menu, if the program goes on.
pub fn next_state(outcome: MenuOutcome) -> (r: Option<State>)
    ensures
        r == (match outcome {
            MenuOutcome::Stay(item) => Some(State::Menu(item)),
            MenuOutcome::Start => Some(State::Game),
            MenuOutcome::Leave => None,
        }),
{
    match outcome {
        MenuOutcome::Stay(item) => Some(State::Menu(item)),
        MenuOutcome::Start => Some(State::Game),
        MenuOutcome::Leave => None,
    }
}

/// Strength of the player's push at time `now`: boosted until the power-up
/// runs out.
pub open spec fn force_at(now: u64, boost_end: u64) -> i64 {
    if now >= boost_end {
        FORCE_NORMAL
    } else {
        FORCE_BOOSTED
    }
}

/// The upward force of a jump with a push of strength `force`.
pub open spec fn jump_force(force: i64) -> int {
    times(times(JUMP_FACTOR as int, GRAVITY as int), force as int)
}

/// A jump: the force that lifts the ball, and how loud the jump sounds.
#[derive(Clone, Copy, Debug, PartialEq, Eq, Structural)]
pub struct Jump {
    pub force_y: i64,
    /// Every jump is quieter than the one before: the first at full
    /// volume, the second at half, the third at a third.
    pub volume: i64,
}

/// What the host is to do before it steps the world.
#[derive(Clone, Copy, Debug, PartialEq, Eq, Structural)]
pub struct Orders {
    /// Lift the ball and play the jump sound.
    pub jump: Option<Jump>,
    /// Bring the ball to rest.
    pub stop: bool,
    /// Let the fountain throw a particle.
    pub fountain: bool,
    /// The player has just fallen off the world: play the closing sound.
    pub fell: bool,
}

/// What picking up a body leads to.
#[derive(Clone, Copy, Debug, PartialEq, Eq, Structural)]
pub struct Pickup {
    /// The sound of the body, for the host to play.
    pub sound: Option<usize>,
    /// With this pickup the round is won: which of the two cheers to play.
    pub cheer: Option<usize>,
}

/// `s` without every occurrence of `id`, the rest in its old order.
pub open spec fn without(s: Seq<u64>, id: u64) -> Seq<u64>
    decreases s.len(),
{
    if s.len() == 0 {
        Seq::empty()
    } else if s.last() == id {
        without(s.drop_last(), id)
    } else {
        without(s.drop_last(), id).push(s.last())
    }
}

/// The mathematical picture of a round.
pub struct Round {
    pub yaw: i64,
    pub pitch: i64,
    pub fov: i64,
    /// The jump button was let go since the last jump.
    pub allow_jump: bool,
    pub times_jumped: u32,
    /// The bodies that can be picked up.
    pub pickups: Seq<u64>,
    /// The pickup that boosts the player, if there is one.
    pub powerup: Option<u64>,
    /// Diamonds there were, and diamonds picked up.
    pub total: u32,
    pub got: u32,
    /// When the boost ends, in milliseconds.
    pub boost_end: u64,
    /// When the round ended, in milliseconds; zero while it lasts.
    pub end_time: u64,
    /// When the fountain last threw a particle.
    pub last_fountain: u64,
}

impl Round {
    /// Whether the player jumps this frame: the button is down, was let go
    /// since the last jump, and the ball is on the ground.
    pub open spec fn jumps(self, input: Input, on_ground: bool) -> bool {
        input.jump && self.allow_jump && on_ground
    }

    /// The jump count after a jump.
    pub open spec fn next_jump_count(self) -> u32 {
        if self.times_jumped == u32::MAX {
            u32::MAX
        } else {
            (self.times_jumped + 1) as u32
        }
    }

    /// The pitch after the camera turned, held between straight down and
    /// straight up.
    pub open spec fn turned_pitch(self, input: Input) -> i64 {
        let from = if input.reset_camera {
            0
        } else {
            self.pitch as int
        };
        clamp(
            from + trunc_div(input.camera.y as int, CAMERA_SLOWNESS as int),
            -PITCH_LIMIT,
            PITCH_LIMIT as int,
        ) as i64
    }

    /// The yaw after the camera turned. Yaw is free, and stops only at the
    /// ends of the number range.
    pub open spec fn turned_yaw(self, input: Input) -> i64 {
        let from = if input.reset_camera {
            0
        } else {
            self.yaw as int
        };
        clamp(
            from + trunc_div(input.camera.x as int, CAMERA_SLOWNESS as int),
            -i64::MAX,
            i64::MAX as int,
        ) as i64
    }

    /// Whether the fountain throws a particle at time `now`.
    pub open spec fn fountain_due(self, now: u64) -> bool {
        now - self.last_fountain > FOUNTAIN_INTERVAL
    }

    /// Whether the player, at height `height`, falls off the world just
    /// now.
    pub open spec fn falls(self, height: i64) -> bool {
        height < FALL_LIMIT && self.end_time == 0
    }

    /// The round after the first half of a frame.
    pub open spec fn controlled(self, input: Input, now: u64, on_ground: bool, height: i64)
        -> Round {
        Round {
            yaw: self.turned_yaw(input),
            pitch: self.turned_pitch(input),
            allow_jump: if self.jumps(input, on_ground) {
                false
            } else if !input.jump {
                true
            } else {
                self.allow_jump
            },
            times_jumped: if self.jumps(input, on_ground) {
                self.next_jump_count()
            } else {
                self.times_jumped
            },
            last_fountain: if self.fountain_due(now) {
                now
            } else {
                self.last_fountain
            },
            end_time: if self.falls(height) {
                now
            } else {
                self.end_time
            },
            ..self
        }
    }

    /// What the host is to do in the first half of a frame.
    pub open spec fn orders(self, input: Input, now: u64, on_ground: bool, height: i64) -> Orders {
        Orders {
            jump: if self.jumps(input, on_ground) {
                Some(
                    Jump {
                        force_y: jump_force(force_at(now, self.boost_end)) as i64,
                        volume: ((ONE as int) / (self.next_jump_count() as int)) as i64,
                    },
                )
            } else {
                None
            },
            stop: input.stop,
            fountain: self.fountain_due(now),
            fell: self.falls(height),
        }
    }

    /// The round after the body `id` was picked up at time `now`: the
    /// power-up starts the boost, anything else counts as a diamond; the
    /// body is no pickup any more; and when all diamonds are in, the round
    /// ends.
    pub open spec fn collected(self, id: u64, now: u64) -> Round {
        let got = if self.powerup == Some(id) {
            self.got
        } else if self.got == u32::MAX {
            u32::MAX
        } else {
            (self.got + 1) as u32
        };
        Round {
            pickups: without(self.pickups, id),
            got,
            boost_end: if self.powerup == Some(id) {
                if now + BOOST_DURATION > u64::MAX {
                    u64::MAX
                } else {
                    (now + BOOST_DURATION) as u64
                }
            } else {
                self.boost_end
            },
            end_time: if got == self.total {
                now
            } else {
                self.end_time
            },
            ..self
        }
    }

    /// Which cheer a pickup at time `now` brings, if it wins the round:
    /// the second in the latter half of a second, the first otherwise.
    pub open spec fn cheer(self, id: u64, now: u64) -> Option<usize> {
        if self.collected(id, now).got == self.total {
            Some(
                if now % 1000 > 500 {
                    1usize
                } else {
                    0usize
                },
            )
        } else {
            None
        }
    }

    /// The forces that roll the ball: along x and z as the stick points,
    /// while the ball is on the ground.
    pub open spec fn steering(self, input: Input, now: u64, on_ground: bool) -> (int, int) {
        if on_ground {
            (
                times(force_at(now, self.boost_end) as int, input.player.x as int),
                times(force_at(now, self.boost_end) as int, input.player.y as int),
            )
        } else {
            (0, 0)
        }
    }

    /// The field of view after zooming, held between the narrowest and the
    /// widest.
    pub open spec fn zoomed(self, input: Input) -> i64 {
        clamp(self.fov + input.zoom, FOV_MIN as int, FOV_MAX as int) as i64
    }

    /// The time to show on the clock: that of the end of the round once it
    /// has ended, the present time until then.
    pub open spec fn clock(self, now: u64) -> u64 {
        if self.end_time == 0 {
            now
        } else {
            self.end_time
        }
    }
}

/// A round of the game.
pub struct Game {
    yaw: i64,
    pitch: i64,
    fov: i64,
    allow_jump: bool,
    times_jumped: u32,
    pickups: Vec<u64>,
    powerup: Option<u64>,
    total: u32,
    got: u32,
    boost_end: u64,
    end_time: u64,
    last_fountain: u64,
}

impl View for Game {
    type V = Round;

    closed spec fn view(&self) -> Round {
        Round {
            yaw: self.yaw,
            pitch: self.pitch,
            fov: self.fov,
            allow_jump: self.allow_jump,
            times_jumped: self.times_jumped,
            pickups: self.pickups@,
            powerup: self.powerup,
            total: self.total,
            got: self.got,
            boost_end: self.boost_end,
            end_time: self.end_time,
            last_fountain: self.last_fountain,
        }
    }
}

impl Game {
    /// The angles and the field of view are within their limits.
    pub open spec fn wf(&self) -> bool {
        &&& -PITCH_LIMIT <= self@.pitch <= PITCH_LIMIT
        &&& FOV_MIN <= self@.fov <= FOV_MAX
    }

    /// A round that begins at time `now`: the camera looks straight ahead,
    /// nothing is there to pick up yet, and the boost has run out.
    pub fn new(now: u64) -> (g: Game)
        ensures
            g.wf(),
            g@ == (Round {
                yaw: 0,
                pitch: 0,
                fov: FOV_START,
                allow_jump: true,
                times_jumped: 0,
                pickups: Seq::empty(),
                powerup: None,
                total: 0,
                got: 0,
                boost_end: now,
                end_time: 0,
                last_fountain: 0,
            }),
    {
        Game {
            yaw: 0,
            pitch: 0,
            fov: FOV_START,
            allow_jump: true,
            times_jumped: 0,
            pickups: Vec::new(),
            powerup: None,
            total: 0,
            got: 0,
            boost_end: now,
            end_time: 0,
            last_fountain: 0,
        }
    }

    /// Makes the body `id` a diamond to pick up.
    pub fn add_diamond(&mut self, id: u64)
        ensures
            final(self)@ == (Round {
                pickups: old(self)@.pickups.push(id),
                total: if old(self)@.total == u32::MAX {
                    u32::MAX
                } else {
                    (old(self)@.total + 1) as u32
                },
                ..old(self)@
            }),
    {
        self.pickups.push(id);
        if self.total < u32::MAX {
            self.total = self.total + 1;
        }
    }

    /// Makes the body `id` the power-up.
    pub fn add_powerup(&mut self, id: u64)
        ensures
            final(self)@ == (Round {
                pickups: old(self)@.pickups.push(id),
                powerup: Some(id),
                ..old(self)@
            }),
    {
        self.pickups.push(id);
        self.powerup = Some(id);
    }

    /// Whether the body `id` can be picked up.
    pub fn is_pickup(&self, id: u64) -> (r: bool)
        ensures
            r == self@.pickups.contains(id),
    {
        let mut i: usize = 0;
        while i < self.pickups.len()
            invariant
                i <= self.pickups.len(),
                forall|j: int| 0 <= j < i ==> self.pickups@[j] != id,
            decreases self.pickups.len() - i,
        {
            if self.pickups[i] == id {
                return true;
            }
            i += 1;
        }
        false
    }

    /// How far the camera is turned about the upright axis.
    pub fn yaw(&self) -> (r: i64)
        ensures
            r == self@.yaw,
    {
        self.yaw
    }

    /// How far the camera is tilted up or down.
    pub fn pitch(&self) -> (r: i64)
        ensures
            r == self@.pitch,
    {
        self.pitch
    }

    /// The field of view.
    pub fn fov(&self) -> (r: i64)
        ensures
            r == self@.fov,
    {
        self.fov
    }

    /// Diamonds picked up, and diamonds there were.
    pub fn score(&self) -> (r: (u32, u32))
        ensures
            r == (self@.got, self@.total),
    {
        (self.got, self.total)
    }

    /// Strength of the player's push at time `now`.
    pub fn force(&self, now: u64) -> (f: i64)
        ensures
            f == force_at(now, self@.boost_end),
    {
        if now >= self.boost_end {
            FORCE_NORMAL
        } else {
            FORCE_BOOSTED
        }
    }

    /// The first half of a frame, before the world is stepped: takes the
    /// input of the frame, the time in milliseconds, whether the ball was
    /// on the ground in the last frame, and the height of the ball, and
    /// says what the host is to do.
    pub fn controls(&mut self, input: &Input, now: u64, on_ground: bool, height: i64) -> (o: Orders)
        requires
            old(self).wf(),
        ensures
            final(self).wf(),
            final(self)@ == old(self)@.controlled(*input, now, on_ground, height),
            o == old(self)@.orders(*input, now, on_ground, height),
    {
        let force: i64 = self.force(now);
        let mut jump: Option<Jump> = None;
        if input.jump && self.allow_jump && on_ground {
            if self.times_jumped < u32::MAX {
                self.times_jumped = self.times_jumped + 1;
            }
            let lift: i64 = multiply(multiply(JUMP_FACTOR, GRAVITY), force);
            jump = Some(Jump { force_y: lift, volume: ONE / (self.times_jumped as i64) });
            self.allow_jump = false;
        } else if !input.jump {
            self.allow_jump = true;
        }
        if input.reset_camera {
            self.yaw = 0;
            self.pitch = 0;
        }
        self.yaw = crate::fixed::add_clamped(
            self.yaw,
            crate::fixed::div_trunc(input.camera.x, CAMERA_SLOWNESS),
            i64::MAX,
        );
        self.pitch = crate::fixed::add_clamped(
            self.pitch,
            crate::fixed::div_trunc(input.camera.y, CAMERA_SLOWNESS),
            PITCH_LIMIT,
        );
        let fountain: bool = now > self.last_fountain && now - self.last_fountain
            > FOUNTAIN_INTERVAL;
        if fountain {
            self.last_fountain = now;
        }
        let fell: bool = height < FALL_LIMIT && self.end_time == 0;
        if fell {
            self.end_time = now;
        }
        Orders { jump, stop: input.stop, fountain, fell }
    }

    /// Picks up the body `id` at time `now`. `sound` is the sound of the
    /// body, which the host is to play. The host removes the body from
    /// the world.
    pub fn collect(&mut self, id: u64, now: u64, sound: Option<usize>) -> (p: Pickup)
        requires
            old(self).wf(),
        ensures
            final(self).wf(),
            final(self)@ == old(self)@.collected(id, now),
            p == (Pickup { sound, cheer: old(self)@.cheer(id, now) }),
    {
        if self.powerup == Some(id) {
            self.boost_end = if now > u64::MAX - BOOST_DURATION {
                u64::MAX
            } else {
                now + BOOST_DURATION
            };
        } else if self.got < u32::MAX {
            self.got = self.got + 1;
        }
        let mut kept: Vec<u64> = Vec::new();
        let mut i: usize = 0;
        proof {
            assert(self.pickups@.subrange(0, 0) =~= Seq::empty());
        }
        while i < self.pickups.len()
            invariant
                i <= self.pickups.len(),
                self.pickups == old(self).pickups,
                kept@ == without(self.pickups@.subrange(0, i as int), id),
            decreases self.pickups.len() - i,
        {
            let p: u64 = self.pickups[i];
            proof {
                assert(self.pickups@.subrange(0, i + 1).drop_last() =~= self.pickups@.subrange(
                    0,
                    i as int,
                ));
            }
            if p != id {
                kept.push(p);
            }
            i += 1;
        }
        proof {
            assert(self.pickups@.subrange(0, self.pickups.len() as int) =~= self.pickups@);
        }
        self.pickups = kept;
        let cheer: Option<usize> = if self.got == self.total {
            self.end_time = now;
            Some(
                if now % 1000 > 500 {
                    1
                } else {
                    0
                },
            )
        } else {
            None
        };
        Pickup { sound, cheer }
    }

    /// The forces that roll the ball this frame, along x and along z. The
    /// host turns them by the camera: the force along z becomes a torque
    /// about x, the one along x a torque about z the other way round.
    pub fn steer(&self, input: &Input, now: u64, on_ground: bool) -> (f: (i64, i64))
        ensures
            (f.0 as int, f.1 as int) == self@.steering(*input, now, on_ground),
    {
        if on_ground {
            let force: i64 = self.force(now);
            (multiply(force, input.player.x), multiply(force, input.player.y))
        } else {
            (0, 0)
        }
    }

    /// Zooms by what the input asks for.
    pub fn zoom(&mut self, input: &Input)
        requires
            old(self).wf(),
        ensures
            final(self).wf(),
            final(self)@ == (Round { fov: old(self)@.zoomed(*input), ..old(self)@ }),
    {
        let wide: i128 = (self.fov as i128) + (input.zoom as i128);
        self.fov = if wide < FOV_MIN as i128 {
            FOV_MIN
        } else if wide > FOV_MAX as i128 {
            FOV_MAX
        } else {
            wide as i64
        };
    }

    /// The time to show on the clock, in milliseconds.
    pub fn playtime(&self, now: u64) -> (t: u64)
        ensures
            t == self@.clock(now),
    {
        if self.end_time == 0 {
            now
        } else {
            self.end_time
        }
    }
}

/// Which of two touching bodies the player picks up, if any: the other
/// one, when one of them is the player and the other can be picked up.
pub open spec fn pickup_between(pickups: Seq<u64>, player: u64, first: u64, second: u64) -> Option<
    u64,
> {
    if first == player && pickups.contains(second) {
        Some(second)
    } else if first != player && second == player && pickups.contains(first) {
        Some(first)
    } else {
        None
    }
}

/// Whether a contact between two bodies is one of the player with
/// something solid: one of them is the player, and neither can be picked
/// up.
pub open spec fn is_bump(pickups: Seq<u64>, player: u64, first: u64, second: u64) -> bool {
    !pickups.contains(first) && !pickups.contains(second) && (first == player || second == player)
}

impl Game {
    /// Which of two touching bodies the player picks up, if any. Such a
    /// contact is to be vetoed: the player passes through what they pick
    /// up.
    pub fn picks_up(&self, player: u64, first: u64, second: u64) -> (r: Option<u64>)
        ensures
            r == pickup_between(self@.pickups, player, first, second),
    {
        if first == player {
            if self.is_pickup(second) {
                Some(second)
            } else {
                None
            }
        } else if second == player {
            if self.is_pickup(first) {
                Some(first)
            } else {
                None
            }
        } else {
            None
        }
    }

    /// Whether a contact between two bodies is one of the player with
    /// something solid. Only such contacts make a sound.
    pub fn bumps(&self, player: u64, first: u64, second: u64) -> (r: bool)
        ensures
            r == is_bump(self@.pickups, player, first, second),
    {
        !self.is_pickup(first) && !self.is_pickup(second) && (first == player || second == player)
    }

    /// Whether a contact between two bodies puts the player on the ground:
    /// it is a bump, and one of the two is the ground.
    pub fn lands(&self, player: u64, ground: u64, first: u64, second: u64) -> (r: bool)
        ensures
            r == (is_bump(self@.pickups, player, first, second) && (first == ground || second
                == ground)),
    {
        self.bumps(player, first, second) && (first == ground || second == ground)
    }
}

/// The speed at which two bodies close in on each other along the normal
/// of their contact: the size of the part of their relative velocity that
/// lies along the normal, as far as the cap.
pub open spec fn closing_speed(normal: Vec3, relative: Vec3) -> int {
    let along = trunc_div(normal.x * relative.x, ONE as int) + trunc_div(
        normal.y * relative.y,
        ONE as int,
    ) + trunc_div(normal.z * relative.z, ONE as int);
    if along < 0 {
        clamp(-along, 0, SPEED_CAP as int)
    } else {
        clamp(along, 0, SPEED_CAP as int)
    }
}

/// How loud a contact is: the square of the closing speed times the
/// volume scale, though never louder than full volume.
pub open spec fn impact_volume_spec(vol_scale: i64, normal: Vec3, relative: Vec3) -> int {
    let speed = closing_speed(normal, relative);
    clamp(
        trunc_div(vol_scale * trunc_div(speed * speed, ONE as int), ONE as int),
        i64::MIN as int,
        ONE as int,
    )
}

fn product(a: i64, b: i64) -> (r: i128)
    ensures
        r == trunc_div(a * b, ONE as int),
        -0x4000_0000_0000_0000_0000_0000_0000 <= r <= 0x4000_0000_0000_0000_0000_0000_0000,
{
    assert(-0x8000_0000_0000_0000 * 0x8000_0000_0000_0000 <= a * b <= 0x8000_0000_0000_0000
        * 0x8000_0000_0000_0000) by (nonlinear_arith)
        requires
            -0x8000_0000_0000_0000 <= a <= 0x8000_0000_0000_0000,
            -0x8000_0000_0000_0000 <= b <= 0x8000_0000_0000_0000,
    ;
    ((a as i128) * (b as i128)) / (ONE as i128)
}

/// How loud a contact is, from the normal of the contact and the velocity
/// of the one body relative to the other.
pub fn impact_volume(vol_scale: i64, normal: Vec3, relative: Vec3) -> (v: i64)
    ensures
        v == impact_volume_spec(vol_scale, normal, relative),
{
    let along: i128 = product(normal.x, relative.x) + product(normal.y, relative.y) + product(
        normal.z,
        relative.z,
    );
    let size: i128 = if along < 0 {
        -along
    } else {
        along
    };
    let speed: i128 = if size > SPEED_CAP as i128 {
        SPEED_CAP as i128
    } else {
        size
    };
    assert(0 <= speed * speed <= 1_000_000_000_000 * 1_000_000_000_000) by (nonlinear_arith)
        requires
            0 <= speed <= 1_000_000_000_000,
    ;
    let energy: i128 = (speed * speed) / (ONE as i128);
    assert(-0x8000_0000_0000_0000 * 1_000_000_000_000_000_000 <= vol_scale * energy
        <= 0x8000_0000_0000_0000 * 1_000_000_000_000_000_000) by (nonlinear_arith)
        requires
            -0x8000_0000_0000_0000 <= vol_scale <= 0x8000_0000_0000_0000,
            0 <= energy <= 1_000_000_000_000_000_000,
    ;
    let loud: i128 = ((vol_scale as i128) * energy) / (ONE as i128);
    if loud > ONE as i128 {
        ONE
    } else if loud < i64::MIN as i128 {
        i64::MIN
    } else {
        loud as i64
    }
}

/// Whether a contact of this volume makes a sound.
pub fn is_loud(volume: i64) -> (r: bool)
    ensures
        r == (volume > QUIET),
{
    volume > QUIET
}

/// The direction in which the `k`-th of the ten particles of a bump flies
/// off: three units outward along x and z, a tenth of a turn between one
/// and the next. Beyond the tenth there is none.
#[verifier::allow_in_spec]
pub fn spray(k: usize) -> (r: (i64, i64))
    returns
        (if k == 0 {
            (3_000_000i64, 0i64)
        } else if k == 1 {
            (2_427_048i64, 1_763_359i64)
        } else if k == 2 {
            (927_042i64, 2_853_172i64)
        } else if k == 3 {
            (-927_063i64, 2_853_165i64)
        } else if k == 4 {
            (-2_427_061i64, 1_763_341i64)
        } else if k == 5 {
            (-2_999_999i64, -22i64)
        } else if k == 6 {
            (-2_427_035i64, -1_763_377i64)
        } else if k == 7 {
            (-927_021i64, -2_853_179i64)
        } else if k == 8 {
            (927_084i64, -2_853_158i64)
        } else if k == 9 {
            (2_427_074i64, -1_763_323i64)
        } else {
            (0i64, 0i64)
        }),
{
    if k == 0 {
        (3_000_000, 0)
    } else if k == 1 {
        (2_427_048, 1_763_359)
    } else if k == 2 {
        (927_042, 2_853_172)
    } else if k == 3 {
        (-927_063, 2_853_165)
    } else if k == 4 {
        (-2_427_061, 1_763_341)
    } else if k == 5 {
        (-2_999_999, -22)
    } else if k == 6 {
        (-2_427_035, -1_763_377)
    } else if k == 7 {
        (-927_021, -2_853_179)
    } else if k == 8 {
        (927_084, -2_853_158)
    } else if k == 9 {
        (2_427_074, -1_763_323)
    } else {
        (0, 0)
    }
}

/// Particles of a bump live three quarters of a second.
pub const BUMP_PARTICLE_LIFE: u64 = 750_000;

/// Particles of the fountain live five seconds.
pub const FOUNTAIN_PARTICLE_LIFE: u64 = 5_000_000;

/// The `k`-th particle of a bump of the given volume by a body at
/// `position`: it starts one unit below the body, is two and a half times
/// the volume in size, and flies off sideways and a little upward.
pub open spec fn bump_particle(position: Vec3, volume: i64, k: usize) -> Particle {
    Particle {
        position: Pnt3 {
            x: position.x,
            y: clamp(position.y - ONE, i64::MIN as int, i64::MAX as int) as i64,
            z: position.z,
        },
        scale: Vec2 {
            x: times(volume as int, 2_500_000) as i64,
            y: times(volume as int, 2_500_000) as i64,
        },
        velocity: Vec3 { x: spray(k).0, y: 200_000, z: spray(k).1 },
        color: Vec4 { x: ONE, y: ONE, z: ONE, w: ONE },
        lifetime: Some(BUMP_PARTICLE_LIFE),
        alive: 0,
        texture: 0,
    }
}

/// The ten particles that a bump throws up.
pub fn bump_particles(position: Vec3, volume: i64) -> (ps: Vec<Particle>)
    ensures
        ps.len() == 10,
        forall|k: int| 0 <= k < 10 ==> #[trigger] ps[k] == bump_particle(position, volume, k as usize),
{
    let mut ps: Vec<Particle> = Vec::new();
    let size: i64 = multiply(volume, 2_500_000);
    let y: i64 = if position.y < i64::MIN + ONE {
        i64::MIN
    } else {
        position.y - ONE
    };
    let mut k: usize = 0;
    while k < 10
        invariant
            k <= 10,
            ps.len() == k,
            size == times(volume as int, 2_500_000),
            y == clamp(position.y - ONE, i64::MIN as int, i64::MAX as int),
            forall|j: int|
                0 <= j < k ==> #[trigger] ps[j] == bump_particle(position, volume, j as usize),
        decreases 10 - k,
    {
        let way: (i64, i64) = spray(k);
        ps.push(
            Particle {
                position: Pnt3 { x: position.x, y, z: position.z },
                scale: Vec2 { x: size, y: size },
                velocity: Vec3 { x: way.0, y: 200_000, z: way.1 },
                color: Vec4 { x: ONE, y: ONE, z: ONE, w: ONE },
                lifetime: Some(BUMP_PARTICLE_LIFE),
                alive: 0,
                texture: 0,
            },
        );
        k += 1;
    }
    ps
}

/// A particle of the fountain at the origin: blue, rising at two and a
/// half units per second and drifting sideways by half of `rx` and of
/// `rz`, which the host draws at random between zero and one.
pub fn fountain_particle(rx: i64, rz: i64) -> (p: Particle)
    ensures
        p == (Particle {
            position: Pnt3 { x: 0, y: 0, z: 0 },
            scale: Vec2 { x: 400_000, y: 400_000 },
            velocity: Vec3 {
                x: trunc_div(rx as int, 2) as i64,
                y: 2_500_000,
                z: trunc_div(rz as int, 2) as i64,
            },
            color: Vec4 { x: 0, y: 0, z: ONE, w: 800_000 },
            lifetime: Some(FOUNTAIN_PARTICLE_LIFE),
            alive: 0,
            texture: 0,
        }),
{
    Particle {
        position: Pnt3 { x: 0, y: 0, z: 0 },
        scale: Vec2 { x: 400_000, y: 400_000 },
        velocity: Vec3 { x: rx / 2, y: 2_500_000, z: rz / 2 },
        color: Vec4 { x: 0, y: 0, z: ONE, w: 800_000 },
        lifetime: Some(FOUNTAIN_PARTICLE_LIFE),
        alive: 0,
        texture: 0,
    }
}

/// A texel marks a diamond when its second byte is more than half of full.
pub const DIAMOND_MARK: u8 = 128;

/// Diamonds float a unit and a half above the height that the first byte
/// of their texel encodes.
pub const DIAMOND_LIFT: i64 = 1_500_000;

/// Whether the texel `k` of the level map marks a diamond. Texels are
/// counted column by column.
pub open spec fn marks_diamond(map: &HeightMap, k: int) -> bool {
    map.data[4 * texel_index(map, k) + 1] > DIAMOND_MARK
}

/// The place in the image of the `k`-th texel, counted column by column.
pub open spec fn texel_index(map: &HeightMap, k: int) -> int {
    (k % (map.height as int)) * map.width + k / (map.height as int)
}

/// Where the diamond of texel `k` floats: over the middle of its cell, an
/// eighth of the cell size up for every 32 steps of the first byte of the
/// texel, and a unit and a half more.
pub open spec fn diamond_spot(map: &HeightMap, scale: int, k: int) -> Vec3 {
    let x = k / (map.height as int);
    let z = k % (map.height as int);
    Vec3 {
        x: (x * scale + scale / 2 - (scale * map.width) / 2) as i64,
        y: ((map.data[4 * texel_index(map, k)] * scale) / 32 + DIAMOND_LIFT) as i64,
        z: (z * scale + scale / 2 - (scale * map.height) / 2) as i64,
    }
}

/// The spots of the diamonds among the first `k` texels.
pub open spec fn diamond_spots_upto(map: &HeightMap, scale: int, k: int) -> Seq<Vec3>
    decreases k,
{
    if k <= 0 {
        Seq::empty()
    } else if marks_diamond(map, k - 1) {
        diamond_spots_upto(map, scale, k - 1).push(diamond_spot(map, scale, k - 1))
    } else {
        diamond_spots_upto(map, scale, k - 1)
    }
}

/// Where the diamonds of a level float: one over every texel of the level
/// map that marks a diamond, column by column.
pub fn diamond_spots(map: &HeightMap, scale: i64) -> (spots: Vec<Vec3>)
    requires
        map.wf(),
        0 < scale <= crate::grid::MAX_SCALE,
    ensures
        spots@ == diamond_spots_upto(map, scale as int, map.width * map.height),
{
    let w: usize = map.width as usize;
    let d: usize = map.height as usize;
    let mut spots: Vec<Vec3> = Vec::new();
    assert(w * d <= 0x7fff_ffff * 0x7fff_ffff) by (nonlinear_arith)
        requires
            w <= 0x7fff_ffff,
            d <= 0x7fff_ffff,
    ;
    let len: usize = map.data.len();
    let n: usize = ((w as u64) * (d as u64)) as usize;
    let mut k: usize = 0;
    while k < n
        invariant
            k <= n,
            n == w * d,
            w == map.width,
            d == map.height,
            w <= 0x7fff_ffff,
            d <= 0x7fff_ffff,
            len == map.data@.len(),
            len >= 4 * n,
            0 < scale <= crate::grid::MAX_SCALE,
            spots@ == diamond_spots_upto(map, scale as int, k as int),
        decreases n - k,
    {
        proof {
            assert(d > 0) by (nonlinear_arith)
                requires
                    k < w * d,
                    0 <= w,
            ;
            assert(d * w == w * d) by (nonlinear_arith);
            crate::grid::lemma_cell_coords(d as int, w as int, k as int);
            crate::grid::lemma_cell_index(w as int, d as int, (k / d) as int, (k % d) as int);
        }
        let x: usize = k / d;
        let z: usize = k % d;
        assert(0 <= z * w <= 0x7fff_ffff * 0x7fff_ffff) by (nonlinear_arith)
            requires
                0 <= z <= 0x7fff_ffff,
                0 <= w <= 0x7fff_ffff,
        ;
        let at: usize = z * w + x;
        if map.data[4 * at + 1] > DIAMOND_MARK {
            assert(0 <= x * scale <= 0x7fff_ffff * 64_000_000 && 0 <= z * scale <= 0x7fff_ffff
                * 64_000_000 && 0 <= scale * w <= 0x7fff_ffff * 64_000_000 && 0 <= scale * d
                <= 0x7fff_ffff * 64_000_000) by (nonlinear_arith)
                requires
                    0 <= x <= 0x7fff_ffff,
                    0 <= z <= 0x7fff_ffff,
                    0 <= w <= 0x7fff_ffff,
                    0 <= d <= 0x7fff_ffff,
                    0 < scale <= 64_000_000,
            ;
            let r: u8 = map.data[4 * at];
            assert(0 <= r * scale <= 255 * 64_000_000) by (nonlinear_arith)
                requires
                    0 <= r <= 255,
                    0 < scale <= 64_000_000,
            ;
            spots.push(
                Vec3 {
                    x: (x as i64) * scale + scale / 2 - (scale * (w as i64)) / 2,
                    y: ((r as i64) * scale) / 32 + DIAMOND_LIFT,
                    z: (z as i64) * scale + scale / 2 - (scale * (d as i64)) / 2,
                },
            );
        }
        k += 1;
    }
    spots
}

/// The player starts twenty units into the level along both axes.
pub const START_OFFSET: i64 = 20_000_000;

/// The player starts five units above the ground.
pub const START_LIFT: i64 = 5_000_000;

/// The cell whose height the player starts above, in a grid `width` wide
/// with cells of size `scale`.
pub open spec fn start_cell(width: int, scale: int) -> int {
    (START_OFFSET * (width + 1)) / scale
}

/// Where the player starts on a terrain of the given width, depth and cell
/// size, above ground of height `ground`.
pub open spec fn start_position(width: int, depth: int, scale: int, ground: int) -> Vec3 {
    Vec3 {
        x: ((START_OFFSET * ONE) / scale - (width * scale) / 2) as i64,
        y: (ground + START_LIFT) as i64,
        z: ((START_OFFSET * ONE) / scale - (depth * scale) / 2) as i64,
    }
}

/// Where the player starts on the terrain, if the terrain is large enough
/// to have the cell that the player starts above.
pub fn player_start(terrain: &crate::terrain::Terrain) -> (r: Option<Vec3>)
    requires
        terrain.wf(),
    ensures
        r.is_some() <==> start_cell(terrain@.width, terrain@.scale) < terrain@.cells(),
        r matches Some(p) ==> p == start_position(
            terrain@.width,
            terrain@.depth,
            terrain@.scale,
            terrain@.height[start_cell(terrain@.width, terrain@.scale)],
        ),
{
    let (w, d) = terrain.resolution();
    let scale: i64 = terrain.scale();
    let heights = terrain.heightfield();
    assert(0 <= START_OFFSET * (w + 1) <= 20_000_000 * 0x8000_0000 && 0 <= w * scale
        <= 0x7fff_ffff * 64_000_000 && 0 <= d * scale <= 0x7fff_ffff * 64_000_000)
        by (nonlinear_arith)
        requires
            0 <= w <= 0x7fff_ffff,
            0 <= d <= 0x7fff_ffff,
            0 < scale <= 64_000_000,
    ;
    let cell: i64 = (START_OFFSET * ((w as i64) + 1)) / scale;
    proof {
        assert(crate::grid::ints(heights@).len() == heights@.len());
        if 0 <= cell < heights@.len() {
            assert(terrain@.height[cell as int] == heights@[cell as int]);
        }
    }
    if cell as u64 >= heights.len() as u64 {
        return None;
    }
    let ground: i64 = heights[cell as usize];
    let along: i64 = (START_OFFSET * ONE) / scale;
    Some(
        Vec3 {
            x: along - ((w as i64) * scale) / 2,
            y: ground + START_LIFT,
            z: along - ((d as i64) * scale) / 2,
        },
    )
}

} // verus!
