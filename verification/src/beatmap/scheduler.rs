//! What happens to a beatmap in one tick of play: circles whose time is up
//! expire as misses, hit objects that are due are put into the world, clicks
//! are judged against the oldest circle, and the circles that remain age.

use vstd::prelude::*;
use crate::beatmap::{Beatmap, BeatmapData, BeatmapStateView, HpDrainRate, FULL_HEALTH};
use crate::hit_score::HitScore;
use crate::hitcircle::{ConstructionError, Hitcircle, Ray};
use crate::osu::Screen;

verus! {

/// A click of a player: who clicked, and where they aimed.
#[derive(Clone, Copy, Debug)]
pub struct Click {
    pub source: u64,
    pub ray: Ray,
}

/// What a tick of play is given: the tick rate, the playback position of the
/// music in microseconds, how many of the oldest circles have gone from the
/// world without a judgement, and the clicks since the last tick.
#[derive(Debug)]
pub struct PlayInput {
    pub tps: usize,
    pub play_time: u64,
    pub lost_heads: usize,
    pub clicks: Vec<Click>,
}

/// What happened to a hit circle during a tick, for whoever draws the world.
#[derive(Clone, Copy, Debug)]
pub enum PlayEvent {
    /// The circle's time was up, or it had gone from the world: a miss.
    Expired(Hitcircle),
    /// The circle was put into the world.
    Spawned(Hitcircle),
    /// No circle could be made for the hit object with index `handle`; it is
    /// left out and never judged.
    Skipped { handle: usize, error: ConstructionError },
    /// The click of `source` was judged against the circle, which leaves the
    /// world.
    Judged { circle: Hitcircle, score: HitScore, source: u64 },
}

/// How an attempt ends.
#[derive(Clone, Copy, Debug, PartialEq, Eq, Structural)]
pub enum Outcome {
    /// Health ran out.
    Failed,
    /// Every hit object was dealt with and the music is over.
    Finished,
}

/// Whether the hit object at the cursor `next` is due at `play_time`
/// (microseconds): it is to be hit no later than the spawn lead time from now.
pub open spec fn due(data: BeatmapData, next: nat, play_time: nat) -> bool {
    &&& next < data.hit_objects@.len()
    &&& play_time + data.ar.lookahead_micros() >= data.hit_objects@[next as int].time() * 1000
}

/// The circle for hit object `index`, drawn on `screen` and timed at `tps`
/// ticks per second, or why there is none.
pub open spec fn materialized(
    data: BeatmapData,
    depths: Seq<i32>,
    screen: Screen,
    tps: usize,
    index: nat,
) -> Result<Hitcircle, ConstructionError> {
    let object = data.hit_objects@[index as int];
    match screen.center_spec(&object, depths[index as int] as int) {
        Some(center) => Hitcircle::from_beatmap_spec(
            index as usize,
            center,
            &data,
            object.color(),
            screen.scale,
            object.combo_number(),
            tps,
        ),
        None => Err(ConstructionError::OutOfWorld),
    }
}

/// Whether the oldest of the circles in `active` expires: there is one, and
/// it has gone from the world or has no tick left.
pub open spec fn head_expires(active: Seq<Hitcircle>, lost: nat) -> bool {
    active.len() > 0 && (lost > 0 || active[0].ticks() == 0)
}

/// One less than `n`, and 0 for 0.
pub open spec fn pred(n: nat) -> nat {
    if n > 0 {
        (n - 1) as nat
    } else {
        0
    }
}

/// The events of the circles that expire, oldest first.
pub open spec fn expiry_events(active: Seq<Hitcircle>, lost: nat) -> Seq<PlayEvent>
    decreases active.len(),
{
    if head_expires(active, lost) {
        seq![PlayEvent::Expired(active[0])] + expiry_events(active.skip(1), pred(lost))
    } else {
        Seq::empty()
    }
}

/// The events of the hit objects that are put into the world or left out,
/// from the cursor `next` on.
pub open spec fn spawn_events(
    data: BeatmapData,
    depths: Seq<i32>,
    screen: Screen,
    tps: usize,
    play_time: nat,
    next: nat,
) -> Seq<PlayEvent>
    decreases data.hit_objects@.len() - next,
{
    if due(data, next, play_time) {
        let event = match materialized(data, depths, screen, tps, next) {
            Ok(circle) => PlayEvent::Spawned(circle),
            Err(error) => PlayEvent::Skipped { handle: next as usize, error },
        };
        seq![event] + spawn_events(data, depths, screen, tps, play_time, next + 1)
    } else {
        Seq::empty()
    }
}

/// The judgement that `click` earns on `circle`, if its aim is on it.
pub open spec fn click_judgement(circle: Hitcircle, click: Click) -> Option<HitScore> {
    circle.judgement(click.ray.meets(circle.center(), circle.radius() as int))
}

/// The events of the clicks that are judged. Each click is held against the
/// circle that is the oldest when its turn comes.
pub open spec fn judge_events(active: Seq<Hitcircle>, clicks: Seq<Click>) -> Seq<PlayEvent>
    decreases clicks.len(),
{
    if clicks.len() == 0 {
        Seq::empty()
    } else if active.len() == 0 {
        judge_events(active, clicks.skip(1))
    } else {
        match click_judgement(active[0], clicks[0]) {
            Some(score) => seq![
                PlayEvent::Judged { circle: active[0], score, source: clicks[0].source },
            ] + judge_events(active.skip(1), clicks.skip(1)),
            None => judge_events(active, clicks.skip(1)),
        }
    }
}

impl BeatmapStateView {
    /// The totals after the oldest circle was judged: the judgement is scored
    /// and the circle leaves the queue.
    pub open spec fn resolved(
        self,
        hp: HpDrainRate,
        hit: HitScore,
        difficulty_multiplier: int,
    ) -> BeatmapStateView {
        BeatmapStateView {
            active: self.active.skip(1),
            ..self.scored(hp, hit, difficulty_multiplier)
        }
    }

    /// The totals after every circle that expires was taken as a miss: first
    /// the `lost` oldest, which have gone from the world, then the oldest as
    /// long as it has no tick left.
    pub open spec fn expired(self, hp: HpDrainRate, lost: nat) -> BeatmapStateView
        decreases self.active.len(),
    {
        if head_expires(self.active, lost) {
            self.resolved(hp, HitScore::Miss, 0).expired(hp, pred(lost))
        } else {
            self
        }
    }

    /// The totals after every hit object that is due was put into the world,
    /// or left out where no circle can be made for it. The cursor moves past
    /// each of them, in order.
    pub open spec fn spawned(
        self,
        data: BeatmapData,
        depths: Seq<i32>,
        screen: Screen,
        tps: usize,
        play_time: nat,
    ) -> BeatmapStateView
        decreases data.hit_objects@.len() - self.next,
    {
        if due(data, self.next, play_time) {
            let active = match materialized(data, depths, screen, tps, self.next) {
                Ok(circle) => self.active.push(circle),
                Err(_) => self.active,
            };
            BeatmapStateView { next: self.next + 1, active, ..self }.spawned(
                data,
                depths,
                screen,
                tps,
                play_time,
            )
        } else {
            self
        }
    }

    /// The totals after one click: where its aim is on the oldest circle, that
    /// circle is judged by the ticks it has left; else nothing changes.
    pub open spec fn clicked(
        self,
        hp: HpDrainRate,
        difficulty_multiplier: int,
        click: Click,
    ) -> BeatmapStateView {
        if self.active.len() == 0 {
            self
        } else {
            match click_judgement(self.active[0], click) {
                Some(hit) => self.resolved(hp, hit, difficulty_multiplier),
                None => self,
            }
        }
    }

    /// The totals after a run of clicks, each in its turn.
    pub open spec fn judged_all(
        self,
        hp: HpDrainRate,
        difficulty_multiplier: int,
        clicks: Seq<Click>,
    ) -> BeatmapStateView
        decreases clicks.len(),
    {
        if clicks.len() == 0 {
            self
        } else {
            self.clicked(hp, difficulty_multiplier, clicks[0]).judged_all(
                hp,
                difficulty_multiplier,
                clicks.skip(1),
            )
        }
    }

    /// The totals with every waiting circle one tick older.
    pub open spec fn aged(self) -> BeatmapStateView {
        BeatmapStateView {
            active: Seq::new(self.active.len(), |i: int| self.active[i].aged()),
            ..self
        }
    }

    /// The totals after a whole tick of play at playback position
    /// `play_time`: circles expire, hit objects spawn, clicks are judged, and
    /// what is left ages, in this order.
    pub open spec fn ticked(
        self,
        data: BeatmapData,
        depths: Seq<i32>,
        screen: Screen,
        input: PlayInput,
    ) -> BeatmapStateView {
        BeatmapStateView { play_time: input.play_time as nat, ..self }.expired(
            data.hp,
            input.lost_heads as nat,
        ).spawned(data, depths, screen, input.tps, input.play_time as nat).judged_all(
            data.hp,
            data.difficulty_multiplier_spec(),
            input.clicks@,
        ).aged()
    }

    /// How the attempt ends, if it ends now: in failure where health has run
    /// out; else in a result where nothing waits, nothing is left to spawn
    /// and the music is over.
    pub open spec fn outcome(self, objects: nat, music_finished: bool) -> Option<Outcome> {
        if self.health == 0 {
            Some(Outcome::Failed)
        } else if self.active.len() == 0 && self.next >= objects && music_finished {
            Some(Outcome::Finished)
        } else {
            None
        }
    }
}

impl BeatmapStateView {
    /// Expiry takes circles from the front of the queue and leaves the cursor
    /// where it is.
    pub proof fn lemma_expired_keeps_cursor(self, hp: HpDrainRate, lost: nat)
        ensures
            self.expired(hp, lost).next == self.next,
            self.expired(hp, lost).active.len() <= self.active.len(),
        decreases self.active.len(),
    {
        if head_expires(self.active, lost) {
            self.resolved(hp, HitScore::Miss, 0).lemma_expired_keeps_cursor(hp, pred(lost));
        }
    }

    /// Spawning only ever moves the cursor forward, and never past the last
    /// hit object: no hit object is put into the world twice, and none out of
    /// its turn.
    pub proof fn lemma_spawned_moves_cursor_forward(
        self,
        data: BeatmapData,
        depths: Seq<i32>,
        screen: Screen,
        tps: usize,
        play_time: nat,
    )
        requires
            self.next <= data.hit_objects@.len(),
        ensures
            self.next <= self.spawned(data, depths, screen, tps, play_time).next
                <= data.hit_objects@.len(),
            !due(data, self.spawned(data, depths, screen, tps, play_time).next, play_time),
        decreases data.hit_objects@.len() - self.next,
    {
        if due(data, self.next, play_time) {
            let active = match materialized(data, depths, screen, tps, self.next) {
                Ok(circle) => self.active.push(circle),
                Err(_) => self.active,
            };
            (BeatmapStateView {
                next: self.next + 1,
                active,
                ..self
            }).lemma_spawned_moves_cursor_forward(data, depths, screen, tps, play_time);
        }
    }

    /// Judging clicks leaves the cursor where it is.
    pub proof fn lemma_judged_keeps_cursor(
        self,
        hp: HpDrainRate,
        difficulty_multiplier: int,
        clicks: Seq<Click>,
    )
        ensures
            self.judged_all(hp, difficulty_multiplier, clicks).next == self.next,
        decreases clicks.len(),
    {
        if clicks.len() > 0 {
            self.clicked(hp, difficulty_multiplier, clicks[0]).lemma_judged_keeps_cursor(
                hp,
                difficulty_multiplier,
                clicks.skip(1),
            );
        }
    }

    /// Over a whole tick the cursor never goes back, and after the tick no hit
    /// object is left that was due at the tick's playback position.
    pub proof fn lemma_ticked_moves_cursor_forward(
        self,
        data: BeatmapData,
        depths: Seq<i32>,
        screen: Screen,
        input: PlayInput,
    )
        requires
            self.next <= data.hit_objects@.len(),
        ensures
            self.next <= self.ticked(data, depths, screen, input).next <= data.hit_objects@.len(),
            !due(data, self.ticked(data, depths, screen, input).next, input.play_time as nat),
    {
        let start = BeatmapStateView { play_time: input.play_time as nat, ..self };
        start.lemma_expired_keeps_cursor(data.hp, input.lost_heads as nat);
        let after_expiry = start.expired(data.hp, input.lost_heads as nat);
        after_expiry.lemma_spawned_moves_cursor_forward(
            data,
            depths,
            screen,
            input.tps,
            input.play_time as nat,
        );
        let after_spawn = after_expiry.spawned(
            data,
            depths,
            screen,
            input.tps,
            input.play_time as nat,
        );
        after_spawn.lemma_judged_keeps_cursor(
            data.hp,
            data.difficulty_multiplier_spec(),
            input.clicks@,
        );
    }
}

/// The events of a whole tick, in the order in which they happen.
pub open spec fn tick_events(
    state: BeatmapStateView,
    data: BeatmapData,
    depths: Seq<i32>,
    screen: Screen,
    input: PlayInput,
) -> Seq<PlayEvent> {
    let start = BeatmapStateView { play_time: input.play_time as nat, ..state };
    let after_expiry = start.expired(data.hp, input.lost_heads as nat);
    let after_spawn = after_expiry.spawned(
        data,
        depths,
        screen,
        input.tps,
        input.play_time as nat,
    );
    expiry_events(state.active, input.lost_heads as nat) + spawn_events(
        data,
        depths,
        screen,
        input.tps,
        input.play_time as nat,
        after_expiry.next,
    ) + judge_events(after_spawn.active, input.clicks@)
}

impl Beatmap {
    /// Whether this beatmap is `before` after some play: the same hit objects
    /// and depths.
    pub open spec fn continues(&self, before: &Beatmap) -> bool {
        &&& self.data_spec() == before.data_spec()
        &&& self.depths_spec() == before.depths_spec()
    }

    /// Takes every circle that expires as a miss.
    pub fn expire(&mut self, lost_heads: usize, events: &mut Vec<PlayEvent>)
        requires
            old(self).wf(),
        ensures
            final(self).wf(),
            final(self).continues(old(self)),
            final(self).state_spec()@ == old(self).state_spec()@.expired(
                old(self).data_spec().hp,
                lost_heads as nat,
            ),
            final(events)@ == old(events)@ + expiry_events(
                old(self).state_spec()@.active,
                lost_heads as nat,
            ),
    {
        let ghost before = self.state@;
        let ghost events_before = events@;
        let ghost hp = self.data.hp;
        let mut lost: usize = lost_heads;
        assert(events@ + expiry_events(self.state@.active, lost as nat) =~= events_before
            + expiry_events(before.active, lost_heads as nat));
        while self.head_expires_now(lost)
            invariant
                self.wf(),
                self.continues(old(self)),
                hp == self.data.hp,
                self.state@.expired(hp, lost as nat) == before.expired(hp, lost_heads as nat),
                events@ + expiry_events(self.state@.active, lost as nat) == events_before
                    + expiry_events(before.active, lost_heads as nat),
            decreases self.state@.active.len(),
        {
            let ghost now = self.state@;
            let ghost events_now = events@;
            let ghost lost_now = lost as nat;
            let head = self.state.active_hit_objects.pop_front().unwrap();
            self.state.apply(self.data.hp, HitScore::Miss, 0);
            events.push(PlayEvent::Expired(head));
            if lost > 0 {
                lost = lost - 1;
            }
            assert(self.state@ == now.resolved(hp, HitScore::Miss, 0));
            assert(lost as nat == pred(lost_now));
            assert(events@ + expiry_events(self.state@.active, lost as nat) =~= events_now
                + expiry_events(now.active, lost_now));
            
            assert forall|k: int| 0 <= k < self.state@.active.len() implies (
            #[trigger] self.state@.active[k]).handle() < self.state@.next by {
                assert(self.state@.active[k] == now.active[k + 1]);
            }
            assert forall|j: int, k: int| 0 <= j < k < self.state@.active.len() implies (
            #[trigger] self.state@.active[j]).handle() < (
            #[trigger] self.state@.active[k]).handle() by {
                assert(self.state@.active[j] == now.active[j + 1]);
                assert(self.state@.active[k] == now.active[k + 1]);
            }
        }
    }

    /// Whether the oldest circle expires now.
    fn head_expires_now(&self, lost: usize) -> (expires: bool)
        ensures
            expires == head_expires(self.state_spec()@.active, lost as nat),
    {
        self.state.active_hit_objects.len() > 0 && (lost > 0
            || self.state.active_hit_objects[0].ticks() == 0)
    }

    /// Whether the hit object at the cursor is due at `play_time`.
    fn next_is_due(&self, play_time: u64) -> (is_due: bool)
        requires
            self.wf(),
        ensures
            is_due == due(self.data_spec(), self.state_spec()@.next, play_time as nat),
    {
        let index: usize = self.state.next_hit_object_idx;
        if index >= self.data.hit_objects.len() {
            return false;
        }
        let lookahead: u64 = self.data.ar.to_mc_duration();
        let hit_time: u128 = (self.data.hit_objects[index].time() as u128) * 1000;
        play_time as u128 + lookahead as u128 >= hit_time
    }

    /// The circle for the hit object at the cursor, or why there is none.
    fn materialize_next(&self, screen: &Screen, tps: usize) -> (made: Result<
        Hitcircle,
        ConstructionError,
    >)
        requires
            self.wf(),
            self.state_spec()@.next < self.data_spec().hit_objects@.len(),
        ensures
            made == materialized(
                self.data_spec(),
                self.depths_spec(),
                *screen,
                tps,
                self.state_spec()@.next,
            ),
            made matches Ok(circle) ==> circle.handle() == self.state_spec()@.next,
    {
        let index: usize = self.state.next_hit_object_idx;
        let object = &self.data.hit_objects[index];
        let depth: i32 = self.depths[index];
        proof {
            broadcast use Hitcircle::lemma_assembled;

        }
        match screen.center_of(object, depth) {
            Some(center) => Hitcircle::from_beatmap(
                index,
                center,
                &self.data,
                object.color(),
                screen.scale,
                object.combo_number(),
                tps,
            ),
            None => Err(ConstructionError::OutOfWorld),
        }
    }

    /// Puts every hit object that is due at `play_time` into the world, in
    /// time order, and moves the cursor past it. A hit object for which no
    /// circle can be made is left out.
    pub fn spawn(
        &mut self,
        screen: &Screen,
        tps: usize,
        play_time: u64,
        events: &mut Vec<PlayEvent>,
    )
        requires
            old(self).wf(),
        ensures
            final(self).wf(),
            final(self).continues(old(self)),
            final(self).state_spec()@ == old(self).state_spec()@.spawned(
                old(self).data_spec(),
                old(self).depths_spec(),
                *screen,
                tps,
                play_time as nat,
            ),
            final(events)@ == old(events)@ + spawn_events(
                old(self).data_spec(),
                old(self).depths_spec(),
                *screen,
                tps,
                play_time as nat,
                old(self).state_spec()@.next,
            ),
    {
        let ghost before = self.state@;
        let ghost events_before = events@;
        let ghost data = self.data;
        let ghost depths = self.depths@;
        assert(events@ + spawn_events(data, depths, *screen, tps, play_time as nat, before.next)
            =~= events_before + spawn_events(
            data,
            depths,
            *screen,
            tps,
            play_time as nat,
            before.next,
        ));
        while self.next_is_due(play_time)
            invariant
                self.wf(),
                self.continues(old(self)),
                data == self.data,
                depths == self.depths@,
                self.state@.spawned(data, depths, *screen, tps, play_time as nat)
                    == before.spawned(data, depths, *screen, tps, play_time as nat),
                events@ + spawn_events(
                    data,
                    depths,
                    *screen,
                    tps,
                    play_time as nat,
                    self.state@.next,
                ) == events_before + spawn_events(
                    data,
                    depths,
                    *screen,
                    tps,
                    play_time as nat,
                    before.next,
                ),
            decreases self.data.hit_objects@.len() - self.state@.next,
        {
            let ghost now = self.state@;
            let ghost events_now = events@;
            let index: usize = self.state.next_hit_object_idx;
            match self.materialize_next(screen, tps) {
                Ok(circle) => {
                    self.state.active_hit_objects.push_back(circle);
                    events.push(PlayEvent::Spawned(circle));
                },
                Err(error) => {
                    events.push(PlayEvent::Skipped { handle: index, error });
                },
            }
            self.state.next_hit_object_idx = index + 1;
            assert(events@ + spawn_events(
                data,
                depths,
                *screen,
                tps,
                play_time as nat,
                self.state@.next,
            ) =~= events_now + spawn_events(data, depths, *screen, tps, play_time as nat, now.next));
        }
    }

    /// Judges each click, in its turn, against the circle that is then the
    /// oldest. A click whose aim is on that circle earns the grade of the
    /// ticks the circle has left and takes the circle out of the world; any
    /// other click changes nothing.
    pub fn judge(&mut self, clicks: &Vec<Click>, events: &mut Vec<PlayEvent>)
        requires
            old(self).wf(),
        ensures
            final(self).wf(),
            final(self).continues(old(self)),
            final(self).state_spec()@ == old(self).state_spec()@.judged_all(
                old(self).data_spec().hp,
                old(self).data_spec().difficulty_multiplier_spec(),
                clicks@,
            ),
            final(events)@ == old(events)@ + judge_events(
                old(self).state_spec()@.active,
                clicks@,
            ),
    {
        let ghost before = self.state@;
        let ghost events_before = events@;
        let ghost hp = self.data.hp;
        let multiplier: i32 = self.data.difficulty_multiplier();
        let mut i: usize = 0;
        assert(clicks@.skip(0) =~= clicks@);
        assert(events@ + judge_events(self.state@.active, clicks@.skip(0)) =~= events_before
            + judge_events(before.active, clicks@));
        while i < clicks.len()
            invariant
                i <= clicks@.len(),
                self.wf(),
                self.continues(old(self)),
                hp == self.data.hp,
                multiplier as int == self.data.difficulty_multiplier_spec(),
                self.state@.judged_all(hp, multiplier as int, clicks@.skip(i as int))
                    == before.judged_all(hp, multiplier as int, clicks@),
                events@ + judge_events(self.state@.active, clicks@.skip(i as int))
                    == events_before + judge_events(before.active, clicks@),
            decreases clicks@.len() - i,
        {
            let ghost now = self.state@;
            let ghost events_now = events@;
            let click = clicks[i];
            assert(clicks@.skip(i as int)[0] == click);
            assert(clicks@.skip(i as int).skip(1) =~= clicks@.skip(i + 1));
            if self.state.active_hit_objects.len() > 0 {
                let head = self.state.active_hit_objects[0];
                match head.hit_score(&click.ray) {
                    Some(score) => {
                        self.state.active_hit_objects.pop_front();
                        self.state.apply(self.data.hp, score, multiplier);
                        events.push(PlayEvent::Judged { circle: head, score, source: click.source });
                        assert(self.state@ == now.resolved(hp, score, multiplier as int));
                        assert forall|k: int| 0 <= k < self.state@.active.len() implies (
                        #[trigger] self.state@.active[k]).handle() < self.state@.next by {
                            assert(self.state@.active[k] == now.active[k + 1]);
                        }
                        assert forall|j: int, k: int|
                            0 <= j < k < self.state@.active.len() implies (
                        #[trigger] self.state@.active[j]).handle() < (
                        #[trigger] self.state@.active[k]).handle() by {
                            assert(self.state@.active[j] == now.active[j + 1]);
                            assert(self.state@.active[k] == now.active[k + 1]);
                        }
                    },
                    None => {},
                }
            }
            i += 1;
            assert(events@ + judge_events(self.state@.active, clicks@.skip(i as int))
                =~= events_now + judge_events(now.active, clicks@.skip(i - 1)));
        }
    }

    /// Ages every waiting circle by one tick.
    pub fn age(&mut self)
        requires
            old(self).wf(),
        ensures
            final(self).wf(),
            final(self).continues(old(self)),
            final(self).state_spec()@ == old(self).state_spec()@.aged(),
    {
        let ghost before = self.state@;
        let n: usize = self.state.active_hit_objects.len();
        let mut i: usize = 0;
        while i < n
            invariant
                i <= n,
                n == before.active.len(),
                self.continues(old(self)),
                self.state@ == (BeatmapStateView { active: self.state@.active, ..before }),
                self.state@.active.len() == n,
                forall|k: int| 0 <= k < n - i ==> self.state@.active[k] == before.active[k + i],
                forall|k: int|
                    n - i <= k < n ==> self.state@.active[k] == before.active[k - (n - i)].aged(),
            decreases n - i,
        {
            let mut circle = self.state.active_hit_objects.pop_front().unwrap();
            circle.tick();
            self.state.active_hit_objects.push_back(circle);
            i += 1;
        }
        assert(self.state@.active =~= before.aged().active);
        proof {
            assert forall|k: int| 0 <= k < n implies (#[trigger] self.state@.active[k]).handle()
                == before.active[k].handle() by {
                before.active[k].lemma_aged();
            }
        }
    }

    /// Plays one tick: circles whose time is up expire as misses, the hit
    /// objects that are due at the playback position are put into the world,
    /// the clicks are judged, and the circles that remain age by one tick.
    /// Returns what happened to the circles, in order.
    pub fn tick(&mut self, screen: &Screen, input: &PlayInput) -> (events: Vec<PlayEvent>)
        requires
            old(self).wf(),
        ensures
            final(self).wf(),
            final(self).continues(old(self)),
            final(self).state_spec()@ == old(self).state_spec()@.ticked(
                old(self).data_spec(),
                old(self).depths_spec(),
                *screen,
                *input,
            ),
            events@ == tick_events(
                old(self).state_spec()@,
                old(self).data_spec(),
                old(self).depths_spec(),
                *screen,
                *input,
            ),
    {
        let mut events: Vec<PlayEvent> = Vec::new();
        self.state.play_time = input.play_time;
        self.expire(input.lost_heads, &mut events);
        self.spawn(screen, input.tps, input.play_time, &mut events);
        self.judge(&input.clicks, &mut events);
        self.age();
        assert(events@ =~= tick_events(
            old(self).state@,
            old(self).data,
            old(self).depths@,
            *screen,
            *input,
        ));
        events
    }

    /// How the attempt ends, if it ends now.
    pub fn outcome(&self, music_finished: bool) -> (outcome: Option<Outcome>)
        ensures
            outcome == self.state_spec()@.outcome(
                self.data_spec().hit_objects@.len(),
                music_finished,
            ),
    {
        if self.state.health == 0 {
            Some(Outcome::Failed)
        } else if self.state.active_hit_objects.len() == 0 && self.state.next_hit_object_idx
            >= self.data.hit_objects.len() && music_finished {
            Some(Outcome::Finished)
        } else {
            None
        }
    }
}

} // verus!
