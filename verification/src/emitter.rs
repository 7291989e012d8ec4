//! Turns samples into draw commands and paces them: one command per drawn
//! sample, in sampling order, and a pause after every full batch.

use vstd::prelude::*;
use crate::codec::{Colour, Coordinate, DrawCommand};
use crate::raster::Raster;
use crate::sampler::{Sample, Sampler};
use crate::threshold::{spec_threshold, threshold, Decision};

verus! {

/// Commands sent between two pauses, unless a run is configured otherwise.
pub const DEFAULT_BATCH: u64 = 50;

/// Length of a pause in milliseconds, unless a run is configured otherwise.
pub const DEFAULT_PAUSE_MILLIS: u64 = 100;

/// The pacing policy: after every `batch` commands sent, the sender rests for
/// `pause_millis` milliseconds.
#[derive(Clone, Copy, Debug, PartialEq, Eq)]
pub struct Pacing {
    batch: u64,
    pause_millis: u64,
}

impl Pacing {
    #[verifier::type_invariant]
    spec fn batch_is_positive(self) -> bool {
        self.batch >= 1
    }

    /// Commands sent between two pauses.
    pub closed spec fn spec_batch(&self) -> int {
        self.batch as int
    }

    /// Length of a pause in milliseconds.
    pub closed spec fn spec_pause_millis(&self) -> u64 {
        self.pause_millis
    }

    /// A policy that pauses for `pause_millis` after every `batch` commands.
    /// A batch of zero is refused.
    pub fn new(batch: u64, pause_millis: u64) -> (r: Option<Pacing>)
        ensures
            r is Some <==> batch >= 1,
            r is Some ==> r->0.spec_batch() == batch && r->0.spec_pause_millis() == pause_millis,
    {
        if batch >= 1 {
            Some(Pacing { batch, pause_millis })
        } else {
            None
        }
    }

    /// The usual policy: a pause of 100 milliseconds after every 50 commands.
    pub fn standard() -> (p: Pacing)
        ensures
            p.spec_batch() == 50,
            p.spec_pause_millis() == 100,
    {
        Pacing { batch: DEFAULT_BATCH, pause_millis: DEFAULT_PAUSE_MILLIS }
    }

    /// Commands sent between two pauses.
    pub fn batch(&self) -> (b: u64)
        ensures
            b == self.spec_batch(),
            b >= 1,
    {
        proof {
            use_type_invariant(self);
        }
        self.batch
    }

    /// Length of a pause in milliseconds.
    pub fn pause_millis(&self) -> (p: u64)
        ensures
            p == self.spec_pause_millis(),
    {
        self.pause_millis
    }
}

/// One thing the sender does on the connection's behalf.
#[derive(Clone, Copy, Debug, PartialEq, Eq, Structural)]
pub enum Action {
    /// Send this command to the server.
    Send(DrawCommand),
    /// Rest for this many milliseconds.
    Pause(u64),
}

/// What the emitter asks for in answer to one sample.
#[derive(Clone, Copy, Debug, PartialEq, Eq, Structural)]
pub enum Reaction {
    /// The sample is not drawn: nothing goes over the connection.
    Skip,
    /// Send this command.
    Send(DrawCommand),
    /// Send this command, then rest for this many milliseconds.
    SendThenPause(DrawCommand, u64),
}

/// Whether a sample is drawn.
pub open spec fn is_drawn(s: Sample) -> bool {
    spec_threshold(s.value as int) == Decision::Draw
}

/// The command that draws a sample: its own coordinates, in white.
pub open spec fn command_of(s: Sample) -> DrawCommand {
    DrawCommand { at: Coordinate { x: s.x, y: s.y }, colour: Colour::White }
}

/// The samples of a grid in sampling order: row after row, left to right.
pub open spec fn row_major(grid: Seq<Seq<Sample>>) -> Seq<Sample>
    decreases grid.len(),
{
    if grid.len() == 0 {
        Seq::empty()
    } else {
        row_major(grid.drop_last()) + grid.last()
    }
}

/// How many of the samples are drawn.
pub open spec fn drawn_count(samples: Seq<Sample>) -> nat
    decreases samples.len(),
{
    if samples.len() == 0 {
        0
    } else {
        drawn_count(samples.drop_last()) + if is_drawn(samples.last()) {
            1nat
        } else {
            0nat
        }
    }
}

/// The commands of the drawn samples, in the order of the samples.
pub open spec fn commands(samples: Seq<Sample>) -> Seq<DrawCommand>
    decreases samples.len(),
{
    if samples.len() == 0 {
        Seq::empty()
    } else if is_drawn(samples.last()) {
        commands(samples.drop_last()).push(command_of(samples.last()))
    } else {
        commands(samples.drop_last())
    }
}

/// What sending the `nth` command of a run (counted from 1) amounts to: the
/// send itself and, when `nth` completes a batch, a pause.
pub open spec fn sending(cmd: DrawCommand, nth: int, batch: int, pause_millis: u64) -> Seq<Action> {
    if nth % batch == 0 {
        seq![Action::Send(cmd), Action::Pause(pause_millis)]
    } else {
        seq![Action::Send(cmd)]
    }
}

/// The actions that transmit `cmds` in order when `sent` commands have gone
/// out before them.
pub open spec fn schedule(cmds: Seq<DrawCommand>, sent: int, batch: int, pause_millis: u64) -> Seq<
    Action,
>
    decreases cmds.len(),
{
    if cmds.len() == 0 {
        Seq::empty()
    } else {
        schedule(cmds.drop_last(), sent, batch, pause_millis) + sending(
            cmds.last(),
            sent + cmds.len(),
            batch,
            pause_millis,
        )
    }
}

/// The actions a reaction stands for.
pub open spec fn reaction_actions(r: Reaction) -> Seq<Action> {
    match r {
        Reaction::Skip => Seq::empty(),
        Reaction::Send(cmd) => seq![Action::Send(cmd)],
        Reaction::SendThenPause(cmd, millis) => seq![Action::Send(cmd), Action::Pause(millis)],
    }
}

/// The emitter's answer to a sample when `sent` commands have gone out.
pub open spec fn reaction_to(s: Sample, sent: int, batch: int, pause_millis: u64) -> Reaction {
    if !is_drawn(s) {
        Reaction::Skip
    } else if (sent + 1) % batch == 0 {
        Reaction::SendThenPause(command_of(s), pause_millis)
    } else {
        Reaction::Send(command_of(s))
    }
}

/// The whole transmission of a grid under a pacing policy, from a fresh
/// emitter.
pub open spec fn transmission(grid: Seq<Seq<Sample>>, batch: int, pause_millis: u64) -> Seq<Action> {
    schedule(commands(row_major(grid)), 0, batch, pause_millis)
}

/// Drives samples through the thresholder, counting the commands sent so far
/// in the run.
#[derive(Clone, Copy, Debug, PartialEq, Eq)]
pub struct Emitter {
    pacing: Pacing,
    sent: u64,
}

impl Emitter {
    /// The pacing policy of this emitter.
    pub closed spec fn spec_pacing(&self) -> Pacing {
        self.pacing
    }

    /// How many commands this emitter has asked to send so far.
    pub closed spec fn spec_sent(&self) -> int {
        self.sent as int
    }

    /// A fresh emitter: nothing sent yet.
    pub fn new(pacing: Pacing) -> (e: Emitter)
        ensures
            e.spec_pacing() == pacing,
            e.spec_sent() == 0,
    {
        Emitter { pacing, sent: 0 }
    }

    /// How many commands this emitter has asked to send so far.
    pub fn sent(&self) -> (n: u64)
        ensures
            n == self.spec_sent(),
    {
        self.sent
    }

    /// The pacing policy of this emitter.
    pub fn pacing(&self) -> (p: Pacing)
        ensures
            p == self.spec_pacing(),
    {
        self.pacing
    }

    /// Takes the next sample of the run. A drawn sample counts as sent and is
    /// answered by its command, with a pause when it completes a batch; a
    /// skipped sample changes nothing.
    pub fn observe(&mut self, sample: Sample) -> (r: Reaction)
        requires
            old(self).spec_sent() < u64::MAX,
        ensures
            r == reaction_to(
                sample,
                old(self).spec_sent(),
                old(self).spec_pacing().spec_batch(),
                old(self).spec_pacing().spec_pause_millis(),
            ),
            final(self).spec_pacing() == old(self).spec_pacing(),
            final(self).spec_sent() == old(self).spec_sent() + if is_drawn(sample) {
                1int
            } else {
                0int
            },
    {
        match threshold(sample.value) {
            Decision::Skip => Reaction::Skip,
            Decision::Draw => {
                let cmd = DrawCommand {
                    at: Coordinate { x: sample.x, y: sample.y },
                    colour: Colour::White,
                };
                self.sent = self.sent + 1;
                let batch: u64 = self.pacing.batch();
                if self.sent % batch == 0 {
                    Reaction::SendThenPause(cmd, self.pacing.pause_millis())
                } else {
                    Reaction::Send(cmd)
                }
            },
        }
    }

    /// Takes one row of samples, left to right, and returns what is to be done
    /// for it: the commands of its drawn samples in order, each followed by a
    /// pause where it completes a batch.
    pub fn emit_row(&mut self, row: &Vec<Sample>) -> (actions: Vec<Action>)
        requires
            old(self).spec_sent() + row@.len() <= u64::MAX,
        ensures
            actions@ == schedule(
                commands(row@),
                old(self).spec_sent(),
                old(self).spec_pacing().spec_batch(),
                old(self).spec_pacing().spec_pause_millis(),
            ),
            final(self).spec_pacing() == old(self).spec_pacing(),
            final(self).spec_sent() == old(self).spec_sent() + drawn_count(row@),
    {
        let ghost start = self.spec_sent();
        let ghost batch = self.spec_pacing().spec_batch();
        let ghost millis = self.spec_pacing().spec_pause_millis();
        let mut actions: Vec<Action> = Vec::new();
        let mut i: usize = 0;
        proof {
            assert(row@.take(0) =~= Seq::<Sample>::empty());
        }
        while i < row.len()
            invariant
                i <= row@.len(),
                start + row@.len() <= u64::MAX,
                self.spec_pacing() == old(self).spec_pacing(),
                batch == self.spec_pacing().spec_batch(),
                millis == self.spec_pacing().spec_pause_millis(),
                self.spec_sent() == start + drawn_count(row@.take(i as int)),
                drawn_count(row@.take(i as int)) <= i,
                commands(row@.take(i as int)).len() == drawn_count(row@.take(i as int)),
                actions@ == schedule(commands(row@.take(i as int)), start, batch, millis),
            decreases row@.len() - i,
        {
            let sample = row[i];
            proof {
                assert(row@.take(i + 1).drop_last() =~= row@.take(i as int));
                assert(row@.take(i + 1).last() == sample);
                if is_drawn(sample) {
                    assert(commands(row@.take(i + 1)).drop_last() =~= commands(row@.take(i as int)));
                }
            }
            match self.observe(sample) {
                Reaction::Skip => {},
                Reaction::Send(cmd) => {
                    actions.push(Action::Send(cmd));
                },
                Reaction::SendThenPause(cmd, pause) => {
                    actions.push(Action::Send(cmd));
                    actions.push(Action::Pause(pause));
                },
            }
            i = i + 1;
            proof {
                assert(actions@ =~= schedule(commands(row@.take(i as int)), start, batch, millis));
            }
        }
        proof {
            assert(row@.take(i as int) =~= row@);
        }
        actions
    }
}

/// The whole transmission of an image: every sample of its output grid, in
/// sampling order, through a fresh emitter with the given pacing policy.
pub fn transmit(sampler: &Sampler, img: &Raster, pacing: Pacing) -> (actions: Vec<Action>)
    ensures
        actions@ == transmission(
            sampler.spec_grid(img),
            pacing.spec_batch(),
            pacing.spec_pause_millis(),
        ),
{
    let ghost grid = sampler.spec_grid(img);
    let ghost batch = pacing.spec_batch();
    let ghost millis = pacing.spec_pause_millis();
    let rows: u32 = sampler.rows(img);
    let columns: u32 = sampler.columns(img);
    let mut emitter = Emitter::new(pacing);
    let mut actions: Vec<Action> = Vec::new();
    let mut y: u32 = 0;
    proof {
        assert(grid.take(0) =~= Seq::<Seq<Sample>>::empty());
    }
    while y < rows
        invariant
            y <= rows,
            rows == sampler.spec_rows(img),
            rows == grid.len(),
            columns == sampler.spec_columns(img),
            grid == sampler.spec_grid(img),
            emitter.spec_pacing() == pacing,
            batch == pacing.spec_batch(),
            millis == pacing.spec_pause_millis(),
            emitter.spec_sent() == drawn_count(row_major(grid.take(y as int))),
            actions@ == schedule(commands(row_major(grid.take(y as int))), 0, batch, millis),
        decreases rows - y,
    {
        let row = sampler.row(img, y);
        proof {
            let before = row_major(grid.take(y as int));
            assert forall|r: int| 0 <= r < grid.take(y as int).len() implies (
            #[trigger] grid.take(y as int)[r]).len() == columns by {}
            lemma_row_major_len(grid.take(y as int), columns as nat);
            lemma_commands_count(before);
            assert(y * columns + columns <= u64::MAX) by (nonlinear_arith)
                requires
                    y < 0x1_0000_0000,
                    columns < 0x1_0000_0000,
            ;
            lemma_row_major_take(grid, y as int);
            lemma_commands_concat(before, grid[y as int]);
            lemma_schedule_concat(commands(before), commands(grid[y as int]), 0, batch, millis);
        }
        let mut more = emitter.emit_row(&row);
        actions.append(&mut more);
        y = y + 1;
    }
    proof {
        assert(grid.take(y as int) =~= grid);
    }
    actions
}

/// Sampling order is row by row: the first `r + 1` rows are the first `r`
/// rows followed by row `r`.
pub proof fn lemma_row_major_take(grid: Seq<Seq<Sample>>, r: int)
    requires
        0 <= r < grid.len(),
    ensures
        row_major(grid.take(r + 1)) == row_major(grid.take(r)) + grid[r],
{
    assert(grid.take(r + 1).drop_last() =~= grid.take(r));
    assert(grid.take(r + 1).last() == grid[r]);
}

/// A grid whose rows all have `columns` samples has `rows * columns` samples.
pub proof fn lemma_row_major_len(grid: Seq<Seq<Sample>>, columns: nat)
    requires
        forall|r: int| 0 <= r < grid.len() ==> (#[trigger] grid[r]).len() == columns,
    ensures
        row_major(grid).len() == grid.len() * columns,
    decreases grid.len(),
{
    if grid.len() > 0 {
        lemma_row_major_len(grid.drop_last(), columns);
        assert(grid.len() * columns == (grid.len() - 1) * columns + columns) by (nonlinear_arith);
    } else {
        assert(grid.len() * columns == 0) by (nonlinear_arith)
            requires
                grid.len() == 0,
        ;
    }
}

/// Commands are taken sample by sample: those of two runs of samples laid end
/// to end are those of the first followed by those of the second.
pub proof fn lemma_commands_concat(a: Seq<Sample>, b: Seq<Sample>)
    ensures
        commands(a + b) == commands(a) + commands(b),
        drawn_count(a + b) == drawn_count(a) + drawn_count(b),
    decreases b.len(),
{
    if b.len() == 0 {
        assert(a + b =~= a);
        assert(commands(a) + commands(b) =~= commands(a));
    } else {
        assert((a + b).drop_last() =~= a + b.drop_last());
        assert((a + b).last() == b.last());
        lemma_commands_concat(a, b.drop_last());
        assert(commands(a + b) =~= commands(a) + commands(b));
    }
}

/// There is one command for each drawn sample, and no more.
pub proof fn lemma_commands_count(samples: Seq<Sample>)
    ensures
        commands(samples).len() == drawn_count(samples),
        drawn_count(samples) <= samples.len(),
    decreases samples.len(),
{
    if samples.len() > 0 {
        lemma_commands_count(samples.drop_last());
    }
}

/// Scheduling is incremental: the schedule of two runs of commands laid end to
/// end is the schedule of the first, followed by that of the second with the
/// count of the first carried over.
pub proof fn lemma_schedule_concat(
    first: Seq<DrawCommand>,
    second: Seq<DrawCommand>,
    sent: int,
    batch: int,
    pause_millis: u64,
)
    ensures
        schedule(first + second, sent, batch, pause_millis) == schedule(
            first,
            sent,
            batch,
            pause_millis,
        ) + schedule(second, sent + first.len(), batch, pause_millis),
    decreases second.len(),
{
    if second.len() == 0 {
        assert(first + second =~= first);
        assert(schedule(first, sent, batch, pause_millis) + Seq::<Action>::empty() =~= schedule(
            first,
            sent,
            batch,
            pause_millis,
        ));
    } else {
        assert((first + second).drop_last() =~= first + second.drop_last());
        assert((first + second).last() == second.last());
        lemma_schedule_concat(first, second.drop_last(), sent, batch, pause_millis);
        assert(schedule(first + second, sent, batch, pause_millis) =~= schedule(
            first,
            sent,
            batch,
            pause_millis,
        ) + schedule(second, sent + first.len(), batch, pause_millis));
    }
}

/// The commands that a run of actions sends, in order.
pub open spec fn sends(actions: Seq<Action>) -> Seq<DrawCommand>
    decreases actions.len(),
{
    if actions.len() == 0 {
        Seq::empty()
    } else {
        match actions.last() {
            Action::Send(cmd) => sends(actions.drop_last()).push(cmd),
            Action::Pause(_) => sends(actions.drop_last()),
        }
    }
}

/// The commands sent by two runs of actions laid end to end are those of the
/// first followed by those of the second.
pub proof fn lemma_sends_concat(a: Seq<Action>, b: Seq<Action>)
    ensures
        sends(a + b) == sends(a) + sends(b),
    decreases b.len(),
{
    if b.len() == 0 {
        assert(a + b =~= a);
        assert(sends(a) + sends(b) =~= sends(a));
    } else {
        assert((a + b).drop_last() =~= a + b.drop_last());
        assert((a + b).last() == b.last());
        lemma_sends_concat(a, b.drop_last());
        assert(sends(a + b) =~= sends(a) + sends(b));
    }
}

/// A schedule sends exactly the commands it was made for, in their order,
/// whatever the pacing.
pub proof fn lemma_schedule_sends(cmds: Seq<DrawCommand>, sent: int, batch: int, pause_millis: u64)
    ensures
        sends(schedule(cmds, sent, batch, pause_millis)) == cmds,
    decreases cmds.len(),
{
    if cmds.len() > 0 {
        let before = schedule(cmds.drop_last(), sent, batch, pause_millis);
        let step = sending(cmds.last(), sent + cmds.len(), batch, pause_millis);
        lemma_schedule_sends(cmds.drop_last(), sent, batch, pause_millis);
        lemma_sends_concat(before, step);
        assert(sends(step) =~= seq![cmds.last()]) by {
            let one = seq![Action::Send(cmds.last())];
            assert(one.drop_last() =~= Seq::<Action>::empty());
            assert(sends(Seq::<Action>::empty()) =~= Seq::<DrawCommand>::empty());
            assert(one.last() == Action::Send(cmds.last()));
            assert(sends(one) =~= seq![cmds.last()]);
            if step.len() == 2 {
                assert(step.drop_last() =~= one);
            }
        }
        assert(cmds.drop_last() + seq![cmds.last()] =~= cmds);
    }
}

/// The number of commands sent for a grid equals the number of its samples
/// that the thresholder decides to draw, and the commands are those samples'
/// coordinates in sampling order.
pub proof fn lemma_one_send_per_drawn_sample(grid: Seq<Seq<Sample>>, batch: int, pause_millis: u64)
    ensures
        sends(transmission(grid, batch, pause_millis)) == commands(row_major(grid)),
        sends(transmission(grid, batch, pause_millis)).len() == drawn_count(row_major(grid)),
{
    lemma_schedule_sends(commands(row_major(grid)), 0, batch, pause_millis);
    lemma_commands_count(row_major(grid));
}

/// Whether every pause in `actions`, begun when `sent` commands had gone out,
/// lasts `pause_millis` and directly follows a send that brought the count of
/// commands to a multiple of `batch`.
pub open spec fn pauses_only_after_full_batches(
    actions: Seq<Action>,
    sent: int,
    batch: int,
    pause_millis: u64,
) -> bool {
    forall|i: int|
        0 <= i < actions.len() && (#[trigger] actions[i]) is Pause ==> {
            &&& actions[i] == Action::Pause(pause_millis)
            &&& i > 0
            &&& actions[i - 1] is Send
            &&& (sent + sends(actions.take(i)).len()) % batch == 0
        }
}

/// Whether every send in `actions`, begun when `sent` commands had gone out,
/// that brings the count of commands to a multiple of `batch` is directly
/// followed by a pause of `pause_millis`.
pub open spec fn pauses_after_all_full_batches(
    actions: Seq<Action>,
    sent: int,
    batch: int,
    pause_millis: u64,
) -> bool {
    forall|i: int|
        0 <= i < actions.len() && (#[trigger] actions[i]) is Send && (sent + sends(
            actions.take(i + 1),
        ).len()) % batch == 0 ==> i + 1 < actions.len() && actions[i + 1] == Action::Pause(
            pause_millis,
        )
}

/// Whether `actions`, begun when `sent` commands had gone out, pause exactly
/// after each send that brings the count of commands to a multiple of `batch`:
/// every such send is directly followed by a pause of `pause_millis`, and
/// every pause directly follows such a send.
pub open spec fn paced(actions: Seq<Action>, sent: int, batch: int, pause_millis: u64) -> bool {
    &&& pauses_only_after_full_batches(actions, sent, batch, pause_millis)
    &&& pauses_after_all_full_batches(actions, sent, batch, pause_millis)
}

/// How the schedule of one more command extends the schedule of those before
/// it: what was scheduled stays as it was, the new command is sent next, and a
/// pause follows exactly when the command completes a batch.
pub proof fn lemma_schedule_grows(cmds: Seq<DrawCommand>, sent: int, batch: int, pause_millis: u64)
    requires
        cmds.len() > 0,
    ensures
        ({
            let before = schedule(cmds.drop_last(), sent, batch, pause_millis);
            let all = schedule(cmds, sent, batch, pause_millis);
            let n = before.len() as int;
            &&& all.len() == n + if (sent + cmds.len()) % batch == 0 {
                2int
            } else {
                1int
            }
            &&& all.take(n) == before
            &&& all[n] == Action::Send(cmds.last())
            &&& (sent + cmds.len()) % batch == 0 ==> all[n + 1] == Action::Pause(pause_millis)
            &&& sends(all.take(n)).len() == cmds.len() - 1
            &&& sends(all.take(n + 1)).len() == cmds.len()
        }),
{
    let before = schedule(cmds.drop_last(), sent, batch, pause_millis);
    let all = schedule(cmds, sent, batch, pause_millis);
    let n = before.len() as int;
    let sending_last = Action::Send(cmds.last());
    lemma_schedule_sends(cmds.drop_last(), sent, batch, pause_millis);
    assert(all.take(n) =~= before);
    assert(all.take(n + 1) =~= before.push(sending_last));
    assert(before.push(sending_last).drop_last() =~= before);
    assert(before.push(sending_last).last() == sending_last);
    assert(sends(all.take(n + 1)) =~= cmds.drop_last().push(cmds.last()));
}

/// Below the length of a prefix, a run of actions and its prefix agree, item
/// by item and prefix by prefix.
pub proof fn lemma_prefix_agrees(all: Seq<Action>, n: int, k: int)
    requires
        0 <= k <= n <= all.len(),
    ensures
        all.take(n).take(k) == all.take(k),
        k < n ==> all.take(n)[k] == all[k],
{
    assert(all.take(n).take(k) =~= all.take(k));
}

/// In a schedule, every pause lasts as long as the policy says and directly
/// follows a send that completed a batch.
pub proof fn lemma_schedule_pauses_only_after_full_batches(
    cmds: Seq<DrawCommand>,
    sent: int,
    batch: int,
    pause_millis: u64,
)
    requires
        batch >= 1,
    ensures
        pauses_only_after_full_batches(
            schedule(cmds, sent, batch, pause_millis),
            sent,
            batch,
            pause_millis,
        ),
    decreases cmds.len(),
{
    let all = schedule(cmds, sent, batch, pause_millis);
    if cmds.len() > 0 {
        let before = schedule(cmds.drop_last(), sent, batch, pause_millis);
        let n = before.len() as int;
        lemma_schedule_pauses_only_after_full_batches(cmds.drop_last(), sent, batch, pause_millis);
        lemma_schedule_grows(cmds, sent, batch, pause_millis);
        assert forall|i: int| 0 <= i < all.len() && (#[trigger] all[i]) is Pause implies {
            &&& all[i] == Action::Pause(pause_millis)
            &&& i > 0
            &&& all[i - 1] is Send
            &&& (sent + sends(all.take(i)).len()) % batch == 0
        } by {
            if i < n {
                lemma_prefix_agrees(all, n, i);
                assert(before[i] is Pause);
                lemma_prefix_agrees(all, n, i - 1);
            }
        }
    }
}

/// In a schedule, every send that completes a batch is directly followed by
/// a pause of the length the policy says.
pub proof fn lemma_schedule_pauses_after_all_full_batches(
    cmds: Seq<DrawCommand>,
    sent: int,
    batch: int,
    pause_millis: u64,
)
    requires
        batch >= 1,
    ensures
        pauses_after_all_full_batches(
            schedule(cmds, sent, batch, pause_millis),
            sent,
            batch,
            pause_millis,
        ),
    decreases cmds.len(),
{
    let all = schedule(cmds, sent, batch, pause_millis);
    if cmds.len() > 0 {
        let before = schedule(cmds.drop_last(), sent, batch, pause_millis);
        let n = before.len() as int;
        lemma_schedule_pauses_after_all_full_batches(cmds.drop_last(), sent, batch, pause_millis);
        lemma_schedule_grows(cmds, sent, batch, pause_millis);
        assert forall|i: int|
            0 <= i < all.len() && (#[trigger] all[i]) is Send && (sent + sends(
                all.take(i + 1),
            ).len()) % batch == 0 implies i + 1 < all.len() && all[i + 1] == Action::Pause(
            pause_millis,
        ) by {
            if i < n {
                lemma_prefix_agrees(all, n, i);
                lemma_prefix_agrees(all, n, i + 1);
                assert(before[i] is Send);
                assert(i + 1 < n);
            }
        }
    }
}

/// A schedule pauses immediately after every send that completes a batch, and
/// only then: with a batch of 50, the first 49 sends are followed by no
/// pause, the 50th is, and so on for every further multiple of 50.
pub proof fn lemma_schedule_is_paced(
    cmds: Seq<DrawCommand>,
    sent: int,
    batch: int,
    pause_millis: u64,
)
    requires
        batch >= 1,
    ensures
        paced(schedule(cmds, sent, batch, pause_millis), sent, batch, pause_millis),
{
    lemma_schedule_pauses_only_after_full_batches(cmds, sent, batch, pause_millis);
    lemma_schedule_pauses_after_all_full_batches(cmds, sent, batch, pause_millis);
}

/// The transmission of a whole grid pauses immediately after its 50th, 100th,
/// ... command (for a batch of 50; in general after every `batch`-th), and at
/// no other point.
pub proof fn lemma_transmission_is_paced(grid: Seq<Seq<Sample>>, batch: int, pause_millis: u64)
    requires
        batch >= 1,
    ensures
        paced(transmission(grid, batch, pause_millis), 0, batch, pause_millis),
{
    lemma_schedule_is_paced(commands(row_major(grid)), 0, batch, pause_millis);
}

} // verus!
