use vstd::prelude::*;
use crate::interface::input::{ActiveCommand, InterpolationMode, Progress};

verus! {

/// What one command adds to its object's pose on one frame.
#[derive(Debug, Clone, Copy, PartialEq, Eq)]
pub struct Contribution<P> {
    /// What the command does.
    pub command: P,
    /// How much of it applies on this frame.
    pub progress: Progress,
    /// Whether the command is complete: its effect then goes into the
    /// object's lasting pose, else into the pose of this frame alone.
    pub over: bool,
}

/// What `c` adds on the frame on which it is resolved.
pub open spec fn contribution_of<P>(c: ActiveCommand<P>) -> Contribution<P> {
    Contribution {
        command: c.command,
        progress: c.interpolation.spec_progress(c.time_passed),
        over: c.spec_is_over(),
    }
}

/// What each command of `queue` adds on one frame, in queue order.
pub open spec fn contributions<P>(queue: Seq<ActiveCommand<P>>) -> Seq<Contribution<P>> {
    queue.map_values(|c: ActiveCommand<P>| contribution_of(c))
}

/// The commands of `queue` that stay in flight after a frame, in queue
/// order: those that are not complete.
pub open spec fn remaining<P>(queue: Seq<ActiveCommand<P>>) -> Seq<ActiveCommand<P>> {
    queue.filter(|c: ActiveCommand<P>| !c.spec_is_over())
}

/// `queue` with every clock moved on by `time` nanoseconds.
pub open spec fn advanced<P>(queue: Seq<ActiveCommand<P>>, time: u128) -> Seq<ActiveCommand<P>> {
    queue.map_values(|c: ActiveCommand<P>| c.after(time))
}

/// One thing in the scene: its `body` (the shape and lasting pose, which
/// this crate carries but never reads) and the commands in flight on it, in
/// the order in which they were issued.
#[derive(Clone, Debug)]
pub struct Object<B, P> {
    pub body: B,
    pub active_commands: Vec<ActiveCommand<P>>,
}

impl<B, P: Copy> Object<B, P> {
    /// An object at rest: no command in flight.
    pub fn new(body: B) -> (obj: Object<B, P>)
        ensures
            obj.body == body,
            obj.active_commands@ == Seq::<ActiveCommand<P>>::empty(),
    {
        Object { body, active_commands: Vec::new() }
    }

    /// Puts `command` at the end of the queue.
    pub fn add_command(&mut self, command: ActiveCommand<P>)
        ensures
            final(self).active_commands@ == old(self).active_commands@.push(command),
            final(self).body == old(self).body,
    {
        self.active_commands.push(command);
    }

    /// Moves the clock of every command in flight on by `time` nanoseconds.
    pub fn pass_time(&mut self, time: u128)
        ensures
            final(self).active_commands@ == advanced(old(self).active_commands@, time),
            final(self).body == old(self).body,
    {
        let n = self.active_commands.len();
        let mut i: usize = 0;
        while i < n
            invariant
                i <= n,
                n == old(self).active_commands@.len(),
                self.active_commands@.len() == n,
                self.body == old(self).body,
                forall|k: int|
                    0 <= k < i ==> self.active_commands@[k] == old(self).active_commands@[k].after(
                        time,
                    ),
                forall|k: int|
                    i <= k < n ==> self.active_commands@[k] == old(self).active_commands@[k],
            decreases n - i,
        {
            let c = self.active_commands[i];
            self.active_commands[i] = ActiveCommand {
                command: c.command,
                interpolation: c.interpolation,
                time_passed: c.time_passed.saturating_add(time),
            };
            i += 1;
        }
        assert(self.active_commands@ =~= advanced(old(self).active_commands@, time));
    }

    /// Resolves the queue for one frame: reports what every command adds, in
    /// queue order, and drops the commands that are complete.
    pub fn apply_commands(&mut self) -> (out: Vec<Contribution<P>>)
        ensures
            out@ == contributions(old(self).active_commands@),
            final(self).active_commands@ == remaining(old(self).active_commands@),
            final(self).body == old(self).body,
    {
        let n = self.active_commands.len();
        let mut out: Vec<Contribution<P>> = Vec::new();
        let mut kept: Vec<ActiveCommand<P>> = Vec::new();
        let mut i: usize = 0;
        while i < n
            invariant
                i <= n,
                n == self.active_commands@.len(),
                self.active_commands@ == old(self).active_commands@,
                self.body == old(self).body,
                out@ == contributions(self.active_commands@.subrange(0, i as int)),
                kept@ == remaining(self.active_commands@.subrange(0, i as int)),
            decreases n - i,
        {
            let c = self.active_commands[i];
            let over = c.interpolation.is_over(c.time_passed);
            proof {
                let queue = self.active_commands@;
                let next = queue.subrange(0, i as int + 1);
                assert(next.drop_last() =~= queue.subrange(0, i as int));
                assert(next.last() == c);
                reveal(Seq::filter);
                assert(contributions(next) =~= contributions(queue.subrange(0, i as int)).push(
                    contribution_of(c),
                ));
            }
            out.push(
                Contribution {
                    command: c.command,
                    progress: c.interpolation.progress(c.time_passed),
                    over,
                },
            );
            if !over {
                kept.push(c);
            }
            i += 1;
        }
        assert(self.active_commands@.subrange(0, n as int) =~= self.active_commands@);
        self.active_commands = kept;
        out
    }
}

/// A command that joins the end of a queue adds its contribution after
/// those of the queue, and stays in flight behind the others unless it is
/// complete.
pub proof fn lemma_resolve_push<P>(queue: Seq<ActiveCommand<P>>, c: ActiveCommand<P>)
    ensures
        contributions(queue.push(c)) == contributions(queue).push(contribution_of(c)),
        remaining(queue.push(c)) == if c.spec_is_over() {
            remaining(queue)
        } else {
            remaining(queue).push(c)
        },
{
    let next = queue.push(c);
    assert(next.drop_last() =~= queue);
    assert(next.last() == c);
    reveal(Seq::filter);
    assert(contributions(next) =~= contributions(queue).push(contribution_of(c)));
}

/// An instant command is applied in full on the frame on which it is
/// resolved, whatever its clock reads, and is gone from the queue after
/// that frame.
pub proof fn lemma_instant_applies_once<P>(queue: Seq<ActiveCommand<P>>, c: ActiveCommand<P>)
    requires
        c.interpolation is Instant,
    ensures
        contributions(queue.push(c)).last().command == c.command,
        contributions(queue.push(c)).last().progress.is_full(),
        contributions(queue.push(c)).last().over,
        remaining(queue.push(c)) == remaining(queue),
{
    lemma_resolve_push(queue, c);
}

/// A linear command contributes the fraction of its duration that has
/// passed, and is complete as soon as more than its duration has passed.
pub proof fn lemma_linear_progress<P>(c: ActiveCommand<P>, duration: u128)
    requires
        c.interpolation == (InterpolationMode::Linear { duration }),
    ensures
        contribution_of(c).progress == (Progress::Ratio { elapsed: c.time_passed, span: duration }),
        contribution_of(c).over <==> c.time_passed > duration,
        duration != 0 ==> contribution_of(c).progress.is_fraction(
            c.time_passed as int,
            duration as int,
        ),
{
}

/// A continuous or an oscillating command never leaves the queue by
/// itself.
pub proof fn lemma_endless_commands_stay<P>(queue: Seq<ActiveCommand<P>>, c: ActiveCommand<P>)
    requires
        c.interpolation is Continuous || c.interpolation is Oscillation,
    ensures
        !contribution_of(c).over,
        remaining(queue.push(c)) == remaining(queue).push(c),
{
    lemma_resolve_push(queue, c);
}

/// Contributions come in queue order: the one at place `i` is that of the
/// command at place `i`.
pub proof fn lemma_contributions_in_queue_order<P>(queue: Seq<ActiveCommand<P>>, i: int)
    requires
        0 <= i < queue.len(),
    ensures
        contributions(queue).len() == queue.len(),
        contributions(queue)[i] == contribution_of(queue[i]),
{
}

/// The clock of a command in flight never runs backwards, and a frame's
/// time moves it on by exactly that time as long as it can hold the sum.
pub proof fn lemma_time_passes<P>(c: ActiveCommand<P>, time: u128)
    ensures
        c.after(time).time_passed >= c.time_passed,
        c.time_passed + time <= u128::MAX ==> c.after(time).time_passed == c.time_passed + time,
        c.after(time).command == c.command,
        c.after(time).interpolation == c.interpolation,
{
}

} // verus!
