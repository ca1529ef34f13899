use vstd::prelude::*;

verus! {

/// One of the two bridged connections; which one was the initiator does not
/// matter once bridging starts.
#[derive(Debug, Clone, Copy, PartialEq, Eq, Structural)]
pub enum Side {
    A,
    B,
}

impl Side {
    pub open spec fn opposite(self) -> Side {
        match self {
            Side::A => Side::B,
            Side::B => Side::A,
        }
    }

    /// The other connection of the pair.
    pub fn other(self) -> (r: Side)
        ensures
            r == self.opposite(),
    {
        match self {
            Side::A => Side::B,
            Side::B => Side::A,
        }
    }
}

/// Result of reading the next frame from a connection's inbound stream.
pub enum ReadOutcome<T> {
    /// A frame, whose contents the relay never looks at.
    Frame(T),
    /// The peer ended the stream cleanly.
    End,
    /// The read failed.
    Fault,
}

/// What a forwarding loop does after a read.
pub enum LoopStep<T> {
    /// Write this frame to the opposite connection's outbound sink.
    Forward(T),
    /// The loop is over.
    Stop,
}

/// The frames that one direction passes on, given the reads of its source in
/// order: every frame up to the first end of stream or read fault.
pub open spec fn forwarded<T>(reads: Seq<ReadOutcome<T>>) -> Seq<T>
    decreases reads.len(),
{
    if reads.len() == 0 {
        Seq::empty()
    } else {
        match reads[0] {
            ReadOutcome::Frame(f) => seq![f] + forwarded(reads.drop_first()),
            _ => Seq::empty(),
        }
    }
}

/// Every read in `reads` yielded a frame.
pub open spec fn all_frames<T>(reads: Seq<ReadOutcome<T>>) -> bool {
    forall|i: int| 0 <= i < reads.len() ==> #[trigger] reads[i] is Frame
}

/// The frames that wrap `fs`, one read each.
pub open spec fn frames_of<T>(fs: Seq<T>) -> Seq<ReadOutcome<T>> {
    fs.map_values(|f: T| ReadOutcome::Frame(f))
}

/// Ordering: frames read in order are passed on in that same order, ahead of
/// whatever the later reads give.
pub proof fn lemma_order_kept<T>(fs: Seq<T>, rest: Seq<ReadOutcome<T>>)
    ensures
        forwarded(frames_of(fs) + rest) == fs + forwarded(rest),
    decreases fs.len(),
{
    if fs.len() == 0 {
        assert(frames_of(fs) + rest =~= rest);
        assert(fs + forwarded(rest) =~= forwarded(rest));
    } else {
        let s = frames_of(fs) + rest;
        lemma_order_kept(fs.drop_first(), rest);
        assert(s.drop_first() =~= frames_of(fs.drop_first()) + rest);
        assert(s[0] == ReadOutcome::Frame(fs[0]));
        assert(fs =~= seq![fs[0]] + fs.drop_first());
        assert(seq![fs[0]] + (fs.drop_first() + forwarded(rest)) =~= fs + forwarded(rest));
    }
}

/// Teardown of one direction: once its source ends or fails, none of the
/// frames read after that is passed on.
pub proof fn lemma_nothing_after_end<T>(
    fs: Seq<T>,
    last: ReadOutcome<T>,
    later: Seq<ReadOutcome<T>>,
)
    requires
        !(last is Frame),
    ensures
        forwarded(frames_of(fs) + seq![last] + later) == fs,
{
    lemma_order_kept(fs, seq![last] + later);
    assert(frames_of(fs) + seq![last] + later =~= frames_of(fs) + (seq![last] + later));
    assert(fs + Seq::<T>::empty() =~= fs);
}

proof fn lemma_push_read<T>(reads: Seq<ReadOutcome<T>>, r: ReadOutcome<T>)
    requires
        all_frames(reads),
    ensures
        r matches ReadOutcome::Frame(f) ==> forwarded(reads.push(r)) == forwarded(reads).push(f),
        !(r is Frame) ==> forwarded(reads.push(r)) == forwarded(reads),
    decreases reads.len(),
{
    if reads.len() == 0 {
        assert(reads.push(r).drop_first() =~= Seq::<ReadOutcome<T>>::empty());
        assert(reads.push(r)[0] == r);
        assert(forwarded(reads.push(r).drop_first()) == Seq::<T>::empty());
        if let ReadOutcome::Frame(f) = r {
            assert(seq![f] + Seq::<T>::empty() =~= Seq::<T>::empty().push(f));
        }
    } else {
        assert(reads[0] is Frame);
        assert(reads.push(r).drop_first() =~= reads.drop_first().push(r));
        assert(all_frames(reads.drop_first()));
        lemma_push_read(reads.drop_first(), r);
        if let ReadOutcome::Frame(f) = r {
            let g = reads[0]->Frame_0;
            assert(seq![g] + forwarded(reads.drop_first()).push(f) =~= (seq![g] + forwarded(
                reads.drop_first(),
            )).push(f));
        }
    }
}

/// One direction of the relay: reads from a source connection and decides
/// what to write to the opposite one.
pub struct Forwarder<T> {
    running: bool,
    seen: Ghost<Seq<ReadOutcome<T>>>,
}

impl<T> Forwarder<T> {
    /// Whether the loop still runs.
    pub closed spec fn is_running(&self) -> bool {
        self.running
    }

    /// The reads taken while the loop ran, in order.
    pub closed spec fn reads(&self) -> Seq<ReadOutcome<T>> {
        self.seen@
    }

    pub closed spec fn wf(&self) -> bool {
        self.running ==> all_frames(self.seen@)
    }

    /// The frames passed on so far.
    pub open spec fn sent(&self) -> Seq<T> {
        forwarded(self.reads())
    }

    /// A loop that has read nothing yet.
    pub fn new() -> (r: Forwarder<T>)
        ensures
            r.wf(),
            r.is_running(),
            r.reads() == Seq::<ReadOutcome<T>>::empty(),
    {
        Forwarder { running: true, seen: Ghost(Seq::empty()) }
    }

    pub fn running(&self) -> (r: bool)
        ensures
            r == self.is_running(),
    {
        self.running
    }

    /// Takes the next read: a frame is passed on; an end of stream or a read
    /// fault ends the loop. A loop that has ended passes nothing on.
    pub fn on_read(&mut self, r: ReadOutcome<T>) -> (step: LoopStep<T>)
        requires
            old(self).wf(),
        ensures
            final(self).wf(),
            old(self).is_running() ==> final(self).reads() == old(self).reads().push(r),
            !old(self).is_running() ==> final(self).reads() == old(self).reads(),
            final(self).is_running() <==> (old(self).is_running() && r is Frame),
            step is Forward <==> (old(self).is_running() && r is Frame),
            step matches LoopStep::Forward(f) ==> (r matches ReadOutcome::Frame(g) && f == g),
            step matches LoopStep::Forward(f) ==> final(self).sent() == old(self).sent().push(f),
            step is Stop ==> final(self).sent() == old(self).sent(),
    {
        if !self.running {
            return LoopStep::Stop;
        }
        proof {
            lemma_push_read(self.seen@, r);
        }
        self.seen = Ghost(self.seen@.push(r));
        match r {
            ReadOutcome::Frame(f) => LoopStep::Forward(f),
            _ => {
                self.running = false;
                LoopStep::Stop
            },
        }
    }

    /// A write to the opposite connection failed: the loop is over.
    pub fn on_write_failed(&mut self)
        requires
            old(self).wf(),
        ensures
            final(self).wf(),
            !final(self).is_running(),
            final(self).reads() == old(self).reads(),
    {
        self.running = false;
    }
}

/// The close frames injected at teardown, given the sources whose loops
/// ended, in the order they ended: one, to the peer of the first.
pub open spec fn injected_closes(ended: Seq<Side>) -> Seq<Side> {
    if ended.len() == 0 {
        Seq::empty()
    } else {
        seq![ended[0].opposite()]
    }
}

/// Prompt teardown: however many loops end, exactly one close frame is
/// injected, and it goes to the peer of the source whose loop ended first.
pub proof fn lemma_single_close(ended: Seq<Side>)
    requires
        ended.len() > 0,
    ensures
        injected_closes(ended).len() == 1,
        injected_closes(ended)[0] == ended[0].opposite(),
        injected_closes(ended)[0] != ended[0],
{
}

/// Decides the end of a bridge: the first loop to end names the connection
/// that is sent the one synthetic close frame.
pub struct Teardown {
    done: bool,
    ended: Ghost<Seq<Side>>,
    closes: Ghost<Seq<Side>>,
}

impl Teardown {
    /// Sources whose loops have ended, in order.
    pub closed spec fn ended(&self) -> Seq<Side> {
        self.ended@
    }

    /// Connections sent a close frame so far, in order.
    pub closed spec fn closes(&self) -> Seq<Side> {
        self.closes@
    }

    pub closed spec fn wf(&self) -> bool {
        &&& self.closes@ == injected_closes(self.ended@)
        &&& self.done <==> self.ended@.len() > 0
    }

    /// A bridge whose two loops both run.
    pub fn new() -> (r: Teardown)
        ensures
            r.wf(),
            r.ended() == Seq::<Side>::empty(),
            r.closes() == Seq::<Side>::empty(),
    {
        Teardown { done: false, ended: Ghost(Seq::empty()), closes: Ghost(Seq::empty()) }
    }

    /// The loop reading from `source` ended. The first time, returns the
    /// connection to send the close frame to (the surviving peer); later,
    /// nothing.
    pub fn loop_ended(&mut self, source: Side) -> (close_to: Option<Side>)
        requires
            old(self).wf(),
        ensures
            final(self).wf(),
            final(self).ended() == old(self).ended().push(source),
            old(self).ended().len() == 0 ==> close_to == Some(source.opposite()),
            old(self).ended().len() > 0 ==> close_to is None,
            close_to matches Some(s) ==> final(self).closes() == old(self).closes().push(s),
            close_to is None ==> final(self).closes() == old(self).closes(),
    {
        let ghost old_ended = self.ended@;
        self.ended = Ghost(self.ended@.push(source));
        if self.done {
            proof {
                assert(self.ended@[0] == old_ended[0]);
            }
            None
        } else {
            self.done = true;
            let to = source.other();
            self.closes = Ghost(self.closes@.push(to));
            proof {
                assert(self.closes@ =~= injected_closes(self.ended@));
            }
            Some(to)
        }
    }
}

} // verus!
