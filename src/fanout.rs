use vstd::prelude::*;

use crate::failure::IoFailure;

verus! {

/// Where a fan-out stands in its round.
#[derive(Debug, Clone, Copy, PartialEq, Eq, Structural)]
pub enum FanoutPhase {
    /// The chunk is being filled from the source.
    Filling,
    /// The chunk is complete and is to be handed to every live sink.
    Delivering,
    /// The chunk was handed out; the round ends once every live sink is done.
    Awaiting,
    /// The source reported end of data with an empty chunk.
    Done,
    /// A read from the source failed.
    Failed,
}

/// What the reader of a fan-out does next.
#[derive(Debug, PartialEq, Eq)]
pub enum TeeStep {
    /// Read at most this many bytes from the source and report them with `on_read`.
    Read(usize),
    /// Hand `chunk()` to each sink of `live_sinks()` and report with `on_delivered`.
    Deliver,
    /// The source has ended; every chunk was delivered.
    Done,
    /// Reading from the source failed.
    Failed(IoFailure),
}

/// The sinks of `live` whose hand-off succeeded, in the same order.
pub open spec fn kept(live: Seq<usize>, sent: Seq<bool>) -> Seq<usize>
    decreases live.len(),
{
    if live.len() == 0 {
        Seq::empty()
    } else {
        let rest = kept(live.drop_last(), sent.drop_last());
        if sent.last() {
            rest.push(live.last())
        } else {
            rest
        }
    }
}

/// A sink's share after one round: the chunk is added for the sinks that kept it.
pub open spec fn after_round(
    handed: Seq<Seq<Seq<u8>>>,
    stay: Seq<usize>,
    chunk: Seq<u8>,
) -> Seq<Seq<Seq<u8>>> {
    Seq::new(
        handed.len(),
        |i: int|
            if stay.contains(i as usize) {
                handed[i].push(chunk)
            } else {
                handed[i]
            },
    )
}

proof fn lemma_kept(live: Seq<usize>, sent: Seq<bool>)
    requires
        live.len() == sent.len(),
    ensures
        forall|x: usize| #[trigger] kept(live, sent).contains(x) ==> live.contains(x),
        forall|x: usize|
            #[trigger] kept(live, sent).contains(x) ==> exists|j: int|
                0 <= j < live.len() && live[j] == x && sent[j],
        live.no_duplicates() ==> kept(live, sent).no_duplicates(),
        forall|j: int|
            0 <= j < live.len() && #[trigger] sent[j] ==> kept(live, sent).contains(live[j]),
    decreases live.len(),
{
    if live.len() > 0 {
        let (l, s) = (live.drop_last(), sent.drop_last());
        lemma_kept(l, s);
        assert forall|x: usize| #[trigger] kept(live, sent).contains(x) implies live.contains(x)
            && exists|j: int| 0 <= j < live.len() && live[j] == x && sent[j] by {
            if kept(l, s).contains(x) {
                let k = choose|k: int| 0 <= k < l.len() && l[k] == x && s[k];
                assert(live[k] == x && sent[k]);
            } else {
                let n = live.len() - 1;
                assert(live[n] == x && sent[n]);
            }
        }
        if live.no_duplicates() {
            assert(l.no_duplicates());
            if sent.last() {
                let x = live.last();
                if kept(l, s).contains(x) {
                    let k = choose|k: int| 0 <= k < l.len() && l[k] == x && s[k];
                    assert(live[k] == live[live.len() - 1]);
                }
                assert(kept(live, sent) == kept(l, s).push(x));
            }
        }
        assert forall|j: int|
            0 <= j < live.len() && #[trigger] sent[j] implies kept(live, sent).contains(live[j]) by {
            if j < live.len() - 1 {
                assert(s[j] == sent[j]);
                assert(l[j] == live[j]);
                assert(kept(l, s).contains(l[j]));
                let k = choose|k: int| 0 <= k < kept(l, s).len() && kept(l, s)[k] == l[j];
                if sent.last() {
                    assert(kept(live, sent)[k] == live[j]);
                }
            } else {
                assert(kept(live, sent).last() == live[j]);
            }
        }
    }
}

/// The reader side of a fan-out stage: the source is read once, chunk by chunk,
/// each chunk goes to every live sink, and the next chunk is read only once
/// every live sink is done with the current one. A sink whose hand-off fails is
/// retired for all later rounds; the others go on.
pub struct Fanout {
    chunk_size: usize,
    chunk: Vec<u8>,
    live: Vec<usize>,
    sinks: usize,
    phase: FanoutPhase,
    input: Ghost<Seq<u8>>,
    rounds: Ghost<Seq<Seq<u8>>>,
    handed: Ghost<Seq<Seq<Seq<u8>>>>,
}

impl Fanout {
    /// Where the fan-out stands.
    pub closed spec fn phase(&self) -> FanoutPhase {
        self.phase
    }

    /// The size of a full chunk.
    pub closed spec fn chunk_size(&self) -> nat {
        self.chunk_size as nat
    }

    /// The bytes of the current chunk.
    pub closed spec fn filled(&self) -> Seq<u8> {
        self.chunk@
    }

    /// The registration numbers of the sinks still live, in registration order.
    pub closed spec fn live(&self) -> Seq<usize> {
        self.live@
    }

    /// How many sinks were registered.
    pub closed spec fn sinks(&self) -> nat {
        self.sinks as nat
    }

    /// Every byte read from the source so far, in order.
    pub closed spec fn input(&self) -> Seq<u8> {
        self.input@
    }

    /// Every chunk handed out so far, in order.
    pub closed spec fn rounds(&self) -> Seq<Seq<u8>> {
        self.rounds@
    }

    /// For each registered sink, the chunks handed to it, in order.
    pub closed spec fn handed(&self) -> Seq<Seq<Seq<u8>>> {
        self.handed@
    }

    pub closed spec fn wf(&self) -> bool {
        &&& self.chunk@.len() <= self.chunk_size
        &&& self.phase == FanoutPhase::Delivering ==> self.chunk@.len() > 0
        &&& self.phase == FanoutPhase::Done ==> self.chunk@.len() == 0
        &&& self.phase == FanoutPhase::Awaiting ==> self.rounds@.flatten() == self.input@
        &&& self.phase != FanoutPhase::Awaiting ==> self.rounds@.flatten() + self.chunk@
            == self.input@
        &&& self.handed@.len() == self.sinks
        &&& forall|k: int| 0 <= k < self.live@.len() ==> #[trigger] self.live@[k] < self.sinks
        &&& self.live@.no_duplicates()
        &&& forall|k: int|
            0 <= k < self.live@.len() ==> #[trigger] self.handed@[self.live@[k] as int]
                == self.rounds@
        &&& forall|i: int|
            0 <= i < self.sinks ==> #[trigger] self.handed@[i].len() <= self.rounds@.len()
                && self.handed@[i] == self.rounds@.take(self.handed@[i].len() as int)
    }

    /// A fan-out with chunks of `chunk_size` bytes and no sink yet.
    pub fn new(chunk_size: usize) -> (r: Fanout)
        ensures
            r.wf(),
            r.phase() == FanoutPhase::Filling,
            r.chunk_size() == chunk_size,
            r.filled() == Seq::<u8>::empty(),
            r.live() == Seq::<usize>::empty(),
            r.sinks() == 0,
            r.rounds() == Seq::<Seq<u8>>::empty(),
            r.input() == Seq::<u8>::empty(),
    {
        let r = Fanout {
            chunk_size,
            chunk: Vec::new(),
            live: Vec::new(),
            sinks: 0,
            phase: FanoutPhase::Filling,
            input: Ghost(Seq::empty()),
            rounds: Ghost(Seq::empty()),
            handed: Ghost(Seq::empty()),
        };
        assert(r.rounds@.flatten() + r.chunk@ =~= Seq::<u8>::empty());
        r
    }

    /// Registers one more sink before anything is read; returns its number.
    pub fn register(&mut self) -> (i: usize)
        requires
            old(self).wf(),
            old(self).phase() == FanoutPhase::Filling,
            old(self).rounds().len() == 0,
            old(self).sinks() < usize::MAX,
        ensures
            final(self).wf(),
            i == old(self).sinks(),
            final(self).sinks() == old(self).sinks() + 1,
            final(self).live() == old(self).live().push(i),
            final(self).phase() == old(self).phase(),
            final(self).chunk_size() == old(self).chunk_size(),
            final(self).filled() == old(self).filled(),
            final(self).rounds() == old(self).rounds(),
            final(self).input() == old(self).input(),
    {
        let i = self.sinks;
        self.live.push(i);
        self.sinks = i + 1;
        self.handed = Ghost(self.handed@.push(Seq::empty()));
        let ghost old_handed = old(self).handed@;
        assert forall|k: int| 0 <= k < self.handed@.len() implies #[trigger] self.handed@[k]
            == Seq::<Seq<u8>>::empty() by {
            if k < old_handed.len() {
                assert(old_handed[k].len() <= 0);
                assert(old_handed[k] =~= Seq::<Seq<u8>>::empty());
            }
        }
        assert(self.rounds@ =~= Seq::<Seq<u8>>::empty());
        assert(self.rounds@.take(0) =~= Seq::<Seq<u8>>::empty());
        assert forall|k: int| 0 <= k < self.live@.len() implies #[trigger] self.live@[k] < self.sinks by {
            if k < old(self).live@.len() {
                assert(old(self).live@[k] < old(self).sinks);
            }
        }
        assert forall|a: int, b: int| 0 <= a < self.live@.len() && 0 <= b < self.live@.len() && a != b
            implies self.live@[a] != self.live@[b] by {
            if a < old(self).live@.len() && b < old(self).live@.len() {
                assert(old(self).live@.no_duplicates());
            } else if a < old(self).live@.len() {
                assert(old(self).live@[a] < old(self).sinks);
            } else {
                assert(old(self).live@[b] < old(self).sinks);
            }
        }
        i
    }

    /// How many bytes the next read may bring: what is left of the chunk.
    pub fn read_limit(&self) -> (r: usize)
        requires
            self.wf(),
        ensures
            r == self.chunk_size() - self.filled().len(),
    {
        self.chunk_size - self.chunk.len()
    }

    /// The current chunk.
    pub fn chunk(&self) -> (r: &[u8])
        ensures
            r@ == self.filled(),
    {
        self.chunk.as_slice()
    }

    /// The registration numbers of the live sinks, in registration order.
    pub fn live_sinks(&self) -> (r: &Vec<usize>)
        ensures
            r@ == self.live(),
    {
        &self.live
    }

    /// Takes in what a read from the source gave. The chunk is complete when it
    /// is full or when the source reports end of data; an empty chunk at end of
    /// data ends the fan-out. Any failure ends it too.
    pub fn on_read(&mut self, got: Result<Vec<u8>, IoFailure>) -> (s: TeeStep)
        requires
            old(self).wf(),
            old(self).phase() == FanoutPhase::Filling,
            got matches Ok(b) ==> b@.len() <= old(self).chunk_size() - old(self).filled().len(),
        ensures
            final(self).wf(),
            final(self).chunk_size() == old(self).chunk_size(),
            final(self).live() == old(self).live(),
            final(self).sinks() == old(self).sinks(),
            final(self).rounds() == old(self).rounds(),
            final(self).handed() == old(self).handed(),
            match got {
                Ok(b) => {
                    &&& final(self).input() == old(self).input() + b@
                    &&& final(self).filled() == old(self).filled() + b@
                    &&& if b@.len() == 0 && old(self).filled().len() == 0 {
                        s is Done && final(self).phase() == FanoutPhase::Done
                    } else if b@.len() == 0 || final(self).filled().len() == old(self).chunk_size() {
                        s is Deliver && final(self).phase() == FanoutPhase::Delivering
                    } else {
                        s == TeeStep::Read((old(self).chunk_size() - final(self).filled().len()) as usize)
                            && final(self).phase() == FanoutPhase::Filling
                    }
                },
                Err(e) => {
                    &&& s == TeeStep::Failed(e)
                    &&& final(self).phase() == FanoutPhase::Failed
                    &&& final(self).filled() == old(self).filled()
                    &&& final(self).input() == old(self).input()
                },
            },
    {
        match got {
            Err(e) => {
                self.phase = FanoutPhase::Failed;
                TeeStep::Failed(e)
            },
            Ok(b) => {
                let n = b.len();
                let mut b = b;
                let ghost (c0, b0) = (self.chunk@, b@);
                self.input = Ghost(self.input@ + b@);
                self.chunk.append(&mut b);
                assert(self.rounds@.flatten() + self.chunk@ =~= self.input@) by {
                    assert(self.chunk@ =~= c0 + b0);
                    assert(self.rounds@.flatten() + (c0 + b0) =~= (self.rounds@.flatten() + c0) + b0);
                }
                if n == 0 && self.chunk.len() == 0 {
                    self.phase = FanoutPhase::Done;
                    TeeStep::Done
                } else if n == 0 || self.chunk.len() == self.chunk_size {
                    self.phase = FanoutPhase::Delivering;
                    TeeStep::Deliver
                } else {
                    TeeStep::Read(self.chunk_size - self.chunk.len())
                }
            },
        }
    }

    /// Takes in, for each live sink in order, whether the chunk could be handed
    /// to it. A sink whose hand-off failed is retired; the others stay live, and
    /// each of them has now been handed every chunk so far. Returns how many
    /// sinks must report done before the next round.
    pub fn on_delivered(&mut self, sent: Vec<bool>) -> (awaited: usize)
        requires
            old(self).wf(),
            old(self).phase() == FanoutPhase::Delivering,
            sent@.len() == old(self).live().len(),
        ensures
            final(self).wf(),
            final(self).phase() == FanoutPhase::Awaiting,
            final(self).chunk_size() == old(self).chunk_size(),
            final(self).filled() == old(self).filled(),
            final(self).sinks() == old(self).sinks(),
            final(self).input() == old(self).input(),
            final(self).rounds() == old(self).rounds().push(old(self).filled()),
            final(self).live() == kept(old(self).live(), sent@),
            final(self).handed() == after_round(
                old(self).handed(),
                final(self).live(),
                old(self).filled(),
            ),
            forall|j: int|
                0 <= j < sent@.len() ==> (#[trigger] sent@[j] <==> final(self).live().contains(
                    old(self).live()[j],
                )),
            awaited == final(self).live().len(),
    {
        let mut stay: Vec<usize> = Vec::new();
        let mut j: usize = 0;
        while j < self.live.len()
            invariant
                j <= self.live@.len(),
                sent@.len() == self.live@.len(),
                stay@ == kept(self.live@.take(j as int), sent@.take(j as int)),
            decreases self.live@.len() - j,
        {
            let ghost (l0, s0) = (self.live@.take(j as int), sent@.take(j as int));
            let ghost (l1, s1) = (self.live@.take(j + 1), sent@.take(j + 1));
            assert(l1.drop_last() =~= l0);
            assert(s1.drop_last() =~= s0);
            if sent[j] {
                stay.push(self.live[j]);
            }
            j = j + 1;
        }
        assert(self.live@.take(j as int) =~= self.live@);
        assert(sent@.take(j as int) =~= sent@);
        proof {
            lemma_kept(self.live@, sent@);
        }
        let ghost old_live = self.live@;
        let ghost old_rounds = self.rounds@;
        let ghost old_handed = self.handed@;
        let ghost c = self.chunk@;
        self.live = stay;
        proof {
            self.rounds@.lemma_flatten_push(self.chunk@);
        }
        self.rounds = Ghost(self.rounds@.push(self.chunk@));
        self.handed = Ghost(after_round(self.handed@, self.live@, self.chunk@));
        self.phase = FanoutPhase::Awaiting;
        assert forall|j: int| 0 <= j < sent@.len() && !sent@[j] implies !self.live@.contains(
            old_live[j],
        ) by {
            if self.live@.contains(old_live[j]) {
                let m = choose|m: int| 0 <= m < old_live.len() && old_live[m] == old_live[j] && sent@[m];
                assert(old_live.no_duplicates());
            }
        }
        assert forall|k: int| 0 <= k < self.live@.len() implies #[trigger] self.live@[k] < self.sinks by {
            assert(self.live@.contains(self.live@[k]));
            assert(old_live.contains(self.live@[k]));
        }
        assert forall|k: int| 0 <= k < self.live@.len() implies #[trigger] self.handed@[self.live@[k] as int]
            == self.rounds@ by {
            let x = self.live@[k];
            assert(self.live@.contains(x));
            assert(old_live.contains(x));
            let m = choose|m: int| 0 <= m < old_live.len() && old_live[m] == x;
            assert(old_handed[old_live[m] as int] == old_rounds);
        }
        assert forall|i: int| 0 <= i < self.sinks implies #[trigger] self.handed@[i].len()
            <= self.rounds@.len() && self.handed@[i] == self.rounds@.take(
            self.handed@[i].len() as int,
        ) by {
            if self.live@.contains(i as usize) {
                assert(old_live.contains(i as usize));
                let m = choose|m: int| 0 <= m < old_live.len() && old_live[m] == i as usize;
                assert(old_handed[old_live[m] as int] == old_rounds);
                assert(old_handed[i] == old_rounds);
                assert(self.handed@[i] =~= self.rounds@);
            } else {
                assert(old_handed[i] == old_rounds.take(old_handed[i].len() as int));
                assert(self.handed@[i] =~= self.rounds@.take(self.handed@[i].len() as int));
            }
        }
        self.live.len()
    }

    /// The barrier of a round: with `acks` sinks done, the round is over once
    /// every live sink is, and the next chunk is then read from the start.
    /// Otherwise nothing changes and the reader keeps waiting.
    pub fn on_acked(&mut self, acks: usize) -> (s: Option<TeeStep>)
        requires
            old(self).wf(),
            old(self).phase() == FanoutPhase::Awaiting,
        ensures
            final(self).wf(),
            final(self).chunk_size() == old(self).chunk_size(),
            final(self).live() == old(self).live(),
            final(self).sinks() == old(self).sinks(),
            final(self).rounds() == old(self).rounds(),
            final(self).handed() == old(self).handed(),
            final(self).input() == old(self).input(),
            if acks < old(self).live().len() {
                &&& s is None
                &&& final(self).phase() == FanoutPhase::Awaiting
                &&& final(self).filled() == old(self).filled()
            } else {
                &&& s == Some(TeeStep::Read(old(self).chunk_size() as usize))
                &&& final(self).phase() == FanoutPhase::Filling
                &&& final(self).filled() == Seq::<u8>::empty()
            },
    {
        if acks < self.live.len() {
            None
        } else {
            self.chunk.clear();
            self.phase = FanoutPhase::Filling;
            assert(self.rounds@.flatten() + self.chunk@ =~= self.rounds@.flatten());
            Some(TeeStep::Read(self.chunk_size))
        }
    }
}

/// A round retires exactly the sinks whose hand-off failed. A sink that took
/// the chunk stays live for the next rounds and has the chunk added to its
/// share; a retired sink's share stays as it was.
pub proof fn lemma_round_retires_only_failed_sinks(
    handed: Seq<Seq<Seq<u8>>>,
    live: Seq<usize>,
    sent: Seq<bool>,
    chunk: Seq<u8>,
    j: int,
)
    requires
        live.len() == sent.len(),
        live.no_duplicates(),
        0 <= j < live.len(),
        live[j] < handed.len(),
    ensures
        sent[j] ==> kept(live, sent).contains(live[j]) && after_round(handed, kept(live, sent), chunk)[live[j] as int]
            == handed[live[j] as int].push(chunk),
        !sent[j] ==> !kept(live, sent).contains(live[j]) && after_round(handed, kept(live, sent), chunk)[live[j] as int]
            == handed[live[j] as int],
{
    lemma_kept(live, sent);
    if !sent[j] && kept(live, sent).contains(live[j]) {
        let m = choose|m: int| 0 <= m < live.len() && live[m] == live[j] && sent[m];
    }
}

/// Once the source has ended, the chunks handed out, joined in order, are
/// exactly the bytes read; so is what each still-live sink was handed.
pub proof fn lemma_done_fanout_delivered_input(f: &Fanout, a: int)
    requires
        f.wf(),
        f.phase() == FanoutPhase::Done,
        0 <= a < f.live().len(),
    ensures
        f.rounds().flatten() == f.input(),
        f.handed()[f.live()[a] as int].flatten() == f.input(),
{
    assert(f.handed()[f.live()[a] as int] == f.rounds());
    assert(f.rounds().flatten() + f.filled() =~= f.rounds().flatten());
}

/// Every live sink has been handed the same chunks, identically cut and in the
/// same order: all the chunks read so far. A retired sink has been handed a
/// prefix of them.
pub proof fn lemma_live_sinks_agree(f: &Fanout, a: int, b: int)
    requires
        f.wf(),
        0 <= a < f.live().len(),
        0 <= b < f.live().len(),
    ensures
        f.handed()[f.live()[a] as int] == f.rounds(),
        f.handed()[f.live()[a] as int] == f.handed()[f.live()[b] as int],
        forall|i: int|
            0 <= i < f.sinks() ==> #[trigger] f.handed()[i] == f.rounds().take(
                f.handed()[i].len() as int,
            ),
{
    assert(f.handed()[f.live()[a] as int] == f.rounds());
    assert(f.handed()[f.live()[b] as int] == f.rounds());
}

} // verus!
