use vstd::prelude::*;
use vstd::string::StringExecFns;

use crate::failure::{decimal, decimal_text, failure_text, is_infix, settle, settled, IoFailure};

verus! {

/// How a child process ended.
#[derive(Debug, Clone, Copy, PartialEq, Eq, Structural)]
pub enum ExitOutcome {
    /// It exited with the given status code.
    Exited(i32),
    /// It was terminated by the given signal.
    Signaled(i32),
}

/// The text of an exit outcome.
pub open spec fn exit_text(x: ExitOutcome) -> Seq<char> {
    match x {
        ExitOutcome::Exited(c) => "exit status: "@ + decimal_text(c as int),
        ExitOutcome::Signaled(s) => "signal: "@ + decimal_text(s as int),
    }
}

impl ExitOutcome {
    /// Success is an exit with status zero.
    pub open spec fn is_success(self) -> bool {
        self == ExitOutcome::Exited(0)
    }

    /// Whether the process exited with status zero.
    pub fn success(&self) -> (r: bool)
        ensures
            r == self.is_success(),
    {
        match self {
            ExitOutcome::Exited(c) => *c == 0,
            ExitOutcome::Signaled(_) => false,
        }
    }

    /// The exit code, when the process exited on its own.
    pub fn code(&self) -> (r: Option<i32>)
        ensures
            r == (match *self {
                ExitOutcome::Exited(c) => Some(c),
                ExitOutcome::Signaled(_) => None,
            }),
    {
        match self {
            ExitOutcome::Exited(c) => Some(*c),
            ExitOutcome::Signaled(_) => None,
        }
    }

    /// The signal that terminated the process, if one did.
    pub fn signal(&self) -> (r: Option<i32>)
        ensures
            r == (match *self {
                ExitOutcome::Exited(_) => None,
                ExitOutcome::Signaled(s) => Some(s),
            }),
    {
        match self {
            ExitOutcome::Exited(_) => None,
            ExitOutcome::Signaled(s) => Some(*s),
        }
    }

    /// The text of this outcome.
    pub fn text(&self) -> (r: String)
        ensures
            r@ == exit_text(*self),
    {
        match self {
            ExitOutcome::Exited(c) => {
                let mut s = String::from_str("exit status: ");
                let d = decimal(*c);
                s.append(d.as_str());
                s
            },
            ExitOutcome::Signaled(g) => {
                let mut s = String::from_str("signal: ");
                let d = decimal(*g);
                s.append(d.as_str());
                s
            },
        }
    }
}

/// One way in which a process-backed stage failed.
#[derive(Debug, PartialEq, Eq)]
pub enum ChildExitErrorKind {
    /// Waiting on the child process failed.
    ChildWait(IoFailure),
    /// The child process did not exit successfully.
    ChildExit(ExitOutcome),
    /// The thread copying into the child's input failed.
    ReadThread(IoFailure),
    /// The thread copying out of the child's output failed.
    WriteThread(IoFailure),
}

/// The text of one failure of a chain.
pub open spec fn kind_text(k: ChildExitErrorKind) -> Seq<char> {
    match k {
        ChildExitErrorKind::ChildWait(e) => "failed to wait on child process: "@ + failure_text(e),
        ChildExitErrorKind::ChildExit(x) => "child exited unsuccessfully: "@ + exit_text(x),
        ChildExitErrorKind::ReadThread(e) => "read copy thread failed: "@ + failure_text(e),
        ChildExitErrorKind::WriteThread(e) => "Write copy thread failed: "@ + failure_text(e),
    }
}

/// The text of one failure, for the cause that it carries.
pub open spec fn cause_text(k: ChildExitErrorKind) -> Seq<char> {
    match k {
        ChildExitErrorKind::ChildWait(e) => failure_text(e),
        ChildExitErrorKind::ChildExit(x) => exit_text(x),
        ChildExitErrorKind::ReadThread(e) => failure_text(e),
        ChildExitErrorKind::WriteThread(e) => failure_text(e),
    }
}

/// The text of a chain of failures: each one, joined by a continuation line.
pub open spec fn chain_text(ks: Seq<ChildExitErrorKind>) -> Seq<char>
    decreases ks.len(),
{
    if ks.len() == 0 {
        Seq::empty()
    } else if ks.len() == 1 {
        kind_text(ks[0])
    } else {
        kind_text(ks[0]) + "\n   and also "@ + chain_text(ks.drop_first())
    }
}

impl ChildExitErrorKind {
    /// The text of this failure.
    pub fn text(&self) -> (r: String)
        ensures
            r@ == kind_text(*self),
    {
        let (mut s, cause) = match self {
            ChildExitErrorKind::ChildWait(e) => (
                String::from_str("failed to wait on child process: "),
                e.text(),
            ),
            ChildExitErrorKind::ChildExit(x) => (
                String::from_str("child exited unsuccessfully: "),
                x.text(),
            ),
            ChildExitErrorKind::ReadThread(e) => (
                String::from_str("read copy thread failed: "),
                e.text(),
            ),
            ChildExitErrorKind::WriteThread(e) => (
                String::from_str("Write copy thread failed: "),
                e.text(),
            ),
        };
        s.append(cause.as_str());
        s
    }
}

/// A failure of a process-backed stage, with every other failure that occurred
/// beside it linked behind.
#[derive(Debug, PartialEq, Eq)]
pub struct ChildExitError {
    pub kind: ChildExitErrorKind,
    pub next: Option<Box<ChildExitError>>,
}

/// The failures of an optional chain, head first.
pub open spec fn links_of(c: Option<Box<ChildExitError>>) -> Seq<ChildExitErrorKind>
    decreases c,
{
    match c {
        None => Seq::empty(),
        Some(b) => seq![b.kind] + links_of(b.next),
    }
}

impl ChildExitError {
    /// The failures of this chain, head first.
    pub open spec fn links(self) -> Seq<ChildExitErrorKind> {
        seq![self.kind] + links_of(self.next)
    }

    /// The text of the whole chain.
    pub fn render(&self) -> (r: String)
        ensures
            r@ == chain_text(self.links()),
        decreases self.links().len(),
    {
        let mut s = self.kind.text();
        match &self.next {
            None => {
                assert(self.links() =~= seq![self.kind]);
            },
            Some(n) => {
                assert(self.links().drop_first() =~= n.links());
                let rest = n.render();
                s.append("\n   and also ");
                s.append(rest.as_str());
            },
        }
        s
    }
}

/// What a process-backed stage ended with: the child's own outcome and, for each
/// direction that needed a bridging thread, that thread's result.
pub struct ChildExit {
    pub child: Result<ExitOutcome, IoFailure>,
    pub read_thread: Option<Result<(), IoFailure>>,
    pub write_thread: Option<Result<(), IoFailure>>,
}

/// The result of a bridging thread, if one ran: `Some(None)` for a thread that
/// ended abnormally.
pub open spec fn bridge_result(t: Option<Option<Result<u64, IoFailure>>>) -> Option<Result<(), IoFailure>> {
    match t {
        None => None,
        Some(j) => Some(
            match settled(j) {
                Ok(_) => Ok(()),
                Err(e) => Err(e),
            },
        ),
    }
}

fn bridge(t: Option<Option<Result<u64, IoFailure>>>) -> (r: Option<Result<(), IoFailure>>)
    ensures
        r == bridge_result(t),
{
    match t {
        None => None,
        Some(j) => match settle(j) {
            Ok(_) => Some(Ok(())),
            Err(e) => Some(Err(e)),
        },
    }
}

impl ChildExit {
    /// The failures present, in the order child wait, exit status, input
    /// bridge, output bridge.
    pub open spec fn failures(self) -> Seq<ChildExitErrorKind> {
        (match self.child {
            Err(e) => seq![ChildExitErrorKind::ChildWait(e)],
            Ok(x) => if x.is_success() {
                Seq::empty()
            } else {
                seq![ChildExitErrorKind::ChildExit(x)]
            },
        }) + (match self.read_thread {
            Some(Err(e)) => seq![ChildExitErrorKind::ReadThread(e)],
            _ => Seq::empty(),
        }) + (match self.write_thread {
            Some(Err(e)) => seq![ChildExitErrorKind::WriteThread(e)],
            _ => Seq::empty(),
        })
    }

    /// Gathers the outcome of a child process and of the bridging threads that
    /// ran beside it, each given as it was joined (`None` inside for a thread that
    /// ended abnormally, `None` outside where no thread was needed).
    pub fn gather(
        child: Result<ExitOutcome, IoFailure>,
        read: Option<Option<Result<u64, IoFailure>>>,
        write: Option<Option<Result<u64, IoFailure>>>,
    ) -> (r: ChildExit)
        ensures
            r.child == child,
            r.read_thread == bridge_result(read),
            r.write_thread == bridge_result(write),
    {
        ChildExit { child, read_thread: bridge(read), write_thread: bridge(write) }
    }

    /// Combines every failure into one chain, headed by the first in the order
    /// child wait, exit status, input bridge, output bridge.
    pub fn combine(self) -> (r: Result<(), ChildExitError>)
        ensures
            r is Ok <==> self.failures().len() == 0,
            r matches Err(e) ==> e.links() == self.failures(),
    {
        let ghost all = self.failures();
        let mut kinds: Vec<ChildExitErrorKind> = Vec::new();
        match self.child {
            Err(e) => kinds.push(ChildExitErrorKind::ChildWait(e)),
            Ok(x) => if !x.success() {
                kinds.push(ChildExitErrorKind::ChildExit(x));
            },
        }
        match self.read_thread {
            Some(Err(e)) => kinds.push(ChildExitErrorKind::ReadThread(e)),
            _ => {},
        }
        match self.write_thread {
            Some(Err(e)) => kinds.push(ChildExitErrorKind::WriteThread(e)),
            _ => {},
        }
        assert(kinds@ =~= all);
        match chain_of(kinds) {
            None => Ok(()),
            Some(e) => Err(e),
        }
    }
}

proof fn lemma_infix_of_sum(m: Seq<char>, a: Seq<char>, b: Seq<char>)
    requires
        is_infix(m, a) || is_infix(m, b),
    ensures
        is_infix(m, a + b),
{
    let t = a + b;
    if is_infix(m, a) {
        let i = choose|i: int| 0 <= i && i + m.len() <= a.len() && #[trigger] a.subrange(i, i + m.len()) == m;
        assert(t.subrange(i, i + m.len()) =~= a.subrange(i, i + m.len()));
    } else {
        let i = choose|i: int| 0 <= i && i + m.len() <= b.len() && #[trigger] b.subrange(i, i + m.len()) == m;
        assert(t.subrange(a.len() + i, a.len() + i + m.len()) =~= b.subrange(i, i + m.len()));
    }
}

proof fn lemma_infix_self(m: Seq<char>)
    ensures
        is_infix(m, m),
{
    let z: int = 0;
    assert(m.subrange(z, z + m.len()) =~= m);
}

proof fn lemma_infix_trans(a: Seq<char>, b: Seq<char>, c: Seq<char>)
    requires
        is_infix(a, b),
        is_infix(b, c),
    ensures
        is_infix(a, c),
{
    let i = choose|i: int| 0 <= i && i + a.len() <= b.len() && #[trigger] b.subrange(i, i + a.len()) == a;
    let j = choose|j: int| 0 <= j && j + b.len() <= c.len() && #[trigger] c.subrange(j, j + b.len()) == b;
    assert(c.subrange(j + i, j + i + a.len()) =~= b.subrange(i, i + a.len()));
}

proof fn lemma_cause_in_kind(k: ChildExitErrorKind)
    ensures
        is_infix(cause_text(k), kind_text(k)),
{
    lemma_infix_self(cause_text(k));
    match k {
        ChildExitErrorKind::ChildWait(e) => lemma_infix_of_sum(cause_text(k), "failed to wait on child process: "@, failure_text(e)),
        ChildExitErrorKind::ChildExit(x) => lemma_infix_of_sum(cause_text(k), "child exited unsuccessfully: "@, exit_text(x)),
        ChildExitErrorKind::ReadThread(e) => lemma_infix_of_sum(cause_text(k), "read copy thread failed: "@, failure_text(e)),
        ChildExitErrorKind::WriteThread(e) => lemma_infix_of_sum(cause_text(k), "Write copy thread failed: "@, failure_text(e)),
    }
}

proof fn lemma_link_in_chain(ks: Seq<ChildExitErrorKind>, i: int)
    requires
        0 <= i < ks.len(),
    ensures
        is_infix(kind_text(ks[i]), chain_text(ks)),
    decreases ks.len(),
{
    lemma_infix_self(kind_text(ks[i]));
    if ks.len() > 1 {
        let head = kind_text(ks[0]) + "\n   and also "@;
        if i == 0 {
            lemma_infix_of_sum(kind_text(ks[0]), kind_text(ks[0]), "\n   and also "@);
            lemma_infix_of_sum(kind_text(ks[0]), head, chain_text(ks.drop_first()));
        } else {
            lemma_link_in_chain(ks.drop_first(), i - 1);
            lemma_infix_of_sum(kind_text(ks[i]), head, chain_text(ks.drop_first()));
        }
    }
}

/// Every failure of a chain shows in the chain's text with its own message.
pub proof fn lemma_chain_text_shows_every_cause(ks: Seq<ChildExitErrorKind>, i: int)
    requires
        0 <= i < ks.len(),
    ensures
        is_infix(kind_text(ks[i]), chain_text(ks)),
        is_infix(cause_text(ks[i]), chain_text(ks)),
{
    lemma_link_in_chain(ks, i);
    lemma_cause_in_kind(ks[i]);
    lemma_infix_trans(cause_text(ks[i]), kind_text(ks[i]), chain_text(ks));
}

/// When a child exits unsuccessfully and its output bridge fails as well, the
/// combined failures hold both, and their text holds both messages.
pub proof fn lemma_exit_and_output_bridge_both_reported(x: ChildExit, o: ExitOutcome, e: IoFailure)
    requires
        x.child == Ok::<ExitOutcome, IoFailure>(o),
        !o.is_success(),
        x.write_thread == Some(Err::<(), IoFailure>(e)),
    ensures
        x.failures()[0] == ChildExitErrorKind::ChildExit(o),
        x.failures().last() == ChildExitErrorKind::WriteThread(e),
        is_infix(exit_text(o), chain_text(x.failures())),
        is_infix(failure_text(e), chain_text(x.failures())),
{
    let ks = x.failures();
    lemma_chain_text_shows_every_cause(ks, 0);
    lemma_chain_text_shows_every_cause(ks, ks.len() - 1);
}

/// Links failures into a chain, keeping their order.
fn chain_of(kinds: Vec<ChildExitErrorKind>) -> (r: Option<ChildExitError>)
    ensures
        r is None <==> kinds@.len() == 0,
        r matches Some(e) ==> e.links() == kinds@,
{
    let ghost all = kinds@;
    let mut kinds = kinds;
    let mut acc: Option<Box<ChildExitError>> = None;
    while kinds.len() > 0
        invariant
            all == kinds@ + links_of(acc),
        decreases kinds.len(),
    {
        let ghost before = kinds@;
        let k = kinds.pop().unwrap();
        acc = Some(Box::new(ChildExitError { kind: k, next: acc }));
        assert(before =~= kinds@ + seq![k]);
        assert(all =~= kinds@ + links_of(acc));
    }
    assert(kinds@ + links_of(acc) =~= links_of(acc));
    match acc {
        None => None,
        Some(b) => Some(*b),
    }
}

} // verus!
