//! Sandbox lifecycle state machine.
//!
//! ```text
//! creating -> running -> stopping -> stopped -> resuming -> running
//!          -> deleting -> deleted
//! creating -> failed
//! running  -> failed
//! stopping -> standby -> resuming
//!             standby -> deleting
//! ```
//!
//! A sandbox in standby is a snapshot on disk: no memory, no charge, and brought
//! back by the next request for it.

use crate::text::same;
use vstd::prelude::*;

verus! {

#[derive(Debug, Clone, Copy, PartialEq, Eq, Structural)]
pub enum State {
    Creating,
    Running,
    Stopping,
    Stopped,
    Standby,
    Resuming,
    Deleting,
    Deleted,
    Failed,
}

impl State {
    /// The wire name of a state.
    pub open spec fn name(self) -> Seq<char> {
        match self {
            State::Creating => "creating"@,
            State::Running => "running"@,
            State::Stopping => "stopping"@,
            State::Stopped => "stopped"@,
            State::Standby => "standby"@,
            State::Resuming => "resuming"@,
            State::Deleting => "deleting"@,
            State::Deleted => "deleted"@,
            State::Failed => "failed"@,
        }
    }

    /// The edges of the state machine.
    pub open spec fn edge(self, next: State) -> bool {
        match self {
            State::Creating => next is Running || next is Failed,
            State::Running => next is Stopping || next is Deleting || next is Failed,
            State::Stopping => next is Stopped || next is Standby,
            State::Standby => next is Resuming || next is Deleting,
            State::Stopped => next is Resuming || next is Deleting,
            State::Resuming => next is Running || next is Failed,
            State::Deleting => next is Deleted,
            State::Deleted => false,
            State::Failed => false,
        }
    }

    /// Holding CPU and memory on a node.
    pub open spec fn active(self) -> bool {
        self is Creating || self is Running || self is Resuming
    }

    /// No way out.
    pub open spec fn terminal(self) -> bool {
        self is Deleted || self is Failed
    }

    /// A chain of permitted transitions, each state leading to the next.
    pub open spec fn chain(path: Seq<State>) -> bool {
        forall|i: int| 0 <= i < path.len() - 1 ==> #[trigger] path[i].edge(path[i + 1])
    }

    pub fn as_str(&self) -> (r: &'static str)
        ensures
            r@ == self.name(),
    {
        match self {
            State::Creating => "creating",
            State::Running => "running",
            State::Stopping => "stopping",
            State::Stopped => "stopped",
            State::Standby => "standby",
            State::Resuming => "resuming",
            State::Deleting => "deleting",
            State::Deleted => "deleted",
            State::Failed => "failed",
        }
    }

    /// The state with the wire name `s`, if there is one.
    pub fn parse(s: &str) -> (r: Option<State>)
        ensures
            r is Some <==> exists|st: State| #[trigger] st.name() == s@,
            r matches Some(st) ==> st.name() == s@,
    {
        if same(s, "creating") {
            assert(State::Creating.name() == s@);
            Some(State::Creating)
        } else if same(s, "running") {
            assert(State::Running.name() == s@);
            Some(State::Running)
        } else if same(s, "stopping") {
            assert(State::Stopping.name() == s@);
            Some(State::Stopping)
        } else if same(s, "stopped") {
            assert(State::Stopped.name() == s@);
            Some(State::Stopped)
        } else if same(s, "standby") {
            assert(State::Standby.name() == s@);
            Some(State::Standby)
        } else if same(s, "resuming") {
            assert(State::Resuming.name() == s@);
            Some(State::Resuming)
        } else if same(s, "deleting") {
            assert(State::Deleting.name() == s@);
            Some(State::Deleting)
        } else if same(s, "deleted") {
            assert(State::Deleted.name() == s@);
            Some(State::Deleted)
        } else if same(s, "failed") {
            assert(State::Failed.name() == s@);
            Some(State::Failed)
        } else {
            None
        }
    }

    /// Is the sandbox consuming CPU and memory on a node right now? Billing
    /// (per-second running compute) and capacity admission both ask this.
    pub fn is_active(&self) -> (r: bool)
        ensures
            r == self.active(),
    {
        matches!(self, State::Creating | State::Running | State::Resuming)
    }

    pub fn is_terminal(&self) -> (r: bool)
        ensures
            r == self.terminal(),
    {
        matches!(self, State::Deleted | State::Failed)
    }

    /// Whether the state machine permits going from this state to `next`.
    pub fn can_transition_to(&self, next: State) -> (r: bool)
        ensures
            r == self.edge(next),
    {
        match (self, next) {
            (State::Creating, State::Running) => true,
            (State::Creating, State::Failed) => true,
            (State::Running, State::Stopping) => true,
            (State::Running, State::Deleting) => true,
            (State::Running, State::Failed) => true,
            (State::Stopping, State::Stopped) => true,
            (State::Stopping, State::Standby) => true,
            (State::Standby, State::Resuming) => true,
            (State::Standby, State::Deleting) => true,
            (State::Stopped, State::Resuming) => true,
            (State::Stopped, State::Deleting) => true,
            (State::Resuming, State::Running) => true,
            (State::Resuming, State::Failed) => true,
            (State::Deleting, State::Deleted) => true,
            _ => false,
        }
    }
}

/// The wire names are pairwise different, so that parsing a name gives back the
/// state it was written for.
pub proof fn law_names_are_distinct(a: State, b: State)
    requires
        a.name() == b.name(),
    ensures
        a == b,
{
    lemma_name_shape(a);
    lemma_name_shape(b);
}

proof fn lemma_name_shape(s: State)
    ensures
        s.name().len() == (match s {
            State::Creating | State::Stopping | State::Resuming | State::Deleting => 8int,
            State::Running | State::Stopped | State::Standby | State::Deleted => 7int,
            State::Failed => 6int,
        }),
        s.name()[0] == (match s {
            State::Creating => 'c',
            State::Running | State::Resuming => 'r',
            State::Stopping | State::Stopped | State::Standby => 's',
            State::Deleting | State::Deleted => 'd',
            State::Failed => 'f',
        }),
        s.name()[2] == (match s {
            State::Creating => 'e',
            State::Standby => 'a',
            State::Running => 'n',
            State::Stopping | State::Stopped => 'o',
            State::Resuming => 's',
            State::Deleting | State::Deleted => 'l',
            State::Failed => 'i',
        }),
{
    reveal_strlit("creating");
    reveal_strlit("running");
    reveal_strlit("stopping");
    reveal_strlit("stopped");
    reveal_strlit("standby");
    reveal_strlit("resuming");
    reveal_strlit("deleting");
    reveal_strlit("deleted");
    reveal_strlit("failed");
}

/// A terminal state has no successor.
pub proof fn law_terminal_is_final(s: State, next: State)
    requires
        s.terminal(),
    ensures
        !s.edge(next),
{
}

/// A stopped sandbox runs again only by way of `resuming`, and a running one is
/// stopped only by way of `stopping`.
pub proof fn law_no_shortcuts(path: Seq<State>)
    requires
        State::chain(path),
        path.len() >= 2,
    ensures
        path.first() is Stopped && path.last() is Running ==> path.contains(State::Resuming),
        path.first() is Running && path.last() is Stopped ==> path.contains(State::Stopping),
{
    let n = path.len() as int;
    let before = path[n - 2];
    assert(before.edge(path[n - 2 + 1]));
    if path.first() is Running && path.last() is Stopped {
        assert(before is Stopping);
        assert(path[n - 2] == State::Stopping);
    }
    if path.first() is Stopped && path.last() is Running {
        assert(before is Creating || before is Resuming);
        if before is Creating {
            lemma_creating_has_no_predecessor(path, n - 2);
        } else {
            assert(path[n - 2] == State::Resuming);
        }
    }
}

proof fn lemma_creating_has_no_predecessor(path: Seq<State>, i: int)
    requires
        State::chain(path),
        0 <= i < path.len(),
        path[i] is Creating,
    ensures
        i == 0,
{
    if i > 0 {
        assert(path[i - 1].edge(path[i - 1 + 1]));
    }
}

} // verus!
