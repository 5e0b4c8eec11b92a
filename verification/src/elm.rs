use vstd::prelude::*;

verus! {

/// A command that an application hands back to its host after an update.
///
/// `Msg` is the application's message type and `E` the type of the effects
/// that the host knows how to run (reading the terminal size, fetching a
/// file, ...).  An effect, once run by the host, yields a message.
pub enum Cmd<Msg, E> {
    /// Nothing to do.
    Nothing,
    /// Run an effect; its outcome is fed back to the application.
    Suspend(E),
    /// Feed a message back to the application.
    Dispatch(Msg),
    /// `AndThen(then, first)`: run `first`, then `then`.
    AndThen(Box<Cmd<Msg, E>>, Box<Cmd<Msg, E>>),
    /// Stop the application.
    Gtfo,
}

/// The sequence of elementary commands (`Suspend`, `Dispatch`, `Gtfo`) that
/// a command stands for, in the order in which they are carried out.
pub open spec fn leaves<Msg, E>(cmd: Cmd<Msg, E>) -> Seq<Cmd<Msg, E>>
    decreases cmd,
{
    match cmd {
        Cmd::Nothing => Seq::empty(),
        Cmd::AndThen(then, first) => leaves(*first) + leaves(*then),
        _ => seq![cmd],
    }
}

/// A command is elementary when it is one of the commands that the host
/// acts upon directly.
pub open spec fn is_leaf<Msg, E>(cmd: Cmd<Msg, E>) -> bool {
    cmd is Suspend || cmd is Dispatch || cmd is Gtfo
}

/// The number of nodes of a command tree.
pub open spec fn size<Msg, E>(cmd: Cmd<Msg, E>) -> nat
    decreases cmd,
{
    match cmd {
        Cmd::AndThen(then, first) => 1 + size(*first) + size(*then),
        _ => 1,
    }
}

impl<Msg, E> Cmd<Msg, E> {
    /// The command that does nothing.
    pub fn none() -> (cmd: Self)
        ensures
            cmd is Nothing,
            leaves(cmd) == Seq::<Self>::empty(),
    {
        Cmd::Nothing
    }

    /// The command that runs `effect` and feeds its outcome back.
    pub fn suspend(effect: E) -> (cmd: Self)
        ensures
            cmd == Cmd::<Msg, E>::Suspend(effect),
            leaves(cmd) == seq![cmd],
    {
        Cmd::Suspend(effect)
    }

    /// The command that feeds `message` back to the application.
    pub fn dispatch(message: Msg) -> (cmd: Self)
        ensures
            cmd == Cmd::<Msg, E>::Dispatch(message),
            leaves(cmd) == seq![cmd],
    {
        Cmd::Dispatch(message)
    }

    /// The command that runs `self` first and `then` after it.
    pub fn and_then(self, then: Self) -> (cmd: Self)
        ensures
            cmd == Cmd::AndThen(Box::new(then), Box::new(self)),
            leaves(cmd) == leaves(self) + leaves(then),
    {
        Cmd::AndThen(Box::new(then), Box::new(self))
    }

    /// The command that stops the application.
    pub fn gtfo() -> (cmd: Self)
        ensures
            cmd is Gtfo,
            leaves(cmd) == seq![cmd],
    {
        Cmd::Gtfo
    }
}

/// Every element of `leaves(cmd)` is an elementary command.
pub proof fn lemma_leaves_are_leaves<Msg, E>(cmd: Cmd<Msg, E>)
    ensures
        forall|i: int| 0 <= i < leaves(cmd).len() ==> is_leaf(#[trigger] leaves(cmd)[i]),
    decreases cmd,
{
    match cmd {
        Cmd::AndThen(then, first) => {
            lemma_leaves_are_leaves(*first);
            lemma_leaves_are_leaves(*then);
            let l = leaves(*first);
            let r = leaves(*then);
            assert forall|i: int| 0 <= i < leaves(cmd).len() implies is_leaf(
                #[trigger] leaves(cmd)[i],
            ) by {
                if i < l.len() {
                    assert(leaves(cmd)[i] == l[i]);
                } else {
                    assert(leaves(cmd)[i] == r[i - l.len()]);
                }
            }
        },
        _ => {},
    }
}

/// Sequencing is associative: `(a; b); c` carries out the same elementary
/// commands, in the same order, as `a; (b; c)`.
pub proof fn lemma_and_then_associative<Msg, E>(a: Cmd<Msg, E>, b: Cmd<Msg, E>, c: Cmd<Msg, E>)
    ensures
        leaves(Cmd::AndThen(Box::new(c), Box::new(Cmd::AndThen(Box::new(b), Box::new(a)))))
            == leaves(Cmd::AndThen(Box::new(Cmd::AndThen(Box::new(c), Box::new(b))), Box::new(a))),
{
    let ab = Cmd::AndThen(Box::new(b), Box::new(a));
    let bc = Cmd::AndThen(Box::new(c), Box::new(b));
    assert(leaves(ab) == leaves(a) + leaves(b));
    assert(leaves(bc) == leaves(b) + leaves(c));
    assert(leaves(a) + leaves(b) + leaves(c) =~= leaves(a) + (leaves(b) + leaves(c)));
}

/// `none` is a neutral element of sequencing, on either side.
pub proof fn lemma_and_then_none_neutral<Msg, E>(a: Cmd<Msg, E>)
    ensures
        leaves(Cmd::AndThen(Box::new(a), Box::new(Cmd::<Msg, E>::Nothing))) == leaves(a),
        leaves(Cmd::AndThen(Box::new(Cmd::<Msg, E>::Nothing), Box::new(a))) == leaves(a),
{
    assert(leaves(Cmd::<Msg, E>::Nothing) == Seq::<Cmd<Msg, E>>::empty());
    assert(Seq::<Cmd<Msg, E>>::empty() + leaves(a) =~= leaves(a));
    assert(leaves(a) + Seq::<Cmd<Msg, E>>::empty() =~= leaves(a));
}

/// What the host has to do after one step of the interpreter.
pub enum Action<Msg, E> {
    /// Nothing outside: the interpreter rearranged its own work.
    Continue,
    /// Run this effect and hand its message to the application.
    Perform(E),
    /// Hand this message to the application.
    Deliver(Msg),
    /// No work is left: wait for the next outside event and hand it over.
    AwaitEvent,
    /// Stop.
    Quit,
}

/// The action that an elementary command asks of the host.
pub open spec fn action_of<Msg, E>(leaf: Cmd<Msg, E>) -> Action<Msg, E> {
    match leaf {
        Cmd::Suspend(e) => Action::Perform(e),
        Cmd::Dispatch(m) => Action::Deliver(m),
        _ => Action::Quit,
    }
}

/// The elementary commands held by a stack of deferred commands, the top of
/// the stack (its last element) first.
pub open spec fn stack_leaves<Msg, E>(stack: Seq<Cmd<Msg, E>>) -> Seq<Cmd<Msg, E>>
    decreases stack.len(),
{
    if stack.len() == 0 {
        Seq::empty()
    } else {
        leaves(stack.last()) + stack_leaves(stack.drop_last())
    }
}

/// The total size of the commands on a stack.
pub open spec fn stack_size<Msg, E>(stack: Seq<Cmd<Msg, E>>) -> nat
    decreases stack.len(),
{
    if stack.len() == 0 {
        0
    } else {
        size(stack.last()) + stack_size(stack.drop_last())
    }
}

/// The interpreter of commands that drives an application: the command at
/// hand and the commands deferred by `AndThen`, to be carried out later.
pub struct Automat<Msg, E> {
    pub current: Cmd<Msg, E>,
    pub stack: Vec<Cmd<Msg, E>>,
}

impl<Msg, E> Automat<Msg, E> {
    /// The elementary commands still to be carried out, in order.
    pub open spec fn pending(&self) -> Seq<Cmd<Msg, E>> {
        leaves(self.current) + stack_leaves(self.stack@)
    }

    /// A measure of the rearranging left before the next elementary command.
    pub open spec fn work(&self) -> nat {
        size(self.current) + stack_size(self.stack@)
    }

    /// An interpreter that starts with `cmd` and nothing deferred.
    pub fn new(cmd: Cmd<Msg, E>) -> (a: Self)
        ensures
            a.current == cmd,
            a.stack@ == Seq::<Cmd<Msg, E>>::empty(),
            a.pending() == leaves(cmd),
    {
        let a = Automat { current: cmd, stack: Vec::new() };
        assert(a.pending() =~= leaves(cmd));
        a
    }

    /// One step of the interpreter.
    ///
    /// A sequence is taken apart (its second part deferred on the stack);
    /// with nothing at hand the most recently deferred command is taken up,
    /// or, with nothing deferred either, the host is asked to wait for an
    /// event; an elementary command is handed to the host and leaves nothing
    /// at hand.
    pub fn step(&mut self) -> (action: Action<Msg, E>)
        ensures
            match old(self).current {
                Cmd::AndThen(then, first) => {
                    &&& action is Continue
                    &&& final(self).current == *first
                    &&& final(self).stack@ == old(self).stack@.push(*then)
                },
                Cmd::Nothing => if old(self).stack@.len() > 0 {
                    &&& action is Continue
                    &&& final(self).current == old(self).stack@.last()
                    &&& final(self).stack@ == old(self).stack@.drop_last()
                } else {
                    &&& action is AwaitEvent
                    &&& final(self).current is Nothing
                    &&& final(self).stack@ == old(self).stack@
                },
                _ => {
                    &&& action == action_of(old(self).current)
                    &&& final(self).current is Nothing
                    &&& final(self).stack@ == old(self).stack@
                },
            },
            // Rearranging keeps the pending work and makes progress.
            action is Continue ==> {
                &&& final(self).pending() == old(self).pending()
                &&& final(self).work() < old(self).work()
            },
            // The host is asked to wait only when nothing is pending.
            action is AwaitEvent ==> old(self).pending().len() == 0,
            // Otherwise the host is handed the first pending command, and
            // the rest stays pending.
            !(action is Continue) && !(action is AwaitEvent) ==> {
                &&& old(self).pending().len() > 0
                &&& action == action_of(old(self).pending()[0])
                &&& final(self).pending() == old(self).pending().drop_first()
            },
    {
        let mut cmd = Cmd::Nothing;
        std::mem::swap(&mut cmd, &mut self.current);
        let ghost old_stack = self.stack@;
        match cmd {
            Cmd::AndThen(then, first) => {
                self.stack.push(*then);
                self.current = *first;
                proof {
                    assert(self.stack@.drop_last() =~= old_stack);
                    assert(stack_leaves(self.stack@) == leaves(*then) + stack_leaves(old_stack));
                    assert(self.pending() =~= leaves(*first) + leaves(*then) + stack_leaves(
                        old_stack,
                    ));
                }
                Action::Continue
            },
            Cmd::Nothing => {
                match self.stack.pop() {
                    Some(next) => {
                        self.current = next;
                        proof {
                            assert(self.pending() =~= stack_leaves(old_stack));
                            assert(leaves(Cmd::<Msg, E>::Nothing) + stack_leaves(old_stack)
                                =~= stack_leaves(old_stack));
                        }
                        Action::Continue
                    },
                    None => {
                        assert(stack_leaves(old_stack) =~= Seq::<Cmd<Msg, E>>::empty());
                        Action::AwaitEvent
                    },
                }
            },
            Cmd::Suspend(e) => {
                proof {
                    assert(seq![cmd] + stack_leaves(old_stack) =~= seq![cmd].add(
                        stack_leaves(old_stack),
                    ));
                    assert((seq![cmd] + stack_leaves(old_stack)).drop_first() =~= stack_leaves(
                        old_stack,
                    ));
                    assert(leaves(Cmd::<Msg, E>::Nothing) + stack_leaves(old_stack)
                        =~= stack_leaves(old_stack));
                }
                Action::Perform(e)
            },
            Cmd::Dispatch(m) => {
                proof {
                    assert((seq![cmd] + stack_leaves(old_stack)).drop_first() =~= stack_leaves(
                        old_stack,
                    ));
                    assert(leaves(Cmd::<Msg, E>::Nothing) + stack_leaves(old_stack)
                        =~= stack_leaves(old_stack));
                }
                Action::Deliver(m)
            },
            Cmd::Gtfo => {
                proof {
                    assert((seq![cmd] + stack_leaves(old_stack)).drop_first() =~= stack_leaves(
                        old_stack,
                    ));
                    assert(leaves(Cmd::<Msg, E>::Nothing) + stack_leaves(old_stack)
                        =~= stack_leaves(old_stack));
                }
                Action::Quit
            },
        }
    }

    /// Continue with `cmd`, the command that the application returned from
    /// an update; what was deferred stays deferred, after it.
    pub fn resume(&mut self, cmd: Cmd<Msg, E>)
        ensures
            final(self).current == cmd,
            final(self).stack@ == old(self).stack@,
            old(self).current is Nothing ==> final(self).pending() == leaves(cmd) + old(
                self,
            ).pending(),
    {
        self.current = cmd;
        proof {
            if old(self).current is Nothing {
                assert(leaves(Cmd::<Msg, E>::Nothing) + stack_leaves(self.stack@) =~= stack_leaves(
                    self.stack@,
                ));
            }
        }
    }
}

/// Data that is fetched by an effect: not yet known, at hand, or failed
/// with a description of the failure.
#[derive(Clone, Debug)]
pub enum Resource<A> {
    Unknown,
    Present(A),
    Failed(String),
}

/// What an effect that was asked to fetch a resource hands to the host:
/// the effect itself, and how to turn the resource into a message.
pub struct Fetch<F, G> {
    pub effect: F,
    pub as_msg: G,
}

/// The resource that an effect's outcome stands for.
pub open spec fn settled<A>(outcome: Result<A, String>) -> Resource<A> {
    match outcome {
        Ok(a) => Resource::Present(a),
        Err(e) => Resource::Failed(e),
    }
}

impl<A> Resource<A> {
    /// The command that runs `effect` and hands the resource it produced,
    /// by way of `as_msg`, back to the application.
    pub fn fetch<F, G, Msg>(effect: F, as_msg: G) -> (cmd: Cmd<Msg, Fetch<F, G>>) where
        G: FnOnce(Resource<A>) -> Msg,
        ensures
            cmd == Cmd::<Msg, Fetch<F, G>>::Suspend(Fetch { effect, as_msg }),
    {
        Cmd::Suspend(Fetch { effect, as_msg })
    }

    /// The resource that the outcome of a fetch stands for: what it
    /// produced, or the description of its failure.
    pub fn settle(outcome: Result<A, String>) -> (r: Resource<A>)
        ensures
            r == settled(outcome),
    {
        match outcome {
            Ok(a) => Resource::Present(a),
            Err(e) => Resource::Failed(e),
        }
    }

    /// Turns the outcome of a fetch into the application's message.
    pub fn deliver<G, Msg>(outcome: Result<A, String>, as_msg: G) -> (msg: Msg) where
        G: FnOnce(Resource<A>) -> Msg,
        requires
            as_msg.requires((settled(outcome),)),
        ensures
            as_msg.ensures((settled(outcome),), msg),
    {
        as_msg(Self::settle(outcome))
    }

    /// The data, when it is at hand.
    pub fn present(&self) -> (r: Option<&A>)
        ensures
            match self {
                Resource::Present(x) => r == Some(x),
                _ => r is None,
            },
    {
        match self {
            Resource::Present(x) => Some(x),
            _ => None,
        }
    }
}

impl<A> Default for Resource<A> {
    fn default() -> (r: Self)
        ensures
            r is Unknown,
    {
        Resource::Unknown
    }
}

} // verus!
