//! Undo / redo history of editor commands.
use vstd::prelude::*;

verus! {

/// An editor operation that can be applied to a context and taken back.
/// An implementation may describe what its runs do by defining `executes`
/// and `undoes`; by default they say nothing.
pub trait Command<Ctx>: Sized {
    /// Running the command as `cmd` on `before` may leave it as `cmd_after`
    /// and the context as `after`.
    open spec fn executes(cmd: Self, before: Ctx, cmd_after: Self, after: Ctx) -> bool {
        true
    }

    /// Taking back the command as `cmd` on `before` may leave it as
    /// `cmd_after` and the context as `after`.
    open spec fn undoes(cmd: Self, before: Ctx, cmd_after: Self, after: Ctx) -> bool {
        true
    }

    fn execute(&mut self, ctx: &mut Ctx)
        ensures
            Self::executes(*old(self), *old(ctx), *final(self), *final(ctx)),
    ;

    fn undo(&mut self, ctx: &mut Ctx)
        ensures
            Self::undoes(*old(self), *old(ctx), *final(self), *final(ctx)),
    ;
}

/// The two stacks of the history: commands that can be undone (most recent
/// last) and commands that can be redone (most recently undone last).
#[verifier::ext_equal]
pub struct ActionsView<C> {
    pub undo: Seq<C>,
    pub redo: Seq<C>,
}

/// The editor's command history.
pub struct Actions<C> {
    undo_stack: Vec<C>,
    redo_stack: Vec<C>,
}

impl<C> View for Actions<C> {
    type V = ActionsView<C>;

    closed spec fn view(&self) -> ActionsView<C> {
        ActionsView { undo: self.undo_stack@, redo: self.redo_stack@ }
    }
}

/// Doing a new command: it goes on top of the undo stack (as it is after
/// running) and the redo stack is emptied.
pub open spec fn did_command<C>(before: ActionsView<C>, after: ActionsView<C>) -> bool {
    &&& after.undo.len() == before.undo.len() + 1
    &&& after.undo.drop_last() == before.undo
    &&& after.redo.len() == 0
}

/// Undoing: with an empty undo stack nothing changes; otherwise its top
/// command moves, undone, onto the redo stack.
pub open spec fn undid<C>(before: ActionsView<C>, after: ActionsView<C>) -> bool {
    if before.undo.len() == 0 {
        after == before
    } else {
        &&& after.undo == before.undo.drop_last()
        &&& after.redo.len() == before.redo.len() + 1
        &&& after.redo.drop_last() == before.redo
    }
}

/// Redoing: with an empty redo stack nothing changes; otherwise its top
/// command moves, executed again, onto the undo stack.
pub open spec fn redid<C>(before: ActionsView<C>, after: ActionsView<C>) -> bool {
    if before.redo.len() == 0 {
        after == before
    } else {
        &&& after.redo == before.redo.drop_last()
        &&& after.undo.len() == before.undo.len() + 1
        &&& after.undo.drop_last() == before.undo
    }
}

impl<C> Actions<C> {
    /// An empty history.
    pub fn new() -> (r: Self)
        ensures
            r@.undo.len() == 0,
            r@.redo.len() == 0,
    {
        Self { undo_stack: Vec::new(), redo_stack: Vec::new() }
    }

    /// Runs `command` and records it; what was undone can no longer be redone.
    pub fn do_command<Ctx>(&mut self, command: C, ctx: &mut Ctx) where C: Command<Ctx>
        ensures
            did_command(old(self)@, final(self)@),
            C::executes(command, *old(ctx), final(self)@.undo.last(), *final(ctx)),
    {
        let mut command = command;
        command.execute(ctx);
        self.undo_stack.push(command);
        self.redo_stack.clear();
        assert(self.undo_stack@.drop_last() =~= old(self).undo_stack@);
    }

    /// Takes back the most recent command, if any.
    pub fn undo<Ctx>(&mut self, ctx: &mut Ctx) where C: Command<Ctx>
        ensures
            undid(old(self)@, final(self)@),
            old(self)@.undo.len() == 0 ==> *final(ctx) == *old(ctx),
            old(self)@.undo.len() > 0 ==> C::undoes(
                old(self)@.undo.last(),
                *old(ctx),
                final(self)@.redo.last(),
                *final(ctx),
            ),
    {
        if let Some(mut command) = self.undo_stack.pop() {
            command.undo(ctx);
            self.redo_stack.push(command);
            assert(self.redo_stack@.drop_last() =~= old(self).redo_stack@);
        } else {
            assert(self@ =~= old(self)@);
        }
    }

    /// Applies again the most recently undone command, if any.
    pub fn redo<Ctx>(&mut self, ctx: &mut Ctx) where C: Command<Ctx>
        ensures
            redid(old(self)@, final(self)@),
            old(self)@.redo.len() == 0 ==> *final(ctx) == *old(ctx),
            old(self)@.redo.len() > 0 ==> C::executes(
                old(self)@.redo.last(),
                *old(ctx),
                final(self)@.undo.last(),
                *final(ctx),
            ),
    {
        if let Some(mut command) = self.redo_stack.pop() {
            command.execute(ctx);
            self.undo_stack.push(command);
            assert(self.undo_stack@.drop_last() =~= old(self).undo_stack@);
        } else {
            assert(self@ =~= old(self)@);
        }
    }
}

/// Undoing right after doing a command gives back the undo stack from before
/// the command, with exactly that command left to redo.
pub proof fn lemma_undo_after_do<C>(a: ActionsView<C>, b: ActionsView<C>, c: ActionsView<C>)
    requires
        did_command(a, b),
        undid(b, c),
    ensures
        c.undo == a.undo,
        c.redo.len() == 1,
{
}

/// Redoing right after undoing gives back both stacks' sizes and everything
/// below their tops.
pub proof fn lemma_redo_after_undo<C>(a: ActionsView<C>, b: ActionsView<C>, c: ActionsView<C>)
    requires
        a.undo.len() > 0,
        undid(a, b),
        redid(b, c),
    ensures
        c.undo.len() == a.undo.len(),
        c.undo.drop_last() == a.undo.drop_last(),
        c.redo == a.redo,
{
}

/// The history never loses or gains commands by undoing or redoing: the two
/// stacks together keep their size.
pub proof fn lemma_undo_redo_keep_size<C>(a: ActionsView<C>, b: ActionsView<C>)
    requires
        undid(a, b) || redid(a, b),
    ensures
        b.undo.len() + b.redo.len() == a.undo.len() + a.redo.len(),
{
}

/// What summoning an entity does on its next run.
#[derive(PartialEq, Eq, Structural, Debug)]
pub enum SummonStep<E> {
    /// First run: summon a new entity.
    SummonNew,
    /// Redo: summon again the entity that was undone, under the same id.
    Resummon(E),
}

/// The "summon empty entity" command: it remembers the entity it made, so
/// that undo destroys it and redo brings it back under the same id.
pub struct CommandSummonEntity<E> {
    pub spawned_entity: Option<E>,
}

impl<E: Copy> CommandSummonEntity<E> {
    /// A command that has not run yet.
    pub fn new() -> (r: Self)
        ensures
            r.spawned_entity is None,
    {
        Self { spawned_entity: None }
    }

    /// What the next run does.
    pub fn summon_step(&self) -> (r: SummonStep<E>)
        ensures
            self.spawned_entity is None ==> r == SummonStep::<E>::SummonNew,
            self.spawned_entity matches Some(e) ==> r == SummonStep::Resummon(e),
    {
        match self.spawned_entity {
            Some(e) => SummonStep::Resummon(e),
            None => SummonStep::SummonNew,
        }
    }

    /// Records the entity a run made.
    pub fn record_spawned(&mut self, entity: E)
        ensures
            final(self).spawned_entity == Some(entity),
    {
        self.spawned_entity = Some(entity);
    }

    /// The entity an undo destroys.
    pub fn undo_target(&self) -> (r: E)
        requires
            self.spawned_entity is Some,
        ensures
            self.spawned_entity == Some(r),
    {
        self.spawned_entity.unwrap()
    }
}

} // verus!
