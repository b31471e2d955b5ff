//! Which subsystems are told of an event from the network, and with which messages.

use vstd::prelude::*;

use crate::message_laws::law_each_concerned_type_gets_a_message;

verus! {

/// The declaration of a subsystem. `I` is an identifier, `T` the path of a message type.
#[derive(Debug, PartialEq, Eq)]
pub struct SubSysField<I, T> {
    /// Name of the subsystem.
    pub name: I,
    /// The type of the messages that the subsystem consumes.
    pub consumes: T,
    /// The subsystem is not told of network events.
    pub no_dispatch: bool,
    /// The subsystem runs on the pool for tasks that block.
    pub blocking: bool,
}

/// The declaration of an overseer.
#[derive(Debug, PartialEq, Eq)]
pub struct OverseerInfo<I, T> {
    /// Name of the type that wraps the messages of all subsystems.
    pub message_wrapper: I,
    /// The type of the network events.
    pub extern_event_ty: T,
    /// The subsystems, in order.
    pub subsystems: Vec<SubSysField<I, T>>,
}

/// The message types of the subsystems that are told of network events, in order.
pub open spec fn dispatchable_of<'a, I, T>(subsystems: Seq<SubSysField<I, T>>) -> Seq<&'a T> {
    subsystems.filter(|field: SubSysField<I, T>| !field.no_dispatch).map_values(
        |field: SubSysField<I, T>| &field.consumes,
    )
}

/// The messages of those that an event concerns, in order.
pub open spec fn concerned<T, E>(types: Seq<T>, focused: Seq<Option<E>>) -> Seq<(T, E)>
    decreases types.len(),
{
    if types.len() == 0 {
        Seq::empty()
    } else {
        let before = concerned(types.drop_last(), focused);
        match focused[types.len() - 1] {
            Some(event) => before.push((types.last(), event)),
            None => before,
        }
    }
}

/// Keeps the pairs that have an event.
pub fn keep_concerned<T, E>(focused: Vec<(T, Option<E>)>) -> (messages: Vec<(T, E)>)
    ensures
        messages@ == concerned(
            focused@.map_values(|f: (T, Option<E>)| f.0),
            focused@.map_values(|f: (T, Option<E>)| f.1),
        ),
        forall|i: int|
            0 <= i < focused@.len() && focused@[i].1 is Some ==> messages@.contains(
                ((#[trigger] focused@[i]).0, focused@[i].1->0),
            ),
        forall|k: int|
            0 <= k < messages@.len() ==> focused@.contains(
                ((#[trigger] messages@[k]).0, Some(messages@[k].1)),
            ),
{
    let ghost types = focused@.map_values(|f: (T, Option<E>)| f.0);
    let ghost events = focused@.map_values(|f: (T, Option<E>)| f.1);
    let ghost all = focused@;
    let mut messages: Vec<(T, E)> = Vec::new();
    for pair in iter: focused
        invariant
            iter.seq() == all,
            types == all.map_values(|f: (T, Option<E>)| f.0),
            events == all.map_values(|f: (T, Option<E>)| f.1),
            messages@ == concerned(types.take(iter.index()), events),
    {
        let ghost at = iter.index();
        assert(types.take(at + 1).drop_last() =~= types.take(at));
        let (consumes, event) = pair;
        if let Some(event) = event {
            messages.push((consumes, event));
        }
    }
    assert(types.take(all.len() as int) =~= types);
    proof {
        let at = law_each_concerned_type_gets_a_message(types, events);
        assert forall|i: int| 0 <= i < all.len() && all[i].1 is Some implies messages@.contains(
            ((#[trigger] all[i]).0, all[i].1->0),
        ) by {
            assert(messages@.contains((types[i], events[i]->0)));
        }
        assert forall|k: int| 0 <= k < messages@.len() implies all.contains(
            ((#[trigger] messages@[k]).0, Some(messages@[k].1)),
        ) by {
            assert(all[at[k]] == (messages@[k].0, Some(messages@[k].1)));
        }
    }
    messages
}

impl<I, T> OverseerInfo<I, T> {
    /// The message types of the subsystems that are told of network events, in order.
    pub fn dispatchable(&self) -> (types: Vec<&T>)
        ensures
            types@ == dispatchable_of(self.subsystems@),
    {
        let mut types: Vec<&T> = Vec::new();
        let mut i: usize = 0;
        while i < self.subsystems.len()
            invariant
                i <= self.subsystems@.len(),
                types@ == dispatchable_of(self.subsystems@.take(i as int)),
            decreases self.subsystems@.len() - i,
        {
            let field = &self.subsystems[i];
            proof {
                reveal(Seq::filter);
                assert(self.subsystems@.take(i + 1).drop_last() =~= self.subsystems@.take(i as int));
            }
            if !field.no_dispatch {
                types.push(&field.consumes);
            }
            i += 1;
            assert(types@ =~= dispatchable_of(self.subsystems@.take(i as int)));
        }
        assert(self.subsystems@.take(i as int) =~= self.subsystems@);
        types
    }

    /// The messages that an event from the network becomes, in order: one for each dispatchable
    /// subsystem that it concerns. `focus` gives the event as seen by the subsystem that consumes
    /// the message type, if the event concerns it.
    pub fn dispatch_iter<E, F: Fn(&T) -> Option<E>>(&self, focus: F) -> (messages: Vec<(&T, E)>)
        requires
            forall|t: &T| call_requires(focus, (t,)),
        ensures
            exists|focused: Seq<Option<E>>|
                {
                    &&& #[trigger] focused.len() == dispatchable_of(self.subsystems@).len()
                    &&& forall|i: int|
                        0 <= i < focused.len() ==> call_ensures(
                            focus,
                            (dispatchable_of(self.subsystems@)[i],),
                            #[trigger] focused[i],
                        )
                    &&& messages@ == concerned(dispatchable_of(self.subsystems@), focused)
                },
    {
        let types = self.dispatchable();
        let ghost all = types@;
        let mut focused: Vec<(&T, Option<E>)> = Vec::new();
        for consumes in iter: types
            invariant
                iter.seq() == all,
                forall|t: &T| call_requires(focus, (t,)),
                focused@.len() == iter.index(),
                forall|i: int|
                    0 <= i < iter.index() ==> (#[trigger] focused@[i]).0 == all[i] && call_ensures(
                        focus,
                        (all[i],),
                        focused@[i].1,
                    ),
        {
            let event = focus(consumes);
            focused.push((consumes, event));
        }
        proof {
            let outcomes = focused@.map_values(|f: (&T, Option<E>)| f.1);
            assert(outcomes.len() == all.len());
            assert(focused@.map_values(|f: (&T, Option<E>)| f.0) =~= all);
        }
        keep_concerned(focused)
    }
}

} // verus!
