//! The key-value store as the registry sees it: named sets of byte strings,
//! and the commands that change them.
use vstd::prelude::*;

verus! {

/// One change to a named set of the store.
#[derive(Clone, Debug, PartialEq, Eq)]
pub enum StoreCommand {
    /// Put `member` into the set at `key`; a member already there stays once.
    SetAdd { key: String, member: Vec<u8> },
    /// Take `member` out of the set at `key`; an absent member is no error.
    SetRemove { key: String, member: Vec<u8> },
}

/// The mathematical value of a [`StoreCommand`].
pub ghost enum CommandView {
    SetAdd { key: Seq<char>, member: Seq<u8> },
    SetRemove { key: Seq<char>, member: Seq<u8> },
}

impl View for StoreCommand {
    type V = CommandView;

    open spec fn view(&self) -> CommandView {
        match self {
            StoreCommand::SetAdd { key, member } => CommandView::SetAdd {
                key: key@,
                member: member@,
            },
            StoreCommand::SetRemove { key, member } => CommandView::SetRemove {
                key: key@,
                member: member@,
            },
        }
    }
}

/// The views of a list of commands, in order.
pub open spec fn command_views(commands: Seq<StoreCommand>) -> Seq<CommandView> {
    Seq::new(commands.len(), |i: int| commands[i]@)
}

/// The set that a store holds at `key`; a key never written holds the empty set.
pub open spec fn members(store: Map<Seq<char>, Set<Seq<u8>>>, key: Seq<char>) -> Set<Seq<u8>> {
    if store.dom().contains(key) {
        store[key]
    } else {
        Set::empty()
    }
}

/// The store after one command.
pub open spec fn apply(store: Map<Seq<char>, Set<Seq<u8>>>, command: CommandView) -> Map<
    Seq<char>,
    Set<Seq<u8>>,
> {
    match command {
        CommandView::SetAdd { key, member } => store.insert(
            key,
            members(store, key).insert(member),
        ),
        CommandView::SetRemove { key, member } => store.insert(
            key,
            members(store, key).remove(member),
        ),
    }
}

/// The store after a list of commands, carried out first to last.
pub open spec fn apply_all(
    store: Map<Seq<char>, Set<Seq<u8>>>,
    commands: Seq<CommandView>,
) -> Map<Seq<char>, Set<Seq<u8>>>
    decreases commands.len(),
{
    if commands.len() == 0 {
        store
    } else {
        apply(apply_all(store, commands.drop_last()), commands.last())
    }
}

/// Every set of the store is finite, so that each has a cardinality.
pub open spec fn finite_store(store: Map<Seq<char>, Set<Seq<u8>>>) -> bool {
    forall|key: Seq<char>| #[trigger] members(store, key).finite()
}

} // verus!
