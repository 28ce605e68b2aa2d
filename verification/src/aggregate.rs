//! Aggregate definitions, the registry that owns them, and the routing table
//! from command names to aggregate names.

use crate::name_map::{map_of, with_name, with_value, NameMap};
use vstd::prelude::*;

verus! {

/// Handlers by the type name that each one takes.
pub type TheHandlerRegistry<H> = NameMap<H>;

/// For each command name, the name of the aggregate that handles it.
pub type RoutingTable = NameMap<String>;

/// A registry with no handlers.
pub fn empty_handler_registry<H>() -> (r: TheHandlerRegistry<H>)
    ensures
        r.names() == Seq::<Seq<char>>::empty(),
        r.as_map() == Map::<Seq<char>, H>::empty(),
{
    NameMap::new()
}

/// One aggregate type: how to make its empty projection, and its handlers
/// for extracting the aggregate identifier, for commands and for sourcing
/// events.
pub struct AggregateDefinition<F, X, C, S> {
    pub projection_name: String,
    pub empty_projection: F,
    pub aggregate_id_extractor_registry: TheHandlerRegistry<X>,
    pub command_handler_registry: TheHandlerRegistry<C>,
    pub sourcing_handler_registry: TheHandlerRegistry<S>,
}

/// What the pipeline reads of an aggregate definition: its name and the
/// names under which it has handlers.
pub struct DefinitionView {
    pub name: Seq<char>,
    pub extractors: Seq<Seq<char>>,
    pub commands: Seq<Seq<char>>,
    pub sourcing: Seq<Seq<char>>,
}

impl<F, X, C, S> View for AggregateDefinition<F, X, C, S> {
    type V = DefinitionView;

    open spec fn view(&self) -> DefinitionView {
        DefinitionView {
            name: self.projection_name@,
            extractors: self.aggregate_id_extractor_registry.names(),
            commands: self.command_handler_registry.names(),
            sourcing: self.sourcing_handler_registry.names(),
        }
    }
}

/// Bundles a name, a factory for the empty projection and three handler
/// registries into an aggregate definition.
pub fn create_aggregate_definition<F, X, C, S>(
    projection_name: String,
    empty_projection: F,
    aggregate_id_extractor_registry: TheHandlerRegistry<X>,
    command_handler_registry: TheHandlerRegistry<C>,
    sourcing_handler_registry: TheHandlerRegistry<S>,
) -> (r: AggregateDefinition<F, X, C, S>)
    ensures
        r.projection_name == projection_name,
        r.empty_projection == empty_projection,
        r.aggregate_id_extractor_registry == aggregate_id_extractor_registry,
        r.command_handler_registry == command_handler_registry,
        r.sourcing_handler_registry == sourcing_handler_registry,
{
    AggregateDefinition {
        projection_name,
        empty_projection,
        aggregate_id_extractor_registry,
        command_handler_registry,
        sourcing_handler_registry,
    }
}

/// What the registry asks of an aggregate: its name and the names of the
/// commands that it handles.
pub trait AggregateHandle {
    /// The aggregate's name.
    spec fn name_spec(&self) -> Seq<char>;

    /// The names of the commands that the aggregate handles, in order.
    spec fn command_names_spec(&self) -> Seq<Seq<char>>;

    fn name(&self) -> (r: String)
        ensures
            r@ == self.name_spec(),
    ;

    fn command_names(&self) -> (r: Vec<String>)
        ensures
            r.deep_view() == self.command_names_spec(),
    ;
}

impl<F, X, C, S> AggregateHandle for AggregateDefinition<F, X, C, S> {
    open spec fn name_spec(&self) -> Seq<char> {
        self.projection_name@
    }

    open spec fn command_names_spec(&self) -> Seq<Seq<char>> {
        self.command_handler_registry.names()
    }

    fn name(&self) -> (r: String) {
        self.projection_name.clone()
    }

    fn command_names(&self) -> (r: Vec<String>) {
        self.command_handler_registry.names_vec()
    }
}

/// The table after each of `commands`, in order, is routed to `aggregate`.
pub open spec fn routed(
    table: Map<Seq<char>, Seq<char>>,
    aggregate: Seq<char>,
    commands: Seq<Seq<char>>,
) -> Map<Seq<char>, Seq<char>>
    decreases commands.len(),
{
    if commands.len() == 0 {
        table
    } else {
        routed(table, aggregate, commands.drop_last()).insert(commands.last(), aggregate)
    }
}

/// The table after the commands of each aggregate, in the order of
/// `aggregates`, are routed to it. `commands[i]` are the commands of
/// `aggregates[i]`.
pub open spec fn routed_all(
    table: Map<Seq<char>, Seq<char>>,
    aggregates: Seq<Seq<char>>,
    commands: Seq<Seq<Seq<char>>>,
) -> Map<Seq<char>, Seq<char>>
    decreases aggregates.len(),
{
    if aggregates.len() == 0 || commands.len() == 0 {
        table
    } else {
        routed(
            routed_all(table, aggregates.drop_last(), commands.drop_last()),
            aggregates.last(),
            commands.last(),
        )
    }
}

/// The command names of all aggregates, one aggregate after the other.
pub open spec fn all_commands(commands: Seq<Seq<Seq<char>>>) -> Seq<Seq<char>>
    decreases commands.len(),
{
    if commands.len() == 0 {
        Seq::empty()
    } else {
        all_commands(commands.drop_last()) + commands.last()
    }
}

/// What a routing table holds.
pub open spec fn table_view(table: RoutingTable) -> Map<Seq<char>, Seq<char>> {
    Map::new(
        |command: Seq<char>| table.has(command),
        |command: Seq<char>| table.value_of(command)@,
    )
}

/// The command names of each of `handles`, in order.
pub open spec fn command_lists<A: AggregateHandle>(handles: Seq<A>) -> Seq<Seq<Seq<char>>> {
    Seq::new(handles.len(), |i: int| handles[i].command_names_spec())
}

/// Routing commands to an aggregate gives that aggregate each of them and
/// leaves every other entry of the table as it was.
pub proof fn lemma_routed(
    table: Map<Seq<char>, Seq<char>>,
    aggregate: Seq<char>,
    commands: Seq<Seq<char>>,
    c: Seq<char>,
)
    ensures
        routed(table, aggregate, commands).contains_key(c) <==> table.contains_key(c)
            || commands.contains(c),
        commands.contains(c) ==> routed(table, aggregate, commands)[c] == aggregate,
        !commands.contains(c) && table.contains_key(c) ==> routed(table, aggregate, commands)[c]
            == table[c],
    decreases commands.len(),
{
    if commands.len() > 0 {
        let front = commands.drop_last();
        lemma_routed(table, aggregate, front, c);
        if commands.contains(c) {
            let j = choose|j: int| 0 <= j < commands.len() && commands[j] == c;
            if j < front.len() {
                assert(front[j] == c);
            }
        }
        if front.contains(c) {
            let j = choose|j: int| 0 <= j < front.len() && front[j] == c;
            assert(commands[j] == c);
        }
        if c == commands.last() {
            assert(commands[commands.len() - 1] == c);
        }
    }
}

/// The place of the last aggregate that handles the command `c`, or -1
/// where none does. `commands[i]` are the commands of the aggregate at
/// place `i`.
pub open spec fn last_handler(commands: Seq<Seq<Seq<char>>>, c: Seq<char>) -> int
    decreases commands.len(),
{
    if commands.len() == 0 {
        -1
    } else if commands.last().contains(c) {
        commands.len() - 1
    } else {
        last_handler(commands.drop_last(), c)
    }
}

/// `last_handler` is the place of an aggregate that handles the command and
/// after which none does, or -1 where no aggregate handles the command.
pub proof fn lemma_last_handler(commands: Seq<Seq<Seq<char>>>, c: Seq<char>)
    ensures
        -1 <= last_handler(commands, c) < commands.len(),
        last_handler(commands, c) >= 0 ==> commands[last_handler(commands, c)].contains(c),
        forall|j: int|
            last_handler(commands, c) < j < commands.len() ==> !(#[trigger] commands[j]).contains(
                c,
            ),
    decreases commands.len(),
{
    if commands.len() > 0 && !commands.last().contains(c) {
        let front = commands.drop_last();
        lemma_last_handler(front, c);
        assert forall|j: int| last_handler(commands, c) < j < commands.len() implies !(
        #[trigger] commands[j]).contains(c) by {
            if j < front.len() {
                assert(front[j] == commands[j]);
            }
        }
        if last_handler(front, c) >= 0 {
            assert(front[last_handler(front, c)] == commands[last_handler(front, c)]);
        }
    }
}

/// Routing totality. After the commands of every aggregate are routed, a
/// command name that some aggregate handles is in the table, under the name
/// of the last aggregate that handles it; a name that no aggregate handles
/// has the entry that the table had before, or none.
pub proof fn lemma_routed_all(
    table: Map<Seq<char>, Seq<char>>,
    aggregates: Seq<Seq<char>>,
    commands: Seq<Seq<Seq<char>>>,
    c: Seq<char>,
)
    requires
        aggregates.len() == commands.len(),
    ensures
        routed_all(table, aggregates, commands).contains_key(c) <==> table.contains_key(c)
            || last_handler(commands, c) >= 0,
        last_handler(commands, c) >= 0 ==> routed_all(table, aggregates, commands)[c]
            == aggregates[last_handler(commands, c)],
        last_handler(commands, c) < 0 && table.contains_key(c) ==> routed_all(
            table,
            aggregates,
            commands,
        )[c] == table[c],
    decreases aggregates.len(),
{
    if aggregates.len() > 0 {
        let before = routed_all(table, aggregates.drop_last(), commands.drop_last());
        lemma_routed_all(table, aggregates.drop_last(), commands.drop_last(), c);
        lemma_routed(before, aggregates.last(), commands.last(), c);
        lemma_last_handler(commands.drop_last(), c);
        if !commands.last().contains(c) && last_handler(commands, c) >= 0 {
            assert(aggregates.drop_last()[last_handler(commands, c)]
                == aggregates[last_handler(commands, c)]);
        }
    }
}

/// The aggregates, by name, in the order in which each was last inserted.
/// Inserting under a name that is present replaces the aggregate held under
/// it.
pub struct TheAggregateRegistry<A> {
    pub handlers: NameMap<A>,
}

/// A registry of aggregates and the routing that follows from it.
pub trait AggregateRegistry<A: AggregateHandle>: Sized {
    /// The names under which aggregates are held, in the order in which each
    /// was last inserted.
    spec fn names(&self) -> Seq<Seq<char>>;

    /// The aggregates held, each at the place of its name.
    spec fn handles(&self) -> Seq<A>;

    /// Adds `aggregate_handle` under its own name, after all others. An
    /// aggregate already held under that name is dropped.
    fn insert(&mut self, aggregate_handle: A)
        ensures
            final(self).names() == with_name(old(self).names(), aggregate_handle.name_spec()),
            final(self).handles() == with_value(
                old(self).names(),
                old(self).handles(),
                aggregate_handle.name_spec(),
                aggregate_handle,
            ),
            map_of(final(self).names(), final(self).handles()) == map_of(
                old(self).names(),
                old(self).handles(),
            ).insert(aggregate_handle.name_spec(), aggregate_handle),
    ;

    /// The aggregate held under `name`.
    fn get<'a>(&'a self, name: &String) -> (r: Option<&'a A>)
        ensures
            match r {
                Some(a) => map_of(self.names(), self.handles()).contains_key(name@) && *a
                    == map_of(self.names(), self.handles())[name@],
                None => !map_of(self.names(), self.handles()).contains_key(name@),
            },
    ;

    /// Adds the command names of every aggregate to `commands`, one
    /// aggregate after the other, and routes each of those names to its
    /// aggregate in `command_to_aggregate_mapping`. Where two aggregates
    /// handle commands of one name, the later one gets them.
    fn register(&self, commands: &mut Vec<String>, command_to_aggregate_mapping: &mut RoutingTable)
        ensures
            final(commands).deep_view() == old(commands).deep_view() + all_commands(
                command_lists(self.handles()),
            ),
            table_view(*final(command_to_aggregate_mapping)) == routed_all(
                table_view(*old(command_to_aggregate_mapping)),
                self.names(),
                command_lists(self.handles()),
            ),
    ;
}

/// The aggregates of a registry by name.
pub open spec fn by_name<A: AggregateHandle, R: AggregateRegistry<A>>(registry: R) -> Map<
    Seq<char>,
    A,
> {
    map_of(registry.names(), registry.handles())
}

impl<A: AggregateHandle> AggregateRegistry<A> for TheAggregateRegistry<A> {
    open spec fn names(&self) -> Seq<Seq<char>> {
        self.handlers.names()
    }

    open spec fn handles(&self) -> Seq<A> {
        self.handlers.values()
    }

    fn insert(&mut self, aggregate_handle: A) {
        let name = aggregate_handle.name();
        self.handlers.insert(name, aggregate_handle);
    }

    fn get<'a>(&'a self, name: &String) -> (r: Option<&'a A>) {
        self.handlers.get(name)
    }

    fn register(&self, commands: &mut Vec<String>, command_to_aggregate_mapping: &mut RoutingTable) {
        let n = self.handlers.len();
        let ghost lists = command_lists(self.handles());
        let ghost names = self.names();
        let ghost start_commands = commands.deep_view();
        let ghost start_table = table_view(*command_to_aggregate_mapping);
        let mut i: usize = 0;
        assert(names.take(0) =~= Seq::<Seq<char>>::empty());
        while i < n
            invariant
                n == names.len(),
                n == lists.len(),
                names == self.handlers.names(),
                lists == command_lists(self.handlers.values()),
                0 <= i <= n,
                commands.deep_view() == start_commands + all_commands(lists.take(i as int)),
                table_view(*command_to_aggregate_mapping) == routed_all(
                    start_table,
                    names.take(i as int),
                    lists.take(i as int),
                ),
            decreases n - i,
        {
            let aggregate_name = self.handlers.name_at(i);
            let command_names = self.handlers.value_at(i).command_names();
            let ghost list = lists[i as int];
            let ghost before_commands = commands.deep_view();
            let ghost before_table = table_view(*command_to_aggregate_mapping);
            let m = command_names.len();
            let mut k: usize = 0;
            assert(list.take(0) =~= Seq::<Seq<char>>::empty());
            while k < m
                invariant
                    m == command_names@.len(),
                    command_names.deep_view() == list,
                    aggregate_name@ == names[i as int],
                    0 <= k <= m,
                    commands.deep_view() == before_commands + list.take(k as int),
                    table_view(*command_to_aggregate_mapping) == routed(
                        before_table,
                        names[i as int],
                        list.take(k as int),
                    ),
                decreases m - k,
            {
                let command_name = &command_names[k];
                let ghost previous = *command_to_aggregate_mapping;
                let ghost previous_commands = commands.deep_view();
                commands.push(command_name.clone());
                let target = aggregate_name.clone();
                let ghost inserted = target;
                command_to_aggregate_mapping.insert(command_name.clone(), target);
                proof {
                    assert(list.take(k + 1).drop_last() =~= list.take(k as int));
                    assert(list.take(k + 1).last() == list[k as int]);
                    assert(command_name@ == list[k as int]);
                    assert(commands.deep_view() =~= previous_commands.push(command_name@));
                    assert(commands.deep_view() =~= before_commands + list.take(k + 1));
                    assert(table_view(*command_to_aggregate_mapping) =~= table_view(
                        previous,
                    ).insert(command_name@, aggregate_name@)) by {
                        let after = *command_to_aggregate_mapping;
                        assert(after.as_map() == previous.as_map().insert(
                            command_name@,
                            inserted,
                        ));
                        assert forall|c: Seq<char>| after.has(c) <==> previous.has(c) || c
                            == command_name@ by {
                            assert(after.as_map().contains_key(c) <==> after.has(c));
                            assert(previous.as_map().contains_key(c) <==> previous.has(c));
                        }
                        assert forall|c: Seq<char>| after.has(c) implies after.value_of(c)
                            == previous.as_map().insert(command_name@, inserted)[c] by {
                            assert(after.as_map()[c] == after.value_of(c));
                        }
                        assert forall|c: Seq<char>| previous.has(c) implies previous.value_of(c)
                            == previous.as_map()[c] by {}
                    }
                }
                k += 1;
            }
            proof {
                assert(list.take(m as int) =~= list);
                assert(lists.take(i + 1).drop_last() =~= lists.take(i as int));
                assert(names.take(i + 1).drop_last() =~= names.take(i as int));
                assert(lists.take(i + 1).last() == list);
                assert(names.take(i + 1).last() == names[i as int]);
                assert(commands.deep_view() =~= start_commands + all_commands(
                    lists.take(i + 1),
                ));
            }
            i += 1;
        }
        proof {
            assert(lists.take(n as int) =~= lists);
            assert(names.take(n as int) =~= names);
        }
    }
}

/// A registry with no aggregates.
pub fn empty_aggregate_registry<A: AggregateHandle>() -> (r: TheAggregateRegistry<A>)
    ensures
        r.names() == Seq::<Seq<char>>::empty(),
        r.handles() == Seq::<A>::empty(),
        by_name(r) == Map::<Seq<char>, A>::empty(),
{
    TheAggregateRegistry { handlers: NameMap::new() }
}

} // verus!
