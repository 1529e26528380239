# nexus_rt

A runtime for event processing on one thread, verified with Verus: pipelines, data flow graphs,
staged schedules and reactors over a shared world of resources.

## What is in it

| Module | Contents |
|---|---|
| `world` | Resources found by their type, the world that holds them, and its builder |
| `effect` | What a call of a function does to the values behind its mutable references |
| `step`, `ctx_step` | Functions as steps: by value, by reference, without input, with an accumulator |
| `step3`, `splat3`, `merge3`, `ctx_step3`, `ctx_merge3` | The same for functions of three resources |
| `node`, `ctx_node` | The nodes that chains are made of, and the laws that hold of them |
| `pipeline`, `splat`, `batch` | Pipelines, steps on the parts of a tuple, and batches of inputs |
| `merge`, `dag`, `dag_splat` | Graphs that fork into arms and merge or join them |
| `ctx_pipeline`, `ctx_merge`, `ctx_dag` | The same with a context that every step is handed |
| `system`, `scheduler` | Systems in stages |
| `keys`, `interests`, `notify` | Reusable keys, subscribers by source, and marks that are kept once |
| `reactor_model`, `reactor` | Reactors, their subscriptions, and their dispatch |
| `source_registry` | Data sources by the keys of the domain |

`app/` holds a reactor type behind which reactors of any type fit, and names for reactors.

## How contracts are stated

A step may be called where its `call_pre` holds, and a call leads to an outcome for which its
`call_post` holds: the step itself afterwards, the world afterwards, and the result. Nodes define
both from those of their parts. `run` on a pipeline, and `dispatch` on the reactors of a world,
promise exactly that relation.

A function that is used as a step is described by its own contract. It takes its input alone,
up to three resources as well, or the whole world; more than three resources are reached
through the world, or kept together as one. A function is taken not to change what it has
captured: state that is to last belongs in an accumulator, a context or a resource.

A verified caller passes its functions on as type parameters, or implements `StepCall` and its
relatives on types of its own.

## Reactors

A `ReactorNotify` holds reactors of one type. `OneOf` makes one type of two, and of any number by
nesting, so that reactors of several functions share a world and stay verified. A reactor goes
by the name `"<unnamed>"` until another is put into its field `name`; `app/` names reactors after
their types, which verified code cannot ask for.

`Token`, `Events` and `LocalNotify` are those of `nexus_notify`, a member of the workspace that
this crate belongs to. This crate depends on no other member of that workspace, so they stand here
as the module `notify`, and what reactors rest on is proved along with them. Tokens come out in the
order in which they were first marked.

A `SourceRegistry` is told of its types of key in advance, with `with_keys`. The types form a list
like the resources of a world: looking up a key of a type that is not in the list does not
compile, where a registry that finds types at run time would answer `None`.

## What is not in it

Graphs have no `view` combinator: the module of views, which it would open, is not part of this
crate. `resolve_step` and its relatives return a step, which is called by `call`.

## What is believed without proof

- `keys`: the behaviour of `slab::Slab` as an allocator of keys.
- `interests`: the behaviour of `slab::Slab` as a store of lists.
- `source_registry`: the behaviour of `rustc_hash::FxHashMap`, for keys whose `Hash` and `Eq`
  agree with equality.
