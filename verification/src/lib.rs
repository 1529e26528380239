//! A verified runtime for event processing on one thread.
//!
//! - [`world`]: the resources that everything else shares.
//! - [`pipeline`], [`dag`]: steps chained into a handler of events; [`ctx_pipeline`] and
//!   [`ctx_dag`] hand a context of their own to every step.
//! - [`scheduler`]: systems in stages that run only where the stage before them fired.
//! - [`reactor`]: units of work that are woken by the data sources they subscribe to.
//!
//! What a step, a chain or a system does is a relation between the state before a call and the
//! state after it: each of their traits has a `.._pre`, which says when a call may be made, and
//! a `.._post`, which says what it may lead to. A node of a chain states its own relation in
//! terms of those of its parts, so that the contract of a whole chain is that of its outermost
//! node.
//!
//! What these relations are for is stated as laws: those of nodes in [`node_laws`] and
//! [`ctx_node_laws`], those of functions used as steps in [`step_laws`], [`step3_laws`],
//! [`splat_laws`], [`merge_laws`], [`ctx_step_laws`] and [`ctx_merge_laws`], and all others beside
//! what they speak of.

pub mod batch;
pub mod ctx_dag;
pub mod ctx_merge;
pub mod ctx_merge3;
pub mod ctx_merge_laws;
pub mod ctx_node;
pub mod ctx_node_laws;
pub mod ctx_pipeline;
pub mod ctx_step;
pub mod ctx_step3;
pub mod ctx_step_laws;
pub mod dag;
pub mod dag_splat;
pub mod effect;
pub mod handler;
pub mod interests;
pub mod keys;
pub mod merge;
pub mod merge3;
pub mod merge_laws;
pub mod node;
pub mod node_laws;
pub mod notify;
pub mod pipeline;
pub mod reactor;
pub mod reactor_model;
pub mod scheduler;
pub mod source_registry;
pub mod splat;
pub mod splat3;
pub mod splat_laws;
pub mod step;
pub mod step3;
pub mod step3_laws;
pub mod step_laws;
pub mod system;
pub mod world;

pub use ctx_dag::{CtxDag, CtxDagArm, CtxDagArmSeed, CtxDagBuilder, CtxDagChain};
pub use ctx_pipeline::{resolve_ctx_step, CtxPipeline, CtxPipelineBuilder, CtxPipelineChain};
pub use ctx_step::{IntoCtxProducer, IntoCtxRefStep, IntoCtxStep};
pub use dag::{
    resolve_arm, BatchDag, Dag, DagArm, DagArmFork, DagArmSeed, DagBuilder, DagChain, DagChainFork,
};
pub use handler::{no_event, Handler, IntoHandler, NoEvent, Opaque};
pub use notify::{Events, Token};
pub use pipeline::{
    resolve_producer, resolve_ref_scan_step, resolve_ref_step, resolve_scan_step, resolve_step,
    BatchPipeline, Pipeline, PipelineBuilder, PipelineChain, PipelineOutput,
};
pub use reactor::{
    DeferredRemovals, IntoReactor, OneOf, PipelineReactor, Reactor, ReactorFn, ReactorNotify,
    ReactorRegistration, ReactorSystem,
};
pub use reactor_model::DataSource;
pub use scheduler::{SchedulerBuilder, SystemScheduler};
pub use source_registry::SourceRegistry;
pub use step::{IntoProducer, IntoRefScanStep, IntoRefStep, IntoScanStep, IntoStep};
pub use system::{IntoSystem, System};
pub use world::{Installer, Registry, World, WorldBuilder};
