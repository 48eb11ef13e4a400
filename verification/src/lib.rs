//! Core application loop of a phase-based runtime.
//!
//! The crate drives a cooperative, single-threaded scheduler made of named
//! [`phase::Phase`]s, each holding an ordered list of [`system::System`]s; a
//! pool of workers draining a shared job queue; and a plugin registry whose
//! two-phase teardown guarantees that every system a plugin registered is
//! uninitialized before the plugin's library handle is released. Around the
//! core stand the matrix constructors and the render pipeline's bookkeeping,
//! verified as plain data the host hands to its backends.

pub mod app;
pub mod jobs;
pub mod matrix;
pub mod phase;
pub mod pipeline;
pub mod platform;
pub mod plugin;
pub mod scheduler;
pub mod system;
pub mod vector;
pub mod worker;

pub use app::App;
pub use app::TeardownEvent;
pub use jobs::Job;
pub use jobs::JobHandler;
pub use matrix::Matrix3;
pub use matrix::Matrix4;
pub use phase::Phase;
pub use phase::RunRecord;
pub use pipeline::Pipeline;
pub use platform::HandleImpl;
pub use platform::Library;
pub use plugin::PluginData;
pub use plugin::PluginId;
pub use plugin::PluginManager;
pub use scheduler::CoreError;
pub use scheduler::Scheduler;
pub use system::System;
pub use system::SystemId;
pub use system::SystemIdGenerator;
pub use vector::Scalar;
pub use vector::Vector2;
pub use vector::Vector3;
pub use vector::Vector4;
pub use worker::Worker;
pub use worker::WorkerRunner;
