//! Task orchestration core: what an agent may decide, how decisions are executed
//! and how applications are observed and automated, stated as verified functions
//! on plain values. Hosts perform the input and output between two calls.
pub mod action;
pub mod api;
pub mod approach;
pub mod automation;
pub mod batch;
pub mod cli;
pub mod clock;
pub mod copy;
pub mod debug;
pub mod demo;
pub mod demo_laws;
pub mod demo_runtime;
pub mod diagnostics;
pub mod execution;
pub mod failure_guard;
pub mod feature;
pub mod flow;
pub mod flow_laws;
pub mod flow_runtime;
pub mod inquiry;
pub mod jev;
pub mod jev_laws;
pub mod json;
pub mod kernel;
pub mod manual;
pub mod metrics;
pub mod recognition;
pub mod recognition_laws;
pub mod report;
pub mod run;
pub mod run_laws;
pub mod run_model;
pub mod run_step_laws;
pub mod runner;
pub mod sdk;
pub mod skills;
pub mod task_runtime;
pub mod text;
pub mod trial;
pub mod tui;
pub mod vision;
pub mod wire;
pub mod wire_laws;
