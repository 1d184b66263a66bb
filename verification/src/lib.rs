//! A simulator of payment activity on the lightning network.
pub mod asserts;
pub mod backend;
pub mod batched_writer;
pub mod channel;
pub mod cli;
pub mod clock;
pub mod cln;
pub mod containers;
pub mod defined_activity;
pub mod eclair;
pub mod executors;
pub mod features;
pub mod generator;
pub mod intercept;
pub mod keyed;
pub mod latency_interceptor;
pub mod ldk;
pub mod ldk_server;
pub mod lnd;
pub mod network;
pub mod node;
pub mod parsing;
pub mod payment;
pub mod primitives;
pub mod propagate;
pub mod propagate_laws;
pub mod random_activity;
pub mod results;
pub mod retry;
pub mod rng;
pub mod route;
pub mod routing;
pub mod run;
pub mod runner;
pub mod scenario;
pub mod serializers;
pub mod setup;
pub mod sim_node;
pub mod simulated;
pub mod simulation;
pub mod tasks;
pub mod text;
