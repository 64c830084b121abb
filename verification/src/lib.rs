//! A content-addressed package store and the tools around it, verified
//! with Verus.
//!
//! The store keeps packages under a directory named by the SHA-256 of their
//! content, exposes their executables through a shared directory of links,
//! and collects the packages that are no longer wanted.  It is kept as a
//! model of its two directories: every operation changes the model and says
//! which filesystem steps bring the disk to the same state.
//!
//! - [`store`], [`steps`], [`laws`]: the store, the filesystem steps that
//!   carry out what it decides, and what holds of it whatever it is asked to
//!   do.
//! - [`hasher`], [`tree`]: content hashing of blobs and of directory trees.
//! - [`archive`]: which container format a blob is.
//! - [`locator`]: which executables a package offers, and where.
//! - [`manifest`], [`lockfile`], [`config`], [`variables`], [`seed`]: what a
//!   project, its lockfile, the user and a template say.
//! - [`ecosystem`], [`repology`], [`tools`]: package managers, package names
//!   across them, and what the tool commands decide.
//! - [`schema`], [`generate`], [`pull`]: tool configurations, out of the
//!   manifest and back into it.
//! - [`value`], [`json`], [`rewrite`]: configuration values, as TOML, JSON
//!   and YAML documents hold them.
//! - [`text`], [`order`], [`strmap`], [`userdirs`]: strings, their order, maps
//!   keyed by them, and the user's directories.

pub mod text;
pub mod order;
pub mod strmap;
pub mod userdirs;
pub mod value;
pub mod rewrite;
pub mod json;
pub mod hasher;
pub mod tree;
pub mod archive;
pub mod locator;
pub mod store;
pub mod steps;
pub mod laws;
pub mod ecosystem;
pub mod variables;
pub mod lockfile;
pub mod config;
pub mod schema;
pub mod seed;
pub mod manifest;
pub mod generate;
pub mod pull;
pub mod repology;
pub mod tools;
