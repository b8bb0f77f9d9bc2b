//! The rules of a service for shared documents, stated and proved.
//!
//! - [`auth`] decides what a user may do to a ref: it resolves the level that
//!   the grants give, builds the view of the grants that a user may see, sets
//!   the grants of a ref, and finds out from a request who is asking.
//!   [`theorems`] states what holds of these decisions whatever the grants
//!   are.
//! - [`app`], [`db`] and [`user`] hold what the decisions are taken from: the
//!   context of a request, the tables of refs, users and grants, and what is
//!   public of a user.
//! - [`composition`], [`translation`] and [`autolab`] say what a language
//!   model is asked about models, and what is made of its answers.
//! - [`zero::rig`] has the traits of rigs, rings and modules, and the linear
//!   combinations and monomials over them.
//! - [`text`] has the operations on text that the others share.

pub mod app;
pub mod auth;
pub mod autolab;
pub mod composition;
pub mod db;
pub mod text;
pub mod theorems;
pub mod translation;
pub mod user;
pub mod zero;
