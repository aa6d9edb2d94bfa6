//! Verified core logic of the Babel collateralized-debt protocol: fixed-point
//! math, gas compensation, ownership and delegation rules, sorted troves,
//! vesting, voting and the accounting of the protocol's pools.

pub mod admin_voting;
pub mod airdrop_distributor;
pub mod allocation_vesting;
pub mod arch;
pub mod babel_core;
pub mod base;
pub mod boost_calculator;
pub mod borrower_operations;
pub mod btc;
pub mod codec;
pub mod config;
pub mod debt_token;
pub mod emission_schedule;
pub mod delegated_ops;
pub mod factory;
pub mod fee_receiver;
pub mod handler;
pub mod handlers;
pub mod hint_helpers;
pub mod incentive_voting;
pub mod interim_admin;
pub mod liquidation;
pub mod math;
pub mod multi_trove_getter;
pub mod ownable;
pub mod price_feed;
pub mod sorted_troves;
pub mod stability_pool;
pub mod system_start;
pub mod token_contract;
pub mod token_locker;
pub mod trove_getters;
pub mod trove_manager;
pub mod types;
pub mod vault;
