//! A verified simulation of schooling motion: many independent agents in a
//! bounded 2D arena, advanced tick by tick through a fixed pipeline of update
//! stages over a uniform-grid spatial index, each agent steering by a
//! three-branch schooling behavior over its local neighbors. All quantities
//! are fixed-point integers (thousandths of a unit); every stage carries a
//! contract describing exactly what it does.

mod chunks;
mod components;
mod config;
mod delta_time;
mod error;
mod fish;
mod ids;
mod latest_release;
mod lerp_to_target;
mod load_chunks;
mod motion;
mod num;
mod operating_system;
mod out_of_bound;
mod random_behavior;
mod rng;
mod scalar;
mod schooling;
mod simulator;
mod simulator_output;
mod swarming;
mod system_bundle;
mod updater;
mod utils;
mod vec2;
mod version;
mod world;

pub use chunks::pair_id;
pub use chunks::wrap_cell;
pub use chunks::Chunks;
pub use chunks::MAX_CELL;
pub use components::Density;
pub use components::Position;
pub use components::Social;
pub use components::Speed;
pub use components::Stress;
pub use components::TargetSpeed;
pub use components::TargetVelocity;
pub use components::Velocity;
pub use config::Config;
pub use config::MAX_DIM;
pub use config::MAX_ENTITY_COUNT;
pub use config::PROB_ONE;
pub use delta_time::DeltaTime;
pub use delta_time::MAX_DELTA;
pub use error::Error;
pub use fish::spawned_ok;
pub use fish::Fish;
pub use latest_release::occurs_at;
pub use latest_release::LatestRelease;
pub use lerp_to_target::smooth_factor;
pub use lerp_to_target::smoothed;
pub use lerp_to_target::smoothed_speed;
pub use lerp_to_target::smoothed_velocity;
pub use lerp_to_target::LerpToTarget;
pub use lerp_to_target::EPSILON;
pub use load_chunks::indexes;
pub use load_chunks::LoadChunks;
pub use motion::motion_step;
pub use motion::moved;
pub use motion::Motion;
pub use motion::MAX_STEP;
pub use num::clamp01_fp;
pub use num::div_t;
pub use num::lerp_fp;
pub use num::sqrt_floor;
pub use num::SCALE;
pub use operating_system::OperatingSystem;
pub use operating_system::OsKind;
pub use out_of_bound::wrap_coord;
pub use out_of_bound::wrapped;
pub use out_of_bound::OutOfBound;
pub use random_behavior::idle_step_ok;
pub use random_behavior::RandomBehavior;
pub use scalar::Scalar;
pub use scalar::FP_LIMIT;
pub use schooling::align_outcome;
pub use schooling::attract_outcome;
pub use schooling::avoid_outcome;
pub use schooling::lemma_avoidance_takes_priority;
pub use schooling::lemma_mean_fold_counts_iff;
pub use schooling::mean_fold;
pub use schooling::mean_step;
pub use schooling::school_priority;
pub use schooling::vel_lookup;
pub use schooling::SchoolingMechanism;
pub use schooling::MAX_NEIGHBORS;
pub use simulator::FishShoalSimulator;
pub use simulator_output::SimulatorOutput;
pub use swarming::idle_outcome;
pub use swarming::query_set;
pub use swarming::snapshot_positions;
pub use swarming::snapshot_velocities;
pub use swarming::swarm_step_ok;
pub use swarming::Swarming;
pub use system_bundle::stage_chain;
pub use system_bundle::tick_stages;
pub use system_bundle::SystemBundle;
pub use updater::Updater;
pub use utils::density_color;
pub use utils::Utils;
pub use vec2::dist;
pub use vec2::dist_sq;
pub use vec2::lemma_normalize_zero;
pub use vec2::lemma_vec2_array_round_trip;
pub use vec2::lemma_vec2_pair_round_trip;
pub use vec2::len_sq;
pub use vec2::length_of;
pub use vec2::norm_coord;
pub use vec2::spec_normalized;
pub use vec2::spec_sub;
pub use vec2::unit_band;
pub use vec2::vec_lerp;
pub use vec2::Vec2;
pub use vec2::VEC_LIMIT;
pub use version::all_digits;
pub use version::dec_chars;
pub use version::dec_string;
pub use version::digit_char;
pub use version::digits_value;
pub use version::find_dot;
pub use version::is_digit;
pub use version::parse_usize;
pub use version::spec_version_chars;
pub use version::split_dots;
pub use version::Version;
pub use world::Agent;
pub use world::World;
pub use world::MAX_SPEED;
