//! Problem-package tooling for competitive programming: package layout
//! checks, case selectors, generator argument expansion, run reports and
//! the text rendering that the command line prints.

pub mod add;
pub mod audit;
pub mod batch_args;
pub mod check_package;
pub mod clean;
pub mod cli;
pub mod data;
pub mod digest;
pub mod evidence;
pub mod explain;
pub mod export;
pub mod file_generator;
pub mod fixture;
pub mod judge;
pub mod markdown;
pub mod package;
pub mod problem;
pub mod program;
pub mod problem_yaml;
pub mod raw_schema;
pub mod report;
pub mod schema;
pub mod stress;
pub mod stress_args;
pub mod stress_plan;
pub mod stress_run;
pub mod support;
pub mod task_expect;
pub mod text;
pub mod text_facts;
pub mod time;
pub mod yaml_shape;
