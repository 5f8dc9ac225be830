//! Verified core of a batch image tool: naming of outputs, discovery
//! filters, parameter checks, pixel-level crops and repairs, and the
//! bookkeeping of a batch job.

pub mod text;
pub mod ordering;
pub mod pixels;
pub mod codec;
pub mod processor;
pub mod paths;
pub mod crop_runner;
pub mod trim_transparent;
pub mod output_resolver;
pub mod file_discovery;
pub mod repair;
pub mod resolution_transform;
pub mod format_convert;
pub mod compress;
pub mod rename;
pub mod upscale_anime;
pub mod manual_crop;
pub mod registry;
pub mod report;
pub mod batch_job_runner;
pub mod commands;
pub mod upscale_runner;
