use vstd::prelude::*;

pub mod js_value;
pub mod async_task;
pub mod async_stream;
pub mod async_error;
pub mod async_bridge;
pub mod handles;
pub mod context;
pub mod my_service;
pub mod ridl_glue;
pub mod ridl;
pub mod native_build;
pub mod ridl_runtime;
