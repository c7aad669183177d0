pub mod api;
pub mod bytes;
pub mod decision;
pub mod feature;
pub mod http;
pub mod json;
pub mod ksucalls;
pub mod modules;
pub mod number;
pub mod page;
pub mod profile;
pub mod response;
pub mod su;
pub mod text;
pub mod webadmin;
