//! Builds proxy subscriptions: picks a node from a pool of credentials,
//! settles its port, and encodes it as a share link or as an entry of a
//! client configuration document.

pub mod clash;
pub mod document;
pub mod fragment;
pub mod indent;
pub mod json;
pub mod params;
pub mod pool;
pub mod ports;
pub mod random;
pub mod remark;
pub mod simple;
pub mod singbox;
pub mod subscription;
pub mod template;
pub mod text;
pub mod v2ray;
