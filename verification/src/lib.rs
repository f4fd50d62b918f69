pub mod text;
pub mod patterns;
pub mod bvid;
pub mod weburl;
pub mod bilibili;
pub mod mirror_cdn;
pub mod resolve;
pub mod dedup;
pub mod server;
pub mod shared_key;
