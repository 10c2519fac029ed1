//! A live-reloading viewer's verified core: a scene of points and line
//! segments, its binary wire codec, the conversion of a scene into drawable
//! vertex/index sets, the coalescing of file-change notifications, and the
//! per-frame state machine that ties them together. Window, file and
//! graphics plumbing live outside this crate's verified boundary.

pub mod scene;
pub mod geometry;
pub mod codec;
pub mod watch;
pub mod viewer;
