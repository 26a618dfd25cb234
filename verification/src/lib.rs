//! Canvas Pocket: logging in by QR code, reading the lessons of a course and downloading their
//! recordings and subtitles.
//!
//! The library decides; it does no input or output. Whatever alternates decisions with work
//! outside (`qr_login`, `lesson_loading`, `download_task`, `track_download`) takes one event after
//! the other and says what is to be reported and done next.

use vstd::prelude::*;

pub mod api;
pub mod cookie_laws;
pub mod cookie_step_laws;
pub mod cookies;
pub mod download_task;
pub mod endpoints;
pub mod failures;
pub mod http;
pub mod json;
pub mod lesson_loading;
pub mod lessons;
pub mod load_step_laws;
pub mod login_page;
pub mod naming;
pub mod naming_laws;
pub mod navigation;
pub mod progress;
pub mod qr_laws;
pub mod qr_login;
pub mod qr_step_laws;
pub mod record_laws;
pub mod service_laws;
pub mod subtitle_laws;
pub mod subtitles;
pub mod task_laws;
pub mod task_step_laws;
pub mod text;
pub mod text_laws;
pub mod track_download;
pub mod track_laws;
pub mod track_step_laws;
pub mod view_laws;

verus! {

} // verus!
