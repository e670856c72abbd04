//! Remote control of OBS Studio for people who cannot see its window.
//!
//! The library holds what an agent beside OBS decides: what a reply of OBS means, who may use the
//! panel, whether the broadcast may start, how donations reach the audience, what the operator is
//! told and when. It does no input or output. A program around it talks to OBS, to the network and
//! to the disk, hands the library plain values and does what the library says.
//!
//! - [`obs`]: requests to OBS, their replies, the connection;
//! - [`panel`], [`sources`], [`audio`]: the commands of the panel;
//! - [`preflight`], [`readiness`]: whether the broadcast may start;
//! - [`health`], [`events`]: what the panel is told as it happens;
//! - [`donations`], [`reconcile`], [`donationalerts`], [`oauth`]: donations;
//! - [`twitch`], [`twitch_chat`]: the channel and its chat;
//! - [`auth`], [`address`], [`secrets`]: who may use the panel;
//! - [`config`], [`roles`], [`websocket_config`], [`installers`], [`launcher`], [`system`],
//!   [`paths`], [`logs`]: setting up;
//! - [`text`], [`number`], [`big`], [`json`], [`record`], [`table`], [`api`], [`retry`]: what the
//!   rest is made of.
use vstd::prelude::*;

pub mod address;
pub mod api;
pub mod audio;
pub mod auth;
pub mod big;
pub mod config;
pub mod donationalerts;
pub mod donations;
pub mod events;
pub mod health;
pub mod installers;
pub mod json;
pub mod launcher;
pub mod logs;
pub mod number;
pub mod obs;
pub mod oauth;
pub mod panel;
pub mod paths;
pub mod preflight;
pub mod readiness;
pub mod reconcile;
pub mod record;
pub mod retry;
pub mod roles;
pub mod secrets;
pub mod sources;
pub mod system;
pub mod table;
pub mod text;
pub mod twitch;
pub mod twitch_chat;
pub mod websocket_config;

pub use crate::api::ApiError;
pub use crate::auth::loopback_request_ok;
pub use crate::config::{
    ControllerConfig, DonationAlertsConfig, HostConfig, InterfaceMode, RuntimeMode, TwitchConfig,
    APP_NAME, DA_INPUT, OVERLAY_SCENE,
};
pub use crate::installers::{sha256_file, verify_installer, InstallerEntry, InstallerManifest};
pub use crate::paths::{
    app_root, autostart_shortcut, bin_dir, config_dir, installers_dir, logs_dir,
    obs_websocket_config_path, roles_path, secret_path, secrets_dir, startup_dir, web_dir,
};
pub use crate::secrets::{random_secret_b64, redact};
pub use crate::system::{
    autostart_registered, clear_obs_crash_sentinel, default_obs_paths, find_obs,
    obs_crashed_last_run, obs_is_running, process_running, ps_quote, register_autostart,
    start_obs_if_needed, tailscale_exe, tailscale_ip,
};
pub use crate::websocket_config::{
    ensure_obs_websocket_config, existing_obs_websocket_password, obs_websocket_config_matches,
};

verus! {

} // verus!
