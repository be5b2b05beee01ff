//! Verified core of a USB power-meter workbench.
pub mod binary64;
pub mod cards;
pub mod chart;
pub mod chart_state;
pub mod connection;
pub mod control_laws;
pub mod control_model;
pub mod control_poll;
pub mod control_replies;
pub mod control_samples;
pub mod control_save;
pub mod control_seal;
pub mod control_start;
pub mod demo;
pub mod i18n;
pub mod imports;
pub mod layout;
pub mod lines;
pub mod link;
pub mod live;
pub mod measurement;
pub mod navigator;
pub mod offline;
pub mod options;
pub mod pd_decoder;
pub mod pd_laws;
pub mod pd_log;
pub mod pd_panel;
pub mod pd_quantity;
pub mod port;
pub mod preferences;
pub mod presentation;
pub mod recording;
pub mod recording_control;
pub mod recording_copy;
pub mod recording_import;
pub mod recording_session;
pub mod recovery_list;
pub mod session_core;
pub mod session_text;
pub mod settings;
pub mod sources;
pub mod statistics;
pub mod streaming;
pub mod text;
pub mod theme;
pub mod timeline;
pub mod toolbar;
pub mod trace;
pub mod utc;
pub mod workbench;
