//! The decisions of a voice layer that sits in front of an assistant's web page.
//!
//! Sound comes in as samples ([`audio`], [`pcm`], [`vad`]) and as what a recognizer made of
//! them ([`local_asr`]). What the user said is sorted by its cues ([`cues`]), collected
//! ([`reconciler`]), judged ([`gate`]) and handed on ([`controller`]). The answer is put
//! together from a stream of events ([`sse`]) and spoken ([`tts`]). In between stands the
//! proxy that puts the widget into the page ([`web`], [`widget`], [`pem`]).

pub mod audio;
pub mod base64_text;
pub mod clock;
pub mod config;
pub mod controller;
pub mod cues;
pub mod gate;
pub mod json;
pub mod local_asr;
pub mod pcm;
pub mod pem;
pub mod reconciler;
pub mod sse;
pub mod text;
pub mod tts;
pub mod vad;
pub mod web;
pub mod widget;
