//! Client-side logic for the Shanghai Maritime University campus services
//! and the captcha OCR tooling around them:
//!
//! - `captcha`, `cas`, `cookie`, `session`: captcha answers, what the CAS
//!   login replies mean, the e-card cookie header, the client's decisions;
//! - `bill`, `bill_item`, `bill_order`, `bill_parser`, `export`, `sync`:
//!   e-card bills, their page parser, CSV rows and incremental
//!   synchronisation;
//! - `classifier`, `position`, `account`, `hot_water`: bill categories,
//!   counterparty places, the personal account page and the hot water page;
//! - `ocr`, `image`, `server`, `tags`, `manifest`, `downloader`,
//!   `const_value`: recognition results, captcha image transforms, the OCR
//!   service's decisions, model releases and their download;
//! - `text`, `html`: text helpers and the HTML, regex and date queries the
//!   parsers rely on.
use vstd::prelude::*;

pub mod account;
pub mod bill;
pub mod bill_item;
pub mod bill_order;
pub mod bill_parser;
pub mod captcha;
pub mod cas;
pub mod classifier;
pub mod const_value;
pub mod cookie;
pub mod download_run;
pub mod downloader;
pub mod export;
pub mod hot_water;
pub mod html;
pub mod image;
pub mod manifest;
pub mod ocr;
pub mod position;
pub mod server;
pub mod session;
pub mod sync;
pub mod tags;
pub mod text;

verus! {

} // verus!
