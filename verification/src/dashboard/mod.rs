//! Status dashboard: the snapshot model, its danger level, the transient
//! banner and the key handling; what each panel shows; the real modules'
//! answers turned into panels, with the decisions of panic mode; and the
//! synthetic data source used for demos.

pub mod app;
pub mod data;
pub mod live;
pub mod ui;
