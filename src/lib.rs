//! Colored, severity-tagged log lines for the `log` facade.
//!
//! A style ([`format::CologStyle`]) turns a severity and a message into one
//! line of terminal text: a bracketed, painted token, a space, the message
//! with each newline continued by a separator, and a final newline. Every
//! operation has a default, and a style overrides only what it changes.
//!
//! The builders here install a style into an `env_logger` logger.
use std::io::Write;
use vstd::prelude::*;
use env_logger::Builder;
use crate::format::{CologStyle, DefaultCologStyle};
use crate::level::Level;

pub mod color;
pub mod format;
pub mod level;
pub mod markup;

verus! {

#[verifier::external_type_specification]
#[verifier::external_body]
pub struct ExBuilder(env_logger::Builder);

/// Relies on `env_logger::Builder::new`: a builder with no filter set.
#[verifier::external_body]
fn new_builder() -> Builder {
    Builder::new()
}

/// Relies on `env_logger::Builder::format`: each record that passes the
/// filters is written to the sink as `style` renders it.
#[verifier::external_body]
fn use_style<S: CologStyle + Send + Sync + 'static>(builder: &mut Builder, style: S) {
    builder.format(
        move |buf, rec| {
            let level = match rec.level() {
                log::Level::Error => Level::Error,
                log::Level::Warn => Level::Warn,
                log::Level::Info => Level::Info,
                log::Level::Debug => Level::Debug,
                log::Level::Trace => Level::Trace,
            };
            buf.write_all(style.format(&level, &rec.args().to_string()).as_bytes())
        },
    );
}

/// Relies on `env_logger::Builder::filter_level`: records less severe than
/// `level` are dropped.
#[verifier::external_body]
fn set_min_level(builder: &mut Builder, level: Level) {
    builder.filter_level(
        match level {
            Level::Error => log::LevelFilter::Error,
            Level::Warn => log::LevelFilter::Warn,
            Level::Info => log::LevelFilter::Info,
            Level::Debug => log::LevelFilter::Debug,
            Level::Trace => log::LevelFilter::Trace,
        },
    );
}

/// Relies on `env_logger::Builder::parse_env`: where the variable `name` is
/// set, its directives are added to the filters. `env_logger::Env` also
/// reads `RUST_LOG_STYLE`, which chooses when the sink writes colors.
#[verifier::external_body]
fn filters_from_env(builder: &mut Builder, name: &str) {
    builder.parse_env(env_logger::Env::new().filter(name));
}

/// Relies on `env_logger::Builder::try_init`: installs the logger, and tells
/// whether no logger was installed before.
#[verifier::external_body]
fn try_install(builder: Builder) -> bool {
    let mut builder = builder;
    builder.try_init().is_ok()
}

/// A builder that renders records with the default style.
pub fn basic_builder() -> Builder {
    let mut builder = new_builder();
    use_style(&mut builder, DefaultCologStyle);
    builder
}

/// A builder with the default style that shows records of severity `Info`
/// and above, unless `RUST_LOG` says otherwise (`RUST_LOG_STYLE` is read
/// too).
pub fn default_builder() -> Builder {
    let mut builder = basic_builder();
    set_min_level(&mut builder, Level::Info);
    filters_from_env(&mut builder, "RUST_LOG");
    builder
}

/// The same builder as [`default_builder`]; kept for older callers, which
/// should move to [`default_builder`].
pub fn builder() -> Builder {
    default_builder()
}

/// Installs the logger of [`default_builder`]; where a logger is already
/// installed, that one stays.
pub fn init() {
    let _ = try_install(default_builder());
}

} // verus!
