use crate::cell::I2Cell;
use crate::mask::{mask_from_options, resolve_config_mask};
use crate::msg::I2CDevice;
use crate::pins::{binding_views, input_bindings, output_bindings, partition_pins};
use crate::util::string_views;
use crate::poller::{period_ms_of, poll_period_ms};
use std::sync::atomic::{AtomicBool, Ordering};
use std::sync::Arc;
use vstd::prelude::*;

verus! {

/// The chip families a bridge can be built for.
#[derive(Clone, Copy, Debug, PartialEq, Eq, Structural)]
pub enum DeviceKind {
    Pca9555,
}

/// The chip family that a device-type tag names, if it is a known one.
pub open spec fn kind_of_tag(tag: Seq<char>) -> Option<DeviceKind> {
    if tag == "pca9555"@ {
        Some(DeviceKind::Pca9555)
    } else {
        None
    }
}

impl DeviceKind {
    /// Reads a device-type tag; unknown tags give `None`.
    pub fn from_tag(tag: &String) -> (r: Option<DeviceKind>)
        ensures
            r == kind_of_tag(tag@),
    {
        let pca9555 = "pca9555".to_owned();
        if *tag == pca9555 {
            Some(DeviceKind::Pca9555)
        } else {
            None
        }
    }
}

/// A flag shared by a bridge and its poll worker; once stopped, the worker
/// leaves its loop at the next period boundary.
pub struct StopToken {
    running: Arc<AtomicBool>,
}

impl StopToken {
    /// A new token that is running.
    pub fn new() -> (r: StopToken) {
        StopToken { running: Arc::new(AtomicBool::new(true)) }
    }

    /// Whether no holder has stopped the token yet.
    pub fn is_running(&self) -> bool {
        self.running.load(Ordering::SeqCst)
    }

    /// Asks every holder of the token to stop.
    pub fn stop(&self) {
        self.running.store(false, Ordering::SeqCst)
    }
}

impl Clone for StopToken {
    /// Another holder of the same flag.
    fn clone(&self) -> (r: StopToken)
        ensures
            r == *self,
    {
        StopToken { running: Arc::clone(&self.running) }
    }
}

/// The bridge for one PCA9555-style chip: its shared driver handle, polling
/// frequency, resolved direction mask and 16-slot topic table.
#[verifier::reject_recursive_types(D)]
pub struct Bridge<D> {
    pub device: I2Cell<D>,
    pub frequency: u16,
    pub config_mask: u16,
    pub mask_fallback: bool,
    pub topics: [String; 16],
    pub running: StopToken,
}

impl<D> Bridge<D> {
    /// Builds the bridge for one configured chip around its driver, resolving
    /// the direction mask from the option table.
    pub fn new(interface: D, config: I2CDevice) -> (r: Self)
        ensures
            r.frequency == config.frequency,
            r.config_mask == mask_from_options(
                string_views(config.option_keys@),
                string_views(config.option_values@),
            ).mask,
            r.mask_fallback == mask_from_options(
                string_views(config.option_keys@),
                string_views(config.option_values@),
            ).fallback,
            r.topics@ == config.topics@,
    {
        let resolved = resolve_config_mask(&config.option_keys, &config.option_values);
        Bridge {
            device: I2Cell::new(interface),
            frequency: config.frequency,
            config_mask: resolved.mask,
            mask_fallback: resolved.fallback,
            topics: config.topics,
            running: StopToken::new(),
        }
    }

    /// Asks the bridge's poll worker to stop.
    pub fn stop(&self) {
        self.running.stop()
    }

    /// The output bindings and the input bindings of the chip, each in pin order.
    pub fn bindings(&self) -> (r: (Vec<(usize, String)>, Vec<(usize, String)>))
        ensures
            binding_views(r.0@) == output_bindings(self.config_mask, string_views(self.topics@)),
            binding_views(r.1@) == input_bindings(self.config_mask, string_views(self.topics@)),
    {
        partition_pins(self.config_mask, &self.topics)
    }

    /// The poll period in milliseconds.
    pub fn period_ms(&self) -> (r: u64)
        ensures
            r == period_ms_of(self.frequency),
    {
        poll_period_ms(self.frequency)
    }
}

} // verus!
