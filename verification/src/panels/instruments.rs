//! Instruments: grouping devices by category and choosing the control panel
//! for a device from its capabilities and driver name.

use vstd::prelude::*;
use crate::panels::logging::{contains_any, lowercased, mentions_any, to_lowercase};
use crate::text::{chars_of, contains_chars, seq_contains, string_of};

verus! {

/// What the daemon reports of a device: identity, driver and capability flags.
#[derive(Debug)]
pub struct DeviceInfo {
    pub id: String,
    pub name: String,
    pub driver_type: String,
    pub is_movable: bool,
    pub is_readable: bool,
    pub is_frame_producer: bool,
    pub is_emission_controllable: bool,
    pub is_shutter_controllable: bool,
    pub is_wavelength_tunable: bool,
}

impl Default for DeviceInfo {
    fn default() -> (r: DeviceInfo)
        ensures
            r.id@.len() == 0,
            r.name@.len() == 0,
            r.driver_type@.len() == 0,
            !r.is_movable,
            !r.is_readable,
            !r.is_frame_producer,
            !r.is_emission_controllable,
            !r.is_shutter_controllable,
            !r.is_wavelength_tunable,
    {
        DeviceInfo {
            id: String::new(),
            name: String::new(),
            driver_type: String::new(),
            is_movable: false,
            is_readable: false,
            is_frame_producer: false,
            is_emission_controllable: false,
            is_shutter_controllable: false,
            is_wavelength_tunable: false,
        }
    }
}

/// Does the device have laser controls?
pub open spec fn is_laser_like(d: DeviceInfo) -> bool {
    d.is_emission_controllable || d.is_shutter_controllable || d.is_wavelength_tunable
}

/// Category of a device in the instrument tree.
#[derive(Debug, Clone, Copy, PartialEq, Eq, Hash, Structural)]
pub enum DeviceCategory {
    Camera,
    Stage,
    Detector,
    Laser,
    PowerMeter,
    Other,
}

/// Category by capabilities, given the lower-cased driver name: laser,
/// then camera, stage, and for readable devices power meter (driver name
/// mentions "power") or detector.
pub open spec fn category_of(d: DeviceInfo, driver_lower: Seq<char>) -> DeviceCategory {
    if is_laser_like(d) {
        DeviceCategory::Laser
    } else if d.is_frame_producer {
        DeviceCategory::Camera
    } else if d.is_movable {
        DeviceCategory::Stage
    } else if d.is_readable {
        if seq_contains(driver_lower, "power"@) {
            DeviceCategory::PowerMeter
        } else {
            DeviceCategory::Detector
        }
    } else {
        DeviceCategory::Other
    }
}

impl DeviceCategory {
    pub fn label(&self) -> (r: &'static str)
        ensures
            r@ == match *self {
                DeviceCategory::Camera => "Cameras"@,
                DeviceCategory::Stage => "Stages"@,
                DeviceCategory::Detector => "Detectors"@,
                DeviceCategory::Laser => "Lasers"@,
                DeviceCategory::PowerMeter => "Power Meters"@,
                DeviceCategory::Other => "Other"@,
            },
    {
        match self {
            DeviceCategory::Camera => "Cameras",
            DeviceCategory::Stage => "Stages",
            DeviceCategory::Detector => "Detectors",
            DeviceCategory::Laser => "Lasers",
            DeviceCategory::PowerMeter => "Power Meters",
            DeviceCategory::Other => "Other",
        }
    }

    /// Icon shown beside the category.
    pub fn icon(&self) -> (r: &'static str)
        ensures
            r@ == match *self {
                DeviceCategory::Camera => "📷"@,
                DeviceCategory::Stage => "🔄"@,
                DeviceCategory::Detector => "📊"@,
                DeviceCategory::Laser => "💡"@,
                DeviceCategory::PowerMeter => "⚡"@,
                DeviceCategory::Other => "🔧"@,
            },
    {
        match self {
            DeviceCategory::Camera => "📷",
            DeviceCategory::Stage => "🔄",
            DeviceCategory::Detector => "📊",
            DeviceCategory::Laser => "💡",
            DeviceCategory::PowerMeter => "⚡",
            DeviceCategory::Other => "🔧",
        }
    }

    /// Category of a device whose driver name is already lower case.
    pub fn from_capabilities(info: &DeviceInfo, driver_lower: &str) -> (r: DeviceCategory)
        ensures
            r == category_of(*info, driver_lower@),
    {
        if info.is_emission_controllable || info.is_shutter_controllable || info.is_wavelength_tunable {
            DeviceCategory::Laser
        } else if info.is_frame_producer {
            DeviceCategory::Camera
        } else if info.is_movable {
            DeviceCategory::Stage
        } else if info.is_readable {
            let lower = chars_of(driver_lower);
            let power = chars_of("power");
            if contains_chars(&lower, &power) {
                DeviceCategory::PowerMeter
            } else {
                DeviceCategory::Detector
            }
        } else {
            DeviceCategory::Other
        }
    }

    /// Category of a device from its capabilities and driver name.
    pub fn from_device_info(info: &DeviceInfo) -> (r: DeviceCategory)
        ensures
            r == category_of(*info, lowercased(info.driver_type@)),
    {
        let lower = to_lowercase(info.driver_type.as_str());
        DeviceCategory::from_capabilities(info, lower.as_str())
    }
}

/// Control panel for a device.
#[derive(Debug, Clone, Copy, PartialEq, Eq, Structural)]
pub enum PanelType {
    /// Tunable laser: wavelength, emission, shutter.
    MaiTai,
    /// Readable sensors.
    PowerMeter,
    /// Rotation mounts.
    Rotator,
    /// Linear and XY stages.
    Stage,
    /// DAQ card: analog and digital I/O, counters.
    Comedi,
}

/// Panel by priority, given the lower-cased driver name: DAQ-card drivers,
/// then laser controls, then readable devices that do not move, then
/// rotators among movable devices; everything else gets the stage panel.
pub open spec fn panel_for(d: DeviceInfo, driver_lower: Seq<char>) -> PanelType {
    if mentions_any(driver_lower, seq!["comedi"@, "ni_daq"@, "nidaq"@, "pci-mio"@, "pcimio"@]) {
        PanelType::Comedi
    } else if is_laser_like(d) {
        PanelType::MaiTai
    } else if d.is_readable && !d.is_movable {
        PanelType::PowerMeter
    } else if d.is_movable && mentions_any(driver_lower, seq!["ell14"@, "rotator"@]) {
        PanelType::Rotator
    } else {
        PanelType::Stage
    }
}

/// The control panel for a device whose driver name is already lower case.
pub fn panel_type_for(device: &DeviceInfo, driver_lower: &str) -> (r: PanelType)
    ensures
        r == panel_for(*device, driver_lower@),
{
    let lower = chars_of(driver_lower);
    let daq = vec!["comedi", "ni_daq", "nidaq", "pci-mio", "pcimio"];
    let rot = vec!["ell14", "rotator"];
    proof {
        assert(daq@.map_values(|w: &str| w@) =~= seq!["comedi"@, "ni_daq"@, "nidaq"@, "pci-mio"@, "pcimio"@]);
        assert(rot@.map_values(|w: &str| w@) =~= seq!["ell14"@, "rotator"@]);
    }
    if contains_any(&lower, &daq) {
        return PanelType::Comedi;
    }
    if device.is_emission_controllable || device.is_shutter_controllable || device.is_wavelength_tunable {
        return PanelType::MaiTai;
    }
    if device.is_readable && !device.is_movable {
        return PanelType::PowerMeter;
    }
    if device.is_movable {
        if contains_any(&lower, &rot) {
            return PanelType::Rotator;
        }
        return PanelType::Stage;
    }
    PanelType::Stage
}

/// The control panel for a device, from its capabilities and its driver name.
pub fn determine_panel_type(device: &DeviceInfo) -> (r: PanelType)
    ensures
        r == panel_for(*device, lowercased(device.driver_type@)),
{
    let lower = to_lowercase(device.driver_type.as_str());
    panel_type_for(device, lower.as_str())
}

} // verus!
