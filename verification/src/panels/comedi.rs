//! Settings of the DAQ-card panels: analog reference, digital direction,
//! counter mode, the digital-monitor view and the logger's columns.

use vstd::prelude::*;

verus! {

/// Analog input reference.
#[derive(Debug, Clone, Copy, PartialEq, Eq, Structural)]
pub enum AnalogReference {
    /// Ground-referenced single-ended.
    Ground,
    /// Common-referenced single-ended.
    Common,
    Differential,
    Other,
}

impl Default for AnalogReference {
    fn default() -> (r: AnalogReference)
        ensures
            r == AnalogReference::Ground,
    {
        AnalogReference::Ground
    }
}

impl AnalogReference {
    pub fn label(&self) -> (r: &'static str)
        ensures
            r@ == match *self {
                AnalogReference::Ground => "Ground (RSE)"@,
                AnalogReference::Common => "Common"@,
                AnalogReference::Differential => "Differential"@,
                AnalogReference::Other => "Other"@,
            },
    {
        match self {
            AnalogReference::Ground => "Ground (RSE)",
            AnalogReference::Common => "Common",
            AnalogReference::Differential => "Differential",
            AnalogReference::Other => "Other",
        }
    }

    /// Every reference type.
    pub fn all() -> (r: Vec<AnalogReference>)
        ensures
            r@ == seq![
                AnalogReference::Ground,
                AnalogReference::Common,
                AnalogReference::Differential,
                AnalogReference::Other,
            ],
    {
        vec![AnalogReference::Ground, AnalogReference::Common, AnalogReference::Differential, AnalogReference::Other]
    }
}

/// Digital line direction.
#[derive(Debug, Clone, Copy, PartialEq, Eq, Structural)]
pub enum DioDirection {
    Input,
    Output,
}

impl Default for DioDirection {
    fn default() -> (r: DioDirection)
        ensures
            r == DioDirection::Input,
    {
        DioDirection::Input
    }
}

impl DioDirection {
    pub fn label(&self) -> (r: &'static str)
        ensures
            r@ == match *self {
                DioDirection::Input => "In"@,
                DioDirection::Output => "Out"@,
            },
    {
        match self {
            DioDirection::Input => "In",
            DioDirection::Output => "Out",
        }
    }
}

/// Counter operating mode.
#[derive(Debug, Clone, Copy, PartialEq, Eq, Structural)]
pub enum CounterMode {
    EventCount,
    FrequencyMeasurement,
    PeriodMeasurement,
    PulseGeneration,
    QuadratureEncoder,
    PulseWidth,
}

impl Default for CounterMode {
    fn default() -> (r: CounterMode)
        ensures
            r == CounterMode::EventCount,
    {
        CounterMode::EventCount
    }
}

impl CounterMode {
    pub fn label(&self) -> (r: &'static str)
        ensures
            r@ == match *self {
                CounterMode::EventCount => "Event Count"@,
                CounterMode::FrequencyMeasurement => "Frequency"@,
                CounterMode::PeriodMeasurement => "Period"@,
                CounterMode::PulseGeneration => "Pulse Gen"@,
                CounterMode::QuadratureEncoder => "Quadrature"@,
                CounterMode::PulseWidth => "Pulse Width"@,
            },
    {
        match self {
            CounterMode::EventCount => "Event Count",
            CounterMode::FrequencyMeasurement => "Frequency",
            CounterMode::PeriodMeasurement => "Period",
            CounterMode::PulseGeneration => "Pulse Gen",
            CounterMode::QuadratureEncoder => "Quadrature",
            CounterMode::PulseWidth => "Pulse Width",
        }
    }

    /// Every counter mode.
    pub fn all() -> (r: Vec<CounterMode>)
        ensures
            r@ == seq![
                CounterMode::EventCount,
                CounterMode::FrequencyMeasurement,
                CounterMode::PeriodMeasurement,
                CounterMode::PulseGeneration,
                CounterMode::QuadratureEncoder,
                CounterMode::PulseWidth,
            ],
    {
        vec![
            CounterMode::EventCount,
            CounterMode::FrequencyMeasurement,
            CounterMode::PeriodMeasurement,
            CounterMode::PulseGeneration,
            CounterMode::QuadratureEncoder,
            CounterMode::PulseWidth,
        ]
    }
}

/// How the digital monitor shows its lines.
#[derive(Debug, Clone, Copy, PartialEq, Eq, Structural)]
pub enum MonitorDisplayMode {
    LEDs,
    Table,
    Timing,
}

impl Default for MonitorDisplayMode {
    fn default() -> (r: MonitorDisplayMode)
        ensures
            r == MonitorDisplayMode::LEDs,
    {
        MonitorDisplayMode::LEDs
    }
}

impl MonitorDisplayMode {
    pub fn label(&self) -> (r: &'static str)
        ensures
            r@ == match *self {
                MonitorDisplayMode::LEDs => "LED View"@,
                MonitorDisplayMode::Table => "Table View"@,
                MonitorDisplayMode::Timing => "Timing View"@,
            },
    {
        match self {
            MonitorDisplayMode::LEDs => "LED View",
            MonitorDisplayMode::Table => "Table View",
            MonitorDisplayMode::Timing => "Timing View",
        }
    }

    /// Every display mode.
    pub fn all() -> (r: Vec<MonitorDisplayMode>)
        ensures
            r@ == seq![MonitorDisplayMode::LEDs, MonitorDisplayMode::Table, MonitorDisplayMode::Timing],
    {
        vec![MonitorDisplayMode::LEDs, MonitorDisplayMode::Table, MonitorDisplayMode::Timing]
    }
}

/// A column of the data logger's table.
#[derive(Debug, Clone, Copy, PartialEq, Eq, Structural)]
pub enum ColumnFormat {
    Timestamp,
    Channel,
    Value,
    Unit,
}

} // verus!
