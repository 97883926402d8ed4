//! The SSD1322 command set: a closed set of typed operations, each mapping
//! 1:1 onto a controller opcode with a fixed, bit-packed argument encoding.
//!
//! Argument fields are masked to their valid bit widths before packing, so
//! out-of-range caller values are silently truncated instead of corrupting
//! neighboring bits; this lossy normalization is deliberate.

use vstd::prelude::*;

verus! {

/// Direction in which the controller's RAM address pointer advances.
#[derive(Debug, Clone, Copy)]
pub enum AddressIncrement {
    Horizontal,
    Vertical,
}

impl AddressIncrement {
    /// Bit value packed into the remap-mode byte.
    pub open spec fn spec_value(self) -> u8 {
        match self {
            AddressIncrement::Horizontal => 0,
            AddressIncrement::Vertical => 1,
        }
    }

    /// Executable form of [`Self::spec_value`].
    pub fn value(self) -> (r: u8)
        ensures
            r == self.spec_value(),
    {
        match self {
            AddressIncrement::Horizontal => 0,
            AddressIncrement::Vertical => 1,
        }
    }
}

/// Common-scan direction across the panel rows.
#[derive(Debug, Clone, Copy)]
pub enum ScanDirection {
    Upwards,
    Downwards,
}

impl ScanDirection {
    /// Bit value packed into the remap-mode byte.
    pub open spec fn spec_value(self) -> u8 {
        match self {
            ScanDirection::Upwards => 0,
            ScanDirection::Downwards => 1,
        }
    }

    /// Executable form of [`Self::spec_value`].
    pub fn value(self) -> (r: u8)
        ensures
            r == self.spec_value(),
    {
        match self {
            ScanDirection::Upwards => 0,
            ScanDirection::Downwards => 1,
        }
    }
}

/// Overall display mode.
#[derive(Debug, Clone, Copy)]
pub enum DisplayMode {
    AllOff,
    AllOn,
    Normal,
    Inverse,
}

impl DisplayMode {
    /// Low bits of the mode opcode.
    pub open spec fn spec_value(self) -> u8 {
        match self {
            DisplayMode::AllOff => 4,
            DisplayMode::AllOn => 5,
            DisplayMode::Normal => 6,
            DisplayMode::Inverse => 7,
        }
    }

    /// Executable form of [`Self::spec_value`].
    pub fn value(self) -> (r: u8)
        ensures
            r == self.spec_value(),
    {
        match self {
            DisplayMode::AllOff => 4,
            DisplayMode::AllOn => 5,
            DisplayMode::Normal => 6,
            DisplayMode::Inverse => 7,
        }
    }
}

/// Source of the controller's core supply voltage.
#[derive(Debug, Clone, Copy)]
pub enum VddMode {
    External,
    Internal,
}

impl VddMode {
    /// Argument byte of the VDD function-select command.
    pub open spec fn spec_value(self) -> u8 {
        match self {
            VddMode::External => 0,
            VddMode::Internal => 1,
        }
    }

    /// Executable form of [`Self::spec_value`].
    pub fn value(self) -> (r: u8)
        ensures
            r == self.spec_value(),
    {
        match self {
            VddMode::External => 0,
            VddMode::Internal => 1,
        }
    }
}

/// Display-clock divider (powers of two).
#[derive(Debug, Clone, Copy)]
pub enum ClockDivide {
    DivBy1,
    DivBy2,
    DivBy4,
    DivBy8,
    DivBy16,
    DivBy32,
    DivBy64,
    DivBy128,
    DivBy256,
    DivBy512,
    DivBy1024,
}

impl ClockDivide {
    /// Divider field value packed into the clock command's argument.
    pub open spec fn spec_value(self) -> u8 {
        match self {
            ClockDivide::DivBy1 => 0,
            ClockDivide::DivBy2 => 1,
            ClockDivide::DivBy4 => 2,
            ClockDivide::DivBy8 => 3,
            ClockDivide::DivBy16 => 4,
            ClockDivide::DivBy32 => 5,
            ClockDivide::DivBy64 => 6,
            ClockDivide::DivBy128 => 7,
            ClockDivide::DivBy256 => 8,
            ClockDivide::DivBy512 => 9,
            ClockDivide::DivBy1024 => 10,
        }
    }

    /// Executable form of [`Self::spec_value`].
    pub fn value(self) -> (r: u8)
        ensures
            r == self.spec_value(),
    {
        match self {
            ClockDivide::DivBy1 => 0,
            ClockDivide::DivBy2 => 1,
            ClockDivide::DivBy4 => 2,
            ClockDivide::DivBy8 => 3,
            ClockDivide::DivBy16 => 4,
            ClockDivide::DivBy32 => 5,
            ClockDivide::DivBy64 => 6,
            ClockDivide::DivBy128 => 7,
            ClockDivide::DivBy256 => 8,
            ClockDivide::DivBy512 => 9,
            ClockDivide::DivBy1024 => 10,
        }
    }
}

/// Source of the segment low-voltage rail.
#[derive(Debug, Clone, Copy)]
pub enum VslMode {
    External,
    Internal,
}

impl VslMode {
    /// Field value packed into display-enhancement byte one.
    pub open spec fn spec_value(self) -> u8 {
        match self {
            VslMode::External => 0,
            VslMode::Internal => 2,
        }
    }

    /// Executable form of [`Self::spec_value`].
    pub fn value(self) -> (r: u8)
        ensures
            r == self.spec_value(),
    {
        match self {
            VslMode::External => 0,
            VslMode::Internal => 2,
        }
    }
}

/// Grayscale display-quality selection.
#[derive(Debug, Clone, Copy)]
pub enum GsDisplayQuality {
    Normal,
    Enhanced,
}

impl GsDisplayQuality {
    /// Field value packed into display-enhancement byte two.
    pub open spec fn spec_value(self) -> u8 {
        match self {
            GsDisplayQuality::Normal => 0x16,
            GsDisplayQuality::Enhanced => 0x1f,
        }
    }

    /// Executable form of [`Self::spec_value`].
    pub fn value(self) -> (r: u8)
        ensures
            r == self.spec_value(),
    {
        match self {
            GsDisplayQuality::Normal => 0x16,
            GsDisplayQuality::Enhanced => 0x1f,
        }
    }
}

/// Configuration of one controller GPIO pin.
#[derive(Debug, Clone, Copy)]
pub enum GpioMode {
    HighZInputDisabled,
    HighZInputEnabled,
    OutputLow,
    OutputHigh,
}

impl GpioMode {
    /// Two-bit field value of the GPIO command's argument.
    pub open spec fn spec_value(self) -> u8 {
        match self {
            GpioMode::HighZInputDisabled => 0,
            GpioMode::HighZInputEnabled => 1,
            GpioMode::OutputLow => 2,
            GpioMode::OutputHigh => 3,
        }
    }

    /// Executable form of [`Self::spec_value`].
    pub fn value(self) -> (r: u8)
        ensures
            r == self.spec_value(),
    {
        match self {
            GpioMode::HighZInputDisabled => 0,
            GpioMode::HighZInputEnabled => 1,
            GpioMode::OutputLow => 2,
            GpioMode::OutputHigh => 3,
        }
    }
}

/// One semantic controller operation. A `Command` carries no display
/// state; it is purely a request to emit the corresponding opcode and
/// argument bytes.
#[derive(Debug, Clone, Copy)]
pub enum Command {
    EnableGrayScaleTable,
    SetColumnAddress { start: u8, end: u8 },
    WriteRam,
    ReadRam,
    SetRowAddress { start: u8, end: u8 },
    SetRemapMode {
        address_increment: AddressIncrement,
        column_address_remap: bool,
        nibble_remap: bool,
        scan_direction: ScanDirection,
        split_odd_even: bool,
        dual_com_line: bool,
    },
    SetStartLine(u8),
    SetOffset(u8),
    SetMode(DisplayMode),
    EnablePartialDisplay { start: u8, end: u8 },
    ExitPartialDisplay,
    VddFunctionSelect(VddMode),
    SetDisplayOn(bool),
    SetPhaseLength { phase_1_period: u8, phase_2_period: u8 },
    SetClockDivAndOscFreq { clock_div: ClockDivide, osc_freq: u8 },
    DisplayEnhancementA(VslMode, GsDisplayQuality),
    SetGpio { gpio_0: GpioMode, gpio_1: GpioMode },
    SetSecondPrechargePeriod(u8),
    SetGrayScaleTable([u8; 16]),
    SetDefaultGrayScaleTable,
    SetPrechargeVoltage(u8),
    SetVcomh(u8),
    SetContrastCurrent(u8),
    MasterContrastCurrentControl(u8),
    SetMuxRatio(u8),
    SetCommandLock(bool),
}

/// 1 for `true`, 0 for `false`, as packed into command bit fields.
pub open spec fn bit_of(b: bool) -> u8 {
    if b {
        1u8
    } else {
        0u8
    }
}

impl Command {
    /// The opcode byte the command is issued under.
    pub open spec fn opcode(self) -> u8 {
        match self {
            Command::EnableGrayScaleTable => 0x00,
            Command::SetColumnAddress { .. } => 0x15,
            Command::WriteRam => 0x5c,
            Command::ReadRam => 0x5d,
            Command::SetRowAddress { .. } => 0x75,
            Command::SetRemapMode { .. } => 0xa0,
            Command::SetStartLine(..) => 0xa1,
            Command::SetOffset(..) => 0xa2,
            Command::SetMode(mode) => 0xa0 | mode.spec_value(),
            Command::EnablePartialDisplay { .. } => 0xa8,
            Command::ExitPartialDisplay => 0xa9,
            Command::VddFunctionSelect(..) => 0xab,
            Command::SetDisplayOn(enable) => 0xae | bit_of(enable),
            Command::SetPhaseLength { .. } => 0xb1,
            Command::SetClockDivAndOscFreq { .. } => 0xb3,
            Command::DisplayEnhancementA(..) => 0xb4,
            Command::SetGpio { .. } => 0xb6,
            Command::SetSecondPrechargePeriod(..) => 0xb6,
            Command::SetGrayScaleTable(..) => 0xb8,
            Command::SetDefaultGrayScaleTable => 0xb9,
            Command::SetPrechargeVoltage(..) => 0xbb,
            Command::SetVcomh(..) => 0xbe,
            Command::SetContrastCurrent(..) => 0xc1,
            Command::MasterContrastCurrentControl(..) => 0xc7,
            Command::SetMuxRatio(..) => 0xca,
            Command::SetCommandLock(..) => 0xfd,
        }
    }

    /// The command's argument bytes, in issue order, with every field
    /// masked to its documented bit width.
    pub open spec fn arg_bytes(self) -> Seq<u8> {
        match self {
            Command::EnableGrayScaleTable => seq![],
            Command::SetColumnAddress { start, end } => seq![start & 0x7f, end & 0x7f],
            Command::WriteRam => seq![],
            Command::ReadRam => seq![],
            Command::SetRowAddress { start, end } => seq![start & 0x7f, end & 0x7f],
            Command::SetRemapMode {
                address_increment,
                column_address_remap,
                nibble_remap,
                scan_direction,
                split_odd_even,
                dual_com_line,
            } => seq![
                address_increment.spec_value() | (bit_of(column_address_remap) << 1) | (bit_of(
                    nibble_remap,
                ) << 2) | (scan_direction.spec_value() << 4) | (bit_of(split_odd_even) << 5),
                0x01 | (bit_of(dual_com_line) << 4),
            ],
            Command::SetStartLine(n) => seq![n & 0x7f],
            Command::SetOffset(n) => seq![n & 0x7f],
            Command::SetMode(..) => seq![],
            Command::EnablePartialDisplay { start, end } => seq![start & 0x7f, end & 0x7f],
            Command::ExitPartialDisplay => seq![],
            Command::VddFunctionSelect(mode) => seq![mode.spec_value()],
            Command::SetDisplayOn(..) => seq![],
            Command::SetPhaseLength { phase_1_period, phase_2_period } => seq![
                (phase_1_period & 0x0f) | ((phase_2_period & 0x0f) << 4),
            ],
            Command::SetClockDivAndOscFreq { clock_div, osc_freq } => seq![
                (clock_div.spec_value() & 0x0f) | ((osc_freq & 0x0f) << 4),
            ],
            Command::DisplayEnhancementA(vsl, quality) => seq![
                0xa0 | vsl.spec_value(),
                0x05 | (quality.spec_value() << 3),
            ],
            Command::SetGpio { gpio_0, gpio_1 } => seq![
                gpio_0.spec_value() | (gpio_1.spec_value() << 2),
            ],
            Command::SetSecondPrechargePeriod(period) => seq![period & 0x0f],
            Command::SetGrayScaleTable(table) => table@,
            Command::SetDefaultGrayScaleTable => seq![],
            Command::SetPrechargeVoltage(voltage) => seq![voltage & 0x1f],
            Command::SetVcomh(vcomh) => seq![vcomh & 0x07],
            Command::SetContrastCurrent(contrast) => seq![contrast],
            Command::MasterContrastCurrentControl(cc) => seq![cc & 0x0f],
            Command::SetMuxRatio(ratio) => seq![ratio & 0x7f],
            Command::SetCommandLock(lock) => seq![0x12 | (bit_of(lock) << 2)],
        }
    }
}

} // verus!
