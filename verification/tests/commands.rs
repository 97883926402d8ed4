use ssd1322_ui::commands::{
    AddressIncrement, ClockDivide, Command, DisplayMode, GpioMode, GsDisplayQuality,
    ScanDirection, VddMode, VslMode,
};
use ssd1322_ui::ssd1322::{BusWord, RecordingBus, Ssd1322, TransactionType};

fn c(byte: u8) -> BusWord {
    BusWord { txn: TransactionType::Command, byte }
}

fn d(byte: u8) -> BusWord {
    BusWord { txn: TransactionType::Data, byte }
}

fn encode(cmd: Command) -> Vec<BusWord> {
    let mut bus = RecordingBus::new();
    bus.command(cmd).unwrap();
    bus.words().clone()
}

#[test]
fn encodes_command_lock() {
    assert_eq!(encode(Command::SetCommandLock(true)), vec![c(0xfd), d(0x16)]);
    assert_eq!(encode(Command::SetCommandLock(false)), vec![c(0xfd), d(0x12)]);
}

#[test]
fn encodes_column_and_row_addresses() {
    assert_eq!(
        encode(Command::SetColumnAddress { start: 28, end: 91 }),
        vec![c(0x15), d(0x1c), d(0x5b)]
    );
    assert_eq!(
        encode(Command::SetRowAddress { start: 0, end: 63 }),
        vec![c(0x75), d(0x00), d(0x3f)]
    );
}

#[test]
fn encodes_display_on_off_in_the_opcode() {
    assert_eq!(encode(Command::SetDisplayOn(false)), vec![c(0xae)]);
    assert_eq!(encode(Command::SetDisplayOn(true)), vec![c(0xaf)]);
}

#[test]
fn encodes_clock_div_and_osc_freq() {
    assert_eq!(
        encode(Command::SetClockDivAndOscFreq { clock_div: ClockDivide::DivBy1, osc_freq: 1 }),
        vec![c(0xb3), d(0x10)]
    );
    assert_eq!(
        encode(Command::SetClockDivAndOscFreq { clock_div: ClockDivide::DivBy16, osc_freq: 9 }),
        vec![c(0xb3), d(0x94)]
    );
}

#[test]
fn encodes_seven_bit_fields_with_masking() {
    assert_eq!(encode(Command::SetMuxRatio(0x3f)), vec![c(0xca), d(0x3f)]);
    assert_eq!(encode(Command::SetMuxRatio(0xff)), vec![c(0xca), d(0x7f)]);
    assert_eq!(encode(Command::SetStartLine(0x91)), vec![c(0xa1), d(0x11)]);
    assert_eq!(encode(Command::SetOffset(0x80)), vec![c(0xa2), d(0x00)]);
    assert_eq!(
        encode(Command::SetColumnAddress { start: 0xff, end: 0x80 }),
        vec![c(0x15), d(0x7f), d(0x00)]
    );
}

#[test]
fn encodes_remap_mode() {
    assert_eq!(
        encode(Command::SetRemapMode {
            address_increment: AddressIncrement::Horizontal,
            column_address_remap: false,
            nibble_remap: true,
            scan_direction: ScanDirection::Downwards,
            split_odd_even: false,
            dual_com_line: true,
        }),
        vec![c(0xa0), d(0x14), d(0x11)]
    );
    assert_eq!(
        encode(Command::SetRemapMode {
            address_increment: AddressIncrement::Vertical,
            column_address_remap: true,
            nibble_remap: false,
            scan_direction: ScanDirection::Upwards,
            split_odd_even: true,
            dual_com_line: false,
        }),
        vec![c(0xa0), d(0x23), d(0x01)]
    );
}

#[test]
fn encodes_display_modes() {
    assert_eq!(encode(Command::SetMode(DisplayMode::AllOff)), vec![c(0xa4)]);
    assert_eq!(encode(Command::SetMode(DisplayMode::AllOn)), vec![c(0xa5)]);
    assert_eq!(encode(Command::SetMode(DisplayMode::Normal)), vec![c(0xa6)]);
    assert_eq!(encode(Command::SetMode(DisplayMode::Inverse)), vec![c(0xa7)]);
}

#[test]
fn encodes_partial_display_window() {
    assert_eq!(
        encode(Command::EnablePartialDisplay { start: 10, end: 200 }),
        vec![c(0xa8), d(10), d(0x48)]
    );
    assert_eq!(encode(Command::ExitPartialDisplay), vec![c(0xa9)]);
}

#[test]
fn encodes_supply_and_enhancement() {
    assert_eq!(encode(Command::VddFunctionSelect(VddMode::Internal)), vec![c(0xab), d(1)]);
    assert_eq!(encode(Command::VddFunctionSelect(VddMode::External)), vec![c(0xab), d(0)]);
    assert_eq!(
        encode(Command::DisplayEnhancementA(VslMode::External, GsDisplayQuality::Enhanced)),
        vec![c(0xb4), d(0xa0), d(0xfd)]
    );
    assert_eq!(
        encode(Command::DisplayEnhancementA(VslMode::Internal, GsDisplayQuality::Normal)),
        vec![c(0xb4), d(0xa2), d(0xb5)]
    );
}

#[test]
fn encodes_phase_and_precharge() {
    assert_eq!(
        encode(Command::SetPhaseLength { phase_1_period: 2, phase_2_period: 15 }),
        vec![c(0xb1), d(0xf2)]
    );
    assert_eq!(encode(Command::SetPrechargeVoltage(13)), vec![c(0xbb), d(0x0d)]);
    assert_eq!(encode(Command::SetPrechargeVoltage(0xff)), vec![c(0xbb), d(0x1f)]);
    assert_eq!(encode(Command::SetSecondPrechargePeriod(0x1f)), vec![c(0xb6), d(0x0f)]);
    assert_eq!(encode(Command::SetVcomh(0xff)), vec![c(0xbe), d(0x07)]);
}

#[test]
fn encodes_contrast_controls() {
    assert_eq!(encode(Command::SetContrastCurrent(0x80)), vec![c(0xc1), d(0x80)]);
    assert_eq!(encode(Command::MasterContrastCurrentControl(8)), vec![c(0xc7), d(0x08)]);
    assert_eq!(encode(Command::MasterContrastCurrentControl(0xff)), vec![c(0xc7), d(0x0f)]);
}

#[test]
fn encodes_gpio_modes() {
    assert_eq!(
        encode(Command::SetGpio { gpio_0: GpioMode::OutputHigh, gpio_1: GpioMode::OutputLow }),
        vec![c(0xb6), d(0x0b)]
    );
    assert_eq!(
        encode(Command::SetGpio {
            gpio_0: GpioMode::HighZInputDisabled,
            gpio_1: GpioMode::HighZInputEnabled,
        }),
        vec![c(0xb6), d(0x04)]
    );
}

#[test]
fn encodes_gray_scale_table() {
    let table = [0, 1, 2, 3, 4, 5, 6, 7, 8, 9, 10, 11, 12, 13, 14, 15];
    let mut expected = vec![c(0xb8)];
    for byte in table {
        expected.push(d(byte));
    }
    assert_eq!(encode(Command::SetGrayScaleTable(table)), expected);
    assert_eq!(encode(Command::SetDefaultGrayScaleTable), vec![c(0xb9)]);
    assert_eq!(encode(Command::EnableGrayScaleTable), vec![c(0x00)]);
}

#[test]
fn encodes_ram_access_opcodes() {
    assert_eq!(encode(Command::WriteRam), vec![c(0x5c)]);
    assert_eq!(encode(Command::ReadRam), vec![c(0x5d)]);
}

#[test]
fn raw_command_emits_opcode_then_data() {
    let mut bus = RecordingBus::new();
    bus.raw_command(0xaa, &[1, 2, 3]).unwrap();
    assert_eq!(*bus.words(), vec![c(0xaa), d(1), d(2), d(3)]);
}

#[test]
fn batched_writes_latch_plain_data_words() {
    let mut bus = RecordingBus::new();
    bus.multi_write_begin().unwrap();
    bus.multi_write_byte(0x35).unwrap();
    bus.multi_write_byte(0x91).unwrap();
    bus.multi_write_end().unwrap();
    assert_eq!(*bus.words(), vec![d(0x35), d(0x91)]);
}

#[test]
fn write_limit_fails_the_operation_that_would_exceed_it() {
    let mut bus = RecordingBus::with_limit(1);
    bus.write(TransactionType::Command, 0x5c).unwrap();
    assert!(bus.write(TransactionType::Data, 0x00).is_err());
    assert_eq!(*bus.words(), vec![c(0x5c)]);
}
