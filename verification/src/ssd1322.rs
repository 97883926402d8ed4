//! The bus-facing half of the driver: a transaction-level interface to an
//! SSD1322-class controller over an 8080-style parallel bus, modeled as the
//! sequence of command/data words the controller sees, together with the
//! command-protocol and dirty-rectangle refresh layers built on top of it.

use vstd::prelude::*;

use crate::commands::Command;
use crate::pixel_buffer::PixelBuffer;
use crate::Rect;

verus! {

broadcast use vstd::array::group_array_axioms;

/// First controller RAM column mapped to the panel.
pub const COL_START: usize = 28;

/// One past the last controller RAM column mapped to the panel.
pub const COL_END: usize = 92;

/// First controller RAM row mapped to the panel.
pub const ROW_START: usize = 0;

/// One past the last controller RAM row mapped to the panel.
pub const ROW_END: usize = 64;

/// Whether a bus word is latched as a command or as data (the level of the
/// data/command line during the write strobe).
#[derive(Debug, Clone, Copy, PartialEq, Eq, Structural)]
pub enum TransactionType {
    Data,
    Command,
}

/// One byte as the controller sees it: the byte itself plus the
/// command/data line level it was latched with.
#[derive(Debug, Clone, Copy, PartialEq, Eq, Structural)]
pub struct BusWord {
    pub txn: TransactionType,
    pub byte: u8,
}

/// A command-type bus word.
pub open spec fn cmd_word(byte: u8) -> BusWord {
    BusWord { txn: TransactionType::Command, byte }
}

/// A data-type bus word.
pub open spec fn data_word(byte: u8) -> BusWord {
    BusWord { txn: TransactionType::Data, byte }
}

/// The words emitted by a raw command: the opcode as a command word, then
/// each argument as a data word.
pub open spec fn raw_words(opcode: u8, args: Seq<u8>) -> Seq<BusWord> {
    seq![cmd_word(opcode)] + args.map_values(|b: u8| data_word(b))
}

/// The words emitted by one typed command.
pub open spec fn command_words(c: Command) -> Seq<BusWord> {
    raw_words(c.opcode(), c.arg_bytes())
}

/// The byte that packs two 4-bit pixel intensities: `p0`'s low nibble in
/// the high nibble, `p1`'s low nibble in the low nibble.
pub open spec fn pack_pair(p0: u8, p1: u8) -> u8 {
    (p0 << 4) | p1
}

/// Nibble packing is lossless for 4-bit intensities: both pixels of a
/// packed pair can be read back from the byte, so a pack/unpack round
/// trip is the identity.
pub proof fn lemma_pack_pair_lossless(p0: u8, p1: u8)
    requires
        p0 <= 15,
        p1 <= 15,
    ensures
        pack_pair(p0, p1) >> 4 == p0,
        pack_pair(p0, p1) & 0x0f == p1,
{
    assert((((p0 << 4) | p1) >> 4) == p0 && (((p0 << 4) | p1) & 0x0f) == p1) by (bit_vector)
        requires
            p0 <= 15 && p1 <= 15,
    ;
}

/// The packed bytes of the first `g` four-pixel groups of row `y`,
/// starting at column `x0`: each group of four pixels becomes two bytes.
pub open spec fn packed_row_upto(pb: PixelBuffer, x0: int, y: int, g: int) -> Seq<u8>
    decreases g,
{
    if g <= 0 {
        seq![]
    } else {
        packed_row_upto(pb, x0, y, g - 1) + seq![
            pack_pair(pb.pix(x0 + 4 * (g - 1), y), pb.pix(x0 + 4 * (g - 1) + 1, y)),
            pack_pair(pb.pix(x0 + 4 * (g - 1) + 2, y), pb.pix(x0 + 4 * (g - 1) + 3, y)),
        ]
    }
}

/// The packed bytes of the first `r` rows of the aligned area `fit`, in
/// row-major order.
pub open spec fn packed_rows_upto(pb: PixelBuffer, fit: Rect, r: int) -> Seq<u8>
    decreases r,
{
    if r <= 0 {
        seq![]
    } else {
        packed_rows_upto(pb, fit, r - 1) + packed_row_upto(
            pb,
            fit.x as int,
            fit.y + (r - 1),
            (fit.w as int) / 4,
        )
    }
}

/// `area` aligned outward to the controller's 4-pixel column granularity.
pub open spec fn aligned_area(area: Rect) -> Rect {
    Rect {
        x: area.fit_x(4) as i32,
        y: area.y,
        w: (area.fit_x2(4) - area.fit_x(4)) as i32,
        h: area.h,
    }
}

/// The addressing commands of a refresh of the aligned area `fit`: the
/// column window, the row window, then the write-RAM command.
pub open spec fn window_words(fit: Rect) -> Seq<BusWord> {
    command_words(
        Command::SetColumnAddress {
            start: (COL_START + fit.x as int / 4) as u8,
            end: (COL_START + (fit.x + fit.w) / 4 - 1) as u8,
        },
    ) + command_words(
        Command::SetRowAddress {
            start: (ROW_START + fit.y) as u8,
            end: (ROW_START + fit.y + fit.h) as u8,
        },
    ) + command_words(Command::WriteRam)
}

/// Every word a refresh of `area` from `pb` latches: the addressing
/// commands for the aligned area, then its packed pixel bytes as data
/// words. This is a function of the buffer and rectangle alone, so two
/// refreshes of an unchanged buffer and rectangle emit identical words.
pub open spec fn refresh_words(pb: PixelBuffer, area: Rect) -> Seq<BusWord> {
    let fit = aligned_area(area);
    window_words(fit) + packed_rows_upto(pb, fit, fit.h as int).map_values(
        |b: u8| data_word(b),
    )
}

/// A value divisible by 4 is exactly 4 times its quotient.
proof fn lemma_mult_of_4(v: int)
    requires
        v % 4 == 0,
    ensures
        v == 4 * (v / 4),
{
    vstd::arithmetic::div_mod::lemma_fundamental_div_mod(v, 4);
}

/// Of two values divisible by 4, one less than 4 past the other is at most
/// the other.
proof fn lemma_aligned_le(a: int, b: int)
    requires
        a % 4 == 0,
        b % 4 == 0,
        a < b + 4,
    ensures
        a <= b,
{
    lemma_mult_of_4(a);
    lemma_mult_of_4(b);
    assert(a <= b) by (nonlinear_arith)
        requires
            a == 4 * (a / 4),
            b == 4 * (b / 4),
            a < b + 4,
    ;
}

/// The single bus-level failure kind: a host pin could not be driven. It
/// aborts the transaction in progress and leaves the physical bus state
/// unspecified; recovery is the caller's concern.
#[derive(Debug, Clone, Copy, PartialEq, Eq, Structural)]
pub struct BusError;

/// A transaction-level SSD1322 port. Implementors drive the five control
/// lines and the 8-bit data bus; this trait specifies every operation by
/// the sequence of words the controller has latched (`emitted`) and whether
/// a batched write is open (`in_batch`).
///
/// On an error the physical bus state is unspecified, so nothing is
/// promised about the trace in that case.
pub trait Ssd1322: Sized {
    type Error;

    /// The command/data words the controller has latched so far. The
    /// default leaves the trace abstract; verified implementations
    /// override it.
    open spec fn emitted(&self) -> Seq<BusWord> {
        Seq::empty()
    }

    /// Whether a batched write (begin without end) is open. Single
    /// transactions drive the control lines themselves and must not be
    /// interleaved with an open batch.
    open spec fn in_batch(&self) -> bool {
        false
    }

    /// Latch one byte as a single transaction: drive the data bus, set the
    /// data/command line per `txn_type`, and strobe it into the controller
    /// with the documented setup and hold times.
    fn write(&mut self, txn_type: TransactionType, data: u8) -> (r: Result<(), Self::Error>)
        requires
            !old(self).in_batch(),
        ensures
            r is Ok ==> final(self).emitted() == old(self).emitted().push(
                BusWord { txn: txn_type, byte: data },
            ),
            r is Ok ==> !final(self).in_batch(),
    ;

    /// Read one byte as a single transaction. What comes back depends on
    /// the controller's state, so nothing is promised about the value; the
    /// emitted word trace is unchanged.
    fn read(&mut self, txn_type: TransactionType) -> (r: Result<u8, Self::Error>)
        requires
            !old(self).in_batch(),
        ensures
            r is Ok ==> final(self).emitted() == old(self).emitted(),
            r is Ok ==> !final(self).in_batch(),
    ;

    /// Open a batched data write: assert the data/command line for data and
    /// chip-select once, so that following bytes only need a write strobe.
    fn multi_write_begin(&mut self) -> (r: Result<(), Self::Error>)
        requires
            !old(self).in_batch(),
        ensures
            r is Ok ==> final(self).emitted() == old(self).emitted(),
            r is Ok ==> final(self).in_batch(),
    ;

    /// Latch one data byte inside an open batch.
    fn multi_write_byte(&mut self, data: u8) -> (r: Result<(), Self::Error>)
        requires
            old(self).in_batch(),
        ensures
            r is Ok ==> final(self).emitted() == old(self).emitted().push(
                BusWord { txn: TransactionType::Data, byte: data },
            ),
            r is Ok ==> final(self).in_batch(),
    ;

    /// Close a batched write and release chip-select.
    fn multi_write_end(&mut self) -> (r: Result<(), Self::Error>)
        requires
            old(self).in_batch(),
        ensures
            r is Ok ==> final(self).emitted() == old(self).emitted(),
            r is Ok ==> !final(self).in_batch(),
    ;

    /// Issue a raw command: the opcode as a command word, then each
    /// argument byte as a data word.
    fn raw_command(&mut self, command: u8, args: &[u8]) -> (r: Result<(), Self::Error>)
        requires
            !old(self).in_batch(),
        ensures
            r is Ok ==> final(self).emitted() == old(self).emitted() + raw_words(command, args@),
            r is Ok ==> !final(self).in_batch(),
    {
        let ghost base = self.emitted();
        self.write(TransactionType::Command, command)?;
        let n = args.len();
        let mut i: usize = 0;
        proof {
            assert(self.emitted() =~= base + raw_words(command, args@.take(0)));
        }
        while i < n
            invariant
                !self.in_batch(),
                n == args@.len(),
                i <= n,
                self.emitted() == base + raw_words(command, args@.take(i as int)),
            decreases n - i,
        {
            self.write(TransactionType::Data, args[i])?;
            proof {
                assert(base + raw_words(command, args@.take(i as int)) + seq![
                    data_word(args@[i as int]),
                ] =~= base + raw_words(command, args@.take(i as int + 1)));
            }
            i = i + 1;
        }
        proof {
            assert(args@.take(n as int) =~= args@);
        }
        Ok(())
    }

    /// Issue one typed command: encode it into its opcode and bit-packed
    /// argument bytes (see [`Command::opcode`] and [`Command::arg_bytes`])
    /// and write them to the bus.
    fn command(&mut self, command: Command) -> (r: Result<(), Self::Error>)
        requires
            !old(self).in_batch(),
        ensures
            r is Ok ==> final(self).emitted() == old(self).emitted() + command_words(command),
            r is Ok ==> !final(self).in_batch(),
    {
        match command {
            Command::EnableGrayScaleTable => {
                let args: [u8; 0] = [];
                let r = self.raw_command(0x00, args.as_slice());
                proof {
                    assert(args@ =~= command.arg_bytes());
                }
                r
            },
            Command::SetColumnAddress { start, end } => {
                let args = [start & 0x7f, end & 0x7f];
                let r = self.raw_command(0x15, args.as_slice());
                proof {
                    assert(args@ =~= command.arg_bytes());
                }
                r
            },
            Command::WriteRam => {
                let args: [u8; 0] = [];
                let r = self.raw_command(0x5c, args.as_slice());
                proof {
                    assert(args@ =~= command.arg_bytes());
                }
                r
            },
            Command::ReadRam => {
                let args: [u8; 0] = [];
                let r = self.raw_command(0x5d, args.as_slice());
                proof {
                    assert(args@ =~= command.arg_bytes());
                }
                r
            },
            Command::SetRowAddress { start, end } => {
                let args = [start & 0x7f, end & 0x7f];
                let r = self.raw_command(0x75, args.as_slice());
                proof {
                    assert(args@ =~= command.arg_bytes());
                }
                r
            },
            Command::SetRemapMode {
                address_increment,
                column_address_remap,
                nibble_remap,
                scan_direction,
                split_odd_even,
                dual_com_line,
            } => {
                let col_remap: u8 = if column_address_remap { 1 } else { 0 };
                let nib_remap: u8 = if nibble_remap { 1 } else { 0 };
                let split: u8 = if split_odd_even { 1 } else { 0 };
                let dual: u8 = if dual_com_line { 1 } else { 0 };
                let args = [
                    address_increment.value() | (col_remap << 1) | (nib_remap << 2) | (
                    scan_direction.value() << 4) | (split << 5),
                    0x01 | (dual << 4),
                ];
                let r = self.raw_command(0xa0, args.as_slice());
                proof {
                    assert(args@ =~= command.arg_bytes());
                }
                r
            },
            Command::SetStartLine(n) => {
                let args = [n & 0x7f];
                let r = self.raw_command(0xa1, args.as_slice());
                proof {
                    assert(args@ =~= command.arg_bytes());
                }
                r
            },
            Command::SetOffset(n) => {
                let args = [n & 0x7f];
                let r = self.raw_command(0xa2, args.as_slice());
                proof {
                    assert(args@ =~= command.arg_bytes());
                }
                r
            },
            Command::SetMode(mode) => {
                let args: [u8; 0] = [];
                let r = self.raw_command(0xa0 | mode.value(), args.as_slice());
                proof {
                    assert(args@ =~= command.arg_bytes());
                }
                r
            },
            Command::EnablePartialDisplay { start, end } => {
                let args = [start & 0x7f, end & 0x7f];
                let r = self.raw_command(0xa8, args.as_slice());
                proof {
                    assert(args@ =~= command.arg_bytes());
                }
                r
            },
            Command::ExitPartialDisplay => {
                let args: [u8; 0] = [];
                let r = self.raw_command(0xa9, args.as_slice());
                proof {
                    assert(args@ =~= command.arg_bytes());
                }
                r
            },
            Command::VddFunctionSelect(mode) => {
                let args = [mode.value()];
                let r = self.raw_command(0xab, args.as_slice());
                proof {
                    assert(args@ =~= command.arg_bytes());
                }
                r
            },
            Command::SetDisplayOn(enable) => {
                let on: u8 = if enable { 1 } else { 0 };
                let args: [u8; 0] = [];
                let r = self.raw_command(0xae | on, args.as_slice());
                proof {
                    assert(args@ =~= command.arg_bytes());
                }
                r
            },
            Command::SetPhaseLength { phase_1_period, phase_2_period } => {
                let args = [(phase_1_period & 0x0f) | ((phase_2_period & 0x0f) << 4)];
                let r = self.raw_command(0xb1, args.as_slice());
                proof {
                    assert(args@ =~= command.arg_bytes());
                }
                r
            },
            Command::SetClockDivAndOscFreq { clock_div, osc_freq } => {
                let args = [(clock_div.value() & 0x0f) | ((osc_freq & 0x0f) << 4)];
                let r = self.raw_command(0xb3, args.as_slice());
                proof {
                    assert(args@ =~= command.arg_bytes());
                }
                r
            },
            Command::DisplayEnhancementA(vsl, quality) => {
                let args = [0xa0 | vsl.value(), 0x05 | (quality.value() << 3)];
                let r = self.raw_command(0xb4, args.as_slice());
                proof {
                    assert(args@ =~= command.arg_bytes());
                }
                r
            },
            Command::SetGpio { gpio_0, gpio_1 } => {
                let args = [gpio_0.value() | (gpio_1.value() << 2)];
                let r = self.raw_command(0xb6, args.as_slice());
                proof {
                    assert(args@ =~= command.arg_bytes());
                }
                r
            },
            Command::SetSecondPrechargePeriod(period) => {
                let args = [period & 0x0f];
                let r = self.raw_command(0xb6, args.as_slice());
                proof {
                    assert(args@ =~= command.arg_bytes());
                }
                r
            },
            Command::SetGrayScaleTable(table) => {
                let r = self.raw_command(0xb8, table.as_slice());
                proof {
                    assert(table@ =~= command.arg_bytes());
                }
                r
            },
            Command::SetDefaultGrayScaleTable => {
                let args: [u8; 0] = [];
                let r = self.raw_command(0xb9, args.as_slice());
                proof {
                    assert(args@ =~= command.arg_bytes());
                }
                r
            },
            Command::SetPrechargeVoltage(voltage) => {
                let args = [voltage & 0x1f];
                let r = self.raw_command(0xbb, args.as_slice());
                proof {
                    assert(args@ =~= command.arg_bytes());
                }
                r
            },
            Command::SetVcomh(vcomh) => {
                let args = [vcomh & 0x07];
                let r = self.raw_command(0xbe, args.as_slice());
                proof {
                    assert(args@ =~= command.arg_bytes());
                }
                r
            },
            Command::SetContrastCurrent(contrast) => {
                let args = [contrast];
                let r = self.raw_command(0xc1, args.as_slice());
                proof {
                    assert(args@ =~= command.arg_bytes());
                }
                r
            },
            Command::MasterContrastCurrentControl(cc) => {
                let args = [cc & 0x0f];
                let r = self.raw_command(0xc7, args.as_slice());
                proof {
                    assert(args@ =~= command.arg_bytes());
                }
                r
            },
            Command::SetMuxRatio(ratio) => {
                let args = [ratio & 0x7f];
                let r = self.raw_command(0xca, args.as_slice());
                proof {
                    assert(args@ =~= command.arg_bytes());
                }
                r
            },
            Command::SetCommandLock(lock) => {
                let locked: u8 = if lock { 1 } else { 0 };
                let args = [0x12 | (locked << 2)];
                let r = self.raw_command(0xfd, args.as_slice());
                proof {
                    assert(args@ =~= command.arg_bytes());
                }
                r
            },
        }
    }

    /// Refresh the dirty rectangle `area` of `buf` onto the panel: align
    /// it to the controller's 4-pixel column granularity, set the RAM
    /// address window, and stream the aligned rows as packed nibble pairs
    /// through one batched write. The words latched are exactly
    /// [`refresh_words`]`(*buf, area)`, a function of the buffer and
    /// rectangle alone. An error aborts mid-stream with no rollback.
    #[verifier::loop_isolation(false)]
    fn refresh(&mut self, buf: &PixelBuffer, area: Rect) -> (r: Result<(), Self::Error>)
        requires
            !old(self).in_batch(),
            buf.wf(),
            0 <= area.x,
            0 <= area.y,
            1 <= area.w,
            1 <= area.h,
            area.x + area.w <= buf.width(),
            area.y + area.h <= buf.height(),
            buf.width() % 4 == 0,
            COL_START + buf.width() / 4 <= 256,
            ROW_START + buf.height() <= 255,
        ensures
            r is Ok ==> final(self).emitted() == old(self).emitted() + refresh_words(*buf, area),
            r is Ok ==> !final(self).in_batch(),
    {
        proof {
            lemma_mult_of_4(buf.width());
        }
        let fit = area.best_fit_x(4);
        proof {
            assert(fit == aligned_area(area));
            lemma_aligned_le(fit.x + fit.w, buf.width());
            lemma_mult_of_4(fit.x as int);
            lemma_mult_of_4(fit.x + fit.w);
        }
        let col_start = (COL_START + fit.x as usize / 4) as u8;
        let col_end = (COL_START + (fit.x + fit.w) as usize / 4 - 1) as u8;
        self.command(Command::SetColumnAddress { start: col_start, end: col_end })?;
        let row_start = (ROW_START + fit.y as usize) as u8;
        let row_end = (ROW_START + (fit.y + fit.h) as usize) as u8;
        self.command(Command::SetRowAddress { start: row_start, end: row_end })?;
        self.command(Command::WriteRam)?;
        self.multi_write_begin()?;
        let ghost base = self.emitted();
        proof {
            assert(base =~= old(self).emitted() + window_words(fit));
            assert(self.emitted() =~= base + packed_rows_upto(*buf, fit, 0).map_values(
                |b: u8| data_word(b),
            ));
        }
        let groups = fit.w as usize / 4;
        proof {
            assert(fit.w % 4 == 0int);
            lemma_mult_of_4(fit.w as int);
        }
        let y_end = fit.y + fit.h;
        let mut yy = fit.y;
        while yy < y_end
            invariant
                self.in_batch(),
                fit.y <= yy <= y_end,
                self.emitted() == base + packed_rows_upto(*buf, fit, yy - fit.y).map_values(
                    |b: u8| data_word(b),
                ),
            decreases y_end - yy,
        {
            let mut g: usize = 0;
            proof {
                assert(packed_rows_upto(*buf, fit, yy - fit.y) + packed_row_upto(
                    *buf,
                    fit.x as int,
                    yy as int,
                    0,
                ) =~= packed_rows_upto(*buf, fit, yy - fit.y));
            }
            while g < groups
                invariant
                    self.in_batch(),
                    fit.y <= yy < y_end,
                    0 <= g <= groups,
                    self.emitted() == base + (packed_rows_upto(*buf, fit, yy - fit.y)
                        + packed_row_upto(*buf, fit.x as int, yy as int, g as int)).map_values(
                        |b: u8| data_word(b),
                    ),
                decreases groups - g,
            {
                let x = fit.x + 4 * g as i32;
                let p0 = buf.at(x, yy);
                let p1 = buf.at(x + 1, yy);
                let p2 = buf.at(x + 2, yy);
                let p3 = buf.at(x + 3, yy);
                let b0 = (p0 << 4) | p1;
                let b1 = (p2 << 4) | p3;
                let ghost mid = self.emitted();
                self.multi_write_byte(b0)?;
                self.multi_write_byte(b1)?;
                proof {
                    let f = |b: u8| data_word(b);
                    let rows = packed_rows_upto(*buf, fit, yy - fit.y);
                    assert(packed_row_upto(*buf, fit.x as int, yy as int, g as int + 1)
                        =~= packed_row_upto(*buf, fit.x as int, yy as int, g as int) + seq![
                        b0,
                        b1,
                    ]);
                    assert(self.emitted() =~= base + (rows + packed_row_upto(
                        *buf,
                        fit.x as int,
                        yy as int,
                        g as int + 1,
                    )).map_values(f));
                }
                g = g + 1;
            }
            proof {
                let f = |b: u8| data_word(b);
                assert(packed_rows_upto(*buf, fit, yy - fit.y + 1) =~= packed_rows_upto(
                    *buf,
                    fit,
                    yy - fit.y,
                ) + packed_row_upto(*buf, fit.x as int, yy as int, groups as int));
                assert(self.emitted() =~= base + packed_rows_upto(
                    *buf,
                    fit,
                    yy - fit.y + 1,
                ).map_values(f));
            }
            yy = yy + 1;
        }
        self.multi_write_end()?;
        proof {
            assert(final(self).emitted() =~= old(self).emitted() + refresh_words(*buf, area));
        }
        Ok(())
    }
}

/// A host-calibrated busy-wait: implementors delay for at least the given
/// number of bus cycles at their clock frequency. Pin-level ports use this
/// to meet the controller's setup and hold times without hardcoding one
/// clock speed.
pub trait CycleDelay {
    fn delay_cycles(cycles: usize);
}

/// Marker for ports that accept controller commands.
pub trait CommandInterface {

}

/// A bus that records the latched words instead of driving pins: the
/// reference implementation of [`Ssd1322`] for tests and host-side use.
/// A word limit can be set, after which every operation that would latch a
/// word fails, the way a flaky pin would.
#[derive(Debug)]
pub struct RecordingBus {
    log: Vec<BusWord>,
    batch: bool,
    limit: Option<usize>,
}

impl RecordingBus {
    /// An empty bus with no failure limit: every operation succeeds.
    pub fn new() -> (r: RecordingBus)
        ensures
            r.emitted() == Seq::<BusWord>::empty(),
            !r.in_batch(),
            r.never_fails(),
    {
        RecordingBus { log: Vec::new(), batch: false, limit: None }
    }

    /// An empty bus that fails every operation which would latch a word
    /// beyond the first `limit` words.
    pub fn with_limit(limit: usize) -> (r: RecordingBus)
        ensures
            r.emitted() == Seq::<BusWord>::empty(),
            !r.in_batch(),
    {
        RecordingBus { log: Vec::new(), batch: false, limit: Some(limit) }
    }

    /// Whether no failure limit is set.
    pub closed spec fn never_fails(self) -> bool {
        self.limit is None
    }

    /// The words recorded so far.
    pub fn words(&self) -> (r: &Vec<BusWord>)
        ensures
            r@ == self.emitted(),
    {
        &self.log
    }
}

impl Ssd1322 for RecordingBus {
    type Error = BusError;

    closed spec fn emitted(&self) -> Seq<BusWord> {
        self.log@
    }

    closed spec fn in_batch(&self) -> bool {
        self.batch
    }

    fn write(&mut self, txn_type: TransactionType, data: u8) -> (r: Result<(), BusError>)
        ensures
            old(self).never_fails() ==> r is Ok,
            final(self).never_fails() == old(self).never_fails(),
    {
        match self.limit {
            Some(l) => {
                if self.log.len() >= l {
                    return Err(BusError);
                }
            },
            None => {},
        }
        self.log.push(BusWord { txn: txn_type, byte: data });
        Ok(())
    }

    fn read(&mut self, txn_type: TransactionType) -> (r: Result<u8, BusError>)
        ensures
            old(self).never_fails() ==> r is Ok,
            final(self).never_fails() == old(self).never_fails(),
    {
        Ok(0)
    }

    fn multi_write_begin(&mut self) -> (r: Result<(), BusError>)
        ensures
            old(self).never_fails() ==> r is Ok,
            final(self).never_fails() == old(self).never_fails(),
    {
        self.batch = true;
        Ok(())
    }

    fn multi_write_byte(&mut self, data: u8) -> (r: Result<(), BusError>)
        ensures
            old(self).never_fails() ==> r is Ok,
            final(self).never_fails() == old(self).never_fails(),
    {
        match self.limit {
            Some(l) => {
                if self.log.len() >= l {
                    return Err(BusError);
                }
            },
            None => {},
        }
        self.log.push(BusWord { txn: TransactionType::Data, byte: data });
        Ok(())
    }

    fn multi_write_end(&mut self) -> (r: Result<(), BusError>)
        ensures
            old(self).never_fails() ==> r is Ok,
            final(self).never_fails() == old(self).never_fails(),
    {
        self.batch = false;
        Ok(())
    }
}

/// The commands of the fixed power-on sequence, in issue order.
pub open spec fn setup_words() -> Seq<BusWord> {
    command_words(Command::SetCommandLock(false)) + command_words(Command::SetDisplayOn(false))
        + command_words(
        Command::SetClockDivAndOscFreq {
            clock_div: crate::commands::ClockDivide::DivBy1,
            osc_freq: 1,
        },
    ) + command_words(Command::SetMuxRatio(0x3f)) + command_words(Command::SetStartLine(0))
        + command_words(Command::SetOffset(0)) + command_words(
        Command::SetRemapMode {
            address_increment: crate::commands::AddressIncrement::Horizontal,
            column_address_remap: false,
            nibble_remap: true,
            scan_direction: crate::commands::ScanDirection::Downwards,
            split_odd_even: false,
            dual_com_line: true,
        },
    ) + command_words(Command::VddFunctionSelect(crate::commands::VddMode::Internal))
        + command_words(
        Command::DisplayEnhancementA(
            crate::commands::VslMode::External,
            crate::commands::GsDisplayQuality::Enhanced,
        ),
    ) + command_words(Command::SetContrastCurrent(0x80)) + command_words(
        Command::MasterContrastCurrentControl(8),
    ) + command_words(Command::SetPhaseLength { phase_1_period: 2, phase_2_period: 15 })
        + command_words(Command::SetPrechargeVoltage(13)) + command_words(Command::SetVcomh(0))
        + command_words(Command::SetMode(crate::commands::DisplayMode::Normal)) + command_words(
        Command::SetDisplayOn(true),
    ) + command_words(Command::SetColumnAddress { start: 28, end: 91 }) + command_words(
        Command::SetRowAddress { start: 0, end: 63 },
    )
}

/// Unlock the controller and configure clocking, geometry, remap mode,
/// supply rails and contrast, switch the panel on, and open the
/// full-panel address window: the documented power-on sequence, latched
/// as exactly [`setup_words`].
#[verifier::rlimit(100)]
pub fn setup_display<T: Ssd1322>(display: &mut T) -> (r: Result<(), T::Error>)
    requires
        !old(display).in_batch(),
    ensures
        r is Ok ==> final(display).emitted() == old(display).emitted() + setup_words(),
        r is Ok ==> !final(display).in_batch(),
{
    display.command(Command::SetCommandLock(false))?;
    display.command(Command::SetDisplayOn(false))?;
    display.command(
        Command::SetClockDivAndOscFreq {
            clock_div: crate::commands::ClockDivide::DivBy1,
            osc_freq: 1,
        },
    )?;
    display.command(Command::SetMuxRatio(0x3f))?;
    display.command(Command::SetStartLine(0))?;
    display.command(Command::SetOffset(0))?;
    display.command(
        Command::SetRemapMode {
            address_increment: crate::commands::AddressIncrement::Horizontal,
            column_address_remap: false,
            nibble_remap: true,
            scan_direction: crate::commands::ScanDirection::Downwards,
            split_odd_even: false,
            dual_com_line: true,
        },
    )?;
    display.command(Command::VddFunctionSelect(crate::commands::VddMode::Internal))?;
    display.command(
        Command::DisplayEnhancementA(
            crate::commands::VslMode::External,
            crate::commands::GsDisplayQuality::Enhanced,
        ),
    )?;
    display.command(Command::SetContrastCurrent(0x80))?;
    display.command(Command::MasterContrastCurrentControl(8))?;
    display.command(Command::SetPhaseLength { phase_1_period: 2, phase_2_period: 15 })?;
    display.command(Command::SetPrechargeVoltage(13))?;
    display.command(Command::SetVcomh(0))?;
    display.command(Command::SetMode(crate::commands::DisplayMode::Normal))?;
    display.command(Command::SetDisplayOn(true))?;
    display.command(Command::SetColumnAddress { start: 28, end: 91 })?;
    display.command(Command::SetRowAddress { start: 0, end: 63 })?;
    proof {
        assert(final(display).emitted() =~= old(display).emitted() + setup_words());
    }
    Ok(())
}

} // verus!
