//! The SD/MMC protocol over a byte transport: bringing a card up, and
//! reading and writing its blocks.

use crate::blockdevice::{Block, BlockIdx};
use crate::sdcard::{crc16_of, crc7_register, CardType};
use crate::sdmmc_proto::{
    crc16, crc7, v1_capacity, Csd, CsdV1, CsdV2, ACMD41, CMD0, CMD12, CMD13, CMD17, CMD18, CMD24, CMD25, CMD55,
    CMD58, CMD59, CMD8, CMD9, DATA_RES_ACCEPTED, DATA_RES_MASK, DATA_START_BLOCK, ERROR_OK,
    R1_IDLE_STATE, R1_ILLEGAL_COMMAND, R1_READY_STATE, STOP_TRAN_TOKEN, WRITE_MULTIPLE_TOKEN,
};
use vstd::prelude::*;

verus! {

/// The possible errors the SD card driver can return.
#[derive(Debug, Copy, Clone, PartialEq, Eq, Structural)]
pub enum Error {
    /// We got an error from the transport (the SPI bus).
    Transport,
    /// We failed to enable CRC checking on the SD card.
    CantEnableCRC,
    /// We didn't get a response when reading data from the card.
    TimeoutReadBuffer,
    /// We didn't get a response when waiting for the card to not be busy.
    TimeoutWaitNotBusy,
    /// We didn't get a response when executing this command.
    TimeoutCommand(u8),
    /// We didn't get a response when executing this application-specific
    /// command.
    TimeoutACommand(u8),
    /// We got a bad response from Command 58.
    Cmd58Error,
    /// We failed to read the Card Specific Data register.
    RegisterReadError,
    /// We got a CRC mismatch (card gave us, we calculated).
    CrcError(u16, u16),
    /// Error reading from the card.
    ReadError,
    /// Error writing to the card.
    WriteError,
    /// Can't perform this operation with the card in this state.
    BadState,
    /// Couldn't find the card.
    CardNotFound,
    /// Couldn't set a GPIO pin.
    GpioError,
}

/// The possible states `SdMmcSpi` can be in.
#[derive(Debug, Copy, Clone, PartialEq, Eq, Structural)]
pub enum State {
    /// Card is not initialised.
    NoInit,
    /// Card is in an error state.
    Error,
    /// Card is initialised and idle.
    Idle,
}

/// Options for acquiring the card.
#[derive(Debug, Copy, Clone, PartialEq, Eq, Structural)]
pub struct AcquireOpts {
    /// Some cards don't support CRC mode. At least a 512MiB Transcend one.
    pub require_crc: bool,
}

impl Default for AcquireOpts {
    fn default() -> (r: AcquireOpts)
        ensures
            r.require_crc,
    {
        AcquireOpts { require_crc: true }
    }
}

/// How many times a wait polls the card before it gives up.
pub const DEFAULT_DELAY_COUNT: u32 = 32_000;

/// A count of the polls that a wait has left.
pub struct Delay {
    left: u32,
}

impl Delay {
    /// The polls left.
    pub closed spec fn left(&self) -> u32 {
        self.left
    }

    /// A full count of polls.
    pub fn new() -> (d: Delay)
        ensures
            d.left() == DEFAULT_DELAY_COUNT,
    {
        Delay { left: DEFAULT_DELAY_COUNT }
    }

    /// Uses up one poll, or fails with `err` when none is left.
    pub fn delay(&mut self, err: Error) -> (r: Result<(), Error>)
        ensures
            old(self).left() == 0 ==> r == Err::<(), Error>(err) && final(self).left() == 0,
            old(self).left() > 0 ==> r is Ok && final(self).left() == old(self).left() - 1,
    {
        if self.left == 0 {
            Err(err)
        } else {
            self.left = self.left - 1;
            Ok(())
        }
    }
}

/// Defines the functionality of a transport mechanism over which the SDMMC
/// protocol is executed.
pub trait Transport {
    /// Initialize the transport layer.
    fn init(&mut self) -> Result<(), Error>;

    /// Send a command to the card.
    fn card_command(&self, command: u8, arg: u32) -> Result<u8, Error>;

    /// Receive a byte from the SD card.
    fn receive(&self) -> Result<u8, Error>;

    /// Send a byte to the SD card.
    fn send(&self, out: u8) -> Result<(), Error>;

    /// Read an arbitrary number of bytes from the card: the data start
    /// token, the bytes, and their CRC-16, which must match. Always fills
    /// the given buffer, so make sure it's the right size.
    fn read_data(&self, buffer: &mut [u8]) -> (r: Result<(), Error>)
        ensures
            final(buffer)@.len() == old(buffer)@.len(),
    {
        let mut delay = Delay::new();
        let mut status: u8 = 0xFF;
        while status == 0xFF
            invariant
                buffer@.len() == old(buffer)@.len(),
            decreases delay.left(), status,
        {
            status = match self.receive() {
                Ok(s) => s,
                Err(e) => return Err(e),
            };
            if status == 0xFF {
                match delay.delay(Error::TimeoutReadBuffer) {
                    Ok(()) => {},
                    Err(e) => return Err(e),
                }
            }
        }
        if status != DATA_START_BLOCK {
            return Err(Error::ReadError);
        }
        let mut i: usize = 0;
        while i < buffer.len()
            invariant
                buffer@.len() == old(buffer)@.len(),
                i <= buffer@.len(),
            decreases buffer@.len() - i,
        {
            buffer[i] = match self.receive() {
                Ok(b) => b,
                Err(e) => return Err(e),
            };
            i = i + 1;
        }
        let hi = match self.receive() {
            Ok(b) => b,
            Err(e) => return Err(e),
        };
        let lo = match self.receive() {
            Ok(b) => b,
            Err(e) => return Err(e),
        };
        check_data_crc(hi, lo, buffer)
    }

    /// Write an arbitrary number of bytes to the card: the token, the bytes,
    /// and their CRC-16; the card must answer that it accepted them.
    fn write_data(&self, token: u8, buffer: &[u8]) -> (r: Result<(), Error>) {
        let calc_crc = crc16(buffer);
        match self.send(token) {
            Ok(()) => {},
            Err(e) => return Err(e),
        }
        let mut i: usize = 0;
        while i < buffer.len()
            invariant
                i <= buffer@.len(),
            decreases buffer@.len() - i,
        {
            match self.send(buffer[i]) {
                Ok(()) => {},
                Err(e) => return Err(e),
            }
            i = i + 1;
        }
        match self.send((calc_crc / 256) as u8) {
            Ok(()) => {},
            Err(e) => return Err(e),
        }
        match self.send((calc_crc % 256) as u8) {
            Ok(()) => {},
            Err(e) => return Err(e),
        }
        let status = match self.receive() {
            Ok(s) => s,
            Err(e) => return Err(e),
        };
        if !data_accepted(status) {
            Err(Error::WriteError)
        } else {
            Ok(())
        }
    }

    /// Perform an application-specific command: CMD55, then the command.
    fn card_acmd(&self, command: u8, arg: u32) -> Result<u8, Error> {
        match self.card_command(CMD55, 0) {
            Ok(_) => {},
            Err(e) => return Err(e),
        }
        self.card_command(command, arg)
    }
}

/// Checks the CRC-16 that came after a block of data, high byte first,
/// against the CRC of the data.
pub fn check_data_crc(hi: u8, lo: u8, data: &[u8]) -> (r: Result<(), Error>)
    ensures
        r == if hi * 256 + lo == crc16_of(data@) {
            Ok::<(), Error>(())
        } else {
            Err::<(), Error>(Error::CrcError((hi * 256 + lo) as u16, crc16_of(data@)))
        },
{
    let crc: u16 = hi as u16 * 256 + lo as u16;
    let calc_crc = crc16(data);
    if crc != calc_crc {
        return Err(Error::CrcError(crc, calc_crc));
    }
    Ok(())
}

/// Whether a data response token says that the card accepted the data.
pub fn data_accepted(status: u8) -> (r: bool)
    ensures
        r == (status % 32 == 5),
{
    assert(status & DATA_RES_MASK == status % 32) by (bit_vector);
    (status & DATA_RES_MASK) == DATA_RES_ACCEPTED
}

/// The six bytes that carry `command` with argument `arg` over SPI: the
/// start and transmission bits with the command index, the argument
/// big-endian, and the CRC7 with the end bit.
pub fn command_frame(command: u8, arg: u32) -> (r: [u8; 6])
    requires
        command < 64,
    ensures
        r@[0] == command + 64,
        r@[1] == arg / 0x100_0000,
        r@[2] == (arg / 0x1_0000) % 256,
        r@[3] == (arg / 256) % 256,
        r@[4] == arg % 256,
        r@[5] == ((crc7_register(r@.take(5)) * 2) % 256) as u8 + 1,
{
    let head: [u8; 5] = [
        command + 64,
        (arg / 0x100_0000) as u8,
        ((arg / 0x1_0000) % 256) as u8,
        ((arg / 256) % 256) as u8,
        (arg % 256) as u8,
    ];
    let crc = crc7(&head);
    let buf: [u8; 6] = [head[0], head[1], head[2], head[3], head[4], crc];
    assert(buf@.take(5) =~= head@);
    buf
}

/// Wait until the card is no longer busy: it answers 0xFF.
pub fn wait_not_busy<T: Transport>(transport: &T) -> (r: Result<(), Error>) {
    let mut delay = Delay::new();
    loop
        decreases delay.left(),
    {
        let s = match transport.receive() {
            Ok(s) => s,
            Err(e) => return Err(e),
        };
        if s == 0xFF {
            return Ok(());
        }
        match delay.delay(Error::TimeoutWaitNotBusy) {
            Ok(()) => {},
            Err(e) => return Err(e),
        }
    }
}

/// Send a command over SPI and return the card's R1 response: wait for the
/// card, send the frame (and skip a byte after CMD12), then take the first
/// byte with its top bit clear, within 512 bytes.
pub fn spi_card_command<T: Transport>(transport: &T, command: u8, arg: u32) -> (r: Result<u8, Error>)
    requires
        command < 64,
    ensures
        r matches Ok(b) ==> b < 128,
{
    match wait_not_busy(transport) {
        Ok(()) => {},
        Err(e) => return Err(e),
    }
    let buf = command_frame(command, arg);
    let mut i: usize = 0;
    while i < 6
        invariant
            i <= 6,
        decreases 6 - i,
    {
        match transport.send(buf[i]) {
            Ok(()) => {},
            Err(e) => return Err(e),
        }
        i = i + 1;
    }
    if command == CMD12 {
        match transport.receive() {
            Ok(_) => {},
            Err(e) => return Err(e),
        }
    }
    let mut tries: u32 = 0;
    while tries < 512
        invariant
            tries <= 512,
        decreases 512 - tries,
    {
        let result = match transport.receive() {
            Ok(b) => b,
            Err(e) => return Err(e),
        };
        assert((result & 0x80 == 0) == (result < 128)) by (bit_vector);
        if (result & 0x80) == ERROR_OK {
            return Ok(result);
        }
        tries = tries + 1;
    }
    Err(Error::TimeoutCommand(command))
}

/// The card type that the answer to CMD8 shows: a card that finds CMD8
/// illegal is a version 1 card, one that echoes the check pattern 0xAA is a
/// version 2 card, and any other answer shows nothing yet.
pub fn card_type_from_if_cond(r1: u8, echo: u8) -> (r: Option<CardType>)
    ensures
        r1 == (R1_ILLEGAL_COMMAND | R1_IDLE_STATE) ==> r == Some(CardType::SD1),
        r1 != (R1_ILLEGAL_COMMAND | R1_IDLE_STATE) && echo == 0xAA ==> r == Some(CardType::SD2),
        r1 != (R1_ILLEGAL_COMMAND | R1_IDLE_STATE) && echo != 0xAA ==> r is None,
{
    if r1 == (R1_ILLEGAL_COMMAND | R1_IDLE_STATE) {
        Some(CardType::SD1)
    } else if echo == 0xAA {
        Some(CardType::SD2)
    } else {
        None
    }
}

/// Whether the first byte of a version 2 card's OCR shows a high capacity
/// card: its power-up and capacity bits are both set.
pub fn ocr_shows_high_capacity(ocr0: u8) -> (r: bool)
    ensures
        r == (ocr0 >= 0xC0),
{
    proof {
        lemma_ocr_high_capacity_bits(ocr0);
    }
    (ocr0 & 0xC0) == 0xC0
}

/// A byte has both its top bits (0x80 and 0x40) set exactly when it is at
/// least 0xC0.
proof fn lemma_ocr_high_capacity_bits(ocr0: u8)
    ensures
        ((ocr0 & 0xC0) == 0xC0) == (ocr0 >= 0xC0),
{
    assert(((ocr0 & 0xC0) == 0xC0) == (ocr0 >= 0xC0)) by (bit_vector);
}

/// Where the bringing up of a card stands.
#[derive(Debug, Copy, Clone, PartialEq, Eq, Structural)]
pub enum AcquireState {
    /// Putting the card into SPI mode with CMD0: `attempts` answers that
    /// time out are still allowed, and `delay` polls are left.
    GoIdle { attempts: u32, delay: u32 },
    /// Enabling CRC checking with CMD59.
    EnableCrc,
    /// Asking the card for its version with CMD8; `delay` polls are left.
    IfCond { delay: u32 },
    /// Reading the four bytes that follow the answer `r1` to CMD8: `left`
    /// of them are still to come.
    IfCondEcho { delay: u32, r1: u8, left: u8 },
    /// Starting the card's initialization with ACMD41 until it is ready;
    /// `delay` polls are left.
    Init { card_type: CardType, delay: u32 },
    /// Asking a version 2 card for its OCR with CMD58.
    ReadOcr,
    /// Reading the four OCR bytes: `left` of them are still to come.
    OcrBytes { card_type: CardType, left: u8 },
    /// The card is up, and of this type.
    Done(CardType),
    /// Bringing the card up failed.
    Failed(Error),
}

/// What bringing up the card does next.
#[derive(Debug, Copy, Clone)]
pub enum AcquireAction {
    /// Send this command with this argument, and take its R1 answer.
    Command(u8, u32),
    /// Send this application-specific command with this argument, and take
    /// its R1 answer.
    AppCommand(u8, u32),
    /// Receive one byte.
    Receive,
    /// Stop, with this result.
    Finish(Result<CardType, Error>),
}

/// The ACMD41 argument for a card of type `t`: the high capacity support
/// bit for version 2 cards.
pub open spec fn acmd41_arg(t: CardType) -> u32 {
    if t == CardType::SD1 {
        0
    } else {
        0x4000_0000
    }
}

/// What is done in state `s`.
pub open spec fn acquire_action_of(s: AcquireState) -> AcquireAction {
    match s {
        AcquireState::GoIdle { attempts, .. } => if attempts == 0 {
            AcquireAction::Finish(Err(Error::CardNotFound))
        } else {
            AcquireAction::Command(CMD0, 0)
        },
        AcquireState::EnableCrc => AcquireAction::Command(CMD59, 1),
        AcquireState::IfCond { .. } => AcquireAction::Command(CMD8, 0x1AA),
        AcquireState::IfCondEcho { .. } => AcquireAction::Receive,
        AcquireState::Init { card_type, .. } => AcquireAction::AppCommand(ACMD41, acmd41_arg(card_type)),
        AcquireState::ReadOcr => AcquireAction::Command(CMD58, 0),
        AcquireState::OcrBytes { .. } => AcquireAction::Receive,
        AcquireState::Done(t) => AcquireAction::Finish(Ok(t)),
        AcquireState::Failed(e) => AcquireAction::Finish(Err(e)),
    }
}

/// One poll used up in state `again`, or the failure `err` once none is
/// left.
pub open spec fn after_poll(delay: u32, err: Error, again: AcquireState) -> AcquireState {
    if delay == 0 {
        AcquireState::Failed(err)
    } else {
        again
    }
}

/// The state that follows state `s` once its action was answered with
/// `answer`:
/// - CMD0: the idle answer moves on to CMD59; an answer that times out
///   uses up one of the attempts; any other error stops; every answer but
///   the idle one uses up a poll.
/// - CMD59: a card that does not answer idle stops with `CantEnableCRC`
///   when CRC checking is required.
/// - CMD8: an illegal-command answer shows a version 1 card; otherwise the
///   last of the four bytes that follow must echo 0xAA for a version 2
///   card, else CMD8 is sent again after a poll.
/// - ACMD41: repeated, a poll each time, until the card answers ready; then
///   a version 2 card is asked for its OCR (CMD58, which must answer 0),
///   whose first byte tells a high capacity card.
pub open spec fn acquire_next(s: AcquireState, answer: Result<u8, Error>, require_crc: bool) -> AcquireState {
    match answer {
        Err(e) => match s {
            AcquireState::GoIdle { attempts, delay } => if e == Error::TimeoutCommand(0) {
                after_poll(
                    delay,
                    Error::TimeoutCommand(CMD0),
                    AcquireState::GoIdle { attempts: (attempts - 1) as u32, delay: (delay - 1) as u32 },
                )
            } else {
                AcquireState::Failed(e)
            },
            _ => AcquireState::Failed(e),
        },
        Ok(b) => match s {
            AcquireState::GoIdle { attempts, delay } => if b == R1_IDLE_STATE {
                AcquireState::EnableCrc
            } else {
                after_poll(
                    delay,
                    Error::TimeoutCommand(CMD0),
                    AcquireState::GoIdle { attempts, delay: (delay - 1) as u32 },
                )
            },
            AcquireState::EnableCrc => if b != R1_IDLE_STATE && require_crc {
                AcquireState::Failed(Error::CantEnableCRC)
            } else {
                AcquireState::IfCond { delay: DEFAULT_DELAY_COUNT }
            },
            AcquireState::IfCond { delay } => if b == (R1_ILLEGAL_COMMAND | R1_IDLE_STATE) {
                AcquireState::Init { card_type: CardType::SD1, delay: DEFAULT_DELAY_COUNT }
            } else {
                AcquireState::IfCondEcho { delay, r1: b, left: 4 }
            },
            AcquireState::IfCondEcho { delay, r1, left } => if left > 1 {
                AcquireState::IfCondEcho { delay, r1, left: (left - 1) as u8 }
            } else if b == 0xAA {
                AcquireState::Init { card_type: CardType::SD2, delay: DEFAULT_DELAY_COUNT }
            } else {
                after_poll(
                    delay,
                    Error::TimeoutCommand(CMD8),
                    AcquireState::IfCond { delay: (delay - 1) as u32 },
                )
            },
            AcquireState::Init { card_type, delay } => if b == R1_READY_STATE {
                if card_type == CardType::SD2 {
                    AcquireState::ReadOcr
                } else {
                    AcquireState::Done(card_type)
                }
            } else {
                after_poll(
                    delay,
                    Error::TimeoutACommand(ACMD41),
                    AcquireState::Init { card_type, delay: (delay - 1) as u32 },
                )
            },
            AcquireState::ReadOcr => if b != 0 {
                AcquireState::Failed(Error::Cmd58Error)
            } else {
                AcquireState::OcrBytes { card_type: CardType::SD2, left: 4 }
            },
            AcquireState::OcrBytes { card_type, left } => {
                let t = if left == 4 && b >= 0xC0 {
                    CardType::SdhcSdxc
                } else {
                    card_type
                };
                if left > 1 {
                    AcquireState::OcrBytes { card_type: t, left: (left - 1) as u8 }
                } else {
                    AcquireState::Done(t)
                }
            },
            _ => s,
        },
    }
}

/// The state that bringing up a card reaches from `s` once its actions were
/// answered with `answers`, in order.
pub open spec fn acquire_run(s: AcquireState, answers: Seq<Result<u8, Error>>, require_crc: bool) -> AcquireState
    decreases answers.len(),
{
    if answers.len() == 0 {
        s
    } else {
        acquire_next(acquire_run(s, answers.drop_last(), require_crc), answers.last(), require_crc)
    }
}

/// The state that bringing up a card starts in: CMD0, with 32 attempts
/// and a full count of polls.
pub open spec fn acquire_start() -> AcquireState {
    AcquireState::GoIdle { attempts: 32, delay: DEFAULT_DELAY_COUNT }
}

/// Answering one more action carries the run one step further.
proof fn lemma_acquire_run_push(s: AcquireState, answers: Seq<Result<u8, Error>>, a: Result<u8, Error>, require_crc: bool)
    ensures
        acquire_run(s, answers.push(a), require_crc) == acquire_next(acquire_run(s, answers, require_crc), a, require_crc),
{
    assert(answers.push(a).drop_last() =~= answers);
}

/// The answers of a version 2 card that comes up at once, in order: idle to
/// CMD0 and CMD59, `r1` to CMD8 (not the illegal-command answer) followed by
/// the bytes `e0`, `e1`, `e2` and the echoed check pattern 0xAA, ready to
/// ACMD41, 0 to CMD58, and then the four bytes `ocr` of its OCR.
pub open spec fn v2_card_answers(r1: u8, e0: u8, e1: u8, e2: u8, ocr: (u8, u8, u8, u8)) -> Seq<Result<u8, Error>> {
    Seq::<Result<u8, Error>>::empty().push(Ok(R1_IDLE_STATE)).push(Ok(R1_IDLE_STATE)).push(Ok(r1)).push(
        Ok(e0),
    ).push(Ok(e1)).push(Ok(e2)).push(Ok(0xAAu8)).push(Ok(R1_READY_STATE)).push(Ok(0u8)).push(Ok(ocr.0)).push(
        Ok(ocr.1),
    ).push(Ok(ocr.2)).push(Ok(ocr.3))
}

/// A version 2 card brought up with these answers is taken for a high
/// capacity card (addressed by block number) exactly when the first byte of
/// its OCR has both its power-up bit 0x80 and its capacity bit 0x40 set;
/// otherwise it is a standard capacity version 2 card (addressed by byte
/// offset), whatever the other OCR bytes hold.
pub proof fn lemma_acquire_v2_card_type(r1: u8, e0: u8, e1: u8, e2: u8, ocr: (u8, u8, u8, u8), require_crc: bool)
    requires
        r1 != (R1_ILLEGAL_COMMAND | R1_IDLE_STATE),
    ensures
        acquire_run(acquire_start(), v2_card_answers(r1, e0, e1, e2, ocr), require_crc) == AcquireState::Done(
            if (ocr.0 & 0xC0) == 0xC0 {
                CardType::SdhcSdxc
            } else {
                CardType::SD2
            },
        ),
{
    let rc = require_crc;
    let s = acquire_start();
    let p0 = Seq::<Result<u8, Error>>::empty();
    let p1 = p0.push(Ok(R1_IDLE_STATE));
    let p2 = p1.push(Ok(R1_IDLE_STATE));
    let p3 = p2.push(Ok(r1));
    let p4 = p3.push(Ok(e0));
    let p5 = p4.push(Ok(e1));
    let p6 = p5.push(Ok(e2));
    let p7 = p6.push(Ok(0xAAu8));
    let p8 = p7.push(Ok(R1_READY_STATE));
    let p9 = p8.push(Ok(0u8));
    let p10 = p9.push(Ok(ocr.0));
    let p11 = p10.push(Ok(ocr.1));
    let p12 = p11.push(Ok(ocr.2));
    let p13 = p12.push(Ok(ocr.3));
    assert(acquire_run(s, p0, rc) == s);
    lemma_acquire_run_push(s, p0, Ok(R1_IDLE_STATE), rc);
    assert(acquire_run(s, p1, rc) == AcquireState::EnableCrc);
    lemma_acquire_run_push(s, p1, Ok(R1_IDLE_STATE), rc);
    assert(acquire_run(s, p2, rc) == AcquireState::IfCond { delay: DEFAULT_DELAY_COUNT });
    lemma_acquire_run_push(s, p2, Ok(r1), rc);
    assert(acquire_run(s, p3, rc) == AcquireState::IfCondEcho { delay: DEFAULT_DELAY_COUNT, r1, left: 4 });
    lemma_acquire_run_push(s, p3, Ok(e0), rc);
    assert(acquire_run(s, p4, rc) == AcquireState::IfCondEcho { delay: DEFAULT_DELAY_COUNT, r1, left: 3 });
    lemma_acquire_run_push(s, p4, Ok(e1), rc);
    assert(acquire_run(s, p5, rc) == AcquireState::IfCondEcho { delay: DEFAULT_DELAY_COUNT, r1, left: 2 });
    lemma_acquire_run_push(s, p5, Ok(e2), rc);
    assert(acquire_run(s, p6, rc) == AcquireState::IfCondEcho { delay: DEFAULT_DELAY_COUNT, r1, left: 1 });
    lemma_acquire_run_push(s, p6, Ok(0xAAu8), rc);
    assert(acquire_run(s, p7, rc) == AcquireState::Init { card_type: CardType::SD2, delay: DEFAULT_DELAY_COUNT });
    lemma_acquire_run_push(s, p7, Ok(R1_READY_STATE), rc);
    assert(acquire_run(s, p8, rc) == AcquireState::ReadOcr);
    lemma_acquire_run_push(s, p8, Ok(0u8), rc);
    assert(acquire_run(s, p9, rc) == AcquireState::OcrBytes { card_type: CardType::SD2, left: 4 });
    lemma_ocr_high_capacity_bits(ocr.0);
    let t = if (ocr.0 & 0xC0) == 0xC0 {
        CardType::SdhcSdxc
    } else {
        CardType::SD2
    };
    lemma_acquire_run_push(s, p9, Ok(ocr.0), rc);
    assert(acquire_run(s, p10, rc) == AcquireState::OcrBytes { card_type: t, left: 3 });
    lemma_acquire_run_push(s, p10, Ok(ocr.1), rc);
    assert(acquire_run(s, p11, rc) == AcquireState::OcrBytes { card_type: t, left: 2 });
    lemma_acquire_run_push(s, p11, Ok(ocr.2), rc);
    assert(acquire_run(s, p12, rc) == AcquireState::OcrBytes { card_type: t, left: 1 });
    lemma_acquire_run_push(s, p12, Ok(ocr.3), rc);
    assert(acquire_run(s, p13, rc) == AcquireState::Done(t));
}

/// The counters of a state are in range: four bytes at most are awaited,
/// and the bytes after an answer to CMD8 are awaited only when it was not
/// the illegal-command one.
pub open spec fn acquire_state_ok(s: AcquireState) -> bool {
    match s {
        AcquireState::IfCondEcho { r1, left, .. } => 1 <= left <= 4 && r1 != (R1_ILLEGAL_COMMAND
            | R1_IDLE_STATE),
        AcquireState::OcrBytes { left, .. } => 1 <= left <= 4,
        _ => true,
    }
}

/// How far a state is from the end: every step that does not finish
/// lowers it.
pub open spec fn acquire_measure(s: AcquireState) -> nat {
    let big: int = 0x100_0000_0000;
    (match s {
        AcquireState::GoIdle { delay, .. } => 8 * big + delay,
        AcquireState::EnableCrc => 7 * big,
        AcquireState::IfCond { delay } => 6 * big + 5 * delay + 5,
        AcquireState::IfCondEcho { delay, left, .. } => 6 * big + 5 * delay + left,
        AcquireState::Init { delay, .. } => 4 * big + delay,
        AcquireState::ReadOcr => 3 * big,
        AcquireState::OcrBytes { left, .. } => 2 * big + left,
        AcquireState::Done(_) => 0,
        AcquireState::Failed(_) => 0,
    }) as nat
}

impl AcquireState {
    /// The state that bringing up a card starts in.
    pub fn start() -> (s: AcquireState)
        ensures
            s == (AcquireState::GoIdle { attempts: 32, delay: DEFAULT_DELAY_COUNT }),
    {
        AcquireState::GoIdle { attempts: 32, delay: DEFAULT_DELAY_COUNT }
    }
}

/// What is done in state `s`: the command and argument sent to the card,
/// a byte received, or the end.
pub fn acquire_action(s: &AcquireState) -> (r: AcquireAction)
    ensures
        r == acquire_action_of(*s),
{
    match s {
        AcquireState::GoIdle { attempts, .. } => if *attempts == 0 {
            AcquireAction::Finish(Err(Error::CardNotFound))
        } else {
            AcquireAction::Command(CMD0, 0)
        },
        AcquireState::EnableCrc => AcquireAction::Command(CMD59, 1),
        AcquireState::IfCond { .. } => AcquireAction::Command(CMD8, 0x1AA),
        AcquireState::IfCondEcho { .. } => AcquireAction::Receive,
        AcquireState::Init { card_type, .. } => {
            let arg: u32 = match card_type {
                CardType::SD1 => 0,
                _ => 0x4000_0000,
            };
            AcquireAction::AppCommand(ACMD41, arg)
        },
        AcquireState::ReadOcr => AcquireAction::Command(CMD58, 0),
        AcquireState::OcrBytes { .. } => AcquireAction::Receive,
        AcquireState::Done(t) => AcquireAction::Finish(Ok(*t)),
        AcquireState::Failed(e) => AcquireAction::Finish(Err(*e)),
    }
}

/// Uses up one poll: the state `again` with one poll fewer, or the failure
/// `err` once none is left.
fn poll_or_fail(delay: u32, err: Error, again: AcquireState) -> (r: AcquireState)
    ensures
        r == after_poll(delay, err, again),
{
    if delay == 0 {
        AcquireState::Failed(err)
    } else {
        again
    }
}

/// The state that follows state `s` once its action was answered with
/// `answer`.
pub fn acquire_step(s: AcquireState, answer: Result<u8, Error>, options: AcquireOpts) -> (r: AcquireState)
    requires
        acquire_state_ok(s),
        !(acquire_action_of(s) is Finish),
    ensures
        r == acquire_next(s, answer, options.require_crc),
        acquire_state_ok(r),
        acquire_measure(r) < acquire_measure(s),
{
    match answer {
        Err(e) => match s {
            AcquireState::GoIdle { attempts, delay } => {
                if e == Error::TimeoutCommand(0) {
                    assert(attempts > 0);
                    poll_or_fail(
                        delay,
                        Error::TimeoutCommand(CMD0),
                        AcquireState::GoIdle { attempts: attempts - 1, delay: delay.wrapping_sub(1) },
                    )
                } else {
                    AcquireState::Failed(e)
                }
            },
            _ => AcquireState::Failed(e),
        },
        Ok(b) => match s {
            AcquireState::GoIdle { attempts, delay } => {
                if b == R1_IDLE_STATE {
                    AcquireState::EnableCrc
                } else {
                    poll_or_fail(
                        delay,
                        Error::TimeoutCommand(CMD0),
                        AcquireState::GoIdle { attempts, delay: delay.wrapping_sub(1) },
                    )
                }
            },
            AcquireState::EnableCrc => {
                if b != R1_IDLE_STATE && options.require_crc {
                    AcquireState::Failed(Error::CantEnableCRC)
                } else {
                    AcquireState::IfCond { delay: DEFAULT_DELAY_COUNT }
                }
            },
            AcquireState::IfCond { delay } => {
                match card_type_from_if_cond(b, 0) {
                    Some(CardType::SD1) => AcquireState::Init {
                        card_type: CardType::SD1,
                        delay: DEFAULT_DELAY_COUNT,
                    },
                    _ => AcquireState::IfCondEcho { delay, r1: b, left: 4 },
                }
            },
            AcquireState::IfCondEcho { delay, r1, left } => {
                if left > 1 {
                    AcquireState::IfCondEcho { delay, r1, left: left - 1 }
                } else {
                    match card_type_from_if_cond(r1, b) {
                        Some(t) => AcquireState::Init { card_type: t, delay: DEFAULT_DELAY_COUNT },
                        None => poll_or_fail(
                            delay,
                            Error::TimeoutCommand(CMD8),
                            AcquireState::IfCond { delay: delay.wrapping_sub(1) },
                        ),
                    }
                }
            },
            AcquireState::Init { card_type, delay } => {
                if b == R1_READY_STATE {
                    if card_type == CardType::SD2 {
                        AcquireState::ReadOcr
                    } else {
                        AcquireState::Done(card_type)
                    }
                } else {
                    poll_or_fail(
                        delay,
                        Error::TimeoutACommand(ACMD41),
                        AcquireState::Init { card_type, delay: delay.wrapping_sub(1) },
                    )
                }
            },
            AcquireState::ReadOcr => {
                if b != 0 {
                    AcquireState::Failed(Error::Cmd58Error)
                } else {
                    AcquireState::OcrBytes { card_type: CardType::SD2, left: 4 }
                }
            },
            AcquireState::OcrBytes { card_type, left } => {
                let t = if left == 4 && ocr_shows_high_capacity(b) {
                    CardType::SdhcSdxc
                } else {
                    card_type
                };
                if left > 1 {
                    AcquireState::OcrBytes { card_type: t, left: left - 1 }
                } else {
                    AcquireState::Done(t)
                }
            },
            _ => s,
        },
    }
}

/// Bring the card up: put it into SPI mode (CMD0), enable CRC checking
/// (CMD59), find its version (CMD8), start its initialization (ACMD41) until
/// it is ready, and for version 2 cards read whether they are high capacity
/// (CMD58). Each answer of the card is handed to `acquire_step`, and what
/// is sent next is `acquire_action` of the state it gives.
pub fn acquire_with_opts<T: Transport>(transport: &mut T, options: AcquireOpts) -> (r: Result<
    CardType,
    Error,
>)
    ensures
        r is Ok ==> exists|answers: Seq<Result<u8, Error>>|
            #![trigger acquire_run(acquire_start(), answers, options.require_crc)]
            acquire_action_of(acquire_run(acquire_start(), answers, options.require_crc))
                == AcquireAction::Finish(r),
{
    match transport.init() {
        Ok(()) => {},
        Err(e) => return Err(e),
    }
    let mut state = AcquireState::start();
    let ghost mut answers: Seq<Result<u8, Error>> = Seq::empty();
    loop
        invariant
            acquire_state_ok(state),
            state == acquire_run(acquire_start(), answers, options.require_crc),
        decreases acquire_measure(state),
    {
        let answer = match acquire_action(&state) {
            AcquireAction::Command(command, arg) => transport.card_command(command, arg),
            AcquireAction::AppCommand(command, arg) => transport.card_acmd(command, arg),
            AcquireAction::Receive => transport.receive(),
            AcquireAction::Finish(r) => return r,
        };
        let ghost before = answers;
        proof {
            answers = answers.push(answer);
            assert(answers.drop_last() =~= before);
        }
        state = acquire_step(state, answer, options);
    }
}

/// The address that block `idx` has in the commands of a card: its byte
/// offset on standard capacity cards, its number on high capacity ones.
pub fn block_address(card_type: CardType, idx: BlockIdx) -> (r: u32)
    requires
        card_type != CardType::SdhcSdxc ==> idx.0 * 512 <= u32::MAX,
    ensures
        r == if card_type == CardType::SdhcSdxc {
            idx.0 as int
        } else {
            idx.0 * 512
        },
{
    match card_type {
        CardType::SdhcSdxc => idx.0,
        _ => idx.0 * 512,
    }
}

/// Read blocks from the card: CMD17 for one block, CMD18 then CMD12 for
/// several.
pub fn read_blocks<T: Transport>(
    transport: &T,
    card_type: CardType,
    blocks: &mut [Block],
    start_block_idx: BlockIdx,
) -> (r: Result<(), Error>)
    requires
        card_type != CardType::SdhcSdxc ==> start_block_idx.0 * 512 <= u32::MAX,
    ensures
        final(blocks)@.len() == old(blocks)@.len(),
{
    let start_idx = block_address(card_type, start_block_idx);
    if blocks.len() == 1 {
        match transport.card_command(CMD17, start_idx) {
            Ok(_) => {},
            Err(e) => return Err(e),
        }
        let mut contents = blocks[0].contents;
        let r = transport.read_data(&mut contents);
        blocks[0] = Block { contents };
        r
    } else {
        match transport.card_command(CMD18, start_idx) {
            Ok(_) => {},
            Err(e) => return Err(e),
        }
        let mut i: usize = 0;
        while i < blocks.len()
            invariant
                blocks@.len() == old(blocks)@.len(),
                i <= blocks@.len(),
            decreases blocks@.len() - i,
        {
            let mut contents = blocks[i].contents;
            let r = transport.read_data(&mut contents);
            blocks[i] = Block { contents };
            match r {
                Ok(()) => {},
                Err(e) => return Err(e),
            }
            i = i + 1;
        }
        match transport.card_command(CMD12, 0) {
            Ok(_) => {},
            Err(e) => return Err(e),
        }
        Ok(())
    }
}

/// Write blocks to the card: CMD24 for one block, then a status check
/// (CMD13) that must come back clean; CMD25 and the stop token for several.
pub fn write_blocks<T: Transport>(
    transport: &T,
    card_type: CardType,
    blocks: &[Block],
    start_block_idx: BlockIdx,
) -> (r: Result<(), Error>)
    requires
        card_type != CardType::SdhcSdxc ==> start_block_idx.0 * 512 <= u32::MAX,
{
    let start_idx = block_address(card_type, start_block_idx);
    if blocks.len() == 1 {
        match transport.card_command(CMD24, start_idx) {
            Ok(_) => {},
            Err(e) => return Err(e),
        }
        let contents: &[u8] = &blocks[0].contents;
        match transport.write_data(DATA_START_BLOCK, contents) {
            Ok(()) => {},
            Err(e) => return Err(e),
        }
        match wait_not_busy(transport) {
            Ok(()) => {},
            Err(e) => return Err(e),
        }
        match transport.card_command(CMD13, 0) {
            Ok(s) => {
                if s != 0x00 {
                    return Err(Error::WriteError);
                }
            },
            Err(e) => return Err(e),
        }
        match transport.receive() {
            Ok(s) => {
                if s != 0x00 {
                    return Err(Error::WriteError);
                }
            },
            Err(e) => return Err(e),
        }
    } else {
        match transport.card_command(CMD25, start_idx) {
            Ok(_) => {},
            Err(e) => return Err(e),
        }
        let mut i: usize = 0;
        while i < blocks.len()
            invariant
                i <= blocks@.len(),
            decreases blocks@.len() - i,
        {
            match wait_not_busy(transport) {
                Ok(()) => {},
                Err(e) => return Err(e),
            }
            let contents: &[u8] = &blocks[i].contents;
            match transport.write_data(WRITE_MULTIPLE_TOKEN, contents) {
                Ok(()) => {},
                Err(e) => return Err(e),
            }
            i = i + 1;
        }
        match wait_not_busy(transport) {
            Ok(()) => {},
            Err(e) => return Err(e),
        }
        match transport.send(STOP_TRAN_TOKEN) {
            Ok(()) => {},
            Err(e) => return Err(e),
        }
    }
    Ok(())
}

/// Read the Card Specific Data register (CMD9): version 1 for a version 1
/// card, version 2 otherwise.
pub fn read_csd<T: Transport>(transport: &T, card_type: CardType) -> (r: Result<Csd, Error>)
    ensures
        r matches Ok(Csd::V1(_)) ==> card_type == CardType::SD1,
        r matches Ok(Csd::V2(_)) ==> card_type != CardType::SD1,
{
    match transport.card_command(CMD9, 0) {
        Ok(s) => {
            if s != 0 {
                return Err(Error::RegisterReadError);
            }
        },
        Err(e) => return Err(e),
    }
    let mut data = [0u8; 16];
    match transport.read_data(&mut data) {
        Ok(()) => {},
        Err(e) => return Err(e),
    }
    match card_type {
        CardType::SD1 => Ok(Csd::V1(CsdV1 { data })),
        _ => Ok(Csd::V2(CsdV2 { data })),
    }
}

/// The capacity in bytes that a Card Specific Data register gives.
pub open spec fn csd_capacity(csd: Csd) -> int {
    match csd {
        Csd::V1(c) => v1_capacity(
            c.device_size() as int,
            c.device_size_multiplier() as int,
            c.read_block_length() as int,
        ),
        Csd::V2(c) => (c.device_size() + 1) * 512 * 1024,
    }
}

/// Whether a Card Specific Data register says that the card can erase
/// single blocks.
pub open spec fn csd_erases_single_blocks(csd: Csd) -> bool {
    match csd {
        Csd::V1(c) => c.erase_single_block_enabled(),
        Csd::V2(c) => c.erase_single_block_enabled(),
    }
}

/// Whether `csd` is a register of the version that a card of type
/// `card_type` has.
pub open spec fn csd_fits_card(csd: Csd, card_type: CardType) -> bool {
    (csd is V1) == (card_type == CardType::SD1)
}

/// The size of the card in bytes, from its Card Specific Data: the capacity
/// that the register read from the card gives.
pub fn card_size_bytes<T: Transport>(transport: &T, card_type: CardType) -> (r: Result<u64, Error>)
    ensures
        r matches Ok(n) ==> exists|c: Csd| #[trigger] csd_capacity(c) == n && csd_fits_card(c, card_type),
{
    match read_csd(transport, card_type) {
        Ok(Csd::V1(contents)) => {
            let n = contents.card_capacity_bytes();
            assert(csd_capacity(Csd::V1(contents)) == n);
            Ok(n)
        },
        Ok(Csd::V2(contents)) => {
            let n = contents.card_capacity_bytes();
            assert(csd_capacity(Csd::V2(contents)) == n);
            Ok(n)
        },
        Err(e) => Err(e),
    }
}

/// Whether the card can erase single blocks, from its Card Specific Data:
/// what the register read from the card says.
pub fn erase_single_block_enabled<T: Transport>(transport: &T, card_type: CardType) -> (r: Result<
    bool,
    Error,
>)
    ensures
        r matches Ok(b) ==> exists|c: Csd| #[trigger] csd_erases_single_blocks(c) == b && csd_fits_card(c, card_type),
{
    match read_csd(transport, card_type) {
        Ok(Csd::V1(contents)) => {
            let b = contents.erase_single_block_enabled();
            assert(csd_erases_single_blocks(Csd::V1(contents)) == b);
            Ok(b)
        },
        Ok(Csd::V2(contents)) => {
            let b = contents.erase_single_block_enabled();
            assert(csd_erases_single_blocks(Csd::V2(contents)) == b);
            Ok(b)
        },
        Err(e) => Err(e),
    }
}

} // verus!
