//! A simulated SD card.
//!
//! The card answers the commands that bring a version 2.00 (or later)
//! high-capacity card from power-up to the transfer state, which shows what
//! a driver has to send and what it gets back. It holds no data blocks.

use crate::bytes::{be_value, u128_from_be_bytes};
use crate::sdcard::argument::{bit_of, with_bit, Acmd41, Acmd6, BusWidth, Cmd13, Cmd7, Cmd8, Cmd9, VoltageSuppliedSelect};
use crate::sdcard::response;
use crate::sdcard::response::{state_code, R1, R3, R6, R7};
use crate::sdcard::{AcmdId, CmdId};
use vstd::prelude::*;

verus! {

/// CID read from a real SD card, returned by the simulated card.
pub const TEST_CID: [u8; 16] = [
    0x12,
    0x34,
    0x56,
    0x41,
    0x53,
    0x54,
    0x43,
    0x0,
    0x20,
    0x0,
    0x0,
    0xc,
    0xef,
    0x1,
    0x65,
    0xef,
];

/// CSD read from a real SD card, returned by the simulated card.
pub const TEST_CSD: [u8; 16] = [
    0x40,
    0x0E,
    0x00,
    0x32,
    0x5B,
    0x59,
    0x00,
    0x00,
    0x1D,
    0x69,
    0x7F,
    0x80,
    0x0A,
    0x40,
    0x00,
    0x8B,
];

/// The IDLE mode has some private substates used for operating condition
/// negotiation.
#[derive(Debug, Copy, Clone, PartialEq, Eq, Structural)]
pub enum IdleSubState {
    /// Idle substate.
    Idle,
    /// Received CMD8, ready to accept ACMD41.
    ReceivedIfCond,
    /// Received ACMD41 with OCR bits, initializing itself now; the
    /// initialization takes several polling calls.
    InitializingSelf {
        /// Step counter. When a threshold is reached, initialization is
        /// complete.
        step: u8,
    },
}

/// States of the simulated card.
#[derive(Debug, Copy, Clone, PartialEq, Eq, Structural)]
pub enum State {
    /// Idle state.
    Idle(IdleSubState),
    /// Ready state.
    Ready,
    /// Identification state.
    Ident,
    /// Standby state.
    Stby,
    /// Transfer state.
    Tran,
    /// Data state.
    Data,
    /// Receive state.
    Rcv,
    /// Programming state.
    Prg,
    /// Disconnected state.
    Dis,
}

/// The state that a card in the simulated state reports.
pub open spec fn reported_state(s: State) -> response::State {
    match s {
        State::Idle(_) => response::State::Idle,
        State::Ready => response::State::Ready,
        State::Ident => response::State::Ident,
        State::Stby => response::State::Stby,
        State::Tran => response::State::Tran,
        State::Data => response::State::Data,
        State::Rcv => response::State::Rcv,
        State::Prg => response::State::Prg,
        State::Dis => response::State::Dis,
    }
}

impl From<State> for response::State {
    fn from(value: State) -> (r: response::State) {
        match value {
            State::Idle(_) => response::State::Idle,
            State::Ready => response::State::Ready,
            State::Ident => response::State::Ident,
            State::Stby => response::State::Stby,
            State::Tran => response::State::Tran,
            State::Data => response::State::Data,
            State::Rcv => response::State::Rcv,
            State::Prg => response::State::Prg,
            State::Dis => response::State::Dis,
        }
    }
}

impl vstd::std_specs::convert::FromSpecImpl<State> for response::State {
    open spec fn obeys_from_spec() -> bool {
        true
    }

    open spec fn from_spec(v: State) -> response::State {
        reported_state(v)
    }
}

/// `reply` with the big-endian bytes of `v` in its first four bytes.
pub open spec fn with_u32_reply(reply: Seq<u8>, v: u32) -> Seq<u8> {
    reply.update(0, (v / 0x100_0000) as u8).update(1, ((v / 0x1_0000) % 256) as u8).update(
        2,
        ((v / 256) % 256) as u8,
    ).update(3, (v % 256) as u8)
}


/// What a card with relative address `rca` answers to CMD3: its address and
/// the identification state.
pub open spec fn rca_reply(rca: u16) -> u32 {
    ((rca as u32) << 16u32) | (2u32 << 9u32)
}

/// What the card answers to CMD8 with check pattern `pattern`: the pattern
/// echoed, and the 2.7-3.6V range accepted.
pub open spec fn if_cond_reply(pattern: u8) -> u32 {
    (1u32 << 8u32) | (pattern as u32)
}

/// What the card answers to the last ACMD41 of its initialization: ready,
/// high capacity, 3.2-3.4V, and 1.8V switching as asked for.
pub open spec fn op_cond_reply(s18r: bool) -> u32 {
    0xC030_0000u32 | (if s18r {
        0x0100_0000u32
    } else {
        0u32
    })
}

/// SD card mock.
///
/// This behaves like a virtual SD card: a version 2.00 (or later) SDHC
/// memory card. It responds to the CMD8 command as well, and it goes
/// through the states up to the transfer state; it does not simulate
/// reading or writing data.
#[derive(Debug, PartialEq, Eq)]
pub struct SdCardMock {
    state: State,
    rca: u16,
    csd: [u8; 16],
    cid: [u8; 16],
    bus_width: BusWidth,
    polling_calls_card_init: u8,
    reply_buf: [u8; 16],
}

impl SdCardMock {
    /// The card initializes in three polling calls, and while it does, its
    /// step counter has not passed them.
    #[verifier::type_invariant]
    spec fn steps_counted(&self) -> bool {
        &&& self.polling_calls_card_init == 3
        &&& self.state matches State::Idle(IdleSubState::InitializingSelf { step }) ==> 1 <= step
            <= self.polling_calls_card_init
    }

    /// The state of the card.
    pub closed spec fn spec_state(&self) -> State {
        self.state
    }

    /// The relative card address.
    pub closed spec fn spec_rca(&self) -> u16 {
        self.rca
    }

    /// The bus width that the card uses.
    pub closed spec fn spec_bus_width(&self) -> BusWidth {
        self.bus_width
    }

    /// The number of polling calls that initialization takes.
    pub closed spec fn spec_polling_calls(&self) -> u8 {
        self.polling_calls_card_init
    }

    /// The 16 bytes of the last reply.
    pub closed spec fn spec_reply(&self) -> Seq<u8> {
        self.reply_buf@
    }

    /// The card's configuration (address, bus width, initialization time)
    /// is that of `other`.
    pub open spec fn same_config(&self, other: &SdCardMock) -> bool {
        &&& self.spec_rca() == other.spec_rca()
        &&& self.spec_polling_calls() == other.spec_polling_calls()
    }

    /// Create a new SD card mock in the idle state.
    pub fn new(relative_card_addr: u16) -> (r: SdCardMock)
        ensures
            r.spec_state() == State::Idle(IdleSubState::Idle),
            r.spec_rca() == relative_card_addr,
            r.spec_bus_width() == BusWidth::_1bit,
            r.spec_polling_calls() == 3,
            r.spec_reply() == Seq::new(16, |i: int| 0u8),
    {
        let r = SdCardMock {
            state: State::Idle(IdleSubState::Idle),
            rca: relative_card_addr,
            csd: [0;16],
            cid: [0;16],
            bus_width: BusWidth::_1bit,
            polling_calls_card_init: 3,
            reply_buf: [0;16],
        };
        assert(r.reply_buf@ =~= Seq::new(16, |i: int| 0u8));
        r
    }

    /// Insert an application specific command into the card.
    ///
    /// A real card takes CMD55 first; the mock takes the command directly.
    pub fn insert_acmd(&mut self, acmd_id: AcmdId, argument: u32)
        ensures
            final(self).same_config(old(self)),
            acmd_id == AcmdId::ACMD41_SdSendOpCond ==> final(self).spec_bus_width() == old(
                self,
            ).spec_bus_width() && final(self).op_cond_step(old(self), argument),
            acmd_id == AcmdId::ACMD6_SetBusWidth ==> {
                &&& final(self).spec_state() == old(self).spec_state()
                &&& final(self).spec_reply() == old(self).spec_reply()
                &&& final(self).spec_bus_width() == if argument % 4 == 0 {
                    BusWidth::_1bit
                } else if argument % 4 == 2 {
                    BusWidth::_4bits
                } else {
                    old(self).spec_bus_width()
                }
            },
            acmd_id == AcmdId::ACMD23_PreErase ==> *final(self) == *old(self),
    {
        proof {
            use_type_invariant(&*self);
        }
        match acmd_id {
            AcmdId::ACMD41_SdSendOpCond => {
                self.handle_amcd41(argument);
            },
            AcmdId::ACMD6_SetBusWidth => {
                let argument = Acmd6::new_with_raw_value(argument);
                if let Ok(bus_width) = argument.bus_width() {
                    self.bus_width = bus_width;
                }
            },
            _ => {},
        }
    }

    /// How the card answers ACMD41 with `argument`, from `old` to `self`:
    /// the operating condition negotiation of the idle state.
    pub open spec fn op_cond_step(&self, old: &SdCardMock, argument: u32) -> bool {
        let ocr_bits_set = argument & 0xFF_FFFF != 0;
        let zero_reply = with_u32_reply(old.spec_reply(), 0);
        match old.spec_state() {
            State::Idle(IdleSubState::ReceivedIfCond) => if ocr_bits_set {
                self.spec_reply() == zero_reply && self.spec_state() == State::Idle(
                    IdleSubState::InitializingSelf { step: 1 },
                )
            } else {
                self.spec_reply() == old.spec_reply() && self.spec_state() == old.spec_state()
            },
            State::Idle(IdleSubState::InitializingSelf { step }) => if ocr_bits_set {
                self.spec_reply() == zero_reply && self.spec_state() == State::Idle(
                    IdleSubState::InitializingSelf { step: 1 },
                )
            } else if step == old.spec_polling_calls() {
                self.spec_reply() == with_u32_reply(
                    old.spec_reply(),
                    op_cond_reply(bit_of(argument, 24)),
                ) && self.spec_state() == State::Ready
            } else {
                self.spec_reply() == old.spec_reply() && step < 255 && self.spec_state()
                    == State::Idle(IdleSubState::InitializingSelf { step: (step + 1) as u8 })
            },
            _ => self.spec_reply() == old.spec_reply() && self.spec_state() == old.spec_state(),
        }
    }

    /// Insert a command into the card.
    pub fn insert_command(&mut self, cmd_id: CmdId, argument: u32)
        ensures
            final(self).same_config(old(self)),
            final(self).spec_bus_width() == old(self).spec_bus_width(),
            final(self).command_step(old(self), cmd_id, argument),
    {
        proof {
            use_type_invariant(&*self);
        }
        match cmd_id {
            CmdId::CMD0_GoIdleState => self.state = State::Idle(IdleSubState::Idle),
            CmdId::CMD2_AllSendCid => {
                if self.state == State::Ready {
                    self.reply_buf = TEST_CID;
                    self.state = State::Ident;
                }
            },
            CmdId::CMD3_SendRelativeAddr => {
                if self.state == State::Ident {
                    let response = R6::new_with_raw_value(0).with_rca(self.rca).with_com_crc_error(
                        false,
                    ).with_illegal_command(false).with_error(false).with_state(
                        response::State::Ident,
                    ).with_ready_for_data(false).with_fx_event(false).with_app_cmd(
                        false,
                    ).with_ake_seq_error(false);
                    let rca = self.rca;
                    let value = response.raw_value();
                    assert(value == rca_reply(rca)) by (bit_vector)
                        requires
                            value == ((((((((((0u32 & 0xFFFF) | ((rca as u32) << 16u32)) & !(1u32
                                << 15u32)) & !(1u32 << 14u32)) & !(1u32 << 13u32)) & !0x1E00u32) | (2u32
                                << 9u32)) & !(1u32 << 8u32)) & !(1u32 << 6u32)) & !(1u32 << 5u32))
                                & !(1u32 << 3u32),
                    ;
                    self.write_u32_reply(value);
                    self.state = State::Stby;
                }
            },
            CmdId::CMD7_SelectCard => {
                let argument = Cmd7::new_with_raw_value(argument);
                if argument.rca() == self.rca {
                    let response = R1::new_with_raw_value(0).with_state(response::State::Stby);
                    let value = response.raw_value();
                    assert(value == 3u32 << 9u32) by (bit_vector)
                        requires
                            value == (0u32 & !0x1E00u32) | (3u32 << 9u32),
                    ;
                    self.write_u32_reply(value);
                    self.state = State::Tran;
                }
            },
            CmdId::CMD13_SendStatus => {
                let argument = Cmd13::new_with_raw_value(argument);
                if argument.rca() == self.rca {
                    let response = R1::new_with_raw_value(0).with_state(self.state.into());
                    let value = response.raw_value();
                    let ghost code = state_code(reported_state(self.state));
                    assert(value == code << 9u32) by (bit_vector)
                        requires
                            value == (0u32 & !0x1E00u32) | (code << 9u32),
                    ;
                    self.write_u32_reply(value);
                    self.state = State::Tran;
                }
            },
            CmdId::CMD9_SendCsd => {
                let argument = Cmd9::new_with_raw_value(argument);
                if argument.rca() == self.rca {
                    self.reply_buf = TEST_CSD;
                }
            },
            CmdId::CMD8_SendIfCond => {
                let argument = Cmd8::new_with_raw_value(argument);
                if let State::Idle(_) = self.state {
                    self.state = State::Idle(IdleSubState::ReceivedIfCond);
                    let pattern = argument.check_pattern();
                    let reply = R7::new_with_raw_value(0).with_pcie_1_2v_support(
                        false,
                    ).with_pcie_accepted(false).with_echo_check_pattern(pattern).with_voltage_accepted(
                        VoltageSuppliedSelect::_2_7To3_6V,
                    );
                    let value = reply.raw_value();
                    assert(value == if_cond_reply(pattern)) by (bit_vector)
                        requires
                            value == ((((((0u32 & !(1u32 << 13u32)) & !(1u32 << 12u32)) & !0xFFu32)
                                | (pattern as u32)) & !0xF00u32) | (1u32 << 8u32)),
                    ;
                    self.write_u32_reply(value);
                }
            },
            _ => {},
        }
    }

    /// How the card answers `cmd_id` with `argument`, from `old` to `self`.
    pub open spec fn command_step(&self, old: &SdCardMock, cmd_id: CmdId, argument: u32) -> bool {
        let unchanged = self.spec_state() == old.spec_state() && self.spec_reply()
            == old.spec_reply();
        let addressed = argument / 65536 == old.spec_rca();
        match cmd_id {
            CmdId::CMD0_GoIdleState => self.spec_state() == State::Idle(IdleSubState::Idle)
                && self.spec_reply() == old.spec_reply(),
            CmdId::CMD2_AllSendCid => if old.spec_state() == State::Ready {
                self.spec_state() == State::Ident && self.spec_reply() == TEST_CID@
            } else {
                unchanged
            },
            CmdId::CMD3_SendRelativeAddr => if old.spec_state() == State::Ident {
                self.spec_state() == State::Stby && self.spec_reply() == with_u32_reply(
                    old.spec_reply(),
                    rca_reply(old.spec_rca()),
                )
            } else {
                unchanged
            },
            CmdId::CMD7_SelectCard => if addressed {
                self.spec_state() == State::Tran && self.spec_reply() == with_u32_reply(
                    old.spec_reply(),
                    3u32 << 9u32,
                )
            } else {
                unchanged
            },
            CmdId::CMD13_SendStatus => if addressed {
                self.spec_state() == State::Tran && self.spec_reply() == with_u32_reply(
                    old.spec_reply(),
                    state_code(reported_state(old.spec_state())) << 9u32,
                )
            } else {
                unchanged
            },
            CmdId::CMD9_SendCsd => if addressed {
                self.spec_state() == old.spec_state() && self.spec_reply() == TEST_CSD@
            } else {
                unchanged
            },
            CmdId::CMD8_SendIfCond => if old.spec_state() is Idle {
                self.spec_state() == State::Idle(IdleSubState::ReceivedIfCond) && self.spec_reply()
                    == with_u32_reply(old.spec_reply(), if_cond_reply((argument % 256) as u8))
            } else {
                unchanged
            },
            _ => unchanged,
        }
    }

    /// Read the first four bytes of the last reply, as a big-endian `u32`.
    pub fn read_reply_u32(&self) -> (r: u32)
        ensures
            r == be_value(self.spec_reply().take(4)),
    {
        let b0 = self.reply_buf[0] as u32;
        let b1 = self.reply_buf[1] as u32;
        let b2 = self.reply_buf[2] as u32;
        let b3 = self.reply_buf[3] as u32;
        let ghost s = self.reply_buf@.take(4);
        assert(s.drop_last().drop_last().drop_last().drop_last() =~= Seq::<u8>::empty());
        assert(be_value(s) == ((b0 * 256 + b1) * 256 + b2) * 256 + b3) by {
            reveal_with_fuel(be_value, 5);
            assert(s.drop_last().drop_last().drop_last() =~= seq![b0 as u8]);
            assert(s.drop_last().drop_last() =~= seq![b0 as u8, b1 as u8]);
            assert(s.drop_last() =~= seq![b0 as u8, b1 as u8, b2 as u8]);
        }
        (((b0 * 256 + b1) * 256) + b2) * 256 + b3
    }

    /// Read the 16 bytes of the last reply, as a big-endian `u128`.
    pub fn read_reply_u128(&self) -> (r: u128)
        ensures
            r == be_value(self.spec_reply()),
    {
        u128_from_be_bytes(&self.reply_buf)
    }

    /// Answers ACMD41: the operating condition negotiation of the idle state.
    fn handle_amcd41(&mut self, argument: u32)
        ensures
            final(self).same_config(old(self)),
            final(self).spec_bus_width() == old(self).spec_bus_width(),
            final(self).op_cond_step(old(self), argument),
    {
        proof {
            use_type_invariant(&*self);
        }
        let argument = Acmd41::new_with_raw_value(argument);
        let ocr_bits_set = argument.ocr().raw_value() != 0;
        if let State::Idle(substate) = self.state {
            match substate {
                IdleSubState::Idle => {},
                IdleSubState::ReceivedIfCond => {
                    if ocr_bits_set {
                        let response = R3::new_with_raw_value(0);
                        self.write_u32_reply(response.raw_value());
                        self.state = State::Idle(IdleSubState::InitializingSelf { step: 1 });
                    }
                },
                IdleSubState::InitializingSelf { step } => {
                    if ocr_bits_set {
                        let response = R3::new_with_raw_value(0);
                        self.write_u32_reply(response.raw_value());
                        self.state = State::Idle(IdleSubState::InitializingSelf { step: 1 });
                    } else {
                        if step == self.polling_calls_card_init {
                            let s18r = argument.s18r();
                            let response = R3::new_with_raw_value(0).with__2_7_to_2_8v(
                                false,
                            ).with__2_8_to_2_9v(false).with__2_9_to_3_0v(false).with__3_0_to_3_1v(
                                false,
                            ).with__3_1_to_3_2v(false).with__3_2_to_3_3v(true).with__3_3_to_3_4v(
                                true,
                            ).with__3_4_to_3_5v(false).with__3_5_to_3_6v(false).with_reserved_low_voltage(
                                false,
                            ).with_uhs_2_card_status(false).with_initialization_complete(
                                true,
                            ).with_card_capacity_status(true).with_over_2_tb_support_status(
                                false,
                            ).with_s18a(s18r);
                            let value = response.raw_value();
                            assert(value == op_cond_reply(s18r)) by (bit_vector)
                                requires
                                    value == with_bit(with_bit(with_bit(with_bit(with_bit(with_bit(with_bit(with_bit(with_bit(with_bit(with_bit(with_bit(with_bit(with_bit(with_bit(0u32, 15, false), 16, false), 17, false), 18, false), 19, false), 20, true), 21, true), 22, false), 23, false), 7, false), 29, false), 31, true), 30, true), 27, false), 24, s18r),
                            ;
                            self.write_u32_reply(value);
                            self.state = State::Ready;
                        } else {
                            self.state = State::Idle(
                                IdleSubState::InitializingSelf { step: step + 1 },
                            );
                        }
                    }
                },
            }
        }
    }

    /// Puts `value` big-endian into the first four bytes of the reply.
    fn write_u32_reply(&mut self, value: u32)
        ensures
            final(self).spec_reply() == with_u32_reply(old(self).spec_reply(), value),
            final(self).spec_state() == old(self).spec_state(),
            final(self).spec_bus_width() == old(self).spec_bus_width(),
            final(self).same_config(old(self)),
    {
        proof {
            use_type_invariant(&*self);
        }
        assert(value >> 24u32 == value / 0x100_0000 && (value >> 16u32) & 0xFF == (value / 0x1_0000)
            % 256 && (value >> 8u32) & 0xFF == (value / 256) % 256 && value & 0xFF == value % 256)
            by (bit_vector);
        self.reply_buf[0] = (value >> 24u32) as u8;
        self.reply_buf[1] = ((value >> 16u32) & 0xFF) as u8;
        self.reply_buf[2] = ((value >> 8u32) & 0xFF) as u8;
        self.reply_buf[3] = (value & 0xFF) as u8;
        assert(self.reply_buf@ =~= with_u32_reply(old(self).reply_buf@, value));
    }
}

} // verus!
