//! Tests of the SD/MMC protocol constants, CSD registers and the card
//! driver over a scripted transport.

use std::cell::RefCell;
use std::collections::VecDeque;

use embedded_sdmmc::blockdevice::{Block, BlockIdx};
use embedded_sdmmc::sdcard::CardType;
use embedded_sdmmc::sdmmc::{
    acquire_action, acquire_step, AcquireAction, AcquireState, acquire_with_opts, block_address, check_data_crc, command_frame, data_accepted, read_blocks,
    spi_card_command, write_blocks, AcquireOpts, Error, Transport,
};
use embedded_sdmmc::sdmmc_proto::{crc16, crc7, CsdV1, CsdV2};

#[test]
fn test_crc7() {
        const DATA: [u8; 15] = [0x00, 0x26, 0x00, 0x32, 0x5F, 0x59, 0x83, 0xC8, 0xAD, 0xDB, 0xCF, 0xFF, 0xD2, 0x40, 0x40];
        assert_eq!(crc7(&DATA), 0xA5);
}

#[test]
fn sdmmc_proto_test_csdv1b() {
        const EXAMPLE: CsdV1 = CsdV1 {
            data: [0x00, 0x26, 0x00, 0x32, 0x5F, 0x59, 0x83, 0xC8, 0xAD, 0xDB, 0xCF, 0xFF, 0xD2, 0x40, 0x40, 0xA5],
        };

        assert_eq!(EXAMPLE.csd_ver(), 0x00);

        assert_eq!(EXAMPLE.data_read_access_time1(), 0x26);

        assert_eq!(EXAMPLE.data_read_access_time2(), 0x00);

        assert_eq!(EXAMPLE.max_data_transfer_rate(), 0x32);

        assert_eq!(EXAMPLE.card_command_classes(), 0x5f5);

        assert_eq!(EXAMPLE.read_block_length(), 0x09);

        assert_eq!(EXAMPLE.read_partial_blocks(), true);

        assert_eq!(EXAMPLE.write_block_misalignment(), false);

        assert_eq!(EXAMPLE.read_block_misalignment(), false);

        assert_eq!(EXAMPLE.dsr_implemented(), false);

        assert_eq!(EXAMPLE.device_size(), 3874);

        assert_eq!(EXAMPLE.max_read_current_vdd_min(), 5);

        assert_eq!(EXAMPLE.max_read_current_vdd_max(), 5);

        assert_eq!(EXAMPLE.max_write_current_vdd_min(), 6);

        assert_eq!(EXAMPLE.max_write_current_vdd_max(), 6);

        assert_eq!(EXAMPLE.device_size_multiplier(), 7);

        assert_eq!(EXAMPLE.erase_single_block_enabled(), true);

        assert_eq!(EXAMPLE.erase_sector_size(), 0x1F);

        assert_eq!(EXAMPLE.write_protect_group_size(), 0x7f);

        assert_eq!(EXAMPLE.write_protect_group_enable(), true);

        assert_eq!(EXAMPLE.write_speed_factor(), 0x4);

        assert_eq!(EXAMPLE.max_write_data_length(), 0x9);

        assert_eq!(EXAMPLE.write_partial_blocks(), false);

        assert_eq!(EXAMPLE.file_format_group_set(), false);

        assert_eq!(EXAMPLE.copy_flag_set(), true);

        assert_eq!(EXAMPLE.permanent_write_protection(), false);

        assert_eq!(EXAMPLE.temporary_write_protection(), false);

        assert_eq!(EXAMPLE.file_format(), 0x00);

        assert_eq!(EXAMPLE.crc(), 0xa5);

        assert_eq!(EXAMPLE.card_capacity_bytes(), 1_015_808_000);
        assert_eq!(EXAMPLE.card_capacity_blocks(), 1_984_000);
}

#[test]
fn sdmmc_proto_test_csdv1() {
        const EXAMPLE: CsdV1 = CsdV1 {
            data: [0x00, 0x7F, 0x00, 0x32, 0x5B, 0x5A, 0x83, 0xAF, 0x7F, 0xFF, 0xCF, 0x80, 0x16, 0x80, 0x00, 0x6F],
        };
        assert_eq!(EXAMPLE.csd_ver(), 0x00);

        assert_eq!(EXAMPLE.data_read_access_time1(), 0x7F);

        assert_eq!(EXAMPLE.data_read_access_time2(), 0x00);

        assert_eq!(EXAMPLE.max_data_transfer_rate(), 0x32);

        assert_eq!(EXAMPLE.card_command_classes(), 0x5b5);

        assert_eq!(EXAMPLE.read_block_length(), 0x0a);

        assert_eq!(EXAMPLE.read_partial_blocks(), true);

        assert_eq!(EXAMPLE.write_block_misalignment(), false);

        assert_eq!(EXAMPLE.read_block_misalignment(), false);

        assert_eq!(EXAMPLE.dsr_implemented(), false);

        assert_eq!(EXAMPLE.device_size(), 3773);

        assert_eq!(EXAMPLE.max_read_current_vdd_min(), 7);

        assert_eq!(EXAMPLE.max_read_current_vdd_max(), 7);

        assert_eq!(EXAMPLE.max_write_current_vdd_min(), 7);

        assert_eq!(EXAMPLE.max_write_current_vdd_max(), 7);

        assert_eq!(EXAMPLE.device_size_multiplier(), 7);

        assert_eq!(EXAMPLE.erase_single_block_enabled(), true);

        assert_eq!(EXAMPLE.erase_sector_size(), 0x1F);

        assert_eq!(EXAMPLE.write_protect_group_size(), 0x00);

        assert_eq!(EXAMPLE.write_protect_group_enable(), false);

        assert_eq!(EXAMPLE.write_speed_factor(), 0x5);

        assert_eq!(EXAMPLE.max_write_data_length(), 0xa);

        assert_eq!(EXAMPLE.write_partial_blocks(), false);

        assert_eq!(EXAMPLE.file_format_group_set(), false);

        assert_eq!(EXAMPLE.copy_flag_set(), false);

        assert_eq!(EXAMPLE.permanent_write_protection(), false);

        assert_eq!(EXAMPLE.temporary_write_protection(), false);

        assert_eq!(EXAMPLE.file_format(), 0x00);

        assert_eq!(EXAMPLE.crc(), 0x6F);

        assert_eq!(EXAMPLE.card_capacity_bytes(), 1_978_662_912);
        assert_eq!(EXAMPLE.card_capacity_blocks(), 3_864_576);
}

#[test]
fn sdmmc_proto_test_csdv2() {
        const EXAMPLE: CsdV2 = CsdV2 {
            data: [0x40, 0x0E, 0x00, 0x32, 0x5B, 0x59, 0x00, 0x00, 0x1D, 0x69, 0x7F, 0x80, 0x0A, 0x40, 0x00, 0x8B],
        };
        assert_eq!(EXAMPLE.csd_ver(), 0x01);

        assert_eq!(EXAMPLE.data_read_access_time1(), 0x0E);

        assert_eq!(EXAMPLE.data_read_access_time2(), 0x00);

        assert_eq!(EXAMPLE.max_data_transfer_rate(), 0x32);

        assert_eq!(EXAMPLE.card_command_classes(), 0x5b5);

        assert_eq!(EXAMPLE.read_block_length(), 0x09);

        assert_eq!(EXAMPLE.read_partial_blocks(), false);

        assert_eq!(EXAMPLE.write_block_misalignment(), false);

        assert_eq!(EXAMPLE.read_block_misalignment(), false);

        assert_eq!(EXAMPLE.dsr_implemented(), false);

        assert_eq!(EXAMPLE.device_size(), 7529);

        assert_eq!(EXAMPLE.erase_single_block_enabled(), true);

        assert_eq!(EXAMPLE.erase_sector_size(), 0x7F);

        assert_eq!(EXAMPLE.write_protect_group_size(), 0x00);

        assert_eq!(EXAMPLE.write_protect_group_enable(), false);

        assert_eq!(EXAMPLE.write_speed_factor(), 0x2);

        assert_eq!(EXAMPLE.max_write_data_length(), 0x9);

        assert_eq!(EXAMPLE.write_partial_blocks(), false);

        assert_eq!(EXAMPLE.file_format_group_set(), false);

        assert_eq!(EXAMPLE.copy_flag_set(), false);

        assert_eq!(EXAMPLE.permanent_write_protection(), false);

        assert_eq!(EXAMPLE.temporary_write_protection(), false);

        assert_eq!(EXAMPLE.file_format(), 0x00);

        assert_eq!(EXAMPLE.crc(), 0x8b);

        assert_eq!(EXAMPLE.card_capacity_bytes(), 3_947_888_640);
        assert_eq!(EXAMPLE.card_capacity_blocks(), 7_710_720);
}

#[test]
fn sdmmc_proto_test_csdv2b() {
        const EXAMPLE: CsdV2 = CsdV2 {
            data: [0x40, 0x0E, 0x00, 0x32, 0x5B, 0x59, 0x00, 0x00, 0x3A, 0x91, 0x7F, 0x80, 0x0A, 0x40, 0x00, 0x05],
        };
        assert_eq!(EXAMPLE.csd_ver(), 0x01);

        assert_eq!(EXAMPLE.data_read_access_time1(), 0x0E);

        assert_eq!(EXAMPLE.data_read_access_time2(), 0x00);

        assert_eq!(EXAMPLE.max_data_transfer_rate(), 0x32);

        assert_eq!(EXAMPLE.card_command_classes(), 0x5b5);

        assert_eq!(EXAMPLE.read_block_length(), 0x09);

        assert_eq!(EXAMPLE.read_partial_blocks(), false);

        assert_eq!(EXAMPLE.write_block_misalignment(), false);

        assert_eq!(EXAMPLE.read_block_misalignment(), false);

        assert_eq!(EXAMPLE.dsr_implemented(), false);

        assert_eq!(EXAMPLE.device_size(), 14993);

        assert_eq!(EXAMPLE.erase_single_block_enabled(), true);

        assert_eq!(EXAMPLE.erase_sector_size(), 0x7F);

        assert_eq!(EXAMPLE.write_protect_group_size(), 0x00);

        assert_eq!(EXAMPLE.write_protect_group_enable(), false);

        assert_eq!(EXAMPLE.write_speed_factor(), 0x2);

        assert_eq!(EXAMPLE.max_write_data_length(), 0x9);

        assert_eq!(EXAMPLE.write_partial_blocks(), false);

        assert_eq!(EXAMPLE.file_format_group_set(), false);

        assert_eq!(EXAMPLE.copy_flag_set(), false);

        assert_eq!(EXAMPLE.permanent_write_protection(), false);

        assert_eq!(EXAMPLE.temporary_write_protection(), false);

        assert_eq!(EXAMPLE.file_format(), 0x00);

        assert_eq!(EXAMPLE.crc(), 0x05);

        assert_eq!(EXAMPLE.card_capacity_bytes(), 7_861_174_272);
        assert_eq!(EXAMPLE.card_capacity_blocks(), 15_353_856);
}

/// A transport that answers commands and reads from scripts, and records
/// what was sent.
struct Script {
    responses: RefCell<VecDeque<Result<u8, Error>>>,
    incoming: RefCell<VecDeque<u8>>,
    commands: RefCell<Vec<(u8, u32)>>,
    sent: RefCell<Vec<u8>>,
}

impl Script {
    fn new(responses: &[Result<u8, Error>], incoming: &[u8]) -> Script {
        Script {
            responses: RefCell::new(responses.iter().cloned().collect()),
            incoming: RefCell::new(incoming.iter().cloned().collect()),
            commands: RefCell::new(Vec::new()),
            sent: RefCell::new(Vec::new()),
        }
    }
}

impl Transport for Script {
    fn init(&mut self) -> Result<(), Error> {
        Ok(())
    }

    fn card_command(&self, command: u8, arg: u32) -> Result<u8, Error> {
        self.commands.borrow_mut().push((command, arg));
        self.responses.borrow_mut().pop_front().unwrap_or(Err(Error::Transport))
    }

    fn receive(&self) -> Result<u8, Error> {
        self.incoming.borrow_mut().pop_front().ok_or(Error::Transport)
    }

    fn send(&self, out: u8) -> Result<(), Error> {
        self.sent.borrow_mut().push(out);
        Ok(())
    }
}

#[test]
fn acquire_finds_a_high_capacity_card() {
    let mut t = Script::new(
        &[Ok(0x01), Ok(0x01), Ok(0x01), Ok(0x01), Ok(0x00), Ok(0x00)],
        &[0x00, 0x00, 0x01, 0xAA, 0xC0, 0xFF, 0x80, 0x00],
    );
    assert_eq!(acquire_with_opts(&mut t, AcquireOpts::default()), Ok(CardType::SdhcSdxc));
    assert_eq!(
        *t.commands.borrow(),
        vec![(0, 0), (59, 1), (8, 0x1AA), (55, 0), (41, 0x4000_0000), (58, 0)]
    );
}

#[test]
fn acquire_finds_a_version_one_card() {
    let mut t = Script::new(&[Ok(0x01), Ok(0x01), Ok(0x05), Ok(0x01), Ok(0x00)], &[]);
    assert_eq!(acquire_with_opts(&mut t, AcquireOpts::default()), Ok(CardType::SD1));
    assert_eq!(*t.commands.borrow(), vec![(0, 0), (59, 1), (8, 0x1AA), (55, 0), (41, 0)]);
}

#[test]
fn acquire_needs_crc_when_asked() {
    let mut t = Script::new(&[Ok(0x01), Ok(0x05)], &[]);
    assert_eq!(acquire_with_opts(&mut t, AcquireOpts::default()), Err(Error::CantEnableCRC));
}

#[test]
fn acquire_gives_up_without_a_card() {
    let responses: Vec<Result<u8, Error>> = (0..32).map(|_| Err(Error::TimeoutCommand(0))).collect();
    let mut t = Script::new(&responses, &[]);
    assert_eq!(acquire_with_opts(&mut t, AcquireOpts::default()), Err(Error::CardNotFound));
}

#[test]
fn command_frames_carry_the_crc() {
    // CMD0 with argument 0 ends in 0x95, CMD8 with 0x1AA in 0x87.
    assert_eq!(command_frame(0, 0), [0x40, 0, 0, 0, 0, 0x95]);
    assert_eq!(command_frame(8, 0x1AA), [0x48, 0, 0, 0x01, 0xAA, 0x87]);
}

#[test]
fn spi_commands_wait_send_and_take_the_response() {
    let t = Script::new(&[], &[0xFF, 0xFF, 0x80, 0x01]);
    assert_eq!(spi_card_command(&t, 17, 0x200), Ok(0x01));
    assert_eq!(*t.sent.borrow(), command_frame(17, 0x200).to_vec());
}

#[test]
fn data_crc_and_response_checks() {
    let data = [0u8; 4];
    assert_eq!(crc16(&data), 0);
    assert_eq!(check_data_crc(0, 0, &data), Ok(()));
    assert_eq!(check_data_crc(0x12, 0x34, &data), Err(Error::CrcError(0x1234, 0)));
    assert!(data_accepted(0xE5));
    assert!(!data_accepted(0x0B));
}

#[test]
fn block_addresses_depend_on_capacity() {
    assert_eq!(block_address(CardType::SD1, BlockIdx(3)), 1536);
    assert_eq!(block_address(CardType::SdhcSdxc, BlockIdx(3)), 3);
}

#[test]
fn single_blocks_are_read_with_their_crc() {
    let mut incoming = vec![0xFF, 0xFE];
    incoming.extend_from_slice(&[7u8; 512]);
    let crc = crc16(&[7u8; 512]);
    incoming.push((crc >> 8) as u8);
    incoming.push(crc as u8);
    let t = Script::new(&[Ok(0x00)], &incoming);
    let mut blocks = [Block::new()];
    assert_eq!(read_blocks(&t, CardType::SdhcSdxc, &mut blocks, BlockIdx(9)), Ok(()));
    assert_eq!(blocks[0].contents, [7u8; 512]);
    assert_eq!(*t.commands.borrow(), vec![(17, 9)]);
}

#[test]
fn single_blocks_are_written_and_checked() {
    // Accepted data response, not busy, then a clean status.
    let t = Script::new(&[Ok(0x00), Ok(0x00)], &[0x05, 0xFF, 0x00]);
    let blocks = [Block::new()];
    assert_eq!(write_blocks(&t, CardType::SD2, &blocks, BlockIdx(2)), Ok(()));
    assert_eq!(*t.commands.borrow(), vec![(24, 1024), (13, 0)]);
    let sent = t.sent.borrow();
    assert_eq!(sent[0], 0xFE);
    assert_eq!(sent.len(), 1 + 512 + 2);
}

#[test]
fn rejected_writes_fail() {
    let t = Script::new(&[Ok(0x00)], &[0x0B]);
    let blocks = [Block::new()];
    assert_eq!(write_blocks(&t, CardType::SdhcSdxc, &blocks, BlockIdx(2)), Err(Error::WriteError));
}

#[test]
fn error_kinds() {
    assert_eq!(embedded_sdmmc::Error::<()>::NotFound.kind(), embedded_sdmmc::ErrorKind::NotFound);
    assert_eq!(embedded_sdmmc::Error::<()>::DeviceError(()).kind(), embedded_sdmmc::ErrorKind::Other);
    assert_eq!(embedded_sdmmc::Error::<()>::FilenameError(embedded_sdmmc::FilenameError::NameTooLong).kind(), embedded_sdmmc::ErrorKind::InvalidInput);
    assert_eq!(embedded_sdmmc::Error::<()>::TooManyOpenFiles.kind(), embedded_sdmmc::ErrorKind::OutOfMemory);
    assert_eq!(embedded_sdmmc::Error::<()>::UnterminatedFatChain.kind(), embedded_sdmmc::ErrorKind::InvalidData);
    assert_eq!(embedded_sdmmc::Error::<()>::BadBlockSize(1024).kind(), embedded_sdmmc::ErrorKind::Unsupported);
    assert_eq!(embedded_sdmmc::Error::<()>::ReadOnly.kind(), embedded_sdmmc::ErrorKind::PermissionDenied);
    assert_eq!(embedded_sdmmc::Error::<()>::DirAlreadyExists.kind(), embedded_sdmmc::ErrorKind::AlreadyExists);
    let e: embedded_sdmmc::Error<u8> = embedded_sdmmc::Error::from(7u8);
    assert_eq!(e, embedded_sdmmc::Error::DeviceError(7));
}

#[test]
fn acquire_steps_send_the_bring_up_commands() {
    let opts = AcquireOpts::default();
    let s = AcquireState::start();
    assert!(matches!(acquire_action(&s), AcquireAction::Command(0x00, 0)));
    // A busy answer to CMD0 uses up a poll; the idle answer moves on.
    let s = acquire_step(s, Ok(0xFF), opts);
    assert_eq!(s, AcquireState::GoIdle { attempts: 32, delay: 31_999 });
    let s = acquire_step(s, Err(Error::TimeoutCommand(0)), opts);
    assert_eq!(s, AcquireState::GoIdle { attempts: 31, delay: 31_998 });
    let s = acquire_step(s, Ok(0x01), opts);
    assert_eq!(s, AcquireState::EnableCrc);
    assert!(matches!(acquire_action(&s), AcquireAction::Command(0x3B, 1)));
    assert_eq!(acquire_step(s, Ok(0x05), opts), AcquireState::Failed(Error::CantEnableCRC));
    let no_crc = AcquireOpts { require_crc: false };
    assert_eq!(acquire_step(s, Ok(0x05), no_crc), AcquireState::IfCond { delay: 32_000 });
    let s = acquire_step(s, Ok(0x01), opts);
    assert!(matches!(acquire_action(&s), AcquireAction::Command(0x08, 0x1AA)));
    // A version 2 card answers CMD8 and echoes the check pattern.
    let mut t = acquire_step(s, Ok(0x01), opts);
    for b in [0x00u8, 0x00, 0x01] {
        assert!(matches!(acquire_action(&t), AcquireAction::Receive));
        t = acquire_step(t, Ok(b), opts);
    }
    let t = acquire_step(t, Ok(0xAA), opts);
    assert_eq!(t, AcquireState::Init { card_type: CardType::SD2, delay: 32_000 });
    assert!(matches!(acquire_action(&t), AcquireAction::AppCommand(0x29, 0x4000_0000)));
    // A version 1 card finds CMD8 illegal.
    let one = acquire_step(s, Ok(0x05), opts);
    assert_eq!(one, AcquireState::Init { card_type: CardType::SD1, delay: 32_000 });
    assert!(matches!(acquire_action(&one), AcquireAction::AppCommand(0x29, 0)));
    assert_eq!(acquire_step(one, Ok(0x00), opts), AcquireState::Done(CardType::SD1));
    // Ready version 2 cards are asked for the OCR.
    let t = acquire_step(t, Ok(0x00), opts);
    assert_eq!(t, AcquireState::ReadOcr);
    assert!(matches!(acquire_action(&t), AcquireAction::Command(0x3A, 0)));
    assert_eq!(acquire_step(t, Ok(0x01), opts), AcquireState::Failed(Error::Cmd58Error));
    let mut t = acquire_step(t, Ok(0x00), opts);
    for b in [0xC0u8, 0xFF, 0x80, 0x00] {
        t = acquire_step(t, Ok(b), opts);
    }
    assert_eq!(t, AcquireState::Done(CardType::SdhcSdxc));
    assert!(matches!(acquire_action(&t), AcquireAction::Finish(Ok(CardType::SdhcSdxc))));
    // Timeouts.
    assert_eq!(
        acquire_step(AcquireState::Init { card_type: CardType::SD1, delay: 0 }, Ok(0x01), opts),
        AcquireState::Failed(Error::TimeoutACommand(0x29))
    );
    assert!(matches!(
        acquire_action(&AcquireState::GoIdle { attempts: 0, delay: 5 }),
        AcquireAction::Finish(Err(Error::CardNotFound))
    ));
}

#[test]
fn crc16_of_data_followed_by_its_crc_is_zero() {
    assert_eq!(crc16(&[]), 0);
    let mut data: Vec<u8> = (0u8..=200).collect();
    let c = crc16(&data);
    data.push((c >> 8) as u8);
    data.push(c as u8);
    assert_eq!(crc16(&data), 0);
}
