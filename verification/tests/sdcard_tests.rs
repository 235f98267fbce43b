//! Tests of the SD card checksums, command codes, registers and the
//! simulated card.

use embedded_sdmmc::sdcard::argument::{Acmd41, Cmd8, HostCapacitySupport, OcrLower, RcaSelect, VoltageSuppliedSelect};
use embedded_sdmmc::sdcard::csd::SizeMultiplierSelect;
use embedded_sdmmc::sdcard::mock::{SdCardMock, TEST_CID, TEST_CSD};
use embedded_sdmmc::sdcard::response::{CardStatus, Ocr, State, R6, R7};
use embedded_sdmmc::sdcard::{crc16, crc7, AcmdId, CmdId};

const CSD_V1_EXAMPLE: [u8; 15] = [
    0x00, 0x26, 0x00, 0x32, 0x5F, 0x59, 0x83, 0xC8, 0xAD, 0xDB, 0xCF, 0xFF, 0xD2, 0x40, 0x40,
];

const CSD_READ_FROM_CARD: [u8; 16] = [
    0x00, 0x26, 0x00, 0x32, 0x5F, 0x5A, 0x83, 0xAE, 0xFE, 0xFB, 0xCF, 0xFF, 0x92, 0x80, 0x40, 0xDF,
];

#[test]
fn mod_test_crc7_0() {
    assert_eq!(crc7(&CSD_V1_EXAMPLE), 0x52);
}

#[test]
fn mod_test_crc7_1() {
    // Taken from page 119 of the SD card spec.
    let cmd0_arg0: [u8; 5] = [0b01000000, 0b00000000, 0b00000000, 0b00000000, 0b00000000];
    assert_eq!(crc7(&cmd0_arg0), 0b1001010);
}

#[test]
fn mod_test_crc7_2() {
    // Taken from page 119 of the SD card spec.
    let cmd17_arg0: [u8; 5] = [0b01010001, 0b00000000, 0b00000000, 0b00000000, 0b00000000];
    assert_eq!(crc7(&cmd17_arg0), 0b0101010);
}

#[test]
fn mod_test_crc7_3() {
    // Taken from page 119 of the SD card spec.
    let cmd17_response: [u8; 5] = [0b00010001, 0b00000000, 0b00000000, 0b00001001, 0b00000000];
    assert_eq!(crc7(&cmd17_response), 0b0110011);
}

#[test]
fn mod_test_crc16() {
    assert_eq!(crc16(&CSD_READ_FROM_CARD), 0x9fc5);
}

#[test]
fn proto_test_crc7_0() {
    assert_eq!(crc7(&CSD_V1_EXAMPLE), 0x52);
}

#[test]
fn proto_test_crc7_1() {
    let cmd0_arg0: [u8; 5] = [0b01000000, 0b00000000, 0b00000000, 0b00000000, 0b00000000];
    assert_eq!(crc7(&cmd0_arg0), 0b1001010);
}

#[test]
fn proto_test_crc7_2() {
    let cmd17_arg0: [u8; 5] = [0b01010001, 0b00000000, 0b00000000, 0b00000000, 0b00000000];
    assert_eq!(crc7(&cmd17_arg0), 0b0101010);
}

#[test]
fn proto_test_crc7_3() {
    let cmd17_response: [u8; 5] = [0b00010001, 0b00000000, 0b00000000, 0b00001001, 0b00000000];
    assert_eq!(crc7(&cmd17_response), 0b0110011);
}

#[test]
fn proto_test_crc16() {
    assert_eq!(crc16(&CSD_READ_FROM_CARD), 0x9fc5);
}

#[test]
fn sdmmc_proto_test_crc16() {
    assert_eq!(crc16(&CSD_READ_FROM_CARD), 0x9fc5);
}

#[test]
fn crc_of_nothing_is_zero() {
    assert_eq!(crc7(&[]), 0);
    assert_eq!(crc16(&[]), 0);
}

#[test]
fn command_indices_round_trip() {
    let cmds = [
        CmdId::CMD0_GoIdleState,
        CmdId::CMD2_AllSendCid,
        CmdId::CMD3_SendRelativeAddr,
        CmdId::CMD8_SendIfCond,
        CmdId::CMD7_SelectCard,
        CmdId::CMD9_SendCsd,
        CmdId::CMD12_StopTransmission,
        CmdId::CMD13_SendStatus,
        CmdId::CMD17_ReadSingleBlock,
        CmdId::CMD18_ReadMultipleBlock,
        CmdId::CMD24_WriteBlock,
        CmdId::CMD25_WriteMultipleBlock,
        CmdId::CMD55_AppCmd,
        CmdId::CMD58_ReadOcr,
        CmdId::CMD59_CrcOnOff,
    ];
    for c in cmds {
        assert_eq!(CmdId::new_with_raw_value(c.raw_value()), Ok(c));
    }
    assert_eq!(CmdId::CMD17_ReadSingleBlock.raw_value(), 17);
    assert_eq!(CmdId::new_with_raw_value(1), Err(1));
    assert_eq!(AcmdId::new_with_raw_value(41), Ok(AcmdId::ACMD41_SdSendOpCond));
    assert_eq!(AcmdId::ACMD23_PreErase.raw_value(), 23);
    assert_eq!(AcmdId::new_with_raw_value(42), Err(42));
}

#[test]
fn argument_fields() {
    let cmd8 = Cmd8::new_with_raw_value(0x1AA);
    assert_eq!(cmd8.check_pattern(), 0xAA);
    assert_eq!(cmd8.voltage_supplied(), Ok(VoltageSuppliedSelect::_2_7To3_6V));
    assert!(!cmd8.pcie_availability());
    let rca = RcaSelect::new_with_raw_value(0).with_rca(0x1234);
    assert_eq!(rca.raw_value(), 0x1234_0000);
    assert_eq!(rca.rca(), 0x1234);
    let acmd41 = Acmd41::new_with_raw_value(0)
        .with_host_capacity_support(HostCapacitySupport::SdhcOrSdxc)
        .with_ocr(OcrLower::new_with_raw_value(0x30_0000));
    assert_eq!(acmd41.raw_value(), 0x4030_0000);
    assert_eq!(acmd41.host_capacity_support(), HostCapacitySupport::SdhcOrSdxc);
    assert!(acmd41.ocr()._3_2_to_3_3v());
}

#[test]
fn response_fields() {
    let status = CardStatus::new_with_raw_value(0).with_state(State::Tran);
    assert_eq!(status.raw_value(), 4 << 9);
    assert_eq!(status.state(), Ok(State::Tran));
    assert_eq!(CardStatus::new_with_raw_value(9 << 9).state(), Err(9));
    let r6 = R6::new_with_raw_value(0x5678_0000 | (2 << 9));
    assert_eq!(r6.rca(), 0x5678);
    assert_eq!(r6.state(), Ok(State::Ident));
    let r7 = R7::new_with_raw_value(0x1AA);
    assert_eq!(r7.echo_check_pattern(), 0xAA);
    assert_eq!(r7.voltage_accepted(), Ok(VoltageSuppliedSelect::_2_7To3_6V));
    let ocr = Ocr::new_with_raw_value(0xC000_0000);
    assert!(ocr.initialization_complete());
    assert!(ocr.card_capacity_status());
}

#[test]
fn size_multipliers() {
    assert_eq!(SizeMultiplierSelect::_4.multiplier(), 4);
    assert_eq!(SizeMultiplierSelect::_512.multiplier(), 512);
    assert_eq!(SizeMultiplierSelect::new_with_raw_value(7), SizeMultiplierSelect::_512);
}

#[test]
fn mock_initializes_to_transfer_state() {
    let rca = 0x1234;
    let mut card = SdCardMock::new(rca);
    card.insert_command(CmdId::CMD0_GoIdleState, 0);
    card.insert_command(CmdId::CMD8_SendIfCond, 0x1AA);
    let r7 = R7::new_with_raw_value(card.read_reply_u32());
    assert_eq!(r7.echo_check_pattern(), 0xAA);
    assert_eq!(r7.voltage_accepted(), Ok(VoltageSuppliedSelect::_2_7To3_6V));
    let op_cond = Acmd41::new_with_raw_value(0)
        .with_host_capacity_support(HostCapacitySupport::SdhcOrSdxc)
        .with_ocr(OcrLower::new_with_raw_value(0x30_0000))
        .raw_value();
    card.insert_acmd(AcmdId::ACMD41_SdSendOpCond, op_cond);
    assert!(!Ocr::new_with_raw_value(card.read_reply_u32()).initialization_complete());
    // Polling without the voltage window until the card reports ready.
    let mut polls = 0;
    loop {
        card.insert_acmd(AcmdId::ACMD41_SdSendOpCond, 0);
        polls += 1;
        let ocr = Ocr::new_with_raw_value(card.read_reply_u32());
        if ocr.initialization_complete() {
            assert!(ocr.card_capacity_status());
            break;
        }
        assert!(polls < 10);
    }
    assert_eq!(polls, 3);
    card.insert_command(CmdId::CMD2_AllSendCid, 0);
    assert_eq!(card.read_reply_u128(), u128::from_be_bytes(TEST_CID));
    card.insert_command(CmdId::CMD3_SendRelativeAddr, 0);
    let r6 = R6::new_with_raw_value(card.read_reply_u32());
    assert_eq!(r6.rca(), rca);
    assert_eq!(r6.state(), Ok(State::Ident));
    card.insert_command(CmdId::CMD9_SendCsd, (rca as u32) << 16);
    assert_eq!(card.read_reply_u128(), u128::from_be_bytes(TEST_CSD));
    card.insert_command(CmdId::CMD7_SelectCard, (rca as u32) << 16);
    assert_eq!(CardStatus::new_with_raw_value(card.read_reply_u32()).state(), Ok(State::Stby));
    card.insert_command(CmdId::CMD13_SendStatus, (rca as u32) << 16);
    assert_eq!(CardStatus::new_with_raw_value(card.read_reply_u32()).state(), Ok(State::Tran));
}

#[test]
fn mock_ignores_op_cond_before_if_cond() {
    let mut card = SdCardMock::new(1);
    card.insert_acmd(AcmdId::ACMD41_SdSendOpCond, 0x30_0000);
    assert_eq!(card.read_reply_u32(), 0);
    card.insert_command(CmdId::CMD2_AllSendCid, 0);
    assert_eq!(card.read_reply_u128(), 0);
}

#[test]
fn mock_ignores_commands_for_other_cards() {
    let mut card = SdCardMock::new(7);
    card.insert_command(CmdId::CMD9_SendCsd, 8 << 16);
    assert_eq!(card.read_reply_u128(), 0);
}
