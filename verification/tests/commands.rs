use nvme::bits::{hi32, join16, lo32};
use nvme::cmd::{Cmd, Sqe};

fn plain(opc: u8) -> Cmd {
    Cmd { opc, nsid: 0, prp1: 0, prp2: 0, cdw10: 0, cdw11: 0, cdw12: 0 }
}

#[test]
fn a_new_command_is_all_zero_but_the_opcode() {
    assert_eq!(Cmd::new(0x7F), plain(0x7F));
}

#[test]
fn the_entry_carries_identifier_and_opcode_in_dword_0() {
    let cmd = Cmd { opc: 0x02, nsid: 9, prp1: 0x11, prp2: 0x22, cdw10: 1, cdw11: 2, cdw12: 3 };
    let sqe = cmd.to_sqe(0xBEEF);
    assert_eq!(
        sqe,
        Sqe {
            cdw0: 0xBEEF_0002,
            nsid: 9,
            cdw2: 0,
            cdw3: 0,
            mptr: 0,
            prp1: 0x11,
            prp2: 0x22,
            cdw10: 1,
            cdw11: 2,
            cdw12: 3,
            cdw13: 0,
            cdw14: 0,
            cdw15: 0,
        }
    );
    assert_eq!(Cmd::new(0x84).to_sqe(0).cdw0, 0x84);
    assert_eq!(Cmd::new(0xFF).to_sqe(0xFFFF).cdw0, 0xFFFF_00FF);
}

#[test]
fn the_entry_is_laid_out_little_endian() {
    let sqe = Sqe {
        cdw0: 0x0403_0201,
        nsid: 0x0807_0605,
        cdw2: 0x0C0B_0A09,
        cdw3: 0x100F_0E0D,
        mptr: 0x1817_1615_1413_1211,
        prp1: 0x201F_1E1D_1C1B_1A19,
        prp2: 0x2827_2625_2423_2221,
        cdw10: 0x2C2B_2A29,
        cdw11: 0x302F_2E2D,
        cdw12: 0x3433_3231,
        cdw13: 0x3837_3635,
        cdw14: 0x3C3B_3A39,
        cdw15: 0x403F_3E3D,
    };
    let want: Vec<u8> = (1..=64).collect();
    assert_eq!(sqe.to_bytes().to_vec(), want);
    let b = Cmd::read(1, 0, 1, 0x1000, 0).to_sqe(0x0102).to_bytes();
    assert_eq!(&b[0..8], &[0x02, 0, 0x02, 0x01, 1, 0, 0, 0]);
    assert_eq!(&b[24..32], &[0, 0x10, 0, 0, 0, 0, 0, 0]);
    assert_eq!(&b[8..24], &[0u8; 16]);
}

#[test]
fn identify_commands() {
    assert_eq!(Cmd::id_ctrl(0x5000), Cmd { prp1: 0x5000, cdw10: 1, ..plain(0x06) });
    assert_eq!(Cmd::id_ns(3, 0x5000), Cmd { nsid: 3, prp1: 0x5000, cdw10: 0, ..plain(0x06) });
    assert_eq!(Cmd::id_nss(0x5000), Cmd { prp1: 0x5000, cdw10: 0x02, ..plain(0x06) });
    assert_eq!(Cmd::id_nss_alc(3, 0x5000), Cmd { nsid: 3, prp1: 0x5000, cdw10: 0x10, ..plain(0x06) });
    assert_eq!(
        Cmd::id_nss_ctrl(3, 0xA1B2, 0x5000),
        Cmd { nsid: 3, prp1: 0x5000, cdw10: 0xA1B2_0013, ..plain(0x06) }
    );
    assert_eq!(Cmd::id_ns_desc(3, 0x5000), Cmd { nsid: 3, prp1: 0x5000, cdw10: 0x03, ..plain(0x06) });
}

#[test]
fn queue_commands() {
    assert_eq!(
        Cmd::cq_create(2, 256, 0x9000),
        Cmd { prp1: 0x9000, cdw10: (255 << 16) | 2, cdw11: 0x1, ..plain(0x05) }
    );
    assert_eq!(
        Cmd::sq_create(2, 256, 7, 0xA000),
        Cmd { prp1: 0xA000, cdw10: (255 << 16) | 2, cdw11: (7 << 16) | 0x1, ..plain(0x01) }
    );
    assert_eq!(Cmd::cq_create(0xFFFF, 1, 0).cdw10, 0x0000_FFFF);
    assert_eq!(Cmd::sq_create(1, 0xFFFF, 0xFFFF, 0).cdw10, 0xFFFE_0001);
    assert_eq!(Cmd::sq_create(1, 0xFFFF, 0xFFFF, 0).cdw11, 0xFFFF_0001);
    assert_eq!(Cmd::cq_del(0x1234), Cmd { cdw10: 0x1234, ..plain(0x04) });
    assert_eq!(Cmd::sq_del(0x1234), Cmd { cdw10: 0x1234, ..plain(0x00) });
    assert_eq!(Cmd::abort(0x0003, 0x0421), Cmd { cdw10: 0x0421_0003, ..plain(0x08) });
}

#[test]
fn feature_and_log_commands() {
    assert_eq!(Cmd::set_feat(0x07, 0x0003_0003), Cmd { cdw10: 7, cdw11: 0x0003_0003, ..plain(0x09) });
    assert_eq!(Cmd::get_feat(0x0B), Cmd { cdw10: 0x0B, ..plain(0x0A) });
    assert_eq!(
        Cmd::get_log(0x02, 127, 0x3000, 0x4000),
        Cmd { prp1: 0x3000, prp2: 0x4000, cdw10: (127 << 16) | 0x02, ..plain(0x02) }
    );
    assert_eq!(Cmd::get_log(0xFF, 0xFFFF, 0, 0).cdw10, 0xFFFF_00FF);
    assert_eq!(Cmd::async_req(), plain(0x0C));
    assert_eq!(
        Cmd::fw_dl(0x3000, 0x4000, 1023, 4096),
        Cmd { prp1: 0x3000, prp2: 0x4000, cdw10: 1023, cdw11: 4096, ..plain(0x11) }
    );
    assert_eq!(Cmd::fw_commit(2, 3), Cmd { cdw10: (3 << 3) | 2, ..plain(0x10) });
    assert_eq!(Cmd::fw_commit(0xFF, 0xFF).cdw10, 0x7FF);
}

#[test]
fn block_commands() {
    let lba = 0x0123_4567_89AB_CDEF_u64;
    assert_eq!(
        Cmd::read(1, lba, 8, 0x1000, 0x2000),
        Cmd {
            opc: 0x02,
            nsid: 1,
            prp1: 0x1000,
            prp2: 0x2000,
            cdw10: 0x89AB_CDEF,
            cdw11: 0x0123_4567,
            cdw12: 7,
        }
    );
    assert_eq!(
        Cmd::write(1, lba, 1, 0x1000, 0),
        Cmd {
            opc: 0x01,
            nsid: 1,
            prp1: 0x1000,
            prp2: 0,
            cdw10: 0x89AB_CDEF,
            cdw11: 0x0123_4567,
            cdw12: 0,
        }
    );
    assert_eq!(Cmd::read(1, 0, 0xFFFF, 0, 0).cdw12, 0xFFFE);
    assert_eq!(Cmd::flush(0xFFFF_FFFF), Cmd { nsid: 0xFFFF_FFFF, ..plain(0x00) });
    assert_eq!(
        Cmd::wr_zero(1, lba, 16),
        Cmd { nsid: 1, cdw10: 0x89AB_CDEF, cdw11: 0x0123_4567, cdw12: 15, ..plain(0x08) }
    );
    assert_eq!(
        Cmd::verify(1, lba, 16),
        Cmd { nsid: 1, cdw10: 0x89AB_CDEF, cdw11: 0x0123_4567, cdw12: 15, ..plain(0x0C) }
    );
    assert_eq!(
        Cmd::cmp(1, lba, 16, 0x1000, 0x2000),
        Cmd {
            opc: 0x05,
            nsid: 1,
            prp1: 0x1000,
            prp2: 0x2000,
            cdw10: 0x89AB_CDEF,
            cdw11: 0x0123_4567,
            cdw12: 15,
        }
    );
    // one block goes out as 0, the most that 16 bits count as 0xFFFE
    assert_eq!(Cmd::cmp(1, 0, 1, 0, 0).cdw12, 0);
    assert_eq!(Cmd::wr_zero(1, 0, 1).cdw12, 0);
    assert_eq!(Cmd::verify(1, 0, 0xFFFF).cdw12, 0xFFFE);
    assert_eq!(
        Cmd::dset_mgmt(1, 0, 0x7000, 0x4),
        Cmd { nsid: 1, prp1: 0x7000, cdw10: 0, cdw11: 0x4, ..plain(0x09) }
    );
    assert_eq!(Cmd::dset_mgmt(1, 255, 0, 0).cdw10, 255);
}

#[test]
fn sanitize_command() {
    assert_eq!(Cmd::sanitise(2, false, 0, false, false), Cmd { cdw10: 2, ..plain(0x84) });
    assert_eq!(Cmd::sanitise(3, true, 5, true, true).cdw10, 3 | (1 << 3) | (5 << 4) | (1 << 8) | (1 << 9));
    assert_eq!(Cmd::sanitise(4, false, 0, false, true).cdw10, 4 | (1 << 9));
    // only the low bits of action and pass count go in
    assert_eq!(Cmd::sanitise(0xFF, false, 0xFF, false, false).cdw10, 0x7 | (0xF << 4));
    assert_eq!(Cmd::sanitise(0xF8, true, 0xF0, false, false).cdw10, 1 << 3);
}

#[test]
fn halves_and_pairs() {
    assert_eq!(lo32(0xFFFF_FFFF_0000_0001), 1);
    assert_eq!(hi32(0xFFFF_FFFF_0000_0001), 0xFFFF_FFFF);
    assert_eq!(join16(0xABCD, 0x1234), 0xABCD_1234);
    assert_eq!(join16(0, 0xFFFF), 0xFFFF);
}
