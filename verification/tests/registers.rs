use nvme::reg::{
    can_address_doorbells, doorbell_cq, doorbell_sq, CapReg, CcReg, CstsReg, ACQ, AQA, ASQ, CAP, CC,
    CC_EN, CC_SHN_ABRUPT, CC_SHN_NORMAL, CSTS, CSTS_RDY, CSTS_SHST_COMPLETE, VS,
};

#[test]
fn register_offsets() {
    assert_eq!((CAP, VS, CC, CSTS, AQA, ASQ, ACQ), (0x00, 0x08, 0x14, 0x1C, 0x24, 0x28, 0x30));
    assert_eq!((CC_EN, CC_SHN_NORMAL, CC_SHN_ABRUPT), (1 << 0, 1 << 14, 2 << 14));
    assert_eq!((CSTS_RDY, CSTS_SHST_COMPLETE), (1 << 0, 2 << 2));
}

#[test]
fn doorbells_lie_a_stride_apart() {
    assert_eq!(doorbell_sq(0, 0), 0x1000);
    assert_eq!(doorbell_cq(0, 0), 0x1004);
    assert_eq!(doorbell_sq(1, 0), 0x1008);
    assert_eq!(doorbell_cq(1, 0), 0x100C);
    assert_eq!(doorbell_sq(3, 2), 0x1000 + 6 * 16);
    assert_eq!(doorbell_cq(3, 2), 0x1000 + 7 * 16);
    assert_eq!(doorbell_sq(0xFFFF, 0), 0x1000 + 2 * 0xFFFF * 4);
    assert_eq!(doorbell_cq(0, 15), 0x1000 + (4 << 15));
    for dstrd in 0..=15u8 {
        for qid in [0u16, 1, 2, 77, 0xFFFF] {
            let stride = 4usize << dstrd;
            assert_eq!(doorbell_sq(qid, dstrd), 0x1000 + 2 * qid as usize * stride);
            assert_eq!(doorbell_cq(qid, dstrd), doorbell_sq(qid, dstrd) + stride);
        }
    }
}

#[test]
fn strides_that_can_be_addressed() {
    for dstrd in 0..=15u8 {
        assert!(can_address_doorbells(dstrd));
    }
    assert!(!can_address_doorbells(16));
    assert!(!can_address_doorbells(255));
}

#[test]
fn capabilities_fields() {
    let cap = CapReg::from_raw(0x0000_00FF_0000_03FF);
    assert_eq!(cap.mqes(), 0x3FF);
    assert_eq!(cap.dstrd(), 0xF);
    assert_eq!(cap.timeout(), 0);
    assert!(cap.nssrs());
    assert!(cap.css_nvm());
    assert!(!cap.cqr());
    assert!(!cap.bps());
    let cap = CapReg::from_raw(0x0354_2000_2C03_FFFF);
    assert_eq!(cap.mqes(), 0xFFFF);
    assert!(cap.cqr());
    assert!(cap.ams_wrr());
    assert_eq!(cap.timeout(), 0x2C);
    assert_eq!(cap.dstrd(), 0);
    assert!(!cap.nssrs());
    assert!(!cap.css_nvm());
    assert!(cap.bps());
    assert_eq!(cap.mpsmin(), 4);
    assert_eq!(cap.mpsmax(), 5);
    assert!(cap.pmrs());
    assert!(cap.cmbs());
    let cap = CapReg::from_raw(0);
    assert_eq!((cap.mqes(), cap.dstrd(), cap.mpsmin(), cap.mpsmax()), (0, 0, 0, 0));
    assert!(!cap.pmrs() && !cap.cmbs() && !cap.ams_wrr());
}

#[test]
fn configuration_fields() {
    let mut cc = CcReg::new();
    assert_eq!(cc.raw(), 0);
    assert!(!cc.is_enabled());
    cc.set_iocqes(4).set_iosqes(6).enable();
    assert_eq!(cc.raw(), (4 << 20) | (6 << 16) | 1);
    assert!(cc.is_enabled());
    cc.set_shdn(1);
    assert_eq!(cc.raw(), 0x0046_4001);
    cc.disable();
    assert_eq!(cc.raw(), 0x0046_4000);
    cc.set_shdn(6);
    assert_eq!(cc.raw(), 0x0046_8000);
    cc.set_css(7).set_mps(0xFF);
    assert_eq!(cc.raw(), 0x0046_8000 | (7 << 4) | (0xF << 7));
    cc.set_css(8).set_mps(0x10).set_iosqes(0).set_iocqes(0).set_shdn(0);
    assert_eq!(cc.raw(), 0);
    let mut cc = CcReg::from_raw(0xFFFF_FFFF);
    cc.set_iosqes(6);
    assert_eq!(cc.raw(), 0xFFF6_FFFF);
    cc.disable();
    assert_eq!(cc.raw(), 0xFFF6_FFFE);
}

#[test]
fn status_fields() {
    let csts = CstsReg::from_raw(0x1);
    assert!(csts.is_ready() && !csts.is_fatal());
    assert_eq!(csts.shdn_status(), 0);
    let csts = CstsReg::from_raw(0x3A);
    assert!(!csts.is_ready());
    assert!(csts.is_fatal());
    assert_eq!(csts.shdn_status(), 2);
    assert!(csts.nssro());
    assert!(csts.proc_paused());
    assert_eq!(CstsReg::from_raw(0x4).shdn_status(), 1);
    assert_eq!(CstsReg::from_raw(0xC).shdn_status(), 3);
    assert!(!CstsReg::from_raw(0xC).nssro());
}
