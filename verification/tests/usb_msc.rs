use tifflin_kernel::usb_msc::{
    Cbw, Csw, CswError, Driver, Endpoint, MatchLevel, ScsiInterfaceInner, CBW_FLAG_INPUT, CBW_SIG,
    CSW_SIG,
};

#[test]
fn cbw_is_laid_out_little_endian() {
    let mut cmd_bytes = [0u8; 16];
    for (i, b) in cmd_bytes.iter_mut().enumerate() {
        *b = 0xA0 + i as u8;
    }
    let cbw = Cbw {
        sig: CBW_SIG,
        tag: 0x0102_0304,
        data_len: 0x0000_0200,
        flags: 0x80,
        lun: 3,
        cmd_len: 10,
        cmd_bytes,
    };
    assert_eq!(
        cbw.to_bytes(),
        [
            0x55, 0x53, 0x42, 0x43, 0x04, 0x03, 0x02, 0x01, 0x00, 0x02, 0x00, 0x00, 0x80, 3, 10,
            0xA0, 0xA1, 0xA2, 0xA3, 0xA4, 0xA5, 0xA6, 0xA7, 0xA8, 0xA9, 0xAA, 0xAB, 0xAC, 0xAD,
            0xAE, 0xAF,
        ]
    );
}

#[test]
fn cbw_extreme_fields() {
    let cbw = Cbw {
        sig: 0xFFFF_FFFF,
        tag: 0,
        data_len: 0x8000_0001,
        flags: 0,
        lun: 255,
        cmd_len: 0,
        cmd_bytes: [0; 16],
    };
    let b = cbw.to_bytes();
    assert_eq!(&b[0..4], &[0xFF, 0xFF, 0xFF, 0xFF]);
    assert_eq!(&b[4..8], &[0, 0, 0, 0]);
    assert_eq!(&b[8..12], &[0x01, 0x00, 0x00, 0x80]);
    assert_eq!(&b[12..15], &[0, 255, 0]);
}

#[test]
fn command_is_padded_with_zeros() {
    assert_eq!(Cbw::slice_to_array(&[]), [0u8; 16]);
    assert_eq!(
        Cbw::slice_to_array(&[0x28, 0, 1, 2, 3, 4]),
        [0x28, 0, 1, 2, 3, 4, 0, 0, 0, 0, 0, 0, 0, 0, 0, 0]
    );
    let full: Vec<u8> = (1..=16).collect();
    assert_eq!(Cbw::slice_to_array(&full).to_vec(), full);
}

#[test]
fn csw_is_read_little_endian() {
    let csw = Csw::from_bytes([0x55, 0x53, 0x42, 0x53, 0x04, 0x03, 0x02, 0x01, 0xEF, 0xBE, 0xAD, 0xDE, 2]);
    assert_eq!(csw.sig, CSW_SIG);
    assert_eq!(csw.tag, 0x0102_0304);
    assert_eq!(csw.data_residue, 0xDEAD_BEEF);
    assert_eq!(csw.status, 2);
}

#[test]
fn tags_count_up_and_wrappers_carry_them() {
    let mut inner = ScsiInterfaceInner::new(11u8, 22u16);
    assert_eq!(inner.next_tag(), 0);
    assert_eq!(*inner.ep_in(), 11);
    assert_eq!(*inner.ep_out(), 22);

    let t0 = inner.recv_data(0, &[0x12, 0, 0, 0, 36, 0], 36);
    assert_eq!(t0.tag, 0);
    assert_eq!(inner.next_tag(), 1);
    assert_eq!(
        t0.cbw,
        [
            0x55, 0x53, 0x42, 0x43, 0, 0, 0, 0, 36, 0, 0, 0, CBW_FLAG_INPUT, 0, 6, 0x12, 0, 0, 0,
            36, 0, 0, 0, 0, 0, 0, 0, 0, 0, 0, 0,
        ]
    );

    let t1 = inner.send_data(1, &[0x2A, 0, 0, 0, 0, 8, 0, 0, 1, 0], 512);
    assert_eq!(t1.tag, 1);
    assert_eq!(inner.next_tag(), 2);
    assert_eq!(
        t1.cbw,
        [
            0x55, 0x53, 0x42, 0x43, 1, 0, 0, 0, 0, 2, 0, 0, 0, 1, 10, 0x2A, 0, 0, 0, 0, 8, 0, 0,
            1, 0, 0, 0, 0, 0, 0, 0,
        ]
    );
    assert_eq!(*inner.ep_in(), 11);
    assert_eq!(*inner.ep_out(), 22);
}

#[test]
fn status_must_answer_the_command() {
    let mut inner = ScsiInterfaceInner::new((), ());
    inner.send_data(0, &[0], 0);
    let t = inner.recv_data(0, &[0x25], 8);
    assert_eq!(t.tag, 1);

    let good = [0x55, 0x53, 0x42, 0x53, 1, 0, 0, 0, 4, 0, 0, 0, 1];
    let csw = t.finish(good).unwrap();
    assert_eq!(csw.tag, 1);
    assert_eq!(csw.data_residue, 4);
    assert_eq!(csw.status, 1);

    let bad_sig = [0x55, 0x53, 0x42, 0x43, 1, 0, 0, 0, 0, 0, 0, 0, 0];
    assert_eq!(t.finish(bad_sig).unwrap_err(), CswError::Signature(CBW_SIG));

    let bad_tag = [0x55, 0x53, 0x42, 0x53, 0, 0, 0, 0, 0, 0, 0, 0, 0];
    assert_eq!(t.finish(bad_tag).unwrap_err(), CswError::TagMismatch { got: 0, expected: 1 });

    // The signature is looked at first.
    let both = [0, 0, 0, 0, 9, 0, 0, 0, 0, 0, 0, 0, 0];
    assert_eq!(t.finish(both).unwrap_err(), CswError::Signature(0));
}

#[test]
fn driver_takes_scsi_mass_storage_only() {
    let d = Driver;
    assert_eq!(d.name(), "msc");
    assert_eq!(d.matches(0x1234, 0x5678, 0x080650), MatchLevel::Generic);
    assert_eq!(d.matches(0, 0, 0x080650), MatchLevel::Generic);
    assert_eq!(d.matches(0x1234, 0x5678, 0x080651), MatchLevel::NoMatch);
    assert_eq!(d.matches(0x1234, 0x5678, 0x030101), MatchLevel::NoMatch);
    assert_eq!(d.matches(0x1234, 0x5678, 0), MatchLevel::NoMatch);
}

#[test]
fn device_starts_with_its_first_two_endpoints() {
    let endpoints: Vec<Endpoint<&str, u32>> = vec![
        Endpoint::BulkIn("in"),
        Endpoint::BulkOut(7),
        Endpoint::Other,
        Endpoint::BulkIn("later"),
    ];
    let inner = Driver.start_device(endpoints);
    assert_eq!(*inner.ep_in(), "in");
    assert_eq!(*inner.ep_out(), 7);
    assert_eq!(inner.next_tag(), 0);
}

#[test]
fn data_length_keeps_its_low_32_bits() {
    let mut inner = ScsiInterfaceInner::new((), ());
    let t = inner.recv_data(0, &[], 0xFFFF_FFFF);
    assert_eq!(&t.cbw[8..12], &[0xFF, 0xFF, 0xFF, 0xFF]);
    assert_eq!(t.cbw[14], 0);
    let long = 0x1_0000_0005u64 as usize;
    let t = inner.send_data(0, &[0xAA; 16], long);
    assert_eq!(&t.cbw[8..12], &(long as u32).to_le_bytes());
    assert_eq!(t.cbw[14], 16);
    assert_eq!(&t.cbw[15..31], &[0xAA; 16]);
    assert_eq!(&t.cbw[4..8], &[1, 0, 0, 0]);
}
