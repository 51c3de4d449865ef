use corsair_top::linear11::Linear11;
use corsair_top::protocol::{Action, SetupSession, PAGE_SETTLE_MILLIS};
use corsair_top::psu::Psu;
use corsair_top::readings::{FanMode, PsuReadings, TwelveVPageReadings};
use corsair_top::readout::READOUT_END;

/// A supply behind the bridge, at the level of decoded frames.
struct FakeSupply {
    name: Vec<u8>,
    main_page: u8,
    v_page: u8,
    pending: Option<(u8, u8)>,
    refuse_pages: Vec<u8>,
    fan_mode: Vec<u8>,
    cable: u8,
    log: Vec<Vec<u8>>,
    pauses: usize,
}

fn word_bytes(mantissa: u16, exponent: i8) -> [u8; 2] {
    let e = (exponent as u8) & 0x1f;
    let m = mantissa & 0x7ff;
    [(m & 0xff) as u8, (e << 3) | ((m >> 8) as u8)]
}

impl FakeSupply {
    fn new(name: &[u8]) -> FakeSupply {
        FakeSupply {
            name: name.to_vec(),
            main_page: 0,
            v_page: 0,
            pending: None,
            refuse_pages: Vec::new(),
            fan_mode: vec![0],
            cable: 1,
            log: Vec::new(),
            pauses: 0,
        }
    }

    fn register(&self, reg: u8, len: u8) -> Vec<u8> {
        let mut data = match reg {
            0x9a => self.name.clone(),
            0xf0 => self.fan_mode.clone(),
            0xf2 => vec![self.cable],
            0x00 => vec![self.main_page],
            0xe7 => vec![self.v_page],
            0xd2 => vec![0x10, 0x0e],
            0x8b => word_bytes(100 + self.main_page as u16 * 10 + self.v_page as u16, -3).to_vec(),
            0xe8 => word_bytes(200 + self.v_page as u16, -3).to_vec(),
            0xe9 => word_bytes(300 + self.v_page as u16, 0).to_vec(),
            0xea => word_bytes(400 + self.v_page as u16, 0).to_vec(),
            0x8c => word_bytes(500 + self.main_page as u16, -2).to_vec(),
            0x96 => word_bytes(600 + self.main_page as u16, 0).to_vec(),
            other => word_bytes(other as u16, 1).to_vec(),
        };
        if !data.is_empty() {
            data.resize(len as usize + 1, 0xee);
        }
        data
    }

    fn run(&mut self, action: Action) -> Vec<u8> {
        match action {
            Action::Pause { millis } => {
                assert_eq!(millis, PAGE_SETTLE_MILLIS);
                self.pauses += 1;
                Vec::new()
            }
            Action::Transact { command, msg, expected } => {
                assert_eq!(command, 0);
                self.log.push(msg.clone());
                let reply = if msg.len() == 7 && msg[0] == 0x13 && msg[1] == 0x03 {
                    self.pending = Some((msg[6], msg[5]));
                    vec![0]
                } else if msg.len() == 3 && msg[0] == 0x08 {
                    let (reg, len) = self.pending.take().expect("fetch without header");
                    assert_eq!(len, msg[2]);
                    self.register(reg, len)
                } else if msg.len() == 6 && msg[0] == 0x13 && msg[1] == 0x01 {
                    let (reg, value) = (msg[4], msg[5]);
                    if reg == 0x00 {
                        self.main_page = value;
                    } else if reg == 0xe7 && !self.refuse_pages.contains(&value) {
                        self.v_page = value;
                    }
                    vec![0]
                } else {
                    vec![0; 64]
                };
                reply.into_iter().take(expected).collect()
            }
        }
    }
}

fn read_once(psu: &mut Psu, dev: &mut FakeSupply) -> (PsuReadings, usize) {
    let mut session = psu.read_all();
    let mut steps = 0;
    while !session.is_finished() {
        let reply = dev.run(session.action());
        session.advance(reply);
        steps += 1;
        assert!(steps <= READOUT_END);
    }
    (psu.finish_read_all(session), steps)
}

fn w(mantissa: i32, exponent: i32) -> Linear11 {
    Linear11 { mantissa, exponent }
}

#[test]
fn setup_script() {
    let psu = Psu::new("/dev/ttyUSB0");
    let mut dev = FakeSupply::new(b"AX1600i");
    let mut s: SetupSession = psu.setup_dongle();
    while !s.is_finished() {
        let reply = dev.run(s.action());
        s.advance(reply);
    }
    assert_eq!(
        dev.log,
        vec![
            vec![0x02],
            vec![0x11, 0x02, 0x64, 0x00, 0x00, 0x00, 0x00],
            vec![0x00],
            vec![0x13, 0x03, 0x06, 0x01, 0x07, 0x07, 0x9a],
            vec![0x08, 0x07, 0x07],
        ]
    );
}

#[test]
fn full_readout_ax1500() {
    let mut psu = Psu::new("/dev/ttyUSB0");
    let mut dev = FakeSupply::new(b"AX1500i\0");
    let (r, steps) = read_once(&mut psu, &mut dev);
    assert_eq!(steps, READOUT_END);
    assert_eq!(r.name, "AX1500i");
    assert_eq!((r.bus, r.address), (0, 0));
    assert!(r.cable_type_20a);
    assert_eq!(r.fan_mode, FanMode::Auto);
    assert_eq!(r.fan_speed, w(0x90, 1));
    assert_eq!(r.temp1, w(0x8e, 1));
    assert_eq!(r.temp2, w(0x8d, 1));
    assert_eq!(r.input_power_raw, w(0x97, 1));
    assert_eq!(r.input_current, w(0x89, 1));
    assert_eq!(r.input_voltage, w(0x88, 1));
    assert_eq!(r.uptime_seconds, 3600);
    assert_eq!(r.rails.len(), 3);
    for (i, rail) in r.rails.iter().enumerate() {
        assert_eq!(rail.voltage, w(100 + 10 * i as i32, -3));
        assert_eq!(rail.current, w(500 + i as i32, -2));
        assert_eq!(rail.power, w(600 + i as i32, 0));
    }
    assert_eq!(r.twelve_v_pages.len(), 12);
    for (i, p) in r.twelve_v_pages.iter().enumerate() {
        assert_eq!(p.page as usize, i);
        assert_eq!(p.voltage, w(100 + i as i32, -3));
        assert_eq!(p.current, w(200 + i as i32, -3));
        assert_eq!(p.power, w(300 + i as i32, 0));
        assert_eq!(p.ocp_limit, w(400 + i as i32, 0));
    }
    // 3 page selections before the rails' reads, 2 per rail, 1 before the
    // pages, 12 pages, 1 before the uptime
    assert_eq!(dev.pauses, 1 + 6 + 1 + 12 + 1);
}

#[test]
fn cable_type_read_only_on_ax1500() {
    let mut psu = Psu::new("/dev/ttyUSB1");
    let mut dev = FakeSupply::new(b"AX1600i");
    let (r, steps) = read_once(&mut psu, &mut dev);
    assert_eq!(steps, READOUT_END - 2);
    assert!(!r.cable_type_20a);
    assert!(!dev.log.iter().any(|m| m.len() == 7 && m[6] == 0xf2));
}

#[test]
fn cable_byte_zero_means_no_20a_cable() {
    let mut psu = Psu::new("/dev/ttyUSB1");
    let mut dev = FakeSupply::new(b"AX1500i");
    dev.cable = 0;
    let (r, _) = read_once(&mut psu, &mut dev);
    assert!(!r.cable_type_20a);
}

#[test]
fn fan_mode_values() {
    let mut psu = Psu::new("p");
    let mut dev = FakeSupply::new(b"AX1600i");
    dev.fan_mode = vec![3];
    assert_eq!(read_once(&mut psu, &mut dev).0.fan_mode, FanMode::Fixed);
    dev.fan_mode = vec![];
    assert_eq!(read_once(&mut psu, &mut dev).0.fan_mode, FanMode::Unknown);
}

#[test]
fn refused_page_without_history_is_left_out() {
    let mut psu = Psu::new("p");
    let mut dev = FakeSupply::new(b"AX1600i");
    dev.refuse_pages = vec![4, 9];
    let (r, steps) = read_once(&mut psu, &mut dev);
    assert_eq!(steps, READOUT_END - 2 - 2 * 8);
    let pages: Vec<u8> = r.twelve_v_pages.iter().map(|p| p.page).collect();
    assert_eq!(pages, vec![0, 1, 2, 3, 5, 6, 7, 8, 10, 11]);
}

#[test]
fn refused_page_keeps_previous_reading() {
    let mut psu = Psu::new("p");
    let mut dev = FakeSupply::new(b"AX1600i");
    let (first, _) = read_once(&mut psu, &mut dev);
    let page6: TwelveVPageReadings = first.twelve_v_pages[6];
    dev.refuse_pages = vec![6];
    let (second, _) = read_once(&mut psu, &mut dev);
    assert_eq!(second.twelve_v_pages.len(), 12);
    assert_eq!(second.twelve_v_pages[6], page6);
    // page 6 stays selectable-refused: the stale copy survives a third round too
    let (third, _) = read_once(&mut psu, &mut dev);
    assert_eq!(third.twelve_v_pages[6], page6);
}

#[test]
fn readout_transaction_order() {
    let mut psu = Psu::new("p");
    let mut dev = FakeSupply::new(b"AX1500i");
    read_once(&mut psu, &mut dev);
    let first: Vec<Vec<u8>> = dev.log.iter().take(12).cloned().collect();
    assert_eq!(
        first,
        vec![
            vec![0x13, 0x03, 0x06, 0x01, 0x07, 0x07, 0x9a],
            vec![0x08, 0x07, 0x07],
            vec![0x13, 0x03, 0x06, 0x01, 0x07, 0x01, 0xf0],
            vec![0x08, 0x07, 0x01],
            vec![0x13, 0x03, 0x06, 0x01, 0x07, 0x02, 0x90],
            vec![0x08, 0x07, 0x02],
            vec![0x13, 0x03, 0x06, 0x01, 0x07, 0x02, 0x8e],
            vec![0x08, 0x07, 0x02],
            vec![0x13, 0x01, 0x04, 0x02, 0x00, 0x00],
            vec![0x13, 0x03, 0x06, 0x01, 0x07, 0x01, 0x00],
            vec![0x08, 0x07, 0x01],
            vec![0x13, 0x03, 0x06, 0x01, 0x07, 0x02, 0x97],
        ]
    );
    let last = dev.log.last().unwrap().clone();
    assert_eq!(last, vec![0x08, 0x07, 0x02]);
    let header_before_last = dev.log[dev.log.len() - 2].clone();
    assert_eq!(header_before_last, vec![0x13, 0x03, 0x06, 0x01, 0x07, 0x02, 0xd2]);
}

#[test]
fn psu_path_and_release() {
    let mut psu = Psu::new("/dev/ttyUSB3");
    assert_eq!(psu.get_path(), "/dev/ttyUSB3");
    psu.release();
    assert_eq!(psu.get_path(), "/dev/ttyUSB3");
}
