use thermal_printer::protocol::{BYTE_DELAY, INIT, RESET};
use thermal_printer::{Action, Event, Language, ThermalPrinter};

/// A transport and a timer that record what is asked of them. The transport
/// refuses the write with the given number, counted from 1, if there is one.
struct Bench {
    log: Vec<Action>,
    writes: usize,
    refuse: Option<(usize, u32)>,
}

impl Bench {
    fn sound() -> Bench {
        Bench { log: Vec::new(), writes: 0, refuse: None }
    }

    fn refusing(write: usize, code: u32) -> Bench {
        Bench { log: Vec::new(), writes: 0, refuse: Some((write, code)) }
    }

    fn perform(&mut self, action: Action) -> Event<u32> {
        self.log.push(action);
        match action {
            Action::Write(_) => {
                self.writes += 1;
                match self.refuse {
                    Some((write, code)) if write == self.writes => Event::Written(Err(code)),
                    _ => Event::Written(Ok(())),
                }
            }
            Action::Delay(_) => Event::Delayed,
        }
    }

    fn drive(&mut self, printer: &mut ThermalPrinter) -> Result<(), u32> {
        while let Some(action) = printer.pending() {
            let event = self.perform(action);
            printer.step(event)?;
        }
        Ok(())
    }

    fn bytes(&self) -> Vec<u8> {
        let mut bytes = Vec::new();
        for action in &self.log {
            if let Action::Write(byte) = action {
                bytes.push(*byte);
            }
        }
        bytes
    }

    fn delays(&self) -> Vec<u16> {
        let mut delays = Vec::new();
        for action in &self.log {
            if let Action::Delay(us) = action {
                delays.push(*us);
            }
        }
        delays
    }
}

fn paced(bytes: &[u8]) -> Vec<Action> {
    let mut actions = Vec::new();
    for byte in bytes {
        actions.push(Action::Write(*byte));
        actions.push(Action::Delay(573));
    }
    actions
}

fn ready_printer() -> ThermalPrinter {
    let mut printer = ThermalPrinter::new();
    assert_eq!(Bench::sound().drive(&mut printer), Ok(()));
    assert!(printer.is_ready());
    assert!(printer.is_idle());
    printer
}

#[test]
fn constants_are_the_documented_ones() {
    assert_eq!(BYTE_DELAY, 573);
    assert_eq!(RESET, [0x1B, 0x40]);
    assert_eq!(INIT, [0x1B, 0x13, 0x04, 0x08, 0x10, 0x14, 0x18, 0x1C, 0x00]);
}

#[test]
fn new_session_is_not_ready_until_driven() {
    let printer = ThermalPrinter::new();
    assert!(!printer.is_ready());
    assert!(!printer.is_idle());
    assert_eq!(printer.language(), Language::Default);
    assert_eq!(printer.pending(), Some(Action::Write(0x1B)));
}

#[test]
fn construction_sends_one_reset_then_one_init() {
    let mut printer = ThermalPrinter::new();
    let mut bench = Bench::sound();
    assert_eq!(bench.drive(&mut printer), Ok(()));
    assert_eq!(
        bench.bytes(),
        vec![0x1B, 0x40, 0x1B, 0x13, 0x04, 0x08, 0x10, 0x14, 0x18, 0x1C, 0x00]
    );
    assert_eq!(bench.delays(), vec![573; 11]);
    let mut expected = paced(&[0x1B, 0x40]);
    expected.extend(paced(&[0x1B, 0x13, 0x04, 0x08, 0x10, 0x14, 0x18, 0x1C, 0x00]));
    assert_eq!(bench.log, expected);
    assert!(printer.is_ready());
    assert!(printer.is_idle());
    assert_eq!(printer.pending(), None);
    assert_eq!(printer.language(), Language::Default);
}

#[test]
fn construction_fails_with_the_transport_error_and_never_gets_ready() {
    let frame = [0x1B, 0x40, 0x1B, 0x13, 0x04, 0x08, 0x10, 0x14, 0x18, 0x1C, 0x00];
    for write in 1..=frame.len() {
        let mut printer = ThermalPrinter::new();
        let mut bench = Bench::refusing(write, 7);
        assert_eq!(bench.drive(&mut printer), Err(7));
        assert_eq!(bench.bytes(), frame[..write].to_vec());
        assert_eq!(bench.delays(), vec![573; write - 1]);
        assert!(!printer.is_ready());
        assert!(printer.is_idle());
        assert_eq!(printer.pending(), None);
    }
}

#[test]
fn write_paces_every_byte() {
    let mut printer = ready_printer();
    let mut bench = Bench::sound();
    printer.write(&[0x01, 0x02, 0x03]);
    assert_eq!(bench.drive(&mut printer), Ok(()));
    assert_eq!(
        bench.log,
        vec![
            Action::Write(0x01),
            Action::Delay(573),
            Action::Write(0x02),
            Action::Delay(573),
            Action::Write(0x03),
            Action::Delay(573),
        ]
    );
    assert!(printer.is_idle());
}

#[test]
fn write_delays_after_the_last_byte_too() {
    let mut printer = ready_printer();
    let mut bench = Bench::sound();
    printer.write(&[0xAB]);
    assert_eq!(printer.pending(), Some(Action::Write(0xAB)));
    assert_eq!(bench.drive(&mut printer), Ok(()));
    assert_eq!(bench.log, vec![Action::Write(0xAB), Action::Delay(573)]);
}

#[test]
fn write_of_nothing_asks_for_nothing() {
    let mut printer = ready_printer();
    let mut bench = Bench::sound();
    printer.write(&[]);
    assert_eq!(printer.pending(), None);
    assert!(printer.is_idle());
    assert_eq!(bench.drive(&mut printer), Ok(()));
    assert_eq!(bench.log, vec![]);
}

#[test]
fn write_keeps_count_for_long_input() {
    let data: Vec<u8> = (0..1000u32).map(|i| (i % 251) as u8).collect();
    let mut printer = ready_printer();
    let mut bench = Bench::sound();
    printer.write(&data);
    assert_eq!(bench.drive(&mut printer), Ok(()));
    assert_eq!(bench.bytes(), data);
    assert_eq!(bench.delays(), vec![573; 1000]);
    assert_eq!(bench.log, paced(&data));
}

#[test]
fn write_stops_at_the_refused_byte() {
    let data = [0x10, 0x20, 0x30, 0x40];
    for write in 1..=data.len() {
        let mut printer = ready_printer();
        let mut bench = Bench::refusing(write, 99);
        printer.write(&data);
        assert_eq!(bench.drive(&mut printer), Err(99));
        assert_eq!(bench.bytes(), data[..write].to_vec());
        assert_eq!(bench.delays(), vec![573; write - 1]);
        let mut expected = paced(&data[..write - 1]);
        expected.push(Action::Write(data[write - 1]));
        assert_eq!(bench.log, expected);
        assert_eq!(printer.pending(), None);
        assert!(printer.is_idle());
        assert!(printer.is_ready());
    }
}

#[test]
fn refused_second_byte_of_four() {
    let mut printer = ready_printer();
    let mut bench = Bench::refusing(2, 5);
    printer.write(&[0xA0, 0xA1, 0xA2, 0xA3]);
    assert_eq!(bench.drive(&mut printer), Err(5));
    assert_eq!(
        bench.log,
        vec![Action::Write(0xA0), Action::Delay(573), Action::Write(0xA1)]
    );
}

#[test]
fn step_hands_the_error_back_as_it_came() {
    let mut printer = ready_printer();
    printer.write(&[0x55]);
    let refused: Event<String> = Event::Written(Err(String::from("link down")));
    assert_eq!(printer.step(refused), Err(String::from("link down")));
    assert_eq!(printer.pending(), None);
}

#[test]
fn session_can_be_used_again_after_a_refused_write() {
    let mut printer = ready_printer();
    printer.write(&[0x01, 0x02]);
    assert_eq!(Bench::refusing(1, 3).drive(&mut printer), Err(3));
    let mut bench = Bench::sound();
    printer.write(&[0x01, 0x02]);
    assert_eq!(bench.drive(&mut printer), Ok(()));
    assert_eq!(bench.log, paced(&[0x01, 0x02]));
}

#[test]
fn step_by_step_through_one_byte() {
    let mut printer = ready_printer();
    printer.write(&[0x7F]);
    assert!(!printer.is_idle());
    assert_eq!(printer.pending(), Some(Action::Write(0x7F)));
    assert_eq!(printer.step(Event::<u32>::Written(Ok(()))), Ok(()));
    assert!(!printer.is_idle());
    assert_eq!(printer.pending(), Some(Action::Delay(573)));
    assert_eq!(printer.step(Event::<u32>::Delayed), Ok(()));
    assert!(printer.is_idle());
    assert_eq!(printer.pending(), None);
}

#[test]
fn events_out_of_turn_are_disregarded() {
    let mut printer = ready_printer();
    assert_eq!(printer.step(Event::<u32>::Delayed), Ok(()));
    assert_eq!(printer.step(Event::<u32>::Written(Ok(()))), Ok(()));
    assert_eq!(printer.step(Event::Written(Err(1u32))), Ok(()));
    assert!(printer.is_idle());
    assert!(printer.is_ready());

    printer.write(&[0x11, 0x22]);
    assert_eq!(printer.step(Event::<u32>::Delayed), Ok(()));
    assert_eq!(printer.pending(), Some(Action::Write(0x11)));
    assert_eq!(printer.step(Event::<u32>::Written(Ok(()))), Ok(()));
    assert_eq!(printer.pending(), Some(Action::Delay(573)));
    assert_eq!(printer.step(Event::<u32>::Written(Ok(()))), Ok(()));
    assert_eq!(printer.pending(), Some(Action::Delay(573)));
    assert_eq!(printer.step(Event::Written(Err(2u32))), Ok(()));
    assert_eq!(printer.pending(), Some(Action::Delay(573)));
    assert_eq!(printer.step(Event::<u32>::Delayed), Ok(()));
    assert_eq!(printer.pending(), Some(Action::Write(0x22)));
}

#[test]
fn reset_sends_the_reset_command() {
    let mut printer = ready_printer();
    let mut bench = Bench::sound();
    printer.reset();
    assert_eq!(bench.drive(&mut printer), Ok(()));
    assert_eq!(bench.bytes(), vec![0x1B, 0x40]);
    assert_eq!(bench.log, paced(&[0x1B, 0x40]));
}

#[test]
fn init_sends_reset_and_configuration_in_order() {
    let mut printer = ready_printer();
    let mut bench = Bench::sound();
    printer.init();
    assert_eq!(bench.drive(&mut printer), Ok(()));
    assert_eq!(
        bench.bytes(),
        vec![0x1B, 0x40, 0x1B, 0x13, 0x04, 0x08, 0x10, 0x14, 0x18, 0x1C, 0x00]
    );
    assert_eq!(bench.delays(), vec![573; 11]);
}

#[test]
fn init_stops_when_its_reset_is_refused() {
    let mut printer = ready_printer();
    let mut bench = Bench::refusing(2, 8);
    printer.init();
    assert_eq!(bench.drive(&mut printer), Err(8));
    assert_eq!(bench.bytes(), vec![0x1B, 0x40]);
    assert_eq!(bench.delays(), vec![573]);
}

#[test]
fn reset_and_init_leave_the_session_language_alone() {
    let mut printer = ready_printer();
    printer.set_language(Language::Swedish);
    assert_eq!(Bench::sound().drive(&mut printer), Ok(()));
    printer.reset();
    assert_eq!(Bench::sound().drive(&mut printer), Ok(()));
    assert_eq!(printer.language(), Language::Swedish);
    printer.init();
    assert_eq!(Bench::sound().drive(&mut printer), Ok(()));
    assert_eq!(printer.language(), Language::Swedish);
}

#[test]
fn set_language_sends_the_select_command() {
    let mut printer = ready_printer();
    let mut bench = Bench::sound();
    printer.set_language(Language::Swedish);
    assert_eq!(printer.language(), Language::Default);
    assert_eq!(bench.drive(&mut printer), Ok(()));
    assert_eq!(bench.log, paced(&[0x1B, 0x52, 0x05]));
    assert_eq!(printer.language(), Language::Swedish);
}

#[test]
fn language_round_trip() {
    let mut printer = ready_printer();
    let mut bench = Bench::sound();
    printer.set_language(Language::Swedish);
    assert_eq!(bench.drive(&mut printer), Ok(()));
    printer.set_language(Language::Default);
    assert_eq!(bench.drive(&mut printer), Ok(()));
    assert_eq!(bench.bytes(), vec![0x1B, 0x52, 0x05, 0x1B, 0x52, 0x00]);
    assert_eq!(bench.delays(), vec![573; 6]);
    assert_eq!(printer.language(), Language::Default);
}

#[test]
fn set_language_changes_the_language_only_on_completion() {
    let mut printer = ready_printer();
    printer.set_language(Language::Swedish);
    for _ in 0..5 {
        let action = printer.pending().unwrap();
        let event: Event<u32> = match action {
            Action::Write(_) => Event::Written(Ok(())),
            Action::Delay(_) => Event::Delayed,
        };
        assert_eq!(printer.step(event), Ok(()));
        assert_eq!(printer.language(), Language::Default);
    }
    assert_eq!(printer.pending(), Some(Action::Delay(573)));
    assert_eq!(printer.step(Event::<u32>::Delayed), Ok(()));
    assert_eq!(printer.language(), Language::Swedish);
    assert!(printer.is_idle());
}

#[test]
fn refused_set_language_keeps_the_old_language() {
    for write in 1..=3 {
        let mut printer = ready_printer();
        let mut bench = Bench::refusing(write, 4);
        printer.set_language(Language::Swedish);
        assert_eq!(bench.drive(&mut printer), Err(4));
        assert_eq!(bench.bytes(), [0x1B, 0x52, 0x05][..write].to_vec());
        assert_eq!(bench.delays(), vec![573; write - 1]);
        assert_eq!(printer.language(), Language::Default);
        assert!(printer.is_idle());
    }
}

#[test]
fn refused_set_language_does_not_leak_into_the_next_command() {
    let mut printer = ready_printer();
    printer.set_language(Language::Swedish);
    assert_eq!(Bench::refusing(3, 4).drive(&mut printer), Err(4));
    printer.write(&[0x00]);
    assert_eq!(Bench::sound().drive(&mut printer), Ok(()));
    assert_eq!(printer.language(), Language::Default);
}

#[test]
fn print_hej_then_swedish_a_ring() {
    let mut printer = ready_printer();
    let mut bench = Bench::sound();
    printer.print("hej");
    assert_eq!(bench.drive(&mut printer), Ok(()));
    assert_eq!(bench.bytes(), vec![0x68, 0x65, 0x6A]);
    assert_eq!(bench.delays(), vec![573, 573, 573]);

    printer.set_language(Language::Swedish);
    assert_eq!(Bench::sound().drive(&mut printer), Ok(()));

    let mut bench = Bench::sound();
    printer.print("å");
    assert_eq!(bench.drive(&mut printer), Ok(()));
    assert_eq!(bench.bytes(), vec![0x7D]);
    assert_eq!(bench.delays(), vec![573]);
}

#[test]
fn print_translates_for_the_active_language() {
    let mut printer = ready_printer();
    printer.set_language(Language::Swedish);
    assert_eq!(Bench::sound().drive(&mut printer), Ok(()));
    let mut bench = Bench::sound();
    printer.print("Åke åt räkor, Örjan öl. Ärligt!");
    assert_eq!(bench.drive(&mut printer), Ok(()));
    assert_eq!(bench.bytes(), b"]ke }t r{kor, \\rjan |l. [rligt!".to_vec());
}

#[test]
fn print_in_the_default_language_keeps_the_low_byte() {
    let mut printer = ready_printer();
    let mut bench = Bench::sound();
    printer.print("aå€\u{10348}");
    assert_eq!(bench.drive(&mut printer), Ok(()));
    assert_eq!(bench.bytes(), vec![0x61, 0xE5, 0xAC, 0x48]);
    assert_eq!(bench.delays(), vec![573; 4]);
}

#[test]
fn print_sends_one_byte_per_character() {
    let text = "räksmörgås";
    let mut printer = ready_printer();
    let mut bench = Bench::sound();
    printer.print(text);
    assert_eq!(bench.drive(&mut printer), Ok(()));
    assert_eq!(bench.bytes().len(), text.chars().count());
    assert_eq!(bench.bytes(), vec![0x72, 0xE4, 0x6B, 0x73, 0x6D, 0xF6, 0x72, 0x67, 0xE5, 0x73]);
}

#[test]
fn print_of_nothing_asks_for_nothing() {
    let mut printer = ready_printer();
    printer.print("");
    assert_eq!(printer.pending(), None);
    assert!(printer.is_idle());
}

#[test]
fn print_leaves_the_rest_unsent_after_a_refusal() {
    let mut printer = ready_printer();
    let mut bench = Bench::refusing(3, 12);
    printer.print("hello");
    assert_eq!(bench.drive(&mut printer), Err(12));
    assert_eq!(bench.bytes(), b"hel".to_vec());
    assert_eq!(bench.delays(), vec![573, 573]);
    assert_eq!(printer.pending(), None);
}
