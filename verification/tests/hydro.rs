use rpsump::hydro::debounce::Debouncer;
use rpsump::hydro::gpio::stub::output_pin::OutputPinStub;
use rpsump::hydro::gpio::stub::pin::PinStub as BoardPin;
use rpsump::hydro::gpio::stubb::{GpioStub, LevelStub, PinStub};
use rpsump::hydro::gpio::{InputPin, Level, OutputPin};
use rpsump::hydro::control::{Control, Output};
use rpsump::hydro::heater::Heater;
use rpsump::hydro::pool_pump::{speed_change, PinCommand, PoolPump, PoolPumpSpeed};
use rpsump::hydro::signal::{Message, PumpAction, Signal, SumpPumpListener};

fn out(index: u8) -> OutputPinStub {
    OutputPinStub { index, level: Level::Low }
}

fn pump() -> PoolPump<OutputPinStub> {
    PoolPump::new(out(1), out(2), out(3), out(4))
}

#[test]
fn test_pool_pump_new() {
    let pool_pump = pump();
    assert_eq!(pool_pump.current, PoolPumpSpeed::Off);
    assert_eq!(pool_pump.speed(), PoolPumpSpeed::Off);
}

#[test]
fn pool_pump_raises_the_new_speed_before_lowering_the_rest() {
    assert_eq!(
        speed_change(PoolPumpSpeed::High),
        vec![
            PinCommand::Raise(PoolPumpSpeed::High),
            PinCommand::Lower(PoolPumpSpeed::Low),
            PinCommand::Lower(PoolPumpSpeed::Med),
            PinCommand::Lower(PoolPumpSpeed::Max),
        ]
    );
    assert_eq!(
        speed_change(PoolPumpSpeed::Off),
        vec![
            PinCommand::Lower(PoolPumpSpeed::Low),
            PinCommand::Lower(PoolPumpSpeed::Med),
            PinCommand::Lower(PoolPumpSpeed::High),
            PinCommand::Lower(PoolPumpSpeed::Max),
        ]
    );
}

#[test]
fn pool_pump_runs_at_the_speed_it_was_set_to() {
    let mut p = pump();
    p.on(PoolPumpSpeed::Med);
    assert_eq!(p.current, PoolPumpSpeed::Med);
    assert_eq!(p.speed(), PoolPumpSpeed::Med);
    assert!(p.med.is_on());
    assert!(p.low.is_off() && p.high.is_off() && p.max.is_off());
    p.on(PoolPumpSpeed::Max);
    assert_eq!(p.speed(), PoolPumpSpeed::Max);
    assert!(p.med.is_off());
    p.off();
    assert_eq!(p.current, PoolPumpSpeed::Off);
    assert_eq!(p.speed(), PoolPumpSpeed::Off);
}

#[test]
fn heater_switches_its_output() {
    let mut h = Heater::new(Control::new("Pool Heater".to_string(), out(7)));
    assert!(h.is_off());
    assert!(h.on().is_ok());
    assert!(h.is_on() && !h.is_off());
    assert!(h.off().is_ok());
    assert!(h.is_off() && !h.is_on());
}

#[test]
fn test_reset_deadline() {
    let mut d = Debouncer::new(1000, Message::SumpEmpty);
    d.handle_interrupt(Level::High, 0);
    d.handle_interrupt(Level::Low, 500);
    assert_eq!(d.poll(1400), None);
    assert_eq!(
        d.poll(2000),
        Some(Signal { level: Level::Low, message: Message::SumpEmpty })
    );
    assert_eq!(d.poll(3000), None);
}

#[test]
fn test_message_sent_after_delay() {
    let mut d = Debouncer::new(1000, Message::SumpFull);
    d.start(0);
    assert_eq!(d.poll(999), None);
    assert_eq!(
        d.poll(2000),
        Some(Signal { level: Level::Low, message: Message::SumpFull })
    );
    assert!(!d.running);
}

#[test]
fn debouncer_reports_nothing_before_an_interrupt() {
    let mut d = Debouncer::new(10, Message::SumpFull);
    assert_eq!(d.poll(1_000_000), None);
}

#[test]
fn full_sump_starts_the_pump_with_a_safety_timer() {
    let mut l = SumpPumpListener::new(5, 120);
    let full = Signal { message: Message::SumpFull, level: Level::High };
    assert_eq!(l.handle(&full), vec![PumpAction::PumpOn, PumpAction::StartSafetyTimer(120)]);
    assert!(l.pump_on && l.timer_armed);
    assert_eq!(
        l.handle(&full),
        vec![PumpAction::PumpOn, PumpAction::AbortSafetyTimer, PumpAction::StartSafetyTimer(120)]
    );
    let empty = Signal { message: Message::SumpEmpty, level: Level::Low };
    assert_eq!(
        l.handle(&empty),
        vec![PumpAction::AbortSafetyTimer, PumpAction::Wait(5), PumpAction::PumpOff]
    );
    assert!(!l.pump_on && !l.timer_armed);
    assert_eq!(l.handle(&empty), vec![PumpAction::Wait(5), PumpAction::PumpOff]);
}

#[test]
fn safety_timer_forces_the_pump_off() {
    let mut l = SumpPumpListener::new(5, 120);
    l.handle(&Signal { message: Message::SumpFull, level: Level::High });
    assert_eq!(l.safety_timer_fired(), vec![PumpAction::PumpOff]);
    assert!(!l.pump_on && !l.timer_armed);
}

#[test]
fn board_pins_turn_into_inputs_and_outputs() {
    let p = BoardPin { level: Level::High, index: 17 };
    let input = p.into_input_pullup();
    assert!(input.is_high() && !input.is_low());
    assert_eq!(input.read(), Level::High);
    let output = BoardPin { level: Level::High, index: 18 }.into_output_low();
    assert!(output.is_off());
    assert_eq!(output.index, 18);
    assert_eq!(Level::Both.as_u8(), 2);
}

#[test]
fn gpio_stub_finds_pins_by_number() {
    let mut g = GpioStub::new().unwrap();
    assert_eq!(g.get(4).unwrap_err(), "Pin 4 not found");
    g.pins.push(PinStub { level: LevelStub::High, index: 4 });
    g.pins.push(PinStub { level: LevelStub::Low, index: 4 });
    let p = g.get(4).unwrap();
    assert_eq!(p.pin(), 4);
    assert_eq!(p.read(), LevelStub::High);
    assert_eq!(g.get(21).unwrap_err(), "Pin 21 not found");
}

#[test]
fn test_control_new() {
    let mut control = Control::new("test control".to_string(), out(1));
    assert_eq!(control.label, "test control");
    assert!(control.is_off() && !control.is_on());
    assert!(control.on().is_ok());
    assert!(control.is_on());
    assert!(control.off().is_ok());
    assert!(control.is_off());
}
