//! The pool pump: four speed inputs, of which the pump follows the highest
//! one raised.
use vstd::prelude::*;

use crate::hydro::gpio::OutputPin;

verus! {

#[derive(Clone, Copy, Debug, PartialEq, Eq, Structural)]
pub enum PoolPumpSpeed {
    Off,
    Low,
    Med,
    High,
    Max,
}

/// Which of the four speed inputs are raised.
pub struct SpeedPins {
    pub low: bool,
    pub med: bool,
    pub high: bool,
    pub max: bool,
}

/// The speed the pump runs at: that of the highest input raised.
pub open spec fn speed_of(p: SpeedPins) -> PoolPumpSpeed {
    if p.max {
        PoolPumpSpeed::Max
    } else if p.high {
        PoolPumpSpeed::High
    } else if p.med {
        PoolPumpSpeed::Med
    } else if p.low {
        PoolPumpSpeed::Low
    } else {
        PoolPumpSpeed::Off
    }
}

/// One change to one speed input.
#[derive(Clone, Copy, Debug, PartialEq, Eq, Structural)]
pub enum PinCommand {
    Raise(PoolPumpSpeed),
    Lower(PoolPumpSpeed),
}

pub open spec fn set_pin(p: SpeedPins, s: PoolPumpSpeed, v: bool) -> SpeedPins {
    match s {
        PoolPumpSpeed::Low => SpeedPins { low: v, ..p },
        PoolPumpSpeed::Med => SpeedPins { med: v, ..p },
        PoolPumpSpeed::High => SpeedPins { high: v, ..p },
        PoolPumpSpeed::Max => SpeedPins { max: v, ..p },
        PoolPumpSpeed::Off => p,
    }
}

pub open spec fn apply_command(p: SpeedPins, c: PinCommand) -> SpeedPins {
    match c {
        PinCommand::Raise(s) => set_pin(p, s, true),
        PinCommand::Lower(s) => set_pin(p, s, false),
    }
}

/// The inputs after `cs` have been carried out in order.
pub open spec fn apply_commands(p: SpeedPins, cs: Seq<PinCommand>) -> SpeedPins
    decreases cs.len(),
{
    if cs.len() == 0 {
        p
    } else {
        apply_command(apply_commands(p, cs.drop_last()), cs.last())
    }
}

/// The inputs other than `speed`'s, lowered in order from low to max.
pub open spec fn lower_others(speed: PoolPumpSpeed) -> Seq<PinCommand> {
    let all = seq![PoolPumpSpeed::Low, PoolPumpSpeed::Med, PoolPumpSpeed::High, PoolPumpSpeed::Max];
    all.filter(|s: PoolPumpSpeed| s != speed).map_values(|s: PoolPumpSpeed| PinCommand::Lower(s))
}

/// How to move the pump to `speed`. The pump follows the highest input
/// raised, so the new speed's input is raised before the others are lowered:
/// that way a change between two speeds never passes through "off".
pub open spec fn change_plan(speed: PoolPumpSpeed) -> Seq<PinCommand> {
    if speed == PoolPumpSpeed::Off {
        lower_others(speed)
    } else {
        seq![PinCommand::Raise(speed)] + lower_others(speed)
    }
}

/// The commands that move the pump to `speed`.
pub fn speed_change(speed: PoolPumpSpeed) -> (r: Vec<PinCommand>)
    ensures
        r@ == change_plan(speed),
{
    let mut cmds: Vec<PinCommand> = Vec::new();
    if speed != PoolPumpSpeed::Off {
        cmds.push(PinCommand::Raise(speed));
    }
    if speed != PoolPumpSpeed::Low {
        cmds.push(PinCommand::Lower(PoolPumpSpeed::Low));
    }
    if speed != PoolPumpSpeed::Med {
        cmds.push(PinCommand::Lower(PoolPumpSpeed::Med));
    }
    if speed != PoolPumpSpeed::High {
        cmds.push(PinCommand::Lower(PoolPumpSpeed::High));
    }
    if speed != PoolPumpSpeed::Max {
        cmds.push(PinCommand::Lower(PoolPumpSpeed::Max));
    }
    proof {
        reveal_with_fuel(Seq::<_>::filter, 5);
        let all = seq![PoolPumpSpeed::Low, PoolPumpSpeed::Med, PoolPumpSpeed::High, PoolPumpSpeed::Max];
        assert(all.drop_last() =~= seq![PoolPumpSpeed::Low, PoolPumpSpeed::Med, PoolPumpSpeed::High]);
        assert(all.drop_last().drop_last() =~= seq![PoolPumpSpeed::Low, PoolPumpSpeed::Med]);
        assert(all.drop_last().drop_last().drop_last() =~= seq![PoolPumpSpeed::Low]);
        assert(all.drop_last().drop_last().drop_last().drop_last() =~= Seq::<PoolPumpSpeed>::empty());
        assert(cmds@ =~= change_plan(speed));
    }
    cmds
}

proof fn lemma_apply_push(p: SpeedPins, cs: Seq<PinCommand>, c: PinCommand)
    ensures
        apply_commands(p, cs.push(c)) == apply_command(apply_commands(p, cs), c),
{
    assert(cs.push(c).drop_last() =~= cs);
}

proof fn lemma_apply_four(p: SpeedPins, a: PinCommand, b: PinCommand, c: PinCommand, d: PinCommand)
    ensures
        apply_commands(p, seq![a]) == apply_command(p, a),
        apply_commands(p, seq![a, b]) == apply_command(apply_command(p, a), b),
        apply_commands(p, seq![a, b, c]) == apply_command(apply_command(apply_command(p, a), b), c),
        apply_commands(p, seq![a, b, c, d]) == apply_command(
            apply_command(apply_command(apply_command(p, a), b), c),
            d,
        ),
{
    let e = Seq::<PinCommand>::empty();
    assert(apply_commands(p, e) == p);
    lemma_apply_push(p, e, a);
    assert(e.push(a) =~= seq![a]);
    lemma_apply_push(p, seq![a], b);
    assert(seq![a].push(b) =~= seq![a, b]);
    lemma_apply_push(p, seq![a, b], c);
    assert(seq![a, b].push(c) =~= seq![a, b, c]);
    lemma_apply_push(p, seq![a, b, c], d);
    assert(seq![a, b, c].push(d) =~= seq![a, b, c, d]);
}

proof fn lemma_plan_shape(speed: PoolPumpSpeed)
    ensures
        change_plan(speed) == match speed {
            PoolPumpSpeed::Off => seq![
                PinCommand::Lower(PoolPumpSpeed::Low),
                PinCommand::Lower(PoolPumpSpeed::Med),
                PinCommand::Lower(PoolPumpSpeed::High),
                PinCommand::Lower(PoolPumpSpeed::Max),
            ],
            PoolPumpSpeed::Low => seq![
                PinCommand::Raise(PoolPumpSpeed::Low),
                PinCommand::Lower(PoolPumpSpeed::Med),
                PinCommand::Lower(PoolPumpSpeed::High),
                PinCommand::Lower(PoolPumpSpeed::Max),
            ],
            PoolPumpSpeed::Med => seq![
                PinCommand::Raise(PoolPumpSpeed::Med),
                PinCommand::Lower(PoolPumpSpeed::Low),
                PinCommand::Lower(PoolPumpSpeed::High),
                PinCommand::Lower(PoolPumpSpeed::Max),
            ],
            PoolPumpSpeed::High => seq![
                PinCommand::Raise(PoolPumpSpeed::High),
                PinCommand::Lower(PoolPumpSpeed::Low),
                PinCommand::Lower(PoolPumpSpeed::Med),
                PinCommand::Lower(PoolPumpSpeed::Max),
            ],
            PoolPumpSpeed::Max => seq![
                PinCommand::Raise(PoolPumpSpeed::Max),
                PinCommand::Lower(PoolPumpSpeed::Low),
                PinCommand::Lower(PoolPumpSpeed::Med),
                PinCommand::Lower(PoolPumpSpeed::High),
            ],
        },
{
    reveal_with_fuel(Seq::<_>::filter, 5);
    let all = seq![PoolPumpSpeed::Low, PoolPumpSpeed::Med, PoolPumpSpeed::High, PoolPumpSpeed::Max];
    assert(all.drop_last() =~= seq![PoolPumpSpeed::Low, PoolPumpSpeed::Med, PoolPumpSpeed::High]);
    assert(all.drop_last().drop_last() =~= seq![PoolPumpSpeed::Low, PoolPumpSpeed::Med]);
    assert(all.drop_last().drop_last().drop_last() =~= seq![PoolPumpSpeed::Low]);
    assert(all.drop_last().drop_last().drop_last().drop_last() =~= Seq::<PoolPumpSpeed>::empty());
    assert(change_plan(speed) =~= match speed {
        PoolPumpSpeed::Off => seq![
            PinCommand::Lower(PoolPumpSpeed::Low),
            PinCommand::Lower(PoolPumpSpeed::Med),
            PinCommand::Lower(PoolPumpSpeed::High),
            PinCommand::Lower(PoolPumpSpeed::Max),
        ],
        PoolPumpSpeed::Low => seq![
            PinCommand::Raise(PoolPumpSpeed::Low),
            PinCommand::Lower(PoolPumpSpeed::Med),
            PinCommand::Lower(PoolPumpSpeed::High),
            PinCommand::Lower(PoolPumpSpeed::Max),
        ],
        PoolPumpSpeed::Med => seq![
            PinCommand::Raise(PoolPumpSpeed::Med),
            PinCommand::Lower(PoolPumpSpeed::Low),
            PinCommand::Lower(PoolPumpSpeed::High),
            PinCommand::Lower(PoolPumpSpeed::Max),
        ],
        PoolPumpSpeed::High => seq![
            PinCommand::Raise(PoolPumpSpeed::High),
            PinCommand::Lower(PoolPumpSpeed::Low),
            PinCommand::Lower(PoolPumpSpeed::Med),
            PinCommand::Lower(PoolPumpSpeed::Max),
        ],
        PoolPumpSpeed::Max => seq![
            PinCommand::Raise(PoolPumpSpeed::Max),
            PinCommand::Lower(PoolPumpSpeed::Low),
            PinCommand::Lower(PoolPumpSpeed::Med),
            PinCommand::Lower(PoolPumpSpeed::High),
        ],
    });
}

/// Whatever the inputs were before, carrying out the plan for `speed` leaves
/// exactly that speed's input raised, so the pump then runs at `speed`.
pub proof fn lemma_change_reaches_speed(p: SpeedPins, speed: PoolPumpSpeed)
    ensures
        speed_of(apply_commands(p, change_plan(speed))) == speed,
        ({
            let q = apply_commands(p, change_plan(speed));
            &&& q.low == (speed == PoolPumpSpeed::Low)
            &&& q.med == (speed == PoolPumpSpeed::Med)
            &&& q.high == (speed == PoolPumpSpeed::High)
            &&& q.max == (speed == PoolPumpSpeed::Max)
        }),
{
    lemma_plan_shape(speed);
    let c = change_plan(speed);
    lemma_apply_four(p, c[0], c[1], c[2], c[3]);
}

/// Changing to a running speed never passes through "off": after the first
/// command and after every later one, some input is raised.
pub proof fn lemma_change_never_stops(p: SpeedPins, speed: PoolPumpSpeed, k: int)
    requires
        speed != PoolPumpSpeed::Off,
        1 <= k <= change_plan(speed).len(),
    ensures
        speed_of(apply_commands(p, change_plan(speed).take(k))) != PoolPumpSpeed::Off,
{
    lemma_plan_shape(speed);
    let c = change_plan(speed);
    let t = c.take(k);
    lemma_apply_four(p, c[0], c[1], c[2], c[3]);
    if k == 1 {
        assert(t =~= seq![c[0]]);
    } else if k == 2 {
        assert(t =~= seq![c[0], c[1]]);
    } else if k == 3 {
        assert(t =~= seq![c[0], c[1], c[2]]);
    } else {
        assert(t =~= seq![c[0], c[1], c[2], c[3]]);
    }
}

/// Through every state the inputs pass while changing to a running speed,
/// the pump keeps running, and the last state runs at that speed.
pub proof fn lemma_states_never_stop(p: SpeedPins, speed: PoolPumpSpeed)
    requires
        speed != PoolPumpSpeed::Off,
    ensures
        forall|k: int|
            0 <= k < plan_states(p, change_plan(speed)).len() ==> speed_of(
                #[trigger] plan_states(p, change_plan(speed))[k],
            ) != PoolPumpSpeed::Off,
        speed_of(plan_states(p, change_plan(speed)).last()) == speed,
{
    let c = change_plan(speed);
    assert forall|k: int| 0 <= k < plan_states(p, c).len() implies speed_of(
        #[trigger] plan_states(p, c)[k],
    ) != PoolPumpSpeed::Off by {
        lemma_change_never_stops(p, speed, k + 1);
    }
    lemma_plan_shape(speed);
    assert(c.take(c.len() as int) =~= c);
    lemma_change_reaches_speed(p, speed);
}

pub struct PoolPump<P: OutputPin> {
    pub low: P,
    pub med: P,
    pub high: P,
    pub max: P,
    pub current: PoolPumpSpeed,
    /// The states of the four inputs after each command carried out, in order.
    pub trace: Ghost<Seq<SpeedPins>>,
}

/// The states the inputs pass through as `cs` is carried out from `p`: the
/// state after each command, in order.
pub open spec fn plan_states(p: SpeedPins, cs: Seq<PinCommand>) -> Seq<SpeedPins> {
    Seq::new(cs.len(), |k: int| apply_commands(p, cs.take(k + 1)))
}

impl<P: OutputPin> PoolPump<P> {
    /// The states of the four speed inputs.
    pub open spec fn pins(&self) -> SpeedPins {
        SpeedPins {
            low: self.low.spec_is_on(),
            med: self.med.spec_is_on(),
            high: self.high.spec_is_on(),
            max: self.max.spec_is_on(),
        }
    }

    /// A pump on the four given speed inputs, recorded as off.
    pub fn new(low: P, med: P, high: P, max: P) -> (r: PoolPump<P>)
        ensures
            r.current == PoolPumpSpeed::Off,
            r.trace@ == Seq::<SpeedPins>::empty(),
            r.pins() == (SpeedPins {
                low: low.spec_is_on(),
                med: med.spec_is_on(),
                high: high.spec_is_on(),
                max: max.spec_is_on(),
            }),
    {
        PoolPump { low, med, high, max, current: PoolPumpSpeed::Off, trace: Ghost(Seq::empty()) }
    }

    /// Carries out one command on the inputs.
    pub fn apply(&mut self, cmd: PinCommand)
        ensures
            final(self).pins() == apply_command(old(self).pins(), cmd),
            final(self).current == old(self).current,
            final(self).trace@ == old(self).trace@.push(final(self).pins()),
    {
        match cmd {
            PinCommand::Raise(PoolPumpSpeed::Low) => self.low.on(),
            PinCommand::Raise(PoolPumpSpeed::Med) => self.med.on(),
            PinCommand::Raise(PoolPumpSpeed::High) => self.high.on(),
            PinCommand::Raise(PoolPumpSpeed::Max) => self.max.on(),
            PinCommand::Lower(PoolPumpSpeed::Low) => self.low.off(),
            PinCommand::Lower(PoolPumpSpeed::Med) => self.med.off(),
            PinCommand::Lower(PoolPumpSpeed::High) => self.high.off(),
            PinCommand::Lower(PoolPumpSpeed::Max) => self.max.off(),
            _ => {},
        }
        proof {
            self.trace@ = self.trace@.push(self.pins());
        }
    }

    /// Carries out `cmds` in order.
    fn carry_out(&mut self, cmds: &Vec<PinCommand>)
        ensures
            final(self).pins() == apply_commands(old(self).pins(), cmds@),
            final(self).trace@ == old(self).trace@ + plan_states(old(self).pins(), cmds@),
            final(self).current == old(self).current,
    {
        let ghost start = self.pins();
        let ghost start_trace = self.trace@;
        let mut i: usize = 0;
        while i < cmds.len()
            invariant
                i <= cmds@.len(),
                self.pins() == apply_commands(start, cmds@.take(i as int)),
                self.trace@ == start_trace + plan_states(start, cmds@.take(i as int)),
                self.current == old(self).current,
            decreases cmds@.len() - i,
        {
            assert(cmds@.take(i + 1).drop_last() =~= cmds@.take(i as int));
            assert(cmds@.take(i + 1).last() == cmds@[i as int]);
            self.apply(cmds[i]);
            proof {
                let a = plan_states(start, cmds@.take(i as int));
                let b = plan_states(start, cmds@.take(i + 1));
                assert forall|k: int| 0 <= k < i implies #[trigger] b[k] == a[k] by {
                    assert(cmds@.take(i + 1).take(k + 1) =~= cmds@.take(i as int).take(k + 1));
                }
                assert(cmds@.take(i + 1).take(i + 1) =~= cmds@.take(i + 1));
                assert(b =~= a.push(self.pins()));
                assert(start_trace + b =~= (start_trace + a).push(self.pins()));
            }
            i = i + 1;
        }
        assert(cmds@.take(cmds@.len() as int) =~= cmds@);
    }

    /// Sets the pump to `speed`: the new speed's input is raised first, then
    /// the others are lowered, so the pump never drops to "off" on the way
    /// between two speeds.
    pub fn on(&mut self, speed: PoolPumpSpeed)
        ensures
            final(self).pins() == apply_commands(old(self).pins(), change_plan(speed)),
            final(self).trace@ == old(self).trace@ + plan_states(old(self).pins(), change_plan(speed)),
            final(self).current == speed,
    {
        let cmds = speed_change(speed);
        self.carry_out(&cmds);
        self.current = speed;
    }

    /// Lowers all four inputs, from low to max.
    pub fn off(&mut self)
        ensures
            final(self).pins() == (SpeedPins { low: false, med: false, high: false, max: false }),
            final(self).trace@ == old(self).trace@ + plan_states(old(self).pins(), change_plan(PoolPumpSpeed::Off)),
            final(self).current == PoolPumpSpeed::Off,
    {
        let cmds = speed_change(PoolPumpSpeed::Off);
        self.carry_out(&cmds);
        proof {
            lemma_change_reaches_speed(old(self).pins(), PoolPumpSpeed::Off);
        }
        self.current = PoolPumpSpeed::Off;
    }

    /// The speed the pump runs at, read from its inputs.
    pub fn speed(&self) -> (r: PoolPumpSpeed)
        ensures
            r == speed_of(self.pins()),
    {
        if self.max.is_on() {
            PoolPumpSpeed::Max
        } else if self.high.is_on() {
            PoolPumpSpeed::High
        } else if self.med.is_on() {
            PoolPumpSpeed::Med
        } else if self.low.is_on() {
            PoolPumpSpeed::Low
        } else {
            PoolPumpSpeed::Off
        }
    }
}

/// After `on(speed)` the pump reads back `speed`, whatever it ran at before.
pub proof fn lemma_on_then_speed<P: OutputPin>(before: PoolPump<P>, after: PoolPump<P>, speed: PoolPumpSpeed)
    requires
        after.pins() == apply_commands(before.pins(), change_plan(speed)),
    ensures
        speed_of(after.pins()) == speed,
{
    lemma_change_reaches_speed(before.pins(), speed);
}

} // verus!
